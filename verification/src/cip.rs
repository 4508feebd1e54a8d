//! The Common Industrial Protocol as a client sees it: the numbers of its
//! services, classes and data types, the segments of an electronic path, and
//! the request and response of the Message Router.

use vstd::prelude::*;
use vstd::slice::{slice_subrange, slice_to_vec};
use crate::common::{
    le_u16_at, le_u32_at, lemma_after_after, lemma_after_end, lemma_after_nothing,
    lemma_prepend_nothing, lemma_prepend_prepend, lemma_u16_le_round_trip, lemma_u32_le_round_trip,
    lemma_words_round_trip, push_bytes, push_le_u16, push_le_u32, push_words, spec_after,
    spec_le_u16, spec_le_u32, spec_prepend, spec_u16_le_bytes, spec_u32_le_bytes, spec_words,
    spec_words_bytes, words_at, EncodeError, Feature, Field, ParseError, Reason, Serializable,
};

verus! {

/// The services every object may offer.
#[derive(Clone, Copy, Debug, PartialEq, Eq, Structural)]
pub enum CipService {
    GetAttributesAll,
    SetAttributesAll,
    GetAttributeList,
    SetAttributesList,
    Reset,
    Start,
    Stop,
    Create,
    Delete,
    MultipleServicePacket,
    ApplyAttributes,
    GetAttributeSingle,
    SetAttributeSingle,
    Save,
}

impl CipService {
    /// The number that stands for the variant on the wire.
    pub open spec fn spec_code(self) -> u8 {
        match self {
            CipService::GetAttributesAll => 0x01,
            CipService::SetAttributesAll => 0x02,
            CipService::GetAttributeList => 0x03,
            CipService::SetAttributesList => 0x04,
            CipService::Reset => 0x05,
            CipService::Start => 0x06,
            CipService::Stop => 0x07,
            CipService::Create => 0x08,
            CipService::Delete => 0x09,
            CipService::MultipleServicePacket => 0x0A,
            CipService::ApplyAttributes => 0x0D,
            CipService::GetAttributeSingle => 0x0E,
            CipService::SetAttributeSingle => 0x10,
            CipService::Save => 0x16,
        }
    }

    /// The number that stands for the variant on the wire.
    pub fn code(self) -> (r: u8)
        ensures
            r == self.spec_code(),
    {
        match self {
            CipService::GetAttributesAll => 0x01,
            CipService::SetAttributesAll => 0x02,
            CipService::GetAttributeList => 0x03,
            CipService::SetAttributesList => 0x04,
            CipService::Reset => 0x05,
            CipService::Start => 0x06,
            CipService::Stop => 0x07,
            CipService::Create => 0x08,
            CipService::Delete => 0x09,
            CipService::MultipleServicePacket => 0x0A,
            CipService::ApplyAttributes => 0x0D,
            CipService::GetAttributeSingle => 0x0E,
            CipService::SetAttributeSingle => 0x10,
            CipService::Save => 0x16,
        }
    }
}
/// What a logical segment addresses.
#[derive(Clone, Copy, Debug, PartialEq, Eq, Structural)]
pub enum LogicalType {
    ClassId,
    InstanceId,
    MemberId,
    ConnectionPoint,
    AttributeId,
    Special,
    ServiceId,
    ExdendedLogical,
}

impl LogicalType {
    /// The number that stands for the variant on the wire.
    pub open spec fn spec_code(self) -> u8 {
        match self {
            LogicalType::ClassId => 0,
            LogicalType::InstanceId => 1,
            LogicalType::MemberId => 2,
            LogicalType::ConnectionPoint => 3,
            LogicalType::AttributeId => 4,
            LogicalType::Special => 5,
            LogicalType::ServiceId => 6,
            LogicalType::ExdendedLogical => 7,
        }
    }

    /// The number that stands for the variant on the wire.
    pub fn code(self) -> (r: u8)
        ensures
            r == self.spec_code(),
    {
        match self {
            LogicalType::ClassId => 0,
            LogicalType::InstanceId => 1,
            LogicalType::MemberId => 2,
            LogicalType::ConnectionPoint => 3,
            LogicalType::AttributeId => 4,
            LogicalType::Special => 5,
            LogicalType::ServiceId => 6,
            LogicalType::ExdendedLogical => 7,
        }
    }

    /// The variant that `code` stands for, if there is one.
    pub fn from_code(code: u8) -> (r: Option<LogicalType>)
        ensures
            match r {
                Some(v) => v.spec_code() == code,
                None => forall|v: LogicalType| v.spec_code() != code,
            },
    {
        if code == 0 {
            Some(LogicalType::ClassId)
        } else if code == 1 {
            Some(LogicalType::InstanceId)
        } else if code == 2 {
            Some(LogicalType::MemberId)
        } else if code == 3 {
            Some(LogicalType::ConnectionPoint)
        } else if code == 4 {
            Some(LogicalType::AttributeId)
        } else if code == 5 {
            Some(LogicalType::Special)
        } else if code == 6 {
            Some(LogicalType::ServiceId)
        } else if code == 7 {
            Some(LogicalType::ExdendedLogical)
        } else {
            None
        }
    }
}
/// How wide the value of a logical segment is on the wire.
#[derive(Clone, Copy, Debug, PartialEq, Eq, Structural)]
pub enum LogicalFormat {
    EightBit,
    SixteenBit,
    ThirtyTwoBit,
}

impl LogicalFormat {
    /// The number that stands for the variant on the wire.
    pub open spec fn spec_code(self) -> u8 {
        match self {
            LogicalFormat::EightBit => 0,
            LogicalFormat::SixteenBit => 1,
            LogicalFormat::ThirtyTwoBit => 2,
        }
    }

    /// The number that stands for the variant on the wire.
    pub fn code(self) -> (r: u8)
        ensures
            r == self.spec_code(),
    {
        match self {
            LogicalFormat::EightBit => 0,
            LogicalFormat::SixteenBit => 1,
            LogicalFormat::ThirtyTwoBit => 2,
        }
    }

    /// The variant that `code` stands for, if there is one.
    pub fn from_code(code: u8) -> (r: Option<LogicalFormat>)
        ensures
            match r {
                Some(v) => v.spec_code() == code,
                None => forall|v: LogicalFormat| v.spec_code() != code,
            },
    {
        if code == 0 {
            Some(LogicalFormat::EightBit)
        } else if code == 1 {
            Some(LogicalFormat::SixteenBit)
        } else if code == 2 {
            Some(LogicalFormat::ThirtyTwoBit)
        } else {
            None
        }
    }
}
/// The object classes with a number of their own.
#[derive(Clone, Copy, Debug, PartialEq, Eq, Structural)]
pub enum CipClass {
    Identity,
    MessageRouter,
    DeviceNet,
    Assembly,
    Connection,
    ConnectionManager,
    Register,
    DiscreteInputPoint,
    DiscreteOutputPoint,
    AnalogInputPoint,
    AnalogOutputPoint,
    Parameter,
    ParameterGroup,
    Group,
    DiscreteInputGroup,
    DiscreteOutputGroup,
    DiscreteGroup,
    File,
    ControlNet,
    ControlNetKeeper,
    ControlNetScheduling,
    ConnectionConfiguration,
    Port,
    TCPIPObject,
    EtherNetLink,
}

impl CipClass {
    /// The number that stands for the variant on the wire.
    pub open spec fn spec_code(self) -> u16 {
        match self {
            CipClass::Identity => 0x01,
            CipClass::MessageRouter => 0x02,
            CipClass::DeviceNet => 0x03,
            CipClass::Assembly => 0x04,
            CipClass::Connection => 0x05,
            CipClass::ConnectionManager => 0x06,
            CipClass::Register => 0x07,
            CipClass::DiscreteInputPoint => 0x08,
            CipClass::DiscreteOutputPoint => 0x09,
            CipClass::AnalogInputPoint => 0x0A,
            CipClass::AnalogOutputPoint => 0x0B,
            CipClass::Parameter => 0x0F,
            CipClass::ParameterGroup => 0x10,
            CipClass::Group => 0x12,
            CipClass::DiscreteInputGroup => 0x1D,
            CipClass::DiscreteOutputGroup => 0x1E,
            CipClass::DiscreteGroup => 0x1F,
            CipClass::File => 0x37,
            CipClass::ControlNet => 0xF0,
            CipClass::ControlNetKeeper => 0xF1,
            CipClass::ControlNetScheduling => 0xF2,
            CipClass::ConnectionConfiguration => 0xF3,
            CipClass::Port => 0xF4,
            CipClass::TCPIPObject => 0xF5,
            CipClass::EtherNetLink => 0xF6,
        }
    }

    /// The number that stands for the variant on the wire.
    pub fn code(self) -> (r: u16)
        ensures
            r == self.spec_code(),
    {
        match self {
            CipClass::Identity => 0x01,
            CipClass::MessageRouter => 0x02,
            CipClass::DeviceNet => 0x03,
            CipClass::Assembly => 0x04,
            CipClass::Connection => 0x05,
            CipClass::ConnectionManager => 0x06,
            CipClass::Register => 0x07,
            CipClass::DiscreteInputPoint => 0x08,
            CipClass::DiscreteOutputPoint => 0x09,
            CipClass::AnalogInputPoint => 0x0A,
            CipClass::AnalogOutputPoint => 0x0B,
            CipClass::Parameter => 0x0F,
            CipClass::ParameterGroup => 0x10,
            CipClass::Group => 0x12,
            CipClass::DiscreteInputGroup => 0x1D,
            CipClass::DiscreteOutputGroup => 0x1E,
            CipClass::DiscreteGroup => 0x1F,
            CipClass::File => 0x37,
            CipClass::ControlNet => 0xF0,
            CipClass::ControlNetKeeper => 0xF1,
            CipClass::ControlNetScheduling => 0xF2,
            CipClass::ConnectionConfiguration => 0xF3,
            CipClass::Port => 0xF4,
            CipClass::TCPIPObject => 0xF5,
            CipClass::EtherNetLink => 0xF6,
        }
    }
}
/// The elementary data types.
#[derive(Clone, Copy, Debug, PartialEq, Eq, Structural)]
pub enum CipDataType {
    Bool,
    Sint,
    Int,
    Dint,
    Lint,
    Usint,
    Uint,
    Udint,
    Ulint,
    Real,
    Lreal,
    Byte,
    Word,
    Dword,
    Lword,
}

impl CipDataType {
    /// The number that stands for the variant on the wire.
    pub open spec fn spec_code(self) -> u16 {
        match self {
            CipDataType::Bool => 0x01,
            CipDataType::Sint => 0x02,
            CipDataType::Int => 0x03,
            CipDataType::Dint => 0x04,
            CipDataType::Lint => 0x05,
            CipDataType::Usint => 0x06,
            CipDataType::Uint => 0x07,
            CipDataType::Udint => 0x08,
            CipDataType::Ulint => 0x09,
            CipDataType::Real => 0x0A,
            CipDataType::Lreal => 0x0B,
            CipDataType::Byte => 0x0C,
            CipDataType::Word => 0x0D,
            CipDataType::Dword => 0x0E,
            CipDataType::Lword => 0x0F,
        }
    }

    /// The number that stands for the variant on the wire.
    pub fn code(self) -> (r: u16)
        ensures
            r == self.spec_code(),
    {
        match self {
            CipDataType::Bool => 0x01,
            CipDataType::Sint => 0x02,
            CipDataType::Int => 0x03,
            CipDataType::Dint => 0x04,
            CipDataType::Lint => 0x05,
            CipDataType::Usint => 0x06,
            CipDataType::Uint => 0x07,
            CipDataType::Udint => 0x08,
            CipDataType::Ulint => 0x09,
            CipDataType::Real => 0x0A,
            CipDataType::Lreal => 0x0B,
            CipDataType::Byte => 0x0C,
            CipDataType::Word => 0x0D,
            CipDataType::Dword => 0x0E,
            CipDataType::Lword => 0x0F,
        }
    }
}
/// A logical segment: one coordinate of an object address, such as a class
/// or an instance number.
#[derive(Clone, Copy, Debug, PartialEq, Eq, Structural)]
pub struct LogicalSegment {
    pub logical_type: u8,
    pub logical_format: u8,
    pub value: u32,
}

impl View for LogicalSegment {
    type V = LogicalSegment;

    open spec fn view(&self) -> LogicalSegment {
        *self
    }
}

impl LogicalSegment {
    /// The narrowest format that holds `value`.
    pub open spec fn spec_minimal_format(value: u32) -> u8 {
        if value < 0x100 {
            0
        } else if value < 0x1_0000 {
            1
        } else {
            2
        }
    }

    /// Whether a value fits in the width that a format stands for. Nothing
    /// fits in the reserved format.
    pub open spec fn spec_fits(logical_format: u8, value: u32) -> bool {
        (logical_format == 0 && value < 0x100) || (logical_format == 1 && value < 0x1_0000)
            || logical_format == 2
    }

    /// The format chosen for a value holds the value, and no narrower format
    /// does.
    pub proof fn lemma_minimal_format(value: u32)
        ensures
            Self::spec_fits(Self::spec_minimal_format(value), value),
            forall|narrower: u8|
                narrower < Self::spec_minimal_format(value) ==> !Self::spec_fits(narrower, value),
            Self::spec_init(0, value).spec_wire().len() == 2 * (Self::spec_minimal_format(value)
                + 1),
    {
    }

    /// Whether the segment can stand on the wire: the type fits in three
    /// bits, the format is not the reserved one and is wide enough for the
    /// value.
    pub open spec fn spec_wf(self) -> bool {
        self.spec_violation() is None
    }

    /// The invariant the segment breaks, if it breaks one.
    pub open spec fn spec_violation(self) -> Option<Reason> {
        if self.logical_type > 7 {
            Some(Reason::LogicalType)
        } else if !Self::spec_fits(self.logical_format, self.value) {
            Some(Reason::LogicalFormat)
        } else {
            None
        }
    }

    /// The leading byte: `001` in the top three bits, then the type, then
    /// the format.
    pub open spec fn spec_type_byte(self) -> u8 {
        (0x20 + 4 * self.logical_type + self.logical_format) as u8
    }

    /// The bytes of the value, as wide as the format says.
    pub open spec fn spec_value_bytes(self) -> Seq<u8> {
        if self.logical_format == 0 {
            seq![self.value as u8]
        } else if self.logical_format == 1 {
            spec_u16_le_bytes(self.value as u16)
        } else {
            spec_u32_le_bytes(self.value)
        }
    }

    /// The bytes of the segment: the leading byte, a zero pad byte where the
    /// value is wider than eight bits, and the value.
    pub open spec fn spec_wire(self) -> Seq<u8> {
        if self.logical_format == 0 {
            seq![self.spec_type_byte()] + self.spec_value_bytes()
        } else {
            seq![self.spec_type_byte(), 0u8] + self.spec_value_bytes()
        }
    }

    /// The segment of the given type and value in the narrowest format that
    /// holds the value.
    pub open spec fn spec_init(logical_type: u8, value: u32) -> LogicalSegment {
        LogicalSegment { logical_type, logical_format: Self::spec_minimal_format(value), value }
    }

    /// The segment of type 0 with the value 0.
    pub fn new() -> (r: Self)
        ensures
            r == (LogicalSegment { logical_type: 0, logical_format: 0, value: 0 }),
            r.spec_wf(),
    {
        LogicalSegment { logical_type: 0, logical_format: 0, value: 0 }
    }

    /// The segment of the given type and value, in the narrowest format that
    /// holds the value.
    pub fn init(logical_type: u8, value: u32) -> (r: Self)
        requires
            logical_type <= 7,
        ensures
            r == Self::spec_init(logical_type, value),
            r.spec_wf(),
    {
        let mut r = LogicalSegment { logical_type: 0, logical_format: 0, value: 0 };
        r.set_segment(logical_type, value);
        r
    }

    /// The segment of the given type and value, in the narrowest format that
    /// holds the value.
    pub fn new_typed(logical_type: LogicalType, value: u32) -> (r: Self)
        ensures
            r == Self::spec_init(logical_type.spec_code(), value),
            r.spec_wf(),
    {
        Self::init(logical_type.code(), value)
    }

    /// Gives the segment a type and a value, and the narrowest format that
    /// holds the value.
    pub fn set_segment(&mut self, logical_type: u8, value: u32)
        requires
            logical_type <= 7,
        ensures
            *final(self) == Self::spec_init(logical_type, value),
            final(self).spec_wf(),
    {
        if value < 0x100 {
            self.logical_format = 0;
        } else if value < 0x1_0000 {
            self.logical_format = 1;
        } else {
            self.logical_format = 2;
        }
        self.logical_type = logical_type;
        self.value = value;
    }

    /// What parsing a logical segment from the front of `s` yields.
    pub open spec fn spec_parse(s: Seq<u8>) -> Result<(Seq<u8>, LogicalSegment), ParseError> {
        if s.len() < 1 {
            Err(ParseError::Incomplete(1))
        } else if s[0] / 32 != 1 {
            Err(ParseError::Malformed(Field::SegmentType))
        } else {
            let logical_type = ((s[0] / 4) % 8) as u8;
            let logical_format = (s[0] % 4) as u8;
            if logical_format == 3 {
                Err(ParseError::Malformed(Field::LogicalFormat))
            } else if logical_format == 0 {
                if s.len() < 2 {
                    Err(ParseError::Incomplete((2 - s.len()) as usize))
                } else {
                    Ok(
                        (
                            s.skip(2),
                            LogicalSegment { logical_type, logical_format, value: s[1] as u32 },
                        ),
                    )
                }
            } else if logical_format == 1 {
                if s.len() < 4 {
                    Err(ParseError::Incomplete((4 - s.len()) as usize))
                } else if s[1] != 0 {
                    Err(ParseError::Malformed(Field::LogicalPad))
                } else {
                    Ok(
                        (
                            s.skip(4),
                            LogicalSegment {
                                logical_type,
                                logical_format,
                                value: spec_le_u16(s, 2) as u32,
                            },
                        ),
                    )
                }
            } else {
                if s.len() < 6 {
                    Err(ParseError::Incomplete((6 - s.len()) as usize))
                } else if s[1] != 0 {
                    Err(ParseError::Malformed(Field::LogicalPad))
                } else {
                    Ok(
                        (
                            s.skip(6),
                            LogicalSegment {
                                logical_type,
                                logical_format,
                                value: spec_le_u32(s, 2),
                            },
                        ),
                    )
                }
            }
        }
    }

    /// A segment that parses is well formed, and it took an even, positive
    /// number of bytes off the front of the input.
    pub proof fn lemma_parse(s: Seq<u8>)
        ensures
            Self::spec_parse(s) matches Ok((rest, v)) ==> v.spec_wf() && rest.len() < s.len() && (
            s.len() - rest.len()) % 2 == 0,
    {
    }

    /// Parsing the encoding of a segment gives the segment back and leaves
    /// what followed it.
    pub proof fn lemma_round_trip(v: LogicalSegment, tail: Seq<u8>)
        requires
            v.spec_wf(),
        ensures
            v.spec_wire().len() % 2 == 0,
            v.spec_wire().len() == 2 || v.spec_wire().len() == 4 || v.spec_wire().len() == 6,
            v.spec_wire()[0] / 32 == 1,
            Self::spec_parse(v.spec_wire() + tail) == Ok::<(Seq<u8>, LogicalSegment), ParseError>(
                (tail, v),
            ),
    {
        let s = v.spec_wire() + tail;
        let b = v.spec_type_byte();
        assert(s[0] == b);
        assert(b / 32 == 1 && (b / 4) % 8 == v.logical_type && b % 4 == v.logical_format);
        if v.logical_format == 0 {
            assert(s.skip(2) =~= tail);
            assert(s[1] == v.value as u8);
        } else if v.logical_format == 1 {
            assert(s.skip(4) =~= tail);
            assert(s.subrange(2, 4) =~= spec_u16_le_bytes(v.value as u16));
            lemma_u16_le_round_trip(s, 2, v.value as u16);
        } else {
            assert(s.skip(6) =~= tail);
            assert(s.subrange(2, 6) =~= spec_u32_le_bytes(v.value));
            lemma_u32_le_round_trip(s, 2, v.value);
        }
    }
}

impl Serializable for LogicalSegment {
    open spec fn spec_serialize(v: LogicalSegment) -> Result<Seq<u8>, EncodeError> {
        match v.spec_violation() {
            Some(reason) => Err(EncodeError::EncodingInvariantViolated(reason)),
            None => Ok(v.spec_wire()),
        }
    }

    open spec fn spec_deserialize(input: Seq<u8>) -> Result<
        (Seq<u8>, LogicalSegment),
        ParseError,
    > {
        LogicalSegment::spec_parse(input)
    }

    fn serialize(&self) -> (r: Result<Vec<u8>, EncodeError>) {
        if self.logical_type > 7 {
            return Err(EncodeError::EncodingInvariantViolated(Reason::LogicalType));
        }
        if self.logical_format > 2 || (self.logical_format == 0 && self.value >= 0x100) || (
        self.logical_format == 1 && self.value >= 0x1_0000) {
            return Err(EncodeError::EncodingInvariantViolated(Reason::LogicalFormat));
        }
        let mut out: Vec<u8> = Vec::new();
        out.push(0x20 + 4 * self.logical_type + self.logical_format);
        if self.logical_format == 0 {
            out.push(self.value as u8);
        } else if self.logical_format == 1 {
            out.push(0u8);
            push_le_u16(&mut out, self.value as u16);
        } else {
            out.push(0u8);
            push_le_u32(&mut out, self.value);
        }
        assert(out@ =~= self.spec_wire());
        Ok(out)
    }

    fn deserialize<'a>(input: &'a [u8]) -> (r: Result<(&'a [u8], Self), ParseError>) {
        let n: usize = input.len();
        if n < 1 {
            return Err(ParseError::Incomplete(1));
        }
        let b: u8 = input[0];
        if b / 32 != 1 {
            return Err(ParseError::Malformed(Field::SegmentType));
        }
        let logical_type: u8 = (b / 4) % 8;
        let logical_format: u8 = b % 4;
        if logical_format == 3 {
            Err(ParseError::Malformed(Field::LogicalFormat))
        } else if logical_format == 0 {
            if n < 2 {
                return Err(ParseError::Incomplete(2 - n));
            }
            let value: u32 = input[1] as u32;
            let segment = LogicalSegment { logical_type, logical_format, value };
            Ok((slice_subrange(input, 2, n), segment))
        } else if logical_format == 1 {
            if n < 4 {
                return Err(ParseError::Incomplete(4 - n));
            }
            if input[1] != 0 {
                return Err(ParseError::Malformed(Field::LogicalPad));
            }
            let value: u32 = le_u16_at(input, 2) as u32;
            let segment = LogicalSegment { logical_type, logical_format, value };
            Ok((slice_subrange(input, 4, n), segment))
        } else {
            if n < 6 {
                return Err(ParseError::Incomplete(6 - n));
            }
            if input[1] != 0 {
                return Err(ParseError::Malformed(Field::LogicalPad));
            }
            let value: u32 = le_u32_at(input, 2);
            let segment = LogicalSegment { logical_type, logical_format, value };
            Ok((slice_subrange(input, 6, n), segment))
        }
    }
}

/// A port segment: the port to leave a device by, and the address of the
/// next hop on that port's network.
#[derive(Clone, Debug, PartialEq, Eq)]
pub struct PortSegment {
    pub extended_link_address: bool,
    pub port_identifier: u8,
    pub link_address: Vec<u8>,
}

/// The mathematical content of a port segment.
pub struct PortSegmentView {
    pub extended_link_address: bool,
    pub port_identifier: u8,
    pub link_address: Seq<u8>,
}

impl View for PortSegment {
    type V = PortSegmentView;

    open spec fn view(&self) -> PortSegmentView {
        PortSegmentView {
            extended_link_address: self.extended_link_address,
            port_identifier: self.port_identifier,
            link_address: self.link_address@,
        }
    }
}

impl PortSegment {
    /// Why the segment cannot stand on the wire, if it cannot. Only ports 1
    /// to 14 with a link address of one byte can.
    pub open spec fn spec_violation(v: PortSegmentView) -> Option<EncodeError> {
        if v.extended_link_address {
            Some(EncodeError::NotSupported(Feature::ExtendedLinkAddress))
        } else if v.port_identifier == 0 {
            Some(EncodeError::EncodingInvariantViolated(Reason::PortIdentifier))
        } else if v.port_identifier > 14 {
            Some(EncodeError::NotSupported(Feature::ExtendedPortIdentifier))
        } else if v.link_address.len() == 0 {
            Some(EncodeError::EncodingInvariantViolated(Reason::LinkAddress))
        } else if v.link_address.len() > 1 {
            Some(EncodeError::NotSupported(Feature::ExtendedLinkAddress))
        } else {
            None
        }
    }

    /// The bytes of the segment: the port number, then the link address.
    pub open spec fn spec_wire(v: PortSegmentView) -> Seq<u8> {
        seq![v.port_identifier] + v.link_address
    }

    /// What parsing a port segment from the front of `s` yields.
    pub open spec fn spec_parse(s: Seq<u8>) -> Result<(Seq<u8>, PortSegmentView), ParseError> {
        if s.len() < 1 {
            Err(ParseError::Incomplete(1))
        } else if s[0] / 32 != 0 {
            Err(ParseError::Malformed(Field::SegmentType))
        } else if (s[0] / 16) % 2 == 1 {
            Err(ParseError::NotSupported(Feature::ExtendedLinkAddress))
        } else if s[0] % 16 == 0 {
            Err(ParseError::Malformed(Field::PortIdentifier))
        } else if s[0] % 16 == 15 {
            Err(ParseError::NotSupported(Feature::ExtendedPortIdentifier))
        } else if s.len() < 2 {
            Err(ParseError::Incomplete(1))
        } else {
            Ok(
                (
                    s.skip(2),
                    PortSegmentView {
                        extended_link_address: false,
                        port_identifier: (s[0] % 16) as u8,
                        link_address: seq![s[1]],
                    },
                ),
            )
        }
    }

    /// The segment for port 1 with no link address yet.
    pub fn new() -> (r: Self)
        ensures
            r@ == (PortSegmentView {
                extended_link_address: false,
                port_identifier: 1,
                link_address: Seq::<u8>::empty(),
            }),
    {
        PortSegment { port_identifier: 1, extended_link_address: false, link_address: Vec::new() }
    }

    /// Gives the segment a port number and keeps all else.
    pub fn set_segment(&mut self, port_identifier: u8)
        ensures
            final(self)@ == (PortSegmentView { port_identifier, ..old(self)@ }),
    {
        self.port_identifier = port_identifier;
    }

    /// Gives the segment a link address and keeps all else.
    pub fn set_address(&mut self, address: Vec<u8>)
        ensures
            final(self)@ == (PortSegmentView { link_address: address@, ..old(self)@ }),
    {
        self.link_address = address;
    }

    /// A segment that parses can be encoded, and it took two bytes off the
    /// front of the input.
    pub proof fn lemma_parse(s: Seq<u8>)
        ensures
            Self::spec_parse(s) matches Ok((rest, v)) ==> Self::spec_violation(v) is None
                && rest.len() + 2 == s.len(),
    {
    }

    /// Parsing the encoding of a segment gives the segment back and leaves
    /// what followed it.
    pub proof fn lemma_round_trip(v: PortSegmentView, tail: Seq<u8>)
        requires
            Self::spec_violation(v) is None,
        ensures
            Self::spec_wire(v).len() == 2,
            Self::spec_wire(v)[0] / 32 == 0,
            Self::spec_parse(Self::spec_wire(v) + tail) == Ok::<
                (Seq<u8>, PortSegmentView),
                ParseError,
            >((tail, v)),
    {
        let s = Self::spec_wire(v) + tail;
        let b = v.port_identifier;
        assert(s[0] == b && s[1] == v.link_address[0]);
        assert(b / 32 == 0 && (b / 16) % 2 == 0 && b % 16 == b);
        assert(s.skip(2) =~= tail);
        assert(seq![s[1]] =~= v.link_address);
    }
}

impl Serializable for PortSegment {
    open spec fn spec_serialize(v: PortSegmentView) -> Result<Seq<u8>, EncodeError> {
        match PortSegment::spec_violation(v) {
            Some(e) => Err(e),
            None => Ok(PortSegment::spec_wire(v)),
        }
    }

    open spec fn spec_deserialize(input: Seq<u8>) -> Result<
        (Seq<u8>, PortSegmentView),
        ParseError,
    > {
        PortSegment::spec_parse(input)
    }

    fn serialize(&self) -> (r: Result<Vec<u8>, EncodeError>) {
        if self.extended_link_address {
            return Err(EncodeError::NotSupported(Feature::ExtendedLinkAddress));
        }
        if self.port_identifier == 0 {
            return Err(EncodeError::EncodingInvariantViolated(Reason::PortIdentifier));
        }
        if self.port_identifier > 14 {
            return Err(EncodeError::NotSupported(Feature::ExtendedPortIdentifier));
        }
        if self.link_address.len() == 0 {
            return Err(EncodeError::EncodingInvariantViolated(Reason::LinkAddress));
        }
        if self.link_address.len() > 1 {
            return Err(EncodeError::NotSupported(Feature::ExtendedLinkAddress));
        }
        let mut out: Vec<u8> = Vec::new();
        out.push(self.port_identifier);
        push_bytes(&mut out, self.link_address.as_slice());
        assert(out@ =~= PortSegment::spec_wire(self@));
        Ok(out)
    }

    fn deserialize<'a>(input: &'a [u8]) -> (r: Result<(&'a [u8], Self), ParseError>) {
        let n: usize = input.len();
        if n < 1 {
            return Err(ParseError::Incomplete(1));
        }
        let b: u8 = input[0];
        if b / 32 != 0 {
            return Err(ParseError::Malformed(Field::SegmentType));
        }
        if (b / 16) % 2 == 1 {
            return Err(ParseError::NotSupported(Feature::ExtendedLinkAddress));
        }
        if b % 16 == 0 {
            return Err(ParseError::Malformed(Field::PortIdentifier));
        }
        if b % 16 == 15 {
            return Err(ParseError::NotSupported(Feature::ExtendedPortIdentifier));
        }
        if n < 2 {
            return Err(ParseError::Incomplete(1));
        }
        let mut link_address: Vec<u8> = Vec::new();
        link_address.push(input[1]);
        assert(link_address@ =~= seq![input@[1]]);
        Ok(
            (
                slice_subrange(input, 2, n),
                PortSegment { extended_link_address: false, port_identifier: b % 16, link_address },
            ),
        )
    }
}

/// What every kind of path segment offers besides its codec: its leading
/// byte and the bytes that follow the leading byte and its padding.
pub trait EpathSegments: Serializable {
    /// The leading byte of an encodable segment.
    spec fn spec_type(v: Self::V) -> u8;

    /// The bytes of an encodable segment that carry its value.
    spec fn spec_data(v: Self::V) -> Seq<u8>;

    /// The leading byte of the segment.
    fn get_type(&self) -> (r: u8)
        requires
            Self::spec_serialize(self@) is Ok,
        ensures
            r == Self::spec_type(self@),
            r == Self::spec_serialize(self@)->Ok_0[0],
    ;

    /// The bytes of the segment that carry its value.
    fn get_data(&self) -> (r: Vec<u8>)
        requires
            Self::spec_serialize(self@) is Ok,
        ensures
            r@ == Self::spec_data(self@),
    ;
}

impl EpathSegments for LogicalSegment {
    open spec fn spec_type(v: LogicalSegment) -> u8 {
        v.spec_type_byte()
    }

    open spec fn spec_data(v: LogicalSegment) -> Seq<u8> {
        v.spec_value_bytes()
    }

    fn get_type(&self) -> (r: u8) {
        0x20 + 4 * self.logical_type + self.logical_format
    }

    fn get_data(&self) -> (r: Vec<u8>) {
        let mut out: Vec<u8> = Vec::new();
        if self.logical_format == 0 {
            out.push(self.value as u8);
        } else if self.logical_format == 1 {
            push_le_u16(&mut out, self.value as u16);
        } else {
            push_le_u32(&mut out, self.value);
        }
        assert(out@ =~= self.spec_value_bytes());
        out
    }
}

impl EpathSegments for PortSegment {
    open spec fn spec_type(v: PortSegmentView) -> u8 {
        v.port_identifier
    }

    open spec fn spec_data(v: PortSegmentView) -> Seq<u8> {
        v.link_address
    }

    fn get_type(&self) -> (r: u8) {
        self.port_identifier
    }

    fn get_data(&self) -> (r: Vec<u8>) {
        slice_to_vec(self.link_address.as_slice())
    }
}

/// One segment of a path.
#[derive(Clone, Debug, PartialEq, Eq)]
pub enum Segment {
    Logical(LogicalSegment),
    Port(PortSegment),
}

/// The mathematical content of a segment.
pub enum SegmentView {
    Logical(LogicalSegment),
    Port(PortSegmentView),
}

impl View for Segment {
    type V = SegmentView;

    open spec fn view(&self) -> SegmentView {
        match *self {
            Segment::Logical(l) => SegmentView::Logical(l),
            Segment::Port(p) => SegmentView::Port(p@),
        }
    }
}

impl Segment {
    /// A segment that parses can be encoded, and it took an even, positive
    /// number of bytes off the front of the input.
    pub proof fn lemma_parse(s: Seq<u8>)
        ensures
            Self::spec_deserialize(s) matches Ok((rest, v)) ==> Self::spec_serialize(v) is Ok
                && rest.len() < s.len() && (s.len() - rest.len()) % 2 == 0,
    {
        LogicalSegment::lemma_parse(s);
        PortSegment::lemma_parse(s);
    }

    /// Parsing the encoding of a segment gives the segment back and leaves
    /// what followed it; the encoding has an even number of bytes.
    pub proof fn lemma_round_trip(v: SegmentView, tail: Seq<u8>)
        requires
            Self::spec_serialize(v) is Ok,
        ensures
            Self::spec_serialize(v)->Ok_0.len() % 2 == 0,
            0 < Self::spec_serialize(v)->Ok_0.len() <= 6,
            Self::spec_deserialize(Self::spec_serialize(v)->Ok_0 + tail) == Ok::<
                (Seq<u8>, SegmentView),
                ParseError,
            >((tail, v)),
    {
        match v {
            SegmentView::Logical(l) => {
                LogicalSegment::lemma_round_trip(l, tail);
                assert((l.spec_wire() + tail)[0] == l.spec_wire()[0]);
            },
            SegmentView::Port(p) => {
                PortSegment::lemma_round_trip(p, tail);
                assert((PortSegment::spec_wire(p) + tail)[0] == PortSegment::spec_wire(p)[0]);
            },
        }
    }
}

impl Serializable for Segment {
    open spec fn spec_serialize(v: SegmentView) -> Result<Seq<u8>, EncodeError> {
        match v {
            SegmentView::Logical(l) => LogicalSegment::spec_serialize(l),
            SegmentView::Port(p) => PortSegment::spec_serialize(p),
        }
    }

    open spec fn spec_deserialize(input: Seq<u8>) -> Result<(Seq<u8>, SegmentView), ParseError> {
        if input.len() < 1 {
            Err(ParseError::Incomplete(1))
        } else if input[0] / 32 == 1 {
            match LogicalSegment::spec_deserialize(input) {
                Ok((rest, l)) => Ok((rest, SegmentView::Logical(l))),
                Err(e) => Err(e),
            }
        } else if input[0] / 32 == 0 {
            match PortSegment::spec_deserialize(input) {
                Ok((rest, p)) => Ok((rest, SegmentView::Port(p))),
                Err(e) => Err(e),
            }
        } else {
            Err(ParseError::Malformed(Field::SegmentType))
        }
    }

    fn serialize(&self) -> (r: Result<Vec<u8>, EncodeError>) {
        match self {
            Segment::Logical(l) => l.serialize(),
            Segment::Port(p) => p.serialize(),
        }
    }

    fn deserialize<'a>(input: &'a [u8]) -> (r: Result<(&'a [u8], Self), ParseError>) {
        let n: usize = input.len();
        if n < 1 {
            return Err(ParseError::Incomplete(1));
        }
        let kind: u8 = input[0] / 32;
        if kind == 1 {
            match LogicalSegment::deserialize(input) {
                Ok((rest, l)) => Ok((rest, Segment::Logical(l))),
                Err(e) => Err(e),
            }
        } else if kind == 0 {
            match PortSegment::deserialize(input) {
                Ok((rest, p)) => Ok((rest, Segment::Port(p))),
                Err(e) => Err(e),
            }
        } else {
            Err(ParseError::Malformed(Field::SegmentType))
        }
    }
}

impl EpathSegments for Segment {
    open spec fn spec_type(v: SegmentView) -> u8 {
        match v {
            SegmentView::Logical(l) => LogicalSegment::spec_type(l),
            SegmentView::Port(p) => PortSegment::spec_type(p),
        }
    }

    open spec fn spec_data(v: SegmentView) -> Seq<u8> {
        match v {
            SegmentView::Logical(l) => LogicalSegment::spec_data(l),
            SegmentView::Port(p) => PortSegment::spec_data(p),
        }
    }

    fn get_type(&self) -> (r: u8) {
        match self {
            Segment::Logical(l) => l.get_type(),
            Segment::Port(p) => p.get_type(),
        }
    }

    fn get_data(&self) -> (r: Vec<u8>) {
        match self {
            Segment::Logical(l) => l.get_data(),
            Segment::Port(p) => p.get_data(),
        }
    }
}

/// An electronic path: the segments that lead to an object, in order.
#[derive(Clone, Debug, PartialEq, Eq)]
pub struct EPath {
    pub attributes: Vec<Segment>,
}

/// The mathematical content of a run of segments.
pub open spec fn spec_segments_view(segments: Seq<Segment>) -> Seq<SegmentView> {
    segments.map_values(|segment: Segment| segment@)
}

impl View for EPath {
    type V = Seq<SegmentView>;

    open spec fn view(&self) -> Seq<SegmentView> {
        spec_segments_view(self.attributes@)
    }
}

/// The largest number of bytes a path may have where a one-byte word count
/// goes before it.
pub const MAX_PATH_BYTES: usize = 510;

/// The word count that goes before the bytes of a path, or the invariant
/// the bytes break: their number must be even and at most 510.
pub open spec fn spec_path_words(path: Seq<u8>) -> Result<u8, EncodeError> {
    if path.len() % 2 != 0 {
        Err(EncodeError::EncodingInvariantViolated(Reason::OddPathLength))
    } else if path.len() > 510 {
        Err(EncodeError::EncodingInvariantViolated(Reason::PathTooLong))
    } else {
        Ok((path.len() / 2) as u8)
    }
}

/// The word count that goes before the bytes of a path. Fails when the
/// bytes do not fill whole 16-bit words, or are more than the count can
/// express.
pub fn path_words(path: &[u8]) -> (r: Result<u8, EncodeError>)
    ensures
        r == spec_path_words(path@),
{
    let n: usize = path.len();
    if n % 2 != 0 {
        Err(EncodeError::EncodingInvariantViolated(Reason::OddPathLength))
    } else if n > MAX_PATH_BYTES {
        Err(EncodeError::EncodingInvariantViolated(Reason::PathTooLong))
    } else {
        Ok((n / 2) as u8)
    }
}

impl EPath {
    /// A path without segments.
    pub fn new() -> (r: Self)
        ensures
            r@ == Seq::<SegmentView>::empty(),
    {
        let r = EPath { attributes: Vec::new() };
        assert(r@ =~= Seq::<SegmentView>::empty());
        r
    }

    /// Puts `segment` behind the segments already in the path.
    pub fn push(&mut self, segment: Segment)
        ensures
            final(self)@ == old(self)@.push(segment@),
    {
        self.attributes.push(segment);
        assert(self@ =~= old(self)@.push(segment@));
    }

    /// The number of bytes the path encodes to, or why it cannot be encoded.
    pub fn encoded_len(&self) -> (r: Result<usize, EncodeError>)
        ensures
            match r {
                Ok(n) => Self::spec_serialize(self@) is Ok && n == Self::spec_serialize(
                    self@,
                )->Ok_0.len(),
                Err(e) => Self::spec_serialize(self@) == Err::<Seq<u8>, EncodeError>(e),
            },
    {
        match self.serialize() {
            Ok(bytes) => Ok(bytes.len()),
            Err(e) => Err(e),
        }
    }

    /// The encodings of `segments` one after the other, or the error of the
    /// first segment that cannot be encoded.
    pub open spec fn spec_serialize_segments(segments: Seq<SegmentView>) -> Result<
        Seq<u8>,
        EncodeError,
    >
        decreases segments.len(),
    {
        if segments.len() == 0 {
            Ok(Seq::<u8>::empty())
        } else {
            match Segment::spec_serialize(segments[0]) {
                Ok(first) => spec_after(first, Self::spec_serialize_segments(segments.skip(1))),
                Err(e) => Err(e),
            }
        }
    }

    /// What parsing segments from `s` until nothing is left yields.
    pub open spec fn spec_parse_segments(s: Seq<u8>) -> Result<
        (Seq<u8>, Seq<SegmentView>),
        ParseError,
    >
        decreases s.len(),
    {
        if s.len() == 0 {
            Ok((s, Seq::<SegmentView>::empty()))
        } else {
            match Segment::spec_deserialize(s) {
                Ok((rest, segment)) => if rest.len() < s.len() {
                    spec_prepend(seq![segment], Self::spec_parse_segments(rest))
                } else {
                    Err(ParseError::Malformed(Field::SegmentType))
                },
                Err(e) => Err(e),
            }
        }
    }

    /// What parsing a path from bytes that a word count has cut off yields.
    /// Bytes that end inside a segment show that the count was wrong.
    pub open spec fn spec_parse_sized(s: Seq<u8>) -> Result<Seq<SegmentView>, ParseError> {
        match Self::spec_parse_segments(s) {
            Ok((_, segments)) => Ok(segments),
            Err(ParseError::Incomplete(_)) => Err(ParseError::Malformed(Field::PathSize)),
            Err(e) => Err(e),
        }
    }

    /// Parses a path from bytes that a word count has cut off.
    pub fn parse_sized(input: &[u8]) -> (r: Result<EPath, ParseError>)
        ensures
            match r {
                Ok(path) => Self::spec_parse_sized(input@) == Ok::<Seq<SegmentView>, ParseError>(
                    path@,
                ),
                Err(e) => Self::spec_parse_sized(input@) == Err::<Seq<SegmentView>, ParseError>(e),
            },
    {
        match Self::deserialize(input) {
            Ok((_, path)) => Ok(path),
            Err(ParseError::Incomplete(_)) => Err(ParseError::Malformed(Field::PathSize)),
            Err(e) => Err(e),
        }
    }

    /// The encoding of a path of one segment is the encoding of the segment.
    pub proof fn lemma_one_segment(a: SegmentView)
        requires
            Segment::spec_serialize(a) is Ok,
        ensures
            Self::spec_serialize(seq![a]) == Ok::<Seq<u8>, EncodeError>(
                Segment::spec_serialize(a)->Ok_0,
            ),
    {
        let v = seq![a];
        let wa = Segment::spec_serialize(a)->Ok_0;
        assert(v.skip(1) =~= Seq::<SegmentView>::empty());
        assert(Self::spec_serialize_segments(v.skip(1)) == Ok::<Seq<u8>, EncodeError>(
            Seq::<u8>::empty(),
        ));
        assert(wa + Seq::<u8>::empty() =~= wa);
    }

    /// The encoding of a path of two segments is the encodings of the two,
    /// in order.
    pub proof fn lemma_two_segments(a: SegmentView, b: SegmentView)
        requires
            Segment::spec_serialize(a) is Ok,
            Segment::spec_serialize(b) is Ok,
        ensures
            Self::spec_serialize(seq![a, b]) == Ok::<Seq<u8>, EncodeError>(
                Segment::spec_serialize(a)->Ok_0 + Segment::spec_serialize(b)->Ok_0,
            ),
    {
        let v = seq![a, b];
        assert(v.skip(1) =~= seq![b]);
        Self::lemma_one_segment(b);
    }

    /// The encoding of a path of three segments is the encodings of the
    /// three, in order.
    pub proof fn lemma_three_segments(a: SegmentView, b: SegmentView, c: SegmentView)
        requires
            Segment::spec_serialize(a) is Ok,
            Segment::spec_serialize(b) is Ok,
            Segment::spec_serialize(c) is Ok,
        ensures
            Self::spec_serialize(seq![a, b, c]) == Ok::<Seq<u8>, EncodeError>(
                Segment::spec_serialize(a)->Ok_0 + Segment::spec_serialize(b)->Ok_0
                    + Segment::spec_serialize(c)->Ok_0,
            ),
    {
        let v = seq![a, b, c];
        let wa = Segment::spec_serialize(a)->Ok_0;
        let wb = Segment::spec_serialize(b)->Ok_0;
        let wc = Segment::spec_serialize(c)->Ok_0;
        assert(v.skip(1) =~= seq![b, c]);
        Self::lemma_two_segments(b, c);
        assert(wa + (wb + wc) =~= wa + wb + wc);
    }

    /// Every path the library encodes has an even number of bytes.
    pub proof fn lemma_even_length(v: Seq<SegmentView>)
        requires
            Self::spec_serialize(v) is Ok,
        ensures
            Self::spec_serialize(v)->Ok_0.len() % 2 == 0,
            Self::spec_serialize(v)->Ok_0.len() <= 6 * v.len(),
        decreases v.len(),
    {
        if v.len() > 0 {
            Segment::lemma_round_trip(v[0], Seq::<u8>::empty());
            Self::lemma_even_length(v.skip(1));
        }
    }

    /// Parsing the encoding of a path gives the path back and leaves
    /// nothing.
    pub proof fn lemma_round_trip(v: Seq<SegmentView>)
        requires
            Self::spec_serialize(v) is Ok,
        ensures
            Self::spec_deserialize(Self::spec_serialize(v)->Ok_0) == Ok::<
                (Seq<u8>, Seq<SegmentView>),
                ParseError,
            >((Seq::<u8>::empty(), v)),
            Self::spec_parse_sized(Self::spec_serialize(v)->Ok_0) == Ok::<
                Seq<SegmentView>,
                ParseError,
            >(v),
        decreases v.len(),
    {
        if v.len() == 0 {
            assert(v =~= Seq::<SegmentView>::empty());
        } else {
            let head = v[0];
            let others_v = v.skip(1);
            let first = Segment::spec_serialize(head)->Ok_0;
            let others = Self::spec_serialize_segments(others_v)->Ok_0;
            assert(Segment::spec_serialize(head) is Ok);
            assert(Self::spec_serialize_segments(others_v) is Ok);
            let s = first + others;
            assert(Self::spec_serialize(v)->Ok_0 == s);
            assert(Segment::spec_deserialize(s) == Ok::<(Seq<u8>, SegmentView), ParseError>(
                (others, head),
            ) && s.len() > others.len()) by {
                Segment::lemma_round_trip(head, others);
            }
            assert(Self::spec_parse_segments(others) == Ok::<
                (Seq<u8>, Seq<SegmentView>),
                ParseError,
            >((Seq::<u8>::empty(), others_v))) by {
                Self::lemma_round_trip(others_v);
            }
            assert(seq![head] + others_v =~= v);
            assert(Self::spec_parse_segments(s) == spec_prepend(
                seq![head],
                Self::spec_parse_segments(others),
            ));
        }
    }
}

impl Serializable for EPath {
    open spec fn spec_serialize(v: Seq<SegmentView>) -> Result<Seq<u8>, EncodeError> {
        EPath::spec_serialize_segments(v)
    }

    open spec fn spec_deserialize(input: Seq<u8>) -> Result<
        (Seq<u8>, Seq<SegmentView>),
        ParseError,
    > {
        EPath::spec_parse_segments(input)
    }

    fn serialize(&self) -> (r: Result<Vec<u8>, EncodeError>) {
        let n: usize = self.attributes.len();
        let mut out: Vec<u8> = Vec::new();
        let mut i: usize = 0;
        proof {
            assert(self@.skip(0) =~= self@);
            lemma_after_nothing(EPath::spec_serialize_segments(self@));
        }
        while i < n
            invariant
                i <= n,
                n == self.attributes@.len(),
                Self::spec_serialize(self@) == spec_after(
                    out@,
                    EPath::spec_serialize_segments(self@.skip(i as int)),
                ),
            decreases n - i,
        {
            assert(self@.skip(i as int)[0] == self.attributes@[i as int]@);
            assert(self@.skip(i as int).skip(1) =~= self@.skip(i + 1));
            match self.attributes[i].serialize() {
                Ok(bytes) => {
                    proof {
                        lemma_after_after(
                            out@,
                            bytes@,
                            EPath::spec_serialize_segments(self@.skip(i + 1)),
                        );
                    }
                    push_bytes(&mut out, bytes.as_slice());
                },
                Err(e) => {
                    return Err(e);
                },
            }
            i = i + 1;
        }
        proof {
            lemma_after_end(out@);
        }
        Ok(out)
    }

    fn deserialize<'a>(input: &'a [u8]) -> (r: Result<(&'a [u8], Self), ParseError>) {
        let mut cur: &[u8] = input;
        let mut segments: Vec<Segment> = Vec::new();
        proof {
            assert(spec_segments_view(segments@) =~= Seq::<SegmentView>::empty());
            lemma_prepend_nothing(EPath::spec_parse_segments(input@));
        }
        while cur.len() > 0
            invariant
                Self::spec_deserialize(input@) == spec_prepend(
                    spec_segments_view(segments@),
                    EPath::spec_parse_segments(cur@),
                ),
            decreases cur@.len(),
        {
            proof {
                Segment::lemma_parse(cur@);
            }
            match Segment::deserialize(cur) {
                Ok((rest, segment)) => {
                    proof {
                        lemma_prepend_prepend(
                            spec_segments_view(segments@),
                            seq![segment@],
                            EPath::spec_parse_segments(rest@),
                        );
                        assert(spec_segments_view(segments@.push(segment)) =~= spec_segments_view(
                            segments@,
                        ) + seq![segment@]);
                    }
                    segments.push(segment);
                    cur = rest;
                },
                Err(e) => {
                    return Err(e);
                },
            }
        }
        proof {
            assert(spec_segments_view(segments@) + Seq::<SegmentView>::empty()
                =~= spec_segments_view(segments@));
        }
        Ok((cur, EPath { attributes: segments }))
    }
}

/// A request to the Message Router: a service, the path of the object it is
/// for, and the service's data.
#[derive(Clone, Debug, PartialEq, Eq)]
pub struct MessageRouterRequest {
    pub service: u8,
    pub epath: EPath,
    pub data: Vec<u8>,
}

/// The mathematical content of a Message Router request.
pub struct MessageRouterRequestView {
    pub service: u8,
    pub epath: Seq<SegmentView>,
    pub data: Seq<u8>,
}

impl View for MessageRouterRequest {
    type V = MessageRouterRequestView;

    open spec fn view(&self) -> MessageRouterRequestView {
        MessageRouterRequestView { service: self.service, epath: self.epath@, data: self.data@ }
    }
}

impl MessageRouterRequest {
    /// Parsing the encoding of a request gives the request back and leaves
    /// nothing.
    pub proof fn lemma_round_trip(v: MessageRouterRequestView)
        requires
            Self::spec_serialize(v) is Ok,
        ensures
            Self::spec_deserialize(Self::spec_serialize(v)->Ok_0) == Ok::<
                (Seq<u8>, MessageRouterRequestView),
                ParseError,
            >((Seq::<u8>::empty(), v)),
    {
        let path = EPath::spec_serialize(v.epath)->Ok_0;
        let words = spec_path_words(path)->Ok_0;
        let s = seq![v.service, words] + path + v.data;
        assert(Self::spec_serialize(v)->Ok_0 == s);
        assert(s[0] == v.service && s[1] == words);
        assert(2 * words == path.len());
        assert(s.subrange(2, 2 + path.len() as int) =~= path);
        assert(s.skip(2 + path.len() as int) =~= v.data);
        EPath::lemma_round_trip(v.epath);
    }
}

impl Serializable for MessageRouterRequest {
    open spec fn spec_serialize(v: MessageRouterRequestView) -> Result<Seq<u8>, EncodeError> {
        match EPath::spec_serialize(v.epath) {
            Ok(path) => match spec_path_words(path) {
                Ok(words) => Ok(seq![v.service, words] + path + v.data),
                Err(e) => Err(e),
            },
            Err(e) => Err(e),
        }
    }

    open spec fn spec_deserialize(input: Seq<u8>) -> Result<
        (Seq<u8>, MessageRouterRequestView),
        ParseError,
    > {
        if input.len() < 2 {
            Err(ParseError::Incomplete((2 - input.len()) as usize))
        } else {
            let path_len = 2 * (input[1] as int);
            if input.len() - 2 < path_len {
                Err(ParseError::Incomplete((path_len - (input.len() - 2)) as usize))
            } else {
                match EPath::spec_parse_sized(input.subrange(2, 2 + path_len)) {
                    Ok(epath) => Ok(
                        (
                            Seq::<u8>::empty(),
                            MessageRouterRequestView {
                                service: input[0],
                                epath,
                                data: input.skip(2 + path_len),
                            },
                        ),
                    ),
                    Err(e) => Err(e),
                }
            }
        }
    }

    fn serialize(&self) -> (r: Result<Vec<u8>, EncodeError>) {
        let path: Vec<u8> = match self.epath.serialize() {
            Ok(path) => path,
            Err(e) => {
                return Err(e);
            },
        };
        let words: u8 = match path_words(path.as_slice()) {
            Ok(words) => words,
            Err(e) => {
                return Err(e);
            },
        };
        let mut out: Vec<u8> = Vec::new();
        out.push(self.service);
        out.push(words);
        push_bytes(&mut out, path.as_slice());
        push_bytes(&mut out, self.data.as_slice());
        assert(out@ =~= seq![self.service, words] + path@ + self.data@);
        Ok(out)
    }

    fn deserialize<'a>(input: &'a [u8]) -> (r: Result<(&'a [u8], Self), ParseError>) {
        let n: usize = input.len();
        if n < 2 {
            return Err(ParseError::Incomplete(2 - n));
        }
        let path_len: usize = 2 * (input[1] as usize);
        if n - 2 < path_len {
            return Err(ParseError::Incomplete(path_len - (n - 2)));
        }
        let end: usize = 2 + path_len;
        match EPath::parse_sized(slice_subrange(input, 2, end)) {
            Ok(epath) => {
                let data: Vec<u8> = slice_to_vec(slice_subrange(input, end, n));
                let rest = slice_subrange(input, n, n);
                assert(rest@ =~= Seq::<u8>::empty());
                Ok((rest, MessageRouterRequest { service: input[0], epath, data }))
            },
            Err(e) => Err(e),
        }
    }
}

/// A response of the Message Router: the service it answers with the reply
/// bit set, the general status, the additional status words, and the data.
#[derive(Clone, Debug, PartialEq, Eq)]
pub struct MessageRouterResponse {
    pub service: u8,
    pub reserved: u8,
    pub general_status: u8,
    pub size_of_additional_status: u8,
    pub additional_status: Vec<u16>,
    pub data: Vec<u8>,
}

/// The mathematical content of a Message Router response.
pub struct MessageRouterResponseView {
    pub service: u8,
    pub reserved: u8,
    pub general_status: u8,
    pub size_of_additional_status: u8,
    pub additional_status: Seq<u16>,
    pub data: Seq<u8>,
}

impl View for MessageRouterResponse {
    type V = MessageRouterResponseView;

    open spec fn view(&self) -> MessageRouterResponseView {
        MessageRouterResponseView {
            service: self.service,
            reserved: self.reserved,
            general_status: self.general_status,
            size_of_additional_status: self.size_of_additional_status,
            additional_status: self.additional_status@,
            data: self.data@,
        }
    }
}

impl MessageRouterResponse {
    /// The invariant a response breaks, if it breaks one: the service byte
    /// carries the reply bit, and the stored count of additional status
    /// words is the number of words held.
    pub open spec fn spec_violation(v: MessageRouterResponseView) -> Option<Reason> {
        if v.service < 0x80 {
            Some(Reason::ResponseService)
        } else if v.size_of_additional_status != v.additional_status.len() {
            Some(Reason::LengthMismatch)
        } else {
            None
        }
    }

    /// Parsing the encoding of a response gives the response back and
    /// leaves nothing.
    pub proof fn lemma_round_trip(v: MessageRouterResponseView)
        requires
            Self::spec_serialize(v) is Ok,
        ensures
            Self::spec_deserialize(Self::spec_serialize(v)->Ok_0) == Ok::<
                (Seq<u8>, MessageRouterResponseView),
                ParseError,
            >((Seq::<u8>::empty(), v)),
    {
        let words = spec_words_bytes(v.additional_status);
        let s = seq![v.service, v.reserved, v.general_status, v.size_of_additional_status] + words
            + v.data;
        assert(Self::spec_serialize(v)->Ok_0 == s);
        assert(s[0] == v.service && s[1] == v.reserved && s[2] == v.general_status && s[3]
            == v.size_of_additional_status);
        assert(words.len() == 2 * v.additional_status.len());
        assert(s.subrange(4, 4 + 2 * v.additional_status.len() as int) =~= words);
        assert(s.skip(4 + 2 * v.additional_status.len() as int) =~= v.data);
        lemma_words_round_trip(s, 4, v.additional_status);
    }
}

impl Serializable for MessageRouterResponse {
    open spec fn spec_serialize(v: MessageRouterResponseView) -> Result<Seq<u8>, EncodeError> {
        match MessageRouterResponse::spec_violation(v) {
            Some(reason) => Err(EncodeError::EncodingInvariantViolated(reason)),
            None => Ok(
                seq![v.service, v.reserved, v.general_status, v.size_of_additional_status]
                    + spec_words_bytes(v.additional_status) + v.data,
            ),
        }
    }

    open spec fn spec_deserialize(input: Seq<u8>) -> Result<
        (Seq<u8>, MessageRouterResponseView),
        ParseError,
    > {
        if input.len() < 4 {
            Err(ParseError::Incomplete((4 - input.len()) as usize))
        } else if input[0] < 0x80 {
            Err(ParseError::Malformed(Field::ResponseService))
        } else {
            let status_len = 2 * (input[3] as int);
            if input.len() - 4 < status_len {
                Err(ParseError::Incomplete((status_len - (input.len() - 4)) as usize))
            } else {
                Ok(
                    (
                        Seq::<u8>::empty(),
                        MessageRouterResponseView {
                            service: input[0],
                            reserved: input[1],
                            general_status: input[2],
                            size_of_additional_status: input[3],
                            additional_status: spec_words(input, 4, input[3] as nat),
                            data: input.skip(4 + status_len),
                        },
                    ),
                )
            }
        }
    }

    fn serialize(&self) -> (r: Result<Vec<u8>, EncodeError>) {
        if self.service < 0x80 {
            return Err(EncodeError::EncodingInvariantViolated(Reason::ResponseService));
        }
        if self.size_of_additional_status as usize != self.additional_status.len() {
            return Err(EncodeError::EncodingInvariantViolated(Reason::LengthMismatch));
        }
        let mut out: Vec<u8> = Vec::new();
        out.push(self.service);
        out.push(self.reserved);
        out.push(self.general_status);
        out.push(self.size_of_additional_status);
        push_words(&mut out, self.additional_status.as_slice());
        push_bytes(&mut out, self.data.as_slice());
        assert(out@ =~= seq![
            self.service,
            self.reserved,
            self.general_status,
            self.size_of_additional_status,
        ] + spec_words_bytes(self.additional_status@) + self.data@);
        Ok(out)
    }

    fn deserialize<'a>(input: &'a [u8]) -> (r: Result<(&'a [u8], Self), ParseError>) {
        let n: usize = input.len();
        if n < 4 {
            return Err(ParseError::Incomplete(4 - n));
        }
        if input[0] < 0x80 {
            return Err(ParseError::Malformed(Field::ResponseService));
        }
        let count: usize = input[3] as usize;
        let status_len: usize = 2 * count;
        if n - 4 < status_len {
            return Err(ParseError::Incomplete(status_len - (n - 4)));
        }
        let additional_status: Vec<u16> = words_at(input, 4, count);
        let data: Vec<u8> = slice_to_vec(slice_subrange(input, 4 + status_len, n));
        let rest = slice_subrange(input, n, n);
        assert(rest@ =~= Seq::<u8>::empty());
        Ok(
            (
                rest,
                MessageRouterResponse {
                    service: input[0],
                    reserved: input[1],
                    general_status: input[2],
                    size_of_additional_status: input[3],
                    additional_status,
                    data,
                },
            ),
        )
    }
}

} // verus!
