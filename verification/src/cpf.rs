//! The Common Packet Format: an ordered list of type-tagged items that the
//! data-carrying encapsulation commands hold.

use vstd::prelude::*;
use vstd::slice::{slice_subrange, slice_to_vec};
use crate::common::{
    all_zero, be_u16_at, be_u32_at, le_u16_at, le_u32_at, lemma_after_after, lemma_after_end,
    lemma_prepend_nothing, lemma_prepend_prepend, lemma_u16_be_round_trip, lemma_u16_le_round_trip,
    lemma_u32_be_round_trip, lemma_u32_le_round_trip, push_be_u16, push_be_u32, push_bytes,
    push_le_u16, push_le_u32, push_zeros, read_le_u16, spec_after, spec_be_u16, spec_be_u32,
    spec_le_u16, spec_le_u32, spec_prepend, spec_u16_be_bytes, spec_u16_le_bytes, spec_u32_be_bytes,
    spec_u32_le_bytes, spec_zeros, EncodeError, Field, ParseError, Reason, Serializable,
};

verus! {

/// Type id of a null address item.
pub const TYPE_NULL_ADDRESS: u16 = 0x0000;

/// Type id of a connected address item.
pub const TYPE_CONNECTED_ADDRESS: u16 = 0x00A1;

/// Type id of a connected data item.
pub const TYPE_CONNECTED_DATA: u16 = 0x00B1;

/// Type id of an unconnected data item.
pub const TYPE_UNCONNECTED_DATA: u16 = 0x00B2;

/// Type id of a socket address item, originator to target.
pub const TYPE_SOCKADDR_O_TO_T: u16 = 0x8000;

/// Type id of a socket address item, target to originator.
pub const TYPE_SOCKADDR_T_TO_O: u16 = 0x8001;

/// Whether `type_id` names one of the item kinds this crate decodes.
pub open spec fn spec_is_known_type_id(type_id: u16) -> bool {
    type_id == 0x0000 || type_id == 0x00A1 || type_id == 0x00B1 || type_id == 0x00B2 || type_id
        == 0x8000 || type_id == 0x8001
}

/// Whether `type_id` names one of the item kinds this crate decodes.
pub fn is_known_type_id(type_id: u16) -> (r: bool)
    ensures
        r == spec_is_known_type_id(type_id),
{
    type_id == TYPE_NULL_ADDRESS || type_id == TYPE_CONNECTED_ADDRESS || type_id
        == TYPE_CONNECTED_DATA || type_id == TYPE_UNCONNECTED_DATA || type_id
        == TYPE_SOCKADDR_O_TO_T || type_id == TYPE_SOCKADDR_T_TO_O
}

/// The four bytes that start every item: its type id and the length of its
/// body.
#[derive(Clone, Copy, Debug, PartialEq, Eq, Structural)]
pub struct CommonPacketHeader {
    pub type_id: u16,
    pub length: u16,
}

impl View for CommonPacketHeader {
    type V = CommonPacketHeader;

    open spec fn view(&self) -> CommonPacketHeader {
        *self
    }
}

impl CommonPacketHeader {
    /// The four bytes of an item header.
    pub open spec fn wire(self) -> Seq<u8> {
        spec_u16_le_bytes(self.type_id) + spec_u16_le_bytes(self.length)
    }

    /// The item header that the first four bytes of `s` spell.
    pub open spec fn read(s: Seq<u8>) -> CommonPacketHeader {
        CommonPacketHeader { type_id: spec_le_u16(s, 0), length: spec_le_u16(s, 2) }
    }

    /// Reading the bytes of an item header gives it back, whatever follows.
    pub proof fn lemma_wire(self, tail: Seq<u8>)
        ensures
            self.wire().len() == 4,
            Self::read(self.wire() + tail) == self,
    {
        let s = self.wire() + tail;
        assert(s.subrange(0, 2) =~= spec_u16_le_bytes(self.type_id));
        assert(s.subrange(2, 4) =~= spec_u16_le_bytes(self.length));
        lemma_u16_le_round_trip(s, 0, self.type_id);
        lemma_u16_le_round_trip(s, 2, self.length);
    }

    /// Parsing the encoding of an item header gives it back and leaves what
    /// followed it.
    pub proof fn lemma_round_trip(v: CommonPacketHeader, tail: Seq<u8>)
        ensures
            Self::spec_serialize(v) is Ok,
            Self::spec_deserialize(Self::spec_serialize(v)->Ok_0 + tail) == Ok::<
                (Seq<u8>, CommonPacketHeader),
                ParseError,
            >((tail, v)),
    {
        v.lemma_wire(tail);
        assert((v.wire() + tail).skip(4) =~= tail);
    }
}

impl Serializable for CommonPacketHeader {
    open spec fn spec_serialize(v: CommonPacketHeader) -> Result<Seq<u8>, EncodeError> {
        Ok(v.wire())
    }

    open spec fn spec_deserialize(input: Seq<u8>) -> Result<
        (Seq<u8>, CommonPacketHeader),
        ParseError,
    > {
        if input.len() < 4 {
            Err(ParseError::Incomplete((4 - input.len()) as usize))
        } else {
            Ok((input.skip(4), CommonPacketHeader::read(input)))
        }
    }

    fn serialize(&self) -> (r: Result<Vec<u8>, EncodeError>) {
        let mut out: Vec<u8> = Vec::new();
        push_le_u16(&mut out, self.type_id);
        push_le_u16(&mut out, self.length);
        assert(out@ =~= self.wire());
        Ok(out)
    }

    fn deserialize<'a>(input: &'a [u8]) -> (r: Result<(&'a [u8], Self), ParseError>) {
        let n: usize = input.len();
        if n < 4 {
            return Err(ParseError::Incomplete(4 - n));
        }
        let header = CommonPacketHeader {
            type_id: le_u16_at(input, 0),
            length: le_u16_at(input, 2),
        };
        Ok((slice_subrange(input, 4, n), header))
    }
}

/// The address item of a connected message: the id of the connection.
#[derive(Clone, Copy, Debug, PartialEq, Eq, Structural)]
pub struct ConnectedAddressItem {
    pub addr: u32,
}

impl View for ConnectedAddressItem {
    type V = ConnectedAddressItem;

    open spec fn view(&self) -> ConnectedAddressItem {
        *self
    }
}

/// The data item of a connected message. The payload starts with the
/// connection's sequence number.
#[derive(Clone, Debug, PartialEq, Eq)]
pub struct ConnectedDataItem {
    pub data: Vec<u8>,
}

impl View for ConnectedDataItem {
    type V = Seq<u8>;

    open spec fn view(&self) -> Seq<u8> {
        self.data@
    }
}

/// The data item of an unconnected message.
#[derive(Clone, Debug, PartialEq, Eq)]
pub struct UnconnectedDataItem {
    pub data: Vec<u8>,
}

impl View for UnconnectedDataItem {
    type V = Seq<u8>;

    open spec fn view(&self) -> Seq<u8> {
        self.data@
    }
}

/// A socket address item. `type_id` tells the direction it describes; the
/// eight zero bytes that close its body are not stored.
#[derive(Clone, Copy, Debug, PartialEq, Eq, Structural)]
pub struct SockAddrInfo {
    pub type_id: u16,
    pub sin_family: u32,
    pub sin_port: u16,
    pub sin_addr: u32,
}

impl View for SockAddrInfo {
    type V = SockAddrInfo;

    open spec fn view(&self) -> SockAddrInfo {
        *self
    }
}

impl SockAddrInfo {
    /// The 18 bytes of the body: family, port and address in network byte
    /// order, then eight zero bytes.
    pub open spec fn spec_body(self) -> Seq<u8> {
        spec_u32_be_bytes(self.sin_family) + spec_u16_be_bytes(self.sin_port) + spec_u32_be_bytes(
            self.sin_addr,
        ) + spec_zeros(8)
    }
}

/// One item of a list, in the order it stands on the wire.
#[derive(Clone, Debug, PartialEq, Eq)]
pub enum CpfItem {
    /// Marks an unconnected message; has no body.
    NullAddress,
    /// Names the connection of a connected message.
    ConnectedAddress(ConnectedAddressItem),
    /// Carries the payload of a connected message.
    ConnectedData(ConnectedDataItem),
    /// Carries the payload of an unconnected message.
    UnconnectedData(UnconnectedDataItem),
    /// Carries a socket address.
    SockAddr(SockAddrInfo),
    /// An item of a kind this crate does not interpret, kept as it came.
    Unknown { type_id: u16, bytes: Vec<u8> },
}

/// The mathematical content of an item.
pub enum CpfItemView {
    NullAddress,
    ConnectedAddress(ConnectedAddressItem),
    ConnectedData(Seq<u8>),
    UnconnectedData(Seq<u8>),
    SockAddr(SockAddrInfo),
    Unknown { type_id: u16, bytes: Seq<u8> },
}

impl View for CpfItem {
    type V = CpfItemView;

    open spec fn view(&self) -> CpfItemView {
        match *self {
            CpfItem::NullAddress => CpfItemView::NullAddress,
            CpfItem::ConnectedAddress(a) => CpfItemView::ConnectedAddress(a),
            CpfItem::ConnectedData(d) => CpfItemView::ConnectedData(d@),
            CpfItem::UnconnectedData(d) => CpfItemView::UnconnectedData(d@),
            CpfItem::SockAddr(s) => CpfItemView::SockAddr(s),
            CpfItem::Unknown { type_id, bytes } => CpfItemView::Unknown { type_id, bytes: bytes@ },
        }
    }
}

/// The encoding of an item with the given type id and body.
pub open spec fn spec_item_wire(type_id: u16, body: Seq<u8>) -> Seq<u8> {
    spec_u16_le_bytes(type_id) + spec_u16_le_bytes(body.len() as u16) + body
}

/// Encodes an item with the given type id and body. Fails exactly when the
/// body is longer than the 16-bit length field can express.
pub fn encode_item(type_id: u16, body: &[u8]) -> (r: Result<Vec<u8>, EncodeError>)
    ensures
        match r {
            Ok(bytes) => body@.len() <= 0xFFFF && bytes@ == spec_item_wire(type_id, body@),
            Err(e) => body@.len() > 0xFFFF && e == EncodeError::EncodingInvariantViolated(
                Reason::PayloadTooLong,
            ),
        },
{
    let n: usize = body.len();
    if n > 0xFFFF {
        return Err(EncodeError::EncodingInvariantViolated(Reason::PayloadTooLong));
    }
    let mut out: Vec<u8> = Vec::new();
    push_le_u16(&mut out, type_id);
    push_le_u16(&mut out, n as u16);
    push_bytes(&mut out, body);
    assert(out@ =~= spec_item_wire(type_id, body@));
    Ok(out)
}

/// Encodes a connected address item.
pub fn encode_connected_address(item: &ConnectedAddressItem) -> (r: Result<Vec<u8>, EncodeError>)
    ensures
        r == Ok::<Vec<u8>, EncodeError>(r->Ok_0),
        r->Ok_0@ == spec_item_wire(0x00A1, spec_u32_le_bytes(item.addr)),
{
    let mut body: Vec<u8> = Vec::new();
    push_le_u32(&mut body, item.addr);
    assert(body@ =~= spec_u32_le_bytes(item.addr));
    encode_item(TYPE_CONNECTED_ADDRESS, body.as_slice())
}

/// Encodes a socket address item. Fails exactly when its type id is neither
/// of the two socket address type ids.
pub fn encode_sockaddr(item: &SockAddrInfo) -> (r: Result<Vec<u8>, EncodeError>)
    ensures
        match r {
            Ok(bytes) => (item.type_id == 0x8000 || item.type_id == 0x8001) && bytes@
                == spec_item_wire(item.type_id, item.spec_body()),
            Err(e) => item.type_id != 0x8000 && item.type_id != 0x8001 && e
                == EncodeError::EncodingInvariantViolated(Reason::TypeIdMismatch),
        },
{
    if item.type_id != TYPE_SOCKADDR_O_TO_T && item.type_id != TYPE_SOCKADDR_T_TO_O {
        return Err(EncodeError::EncodingInvariantViolated(Reason::TypeIdMismatch));
    }
    let mut body: Vec<u8> = Vec::new();
    push_be_u32(&mut body, item.sin_family);
    push_be_u16(&mut body, item.sin_port);
    push_be_u32(&mut body, item.sin_addr);
    push_zeros(&mut body, 8);
    assert(body@ =~= item.spec_body());
    encode_item(item.type_id, body.as_slice())
}

impl CpfItem {
    /// The type id an item is sent under.
    pub open spec fn spec_type_id(v: CpfItemView) -> u16 {
        match v {
            CpfItemView::NullAddress => 0x0000,
            CpfItemView::ConnectedAddress(_) => 0x00A1,
            CpfItemView::ConnectedData(_) => 0x00B1,
            CpfItemView::UnconnectedData(_) => 0x00B2,
            CpfItemView::SockAddr(s) => s.type_id,
            CpfItemView::Unknown { type_id, .. } => type_id,
        }
    }

    /// The body an item is sent with.
    pub open spec fn spec_body(v: CpfItemView) -> Seq<u8> {
        match v {
            CpfItemView::NullAddress => Seq::<u8>::empty(),
            CpfItemView::ConnectedAddress(a) => spec_u32_le_bytes(a.addr),
            CpfItemView::ConnectedData(d) => d,
            CpfItemView::UnconnectedData(d) => d,
            CpfItemView::SockAddr(s) => s.spec_body(),
            CpfItemView::Unknown { bytes, .. } => bytes,
        }
    }

    /// The invariant an item breaks, if it breaks one: a socket address item
    /// must carry one of the two socket address type ids, an uninterpreted
    /// item must not carry a known one, and no body may exceed 65535 bytes.
    pub open spec fn spec_violation(v: CpfItemView) -> Option<Reason> {
        match v {
            CpfItemView::NullAddress => None,
            CpfItemView::ConnectedAddress(_) => None,
            CpfItemView::ConnectedData(d) => if d.len() > 0xFFFF {
                Some(Reason::PayloadTooLong)
            } else {
                None
            },
            CpfItemView::UnconnectedData(d) => if d.len() > 0xFFFF {
                Some(Reason::PayloadTooLong)
            } else {
                None
            },
            CpfItemView::SockAddr(s) => if s.type_id != 0x8000 && s.type_id != 0x8001 {
                Some(Reason::TypeIdMismatch)
            } else {
                None
            },
            CpfItemView::Unknown { type_id, bytes } => if spec_is_known_type_id(type_id) {
                Some(Reason::TypeIdMismatch)
            } else if bytes.len() > 0xFFFF {
                Some(Reason::PayloadTooLong)
            } else {
                None
            },
        }
    }

    /// The bytes an item encodes to, or the invariant it breaks.
    pub open spec fn spec_encode(v: CpfItemView) -> Result<Seq<u8>, EncodeError> {
        match Self::spec_violation(v) {
            Some(reason) => Err(EncodeError::EncodingInvariantViolated(reason)),
            None => Ok(spec_item_wire(Self::spec_type_id(v), Self::spec_body(v))),
        }
    }

    /// Encodes the item.
    pub fn encode(&self) -> (r: Result<Vec<u8>, EncodeError>)
        ensures
            match r {
                Ok(bytes) => Self::spec_encode(self@) == Ok::<Seq<u8>, EncodeError>(bytes@),
                Err(e) => Self::spec_encode(self@) == Err::<Seq<u8>, EncodeError>(e),
            },
    {
        match self {
            CpfItem::NullAddress => {
                let body: Vec<u8> = Vec::new();
                encode_item(TYPE_NULL_ADDRESS, body.as_slice())
            },
            CpfItem::ConnectedAddress(a) => encode_connected_address(a),
            CpfItem::ConnectedData(d) => encode_item(TYPE_CONNECTED_DATA, d.data.as_slice()),
            CpfItem::UnconnectedData(d) => encode_item(TYPE_UNCONNECTED_DATA, d.data.as_slice()),
            CpfItem::SockAddr(s) => encode_sockaddr(s),
            CpfItem::Unknown { type_id, bytes } => {
                if is_known_type_id(*type_id) {
                    return Err(EncodeError::EncodingInvariantViolated(Reason::TypeIdMismatch));
                }
                encode_item(*type_id, bytes.as_slice())
            },
        }
    }

    /// The item that a body of the given type decodes to. With `lenient`
    /// unset an unknown type id is an error; with it set the body is kept
    /// uninterpreted.
    pub open spec fn spec_decode_body(type_id: u16, body: Seq<u8>, lenient: bool) -> Result<
        CpfItemView,
        ParseError,
    > {
        if type_id == 0x0000 {
            if body.len() != 0 {
                Err(ParseError::Malformed(Field::CpfItemLength))
            } else {
                Ok(CpfItemView::NullAddress)
            }
        } else if type_id == 0x00A1 {
            if body.len() != 4 {
                Err(ParseError::Malformed(Field::CpfItemLength))
            } else {
                Ok(
                    CpfItemView::ConnectedAddress(
                        ConnectedAddressItem { addr: spec_le_u32(body, 0) },
                    ),
                )
            }
        } else if type_id == 0x00B1 {
            Ok(CpfItemView::ConnectedData(body))
        } else if type_id == 0x00B2 {
            Ok(CpfItemView::UnconnectedData(body))
        } else if type_id == 0x8000 || type_id == 0x8001 {
            if body.len() != 18 {
                Err(ParseError::Malformed(Field::CpfItemLength))
            } else if body.subrange(10, 18) != spec_zeros(8) {
                Err(ParseError::Malformed(Field::SockAddrPadding))
            } else {
                Ok(
                    CpfItemView::SockAddr(
                        SockAddrInfo {
                            type_id,
                            sin_family: spec_be_u32(body, 0),
                            sin_port: spec_be_u16(body, 4),
                            sin_addr: spec_be_u32(body, 6),
                        },
                    ),
                )
            }
        } else if lenient {
            Ok(CpfItemView::Unknown { type_id, bytes: body })
        } else {
            Err(ParseError::UnknownCpfItem)
        }
    }

    /// What parsing one item from the front of `s` yields. The body is cut
    /// off by the declared length before the type id is looked at, so an
    /// item of unknown kind is skipped over by exactly its length.
    pub open spec fn spec_parse(s: Seq<u8>, lenient: bool) -> Result<
        (Seq<u8>, CpfItemView),
        ParseError,
    > {
        if s.len() < 4 {
            Err(ParseError::Incomplete((4 - s.len()) as usize))
        } else {
            let type_id = spec_le_u16(s, 0);
            let length = spec_le_u16(s, 2) as int;
            if s.len() - 4 < length {
                Err(ParseError::Incomplete((length - (s.len() - 4)) as usize))
            } else {
                match Self::spec_decode_body(type_id, s.subrange(4, 4 + length), lenient) {
                    Ok(item) => Ok((s.skip(4 + length), item)),
                    Err(e) => Err(e),
                }
            }
        }
    }

    /// Decodes the body of an item whose header has been read.
    pub fn decode_body(type_id: u16, body: &[u8], lenient: bool) -> (r: Result<CpfItem, ParseError>)
        ensures
            match r {
                Ok(item) => Self::spec_decode_body(type_id, body@, lenient) == Ok::<
                    CpfItemView,
                    ParseError,
                >(item@),
                Err(e) => Self::spec_decode_body(type_id, body@, lenient) == Err::<
                    CpfItemView,
                    ParseError,
                >(e),
            },
    {
        let n: usize = body.len();
        if type_id == TYPE_NULL_ADDRESS {
            if n != 0 {
                return Err(ParseError::Malformed(Field::CpfItemLength));
            }
            Ok(CpfItem::NullAddress)
        } else if type_id == TYPE_CONNECTED_ADDRESS {
            if n != 4 {
                return Err(ParseError::Malformed(Field::CpfItemLength));
            }
            Ok(CpfItem::ConnectedAddress(ConnectedAddressItem { addr: le_u32_at(body, 0) }))
        } else if type_id == TYPE_CONNECTED_DATA {
            Ok(CpfItem::ConnectedData(ConnectedDataItem { data: slice_to_vec(body) }))
        } else if type_id == TYPE_UNCONNECTED_DATA {
            Ok(CpfItem::UnconnectedData(UnconnectedDataItem { data: slice_to_vec(body) }))
        } else if type_id == TYPE_SOCKADDR_O_TO_T || type_id == TYPE_SOCKADDR_T_TO_O {
            if n != 18 {
                return Err(ParseError::Malformed(Field::CpfItemLength));
            }
            if !all_zero(body, 10, 18) {
                return Err(ParseError::Malformed(Field::SockAddrPadding));
            }
            Ok(
                CpfItem::SockAddr(
                    SockAddrInfo {
                        type_id,
                        sin_family: be_u32_at(body, 0),
                        sin_port: be_u16_at(body, 4),
                        sin_addr: be_u32_at(body, 6),
                    },
                ),
            )
        } else if lenient {
            Ok(CpfItem::Unknown { type_id, bytes: slice_to_vec(body) })
        } else {
            Err(ParseError::UnknownCpfItem)
        }
    }

    /// Parses one item from the front of `input`, strictly or leniently.
    pub fn parse<'a>(input: &'a [u8], lenient: bool) -> (r: Result<(&'a [u8], CpfItem), ParseError>)
        ensures
            match r {
                Ok((rest, item)) => Self::spec_parse(input@, lenient) == Ok::<
                    (Seq<u8>, CpfItemView),
                    ParseError,
                >((rest@, item@)),
                Err(e) => Self::spec_parse(input@, lenient) == Err::<
                    (Seq<u8>, CpfItemView),
                    ParseError,
                >(e),
            },
    {
        let n: usize = input.len();
        if n < 4 {
            return Err(ParseError::Incomplete(4 - n));
        }
        let type_id: u16 = le_u16_at(input, 0);
        let length: usize = le_u16_at(input, 2) as usize;
        if n - 4 < length {
            return Err(ParseError::Incomplete(length - (n - 4)));
        }
        let end: usize = 4 + length;
        match Self::decode_body(type_id, slice_subrange(input, 4, end), lenient) {
            Ok(item) => Ok((slice_subrange(input, end, n), item)),
            Err(e) => Err(e),
        }
    }

    /// Parsing the encoding of an item gives the item back and leaves what
    /// followed it. An uninterpreted item comes back only from lenient
    /// parsing.
    pub proof fn lemma_round_trip(v: CpfItemView, tail: Seq<u8>, lenient: bool)
        requires
            Self::spec_serialize(v) is Ok,
            lenient || !(v is Unknown),
        ensures
            Self::spec_parse(Self::spec_serialize(v)->Ok_0 + tail, lenient) == Ok::<
                (Seq<u8>, CpfItemView),
                ParseError,
            >((tail, v)),
    {
        let type_id = Self::spec_type_id(v);
        let body = Self::spec_body(v);
        let length = body.len() as u16;
        let s = spec_item_wire(type_id, body) + tail;
        assert(body.len() <= 0xFFFF) by {
            assert(spec_u32_le_bytes(0).len() == 4);
            assert(spec_zeros(8).len() == 8);
        }
        assert(s.subrange(0, 2) =~= spec_u16_le_bytes(type_id));
        assert(s.subrange(2, 4) =~= spec_u16_le_bytes(length));
        lemma_u16_le_round_trip(s, 0, type_id);
        lemma_u16_le_round_trip(s, 2, length);
        assert(s.subrange(4, 4 + length) =~= body);
        assert(s.skip(4 + length) =~= tail);
        match v {
            CpfItemView::ConnectedAddress(a) => {
                assert(body.subrange(0, 4) =~= spec_u32_le_bytes(a.addr));
                lemma_u32_le_round_trip(body, 0, a.addr);
            },
            CpfItemView::SockAddr(a) => {
                assert(body.subrange(0, 4) =~= spec_u32_be_bytes(a.sin_family));
                assert(body.subrange(4, 6) =~= spec_u16_be_bytes(a.sin_port));
                assert(body.subrange(6, 10) =~= spec_u32_be_bytes(a.sin_addr));
                assert(body.subrange(10, 18) =~= spec_zeros(8));
                lemma_u32_be_round_trip(body, 0, a.sin_family);
                lemma_u16_be_round_trip(body, 4, a.sin_port);
                lemma_u32_be_round_trip(body, 6, a.sin_addr);
            },
            _ => {},
        }
    }
}

impl Serializable for CpfItem {
    open spec fn spec_serialize(v: CpfItemView) -> Result<Seq<u8>, EncodeError> {
        CpfItem::spec_encode(v)
    }

    open spec fn spec_deserialize(input: Seq<u8>) -> Result<(Seq<u8>, CpfItemView), ParseError> {
        CpfItem::spec_parse(input, false)
    }

    fn serialize(&self) -> (r: Result<Vec<u8>, EncodeError>) {
        self.encode()
    }

    fn deserialize<'a>(input: &'a [u8]) -> (r: Result<(&'a [u8], Self), ParseError>) {
        CpfItem::parse(input, false)
    }
}

impl ConnectedAddressItem {
    /// Parsing the encoding of a connected address item gives it back and leaves what followed
    /// it.
    pub proof fn lemma_round_trip(v: ConnectedAddressItem, tail: Seq<u8>)
        requires
            Self::spec_serialize(v) is Ok,
        ensures
            Self::spec_deserialize(Self::spec_serialize(v)->Ok_0 + tail) == Ok::<
                (Seq<u8>, ConnectedAddressItem),
                ParseError,
            >((tail, v)),
    {
        CpfItem::lemma_round_trip(CpfItemView::ConnectedAddress(v), tail, false);
    }
}

impl Serializable for ConnectedAddressItem {
    open spec fn spec_serialize(v: ConnectedAddressItem) -> Result<Seq<u8>, EncodeError> {
        CpfItem::spec_encode(CpfItemView::ConnectedAddress(v))
    }

    open spec fn spec_deserialize(input: Seq<u8>) -> Result<
        (Seq<u8>, ConnectedAddressItem),
        ParseError,
    > {
        match CpfItem::spec_parse(input, false) {
            Ok((rest, CpfItemView::ConnectedAddress(v))) => Ok((rest, v)),
            Ok(_) => Err(ParseError::Malformed(Field::CpfTypeId)),
            Err(e) => Err(e),
        }
    }

    fn serialize(&self) -> (r: Result<Vec<u8>, EncodeError>) {
        encode_connected_address(self)
    }

    fn deserialize<'a>(input: &'a [u8]) -> (r: Result<(&'a [u8], Self), ParseError>) {
        match CpfItem::parse(input, false) {
            Ok((rest, CpfItem::ConnectedAddress(v))) => Ok((rest, v)),
            Ok(_) => Err(ParseError::Malformed(Field::CpfTypeId)),
            Err(e) => Err(e),
        }
    }
}

impl ConnectedDataItem {
    /// Parsing the encoding of a connected data item gives it back and leaves what followed
    /// it.
    pub proof fn lemma_round_trip(v: Seq<u8>, tail: Seq<u8>)
        requires
            Self::spec_serialize(v) is Ok,
        ensures
            Self::spec_deserialize(Self::spec_serialize(v)->Ok_0 + tail) == Ok::<
                (Seq<u8>, Seq<u8>),
                ParseError,
            >((tail, v)),
    {
        CpfItem::lemma_round_trip(CpfItemView::ConnectedData(v), tail, false);
    }
}

impl Serializable for ConnectedDataItem {
    open spec fn spec_serialize(v: Seq<u8>) -> Result<Seq<u8>, EncodeError> {
        CpfItem::spec_encode(CpfItemView::ConnectedData(v))
    }

    open spec fn spec_deserialize(input: Seq<u8>) -> Result<(Seq<u8>, Seq<u8>), ParseError> {
        match CpfItem::spec_parse(input, false) {
            Ok((rest, CpfItemView::ConnectedData(v))) => Ok((rest, v)),
            Ok(_) => Err(ParseError::Malformed(Field::CpfTypeId)),
            Err(e) => Err(e),
        }
    }

    fn serialize(&self) -> (r: Result<Vec<u8>, EncodeError>) {
        encode_item(TYPE_CONNECTED_DATA, self.data.as_slice())
    }

    fn deserialize<'a>(input: &'a [u8]) -> (r: Result<(&'a [u8], Self), ParseError>) {
        match CpfItem::parse(input, false) {
            Ok((rest, CpfItem::ConnectedData(v))) => Ok((rest, v)),
            Ok(_) => Err(ParseError::Malformed(Field::CpfTypeId)),
            Err(e) => Err(e),
        }
    }
}

impl UnconnectedDataItem {
    /// Parsing the encoding of an unconnected data item gives it back and leaves what followed
    /// it.
    pub proof fn lemma_round_trip(v: Seq<u8>, tail: Seq<u8>)
        requires
            Self::spec_serialize(v) is Ok,
        ensures
            Self::spec_deserialize(Self::spec_serialize(v)->Ok_0 + tail) == Ok::<
                (Seq<u8>, Seq<u8>),
                ParseError,
            >((tail, v)),
    {
        CpfItem::lemma_round_trip(CpfItemView::UnconnectedData(v), tail, false);
    }
}

impl Serializable for UnconnectedDataItem {
    open spec fn spec_serialize(v: Seq<u8>) -> Result<Seq<u8>, EncodeError> {
        CpfItem::spec_encode(CpfItemView::UnconnectedData(v))
    }

    open spec fn spec_deserialize(input: Seq<u8>) -> Result<(Seq<u8>, Seq<u8>), ParseError> {
        match CpfItem::spec_parse(input, false) {
            Ok((rest, CpfItemView::UnconnectedData(v))) => Ok((rest, v)),
            Ok(_) => Err(ParseError::Malformed(Field::CpfTypeId)),
            Err(e) => Err(e),
        }
    }

    fn serialize(&self) -> (r: Result<Vec<u8>, EncodeError>) {
        encode_item(TYPE_UNCONNECTED_DATA, self.data.as_slice())
    }

    fn deserialize<'a>(input: &'a [u8]) -> (r: Result<(&'a [u8], Self), ParseError>) {
        match CpfItem::parse(input, false) {
            Ok((rest, CpfItem::UnconnectedData(v))) => Ok((rest, v)),
            Ok(_) => Err(ParseError::Malformed(Field::CpfTypeId)),
            Err(e) => Err(e),
        }
    }
}

impl SockAddrInfo {
    /// Parsing the encoding of a socket address item gives it back and leaves what followed
    /// it.
    pub proof fn lemma_round_trip(v: SockAddrInfo, tail: Seq<u8>)
        requires
            Self::spec_serialize(v) is Ok,
        ensures
            Self::spec_deserialize(Self::spec_serialize(v)->Ok_0 + tail) == Ok::<
                (Seq<u8>, SockAddrInfo),
                ParseError,
            >((tail, v)),
    {
        CpfItem::lemma_round_trip(CpfItemView::SockAddr(v), tail, false);
    }
}

impl Serializable for SockAddrInfo {
    open spec fn spec_serialize(v: SockAddrInfo) -> Result<Seq<u8>, EncodeError> {
        CpfItem::spec_encode(CpfItemView::SockAddr(v))
    }

    open spec fn spec_deserialize(input: Seq<u8>) -> Result<(Seq<u8>, SockAddrInfo), ParseError> {
        match CpfItem::spec_parse(input, false) {
            Ok((rest, CpfItemView::SockAddr(v))) => Ok((rest, v)),
            Ok(_) => Err(ParseError::Malformed(Field::CpfTypeId)),
            Err(e) => Err(e),
        }
    }

    fn serialize(&self) -> (r: Result<Vec<u8>, EncodeError>) {
        encode_sockaddr(self)
    }

    fn deserialize<'a>(input: &'a [u8]) -> (r: Result<(&'a [u8], Self), ParseError>) {
        match CpfItem::parse(input, false) {
            Ok((rest, CpfItem::SockAddr(v))) => Ok((rest, v)),
            Ok(_) => Err(ParseError::Malformed(Field::CpfTypeId)),
            Err(e) => Err(e),
        }
    }
}

/// An ordered list of items, as it stands behind the fixed part of a
/// data-carrying encapsulation command.
#[derive(Clone, Debug, PartialEq, Eq)]
pub struct CommonPacketList {
    pub items: Vec<CpfItem>,
}

/// The mathematical content of a run of items.
pub open spec fn spec_items_view(items: Seq<CpfItem>) -> Seq<CpfItemView> {
    items.map_values(|item: CpfItem| item@)
}

impl View for CommonPacketList {
    type V = Seq<CpfItemView>;

    open spec fn view(&self) -> Seq<CpfItemView> {
        spec_items_view(self.items@)
    }
}

impl CommonPacketList {
    /// A list without items.
    pub fn new() -> (r: Self)
        ensures
            r@ == Seq::<CpfItemView>::empty(),
    {
        let r = CommonPacketList { items: Vec::new() };
        assert(r@ =~= Seq::<CpfItemView>::empty());
        r
    }

    /// The item count as the 16-bit count field expresses it: the number of
    /// items, reduced modulo 65536.
    pub fn len(&self) -> (r: u16)
        ensures
            r as int == self@.len() % 0x1_0000,
    {
        (self.items.len() % 0x1_0000) as u16
    }

    /// Puts `item` behind the items already in the list.
    pub fn push(&mut self, item: CpfItem)
        ensures
            final(self)@ == old(self)@.push(item@),
    {
        self.items.push(item);
        assert(self@ =~= old(self)@.push(item@));
    }

    /// The encodings of `items` one after the other, or the error of the
    /// first item that cannot be encoded.
    pub open spec fn spec_serialize_items(items: Seq<CpfItemView>) -> Result<Seq<u8>, EncodeError>
        decreases items.len(),
    {
        if items.len() == 0 {
            Ok(Seq::<u8>::empty())
        } else {
            match CpfItem::spec_serialize(items[0]) {
                Ok(first) => spec_after(first, Self::spec_serialize_items(items.skip(1))),
                Err(e) => Err(e),
            }
        }
    }

    /// What parsing `count` items from the front of `s` yields.
    pub open spec fn spec_parse_items(s: Seq<u8>, count: nat, lenient: bool) -> Result<
        (Seq<u8>, Seq<CpfItemView>),
        ParseError,
    >
        decreases count,
    {
        if count == 0 {
            Ok((s, Seq::<CpfItemView>::empty()))
        } else {
            match CpfItem::spec_parse(s, lenient) {
                Ok((rest, item)) => spec_prepend(
                    seq![item],
                    Self::spec_parse_items(rest, (count - 1) as nat, lenient),
                ),
                Err(e) => Err(e),
            }
        }
    }

    /// What parsing a list from the front of `s` yields: the 16-bit item
    /// count, then that many items.
    pub open spec fn spec_parse(s: Seq<u8>, lenient: bool) -> Result<
        (Seq<u8>, Seq<CpfItemView>),
        ParseError,
    > {
        if s.len() < 2 {
            Err(ParseError::Incomplete((2 - s.len()) as usize))
        } else {
            Self::spec_parse_items(s.skip(2), spec_le_u16(s, 0) as nat, lenient)
        }
    }

    /// Parses a list from the front of `input`. Strictly, the first item of
    /// unknown kind ends the parse with `UnknownCpfItem`; leniently, such an
    /// item is kept uninterpreted and the parse goes on behind it.
    pub fn parse<'a>(input: &'a [u8], lenient: bool) -> (r: Result<
        (&'a [u8], CommonPacketList),
        ParseError,
    >)
        ensures
            match r {
                Ok((rest, list)) => Self::spec_parse(input@, lenient) == Ok::<
                    (Seq<u8>, Seq<CpfItemView>),
                    ParseError,
                >((rest@, list@)),
                Err(e) => Self::spec_parse(input@, lenient) == Err::<
                    (Seq<u8>, Seq<CpfItemView>),
                    ParseError,
                >(e),
            },
    {
        let (start, count) = match read_le_u16(input) {
            Ok(pair) => pair,
            Err(e) => {
                return Err(e);
            },
        };
        let mut cur: &[u8] = start;
        let mut items: Vec<CpfItem> = Vec::new();
        let mut i: u16 = 0;
        proof {
            assert(spec_items_view(items@) =~= Seq::<CpfItemView>::empty());
            lemma_prepend_nothing(Self::spec_parse_items(cur@, count as nat, lenient));
        }
        while i < count
            invariant
                i <= count,
                Self::spec_parse(input@, lenient) == spec_prepend(
                    spec_items_view(items@),
                    Self::spec_parse_items(cur@, (count - i) as nat, lenient),
                ),
            decreases count - i,
        {
            match CpfItem::parse(cur, lenient) {
                Ok((rest, item)) => {
                    proof {
                        lemma_prepend_prepend(
                            spec_items_view(items@),
                            seq![item@],
                            Self::spec_parse_items(rest@, (count - i - 1) as nat, lenient),
                        );
                        assert(spec_items_view(items@.push(item)) =~= spec_items_view(items@)
                            + seq![item@]);
                    }
                    items.push(item);
                    cur = rest;
                    i = i + 1;
                },
                Err(e) => {
                    return Err(e);
                },
            }
        }
        proof {
            assert(spec_items_view(items@) + Seq::<CpfItemView>::empty() =~= spec_items_view(
                items@,
            ));
        }
        Ok((cur, CommonPacketList { items }))
    }

    /// Parses a list and keeps items of unknown kind uninterpreted, each cut
    /// off by exactly its declared length.
    pub fn deserialize_lenient<'a>(input: &'a [u8]) -> (r: Result<
        (&'a [u8], CommonPacketList),
        ParseError,
    >)
        ensures
            match r {
                Ok((rest, list)) => Self::spec_parse(input@, true) == Ok::<
                    (Seq<u8>, Seq<CpfItemView>),
                    ParseError,
                >((rest@, list@)),
                Err(e) => Self::spec_parse(input@, true) == Err::<
                    (Seq<u8>, Seq<CpfItemView>),
                    ParseError,
                >(e),
            },
    {
        Self::parse(input, true)
    }

    /// The payload of the first unconnected data item among `items`, if
    /// there is one.
    pub open spec fn spec_first_unconnected_data(items: Seq<CpfItemView>) -> Option<Seq<u8>>
        decreases items.len(),
    {
        if items.len() == 0 {
            None
        } else {
            match items[0] {
                CpfItemView::UnconnectedData(data) => Some(data),
                _ => Self::spec_first_unconnected_data(items.skip(1)),
            }
        }
    }

    /// The payload of the first connected data item among `items`, if there
    /// is one.
    pub open spec fn spec_first_connected_data(items: Seq<CpfItemView>) -> Option<Seq<u8>>
        decreases items.len(),
    {
        if items.len() == 0 {
            None
        } else {
            match items[0] {
                CpfItemView::ConnectedData(data) => Some(data),
                _ => Self::spec_first_connected_data(items.skip(1)),
            }
        }
    }

    /// The payload of the first unconnected data item of the list.
    pub fn first_unconnected_data(&self) -> (r: Option<Vec<u8>>)
        ensures
            match r {
                Some(data) => Self::spec_first_unconnected_data(self@) == Some(data@),
                None => Self::spec_first_unconnected_data(self@) is None,
            },
    {
        let n: usize = self.items.len();
        let mut i: usize = 0;
        assert(self@.skip(0) =~= self@);
        while i < n
            invariant
                i <= n,
                n == self.items@.len(),
                Self::spec_first_unconnected_data(self@) == Self::spec_first_unconnected_data(
                    self@.skip(i as int),
                ),
            decreases n - i,
        {
            assert(self@.skip(i as int)[0] == self.items@[i as int]@);
            assert(self@.skip(i as int).skip(1) =~= self@.skip(i + 1));
            match &self.items[i] {
                CpfItem::UnconnectedData(item) => {
                    return Some(slice_to_vec(item.data.as_slice()));
                },
                _ => {},
            }
            i = i + 1;
        }
        None
    }

    /// The payload of the first connected data item of the list.
    pub fn first_connected_data(&self) -> (r: Option<Vec<u8>>)
        ensures
            match r {
                Some(data) => Self::spec_first_connected_data(self@) == Some(data@),
                None => Self::spec_first_connected_data(self@) is None,
            },
    {
        let n: usize = self.items.len();
        let mut i: usize = 0;
        assert(self@.skip(0) =~= self@);
        while i < n
            invariant
                i <= n,
                n == self.items@.len(),
                Self::spec_first_connected_data(self@) == Self::spec_first_connected_data(
                    self@.skip(i as int),
                ),
            decreases n - i,
        {
            assert(self@.skip(i as int)[0] == self.items@[i as int]@);
            assert(self@.skip(i as int).skip(1) =~= self@.skip(i + 1));
            match &self.items[i] {
                CpfItem::ConnectedData(item) => {
                    return Some(slice_to_vec(item.data.as_slice()));
                },
                _ => {},
            }
            i = i + 1;
        }
        None
    }

    /// The encoding of a list of two items is the count 2 and the encodings
    /// of the two, in order.
    pub proof fn lemma_two_items(first: CpfItemView, second: CpfItemView)
        requires
            CpfItem::spec_serialize(first) is Ok,
            CpfItem::spec_serialize(second) is Ok,
        ensures
            Self::spec_serialize(seq![first, second]) == Ok::<Seq<u8>, EncodeError>(
                spec_u16_le_bytes(2) + CpfItem::spec_serialize(first)->Ok_0
                    + CpfItem::spec_serialize(second)->Ok_0,
            ),
    {
        let items = seq![first, second];
        let a = CpfItem::spec_serialize(first)->Ok_0;
        let b = CpfItem::spec_serialize(second)->Ok_0;
        assert(items.skip(1) =~= seq![second]);
        assert(items.skip(1).skip(1) =~= Seq::<CpfItemView>::empty());
        assert(Self::spec_serialize_items(items.skip(1).skip(1)) == Ok::<Seq<u8>, EncodeError>(
            Seq::<u8>::empty(),
        ));
        assert(Self::spec_serialize_items(items.skip(1)) == Ok::<Seq<u8>, EncodeError>(
            b + Seq::<u8>::empty(),
        ));
        assert(b + Seq::<u8>::empty() =~= b);
        assert(Self::spec_serialize_items(items) == Ok::<Seq<u8>, EncodeError>(a + b));
        assert(spec_u16_le_bytes(2) + (a + b) =~= spec_u16_le_bytes(2) + a + b);
    }

    /// Whether none of `items` is of unknown kind.
    pub open spec fn spec_all_known(items: Seq<CpfItemView>) -> bool {
        forall|i: int| 0 <= i < items.len() ==> !(#[trigger] items[i] is Unknown)
    }

    /// Parsing the encodings of `items`, one after the other, gives the items
    /// back in order and leaves what followed them.
    pub proof fn lemma_items_round_trip(items: Seq<CpfItemView>, tail: Seq<u8>, lenient: bool)
        requires
            Self::spec_serialize_items(items) is Ok,
            lenient || Self::spec_all_known(items),
        ensures
            Self::spec_parse_items(
                Self::spec_serialize_items(items)->Ok_0 + tail,
                items.len(),
                lenient,
            ) == Ok::<(Seq<u8>, Seq<CpfItemView>), ParseError>((tail, items)),
        decreases items.len(),
    {
        if items.len() == 0 {
            assert(Seq::<u8>::empty() + tail =~= tail);
            assert(items =~= Seq::<CpfItemView>::empty());
        } else {
            let head = items[0];
            let others_v = items.skip(1);
            let first = CpfItem::spec_serialize(head)->Ok_0;
            let others = Self::spec_serialize_items(others_v)->Ok_0;
            assert(CpfItem::spec_serialize(head) is Ok);
            assert(Self::spec_serialize_items(others_v) is Ok);
            assert(Self::spec_serialize_items(items)->Ok_0 == first + others);
            assert(lenient || !(head is Unknown));
            assert(lenient || Self::spec_all_known(others_v)) by {
                if !lenient {
                    assert forall|i: int| 0 <= i < others_v.len() implies !(
                    #[trigger] others_v[i] is Unknown) by {
                        assert(others_v[i] == items[i + 1]);
                    }
                }
            }
            let s = (first + others) + tail;
            assert(s =~= first + (others + tail));
            assert(CpfItem::spec_parse(s, lenient) == Ok::<(Seq<u8>, CpfItemView), ParseError>(
                (others + tail, head),
            )) by {
                CpfItem::lemma_round_trip(head, others + tail, lenient);
            }
            assert(Self::spec_parse_items(others + tail, others_v.len(), lenient) == Ok::<
                (Seq<u8>, Seq<CpfItemView>),
                ParseError,
            >((tail, others_v))) by {
                Self::lemma_items_round_trip(others_v, tail, lenient);
            }
            assert(seq![head] + others_v =~= items);
            assert(Self::spec_parse_items(s, items.len(), lenient) == spec_prepend(
                seq![head],
                Self::spec_parse_items(others + tail, (items.len() - 1) as nat, lenient),
            ));
        }
    }

    /// The item count that an encoded list starts with is the number of its
    /// items.
    pub proof fn lemma_count_agreement(v: Seq<CpfItemView>)
        requires
            Self::spec_serialize(v) is Ok,
        ensures
            spec_le_u16(Self::spec_serialize(v)->Ok_0, 0) == v.len(),
    {
        let s = Self::spec_serialize(v)->Ok_0;
        assert(s.subrange(0, 2) =~= spec_u16_le_bytes(v.len() as u16));
        lemma_u16_le_round_trip(s, 0, v.len() as u16);
    }

    /// A list that starts with an encodable item of unknown kind does not
    /// parse strictly: the parse ends with `UnknownCpfItem`, whatever
    /// follows the item. Parsed leniently, the same bytes give every item
    /// back, the unknown one kept as it came and cut off by its length.
    pub proof fn lemma_unknown_item(v: Seq<CpfItemView>)
        requires
            Self::spec_serialize(v) is Ok,
            v.len() > 0,
            v[0] is Unknown,
        ensures
            Self::spec_deserialize(Self::spec_serialize(v)->Ok_0) == Err::<
                (Seq<u8>, Seq<CpfItemView>),
                ParseError,
            >(ParseError::UnknownCpfItem),
            Self::spec_parse(Self::spec_serialize(v)->Ok_0, true) == Ok::<
                (Seq<u8>, Seq<CpfItemView>),
                ParseError,
            >((Seq::<u8>::empty(), v)),
    {
        let count = v.len() as u16;
        let first = CpfItem::spec_serialize(v[0])->Ok_0;
        let others = Self::spec_serialize_items(v.skip(1))->Ok_0;
        let s = spec_u16_le_bytes(count) + (first + others);
        assert(Self::spec_serialize(v)->Ok_0 == s);
        assert(s.subrange(0, 2) =~= spec_u16_le_bytes(count));
        lemma_u16_le_round_trip(s, 0, count);
        assert(s.skip(2) =~= first + others);
        CpfItem::lemma_round_trip(v[0], others, true);
        assert(CpfItem::spec_parse(first + others, false) == Err::<
            (Seq<u8>, CpfItemView),
            ParseError,
        >(ParseError::UnknownCpfItem));
        Self::lemma_round_trip(v, Seq::<u8>::empty(), true);
        assert(s + Seq::<u8>::empty() =~= s);
    }

    /// Parsing the encoding of a list gives the list back, its items in
    /// order and as many as went in, and leaves what followed it. A list
    /// that holds an uninterpreted item comes back only from lenient parsing.
    pub proof fn lemma_round_trip(v: Seq<CpfItemView>, tail: Seq<u8>, lenient: bool)
        requires
            Self::spec_serialize(v) is Ok,
            lenient || Self::spec_all_known(v),
        ensures
            Self::spec_parse(Self::spec_serialize(v)->Ok_0 + tail, lenient) == Ok::<
                (Seq<u8>, Seq<CpfItemView>),
                ParseError,
            >((tail, v)),
    {
        let count = v.len() as u16;
        let body = Self::spec_serialize_items(v)->Ok_0;
        let s = (spec_u16_le_bytes(count) + body) + tail;
        assert(s.subrange(0, 2) =~= spec_u16_le_bytes(count));
        lemma_u16_le_round_trip(s, 0, count);
        assert(s.skip(2) =~= body + tail);
        Self::lemma_items_round_trip(v, tail, lenient);
    }
}

impl Serializable for CommonPacketList {
    open spec fn spec_serialize(v: Seq<CpfItemView>) -> Result<Seq<u8>, EncodeError> {
        if v.len() > 0xFFFF {
            Err(EncodeError::EncodingInvariantViolated(Reason::TooManyItems))
        } else {
            spec_after(
                spec_u16_le_bytes(v.len() as u16),
                CommonPacketList::spec_serialize_items(v),
            )
        }
    }

    open spec fn spec_deserialize(input: Seq<u8>) -> Result<
        (Seq<u8>, Seq<CpfItemView>),
        ParseError,
    > {
        CommonPacketList::spec_parse(input, false)
    }

    fn serialize(&self) -> (r: Result<Vec<u8>, EncodeError>) {
        let n: usize = self.items.len();
        if n > 0xFFFF {
            return Err(EncodeError::EncodingInvariantViolated(Reason::TooManyItems));
        }
        let mut out: Vec<u8> = Vec::new();
        push_le_u16(&mut out, n as u16);
        assert(out@ =~= spec_u16_le_bytes(n as u16));
        assert(self@.skip(0) =~= self@);
        let mut i: usize = 0;
        while i < n
            invariant
                i <= n,
                n == self.items@.len(),
                Self::spec_serialize(self@) == spec_after(
                    out@,
                    CommonPacketList::spec_serialize_items(self@.skip(i as int)),
                ),
            decreases n - i,
        {
            assert(self@.skip(i as int)[0] == self.items@[i as int]@);
            assert(self@.skip(i as int).skip(1) =~= self@.skip(i + 1));
            match self.items[i].serialize() {
                Ok(bytes) => {
                    proof {
                        lemma_after_after(
                            out@,
                            bytes@,
                            CommonPacketList::spec_serialize_items(self@.skip(i + 1)),
                        );
                    }
                    push_bytes(&mut out, bytes.as_slice());
                },
                Err(e) => {
                    return Err(e);
                },
            }
            i = i + 1;
        }
        proof {
            lemma_after_end(out@);
        }
        Ok(out)
    }

    fn deserialize<'a>(input: &'a [u8]) -> (r: Result<(&'a [u8], Self), ParseError>) {
        CommonPacketList::parse(input, false)
    }
}

} // verus!
