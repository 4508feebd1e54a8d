//! The requests of the Connection Manager object: opening a connection, and
//! sending a request on through a route without one.

use vstd::prelude::*;
use vstd::slice::slice_subrange;
use crate::cip::{
    path_words, spec_path_words, EPath, MessageRouterRequest, MessageRouterRequestView, SegmentView,
};
use crate::common::{
    le_u16_at, le_u32_at, lemma_u16_le_round_trip, lemma_u32_le_round_trip, push_bytes, push_le_u16,
    push_le_u32, spec_le_u16, spec_le_u32, spec_u16_le_bytes, spec_u32_le_bytes, EncodeError, Field,
    ParseError, Reason, Serializable,
};

verus! {

/// Service code of a forward-open request.
pub const SERVICE_FORWARD_OPEN: u8 = 0x54;

/// Service code of an unconnected-send request.
pub const SERVICE_UNCONNECTED_SEND: u8 = 0x52;

/// Vendor id that a null forward-open names as the originator's.
pub const NULL_FORWARD_OPEN_VENDOR_ID: u16 = 0x0001;

/// Serial number that a null forward-open names as the originator's.
pub const NULL_FORWARD_OPEN_SERIAL_NUMBER: u32 = 0x1234_5678;

/// A request to open a connection.
#[derive(Clone, Debug, PartialEq, Eq)]
pub struct ForwardOpenRequest {
    pub priority: u8,
    pub timeout_ticks: u8,
    pub ot_network_connection_id: u32,
    pub to_network_connection_id: u32,
    pub connection_serial_number: u16,
    pub original_vendor_id: u16,
    pub original_serial_number: u32,
    pub connection_timeout_multiplier: u8,
    pub ot_rpi: u32,
    pub ot_network_parameters: u16,
    pub to_rpi: u32,
    pub to_network_parameters: u16,
    pub transport_class: u8,
    pub connection_path: EPath,
}

/// The mathematical content of a forward-open request.
pub struct ForwardOpenRequestView {
    pub priority: u8,
    pub timeout_ticks: u8,
    pub ot_network_connection_id: u32,
    pub to_network_connection_id: u32,
    pub connection_serial_number: u16,
    pub original_vendor_id: u16,
    pub original_serial_number: u32,
    pub connection_timeout_multiplier: u8,
    pub ot_rpi: u32,
    pub ot_network_parameters: u16,
    pub to_rpi: u32,
    pub to_network_parameters: u16,
    pub transport_class: u8,
    pub connection_path: Seq<SegmentView>,
}

impl View for ForwardOpenRequest {
    type V = ForwardOpenRequestView;

    open spec fn view(&self) -> ForwardOpenRequestView {
        ForwardOpenRequestView {
            priority: self.priority,
            timeout_ticks: self.timeout_ticks,
            ot_network_connection_id: self.ot_network_connection_id,
            to_network_connection_id: self.to_network_connection_id,
            connection_serial_number: self.connection_serial_number,
            original_vendor_id: self.original_vendor_id,
            original_serial_number: self.original_serial_number,
            connection_timeout_multiplier: self.connection_timeout_multiplier,
            ot_rpi: self.ot_rpi,
            ot_network_parameters: self.ot_network_parameters,
            to_rpi: self.to_rpi,
            to_network_parameters: self.to_network_parameters,
            transport_class: self.transport_class,
            connection_path: self.connection_path@,
        }
    }
}

/// A 16-bit number drawn from the thread's random generator, by rand's
/// `random`. Nothing is promised of the number drawn. The call fails only
/// where the operating system cannot seed the generator.
#[verifier::external_body]
fn random_u16() -> (r: u16) {
    rand::random::<u16>()
}

impl ForwardOpenRequest {
    /// The 35 bytes that go before the size of the connection path.
    pub open spec fn spec_fixed_part(v: ForwardOpenRequestView) -> Seq<u8> {
        seq![v.priority, v.timeout_ticks] + spec_u32_le_bytes(v.ot_network_connection_id)
            + spec_u32_le_bytes(v.to_network_connection_id) + spec_u16_le_bytes(
            v.connection_serial_number,
        ) + spec_u16_le_bytes(v.original_vendor_id) + spec_u32_le_bytes(v.original_serial_number)
            + seq![v.connection_timeout_multiplier, 0u8, 0u8, 0u8] + spec_u32_le_bytes(v.ot_rpi)
            + spec_u16_le_bytes(v.ot_network_parameters) + spec_u32_le_bytes(v.to_rpi)
            + spec_u16_le_bytes(v.to_network_parameters) + seq![v.transport_class]
    }

    /// The null forward-open for `path` with the given connection serial
    /// number: every connection parameter zero, the time-out ticks 255, and
    /// the originator's vendor id 1 and serial number 0x12345678.
    pub open spec fn spec_null(path: Seq<SegmentView>, serial: u16) -> ForwardOpenRequestView {
        ForwardOpenRequestView {
            priority: 0,
            timeout_ticks: 255,
            ot_network_connection_id: 0,
            to_network_connection_id: 0,
            connection_serial_number: serial,
            original_vendor_id: 0x0001,
            original_serial_number: 0x1234_5678,
            connection_timeout_multiplier: 0,
            ot_rpi: 0,
            ot_network_parameters: 0,
            to_rpi: 0,
            to_network_parameters: 0,
            transport_class: 0,
            connection_path: path,
        }
    }

    /// The null forward-open for `path` with the given connection serial
    /// number. A device answers it without opening a connection, so it
    /// serves to validate a path.
    pub fn null_forward_open(path: EPath, connection_serial_number: u16) -> (r: Self)
        ensures
            r@ == Self::spec_null(path@, connection_serial_number),
    {
        ForwardOpenRequest {
            priority: 0,
            timeout_ticks: 255,
            ot_network_connection_id: 0,
            to_network_connection_id: 0,
            connection_serial_number,
            original_vendor_id: NULL_FORWARD_OPEN_VENDOR_ID,
            original_serial_number: NULL_FORWARD_OPEN_SERIAL_NUMBER,
            connection_timeout_multiplier: 0,
            ot_rpi: 0,
            ot_network_parameters: 0,
            to_rpi: 0,
            to_network_parameters: 0,
            transport_class: 0,
            connection_path: path,
        }
    }

    /// The null forward-open for `path` with a connection serial number
    /// drawn at random.
    pub fn create_null_forward_open(path: EPath) -> (r: Self)
        ensures
            r@ == Self::spec_null(path@, r@.connection_serial_number),
    {
        let serial: u16 = random_u16();
        Self::null_forward_open(path, serial)
    }

    /// The request that the first 35 bytes of `s` and a path spell.
    pub open spec fn spec_read(s: Seq<u8>, path: Seq<SegmentView>) -> ForwardOpenRequestView {
        ForwardOpenRequestView {
            priority: s[0],
            timeout_ticks: s[1],
            ot_network_connection_id: spec_le_u32(s, 2),
            to_network_connection_id: spec_le_u32(s, 6),
            connection_serial_number: spec_le_u16(s, 10),
            original_vendor_id: spec_le_u16(s, 12),
            original_serial_number: spec_le_u32(s, 14),
            connection_timeout_multiplier: s[18],
            ot_rpi: spec_le_u32(s, 22),
            ot_network_parameters: spec_le_u16(s, 26),
            to_rpi: spec_le_u32(s, 28),
            to_network_parameters: spec_le_u16(s, 32),
            transport_class: s[34],
            connection_path: path,
        }
    }

    /// Reading the fixed part of a request gives its fields back, whatever
    /// follows.
    pub proof fn lemma_fixed_part(v: ForwardOpenRequestView, tail: Seq<u8>)
        ensures
            Self::spec_fixed_part(v).len() == 35,
            Self::spec_read(Self::spec_fixed_part(v) + tail, v.connection_path) == v,
            (Self::spec_fixed_part(v) + tail)[19] == 0,
            (Self::spec_fixed_part(v) + tail)[20] == 0,
            (Self::spec_fixed_part(v) + tail)[21] == 0,
    {
        let s = Self::spec_fixed_part(v) + tail;
        assert(Self::spec_fixed_part(v).len() == 35);
        assert(s[0] == v.priority && s[1] == v.timeout_ticks && s[18]
            == v.connection_timeout_multiplier && s[34] == v.transport_class);
        assert(s.subrange(2, 6) =~= spec_u32_le_bytes(v.ot_network_connection_id));
        assert(s.subrange(6, 10) =~= spec_u32_le_bytes(v.to_network_connection_id));
        assert(s.subrange(10, 12) =~= spec_u16_le_bytes(v.connection_serial_number));
        assert(s.subrange(12, 14) =~= spec_u16_le_bytes(v.original_vendor_id));
        assert(s.subrange(14, 18) =~= spec_u32_le_bytes(v.original_serial_number));
        assert(s.subrange(22, 26) =~= spec_u32_le_bytes(v.ot_rpi));
        assert(s.subrange(26, 28) =~= spec_u16_le_bytes(v.ot_network_parameters));
        assert(s.subrange(28, 32) =~= spec_u32_le_bytes(v.to_rpi));
        assert(s.subrange(32, 34) =~= spec_u16_le_bytes(v.to_network_parameters));
        lemma_u32_le_round_trip(s, 2, v.ot_network_connection_id);
        lemma_u32_le_round_trip(s, 6, v.to_network_connection_id);
        lemma_u16_le_round_trip(s, 10, v.connection_serial_number);
        lemma_u16_le_round_trip(s, 12, v.original_vendor_id);
        lemma_u32_le_round_trip(s, 14, v.original_serial_number);
        lemma_u32_le_round_trip(s, 22, v.ot_rpi);
        lemma_u16_le_round_trip(s, 26, v.ot_network_parameters);
        lemma_u32_le_round_trip(s, 28, v.to_rpi);
        lemma_u16_le_round_trip(s, 32, v.to_network_parameters);
    }

    /// Parsing the encoding of a request gives the request back and leaves
    /// what followed it.
    pub proof fn lemma_round_trip(v: ForwardOpenRequestView, tail: Seq<u8>)
        requires
            Self::spec_serialize(v) is Ok,
        ensures
            Self::spec_deserialize(Self::spec_serialize(v)->Ok_0 + tail) == Ok::<
                (Seq<u8>, ForwardOpenRequestView),
                ParseError,
            >((tail, v)),
    {
        let path = EPath::spec_serialize(v.connection_path)->Ok_0;
        let words = spec_path_words(path)->Ok_0;
        let fixed = Self::spec_fixed_part(v);
        let s = (fixed + seq![words] + path) + tail;
        assert(Self::spec_serialize(v)->Ok_0 + tail == s);
        assert(s =~= fixed + (seq![words] + path + tail));
        Self::lemma_fixed_part(v, seq![words] + path + tail);
        assert(s[35] == words);
        assert(2 * words == path.len());
        assert(s.subrange(36, 36 + path.len() as int) =~= path);
        assert(s.skip(36 + path.len() as int) =~= tail);
        EPath::lemma_round_trip(v.connection_path);
    }
}

impl Serializable for ForwardOpenRequest {
    open spec fn spec_serialize(v: ForwardOpenRequestView) -> Result<Seq<u8>, EncodeError> {
        match EPath::spec_serialize(v.connection_path) {
            Ok(path) => match spec_path_words(path) {
                Ok(words) => Ok(ForwardOpenRequest::spec_fixed_part(v) + seq![words] + path),
                Err(e) => Err(e),
            },
            Err(e) => Err(e),
        }
    }

    open spec fn spec_deserialize(input: Seq<u8>) -> Result<
        (Seq<u8>, ForwardOpenRequestView),
        ParseError,
    > {
        if input.len() < 36 {
            Err(ParseError::Incomplete((36 - input.len()) as usize))
        } else if input[19] != 0 || input[20] != 0 || input[21] != 0 {
            Err(ParseError::Malformed(Field::ForwardOpenReserved))
        } else {
            let path_len = 2 * (input[35] as int);
            if input.len() - 36 < path_len {
                Err(ParseError::Incomplete((path_len - (input.len() - 36)) as usize))
            } else {
                match EPath::spec_parse_sized(input.subrange(36, 36 + path_len)) {
                    Ok(path) => Ok(
                        (input.skip(36 + path_len), ForwardOpenRequest::spec_read(input, path)),
                    ),
                    Err(e) => Err(e),
                }
            }
        }
    }

    fn serialize(&self) -> (r: Result<Vec<u8>, EncodeError>) {
        let path: Vec<u8> = match self.connection_path.serialize() {
            Ok(path) => path,
            Err(e) => {
                return Err(e);
            },
        };
        let words: u8 = match path_words(path.as_slice()) {
            Ok(words) => words,
            Err(e) => {
                return Err(e);
            },
        };
        let mut out: Vec<u8> = Vec::new();
        out.push(self.priority);
        out.push(self.timeout_ticks);
        push_le_u32(&mut out, self.ot_network_connection_id);
        push_le_u32(&mut out, self.to_network_connection_id);
        push_le_u16(&mut out, self.connection_serial_number);
        push_le_u16(&mut out, self.original_vendor_id);
        push_le_u32(&mut out, self.original_serial_number);
        out.push(self.connection_timeout_multiplier);
        out.push(0u8);
        out.push(0u8);
        out.push(0u8);
        push_le_u32(&mut out, self.ot_rpi);
        push_le_u16(&mut out, self.ot_network_parameters);
        push_le_u32(&mut out, self.to_rpi);
        push_le_u16(&mut out, self.to_network_parameters);
        out.push(self.transport_class);
        assert(out@ =~= ForwardOpenRequest::spec_fixed_part(self@));
        out.push(words);
        push_bytes(&mut out, path.as_slice());
        assert(out@ =~= ForwardOpenRequest::spec_fixed_part(self@) + seq![words] + path@);
        Ok(out)
    }

    fn deserialize<'a>(input: &'a [u8]) -> (r: Result<(&'a [u8], Self), ParseError>) {
        let n: usize = input.len();
        if n < 36 {
            return Err(ParseError::Incomplete(36 - n));
        }
        if input[19] != 0 || input[20] != 0 || input[21] != 0 {
            return Err(ParseError::Malformed(Field::ForwardOpenReserved));
        }
        let path_len: usize = 2 * (input[35] as usize);
        if n - 36 < path_len {
            return Err(ParseError::Incomplete(path_len - (n - 36)));
        }
        let end: usize = 36 + path_len;
        match EPath::parse_sized(slice_subrange(input, 36, end)) {
            Ok(connection_path) => Ok(
                (
                    slice_subrange(input, end, n),
                    ForwardOpenRequest {
                        priority: input[0],
                        timeout_ticks: input[1],
                        ot_network_connection_id: le_u32_at(input, 2),
                        to_network_connection_id: le_u32_at(input, 6),
                        connection_serial_number: le_u16_at(input, 10),
                        original_vendor_id: le_u16_at(input, 12),
                        original_serial_number: le_u32_at(input, 14),
                        connection_timeout_multiplier: input[18],
                        ot_rpi: le_u32_at(input, 22),
                        ot_network_parameters: le_u16_at(input, 26),
                        to_rpi: le_u32_at(input, 28),
                        to_network_parameters: le_u16_at(input, 32),
                        transport_class: input[34],
                        connection_path,
                    },
                ),
            ),
            Err(e) => Err(e),
        }
    }
}

/// A request that a device passes on along a route path to the object it
/// is for, without a connection.
#[derive(Clone, Debug, PartialEq, Eq)]
pub struct UnconnectedSendRequest {
    pub priority: u8,
    pub timeout_ticks: u8,
    pub message_request: MessageRouterRequest,
    pub route_path: EPath,
}

/// The mathematical content of an unconnected-send request.
pub struct UnconnectedSendRequestView {
    pub priority: u8,
    pub timeout_ticks: u8,
    pub message_request: MessageRouterRequestView,
    pub route_path: Seq<SegmentView>,
}

impl View for UnconnectedSendRequest {
    type V = UnconnectedSendRequestView;

    open spec fn view(&self) -> UnconnectedSendRequestView {
        UnconnectedSendRequestView {
            priority: self.priority,
            timeout_ticks: self.timeout_ticks,
            message_request: self.message_request@,
            route_path: self.route_path@,
        }
    }
}

/// The pad that follows an embedded request of `len` bytes: one zero byte
/// where `len` is odd, nothing where it is even.
pub open spec fn spec_pad(len: int) -> Seq<u8> {
    if len % 2 == 1 {
        seq![0u8]
    } else {
        Seq::<u8>::empty()
    }
}

impl UnconnectedSendRequest {
    /// The bytes of a request, given the encodings of its parts.
    pub open spec fn spec_wire(
        priority: u8,
        timeout_ticks: u8,
        embedded: Seq<u8>,
        words: u8,
        route: Seq<u8>,
    ) -> Seq<u8> {
        seq![priority, timeout_ticks] + spec_u16_le_bytes(embedded.len() as u16) + embedded
            + spec_pad(embedded.len() as int) + seq![words, 0u8] + route
    }

    /// Parsing the encoding of a request gives the request back and leaves
    /// what followed it.
    pub proof fn lemma_round_trip(v: UnconnectedSendRequestView, tail: Seq<u8>)
        requires
            Self::spec_serialize(v) is Ok,
        ensures
            Self::spec_deserialize(Self::spec_serialize(v)->Ok_0 + tail) == Ok::<
                (Seq<u8>, UnconnectedSendRequestView),
                ParseError,
            >((tail, v)),
    {
        let embedded = MessageRouterRequest::spec_serialize(v.message_request)->Ok_0;
        let route = EPath::spec_serialize(v.route_path)->Ok_0;
        let words = spec_path_words(route)->Ok_0;
        let len = embedded.len() as int;
        let padded = len + len % 2;
        let s = Self::spec_wire(v.priority, v.timeout_ticks, embedded, words, route) + tail;
        assert(Self::spec_serialize(v)->Ok_0 + tail == s);
        assert(spec_pad(len).len() == len % 2);
        assert(s[0] == v.priority && s[1] == v.timeout_ticks);
        assert(s.subrange(2, 4) =~= spec_u16_le_bytes(len as u16));
        lemma_u16_le_round_trip(s, 2, len as u16);
        assert(s.subrange(4, 4 + len) =~= embedded);
        MessageRouterRequest::lemma_round_trip(v.message_request);
        if len % 2 == 1 {
            assert(s[4 + len] == 0u8);
        }
        let base = 4 + padded;
        assert(s[base] == words && s[base + 1] == 0u8);
        assert(2 * words == route.len());
        assert(s.subrange(base + 2, base + 2 + route.len()) =~= route);
        assert(s.skip(base + 2 + route.len()) =~= tail);
        EPath::lemma_round_trip(v.route_path);
    }
}

impl Serializable for UnconnectedSendRequest {
    open spec fn spec_serialize(v: UnconnectedSendRequestView) -> Result<Seq<u8>, EncodeError> {
        match MessageRouterRequest::spec_serialize(v.message_request) {
            Ok(embedded) => if embedded.len() > 0xFFFF {
                Err(EncodeError::EncodingInvariantViolated(Reason::PayloadTooLong))
            } else {
                match EPath::spec_serialize(v.route_path) {
                    Ok(route) => match spec_path_words(route) {
                        Ok(words) => Ok(
                            UnconnectedSendRequest::spec_wire(
                                v.priority,
                                v.timeout_ticks,
                                embedded,
                                words,
                                route,
                            ),
                        ),
                        Err(e) => Err(e),
                    },
                    Err(e) => Err(e),
                }
            },
            Err(e) => Err(e),
        }
    }

    open spec fn spec_deserialize(input: Seq<u8>) -> Result<
        (Seq<u8>, UnconnectedSendRequestView),
        ParseError,
    > {
        if input.len() < 4 {
            Err(ParseError::Incomplete((4 - input.len()) as usize))
        } else {
            let len = spec_le_u16(input, 2) as int;
            let base = 4 + len + len % 2;
            if input.len() < base {
                Err(ParseError::Incomplete((base - input.len()) as usize))
            } else {
                match MessageRouterRequest::spec_deserialize(input.subrange(4, 4 + len)) {
                    Ok((_, message_request)) => if len % 2 == 1 && input[4 + len] != 0 {
                        Err(ParseError::Malformed(Field::EmbeddedPad))
                    } else if input.len() < base + 2 {
                        Err(ParseError::Incomplete((base + 2 - input.len()) as usize))
                    } else if input[base + 1] != 0 {
                        Err(ParseError::Malformed(Field::RoutePathReserved))
                    } else {
                        let end = base + 2 + 2 * (input[base] as int);
                        if input.len() < end {
                            Err(ParseError::Incomplete((end - input.len()) as usize))
                        } else {
                            match EPath::spec_parse_sized(input.subrange(base + 2, end)) {
                                Ok(route_path) => Ok(
                                    (
                                        input.skip(end),
                                        UnconnectedSendRequestView {
                                            priority: input[0],
                                            timeout_ticks: input[1],
                                            message_request,
                                            route_path,
                                        },
                                    ),
                                ),
                                Err(e) => Err(e),
                            }
                        }
                    },
                    Err(e) => Err(e),
                }
            }
        }
    }

    fn serialize(&self) -> (r: Result<Vec<u8>, EncodeError>) {
        let embedded: Vec<u8> = match self.message_request.serialize() {
            Ok(embedded) => embedded,
            Err(e) => {
                return Err(e);
            },
        };
        let len: usize = embedded.len();
        if len > 0xFFFF {
            return Err(EncodeError::EncodingInvariantViolated(Reason::PayloadTooLong));
        }
        let route: Vec<u8> = match self.route_path.serialize() {
            Ok(route) => route,
            Err(e) => {
                return Err(e);
            },
        };
        let words: u8 = match path_words(route.as_slice()) {
            Ok(words) => words,
            Err(e) => {
                return Err(e);
            },
        };
        let mut out: Vec<u8> = Vec::new();
        out.push(self.priority);
        out.push(self.timeout_ticks);
        push_le_u16(&mut out, len as u16);
        push_bytes(&mut out, embedded.as_slice());
        if len % 2 != 0 {
            out.push(0u8);
        }
        out.push(words);
        out.push(0u8);
        push_bytes(&mut out, route.as_slice());
        assert(out@ =~= UnconnectedSendRequest::spec_wire(
            self.priority,
            self.timeout_ticks,
            embedded@,
            words,
            route@,
        ));
        Ok(out)
    }

    fn deserialize<'a>(input: &'a [u8]) -> (r: Result<(&'a [u8], Self), ParseError>) {
        let n: usize = input.len();
        if n < 4 {
            return Err(ParseError::Incomplete(4 - n));
        }
        let len: usize = le_u16_at(input, 2) as usize;
        let base: usize = 4 + len + len % 2;
        if n < base {
            return Err(ParseError::Incomplete(base - n));
        }
        let message_request: MessageRouterRequest = match MessageRouterRequest::deserialize(
            slice_subrange(input, 4, 4 + len),
        ) {
            Ok((_, message_request)) => message_request,
            Err(e) => {
                return Err(e);
            },
        };
        if len % 2 == 1 && input[4 + len] != 0 {
            return Err(ParseError::Malformed(Field::EmbeddedPad));
        }
        if n < base + 2 {
            return Err(ParseError::Incomplete(base + 2 - n));
        }
        if input[base + 1] != 0 {
            return Err(ParseError::Malformed(Field::RoutePathReserved));
        }
        let end: usize = base + 2 + 2 * (input[base] as usize);
        if n < end {
            return Err(ParseError::Incomplete(end - n));
        }
        match EPath::parse_sized(slice_subrange(input, base + 2, end)) {
            Ok(route_path) => Ok(
                (
                    slice_subrange(input, end, n),
                    UnconnectedSendRequest {
                        priority: input[0],
                        timeout_ticks: input[1],
                        message_request,
                        route_path,
                    },
                ),
            ),
            Err(e) => Err(e),
        }
    }
}

} // verus!
