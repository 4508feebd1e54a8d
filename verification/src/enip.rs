//! The EtherNet/IP encapsulation layer: the 24-byte header and the bodies of
//! the commands a client sends and receives.

use vstd::prelude::*;
use vstd::slice::{slice_subrange, slice_to_vec};
use crate::common::{
    le_u16_at, le_u32_at, le_u64_at, lemma_u16_le_round_trip, lemma_u32_le_round_trip,
    lemma_u64_le_round_trip, push_bytes, push_le_u16, push_le_u32, push_le_u64, spec_le_u16,
    spec_le_u32, spec_le_u64, spec_u16_le_bytes, spec_u32_le_bytes, spec_u64_le_bytes, EncodeError,
    Field, ParseError, Reason, Serializable,
};
use crate::cpf::{
    spec_item_wire, CommonPacketList, ConnectedAddressItem, ConnectedDataItem, CpfItem, CpfItemView,
    UnconnectedDataItem,
};

verus! {

/// Command code of a no-operation message.
pub const COMMAND_NOP: u16 = 0x0000;

/// Command code of a session registration.
pub const COMMAND_REGISTER_SESSION: u16 = 0x0065;

/// Command code of a session release.
pub const COMMAND_UNREGISTER_SESSION: u16 = 0x0066;

/// Command code of an unconnected request or reply.
pub const COMMAND_SEND_RR_DATA: u16 = 0x006F;

/// Command code of a connected message.
pub const COMMAND_SEND_UNIT_DATA: u16 = 0x0070;

/// The largest payload that fits in an unconnected message: the 16-bit
/// length of the body also counts the 16 bytes that frame the payload.
pub const MAX_UNCONNECTED_PAYLOAD: usize = 65519;

/// The largest payload that fits in a connected message: the 16-bit length
/// of the body also counts the 20 bytes that frame the payload.
pub const MAX_CONNECTED_PAYLOAD: usize = 65515;

/// A packet that belongs to a session.
pub trait ENIPPacket: Serializable {
    /// The packet with its session handle replaced and all else kept.
    spec fn spec_set_session(v: Self::V, session_handle: u32) -> Self::V;

    /// Stamps the packet with a session handle.
    fn set_session(&mut self, session_handle: u32)
        ensures
            final(self)@ == Self::spec_set_session(old(self)@, session_handle),
    ;
}

/// The fixed header that starts every encapsulation message.
#[derive(Clone, Copy, Debug, PartialEq, Eq, Structural)]
pub struct EtherNetIPHeader {
    pub command: u16,
    pub length: u16,
    pub session_handle: u32,
    pub status: u32,
    pub sender_context: u64,
    pub options: u32,
}

impl View for EtherNetIPHeader {
    type V = EtherNetIPHeader;

    open spec fn view(&self) -> EtherNetIPHeader {
        *self
    }
}

impl EtherNetIPHeader {
    /// The header a client sends: the given command, body length and
    /// session handle, and zero for status, sender context and options.
    pub open spec fn spec_outbound(command: u16, length: u16, session_handle: u32) -> Self {
        EtherNetIPHeader {
            command,
            length,
            session_handle,
            status: 0,
            sender_context: 0,
            options: 0,
        }
    }

    /// The header a client sends.
    pub fn outbound(command: u16, length: u16, session_handle: u32) -> (r: Self)
        ensures
            r == Self::spec_outbound(command, length, session_handle),
    {
        EtherNetIPHeader {
            command,
            length,
            session_handle,
            status: 0,
            sender_context: 0,
            options: 0,
        }
    }

    /// The 24 bytes of a header.
    pub open spec fn wire(self) -> Seq<u8> {
        spec_u16_le_bytes(self.command) + spec_u16_le_bytes(self.length) + spec_u32_le_bytes(
            self.session_handle,
        ) + spec_u32_le_bytes(self.status) + spec_u64_le_bytes(self.sender_context)
            + spec_u32_le_bytes(self.options)
    }

    /// The header that the first 24 bytes of `s` spell.
    pub open spec fn read(s: Seq<u8>) -> EtherNetIPHeader {
        EtherNetIPHeader {
            command: spec_le_u16(s, 0),
            length: spec_le_u16(s, 2),
            session_handle: spec_le_u32(s, 4),
            status: spec_le_u32(s, 8),
            sender_context: spec_le_u64(s, 12),
            options: spec_le_u32(s, 20),
        }
    }

    /// A header always encodes to 24 bytes, and reading them gives it back,
    /// whatever follows.
    pub proof fn lemma_wire(self, tail: Seq<u8>)
        ensures
            self.wire().len() == 24,
            Self::read(self.wire() + tail) == self,
    {
        let s = self.wire() + tail;
        assert(s.subrange(0, 2) =~= spec_u16_le_bytes(self.command));
        assert(s.subrange(2, 4) =~= spec_u16_le_bytes(self.length));
        assert(s.subrange(4, 8) =~= spec_u32_le_bytes(self.session_handle));
        assert(s.subrange(8, 12) =~= spec_u32_le_bytes(self.status));
        assert(s.subrange(12, 20) =~= spec_u64_le_bytes(self.sender_context));
        assert(s.subrange(20, 24) =~= spec_u32_le_bytes(self.options));
        lemma_u16_le_round_trip(s, 0, self.command);
        lemma_u16_le_round_trip(s, 2, self.length);
        lemma_u32_le_round_trip(s, 4, self.session_handle);
        lemma_u32_le_round_trip(s, 8, self.status);
        lemma_u64_le_round_trip(s, 12, self.sender_context);
        lemma_u32_le_round_trip(s, 20, self.options);
    }

    /// Parsing the encoding of a header gives the header back and leaves what
    /// followed it.
    pub proof fn lemma_round_trip(v: EtherNetIPHeader, tail: Seq<u8>)
        ensures
            Self::spec_serialize(v) is Ok,
            Self::spec_deserialize(Self::spec_serialize(v)->Ok_0 + tail) == Ok::<
                (Seq<u8>, EtherNetIPHeader),
                ParseError,
            >((tail, v)),
    {
        v.lemma_wire(tail);
        assert((v.wire() + tail).skip(24) =~= tail);
    }
}

impl Serializable for EtherNetIPHeader {
    open spec fn spec_serialize(v: EtherNetIPHeader) -> Result<Seq<u8>, EncodeError> {
        Ok(v.wire())
    }

    open spec fn spec_deserialize(input: Seq<u8>) -> Result<
        (Seq<u8>, EtherNetIPHeader),
        ParseError,
    > {
        if input.len() < 24 {
            Err(ParseError::Incomplete((24 - input.len()) as usize))
        } else {
            Ok((input.skip(24), EtherNetIPHeader::read(input)))
        }
    }

    fn serialize(&self) -> (r: Result<Vec<u8>, EncodeError>) {
        let mut out: Vec<u8> = Vec::new();
        push_le_u16(&mut out, self.command);
        push_le_u16(&mut out, self.length);
        push_le_u32(&mut out, self.session_handle);
        push_le_u32(&mut out, self.status);
        push_le_u64(&mut out, self.sender_context);
        push_le_u32(&mut out, self.options);
        assert(out@ =~= self.wire());
        Ok(out)
    }

    fn deserialize<'a>(input: &'a [u8]) -> (r: Result<(&'a [u8], Self), ParseError>) {
        let n: usize = input.len();
        if n < 24 {
            return Err(ParseError::Incomplete(24 - n));
        }
        let header = EtherNetIPHeader {
            command: le_u16_at(input, 0),
            length: le_u16_at(input, 2),
            session_handle: le_u32_at(input, 4),
            status: le_u32_at(input, 8),
            sender_context: le_u64_at(input, 12),
            options: le_u32_at(input, 20),
        };
        Ok((slice_subrange(input, 24, n), header))
    }
}

impl ENIPPacket for EtherNetIPHeader {
    open spec fn spec_set_session(v: EtherNetIPHeader, session_handle: u32) -> EtherNetIPHeader {
        EtherNetIPHeader { session_handle, ..v }
    }

    fn set_session(&mut self, session_handle: u32) {
        self.session_handle = session_handle;
    }
}

/// An encoded message with the sender context in its header replaced by
/// `context`.
pub open spec fn spec_with_context(message: Seq<u8>, context: u64) -> Seq<u8> {
    message.take(12) + spec_u64_le_bytes(context) + message.skip(20)
}

/// Replaces the sender context in the header of an encoded message. Bytes
/// too few to hold a header stay as they are.
pub fn set_sender_context(message: &mut Vec<u8>, context: u64)
    ensures
        final(message)@ == if old(message)@.len() >= 24 {
            spec_with_context(old(message)@, context)
        } else {
            old(message)@
        },
{
    let n: usize = message.len();
    if n < 24 {
        return;
    }
    let mut out: Vec<u8> = Vec::new();
    push_bytes(&mut out, slice_subrange(message.as_slice(), 0, 12));
    push_le_u64(&mut out, context);
    push_bytes(&mut out, slice_subrange(message.as_slice(), 20, n));
    assert(out@ =~= spec_with_context(message@, context));
    *message = out;
}

/// Replacing the sender context of an encoded message changes that field of
/// its header and nothing else: the other fields, the length and what
/// follows the header stay.
pub proof fn lemma_with_context(message: Seq<u8>, context: u64)
    requires
        message.len() >= 24,
    ensures
        spec_with_context(message, context).len() == message.len(),
        EtherNetIPHeader::read(spec_with_context(message, context)) == (EtherNetIPHeader {
            sender_context: context,
            ..EtherNetIPHeader::read(message)
        }),
        spec_with_context(message, context).skip(24) == message.skip(24),
        spec_frame(spec_with_context(message, context)) is Ok <==> spec_frame(message) is Ok,
{
    let s = spec_with_context(message, context);
    assert(spec_u64_le_bytes(context).len() == 8);
    assert(s.len() == message.len());
    assert forall|i: int| 0 <= i < 12 || 20 <= i < message.len() implies s[i] == message[i] by {}
    assert(s.subrange(12, 20) =~= spec_u64_le_bytes(context));
    lemma_u64_le_round_trip(s, 12, context);
    assert(s.skip(24) =~= message.skip(24));
}

/// What cutting one message off the front of `s` yields: its header, its
/// body as long as the header says, and what follows the message.
pub open spec fn spec_frame(s: Seq<u8>) -> Result<
    (EtherNetIPHeader, Seq<u8>, Seq<u8>),
    ParseError,
> {
    if s.len() < 24 {
        Err(ParseError::Incomplete((24 - s.len()) as usize))
    } else {
        let header = EtherNetIPHeader::read(s);
        if s.len() - 24 < header.length {
            Err(ParseError::Incomplete((header.length - (s.len() - 24)) as usize))
        } else {
            Ok((header, s.subrange(24, 24 + header.length), s.skip(24 + header.length)))
        }
    }
}

/// Cuts one message off the front of `input`.
pub fn split_frame<'a>(input: &'a [u8]) -> (r: Result<
    (EtherNetIPHeader, &'a [u8], &'a [u8]),
    ParseError,
>)
    ensures
        match r {
            Ok((header, body, rest)) => spec_frame(input@) == Ok::<
                (EtherNetIPHeader, Seq<u8>, Seq<u8>),
                ParseError,
            >((header, body@, rest@)),
            Err(e) => spec_frame(input@) == Err::<
                (EtherNetIPHeader, Seq<u8>, Seq<u8>),
                ParseError,
            >(e),
        },
{
    let n: usize = input.len();
    match EtherNetIPHeader::deserialize(input) {
        Ok((_, header)) => {
            let length: usize = header.length as usize;
            if n - 24 < length {
                return Err(ParseError::Incomplete(length - (n - 24)));
            }
            let end: usize = 24 + length;
            Ok((header, slice_subrange(input, 24, end), slice_subrange(input, end, n)))
        },
        Err(e) => Err(e),
    }
}

/// Cutting a message off the front of its own bytes gives its header and
/// body back, and leaves what followed it.
pub proof fn lemma_frame(header: EtherNetIPHeader, body: Seq<u8>, tail: Seq<u8>)
    requires
        header.length == body.len(),
    ensures
        spec_frame(header.wire() + body + tail) == Ok::<
            (EtherNetIPHeader, Seq<u8>, Seq<u8>),
            ParseError,
        >((header, body, tail)),
        (header.wire() + body).len() == 24 + body.len(),
        EtherNetIPHeader::read(header.wire() + body) == header,
{
    let s = header.wire() + body + tail;
    assert(s =~= header.wire() + (body + tail));
    header.lemma_wire(body + tail);
    header.lemma_wire(body);
    assert(s.subrange(24, 24 + header.length) =~= body);
    assert(s.skip(24 + header.length) =~= tail);
}

/// The request that releases a session: a header without a body.
#[derive(Clone, Copy, Debug, PartialEq, Eq, Structural)]
pub struct UnregisterSession {
    pub header: EtherNetIPHeader,
}

impl View for UnregisterSession {
    type V = UnregisterSession;

    open spec fn view(&self) -> UnregisterSession {
        *self
    }
}

impl UnregisterSession {
    /// The request that releases the session `session_handle`.
    pub fn request(session_handle: u32) -> (r: Self)
        ensures
            r == (UnregisterSession {
                header: EtherNetIPHeader::spec_outbound(0x0066, 0, session_handle),
            }),
            Self::spec_serialize(r) == Ok::<Seq<u8>, EncodeError>(
                EtherNetIPHeader::spec_outbound(0x0066, 0, session_handle).wire(),
            ),
    {
        UnregisterSession {
            header: EtherNetIPHeader::outbound(COMMAND_UNREGISTER_SESSION, 0, session_handle),
        }
    }

    /// The length that the header of an encoded message carries is the
    /// number of bytes that follow the header: zero.
    pub proof fn lemma_length_agreement(v: UnregisterSession)
        requires
            Self::spec_serialize(v) is Ok,
        ensures
            EtherNetIPHeader::read(Self::spec_serialize(v)->Ok_0).length == Self::spec_serialize(
                v,
            )->Ok_0.len() - 24,
    {
        lemma_frame(v.header, Seq::<u8>::empty(), Seq::<u8>::empty());
        assert(v.header.wire() + Seq::<u8>::empty() =~= v.header.wire());
    }

    /// Parsing the encoding of a message gives the message back and leaves
    /// what followed it.
    pub proof fn lemma_round_trip(v: UnregisterSession, tail: Seq<u8>)
        requires
            Self::spec_serialize(v) is Ok,
        ensures
            Self::spec_deserialize(Self::spec_serialize(v)->Ok_0 + tail) == Ok::<
                (Seq<u8>, UnregisterSession),
                ParseError,
            >((tail, v)),
    {
        lemma_frame(v.header, Seq::<u8>::empty(), tail);
        assert(v.header.wire() + Seq::<u8>::empty() =~= v.header.wire());
    }
}

impl Serializable for UnregisterSession {
    open spec fn spec_serialize(v: UnregisterSession) -> Result<Seq<u8>, EncodeError> {
        if v.header.length != 0 {
            Err(EncodeError::EncodingInvariantViolated(Reason::LengthMismatch))
        } else {
            Ok(v.header.wire())
        }
    }

    open spec fn spec_deserialize(input: Seq<u8>) -> Result<
        (Seq<u8>, UnregisterSession),
        ParseError,
    > {
        match spec_frame(input) {
            Ok((header, body, rest)) => if body.len() != 0 {
                Err(ParseError::Malformed(Field::EncapsulationLength))
            } else {
                Ok((rest, UnregisterSession { header }))
            },
            Err(e) => Err(e),
        }
    }

    fn serialize(&self) -> (r: Result<Vec<u8>, EncodeError>) {
        if self.header.length != 0 {
            return Err(EncodeError::EncodingInvariantViolated(Reason::LengthMismatch));
        }
        self.header.serialize()
    }

    fn deserialize<'a>(input: &'a [u8]) -> (r: Result<(&'a [u8], Self), ParseError>) {
        match split_frame(input) {
            Ok((header, body, rest)) => {
                if body.len() != 0 {
                    return Err(ParseError::Malformed(Field::EncapsulationLength));
                }
                Ok((rest, UnregisterSession { header }))
            },
            Err(e) => Err(e),
        }
    }
}

impl ENIPPacket for UnregisterSession {
    open spec fn spec_set_session(v: UnregisterSession, session_handle: u32) -> UnregisterSession {
        UnregisterSession { header: EtherNetIPHeader { session_handle, ..v.header } }
    }

    fn set_session(&mut self, session_handle: u32) {
        self.header.session_handle = session_handle;
    }
}

/// The request that opens a session, and its reply.
#[derive(Clone, Copy, Debug, PartialEq, Eq, Structural)]
pub struct RegisterSession {
    pub header: EtherNetIPHeader,
    pub version: u16,
    pub options: u16,
}

impl View for RegisterSession {
    type V = RegisterSession;

    open spec fn view(&self) -> RegisterSession {
        *self
    }
}

impl RegisterSession {
    /// The request a client opens a session with: protocol version 1, no
    /// option flags, no session handle yet.
    pub open spec fn spec_request() -> RegisterSession {
        RegisterSession {
            header: EtherNetIPHeader {
                command: 0x0065,
                length: 4,
                session_handle: 0,
                status: 0,
                sender_context: 0,
                options: 0,
            },
            version: 1,
            options: 0,
        }
    }

    /// The request a client opens a session with.
    pub fn request() -> (r: Self)
        ensures
            r == Self::spec_request(),
            Self::spec_serialize(r) is Ok,
    {
        RegisterSession {
            header: EtherNetIPHeader {
                command: COMMAND_REGISTER_SESSION,
                length: 4,
                session_handle: 0,
                status: 0,
                sender_context: 0,
                options: 0,
            },
            version: 1,
            options: 0,
        }
    }

    /// The four bytes of the body.
    pub open spec fn spec_body(self) -> Seq<u8> {
        spec_u16_le_bytes(self.version) + spec_u16_le_bytes(self.options)
    }

    /// The length that the header of an encoded message carries is the
    /// number of bytes that follow the header.
    pub proof fn lemma_length_agreement(v: RegisterSession)
        requires
            Self::spec_serialize(v) is Ok,
        ensures
            EtherNetIPHeader::read(Self::spec_serialize(v)->Ok_0).length == Self::spec_serialize(
                v,
            )->Ok_0.len() - 24,
    {
        lemma_frame(v.header, v.spec_body(), Seq::<u8>::empty());
    }

    /// Parsing the encoding of a message gives the message back and leaves
    /// what followed it.
    pub proof fn lemma_round_trip(v: RegisterSession, tail: Seq<u8>)
        requires
            Self::spec_serialize(v) is Ok,
        ensures
            Self::spec_deserialize(Self::spec_serialize(v)->Ok_0 + tail) == Ok::<
                (Seq<u8>, RegisterSession),
                ParseError,
            >((tail, v)),
    {
        let body = v.spec_body();
        lemma_frame(v.header, body, tail);
        assert(body.subrange(0, 2) =~= spec_u16_le_bytes(v.version));
        assert(body.subrange(2, 4) =~= spec_u16_le_bytes(v.options));
        lemma_u16_le_round_trip(body, 0, v.version);
        lemma_u16_le_round_trip(body, 2, v.options);
    }
}

impl Serializable for RegisterSession {
    open spec fn spec_serialize(v: RegisterSession) -> Result<Seq<u8>, EncodeError> {
        if v.header.length != 4 {
            Err(EncodeError::EncodingInvariantViolated(Reason::LengthMismatch))
        } else {
            Ok(v.header.wire() + v.spec_body())
        }
    }

    open spec fn spec_deserialize(input: Seq<u8>) -> Result<
        (Seq<u8>, RegisterSession),
        ParseError,
    > {
        match spec_frame(input) {
            Ok((header, body, rest)) => if body.len() < 4 {
                Err(ParseError::Incomplete((4 - body.len()) as usize))
            } else if body.len() > 4 {
                Err(ParseError::Malformed(Field::EncapsulationLength))
            } else {
                Ok(
                    (
                        rest,
                        RegisterSession {
                            header,
                            version: spec_le_u16(body, 0),
                            options: spec_le_u16(body, 2),
                        },
                    ),
                )
            },
            Err(e) => Err(e),
        }
    }

    fn serialize(&self) -> (r: Result<Vec<u8>, EncodeError>) {
        if self.header.length != 4 {
            return Err(EncodeError::EncodingInvariantViolated(Reason::LengthMismatch));
        }
        let mut out: Vec<u8> = match self.header.serialize() {
            Ok(out) => out,
            Err(e) => {
                return Err(e);
            },
        };
        push_le_u16(&mut out, self.version);
        push_le_u16(&mut out, self.options);
        assert(out@ =~= self.header.wire() + self.spec_body());
        Ok(out)
    }

    fn deserialize<'a>(input: &'a [u8]) -> (r: Result<(&'a [u8], Self), ParseError>) {
        match split_frame(input) {
            Ok((header, body, rest)) => {
                let n: usize = body.len();
                if n < 4 {
                    return Err(ParseError::Incomplete(4 - n));
                }
                if n > 4 {
                    return Err(ParseError::Malformed(Field::EncapsulationLength));
                }
                Ok(
                    (
                        rest,
                        RegisterSession {
                            header,
                            version: le_u16_at(body, 0),
                            options: le_u16_at(body, 2),
                        },
                    ),
                )
            },
            Err(e) => Err(e),
        }
    }
}

impl ENIPPacket for RegisterSession {
    open spec fn spec_set_session(v: RegisterSession, session_handle: u32) -> RegisterSession {
        RegisterSession { header: EtherNetIPHeader { session_handle, ..v.header }, ..v }
    }

    fn set_session(&mut self, session_handle: u32) {
        self.header.session_handle = session_handle;
    }
}

/// The mathematical content of a message that carries an item list.
pub struct SendDataView {
    pub header: EtherNetIPHeader,
    pub interface_handle: u32,
    pub timeout: u16,
    pub items: Seq<CpfItemView>,
}

/// The body of a message that carries an item list, given the encoding of
/// the list.
pub open spec fn spec_data_body(interface_handle: u32, timeout: u16, list: Seq<u8>) -> Seq<u8> {
    spec_u32_le_bytes(interface_handle) + spec_u16_le_bytes(timeout) + list
}

/// The bytes a message that carries an item list encodes to. The length in
/// its header must be the length of its body.
pub open spec fn spec_serialize_data(v: SendDataView) -> Result<Seq<u8>, EncodeError> {
    match CommonPacketList::spec_serialize(v.items) {
        Ok(list) => if v.header.length != 6 + list.len() {
            Err(EncodeError::EncodingInvariantViolated(Reason::LengthMismatch))
        } else {
            Ok(v.header.wire() + spec_data_body(v.interface_handle, v.timeout, list))
        },
        Err(e) => Err(e),
    }
}

/// What parsing a message that carries an item list yields. The list must
/// fill the body.
pub open spec fn spec_deserialize_data(input: Seq<u8>) -> Result<
    (Seq<u8>, SendDataView),
    ParseError,
> {
    match spec_frame(input) {
        Ok((header, body, rest)) => if body.len() < 6 {
            Err(ParseError::Incomplete((6 - body.len()) as usize))
        } else {
            match CommonPacketList::spec_deserialize(body.skip(6)) {
                Ok((unread, items)) => if unread.len() != 0 {
                    Err(ParseError::Malformed(Field::EncapsulationLength))
                } else {
                    Ok(
                        (
                            rest,
                            SendDataView {
                                header,
                                interface_handle: spec_le_u32(body, 0),
                                timeout: spec_le_u16(body, 4),
                                items,
                            },
                        ),
                    )
                },
                Err(e) => Err(e),
            }
        },
        Err(e) => Err(e),
    }
}

/// Encodes a message that carries an item list.
pub fn serialize_data(
    header: &EtherNetIPHeader,
    interface_handle: u32,
    timeout: u16,
    items: &CommonPacketList,
) -> (r: Result<Vec<u8>, EncodeError>)
    ensures
        match r {
            Ok(bytes) => spec_serialize_data(
                SendDataView { header: *header, interface_handle, timeout, items: items@ },
            ) == Ok::<Seq<u8>, EncodeError>(bytes@),
            Err(e) => spec_serialize_data(
                SendDataView { header: *header, interface_handle, timeout, items: items@ },
            ) == Err::<Seq<u8>, EncodeError>(e),
        },
{
    let list: Vec<u8> = match items.serialize() {
        Ok(list) => list,
        Err(e) => {
            return Err(e);
        },
    };
    if list.len() > 0xFFFF - 6 || header.length as usize != 6 + list.len() {
        return Err(EncodeError::EncodingInvariantViolated(Reason::LengthMismatch));
    }
    let mut out: Vec<u8> = match header.serialize() {
        Ok(out) => out,
        Err(e) => {
            return Err(e);
        },
    };
    push_le_u32(&mut out, interface_handle);
    push_le_u16(&mut out, timeout);
    push_bytes(&mut out, list.as_slice());
    assert(out@ =~= header.wire() + spec_data_body(interface_handle, timeout, list@));
    Ok(out)
}

/// Parses a message that carries an item list.
pub fn deserialize_data<'a>(input: &'a [u8]) -> (r: Result<
    (&'a [u8], EtherNetIPHeader, u32, u16, CommonPacketList),
    ParseError,
>)
    ensures
        match r {
            Ok((rest, header, interface_handle, timeout, items)) => spec_deserialize_data(input@)
                == Ok::<(Seq<u8>, SendDataView), ParseError>(
                (rest@, SendDataView { header, interface_handle, timeout, items: items@ }),
            ),
            Err(e) => spec_deserialize_data(input@) == Err::<(Seq<u8>, SendDataView), ParseError>(
                e,
            ),
        },
{
    match split_frame(input) {
        Ok((header, body, rest)) => {
            let n: usize = body.len();
            if n < 6 {
                return Err(ParseError::Incomplete(6 - n));
            }
            match CommonPacketList::deserialize(slice_subrange(body, 6, n)) {
                Ok((unread, items)) => {
                    if unread.len() != 0 {
                        return Err(ParseError::Malformed(Field::EncapsulationLength));
                    }
                    Ok((rest, header, le_u32_at(body, 0), le_u16_at(body, 4), items))
                },
                Err(e) => Err(e),
            }
        },
        Err(e) => Err(e),
    }
}

/// The length that the header of an encoded message with an item list
/// carries is the number of bytes that follow the header.
pub proof fn lemma_data_length_agreement(v: SendDataView)
    requires
        spec_serialize_data(v) is Ok,
    ensures
        EtherNetIPHeader::read(spec_serialize_data(v)->Ok_0).length == spec_serialize_data(
            v,
        )->Ok_0.len() - 24,
{
    let list = CommonPacketList::spec_serialize(v.items)->Ok_0;
    lemma_frame(v.header, spec_data_body(v.interface_handle, v.timeout, list), Seq::<u8>::empty());
}

/// Reading the body of a message that carries an item list gives its
/// fields back.
pub proof fn lemma_data_body(interface_handle: u32, timeout: u16, list: Seq<u8>)
    ensures
        spec_data_body(interface_handle, timeout, list).len() == 6 + list.len(),
        spec_le_u32(spec_data_body(interface_handle, timeout, list), 0) == interface_handle,
        spec_le_u16(spec_data_body(interface_handle, timeout, list), 4) == timeout,
        spec_data_body(interface_handle, timeout, list).skip(6) == list,
{
    let body = spec_data_body(interface_handle, timeout, list);
    assert(body.subrange(0, 4) =~= spec_u32_le_bytes(interface_handle));
    assert(body.subrange(4, 6) =~= spec_u16_le_bytes(timeout));
    lemma_u32_le_round_trip(body, 0, interface_handle);
    lemma_u16_le_round_trip(body, 4, timeout);
    assert(body.skip(6) =~= list);
}

/// Parsing the encoding of a message that carries an item list gives the
/// message back and leaves what followed it, provided none of its items is
/// of unknown kind.
pub proof fn lemma_data_round_trip(v: SendDataView, tail: Seq<u8>)
    requires
        spec_serialize_data(v) is Ok,
        CommonPacketList::spec_all_known(v.items),
    ensures
        spec_deserialize_data(spec_serialize_data(v)->Ok_0 + tail) == Ok::<
            (Seq<u8>, SendDataView),
            ParseError,
        >((tail, v)),
{
    let list = CommonPacketList::spec_serialize(v.items)->Ok_0;
    let body = spec_data_body(v.interface_handle, v.timeout, list);
    lemma_data_body(v.interface_handle, v.timeout, list);
    lemma_frame(v.header, body, tail);
    CommonPacketList::lemma_round_trip(v.items, Seq::<u8>::empty(), false);
    assert(list + Seq::<u8>::empty() =~= list);
}

/// An unconnected request or reply.
#[derive(Clone, Debug, PartialEq, Eq)]
pub struct SendRRData {
    pub header: EtherNetIPHeader,
    pub interface_handle: u32,
    pub timeout: u16,
    pub items: CommonPacketList,
}

impl View for SendRRData {
    type V = SendDataView;

    open spec fn view(&self) -> SendDataView {
        SendDataView {
            header: self.header,
            interface_handle: self.interface_handle,
            timeout: self.timeout,
            items: self.items@,
        }
    }
}

impl SendRRData {
    /// The unconnected message that carries `payload`: a null address item
    /// and an unconnected data item, with the length of the body in the
    /// header.
    pub open spec fn spec_unconnected(session_handle: u32, payload: Seq<u8>) -> SendDataView {
        SendDataView {
            header: EtherNetIPHeader::spec_outbound(
                0x006F,
                (16 + payload.len()) as u16,
                session_handle,
            ),
            interface_handle: 0,
            timeout: 0,
            items: seq![CpfItemView::NullAddress, CpfItemView::UnconnectedData(payload)],
        }
    }

    /// The bytes of the unconnected message that carries `payload`.
    pub open spec fn spec_unconnected_wire(session_handle: u32, payload: Seq<u8>) -> Seq<u8> {
        EtherNetIPHeader::spec_outbound(0x006F, (16 + payload.len()) as u16, session_handle).wire()
            + spec_u32_le_bytes(0) + spec_u16_le_bytes(0) + spec_u16_le_bytes(2) + spec_item_wire(
            0x0000,
            Seq::<u8>::empty(),
        ) + spec_item_wire(0x00B2, payload)
    }

    /// An unconnected message with a payload of at most 65519 bytes encodes
    /// to the bytes stated, 40 and the payload's.
    pub proof fn lemma_unconnected(session_handle: u32, payload: Seq<u8>)
        requires
            payload.len() <= 65519,
        ensures
            Self::spec_serialize(Self::spec_unconnected(session_handle, payload)) == Ok::<
                Seq<u8>,
                EncodeError,
            >(Self::spec_unconnected_wire(session_handle, payload)),
            Self::spec_unconnected_wire(session_handle, payload).len() == 40 + payload.len(),
    {
        let v = Self::spec_unconnected(session_handle, payload);
        CommonPacketList::lemma_two_items(
            CpfItemView::NullAddress,
            CpfItemView::UnconnectedData(payload),
        );
        let list = CommonPacketList::spec_serialize(v.items)->Ok_0;
        assert(list.len() == 10 + payload.len());
        v.header.lemma_wire(Seq::<u8>::empty());
        assert(v.header.wire() + spec_data_body(0, 0, list) =~= Self::spec_unconnected_wire(
            session_handle,
            payload,
        ));
    }

    /// The unconnected message that carries `payload`. Fails exactly when
    /// the payload is longer than 65519 bytes.
    pub fn unconnected(session_handle: u32, payload: Vec<u8>) -> (r: Result<
        SendRRData,
        EncodeError,
    >)
        ensures
            match r {
                Ok(message) => payload@.len() <= 65519 && message@ == Self::spec_unconnected(
                    session_handle,
                    payload@,
                ),
                Err(e) => payload@.len() > 65519 && e == EncodeError::EncodingInvariantViolated(
                    Reason::PayloadTooLong,
                ),
            },
    {
        let n: usize = payload.len();
        if n > MAX_UNCONNECTED_PAYLOAD {
            return Err(EncodeError::EncodingInvariantViolated(Reason::PayloadTooLong));
        }
        let mut items = CommonPacketList::new();
        items.push(CpfItem::NullAddress);
        items.push(CpfItem::UnconnectedData(UnconnectedDataItem { data: payload }));
        assert(items@ =~= seq![CpfItemView::NullAddress, CpfItemView::UnconnectedData(payload@)]);
        Ok(
            SendRRData {
                header: EtherNetIPHeader::outbound(
                    COMMAND_SEND_RR_DATA,
                    (16 + n) as u16,
                    session_handle,
                ),
                interface_handle: 0,
                timeout: 0,
                items,
            },
        )
    }

    /// The length that the header of an encoded message carries is the
    /// number of bytes that follow the header.
    pub proof fn lemma_length_agreement(v: SendDataView)
        requires
            Self::spec_serialize(v) is Ok,
        ensures
            EtherNetIPHeader::read(Self::spec_serialize(v)->Ok_0).length == Self::spec_serialize(
                v,
            )->Ok_0.len() - 24,
    {
        lemma_data_length_agreement(v);
    }

    /// Parsing the encoding of a message gives the message back and leaves
    /// what followed it, provided none of its items is of unknown kind.
    pub proof fn lemma_round_trip(v: SendDataView, tail: Seq<u8>)
        requires
            Self::spec_serialize(v) is Ok,
            CommonPacketList::spec_all_known(v.items),
        ensures
            Self::spec_deserialize(Self::spec_serialize(v)->Ok_0 + tail) == Ok::<
                (Seq<u8>, SendDataView),
                ParseError,
            >((tail, v)),
    {
        lemma_data_round_trip(v, tail);
    }
}

impl Serializable for SendRRData {
    open spec fn spec_serialize(v: SendDataView) -> Result<Seq<u8>, EncodeError> {
        spec_serialize_data(v)
    }

    open spec fn spec_deserialize(input: Seq<u8>) -> Result<(Seq<u8>, SendDataView), ParseError> {
        spec_deserialize_data(input)
    }

    fn serialize(&self) -> (r: Result<Vec<u8>, EncodeError>) {
        serialize_data(&self.header, self.interface_handle, self.timeout, &self.items)
    }

    fn deserialize<'a>(input: &'a [u8]) -> (r: Result<(&'a [u8], Self), ParseError>) {
        match deserialize_data(input) {
            Ok((rest, header, interface_handle, timeout, items)) => Ok(
                (rest, SendRRData { header, interface_handle, timeout, items }),
            ),
            Err(e) => Err(e),
        }
    }
}

impl ENIPPacket for SendRRData {
    open spec fn spec_set_session(v: SendDataView, session_handle: u32) -> SendDataView {
        SendDataView { header: EtherNetIPHeader { session_handle, ..v.header }, ..v }
    }

    fn set_session(&mut self, session_handle: u32) {
        self.header.session_handle = session_handle;
    }
}

/// A connected message.
#[derive(Clone, Debug, PartialEq, Eq)]
pub struct SendUnitData {
    pub header: EtherNetIPHeader,
    pub interface_handle: u32,
    pub timeout: u16,
    pub items: CommonPacketList,
}

impl View for SendUnitData {
    type V = SendDataView;

    open spec fn view(&self) -> SendDataView {
        SendDataView {
            header: self.header,
            interface_handle: self.interface_handle,
            timeout: self.timeout,
            items: self.items@,
        }
    }
}

/// Whether `items` start with a connected address item followed by a
/// connected data item, as the items of a connected message must.
pub open spec fn spec_connected_items(items: Seq<CpfItemView>) -> bool {
    items.len() >= 2 && items[0] is ConnectedAddress && items[1] is ConnectedData
}

/// Whether the items of `list` start with a connected address item followed
/// by a connected data item.
pub fn connected_items(list: &CommonPacketList) -> (r: bool)
    ensures
        r == spec_connected_items(list@),
{
    if list.items.len() < 2 {
        return false;
    }
    assert(list@[0] == list.items@[0]@ && list@[1] == list.items@[1]@);
    let first: bool = match &list.items[0] {
        CpfItem::ConnectedAddress(_) => true,
        _ => false,
    };
    let second: bool = match &list.items[1] {
        CpfItem::ConnectedData(_) => true,
        _ => false,
    };
    first && second
}

impl SendUnitData {
    /// The connected message that carries `payload` on the connection
    /// `connection_id`: a connected address item and a connected data item,
    /// with the length of the body in the header.
    pub open spec fn spec_connected(
        session_handle: u32,
        connection_id: u32,
        payload: Seq<u8>,
    ) -> SendDataView {
        SendDataView {
            header: EtherNetIPHeader::spec_outbound(
                0x0070,
                (20 + payload.len()) as u16,
                session_handle,
            ),
            interface_handle: 0,
            timeout: 0,
            items: seq![
                CpfItemView::ConnectedAddress(ConnectedAddressItem { addr: connection_id }),
                CpfItemView::ConnectedData(payload),
            ],
        }
    }

    /// The bytes of the connected message that carries `payload`.
    pub open spec fn spec_connected_wire(
        session_handle: u32,
        connection_id: u32,
        payload: Seq<u8>,
    ) -> Seq<u8> {
        EtherNetIPHeader::spec_outbound(0x0070, (20 + payload.len()) as u16, session_handle).wire()
            + spec_u32_le_bytes(0) + spec_u16_le_bytes(0) + spec_u16_le_bytes(2) + spec_item_wire(
            0x00A1,
            spec_u32_le_bytes(connection_id),
        ) + spec_item_wire(0x00B1, payload)
    }

    /// A connected message with a payload of at most 65515 bytes encodes to
    /// the bytes stated, 44 and the payload's.
    pub proof fn lemma_connected(session_handle: u32, connection_id: u32, payload: Seq<u8>)
        requires
            payload.len() <= 65515,
        ensures
            Self::spec_serialize(Self::spec_connected(session_handle, connection_id, payload))
                == Ok::<Seq<u8>, EncodeError>(
                Self::spec_connected_wire(session_handle, connection_id, payload),
            ),
            Self::spec_connected_wire(session_handle, connection_id, payload).len() == 44
                + payload.len(),
    {
        let v = Self::spec_connected(session_handle, connection_id, payload);
        CommonPacketList::lemma_two_items(
            CpfItemView::ConnectedAddress(ConnectedAddressItem { addr: connection_id }),
            CpfItemView::ConnectedData(payload),
        );
        let list = CommonPacketList::spec_serialize(v.items)->Ok_0;
        assert(list.len() == 14 + payload.len());
        v.header.lemma_wire(Seq::<u8>::empty());
        assert(v.header.wire() + spec_data_body(0, 0, list) =~= Self::spec_connected_wire(
            session_handle,
            connection_id,
            payload,
        ));
    }

    /// The connected message that carries `payload` on the connection
    /// `connection_id`. Fails exactly when the payload is longer than 65515
    /// bytes.
    pub fn connected(session_handle: u32, connection_id: u32, payload: Vec<u8>) -> (r: Result<
        SendUnitData,
        EncodeError,
    >)
        ensures
            match r {
                Ok(message) => payload@.len() <= 65515 && message@ == Self::spec_connected(
                    session_handle,
                    connection_id,
                    payload@,
                ),
                Err(e) => payload@.len() > 65515 && e == EncodeError::EncodingInvariantViolated(
                    Reason::PayloadTooLong,
                ),
            },
    {
        let n: usize = payload.len();
        if n > MAX_CONNECTED_PAYLOAD {
            return Err(EncodeError::EncodingInvariantViolated(Reason::PayloadTooLong));
        }
        let mut items = CommonPacketList::new();
        items.push(CpfItem::ConnectedAddress(ConnectedAddressItem { addr: connection_id }));
        items.push(CpfItem::ConnectedData(ConnectedDataItem { data: payload }));
        assert(items@ =~= seq![
            CpfItemView::ConnectedAddress(ConnectedAddressItem { addr: connection_id }),
            CpfItemView::ConnectedData(payload@),
        ]);
        Ok(
            SendUnitData {
                header: EtherNetIPHeader::outbound(
                    COMMAND_SEND_UNIT_DATA,
                    (20 + n) as u16,
                    session_handle,
                ),
                interface_handle: 0,
                timeout: 0,
                items,
            },
        )
    }

    /// The length that the header of an encoded message carries is the
    /// number of bytes that follow the header.
    pub proof fn lemma_length_agreement(v: SendDataView)
        requires
            Self::spec_serialize(v) is Ok,
        ensures
            EtherNetIPHeader::read(Self::spec_serialize(v)->Ok_0).length == Self::spec_serialize(
                v,
            )->Ok_0.len() - 24,
    {
        lemma_data_length_agreement(v);
    }

    /// Parsing the encoding of a message gives the message back and leaves
    /// what followed it, provided none of its items is of unknown kind.
    pub proof fn lemma_round_trip(v: SendDataView, tail: Seq<u8>)
        requires
            Self::spec_serialize(v) is Ok,
            CommonPacketList::spec_all_known(v.items),
        ensures
            Self::spec_deserialize(Self::spec_serialize(v)->Ok_0 + tail) == Ok::<
                (Seq<u8>, SendDataView),
                ParseError,
            >((tail, v)),
    {
        lemma_data_round_trip(v, tail);
    }
}

impl Serializable for SendUnitData {
    open spec fn spec_serialize(v: SendDataView) -> Result<Seq<u8>, EncodeError> {
        if !spec_connected_items(v.items) {
            Err(EncodeError::EncodingInvariantViolated(Reason::ConnectedItems))
        } else {
            spec_serialize_data(v)
        }
    }

    open spec fn spec_deserialize(input: Seq<u8>) -> Result<(Seq<u8>, SendDataView), ParseError> {
        match spec_deserialize_data(input) {
            Ok((rest, v)) => if !spec_connected_items(v.items) {
                Err(ParseError::Malformed(Field::ConnectedItems))
            } else {
                Ok((rest, v))
            },
            Err(e) => Err(e),
        }
    }

    fn serialize(&self) -> (r: Result<Vec<u8>, EncodeError>) {
        if !connected_items(&self.items) {
            return Err(EncodeError::EncodingInvariantViolated(Reason::ConnectedItems));
        }
        serialize_data(&self.header, self.interface_handle, self.timeout, &self.items)
    }

    fn deserialize<'a>(input: &'a [u8]) -> (r: Result<(&'a [u8], Self), ParseError>) {
        match deserialize_data(input) {
            Ok((rest, header, interface_handle, timeout, items)) => {
                if !connected_items(&items) {
                    return Err(ParseError::Malformed(Field::ConnectedItems));
                }
                Ok((rest, SendUnitData { header, interface_handle, timeout, items }))
            },
            Err(e) => Err(e),
        }
    }
}

impl ENIPPacket for SendUnitData {
    open spec fn spec_set_session(v: SendDataView, session_handle: u32) -> SendDataView {
        SendDataView { header: EtherNetIPHeader { session_handle, ..v.header }, ..v }
    }

    fn set_session(&mut self, session_handle: u32) {
        self.header.session_handle = session_handle;
    }
}

/// A message that the receiver drops; it keeps a byte stream alive.
#[derive(Clone, Debug, PartialEq, Eq)]
pub struct NOP {
    pub header: EtherNetIPHeader,
    pub data: Vec<u8>,
}

/// The mathematical content of a no-operation message.
pub struct NopView {
    pub header: EtherNetIPHeader,
    pub data: Seq<u8>,
}

impl View for NOP {
    type V = NopView;

    open spec fn view(&self) -> NopView {
        NopView { header: self.header, data: self.data@ }
    }
}

impl NOP {
    /// The no-operation message without payload that a session sends to
    /// keep its stream alive.
    pub fn keep_alive(session_handle: u32) -> (r: NOP)
        ensures
            r@ == (NopView {
                header: EtherNetIPHeader::spec_outbound(0x0000, 0, session_handle),
                data: Seq::<u8>::empty(),
            }),
            Self::spec_serialize(r@) == Ok::<Seq<u8>, EncodeError>(
                EtherNetIPHeader::spec_outbound(0x0000, 0, session_handle).wire(),
            ),
    {
        let r = NOP {
            header: EtherNetIPHeader::outbound(COMMAND_NOP, 0, session_handle),
            data: Vec::new(),
        };
        assert(r.header.wire() + r.data@ =~= r.header.wire());
        r
    }

    /// The length that the header of an encoded message carries is the
    /// number of bytes that follow the header.
    pub proof fn lemma_length_agreement(v: NopView)
        requires
            Self::spec_serialize(v) is Ok,
        ensures
            EtherNetIPHeader::read(Self::spec_serialize(v)->Ok_0).length == Self::spec_serialize(
                v,
            )->Ok_0.len() - 24,
    {
        lemma_frame(v.header, v.data, Seq::<u8>::empty());
    }

    /// Parsing the encoding of a message gives the message back and leaves
    /// what followed it.
    pub proof fn lemma_round_trip(v: NopView, tail: Seq<u8>)
        requires
            Self::spec_serialize(v) is Ok,
        ensures
            Self::spec_deserialize(Self::spec_serialize(v)->Ok_0 + tail) == Ok::<
                (Seq<u8>, NopView),
                ParseError,
            >((tail, v)),
    {
        lemma_frame(v.header, v.data, tail);
    }
}

impl Serializable for NOP {
    open spec fn spec_serialize(v: NopView) -> Result<Seq<u8>, EncodeError> {
        if v.header.length != v.data.len() {
            Err(EncodeError::EncodingInvariantViolated(Reason::LengthMismatch))
        } else {
            Ok(v.header.wire() + v.data)
        }
    }

    open spec fn spec_deserialize(input: Seq<u8>) -> Result<(Seq<u8>, NopView), ParseError> {
        match spec_frame(input) {
            Ok((header, body, rest)) => Ok((rest, NopView { header, data: body })),
            Err(e) => Err(e),
        }
    }

    fn serialize(&self) -> (r: Result<Vec<u8>, EncodeError>) {
        if self.header.length as usize != self.data.len() {
            return Err(EncodeError::EncodingInvariantViolated(Reason::LengthMismatch));
        }
        let mut out: Vec<u8> = match self.header.serialize() {
            Ok(out) => out,
            Err(e) => {
                return Err(e);
            },
        };
        push_bytes(&mut out, self.data.as_slice());
        Ok(out)
    }

    fn deserialize<'a>(input: &'a [u8]) -> (r: Result<(&'a [u8], Self), ParseError>) {
        match split_frame(input) {
            Ok((header, body, rest)) => Ok((rest, NOP { header, data: slice_to_vec(body) })),
            Err(e) => Err(e),
        }
    }
}

impl ENIPPacket for NOP {
    open spec fn spec_set_session(v: NopView, session_handle: u32) -> NopView {
        NopView { header: EtherNetIPHeader { session_handle, ..v.header }, ..v }
    }

    fn set_session(&mut self, session_handle: u32) {
        self.header.session_handle = session_handle;
    }
}

} // verus!
