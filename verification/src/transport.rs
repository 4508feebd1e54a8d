//! What a transport adapter decides without touching a socket: where one
//! message ends in a byte stream, and what a received message carries.

use vstd::prelude::*;
use vstd::slice::{slice_subrange, slice_to_vec};
use crate::common::{push_bytes, ParseError, Serializable};
use crate::cpf::CommonPacketList;
use crate::enip::{
    spec_frame, split_frame, EtherNetIPHeader, SendRRData, SendUnitData, COMMAND_SEND_RR_DATA,
    COMMAND_SEND_UNIT_DATA,
};

verus! {

/// The port a device listens on for byte streams.
pub const DEFAULT_TCP_PORT: u16 = 44818;

/// The port a device listens on for datagrams that carry unconnected
/// messages.
pub const DEFAULT_UDP_PORT: u16 = 44818;

/// The port that datagrams of implicit connections go to.
pub const IMPLICIT_IO_UDP_PORT: u16 = 2222;

/// Why a transport adapter could not send or receive.
#[derive(Clone, Copy, Debug, PartialEq, Eq, Structural)]
pub enum TransportError {
    /// The operating system reported an error; the payload is its code, or
    /// zero where it gave none.
    Io(i32),
    /// The peer closed the stream.
    PeerClosed,
    /// No answer came in time.
    Timeout,
}

/// What a received message carries for the layer above: the status of the
/// encapsulation header and the payload of the first data item.
#[derive(Clone, Debug, PartialEq, Eq)]
pub struct EnipResult {
    pub status: u32,
    pub data: Vec<u8>,
}

/// The mathematical content of a receive result.
pub struct EnipResultView {
    pub status: u32,
    pub data: Seq<u8>,
}

impl View for EnipResult {
    type V = EnipResultView;

    open spec fn view(&self) -> EnipResultView {
        EnipResultView { status: self.status, data: self.data@ }
    }
}

/// The payload, or nothing where there is none.
pub open spec fn spec_or_empty(data: Option<Seq<u8>>) -> Seq<u8> {
    match data {
        Some(data) => data,
        None => Seq::<u8>::empty(),
    }
}

/// What a received message carries. An unconnected message carries the
/// payload of its first unconnected data item, a connected message that of
/// its first connected data item, any other message no payload.
pub open spec fn spec_read_data(packet: Seq<u8>) -> Result<EnipResultView, ParseError> {
    match EtherNetIPHeader::spec_deserialize(packet) {
        Ok((_, header)) => if header.command == 0x006F {
            match SendRRData::spec_deserialize(packet) {
                Ok((_, message)) => Ok(
                    EnipResultView {
                        status: header.status,
                        data: spec_or_empty(
                            CommonPacketList::spec_first_unconnected_data(message.items),
                        ),
                    },
                ),
                Err(e) => Err(e),
            }
        } else if header.command == 0x0070 {
            match SendUnitData::spec_deserialize(packet) {
                Ok((_, message)) => Ok(
                    EnipResultView {
                        status: header.status,
                        data: spec_or_empty(
                            CommonPacketList::spec_first_connected_data(message.items),
                        ),
                    },
                ),
                Err(e) => Err(e),
            }
        } else {
            Ok(EnipResultView { status: header.status, data: Seq::<u8>::empty() })
        },
        Err(e) => Err(e),
    }
}

/// Takes out of a received message what the layer above needs.
pub fn read_data(packet: &[u8]) -> (r: Result<EnipResult, ParseError>)
    ensures
        match r {
            Ok(result) => spec_read_data(packet@) == Ok::<EnipResultView, ParseError>(result@),
            Err(e) => spec_read_data(packet@) == Err::<EnipResultView, ParseError>(e),
        },
{
    let header: EtherNetIPHeader = match EtherNetIPHeader::deserialize(packet) {
        Ok((_, header)) => header,
        Err(e) => {
            return Err(e);
        },
    };
    if header.command == COMMAND_SEND_RR_DATA {
        match SendRRData::deserialize(packet) {
            Ok((_, message)) => {
                let data: Vec<u8> = match message.items.first_unconnected_data() {
                    Some(data) => data,
                    None => Vec::new(),
                };
                Ok(EnipResult { status: header.status, data })
            },
            Err(e) => Err(e),
        }
    } else if header.command == COMMAND_SEND_UNIT_DATA {
        match SendUnitData::deserialize(packet) {
            Ok((_, message)) => {
                let data: Vec<u8> = match message.items.first_connected_data() {
                    Some(data) => data,
                    None => Vec::new(),
                };
                Ok(EnipResult { status: header.status, data })
            },
            Err(e) => Err(e),
        }
    } else {
        Ok(EnipResult { status: header.status, data: Vec::new() })
    }
}

/// How many bytes `buffered` lacks to hold one whole message: what is
/// missing of the header while that is incomplete, then what is missing of
/// the body the header announces.
pub open spec fn spec_missing(buffered: Seq<u8>) -> nat {
    match spec_frame(buffered) {
        Err(ParseError::Incomplete(n)) => n as nat,
        _ => 0,
    }
}

/// The bytes read from a stream and not yet handed on as a message.
#[derive(Clone, Debug, PartialEq, Eq)]
pub struct Framer {
    pub buffer: Vec<u8>,
}

impl View for Framer {
    type V = Seq<u8>;

    open spec fn view(&self) -> Seq<u8> {
        self.buffer@
    }
}

impl Framer {
    /// A framer that has read nothing.
    pub fn new() -> (r: Self)
        ensures
            r@ == Seq::<u8>::empty(),
    {
        Framer { buffer: Vec::new() }
    }

    /// How many bytes must still be read before a whole message is
    /// buffered; zero when one is.
    pub fn missing(&self) -> (r: usize)
        ensures
            r == spec_missing(self@),
            r == 0 <==> spec_frame(self@) is Ok,
    {
        match split_frame(self.buffer.as_slice()) {
            Ok(_) => 0,
            Err(ParseError::Incomplete(n)) => n,
            Err(_) => 0,
        }
    }

    /// Takes in what one read from the stream returned. A read of no bytes
    /// means that the peer has closed the stream.
    pub fn push(&mut self, chunk: &[u8]) -> (r: Result<(), TransportError>)
        ensures
            match r {
                Ok(_) => chunk@.len() > 0 && final(self)@ == old(self)@ + chunk@,
                Err(e) => chunk@.len() == 0 && e == TransportError::PeerClosed && final(self)@
                    == old(self)@,
            },
    {
        if chunk.len() == 0 {
            return Err(TransportError::PeerClosed);
        }
        push_bytes(&mut self.buffer, chunk);
        Ok(())
    }

    /// Hands on the first whole message that is buffered, header and body,
    /// and keeps what follows it, so that no byte is lost or repeated. Where
    /// no whole message is buffered, nothing is handed on and nothing
    /// changes.
    pub fn next_frame(&mut self) -> (r: Option<Vec<u8>>)
        ensures
            match r {
                Some(frame) => spec_frame(old(self)@) matches Ok((header, body, rest)) && frame@
                    == old(self)@.take(24 + header.length) && final(self)@ == rest && frame@
                    + final(self)@ == old(self)@,
                None => spec_frame(old(self)@) is Err && final(self)@ == old(self)@,
            },
    {
        let n: usize = self.buffer.len();
        let end: usize = match split_frame(self.buffer.as_slice()) {
            Ok((header, _, _)) => 24 + header.length as usize,
            Err(_) => {
                return None;
            },
        };
        let frame: Vec<u8> = slice_to_vec(slice_subrange(self.buffer.as_slice(), 0, end));
        let rest: Vec<u8> = slice_to_vec(slice_subrange(self.buffer.as_slice(), end, n));
        self.buffer = rest;
        Some(frame)
    }
}

} // verus!
