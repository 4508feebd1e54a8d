//! The client session: the state machine of a session with a device, the
//! messages it sends in each state, and what it makes of the replies. The
//! session decides and frames; moving the bytes is left to the caller.

use vstd::prelude::*;
use crate::cip::{
    EPath, LogicalSegment, MessageRouterRequest, MessageRouterRequestView, MessageRouterResponse,
    MessageRouterResponseView, PortSegment, PortSegmentView, Segment, SegmentView,
};
use crate::common::{EncodeError, ParseError, Reason, Serializable};
use crate::enip::{
    set_sender_context, spec_with_context, EtherNetIPHeader, NOP, RegisterSession, SendRRData,
    SendUnitData, UnregisterSession, COMMAND_REGISTER_SESSION, COMMAND_SEND_RR_DATA,
};
use crate::objects::connection_manager::{
    UnconnectedSendRequest, UnconnectedSendRequestView, SERVICE_UNCONNECTED_SEND,
};
use crate::objects::message_router::MessageRouter;
use crate::transport::{read_data, spec_read_data, EnipResult, TransportError};

verus! {

/// Why an operation of a session failed.
#[derive(Clone, Copy, Debug, PartialEq, Eq, Structural)]
pub enum SessionError {
    /// The operation needs a registered session and there is none.
    NotRegistered,
    /// The device answered the registration with this status, or with
    /// status zero and no session handle.
    RegisterRejected(u32),
    /// A reply carries the first command where the second was expected.
    UnexpectedCommand(u16, u16),
    /// The transport failed.
    Transport(TransportError),
    /// A reply could not be decoded.
    Parse(ParseError),
    /// A request could not be encoded.
    Encoding(EncodeError),
}

/// What carries the session's messages.
#[derive(Clone, Copy, Debug, PartialEq, Eq, Structural)]
pub enum TransportKind {
    /// A byte stream; the device hands out a session handle on it.
    Tcp,
    /// Datagrams; there is no registration and the session handle is zero.
    Udp,
}

/// Where a session stands.
#[derive(Clone, Copy, Debug, PartialEq, Eq, Structural)]
pub enum SessionState {
    /// No session; nothing but `connect` can be done.
    Disconnected,
    /// The registration has gone out and its reply is awaited.
    Registering,
    /// The session is registered under this handle.
    Registered(u32),
}

/// Priority and time tick that the session's unconnected-send requests
/// carry.
pub const UNCONNECTED_SEND_PRIORITY: u8 = 0b11;

/// Time-out ticks that the session's unconnected-send requests carry.
pub const UNCONNECTED_SEND_TIMEOUT_TICKS: u8 = 240;

/// Port that the route path of a new session leaves the device by.
pub const DEFAULT_ROUTE_PORT: u8 = 1;

/// Link address that the route path of a new session names: slot 2 of a
/// backplane.
pub const DEFAULT_ROUTE_LINK: u8 = 2;

/// A session of a client with one device.
#[derive(Clone, Copy, Debug, PartialEq, Eq, Structural)]
pub struct ClientSession {
    pub kind: TransportKind,
    pub state: SessionState,
    /// The connection that connected messages go out on.
    pub connection_id: u32,
    /// The port of the one port segment that makes the route path.
    pub route_port: u8,
    /// The link address of that port segment.
    pub route_link: u8,
    /// The sender context that the next request may carry.
    pub next_context: u64,
}

/// What the reply to a registration means: the session handle it hands
/// out, or why the registration failed.
pub open spec fn spec_register_reply(packet: Seq<u8>) -> Result<u32, SessionError> {
    match EtherNetIPHeader::spec_deserialize(packet) {
        Ok((_, header)) => if header.command != 0x0065 {
            Err(SessionError::UnexpectedCommand(header.command, 0x0065))
        } else {
            match RegisterSession::spec_deserialize(packet) {
                Ok((_, reply)) => if reply.header.status != 0 {
                    Err(SessionError::RegisterRejected(reply.header.status))
                } else if reply.header.session_handle == 0 {
                    Err(SessionError::RegisterRejected(0))
                } else {
                    Ok(reply.header.session_handle)
                },
                Err(e) => Err(SessionError::Parse(e)),
            }
        },
        Err(e) => Err(SessionError::Parse(e)),
    }
}

/// Reads the reply to a registration.
pub fn register_reply(packet: &[u8]) -> (r: Result<u32, SessionError>)
    ensures
        r == spec_register_reply(packet@),
{
    let header: EtherNetIPHeader = match EtherNetIPHeader::deserialize(packet) {
        Ok((_, header)) => header,
        Err(e) => {
            return Err(SessionError::Parse(e));
        },
    };
    if header.command != COMMAND_REGISTER_SESSION {
        return Err(SessionError::UnexpectedCommand(header.command, COMMAND_REGISTER_SESSION));
    }
    match RegisterSession::deserialize(packet) {
        Ok((_, reply)) => {
            if reply.header.status != 0 {
                Err(SessionError::RegisterRejected(reply.header.status))
            } else if reply.header.session_handle == 0 {
                Err(SessionError::RegisterRejected(0))
            } else {
                Ok(reply.header.session_handle)
            }
        },
        Err(e) => Err(SessionError::Parse(e)),
    }
}

impl ClientSession {
    /// A session over a byte stream, not yet connected, with the default
    /// route path.
    pub fn new_tcp_client() -> (r: Self)
        ensures
            r == (ClientSession {
                kind: TransportKind::Tcp,
                state: SessionState::Disconnected,
                connection_id: 0,
                route_port: 1,
                route_link: 2,
                next_context: 0,
            }),
    {
        ClientSession {
            kind: TransportKind::Tcp,
            state: SessionState::Disconnected,
            connection_id: 0,
            route_port: DEFAULT_ROUTE_PORT,
            route_link: DEFAULT_ROUTE_LINK,
            next_context: 0,
        }
    }

    /// A session over datagrams, not yet connected, with the default route
    /// path.
    pub fn new_udp_client() -> (r: Self)
        ensures
            r == (ClientSession {
                kind: TransportKind::Udp,
                state: SessionState::Disconnected,
                connection_id: 0,
                route_port: 1,
                route_link: 2,
                next_context: 0,
            }),
    {
        ClientSession {
            kind: TransportKind::Udp,
            state: SessionState::Disconnected,
            connection_id: 0,
            route_port: DEFAULT_ROUTE_PORT,
            route_link: DEFAULT_ROUTE_LINK,
            next_context: 0,
        }
    }

    /// Makes the route path the one port segment with this port and link
    /// address; all else stays.
    pub fn set_route(&mut self, port: u8, link: u8)
        ensures
            *final(self) == (ClientSession { route_port: port, route_link: link, ..*old(self) }),
    {
        self.route_port = port;
        self.route_link = link;
    }

    /// Whether the session is registered.
    pub open spec fn spec_registered(self) -> bool {
        self.state is Registered
    }

    /// Whether the session is registered.
    pub fn registered(&self) -> (r: bool)
        ensures
            r == self.spec_registered(),
    {
        match self.state {
            SessionState::Registered(_) => true,
            _ => false,
        }
    }

    /// The session handle that outbound headers carry: the registered
    /// handle on a byte stream, zero before registration and always zero
    /// over datagrams.
    pub open spec fn spec_session_handle(self) -> u32 {
        match (self.kind, self.state) {
            (TransportKind::Tcp, SessionState::Registered(handle)) => handle,
            _ => 0,
        }
    }

    /// The session handle that outbound headers carry.
    pub fn session_handle(&self) -> (r: u32)
        ensures
            r == self.spec_session_handle(),
            self.kind is Udp ==> r == 0,
    {
        match (self.kind, self.state) {
            (TransportKind::Tcp, SessionState::Registered(handle)) => handle,
            _ => 0,
        }
    }

    /// Starts the session. Over a byte stream the session waits for the
    /// reply to the registration request that is handed back to be sent;
    /// over datagrams it is registered at once, with nothing to send.
    pub fn connect(&mut self) -> (r: Option<Vec<u8>>)
        ensures
            match r {
                Some(bytes) => old(self).kind is Tcp && *final(self) == (ClientSession {
                    state: SessionState::Registering,
                    ..*old(self)
                }) && RegisterSession::spec_serialize(RegisterSession::spec_request()) == Ok::<
                    Seq<u8>,
                    EncodeError,
                >(bytes@),
                None => old(self).kind is Udp && *final(self) == (ClientSession {
                    state: SessionState::Registered(0),
                    ..*old(self)
                }),
            },
    {
        match self.kind {
            TransportKind::Tcp => {
                self.state = SessionState::Registering;
                // The registration request always encodes.
                match RegisterSession::request().serialize() {
                    Ok(bytes) => Some(bytes),
                    Err(_) => None,
                }
            },
            TransportKind::Udp => {
                self.state = SessionState::Registered(0);
                None
            },
        }
    }

    /// Takes in the reply to the registration. A reply that registers the
    /// session makes it registered under the handle the reply hands out;
    /// any other leaves it disconnected and says why.
    pub fn on_register_reply(&mut self, packet: &[u8]) -> (r: Result<(), SessionError>)
        ensures
            match spec_register_reply(packet@) {
                Ok(handle) => r is Ok && *final(self) == (ClientSession {
                    state: SessionState::Registered(handle),
                    ..*old(self)
                }),
                Err(e) => r == Err::<(), SessionError>(e) && *final(self) == (ClientSession {
                    state: SessionState::Disconnected,
                    ..*old(self)
                }),
            },
    {
        match register_reply(packet) {
            Ok(handle) => {
                self.state = SessionState::Registered(handle);
                Ok(())
            },
            Err(e) => {
                self.state = SessionState::Disconnected;
                Err(e)
            },
        }
    }

    /// Hands out a sender context for the next request and counts on. The
    /// contexts ascend by one; after the largest comes zero.
    pub fn take_context(&mut self) -> (r: u64)
        ensures
            r == old(self).next_context,
            *final(self) == (ClientSession {
                next_context: if old(self).next_context == u64::MAX {
                    0
                } else {
                    (old(self).next_context + 1) as u64
                },
                ..*old(self)
            }),
    {
        let context: u64 = self.next_context;
        if context == u64::MAX {
            self.next_context = 0;
        } else {
            self.next_context = context + 1;
        }
        context
    }

    /// Takes in that a call was given up while its reply was outstanding. A
    /// late reply could be taken for the reply to a later request, so the
    /// session is disconnected and has to be connected anew.
    pub fn on_cancelled(&mut self)
        ensures
            *final(self) == (ClientSession { state: SessionState::Disconnected, ..*old(self) }),
    {
        self.state = SessionState::Disconnected;
    }

    /// Takes in a failure of the transport: the session is disconnected,
    /// and the failure comes back as the session's error.
    pub fn on_transport_error(&mut self, error: TransportError) -> (r: SessionError)
        ensures
            r == SessionError::Transport(error),
            *final(self) == (ClientSession { state: SessionState::Disconnected, ..*old(self) }),
    {
        self.state = SessionState::Disconnected;
        SessionError::Transport(error)
    }

    /// Ends the session. Over a byte stream the request that releases the
    /// session is handed back to be sent; over datagrams there is nothing
    /// to send. No reply is expected.
    pub fn disconnect(&mut self) -> (r: Option<Vec<u8>>)
        ensures
            *final(self) == (ClientSession { state: SessionState::Disconnected, ..*old(self) }),
            match r {
                Some(bytes) => old(self).kind is Tcp && bytes@ == EtherNetIPHeader::spec_outbound(
                    0x0066,
                    0,
                    old(self).spec_session_handle(),
                ).wire(),
                None => old(self).kind is Udp,
            },
    {
        let handle: u32 = self.session_handle();
        self.state = SessionState::Disconnected;
        match self.kind {
            TransportKind::Tcp => {
                // The release request always encodes.
                match UnregisterSession::request(handle).serialize() {
                    Ok(bytes) => Some(bytes),
                    Err(_) => None,
                }
            },
            TransportKind::Udp => None,
        }
    }

    /// The message that keeps the session's stream alive. It is sent and
    /// forgotten: no reply is expected.
    pub fn nop_message(&self) -> (r: Vec<u8>)
        ensures
            r@ == EtherNetIPHeader::spec_outbound(0x0000, 0, self.spec_session_handle()).wire(),
    {
        // A message without payload always encodes.
        match NOP::keep_alive(self.session_handle()).serialize() {
            Ok(bytes) => bytes,
            Err(_) => Vec::new(),
        }
    }

    /// What wrapping `payload` in an unconnected message yields: the bytes
    /// to send, or why there are none.
    pub open spec fn spec_unconnected_message(self, payload: Seq<u8>) -> Result<
        Seq<u8>,
        SessionError,
    > {
        if !self.spec_registered() {
            Err(SessionError::NotRegistered)
        } else if payload.len() > 65519 {
            Err(
                SessionError::Encoding(
                    EncodeError::EncodingInvariantViolated(Reason::PayloadTooLong),
                ),
            )
        } else {
            Ok(SendRRData::spec_unconnected_wire(self.spec_session_handle(), payload))
        }
    }

    /// Wraps `payload` in an unconnected message of the session.
    pub fn unconnected_message(&self, payload: Vec<u8>) -> (r: Result<Vec<u8>, SessionError>)
        ensures
            match r {
                Ok(bytes) => self.spec_unconnected_message(payload@) == Ok::<
                    Seq<u8>,
                    SessionError,
                >(bytes@),
                Err(e) => self.spec_unconnected_message(payload@) == Err::<Seq<u8>, SessionError>(
                    e,
                ),
            },
    {
        if !self.registered() {
            return Err(SessionError::NotRegistered);
        }
        let ghost content = payload@;
        match SendRRData::unconnected(self.session_handle(), payload) {
            Ok(message) => {
                proof {
                    SendRRData::lemma_unconnected(self.spec_session_handle(), content);
                }
                match message.serialize() {
                    Ok(bytes) => Ok(bytes),
                    Err(e) => Err(SessionError::Encoding(e)),
                }
            },
            Err(e) => Err(SessionError::Encoding(e)),
        }
    }

    /// What wrapping `payload` in a connected message yields: the bytes to
    /// send, or why there are none.
    pub open spec fn spec_connected_message(self, payload: Seq<u8>) -> Result<
        Seq<u8>,
        SessionError,
    > {
        if !self.spec_registered() {
            Err(SessionError::NotRegistered)
        } else if payload.len() > 65515 {
            Err(
                SessionError::Encoding(
                    EncodeError::EncodingInvariantViolated(Reason::PayloadTooLong),
                ),
            )
        } else {
            Ok(
                SendUnitData::spec_connected_wire(
                    self.spec_session_handle(),
                    self.connection_id,
                    payload,
                ),
            )
        }
    }

    /// Wraps `payload` in a connected message of the session, on the
    /// session's connection.
    pub fn connected_message(&self, payload: Vec<u8>) -> (r: Result<Vec<u8>, SessionError>)
        ensures
            match r {
                Ok(bytes) => self.spec_connected_message(payload@) == Ok::<Seq<u8>, SessionError>(
                    bytes@,
                ),
                Err(e) => self.spec_connected_message(payload@) == Err::<Seq<u8>, SessionError>(e),
            },
    {
        if !self.registered() {
            return Err(SessionError::NotRegistered);
        }
        let ghost content = payload@;
        match SendUnitData::connected(self.session_handle(), self.connection_id, payload) {
            Ok(message) => {
                proof {
                    SendUnitData::lemma_connected(
                        self.spec_session_handle(),
                        self.connection_id,
                        content,
                    );
                }
                match message.serialize() {
                    Ok(bytes) => Ok(bytes),
                    Err(e) => Err(SessionError::Encoding(e)),
                }
            },
            Err(e) => Err(SessionError::Encoding(e)),
        }
    }
}

/// Writes `context` into the header of an encoded message as its sender
/// context, which the device echoes in its reply. Bytes too few to hold a
/// header stay as they are.
pub fn stamp_context(message: Vec<u8>, context: u64) -> (r: Vec<u8>)
    ensures
        r@ == if message@.len() >= 24 {
            spec_with_context(message@, context)
        } else {
            message@
        },
{
    let mut message = message;
    set_sender_context(&mut message, context);
    message
}

/// Whether `packet` starts with a header that carries `context` as its
/// sender context: whether it answers the request stamped with `context`.
pub open spec fn spec_reply_matches(packet: Seq<u8>, context: u64) -> bool {
    packet.len() >= 24 && EtherNetIPHeader::read(packet).sender_context == context
}

/// Whether `packet` answers the request stamped with `context`. A reply
/// that answers another request belongs to a call given up earlier and is to
/// be dropped.
pub fn reply_matches(packet: &[u8], context: u64) -> (r: bool)
    ensures
        r == spec_reply_matches(packet@, context),
{
    match EtherNetIPHeader::deserialize(packet) {
        Ok((_, header)) => header.sender_context == context,
        Err(_) => false,
    }
}

/// The path to an object: its class, then its instance.
pub open spec fn spec_object_path(class_id: u32, instance_id: u32) -> Seq<SegmentView> {
    seq![
        SegmentView::Logical(LogicalSegment::spec_init(0, class_id)),
        SegmentView::Logical(LogicalSegment::spec_init(1, instance_id)),
    ]
}

/// The path to an attribute: the class, the instance, then the attribute.
pub open spec fn spec_attribute_path(class_id: u32, instance_id: u32, attribute_id: u32) -> Seq<
    SegmentView,
> {
    seq![
        SegmentView::Logical(LogicalSegment::spec_init(0, class_id)),
        SegmentView::Logical(LogicalSegment::spec_init(1, instance_id)),
        SegmentView::Logical(LogicalSegment::spec_init(4, attribute_id)),
    ]
}

/// The path to an object.
pub fn object_path(class_id: u32, instance_id: u32) -> (r: EPath)
    ensures
        r@ == spec_object_path(class_id, instance_id),
{
    let mut path = EPath::new();
    path.push(Segment::Logical(LogicalSegment::init(0, class_id)));
    path.push(Segment::Logical(LogicalSegment::init(1, instance_id)));
    assert(path@ =~= spec_object_path(class_id, instance_id));
    path
}

/// The path to an attribute.
pub fn attribute_path(class_id: u32, instance_id: u32, attribute_id: u32) -> (r: EPath)
    ensures
        r@ == spec_attribute_path(class_id, instance_id, attribute_id),
{
    let mut path = EPath::new();
    path.push(Segment::Logical(LogicalSegment::init(0, class_id)));
    path.push(Segment::Logical(LogicalSegment::init(1, instance_id)));
    path.push(Segment::Logical(LogicalSegment::init(4, attribute_id)));
    assert(path@ =~= spec_attribute_path(class_id, instance_id, attribute_id));
    path
}

/// A logical segment in its narrowest format always encodes: to two, four
/// or six bytes.
pub proof fn lemma_logical(logical_type: u8, value: u32)
    requires
        logical_type <= 7,
    ensures
        Segment::spec_serialize(
            SegmentView::Logical(LogicalSegment::spec_init(logical_type, value)),
        ) is Ok,
        2 <= Segment::spec_serialize(
            SegmentView::Logical(LogicalSegment::spec_init(logical_type, value)),
        )->Ok_0.len() <= 6,
        Segment::spec_serialize(
            SegmentView::Logical(LogicalSegment::spec_init(logical_type, value)),
        )->Ok_0.len() % 2 == 0,
        value < 0x100 ==> Segment::spec_serialize(
            SegmentView::Logical(LogicalSegment::spec_init(logical_type, value)),
        )->Ok_0 == seq![(0x20 + 4 * logical_type) as u8, value as u8],
{
    let segment = LogicalSegment::spec_init(logical_type, value);
    LogicalSegment::lemma_round_trip(segment, Seq::<u8>::empty());
    if value < 0x100 {
        assert(segment.spec_wire() =~= seq![(0x20 + 4 * logical_type) as u8, value as u8]);
    }
}

/// The path to an object always encodes, to at most 12 bytes, an even
/// number, that a word count can go before.
pub proof fn lemma_object_path(class_id: u32, instance_id: u32)
    ensures
        EPath::spec_serialize(spec_object_path(class_id, instance_id)) is Ok,
        4 <= EPath::spec_serialize(spec_object_path(class_id, instance_id))->Ok_0.len() <= 12,
        EPath::spec_serialize(spec_object_path(class_id, instance_id))->Ok_0.len() % 2 == 0,
        class_id < 0x100 && instance_id < 0x100 ==> EPath::spec_serialize(
            spec_object_path(class_id, instance_id),
        )->Ok_0 == seq![0x20u8, class_id as u8, 0x24u8, instance_id as u8],
{
    lemma_logical(0, class_id);
    lemma_logical(1, instance_id);
    EPath::lemma_two_segments(
        SegmentView::Logical(LogicalSegment::spec_init(0, class_id)),
        SegmentView::Logical(LogicalSegment::spec_init(1, instance_id)),
    );
    if class_id < 0x100 && instance_id < 0x100 {
        assert(seq![0x20u8, class_id as u8] + seq![0x24u8, instance_id as u8] =~= seq![
            0x20u8,
            class_id as u8,
            0x24u8,
            instance_id as u8,
        ]);
    }
}

/// The path to an attribute always encodes, to at most 18 bytes, an even
/// number, that a word count can go before.
pub proof fn lemma_attribute_path(class_id: u32, instance_id: u32, attribute_id: u32)
    ensures
        EPath::spec_serialize(spec_attribute_path(class_id, instance_id, attribute_id)) is Ok,
        6 <= EPath::spec_serialize(
            spec_attribute_path(class_id, instance_id, attribute_id),
        )->Ok_0.len() <= 18,
        EPath::spec_serialize(
            spec_attribute_path(class_id, instance_id, attribute_id),
        )->Ok_0.len() % 2 == 0,
        class_id < 0x100 && instance_id < 0x100 && attribute_id < 0x100 ==> EPath::spec_serialize(
            spec_attribute_path(class_id, instance_id, attribute_id),
        )->Ok_0 == seq![
            0x20u8,
            class_id as u8,
            0x24u8,
            instance_id as u8,
            0x30u8,
            attribute_id as u8,
        ],
{
    lemma_logical(0, class_id);
    lemma_logical(1, instance_id);
    lemma_logical(4, attribute_id);
    EPath::lemma_three_segments(
        SegmentView::Logical(LogicalSegment::spec_init(0, class_id)),
        SegmentView::Logical(LogicalSegment::spec_init(1, instance_id)),
        SegmentView::Logical(LogicalSegment::spec_init(4, attribute_id)),
    );
    if class_id < 0x100 && instance_id < 0x100 && attribute_id < 0x100 {
        assert(seq![0x20u8, class_id as u8] + seq![0x24u8, instance_id as u8] + seq![
            0x30u8,
            attribute_id as u8,
        ] =~= seq![
            0x20u8,
            class_id as u8,
            0x24u8,
            instance_id as u8,
            0x30u8,
            attribute_id as u8,
        ]);
    }
}

/// The request for a service of an object.
pub open spec fn spec_service_request(
    class_id: u32,
    instance_id: u32,
    service: u8,
    data: Seq<u8>,
) -> MessageRouterRequestView {
    MessageRouterRequestView { service, epath: spec_object_path(class_id, instance_id), data }
}

/// The request for a service of an attribute.
pub open spec fn spec_attribute_request(
    class_id: u32,
    instance_id: u32,
    attribute_id: u32,
    service: u8,
    data: Seq<u8>,
) -> MessageRouterRequestView {
    MessageRouterRequestView {
        service,
        epath: spec_attribute_path(class_id, instance_id, attribute_id),
        data,
    }
}

/// The request for a service of an object.
pub fn service_request(class_id: u32, instance_id: u32, service: u8, data: Vec<u8>) -> (r:
    MessageRouterRequest)
    ensures
        r@ == spec_service_request(class_id, instance_id, service, data@),
{
    MessageRouterRequest { service, epath: object_path(class_id, instance_id), data }
}

/// The request for a service of an attribute.
pub fn attribute_request(
    class_id: u32,
    instance_id: u32,
    attribute_id: u32,
    service: u8,
    data: Vec<u8>,
) -> (r: MessageRouterRequest)
    ensures
        r@ == spec_attribute_request(class_id, instance_id, attribute_id, service, data@),
{
    MessageRouterRequest {
        service,
        epath: attribute_path(class_id, instance_id, attribute_id),
        data,
    }
}

/// What a reply to a service request means: the response of the Message
/// Router that the first unconnected data item of the reply carries. The
/// general status of the response is not judged here: a response that
/// reports a fault of the service is a response all the same.
pub open spec fn spec_service_reply(packet: Seq<u8>) -> Result<
    MessageRouterResponseView,
    SessionError,
> {
    match EtherNetIPHeader::spec_deserialize(packet) {
        Ok((_, header)) => if header.command != 0x006F {
            Err(SessionError::UnexpectedCommand(header.command, 0x006F))
        } else {
            match spec_read_data(packet) {
                Ok(result) => match MessageRouterResponse::spec_deserialize(result.data) {
                    Ok((_, response)) => Ok(response),
                    Err(e) => Err(SessionError::Parse(e)),
                },
                Err(e) => Err(SessionError::Parse(e)),
            }
        },
        Err(e) => Err(SessionError::Parse(e)),
    }
}

/// Reads the reply to a service request.
pub fn service_reply(packet: &[u8]) -> (r: Result<MessageRouterResponse, SessionError>)
    ensures
        match r {
            Ok(response) => spec_service_reply(packet@) == Ok::<
                MessageRouterResponseView,
                SessionError,
            >(response@),
            Err(e) => spec_service_reply(packet@) == Err::<MessageRouterResponseView, SessionError>(
                e,
            ),
        },
{
    let header: EtherNetIPHeader = match EtherNetIPHeader::deserialize(packet) {
        Ok((_, header)) => header,
        Err(e) => {
            return Err(SessionError::Parse(e));
        },
    };
    if header.command != COMMAND_SEND_RR_DATA {
        return Err(SessionError::UnexpectedCommand(header.command, COMMAND_SEND_RR_DATA));
    }
    let result: EnipResult = match read_data(packet) {
        Ok(result) => result,
        Err(e) => {
            return Err(SessionError::Parse(e));
        },
    };
    match MessageRouterResponse::deserialize(result.data.as_slice()) {
        Ok((_, response)) => Ok(response),
        Err(e) => Err(SessionError::Parse(e)),
    }
}

/// What a reply to the request for the supported classes means: the class
/// numbers that the data of the response list, in ascending order.
pub open spec fn spec_supported_classes_reply(packet: Seq<u8>) -> Result<Seq<u16>, SessionError> {
    match spec_service_reply(packet) {
        Ok(response) => match MessageRouter::spec_deserialize(response.data) {
            Ok((_, classes)) => Ok(classes),
            Err(e) => Err(SessionError::Parse(e)),
        },
        Err(e) => Err(e),
    }
}

/// Reads the reply to the request for the supported classes.
pub fn supported_classes_reply(packet: &[u8]) -> (r: Result<Vec<u16>, SessionError>)
    ensures
        match r {
            Ok(classes) => spec_supported_classes_reply(packet@) == Ok::<Seq<u16>, SessionError>(
                classes@,
            ),
            Err(e) => spec_supported_classes_reply(packet@) == Err::<Seq<u16>, SessionError>(e),
        },
{
    let response: MessageRouterResponse = match service_reply(packet) {
        Ok(response) => response,
        Err(e) => {
            return Err(e);
        },
    };
    match MessageRouter::deserialize(response.data.as_slice()) {
        Ok((_, router)) => Ok(router.objects),
        Err(e) => Err(SessionError::Parse(e)),
    }
}

impl ClientSession {
    /// The route path of the session: one port segment.
    pub open spec fn spec_route_path(self) -> Seq<SegmentView> {
        seq![
            SegmentView::Port(
                PortSegmentView {
                    extended_link_address: false,
                    port_identifier: self.route_port,
                    link_address: seq![self.route_link],
                },
            ),
        ]
    }

    /// The route path of the session.
    pub fn route_path(&self) -> (r: EPath)
        ensures
            r@ == self.spec_route_path(),
    {
        let mut segment = PortSegment::new();
        segment.set_segment(self.route_port);
        let mut link: Vec<u8> = Vec::new();
        link.push(self.route_link);
        assert(link@ =~= seq![self.route_link]);
        segment.set_address(link);
        let mut path = EPath::new();
        path.push(Segment::Port(segment));
        assert(path@ =~= self.spec_route_path());
        path
    }

    /// The unconnected-send request that carries `request` along the
    /// session's route path.
    pub open spec fn spec_unconnected_send(
        self,
        request: MessageRouterRequestView,
    ) -> UnconnectedSendRequestView {
        UnconnectedSendRequestView {
            priority: 0b11,
            timeout_ticks: 240,
            message_request: request,
            route_path: self.spec_route_path(),
        }
    }

    /// The bytes of the request to the Connection Manager that carries
    /// `request` in an unconnected-send, or why it cannot be encoded.
    pub open spec fn spec_routed_request(self, request: MessageRouterRequestView) -> Result<
        Seq<u8>,
        EncodeError,
    > {
        match UnconnectedSendRequest::spec_serialize(self.spec_unconnected_send(request)) {
            Ok(data) => MessageRouterRequest::spec_serialize(
                MessageRouterRequestView {
                    service: 0x52,
                    epath: spec_object_path(0x06, 1),
                    data,
                },
            ),
            Err(e) => Err(e),
        }
    }

    /// Wraps `request` in an unconnected-send along the session's route
    /// path and that in a request to the Connection Manager.
    pub fn routed_request(&self, request: MessageRouterRequest) -> (r: Result<Vec<u8>, EncodeError>)
        ensures
            match r {
                Ok(bytes) => self.spec_routed_request(request@) == Ok::<Seq<u8>, EncodeError>(
                    bytes@,
                ),
                Err(e) => self.spec_routed_request(request@) == Err::<Seq<u8>, EncodeError>(e),
            },
    {
        let send = UnconnectedSendRequest {
            priority: UNCONNECTED_SEND_PRIORITY,
            timeout_ticks: UNCONNECTED_SEND_TIMEOUT_TICKS,
            message_request: request,
            route_path: self.route_path(),
        };
        let data: Vec<u8> = match send.serialize() {
            Ok(data) => data,
            Err(e) => {
                return Err(e);
            },
        };
        let outer = MessageRouterRequest {
            service: SERVICE_UNCONNECTED_SEND,
            epath: object_path(0x06, 1),
            data,
        };
        outer.serialize()
    }

    /// What sending `request` through the Connection Manager yields: the
    /// bytes of the unconnected message to send, or why there are none.
    pub open spec fn spec_send_unconnected_cm(self, request: MessageRouterRequestView) -> Result<
        Seq<u8>,
        SessionError,
    > {
        if !self.spec_registered() {
            Err(SessionError::NotRegistered)
        } else {
            match self.spec_routed_request(request) {
                Ok(payload) => self.spec_unconnected_message(payload),
                Err(e) => Err(SessionError::Encoding(e)),
            }
        }
    }

    /// The unconnected message that sends `request` through the Connection
    /// Manager, along the session's route path.
    pub fn send_unconnected_cm(&self, request: MessageRouterRequest) -> (r: Result<
        Vec<u8>,
        SessionError,
    >)
        ensures
            match r {
                Ok(bytes) => self.spec_send_unconnected_cm(request@) == Ok::<Seq<u8>, SessionError>(
                    bytes@,
                ),
                Err(e) => self.spec_send_unconnected_cm(request@) == Err::<Seq<u8>, SessionError>(
                    e,
                ),
            },
    {
        if !self.registered() {
            return Err(SessionError::NotRegistered);
        }
        match self.routed_request(request) {
            Ok(payload) => self.unconnected_message(payload),
            Err(e) => Err(SessionError::Encoding(e)),
        }
    }

    /// The message that calls a service of an object, through the
    /// Connection Manager. Its reply is read by `service_reply`.
    pub fn call_service(
        &self,
        class_id: u32,
        instance_id: u32,
        service_num: u8,
        data: Vec<u8>,
    ) -> (r: Result<Vec<u8>, SessionError>)
        ensures
            match r {
                Ok(bytes) => self.spec_send_unconnected_cm(
                    spec_service_request(class_id, instance_id, service_num, data@),
                ) == Ok::<Seq<u8>, SessionError>(bytes@),
                Err(e) => self.spec_send_unconnected_cm(
                    spec_service_request(class_id, instance_id, service_num, data@),
                ) == Err::<Seq<u8>, SessionError>(e),
            },
    {
        self.send_unconnected_cm(service_request(class_id, instance_id, service_num, data))
    }

    /// The message that reads one attribute, by service 0x0E through the
    /// Connection Manager. Its reply is read by `service_reply`.
    pub fn get_attribute_single(&self, class_id: u32, instance_id: u32, attribute_id: u32) -> (r:
        Result<Vec<u8>, SessionError>)
        ensures
            match r {
                Ok(bytes) => self.spec_send_unconnected_cm(
                    spec_attribute_request(
                        class_id,
                        instance_id,
                        attribute_id,
                        0x0E,
                        Seq::<u8>::empty(),
                    ),
                ) == Ok::<Seq<u8>, SessionError>(bytes@),
                Err(e) => self.spec_send_unconnected_cm(
                    spec_attribute_request(
                        class_id,
                        instance_id,
                        attribute_id,
                        0x0E,
                        Seq::<u8>::empty(),
                    ),
                ) == Err::<Seq<u8>, SessionError>(e),
            },
    {
        self.send_unconnected_cm(
            attribute_request(class_id, instance_id, attribute_id, 0x0E, Vec::new()),
        )
    }

    /// The message that writes one attribute, by service 0x10 through the
    /// Connection Manager. Its reply is read by `service_reply`.
    pub fn set_attribute_single(
        &self,
        class_id: u32,
        instance_id: u32,
        attribute_id: u32,
        data: Vec<u8>,
    ) -> (r: Result<Vec<u8>, SessionError>)
        ensures
            match r {
                Ok(bytes) => self.spec_send_unconnected_cm(
                    spec_attribute_request(class_id, instance_id, attribute_id, 0x10, data@),
                ) == Ok::<Seq<u8>, SessionError>(bytes@),
                Err(e) => self.spec_send_unconnected_cm(
                    spec_attribute_request(class_id, instance_id, attribute_id, 0x10, data@),
                ) == Err::<Seq<u8>, SessionError>(e),
            },
    {
        self.send_unconnected_cm(
            attribute_request(class_id, instance_id, attribute_id, 0x10, data),
        )
    }

    /// The bytes of the request for the supported classes: service 0x01 on
    /// attribute 1 of instance 1 of the Message Router, class 2.
    pub open spec fn spec_supported_classes_request() -> Seq<u8> {
        seq![0x01u8, 0x03u8, 0x20u8, 0x02u8, 0x24u8, 0x01u8, 0x30u8, 0x01u8]
    }

    /// The message that asks the Message Router for the classes the device
    /// supports. It goes to the device itself, not through the Connection
    /// Manager. Its reply is read by `supported_classes_reply`.
    pub fn get_supported_classes(&self) -> (r: Result<Vec<u8>, SessionError>)
        ensures
            match r {
                Ok(bytes) => self.spec_registered() && bytes@ == SendRRData::spec_unconnected_wire(
                    self.spec_session_handle(),
                    Self::spec_supported_classes_request(),
                ),
                Err(e) => !self.spec_registered() && e == SessionError::NotRegistered,
            },
    {
        if !self.registered() {
            return Err(SessionError::NotRegistered);
        }
        let request = attribute_request(0x02, 1, 1, 0x01, Vec::new());
        proof {
            lemma_attribute_path(0x02, 1, 1);
            assert(seq![0x01u8, 0x03u8] + seq![0x20u8, 0x02u8, 0x24u8, 0x01u8, 0x30u8, 0x01u8]
                + Seq::<u8>::empty() =~= Self::spec_supported_classes_request());
        }
        match request.serialize() {
            Ok(payload) => self.unconnected_message(payload),
            Err(e) => Err(SessionError::Encoding(e)),
        }
    }

    /// Every message that carries a payload for the session has the
    /// session's handle in its header. Over datagrams that is zero, wherever
    /// the session stands.
    pub proof fn lemma_session_handle(self, payload: Seq<u8>)
        ensures
            self.spec_unconnected_message(payload) matches Ok(bytes) ==> EtherNetIPHeader::read(
                bytes,
            ).session_handle == self.spec_session_handle(),
            self.spec_connected_message(payload) matches Ok(bytes) ==> EtherNetIPHeader::read(
                bytes,
            ).session_handle == self.spec_session_handle(),
            self.kind is Udp ==> self.spec_session_handle() == 0,
            !self.spec_registered() ==> self.spec_session_handle() == 0,
    {
        let handle = self.spec_session_handle();
        if self.spec_unconnected_message(payload) is Ok {
            let header = EtherNetIPHeader::spec_outbound(
                0x006F,
                (16 + payload.len()) as u16,
                handle,
            );
            let bytes = SendRRData::spec_unconnected_wire(handle, payload);
            let tail = bytes.skip(24);
            header.lemma_wire(tail);
            assert(bytes =~= header.wire() + tail);
        }
        if self.spec_connected_message(payload) is Ok {
            let header = EtherNetIPHeader::spec_outbound(
                0x0070,
                (20 + payload.len()) as u16,
                handle,
            );
            let bytes = SendUnitData::spec_connected_wire(handle, self.connection_id, payload);
            let tail = bytes.skip(24);
            header.lemma_wire(tail);
            assert(bytes =~= header.wire() + tail);
        }
    }

    /// Every message that calls a service through the Connection Manager
    /// has the session's handle in its header: zero over datagrams,
    /// wherever the session stands.
    pub proof fn lemma_service_session_handle(self, request: MessageRouterRequestView)
        ensures
            self.spec_send_unconnected_cm(request) matches Ok(bytes) ==> EtherNetIPHeader::read(
                bytes,
            ).session_handle == self.spec_session_handle() && (self.kind is Udp
                ==> EtherNetIPHeader::read(bytes).session_handle == 0),
    {
        if self.spec_send_unconnected_cm(request) is Ok {
            self.lemma_session_handle(self.spec_routed_request(request)->Ok_0);
        }
    }

    /// A request that encodes to at most 65504 bytes goes out through the
    /// Connection Manager of a registered session whose route port is
    /// between 1 and 14: the message is 54 bytes longer than the request,
    /// and one more where the request's length is odd.
    pub proof fn lemma_send_unconnected_cm(self, request: MessageRouterRequestView)
        requires
            self.spec_registered(),
            1 <= self.route_port <= 14,
            MessageRouterRequest::spec_serialize(request) is Ok,
            MessageRouterRequest::spec_serialize(request)->Ok_0.len() <= 65504,
        ensures
            self.spec_send_unconnected_cm(request) is Ok,
            self.spec_send_unconnected_cm(request)->Ok_0.len() == 54
                + MessageRouterRequest::spec_serialize(request)->Ok_0.len()
                + MessageRouterRequest::spec_serialize(request)->Ok_0.len() % 2,
    {
        let embedded = MessageRouterRequest::spec_serialize(request)->Ok_0;
        let port = SegmentView::Port(
            PortSegmentView {
                extended_link_address: false,
                port_identifier: self.route_port,
                link_address: seq![self.route_link],
            },
        );
        EPath::lemma_one_segment(port);
        let route = EPath::spec_serialize(self.spec_route_path())->Ok_0;
        assert(route.len() == 2);
        let send = UnconnectedSendRequest::spec_serialize(self.spec_unconnected_send(request));
        assert(send is Ok);
        assert(send->Ok_0.len() == 8 + embedded.len() + embedded.len() % 2);
        lemma_object_path(0x06, 1);
        let outer = self.spec_routed_request(request);
        assert(outer is Ok);
        assert(outer->Ok_0.len() == 6 + send->Ok_0.len());
        SendRRData::lemma_unconnected(self.spec_session_handle(), outer->Ok_0);
    }

    /// A registered session whose route port is between 1 and 14 can call
    /// any service of any object with up to 65490 bytes of data.
    pub proof fn lemma_call_service(
        self,
        class_id: u32,
        instance_id: u32,
        service: u8,
        data: Seq<u8>,
    )
        requires
            self.spec_registered(),
            1 <= self.route_port <= 14,
            data.len() <= 65490,
        ensures
            self.spec_send_unconnected_cm(
                spec_service_request(class_id, instance_id, service, data),
            ) is Ok,
    {
        lemma_object_path(class_id, instance_id);
        self.lemma_send_unconnected_cm(spec_service_request(class_id, instance_id, service, data));
    }

    /// A registered session whose route port is between 1 and 14 can call
    /// any service of any attribute with up to 65484 bytes of data.
    pub proof fn lemma_attribute_service(
        self,
        class_id: u32,
        instance_id: u32,
        attribute_id: u32,
        service: u8,
        data: Seq<u8>,
    )
        requires
            self.spec_registered(),
            1 <= self.route_port <= 14,
            data.len() <= 65484,
        ensures
            self.spec_send_unconnected_cm(
                spec_attribute_request(class_id, instance_id, attribute_id, service, data),
            ) is Ok,
    {
        lemma_attribute_path(class_id, instance_id, attribute_id);
        self.lemma_send_unconnected_cm(
            spec_attribute_request(class_id, instance_id, attribute_id, service, data),
        );
    }
}

} // verus!
