use cip::cip::{MessageRouterRequest, MessageRouterResponse};
use cip::common::{EncodeError, Feature, Field, ParseError, Reason, Serializable};
use cip::enip::{EtherNetIPHeader, RegisterSession, SendRRData, SendUnitData};
use cip::session::{
    attribute_path, attribute_request, object_path, register_reply, reply_matches,
    service_reply, service_request, stamp_context, supported_classes_reply, ClientSession,
    SessionError, SessionState, TransportKind,
};
use cip::transport::TransportError;

const REGISTER_REPLY: [u8; 28] = [
    0x65, 0x00, 0x04, 0x00, 0x04, 0x03, 0x02, 0x01, 0x00, 0x00, 0x00, 0x00, 0x00, 0x00, 0x00,
    0x00, 0x00, 0x00, 0x00, 0x00, 0x00, 0x00, 0x00, 0x00, 0x01, 0x00, 0x00, 0x00,
];

fn registered_tcp() -> ClientSession {
    let mut session = ClientSession::new_tcp_client();
    session.connect();
    session.on_register_reply(&REGISTER_REPLY).unwrap();
    session
}

fn reply_with(data: Vec<u8>) -> Vec<u8> {
    SendRRData::unconnected(0x01020304, data).unwrap().serialize().unwrap()
}

#[test]
fn new_sessions_are_disconnected() {
    let tcp = ClientSession::new_tcp_client();
    assert_eq!(tcp.kind, TransportKind::Tcp);
    assert_eq!(tcp.state, SessionState::Disconnected);
    assert_eq!(tcp.route_port, 1);
    assert_eq!(tcp.route_link, 2);
    assert_eq!(tcp.next_context, 0);
    assert!(!tcp.registered());
    assert_eq!(tcp.session_handle(), 0);
    let udp = ClientSession::new_udp_client();
    assert_eq!(udp.kind, TransportKind::Udp);
    assert_eq!(udp.state, SessionState::Disconnected);
}

#[test]
fn tcp_connect_sends_register_session() {
    let mut session = ClientSession::new_tcp_client();
    let bytes = session.connect().unwrap();
    assert_eq!(
        bytes,
        vec![
            0x65, 0x00, 0x04, 0x00, 0x00, 0x00, 0x00, 0x00, 0x00, 0x00, 0x00, 0x00, 0x00, 0x00,
            0x00, 0x00, 0x00, 0x00, 0x00, 0x00, 0x00, 0x00, 0x00, 0x00, 0x01, 0x00, 0x00, 0x00,
        ]
    );
    assert_eq!(session.state, SessionState::Registering);
    assert!(!session.registered());
}

#[test]
fn register_reply_registers_the_session() {
    let mut session = ClientSession::new_tcp_client();
    session.connect();
    assert_eq!(session.on_register_reply(&REGISTER_REPLY), Ok(()));
    assert_eq!(session.state, SessionState::Registered(0x01020304));
    assert!(session.registered());
    assert_eq!(session.session_handle(), 0x01020304);
    assert_eq!(register_reply(&REGISTER_REPLY), Ok(0x01020304));
}

#[test]
fn register_reply_with_status_is_a_rejection() {
    let mut reply = REGISTER_REPLY;
    reply[8] = 0x01;
    let mut session = ClientSession::new_tcp_client();
    session.connect();
    assert_eq!(session.on_register_reply(&reply), Err(SessionError::RegisterRejected(1)));
    assert_eq!(session.state, SessionState::Disconnected);
}

#[test]
fn register_reply_without_handle_is_a_rejection() {
    let mut reply = REGISTER_REPLY;
    reply[4] = 0;
    reply[5] = 0;
    reply[6] = 0;
    reply[7] = 0;
    let mut session = ClientSession::new_tcp_client();
    session.connect();
    assert_eq!(session.on_register_reply(&reply), Err(SessionError::RegisterRejected(0)));
    assert_eq!(session.state, SessionState::Disconnected);
}

#[test]
fn register_reply_with_another_command() {
    let mut reply = REGISTER_REPLY;
    reply[0] = 0x6F;
    let mut session = ClientSession::new_tcp_client();
    session.connect();
    assert_eq!(
        session.on_register_reply(&reply),
        Err(SessionError::UnexpectedCommand(0x006F, 0x0065))
    );
    assert_eq!(session.state, SessionState::Disconnected);
}

#[test]
fn register_reply_cut_short() {
    let mut session = ClientSession::new_tcp_client();
    session.connect();
    assert_eq!(
        session.on_register_reply(&REGISTER_REPLY[..10]),
        Err(SessionError::Parse(ParseError::Incomplete(14)))
    );
    assert_eq!(session.state, SessionState::Disconnected);
    assert_eq!(
        register_reply(&REGISTER_REPLY[..26]),
        Err(SessionError::Parse(ParseError::Incomplete(2)))
    );
}

#[test]
fn udp_connect_registers_at_once() {
    let mut session = ClientSession::new_udp_client();
    assert_eq!(session.connect(), None);
    assert_eq!(session.state, SessionState::Registered(0));
    assert!(session.registered());
    assert_eq!(session.session_handle(), 0);
}

#[test]
fn udp_headers_carry_session_handle_zero() {
    let mut session = ClientSession::new_udp_client();
    session.connect();
    for state in [SessionState::Registered(0), SessionState::Registered(0xAABBCCDD)] {
        session.state = state;
        assert_eq!(session.session_handle(), 0);
        let call = session.call_service(0x01, 0x01, 0x0E, vec![1, 2, 3]).unwrap();
        assert_eq!(&call[4..8], &[0, 0, 0, 0]);
        let get = session.get_attribute_single(1, 1, 1).unwrap();
        assert_eq!(&get[4..8], &[0, 0, 0, 0]);
        let unconnected = session.unconnected_message(vec![9]).unwrap();
        assert_eq!(&unconnected[4..8], &[0, 0, 0, 0]);
        let connected = session.connected_message(vec![9]).unwrap();
        assert_eq!(&connected[4..8], &[0, 0, 0, 0]);
        let nop = session.nop_message();
        assert_eq!(&nop[4..8], &[0, 0, 0, 0]);
    }
    assert_eq!(session.disconnect(), None);
    assert_eq!(session.state, SessionState::Disconnected);
}

#[test]
fn requests_need_a_registered_session() {
    let mut session = ClientSession::new_tcp_client();
    assert_eq!(session.call_service(1, 1, 0x0E, vec![]), Err(SessionError::NotRegistered));
    assert_eq!(session.get_attribute_single(1, 1, 1), Err(SessionError::NotRegistered));
    assert_eq!(session.set_attribute_single(1, 1, 1, vec![0]), Err(SessionError::NotRegistered));
    assert_eq!(session.get_supported_classes(), Err(SessionError::NotRegistered));
    assert_eq!(session.unconnected_message(vec![]), Err(SessionError::NotRegistered));
    assert_eq!(session.connected_message(vec![]), Err(SessionError::NotRegistered));
    session.connect();
    assert_eq!(session.call_service(1, 1, 0x0E, vec![]), Err(SessionError::NotRegistered));
    let udp = ClientSession::new_udp_client();
    assert_eq!(udp.call_service(1, 1, 0x0E, vec![]), Err(SessionError::NotRegistered));
}

#[test]
fn call_service_wire_bytes() {
    let session = registered_tcp();
    let bytes = session.call_service(0x01, 0x01, 0x0E, vec![]).unwrap();
    assert_eq!(
        bytes,
        vec![
            0x6F, 0x00, 0x24, 0x00, 0x04, 0x03, 0x02, 0x01, 0, 0, 0, 0, 0, 0, 0, 0, 0, 0, 0, 0, 0,
            0, 0, 0, // header
            0, 0, 0, 0, 0, 0, // interface handle, timeout
            0x02, 0x00, // item count
            0x00, 0x00, 0x00, 0x00, // null address item
            0xB2, 0x00, 0x14, 0x00, // unconnected data item
            0x52, 0x02, 0x20, 0x06, 0x24, 0x01, // unconnected send to the connection manager
            0x03, 0xF0, // priority and time tick, time-out ticks
            0x06, 0x00, // length of the embedded request
            0x0E, 0x02, 0x20, 0x01, 0x24, 0x01, // embedded request
            0x01, 0x00, // route path size in words, reserved
            0x01, 0x02, // route path
        ]
    );
}

#[test]
fn call_service_with_wide_ids_and_odd_data() {
    let session = registered_tcp();
    let bytes = session.call_service(0x0123, 0x00012345, 0x54, vec![0xAA, 0xBB, 0xCC]).unwrap();
    let payload = &bytes[40..];
    assert_eq!(
        payload,
        &[
            0x52, 0x02, 0x20, 0x06, 0x24, 0x01, // unconnected send to the connection manager
            0x03, 0xF0, // priority and time tick, time-out ticks
            0x0F, 0x00, // length of the embedded request
            0x54, 0x05, 0x21, 0x00, 0x23, 0x01, 0x26, 0x00, 0x45, 0x23, 0x01, 0x00, 0xAA, 0xBB,
            0xCC, // embedded request
            0x00, // pad
            0x01, 0x00, // route path size in words, reserved
            0x01, 0x02, // route path
        ]
    );
    assert_eq!(u16::from_le_bytes([bytes[2], bytes[3]]) as usize, bytes.len() - 24);
}

#[test]
fn route_path_can_be_set() {
    let mut session = registered_tcp();
    session.set_route(3, 7);
    assert_eq!(session.state, SessionState::Registered(0x01020304));
    let bytes = session.call_service(1, 1, 0x0E, vec![]).unwrap();
    assert_eq!(&bytes[bytes.len() - 4..], &[0x01, 0x00, 0x03, 0x07]);
    session.set_route(0, 7);
    assert_eq!(
        session.call_service(1, 1, 0x0E, vec![]),
        Err(SessionError::Encoding(EncodeError::EncodingInvariantViolated(Reason::PortIdentifier)))
    );
    session.set_route(15, 7);
    assert_eq!(
        session.call_service(1, 1, 0x0E, vec![]),
        Err(SessionError::Encoding(EncodeError::NotSupported(Feature::ExtendedPortIdentifier)))
    );
}

#[test]
fn call_service_data_limit() {
    let session = registered_tcp();
    assert!(session.call_service(1, 1, 0x10, vec![0; 65490]).is_ok());
    assert!(session.call_service(u32::MAX, u32::MAX, 0x10, vec![0; 65490]).is_ok());
    assert_eq!(
        session.call_service(u32::MAX, u32::MAX, 0x10, vec![0; 65491]),
        Err(SessionError::Encoding(EncodeError::EncodingInvariantViolated(Reason::PayloadTooLong)))
    );
    assert_eq!(
        session.call_service(1, 1, 0x10, vec![0; 70000]),
        Err(SessionError::Encoding(EncodeError::EncodingInvariantViolated(Reason::PayloadTooLong)))
    );
}

#[test]
fn get_attribute_single_wire_bytes() {
    let session = registered_tcp();
    let bytes = session.get_attribute_single(0xF5, 0x01, 0x05).unwrap();
    assert_eq!(
        &bytes[40..],
        &[
            0x52, 0x02, 0x20, 0x06, 0x24, 0x01, 0x03, 0xF0, 0x08, 0x00, 0x0E, 0x03, 0x20, 0xF5,
            0x24, 0x01, 0x30, 0x05, 0x01, 0x00, 0x01, 0x02,
        ]
    );
}

#[test]
fn set_attribute_single_wire_bytes() {
    let session = registered_tcp();
    let bytes = session.set_attribute_single(0xF5, 0x01, 0x05, vec![0x11, 0x22]).unwrap();
    assert_eq!(
        &bytes[40..],
        &[
            0x52, 0x02, 0x20, 0x06, 0x24, 0x01, 0x03, 0xF0, 0x0A, 0x00, 0x10, 0x03, 0x20, 0xF5,
            0x24, 0x01, 0x30, 0x05, 0x11, 0x22, 0x01, 0x00, 0x01, 0x02,
        ]
    );
}

#[test]
fn get_supported_classes_wire_bytes() {
    let session = registered_tcp();
    let bytes = session.get_supported_classes().unwrap();
    assert_eq!(
        bytes,
        vec![
            0x6F, 0x00, 0x18, 0x00, 0x04, 0x03, 0x02, 0x01, 0, 0, 0, 0, 0, 0, 0, 0, 0, 0, 0, 0, 0,
            0, 0, 0, // header
            0, 0, 0, 0, 0, 0, // interface handle, timeout
            0x02, 0x00, // item count
            0x00, 0x00, 0x00, 0x00, // null address item
            0xB2, 0x00, 0x08, 0x00, // unconnected data item
            0x01, 0x03, 0x20, 0x02, 0x24, 0x01, 0x30, 0x01,
        ]
    );
}

#[test]
fn supported_classes_reply_is_sorted() {
    let reply = reply_with(vec![
        0x81, 0x00, 0x00, 0x00, 0x03, 0x00, 0x01, 0x00, 0x02, 0x00, 0x06, 0x00,
    ]);
    assert_eq!(supported_classes_reply(&reply), Ok(vec![0x0001, 0x0002, 0x0006]));
    let unsorted = reply_with(vec![
        0x81, 0x00, 0x00, 0x00, 0x03, 0x00, 0x06, 0x00, 0x01, 0x00, 0x02, 0x00,
    ]);
    assert_eq!(supported_classes_reply(&unsorted), Ok(vec![0x0001, 0x0002, 0x0006]));
    let cut = reply_with(vec![0x81, 0x00, 0x00, 0x00, 0x03, 0x00, 0x06, 0x00]);
    assert_eq!(
        supported_classes_reply(&cut),
        Err(SessionError::Parse(ParseError::Incomplete(4)))
    );
}

#[test]
fn fault_of_the_service_is_a_response_not_an_error() {
    let reply = reply_with(vec![0x8E, 0x00, 0x0F, 0x00]);
    let response = service_reply(&reply).unwrap();
    assert_eq!(
        response,
        MessageRouterResponse {
            service: 0x8E,
            reserved: 0,
            general_status: 0x0F,
            size_of_additional_status: 0,
            additional_status: vec![],
            data: vec![],
        }
    );
}

#[test]
fn service_reply_takes_the_first_unconnected_data_item() {
    let reply = reply_with(vec![0x8E, 0x00, 0x00, 0x00, 0x12, 0x34]);
    let response = service_reply(&reply).unwrap();
    assert_eq!(response.general_status, 0);
    assert_eq!(response.data, vec![0x12, 0x34]);
}

#[test]
fn service_reply_errors() {
    assert_eq!(
        service_reply(&REGISTER_REPLY),
        Err(SessionError::UnexpectedCommand(0x0065, 0x006F))
    );
    assert_eq!(service_reply(&[0x6F]), Err(SessionError::Parse(ParseError::Incomplete(23))));
    let not_a_response = reply_with(vec![0x0E, 0x00, 0x00, 0x00]);
    assert_eq!(
        service_reply(&not_a_response),
        Err(SessionError::Parse(ParseError::Malformed(Field::ResponseService)))
    );
    let empty = reply_with(vec![]);
    assert_eq!(service_reply(&empty), Err(SessionError::Parse(ParseError::Incomplete(4))));
    let connected = SendUnitData::connected(1, 2, vec![0x8E, 0, 0, 0]).unwrap().serialize().unwrap();
    assert_eq!(
        service_reply(&connected),
        Err(SessionError::UnexpectedCommand(0x0070, 0x006F))
    );
    let mut unknown_item = reply_with(vec![0x8E, 0x00, 0x00, 0x00]);
    unknown_item[32] = 0x99;
    assert_eq!(service_reply(&unknown_item), Err(SessionError::Parse(ParseError::UnknownCpfItem)));
}

#[test]
fn disconnect_sends_unregister_session() {
    let mut session = registered_tcp();
    let bytes = session.disconnect().unwrap();
    assert_eq!(
        bytes,
        vec![
            0x66, 0x00, 0x00, 0x00, 0x04, 0x03, 0x02, 0x01, 0, 0, 0, 0, 0, 0, 0, 0, 0, 0, 0, 0, 0,
            0, 0, 0,
        ]
    );
    assert_eq!(session.state, SessionState::Disconnected);
    assert_eq!(session.call_service(1, 1, 1, vec![]), Err(SessionError::NotRegistered));
}

#[test]
fn transport_error_disconnects() {
    let mut session = registered_tcp();
    assert_eq!(
        session.on_transport_error(TransportError::PeerClosed),
        SessionError::Transport(TransportError::PeerClosed)
    );
    assert_eq!(session.state, SessionState::Disconnected);
    let mut session = registered_tcp();
    assert_eq!(
        session.on_transport_error(TransportError::Io(104)),
        SessionError::Transport(TransportError::Io(104))
    );
    let mut session = registered_tcp();
    assert_eq!(
        session.on_transport_error(TransportError::Timeout),
        SessionError::Transport(TransportError::Timeout)
    );
    assert_eq!(session.state, SessionState::Disconnected);
}

#[test]
fn cancelled_call_forces_a_reconnect() {
    let mut session = registered_tcp();
    session.on_cancelled();
    assert_eq!(session.state, SessionState::Disconnected);
    assert_eq!(session.kind, TransportKind::Tcp);
}

#[test]
fn nop_carries_the_session_handle() {
    let session = registered_tcp();
    let bytes = session.nop_message();
    assert_eq!(bytes.len(), 24);
    assert_eq!(&bytes[0..8], &[0x00, 0x00, 0x00, 0x00, 0x04, 0x03, 0x02, 0x01]);
    let fresh = ClientSession::new_tcp_client();
    assert_eq!(fresh.nop_message(), vec![0u8; 24]);
}

#[test]
fn connected_message_names_the_connection() {
    let mut session = registered_tcp();
    session.connection_id = 0xA1B2C3D4;
    let bytes = session.connected_message(vec![0x01, 0x00]).unwrap();
    assert_eq!(&bytes[0..4], &[0x70, 0x00, 0x16, 0x00]);
    assert_eq!(
        &bytes[30..],
        &[0x02, 0x00, 0xA1, 0x00, 0x04, 0x00, 0xD4, 0xC3, 0xB2, 0xA1, 0xB1, 0x00, 0x02, 0x00, 0x01, 0x00]
    );
    assert_eq!(
        session.connected_message(vec![0; 65516]),
        Err(SessionError::Encoding(EncodeError::EncodingInvariantViolated(Reason::PayloadTooLong)))
    );
    assert_eq!(
        session.unconnected_message(vec![0; 65520]),
        Err(SessionError::Encoding(EncodeError::EncodingInvariantViolated(Reason::PayloadTooLong)))
    );
}

#[test]
fn request_builders() {
    assert_eq!(object_path(2, 1).serialize().unwrap(), vec![0x20, 0x02, 0x24, 0x01]);
    assert_eq!(
        attribute_path(2, 0x100, 1).serialize().unwrap(),
        vec![0x20, 0x02, 0x25, 0x00, 0x00, 0x01, 0x30, 0x01]
    );
    let request = service_request(6, 1, 0x54, vec![1, 2]);
    assert_eq!(
        request,
        MessageRouterRequest { service: 0x54, epath: object_path(6, 1), data: vec![1, 2] }
    );
    let request = attribute_request(1, 2, 3, 0x0E, vec![]);
    assert_eq!(request.serialize().unwrap(), vec![0x0E, 0x03, 0x20, 0x01, 0x24, 0x02, 0x30, 0x03]);
    let session = registered_tcp();
    assert_eq!(session.route_path().serialize().unwrap(), vec![0x01, 0x02]);
    assert_eq!(
        session.routed_request(service_request(1, 1, 0x0E, vec![])).unwrap(),
        vec![
            0x52, 0x02, 0x20, 0x06, 0x24, 0x01, 0x03, 0xF0, 0x06, 0x00, 0x0E, 0x02, 0x20, 0x01,
            0x24, 0x01, 0x01, 0x00, 0x01, 0x02,
        ]
    );
    assert_eq!(
        session.send_unconnected_cm(service_request(1, 1, 0x0E, vec![])),
        session.call_service(1, 1, 0x0E, vec![])
    );
}

#[test]
fn register_reply_header_fields() {
    let (_, header) = EtherNetIPHeader::deserialize(&REGISTER_REPLY).unwrap();
    assert_eq!(header.command, 0x65);
    assert_eq!(header.length, 4);
    assert_eq!(header.session_handle, 0x01020304);
    assert_eq!(header.status, 0);
    let (_, reply) = RegisterSession::deserialize(&REGISTER_REPLY).unwrap();
    assert_eq!(reply.header, header);
}

#[test]
fn sender_contexts_ascend() {
    let mut session = registered_tcp();
    assert_eq!(session.take_context(), 0);
    assert_eq!(session.take_context(), 1);
    assert_eq!(session.take_context(), 2);
    assert_eq!(session.state, SessionState::Registered(0x01020304));
    session.next_context = u64::MAX;
    assert_eq!(session.take_context(), u64::MAX);
    assert_eq!(session.take_context(), 0);
}

#[test]
fn stamped_context_is_the_only_change() {
    let session = registered_tcp();
    let message = session.call_service(1, 1, 0x0E, vec![5]).unwrap();
    let stamped = stamp_context(message.clone(), 0x0102030405060708);
    assert_eq!(stamped.len(), message.len());
    assert_eq!(&stamped[..12], &message[..12]);
    assert_eq!(&stamped[12..20], &[0x08, 0x07, 0x06, 0x05, 0x04, 0x03, 0x02, 0x01]);
    assert_eq!(&stamped[20..], &message[20..]);
    let (_, header) = EtherNetIPHeader::deserialize(&stamped).unwrap();
    assert_eq!(header.sender_context, 0x0102030405060708);
    assert_eq!(header.session_handle, 0x01020304);
    assert_eq!(stamp_context(vec![1, 2, 3], 9), vec![1, 2, 3]);
    assert_eq!(stamp_context(vec![0; 24], u64::MAX)[12..20], [0xFF; 8]);
}

#[test]
fn reply_is_matched_by_its_context() {
    let reply = stamp_context(reply_with(vec![0x8E, 0, 0, 0]), 7);
    assert!(reply_matches(&reply, 7));
    assert!(!reply_matches(&reply, 8));
    assert!(reply_matches(&REGISTER_REPLY, 0));
    assert!(!reply_matches(&REGISTER_REPLY[..23], 0));
    assert!(service_reply(&reply).is_ok());
}
