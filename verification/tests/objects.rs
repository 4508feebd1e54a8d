use cip::cip::{EPath, LogicalSegment, MessageRouterRequest, PortSegment, Segment};
use cip::common::{EncodeError, Field, ParseError, Reason, Serializable};
use cip::objects::connection_manager::{ForwardOpenRequest, UnconnectedSendRequest};
use cip::objects::message_router::{sort, MessageRouter, MessageRouterResponseStatusCodes};

fn object_path(class_id: u32, instance_id: u32) -> EPath {
    let mut p = EPath::new();
    p.push(Segment::Logical(LogicalSegment::init(0, class_id)));
    p.push(Segment::Logical(LogicalSegment::init(1, instance_id)));
    p
}

fn route(port: u8, link: u8) -> EPath {
    let mut segment = PortSegment::new();
    segment.set_segment(port);
    segment.set_address(vec![link]);
    let mut p = EPath::new();
    p.push(Segment::Port(segment));
    p
}

fn sample_forward_open() -> ForwardOpenRequest {
    ForwardOpenRequest {
        priority: 0x0F,
        timeout_ticks: 0xFF,
        ot_network_connection_id: 0x01020304,
        to_network_connection_id: 0x11112222,
        connection_serial_number: 0xABCD,
        original_vendor_id: 0x011B,
        original_serial_number: 0x55667788,
        connection_timeout_multiplier: 2,
        ot_rpi: 50_000_000,
        ot_network_parameters: 0x43FF,
        to_rpi: 50_000_001,
        to_network_parameters: 0x43FE,
        transport_class: 0xA3,
        connection_path: object_path(0x02, 0x0101),
    }
}

#[test]
fn null_forward_open_wire_bytes() {
    let request = ForwardOpenRequest::null_forward_open(object_path(0x02, 1), 0xBEEF);
    let bytes = request.serialize().unwrap();
    assert_eq!(
        bytes,
        vec![
            0x00, 0xFF, // priority and time tick, time-out ticks
            0x00, 0x00, 0x00, 0x00, // originator to target connection id
            0x00, 0x00, 0x00, 0x00, // target to originator connection id
            0xEF, 0xBE, // connection serial number
            0x01, 0x00, // originator vendor id
            0x78, 0x56, 0x34, 0x12, // originator serial number
            0x00, // connection time-out multiplier
            0x00, 0x00, 0x00, // reserved
            0x00, 0x00, 0x00, 0x00, // originator to target interval
            0x00, 0x00, // originator to target parameters
            0x00, 0x00, 0x00, 0x00, // target to originator interval
            0x00, 0x00, // target to originator parameters
            0x00, // transport class and trigger
            0x02, // path size in words
            0x20, 0x02, 0x24, 0x01,
        ]
    );
    assert_eq!(bytes.len(), 40);
}

#[test]
fn null_forward_open_fields() {
    let request = ForwardOpenRequest::create_null_forward_open(object_path(0x02, 1));
    let expected =
        ForwardOpenRequest::null_forward_open(object_path(0x02, 1), request.connection_serial_number);
    assert_eq!(request, expected);
    assert_eq!(request.priority, 0);
    assert_eq!(request.timeout_ticks, 255);
    assert_eq!(request.original_vendor_id, 1);
    assert_eq!(request.original_serial_number, 0x12345678);
    assert_eq!(request.connection_path, object_path(0x02, 1));
    let bytes = request.serialize().unwrap();
    assert_eq!(bytes.len(), 40);
    assert_eq!(
        u16::from_le_bytes([bytes[10], bytes[11]]),
        request.connection_serial_number
    );
}

#[test]
fn forward_open_wire_bytes() {
    let bytes = sample_forward_open().serialize().unwrap();
    assert_eq!(
        bytes,
        vec![
            0x0F, 0xFF, 0x04, 0x03, 0x02, 0x01, 0x22, 0x22, 0x11, 0x11, 0xCD, 0xAB, 0x1B, 0x01,
            0x88, 0x77, 0x66, 0x55, 0x02, 0x00, 0x00, 0x00, 0x80, 0xF0, 0xFA, 0x02, 0xFF, 0x43,
            0x81, 0xF0, 0xFA, 0x02, 0xFE, 0x43, 0xA3, 0x03, 0x20, 0x02, 0x25, 0x00, 0x01, 0x01,
        ]
    );
}

#[test]
fn forward_open_round_trips() {
    let request = sample_forward_open();
    let mut bytes = request.serialize().unwrap();
    bytes.extend_from_slice(&[0xEE, 0xFF]);
    let (rest, back) = ForwardOpenRequest::deserialize(&bytes).unwrap();
    assert_eq!(rest, &[0xEE, 0xFF]);
    assert_eq!(back, request);
}

#[test]
fn forward_open_decode_errors() {
    let bytes = sample_forward_open().serialize().unwrap();
    assert_eq!(
        ForwardOpenRequest::deserialize(&bytes[..30]).unwrap_err(),
        ParseError::Incomplete(6)
    );
    assert_eq!(
        ForwardOpenRequest::deserialize(&bytes[..38]).unwrap_err(),
        ParseError::Incomplete(4)
    );
    let mut reserved = bytes.clone();
    reserved[20] = 1;
    assert_eq!(
        ForwardOpenRequest::deserialize(&reserved).unwrap_err(),
        ParseError::Malformed(Field::ForwardOpenReserved)
    );
    let mut cut = bytes.clone();
    cut[35] = 2;
    assert_eq!(
        ForwardOpenRequest::deserialize(&cut).unwrap_err(),
        ParseError::Malformed(Field::PathSize)
    );
}

#[test]
fn forward_open_with_a_path_that_cannot_be_encoded() {
    let mut request = sample_forward_open();
    request.connection_path = route(0, 1);
    assert_eq!(
        request.serialize().unwrap_err(),
        EncodeError::EncodingInvariantViolated(Reason::PortIdentifier)
    );
}

#[test]
fn unconnected_send_wire_bytes() {
    let request = UnconnectedSendRequest {
        priority: 0b11,
        timeout_ticks: 240,
        message_request: MessageRouterRequest {
            service: 0x0E,
            epath: object_path(1, 1),
            data: vec![],
        },
        route_path: route(1, 2),
    };
    let bytes = request.serialize().unwrap();
    assert_eq!(
        bytes,
        vec![
            0x03, 0xF0, // priority and time tick, time-out ticks
            0x06, 0x00, // length of the embedded request
            0x0E, 0x02, 0x20, 0x01, 0x24, 0x01, // embedded request
            0x01, 0x00, // route path size in words, reserved
            0x01, 0x02, // route path
        ]
    );
    let (rest, back) = UnconnectedSendRequest::deserialize(&bytes).unwrap();
    assert!(rest.is_empty());
    assert_eq!(back, request);
}

#[test]
fn unconnected_send_pads_an_odd_request() {
    let request = UnconnectedSendRequest {
        priority: 0b11,
        timeout_ticks: 240,
        message_request: MessageRouterRequest {
            service: 0x10,
            epath: object_path(1, 1),
            data: vec![0xAA],
        },
        route_path: route(1, 2),
    };
    let mut bytes = request.serialize().unwrap();
    assert_eq!(
        bytes,
        vec![
            0x03, 0xF0, 0x07, 0x00, 0x10, 0x02, 0x20, 0x01, 0x24, 0x01, 0xAA, 0x00, 0x01, 0x00,
            0x01, 0x02,
        ]
    );
    bytes.push(0x77);
    let (rest, back) = UnconnectedSendRequest::deserialize(&bytes).unwrap();
    assert_eq!(rest, &[0x77]);
    assert_eq!(back, request);
}

#[test]
fn unconnected_send_decode_errors() {
    let good = [
        0x03, 0xF0, 0x07, 0x00, 0x10, 0x02, 0x20, 0x01, 0x24, 0x01, 0xAA, 0x00, 0x01, 0x00, 0x01,
        0x02,
    ];
    assert_eq!(
        UnconnectedSendRequest::deserialize(&good[..3]).unwrap_err(),
        ParseError::Incomplete(1)
    );
    assert_eq!(
        UnconnectedSendRequest::deserialize(&good[..9]).unwrap_err(),
        ParseError::Incomplete(3)
    );
    assert_eq!(
        UnconnectedSendRequest::deserialize(&good[..13]).unwrap_err(),
        ParseError::Incomplete(1)
    );
    assert_eq!(
        UnconnectedSendRequest::deserialize(&good[..15]).unwrap_err(),
        ParseError::Incomplete(1)
    );
    let mut pad = good;
    pad[11] = 1;
    assert_eq!(
        UnconnectedSendRequest::deserialize(&pad).unwrap_err(),
        ParseError::Malformed(Field::EmbeddedPad)
    );
    let mut reserved = good;
    reserved[13] = 1;
    assert_eq!(
        UnconnectedSendRequest::deserialize(&reserved).unwrap_err(),
        ParseError::Malformed(Field::RoutePathReserved)
    );
    let mut inner = good;
    inner[5] = 3;
    assert_eq!(
        UnconnectedSendRequest::deserialize(&inner).unwrap_err(),
        ParseError::Incomplete(1)
    );
}

#[test]
fn unconnected_send_embedded_request_too_long() {
    let request = UnconnectedSendRequest {
        priority: 0b11,
        timeout_ticks: 240,
        message_request: MessageRouterRequest {
            service: 0x10,
            epath: object_path(1, 1),
            data: vec![0; 65530],
        },
        route_path: route(1, 2),
    };
    assert_eq!(
        request.serialize().unwrap_err(),
        EncodeError::EncodingInvariantViolated(Reason::PayloadTooLong)
    );
}

#[test]
fn sort_orders_ascending_and_keeps_duplicates() {
    assert_eq!(sort(vec![]), Vec::<u16>::new());
    assert_eq!(sort(vec![5]), vec![5]);
    assert_eq!(sort(vec![3, 1, 2, 1, 0xFFFF, 0]), vec![0, 1, 1, 2, 3, 0xFFFF]);
    assert_eq!(sort(vec![9, 8, 7, 6, 5, 4, 3, 2, 1]), vec![1, 2, 3, 4, 5, 6, 7, 8, 9]);
    assert_eq!(sort(vec![1, 2, 3]), vec![1, 2, 3]);
}

#[test]
fn class_list_is_parsed_and_sorted() {
    let payload = [0x03, 0x00, 0x01, 0x00, 0x02, 0x00, 0x06, 0x00];
    let (rest, router) = MessageRouter::deserialize(&payload).unwrap();
    assert!(rest.is_empty());
    assert_eq!(router.objects, vec![0x0001, 0x0002, 0x0006]);
    let unsorted = [0x03, 0x00, 0x06, 0x00, 0xF5, 0x00, 0x02, 0x00, 0x99];
    let (rest, router) = MessageRouter::deserialize(&unsorted).unwrap();
    assert_eq!(rest, &[0x99]);
    assert_eq!(router.objects, vec![0x0002, 0x0006, 0x00F5]);
}

#[test]
fn class_list_round_trips() {
    let router = MessageRouter { objects: vec![1, 2, 6, 0x1234] };
    let bytes = router.serialize().unwrap();
    assert_eq!(bytes, vec![0x04, 0x00, 0x01, 0x00, 0x02, 0x00, 0x06, 0x00, 0x34, 0x12]);
    let (rest, back) = MessageRouter::deserialize(&bytes).unwrap();
    assert!(rest.is_empty());
    assert_eq!(back, router);
}

#[test]
fn class_list_errors() {
    assert_eq!(MessageRouter::deserialize(&[0x03]).unwrap_err(), ParseError::Incomplete(1));
    assert_eq!(
        MessageRouter::deserialize(&[0x03, 0x00, 0x01, 0x00, 0x02]).unwrap_err(),
        ParseError::Incomplete(3)
    );
    let router = MessageRouter { objects: vec![0; 65536] };
    assert_eq!(
        router.serialize().unwrap_err(),
        EncodeError::EncodingInvariantViolated(Reason::TooManyItems)
    );
}

#[test]
fn general_status_codes() {
    assert_eq!(MessageRouterResponseStatusCodes::Success.code(), 0x00);
    assert_eq!(MessageRouterResponseStatusCodes::PrivilegeViolation.code(), 0x0F);
    assert_eq!(MessageRouterResponseStatusCodes::ObjectDoesNotExist.code(), 0x16);
    assert_eq!(MessageRouterResponseStatusCodes::ServiceNotSupportedForPath.code(), 0x2E);
    assert_eq!(
        MessageRouterResponseStatusCodes::from_code(0x0F),
        Some(MessageRouterResponseStatusCodes::PrivilegeViolation)
    );
    assert_eq!(MessageRouterResponseStatusCodes::from_code(0x2F), None);
    for code in 0u8..=0x2E {
        assert_eq!(MessageRouterResponseStatusCodes::from_code(code).unwrap().code(), code);
    }
}

#[test]
fn every_status_code_is_listed_once_in_order() {
    let all = MessageRouterResponseStatusCodes::all();
    assert_eq!(all.len(), 47);
    for (i, status) in all.iter().enumerate() {
        assert_eq!(status.code() as usize, i);
    }
    assert_eq!(all[0], MessageRouterResponseStatusCodes::Success);
    assert_eq!(all[46], MessageRouterResponseStatusCodes::ServiceNotSupportedForPath);
}
