use cip::cip::{
    path_words, CipClass, CipDataType, CipService, EPath, EpathSegments, LogicalFormat,
    LogicalSegment, LogicalType, MessageRouterRequest, MessageRouterResponse, PortSegment,
    Segment,
};
use cip::common::{EncodeError, Feature, Field, ParseError, Reason, Serializable};

fn logical(logical_type: u8, value: u32) -> Segment {
    Segment::Logical(LogicalSegment::init(logical_type, value))
}

fn port(port_identifier: u8, link: Vec<u8>) -> PortSegment {
    let mut segment = PortSegment::new();
    segment.set_segment(port_identifier);
    segment.set_address(link);
    segment
}

fn path(segments: Vec<Segment>) -> EPath {
    let mut p = EPath::new();
    for s in segments {
        p.push(s);
    }
    p
}

#[test]
fn new_logical_segment_is_zero() {
    assert_eq!(
        LogicalSegment::new(),
        LogicalSegment { logical_type: 0, logical_format: 0, value: 0 }
    );
    assert_eq!(LogicalSegment::new().serialize().unwrap(), vec![0x20, 0x00]);
}

#[test]
fn logical_segment_takes_the_narrowest_format() {
    for (value, format) in [
        (0u32, 0u8),
        (1, 0),
        (255, 0),
        (256, 1),
        (65535, 1),
        (65536, 2),
        (0x12345678, 2),
        (u32::MAX, 2),
    ] {
        let segment = LogicalSegment::init(LogicalType::InstanceId.code(), value);
        assert_eq!(segment.logical_format, format);
        assert_eq!(segment.logical_type, 1);
        assert_eq!(segment.value, value);
        let mut set = LogicalSegment::new();
        set.set_segment(1, value);
        assert_eq!(set, segment);
        assert_eq!(LogicalSegment::new_typed(LogicalType::InstanceId, value), segment);
        let bytes = segment.serialize().unwrap();
        assert_eq!(bytes.len(), 2 * (format as usize + 1));
        assert_eq!(bytes[0] & 0b11, format);
    }
}

#[test]
fn logical_segment_wire_bytes() {
    assert_eq!(LogicalSegment::init(0, 0x02).serialize().unwrap(), vec![0x20, 0x02]);
    assert_eq!(LogicalSegment::init(1, 0x01).serialize().unwrap(), vec![0x24, 0x01]);
    assert_eq!(LogicalSegment::init(4, 0xFF).serialize().unwrap(), vec![0x30, 0xFF]);
    assert_eq!(LogicalSegment::init(7, 0x00).serialize().unwrap(), vec![0x3C, 0x00]);
    assert_eq!(LogicalSegment::init(1, 0x1234).serialize().unwrap(), vec![0x25, 0x00, 0x34, 0x12]);
    assert_eq!(
        LogicalSegment::init(4, 0x12345678).serialize().unwrap(),
        vec![0x32, 0x00, 0x78, 0x56, 0x34, 0x12]
    );
}

#[test]
fn logical_segment_round_trips() {
    for logical_type in 0u8..8 {
        for value in [0u32, 7, 255, 256, 40000, 65535, 65536, 0xDEADBEEF] {
            let segment = LogicalSegment::init(logical_type, value);
            let mut bytes = segment.serialize().unwrap();
            bytes.push(0x99);
            let (rest, back) = LogicalSegment::deserialize(&bytes).unwrap();
            assert_eq!(rest, &[0x99]);
            assert_eq!(back, segment);
        }
    }
}

#[test]
fn logical_segment_in_a_wider_format_than_needed_is_kept() {
    let bytes = [0x21, 0x00, 0x05, 0x00];
    let (rest, segment) = LogicalSegment::deserialize(&bytes).unwrap();
    assert!(rest.is_empty());
    assert_eq!(segment, LogicalSegment { logical_type: 0, logical_format: 1, value: 5 });
    assert_eq!(segment.serialize().unwrap(), bytes.to_vec());
}

#[test]
fn logical_segment_encode_errors() {
    let bad_type = LogicalSegment { logical_type: 8, logical_format: 0, value: 0 };
    assert_eq!(
        bad_type.serialize().unwrap_err(),
        EncodeError::EncodingInvariantViolated(Reason::LogicalType)
    );
    let reserved = LogicalSegment { logical_type: 0, logical_format: 3, value: 0 };
    assert_eq!(
        reserved.serialize().unwrap_err(),
        EncodeError::EncodingInvariantViolated(Reason::LogicalFormat)
    );
    let narrow = LogicalSegment { logical_type: 0, logical_format: 0, value: 256 };
    assert_eq!(
        narrow.serialize().unwrap_err(),
        EncodeError::EncodingInvariantViolated(Reason::LogicalFormat)
    );
    let narrow16 = LogicalSegment { logical_type: 0, logical_format: 1, value: 65536 };
    assert_eq!(
        narrow16.serialize().unwrap_err(),
        EncodeError::EncodingInvariantViolated(Reason::LogicalFormat)
    );
}

#[test]
fn logical_segment_decode_errors() {
    assert_eq!(LogicalSegment::deserialize(&[]).unwrap_err(), ParseError::Incomplete(1));
    assert_eq!(LogicalSegment::deserialize(&[0x20]).unwrap_err(), ParseError::Incomplete(1));
    assert_eq!(LogicalSegment::deserialize(&[0x21, 0x00]).unwrap_err(), ParseError::Incomplete(2));
    assert_eq!(
        LogicalSegment::deserialize(&[0x22, 0x00, 0x00, 0x00]).unwrap_err(),
        ParseError::Incomplete(2)
    );
    assert_eq!(
        LogicalSegment::deserialize(&[0x23, 0x00, 0x00, 0x00]).unwrap_err(),
        ParseError::Malformed(Field::LogicalFormat)
    );
    assert_eq!(
        LogicalSegment::deserialize(&[0x21, 0x01, 0x00, 0x00]).unwrap_err(),
        ParseError::Malformed(Field::LogicalPad)
    );
    assert_eq!(
        LogicalSegment::deserialize(&[0x01, 0x02]).unwrap_err(),
        ParseError::Malformed(Field::SegmentType)
    );
}

#[test]
fn new_port_segment_is_port_one_without_address() {
    let segment = PortSegment::new();
    assert_eq!(segment.port_identifier, 1);
    assert!(!segment.extended_link_address);
    assert!(segment.link_address.is_empty());
}

#[test]
fn port_segment_wire_bytes() {
    let segment = port(1, vec![2]);
    let bytes = segment.serialize().unwrap();
    assert_eq!(bytes, vec![0x01, 0x02]);
    let (rest, back) = PortSegment::deserialize(&[0x01, 0x02, 0x20]).unwrap();
    assert_eq!(rest, &[0x20]);
    assert_eq!(back, segment);
    assert_eq!(port(14, vec![0xFF]).serialize().unwrap(), vec![0x0E, 0xFF]);
}

#[test]
fn port_segment_encode_errors() {
    let mut extended = port(1, vec![2]);
    extended.extended_link_address = true;
    assert_eq!(
        extended.serialize().unwrap_err(),
        EncodeError::NotSupported(Feature::ExtendedLinkAddress)
    );
    assert_eq!(
        port(0, vec![2]).serialize().unwrap_err(),
        EncodeError::EncodingInvariantViolated(Reason::PortIdentifier)
    );
    assert_eq!(
        port(15, vec![2]).serialize().unwrap_err(),
        EncodeError::NotSupported(Feature::ExtendedPortIdentifier)
    );
    assert_eq!(
        port(1, vec![]).serialize().unwrap_err(),
        EncodeError::EncodingInvariantViolated(Reason::LinkAddress)
    );
    assert_eq!(
        port(1, vec![2, 3]).serialize().unwrap_err(),
        EncodeError::NotSupported(Feature::ExtendedLinkAddress)
    );
}

#[test]
fn port_segment_decode_errors() {
    assert_eq!(PortSegment::deserialize(&[]).unwrap_err(), ParseError::Incomplete(1));
    assert_eq!(PortSegment::deserialize(&[0x01]).unwrap_err(), ParseError::Incomplete(1));
    assert_eq!(
        PortSegment::deserialize(&[0x11, 0x02]).unwrap_err(),
        ParseError::NotSupported(Feature::ExtendedLinkAddress)
    );
    assert_eq!(
        PortSegment::deserialize(&[0x00, 0x02]).unwrap_err(),
        ParseError::Malformed(Field::PortIdentifier)
    );
    assert_eq!(
        PortSegment::deserialize(&[0x0F, 0x02]).unwrap_err(),
        ParseError::NotSupported(Feature::ExtendedPortIdentifier)
    );
    assert_eq!(
        PortSegment::deserialize(&[0x20, 0x02]).unwrap_err(),
        ParseError::Malformed(Field::SegmentType)
    );
}

#[test]
fn segment_type_and_data() {
    let wide = LogicalSegment::init(1, 0x1234);
    assert_eq!(wide.get_type(), 0x25);
    assert_eq!(wide.get_data(), vec![0x34, 0x12]);
    let narrow = LogicalSegment::init(0, 6);
    assert_eq!(narrow.get_type(), 0x20);
    assert_eq!(narrow.get_data(), vec![6]);
    let widest = LogicalSegment::init(4, 0x12345678);
    assert_eq!(widest.get_type(), 0x32);
    assert_eq!(widest.get_data(), vec![0x78, 0x56, 0x34, 0x12]);
    let p = port(3, vec![9]);
    assert_eq!(p.get_type(), 3);
    assert_eq!(p.get_data(), vec![9]);
    assert_eq!(Segment::Port(p).get_type(), 3);
    assert_eq!(Segment::Logical(wide).get_data(), vec![0x34, 0x12]);
}

#[test]
fn segment_dispatches_on_the_leading_byte() {
    let (_, s) = Segment::deserialize(&[0x24, 0x01]).unwrap();
    assert_eq!(s, logical(1, 1));
    let (_, s) = Segment::deserialize(&[0x01, 0x02]).unwrap();
    assert_eq!(s, Segment::Port(port(1, vec![2])));
    assert_eq!(
        Segment::deserialize(&[0x40, 0x00]).unwrap_err(),
        ParseError::Malformed(Field::SegmentType)
    );
    assert_eq!(
        Segment::deserialize(&[0xFF, 0x00]).unwrap_err(),
        ParseError::Malformed(Field::SegmentType)
    );
    assert_eq!(Segment::deserialize(&[]).unwrap_err(), ParseError::Incomplete(1));
}

#[test]
fn new_path_is_empty() {
    let p = EPath::new();
    assert!(p.attributes.is_empty());
    assert_eq!(p.serialize().unwrap(), Vec::<u8>::new());
    assert_eq!(p.encoded_len().unwrap(), 0);
}

#[test]
fn path_wire_bytes() {
    let p = path(vec![logical(0, 0x02), logical(1, 0x01)]);
    assert_eq!(p.serialize().unwrap(), vec![0x20, 0x02, 0x24, 0x01]);
    assert_eq!(p.encoded_len().unwrap(), 4);
    let (rest, back) = EPath::deserialize(&[0x20, 0x02, 0x24, 0x01]).unwrap();
    assert!(rest.is_empty());
    assert_eq!(back, p);
}

#[test]
fn encoded_paths_have_even_length() {
    let values = [0u32, 255, 256, 65535, 65536, u32::MAX];
    for a in values {
        for b in values {
            let p = path(vec![
                logical(0, a),
                Segment::Port(port(1, vec![2])),
                logical(1, b),
                logical(4, a ^ b),
            ]);
            let bytes = p.serialize().unwrap();
            assert_eq!(bytes.len() % 2, 0);
            assert_eq!(p.encoded_len().unwrap(), bytes.len());
            let (rest, back) = EPath::deserialize(&bytes).unwrap();
            assert!(rest.is_empty());
            assert_eq!(back, p);
        }
    }
}

#[test]
fn path_reports_the_first_segment_that_cannot_be_encoded() {
    let p = path(vec![
        logical(0, 1),
        Segment::Port(port(0, vec![2])),
        Segment::Logical(LogicalSegment { logical_type: 9, logical_format: 0, value: 0 }),
    ]);
    assert_eq!(
        p.serialize().unwrap_err(),
        EncodeError::EncodingInvariantViolated(Reason::PortIdentifier)
    );
    assert_eq!(
        p.encoded_len().unwrap_err(),
        EncodeError::EncodingInvariantViolated(Reason::PortIdentifier)
    );
}

#[test]
fn path_cut_inside_a_segment() {
    assert_eq!(EPath::deserialize(&[0x20, 0x02, 0x25, 0x00]).unwrap_err(), ParseError::Incomplete(2));
    assert_eq!(
        EPath::parse_sized(&[0x20, 0x02, 0x25, 0x00]).unwrap_err(),
        ParseError::Malformed(Field::PathSize)
    );
    assert_eq!(
        EPath::parse_sized(&[0x20, 0x02, 0x60, 0x00]).unwrap_err(),
        ParseError::Malformed(Field::SegmentType)
    );
    assert_eq!(EPath::parse_sized(&[0x20, 0x02]).unwrap(), path(vec![logical(0, 2)]));
}

#[test]
fn word_count_of_a_path() {
    assert_eq!(path_words(&[]).unwrap(), 0);
    assert_eq!(path_words(&[0x20, 0x02, 0x24, 0x01]).unwrap(), 2);
    assert_eq!(path_words(&[0u8; 510]).unwrap(), 255);
    assert_eq!(
        path_words(&[0x20]).unwrap_err(),
        EncodeError::EncodingInvariantViolated(Reason::OddPathLength)
    );
    assert_eq!(
        path_words(&[0u8; 511]).unwrap_err(),
        EncodeError::EncodingInvariantViolated(Reason::OddPathLength)
    );
    assert_eq!(
        path_words(&[0u8; 512]).unwrap_err(),
        EncodeError::EncodingInvariantViolated(Reason::PathTooLong)
    );
}

#[test]
fn message_router_request_wire_bytes() {
    let request = MessageRouterRequest {
        service: 0x0E,
        epath: path(vec![logical(0, 1), logical(1, 1), logical(4, 7)]),
        data: vec![0xAA, 0xBB],
    };
    let bytes = request.serialize().unwrap();
    assert_eq!(bytes, vec![0x0E, 0x03, 0x20, 0x01, 0x24, 0x01, 0x30, 0x07, 0xAA, 0xBB]);
    let (rest, back) = MessageRouterRequest::deserialize(&bytes).unwrap();
    assert!(rest.is_empty());
    assert_eq!(back, request);
}

#[test]
fn message_router_request_without_path_or_data() {
    let request = MessageRouterRequest { service: 0x01, epath: EPath::new(), data: vec![] };
    assert_eq!(request.serialize().unwrap(), vec![0x01, 0x00]);
    let (_, back) = MessageRouterRequest::deserialize(&[0x01, 0x00]).unwrap();
    assert_eq!(back, request);
}

#[test]
fn message_router_request_path_too_long() {
    let mut segments = Vec::new();
    for _ in 0..86 {
        segments.push(logical(0, 0x10000));
    }
    let request = MessageRouterRequest { service: 1, epath: path(segments), data: vec![] };
    assert_eq!(
        request.serialize().unwrap_err(),
        EncodeError::EncodingInvariantViolated(Reason::PathTooLong)
    );
    let mut segments = Vec::new();
    for _ in 0..85 {
        segments.push(logical(0, 0x10000));
    }
    let request = MessageRouterRequest { service: 1, epath: path(segments), data: vec![] };
    let bytes = request.serialize().unwrap();
    assert_eq!(bytes.len(), 2 + 510);
    assert_eq!(bytes[1], 255);
}

#[test]
fn message_router_request_decode_errors() {
    assert_eq!(MessageRouterRequest::deserialize(&[0x0E]).unwrap_err(), ParseError::Incomplete(1));
    assert_eq!(
        MessageRouterRequest::deserialize(&[0x0E, 0x02, 0x20, 0x01]).unwrap_err(),
        ParseError::Incomplete(2)
    );
    assert_eq!(
        MessageRouterRequest::deserialize(&[0x0E, 0x01, 0x21, 0x00]).unwrap_err(),
        ParseError::Malformed(Field::PathSize)
    );
    assert_eq!(
        MessageRouterRequest::deserialize(&[0x0E, 0x01, 0x23, 0x00]).unwrap_err(),
        ParseError::Malformed(Field::LogicalFormat)
    );
}

#[test]
fn message_router_response_parses() {
    let (rest, response) = MessageRouterResponse::deserialize(&[0x8E, 0x00, 0x0F, 0x00]).unwrap();
    assert!(rest.is_empty());
    assert_eq!(
        response,
        MessageRouterResponse {
            service: 0x8E,
            reserved: 0,
            general_status: 0x0F,
            size_of_additional_status: 0,
            additional_status: vec![],
            data: vec![],
        }
    );
}

#[test]
fn message_router_response_with_additional_status() {
    let bytes = [0x8E, 0x00, 0x01, 0x02, 0x34, 0x12, 0x78, 0x56, 0xAA, 0xBB];
    let (rest, response) = MessageRouterResponse::deserialize(&bytes).unwrap();
    assert!(rest.is_empty());
    assert_eq!(response.service, 0x8E);
    assert_eq!(response.general_status, 1);
    assert_eq!(response.size_of_additional_status, 2);
    assert_eq!(response.additional_status, vec![0x1234, 0x5678]);
    assert_eq!(response.data, vec![0xAA, 0xBB]);
    assert_eq!(response.serialize().unwrap(), bytes.to_vec());
}

#[test]
fn message_router_response_errors() {
    assert_eq!(
        MessageRouterResponse::deserialize(&[0x0E, 0x00, 0x00, 0x00]).unwrap_err(),
        ParseError::Malformed(Field::ResponseService)
    );
    assert_eq!(
        MessageRouterResponse::deserialize(&[0x8E, 0x00, 0x00]).unwrap_err(),
        ParseError::Incomplete(1)
    );
    assert_eq!(
        MessageRouterResponse::deserialize(&[0x8E, 0x00, 0x00, 0x02, 0x01, 0x02]).unwrap_err(),
        ParseError::Incomplete(2)
    );
    let mut response = MessageRouterResponse {
        service: 0x0E,
        reserved: 0,
        general_status: 0,
        size_of_additional_status: 0,
        additional_status: vec![],
        data: vec![],
    };
    assert_eq!(
        response.serialize().unwrap_err(),
        EncodeError::EncodingInvariantViolated(Reason::ResponseService)
    );
    response.service = 0x8E;
    response.size_of_additional_status = 1;
    assert_eq!(
        response.serialize().unwrap_err(),
        EncodeError::EncodingInvariantViolated(Reason::LengthMismatch)
    );
}

#[test]
fn protocol_numbers() {
    assert_eq!(CipService::GetAttributesAll.code(), 0x01);
    assert_eq!(CipService::GetAttributeSingle.code(), 0x0E);
    assert_eq!(CipService::SetAttributeSingle.code(), 0x10);
    assert_eq!(CipService::Save.code(), 0x16);
    assert_eq!(CipClass::Identity.code(), 0x01);
    assert_eq!(CipClass::MessageRouter.code(), 0x02);
    assert_eq!(CipClass::ConnectionManager.code(), 0x06);
    assert_eq!(CipClass::File.code(), 0x37);
    assert_eq!(CipClass::EtherNetLink.code(), 0xF6);
    assert_eq!(CipDataType::Bool.code(), 0x01);
    assert_eq!(CipDataType::Lword.code(), 0x0F);
    assert_eq!(LogicalType::ClassId.code(), 0);
    assert_eq!(LogicalType::AttributeId.code(), 4);
    assert_eq!(LogicalType::ExdendedLogical.code(), 7);
    assert_eq!(LogicalType::from_code(6), Some(LogicalType::ServiceId));
    assert_eq!(LogicalType::from_code(8), None);
    assert_eq!(LogicalFormat::ThirtyTwoBit.code(), 2);
    assert_eq!(LogicalFormat::from_code(1), Some(LogicalFormat::SixteenBit));
    assert_eq!(LogicalFormat::from_code(3), None);
}
