use cip::common::{EncodeError, Field, ParseError, Reason, Serializable};
use cip::cpf::{
    CommonPacketList, ConnectedAddressItem, ConnectedDataItem, CpfItem, UnconnectedDataItem,
};
use cip::enip::{
    split_frame, ENIPPacket, EtherNetIPHeader, RegisterSession, SendRRData, SendUnitData,
    UnregisterSession, NOP,
};

fn header(command: u16, length: u16, session_handle: u32) -> EtherNetIPHeader {
    EtherNetIPHeader { command, length, session_handle, status: 0, sender_context: 0, options: 0 }
}

#[test]
fn sendunitdata_deserialize_invalid() {
    let input: [u8; 1] = [0];
    let result = SendUnitData::deserialize(&input);
    assert!(result.is_err());
}

#[test]
fn sendunitdata_deserialize_valid() {
    let input: [u8; 12] = [0, 0, 0, 0, 0, 0, 0, 0, 0, 0, 0, 0];
    let result = SendUnitData::deserialize(&input);
    assert!(result.is_err());
}

#[test]
fn short_header_reports_missing_bytes() {
    let input = [0u8; 12];
    assert_eq!(EtherNetIPHeader::deserialize(&input).unwrap_err(), ParseError::Incomplete(12));
    assert_eq!(SendUnitData::deserialize(&[0u8]).unwrap_err(), ParseError::Incomplete(23));
    assert_eq!(SendRRData::deserialize(&[]).unwrap_err(), ParseError::Incomplete(24));
}

#[test]
fn header_encodes_every_field_little_endian() {
    let h = EtherNetIPHeader {
        command: 0x006F,
        length: 0x0102,
        session_handle: 0x0A0B0C0D,
        status: 0x11223344,
        sender_context: 0x0102030405060708,
        options: 0xAABBCCDD,
    };
    let bytes = h.serialize().unwrap();
    assert_eq!(
        bytes,
        vec![
            0x6F, 0x00, 0x02, 0x01, 0x0D, 0x0C, 0x0B, 0x0A, 0x44, 0x33, 0x22, 0x11, 0x08, 0x07,
            0x06, 0x05, 0x04, 0x03, 0x02, 0x01, 0xDD, 0xCC, 0xBB, 0xAA,
        ]
    );
    let (rest, back) = EtherNetIPHeader::deserialize(&bytes).unwrap();
    assert!(rest.is_empty());
    assert_eq!(back, h);
}

#[test]
fn header_parse_leaves_the_body() {
    let mut bytes = header(0x0065, 2, 7).serialize().unwrap();
    bytes.extend_from_slice(&[0xAA, 0xBB]);
    let (rest, back) = EtherNetIPHeader::deserialize(&bytes).unwrap();
    assert_eq!(rest, &[0xAA, 0xBB]);
    assert_eq!(back.session_handle, 7);
}

#[test]
fn register_session_request_wire_bytes() {
    let bytes = RegisterSession::request().serialize().unwrap();
    assert_eq!(
        bytes,
        vec![
            0x65, 0x00, 0x04, 0x00, 0x00, 0x00, 0x00, 0x00, 0x00, 0x00, 0x00, 0x00, 0x00, 0x00,
            0x00, 0x00, 0x00, 0x00, 0x00, 0x00, 0x00, 0x00, 0x00, 0x00, 0x01, 0x00, 0x00, 0x00,
        ]
    );
}

#[test]
fn register_session_reply_parses() {
    let reply = [
        0x65, 0x00, 0x04, 0x00, 0x04, 0x03, 0x02, 0x01, 0x00, 0x00, 0x00, 0x00, 0x00, 0x00, 0x00,
        0x00, 0x00, 0x00, 0x00, 0x00, 0x00, 0x00, 0x00, 0x00, 0x01, 0x00, 0x00, 0x00,
    ];
    let (rest, message) = RegisterSession::deserialize(&reply).unwrap();
    assert!(rest.is_empty());
    assert_eq!(message.header.command, 0x65);
    assert_eq!(message.header.length, 4);
    assert_eq!(message.header.session_handle, 0x01020304);
    assert_eq!(message.header.status, 0);
    assert_eq!(message.version, 1);
    assert_eq!(message.options, 0);
}

#[test]
fn register_session_round_trips() {
    let mut message = RegisterSession::request();
    message.set_session(0xDEADBEEF);
    message.header.sender_context = 0x1122334455667788;
    let bytes = message.serialize().unwrap();
    let (rest, back) = RegisterSession::deserialize(&bytes).unwrap();
    assert!(rest.is_empty());
    assert_eq!(back, message);
}

#[test]
fn register_session_rejects_wrong_length() {
    let mut message = RegisterSession::request();
    message.header.length = 5;
    assert_eq!(
        message.serialize().unwrap_err(),
        EncodeError::EncodingInvariantViolated(Reason::LengthMismatch)
    );
    let mut long = header(0x65, 5, 0).serialize().unwrap();
    long.extend_from_slice(&[1, 0, 0, 0, 0]);
    assert_eq!(
        RegisterSession::deserialize(&long).unwrap_err(),
        ParseError::Malformed(Field::EncapsulationLength)
    );
    let mut short = header(0x65, 3, 0).serialize().unwrap();
    short.extend_from_slice(&[1, 0, 0]);
    assert_eq!(RegisterSession::deserialize(&short).unwrap_err(), ParseError::Incomplete(1));
}

#[test]
fn body_shorter_than_announced_is_incomplete() {
    let mut bytes = header(0x65, 4, 0).serialize().unwrap();
    bytes.extend_from_slice(&[1, 0]);
    assert_eq!(RegisterSession::deserialize(&bytes).unwrap_err(), ParseError::Incomplete(2));
    assert_eq!(split_frame(&bytes).unwrap_err(), ParseError::Incomplete(2));
}

#[test]
fn split_frame_cuts_one_message_off() {
    let mut bytes = header(0x00, 3, 0).serialize().unwrap();
    bytes.extend_from_slice(&[1, 2, 3, 9, 9]);
    let (h, body, rest) = split_frame(&bytes).unwrap();
    assert_eq!(h.length, 3);
    assert_eq!(body, &[1, 2, 3]);
    assert_eq!(rest, &[9, 9]);
}

#[test]
fn unregister_session_is_a_bare_header() {
    let message = UnregisterSession::request(0x01020304);
    let bytes = message.serialize().unwrap();
    assert_eq!(bytes.len(), 24);
    assert_eq!(&bytes[0..8], &[0x66, 0x00, 0x00, 0x00, 0x04, 0x03, 0x02, 0x01]);
    let (rest, back) = UnregisterSession::deserialize(&bytes).unwrap();
    assert!(rest.is_empty());
    assert_eq!(back, message);
    let bad = UnregisterSession { header: header(0x66, 1, 0) };
    assert_eq!(
        bad.serialize().unwrap_err(),
        EncodeError::EncodingInvariantViolated(Reason::LengthMismatch)
    );
}

#[test]
fn send_rr_data_unconnected_wire_bytes() {
    let message = SendRRData::unconnected(0x01020304, vec![0xAA, 0xBB, 0xCC]).unwrap();
    assert_eq!(message.header.length, 19);
    let bytes = message.serialize().unwrap();
    assert_eq!(
        bytes,
        vec![
            0x6F, 0x00, 0x13, 0x00, 0x04, 0x03, 0x02, 0x01, 0, 0, 0, 0, 0, 0, 0, 0, 0, 0, 0, 0, 0,
            0, 0, 0, // header
            0, 0, 0, 0, 0, 0, // interface handle, timeout
            0x02, 0x00, // item count
            0x00, 0x00, 0x00, 0x00, // null address item
            0xB2, 0x00, 0x03, 0x00, 0xAA, 0xBB, 0xCC, // unconnected data item
        ]
    );
    let (rest, back) = SendRRData::deserialize(&bytes).unwrap();
    assert!(rest.is_empty());
    assert_eq!(back, message);
}

#[test]
fn encoded_length_field_counts_the_bytes_behind_the_header() {
    for n in [0usize, 1, 2, 255, 256, 1000] {
        let rr = SendRRData::unconnected(1, vec![0x5A; n]).unwrap().serialize().unwrap();
        assert_eq!(u16::from_le_bytes([rr[2], rr[3]]) as usize, rr.len() - 24);
        let unit = SendUnitData::connected(1, 2, vec![0x5A; n]).unwrap().serialize().unwrap();
        assert_eq!(u16::from_le_bytes([unit[2], unit[3]]) as usize, unit.len() - 24);
        let nop = NOP { header: header(0, n as u16, 0), data: vec![0x5A; n] };
        let nop = nop.serialize().unwrap();
        assert_eq!(u16::from_le_bytes([nop[2], nop[3]]) as usize, nop.len() - 24);
    }
    let reg = RegisterSession::request().serialize().unwrap();
    assert_eq!(u16::from_le_bytes([reg[2], reg[3]]) as usize, reg.len() - 24);
    let unreg = UnregisterSession::request(5).serialize().unwrap();
    assert_eq!(u16::from_le_bytes([unreg[2], unreg[3]]) as usize, unreg.len() - 24);
}

#[test]
fn send_rr_data_rejects_wrong_length_field() {
    let mut message = SendRRData::unconnected(0, vec![1, 2, 3]).unwrap();
    message.header.length = 18;
    assert_eq!(
        message.serialize().unwrap_err(),
        EncodeError::EncodingInvariantViolated(Reason::LengthMismatch)
    );
}

#[test]
fn unconnected_payload_limit() {
    assert!(SendRRData::unconnected(0, vec![0; 65519]).is_ok());
    assert_eq!(
        SendRRData::unconnected(0, vec![0; 65520]).unwrap_err(),
        EncodeError::EncodingInvariantViolated(Reason::PayloadTooLong)
    );
    let largest = SendRRData::unconnected(0, vec![0; 65519]).unwrap().serialize().unwrap();
    assert_eq!(largest.len(), 24 + 65535);
    assert_eq!(&largest[2..4], &[0xFF, 0xFF]);
}

#[test]
fn connected_payload_limit() {
    assert!(SendUnitData::connected(0, 0, vec![0; 65515]).is_ok());
    assert_eq!(
        SendUnitData::connected(0, 0, vec![0; 65516]).unwrap_err(),
        EncodeError::EncodingInvariantViolated(Reason::PayloadTooLong)
    );
}

#[test]
fn send_unit_data_connected_wire_bytes() {
    let message = SendUnitData::connected(0x11223344, 0xA1B2C3D4, vec![0x01, 0x00, 0x0E]).unwrap();
    assert_eq!(message.header.length, 23);
    let bytes = message.serialize().unwrap();
    assert_eq!(
        bytes,
        vec![
            0x70, 0x00, 0x17, 0x00, 0x44, 0x33, 0x22, 0x11, 0, 0, 0, 0, 0, 0, 0, 0, 0, 0, 0, 0, 0,
            0, 0, 0, // header
            0, 0, 0, 0, 0, 0, // interface handle, timeout
            0x02, 0x00, // item count
            0xA1, 0x00, 0x04, 0x00, 0xD4, 0xC3, 0xB2, 0xA1, // connected address item
            0xB1, 0x00, 0x03, 0x00, 0x01, 0x00, 0x0E, // connected data item
        ]
    );
    let (rest, back) = SendUnitData::deserialize(&bytes).unwrap();
    assert!(rest.is_empty());
    assert_eq!(back, message);
}

#[test]
fn send_unit_data_needs_address_then_data() {
    let mut items = CommonPacketList::new();
    items.push(CpfItem::ConnectedData(ConnectedDataItem { data: vec![1] }));
    items.push(CpfItem::ConnectedAddress(ConnectedAddressItem { addr: 1 }));
    let swapped = SendUnitData { header: header(0x70, 21, 0), interface_handle: 0, timeout: 0, items };
    assert_eq!(
        swapped.serialize().unwrap_err(),
        EncodeError::EncodingInvariantViolated(Reason::ConnectedItems)
    );
    // The same bytes as an unconnected message parse, but not as a connected one.
    let rr = SendRRData::unconnected(0, vec![1, 2]).unwrap().serialize().unwrap();
    assert_eq!(
        SendUnitData::deserialize(&rr).unwrap_err(),
        ParseError::Malformed(Field::ConnectedItems)
    );
}

#[test]
fn list_must_fill_the_body() {
    let mut bytes = SendRRData::unconnected(0, vec![1, 2]).unwrap().serialize().unwrap();
    // Announce one more byte of body than the list takes.
    bytes[2] += 1;
    bytes.push(0);
    assert_eq!(
        SendRRData::deserialize(&bytes).unwrap_err(),
        ParseError::Malformed(Field::EncapsulationLength)
    );
}

#[test]
fn body_too_short_for_fixed_fields() {
    let mut bytes = header(0x6F, 4, 0).serialize().unwrap();
    bytes.extend_from_slice(&[0, 0, 0, 0]);
    assert_eq!(SendRRData::deserialize(&bytes).unwrap_err(), ParseError::Incomplete(2));
}

#[test]
fn nop_round_trips_and_leaves_the_next_message() {
    let nop = NOP { header: header(0, 3, 9), data: vec![7, 8, 9] };
    let mut bytes = nop.serialize().unwrap();
    bytes.extend_from_slice(&[0xEE]);
    let (rest, back) = NOP::deserialize(&bytes).unwrap();
    assert_eq!(rest, &[0xEE]);
    assert_eq!(back, nop);
    let bad = NOP { header: header(0, 2, 9), data: vec![7, 8, 9] };
    assert_eq!(
        bad.serialize().unwrap_err(),
        EncodeError::EncodingInvariantViolated(Reason::LengthMismatch)
    );
}

#[test]
fn keep_alive_is_a_header_without_body() {
    let bytes = NOP::keep_alive(0x0A0B0C0D).serialize().unwrap();
    assert_eq!(bytes.len(), 24);
    assert_eq!(&bytes[0..8], &[0x00, 0x00, 0x00, 0x00, 0x0D, 0x0C, 0x0B, 0x0A]);
}

#[test]
fn set_session_changes_only_the_handle() {
    let mut h = header(0x6F, 10, 1);
    h.status = 3;
    h.set_session(0x55);
    assert_eq!(h, EtherNetIPHeader { session_handle: 0x55, status: 3, ..header(0x6F, 10, 0) });
    let mut rr = SendRRData::unconnected(1, vec![1]).unwrap();
    rr.set_session(2);
    assert_eq!(rr, SendRRData::unconnected(2, vec![1]).unwrap());
    let mut unit = SendUnitData::connected(1, 5, vec![1]).unwrap();
    unit.set_session(2);
    assert_eq!(unit, SendUnitData::connected(2, 5, vec![1]).unwrap());
    let mut nop = NOP::keep_alive(1);
    nop.set_session(2);
    assert_eq!(nop, NOP::keep_alive(2));
    let mut unreg = UnregisterSession::request(1);
    unreg.set_session(2);
    assert_eq!(unreg, UnregisterSession::request(2));
}

#[test]
fn unconnected_data_item_is_found() {
    let message = SendRRData::unconnected(0, vec![4, 5]).unwrap();
    assert_eq!(message.items.first_unconnected_data(), Some(vec![4, 5]));
    assert_eq!(message.items.first_connected_data(), None);
    let mut items = CommonPacketList::new();
    items.push(CpfItem::UnconnectedData(UnconnectedDataItem { data: vec![1] }));
    items.push(CpfItem::UnconnectedData(UnconnectedDataItem { data: vec![2] }));
    assert_eq!(items.first_unconnected_data(), Some(vec![1]));
}
