use cip::common::{
    all_zero, be_u16_at, be_u32_at, le_u16_at, le_u32_at, le_u64_at, push_be_u16, push_be_u32,
    push_bytes, push_le_u16, push_le_u32, push_le_u64, push_words, push_zeros, read_le_u16,
    words_at, ParseError,
};

#[test]
fn little_endian_writers() {
    let mut out = vec![0xEE];
    push_le_u16(&mut out, 0x1234);
    push_le_u32(&mut out, 0x12345678);
    push_le_u64(&mut out, 0x0102030405060708);
    assert_eq!(
        out,
        vec![
            0xEE, 0x34, 0x12, 0x78, 0x56, 0x34, 0x12, 0x08, 0x07, 0x06, 0x05, 0x04, 0x03, 0x02,
            0x01,
        ]
    );
}

#[test]
fn big_endian_writers() {
    let mut out = Vec::new();
    push_be_u16(&mut out, 0x1234);
    push_be_u32(&mut out, 0x12345678);
    assert_eq!(out, vec![0x12, 0x34, 0x12, 0x34, 0x56, 0x78]);
}

#[test]
fn extreme_values_round_trip() {
    let mut out = Vec::new();
    push_le_u16(&mut out, u16::MAX);
    push_le_u32(&mut out, u32::MAX);
    push_le_u64(&mut out, u64::MAX);
    push_be_u16(&mut out, u16::MAX);
    push_be_u32(&mut out, u32::MAX);
    push_le_u64(&mut out, 0x8000000000000001);
    assert_eq!(le_u16_at(&out, 0), u16::MAX);
    assert_eq!(le_u32_at(&out, 2), u32::MAX);
    assert_eq!(le_u64_at(&out, 6), u64::MAX);
    assert_eq!(be_u16_at(&out, 14), u16::MAX);
    assert_eq!(be_u32_at(&out, 16), u32::MAX);
    assert_eq!(le_u64_at(&out, 20), 0x8000000000000001);
}

#[test]
fn readers_at_an_offset() {
    let bytes = [0xFF, 0x01, 0x02, 0x03, 0x04, 0x05, 0x06, 0x07, 0x08, 0xFF];
    assert_eq!(le_u16_at(&bytes, 1), 0x0201);
    assert_eq!(le_u32_at(&bytes, 1), 0x04030201);
    assert_eq!(le_u64_at(&bytes, 1), 0x0807060504030201);
    assert_eq!(be_u16_at(&bytes, 1), 0x0102);
    assert_eq!(be_u32_at(&bytes, 1), 0x01020304);
}

#[test]
fn read_le_u16_consumes_two_bytes() {
    let (rest, value) = read_le_u16(&[0x34, 0x12, 0x56]).unwrap();
    assert_eq!(value, 0x1234);
    assert_eq!(rest, &[0x56]);
    assert_eq!(read_le_u16(&[0x34]).unwrap_err(), ParseError::Incomplete(1));
    assert_eq!(read_le_u16(&[]).unwrap_err(), ParseError::Incomplete(2));
}

#[test]
fn words_are_little_endian() {
    let mut out = vec![0xEE];
    push_words(&mut out, &[0x1234, 0x00FF, 0xFF00]);
    assert_eq!(out, vec![0xEE, 0x34, 0x12, 0xFF, 0x00, 0x00, 0xFF]);
    assert_eq!(words_at(&out, 1, 3), vec![0x1234, 0x00FF, 0xFF00]);
    assert_eq!(words_at(&out, 3, 1), vec![0x00FF]);
    assert_eq!(words_at(&out, 0, 0), Vec::<u16>::new());
}

#[test]
fn zero_runs() {
    let mut out = vec![1];
    push_zeros(&mut out, 3);
    push_bytes(&mut out, &[2, 0]);
    assert_eq!(out, vec![1, 0, 0, 0, 2, 0]);
    assert!(all_zero(&out, 1, 4));
    assert!(!all_zero(&out, 0, 4));
    assert!(!all_zero(&out, 1, 5));
    assert!(all_zero(&out, 5, 6));
    assert!(all_zero(&out, 2, 2));
}
