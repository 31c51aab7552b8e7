//! Tests of the little-endian byte cursor.

use silverlib::little_helper::LittleHelper;
use silverlib::silver_error::SilverError;

#[test]
fn values_read_back_as_written() {
    let mut w = LittleHelper::new();
    w.write_u32_le(0x11223344);
    w.write_u32_le(0xDEADBEEF);
    w.write_magic([1, 2, 3, 4]);
    let bytes = w.contents();
    assert_eq!(
        bytes,
        vec![0x44, 0x33, 0x22, 0x11, 0xEF, 0xBE, 0xAD, 0xDE, 1, 2, 3, 4]
    );
    let mut r = LittleHelper::from_vec(bytes);
    assert_eq!(r.read_u32_le().unwrap(), 0x11223344);
    assert_eq!(r.read_u16_le().unwrap(), 0xBEEF);
    assert_eq!(r.read_u16_le().unwrap(), 0xDEAD);
    assert_eq!(r.read_magic().unwrap(), [1, 2, 3, 4]);
    assert_eq!(r.pos_as_u32(), 12);
}

#[test]
fn reads_past_the_end_fail() {
    let mut r = LittleHelper::from_vec(vec![1, 2, 3]);
    assert!(matches!(r.read_u32_le(), Err(SilverError::ParseError)));
    assert_eq!(r.read_u16_le().unwrap(), 0x0201);
    assert!(matches!(r.read_u16_le(), Err(SilverError::ParseError)));
    r.seek_to_u32(100);
    assert!(matches!(r.read_length(1), Err(SilverError::ParseError)));
}

#[test]
fn read_length_returns_exact_slices() {
    let mut r = LittleHelper::from_vec(vec![9, 8, 7, 6, 5]);
    r.seek_to_u32(1);
    assert_eq!(r.read_length(3).unwrap(), vec![8, 7, 6]);
    assert_eq!(r.pos_as_u32(), 4);
    assert_eq!(r.len(), 5);
}

#[test]
fn writes_at_a_seek_overwrite_in_place() {
    let mut w = LittleHelper::new();
    w.write_u32_le(0);
    w.write_u32_le(0xAABBCCDD);
    w.seek_to_u32(0);
    w.write_u32_le(0x00000028);
    let bytes = w.contents();
    assert_eq!(bytes, vec![0x28, 0, 0, 0, 0xDD, 0xCC, 0xBB, 0xAA]);
}

#[test]
fn padding_aligns_to_four_bytes() {
    let mut w = LittleHelper::new();
    w.write_length(&[1, 2, 3]);
    w.write_padding(3);
    assert_eq!(w.contents(), vec![1, 2, 3, 0]);
    let mut w = LittleHelper::new();
    w.write_length(&[1, 2, 3, 4]);
    w.write_padding(4);
    assert_eq!(w.contents(), vec![1, 2, 3, 4]);
    let mut w = LittleHelper::new();
    w.write_length(&[1]);
    w.write_padding(1);
    assert_eq!(w.contents(), vec![1, 0, 0, 0]);
}
