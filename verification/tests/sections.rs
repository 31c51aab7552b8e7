//! Tests of the section type registry and the content interpreter.

use silverlib::section_content::{create_c_string, process_c_string, SectionContent};
use silverlib::section_types::SectionType;
use silverlib::silver_error::SilverError;

#[test]
fn magic_maps_to_types_and_back() {
    let known: [(SectionType, [u8; 4]); 7] = [
        (SectionType::String, [0x20, 0x72, 0x74, 0x53]),
        (SectionType::StringTranslation, [0x54, 0x72, 0x74, 0x53]),
        (SectionType::DateTimeLocale, [0x6D, 0x54, 0x44, 0x4C]),
        (SectionType::Bitmap, [0x70, 0x61, 0x4D, 0x42]),
        (SectionType::SilverBitmap, [0x4D, 0x42, 0x74, 0x53]),
        (SectionType::AnimControllerString, [0x54, 0x53, 0x43, 0x41]),
        (SectionType::SilverControllerString, [0x54, 0x53, 0x43, 0x53]),
    ];
    for (ty, magic) in known {
        assert!(SectionType::from_magic(magic) == ty);
        assert_eq!(ty.to_magic(), magic);
    }
    let odd: [u8; 4] = *b"QQQQ";
    assert!(SectionType::from_magic(odd) == SectionType::Unknown(odd));
    assert_eq!(SectionType::Unknown(odd).to_magic(), odd);
}

#[test]
fn names_are_byte_reversed_magic() {
    assert_eq!(SectionType::String.to_name(), "Str ");
    assert_eq!(SectionType::Bitmap.to_name(), "BMap");
    assert_eq!(SectionType::DateTimeLocale.to_name(), "LDTm");
    assert_eq!(SectionType::Unknown(*b"DCBA").to_name(), "ABCD");
}

#[test]
fn names_map_back_to_types() {
    let ty = SectionType::from_name(String::from("Str ")).expect("four characters");
    assert!(ty == SectionType::String);
    let ty = SectionType::from_name(String::from("BMap")).expect("four characters");
    assert!(ty == SectionType::Bitmap);
    let r = SectionType::from_name(String::from("abc"));
    assert!(matches!(r, Err(SilverError::InvalidMagic)));
    let r = SectionType::from_name(String::from("abcde"));
    assert!(matches!(r, Err(SilverError::InvalidMagic)));
}

#[test]
fn c_strings_round_trip() {
    let bytes = create_c_string(String::from("nano"));
    assert_eq!(bytes, vec![b'n', b'a', b'n', b'o', 0]);
    let back = process_c_string(bytes).expect("a created C string processes");
    assert_eq!(back, "nano");
}

#[test]
fn c_string_of_empty_buffer_fails() {
    let r = process_c_string(vec![]);
    assert!(matches!(r, Err(SilverError::ContentParseFailure)));
}

#[test]
fn c_string_of_invalid_utf8_fails() {
    let r = process_c_string(vec![0xFF, 0xFE, 0x00]);
    assert!(matches!(r, Err(SilverError::ContentParseFailure)));
}

#[test]
fn c_string_with_invalid_terminator_byte_is_rejected() {
    // The whole buffer must interpret as UTF-8, terminator included: a
    // malformed trailing byte is not silently coerced away.
    let r = process_c_string(vec![0x41, 0xFF]);
    assert!(matches!(r, Err(SilverError::ContentParseFailure)));
}

#[test]
fn c_string_ending_mid_character_is_rejected() {
    // A valid buffer whose single trailing byte splits a two-byte
    // character cannot drop exactly one byte and stay readable.
    let r = process_c_string(vec![0x61, 0xC3, 0xA9]);
    assert!(matches!(r, Err(SilverError::ContentParseFailure)));
}

#[test]
fn c_string_drops_exactly_one_trailing_byte() {
    // Even without a null terminator, exactly one trailing byte goes.
    let s = process_c_string(vec![b'a', b'b']).expect("valid UTF-8 after trimming");
    assert_eq!(s, "a");
}

#[test]
fn parse_section_dispatches_on_kind() {
    let c = SectionContent::parse_section(&SectionType::String, vec![b'h', b'i', 0])
        .expect("a valid C string parses");
    match c {
        SectionContent::String(s) => assert_eq!(s, "hi"),
        _ => panic!("expected string content"),
    }
    let c = SectionContent::parse_section(&SectionType::Bitmap, vec![1, 2])
        .expect("bitmap bytes are deferred");
    assert!(matches!(c, SectionContent::Bitmap(_)));
    let c = SectionContent::parse_section(&SectionType::DateTimeLocale, vec![3])
        .expect("locale bytes stay opaque");
    assert!(matches!(c, SectionContent::DateTimeLocale(_)));
    // The hardcoded-bitmap kind and unrecognized kinds stay opaque.
    let c = SectionContent::parse_section(&SectionType::SilverBitmap, vec![4])
        .expect("bytes stay opaque");
    assert!(matches!(c, SectionContent::Unknown(_)));
    let r = SectionContent::parse_section(&SectionType::String, vec![0xFF, 0x00]);
    assert!(matches!(r, Err(SilverError::ContentParseFailure)));
}

#[test]
fn reduce_section_inverts_parse() {
    let raw = SectionContent::reduce_section(SectionContent::String(String::from("hi")))
        .expect("reduction cannot fail");
    assert_eq!(raw, vec![b'h', b'i', 0]);
    let raw = SectionContent::reduce_section(SectionContent::Unknown(vec![9, 8]))
        .expect("reduction cannot fail");
    assert_eq!(raw, vec![9, 8]);
    let raw = SectionContent::reduce_section(SectionContent::Bitmap(vec![7]))
        .expect("reduction cannot fail");
    assert_eq!(raw, vec![7]);
}

#[test]
fn error_descriptions_name_each_kind() {
    assert!(SilverError::InvalidHeader.describe().contains("header"));
    assert!(SilverError::InvalidBitmap.describe().contains("bitmap"));
    assert!(SilverError::UnknownBitmap.describe().contains("format"));
    assert!(SilverError::InvalidMagic.describe().contains("magic"));
}
