//! Tests of the container codec: the write layout, the round trip, and the
//! header rejection rules.

use silverlib::database::{SilverDB, SilverResource, SilverResourceID, SilverSection};
use silverlib::format::SilverDBFormat;
use silverlib::section_content::SectionContent;
use silverlib::section_types::SectionType;
use silverlib::silver_error::SilverError;

fn le32(v: u32) -> [u8; 4] {
    v.to_le_bytes()
}

/// A small database: one string section with two resources.
fn sample_sections() -> Vec<SilverSection> {
    vec![
        SilverSection {
            section_type: SectionType::String,
            is_sequential: 1,
            resources: vec![
                SilverResource {
                    id: SilverResourceID(1),
                    contents: SectionContent::String(String::from("hello")),
                },
                SilverResource {
                    id: SilverResourceID(2),
                    contents: SectionContent::String(String::from("world!")),
                },
            ],
        },
        SilverSection {
            section_type: SectionType::Unknown(*b"ABCD"),
            is_sequential: 0,
            resources: vec![SilverResource {
                id: SilverResourceID(0x0DAD0001),
                contents: SectionContent::Unknown(vec![1, 2, 3, 4, 5]),
            }],
        },
        SilverSection {
            section_type: SectionType::Bitmap,
            is_sequential: 0,
            resources: vec![SilverResource {
                id: SilverResourceID(7),
                contents: SectionContent::Bitmap(vec![]),
            }],
        },
    ]
}

#[test]
fn database_round_trip() {
    let bytes = SilverDB::write(sample_sections()).expect("write should succeed");
    let db = SilverDB::read(bytes).expect("read of a written database should succeed");
    assert_eq!(db.sections.len(), 3);

    let strings = &db.sections[0];
    assert!(strings.section_type == SectionType::String);
    assert_eq!(strings.is_sequential, 1);
    assert_eq!(strings.resources.len(), 2);
    assert_eq!(strings.resources[0].id.0, 1);
    match &strings.resources[0].contents {
        SectionContent::String(s) => assert_eq!(s, "hello"),
        _ => panic!("expected string content"),
    }
    assert_eq!(strings.resources[1].id.0, 2);
    match &strings.resources[1].contents {
        SectionContent::String(s) => assert_eq!(s, "world!"),
        _ => panic!("expected string content"),
    }

    let unknown = &db.sections[1];
    assert!(unknown.section_type == SectionType::Unknown(*b"ABCD"));
    assert_eq!(unknown.is_sequential, 0);
    assert_eq!(unknown.resources[0].id.0, 0x0DAD0001);
    match &unknown.resources[0].contents {
        SectionContent::Unknown(raw) => assert_eq!(raw, &vec![1, 2, 3, 4, 5]),
        _ => panic!("expected opaque content"),
    }

    let bitmaps = &db.sections[2];
    assert!(bitmaps.section_type == SectionType::Bitmap);
    match &bitmaps.resources[0].contents {
        SectionContent::Bitmap(raw) => assert!(raw.is_empty()),
        _ => panic!("expected bitmap content"),
    }
}

#[test]
fn write_layout_is_exact() {
    // One string section with one resource, "hi" as a C string.
    let sections = vec![SilverSection {
        section_type: SectionType::String,
        is_sequential: 1,
        resources: vec![SilverResource {
            id: SilverResourceID(0x11223344),
            contents: SectionContent::String(String::from("hi")),
        }],
    }];
    let bytes = SilverDB::write(sections).expect("write should succeed");
    let mut expected: Vec<u8> = Vec::new();
    expected.extend_from_slice(&le32(3)); // version
    expected.extend_from_slice(&le32(40)); // header length: 12 + 16 + 12
    expected.extend_from_slice(&le32(1)); // section count
    expected.extend_from_slice(&[0x20, 0x72, 0x74, 0x53]); // 'Str ' stored reversed
    expected.extend_from_slice(&le32(1)); // resource count
    expected.extend_from_slice(&le32(1)); // sequential ids
    expected.extend_from_slice(&le32(28)); // resource table offset
    expected.extend_from_slice(&le32(0x11223344)); // resource id
    expected.extend_from_slice(&le32(0)); // data offset
    expected.extend_from_slice(&le32(3)); // data size: "hi" and its terminator
    expected.extend_from_slice(&[b'h', b'i', 0x00, 0x00]); // payload, padded to 4
    assert_eq!(bytes, expected);
}

#[test]
fn legacy_signature_takes_extra_padding() {
    // The one known legacy signature gets four extra bytes of alignment
    // after its payloads, and still round-trips.
    let sections = vec![SilverSection {
        section_type: SectionType::Unknown([0x4C, 0x56, 0x52, 0x53]),
        is_sequential: 0,
        resources: vec![SilverResource {
            id: SilverResourceID(9),
            contents: SectionContent::Unknown(vec![0xAA; 4]),
        }],
    }];
    let bytes = SilverDB::write(sections).expect("write should succeed");
    // Header (12) + one section header (16) + one table entry (12) +
    // payload (4) + the extra alignment (4).
    assert_eq!(bytes.len(), 48);
    assert_eq!(&bytes[44..48], &[0, 0, 0, 0]);
    let db = SilverDB::read(bytes).expect("read should succeed");
    match &db.sections[0].resources[0].contents {
        SectionContent::Unknown(raw) => assert_eq!(raw, &vec![0xAA; 4]),
        _ => panic!("expected opaque content"),
    }
}

/// A well-formed 44-byte image with the given version and section count:
/// one section without resources.
fn plausible_buffer(version: u32, section_count: u32) -> Vec<u8> {
    let mut bytes: Vec<u8> = Vec::new();
    bytes.extend_from_slice(&le32(version));
    bytes.extend_from_slice(&le32(28));
    bytes.extend_from_slice(&le32(section_count));
    bytes.extend_from_slice(&[0x20, 0x72, 0x74, 0x53]);
    bytes.extend_from_slice(&le32(0)); // no resources
    bytes.extend_from_slice(&le32(0));
    bytes.extend_from_slice(&le32(28));
    bytes.extend_from_slice(&[0u8; 16]); // slack so the buffer reaches 44 bytes
    bytes
}

#[test]
fn short_buffer_is_invalid_header() {
    let r = SilverDBFormat::read(vec![3, 0, 0, 0]);
    assert!(matches!(r, Err(SilverError::InvalidHeader)));
    let r = SilverDBFormat::read(vec![0u8; 39]);
    assert!(matches!(r, Err(SilverError::InvalidHeader)));
}

#[test]
fn wrong_version_is_invalid_header() {
    let r = SilverDBFormat::read(plausible_buffer(2, 1));
    assert!(matches!(r, Err(SilverError::InvalidHeader)));
    let r = SilverDBFormat::read(plausible_buffer(4, 1));
    assert!(matches!(r, Err(SilverError::InvalidHeader)));
}

#[test]
fn bad_section_count_is_invalid_header() {
    let r = SilverDBFormat::read(plausible_buffer(3, 0));
    assert!(matches!(r, Err(SilverError::InvalidHeader)));
    let r = SilverDBFormat::read(plausible_buffer(3, 129));
    assert!(matches!(r, Err(SilverError::InvalidHeader)));
}

#[test]
fn undersized_header_length_is_invalid_header() {
    // The declared header length must cover the header and section table.
    let mut bytes = plausible_buffer(3, 1);
    bytes[4..8].copy_from_slice(&le32(27)); // one byte short of 12 + 16
    let r = SilverDBFormat::read(bytes);
    assert!(matches!(r, Err(SilverError::InvalidHeader)));
}

#[test]
fn plausible_header_reads() {
    let db = SilverDBFormat::read(plausible_buffer(3, 1)).expect("read should succeed");
    assert_eq!(db.header.version, 3);
    assert_eq!(db.header.section_count, 1);
    assert_eq!(db.sections.len(), 1);
    assert_eq!(db.sections[0].resources.len(), 0);
}

#[test]
fn out_of_bounds_resource_table_is_parse_error() {
    let mut bytes: Vec<u8> = Vec::new();
    bytes.extend_from_slice(&le32(3));
    bytes.extend_from_slice(&le32(40));
    bytes.extend_from_slice(&le32(1));
    bytes.extend_from_slice(&[0x20, 0x72, 0x74, 0x53]);
    bytes.extend_from_slice(&le32(1)); // one resource
    bytes.extend_from_slice(&le32(0));
    bytes.extend_from_slice(&le32(0xFFFF)); // table far past the buffer
    bytes.extend_from_slice(&[0u8; 16]);
    let r = SilverDBFormat::read(bytes);
    assert!(matches!(r, Err(SilverError::ParseError)));
}

#[test]
fn nonprintable_magic_is_invalid_header() {
    let mut bytes = plausible_buffer(3, 1);
    bytes[12] = 0x01; // below the printable range
    let r = SilverDBFormat::read(bytes);
    assert!(matches!(r, Err(SilverError::InvalidHeader)));
}

#[test]
fn bad_sequential_flag_is_invalid_header() {
    let mut bytes = plausible_buffer(3, 1);
    bytes[20] = 2; // the flag must be exactly 0 or 1
    let r = SilverDBFormat::read(bytes);
    assert!(matches!(r, Err(SilverError::InvalidHeader)));
}

#[test]
fn invalid_string_payload_is_content_parse_failure() {
    // A string section whose resource holds invalid UTF-8.
    let mut bytes: Vec<u8> = Vec::new();
    bytes.extend_from_slice(&le32(3));
    bytes.extend_from_slice(&le32(40)); // 12 + 16 + 12
    bytes.extend_from_slice(&le32(1));
    bytes.extend_from_slice(&[0x20, 0x72, 0x74, 0x53]);
    bytes.extend_from_slice(&le32(1));
    bytes.extend_from_slice(&le32(0));
    bytes.extend_from_slice(&le32(28));
    bytes.extend_from_slice(&le32(5)); // id
    bytes.extend_from_slice(&le32(0)); // data offset
    bytes.extend_from_slice(&le32(2)); // data size
    bytes.extend_from_slice(&[0xFF, 0x00, 0x00, 0x00]); // invalid UTF-8, padded
    let r = SilverDB::read(bytes);
    assert!(matches!(r, Err(SilverError::ContentParseFailure)));
}
