//! Tests of the bitmap header parser and the pixel codec: the three
//! header shapes, the content-length invariant, and the exact decodings.

use silverlib::bitmap::format::{FirmwareType, RawBitmapData, RawBitmapType};
use silverlib::bitmap::image::BitmapImage;
use silverlib::bitmap::pixels::{
    decode_argb4444, decode_argb8888, decode_gray1, decode_gray2, decode_gray4, decode_indexed16,
    decode_indexed8, decode_rgb565, separate_palette,
};
use silverlib::silver_error::SilverError;

/// An LCD-shape bitmap header (no resource-ID field) for 8-bit grayscale,
/// declaring the given content length, followed by the given bytes.
fn lcd_gray8(rendered_width: u16, height: u32, declared: u32, data: &[u8]) -> Vec<u8> {
    let mut bytes: Vec<u8> = Vec::new();
    bytes.extend_from_slice(&0x0008u16.to_le_bytes()); // tag: 8-bit grayscale
    bytes.extend_from_slice(&0u16.to_le_bytes()); // is_external
    bytes.extend_from_slice(&rendered_width.to_le_bytes());
    bytes.extend_from_slice(&8u16.to_le_bytes()); // color depth
    bytes.extend_from_slice(&0u32.to_le_bytes()); // padding
    bytes.extend_from_slice(&0u32.to_le_bytes()); // padding
    bytes.extend_from_slice(&height.to_le_bytes());
    bytes.extend_from_slice(&(rendered_width as u32).to_le_bytes()); // width (bytes)
    bytes.extend_from_slice(&declared.to_le_bytes()); // content length (LCD)
    bytes.extend_from_slice(data);
    bytes
}

/// A Nano-shape bitmap header carrying a resource ID.
fn nano_gray8(resource_id: u32, declared: u32, data: &[u8]) -> Vec<u8> {
    let mut bytes: Vec<u8> = Vec::new();
    bytes.extend_from_slice(&0x0008u16.to_le_bytes());
    bytes.extend_from_slice(&0u16.to_le_bytes());
    bytes.extend_from_slice(&2u16.to_le_bytes());
    bytes.extend_from_slice(&8u16.to_le_bytes());
    bytes.extend_from_slice(&0u32.to_le_bytes());
    bytes.extend_from_slice(&0u32.to_le_bytes());
    bytes.extend_from_slice(&1u32.to_le_bytes()); // height
    bytes.extend_from_slice(&2u32.to_le_bytes()); // width
    bytes.extend_from_slice(&resource_id.to_le_bytes());
    bytes.extend_from_slice(&declared.to_le_bytes());
    bytes.extend_from_slice(data);
    bytes
}

/// A monochrome-shape bitmap header: 1-bit pixels, height before width.
fn mono_gray1(height: u32, width: u32, declared: u32, data: &[u8]) -> Vec<u8> {
    let mut bytes: Vec<u8> = Vec::new();
    bytes.extend_from_slice(&0u16.to_le_bytes()); // zero sentinel
    bytes.extend_from_slice(&0u16.to_le_bytes()); // zero padding
    bytes.extend_from_slice(&0u32.to_le_bytes()); // zero padding
    bytes.extend_from_slice(&height.to_le_bytes());
    bytes.extend_from_slice(&width.to_le_bytes());
    bytes.extend_from_slice(&0u16.to_le_bytes()); // unknown field
    bytes.extend_from_slice(&0x0001u16.to_le_bytes()); // tag: 1-bit grayscale
    bytes.extend_from_slice(&0u32.to_le_bytes()); // zero padding
    bytes.extend_from_slice(&declared.to_le_bytes());
    bytes.extend_from_slice(data);
    bytes
}

#[test]
fn content_length_must_match_exactly() {
    // Exactly the declared two bytes: the parse succeeds.
    let ok = RawBitmapData::parse(lcd_gray8(2, 1, 2, &[1, 2])).expect("exact length parses");
    assert_eq!(ok.contents_length, 2);
    assert_eq!(ok.contents, vec![1, 2]);
    // One byte short or one byte long: InvalidBitmap.
    let short = RawBitmapData::parse(lcd_gray8(2, 1, 2, &[1]));
    assert!(matches!(short, Err(SilverError::InvalidBitmap)));
    let long = RawBitmapData::parse(lcd_gray8(2, 1, 2, &[1, 2, 3]));
    assert!(matches!(long, Err(SilverError::InvalidBitmap)));
}

#[test]
fn nano_discriminator_reads_resource_id() {
    // A field of exactly 0x0DAD0000 is classified as a resource ID.
    let parsed = RawBitmapData::parse(nano_gray8(0x0DAD0000, 2, &[9, 9])).expect("nano parses");
    assert_eq!(parsed.header_format, FirmwareType::Nano);
    assert_eq!(parsed.resource_id, 0x0DAD0000);
    assert_eq!(parsed.contents_length, 2);
    // A zero in the same position is also a resource ID.
    let parsed = RawBitmapData::parse(nano_gray8(0, 2, &[9, 9])).expect("nano parses");
    assert_eq!(parsed.header_format, FirmwareType::Nano);
    assert_eq!(parsed.resource_id, 0);
}

#[test]
fn lcd_discriminator_reads_content_length() {
    // A field of 0x00000010 is below the threshold: it is the content
    // length itself, and the resource ID defaults to zero.
    let parsed =
        RawBitmapData::parse(lcd_gray8(8, 2, 0x10, &[0u8; 16])).expect("lcd parses");
    assert_eq!(parsed.header_format, FirmwareType::LCD);
    assert_eq!(parsed.resource_id, 0);
    assert_eq!(parsed.contents_length, 16);
}

#[test]
fn monochrome_shape_parses() {
    let parsed = RawBitmapData::parse(mono_gray1(1, 8, 1, &[0xB1])).expect("mono parses");
    assert_eq!(parsed.header_format, FirmwareType::Monochrome);
    assert_eq!(parsed.image_type, RawBitmapType::Grayscale);
    assert_eq!(parsed.height, 1);
    assert_eq!(parsed.width, 8);
    assert_eq!(parsed.resource_id, 0);
    assert_eq!(parsed.contents, vec![0xB1]);
}

#[test]
fn nonzero_padding_is_invalid_bitmap() {
    let mut bytes = mono_gray1(1, 8, 1, &[0xB1]);
    bytes[4] = 1; // the zero padding after the sentinel
    assert!(matches!(
        RawBitmapData::parse(bytes),
        Err(SilverError::InvalidBitmap)
    ));
    let mut bytes = lcd_gray8(2, 1, 2, &[1, 2]);
    bytes[8] = 1; // the first padding word of the color shapes
    assert!(matches!(
        RawBitmapData::parse(bytes),
        Err(SilverError::InvalidBitmap)
    ));
}

#[test]
fn unknown_tag_is_unknown_bitmap() {
    let mut bytes = lcd_gray8(2, 1, 2, &[1, 2]);
    bytes[0] = 0x03; // no format carries tag 0x0003
    assert!(matches!(
        RawBitmapData::parse(bytes),
        Err(SilverError::UnknownBitmap)
    ));
}

#[test]
fn truncated_header_is_parse_error() {
    assert!(matches!(
        RawBitmapData::parse(vec![0x08]),
        Err(SilverError::ParseError)
    ));
    assert!(matches!(
        RawBitmapData::parse(vec![0x08, 0x00, 0x01]),
        Err(SilverError::ParseError)
    ));
}

#[test]
fn gray1_decodes_bit7_first() {
    // 0b10110001: bit 7 first, each bit scaled to 0 or 255.
    let out = decode_gray1(&vec![0b10110001]);
    assert_eq!(out, vec![255, 0, 255, 255, 0, 0, 0, 255]);
}

#[test]
fn gray2_scales_by_32() {
    // 0b11100100 holds the levels 3, 2, 1, 0.
    let out = decode_gray2(&vec![0b11100100]);
    assert_eq!(out, vec![96, 64, 32, 0]);
}

#[test]
fn gray4_high_nibble_first() {
    let out = decode_gray4(&vec![0xA5]);
    assert_eq!(out, vec![0xA0, 0x50]);
}

#[test]
fn rgb565_all_red_reaches_full_range() {
    // 0xF800 is all-red with the maximum red channel: exactly (255, 0, 0).
    let out = decode_rgb565(&vec![0x00, 0xF8]);
    assert_eq!(out, vec![255, 0, 0]);
    // 0x07E0 is all-green; 0x001F all-blue.
    let out = decode_rgb565(&vec![0xE0, 0x07]);
    assert_eq!(out, vec![0, 255, 0]);
    let out = decode_rgb565(&vec![0x1F, 0x00]);
    assert_eq!(out, vec![0, 0, 255]);
}

#[test]
fn argb4444_reorders_nibbles() {
    // On the wire: low byte B,G then high byte R,A.
    // 0x21 holds B=1, G=2; 0x43 holds R=3, A=4.
    let out = decode_argb4444(&vec![0x21, 0x43]);
    assert_eq!(out, vec![48, 32, 16, 64]);
}

#[test]
fn argb8888_reorders_bytes() {
    let out = decode_argb8888(&vec![10, 20, 30, 40]);
    assert_eq!(out, vec![30, 20, 10, 40]);
}

#[test]
fn indexed_palette_resolves_entries() {
    // Palette count 2, two BGRA entries, one index byte referencing
    // entry 1: the output is that entry, corrected to RGBA.
    let buffer = vec![
        2, 0, 0, 0, // palette count
        10, 20, 30, 40, // entry 0: B,G,R,A
        50, 60, 70, 80, // entry 1: B,G,R,A
        1, // one index
    ];
    let out = decode_indexed8(buffer).expect("index in bounds decodes");
    assert_eq!(out, vec![70, 60, 50, 80]);
}

#[test]
fn indexed16_reads_little_endian_indices() {
    let buffer = vec![
        2, 0, 0, 0, //
        10, 20, 30, 40, //
        50, 60, 70, 80, //
        1, 0, // index 1, little-endian
        0, 0, // index 0
    ];
    let out = decode_indexed16(buffer).expect("indices in bounds decode");
    assert_eq!(out, vec![70, 60, 50, 80, 30, 20, 10, 40]);
}

#[test]
fn out_of_bounds_index_is_invalid_bitmap() {
    let buffer = vec![
        1, 0, 0, 0, //
        10, 20, 30, 40, //
        1, // index beyond the single entry
    ];
    assert!(matches!(
        decode_indexed8(buffer),
        Err(SilverError::InvalidBitmap)
    ));
}

#[test]
fn truncated_palette_is_invalid_bitmap() {
    let buffer = vec![2, 0, 0, 0, 10, 20, 30, 40]; // one entry short
    assert!(matches!(
        separate_palette(buffer),
        Err(SilverError::InvalidBitmap)
    ));
}

#[test]
fn empty_payload_is_no_image() {
    // An empty bitmap resource is "no image present", not an error.
    let r = BitmapImage::parse(vec![]).expect("empty payload is not an error");
    assert!(r.is_none());
}

#[test]
fn zero_length_bitmap_is_no_image() {
    // A header declaring no content is also "no image present".
    let r = BitmapImage::parse(nano_gray8(0x0DAD0002, 0, &[])).expect("zero length is not an error");
    assert!(r.is_none());
}

#[test]
fn decoded_bitmap_is_png_encoded() {
    // A 2x1 8-bit grayscale bitmap comes back as a PNG.
    let img = BitmapImage::parse(lcd_gray8(2, 1, 2, &[0, 255]))
        .expect("parse should succeed")
        .expect("an image should be present");
    assert_eq!(img.height, 1);
    assert_eq!(img.format_type, RawBitmapType::GrayscaleEight);
    assert!(img.contents.len() > 8);
    assert_eq!(
        &img.contents[0..8],
        &[0x89, 0x50, 0x4E, 0x47, 0x0D, 0x0A, 0x1A, 0x0A]
    );
}

#[test]
fn monochrome_bitmap_decodes_to_image() {
    let img = BitmapImage::parse(mono_gray1(1, 8, 1, &[0xB1]))
        .expect("parse should succeed")
        .expect("an image should be present");
    assert_eq!(img.width, 8);
    assert_eq!(img.height, 1);
    assert_eq!(img.format_type, RawBitmapType::Grayscale);
    assert_eq!(
        &img.contents[0..8],
        &[0x89, 0x50, 0x4E, 0x47, 0x0D, 0x0A, 0x1A, 0x0A]
    );
}

#[test]
fn undersized_raster_is_image_error() {
    // A raster smaller than the dimensions ask for cannot be re-encoded:
    // two gray bytes cannot fill a four-pixel row.
    let r = BitmapImage::parse(lcd_gray8(4, 1, 2, &[1, 2]));
    assert!(matches!(r, Err(SilverError::ImageError)));
}

#[test]
fn bitmap_reduction_is_unsupported() {
    let img = BitmapImage::parse(lcd_gray8(2, 1, 2, &[0, 255]))
        .expect("parse should succeed")
        .expect("an image should be present");
    assert!(matches!(img.reduce(), Err(SilverError::ImageError)));
}
