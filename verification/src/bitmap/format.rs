//! The bitmap resource sub-format: three historical header shapes
//! (monochrome, Nano, LCD), discriminated by a leading zero sentinel and a
//! numeric-range heuristic, followed by the raw pixel buffer.

use vstd::prelude::*;

use crate::little_helper::{le16_at, le32_at, LittleHelper};
use crate::silver_error::SilverError;

verus! {

/// Possible representations of bitmap data, keyed by the header's
/// pixel-format tag.
#[derive(PartialEq, Eq, Structural, Clone, Copy, Debug)]
pub enum RawBitmapType {
    /// One-bit grayscale (tag 0x0001).
    Grayscale,
    /// Two-bit grayscale (tag 0x0002).
    GrayscaleTwo,
    /// Four-bit grayscale (tag 0x0004).
    GrayscaleFour,
    /// Eight-bit grayscale (tag 0x0008).
    GrayscaleEight,
    /// 16-bit RGB565 (tag 0x0565).
    Rgb565,
    /// 16-bit ARGB4444 (tag 0x1444).
    Argb4444,
    /// 32-bit ARGB8888 (tag 0x1888).
    Argb8888,
    /// Eight-bit palette-indexed color (tag 0x0064).
    RgbEight,
    /// Sixteen-bit palette-indexed color (tag 0x0065).
    RgbSixteen,
}

/// The pixel-format type a tag value maps to, if it is recognized.
pub open spec fn spec_bitmap_type(v: u16) -> Option<RawBitmapType> {
    if v == 0x0001 {
        Some(RawBitmapType::Grayscale)
    } else if v == 0x0002 {
        Some(RawBitmapType::GrayscaleTwo)
    } else if v == 0x0004 {
        Some(RawBitmapType::GrayscaleFour)
    } else if v == 0x0008 {
        Some(RawBitmapType::GrayscaleEight)
    } else if v == 0x0565 {
        Some(RawBitmapType::Rgb565)
    } else if v == 0x1444 {
        Some(RawBitmapType::Argb4444)
    } else if v == 0x1888 {
        Some(RawBitmapType::Argb8888)
    } else if v == 0x0064 {
        Some(RawBitmapType::RgbEight)
    } else if v == 0x0065 {
        Some(RawBitmapType::RgbSixteen)
    } else {
        None
    }
}

impl RawBitmapType {
    /// Maps a header tag value to its pixel-format type; an unrecognized
    /// tag is an `UnknownBitmap` error.
    pub fn from_tag(v: u16) -> (r: Result<Self, SilverError>)
        ensures
            r is Ok <==> spec_bitmap_type(v) is Some,
            r matches Ok(t) ==> spec_bitmap_type(v) == Some(t),
            r is Err ==> r == Err::<RawBitmapType, SilverError>(SilverError::UnknownBitmap),
    {
        match v {
            0x0001 => Ok(RawBitmapType::Grayscale),
            0x0002 => Ok(RawBitmapType::GrayscaleTwo),
            0x0004 => Ok(RawBitmapType::GrayscaleFour),
            0x0008 => Ok(RawBitmapType::GrayscaleEight),
            0x0565 => Ok(RawBitmapType::Rgb565),
            0x1444 => Ok(RawBitmapType::Argb4444),
            0x1888 => Ok(RawBitmapType::Argb8888),
            0x0064 => Ok(RawBitmapType::RgbEight),
            0x0065 => Ok(RawBitmapType::RgbSixteen),
            _ => Err(SilverError::UnknownBitmap),
        }
    }
}

/// The firmware generation a bitmap header's shape belongs to.
#[derive(PartialEq, Eq, Structural, Clone, Copy, Debug)]
pub enum FirmwareType {
    /// A bitmap header containing a valid resource ID, typically on Nanos.
    Nano,
    /// A bitmap header lacking a valid resource ID, typically on LCD iPods.
    LCD,
    /// A bitmap header oriented for monochrome iPods.
    Monochrome,
}

/// A somewhat raw representation of bitmap data within a resource entry's
/// raw contents.
pub struct RawBitmapData {
    /// The type of this bitmap image.
    pub image_type: RawBitmapType,
    /// This field's exact usage is unknown: it was observed to be one
    /// within external images and zero within internal bitmaps.
    pub is_external: u16,
    /// The width this bitmap image will be rendered at.
    /// On monochrome devices, this is zero as it does not exist.
    pub rendered_width: u16,
    /// The color depth associated with this image.
    pub color_depth: u16,
    /// The width of this bitmap image.
    pub width: u32,
    /// The height of this bitmap image.
    pub height: u32,
    /// The resource ID specified by this bitmap image; zero on header
    /// shapes that never carried one.
    pub resource_id: u32,
    /// The length of contents, as provided by the header.
    pub contents_length: u32,
    /// The raw, binary contents of the bitmap image.
    pub contents: Vec<u8>,
    /// Which of the header shapes this bitmap was read from.
    pub header_format: FirmwareType,
}

/// The mathematical shape of a parsed bitmap resource.
pub ghost struct RawBitmapModel {
    pub image_type: RawBitmapType,
    pub is_external: u16,
    pub rendered_width: u16,
    pub color_depth: u16,
    pub width: u32,
    pub height: u32,
    pub resource_id: u32,
    pub contents_length: u32,
    pub contents: Seq<u8>,
    pub header_format: FirmwareType,
}

impl View for RawBitmapData {
    type V = RawBitmapModel;

    open spec fn view(&self) -> RawBitmapModel {
        RawBitmapModel {
            image_type: self.image_type,
            is_external: self.is_external,
            rendered_width: self.rendered_width,
            color_depth: self.color_depth,
            width: self.width,
            height: self.height,
            resource_id: self.resource_id,
            contents_length: self.contents_length,
            contents: self.contents@,
            header_format: self.header_format,
        }
    }
}

/// The Nano-vs-LCD discriminator: a value of 0x0DAD0000 or above, or
/// exactly zero, is read as a resource ID (the Nano shape, whose content
/// length follows); anything else is already the content length (the LCD
/// shape, which never carried a resource-ID field).
pub open spec fn nano_shape(v: u32) -> bool {
    v >= 0x0DAD0000 || v == 0
}

/// How many bytes of `b` its bitmap header occupies, by shape: 28 for the
/// monochrome and LCD shapes, 32 for the Nano shape with its extra
/// resource-ID word.
pub open spec fn spec_header_size(b: Seq<u8>) -> int {
    if le16_at(b, 0) == 0 {
        28
    } else if nano_shape(le32_at(b, 24)) {
        32
    } else {
        28
    }
}

/// Whether `b` begins with a bitmap header that the parser understands:
/// long enough for its shape, zero where the shape demands zero padding,
/// and carrying a recognized pixel-format tag.
pub open spec fn bitmap_header_ok(b: Seq<u8>) -> bool {
    if b.len() < 2 {
        false
    } else if le16_at(b, 0) == 0 {
        &&& b.len() >= 28
        &&& le16_at(b, 2) == 0
        &&& le32_at(b, 4) == 0
        &&& spec_bitmap_type(le16_at(b, 18)) is Some
        &&& le32_at(b, 20) == 0
    } else {
        &&& spec_bitmap_type(le16_at(b, 0)) is Some
        &&& b.len() >= spec_header_size(b)
        &&& le32_at(b, 8) == 0
        &&& le32_at(b, 12) == 0
    }
}

/// The content length the header declares.
pub open spec fn spec_declared_length(b: Seq<u8>) -> u32 {
    if le16_at(b, 0) == 0 {
        le32_at(b, 24)
    } else if nano_shape(le32_at(b, 24)) {
        le32_at(b, 28)
    } else {
        le32_at(b, 24)
    }
}

/// What parsing a bitmap resource's raw bytes yields, step by step in the
/// order the single-pass parser reads and checks fields.
pub open spec fn spec_parse_bitmap(b: Seq<u8>) -> Result<RawBitmapModel, SilverError> {
    if b.len() < 2 {
        Err(SilverError::ParseError)
    } else if le16_at(b, 0) == 0 {
        // The monochrome shape, for older firmware.
        if b.len() < 8 {
            Err(SilverError::ParseError)
        } else if le16_at(b, 2) != 0 || le32_at(b, 4) != 0 {
            Err(SilverError::InvalidBitmap)
        } else if b.len() < 20 {
            Err(SilverError::ParseError)
        } else if spec_bitmap_type(le16_at(b, 18)) is None {
            Err(SilverError::UnknownBitmap)
        } else if b.len() < 24 {
            Err(SilverError::ParseError)
        } else if le32_at(b, 20) != 0 {
            Err(SilverError::InvalidBitmap)
        } else if b.len() < 28 {
            Err(SilverError::ParseError)
        } else if le32_at(b, 24) != b.len() - 28 {
            Err(SilverError::InvalidBitmap)
        } else {
            Ok(
                RawBitmapModel {
                    image_type: spec_bitmap_type(le16_at(b, 18))->0,
                    is_external: 0,
                    rendered_width: 0,
                    color_depth: 0,
                    width: le32_at(b, 12),
                    height: le32_at(b, 8),
                    resource_id: 0,
                    contents_length: le32_at(b, 24),
                    contents: b.subrange(28, b.len() as int),
                    header_format: FirmwareType::Monochrome,
                },
            )
        }
    } else {
        // The Nano and LCD shapes, whose first field is the tag itself.
        if spec_bitmap_type(le16_at(b, 0)) is None {
            Err(SilverError::UnknownBitmap)
        } else if b.len() < 16 {
            Err(SilverError::ParseError)
        } else if le32_at(b, 8) != 0 || le32_at(b, 12) != 0 {
            Err(SilverError::InvalidBitmap)
        } else if b.len() < 28 {
            Err(SilverError::ParseError)
        } else if nano_shape(le32_at(b, 24)) {
            if b.len() < 32 {
                Err(SilverError::ParseError)
            } else if le32_at(b, 28) != b.len() - 32 {
                Err(SilverError::InvalidBitmap)
            } else {
                Ok(
                    RawBitmapModel {
                        image_type: spec_bitmap_type(le16_at(b, 0))->0,
                        is_external: le16_at(b, 2),
                        rendered_width: le16_at(b, 4),
                        color_depth: le16_at(b, 6),
                        width: le32_at(b, 20),
                        height: le32_at(b, 16),
                        resource_id: le32_at(b, 24),
                        contents_length: le32_at(b, 28),
                        contents: b.subrange(32, b.len() as int),
                        header_format: FirmwareType::Nano,
                    },
                )
            }
        } else if le32_at(b, 24) != b.len() - 28 {
            Err(SilverError::InvalidBitmap)
        } else {
            Ok(
                RawBitmapModel {
                    image_type: spec_bitmap_type(le16_at(b, 0))->0,
                    is_external: le16_at(b, 2),
                    rendered_width: le16_at(b, 4),
                    color_depth: le16_at(b, 6),
                    width: le32_at(b, 20),
                    height: le32_at(b, 16),
                    resource_id: 0,
                    contents_length: le32_at(b, 24),
                    contents: b.subrange(28, b.len() as int),
                    header_format: FirmwareType::LCD,
                },
            )
        }
    }
}

/// The content-length invariant: over a valid header claiming length L,
/// parsing succeeds exactly when the resource holds exactly L trailing
/// bytes, and any other trailing count is an `InvalidBitmap` error.
pub proof fn lemma_bitmap_content_length(b: Seq<u8>)
    requires
        bitmap_header_ok(b),
    ensures
        spec_parse_bitmap(b) is Ok <==> b.len() - spec_header_size(b) == spec_declared_length(b),
        b.len() - spec_header_size(b) != spec_declared_length(b) ==> spec_parse_bitmap(b) == Err::<
            RawBitmapModel,
            SilverError,
        >(SilverError::InvalidBitmap),
        spec_parse_bitmap(b) matches Ok(d) ==> d.contents_length == spec_declared_length(b)
            && d.contents == b.subrange(spec_header_size(b), b.len() as int),
{
}

impl RawBitmapData {
    /// Parses a resource entry's raw contents to our representation.
    ///
    /// One 16-bit field is read first: zero marks the monochrome shape; a
    /// nonzero value is the pixel-format tag of the Nano and LCD shapes,
    /// told apart by the range heuristic on the word after the dimensions.
    /// The bytes remaining after the header must match the declared
    /// content length exactly.
    pub fn parse(raw_data: Vec<u8>) -> (r: Result<Self, SilverError>)
        requires
            raw_data@.len() <= u32::MAX,
        ensures
            r is Ok <==> spec_parse_bitmap(raw_data@) is Ok,
            r matches Ok(d) ==> Ok::<RawBitmapModel, SilverError>(d@) == spec_parse_bitmap(
                raw_data@,
            ),
            r matches Err(e) ==> Err::<RawBitmapModel, SilverError>(e) == spec_parse_bitmap(
                raw_data@,
            ),
    {
        let ghost b: Seq<u8> = raw_data@;
        let resource_length: u32 = raw_data.len() as u32;
        let mut helper = LittleHelper::from_vec(raw_data);
        // Read our first field. In older (monochrome) firmware the first
        // 16 bits are zero and the image type is specified later on; in
        // later firmware the first 16 bits are the image type.
        let first_u16: u16 = match helper.read_u16_le() {
            Ok(v) => v,
            Err(e) => {
                return Err(e);
            },
        };
        let image_type: RawBitmapType;
        let mut is_external: u16 = 0;
        let mut rendered_width: u16 = 0;
        let mut color_depth: u16 = 0;
        let height: u32;
        let width: u32;
        let mut resource_id: u32 = 0;
        let contents_length: u32;
        let header_format: FirmwareType;
        if first_u16 == 0 {
            // As our first field was zero, this is the monochrome shape.
            // The next 16-bit and 32-bit fields should also be zero.
            let padding_u16: u16 = match helper.read_u16_le() {
                Ok(v) => v,
                Err(e) => {
                    return Err(e);
                },
            };
            let padding_u32: u32 = match helper.read_u32_le() {
                Ok(v) => v,
                Err(e) => {
                    return Err(e);
                },
            };
            if padding_u16 != 0 || padding_u32 != 0 {
                // A nonzero sentinel marks a header shape we do not
                // understand; fail rather than guess.
                return Err(SilverError::InvalidBitmap);
            }
            // We then have height and width, in that unusual order.
            height = match helper.read_u32_le() {
                Ok(v) => v,
                Err(e) => {
                    return Err(e);
                },
            };
            width = match helper.read_u32_le() {
                Ok(v) => v,
                Err(e) => {
                    return Err(e);
                },
            };
            // One field whose meaning remains unknown.
            let _unknown_value: u16 = match helper.read_u16_le() {
                Ok(v) => v,
                Err(e) => {
                    return Err(e);
                },
            };
            // Our image type is in the following field.
            let presumably_image_type: u16 = match helper.read_u16_le() {
                Ok(v) => v,
                Err(e) => {
                    return Err(e);
                },
            };
            image_type = match RawBitmapType::from_tag(presumably_image_type) {
                Ok(t) => t,
                Err(e) => {
                    return Err(e);
                },
            };
            // Following that, we again have padding.
            let padding_two: u32 = match helper.read_u32_le() {
                Ok(v) => v,
                Err(e) => {
                    return Err(e);
                },
            };
            if padding_two != 0 {
                return Err(SilverError::InvalidBitmap);
            }
            // Our content length follows, concluding the header.
            contents_length = match helper.read_u32_le() {
                Ok(v) => v,
                Err(e) => {
                    return Err(e);
                },
            };
            header_format = FirmwareType::Monochrome;
        } else {
            // As this is a Nano or LCD shape, our first field is the type.
            image_type = match RawBitmapType::from_tag(first_u16) {
                Ok(t) => t,
                Err(e) => {
                    return Err(e);
                },
            };
            is_external = match helper.read_u16_le() {
                Ok(v) => v,
                Err(e) => {
                    return Err(e);
                },
            };
            rendered_width = match helper.read_u16_le() {
                Ok(v) => v,
                Err(e) => {
                    return Err(e);
                },
            };
            color_depth = match helper.read_u16_le() {
                Ok(v) => v,
                Err(e) => {
                    return Err(e);
                },
            };
            // Two words of padding; known firmware always holds zero
            // here, so anything else is a shape we do not understand.
            let padding_one: u32 = match helper.read_u32_le() {
                Ok(v) => v,
                Err(e) => {
                    return Err(e);
                },
            };
            let padding_two: u32 = match helper.read_u32_le() {
                Ok(v) => v,
                Err(e) => {
                    return Err(e);
                },
            };
            if padding_one != 0 || padding_two != 0 {
                return Err(SilverError::InvalidBitmap);
            }
            height = match helper.read_u32_le() {
                Ok(v) => v,
                Err(e) => {
                    return Err(e);
                },
            };
            width = match helper.read_u32_le() {
                Ok(v) => v,
                Err(e) => {
                    return Err(e);
                },
            };
            // Older LCD firmware lacks the resource-ID field and skips
            // directly to the content length. Where resource IDs are
            // present they read 0x0DAD0000 or greater, or exactly zero
            // for some hardcoded images; infer which field this is.
            let next_u32: u32 = match helper.read_u32_le() {
                Ok(v) => v,
                Err(e) => {
                    return Err(e);
                },
            };
            if next_u32 >= 0x0DAD0000 || next_u32 == 0 {
                // We'll fill in the resource ID, then the content length.
                resource_id = next_u32;
                contents_length = match helper.read_u32_le() {
                    Ok(v) => v,
                    Err(e) => {
                        return Err(e);
                    },
                };
                header_format = FirmwareType::Nano;
            } else {
                contents_length = next_u32;
                header_format = FirmwareType::LCD;
            }
        }
        // Ensure that we have exactly enough data left for the declared
        // content length.
        let remaining_data: u32 = resource_length - helper.pos_as_u32();
        if contents_length != remaining_data {
            return Err(SilverError::InvalidBitmap);
        }
        let contents: Vec<u8> = match helper.read_length(contents_length) {
            Ok(v) => v,
            Err(e) => {
                return Err(e);
            },
        };
        let result = RawBitmapData {
            image_type,
            is_external,
            rendered_width,
            color_depth,
            width,
            height,
            resource_id,
            contents_length,
            contents,
            header_format,
        };
        proof {
            assert(result@ =~= spec_parse_bitmap(b)->Ok_0);
        }
        Ok(result)
    }
}

} // verus!
