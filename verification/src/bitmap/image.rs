//! A higher-level representation of bitmap imagery: the decoded raster,
//! re-encoded into a PNG for lossless interchange.

use vstd::prelude::*;

use crate::bitmap::format::{FirmwareType, RawBitmapData, RawBitmapModel, RawBitmapType};
use crate::bitmap::format::spec_parse_bitmap;
use crate::bitmap::pixels::{
    decode_argb4444, decode_argb8888, decode_gray1, decode_gray2, decode_gray4, decode_indexed8,
    decode_indexed16, spec_argb4444, spec_argb8888, spec_gray1, spec_gray2, spec_gray4,
    spec_indexed8, spec_indexed16, spec_rgb565, decode_rgb565,
};
use crate::silver_error::SilverError;

verus! {

/// The PNG encoding of a single-channel gray raster of the given size.
pub uninterp spec fn png_gray(width: u32, height: u32, pixels: Seq<u8>) -> Seq<u8>;

/// The PNG encoding of a three-channel RGB raster of the given size.
pub uninterp spec fn png_rgb(width: u32, height: u32, pixels: Seq<u8>) -> Seq<u8>;

/// The PNG encoding of a four-channel RGBA raster of the given size.
pub uninterp spec fn png_rgba(width: u32, height: u32, pixels: Seq<u8>) -> Seq<u8>;

/// Relies on `image::GrayImage::from_raw` and `ImageBuffer::write_to`
/// with the PNG format: the encoding is a function of the dimensions and
/// pixel bytes alone; `from_raw` accepts exactly the buffers that cover
/// one byte per raster pixel, and the PNG encoder refuses only a zero
/// width or height.
#[verifier::external_body]
fn encode_gray_png(width: u32, height: u32, pixels: Vec<u8>) -> (r: Result<Vec<u8>, SilverError>)
    ensures
        r is Ok <==> (1 <= width && 1 <= height && pixels@.len() >= (width as int) * (height as int)),
        r matches Ok(v) ==> v@ == png_gray(width, height, pixels@),
        r matches Err(e) ==> e == SilverError::ImageError,
{
    let img = match image::GrayImage::from_raw(width, height, pixels) {
        Some(v) => v,
        None => return Err(SilverError::ImageError),
    };
    let mut png_writer = std::io::Cursor::new(Vec::new());
    match img.write_to(&mut png_writer, image::ImageFormat::Png) {
        Ok(()) => Ok(png_writer.into_inner()),
        Err(_) => Err(SilverError::ImageError),
    }
}

/// Relies on `image::RgbImage::from_raw` and `ImageBuffer::write_to` with
/// the PNG format, as `encode_gray_png` does, with three bytes per pixel.
#[verifier::external_body]
fn encode_rgb_png(width: u32, height: u32, pixels: Vec<u8>) -> (r: Result<Vec<u8>, SilverError>)
    ensures
        r is Ok <==> (1 <= width && 1 <= height && pixels@.len() >= 3 * (width as int) * (
        height as int)),
        r matches Ok(v) ==> v@ == png_rgb(width, height, pixels@),
        r matches Err(e) ==> e == SilverError::ImageError,
{
    let img = match image::RgbImage::from_raw(width, height, pixels) {
        Some(v) => v,
        None => return Err(SilverError::ImageError),
    };
    let mut png_writer = std::io::Cursor::new(Vec::new());
    match img.write_to(&mut png_writer, image::ImageFormat::Png) {
        Ok(()) => Ok(png_writer.into_inner()),
        Err(_) => Err(SilverError::ImageError),
    }
}

/// Relies on `image::RgbaImage::from_raw` and `ImageBuffer::write_to`
/// with the PNG format, as `encode_gray_png` does, with four bytes per
/// pixel.
#[verifier::external_body]
fn encode_rgba_png(width: u32, height: u32, pixels: Vec<u8>) -> (r: Result<Vec<u8>, SilverError>)
    ensures
        r is Ok <==> (1 <= width && 1 <= height && pixels@.len() >= 4 * (width as int) * (
        height as int)),
        r matches Ok(v) ==> v@ == png_rgba(width, height, pixels@),
        r matches Err(e) ==> e == SilverError::ImageError,
{
    let img = match image::RgbaImage::from_raw(width, height, pixels) {
        Some(v) => v,
        None => return Err(SilverError::ImageError),
    };
    let mut png_writer = std::io::Cursor::new(Vec::new());
    match img.write_to(&mut png_writer, image::ImageFormat::Png) {
        Ok(()) => Ok(png_writer.into_inner()),
        Err(_) => Err(SilverError::ImageError),
    }
}

/// A higher-level representation of bitmap imagery. It holds minimal
/// information alongside the bitmap image re-encoded as a PNG.
pub struct BitmapImage {
    /// The width of our bitmap data.
    pub width: u32,
    /// The height of our bitmap data.
    pub height: u32,
    /// The width this bitmap image is rendered at.
    pub rendered_width: u16,
    /// The format this bitmap image is encoded in.
    pub format_type: RawBitmapType,
    /// The resource ID this bitmap data is associated with.
    pub resource_id: u32,
    /// A PNG-encoded version of our bitmap image.
    pub contents: Vec<u8>,
}

/// The mathematical shape of a decoded bitmap image.
pub ghost struct BitmapImageModel {
    pub width: u32,
    pub height: u32,
    pub rendered_width: u16,
    pub format_type: RawBitmapType,
    pub resource_id: u32,
    pub contents: Seq<u8>,
}

impl View for BitmapImage {
    type V = BitmapImageModel;

    open spec fn view(&self) -> BitmapImageModel {
        BitmapImageModel {
            width: self.width,
            height: self.height,
            rendered_width: self.rendered_width,
            format_type: self.format_type,
            resource_id: self.resource_id,
            contents: self.contents@,
        }
    }
}

/// The pixel width of the raster a bitmap's raw bytes describe. On the
/// Nano and LCD shapes the raw width field of the low-bit-depth grayscale
/// formats records byte width, so the rendered width stands in, scaled by
/// the pixels a byte holds relative to the 4-bit case; the monochrome
/// shape's width field is the pixel width itself.
pub open spec fn spec_true_width(d: RawBitmapModel) -> u32 {
    match d.header_format {
        FirmwareType::Monochrome => d.width,
        FirmwareType::Nano | FirmwareType::LCD => match d.image_type {
            RawBitmapType::Grayscale => (d.rendered_width * 4) as u32,
            RawBitmapType::GrayscaleTwo => (d.rendered_width * 2) as u32,
            RawBitmapType::GrayscaleFour => d.rendered_width as u32,
            RawBitmapType::GrayscaleEight => d.rendered_width as u32,
            _ => d.width,
        },
    }
}

/// The canonical raster a bitmap's raw pixel bytes decode to, or nothing
/// where an indexed bitmap's palette or indices are unusable.
pub open spec fn spec_raster(d: RawBitmapModel) -> Option<Seq<u8>> {
    match d.image_type {
        RawBitmapType::Grayscale => Some(spec_gray1(d.contents)),
        RawBitmapType::GrayscaleTwo => Some(spec_gray2(d.contents)),
        RawBitmapType::GrayscaleFour => Some(spec_gray4(d.contents)),
        RawBitmapType::GrayscaleEight => Some(d.contents),
        RawBitmapType::Rgb565 => Some(spec_rgb565(d.contents)),
        RawBitmapType::Argb4444 => Some(spec_argb4444(d.contents)),
        RawBitmapType::Argb8888 => Some(spec_argb8888(d.contents)),
        RawBitmapType::RgbEight => spec_indexed8(d.contents),
        RawBitmapType::RgbSixteen => spec_indexed16(d.contents),
    }
}

/// How many raster bytes one pixel takes: the gray formats decode to one
/// byte per pixel, RGB565 to three, the rest to four.
pub open spec fn spec_channels(t: RawBitmapType) -> int {
    match t {
        RawBitmapType::Grayscale | RawBitmapType::GrayscaleTwo | RawBitmapType::GrayscaleFour
            | RawBitmapType::GrayscaleEight => 1,
        RawBitmapType::Rgb565 => 3,
        _ => 4,
    }
}

/// Whether a decoded bitmap can be re-encoded: positive dimensions, and a
/// raster that covers them — exactly the inputs the PNG encoders accept.
pub open spec fn spec_encodable(d: RawBitmapModel) -> bool {
    &&& 1 <= spec_true_width(d)
    &&& 1 <= d.height
    &&& spec_raster(d)->0.len() >= spec_channels(d.image_type) * (spec_true_width(d) as int) * (
    d.height as int)
}

/// The PNG bytes a decodable bitmap re-encodes to: the gray formats as a
/// single-channel image, RGB565 as three channels, the rest as four.
pub open spec fn spec_png(d: RawBitmapModel) -> Seq<u8> {
    match d.image_type {
        RawBitmapType::Grayscale | RawBitmapType::GrayscaleTwo | RawBitmapType::GrayscaleFour
            | RawBitmapType::GrayscaleEight => png_gray(
            spec_true_width(d),
            d.height,
            spec_raster(d)->0,
        ),
        RawBitmapType::Rgb565 => png_rgb(spec_true_width(d), d.height, spec_raster(d)->0),
        _ => png_rgba(spec_true_width(d), d.height, spec_raster(d)->0),
    }
}

/// The decoded image a bitmap resource yields.
pub open spec fn spec_image(d: RawBitmapModel) -> BitmapImageModel {
    BitmapImageModel {
        width: d.width,
        height: d.height,
        rendered_width: d.rendered_width,
        format_type: d.image_type,
        resource_id: d.resource_id,
        contents: spec_png(d),
    }
}

/// A copy of a byte vector.
fn copy_bytes(b: &Vec<u8>) -> (r: Vec<u8>)
    ensures
        r@ == b@,
{
    let r = b.clone();
    proof {
        assert(r@ =~= b@);
    }
    r
}

impl BitmapImage {
    /// Parses a resource entry's raw contents to our representation: the
    /// bitmap header is read, the raw pixels are decoded to a canonical
    /// raster, and the raster is re-encoded as a PNG.
    ///
    /// An empty payload, or a header declaring no content, is a valid
    /// "no image present" — `Ok(None)` — not an error.
    #[verifier::rlimit(100)]
    #[verifier::spinoff_prover]
    pub fn parse(raw_data: Vec<u8>) -> (r: Result<Option<Self>, SilverError>)
        requires
            raw_data@.len() <= u32::MAX,
        ensures
            raw_data@.len() == 0 ==> r == Ok::<Option<BitmapImage>, SilverError>(None),
            raw_data@.len() > 0 ==> (match spec_parse_bitmap(raw_data@) {
                Err(e) => r == Err::<Option<BitmapImage>, SilverError>(e),
                Ok(d) => {
                    &&& (d.contents_length == 0 ==> r == Ok::<Option<BitmapImage>, SilverError>(
                        None,
                    ))
                    &&& (d.contents_length > 0 && spec_raster(d) is None ==> r == Err::<
                        Option<BitmapImage>,
                        SilverError,
                    >(SilverError::InvalidBitmap))
                    &&& (d.contents_length > 0 && spec_raster(d) is Some && spec_encodable(d)
                        ==> (r matches Ok(o) && o matches Some(img) && img@ == spec_image(d)))
                    &&& (d.contents_length > 0 && spec_raster(d) is Some && !spec_encodable(d)
                        ==> r == Err::<Option<BitmapImage>, SilverError>(SilverError::ImageError))
                },
            }),
    {
        let ghost b: Seq<u8> = raw_data@;
        // Some bitmap resources have no data at all: no image is present.
        if raw_data.is_empty() {
            return Ok(None);
        }
        let raw_format: RawBitmapData = match RawBitmapData::parse(raw_data) {
            Ok(d) => d,
            Err(e) => {
                return Err(e);
            },
        };
        let ghost d: RawBitmapModel = spec_parse_bitmap(b)->Ok_0;
        proof {
            assert(raw_format@ == d);
            assert(d.contents.len() == d.contents_length);
        }
        // Additionally, some bitmaps have dimensions but lack substance;
        // they too carry no image.
        if raw_format.contents_length == 0 || raw_format.contents.is_empty() {
            return Ok(None);
        }
        // On the Nano and LCD shapes, low-bit-depth grayscale widths are
        // recorded in bytes: respect the rendered width instead.
        let height: u32 = raw_format.height;
        let width: u32 = match raw_format.header_format {
            FirmwareType::Monochrome => raw_format.width,
            FirmwareType::Nano | FirmwareType::LCD => match raw_format.image_type {
                RawBitmapType::Grayscale => raw_format.rendered_width as u32 * 4,
                RawBitmapType::GrayscaleTwo => raw_format.rendered_width as u32 * 2,
                RawBitmapType::GrayscaleFour => raw_format.rendered_width as u32,
                RawBitmapType::GrayscaleEight => raw_format.rendered_width as u32,
                _ => raw_format.width,
            },
        };
        proof {
            assert(width == spec_true_width(d));
        }
        // Now, convert our bitmap data to a PNG representation.
        let png_contents: Vec<u8> = match raw_format.image_type {
            RawBitmapType::Grayscale => {
                // We have eight pixels in every byte.
                let gray_contents: Vec<u8> = decode_gray1(&raw_format.contents);
                match encode_gray_png(width, height, gray_contents) {
                    Ok(v) => v,
                    Err(e) => {
                        return Err(e);
                    },
                }
            },
            RawBitmapType::GrayscaleTwo => {
                // We have four pixels in every byte.
                let gray_contents: Vec<u8> = decode_gray2(&raw_format.contents);
                match encode_gray_png(width, height, gray_contents) {
                    Ok(v) => v,
                    Err(e) => {
                        return Err(e);
                    },
                }
            },
            RawBitmapType::GrayscaleFour => {
                // We have two pixels in every byte.
                let gray_contents: Vec<u8> = decode_gray4(&raw_format.contents);
                match encode_gray_png(width, height, gray_contents) {
                    Ok(v) => v,
                    Err(e) => {
                        return Err(e);
                    },
                }
            },
            RawBitmapType::GrayscaleEight => {
                // One byte per pixel, passed through directly.
                let gray_contents: Vec<u8> = copy_bytes(&raw_format.contents);
                match encode_gray_png(width, height, gray_contents) {
                    Ok(v) => v,
                    Err(e) => {
                        return Err(e);
                    },
                }
            },
            RawBitmapType::Rgb565 => {
                let rgb_contents: Vec<u8> = decode_rgb565(&raw_format.contents);
                match encode_rgb_png(width, height, rgb_contents) {
                    Ok(v) => v,
                    Err(e) => {
                        return Err(e);
                    },
                }
            },
            RawBitmapType::Argb4444 => {
                let rgba_contents: Vec<u8> = decode_argb4444(&raw_format.contents);
                match encode_rgba_png(width, height, rgba_contents) {
                    Ok(v) => v,
                    Err(e) => {
                        return Err(e);
                    },
                }
            },
            RawBitmapType::Argb8888 => {
                let rgba_contents: Vec<u8> = decode_argb8888(&raw_format.contents);
                match encode_rgba_png(width, height, rgba_contents) {
                    Ok(v) => v,
                    Err(e) => {
                        return Err(e);
                    },
                }
            },
            RawBitmapType::RgbEight => {
                // Resolve RGBA colors through the leading palette.
                let rgba_contents: Vec<u8> = match decode_indexed8(
                    copy_bytes(&raw_format.contents),
                ) {
                    Ok(v) => v,
                    Err(e) => {
                        return Err(e);
                    },
                };
                match encode_rgba_png(width, height, rgba_contents) {
                    Ok(v) => v,
                    Err(e) => {
                        return Err(e);
                    },
                }
            },
            RawBitmapType::RgbSixteen => {
                // As above, with two bytes per palette index.
                let rgba_contents: Vec<u8> = match decode_indexed16(
                    copy_bytes(&raw_format.contents),
                ) {
                    Ok(v) => v,
                    Err(e) => {
                        return Err(e);
                    },
                };
                match encode_rgba_png(width, height, rgba_contents) {
                    Ok(v) => v,
                    Err(e) => {
                        return Err(e);
                    },
                }
            },
        };
        let result = BitmapImage {
            width: raw_format.width,
            height: raw_format.height,
            format_type: raw_format.image_type,
            rendered_width: raw_format.rendered_width,
            resource_id: raw_format.resource_id,
            contents: png_contents,
        };
        proof {
            assert(result@ =~= spec_image(d));
        }
        Ok(Some(result))
    }

    /// Reduces our representation to a resource entry's raw contents.
    ///
    /// The source format does not define a re-encoding of PNG data back
    /// into its raw pixel formats, so this always reports a conversion
    /// failure.
    pub fn reduce(self) -> (r: Result<Vec<u8>, SilverError>)
        ensures
            r == Err::<Vec<u8>, SilverError>(SilverError::ImageError),
    {
        Err(SilverError::ImageError)
    }
}

} // verus!
