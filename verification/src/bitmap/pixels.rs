//! The bitmap pixel codec: pure conversions from each raw pixel encoding
//! to a canonical raster (one gray byte per pixel, or RGB/RGBA byte
//! triples/quadruples).

use vstd::prelude::*;

use crate::little_helper::{le16_at, le32_at};
use crate::silver_error::SilverError;

verus! {

/// One output pixel of the 1-bit decoding: bit `7 - t` of the byte,
/// scaled to 0 or 255, so bit 7 becomes the leftmost pixel.
pub open spec fn gray1_level(p: u8, t: int) -> u8 {
    if t == 0 {
        if (p / 128) % 2 == 1 {
            255
        } else {
            0
        }
    } else if t == 1 {
        if (p / 64) % 2 == 1 {
            255
        } else {
            0
        }
    } else if t == 2 {
        if (p / 32) % 2 == 1 {
            255
        } else {
            0
        }
    } else if t == 3 {
        if (p / 16) % 2 == 1 {
            255
        } else {
            0
        }
    } else if t == 4 {
        if (p / 8) % 2 == 1 {
            255
        } else {
            0
        }
    } else if t == 5 {
        if (p / 4) % 2 == 1 {
            255
        } else {
            0
        }
    } else if t == 6 {
        if (p / 2) % 2 == 1 {
            255
        } else {
            0
        }
    } else {
        if p % 2 == 1 {
            255
        } else {
            0
        }
    }
}

/// The 1-bit grayscale decoding: eight pixels per byte, bit 7 first.
pub open spec fn spec_gray1(s: Seq<u8>) -> Seq<u8> {
    Seq::new(s.len() * 8, |k: int| gray1_level(s[k / 8], k % 8))
}

/// One output pixel of the 2-bit decoding: the two bits at position
/// `6 - 2 t`, scaled by 32 (so the levels are 0, 32, 64, 96 — a known
/// quirk of the source format, not corrected).
pub open spec fn gray2_level(p: u8, t: int) -> u8 {
    if t == 0 {
        (((p / 64) % 4) * 32) as u8
    } else if t == 1 {
        (((p / 16) % 4) * 32) as u8
    } else if t == 2 {
        (((p / 4) % 4) * 32) as u8
    } else {
        ((p % 4) * 32) as u8
    }
}

/// The 2-bit grayscale decoding: four pixels per byte, high bits first.
pub open spec fn spec_gray2(s: Seq<u8>) -> Seq<u8> {
    Seq::new(s.len() * 4, |k: int| gray2_level(s[k / 4], k % 4))
}

/// One output pixel of the 4-bit decoding: the high nibble first, each
/// nibble scaled by 16.
pub open spec fn gray4_level(p: u8, t: int) -> u8 {
    if t == 0 {
        ((p / 16) * 16) as u8
    } else {
        ((p % 16) * 16) as u8
    }
}

/// The 4-bit grayscale decoding: two pixels per byte, high nibble first.
pub open spec fn spec_gray4(s: Seq<u8>) -> Seq<u8> {
    Seq::new(s.len() * 2, |k: int| gray4_level(s[k / 2], k % 2))
}

/// One channel byte of the RGB565 decoding of the little-endian 16-bit
/// value `v`: each channel scaled to the full 8-bit range.
pub open spec fn rgb565_channel(v: int, c: int) -> u8 {
    if c == 0 {
        ((v / 2048) * 255 / 31) as u8
    } else if c == 1 {
        (((v / 32) % 64) * 255 / 63) as u8
    } else {
        ((v % 32) * 255 / 31) as u8
    }
}

/// The RGB565 decoding: two bytes per pixel, little-endian, bits [15:11]
/// red, [10:5] green, [4:0] blue, three output bytes per pixel.
pub open spec fn spec_rgb565(s: Seq<u8>) -> Seq<u8> {
    Seq::new((s.len() / 2) * 3, |k: int| rgb565_channel(le16_at(s, 2 * (k / 3)) as int, k % 3))
}

/// One channel byte of the ARGB4444 decoding: on the wire the low byte
/// holds B and G, the high byte R and A; each nibble is scaled by 16.
pub open spec fn argb4444_channel(lo: u8, hi: u8, c: int) -> u8 {
    if c == 0 {
        ((hi % 16) * 16) as u8
    } else if c == 1 {
        ((lo / 16) * 16) as u8
    } else if c == 2 {
        ((lo % 16) * 16) as u8
    } else {
        ((hi / 16) * 16) as u8
    }
}

/// The ARGB4444 decoding: two bytes per pixel, emitted as R, G, B, A.
pub open spec fn spec_argb4444(s: Seq<u8>) -> Seq<u8> {
    Seq::new(
        (s.len() / 2) * 4,
        |k: int| argb4444_channel(s[2 * (k / 4)], s[2 * (k / 4) + 1], k % 4),
    )
}

/// The ARGB8888 decoding: four bytes per pixel in on-wire order B, G, R,
/// A, reordered to R, G, B, A.
pub open spec fn spec_argb8888(s: Seq<u8>) -> Seq<u8> {
    Seq::new(
        (s.len() / 4) * 4,
        |k: int|
            if k % 4 == 0 {
                s[4 * (k / 4) + 2]
            } else if k % 4 == 1 {
                s[4 * (k / 4) + 1]
            } else if k % 4 == 2 {
                s[4 * (k / 4)]
            } else {
                s[4 * (k / 4) + 3]
            },
    )
}

/// Decodes 1-bit grayscale contents: eight pixels per byte, bit 7 first,
/// each bit scaled to 0 or 255.
pub fn decode_gray1(contents: &Vec<u8>) -> (r: Vec<u8>)
    ensures
        r@ == spec_gray1(contents@),
{
    let mut out: Vec<u8> = Vec::new();
    let mut i: usize = 0;
    while i < contents.len()
        invariant
            i <= contents@.len(),
            out@ == spec_gray1(contents@.take(i as int)),
        decreases contents@.len() - i as int,
    {
        let p: u8 = contents[i];
        out.push(if (p / 128) % 2 == 1 {
            255
        } else {
            0
        });
        out.push(if (p / 64) % 2 == 1 {
            255
        } else {
            0
        });
        out.push(if (p / 32) % 2 == 1 {
            255
        } else {
            0
        });
        out.push(if (p / 16) % 2 == 1 {
            255
        } else {
            0
        });
        out.push(if (p / 8) % 2 == 1 {
            255
        } else {
            0
        });
        out.push(if (p / 4) % 2 == 1 {
            255
        } else {
            0
        });
        out.push(if (p / 2) % 2 == 1 {
            255
        } else {
            0
        });
        out.push(if p % 2 == 1 {
            255
        } else {
            0
        });
        i = i + 1;
        proof {
            assert(out@ =~= spec_gray1(contents@.take(i as int)));
        }
    }
    proof {
        assert(contents@.take(contents@.len() as int) =~= contents@);
    }
    out
}

/// Decodes 2-bit grayscale contents: four pixels per byte, scaled by 32.
pub fn decode_gray2(contents: &Vec<u8>) -> (r: Vec<u8>)
    ensures
        r@ == spec_gray2(contents@),
{
    let mut out: Vec<u8> = Vec::new();
    let mut i: usize = 0;
    while i < contents.len()
        invariant
            i <= contents@.len(),
            out@ == spec_gray2(contents@.take(i as int)),
        decreases contents@.len() - i as int,
    {
        let p: u8 = contents[i];
        out.push(((p / 64) % 4) * 32);
        out.push(((p / 16) % 4) * 32);
        out.push(((p / 4) % 4) * 32);
        out.push((p % 4) * 32);
        i = i + 1;
        proof {
            assert(out@ =~= spec_gray2(contents@.take(i as int)));
        }
    }
    proof {
        assert(contents@.take(contents@.len() as int) =~= contents@);
    }
    out
}

/// Decodes 4-bit grayscale contents: two pixels per byte, high nibble
/// first, each nibble scaled by 16.
pub fn decode_gray4(contents: &Vec<u8>) -> (r: Vec<u8>)
    ensures
        r@ == spec_gray4(contents@),
{
    let mut out: Vec<u8> = Vec::new();
    let mut i: usize = 0;
    while i < contents.len()
        invariant
            i <= contents@.len(),
            out@ == spec_gray4(contents@.take(i as int)),
        decreases contents@.len() - i as int,
    {
        let p: u8 = contents[i];
        out.push((p / 16) * 16);
        out.push((p % 16) * 16);
        i = i + 1;
        proof {
            assert(out@ =~= spec_gray4(contents@.take(i as int)));
        }
    }
    proof {
        assert(contents@.take(contents@.len() as int) =~= contents@);
    }
    out
}

/// Decodes RGB565 contents: two bytes per pixel, little-endian, each
/// channel scaled to the full 8-bit range.
pub fn decode_rgb565(contents: &Vec<u8>) -> (r: Vec<u8>)
    ensures
        r@ == spec_rgb565(contents@),
{
    let mut out: Vec<u8> = Vec::new();
    let mut i: usize = 0;
    let pixel_count: usize = contents.len() / 2;
    while i < pixel_count
        invariant
            i <= pixel_count,
            contents@.len() <= usize::MAX,
            pixel_count == contents@.len() / 2,
            out@ == spec_rgb565(contents@).take(3 * i as int),
        decreases pixel_count - i,
    {
        let b0: u8 = contents[2 * i];
        let b1: u8 = contents[2 * i + 1];
        let v: u32 = b0 as u32 + b1 as u32 * 0x100;
        let red: u32 = (v / 2048) * 255 / 31;
        let green: u32 = ((v / 32) % 64) * 255 / 63;
        let blue: u32 = (v % 32) * 255 / 31;
        out.push(red as u8);
        out.push(green as u8);
        out.push(blue as u8);
        i = i + 1;
        proof {
            assert(out@ =~= spec_rgb565(contents@).take(3 * i as int));
        }
    }
    proof {
        assert(spec_rgb565(contents@).take(3 * pixel_count as int) =~= spec_rgb565(contents@));
    }
    out
}

/// Decodes ARGB4444 contents: two bytes per pixel, little-endian, so the
/// on-wire layout is B, G then R, A; emitted as R, G, B, A, each nibble
/// scaled by 16.
pub fn decode_argb4444(contents: &Vec<u8>) -> (r: Vec<u8>)
    ensures
        r@ == spec_argb4444(contents@),
{
    let mut out: Vec<u8> = Vec::new();
    let mut i: usize = 0;
    let pixel_count: usize = contents.len() / 2;
    while i < pixel_count
        invariant
            i <= pixel_count,
            contents@.len() <= usize::MAX,
            pixel_count == contents@.len() / 2,
            out@ == spec_argb4444(contents@).take(4 * i as int),
        decreases pixel_count - i,
    {
        let lo: u8 = contents[2 * i];
        let hi: u8 = contents[2 * i + 1];
        out.push((hi % 16) * 16);
        out.push((lo / 16) * 16);
        out.push((lo % 16) * 16);
        out.push((hi / 16) * 16);
        i = i + 1;
        proof {
            assert(out@ =~= spec_argb4444(contents@).take(4 * i as int));
        }
    }
    proof {
        assert(spec_argb4444(contents@).take(4 * pixel_count as int) =~= spec_argb4444(contents@));
    }
    out
}

/// Decodes ARGB8888 contents: four bytes per pixel in on-wire order B, G,
/// R, A, reordered to R, G, B, A.
pub fn decode_argb8888(contents: &Vec<u8>) -> (r: Vec<u8>)
    ensures
        r@ == spec_argb8888(contents@),
{
    let mut out: Vec<u8> = Vec::new();
    let mut i: usize = 0;
    let pixel_count: usize = contents.len() / 4;
    while i < pixel_count
        invariant
            i <= pixel_count,
            contents@.len() <= usize::MAX,
            pixel_count == contents@.len() / 4,
            out@ == spec_argb8888(contents@).take(4 * i as int),
        decreases pixel_count - i,
    {
        out.push(contents[4 * i + 2]);
        out.push(contents[4 * i + 1]);
        out.push(contents[4 * i]);
        out.push(contents[4 * i + 3]);
        i = i + 1;
        proof {
            assert(out@ =~= spec_argb8888(contents@).take(4 * i as int));
        }
    }
    proof {
        assert(spec_argb8888(contents@).take(4 * pixel_count as int) =~= spec_argb8888(contents@));
    }
    out
}

/// An RGBA pixel, byte-order-corrected from the on-wire BGRA.
pub type ArgbPixel = (u8, u8, u8, u8);

/// The palette-entry count an indexed buffer declares in its first word.
pub open spec fn spec_palette_count(s: Seq<u8>) -> u32 {
    le32_at(s, 0)
}

/// Whether an indexed buffer is long enough for the palette it declares.
pub open spec fn spec_palette_ok(s: Seq<u8>) -> bool {
    s.len() >= 4 && 4 + 4 * spec_palette_count(s) <= s.len()
}

/// Palette entry `e` as R, G, B, A (stored on the wire as B, G, R, A).
pub open spec fn spec_palette_entry(s: Seq<u8>, e: int) -> ArgbPixel {
    (s[4 + 4 * e + 2], s[4 + 4 * e + 1], s[4 + 4 * e], s[4 + 4 * e + 3])
}

/// The index bytes that follow the palette.
pub open spec fn spec_indexed_contents(s: Seq<u8>) -> Seq<u8> {
    s.subrange(4 + 4 * spec_palette_count(s), s.len() as int)
}

/// Reads the leading palette-entry count of our raw contents in order to
/// separate the palette from the indexed pixel data that follows it.
pub fn separate_palette(raw_contents: Vec<u8>) -> (r: Result<
    (Vec<ArgbPixel>, Vec<u8>),
    SilverError,
>)
    ensures
        r is Ok <==> spec_palette_ok(raw_contents@),
        r matches Ok(pair) ==> {
            &&& pair.0@.len() == spec_palette_count(raw_contents@)
            &&& forall|e: int|
                0 <= e < pair.0@.len() ==> (#[trigger] pair.0@[e]) == spec_palette_entry(
                    raw_contents@,
                    e,
                )
            &&& pair.1@ == spec_indexed_contents(raw_contents@)
        },
        r is Err ==> r == Err::<(Vec<ArgbPixel>, Vec<u8>), SilverError>(SilverError::InvalidBitmap),
{
    let ghost s: Seq<u8> = raw_contents@;
    if raw_contents.len() < 4 {
        return Err(SilverError::InvalidBitmap);
    }
    let palette_length: u32 = raw_contents[0] as u32 + raw_contents[1] as u32 * 0x100
        + raw_contents[2] as u32 * 0x10000 + raw_contents[3] as u32 * 0x1000000;
    // The palette begins immediately after its length: an array of
    // four-byte entries, read as B, G, R, A because of the endianness.
    if (raw_contents.len() - 4) / 4 < palette_length as usize {
        return Err(SilverError::InvalidBitmap);
    }
    let palette_end: usize = 4 + 4 * palette_length as usize;
    let mut palette: Vec<ArgbPixel> = Vec::new();
    let mut e: usize = 0;
    while e < palette_length as usize
        invariant
            e <= palette_length,
            raw_contents@ == s,
            s.len() <= usize::MAX,
            4 + 4 * (palette_length as int) <= s.len(),
            palette@.len() == e,
            forall|k: int|
                0 <= k < e as int ==> (#[trigger] palette@[k]) == spec_palette_entry(s, k),
        decreases palette_length as int - e as int,
    {
        let base: usize = 4 + 4 * e;
        let blue: u8 = raw_contents[base];
        let green: u8 = raw_contents[base + 1];
        let red: u8 = raw_contents[base + 2];
        let alpha: u8 = raw_contents[base + 3];
        palette.push((red, green, blue, alpha));
        e = e + 1;
    }
    // Finally, separate our raw, indexed contents.
    let mut indexed_contents: Vec<u8> = Vec::new();
    let mut i: usize = palette_end;
    while i < raw_contents.len()
        invariant
            palette_end <= i <= raw_contents@.len(),
            raw_contents@ == s,
            palette_end == 4 + 4 * (spec_palette_count(s) as int),
            indexed_contents@ == s.subrange(palette_end as int, i as int),
        decreases raw_contents@.len() - i as int,
    {
        indexed_contents.push(raw_contents[i]);
        i = i + 1;
        proof {
            assert(indexed_contents@ =~= s.subrange(palette_end as int, i as int));
        }
    }
    proof {
        assert(palette_length == spec_palette_count(s));
        assert(indexed_contents@ =~= spec_indexed_contents(s));
    }
    Ok((palette, indexed_contents))
}

/// The flattened RGBA bytes of a palette lookup.
pub open spec fn palette_rgba_byte(px: ArgbPixel, c: int) -> u8 {
    if c == 0 {
        px.0
    } else if c == 1 {
        px.1
    } else if c == 2 {
        px.2
    } else {
        px.3
    }
}

/// The 8-bit indexed decoding: every index byte resolved through the
/// palette, or nothing if some index lies outside it.
pub open spec fn spec_indexed8(s: Seq<u8>) -> Option<Seq<u8>> {
    if !spec_palette_ok(s) {
        None
    } else {
        let idx = spec_indexed_contents(s);
        let count = spec_palette_count(s) as int;
        if exists|k: int| 0 <= k < idx.len() && #[trigger] idx[k] as int >= count {
            None
        } else {
            Some(Seq::new(idx.len() * 4, |k: int| palette_rgba_byte(spec_palette_entry(s, idx[k / 4] as int), k % 4)))
        }
    }
}

/// The 16-bit indexed decoding: little-endian index pairs resolved
/// through the palette, or nothing if some index lies outside it.
pub open spec fn spec_indexed16(s: Seq<u8>) -> Option<Seq<u8>> {
    if !spec_palette_ok(s) {
        None
    } else {
        let idx = spec_indexed_contents(s);
        let count = spec_palette_count(s) as int;
        if exists|k: int|
            0 <= k < idx.len() / 2 && #[trigger] le16_at(idx, 2 * k) as int >= count {
            None
        } else {
            Some(
                Seq::new(
                    (idx.len() / 2) * 4,
                    |k: int|
                        palette_rgba_byte(
                            spec_palette_entry(s, le16_at(idx, 2 * (k / 4)) as int),
                            k % 4,
                        ),
                ),
            )
        }
    }
}

/// Decodes 8-bit indexed contents: a palette, then one index byte per
/// pixel. An index outside the palette is a fatal error; the format
/// defines no fallback.
#[verifier::loop_isolation(false)]
pub fn decode_indexed8(contents: Vec<u8>) -> (r: Result<Vec<u8>, SilverError>)
    ensures
        r is Ok <==> spec_indexed8(contents@) is Some,
        r matches Ok(v) ==> Some(v@) == spec_indexed8(contents@),
        r is Err ==> r == Err::<Vec<u8>, SilverError>(SilverError::InvalidBitmap),
{
    let ghost s: Seq<u8> = contents@;
    let (palette, indexed_contents) = match separate_palette(contents) {
        Ok(pair) => pair,
        Err(e) => {
            return Err(e);
        },
    };
    let mut out: Vec<u8> = Vec::new();
    let mut i: usize = 0;
    while i < indexed_contents.len()
        invariant
            i <= indexed_contents@.len(),
            indexed_contents@ == spec_indexed_contents(s),
            spec_palette_ok(s),
            palette@.len() == spec_palette_count(s),
            forall|k: int|
                0 <= k < palette@.len() ==> (#[trigger] palette@[k]) == spec_palette_entry(s, k),
            forall|k: int|
                0 <= k < i as int ==> ((#[trigger] indexed_contents@[k]) as int) < palette@.len(),
            out@.len() == 4 * i,
            forall|k: int|
                0 <= k < out@.len() ==> (#[trigger] out@[k]) == palette_rgba_byte(
                    spec_palette_entry(s, indexed_contents@[k / 4] as int),
                    k % 4,
                ),
        decreases indexed_contents@.len() - i as int,
    {
        let index: u8 = indexed_contents[i];
        if index as usize >= palette.len() {
            proof {
                assert((indexed_contents@[i as int] as int) >= spec_palette_count(s) as int);
                assert(spec_indexed8(s) is None);
            }
            return Err(SilverError::InvalidBitmap);
        }
        let px: ArgbPixel = palette[index as usize];
        out.push(px.0);
        out.push(px.1);
        out.push(px.2);
        out.push(px.3);
        i = i + 1;
    }
    proof {
        assert(spec_indexed8(s) is Some);
        assert(out@ =~= spec_indexed8(s)->0);
    }
    Ok(out)
}

/// Decodes 16-bit indexed contents: a palette, then one little-endian
/// index pair per pixel. An index outside the palette is a fatal error.
#[verifier::loop_isolation(false)]
pub fn decode_indexed16(contents: Vec<u8>) -> (r: Result<Vec<u8>, SilverError>)
    ensures
        r is Ok <==> spec_indexed16(contents@) is Some,
        r matches Ok(v) ==> Some(v@) == spec_indexed16(contents@),
        r is Err ==> r == Err::<Vec<u8>, SilverError>(SilverError::InvalidBitmap),
{
    let ghost s: Seq<u8> = contents@;
    let (palette, indexed_contents) = match separate_palette(contents) {
        Ok(pair) => pair,
        Err(e) => {
            return Err(e);
        },
    };
    let mut out: Vec<u8> = Vec::new();
    let mut i: usize = 0;
    let pixel_count: usize = indexed_contents.len() / 2;
    while i < pixel_count
        invariant
            i <= pixel_count,
            indexed_contents@.len() <= usize::MAX,
            pixel_count == indexed_contents@.len() / 2,
            indexed_contents@ == spec_indexed_contents(s),
            spec_palette_ok(s),
            palette@.len() == spec_palette_count(s),
            forall|k: int|
                0 <= k < palette@.len() ==> (#[trigger] palette@[k]) == spec_palette_entry(s, k),
            forall|k: int|
                0 <= k < i as int ==> ((#[trigger] le16_at(indexed_contents@, 2 * k)) as int)
                    < palette@.len(),
            out@.len() == 4 * i,
            forall|k: int|
                0 <= k < out@.len() ==> (#[trigger] out@[k]) == palette_rgba_byte(
                    spec_palette_entry(s, le16_at(indexed_contents@, 2 * (k / 4)) as int),
                    k % 4,
                ),
        decreases pixel_count - i,
    {
        let lo: u8 = indexed_contents[2 * i];
        let hi: u8 = indexed_contents[2 * i + 1];
        let index: u16 = lo as u16 + hi as u16 * 0x100;
        if index as usize >= palette.len() {
            proof {
                assert(le16_at(indexed_contents@, 2 * (i as int)) == index);
                assert((le16_at(indexed_contents@, 2 * (i as int)) as int) >= spec_palette_count(
                    s,
                ) as int);
                assert(spec_indexed16(s) is None);
            }
            return Err(SilverError::InvalidBitmap);
        }
        let px: ArgbPixel = palette[index as usize];
        out.push(px.0);
        out.push(px.1);
        out.push(px.2);
        out.push(px.3);
        i = i + 1;
    }
    proof {
        assert(spec_indexed16(s) is Some);
        assert(out@ =~= spec_indexed16(s)->0);
    }
    Ok(out)
}

} // verus!
