//! The registry of known section signatures: a bidirectional mapping
//! between a four-byte magic and a semantic section kind. The on-disk
//! magic is stored byte-reversed relative to its readable name.

use vstd::prelude::*;

use crate::little_helper::SectionMagic;
use crate::silver_error::SilverError;
use crate::text::{string_from_utf8, utf8_bytes_of};
use vstd::utf8::{
    encode_utf8, encode_utf8_decode_utf8, encode_utf8_valid_utf8, is_ascii_chars,
    is_ascii_chars_encode_utf8,
};

verus! {

/// Possible known section types.
#[derive(PartialEq)]
pub enum SectionType {
    /// Represents bitmap images within a section ('BMap').
    Bitmap,
    /// Represents hardcoded bitmap images for unknown usage ('StBM').
    SilverBitmap,
    /// Represents UI strings ('Str ').
    String,
    /// Represents placeholders for view strings ('StrT').
    StringTranslation,
    /// Strings used for date/time locale ('LDTm').
    DateTimeLocale,
    /// Names of animation controller C++ classes as strings ('ACST').
    AnimControllerString,
    /// Names of UI controller C++ classes as strings ('SCST').
    SilverControllerString,
    /// Not an actual section type - used to represent a currently unknown
    /// section's type, carrying its raw signature for round-tripping.
    Unknown(SectionMagic),
}

/// The mathematical shape of a section type: as `SectionType`, with the
/// unknown signature held as a byte sequence.
pub ghost enum SectionTypeModel {
    Bitmap,
    SilverBitmap,
    String,
    StringTranslation,
    DateTimeLocale,
    AnimControllerString,
    SilverControllerString,
    Unknown(Seq<u8>),
}

impl View for SectionType {
    type V = SectionTypeModel;

    open spec fn view(&self) -> SectionTypeModel {
        match self {
            SectionType::Bitmap => SectionTypeModel::Bitmap,
            SectionType::SilverBitmap => SectionTypeModel::SilverBitmap,
            SectionType::String => SectionTypeModel::String,
            SectionType::StringTranslation => SectionTypeModel::StringTranslation,
            SectionType::DateTimeLocale => SectionTypeModel::DateTimeLocale,
            SectionType::AnimControllerString => SectionTypeModel::AnimControllerString,
            SectionType::SilverControllerString => SectionTypeModel::SilverControllerString,
            SectionType::Unknown(m) => SectionTypeModel::Unknown(m@),
        }
    }
}

/// The little-endian magic bytes of 'Str '.
pub open spec fn magic_string() -> Seq<u8> {
    seq![0x20u8, 0x72u8, 0x74u8, 0x53u8]
}

/// The little-endian magic bytes of 'StrT'.
pub open spec fn magic_string_translation() -> Seq<u8> {
    seq![0x54u8, 0x72u8, 0x74u8, 0x53u8]
}

/// The little-endian magic bytes of 'LDTm'.
pub open spec fn magic_date_time_locale() -> Seq<u8> {
    seq![0x6Du8, 0x54u8, 0x44u8, 0x4Cu8]
}

/// The little-endian magic bytes of 'BMap'.
pub open spec fn magic_bitmap() -> Seq<u8> {
    seq![0x70u8, 0x61u8, 0x4Du8, 0x42u8]
}

/// The little-endian magic bytes of 'StBM'.
pub open spec fn magic_silver_bitmap() -> Seq<u8> {
    seq![0x4Du8, 0x42u8, 0x74u8, 0x53u8]
}

/// The little-endian magic bytes of 'ACST'.
pub open spec fn magic_anim_controller() -> Seq<u8> {
    seq![0x54u8, 0x53u8, 0x43u8, 0x41u8]
}

/// The little-endian magic bytes of 'SCST'.
pub open spec fn magic_silver_controller() -> Seq<u8> {
    seq![0x54u8, 0x53u8, 0x43u8, 0x53u8]
}

/// Whether a magic maps to one of the known section types.
pub open spec fn known_magic(m: Seq<u8>) -> bool {
    ||| m == magic_string()
    ||| m == magic_string_translation()
    ||| m == magic_date_time_locale()
    ||| m == magic_bitmap()
    ||| m == magic_silver_bitmap()
    ||| m == magic_anim_controller()
    ||| m == magic_silver_controller()
}

/// The section type a magic maps to.
pub open spec fn spec_from_magic(m: Seq<u8>) -> SectionTypeModel {
    if m == magic_string() {
        SectionTypeModel::String
    } else if m == magic_string_translation() {
        SectionTypeModel::StringTranslation
    } else if m == magic_date_time_locale() {
        SectionTypeModel::DateTimeLocale
    } else if m == magic_bitmap() {
        SectionTypeModel::Bitmap
    } else if m == magic_silver_bitmap() {
        SectionTypeModel::SilverBitmap
    } else if m == magic_anim_controller() {
        SectionTypeModel::AnimControllerString
    } else if m == magic_silver_controller() {
        SectionTypeModel::SilverControllerString
    } else {
        SectionTypeModel::Unknown(m)
    }
}

/// The magic a section type maps back to.
pub open spec fn spec_to_magic(t: SectionTypeModel) -> Seq<u8> {
    match t {
        SectionTypeModel::String => magic_string(),
        SectionTypeModel::StringTranslation => magic_string_translation(),
        SectionTypeModel::DateTimeLocale => magic_date_time_locale(),
        SectionTypeModel::Bitmap => magic_bitmap(),
        SectionTypeModel::SilverBitmap => magic_silver_bitmap(),
        SectionTypeModel::AnimControllerString => magic_anim_controller(),
        SectionTypeModel::SilverControllerString => magic_silver_controller(),
        SectionTypeModel::Unknown(m) => m,
    }
}

/// A type that maps back to the magic it came from: everything but an
/// `Unknown` that happens to carry a known signature.
pub open spec fn canonical_type(t: SectionTypeModel) -> bool {
    match t {
        SectionTypeModel::Unknown(m) => !known_magic(m) && m.len() == 4,
        _ => true,
    }
}

/// Mapping a magic to its section type and back yields the same magic.
pub proof fn lemma_magic_round_trip(m: Seq<u8>)
    requires
        m.len() == 4,
    ensures
        spec_to_magic(spec_from_magic(m)) == m,
        canonical_type(spec_from_magic(m)),
{
}

/// Mapping a canonical section type to its magic and back yields the same
/// type.
pub proof fn lemma_type_round_trip(t: SectionTypeModel)
    requires
        canonical_type(t),
    ensures
        spec_from_magic(spec_to_magic(t)) == t,
{
}

/// Whether the four bytes of `m` are exactly `a`, `b`, `c`, `d`.
fn magic_equals(m: &SectionMagic, a: u8, b: u8, c: u8, d: u8) -> (r: bool)
    ensures
        r == (m@ == seq![a, b, c, d]),
{
    let e = m[0] == a && m[1] == b && m[2] == c && m[3] == d;
    proof {
        if e {
            assert(m@ =~= seq![a, b, c, d]);
        } else {
            assert(m@[0] == a && m@[1] == b && m@[2] == c && m@[3] == d ==> e);
        }
    }
    e
}

impl SectionType {
    /// Maps the magic of sections to their enums, based on their
    /// little-endian contents.
    pub fn from_magic(magic: SectionMagic) -> (r: Self)
        ensures
            r@ == spec_from_magic(magic@),
    {
        // 'Str ' (BE) or ' rtS' (LE)
        if magic_equals(&magic, 0x20, 0x72, 0x74, 0x53) {
            SectionType::String
            // 'StrT' (BE) or 'TrtS' (LE)
        } else if magic_equals(&magic, 0x54, 0x72, 0x74, 0x53) {
            SectionType::StringTranslation
            // 'LDTm' (BE) or 'mTDL' (LE)
        } else if magic_equals(&magic, 0x6D, 0x54, 0x44, 0x4C) {
            SectionType::DateTimeLocale
            // 'BMap' (BE) or 'paMB' (LE)
        } else if magic_equals(&magic, 0x70, 0x61, 0x4D, 0x42) {
            SectionType::Bitmap
            // 'StBM' (BE) or 'MBtS' (LE)
        } else if magic_equals(&magic, 0x4D, 0x42, 0x74, 0x53) {
            SectionType::SilverBitmap
            // 'ACST' (BE) or 'TSCA' (LE)
        } else if magic_equals(&magic, 0x54, 0x53, 0x43, 0x41) {
            SectionType::AnimControllerString
            // 'SCST' (BE) or 'TSCS' (LE)
        } else if magic_equals(&magic, 0x54, 0x53, 0x43, 0x53) {
            SectionType::SilverControllerString
        } else {
            SectionType::Unknown(magic)
        }
    }

    /// Maps the current enum section type to its magic value.
    pub fn to_magic(&self) -> (r: SectionMagic)
        ensures
            r@ == spec_to_magic(self@),
    {
        let m: SectionMagic = match self {
            // 'Str ' (BE) or ' rtS' (LE)
            SectionType::String => [0x20, 0x72, 0x74, 0x53],
            // 'StrT' (BE) or 'TrtS' (LE)
            SectionType::StringTranslation => [0x54, 0x72, 0x74, 0x53],
            // 'LDTm' (BE) or 'mTDL' (LE)
            SectionType::DateTimeLocale => [0x6D, 0x54, 0x44, 0x4C],
            // 'BMap' (BE) or 'paMB' (LE)
            SectionType::Bitmap => [0x70, 0x61, 0x4D, 0x42],
            // 'StBM' (BE) or 'MBtS' (LE)
            SectionType::SilverBitmap => [0x4D, 0x42, 0x74, 0x53],
            // 'ACST' (BE) or 'TSCA' (LE)
            SectionType::AnimControllerString => [0x54, 0x53, 0x43, 0x41],
            // 'SCST' (BE) or 'TSCS' (LE)
            SectionType::SilverControllerString => [0x54, 0x53, 0x43, 0x53],
            SectionType::Unknown(magic) => *magic,
        };
        proof {
            assert(m@ =~= spec_to_magic(self@));
        }
        m
    }

    /// Converts the current enum to its four-byte name: the magic bytes
    /// reinterpreted in reversed order, so the name reads conventionally.
    ///
    /// Each magic byte must be a single-byte character. The container's
    /// header check admits printable bytes up to 128, and byte 128 has no
    /// single-byte character, so a section carrying it cannot be named:
    /// such a signature is excluded here, and unverified callers must test
    /// the bytes first and refuse, as the original tooling did.
    pub fn to_name(&self) -> (r: String)
        requires
            spec_to_magic(self@).len() == 4,
            forall|k: int| 0 <= k < 4 ==> spec_to_magic(self@)[k] < 128,
        ensures
            r@ == seq![
                spec_to_magic(self@)[3] as char,
                spec_to_magic(self@)[2] as char,
                spec_to_magic(self@)[1] as char,
                spec_to_magic(self@)[0] as char,
            ],
    {
        let magic: SectionMagic = self.to_magic();
        // As our mapped values are little-endian, the readable form is the
        // bytes in reversed (big-endian) order.
        let mut big_endian_value: Vec<u8> = Vec::new();
        big_endian_value.push(magic[3]);
        big_endian_value.push(magic[2]);
        big_endian_value.push(magic[1]);
        big_endian_value.push(magic[0]);
        let ghost cs: Seq<char> = seq![
            spec_to_magic(self@)[3] as char,
            spec_to_magic(self@)[2] as char,
            spec_to_magic(self@)[1] as char,
            spec_to_magic(self@)[0] as char,
        ];
        proof {
            assert(is_ascii_chars(cs));
            is_ascii_chars_encode_utf8(cs);
            encode_utf8_valid_utf8(cs);
            encode_utf8_decode_utf8(cs);
            assert(big_endian_value@ =~= Seq::new(cs.len(), |i: int| cs[i] as u8));
            assert(big_endian_value@ == encode_utf8(cs));
        }
        match string_from_utf8(big_endian_value) {
            Some(name) => name,
            None => {
                // Unreachable: four single-byte characters always decode.
                proof {
                    assert(false);
                }
                String::new()
            },
        }
    }

    /// Obtains an enum value based on its four-byte name.
    pub fn from_name(magic: String) -> (r: Result<Self, SilverError>)
        ensures
            r is Ok <==> encode_utf8(magic@).len() == 4,
            r matches Ok(t) ==> t@ == spec_from_magic(
                seq![
                    encode_utf8(magic@)[3],
                    encode_utf8(magic@)[2],
                    encode_utf8(magic@)[1],
                    encode_utf8(magic@)[0],
                ],
            ),
            r is Err ==> r == Err::<SectionType, SilverError>(SilverError::InvalidMagic),
    {
        // Our names are assumed to be big-endian, and four characters.
        let name_bytes: Vec<u8> = utf8_bytes_of(&magic);
        if name_bytes.len() != 4 {
            return Err(SilverError::InvalidMagic);
        }
        // Reverse this big-endian format to be little-endian.
        let raw_magic: SectionMagic = [name_bytes[3], name_bytes[2], name_bytes[1], name_bytes[0]];
        proof {
            assert(raw_magic@ =~= seq![
                encode_utf8(magic@)[3],
                encode_utf8(magic@)[2],
                encode_utf8(magic@)[1],
                encode_utf8(magic@)[0],
            ]);
        }
        Ok(Self::from_magic(raw_magic))
    }
}

} // verus!
