//! Interpretation of a resource's raw bytes according to its section kind:
//! C strings for the string-valued kinds, deferred bytes for bitmaps, and
//! opaque bytes for everything else.

use vstd::prelude::*;

use crate::section_types::{SectionType, SectionTypeModel};
use crate::silver_error::SilverError;
use crate::text::{string_from_utf8, utf8_bytes_of};
use vstd::utf8::{
    decode_utf8, encode_utf8, encode_utf8_decode_utf8, encode_utf8_valid_utf8, is_ascii_chars,
    is_ascii_chars_encode_utf8, valid_utf8, valid_utf8_concat,
};

verus! {

/// Content represented by sections within.
pub enum SectionContent {
    /// A bitmap resource's raw bytes, deferred to the bitmap components.
    Bitmap(Vec<u8>),
    /// Date/time locale data, stored opaque.
    DateTimeLocale(Vec<u8>),
    /// A generic string type. Handled as a C string.
    String(String),
    /// Not an actual section type - used to represent an unknown section's
    /// raw binary contents.
    Unknown(Vec<u8>),
}

/// The mathematical shape of a section's content.
pub ghost enum ContentModel {
    Bitmap(Seq<u8>),
    DateTimeLocale(Seq<u8>),
    String(Seq<char>),
    Unknown(Seq<u8>),
}

impl View for SectionContent {
    type V = ContentModel;

    open spec fn view(&self) -> ContentModel {
        match self {
            SectionContent::Bitmap(b) => ContentModel::Bitmap(b@),
            SectionContent::DateTimeLocale(b) => ContentModel::DateTimeLocale(b@),
            SectionContent::String(s) => ContentModel::String(s@),
            SectionContent::Unknown(b) => ContentModel::Unknown(b@),
        }
    }
}

/// Whether raw bytes form a readable C string: at least the terminator,
/// the whole buffer valid UTF-8, and still valid UTF-8 once the single
/// trailing byte is dropped (so a buffer ending mid-character is rejected
/// rather than read up to a broken boundary).
pub open spec fn c_string_ok(raw: Seq<u8>) -> bool {
    raw.len() >= 1 && valid_utf8(raw) && valid_utf8(raw.drop_last())
}

/// The characters a C string decodes to.
pub open spec fn c_string_chars(raw: Seq<u8>) -> Seq<char> {
    decode_utf8(raw.drop_last())
}

/// The bytes a string reduces to: its UTF-8 encoding and one terminator.
pub open spec fn c_string_bytes(s: Seq<char>) -> Seq<u8> {
    encode_utf8(s).push(0u8)
}

/// What `parse_section` yields for a section kind and raw bytes.
pub open spec fn spec_parse_section(t: SectionTypeModel, raw: Seq<u8>) -> Result<
    ContentModel,
    SilverError,
> {
    match t {
        SectionTypeModel::Bitmap => Ok(ContentModel::Bitmap(raw)),
        SectionTypeModel::DateTimeLocale => Ok(ContentModel::DateTimeLocale(raw)),
        SectionTypeModel::String | SectionTypeModel::StringTranslation
            | SectionTypeModel::AnimControllerString | SectionTypeModel::SilverControllerString =>
            if c_string_ok(raw) {
                Ok(ContentModel::String(c_string_chars(raw)))
            } else {
                Err(SilverError::ContentParseFailure)
            },
        _ => Ok(ContentModel::Unknown(raw)),
    }
}

/// What `reduce_section` yields for a content value.
pub open spec fn spec_reduce_section(c: ContentModel) -> Seq<u8> {
    match c {
        ContentModel::Bitmap(b) => b,
        ContentModel::DateTimeLocale(b) => b,
        ContentModel::String(s) => c_string_bytes(s),
        ContentModel::Unknown(b) => b,
    }
}

/// Whether a content value is of the kind `parse_section` produces for the
/// given section kind.
pub open spec fn content_fits(t: SectionTypeModel, c: ContentModel) -> bool {
    match t {
        SectionTypeModel::Bitmap => c is Bitmap,
        SectionTypeModel::DateTimeLocale => c is DateTimeLocale,
        SectionTypeModel::String | SectionTypeModel::StringTranslation
            | SectionTypeModel::AnimControllerString | SectionTypeModel::SilverControllerString => c
            is String,
        _ => c is Unknown,
    }
}

/// Reducing a content value and parsing it back under the same section
/// kind yields the value again.
pub proof fn lemma_content_round_trip(t: SectionTypeModel, c: ContentModel)
    requires
        content_fits(t, c),
    ensures
        spec_parse_section(t, spec_reduce_section(c)) == Ok::<ContentModel, SilverError>(c),
{
    if c is String {
        let s = c->String_0;
        broadcast use encode_utf8_valid_utf8, encode_utf8_decode_utf8;

        assert(c_string_bytes(s).drop_last() =~= encode_utf8(s));
        // The whole reduced buffer is valid UTF-8: the encoding of the
        // string followed by the encoding of one NUL character.
        let nul: Seq<char> = seq!['\0'];
        assert(is_ascii_chars(nul));
        is_ascii_chars_encode_utf8(nul);
        assert(encode_utf8(nul) =~= seq![0u8]);
        valid_utf8_concat(encode_utf8(s), encode_utf8(nul));
        assert(c_string_bytes(s) =~= encode_utf8(s) + encode_utf8(nul));
        assert(c_string_ok(c_string_bytes(s)));
    }
}

/// As many resources are C strings, they contain a null terminator.
/// We process them by interpreting the whole buffer as UTF-8 and removing
/// the trailing null terminator; an empty buffer, a buffer that is not
/// valid UTF-8, or one whose single trailing byte splits a character is a
/// content-parse failure.
pub fn process_c_string(raw_data: Vec<u8>) -> (r: Result<String, SilverError>)
    ensures
        r is Ok <==> c_string_ok(raw_data@),
        r matches Ok(s) ==> s@ == c_string_chars(raw_data@),
        r is Err ==> r == Err::<String, SilverError>(SilverError::ContentParseFailure),
{
    let ghost orig: Seq<u8> = raw_data@;
    // The whole buffer, terminator included, must interpret as UTF-8.
    let probe: Vec<u8> = clone_raw(&raw_data);
    if string_from_utf8(probe).is_none() {
        return Err(SilverError::ContentParseFailure);
    }
    let mut trimmed: Vec<u8> = raw_data;
    // Remove the last byte, the null terminator; an empty buffer has none.
    if trimmed.pop().is_none() {
        return Err(SilverError::ContentParseFailure);
    }
    proof {
        assert(trimmed@ =~= orig.drop_last());
    }
    match string_from_utf8(trimmed) {
        Some(contents) => Ok(contents),
        None => Err(SilverError::ContentParseFailure),
    }
}

/// A copy of a raw byte buffer.
fn clone_raw(b: &Vec<u8>) -> (r: Vec<u8>)
    ensures
        r@ == b@,
{
    let r = b.clone();
    proof {
        assert(r@ =~= b@);
    }
    r
}

/// Similarly to `process_c_string`, when we create C strings once more,
/// they need to end with a null terminator. We simply tack one on.
pub fn create_c_string(raw_string: String) -> (r: Vec<u8>)
    ensures
        r@ == c_string_bytes(raw_string@),
{
    let mut contents: Vec<u8> = utf8_bytes_of(&raw_string);
    contents.push(0x00);
    contents
}

impl SectionContent {
    /// Parses contents to a higher-level type accordingly based on their
    /// section.
    pub fn parse_section(section_type: &SectionType, raw_data: Vec<u8>) -> (r: Result<
        SectionContent,
        SilverError,
    >)
        ensures
            r is Ok <==> spec_parse_section(section_type@, raw_data@) is Ok,
            r matches Ok(c) ==> Ok::<ContentModel, SilverError>(c@) == spec_parse_section(
                section_type@,
                raw_data@,
            ),
            r matches Err(e) ==> Err::<ContentModel, SilverError>(e) == spec_parse_section(
                section_type@,
                raw_data@,
            ),
    {
        match section_type {
            SectionType::Bitmap => Ok(SectionContent::Bitmap(raw_data)),
            SectionType::DateTimeLocale => Ok(SectionContent::DateTimeLocale(raw_data)),
            // Several types are simply C strings.
            SectionType::String | SectionType::StringTranslation
                | SectionType::AnimControllerString | SectionType::SilverControllerString => {
                match process_c_string(raw_data) {
                    Ok(s) => Ok(SectionContent::String(s)),
                    Err(e) => Err(e),
                }
            },
            _ => Ok(SectionContent::Unknown(raw_data)),
        }
    }

    /// Reduces contents from their higher-level type to their raw binary
    /// representation.
    pub fn reduce_section(section_content: SectionContent) -> (r: Result<Vec<u8>, SilverError>)
        ensures
            r is Ok,
            r matches Ok(v) ==> v@ == spec_reduce_section(section_content@),
    {
        let raw_data: Vec<u8> = match section_content {
            SectionContent::Bitmap(raw_contents) => raw_contents,
            SectionContent::DateTimeLocale(raw_contents) => raw_contents,
            SectionContent::Unknown(raw_contents) => raw_contents,
            SectionContent::String(raw_string) => create_c_string(raw_string),
        };
        Ok(raw_data)
    }
}

} // verus!
