//! The on-disk SilverDB container layout: a fixed header, a section header
//! table, per-section resource metadata tables, and raw resource payloads.
//!
//! Section metadata offsets are absolute (from the start of the file), while
//! resource payload offsets are relative to the end of the header region
//! (`header_length`). The two bases are kept apart throughout.

use vstd::prelude::*;

use crate::little_helper::{
    le32_at, le32_bytes, lemma_le32_at_bytes, lemma_pow256_small, pad4, zero_bytes, LittleHelper,
    SectionMagic,
};
use crate::silver_error::SilverError;

verus! {

/// Whether the byte is in the printable range that section signatures use.
pub open spec fn is_ascii_byte(current_byte: u8) -> bool {
    32 <= current_byte <= 128
}

/// Simple function to determine whether the current byte is printable ASCII.
pub fn is_ascii(current_byte: u8) -> (r: bool)
    ensures
        r == is_ascii_byte(current_byte),
{
    32 <= current_byte && current_byte <= 128
}

/// The mathematical shape of one resource: its identifier, the offsets
/// recorded for it on disk, and its payload bytes.
pub ghost struct ResourceModel {
    pub id: u32,
    pub data_offset: u32,
    pub data_size: u32,
    pub contents: Seq<u8>,
}

/// The mathematical shape of one section and its resources.
pub ghost struct SectionModel {
    pub magic: Seq<u8>,
    pub resource_count: u32,
    pub is_sequential: u32,
    pub resource_offset: u32,
    pub resources: Seq<ResourceModel>,
}

/// The mathematical shape of a whole database file.
pub ghost struct FormatModel {
    pub version: u32,
    pub header_length: u32,
    pub section_count: u32,
    pub sections: Seq<SectionModel>,
}

impl ResourceModel {
    /// The stored size agrees with the payload actually held.
    pub open spec fn wf(self) -> bool {
        self.data_size == self.contents.len()
    }
}

impl SectionModel {
    /// The stored resource count agrees with the resources actually held.
    pub open spec fn wf(self) -> bool {
        &&& self.magic.len() == 4
        &&& self.resource_count == self.resources.len()
        &&& forall|j: int| 0 <= j < self.resources.len() ==> (#[trigger] self.resources[j]).wf()
    }
}

impl FormatModel {
    /// The stored section count agrees with the sections actually held.
    pub open spec fn wf(self) -> bool {
        &&& self.section_count == self.sections.len()
        &&& forall|i: int| 0 <= i < self.sections.len() ==> (#[trigger] self.sections[i]).wf()
    }
}

pub struct SilverDBHeader {
    /// 0x03 across the firmware generations this format has been seen in.
    pub version: u32,
    /// The length consumed by header content.
    /// Resource data begins immediately after all header values.
    pub header_length: u32,
    /// The amount of sections this database contains.
    pub section_count: u32,
}

pub struct ResourceMetadata {
    /// The ID is how this resource is referenced. For example, 0x0dad06d8.
    pub id: u32,
    /// The offset to where this resource's data is located.
    /// This is relative to where data begins (i.e. after header, section
    /// headers, and resource entries.)
    pub data_offset: u32,
    /// The length of this resource.
    pub data_size: u32,
    /// The raw, binary contents of this resource.
    pub contents: Vec<u8>,
}

pub struct SectionHeader {
    /// The magic identifying this section (i.e. 'Str ', 'BMap', 'LDTm', etc.)
    pub magic: SectionMagic,
    /// The amount of resources contained within this section.
    pub resource_count: u32,
    /// Whether this section's IDs are sequential and start at 1.
    pub is_sequential: u32,
    /// Offset to the array of resource entries, relative to the start of the
    /// file (0x0).
    pub resource_offset: u32,
    /// All available resources within this section.
    pub resources: Vec<ResourceMetadata>,
}

pub struct SilverDBFormat {
    pub header: SilverDBHeader,
    pub sections: Vec<SectionHeader>,
}

impl View for ResourceMetadata {
    type V = ResourceModel;

    open spec fn view(&self) -> ResourceModel {
        ResourceModel {
            id: self.id,
            data_offset: self.data_offset,
            data_size: self.data_size,
            contents: self.contents@,
        }
    }
}

impl View for SectionHeader {
    type V = SectionModel;

    open spec fn view(&self) -> SectionModel {
        SectionModel {
            magic: self.magic@,
            resource_count: self.resource_count,
            is_sequential: self.is_sequential,
            resource_offset: self.resource_offset,
            resources: self.resources@.map_values(|r: ResourceMetadata| r@),
        }
    }
}

impl View for SilverDBFormat {
    type V = FormatModel;

    open spec fn view(&self) -> FormatModel {
        FormatModel {
            version: self.header.version,
            header_length: self.header.header_length,
            section_count: self.header.section_count,
            sections: self.sections@.map_values(|s: SectionHeader| s@),
        }
    }
}

/// The version field, at byte offset 0.
pub open spec fn db_version(b: Seq<u8>) -> u32 {
    le32_at(b, 0)
}

/// The header-length field, at byte offset 4.
pub open spec fn db_header_length(b: Seq<u8>) -> u32 {
    le32_at(b, 4)
}

/// The section-count field, at byte offset 8.
pub open spec fn db_section_count(b: Seq<u8>) -> u32 {
    le32_at(b, 8)
}

/// The four magic bytes of section `i`'s header entry.
pub open spec fn section_magic(b: Seq<u8>, i: int) -> Seq<u8> {
    b.subrange(12 + 16 * i, 12 + 16 * i + 4)
}

/// The resource count of section `i`'s header entry.
pub open spec fn section_resource_count(b: Seq<u8>, i: int) -> u32 {
    le32_at(b, 12 + 16 * i + 4)
}

/// The sequential-ids flag of section `i`'s header entry.
pub open spec fn section_is_sequential(b: Seq<u8>, i: int) -> u32 {
    le32_at(b, 12 + 16 * i + 8)
}

/// The absolute resource-table offset of section `i`'s header entry.
pub open spec fn section_resource_offset(b: Seq<u8>, i: int) -> u32 {
    le32_at(b, 12 + 16 * i + 12)
}

/// The identifier of resource `j` in section `i`'s resource table.
pub open spec fn resource_id(b: Seq<u8>, i: int, j: int) -> u32 {
    le32_at(b, section_resource_offset(b, i) + 12 * j)
}

/// The payload offset (relative to the end of the header region) of
/// resource `j` in section `i`'s resource table.
pub open spec fn resource_data_offset(b: Seq<u8>, i: int, j: int) -> u32 {
    le32_at(b, section_resource_offset(b, i) + 12 * j + 4)
}

/// The payload size of resource `j` in section `i`'s resource table.
pub open spec fn resource_data_size(b: Seq<u8>, i: int, j: int) -> u32 {
    le32_at(b, section_resource_offset(b, i) + 12 * j + 8)
}

/// The payload bytes of resource `j` in section `i`.
pub open spec fn resource_contents(b: Seq<u8>, i: int, j: int) -> Seq<u8> {
    b.subrange(
        db_header_length(b) + resource_data_offset(b, i, j),
        db_header_length(b) + resource_data_offset(b, i, j) + resource_data_size(b, i, j),
    )
}

/// The cheap structural checks that let probing callers reject a buffer
/// that plainly does not start with a database.
pub open spec fn header_plausible(b: Seq<u8>) -> bool {
    &&& b.len() >= 40
    &&& db_version(b) == 3
    &&& 1 <= db_header_length(b) <= 262144
    &&& 1 <= db_section_count(b) <= 128
    &&& 12 + 16 * db_section_count(b) <= b.len()
    &&& 12 + 16 * db_section_count(b) <= db_header_length(b)
}

/// Every section header entry carries a printable magic and a boolean
/// sequential-ids flag.
pub open spec fn section_entries_valid(b: Seq<u8>) -> bool {
    forall|i: int|
        #![trigger section_magic(b, i)]
        0 <= i < db_section_count(b) ==> {
            &&& is_ascii_byte(section_magic(b, i)[0])
            &&& is_ascii_byte(section_magic(b, i)[1])
            &&& is_ascii_byte(section_magic(b, i)[2])
            &&& is_ascii_byte(section_magic(b, i)[3])
            &&& (section_is_sequential(b, i) == 0 || section_is_sequential(b, i) == 1)
        }
}

/// All checks that, when violated, make `read` reject the buffer as
/// `InvalidHeader`.
pub open spec fn spec_header_ok(b: Seq<u8>) -> bool {
    header_plausible(b) && section_entries_valid(b)
}

/// Every non-empty section's resource table lies inside the buffer.
/// A section without resources reads nothing from its table offset.
pub open spec fn resource_tables_in_bounds(b: Seq<u8>) -> bool {
    forall|i: int|
        #![trigger section_resource_offset(b, i)]
        0 <= i < db_section_count(b) && section_resource_count(b, i) > 0
            ==> section_resource_offset(b, i) + 12 * section_resource_count(b, i) <= b.len()
}

/// Every resource's payload lies inside the buffer.
pub open spec fn payloads_in_bounds(b: Seq<u8>) -> bool {
    forall|i: int, j: int|
        #![trigger resource_data_offset(b, i, j)]
        0 <= i < db_section_count(b) && 0 <= j < section_resource_count(b, i)
            ==> db_header_length(b) + resource_data_offset(b, i, j) + resource_data_size(b, i, j)
            <= b.len()
}

/// Exactly when `read` succeeds on `b`.
pub open spec fn spec_read_ok(b: Seq<u8>) -> bool {
    spec_header_ok(b) && resource_tables_in_bounds(b) && payloads_in_bounds(b)
}

/// The database value that `read` returns on success: every field is the
/// little-endian value or byte range the layout assigns to it.
pub open spec fn spec_parsed(b: Seq<u8>) -> FormatModel {
    FormatModel {
        version: db_version(b),
        header_length: db_header_length(b),
        section_count: db_section_count(b),
        sections: Seq::new(
            db_section_count(b) as nat,
            |i: int|
                SectionModel {
                    magic: section_magic(b, i),
                    resource_count: section_resource_count(b, i),
                    is_sequential: section_is_sequential(b, i),
                    resource_offset: section_resource_offset(b, i),
                    resources: Seq::new(
                        section_resource_count(b, i) as nat,
                        |j: int|
                            ResourceModel {
                                id: resource_id(b, i, j),
                                data_offset: resource_data_offset(b, i, j),
                                data_size: resource_data_size(b, i, j),
                                contents: resource_contents(b, i, j),
                            },
                    ),
                },
        ),
    }
}

impl SilverDBFormat {
    /// Reads a SilverDB-format file, returning a representation of its contents.
    #[verifier::loop_isolation(false)]
    pub fn read(file_contents: Vec<u8>) -> (r: Result<Self, SilverError>)
        requires
            file_contents@.len() <= u32::MAX,
        ensures
            r is Ok <==> spec_read_ok(file_contents@),
            r matches Ok(f) ==> f@ == spec_parsed(file_contents@),
            r matches Err(e) ==> e == (if !spec_header_ok(file_contents@) {
                SilverError::InvalidHeader
            } else {
                SilverError::ParseError
            }),
    {
        let ghost b: Seq<u8> = file_contents@;
        let mut reader = LittleHelper::from_vec(file_contents);
        let reader_length: u32 = reader.len();

        // First, do we have enough space to read the header?
        // A header with one section and one resource entry takes 40 bytes.
        if 40 > reader_length {
            return Err(SilverError::InvalidHeader);
        }
        // Next, read the header.
        let version: u32 = match reader.read_u32_le() {
            Ok(v) => v,
            Err(_) => {
                return Err(SilverError::ParseError);
            },
        };
        let header_length: u32 = match reader.read_u32_le() {
            Ok(v) => v,
            Err(_) => {
                return Err(SilverError::ParseError);
            },
        };
        let section_count: u32 = match reader.read_u32_le() {
            Ok(v) => v,
            Err(_) => {
                return Err(SilverError::ParseError);
            },
        };
        // Do we have the correct database header version?
        if version != 3 {
            return Err(SilverError::InvalidHeader);
        }
        // The header length can get long in practice, but should never
        // exceed 256 kilobytes.
        let max_header_size: u32 = 256 * 1024;
        if header_length == 0 || header_length > max_header_size {
            return Err(SilverError::InvalidHeader);
        }
        // Similarly, no database should ever hold more than 128 sections.
        let max_section_count: u32 = 128;
        if section_count == 0 || section_count > max_section_count {
            return Err(SilverError::InvalidHeader);
        }
        // Do we feasibly have space for the section table the count implies?
        // We begin with 12 bytes of header; every section has 16 bytes of
        // metadata, before accounting for resource entries.
        let expected_header_length: u32 = 12 + (16 * section_count);
        if expected_header_length > reader_length {
            return Err(SilverError::InvalidHeader);
        }
        // The declared header length must at least cover the header and
        // the section table it implies.
        if header_length < expected_header_length {
            return Err(SilverError::InvalidHeader);
        }
        // This seems like a valid header: read all section metadata, which
        // immediately follows the header.
        let mut headers: Vec<(SectionMagic, u32, u32, u32)> = Vec::new();
        let mut i: usize = 0;
        while i < section_count as usize
            invariant
                reader.bytes() == b,
                reader.pos() == 12 + 16 * i as int,
                b.len() <= u32::MAX,
                b.len() >= 40,
                section_count == db_section_count(b),
                i <= section_count,
                12 + 16 * section_count <= b.len(),
                headers@.len() == i,
                forall|k: int|
                    0 <= k < i as int ==> {
                        &&& (#[trigger] headers@[k]).0@ == section_magic(b, k)
                        &&& headers@[k].1 == section_resource_count(b, k)
                        &&& headers@[k].2 == section_is_sequential(b, k)
                        &&& headers@[k].3 == section_resource_offset(b, k)
                    },
                forall|k: int|
                    #![trigger section_magic(b, k)]
                    0 <= k < i as int ==> {
                        &&& is_ascii_byte(section_magic(b, k)[0])
                        &&& is_ascii_byte(section_magic(b, k)[1])
                        &&& is_ascii_byte(section_magic(b, k)[2])
                        &&& is_ascii_byte(section_magic(b, k)[3])
                        &&& (section_is_sequential(b, k) == 0 || section_is_sequential(b, k) == 1)
                    },
            decreases section_count as int - i as int,
        {
            let magic: SectionMagic = match reader.read_magic() {
                Ok(m) => m,
                Err(_) => {
                    return Err(SilverError::ParseError);
                },
            };
            let resource_count: u32 = match reader.read_u32_le() {
                Ok(v) => v,
                Err(_) => {
                    return Err(SilverError::ParseError);
                },
            };
            let is_sequential: u32 = match reader.read_u32_le() {
                Ok(v) => v,
                Err(_) => {
                    return Err(SilverError::ParseError);
                },
            };
            let resource_offset: u32 = match reader.read_u32_le() {
                Ok(v) => v,
                Err(_) => {
                    return Err(SilverError::ParseError);
                },
            };
            proof {
                assert(magic@ =~= section_magic(b, i as int));
            }
            let m0: u8 = magic[0];
            let m1: u8 = magic[1];
            let m2: u8 = magic[2];
            let m3: u8 = magic[3];
            proof {
                assert(m0 == section_magic(b, i as int)[0]);
                assert(m1 == section_magic(b, i as int)[1]);
                assert(m2 == section_magic(b, i as int)[2]);
                assert(m3 == section_magic(b, i as int)[3]);
            }
            // We expect all section header magic to be printable ASCII.
            if !(is_ascii(m0) && is_ascii(m1) && is_ascii(m2) && is_ascii(m3)) {
                return Err(SilverError::InvalidHeader);
            }
            // We additionally expect is_sequential to be a boolean value.
            if !(is_sequential == 0 || is_sequential == 1) {
                return Err(SilverError::InvalidHeader);
            }
            headers.push((magic, resource_count, is_sequential, resource_offset));
            proof {
                assert forall|k: int| 0 <= k < i as int + 1 implies {
                    &&& is_ascii_byte(#[trigger] section_magic(b, k)[0])
                    &&& is_ascii_byte(section_magic(b, k)[1])
                    &&& is_ascii_byte(section_magic(b, k)[2])
                    &&& is_ascii_byte(section_magic(b, k)[3])
                    &&& (section_is_sequential(b, k) == 0 || section_is_sequential(b, k) == 1)
                } by {
                    if k == i as int {
                        assert(section_magic(b, k)[0] == m0);
                        assert(section_magic(b, k)[1] == m1);
                        assert(section_magic(b, k)[2] == m2);
                        assert(section_magic(b, k)[3] == m3);
                    } else {
                        assert(0 <= k < i as int);
                    }
                }
            }
            i = i + 1;
        }
        proof {
            assert(spec_header_ok(b));
        }
        // Beyond section metadata, we have all per-resource metadata, then
        // the raw resource data itself. Resource tables sit at the absolute
        // offset each section header names; payloads sit relative to the end
        // of the header region. We honor the file format and jump around.
        let mut db_sections: Vec<SectionHeader> = Vec::new();
        let mut i: usize = 0;
        while i < section_count as usize
            invariant
                reader.bytes() == b,
                b.len() <= u32::MAX,
                b.len() >= 40,
                section_count == db_section_count(b),
                header_length == db_header_length(b),
                spec_header_ok(b),
                i <= section_count,
                headers@.len() == section_count,
                forall|k: int|
                    0 <= k < section_count ==> {
                        &&& (#[trigger] headers@[k]).0@ == section_magic(b, k)
                        &&& headers@[k].1 == section_resource_count(b, k)
                        &&& headers@[k].2 == section_is_sequential(b, k)
                        &&& headers@[k].3 == section_resource_offset(b, k)
                    },
                db_sections@.len() == i,
                forall|k: int|
                    0 <= k < i as int ==> (#[trigger] db_sections@[k])@ == spec_parsed(
                        b,
                    ).sections[k],
                forall|k: int|
                    #![trigger section_resource_offset(b, k)]
                    0 <= k < i as int && section_resource_count(b, k) > 0 ==>
                        section_resource_offset(b, k) + 12 * section_resource_count(b, k)
                        <= b.len(),
                forall|k: int, l: int|
                    0 <= k < i as int && 0 <= l < section_resource_count(b, k)
                        ==> db_header_length(b) + #[trigger] resource_data_offset(b, k, l)
                        + resource_data_size(b, k, l) <= b.len(),
            decreases section_count as int - i as int,
        {
            let entry: (SectionMagic, u32, u32, u32) = headers[i];
            let magic: SectionMagic = entry.0;
            let resource_count: u32 = entry.1;
            let is_sequential: u32 = entry.2;
            let resource_offset: u32 = entry.3;
            // Read this section's table of (id, data offset, data size).
            reader.seek_to_u32(resource_offset);
            let mut triples: Vec<(u32, u32, u32)> = Vec::new();
            let mut j: usize = 0;
            while j < resource_count as usize
                invariant
                    reader.bytes() == b,
                    reader.pos() == resource_offset as int + 12 * j as int,
                    b.len() <= u32::MAX,
                    j <= resource_count,
                    spec_header_ok(b),
                    resource_offset == section_resource_offset(b, i as int),
                    resource_count == section_resource_count(b, i as int),
                    (i as int) < db_section_count(b),
                    j > 0 ==> reader.pos() <= b.len(),
                    triples@.len() == j,
                    forall|l: int|
                        0 <= l < j as int ==> {
                            &&& (#[trigger] triples@[l]).0 == resource_id(b, i as int, l)
                            &&& triples@[l].1 == resource_data_offset(b, i as int, l)
                            &&& triples@[l].2 == resource_data_size(b, i as int, l)
                        },
                decreases resource_count as int - j as int,
            {
                let rid: u32 = match reader.read_u32_le() {
                    Ok(v) => v,
                    Err(_) => {
                        proof {
                            assert(section_resource_offset(b, i as int) + 12
                                * section_resource_count(b, i as int) > b.len());
                        }
                        return Err(SilverError::ParseError);
                    },
                };
                let data_offset: u32 = match reader.read_u32_le() {
                    Ok(v) => v,
                    Err(_) => {
                        proof {
                            assert(section_resource_offset(b, i as int) + 12
                                * section_resource_count(b, i as int) > b.len());
                        }
                        return Err(SilverError::ParseError);
                    },
                };
                let data_size: u32 = match reader.read_u32_le() {
                    Ok(v) => v,
                    Err(_) => {
                        proof {
                            assert(section_resource_offset(b, i as int) + 12
                                * section_resource_count(b, i as int) > b.len());
                        }
                        return Err(SilverError::ParseError);
                    },
                };
                triples.push((rid, data_offset, data_size));
                j = j + 1;
            }
            // Read every payload for this section. Payload offsets are
            // relative to the end of the header region, not the file start.
            let mut resources: Vec<ResourceMetadata> = Vec::new();
            let mut j: usize = 0;
            while j < triples.len()
                invariant
                    reader.bytes() == b,
                    b.len() <= u32::MAX,
                    j <= triples@.len(),
                    triples@.len() == resource_count,
                    spec_header_ok(b),
                    header_length == db_header_length(b),
                    resource_count == section_resource_count(b, i as int),
                    (i as int) < db_section_count(b),
                    forall|l: int|
                        0 <= l < triples@.len() ==> {
                            &&& (#[trigger] triples@[l]).0 == resource_id(b, i as int, l)
                            &&& triples@[l].1 == resource_data_offset(b, i as int, l)
                            &&& triples@[l].2 == resource_data_size(b, i as int, l)
                        },
                    resources@.len() == j,
                    forall|l: int|
                        0 <= l < j as int ==> (#[trigger] resources@[l])@ == spec_parsed(
                            b,
                        ).sections[i as int].resources[l],
                    forall|l: int|
                        0 <= l < j as int ==> db_header_length(b) + #[trigger] resource_data_offset(
                            b,
                            i as int,
                            l,
                        ) + resource_data_size(b, i as int, l) <= b.len(),
                decreases triples@.len() - j as int,
            {
                let entry: (u32, u32, u32) = triples[j];
                let rid: u32 = entry.0;
                let data_offset: u32 = entry.1;
                let data_size: u32 = entry.2;
                // We must seek relative to the end of the header. If the
                // absolute position cannot even be formed, the payload
                // certainly lies outside the buffer.
                if data_offset > u32::MAX - header_length {
                    proof {
                        assert(db_header_length(b) + resource_data_offset(b, i as int, j as int)
                            + resource_data_size(b, i as int, j as int) > b.len());
                    }
                    return Err(SilverError::ParseError);
                }
                reader.seek_to_u32(header_length + data_offset);
                let raw_contents: Vec<u8> = match reader.read_length(data_size) {
                    Ok(v) => v,
                    Err(_) => {
                        proof {
                            assert(db_header_length(b) + resource_data_offset(b, i as int, j as int)
                                + resource_data_size(b, i as int, j as int) > b.len());
                        }
                        return Err(SilverError::ParseError);
                    },
                };
                resources.push(
                    ResourceMetadata { id: rid, data_offset, data_size, contents: raw_contents },
                );
                j = j + 1;
                proof {
                    assert((resources@[j - 1])@ =~~= spec_parsed(b).sections[i as int].resources[j
                        - 1]);
                }
            }
            db_sections.push(
                SectionHeader { magic, resource_count, is_sequential, resource_offset, resources },
            );
            i = i + 1;
            proof {
                assert((db_sections@[i - 1])@.resources =~~= spec_parsed(b).sections[i
                    - 1].resources);
                assert((db_sections@[i - 1])@ =~~= spec_parsed(b).sections[i - 1]);
            }
        }
        let result = SilverDBFormat {
            header: SilverDBHeader { version, header_length, section_count },
            sections: db_sections,
        };
        proof {
            assert(result@.sections =~~= spec_parsed(b).sections);
            assert(result@ =~~= spec_parsed(b));
        }
        Ok(result)
    }
}

/// The signature of the one legacy section observed to need four extra
/// bytes of alignment after its payloads. The root cause is unknown; the
/// rule is not generalized beyond this signature.
pub open spec fn quirk_magic() -> Seq<u8> {
    seq![0x4Cu8, 0x56u8, 0x52u8, 0x53u8]
}

/// The payload bytes one resource contributes on write: its contents,
/// padded to a four-byte boundary.
pub open spec fn res_payload(r: ResourceModel) -> Seq<u8> {
    r.contents + zero_bytes(pad4(r.contents.len() as int))
}

/// The payload bytes a section's resources contribute, in order.
pub open spec fn resources_payload(rs: Seq<ResourceModel>) -> Seq<u8>
    decreases rs.len(),
{
    if rs.len() == 0 {
        Seq::empty()
    } else {
        resources_payload(rs.drop_last()) + res_payload(rs.last())
    }
}

/// The payload bytes a whole section contributes, with the extra alignment
/// for the legacy signature.
pub open spec fn section_payload(s: SectionModel) -> Seq<u8> {
    resources_payload(s.resources) + (if s.magic == quirk_magic() {
        zero_bytes(4)
    } else {
        Seq::<u8>::empty()
    })
}

/// The payload region: every section's payload bytes, in section order.
pub open spec fn sections_payload(ss: Seq<SectionModel>) -> Seq<u8>
    decreases ss.len(),
{
    if ss.len() == 0 {
        Seq::empty()
    } else {
        sections_payload(ss.drop_last()) + section_payload(ss.last())
    }
}

/// One resource-table entry: identifier, payload offset, payload size.
pub open spec fn res_meta(r: ResourceModel, off: int) -> Seq<u8> {
    le32_bytes(r.id) + le32_bytes(off as u32) + le32_bytes(r.data_size)
}

/// A section's resource table, given the payload offset at which the
/// section's payloads begin.
pub open spec fn resources_meta(rs: Seq<ResourceModel>, base: int) -> Seq<u8>
    decreases rs.len(),
{
    if rs.len() == 0 {
        Seq::empty()
    } else {
        resources_meta(rs.drop_last(), base) + res_meta(
            rs.last(),
            base + resources_payload(rs.drop_last()).len() as int,
        )
    }
}

/// The resource-metadata region: every section's resource table, in order.
pub open spec fn sections_meta(ss: Seq<SectionModel>) -> Seq<u8>
    decreases ss.len(),
{
    if ss.len() == 0 {
        Seq::empty()
    } else {
        sections_meta(ss.drop_last()) + resources_meta(
            ss.last().resources,
            sections_payload(ss.drop_last()).len() as int,
        )
    }
}

/// One section-header entry, given the metadata-region offset of the
/// section's resource table and the total section count.
pub open spec fn section_header_bytes(s: SectionModel, meta_base: int, n: int) -> Seq<u8> {
    s.magic + le32_bytes(s.resource_count) + le32_bytes(s.is_sequential) + le32_bytes(
        (12 + 16 * n + meta_base) as u32,
    )
}

/// The section-header table region.
pub open spec fn sections_header(ss: Seq<SectionModel>, n: int) -> Seq<u8>
    decreases ss.len(),
{
    if ss.len() == 0 {
        Seq::empty()
    } else {
        sections_header(ss.drop_last(), n) + section_header_bytes(
            ss.last(),
            sections_meta(ss.drop_last()).len() as int,
            n,
        )
    }
}

/// The header length `write` computes: the fixed header, the section
/// table, and every resource table.
pub open spec fn spec_header_length(m: FormatModel) -> int {
    12 + 16 * (m.sections.len() as int) + (sections_meta(m.sections).len() as int)
}

/// Exactly the bytes that `write` produces for a well-formed database.
pub open spec fn spec_write_bytes(m: FormatModel) -> Seq<u8> {
    le32_bytes(m.version) + le32_bytes(spec_header_length(m) as u32) + le32_bytes(
        m.sections.len() as u32,
    ) + sections_header(m.sections, m.sections.len() as int) + sections_meta(m.sections)
        + sections_payload(m.sections)
}

/// Taking one more element splits off exactly that element.
pub proof fn lemma_take_snoc<A>(s: Seq<A>, i: int)
    requires
        0 <= i < s.len(),
    ensures
        s.take(i + 1).drop_last() == s.take(i),
        s.take(i + 1).last() == s[i],
{
    assert(s.take(i + 1).drop_last() =~= s.take(i));
}

/// A resource's padded payload is a whole number of four-byte words.
pub proof fn lemma_res_payload_aligned(r: ResourceModel)
    ensures
        res_payload(r).len() % 4 == 0,
{
}

/// A resource list's payload bytes are a whole number of four-byte words.
pub proof fn lemma_resources_payload_aligned(rs: Seq<ResourceModel>)
    ensures
        resources_payload(rs).len() % 4 == 0,
    decreases rs.len(),
{
    if rs.len() > 0 {
        lemma_resources_payload_aligned(rs.drop_last());
        lemma_res_payload_aligned(rs.last());
    }
}

/// A section's payload bytes are a whole number of four-byte words.
pub proof fn lemma_section_payload_aligned(s: SectionModel)
    ensures
        section_payload(s).len() % 4 == 0,
{
    lemma_resources_payload_aligned(s.resources);
}

/// The payload region is a whole number of four-byte words.
pub proof fn lemma_sections_payload_aligned(ss: Seq<SectionModel>)
    ensures
        sections_payload(ss).len() % 4 == 0,
    decreases ss.len(),
{
    if ss.len() > 0 {
        lemma_sections_payload_aligned(ss.drop_last());
        lemma_section_payload_aligned(ss.last());
    }
}

/// Extending the written prefix by one resource appends its padded payload.
pub proof fn lemma_resources_payload_snoc(rs: Seq<ResourceModel>, j: int)
    requires
        0 <= j < rs.len(),
    ensures
        resources_payload(rs.take(j + 1)) == resources_payload(rs.take(j)) + res_payload(rs[j]),
{
    lemma_take_snoc(rs, j);
}

/// Extending the written prefix by one section appends its payload bytes.
pub proof fn lemma_sections_payload_snoc(ss: Seq<SectionModel>, i: int)
    requires
        0 <= i < ss.len(),
    ensures
        sections_payload(ss.take(i + 1)) == sections_payload(ss.take(i)) + section_payload(ss[i]),
{
    lemma_take_snoc(ss, i);
}

/// Extending the written prefix by one resource appends its table entry.
pub proof fn lemma_resources_meta_snoc(rs: Seq<ResourceModel>, base: int, j: int)
    requires
        0 <= j < rs.len(),
    ensures
        resources_meta(rs.take(j + 1), base) == resources_meta(rs.take(j), base) + res_meta(
            rs[j],
            base + resources_payload(rs.take(j)).len() as int,
        ),
{
    lemma_take_snoc(rs, j);
}

/// Extending the written prefix by one section appends its resource table.
pub proof fn lemma_sections_meta_snoc(ss: Seq<SectionModel>, i: int)
    requires
        0 <= i < ss.len(),
    ensures
        sections_meta(ss.take(i + 1)) == sections_meta(ss.take(i)) + resources_meta(
            ss[i].resources,
            sections_payload(ss.take(i)).len() as int,
        ),
{
    lemma_take_snoc(ss, i);
}

/// Extending the written prefix by one section appends its header entry.
pub proof fn lemma_sections_header_snoc(ss: Seq<SectionModel>, n: int, i: int)
    requires
        0 <= i < ss.len(),
    ensures
        sections_header(ss.take(i + 1), n) == sections_header(ss.take(i), n)
            + section_header_bytes(ss[i], sections_meta(ss.take(i)).len() as int, n),
{
    lemma_take_snoc(ss, i);
}

/// A prefix of the payload region never exceeds the whole region.
pub proof fn lemma_sections_payload_prefix(ss: Seq<SectionModel>, i: int)
    requires
        0 <= i <= ss.len(),
    ensures
        sections_payload(ss.take(i)).len() <= sections_payload(ss).len(),
    decreases ss.len() - i,
{
    if i < ss.len() {
        lemma_sections_payload_snoc(ss, i);
        lemma_sections_payload_prefix(ss, i + 1);
    } else {
        assert(ss.take(i) =~= ss);
    }
}

/// A prefix of the metadata region never exceeds the whole region.
pub proof fn lemma_sections_meta_prefix(ss: Seq<SectionModel>, i: int)
    requires
        0 <= i <= ss.len(),
    ensures
        sections_meta(ss.take(i)).len() <= sections_meta(ss).len(),
    decreases ss.len() - i,
{
    if i < ss.len() {
        lemma_sections_meta_snoc(ss, i);
        lemma_sections_meta_prefix(ss, i + 1);
    } else {
        assert(ss.take(i) =~= ss);
    }
}

/// A prefix of one section's payload bytes never exceeds the section's.
pub proof fn lemma_resources_payload_prefix(rs: Seq<ResourceModel>, j: int)
    requires
        0 <= j <= rs.len(),
    ensures
        resources_payload(rs.take(j)).len() <= resources_payload(rs).len(),
    decreases rs.len() - j,
{
    if j < rs.len() {
        lemma_resources_payload_snoc(rs, j);
        lemma_resources_payload_prefix(rs, j + 1);
    } else {
        assert(rs.take(j) =~= rs);
    }
}

/// The section-header table takes sixteen bytes per section.
pub proof fn lemma_sections_header_len(ss: Seq<SectionModel>, n: int)
    requires
        forall|i: int| 0 <= i < ss.len() ==> (#[trigger] ss[i]).magic.len() == 4,
    ensures
        sections_header(ss, n).len() == 16 * ss.len(),
    decreases ss.len(),
{
    if ss.len() > 0 {
        lemma_sections_header_len(ss.drop_last(), n);
    }
}

/// Appends one resource's padded payload to the payload region and its
/// table entry to the metadata region.
#[verifier::loop_isolation(false)]
fn write_resource(
    resource_metadata_writer: &mut LittleHelper,
    raw_data_writer: &mut LittleHelper,
    current_resource: &ResourceMetadata,
    Ghost(meta_prefix): Ghost<Seq<u8>>,
    Ghost(data_prefix): Ghost<Seq<u8>>,
    Ghost(rs): Ghost<Seq<ResourceModel>>,
    Ghost(j): Ghost<int>,
)
    requires
        0 <= j < rs.len(),
        rs[j] == current_resource@,
        current_resource@.wf(),
        old(resource_metadata_writer).bytes() == meta_prefix + resources_meta(
            rs.take(j),
            data_prefix.len() as int,
        ),
        old(resource_metadata_writer).pos() == old(resource_metadata_writer).bytes().len(),
        old(raw_data_writer).bytes() == data_prefix + resources_payload(rs.take(j)),
        old(raw_data_writer).pos() == old(raw_data_writer).bytes().len(),
        old(raw_data_writer).bytes().len() + res_payload(rs[j]).len() + 8 <= u32::MAX,
        old(resource_metadata_writer).bytes().len() + 12 <= u32::MAX,
    ensures
        final(resource_metadata_writer).bytes() == meta_prefix + resources_meta(
            rs.take(j + 1),
            data_prefix.len() as int,
        ),
        final(resource_metadata_writer).pos() == final(resource_metadata_writer).bytes().len(),
        final(raw_data_writer).bytes() == data_prefix + resources_payload(rs.take(j + 1)),
        final(raw_data_writer).pos() == final(raw_data_writer).bytes().len(),
{
    // We'll use the current payload offset when writing this resource's
    // metadata entry.
    let current_raw_data_offset: u32 = raw_data_writer.pos_as_u32();
    raw_data_writer.write_length(current_resource.contents.as_slice());
    // All data is padded to 4 bytes, so we need to write padding.
    raw_data_writer.write_padding(current_resource.contents.len() as u32);
    // Now, we can write this resource's metadata.
    resource_metadata_writer.write_u32_le(current_resource.id);
    resource_metadata_writer.write_u32_le(current_raw_data_offset);
    resource_metadata_writer.write_u32_le(current_resource.data_size);
    proof {
        lemma_resources_payload_snoc(rs, j);
        lemma_resources_meta_snoc(rs, data_prefix.len() as int, j);
        assert(raw_data_writer.bytes() =~= data_prefix + resources_payload(rs.take(j + 1)));
        assert(resource_metadata_writer.bytes() =~= meta_prefix + resources_meta(
            rs.take(j + 1),
            data_prefix.len() as int,
        ));
    }
}

/// Writes one section's sixteen-byte header entry.
#[verifier::loop_isolation(false)]
#[verifier::rlimit(100)]
#[verifier::spinoff_prover]
fn write_header_entry(
    header_writer: &mut LittleHelper,
    current_section: &SectionHeader,
    resource_metadata_offset: u32,
    current_resource_meta_offset: u32,
    Ghost(hdr0): Ghost<Seq<u8>>,
    Ghost(ss): Ghost<Seq<SectionModel>>,
    Ghost(i): Ghost<int>,
)
    requires
        0 <= i < ss.len(),
        ss[i] == current_section@,
        forall|k: int| 0 <= k < ss.len() ==> (#[trigger] ss[k]).wf(),
        hdr0.len() == 12,
        resource_metadata_offset == 12 + 16 * ss.len(),
        current_resource_meta_offset == sections_meta(ss.take(i)).len(),
        old(header_writer).bytes() == hdr0 + sections_header(ss.take(i), ss.len() as int),
        old(header_writer).pos() == old(header_writer).bytes().len(),
        12 + 16 * ss.len() + sections_meta(ss).len() + sections_payload(ss).len() + 8
            <= u32::MAX,
    ensures
        final(header_writer).bytes() == hdr0 + sections_header(ss.take(i + 1), ss.len() as int),
        final(header_writer).pos() == final(header_writer).bytes().len(),
{
    let ghost n: int = ss.len() as int;
    proof {
        lemma_sections_header_len(ss.take(i), n);
        lemma_sections_meta_prefix(ss, i);
    }
    // The table offset is adjusted past the format header and all section
    // headers.
    header_writer.write_magic(current_section.magic);
    header_writer.write_u32_le(current_section.resource_count);
    header_writer.write_u32_le(current_section.is_sequential);
    header_writer.write_u32_le(resource_metadata_offset + current_resource_meta_offset);
    proof {
        lemma_sections_header_snoc(ss, n, i);
        assert(header_writer.bytes() =~= hdr0 + sections_header(ss.take(i + 1), n));
    }
}

/// Pads one section's payload region: a no-op alignment write, plus the
/// four extra bytes the one known legacy signature takes.
#[verifier::loop_isolation(false)]
#[verifier::rlimit(100)]
#[verifier::spinoff_prover]
fn finish_section_payload(
    raw_data_writer: &mut LittleHelper,
    current_section: &SectionHeader,
    Ghost(ss): Ghost<Seq<SectionModel>>,
    Ghost(i): Ghost<int>,
)
    requires
        0 <= i < ss.len(),
        ss[i] == current_section@,
        old(raw_data_writer).bytes() == sections_payload(ss.take(i)) + resources_payload(
            ss[i].resources,
        ),
        old(raw_data_writer).pos() == old(raw_data_writer).bytes().len(),
        12 + 16 * ss.len() + sections_meta(ss).len() + sections_payload(ss).len() + 8
            <= u32::MAX,
    ensures
        final(raw_data_writer).bytes() == sections_payload(ss.take(i + 1)),
        final(raw_data_writer).pos() == final(raw_data_writer).bytes().len(),
{
    proof {
        lemma_sections_payload_prefix(ss, i);
        lemma_sections_payload_snoc(ss, i);
        lemma_sections_payload_prefix(ss, i + 1);
        lemma_sections_payload_aligned(ss.take(i));
        lemma_resources_payload_aligned(ss[i].resources);
    }
    // We must pad the raw data for every section. Payloads are already
    // four-byte aligned here, so this writes nothing; it is kept for
    // parity with the layout's description.
    let current_raw_data_offset: u32 = raw_data_writer.pos_as_u32();
    raw_data_writer.write_padding(current_raw_data_offset);
    // Some sections require more than 4 bytes of alignment, as observed
    // for one internal legacy section; handle it manually.
    let magic0: u8 = current_section.magic[0];
    let magic1: u8 = current_section.magic[1];
    let magic2: u8 = current_section.magic[2];
    let magic3: u8 = current_section.magic[3];
    if magic0 == 0x4C && magic1 == 0x56 && magic2 == 0x52 && magic3 == 0x53 {
        proof {
            assert(ss[i].magic =~= quirk_magic());
        }
        raw_data_writer.write_u32_le(0);
        proof {
            lemma_pow256_small();
            assert(le32_bytes(0u32) =~= zero_bytes(4));
        }
    } else {
        proof {
            if ss[i].magic == quirk_magic() {
                assert(ss[i].magic[0] == 0x4C && ss[i].magic[1] == 0x56 && ss[i].magic[2] == 0x52
                    && ss[i].magic[3] == 0x53);
                assert(false);
            }
        }
    }
    proof {
        assert(raw_data_writer.bytes() =~= sections_payload(ss.take(i + 1)));
    }
}

/// Appends one section's payloads, resource table, and header entry to the
/// three regions being built.
#[verifier::loop_isolation(false)]
#[verifier::rlimit(100)]
fn write_section(
    header_writer: &mut LittleHelper,
    resource_metadata_writer: &mut LittleHelper,
    raw_data_writer: &mut LittleHelper,
    current_section: &SectionHeader,
    resource_metadata_offset: u32,
    Ghost(hdr0): Ghost<Seq<u8>>,
    Ghost(ss): Ghost<Seq<SectionModel>>,
    Ghost(i): Ghost<int>,
)
    requires
        0 <= i < ss.len(),
        ss[i] == current_section@,
        forall|k: int| 0 <= k < ss.len() ==> (#[trigger] ss[k]).wf(),
        hdr0.len() == 12,
        resource_metadata_offset == 12 + 16 * ss.len(),
        old(header_writer).bytes() == hdr0 + sections_header(ss.take(i), ss.len() as int),
        old(header_writer).pos() == old(header_writer).bytes().len(),
        old(resource_metadata_writer).bytes() == sections_meta(ss.take(i)),
        old(resource_metadata_writer).pos() == old(resource_metadata_writer).bytes().len(),
        old(raw_data_writer).bytes() == sections_payload(ss.take(i)),
        old(raw_data_writer).pos() == old(raw_data_writer).bytes().len(),
        12 + 16 * ss.len() + sections_meta(ss).len() + sections_payload(ss).len() + 8
            <= u32::MAX,
    ensures
        final(header_writer).bytes() == hdr0 + sections_header(ss.take(i + 1), ss.len() as int),
        final(header_writer).pos() == final(header_writer).bytes().len(),
        final(resource_metadata_writer).bytes() == sections_meta(ss.take(i + 1)),
        final(resource_metadata_writer).pos() == final(resource_metadata_writer).bytes().len(),
        final(raw_data_writer).bytes() == sections_payload(ss.take(i + 1)),
        final(raw_data_writer).pos() == final(raw_data_writer).bytes().len(),
{
    let ghost n: int = ss.len() as int;
    let ghost rs: Seq<ResourceModel> = ss[i].resources;
    let ghost data_prefix: Seq<u8> = sections_payload(ss.take(i));
    let ghost meta_prefix: Seq<u8> = sections_meta(ss.take(i));
    proof {
        lemma_sections_meta_prefix(ss, i);
        lemma_sections_meta_snoc(ss, i);
        lemma_sections_meta_prefix(ss, i + 1);
        lemma_sections_payload_prefix(ss, i);
        lemma_sections_payload_snoc(ss, i);
        lemma_sections_payload_prefix(ss, i + 1);
        lemma_resources_meta_len(rs, data_prefix.len() as int);
        assert(rs.take(0) =~= Seq::<ResourceModel>::empty());
        assert(resources_meta(rs.take(0), data_prefix.len() as int) =~= Seq::<u8>::empty());
        assert(resources_payload(rs.take(0)) =~= Seq::<u8>::empty());
        assert(old(resource_metadata_writer).bytes() =~= meta_prefix + resources_meta(
            rs.take(0),
            data_prefix.len() as int,
        ));
        assert(old(raw_data_writer).bytes() =~= data_prefix + resources_payload(rs.take(0)));
    }
    // First, obtain the current resource metadata offset for this section:
    // it names this section's table within the metadata region.
    let current_resource_meta_offset: u32 = resource_metadata_writer.pos_as_u32();
    // Next, write all resources and their resource metadata.
    let mut j: usize = 0;
    while j < current_section.resources.len()
        invariant
            j <= rs.len(),
            resource_metadata_writer.bytes() == meta_prefix + resources_meta(
                rs.take(j as int),
                data_prefix.len() as int,
            ),
            resource_metadata_writer.pos() == resource_metadata_writer.bytes().len(),
            raw_data_writer.bytes() == data_prefix + resources_payload(rs.take(j as int)),
            raw_data_writer.pos() == raw_data_writer.bytes().len(),
        decreases rs.len() - j as int,
    {
        proof {
            lemma_resources_payload_prefix(rs, j as int);
            lemma_resources_payload_snoc(rs, j as int);
            lemma_resources_payload_prefix(rs, j as int + 1);
            lemma_resources_meta_len(rs.take(j as int), data_prefix.len() as int);
        }
        let current_resource: &ResourceMetadata = &current_section.resources[j];
        write_resource(
            resource_metadata_writer,
            raw_data_writer,
            current_resource,
            Ghost(meta_prefix),
            Ghost(data_prefix),
            Ghost(rs),
            Ghost(j as int),
        );
        j = j + 1;
    }
    proof {
        assert(rs.take(rs.len() as int) =~= rs);
    }
    write_header_entry(
        header_writer,
        current_section,
        resource_metadata_offset,
        current_resource_meta_offset,
        Ghost(hdr0),
        Ghost(ss),
        Ghost(i),
    );
    finish_section_payload(raw_data_writer, current_section, Ghost(ss), Ghost(i));
}

impl SilverDBFormat {
    /// Writes a representation of SilverDB contents to its binary format.
    ///
    /// Three regions are built in one pass per section — header and section
    /// table, resource-metadata tables, raw payloads — and the header length
    /// is backpatched once the metadata region's size is known.
    #[verifier::loop_isolation(false)]
    pub fn write(&self) -> (r: Result<Vec<u8>, SilverError>)
        requires
            self@.wf(),
            spec_header_length(self@) + sections_payload(self@.sections).len() + 8 <= u32::MAX,
        ensures
            r is Ok,
            r matches Ok(v) ==> v@ == spec_write_bytes(self@),
    {
        let ghost m: FormatModel = self@;
        let ghost ss: Seq<SectionModel> = m.sections;
        let ghost n: int = ss.len() as int;
        // We'll have three writers: for our header/section metadata contents,
        // for our resource metadata, and for the raw resource data itself.
        let mut header_writer = LittleHelper::new();
        let mut resource_metadata_writer = LittleHelper::new();
        let mut raw_data_writer = LittleHelper::new();
        // Resource metadata begins after the format header (12 bytes) and
        // the section metadata (16 bytes per section).
        let section_count: u32 = self.header.section_count;
        let resource_metadata_offset: u32 = 12 + (16 * section_count);
        // First, write out our database header. The header length is not
        // known yet; we write zero and go back to update it.
        header_writer.write_u32_le(self.header.version);
        header_writer.write_u32_le(0);
        header_writer.write_u32_le(section_count);
        let ghost hdr0: Seq<u8> = le32_bytes(m.version) + le32_bytes(0u32) + le32_bytes(
            section_count,
        );
        let mut i: usize = 0;
        proof {
            assert(ss.take(0) =~= Seq::<SectionModel>::empty());
        }
        while i < self.sections.len()
            invariant
                i <= ss.len(),
                header_writer.bytes() == hdr0 + sections_header(ss.take(i as int), n),
                header_writer.pos() == header_writer.bytes().len(),
                resource_metadata_writer.bytes() == sections_meta(ss.take(i as int)),
                resource_metadata_writer.pos() == resource_metadata_writer.bytes().len(),
                raw_data_writer.bytes() == sections_payload(ss.take(i as int)),
                raw_data_writer.pos() == raw_data_writer.bytes().len(),
            decreases ss.len() - i as int,
        {
            let current_section: &SectionHeader = &self.sections[i];
            write_section(
                &mut header_writer,
                &mut resource_metadata_writer,
                &mut raw_data_writer,
                current_section,
                resource_metadata_offset,
                Ghost(hdr0),
                Ghost(ss),
                Ghost(i as int),
            );
            i = i + 1;
        }
        proof {
            assert(ss.take(ss.len() as int) =~= ss);
            lemma_sections_header_len(ss, n);
        }
        // Before finalizing, update the header to hold the proper header
        // length: the header region plus all resource metadata.
        let raw_resource_metadata: Vec<u8> = resource_metadata_writer.contents();
        let resource_metadata_length: u32 = raw_resource_metadata.len() as u32;
        let total_header_length: u32 = header_writer.pos_as_u32() + resource_metadata_length;
        header_writer.seek_to_u32(4);
        header_writer.write_u32_le(total_header_length);
        proof {
            let hb = hdr0 + sections_header(ss, n);
            assert(hb.subrange(0, 4) =~= le32_bytes(m.version));
            assert(hb.subrange(8, hb.len() as int) =~= le32_bytes(section_count) + sections_header(
                ss,
                n,
            ));
            assert(header_writer.bytes() =~= le32_bytes(m.version) + le32_bytes(
                total_header_length,
            ) + le32_bytes(section_count) + sections_header(ss, n));
        }
        // Combine all three writers, and we're done!
        let mut raw_contents: Vec<u8> = header_writer.contents();
        let mut meta_vec: Vec<u8> = raw_resource_metadata;
        let mut data_vec: Vec<u8> = raw_data_writer.contents();
        raw_contents.append(&mut meta_vec);
        raw_contents.append(&mut data_vec);
        proof {
            assert(raw_contents@ =~= spec_write_bytes(m));
        }
        Ok(raw_contents)
    }
}

/// A resource table takes twelve bytes per resource.
pub proof fn lemma_resources_meta_len(rs: Seq<ResourceModel>, base: int)
    ensures
        resources_meta(rs, base).len() == 12 * rs.len(),
    decreases rs.len(),
{
    if rs.len() > 0 {
        lemma_resources_meta_len(rs.drop_last(), base);
    }
}

} // verus!
