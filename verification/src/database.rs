//! The high-level representation of a SilverDB file: sections of typed
//! resources, lifted from and lowered to the binary container layout.

use vstd::prelude::*;

use crate::format::{
    sections_payload, spec_header_length, spec_parsed, spec_read_ok, spec_header_ok,
    spec_write_bytes, FormatModel, ResourceMetadata, ResourceModel, SectionHeader, SectionModel,
    SilverDBFormat, SilverDBHeader,
};
use crate::section_content::{
    content_fits, lemma_content_round_trip, spec_parse_section, spec_reduce_section, ContentModel,
    SectionContent,
};
use crate::section_types::{
    canonical_type, lemma_type_round_trip, spec_from_magic, spec_to_magic, SectionType,
    SectionTypeModel,
};
use crate::format::is_ascii_byte;
use crate::silver_error::SilverError;

verus! {

/// A high-level representation of a SilverDB file.
pub struct SilverDB {
    /// Available sections within this database.
    pub sections: Vec<SilverSection>,
}

/// A high-level representation of section contents.
pub struct SilverSection {
    /// The type identifying this section (i.e. 'Str ', 'BMap', 'LDTm', etc.)
    pub section_type: SectionType,
    /// Whether this section's IDs are sequential and start at 1.
    /// Necessary for certain resource types such as `StrT`.
    pub is_sequential: u32,
    /// Resources within this section.
    pub resources: Vec<SilverResource>,
}

/// The ID identifying a resource.
/// In general you should never modify the ID as it may be hardcoded in
/// firmware.
pub struct SilverResourceID(pub u32);

impl From<u32> for SilverResourceID {
    fn from(value: u32) -> (r: Self)
        ensures
            r.0 == value,
    {
        SilverResourceID(value)
    }
}

impl vstd::std_specs::convert::FromSpecImpl<u32> for SilverResourceID {
    open spec fn obeys_from_spec() -> bool {
        true
    }

    open spec fn from_spec(value: u32) -> Self {
        SilverResourceID(value)
    }
}

/// A high-level representation of resources within a section.
pub struct SilverResource {
    /// An ID used to identify this resource. For example, 0x0dad06d8.
    pub id: SilverResourceID,
    /// The content this resource holds.
    pub contents: SectionContent,
}

/// The mathematical shape of one high-level resource.
pub ghost struct SilverResourceModel {
    pub id: u32,
    pub contents: ContentModel,
}

/// The mathematical shape of one high-level section.
pub ghost struct SilverSectionModel {
    pub section_type: SectionTypeModel,
    pub is_sequential: u32,
    pub resources: Seq<SilverResourceModel>,
}

impl View for SilverResource {
    type V = SilverResourceModel;

    open spec fn view(&self) -> SilverResourceModel {
        SilverResourceModel { id: self.id.0, contents: self.contents@ }
    }
}

impl View for SilverSection {
    type V = SilverSectionModel;

    open spec fn view(&self) -> SilverSectionModel {
        SilverSectionModel {
            section_type: self.section_type@,
            is_sequential: self.is_sequential,
            resources: self.resources@.map_values(|r: SilverResource| r@),
        }
    }
}

impl View for SilverDB {
    type V = Seq<SilverSectionModel>;

    open spec fn view(&self) -> Seq<SilverSectionModel> {
        self.sections@.map_values(|s: SilverSection| s@)
    }
}

/// The binary-layout model a list of high-level sections lowers to on
/// write: version 3, reduced contents, counts filled in, offsets left for
/// the writer to compute.
pub open spec fn spec_lower(sections: Seq<SilverSectionModel>) -> FormatModel {
    FormatModel {
        version: 3,
        header_length: 0,
        section_count: sections.len() as u32,
        sections: Seq::new(
            sections.len(),
            |i: int|
                SectionModel {
                    magic: spec_to_magic(sections[i].section_type),
                    resource_count: sections[i].resources.len() as u32,
                    is_sequential: sections[i].is_sequential,
                    resource_offset: 0,
                    resources: Seq::new(
                        sections[i].resources.len(),
                        |j: int|
                            ResourceModel {
                                id: sections[i].resources[j].id,
                                data_offset: 0,
                                data_size: spec_reduce_section(
                                    sections[i].resources[j].contents,
                                ).len() as u32,
                                contents: spec_reduce_section(sections[i].resources[j].contents),
                            },
                    ),
                },
        ),
    }
}

/// Whether every resource's raw bytes interpret cleanly under its
/// section's kind.
pub open spec fn spec_lift_ok(f: FormatModel) -> bool {
    forall|i: int, j: int|
        0 <= i < f.sections.len() && 0 <= j < f.sections[i].resources.len()
            ==> #[trigger] spec_parse_section(
            spec_from_magic(f.sections[i].magic),
            f.sections[i].resources[j].contents,
        ) is Ok
}

/// The high-level sections a binary-layout model lifts to on read.
pub open spec fn spec_lifted(f: FormatModel) -> Seq<SilverSectionModel> {
    Seq::new(
        f.sections.len(),
        |i: int|
            SilverSectionModel {
                section_type: spec_from_magic(f.sections[i].magic),
                is_sequential: f.sections[i].is_sequential,
                resources: Seq::new(
                    f.sections[i].resources.len(),
                    |j: int|
                        SilverResourceModel {
                            id: f.sections[i].resources[j].id,
                            contents: spec_parse_section(
                                spec_from_magic(f.sections[i].magic),
                                f.sections[i].resources[j].contents,
                            )->Ok_0,
                        },
                ),
            },
    )
}

impl SilverDB {
    /// Reads a SilverDB file's bytes into the high-level representation.
    #[verifier::loop_isolation(false)]
    pub fn read(file_contents: Vec<u8>) -> (r: Result<Self, SilverError>)
        requires
            file_contents@.len() <= u32::MAX,
        ensures
            r is Ok <==> spec_read_ok(file_contents@) && spec_lift_ok(spec_parsed(file_contents@)),
            r matches Ok(db) ==> db@ == spec_lifted(spec_parsed(file_contents@)),
            r matches Err(e) ==> e == (if !spec_header_ok(file_contents@) {
                SilverError::InvalidHeader
            } else if !spec_read_ok(file_contents@) {
                SilverError::ParseError
            } else {
                SilverError::ContentParseFailure
            }),
    {
        let ghost b: Seq<u8> = file_contents@;
        // First, parse the actual file.
        let database_file: SilverDBFormat = match SilverDBFormat::read(file_contents) {
            Ok(f) => f,
            Err(e) => {
                return Err(e);
            },
        };
        let ghost f: FormatModel = database_file.view();
        // Next, create the high-level representation.
        let mut sections: Vec<SilverSection> = Vec::new();
        let raw_sections: Vec<SectionHeader> = database_file.sections;
        let mut i: usize = 0;
        while i < raw_sections.len()
            invariant
                i <= raw_sections@.len(),
                sections@.len() == i,
                forall|k: int|
                    0 <= k < i as int ==> (#[trigger] sections@[k])@ == spec_lifted(f)[k],
                forall|k: int, l: int|
                    0 <= k < i as int && 0 <= l < f.sections[k].resources.len()
                        ==> #[trigger] spec_parse_section(
                        spec_from_magic(f.sections[k].magic),
                        f.sections[k].resources[l].contents,
                    ) is Ok,
            decreases raw_sections@.len() - i as int,
        {
            let raw_section: &SectionHeader = &raw_sections[i];
            let section_type: SectionType = SectionType::from_magic(raw_section.magic);
            let mut resources: Vec<SilverResource> = Vec::new();
            let mut j: usize = 0;
            while j < raw_section.resources.len()
                invariant
                    j <= raw_section.resources@.len(),
                    raw_section == raw_sections@[i as int],
                    i < raw_sections@.len(),
                    section_type@ == spec_from_magic(f.sections[i as int].magic),
                    resources@.len() == j,
                    forall|l: int|
                        0 <= l < j as int ==> (#[trigger] resources@[l])@ == spec_lifted(
                            f,
                        )[i as int].resources[l],
                    forall|l: int|
                        0 <= l < j as int ==> #[trigger] spec_parse_section(
                            spec_from_magic(f.sections[i as int].magic),
                            f.sections[i as int].resources[l].contents,
                        ) is Ok,
                decreases raw_section.resources@.len() - j as int,
            {
                let raw_resource: &ResourceMetadata = &raw_section.resources[j];
                let raw_contents: Vec<u8> = raw_resource.contents.clone();
                proof {
                    assert(raw_contents@ =~= f.sections[i as int].resources[j as int].contents);
                }
                let contents: SectionContent = match SectionContent::parse_section(
                    &section_type,
                    raw_contents,
                ) {
                    Ok(c) => c,
                    Err(e) => {
                        return Err(e);
                    },
                };
                resources.push(SilverResource { id: SilverResourceID(raw_resource.id), contents });
                j = j + 1;
            }
            let is_sequential: u32 = raw_section.is_sequential;
            sections.push(SilverSection { section_type, is_sequential, resources });
            i = i + 1;
            proof {
                assert((sections@[i - 1])@.resources =~~= spec_lifted(f)[i - 1].resources);
                assert((sections@[i - 1])@ =~~= spec_lifted(f)[i - 1]);
            }
        }
        let result = SilverDB { sections };
        proof {
            assert(result@ =~~= spec_lifted(f));
        }
        Ok(result)
    }

    /// Writes the high-level sections back to the binary format.
    #[verifier::loop_isolation(false)]
    pub fn write(all_sections: Vec<SilverSection>) -> (r: Result<Vec<u8>, SilverError>)
        requires
            spec_header_length(spec_lower(all_sections@.map_values(|s: SilverSection| s@)))
                + sections_payload(
                spec_lower(all_sections@.map_values(|s: SilverSection| s@)).sections,
            ).len() + 8 <= u32::MAX,
        ensures
            r is Ok,
            r matches Ok(v) ==> v@ == spec_write_bytes(
                spec_lower(all_sections@.map_values(|s: SilverSection| s@)),
            ),
    {
        let ghost hs: Seq<SilverSectionModel> = all_sections@.map_values(|s: SilverSection| s@);
        let ghost low: FormatModel = spec_lower(hs);
        proof {
            crate::format::lemma_sections_header_len(low.sections, low.sections.len() as int);
        }
        // First, we need to reduce the high-level representations to their
        // binary formats.
        let mut raw_sections: Vec<SectionHeader> = Vec::new();
        let mut i: usize = 0;
        while i < all_sections.len()
            invariant
                i <= all_sections@.len(),
                raw_sections@.len() == i,
                forall|k: int|
                    0 <= k < i as int ==> (#[trigger] raw_sections@[k])@ == low.sections[k],
            decreases all_sections@.len() - i as int,
        {
            let current_section: &SilverSection = &all_sections[i];
            proof {
                crate::format::lemma_sections_meta_prefix(low.sections, i as int);
                crate::format::lemma_sections_meta_snoc(low.sections, i as int);
                crate::format::lemma_sections_meta_prefix(low.sections, i as int + 1);
                crate::format::lemma_resources_meta_len(
                    low.sections[i as int].resources,
                    sections_payload(low.sections.take(i as int)).len() as int,
                );
            }
            // We need to synthesize resource metadata for all resources
            // within this section.
            let mut all_resources: Vec<ResourceMetadata> = Vec::new();
            let mut j: usize = 0;
            while j < current_section.resources.len()
                invariant
                    j <= current_section.resources@.len(),
                    current_section == all_sections@[i as int],
                    i < all_sections@.len(),
                    all_resources@.len() == j,
                    forall|l: int|
                        0 <= l < j as int ==> (#[trigger] all_resources@[l])@ == low.sections[i
                            as int].resources[l],
                decreases current_section.resources@.len() - j as int,
            {
                proof {
                    crate::roundtrip::lemma_sections_payload_index(low.sections, i as int, j as int);
                }
                let current_resource: &SilverResource = &current_section.resources[j];
                let contents_copy: SectionContent = clone_content(&current_resource.contents);
                // We reduce this resource back to its raw form.
                let raw_resource: Vec<u8> = match SectionContent::reduce_section(contents_copy) {
                    Ok(v) => v,
                    Err(e) => {
                        return Err(e);
                    },
                };
                let resource = ResourceMetadata {
                    id: current_resource.id.0,
                    // This will be computed while writing.
                    data_offset: 0,
                    data_size: raw_resource.len() as u32,
                    contents: raw_resource,
                };
                all_resources.push(resource);
                j = j + 1;
                proof {
                    assert((all_resources@[j - 1])@ =~~= low.sections[i as int].resources[j - 1]);
                }
            }
            // Lastly, we synthesize section header information.
            let raw_section = SectionHeader {
                magic: current_section.section_type.to_magic(),
                resource_count: all_resources.len() as u32,
                is_sequential: current_section.is_sequential,
                // This will be computed while writing.
                resource_offset: 0,
                resources: all_resources,
            };
            raw_sections.push(raw_section);
            i = i + 1;
            proof {
                assert((raw_sections@[i - 1])@.resources =~~= low.sections[i - 1].resources);
                assert((raw_sections@[i - 1])@ =~~= low.sections[i - 1]);
            }
        }
        // Next, we create a mock database structure, simply to hand over
        // our sections with a fresh header.
        let mock_database = SilverDBFormat {
            header: SilverDBHeader {
                // 0x03 across the known firmware generations.
                version: 3,
                // This will be computed while writing.
                header_length: 0,
                section_count: raw_sections.len() as u32,
            },
            sections: raw_sections,
        };
        proof {
            assert(mock_database@.sections =~~= low.sections);
            assert(mock_database@ =~~= low);
            assert(16 * low.sections.len() <= u32::MAX);
            assert forall|k: int|
                0 <= k < low.sections.len() implies (#[trigger] low.sections[k]).wf() by {
                crate::format::lemma_sections_meta_prefix(low.sections, k);
                crate::format::lemma_sections_meta_snoc(low.sections, k);
                crate::format::lemma_sections_meta_prefix(low.sections, k + 1);
                crate::format::lemma_resources_meta_len(
                    low.sections[k].resources,
                    sections_payload(low.sections.take(k)).len() as int,
                );
                assert(12 * low.sections[k].resources.len() <= u32::MAX);
                assert(low.sections[k].magic.len() == 4) by {
                    assert(hs[k] == all_sections@[k]@);
                    match all_sections@[k].section_type {
                        SectionType::Unknown(mg) => {
                            assert(spec_to_magic(hs[k].section_type) == mg@);
                        },
                        _ => {
                        },
                    }
                }
                assert forall|l: int|
                    0 <= l < low.sections[k].resources.len() implies (#[trigger] low.sections[
                    k].resources[l]).wf() by {
                    crate::roundtrip::lemma_sections_payload_index(low.sections, k, l);
                }
            }
            assert(mock_database@.wf());
        }
        let raw_contents: Vec<u8> = match mock_database.write() {
            Ok(v) => v,
            Err(e) => {
                return Err(e);
            },
        };
        Ok(raw_contents)
    }
}

/// The round-trip law of the whole database: writing a list of high-level
/// sections and reading the bytes back yields the same sections — same
/// order, section types, sequential-id flags, resource identifiers and
/// resource contents.
///
/// It asks only what validity demands: between one and 128 sections, an
/// image of at least 40 bytes whose header region stays within the sanity
/// limit and whose offsets fit 32 bits, boolean sequential-id flags,
/// canonical section types with printable signatures, and contents of the
/// kind their section's interpreter produces.
pub proof fn lemma_database_round_trip(sections: Seq<SilverSectionModel>)
    requires
        1 <= sections.len() <= 128,
        spec_header_length(spec_lower(sections)) <= 262144,
        spec_header_length(spec_lower(sections)) + sections_payload(
            spec_lower(sections).sections,
        ).len() + 8 <= u32::MAX,
        spec_write_bytes(spec_lower(sections)).len() >= 40,
        forall|i: int|
            #![trigger sections[i]]
            0 <= i < sections.len() ==> {
                &&& canonical_type(sections[i].section_type)
                &&& (sections[i].is_sequential == 0 || sections[i].is_sequential == 1)
                &&& (sections[i].section_type matches SectionTypeModel::Unknown(mg) ==> forall|
                    k: int,
                |
                    0 <= k < 4 ==> is_ascii_byte(#[trigger] mg[k]))
                &&& forall|j: int|
                    0 <= j < sections[i].resources.len() ==> content_fits(
                        sections[i].section_type,
                        (#[trigger] sections[i].resources[j]).contents,
                    )
            },
    ensures
        spec_read_ok(spec_write_bytes(spec_lower(sections))),
        spec_lift_ok(spec_parsed(spec_write_bytes(spec_lower(sections)))),
        spec_lifted(spec_parsed(spec_write_bytes(spec_lower(sections)))) == sections,
{
    let low = spec_lower(sections);
    let w = spec_write_bytes(low);
    // The lowering is well-formed: counts match by construction, and every
    // signature is four bytes long.
    assert forall|k: int| 0 <= k < low.sections.len() implies (#[trigger] low.sections[k]).wf() by {
        crate::format::lemma_sections_meta_prefix(low.sections, k);
        crate::format::lemma_sections_meta_snoc(low.sections, k);
        crate::format::lemma_sections_meta_prefix(low.sections, k + 1);
        crate::format::lemma_resources_meta_len(
            low.sections[k].resources,
            sections_payload(low.sections.take(k)).len() as int,
        );
        assert(12 * low.sections[k].resources.len() <= u32::MAX);
        assert(spec_to_magic(sections[k].section_type).len() == 4);
        assert forall|l: int|
            0 <= l < low.sections[k].resources.len() implies (#[trigger] low.sections[
        k].resources[l]).wf() by {
            crate::roundtrip::lemma_sections_payload_index(low.sections, k, l);
        }
    }
    assert(low.wf());
    // Every written signature is printable: the known signatures by
    // computation, an unknown one by assumption.
    assert forall|i: int|
        #![trigger low.sections[i]]
        0 <= i < low.sections.len() implies {
        &&& is_ascii_byte(low.sections[i].magic[0])
        &&& is_ascii_byte(low.sections[i].magic[1])
        &&& is_ascii_byte(low.sections[i].magic[2])
        &&& is_ascii_byte(low.sections[i].magic[3])
        &&& (low.sections[i].is_sequential == 0 || low.sections[i].is_sequential == 1)
    } by {
        match sections[i].section_type {
            SectionTypeModel::Unknown(mg) => {
            },
            _ => {
            },
        }
    }
    crate::roundtrip::lemma_write_read_round_trip(low);
    let parsed = spec_parsed(w);
    // Every resource's bytes interpret cleanly again, to the same content.
    assert forall|i: int, j: int|
        0 <= i < parsed.sections.len() && 0 <= j < parsed.sections[i].resources.len() implies {
        &&& (#[trigger] spec_parse_section(
            spec_from_magic(parsed.sections[i].magic),
            parsed.sections[i].resources[j].contents,
        )) is Ok
        &&& spec_parse_section(
            spec_from_magic(parsed.sections[i].magic),
            parsed.sections[i].resources[j].contents,
        ) == Ok::<ContentModel, SilverError>(sections[i].resources[j].contents)
    } by {
        lemma_type_round_trip(sections[i].section_type);
        assert(parsed.sections[i].magic == spec_to_magic(sections[i].section_type));
        assert(parsed.sections[i].resources[j].contents == spec_reduce_section(
            sections[i].resources[j].contents,
        ));
        lemma_content_round_trip(sections[i].section_type, sections[i].resources[j].contents);
    }
    assert(spec_lift_ok(parsed));
    // And the lifted result is the original list of sections.
    assert forall|i: int| 0 <= i < sections.len() implies #[trigger] spec_lifted(parsed)[i]
        =~~= sections[i] by {
        lemma_type_round_trip(sections[i].section_type);
        assert(spec_lifted(parsed)[i].resources =~~= sections[i].resources);
    }
    assert(spec_lifted(parsed) =~~= sections);
}

/// A structural copy of a content value.
fn clone_content(c: &SectionContent) -> (r: SectionContent)
    ensures
        r@ == c@,
{
    match c {
        SectionContent::Bitmap(b) => SectionContent::Bitmap(clone_bytes(b)),
        SectionContent::DateTimeLocale(b) => SectionContent::DateTimeLocale(clone_bytes(b)),
        SectionContent::String(s) => SectionContent::String(clone_string(s)),
        SectionContent::Unknown(b) => SectionContent::Unknown(clone_bytes(b)),
    }
}

/// A copy of a byte vector.
fn clone_bytes(b: &Vec<u8>) -> (r: Vec<u8>)
    ensures
        r@ == b@,
{
    let r = b.clone();
    proof {
        assert(r@ =~= b@);
    }
    r
}

/// A copy of a string.
fn clone_string(s: &String) -> (r: String)
    ensures
        r@ == s@,
{
    s.clone()
}

} // verus!
