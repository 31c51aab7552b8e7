//! The round-trip law of the container codec: reading back a database that
//! `write` produced yields the same sections, signatures, flags, resource
//! identifiers and resource contents.
//!
//! The proof locates every record that the write-side region builders lay
//! down, and shows that the read-side field accessors find exactly those
//! records again.

use vstd::prelude::*;

use crate::format::{
    db_header_length, db_section_count, db_version, header_plausible, is_ascii_byte,
    lemma_resources_meta_len, lemma_sections_header_len, lemma_sections_meta_prefix,
    lemma_sections_meta_snoc, lemma_sections_payload_prefix, lemma_sections_payload_snoc,
    payloads_in_bounds, res_meta, resource_contents, resource_data_offset, resource_data_size,
    resource_id, resource_tables_in_bounds, resources_meta, resources_payload,
    section_entries_valid, section_header_bytes, section_is_sequential, section_magic,
    section_resource_count, section_resource_offset, sections_header, sections_meta,
    sections_payload, spec_header_length, spec_header_ok, spec_parsed, spec_read_ok,
    spec_write_bytes, FormatModel, ResourceModel, SectionModel,
};
use crate::little_helper::{le32_at, le32_byte, le32_bytes, lemma_le32_at_bytes};

verus! {

/// The offset of resource `j`'s table entry inside the metadata region.
pub open spec fn meta_pos(ss: Seq<SectionModel>, i: int, j: int) -> int {
    sections_meta(ss.take(i)).len() + 12 * j
}

/// The offset of resource `j`'s payload inside the payload region.
pub open spec fn payload_pos(ss: Seq<SectionModel>, i: int, j: int) -> int {
    sections_payload(ss.take(i)).len() + resources_payload(ss[i].resources.take(j)).len() as int
}

/// One section's resource table holds resource `j`'s entry at offset `12 j`.
pub proof fn lemma_resources_meta_index(rs: Seq<ResourceModel>, base: int, j: int)
    requires
        0 <= j < rs.len(),
    ensures
        resources_meta(rs, base).subrange(12 * j, 12 * j + 12) == res_meta(
            rs[j],
            base + resources_payload(rs.take(j)).len() as int,
        ),
    decreases rs.len(),
{
    lemma_resources_meta_len(rs, base);
    lemma_resources_meta_len(rs.drop_last(), base);
    if j == rs.len() - 1 {
        assert(rs.take(j) =~= rs.drop_last());
        assert(resources_meta(rs, base).subrange(12 * j, 12 * j + 12) =~= res_meta(
            rs.last(),
            base + resources_payload(rs.drop_last()).len() as int,
        ));
    } else {
        lemma_resources_meta_index(rs.drop_last(), base, j);
        assert(rs.drop_last().take(j) =~= rs.take(j));
        assert(resources_meta(rs, base).subrange(12 * j, 12 * j + 12) =~= resources_meta(
            rs.drop_last(),
            base,
        ).subrange(12 * j, 12 * j + 12));
    }
}

/// The metadata region holds resource `(i, j)`'s entry at `meta_pos`, with
/// the payload offset `payload_pos` recorded inside it.
pub proof fn lemma_sections_meta_index(ss: Seq<SectionModel>, i: int, j: int)
    requires
        0 <= i < ss.len(),
        0 <= j < ss[i].resources.len(),
    ensures
        meta_pos(ss, i, j) + 12 <= sections_meta(ss).len(),
        sections_meta(ss).subrange(meta_pos(ss, i, j), meta_pos(ss, i, j) + 12) == res_meta(
            ss[i].resources[j],
            payload_pos(ss, i, j),
        ),
    decreases ss.len(),
{
    let rs = ss[i].resources;
    lemma_resources_meta_len(rs, sections_payload(ss.take(i)).len() as int);
    if i == ss.len() - 1 {
        assert(ss.take(i) =~= ss.drop_last());
        lemma_resources_meta_index(rs, sections_payload(ss.take(i)).len() as int, j);
        assert(sections_meta(ss).subrange(meta_pos(ss, i, j), meta_pos(ss, i, j) + 12)
            =~= resources_meta(rs, sections_payload(ss.take(i)).len() as int).subrange(
            12 * j,
            12 * j + 12,
        ));
    } else {
        lemma_sections_meta_index(ss.drop_last(), i, j);
        assert(ss.drop_last().take(i) =~= ss.take(i));
        assert(ss.drop_last().take(i + 1) =~= ss.take(i + 1));
        lemma_sections_meta_snoc(ss, i);
        lemma_sections_meta_prefix(ss.drop_last(), i + 1);
        assert(sections_meta(ss).subrange(meta_pos(ss, i, j), meta_pos(ss, i, j) + 12)
            =~= sections_meta(ss.drop_last()).subrange(
            meta_pos(ss, i, j),
            meta_pos(ss, i, j) + 12,
        ));
    }
}

/// One section's payload bytes hold resource `j`'s contents at the offset
/// accumulated over the resources before it.
pub proof fn lemma_resources_payload_index(rs: Seq<ResourceModel>, j: int)
    requires
        0 <= j < rs.len(),
    ensures
        resources_payload(rs.take(j)).len() + rs[j].contents.len() <= resources_payload(rs).len(),
        resources_payload(rs).subrange(
            resources_payload(rs.take(j)).len() as int,
            resources_payload(rs.take(j)).len() + rs[j].contents.len() as int,
        ) == rs[j].contents,
    decreases rs.len(),
{
    if j == rs.len() - 1 {
        assert(rs.take(j) =~= rs.drop_last());
        assert(resources_payload(rs).subrange(
            resources_payload(rs.take(j)).len() as int,
            resources_payload(rs.take(j)).len() + rs[j].contents.len() as int,
        ) =~= rs[j].contents);
    } else {
        lemma_resources_payload_index(rs.drop_last(), j);
        assert(rs.drop_last().take(j) =~= rs.take(j));
        assert(resources_payload(rs).subrange(
            resources_payload(rs.take(j)).len() as int,
            resources_payload(rs.take(j)).len() + rs[j].contents.len() as int,
        ) =~= resources_payload(rs.drop_last()).subrange(
            resources_payload(rs.take(j)).len() as int,
            resources_payload(rs.take(j)).len() + rs[j].contents.len() as int,
        ));
    }
}

/// The payload region holds resource `(i, j)`'s contents at `payload_pos`.
pub proof fn lemma_sections_payload_index(ss: Seq<SectionModel>, i: int, j: int)
    requires
        0 <= i < ss.len(),
        0 <= j < ss[i].resources.len(),
    ensures
        payload_pos(ss, i, j) + ss[i].resources[j].contents.len() <= sections_payload(ss).len(),
        sections_payload(ss).subrange(
            payload_pos(ss, i, j),
            payload_pos(ss, i, j) + ss[i].resources[j].contents.len(),
        ) == ss[i].resources[j].contents,
    decreases ss.len(),
{
    let rs = ss[i].resources;
    if i == ss.len() - 1 {
        assert(ss.take(i) =~= ss.drop_last());
        lemma_resources_payload_index(rs, j);
        assert(sections_payload(ss).subrange(
            payload_pos(ss, i, j),
            payload_pos(ss, i, j) + rs[j].contents.len(),
        ) =~= resources_payload(rs).subrange(
            resources_payload(rs.take(j)).len() as int,
            resources_payload(rs.take(j)).len() + rs[j].contents.len() as int,
        ));
    } else {
        lemma_sections_payload_index(ss.drop_last(), i, j);
        assert(ss.drop_last().take(i) =~= ss.take(i));
        assert(ss.drop_last().take(i + 1) =~= ss.take(i + 1));
        lemma_sections_payload_snoc(ss, i);
        lemma_sections_payload_prefix(ss.drop_last(), i + 1);
        assert(sections_payload(ss).subrange(
            payload_pos(ss, i, j),
            payload_pos(ss, i, j) + rs[j].contents.len(),
        ) =~= sections_payload(ss.drop_last()).subrange(
            payload_pos(ss, i, j),
            payload_pos(ss, i, j) + rs[j].contents.len(),
        ));
    }
}

/// The section-header table holds section `i`'s entry at offset `16 i`.
pub proof fn lemma_sections_header_index(ss: Seq<SectionModel>, n: int, i: int)
    requires
        0 <= i < ss.len(),
        forall|k: int| 0 <= k < ss.len() ==> (#[trigger] ss[k]).magic.len() == 4,
    ensures
        sections_header(ss, n).subrange(16 * i, 16 * i + 16) == section_header_bytes(
            ss[i],
            sections_meta(ss.take(i)).len() as int,
            n,
        ),
    decreases ss.len(),
{
    lemma_sections_header_len(ss, n);
    lemma_sections_header_len(ss.drop_last(), n);
    if i == ss.len() - 1 {
        assert(ss.take(i) =~= ss.drop_last());
        assert(sections_header(ss, n).subrange(16 * i, 16 * i + 16) =~= section_header_bytes(
            ss.last(),
            sections_meta(ss.drop_last()).len() as int,
            n,
        ));
    } else {
        lemma_sections_header_index(ss.drop_last(), n, i);
        assert(ss.drop_last().take(i) =~= ss.take(i));
        assert(sections_header(ss, n).subrange(16 * i, 16 * i + 16) =~= sections_header(
            ss.drop_last(),
            n,
        ).subrange(16 * i, 16 * i + 16));
    }
}

/// The bounds shared by the round-trip lemmas: a well-formed model whose
/// header region is within the sanity limit `read` enforces and whose whole
/// image fits the 32-bit offsets of the layout.
pub open spec fn write_bounds(m: FormatModel) -> bool {
    &&& m.wf()
    &&& spec_header_length(m) <= 262144
    &&& spec_header_length(m) + sections_payload(m.sections).len() + 8 <= u32::MAX
}

/// The written header fields read back as written.
pub proof fn lemma_parsed_header_fields(m: FormatModel)
    requires
        write_bounds(m),
    ensures
        spec_write_bytes(m).len() == spec_header_length(m) + sections_payload(m.sections).len(),
        db_version(spec_write_bytes(m)) == m.version,
        db_header_length(spec_write_bytes(m)) as int == spec_header_length(m),
        db_section_count(spec_write_bytes(m)) as int == m.sections.len(),
{
    let b = spec_write_bytes(m);
    let ss = m.sections;
    let n = ss.len() as int;
    assert(forall|k: int| 0 <= k < ss.len() ==> (#[trigger] ss[k]).magic.len() == 4);
    lemma_sections_header_len(ss, n);
    lemma_le32_at_bytes(b, 0, m.version);
    lemma_le32_at_bytes(b, 4, spec_header_length(m) as u32);
    lemma_le32_at_bytes(b, 8, ss.len() as u32);
}

/// The written section-header entries read back as written, with the table
/// offset naming the section's place in the metadata region.
#[verifier::rlimit(100)]
pub proof fn lemma_parsed_section_fields(m: FormatModel, i: int)
    requires
        write_bounds(m),
        0 <= i < m.sections.len(),
    ensures
        section_magic(spec_write_bytes(m), i) == m.sections[i].magic,
        section_resource_count(spec_write_bytes(m), i) == m.sections[i].resource_count,
        section_is_sequential(spec_write_bytes(m), i) == m.sections[i].is_sequential,
        section_resource_offset(spec_write_bytes(m), i) as int == 12 + 16 * m.sections.len()
            + sections_meta(m.sections.take(i)).len(),
{
    let b = spec_write_bytes(m);
    let ss = m.sections;
    let n = ss.len() as int;
    let s = ss[i];
    let mb = sections_meta(ss.take(i)).len() as int;
    assert(forall|k: int| 0 <= k < ss.len() ==> (#[trigger] ss[k]).magic.len() == 4);
    lemma_sections_header_len(ss, n);
    lemma_sections_meta_prefix(ss, i);
    lemma_sections_header_index(ss, n, i);
    let rec = section_header_bytes(s, mb, n);
    let hdr3 = le32_bytes(m.version) + le32_bytes(spec_header_length(m) as u32) + le32_bytes(
        ss.len() as u32,
    );
    let pre = hdr3 + sections_header(ss, n);
    let pre2 = pre + sections_meta(ss);
    assert(b == pre2 + sections_payload(ss));
    assert forall|k: int| 0 <= k < 4 implies (#[trigger] section_magic(b, i)[k]) == s.magic[k] by {
        assert(b[12 + 16 * i + k] == pre2[12 + 16 * i + k]);
        assert(pre2[12 + 16 * i + k] == pre[12 + 16 * i + k]);
        assert(pre[12 + 16 * i + k] == sections_header(ss, n)[16 * i + k]);
        assert(sections_header(ss, n).subrange(16 * i, 16 * i + 16)[k] == sections_header(ss, n)[16
            * i + k]);
        assert(rec[k] == s.magic[k]);
    }
    assert(section_magic(b, i) =~= s.magic);
    assert(le32_at(b, 12 + 16 * i + 4) == s.resource_count) by {
        assert(b[12 + 16 * i + 4] == pre2[12 + 16 * i + 4]);
        assert(pre2[12 + 16 * i + 4] == pre[12 + 16 * i + 4]);
        assert(pre[12 + 16 * i + 4] == sections_header(ss, n)[16 * i + 4]);
        assert(sections_header(ss, n).subrange(16 * i, 16 * i + 16)[4] == sections_header(ss, n)[16 * i + 4]);
        assert(rec[4] == le32_byte(s.resource_count, 0));
        assert(b[12 + 16 * i + 5] == pre2[12 + 16 * i + 5]);
        assert(pre2[12 + 16 * i + 5] == pre[12 + 16 * i + 5]);
        assert(pre[12 + 16 * i + 5] == sections_header(ss, n)[16 * i + 5]);
        assert(sections_header(ss, n).subrange(16 * i, 16 * i + 16)[5] == sections_header(ss, n)[16 * i + 5]);
        assert(rec[5] == le32_byte(s.resource_count, 1));
        assert(b[12 + 16 * i + 6] == pre2[12 + 16 * i + 6]);
        assert(pre2[12 + 16 * i + 6] == pre[12 + 16 * i + 6]);
        assert(pre[12 + 16 * i + 6] == sections_header(ss, n)[16 * i + 6]);
        assert(sections_header(ss, n).subrange(16 * i, 16 * i + 16)[6] == sections_header(ss, n)[16 * i + 6]);
        assert(rec[6] == le32_byte(s.resource_count, 2));
        assert(b[12 + 16 * i + 7] == pre2[12 + 16 * i + 7]);
        assert(pre2[12 + 16 * i + 7] == pre[12 + 16 * i + 7]);
        assert(pre[12 + 16 * i + 7] == sections_header(ss, n)[16 * i + 7]);
        assert(sections_header(ss, n).subrange(16 * i, 16 * i + 16)[7] == sections_header(ss, n)[16 * i + 7]);
        assert(rec[7] == le32_byte(s.resource_count, 3));
        lemma_le32_at_bytes(b, 12 + 16 * i + 4, s.resource_count);
    }
    assert(le32_at(b, 12 + 16 * i + 8) == s.is_sequential) by {
        assert(b[12 + 16 * i + 8] == pre2[12 + 16 * i + 8]);
        assert(pre2[12 + 16 * i + 8] == pre[12 + 16 * i + 8]);
        assert(pre[12 + 16 * i + 8] == sections_header(ss, n)[16 * i + 8]);
        assert(sections_header(ss, n).subrange(16 * i, 16 * i + 16)[8] == sections_header(ss, n)[16 * i + 8]);
        assert(rec[8] == le32_byte(s.is_sequential, 0));
        assert(b[12 + 16 * i + 9] == pre2[12 + 16 * i + 9]);
        assert(pre2[12 + 16 * i + 9] == pre[12 + 16 * i + 9]);
        assert(pre[12 + 16 * i + 9] == sections_header(ss, n)[16 * i + 9]);
        assert(sections_header(ss, n).subrange(16 * i, 16 * i + 16)[9] == sections_header(ss, n)[16 * i + 9]);
        assert(rec[9] == le32_byte(s.is_sequential, 1));
        assert(b[12 + 16 * i + 10] == pre2[12 + 16 * i + 10]);
        assert(pre2[12 + 16 * i + 10] == pre[12 + 16 * i + 10]);
        assert(pre[12 + 16 * i + 10] == sections_header(ss, n)[16 * i + 10]);
        assert(sections_header(ss, n).subrange(16 * i, 16 * i + 16)[10] == sections_header(ss, n)[16 * i + 10]);
        assert(rec[10] == le32_byte(s.is_sequential, 2));
        assert(b[12 + 16 * i + 11] == pre2[12 + 16 * i + 11]);
        assert(pre2[12 + 16 * i + 11] == pre[12 + 16 * i + 11]);
        assert(pre[12 + 16 * i + 11] == sections_header(ss, n)[16 * i + 11]);
        assert(sections_header(ss, n).subrange(16 * i, 16 * i + 16)[11] == sections_header(ss, n)[16 * i + 11]);
        assert(rec[11] == le32_byte(s.is_sequential, 3));
        lemma_le32_at_bytes(b, 12 + 16 * i + 8, s.is_sequential);
    }
    assert(le32_at(b, 12 + 16 * i + 12) == (12 + 16 * n + mb) as u32) by {
        assert(b[12 + 16 * i + 12] == pre2[12 + 16 * i + 12]);
        assert(pre2[12 + 16 * i + 12] == pre[12 + 16 * i + 12]);
        assert(pre[12 + 16 * i + 12] == sections_header(ss, n)[16 * i + 12]);
        assert(sections_header(ss, n).subrange(16 * i, 16 * i + 16)[12] == sections_header(ss, n)[16 * i + 12]);
        assert(rec[12] == le32_byte((12 + 16 * n + mb) as u32, 0));
        assert(b[12 + 16 * i + 13] == pre2[12 + 16 * i + 13]);
        assert(pre2[12 + 16 * i + 13] == pre[12 + 16 * i + 13]);
        assert(pre[12 + 16 * i + 13] == sections_header(ss, n)[16 * i + 13]);
        assert(sections_header(ss, n).subrange(16 * i, 16 * i + 16)[13] == sections_header(ss, n)[16 * i + 13]);
        assert(rec[13] == le32_byte((12 + 16 * n + mb) as u32, 1));
        assert(b[12 + 16 * i + 14] == pre2[12 + 16 * i + 14]);
        assert(pre2[12 + 16 * i + 14] == pre[12 + 16 * i + 14]);
        assert(pre[12 + 16 * i + 14] == sections_header(ss, n)[16 * i + 14]);
        assert(sections_header(ss, n).subrange(16 * i, 16 * i + 16)[14] == sections_header(ss, n)[16 * i + 14]);
        assert(rec[14] == le32_byte((12 + 16 * n + mb) as u32, 2));
        assert(b[12 + 16 * i + 15] == pre2[12 + 16 * i + 15]);
        assert(pre2[12 + 16 * i + 15] == pre[12 + 16 * i + 15]);
        assert(pre[12 + 16 * i + 15] == sections_header(ss, n)[16 * i + 15]);
        assert(sections_header(ss, n).subrange(16 * i, 16 * i + 16)[15] == sections_header(ss, n)[16 * i + 15]);
        assert(rec[15] == le32_byte((12 + 16 * n + mb) as u32, 3));
        lemma_le32_at_bytes(b, 12 + 16 * i + 12, (12 + 16 * n + mb) as u32);
    }
}

/// The written resource-table entries and payloads read back as written.
#[verifier::rlimit(100)]
pub proof fn lemma_parsed_resource_fields(m: FormatModel, i: int, j: int)
    requires
        write_bounds(m),
        0 <= i < m.sections.len(),
        0 <= j < m.sections[i].resources.len(),
    ensures
        resource_id(spec_write_bytes(m), i, j) == m.sections[i].resources[j].id,
        resource_data_offset(spec_write_bytes(m), i, j) as int == payload_pos(m.sections, i, j),
        resource_data_size(spec_write_bytes(m), i, j) == m.sections[i].resources[j].data_size,
        resource_contents(spec_write_bytes(m), i, j) == m.sections[i].resources[j].contents,
        payload_pos(m.sections, i, j) + m.sections[i].resources[j].contents.len()
            <= sections_payload(m.sections).len(),
{
    let b = spec_write_bytes(m);
    let ss = m.sections;
    let n = ss.len() as int;
    let r = ss[i].resources[j];
    let mp = meta_pos(ss, i, j);
    let pp = payload_pos(ss, i, j);
    let hl = spec_header_length(m);
    assert(forall|k: int| 0 <= k < ss.len() ==> (#[trigger] ss[k]).magic.len() == 4);
    lemma_sections_header_len(ss, n);
    lemma_parsed_header_fields(m);
    lemma_parsed_section_fields(m, i);
    lemma_sections_meta_index(ss, i, j);
    lemma_sections_payload_index(ss, i, j);
    let entry = res_meta(r, pp);
    let hdr3 = le32_bytes(m.version) + le32_bytes(spec_header_length(m) as u32) + le32_bytes(
        ss.len() as u32,
    );
    let pre = hdr3 + sections_header(ss, n);
    let pre2 = pre + sections_meta(ss);
    assert(b == pre2 + sections_payload(ss));
    assert(pre.len() == 12 + 16 * n);
    let off = section_resource_offset(b, i) as int;
    assert(off == 12 + 16 * n + sections_meta(ss.take(i)).len());
    assert(off + 12 * j == 12 + 16 * n + mp);
    assert(le32_at(b, 12 + 16 * n + mp + 0) == r.id) by {
        assert(b[12 + 16 * n + mp + 0] == pre2[12 + 16 * n + mp + 0]);
        assert(pre2[12 + 16 * n + mp + 0] == sections_meta(ss)[mp + 0]);
        assert(sections_meta(ss).subrange(mp, mp + 12)[0] == sections_meta(ss)[mp + 0]);
        assert(entry[0] == le32_byte(r.id, 0));
        assert(b[12 + 16 * n + mp + 1] == pre2[12 + 16 * n + mp + 1]);
        assert(pre2[12 + 16 * n + mp + 1] == sections_meta(ss)[mp + 1]);
        assert(sections_meta(ss).subrange(mp, mp + 12)[1] == sections_meta(ss)[mp + 1]);
        assert(entry[1] == le32_byte(r.id, 1));
        assert(b[12 + 16 * n + mp + 2] == pre2[12 + 16 * n + mp + 2]);
        assert(pre2[12 + 16 * n + mp + 2] == sections_meta(ss)[mp + 2]);
        assert(sections_meta(ss).subrange(mp, mp + 12)[2] == sections_meta(ss)[mp + 2]);
        assert(entry[2] == le32_byte(r.id, 2));
        assert(b[12 + 16 * n + mp + 3] == pre2[12 + 16 * n + mp + 3]);
        assert(pre2[12 + 16 * n + mp + 3] == sections_meta(ss)[mp + 3]);
        assert(sections_meta(ss).subrange(mp, mp + 12)[3] == sections_meta(ss)[mp + 3]);
        assert(entry[3] == le32_byte(r.id, 3));
        lemma_le32_at_bytes(b, 12 + 16 * n + mp + 0, r.id);
    }
    assert(le32_at(b, 12 + 16 * n + mp + 4) == pp as u32) by {
        assert(b[12 + 16 * n + mp + 4] == pre2[12 + 16 * n + mp + 4]);
        assert(pre2[12 + 16 * n + mp + 4] == sections_meta(ss)[mp + 4]);
        assert(sections_meta(ss).subrange(mp, mp + 12)[4] == sections_meta(ss)[mp + 4]);
        assert(entry[4] == le32_byte(pp as u32, 0));
        assert(b[12 + 16 * n + mp + 5] == pre2[12 + 16 * n + mp + 5]);
        assert(pre2[12 + 16 * n + mp + 5] == sections_meta(ss)[mp + 5]);
        assert(sections_meta(ss).subrange(mp, mp + 12)[5] == sections_meta(ss)[mp + 5]);
        assert(entry[5] == le32_byte(pp as u32, 1));
        assert(b[12 + 16 * n + mp + 6] == pre2[12 + 16 * n + mp + 6]);
        assert(pre2[12 + 16 * n + mp + 6] == sections_meta(ss)[mp + 6]);
        assert(sections_meta(ss).subrange(mp, mp + 12)[6] == sections_meta(ss)[mp + 6]);
        assert(entry[6] == le32_byte(pp as u32, 2));
        assert(b[12 + 16 * n + mp + 7] == pre2[12 + 16 * n + mp + 7]);
        assert(pre2[12 + 16 * n + mp + 7] == sections_meta(ss)[mp + 7]);
        assert(sections_meta(ss).subrange(mp, mp + 12)[7] == sections_meta(ss)[mp + 7]);
        assert(entry[7] == le32_byte(pp as u32, 3));
        lemma_le32_at_bytes(b, 12 + 16 * n + mp + 4, pp as u32);
    }
    assert(le32_at(b, 12 + 16 * n + mp + 8) == r.data_size) by {
        assert(b[12 + 16 * n + mp + 8] == pre2[12 + 16 * n + mp + 8]);
        assert(pre2[12 + 16 * n + mp + 8] == sections_meta(ss)[mp + 8]);
        assert(sections_meta(ss).subrange(mp, mp + 12)[8] == sections_meta(ss)[mp + 8]);
        assert(entry[8] == le32_byte(r.data_size, 0));
        assert(b[12 + 16 * n + mp + 9] == pre2[12 + 16 * n + mp + 9]);
        assert(pre2[12 + 16 * n + mp + 9] == sections_meta(ss)[mp + 9]);
        assert(sections_meta(ss).subrange(mp, mp + 12)[9] == sections_meta(ss)[mp + 9]);
        assert(entry[9] == le32_byte(r.data_size, 1));
        assert(b[12 + 16 * n + mp + 10] == pre2[12 + 16 * n + mp + 10]);
        assert(pre2[12 + 16 * n + mp + 10] == sections_meta(ss)[mp + 10]);
        assert(sections_meta(ss).subrange(mp, mp + 12)[10] == sections_meta(ss)[mp + 10]);
        assert(entry[10] == le32_byte(r.data_size, 2));
        assert(b[12 + 16 * n + mp + 11] == pre2[12 + 16 * n + mp + 11]);
        assert(pre2[12 + 16 * n + mp + 11] == sections_meta(ss)[mp + 11]);
        assert(sections_meta(ss).subrange(mp, mp + 12)[11] == sections_meta(ss)[mp + 11]);
        assert(entry[11] == le32_byte(r.data_size, 3));
        lemma_le32_at_bytes(b, 12 + 16 * n + mp + 8, r.data_size);
    }
    // The payload itself sits `payload_pos` bytes past the header region.
    assert(r.wf());
    assert(pre2.len() == hl);
    assert forall|t: int|
        #![trigger sections_payload(ss)[pp + t]]
        0 <= t < r.contents.len() implies b[hl + pp + t] == sections_payload(ss)[pp + t] by {
        assert(b[hl + pp + t] == sections_payload(ss)[pp + t]);
    }
    assert(resource_contents(b, i, j) =~= sections_payload(ss).subrange(
        pp,
        pp + r.contents.len(),
    ));
}

/// Every record a well-formed database writes is found again by `read`:
/// the written image passes every check, and the parsed result carries the
/// same section order, signatures, sequential-id flags, resource
/// identifiers and resource contents.
///
/// The image must be at least 40 bytes long: `read` rejects anything
/// shorter as implausible, so a database whose image is smaller (one
/// section with no resources occupies 28 bytes) does not round-trip.
pub proof fn lemma_write_read_round_trip(m: FormatModel)
    requires
        write_bounds(m),
        m.version == 3,
        1 <= m.sections.len() <= 128,
        spec_write_bytes(m).len() >= 40,
        forall|i: int|
            #![trigger m.sections[i]]
            0 <= i < m.sections.len() ==> {
                &&& is_ascii_byte(m.sections[i].magic[0])
                &&& is_ascii_byte(m.sections[i].magic[1])
                &&& is_ascii_byte(m.sections[i].magic[2])
                &&& is_ascii_byte(m.sections[i].magic[3])
                &&& (m.sections[i].is_sequential == 0 || m.sections[i].is_sequential == 1)
            },
    ensures
        spec_read_ok(spec_write_bytes(m)),
        spec_parsed(spec_write_bytes(m)).sections.len() == m.sections.len(),
        forall|i: int|
            #![trigger spec_parsed(spec_write_bytes(m)).sections[i]]
            0 <= i < m.sections.len() ==> {
                &&& spec_parsed(spec_write_bytes(m)).sections[i].magic == m.sections[i].magic
                &&& spec_parsed(spec_write_bytes(m)).sections[i].is_sequential
                    == m.sections[i].is_sequential
                &&& spec_parsed(spec_write_bytes(m)).sections[i].resources.len()
                    == m.sections[i].resources.len()
            },
        forall|i: int, j: int|
            #![trigger spec_parsed(spec_write_bytes(m)).sections[i].resources[j]]
            0 <= i < m.sections.len() && 0 <= j < m.sections[i].resources.len() ==> {
                &&& spec_parsed(spec_write_bytes(m)).sections[i].resources[j].id
                    == m.sections[i].resources[j].id
                &&& spec_parsed(spec_write_bytes(m)).sections[i].resources[j].data_size
                    == m.sections[i].resources[j].data_size
                &&& spec_parsed(spec_write_bytes(m)).sections[i].resources[j].contents
                    == m.sections[i].resources[j].contents
            },
{
    let b = spec_write_bytes(m);
    let ss = m.sections;
    let n = ss.len() as int;
    lemma_parsed_header_fields(m);
    // Every header check passes on the written image.
    assert(header_plausible(b));
    assert forall|i: int| 0 <= i < db_section_count(b) implies {
        &&& is_ascii_byte(#[trigger] section_magic(b, i)[0])
        &&& is_ascii_byte(section_magic(b, i)[1])
        &&& is_ascii_byte(section_magic(b, i)[2])
        &&& is_ascii_byte(section_magic(b, i)[3])
        &&& (section_is_sequential(b, i) == 0 || section_is_sequential(b, i) == 1)
    } by {
        lemma_parsed_section_fields(m, i);
    }
    assert(section_entries_valid(b));
    assert forall|i: int|
        0 <= i < db_section_count(b) && section_resource_count(b, i) > 0 implies #[trigger]
    section_resource_offset(b, i) + 12 * section_resource_count(b, i) <= b.len() by {
        lemma_parsed_section_fields(m, i);
        lemma_sections_meta_snoc(ss, i);
        lemma_sections_meta_prefix(ss, i + 1);
        lemma_resources_meta_len(ss[i].resources, sections_payload(ss.take(i)).len() as int);
    }
    assert(resource_tables_in_bounds(b));
    assert forall|i: int, j: int|
        0 <= i < db_section_count(b) && 0 <= j < section_resource_count(b, i) implies
    db_header_length(b) + #[trigger] resource_data_offset(b, i, j) + resource_data_size(b, i, j)
        <= b.len() by {
        lemma_parsed_section_fields(m, i);
        lemma_parsed_resource_fields(m, i, j);
    }
    assert(payloads_in_bounds(b));
    assert(spec_read_ok(b));
    // The parsed result carries the same semantic content.
    assert forall|i: int| 0 <= i < m.sections.len() implies {
        &&& (#[trigger] spec_parsed(b).sections[i]).magic == ss[i].magic
        &&& spec_parsed(b).sections[i].is_sequential == ss[i].is_sequential
        &&& spec_parsed(b).sections[i].resources.len() == ss[i].resources.len()
    } by {
        lemma_parsed_section_fields(m, i);
    }
    assert forall|i: int, j: int|
        0 <= i < m.sections.len() && 0 <= j < m.sections[i].resources.len() implies {
        &&& (#[trigger] spec_parsed(b).sections[i].resources[j]).id == ss[i].resources[j].id
        &&& spec_parsed(b).sections[i].resources[j].data_size == ss[i].resources[j].data_size
        &&& spec_parsed(b).sections[i].resources[j].contents == ss[i].resources[j].contents
    } by {
        lemma_parsed_section_fields(m, i);
        lemma_parsed_resource_fields(m, i, j);
    }
}

/// Any buffer shorter than 40 bytes, with a version other than 3, or with
/// a section count of zero or above 128, is rejected as `InvalidHeader`.
pub proof fn lemma_header_rejection(b: Seq<u8>)
    requires
        b.len() < 40 || db_version(b) != 3 || db_section_count(b) == 0 || db_section_count(b)
            > 128,
    ensures
        !spec_header_ok(b),
        !spec_read_ok(b),
{
}

} // verus!
