//! Pointing a game at another mods directory: how a candidate directory
//! compares with the library the runtime projection holds, its fingerprint,
//! and which confirmations applying it needs.

use vstd::prelude::*;
use vstd::utf8::encode_utf8;

use crate::digest::{append_utf8, blake3_hex, decimal, decimal_string, hex_digest};
use crate::error::AppError;
use crate::order::{sort_texts, stable_sort};
use crate::reconcile::snapshot::{DiskModEntry, DiskObjectEntry, DiskProjection, ReconcileModRow, ReconcileObjectRow};
use crate::reconcile::types::{DiskReconcileResult, DiskReconcileStatus};
use crate::sets::{count_shared, distinct, distinct_texts, insert_distinct, lemma_views_push, same_texts, text_set, views};
use crate::text::{concat_str, trim, trim_str};

verus! {

#[derive(Debug, Clone, Copy, PartialEq, Eq, Structural)]
pub enum GameModsDirectoryClassification {
    Matching,
    NewLibrary,
    Empty,
    Different,
}

#[derive(Debug, Clone, Copy, PartialEq, Eq, Structural)]
pub struct GameModsDirectoryCandidateSummary {
    pub classification: GameModsDirectoryClassification,
    pub existing_object_count: u32,
    pub existing_mod_count: u32,
    pub candidate_object_count: u32,
    pub candidate_mod_count: u32,
    pub physical_entry_count: u32,
    pub filesystem_identity_match_count: u32,
    pub relative_path_match_count: u32,
    pub requires_confirmation: bool,
}

#[derive(Debug)]
pub struct GameModsDirectoryInspection {
    pub game_id: String,
    pub candidate_path: String,
    pub fingerprint: String,
    pub summary: GameModsDirectoryCandidateSummary,
}

#[derive(Debug)]
pub struct ApplyGameModsDirectoryRequest {
    pub game_id: String,
    pub candidate_path: String,
    pub expected_fingerprint: String,
    pub confirm_empty: bool,
    pub different_confirmation_game_name: Option<String>,
}

/// The non-empty filesystem identities among `ids`.
pub open spec fn identity_set(ids: Seq<Option<String>>) -> Set<Seq<char>> {
    Set::new(|x: Seq<char>| x.len() > 0 && exists|i: int| 0 <= i < ids.len() && (#[trigger] ids[i]) is Some && ids[i]->0@ == x)
}

/// The distinct non-empty identities among `ids`.
pub fn collect_identity_set(ids: &Vec<Option<String>>) -> (r: Vec<String>)
    ensures
        distinct(r@),
        text_set(r@) == identity_set(ids@),
{
    let mut r: Vec<String> = Vec::new();
    let mut i: usize = 0;
    while i < ids.len()
        invariant
            i <= ids@.len(),
            distinct(r@),
            text_set(r@) == identity_set(ids@.take(i as int)),
        decreases ids@.len() - i,
    {
        let ghost before = text_set(r@);
        let ghost prev = ids@.take(i as int);
        let ghost t = ids@.take(i + 1);
        proof {
            assert(t =~= prev.push(ids@[i as int]));
        }
        match &ids[i] {
            Some(id) => {
                if !id.as_str().is_empty() {
                    insert_distinct(&mut r, id.clone());
                    proof {
                        assert(identity_set(t) =~= identity_set(prev).insert(id@)) by {
                            assert forall|x: Seq<char>| identity_set(t).contains(x) implies identity_set(prev).insert(id@).contains(x) by {
                                let k = choose|k: int| 0 <= k < t.len() && (#[trigger] t[k]) is Some && t[k]->0@ == x;
                                if k < i {
                                    assert(prev[k] == t[k]);
                                }
                            }
                            assert forall|x: Seq<char>| identity_set(prev).insert(id@).contains(x) implies identity_set(t).contains(x) by {
                                if x == id@ {
                                    assert(t[i as int] == ids@[i as int]);
                                } else {
                                    let k = choose|k: int| 0 <= k < prev.len() && (#[trigger] prev[k]) is Some && prev[k]->0@ == x;
                                    assert(prev[k] == t[k]);
                                }
                            }
                        }
                    }
                } else {
                    proof {
                        assert(identity_set(t) =~= identity_set(prev)) by {
                            assert forall|x: Seq<char>| identity_set(t).contains(x) implies identity_set(prev).contains(x) by {
                                let k = choose|k: int| 0 <= k < t.len() && (#[trigger] t[k]) is Some && t[k]->0@ == x;
                                if k < i {
                                    assert(prev[k] == t[k]);
                                }
                            }
                            assert forall|x: Seq<char>| identity_set(prev).contains(x) implies identity_set(t).contains(x) by {
                                let k = choose|k: int| 0 <= k < prev.len() && (#[trigger] prev[k]) is Some && prev[k]->0@ == x;
                                assert(prev[k] == t[k]);
                            }
                        }
                    }
                }
            },
            None => {
                proof {
                    assert(identity_set(t) =~= identity_set(prev)) by {
                        assert forall|x: Seq<char>| identity_set(t).contains(x) implies identity_set(prev).contains(x) by {
                            let k = choose|k: int| 0 <= k < t.len() && (#[trigger] t[k]) is Some && t[k]->0@ == x;
                            if k < i {
                                assert(prev[k] == t[k]);
                            }
                        }
                        assert forall|x: Seq<char>| identity_set(prev).contains(x) implies identity_set(t).contains(x) by {
                            let k = choose|k: int| 0 <= k < prev.len() && (#[trigger] prev[k]) is Some && prev[k]->0@ == x;
                            assert(prev[k] == t[k]);
                        }
                    }
                }
            },
        }
        i += 1;
    }
    assert(ids@.take(ids@.len() as int) =~= ids@);
    r
}

/// `tag`, a NUL character and `key`.
pub open spec fn tagged(tag: Seq<char>, key: Seq<char>) -> Seq<char> {
    tag + seq!['\0'] + key
}

pub open spec fn object_identities(rows: Seq<ReconcileObjectRow>) -> Seq<Option<String>> {
    rows.map_values(|r: ReconcileObjectRow| r.filesystem_identity)
}

pub open spec fn mod_identities(rows: Seq<ReconcileModRow>) -> Seq<Option<String>> {
    rows.map_values(|r: ReconcileModRow| r.filesystem_identity)
}

pub open spec fn disk_object_identities(entries: Seq<DiskObjectEntry>) -> Seq<Option<String>> {
    entries.map_values(|e: DiskObjectEntry| e.filesystem_identity)
}

pub open spec fn disk_mod_identities(entries: Seq<DiskModEntry>) -> Seq<Option<String>> {
    entries.map_values(|e: DiskModEntry| e.filesystem_identity)
}

/// The tagged identity keys of stored rows: `object\0key` and `mod\0key`.
pub open spec fn row_paths(objects: Seq<ReconcileObjectRow>, mods: Seq<ReconcileModRow>) -> Set<Seq<char>> {
    (objects.map_values(|r: ReconcileObjectRow| tagged("object"@, r.folder_path_key@))
        + mods.map_values(|r: ReconcileModRow| tagged("mod"@, r.folder_path_key@))).to_set()
}

/// The tagged identity keys of a discovery.
pub open spec fn disk_paths(objects: Seq<DiskObjectEntry>, mods: Seq<DiskModEntry>) -> Set<Seq<char>> {
    (objects.map_values(|e: DiskObjectEntry| tagged("object"@, e.folder_path_key@))
        + mods.map_values(|e: DiskModEntry| tagged("mod"@, e.folder_path_key@))).to_set()
}

/// How a candidate directory relates to the stored library.
pub open spec fn classification_of(
    existing_objects: Seq<ReconcileObjectRow>,
    existing_mods: Seq<ReconcileModRow>,
    candidate: DiskProjection,
    physical_entry_count: nat,
) -> GameModsDirectoryClassification {
    let existing_identity = identity_set(object_identities(existing_objects) + mod_identities(existing_mods));
    let candidate_identity = identity_set(
        disk_object_identities(candidate.objects@) + disk_mod_identities(candidate.mods@),
    );
    let existing_count = existing_objects.len() + existing_mods.len();
    let candidate_count = candidate.objects@.len() + candidate.mods@.len();
    let existing_paths = row_paths(existing_objects, existing_mods);
    let candidate_paths = disk_paths(candidate.objects@, candidate.mods@);
    let complete_identity = existing_count == candidate_count && existing_identity.len() == existing_count
        && candidate_identity.len() == candidate_count && existing_identity == candidate_identity;
    let complete_paths = existing_paths.len() > 0 && existing_count == candidate_count
        && existing_paths == candidate_paths;
    if candidate_count == 0 && physical_entry_count == 0 {
        GameModsDirectoryClassification::Empty
    } else if existing_count == 0 && candidate_count > 0 {
        GameModsDirectoryClassification::NewLibrary
    } else if complete_identity || complete_paths {
        GameModsDirectoryClassification::Matching
    } else {
        GameModsDirectoryClassification::Different
    }
}

/// The summary an inspection reports for a candidate directory.
pub open spec fn candidate_summary(
    existing_objects: Seq<ReconcileObjectRow>,
    existing_mods: Seq<ReconcileModRow>,
    candidate: DiskProjection,
    physical_entry_count: usize,
) -> GameModsDirectoryCandidateSummary {
    let existing_identity = identity_set(object_identities(existing_objects) + mod_identities(existing_mods));
    let candidate_identity = identity_set(
        disk_object_identities(candidate.objects@) + disk_mod_identities(candidate.mods@),
    );
    let classification = classification_of(existing_objects, existing_mods, candidate, physical_entry_count as nat);
    GameModsDirectoryCandidateSummary {
        classification,
        existing_object_count: existing_objects.len() as u32,
        existing_mod_count: existing_mods.len() as u32,
        candidate_object_count: candidate.objects@.len() as u32,
        candidate_mod_count: candidate.mods@.len() as u32,
        physical_entry_count: physical_entry_count as u32,
        filesystem_identity_match_count: existing_identity.intersect(candidate_identity).len() as u32,
        relative_path_match_count: row_paths(existing_objects, existing_mods).intersect(
            disk_paths(candidate.objects@, candidate.mods@),
        ).len() as u32,
        requires_confirmation: classification == GameModsDirectoryClassification::Empty
            || classification == GameModsDirectoryClassification::Different,
    }
}

/// The identities among `ids`, one text per entry.
pub open spec fn identity_texts(ids: Seq<Option<String>>) -> Seq<Seq<char>> {
    ids.map_values(|o: Option<String>| match o {
        Some(s) => s@,
        None => Seq::<char>::empty(),
    })
}

proof fn lemma_identity_set_bound(ids: Seq<Option<String>>)
    ensures
        identity_set(ids).finite(),
        identity_set(ids).len() <= ids.len(),
{
    let texts = identity_texts(ids);
    assert(identity_set(ids).subset_of(texts.to_set())) by {
        assert forall|x: Seq<char>| identity_set(ids).contains(x) implies texts.to_set().contains(x) by {
            let k = choose|k: int| 0 <= k < ids.len() && (#[trigger] ids[k]) is Some && ids[k]->0@ == x;
            assert(texts[k] == x);
        }
    }
    texts.lemma_cardinality_of_set();
    vstd::set_lib::lemma_len_subset(identity_set(ids), texts.to_set());
}

/// The match counts of a candidate summary never exceed the smaller side:
/// identities and relative paths shared by the stored library and the
/// candidate are at most as many as the rows of either. Each count field
/// reports its input's length.
pub proof fn law_match_counts_fit_both_sides(
    existing_objects: Seq<ReconcileObjectRow>,
    existing_mods: Seq<ReconcileModRow>,
    candidate: DiskProjection,
    physical_entry_count: usize,
)
    requires
        existing_objects.len() + existing_mods.len() <= u32::MAX,
        candidate.objects@.len() + candidate.mods@.len() <= u32::MAX,
        physical_entry_count <= u32::MAX,
    ensures
        ({
            let r = candidate_summary(existing_objects, existing_mods, candidate, physical_entry_count);
            let ex = existing_objects.len() + existing_mods.len();
            let ca = candidate.objects@.len() + candidate.mods@.len();
            &&& r.filesystem_identity_match_count <= ex && r.filesystem_identity_match_count <= ca
            &&& r.relative_path_match_count <= ex && r.relative_path_match_count <= ca
            &&& r.existing_object_count == existing_objects.len() && r.existing_mod_count == existing_mods.len()
            &&& r.candidate_object_count == candidate.objects@.len() && r.candidate_mod_count == candidate.mods@.len()
            &&& r.physical_entry_count == physical_entry_count
            &&& r.requires_confirmation <==> (r.classification == GameModsDirectoryClassification::Empty
                || r.classification == GameModsDirectoryClassification::Different)
            &&& r.classification == GameModsDirectoryClassification::Empty <==> (ca == 0 && physical_entry_count == 0)
            &&& r.classification != GameModsDirectoryClassification::Empty ==> (r.classification
                == GameModsDirectoryClassification::NewLibrary <==> (ex == 0 && ca > 0))
            &&& r.classification == GameModsDirectoryClassification::Matching ==> ex == ca
        }),
{
    let e_ids = object_identities(existing_objects) + mod_identities(existing_mods);
    let c_ids = disk_object_identities(candidate.objects@) + disk_mod_identities(candidate.mods@);
    lemma_identity_set_bound(e_ids);
    lemma_identity_set_bound(c_ids);
    let ei = identity_set(e_ids);
    let ci = identity_set(c_ids);
    vstd::set_lib::lemma_len_intersect(ei, ci);
    assert(ei.intersect(ci) =~= ci.intersect(ei));
    vstd::set_lib::lemma_len_intersect(ci, ei);
    let rs = (existing_objects.map_values(|r: ReconcileObjectRow| tagged("object"@, r.folder_path_key@))
        + existing_mods.map_values(|r: ReconcileModRow| tagged("mod"@, r.folder_path_key@)));
    let ds = (candidate.objects@.map_values(|e: DiskObjectEntry| tagged("object"@, e.folder_path_key@))
        + candidate.mods@.map_values(|e: DiskModEntry| tagged("mod"@, e.folder_path_key@)));
    rs.lemma_cardinality_of_set();
    ds.lemma_cardinality_of_set();
    vstd::seq_lib::seq_to_set_is_finite(rs);
    vstd::seq_lib::seq_to_set_is_finite(ds);
    vstd::set_lib::lemma_len_intersect(rs.to_set(), ds.to_set());
    assert(rs.to_set().intersect(ds.to_set()) =~= ds.to_set().intersect(rs.to_set()));
    vstd::set_lib::lemma_len_intersect(ds.to_set(), rs.to_set());
}

fn tag_key(tag: &str, key: &String) -> (r: String)
    ensures
        r@ == tagged(tag@, key@),
{
    let head = concat_str(tag, "\0");
    proof {
        reveal_strlit("\0");
    }
    concat_str(head.as_str(), key.as_str())
}

/// Compares a candidate directory with the stored rows of a game.
pub fn classify_candidate(
    existing_objects: &Vec<ReconcileObjectRow>,
    existing_mods: &Vec<ReconcileModRow>,
    candidate: &DiskProjection,
    physical_entry_count: usize,
) -> (r: GameModsDirectoryCandidateSummary)
    ensures
        r == candidate_summary(existing_objects@, existing_mods@, *candidate, physical_entry_count),
{
    // Identities of both sides.
    let mut existing_ids: Vec<Option<String>> = Vec::new();
    let mut i: usize = 0;
    while i < existing_objects.len()
        invariant
            i <= existing_objects@.len(),
            existing_ids@ =~= object_identities(existing_objects@).take(i as int),
        decreases existing_objects@.len() - i,
    {
        existing_ids.push(crate::reconcile::snapshot::copy_opt(&existing_objects[i].filesystem_identity));
        i += 1;
    }
    let mut j: usize = 0;
    while j < existing_mods.len()
        invariant
            j <= existing_mods@.len(),
            existing_ids@ =~= object_identities(existing_objects@) + mod_identities(existing_mods@).take(j as int),
        decreases existing_mods@.len() - j,
    {
        existing_ids.push(crate::reconcile::snapshot::copy_opt(&existing_mods[j].filesystem_identity));
        j += 1;
    }
    let mut candidate_ids: Vec<Option<String>> = Vec::new();
    let mut k: usize = 0;
    while k < candidate.objects.len()
        invariant
            k <= candidate.objects@.len(),
            candidate_ids@ =~= disk_object_identities(candidate.objects@).take(k as int),
        decreases candidate.objects@.len() - k,
    {
        candidate_ids.push(crate::reconcile::snapshot::copy_opt(&candidate.objects[k].filesystem_identity));
        k += 1;
    }
    let mut m: usize = 0;
    while m < candidate.mods.len()
        invariant
            m <= candidate.mods@.len(),
            candidate_ids@ =~= disk_object_identities(candidate.objects@) + disk_mod_identities(candidate.mods@).take(m as int),
        decreases candidate.mods@.len() - m,
    {
        candidate_ids.push(crate::reconcile::snapshot::copy_opt(&candidate.mods[m].filesystem_identity));
        m += 1;
    }
    proof {
        assert(mod_identities(existing_mods@).take(j as int) =~= mod_identities(existing_mods@));
        assert(disk_mod_identities(candidate.mods@).take(m as int) =~= disk_mod_identities(candidate.mods@));
    }
    let existing_identity = collect_identity_set(&existing_ids);
    let candidate_identity = collect_identity_set(&candidate_ids);
    let identity_matches = count_shared(&existing_identity, &candidate_identity);

    // Tagged identity keys of both sides.
    let ghost ex_tagged = existing_objects@.map_values(|r: ReconcileObjectRow| tagged("object"@, r.folder_path_key@))
        + existing_mods@.map_values(|r: ReconcileModRow| tagged("mod"@, r.folder_path_key@));
    let ghost cand_tagged = candidate.objects@.map_values(|e: DiskObjectEntry| tagged("object"@, e.folder_path_key@))
        + candidate.mods@.map_values(|e: DiskModEntry| tagged("mod"@, e.folder_path_key@));
    let mut ex_list: Vec<String> = Vec::new();
    let mut a: usize = 0;
    while a < existing_objects.len()
        invariant
            a <= existing_objects@.len(),
            views(ex_list@) =~= existing_objects@.map_values(|r: ReconcileObjectRow| tagged("object"@, r.folder_path_key@)).take(a as int),
        decreases existing_objects@.len() - a,
    {
        let item = tag_key("object", &existing_objects[a].folder_path_key);
        let ghost before = ex_list@;
        ex_list.push(item);
        proof { lemma_views_push(before, item); }
        a += 1;
    }
    let mut b: usize = 0;
    while b < existing_mods.len()
        invariant
            b <= existing_mods@.len(),
            views(ex_list@) =~= existing_objects@.map_values(|r: ReconcileObjectRow| tagged("object"@, r.folder_path_key@))
                + existing_mods@.map_values(|r: ReconcileModRow| tagged("mod"@, r.folder_path_key@)).take(b as int),
        decreases existing_mods@.len() - b,
    {
        let item = tag_key("mod", &existing_mods[b].folder_path_key);
        let ghost before = ex_list@;
        ex_list.push(item);
        proof { lemma_views_push(before, item); }
        b += 1;
    }
    let mut cand_list: Vec<String> = Vec::new();
    let mut c: usize = 0;
    while c < candidate.objects.len()
        invariant
            c <= candidate.objects@.len(),
            views(cand_list@) =~= candidate.objects@.map_values(|e: DiskObjectEntry| tagged("object"@, e.folder_path_key@)).take(c as int),
        decreases candidate.objects@.len() - c,
    {
        let item = tag_key("object", &candidate.objects[c].folder_path_key);
        let ghost before = cand_list@;
        cand_list.push(item);
        proof { lemma_views_push(before, item); }
        c += 1;
    }
    let mut d: usize = 0;
    while d < candidate.mods.len()
        invariant
            d <= candidate.mods@.len(),
            views(cand_list@) =~= candidate.objects@.map_values(|e: DiskObjectEntry| tagged("object"@, e.folder_path_key@))
                + candidate.mods@.map_values(|e: DiskModEntry| tagged("mod"@, e.folder_path_key@)).take(d as int),
        decreases candidate.mods@.len() - d,
    {
        let item = tag_key("mod", &candidate.mods[d].folder_path_key);
        let ghost before = cand_list@;
        cand_list.push(item);
        proof { lemma_views_push(before, item); }
        d += 1;
    }
    proof {
        assert(existing_mods@.map_values(|r: ReconcileModRow| tagged("mod"@, r.folder_path_key@)).take(b as int)
            =~= existing_mods@.map_values(|r: ReconcileModRow| tagged("mod"@, r.folder_path_key@)));
        assert(candidate.mods@.map_values(|e: DiskModEntry| tagged("mod"@, e.folder_path_key@)).take(d as int)
            =~= candidate.mods@.map_values(|e: DiskModEntry| tagged("mod"@, e.folder_path_key@)));
        assert(views(ex_list@).to_set() == row_paths(existing_objects@, existing_mods@));
        assert(views(cand_list@).to_set() == disk_paths(candidate.objects@, candidate.mods@));
    }
    let existing_paths = distinct_texts(&ex_list);
    let candidate_paths = distinct_texts(&cand_list);
    let path_matches = count_shared(&existing_paths, &candidate_paths);
    proof {
        views(existing_identity@).unique_seq_to_set();
        views(candidate_identity@).unique_seq_to_set();
        views(existing_paths@).unique_seq_to_set();
    }

    let existing_count = existing_objects.len() as u128 + existing_mods.len() as u128;
    let candidate_count = candidate.objects.len() as u128 + candidate.mods.len() as u128;
    let complete_identity = existing_count == candidate_count
        && existing_identity.len() as u128 == existing_count
        && candidate_identity.len() as u128 == candidate_count
        && same_texts(&existing_identity, &candidate_identity);
    let complete_paths = existing_paths.len() > 0 && existing_count == candidate_count
        && same_texts(&existing_paths, &candidate_paths);
    let classification = if candidate_count == 0 && physical_entry_count == 0 {
        GameModsDirectoryClassification::Empty
    } else if existing_count == 0 && candidate_count > 0 {
        GameModsDirectoryClassification::NewLibrary
    } else if complete_identity || complete_paths {
        GameModsDirectoryClassification::Matching
    } else {
        GameModsDirectoryClassification::Different
    };
    let requires_confirmation = match classification {
        GameModsDirectoryClassification::Empty | GameModsDirectoryClassification::Different => true,
        _ => false,
    };
    GameModsDirectoryCandidateSummary {
        classification,
        existing_object_count: existing_objects.len() as u32,
        existing_mod_count: existing_mods.len() as u32,
        candidate_object_count: candidate.objects.len() as u32,
        candidate_mod_count: candidate.mods.len() as u32,
        physical_entry_count: physical_entry_count as u32,
        filesystem_identity_match_count: identity_matches as u32,
        relative_path_match_count: path_matches as u32,
        requires_confirmation,
    }
}

/// An optional identity, or nothing.
pub open spec fn identity_text(o: Option<String>) -> Seq<char> {
    match o {
        Some(s) => s@,
        None => Seq::<char>::empty(),
    }
}

/// One line of a fingerprint: tag, path and identity, NUL-separated.
pub open spec fn fingerprint_line(tag: Seq<char>, folder_path: Seq<char>, identity: Option<String>) -> Seq<char> {
    tag + seq!['\0'] + folder_path + seq!['\0'] + identity_text(identity)
}

/// The fingerprint lines of a discovery, objects first.
pub open spec fn fingerprint_lines(projection: DiskProjection) -> Seq<Seq<char>> {
    object_lines(projection.objects@) + mod_lines(projection.mods@)
}

pub open spec fn object_lines(objects: Seq<DiskObjectEntry>) -> Seq<Seq<char>> {
    objects.map_values(|e: DiskObjectEntry| fingerprint_line("object"@, e.folder_path@, e.filesystem_identity))
}

pub open spec fn mod_lines(mods: Seq<DiskModEntry>) -> Seq<Seq<char>> {
    mods.map_values(|e: DiskModEntry| fingerprint_line("mod"@, e.folder_path@, e.filesystem_identity))
}

/// Each line's bytes, each preceded by a NUL byte.
pub open spec fn nul_prefixed(lines: Seq<Seq<char>>) -> Seq<u8>
    decreases lines.len(),
{
    if lines.len() == 0 {
        Seq::<u8>::empty()
    } else {
        nul_prefixed(lines.drop_last()) + seq![0u8] + encode_utf8(lines.last())
    }
}

/// The bytes a candidate's fingerprint hashes: its path, the number of
/// physical entries in decimal, and the sorted lines.
pub open spec fn fingerprint_input(canonical_path: Seq<char>, projection: DiskProjection, physical_entry_count: nat) -> Seq<u8> {
    encode_utf8(canonical_path) + seq![0u8] + encode_utf8(decimal(physical_entry_count))
        + nul_prefixed(stable_sort(fingerprint_lines(projection), false))
}

/// The fingerprint of a candidate directory.
pub open spec fn fingerprint_of(canonical_path: Seq<char>, projection: DiskProjection, physical_entry_count: nat) -> Seq<char> {
    blake3_hex(fingerprint_input(canonical_path, projection, physical_entry_count))
}

fn line_for(tag: &str, folder_path: &String, identity: &Option<String>) -> (r: String)
    ensures
        r@ == fingerprint_line(tag@, folder_path@, *identity),
{
    proof {
        reveal_strlit("\0");
        reveal_strlit("");
    }
    let a = concat_str(tag, "\0");
    let b = concat_str(a.as_str(), folder_path.as_str());
    let c = concat_str(b.as_str(), "\0");
    match identity {
        Some(id) => concat_str(c.as_str(), id.as_str()),
        None => concat_str(c.as_str(), ""),
    }
}

/// A digest of what a candidate directory holds, so that an apply can
/// refuse a directory that changed after it was inspected.
pub fn candidate_fingerprint(canonical_path: &str, projection: &DiskProjection, physical_entry_count: usize) -> (r: String)
    ensures
        r@ == fingerprint_of(canonical_path@, *projection, physical_entry_count as nat),
{
    let mut lines: Vec<String> = Vec::new();
    let mut i: usize = 0;
    while i < projection.objects.len()
        invariant
            i <= projection.objects@.len(),
            views(lines@) =~= object_lines(projection.objects@).take(i as int),
        decreases projection.objects@.len() - i,
    {
        let entry = &projection.objects[i];
        let line = line_for("object", &entry.folder_path, &entry.filesystem_identity);
        let ghost before = lines@;
        lines.push(line);
        proof {
            lemma_views_push(before, line);
            assert(object_lines(projection.objects@)[i as int] == line@);
            assert(object_lines(projection.objects@).take(i + 1) =~= object_lines(projection.objects@).take(i as int).push(line@));
        }
        i += 1;
    }
    let mut j: usize = 0;
    while j < projection.mods.len()
        invariant
            j <= projection.mods@.len(),
            views(lines@) =~= object_lines(projection.objects@) + mod_lines(projection.mods@).take(j as int),
        decreases projection.mods@.len() - j,
    {
        let entry = &projection.mods[j];
        let line = line_for("mod", &entry.folder_path, &entry.filesystem_identity);
        let ghost before = lines@;
        lines.push(line);
        proof {
            lemma_views_push(before, line);
            assert(mod_lines(projection.mods@)[j as int] == line@);
            assert(mod_lines(projection.mods@).take(j + 1) =~= mod_lines(projection.mods@).take(j as int).push(line@));
        }
        j += 1;
    }
    assert(mod_lines(projection.mods@).take(j as int) =~= mod_lines(projection.mods@));
    let sorted = sort_texts(&lines, false);
    let ghost sorted_lines = views(sorted@);
    let mut bytes: Vec<u8> = Vec::new();
    append_utf8(&mut bytes, canonical_path);
    bytes.push(0u8);
    let count = decimal_string(physical_entry_count as u128);
    append_utf8(&mut bytes, count.as_str());
    let ghost head = bytes@;
    assert(head =~= encode_utf8(canonical_path@) + seq![0u8] + encode_utf8(decimal(physical_entry_count as nat)));
    let mut k: usize = 0;
    while k < sorted.len()
        invariant
            k <= sorted@.len(),
            sorted_lines == views(sorted@),
            bytes@ =~= head + nul_prefixed(sorted_lines.take(k as int)),
        decreases sorted@.len() - k,
    {
        proof {
            assert(sorted_lines.take(k + 1).drop_last() =~= sorted_lines.take(k as int));
            assert(sorted_lines.take(k + 1).last() == sorted@[k as int]@);
        }
        bytes.push(0u8);
        append_utf8(&mut bytes, sorted[k].as_str());
        k += 1;
    }
    assert(sorted_lines.take(k as int) =~= sorted_lines);
    hex_digest(&bytes)
}

/// The message that refuses a directory changed since its inspection.
pub open spec fn changed_since_inspection_message() -> Seq<char> {
    "The selected mods directory changed after it was inspected. Review it again before applying."@
}

/// Refuses to apply a directory whose fingerprint no longer matches the one
/// its inspection reported.
pub fn ensure_fingerprint_unchanged(actual: &String, expected: &String) -> (r: Result<(), AppError>)
    ensures
        r is Ok <==> actual@ == expected@,
        r is Err ==> (r matches Err(AppError::Validation(m)) && m@ == changed_since_inspection_message()),
{
    if *actual == *expected {
        Ok(())
    } else {
        Err(AppError::Validation(String::from_str(
            "The selected mods directory changed after it was inspected. Review it again before applying.",
        )))
    }
}

/// The message that asks to confirm an empty directory.
pub open spec fn confirm_empty_message() -> Seq<char> {
    "Confirm the empty directory before creating a new mods library"@
}

/// The message that asks to type the game's name before replacing its library.
pub open spec fn confirm_replace_message(game_name: Seq<char>) -> Seq<char> {
    "Type the game name '"@ + game_name + "' to confirm replacing this mods library"@
}

/// Whether the request carries the confirmation a classification needs.
pub open spec fn confirmation_given(
    classification: GameModsDirectoryClassification,
    confirm_empty: bool,
    typed_name: Option<String>,
    game_name: Seq<char>,
) -> bool {
    match classification {
        GameModsDirectoryClassification::Matching => true,
        GameModsDirectoryClassification::NewLibrary => true,
        GameModsDirectoryClassification::Empty => confirm_empty,
        GameModsDirectoryClassification::Different => typed_name is Some && trim(typed_name->0@) == game_name,
    }
}

/// A matching or new library applies as is; an empty directory needs its
/// confirmation, and a different library needs the game's name typed out.
pub fn ensure_directory_confirmed(
    classification: GameModsDirectoryClassification,
    confirm_empty: bool,
    typed_name: &Option<String>,
    game_name: &str,
) -> (r: Result<(), AppError>)
    ensures
        r is Ok <==> confirmation_given(classification, confirm_empty, *typed_name, game_name@),
        r is Err && classification == GameModsDirectoryClassification::Empty ==> (r matches Err(
            AppError::Validation(m),
        ) && m@ == confirm_empty_message()),
        r is Err && classification == GameModsDirectoryClassification::Different ==> (r matches Err(
            AppError::Validation(m),
        ) && m@ == confirm_replace_message(game_name@)),
{
    match classification {
        GameModsDirectoryClassification::Matching | GameModsDirectoryClassification::NewLibrary => Ok(()),
        GameModsDirectoryClassification::Empty => {
            if confirm_empty {
                Ok(())
            } else {
                Err(AppError::Validation(String::from_str(
                    "Confirm the empty directory before creating a new mods library",
                )))
            }
        },
        GameModsDirectoryClassification::Different => {
            let confirmed = match typed_name {
                Some(name) => {
                    let t = trim_str(name.as_str());
                    let g = String::from_str(game_name);
                    t == g
                },
                None => false,
            };
            if confirmed {
                Ok(())
            } else {
                let a = concat_str("Type the game name '", game_name);
                let m = concat_str(a.as_str(), "' to confirm replacing this mods library");
                Err(AppError::Validation(m))
            }
        },
    }
}

/// The message used when a reconcile loses the directory it was applying.
pub open spec fn directory_lost_message() -> Seq<char> {
    "The selected mods directory became unavailable during reconcile"@
}

/// The reconcile that follows an apply must find the new directory; when it
/// reports the source unavailable the apply fails with its message.
pub fn require_available_source(result: DiskReconcileResult) -> (r: Result<DiskReconcileResult, AppError>)
    ensures
        result.status != DiskReconcileStatus::SourceUnavailable ==> r == Ok::<DiskReconcileResult, AppError>(result),
        result.status == DiskReconcileStatus::SourceUnavailable ==> (r matches Err(AppError::Io(m)) && m@ == match result.error_message {
            Some(e) => e@,
            None => directory_lost_message(),
        }),
{
    match result.status {
        DiskReconcileStatus::SourceUnavailable => {
            let message = match result.error_message {
                Some(e) => e,
                None => String::from_str("The selected mods directory became unavailable during reconcile"),
            };
            Err(AppError::Io(message))
        },
        _ => Ok(result),
    }
}

/// The message that refuses an inspection without a game.
pub open spec fn game_id_required_message() -> Seq<char> {
    "Game id is required"@
}

/// An inspection needs a game id that is not blank.
pub fn ensure_game_id_present(game_id: &str) -> (r: Result<(), AppError>)
    ensures
        r is Ok <==> trim(game_id@).len() > 0,
        r is Err ==> (r matches Err(AppError::Validation(m)) && m@ == game_id_required_message()),
{
    if crate::text::is_blank(game_id) {
        Err(AppError::Validation(String::from_str("Game id is required")))
    } else {
        Ok(())
    }
}

/// What applying a mods directory reports.
#[derive(Debug)]
pub struct ApplyGameModsDirectoryResult {
    pub game: crate::settings::GameConfig,
    pub inspection: GameModsDirectoryInspection,
    pub reconcile: DiskReconcileResult,
    pub emmm_data_moved: bool,
    pub watcher_warning: Option<String>,
}

/// Two paths name the same place: same rootedness and components.
pub open spec fn same_path(a: Seq<char>, b: Seq<char>) -> bool {
    crate::path_rules::rooted(a) == crate::path_rules::rooted(b) && crate::path_rules::components(a) == crate::path_rules::components(b)
}

fn paths_equal(a: &str, b: &str) -> (r: bool)
    ensures
        r == same_path(a@, b@),
{
    let ac = crate::text::to_chars(a);
    let bc = crate::text::to_chars(b);
    let ar = ac.len() > 0 && crate::path_rules::is_separator(ac[0]);
    let br = bc.len() > 0 && crate::path_rules::is_separator(bc[0]);
    if ar != br {
        return false;
    }
    let ap = crate::path_rules::path_components(ac.as_slice());
    let bp = crate::path_rules::path_components(bc.as_slice());
    if ap.len() != bp.len() {
        return false;
    }
    let mut i: usize = 0;
    while i < ap.len()
        invariant
            ap@.len() == bp@.len(),
            ap@.len() == crate::path_rules::components(a@).len(),
            bp@.len() == crate::path_rules::components(b@).len(),
            forall|k: int| 0 <= k < ap@.len() ==> #[trigger] ap@[k]@ == crate::path_rules::components(a@)[k],
            forall|k: int| 0 <= k < bp@.len() ==> #[trigger] bp@[k]@ == crate::path_rules::components(b@)[k],
            i <= ap@.len(),
            forall|k: int| 0 <= k < i ==> crate::path_rules::components(a@)[k] == crate::path_rules::components(b@)[k],
        decreases ap@.len() - i,
    {
        if !crate::text::chars_eq(ap[i].as_slice(), bp[i].as_slice()) {
            assert(ap@[i as int]@ == crate::path_rules::components(a@)[i as int]);
            assert(bp@[i as int]@ == crate::path_rules::components(b@)[i as int]);
            return false;
        }
        i += 1;
    }
    assert(crate::path_rules::components(a@) =~= crate::path_rules::components(b@));
    true
}

pub open spec fn game_missing_for_apply_message(id: Seq<char>) -> Seq<char> {
    "Game '"@ + id + "' was not found"@
}

pub open spec fn changed_before_rollback_message(id: Seq<char>) -> Seq<char> {
    "The mods directory for game '"@ + id + "' changed again before rollback"@
}

fn game_missing_error(game_id: &str) -> (r: AppError)
    ensures
        r matches AppError::Validation(m) && m@ == game_missing_for_apply_message(game_id@),
{
    let a = concat_str("Game '", game_id);
    AppError::Validation(concat_str(a.as_str(), "' was not found"))
}

/// `after` is `before` with the mods directory of game `k` set to `path`,
/// and nothing else changed.
pub open spec fn with_mods_path(before: crate::settings::AppSettings, after: crate::settings::AppSettings, k: int, path: String) -> bool {
    &&& 0 <= k < before.games@.len()
    &&& after.games@.len() == before.games@.len()
    &&& after.games@[k] == (crate::settings::GameConfig { mod_path: path, ..before.games@[k] })
    &&& forall|j: int| 0 <= j < before.games@.len() && j != k ==> after.games@[j] == before.games@[j]
    &&& after == (crate::settings::AppSettings { games: after.games, ..before })
}

/// What pointing game `game_id` at `candidate` does: the game's current
/// directory comes back and the candidate takes its place; an unknown game
/// is refused and nothing changes.
pub open spec fn replace_outcome(
    before: crate::settings::AppSettings,
    game_id: Seq<char>,
    candidate: String,
    r: Result<String, AppError>,
    after: crate::settings::AppSettings,
) -> bool {
    let k = crate::settings::game_index(before.games@, game_id);
    if k < 0 {
        r matches Err(AppError::Validation(m)) && m@ == game_missing_for_apply_message(game_id) && after == before
    } else {
        r matches Ok(p) && p == before.games@[k].mod_path && with_mods_path(before, after, k, candidate)
    }
}

/// What rolling game `game_id` back to `previous` does: only while its
/// directory is still `applied` is `previous` restored; otherwise, or for an
/// unknown game, the rollback is refused and nothing changes.
pub open spec fn rollback_outcome(
    before: crate::settings::AppSettings,
    game_id: Seq<char>,
    applied: Seq<char>,
    previous: String,
    r: Result<(), AppError>,
    after: crate::settings::AppSettings,
) -> bool {
    let k = crate::settings::game_index(before.games@, game_id);
    if k < 0 {
        r matches Err(AppError::Validation(m)) && m@ == game_missing_for_apply_message(game_id) && after == before
    } else if !same_path(before.games@[k].mod_path@, applied) {
        r matches Err(AppError::Validation(m)) && m@ == changed_before_rollback_message(game_id) && after == before
    } else {
        r is Ok && with_mods_path(before, after, k, previous)
    }
}

/// Points a game at a new mods directory and gives back the one it had.
pub fn replace_mods_path(settings: &mut crate::settings::AppSettings, game_id: &str, candidate_path: String) -> (r: Result<String, AppError>)
    ensures
        replace_outcome(*old(settings), game_id@, candidate_path, r, *final(settings)),
{
    match crate::settings::find_game(&settings.games, game_id) {
        None => Err(game_missing_error(game_id)),
        Some(k) => {
            let mut game = settings.games.remove(k);
            let previous = game.mod_path;
            game.mod_path = candidate_path;
            settings.games.insert(k, game);
            proof {
                assert(settings.games@ =~= old(settings).games@.update(k as int, settings.games@[k as int]));
            }
            Ok(previous)
        },
    }
}

/// Restores the previous mods directory after a failed apply, unless the
/// directory was changed again meanwhile.
pub fn rollback_game_mods_directory(
    settings: &mut crate::settings::AppSettings,
    game_id: &str,
    applied_path: &str,
    previous_path: String,
) -> (r: Result<(), AppError>)
    ensures
        rollback_outcome(*old(settings), game_id@, applied_path@, previous_path, r, *final(settings)),
{
    match crate::settings::find_game(&settings.games, game_id) {
        None => Err(game_missing_error(game_id)),
        Some(k) => {
            if !paths_equal(settings.games[k].mod_path.as_str(), applied_path) {
                let a = concat_str("The mods directory for game '", game_id);
                return Err(AppError::Validation(concat_str(a.as_str(), "' changed again before rollback")));
            }
            let mut game = settings.games.remove(k);
            game.mod_path = previous_path;
            settings.games.insert(k, game);
            proof {
                assert(settings.games@ =~= old(settings).games@.update(k as int, settings.games@[k as int]));
            }
            Ok(())
        },
    }
}

proof fn lemma_game_index_same_ids(a: Seq<crate::settings::GameConfig>, b: Seq<crate::settings::GameConfig>, id: Seq<char>)
    requires
        a.len() == b.len(),
        forall|j: int| 0 <= j < a.len() ==> #[trigger] a[j].id == b[j].id,
    ensures
        crate::settings::game_index(a, id) == crate::settings::game_index(b, id),
    decreases a.len(),
{
    if a.len() > 0 {
        assert(a[0].id == b[0].id);
        assert forall|j: int| 0 <= j < a.drop_first().len() implies #[trigger] a.drop_first()[j].id == b.drop_first()[j].id by {
            assert(a[j + 1].id == b[j + 1].id);
        }
        lemma_game_index_same_ids(a.drop_first(), b.drop_first(), id);
    }
}

/// A rollback right after an apply gives back the settings as they were:
/// the game points at its previous mods directory again, and every other
/// game and setting is untouched.
pub proof fn law_rollback_restores_the_previous_directory(
    s0: crate::settings::AppSettings,
    s1: crate::settings::AppSettings,
    s2: crate::settings::AppSettings,
    game_id: Seq<char>,
    candidate: String,
    previous: String,
    r: Result<(), AppError>,
)
    requires
        replace_outcome(s0, game_id, candidate, Ok(previous), s1),
        rollback_outcome(s1, game_id, candidate@, previous, r, s2),
    ensures
        r is Ok,
        s2.games@ == s0.games@,
        s2 == (crate::settings::AppSettings { games: s2.games, ..s0 }),
{
    let k = crate::settings::game_index(s0.games@, game_id);
    assert forall|j: int| 0 <= j < s0.games@.len() implies #[trigger] s0.games@[j].id == s1.games@[j].id by {
        if j != k {
            assert(s1.games@[j] == s0.games@[j]);
        }
    }
    lemma_game_index_same_ids(s0.games@, s1.games@, game_id);
    assert(same_path(candidate@, candidate@));
    assert(s2.games@ =~= s0.games@);
}

} // verus!

verus! {

/// The folder where the application keeps its generated data inside a
/// mods folder.
pub open spec fn generated_data_dir(mods_path: Seq<char>) -> Seq<char> {
    crate::path_rules::joined(mods_path, ".emmm_data"@)
}

pub open spec fn generated_data_exists_message(destination: Seq<char>) -> Seq<char> {
    "Cannot move generated EMMM data because '"@ + destination + "' already exists"@
}

pub open spec fn generated_data_lost_message() -> Seq<char> {
    "Generated EMMM data disappeared before it could be restored"@
}

pub fn generated_data_path(mods_path: &str) -> (r: String)
    ensures
        r@ == generated_data_dir(mods_path@),
{
    let base = crate::text::to_chars(mods_path);
    let name = crate::text::to_chars(".emmm_data");
    proof {
        reveal_strlit(".emmm_data");
    }
    let full = crate::path_rules::join_path(base.as_slice(), name.as_slice());
    crate::text::from_chars(full.as_slice())
}

/// What moving the generated data from one mods folder to another gives:
/// nothing to move without data, a refusal when the target already has
/// some, otherwise the move from the old data folder to the new one.
pub open spec fn generated_move_outcome(
    from_mods_path: Seq<char>,
    to_mods_path: Seq<char>,
    source_is_dir: bool,
    destination_exists: bool,
    r: Result<Option<(String, String)>, AppError>,
) -> bool {
    if !source_is_dir {
        r == Ok::<Option<(String, String)>, AppError>(None)
    } else if destination_exists {
        r matches Err(AppError::Validation(m)) && m@ == generated_data_exists_message(generated_data_dir(to_mods_path))
    } else {
        r matches Ok(Some(mv)) && mv.0@ == generated_data_dir(from_mods_path) && mv.1@ == generated_data_dir(to_mods_path)
    }
}

/// What restoring the generated data after a failed apply gives: nothing
/// when nothing was moved, a failure when the data left the applied folder,
/// a refusal when the previous folder has data again, otherwise the move
/// back.
pub open spec fn generated_restore_outcome(
    moved: bool,
    applied_mods_path: Seq<char>,
    previous_mods_path: Seq<char>,
    applied_has_data: bool,
    previous_has_data: bool,
    r: Result<Option<(String, String)>, AppError>,
) -> bool {
    if !moved {
        r == Ok::<Option<(String, String)>, AppError>(None)
    } else if !applied_has_data {
        r matches Err(AppError::Io(m)) && m@ == generated_data_lost_message()
    } else {
        generated_move_outcome(applied_mods_path, previous_mods_path, true, previous_has_data, r)
    }
}

/// The move of the generated data folder that follows the library to a new
/// mods folder, as (from, to): none when there is no such folder, refused
/// when the new folder already has one. Whether each exists is read from
/// disk by the caller.
pub fn move_generated_emmm_data_directory(
    from_mods_path: &str,
    to_mods_path: &str,
    source_is_dir: bool,
    destination_exists: bool,
) -> (r: Result<Option<(String, String)>, AppError>)
    ensures
        generated_move_outcome(from_mods_path@, to_mods_path@, source_is_dir, destination_exists, r),
{
    if !source_is_dir {
        return Ok(None);
    }
    let destination = generated_data_path(to_mods_path);
    if destination_exists {
        let head = concat_str("Cannot move generated EMMM data because '", destination.as_str());
        return Err(AppError::Validation(concat_str(head.as_str(), "' already exists")));
    }
    Ok(Some((generated_data_path(from_mods_path), destination)))
}

/// The move that puts the generated data back after a failed apply: none
/// when nothing was moved, refused when the data left the applied folder.
pub fn restore_generated_emmm_data_directory(
    moved: bool,
    applied_mods_path: &str,
    previous_mods_path: &str,
    applied_has_data: bool,
    previous_has_data: bool,
) -> (r: Result<Option<(String, String)>, AppError>)
    ensures
        generated_restore_outcome(moved, applied_mods_path@, previous_mods_path@, applied_has_data, previous_has_data, r),
{
    if !moved {
        return Ok(None);
    }
    if !applied_has_data {
        return Err(AppError::Io(String::from_str("Generated EMMM data disappeared before it could be restored")));
    }
    move_generated_emmm_data_directory(applied_mods_path, previous_mods_path, true, previous_has_data)
}

/// Restoring after a failed apply undoes the move of the generated data:
/// when the data moved from the previous mods folder to the applied one and
/// is still there, and the previous folder got none meanwhile, the restore
/// moves it from where it went back to where it came from.
pub proof fn law_restore_reverses_the_generated_data_move(
    previous_mods_path: Seq<char>,
    applied_mods_path: Seq<char>,
    moved: (String, String),
    restored: Result<Option<(String, String)>, AppError>,
)
    requires
        generated_move_outcome(previous_mods_path, applied_mods_path, true, false, Ok(Some(moved))),
        generated_restore_outcome(true, applied_mods_path, previous_mods_path, true, false, restored),
    ensures
        restored matches Ok(Some(back)) && back.0@ == moved.1@ && back.1@ == moved.0@,
{
}
} // verus!
