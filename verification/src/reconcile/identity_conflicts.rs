//! Folder-name conflicts: sibling folders whose names are equal once case
//! and the `DISABLED ` marker are ignored. Each such set is reported so that
//! a person can choose which folder stays.

use vstd::prelude::*;

use crate::digest::{generate_stable_id_from_key, stable_id};
use crate::order::{lemma_sort_len, lemma_sort_map, sort_by_key, sort_texts, stable_sort};
use crate::path_rules::{
    components, disabled_folder, display_name, is_disabled_folder, join_slash, normalize_display_name, path_components,
};
use crate::reconcile::authority::text_opt;
use crate::reconcile::snapshot::{DiskIdentityCensus, DiskIdentityCensusEntry, DiskModEntry, DiskObjectEntry, DiskProjection};
use crate::reconcile::types::{FolderNameConflictCandidate, FolderNameConflictGroup};
use crate::sets::views;
use crate::text::{chars_eq, from_chars, lower, lower_chars, to_chars, trim, trim_chars};

verus! {

/// A candidate by value: path, folder name, display name, enabled.
pub type CandidateView = (Seq<char>, Seq<char>, Seq<char>, bool);

pub open spec fn candidate_view(c: FolderNameConflictCandidate) -> CandidateView {
    (c.path@, c.folder_name@, c.base_name@, c.is_enabled)
}

pub open spec fn view_fn() -> spec_fn(FolderNameConflictCandidate) -> CandidateView {
    |c: FolderNameConflictCandidate| candidate_view(c)
}

pub open spec fn candidate_views(cs: Seq<FolderNameConflictCandidate>) -> Seq<CandidateView> {
    cs.map_values(view_fn())
}

/// Candidates sort by their path in ASCII lowercase.
pub open spec fn view_path_key() -> spec_fn(CandidateView) -> Seq<char> {
    |v: CandidateView| lower(v.0)
}

pub open spec fn candidate_path_key() -> spec_fn(FolderNameConflictCandidate) -> Seq<char> {
    |c: FolderNameConflictCandidate| lower(c.path@)
}

/// The sibling identity of a folder: its parent's components trimmed and
/// lowercased (the parent stays physical, so a `DISABLED ` ancestor is a
/// different parent), then its display name lowercased. A path without a
/// final name has none.
pub open spec fn conflict_identity(folder_path: Seq<char>) -> Option<Seq<char>> {
    let comps = components(folder_path);
    if comps.len() == 0 || comps.last() == ".."@ {
        None
    } else {
        let parent = comps.drop_last();
        let parent_key = join_slash(Seq::new(parent.len(), |i: int| lower(trim(parent[i]))));
        let name_key = lower(display_name(comps.last()));
        if parent_key.len() == 0 {
            Some(name_key)
        } else {
            Some(parent_key + seq!['/'] + name_key)
        }
    }
}

/// A path none of whose components carries the `DISABLED ` marker.
pub open spec fn path_enabled(path: Seq<char>) -> bool {
    forall|i: int| 0 <= i < components(path).len() ==> !disabled_folder(#[trigger] components(path)[i])
}

/// The candidates of the object folders, tagged with their identity.
pub open spec fn object_candidates(objects: Seq<DiskObjectEntry>) -> Seq<(Seq<char>, CandidateView)>
    decreases objects.len(),
{
    if objects.len() == 0 {
        Seq::empty()
    } else {
        let before = object_candidates(objects.drop_last());
        let o = objects.last();
        match conflict_identity(o.folder_path@) {
            Some(id) => before.push((id, (o.absolute_path@, o.folder_path@, o.name@, !o.is_disabled))),
            None => before,
        }
    }
}

/// The candidates of named folders (mods, or census entries), tagged with
/// their identity: (folder path, raw name, absolute path).
pub open spec fn named_candidates(folders: Seq<(Seq<char>, Seq<char>, Seq<char>)>) -> Seq<(Seq<char>, CandidateView)>
    decreases folders.len(),
{
    if folders.len() == 0 {
        Seq::empty()
    } else {
        let before = named_candidates(folders.drop_last());
        let f = folders.last();
        match conflict_identity(f.0) {
            Some(id) => before.push((id, (f.2, f.1, display_name(f.1), path_enabled(f.2)))),
            None => before,
        }
    }
}

pub open spec fn mod_folders(mods: Seq<DiskModEntry>) -> Seq<(Seq<char>, Seq<char>, Seq<char>)> {
    mods.map_values(|m: DiskModEntry| (m.folder_path@, m.raw_name@, m.absolute_path@))
}

pub open spec fn census_folders(entries: Seq<DiskIdentityCensusEntry>) -> Seq<(Seq<char>, Seq<char>, Seq<char>)> {
    entries.map_values(|e: DiskIdentityCensusEntry| (e.folder_path@, e.raw_name@, e.absolute_path@))
}

/// The candidates tagged `id`, in order.
pub open spec fn members(tagged: Seq<(Seq<char>, CandidateView)>, id: Seq<char>) -> Seq<CandidateView>
    decreases tagged.len(),
{
    if tagged.len() == 0 {
        Seq::empty()
    } else if tagged.last().0 == id {
        members(tagged.drop_last(), id).push(tagged.last().1)
    } else {
        members(tagged.drop_last(), id)
    }
}

/// `s` with each run of equal strings kept once.
pub open spec fn dedup_exact(s: Seq<Seq<char>>) -> Seq<Seq<char>>
    decreases s.len(),
{
    if s.len() == 0 {
        s
    } else {
        let d = dedup_exact(s.drop_last());
        if d.len() > 0 && d.last() == s.last() {
            d
        } else {
            d.push(s.last())
        }
    }
}

/// The identities among `ids` that at least two candidates share.
pub open spec fn keep_shared(ids: Seq<Seq<char>>, tagged: Seq<(Seq<char>, CandidateView)>) -> Seq<Seq<char>>
    decreases ids.len(),
{
    if ids.len() == 0 {
        ids
    } else {
        let before = keep_shared(ids.drop_last(), tagged);
        if members(tagged, ids.last()).len() >= 2 {
            before.push(ids.last())
        } else {
            before
        }
    }
}

/// The conflicting identities, in ascending order.
pub open spec fn conflict_ids(tagged: Seq<(Seq<char>, CandidateView)>) -> Seq<Seq<char>> {
    keep_shared(dedup_exact(stable_sort(tagged.map_values(|t: (Seq<char>, CandidateView)| t.0), false)), tagged)
}

/// `g` reports identity `id` of `tagged` within `game_id`.
pub open spec fn group_reports(g: FolderNameConflictGroup, game_id: Seq<char>, id: Seq<char>, tagged: Seq<(Seq<char>, CandidateView)>) -> bool {
    let sorted = sort_by_key(members(tagged, id), view_path_key());
    &&& g.identity@ == id
    &&& g.group_id@ == stable_id(game_id, id)
    &&& candidate_views(g.candidates@) == sorted
    &&& g.display_name@ == sorted[0].2
}

/// `groups` reports every conflicting identity of `tagged`, in order.
pub open spec fn conflicts_reported(groups: Seq<FolderNameConflictGroup>, game_id: Seq<char>, tagged: Seq<(Seq<char>, CandidateView)>) -> bool {
    &&& groups.len() == conflict_ids(tagged).len()
    &&& forall|k: int| 0 <= k < groups.len() ==> group_reports(#[trigger] groups[k], game_id, conflict_ids(tagged)[k], tagged)
}

} // verus!

verus! {

/// The sibling identity of a folder path.
pub fn folder_conflict_identity(folder_path: &str) -> (r: Option<String>)
    ensures
        text_opt(r) == conflict_identity(folder_path@),
{
    let cs = to_chars(folder_path);
    let comps = path_components(cs.as_slice());
    let ghost spec_comps = components(folder_path@);
    if comps.len() == 0 {
        return None;
    }
    let n = comps.len() - 1;
    let last = &comps[n];
    assert(last@ == spec_comps.last());
    let dots = to_chars("..");
    proof { reveal_strlit(".."); }
    if chars_eq(last.as_slice(), dots.as_slice()) {
        return None;
    }
    let ghost parent = spec_comps.drop_last();
    let ghost pieces = Seq::new(parent.len(), |i: int| lower(trim(parent[i])));
    let mut key: Vec<char> = Vec::new();
    let mut i: usize = 0;
    while i < n
        invariant
            n == comps@.len() - 1,
            comps@.len() == spec_comps.len(),
            forall|k: int| 0 <= k < comps@.len() ==> #[trigger] comps@[k]@ == spec_comps[k],
            parent == spec_comps.drop_last(),
            pieces == Seq::new(parent.len(), |i: int| lower(trim(parent[i]))),
            i <= n,
            key@ == join_slash(pieces.take(i as int)),
        decreases n - i,
    {
        let t = trim_chars(comps[i].as_slice());
        let piece = lower_chars(t.as_slice());
        assert(piece@ == pieces[i as int]);
        assert(pieces.take(i + 1).drop_last() =~= pieces.take(i as int));
        assert(pieces.take(i + 1).last() == pieces[i as int]);
        let ghost base = key@;
        if i > 0 {
            key.push('/');
        }
        let mut j: usize = 0;
        while j < piece.len()
            invariant
                j <= piece@.len(),
                key@ =~= (if i > 0 { base.push('/') } else { base }) + piece@.take(j as int),
            decreases piece@.len() - j,
        {
            key.push(piece[j]);
            j += 1;
        }
        assert(piece@.take(piece@.len() as int) =~= piece@);
        proof {
            if i == 0 {
                assert(pieces.take(1) =~= seq![pieces[0]]);
                assert(base =~= Seq::<char>::empty());
            }
        }
        i += 1;
    }
    assert(pieces.take(n as int) =~= pieces);
    let name = normalize_display_name(last.as_slice());
    let name_key = lower_chars(name.as_slice());
    if key.len() == 0 {
        Some(from_chars(name_key.as_slice()))
    } else {
        key.push('/');
        let full = crate::text::concat_chars(key.as_slice(), name_key.as_slice());
        Some(from_chars(full.as_slice()))
    }
}

/// Whether no component of `path` carries the `DISABLED ` marker.
pub fn path_is_enabled(path: &str) -> (r: bool)
    ensures
        r == path_enabled(path@),
{
    let cs = to_chars(path);
    let comps = path_components(cs.as_slice());
    let mut i: usize = 0;
    while i < comps.len()
        invariant
            i <= comps@.len(),
            comps@.len() == components(path@).len(),
            forall|k: int| 0 <= k < comps@.len() ==> #[trigger] comps@[k]@ == components(path@)[k],
            forall|k: int| 0 <= k < i ==> !disabled_folder(#[trigger] components(path@)[k]),
        decreases comps@.len() - i,
    {
        if is_disabled_folder(comps[i].as_slice()) {
            return false;
        }
        i += 1;
    }
    true
}

} // verus!

verus! {

pub open spec fn tag_views(t: Seq<(String, FolderNameConflictCandidate)>) -> Seq<(Seq<char>, CandidateView)> {
    t.map_values(|p: (String, FolderNameConflictCandidate)| (p.0@, candidate_view(p.1)))
}

proof fn lemma_tag_push(t: Seq<(String, FolderNameConflictCandidate)>, x: (String, FolderNameConflictCandidate))
    ensures
        tag_views(t.push(x)) == tag_views(t).push((x.0@, candidate_view(x.1))),
{
    assert(tag_views(t.push(x)) =~= tag_views(t).push((x.0@, candidate_view(x.1))));
}

fn copy_candidate(c: &FolderNameConflictCandidate) -> (r: FolderNameConflictCandidate)
    ensures
        r == *c,
{
    FolderNameConflictCandidate {
        path: c.path.clone(),
        folder_name: c.folder_name.clone(),
        base_name: c.base_name.clone(),
        is_enabled: c.is_enabled,
    }
}

/// Tags each object folder that has an identity.
fn tag_objects(objects: &Vec<DiskObjectEntry>, tagged: &mut Vec<(String, FolderNameConflictCandidate)>)
    ensures
        tag_views(final(tagged)@) == tag_views(old(tagged)@) + object_candidates(objects@),
{
    let ghost base = tag_views(tagged@);
    let mut i: usize = 0;
    while i < objects.len()
        invariant
            i <= objects@.len(),
            tag_views(tagged@) == base + object_candidates(objects@.take(i as int)),
        decreases objects@.len() - i,
    {
        let o = &objects[i];
        assert(objects@.take(i + 1).drop_last() =~= objects@.take(i as int));
        assert(objects@.take(i + 1).last() == objects@[i as int]);
        match folder_conflict_identity(o.folder_path.as_str()) {
            Some(identity) => {
                let c = FolderNameConflictCandidate {
                    path: o.absolute_path.clone(),
                    folder_name: o.folder_path.clone(),
                    base_name: o.name.clone(),
                    is_enabled: !o.is_disabled,
                };
                let ghost before = tagged@;
                tagged.push((identity, c));
                proof {
                    lemma_tag_push(before, tagged@.last());
                    assert(base + object_candidates(objects@.take(i + 1)) =~= (base + object_candidates(objects@.take(i as int))).push(tag_views(tagged@).last()));
                }
            },
            None => {},
        }
        i += 1;
    }
    assert(objects@.take(objects@.len() as int) =~= objects@);
}

/// Tags one named folder that has an identity.
fn tag_named(folder_path: &String, raw_name: &String, absolute_path: &String, tagged: &mut Vec<(String, FolderNameConflictCandidate)>)
    ensures
        tag_views(final(tagged)@) == match conflict_identity(folder_path@) {
            Some(id) => tag_views(old(tagged)@).push((id, (absolute_path@, raw_name@, display_name(raw_name@), path_enabled(absolute_path@)))),
            None => tag_views(old(tagged)@),
        },
{
    match folder_conflict_identity(folder_path.as_str()) {
        Some(identity) => {
            let base_chars = to_chars(raw_name.as_str());
            let base = normalize_display_name(base_chars.as_slice());
            let c = FolderNameConflictCandidate {
                path: absolute_path.clone(),
                folder_name: raw_name.clone(),
                base_name: from_chars(base.as_slice()),
                is_enabled: path_is_enabled(absolute_path.as_str()),
            };
            let ghost before = tagged@;
            tagged.push((identity, c));
            proof {
                lemma_tag_push(before, tagged@.last());
            }
        },
        None => {},
    }
}

/// Tags each mod folder that has an identity.
fn tag_mods(mods: &Vec<DiskModEntry>, tagged: &mut Vec<(String, FolderNameConflictCandidate)>)
    ensures
        tag_views(final(tagged)@) == tag_views(old(tagged)@) + named_candidates(mod_folders(mods@)),
{
    let ghost base = tag_views(tagged@);
    let mut i: usize = 0;
    while i < mods.len()
        invariant
            i <= mods@.len(),
            tag_views(tagged@) == base + named_candidates(mod_folders(mods@.take(i as int))),
        decreases mods@.len() - i,
    {
        let m = &mods[i];
        proof {
            assert(mod_folders(mods@.take(i + 1)).drop_last() =~= mod_folders(mods@.take(i as int)));
            assert(mod_folders(mods@.take(i + 1)).last() == (m.folder_path@, m.raw_name@, m.absolute_path@));
        }
        let ghost before = tag_views(tagged@);
        tag_named(&m.folder_path, &m.raw_name, &m.absolute_path, tagged);
        proof {
            match conflict_identity(m.folder_path@) {
                Some(id) => {
                    assert(base + named_candidates(mod_folders(mods@.take(i + 1))) =~= before.push(tag_views(tagged@).last()));
                },
                None => {},
            }
        }
        i += 1;
    }
    assert(mods@.take(mods@.len() as int) =~= mods@);
}

/// Tags each census entry that has an identity.
fn tag_census(entries: &Vec<DiskIdentityCensusEntry>, tagged: &mut Vec<(String, FolderNameConflictCandidate)>)
    ensures
        tag_views(final(tagged)@) == tag_views(old(tagged)@) + named_candidates(census_folders(entries@)),
{
    let ghost base = tag_views(tagged@);
    let mut i: usize = 0;
    while i < entries.len()
        invariant
            i <= entries@.len(),
            tag_views(tagged@) == base + named_candidates(census_folders(entries@.take(i as int))),
        decreases entries@.len() - i,
    {
        let e = &entries[i];
        proof {
            assert(census_folders(entries@.take(i + 1)).drop_last() =~= census_folders(entries@.take(i as int)));
            assert(census_folders(entries@.take(i + 1)).last() == (e.folder_path@, e.raw_name@, e.absolute_path@));
        }
        let ghost before = tag_views(tagged@);
        tag_named(&e.folder_path, &e.raw_name, &e.absolute_path, tagged);
        proof {
            match conflict_identity(e.folder_path@) {
                Some(id) => {
                    assert(base + named_candidates(census_folders(entries@.take(i + 1))) =~= before.push(tag_views(tagged@).last()));
                },
                None => {},
            }
        }
        i += 1;
    }
    assert(entries@.take(entries@.len() as int) =~= entries@);
}

} // verus!

verus! {

pub open spec fn identity_fn() -> spec_fn((Seq<char>, CandidateView)) -> Seq<char> {
    |t: (Seq<char>, CandidateView)| t.0
}

/// `v` with each run of equal strings kept once.
pub fn dedup_exact_texts(v: &Vec<String>) -> (r: Vec<String>)
    ensures
        views(r@) == dedup_exact(views(v@)),
{
    let mut r: Vec<String> = Vec::new();
    let mut i: usize = 0;
    while i < v.len()
        invariant
            i <= v@.len(),
            views(r@) == dedup_exact(views(v@).take(i as int)),
        decreases v@.len() - i,
    {
        proof {
            assert(views(v@).take(i + 1).drop_last() =~= views(v@).take(i as int));
            assert(views(v@).take(i + 1).last() == v@[i as int]@);
        }
        let n = r.len();
        if n > 0 && r[n - 1] == v[i] {
            proof {
                assert(views(r@).last() == r@[n - 1]@);
            }
        } else {
            let ghost before = r@;
            r.push(v[i].clone());
            proof {
                crate::sets::lemma_views_push(before, r@.last());
                if n > 0 {
                    assert(views(before).last() == before[n - 1]@);
                }
            }
        }
        i += 1;
    }
    assert(views(v@).take(v@.len() as int) =~= views(v@));
    r
}

/// The candidates tagged `id`, in order.
fn collect_members(tagged: &Vec<(String, FolderNameConflictCandidate)>, id: &String) -> (r: Vec<FolderNameConflictCandidate>)
    ensures
        candidate_views(r@) == members(tag_views(tagged@), id@),
{
    let mut r: Vec<FolderNameConflictCandidate> = Vec::new();
    let mut i: usize = 0;
    while i < tagged.len()
        invariant
            i <= tagged@.len(),
            candidate_views(r@) == members(tag_views(tagged@).take(i as int), id@),
        decreases tagged@.len() - i,
    {
        proof {
            assert(tag_views(tagged@).take(i + 1).drop_last() =~= tag_views(tagged@).take(i as int));
            assert(tag_views(tagged@).take(i + 1).last() == (tagged@[i as int].0@, candidate_view(tagged@[i as int].1)));
        }
        if tagged[i].0 == *id {
            let ghost before = r@;
            r.push(copy_candidate(&tagged[i].1));
            assert(candidate_views(r@) =~= candidate_views(before).push(candidate_view(r@.last())));
        }
        i += 1;
    }
    assert(tag_views(tagged@).take(tagged@.len() as int) =~= tag_views(tagged@));
    r
}

/// The candidates stably sorted by their lowercase path.
fn sort_candidates(items: Vec<FolderNameConflictCandidate>) -> (r: Vec<FolderNameConflictCandidate>)
    ensures
        r@ == sort_by_key(items@, candidate_path_key()),
{
    let ghost original = items@;
    let ghost total: usize = items.len();
    let mut input = items;
    let mut sorted: Vec<FolderNameConflictCandidate> = Vec::new();
    let mut done: usize = 0;
    assert(original.skip(0) =~= original);
    while input.len() > 0
        invariant
            done <= original.len(),
            original.len() == total,
            input@ == original.skip(done as int),
            sorted@ == sort_by_key(original.take(done as int), candidate_path_key()),
        decreases input@.len(),
    {
        let x = input.remove(0);
        proof {
            assert(x == original[done as int]);
            assert(original.skip(done as int).remove(0) =~= original.skip(done + 1));
            assert(original.take(done + 1).drop_last() =~= original.take(done as int));
            assert(original.take(done + 1).last() == x);
        }
        let xc = to_chars(x.path.as_str());
        let xk = lower_chars(xc.as_slice());
        let mut j: usize = sorted.len();
        while j > 0 && !crate::order::chars_le(
            lower_chars(to_chars(sorted[j - 1].path.as_str()).as_slice()).as_slice(),
            xk.as_slice(),
        )
            invariant
                j <= sorted@.len(),
                xk@ == lower(x.path@),
                forall|k: int| j <= k < sorted@.len() ==> !crate::order::text_le(lower((#[trigger] sorted@[k]).path@), lower(x.path@)),
            decreases j,
        {
            j -= 1;
        }
        proof {
            let key = candidate_path_key();
            assert forall|k: int| j <= k < sorted@.len() implies !crate::order::text_le(key(#[trigger] sorted@[k]), key(x)) by {}
            crate::order::lemma_insert_at(sorted@, x, key, j as int);
            assert(sorted@.insert(j as int, x) =~= sorted@.take(j as int) + seq![x] + sorted@.skip(j as int));
        }
        sorted.insert(j, x);
        done += 1;
    }
    assert(original.take(original.len() as int) =~= original);
    sorted
}

/// One group for each identity that at least two tagged candidates share.
fn conflict_groups(game_id: &str, tagged: &Vec<(String, FolderNameConflictCandidate)>) -> (r: Vec<FolderNameConflictGroup>)
    ensures
        conflicts_reported(r@, game_id@, tag_views(tagged@)),
{
    let ghost tv = tag_views(tagged@);
    let mut identities: Vec<String> = Vec::new();
    let mut i: usize = 0;
    while i < tagged.len()
        invariant
            i <= tagged@.len(),
            tv == tag_views(tagged@),
            views(identities@) == tv.take(i as int).map_values(identity_fn()),
        decreases tagged@.len() - i,
    {
        let ghost before = identities@;
        identities.push(tagged[i].0.clone());
        proof {
            crate::sets::lemma_views_push(before, identities@.last());
            assert(tv.take(i + 1).map_values(identity_fn()) =~= tv.take(i as int).map_values(identity_fn()).push(tagged@[i as int].0@));
        }
        i += 1;
    }
    assert(tv.take(tagged@.len() as int) =~= tv);
    let sorted = sort_texts(&identities, false);
    let ids = dedup_exact_texts(&sorted);
    let ghost idv = views(ids@);
    assert(idv == dedup_exact(stable_sort(tv.map_values(identity_fn()), false)));
    assert(tv.map_values(identity_fn()) =~= tv.map_values(|t: (Seq<char>, CandidateView)| t.0));
    let mut groups: Vec<FolderNameConflictGroup> = Vec::new();
    let mut k: usize = 0;
    while k < ids.len()
        invariant
            k <= ids@.len(),
            idv == views(ids@),
            tv == tag_views(tagged@),
            groups@.len() == keep_shared(idv.take(k as int), tv).len(),
            forall|j: int| 0 <= j < groups@.len() ==> group_reports(#[trigger] groups@[j], game_id@, keep_shared(idv.take(k as int), tv)[j], tv),
        decreases ids@.len() - k,
    {
        let id = &ids[k];
        proof {
            assert(idv.take(k + 1).drop_last() =~= idv.take(k as int));
            assert(idv.take(k + 1).last() == id@);
        }
        let found = collect_members(tagged, id);
        if found.len() >= 2 {
            let ghost found_view = found@;
            let ordered = sort_candidates(found);
            proof {
                lemma_sort_map(found_view, view_fn(), candidate_path_key(), view_path_key());
                lemma_sort_len(found_view, candidate_path_key());
                assert(candidate_views(ordered@)[0] == candidate_view(ordered@[0]));
            }
            let display_name = ordered[0].base_name.clone();
            let group = FolderNameConflictGroup {
                group_id: generate_stable_id_from_key(game_id, id.as_str()),
                identity: id.clone(),
                display_name,
                candidates: ordered,
            };
            assert(group_reports(group, game_id@, id@, tv));
            groups.push(group);
        }
        k += 1;
    }
    assert(idv.take(ids@.len() as int) =~= idv);
    groups
}

/// The conflicts among the folders of a projection: objects first, then
/// mods, grouped by sibling identity.
pub fn detect_folder_name_conflicts(game_id: &str, projection: &DiskProjection) -> (r: Vec<FolderNameConflictGroup>)
    ensures
        conflicts_reported(r@, game_id@, object_candidates(projection.objects@) + named_candidates(mod_folders(projection.mods@))),
{
    let mut tagged: Vec<(String, FolderNameConflictCandidate)> = Vec::new();
    assert(tag_views(tagged@) =~= Seq::<(Seq<char>, CandidateView)>::empty());
    tag_objects(&projection.objects, &mut tagged);
    tag_mods(&projection.mods, &mut tagged);
    assert(tag_views(tagged@) =~= object_candidates(projection.objects@) + named_candidates(mod_folders(projection.mods@)));
    conflict_groups(game_id, &tagged)
}

/// The conflicts among the folders of a name census. The census carries
/// no metadata; its identities are enough to show the conflicts before
/// the changed roots are classified.
pub fn detect_folder_name_conflicts_from_census(game_id: &str, census: &DiskIdentityCensus) -> (r: Vec<FolderNameConflictGroup>)
    ensures
        conflicts_reported(r@, game_id@, named_candidates(census_folders(census.entries@))),
{
    let mut tagged: Vec<(String, FolderNameConflictCandidate)> = Vec::new();
    assert(tag_views(tagged@) =~= Seq::<(Seq<char>, CandidateView)>::empty());
    tag_census(&census.entries, &mut tagged);
    assert(tag_views(tagged@) =~= named_candidates(census_folders(census.entries@)));
    conflict_groups(game_id, &tagged)
}

} // verus!

verus! {

proof fn lemma_keep_shared_members(ids: Seq<Seq<char>>, tagged: Seq<(Seq<char>, CandidateView)>, k: int)
    requires
        0 <= k < keep_shared(ids, tagged).len(),
    ensures
        members(tagged, keep_shared(ids, tagged)[k]).len() >= 2,
    decreases ids.len(),
{
    if ids.len() > 0 {
        let before = keep_shared(ids.drop_last(), tagged);
        if k < before.len() {
            lemma_keep_shared_members(ids.drop_last(), tagged, k);
        }
    }
}

/// A reported conflict is a real one: each group holds at least two
/// folders, and its name is that of its first candidate.
pub proof fn law_reported_conflicts_hold_two_folders(
    groups: Seq<FolderNameConflictGroup>,
    game_id: Seq<char>,
    tagged: Seq<(Seq<char>, CandidateView)>,
    k: int,
)
    requires
        conflicts_reported(groups, game_id, tagged),
        0 <= k < groups.len(),
    ensures
        groups[k].candidates@.len() >= 2,
        groups[k].display_name@ == groups[k].candidates@[0].base_name@,
        groups[k].group_id@ == stable_id(game_id, groups[k].identity@),
{
    let g = groups[k];
    assert(group_reports(g, game_id, conflict_ids(tagged)[k], tagged));
    lemma_keep_shared_members(
        dedup_exact(stable_sort(tagged.map_values(|t: (Seq<char>, CandidateView)| t.0), false)), tagged, k);
    lemma_sort_len(members(tagged, conflict_ids(tagged)[k]), view_path_key());
    assert(candidate_views(g.candidates@).len() == g.candidates@.len());
    assert(candidate_views(g.candidates@)[0] == candidate_view(g.candidates@[0]));
}

} // verus!
