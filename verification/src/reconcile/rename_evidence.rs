//! Rename reviews that watcher evidence settles: a folder the watcher saw
//! renamed is healed from that evidence and is not asked about again.

use vstd::prelude::*;

use crate::error::AppError;
use crate::path_rules::{components, path_components, rooted};
use crate::reconcile::rename::{
    detect_rename_confirmations_with_protection_from_rows, detection_of, disk_mod_entries, disk_object_entries,
    mod_row_entries, object_row_entries, resolutions_outcome, validate_explicit_resolutions, RenameConfirmationDetection,
    RuntimeEntry,
};
use crate::reconcile::request::ModWatchEvent;
use crate::reconcile::snapshot::{DiskModEntry, DiskObjectEntry, DiskProjection, ReconcileModRow, ReconcileObjectRow};
use crate::text::{chars_eq_ignore_case, eq_ignore_case, lower, to_chars};


verus! {

/// `path` is `root`, or lies under it, ignoring ASCII case.
pub open spec fn covered(path: Seq<char>, root: Seq<char>) -> bool {
    ||| eq_ignore_case(path, root)
    ||| (rooted(path) == rooted(root) && components(root).len() <= components(path).len()
        && forall|i: int| 0 <= i < components(root).len() ==> #[trigger] lower(components(root)[i]) == lower(components(path)[i]))
}

/// `path` is covered by one of `roots`.
pub open spec fn covered_by_any(path: Seq<char>, roots: Seq<Seq<char>>) -> bool {
    exists|i: int| 0 <= i < roots.len() && covered(path, #[trigger] roots[i])
}

/// The elements of `s` that `keep` accepts, in order.
pub open spec fn keep_where<A>(s: Seq<A>, keep: spec_fn(A) -> bool) -> Seq<A>
    decreases s.len(),
{
    if s.len() == 0 {
        s
    } else if keep(s.last()) {
        keep_where(s.drop_last(), keep).push(s.last())
    } else {
        keep_where(s.drop_last(), keep)
    }
}

pub open spec fn firsts(pairs: Seq<(String, String)>) -> Seq<Seq<char>> {
    pairs.map_values(|p: (String, String)| p.0@)
}

pub open spec fn seconds(pairs: Seq<(String, String)>) -> Seq<Seq<char>> {
    pairs.map_values(|p: (String, String)| p.1@)
}

fn components_eq_ignore_case(a: &Vec<Vec<char>>, b: &Vec<Vec<char>>, n: usize) -> (r: bool)
    requires
        n <= a@.len(),
        n <= b@.len(),
    ensures
        r == forall|i: int| 0 <= i < n ==> #[trigger] lower(a@[i]@) == lower(b@[i]@),
{
    let mut i: usize = 0;
    while i < n
        invariant
            i <= n,
            n <= a@.len(),
            n <= b@.len(),
            forall|k: int| 0 <= k < i ==> #[trigger] lower(a@[k]@) == lower(b@[k]@),
        decreases n - i,
    {
        if !chars_eq_ignore_case(a[i].as_slice(), b[i].as_slice()) {
            return false;
        }
        i += 1;
    }
    true
}

/// Whether `path` is `root` or lies under it, ignoring ASCII case.
pub fn path_is_covered(path: &str, root: &str) -> (r: bool)
    ensures
        r == covered(path@, root@),
{
    let p = to_chars(path);
    let q = to_chars(root);
    if chars_eq_ignore_case(p.as_slice(), q.as_slice()) {
        return true;
    }
    let p_rooted = p.len() > 0 && crate::path_rules::is_separator(p[0]);
    let q_rooted = q.len() > 0 && crate::path_rules::is_separator(q[0]);
    if p_rooted != q_rooted {
        return false;
    }
    let pc = path_components(p.as_slice());
    let qc = path_components(q.as_slice());
    if qc.len() > pc.len() {
        return false;
    }
    let r = components_eq_ignore_case(&qc, &pc, qc.len());
    proof {
        if r {
            assert forall|i: int| 0 <= i < components(root@).len() implies #[trigger] lower(components(root@)[i]) == lower(components(path@)[i]) by {
                assert(qc@[i]@ == components(root@)[i]);
                assert(pc@[i]@ == components(path@)[i]);
                assert(lower(qc@[i]@) == lower(pc@[i]@));
            }
        } else {
            let i = choose|i: int| 0 <= i < qc@.len() && !(#[trigger] lower(qc@[i]@) == lower(pc@[i]@));
            assert(qc@[i]@ == components(root@)[i]);
            assert(pc@[i]@ == components(path@)[i]);
        }
    }
    r
}

/// Whether one of `roots` covers `path`.
fn covered_by(path: &String, roots: &Vec<String>) -> (r: bool)
    ensures
        r == covered_by_any(path@, crate::sets::views(roots@)),
{
    let mut i: usize = 0;
    while i < roots.len()
        invariant
            i <= roots@.len(),
            forall|k: int| 0 <= k < i ==> !covered(path@, (#[trigger] roots@[k])@),
        decreases roots@.len() - i,
    {
        if path_is_covered(path.as_str(), roots[i].as_str()) {
            assert(crate::sets::views(roots@)[i as int] == roots@[i as int]@);
            return true;
        }
        i += 1;
    }
    assert forall|k: int| 0 <= k < crate::sets::views(roots@).len() implies !covered(path@, #[trigger] crate::sets::views(roots@)[k]) by {
        assert(crate::sets::views(roots@)[k] == roots@[k]@);
    }
    false
}

fn pair_firsts(pairs: &Vec<(String, String)>) -> (r: Vec<String>)
    ensures
        crate::sets::views(r@) == firsts(pairs@),
{
    let mut r: Vec<String> = Vec::new();
    let mut i: usize = 0;
    while i < pairs.len()
        invariant
            i <= pairs@.len(),
            crate::sets::views(r@) == firsts(pairs@).take(i as int),
        decreases pairs@.len() - i,
    {
        let ghost before = r@;
        r.push(pairs[i].0.clone());
        proof {
            crate::sets::lemma_views_push(before, r@.last());
            assert(firsts(pairs@).take(i + 1) =~= firsts(pairs@).take(i as int).push(pairs@[i as int].0@));
        }
        i += 1;
    }
    assert(firsts(pairs@).take(pairs@.len() as int) =~= firsts(pairs@));
    r
}

fn pair_seconds(pairs: &Vec<(String, String)>) -> (r: Vec<String>)
    ensures
        crate::sets::views(r@) == seconds(pairs@),
{
    let mut r: Vec<String> = Vec::new();
    let mut i: usize = 0;
    while i < pairs.len()
        invariant
            i <= pairs@.len(),
            crate::sets::views(r@) == seconds(pairs@).take(i as int),
        decreases pairs@.len() - i,
    {
        let ghost before = r@;
        r.push(pairs[i].1.clone());
        proof {
            crate::sets::lemma_views_push(before, r@.last());
            assert(seconds(pairs@).take(i + 1) =~= seconds(pairs@).take(i as int).push(pairs@[i as int].1@));
        }
        i += 1;
    }
    assert(seconds(pairs@).take(pairs@.len() as int) =~= seconds(pairs@));
    r
}

impl ReconcileObjectRow {
    pub fn duplicate(&self) -> (r: Self)
        ensures
            r == *self,
    {
        ReconcileObjectRow {
            id: self.id.clone(),
            name: self.name.clone(),
            folder_path: self.folder_path.clone(),
            folder_path_key: self.folder_path_key.clone(),
            filesystem_identity: crate::reconcile::snapshot::copy_opt(&self.filesystem_identity),
        }
    }
}

impl ReconcileModRow {
    pub fn duplicate(&self) -> (r: Self)
        ensures
            r == *self,
    {
        ReconcileModRow {
            id: self.id.clone(),
            folder_path: self.folder_path.clone(),
            folder_path_key: self.folder_path_key.clone(),
            actual_name: self.actual_name.clone(),
            filesystem_identity: crate::reconcile::snapshot::copy_opt(&self.filesystem_identity),
        }
    }
}

/// What is left for the rename review once watcher evidence is taken out.
#[derive(Debug)]
pub struct ReviewInput {
    pub projection: DiskProjection,
    pub objects: Vec<ReconcileObjectRow>,
    pub mods: Vec<ReconcileModRow>,
}

pub open spec fn disk_object_kept(object_to: Seq<Seq<char>>) -> spec_fn(DiskObjectEntry) -> bool {
    |e: DiskObjectEntry| !covered_by_any(e.folder_path@, object_to)
}

pub open spec fn disk_mod_kept(object_to: Seq<Seq<char>>, mod_to: Seq<Seq<char>>) -> spec_fn(DiskModEntry) -> bool {
    |e: DiskModEntry| !covered_by_any(e.folder_path@, object_to + mod_to)
}

pub open spec fn object_row_kept(object_from: Seq<Seq<char>>) -> spec_fn(ReconcileObjectRow) -> bool {
    |e: ReconcileObjectRow| !covered_by_any(e.folder_path@, object_from)
}

pub open spec fn mod_row_kept(object_from: Seq<Seq<char>>, mod_from: Seq<Seq<char>>) -> spec_fn(ReconcileModRow) -> bool {
    |e: ReconcileModRow| !covered_by_any(e.folder_path@, object_from + mod_from)
}

/// The review input without what the watcher's renames explain: on disk,
/// the folders under a rename's target; among the stored rows, those under
/// a rename's source. An object rename covers the mods under it too.
pub open spec fn review_input_is(
    r: ReviewInput,
    projection: DiskProjection,
    objects: Seq<ReconcileObjectRow>,
    mods: Seq<ReconcileModRow>,
    object_renames: Seq<(String, String)>,
    mod_renames: Seq<(String, String)>,
) -> bool {
    &&& r.projection.objects@ == keep_where(projection.objects@, disk_object_kept(seconds(object_renames)))
    &&& r.projection.mods@ == keep_where(projection.mods@, disk_mod_kept(seconds(object_renames), seconds(mod_renames)))
    &&& r.objects@ == keep_where(objects, object_row_kept(firsts(object_renames)))
    &&& r.mods@ == keep_where(mods, mod_row_kept(firsts(object_renames), firsts(mod_renames)))
}

/// Takes the folders a watcher rename explains out of the review: the
/// renames are given as (previous, current) relative folder paths, object
/// folders and mod folders apart.
pub fn without_watcher_rename_evidence(
    projection: &DiskProjection,
    objects: &Vec<ReconcileObjectRow>,
    mods: &Vec<ReconcileModRow>,
    object_renames: &Vec<(String, String)>,
    mod_renames: &Vec<(String, String)>,
) -> (r: ReviewInput)
    ensures
        review_input_is(r, *projection, objects@, mods@, object_renames@, mod_renames@),
{
    let object_from = pair_firsts(object_renames);
    let object_to = pair_seconds(object_renames);
    let mut any_to = pair_seconds(object_renames);
    let mut extra_to = pair_seconds(mod_renames);
    let ghost at = crate::sets::views(any_to@) + crate::sets::views(extra_to@);
    any_to.append(&mut extra_to);
    assert(crate::sets::views(any_to@) =~= at);
    let mut any_from = pair_firsts(object_renames);
    let mut extra_from = pair_firsts(mod_renames);
    let ghost af = crate::sets::views(any_from@) + crate::sets::views(extra_from@);
    any_from.append(&mut extra_from);
    assert(crate::sets::views(any_from@) =~= af);

    let ghost ko = disk_object_kept(seconds(object_renames@));
    let mut kept_objects: Vec<DiskObjectEntry> = Vec::new();
    let mut i: usize = 0;
    while i < projection.objects.len()
        invariant
            i <= projection.objects@.len(),
            crate::sets::views(object_to@) == seconds(object_renames@),
            ko == disk_object_kept(seconds(object_renames@)),
            kept_objects@ == keep_where(projection.objects@.take(i as int), ko),
        decreases projection.objects@.len() - i,
    {
        proof {
            assert(projection.objects@.take(i + 1).drop_last() =~= projection.objects@.take(i as int));
            assert(projection.objects@.take(i + 1).last() == projection.objects@[i as int]);
        }
        if !covered_by(&projection.objects[i].folder_path, &object_to) {
            kept_objects.push(projection.objects[i].duplicate());
        }
        i += 1;
    }
    assert(projection.objects@.take(projection.objects@.len() as int) =~= projection.objects@);

    let ghost km = disk_mod_kept(seconds(object_renames@), seconds(mod_renames@));
    let mut kept_mods: Vec<DiskModEntry> = Vec::new();
    let mut j: usize = 0;
    while j < projection.mods.len()
        invariant
            j <= projection.mods@.len(),
            crate::sets::views(any_to@) == seconds(object_renames@) + seconds(mod_renames@),
            km == disk_mod_kept(seconds(object_renames@), seconds(mod_renames@)),
            kept_mods@ == keep_where(projection.mods@.take(j as int), km),
        decreases projection.mods@.len() - j,
    {
        proof {
            assert(projection.mods@.take(j + 1).drop_last() =~= projection.mods@.take(j as int));
            assert(projection.mods@.take(j + 1).last() == projection.mods@[j as int]);
        }
        if !covered_by(&projection.mods[j].folder_path, &any_to) {
            kept_mods.push(projection.mods[j].duplicate());
        }
        j += 1;
    }
    assert(projection.mods@.take(projection.mods@.len() as int) =~= projection.mods@);

    let ghost kr = object_row_kept(firsts(object_renames@));
    let mut kept_rows: Vec<ReconcileObjectRow> = Vec::new();
    let mut k: usize = 0;
    while k < objects.len()
        invariant
            k <= objects@.len(),
            crate::sets::views(object_from@) == firsts(object_renames@),
            kr == object_row_kept(firsts(object_renames@)),
            kept_rows@ == keep_where(objects@.take(k as int), kr),
        decreases objects@.len() - k,
    {
        proof {
            assert(objects@.take(k + 1).drop_last() =~= objects@.take(k as int));
            assert(objects@.take(k + 1).last() == objects@[k as int]);
        }
        if !covered_by(&objects[k].folder_path, &object_from) {
            kept_rows.push(objects[k].duplicate());
        }
        k += 1;
    }
    assert(objects@.take(objects@.len() as int) =~= objects@);

    let ghost kmr = mod_row_kept(firsts(object_renames@), firsts(mod_renames@));
    let mut kept_mod_rows: Vec<ReconcileModRow> = Vec::new();
    let mut m: usize = 0;
    while m < mods.len()
        invariant
            m <= mods@.len(),
            crate::sets::views(any_from@) == firsts(object_renames@) + firsts(mod_renames@),
            kmr == mod_row_kept(firsts(object_renames@), firsts(mod_renames@)),
            kept_mod_rows@ == keep_where(mods@.take(m as int), kmr),
        decreases mods@.len() - m,
    {
        proof {
            assert(mods@.take(m + 1).drop_last() =~= mods@.take(m as int));
            assert(mods@.take(m + 1).last() == mods@[m as int]);
        }
        if !covered_by(&mods[m].folder_path, &any_from) {
            kept_mod_rows.push(mods[m].duplicate());
        }
        m += 1;
    }
    assert(mods@.take(mods@.len() as int) =~= mods@);
    ReviewInput {
        projection: DiskProjection { objects: kept_objects, mods: kept_mods },
        objects: kept_rows,
        mods: kept_mod_rows,
    }
}

/// `det` is what the rename review detects on `input`.
pub open spec fn detected_from(det: RenameConfirmationDetection, game_id: Seq<char>, input: ReviewInput) -> bool {
    exists|po: Seq<RuntimeEntry>, co: Seq<RuntimeEntry>, pm: Seq<RuntimeEntry>, cm: Seq<RuntimeEntry>|
        #![trigger object_row_entries(po, input.objects@), disk_object_entries(co, input.projection.objects@), mod_row_entries(pm, input.mods@), disk_mod_entries(cm, input.projection.mods@)]
        object_row_entries(po, input.objects@) && disk_object_entries(co, input.projection.objects@)
            && mod_row_entries(pm, input.mods@) && disk_mod_entries(cm, input.projection.mods@)
            && detection_of(det, game_id, po, co, pm, cm)
}

/// The rename reviews of a pass: the stored rows and the discovery,
/// without what the watcher's renames explain, are compared; when the
/// events carry a complete, valid set of reviewed decisions, nothing is
/// left to review; an invalid set is refused.
pub fn detect_rename_confirmations(
    game_id: &str,
    mods_path: &str,
    projection: &DiskProjection,
    objects: &Vec<ReconcileObjectRow>,
    mods: &Vec<ReconcileModRow>,
    watcher_events: &Vec<ModWatchEvent>,
    object_renames: &Vec<(String, String)>,
    mod_renames: &Vec<(String, String)>,
) -> (r: Result<RenameConfirmationDetection, AppError>)
    ensures
        exists|input: ReviewInput, det: RenameConfirmationDetection|
            #![trigger review_input_is(input, *projection, objects@, mods@, object_renames@, mod_renames@), detected_from(det, game_id@, input)]
            review_input_is(input, *projection, objects@, mods@, object_renames@, mod_renames@)
            && detected_from(det, game_id@, input)
            && match resolutions_outcome(det.groups@, mods_path@, watcher_events@) {
                Err(m) => r matches Err(AppError::Validation(e)) && e@ == m,
                Ok(true) => r matches Ok(d) && d.groups@.len() == 0 && d.protected_object_keys@.len() == 0
                    && d.protected_mod_keys@.len() == 0,
                Ok(false) => r == Ok::<RenameConfirmationDetection, AppError>(det),
            },
{
    let input = without_watcher_rename_evidence(projection, objects, mods, object_renames, mod_renames);
    let detection = detect_rename_confirmations_with_protection_from_rows(game_id, &input.projection, &input.objects, &input.mods);
    let ghost det = detection;
    assert(detected_from(det, game_id@, input));
    match validate_explicit_resolutions(&detection.groups, mods_path, watcher_events) {
        Err(e) => Err(e),
        Ok(true) => Ok(RenameConfirmationDetection {
            groups: Vec::new(),
            protected_object_keys: Vec::new(),
            protected_mod_keys: Vec::new(),
        }),
        Ok(false) => Ok(detection),
    }
}

} // verus!
