//! The computing part of disk discovery: which roots a trusted census or a
//! scoped projection walks, the entry of each folder it finds, the order the
//! census reports them in, the projection assembled from the roots, and the
//! storage size of a mod folder from the sizes of its files.

use vstd::prelude::*;

use crate::order::{chars_le, lemma_insert_at, sort_by_key, sort_texts, stable_sort, text_le};
use crate::path_rules::{
    components, disabled_folder, display_name, folder_key, folder_path_key, is_disabled_folder, is_separator,
    normalize_display_name, path_components, rooted,
};
use crate::reconcile::identity_conflicts::{dedup_exact, dedup_exact_texts};
use crate::reconcile::snapshot::{DiskIdentityCensusEntry, DiskModEntry, DiskObjectEntry, DiskProjection, DiskProjectionError};
use crate::sets::views;
use crate::text::{concat_str, from_chars, lower, lower_chars, to_chars};

verus! {

/// A root a trusted census may walk: one plain component naming a folder
/// directly under the mods folder, not hidden.
pub open spec fn valid_trusted_root(name: Seq<char>) -> bool {
    !rooted(name) && components(name).len() == 1 && !(name.len() > 0 && name[0] == '.')
}

pub fn is_valid_trusted_root(name: &str) -> (r: bool)
    ensures
        r == valid_trusted_root(name@),
{
    let chars = to_chars(name);
    if chars.len() > 0 && (is_separator(chars[0]) || chars[0] == '.') {
        return false;
    }
    path_components(chars.as_slice()).len() == 1
}

pub open spec fn invalid_trusted_root_message(name: Seq<char>) -> Seq<char> {
    "Trusted reconcile root is invalid: "@ + name
}

/// The roots a trusted census walks: the changed roots in order, each once.
pub open spec fn trusted_roots(changed_roots: Seq<Seq<char>>) -> Seq<Seq<char>> {
    dedup_exact(stable_sort(changed_roots, false))
}

/// The changed roots a trusted census walks, in order and each once; the
/// first root in that order that is not a plain folder name is refused.
pub fn trusted_root_names(changed_roots: &Vec<String>) -> (r: Result<Vec<String>, DiskProjectionError>)
    ensures
        ({
            let roots = trusted_roots(views(changed_roots@));
            match r {
                Ok(v) => views(v@) == roots && forall|i: int| 0 <= i < roots.len() ==> valid_trusted_root(#[trigger] roots[i]),
                Err(e) => exists|i: int| 0 <= i < roots.len() && !valid_trusted_root(#[trigger] roots[i])
                    && (forall|j: int| 0 <= j < i ==> valid_trusted_root(#[trigger] roots[j]))
                    && (e matches DiskProjectionError::Failed(m) && m@ == invalid_trusted_root_message(roots[i])),
            }
        }),
{
    let sorted = sort_texts(changed_roots, false);
    let roots = dedup_exact_texts(&sorted);
    let ghost rs = trusted_roots(views(changed_roots@));
    assert(views(roots@) == rs);
    let mut i: usize = 0;
    while i < roots.len()
        invariant
            rs == trusted_roots(views(changed_roots@)),
            views(roots@) == rs,
            i <= roots@.len(),
            forall|j: int| 0 <= j < i ==> valid_trusted_root(#[trigger] rs[j]),
        decreases roots@.len() - i,
    {
        assert(rs[i as int] == roots@[i as int]@);
        if !is_valid_trusted_root(roots[i].as_str()) {
            let message = concat_str("Trusted reconcile root is invalid: ", roots[i].as_str());
            assert(!valid_trusted_root(rs[i as int]));
            assert(message@ == invalid_trusted_root_message(rs[i as int]));
            return Err(DiskProjectionError::Failed(message));
        }
        i += 1;
    }
    Ok(roots)
}

/// The census entry of a directory found at `folder_path` under the mods
/// folder.
pub fn census_entry(folder_path: String, raw_name: String, absolute_path: String) -> (r: DiskIdentityCensusEntry)
    ensures
        r.folder_path == folder_path,
        r.folder_path_key@ == folder_key(folder_path@),
        r.raw_name == raw_name,
        r.absolute_path == absolute_path,
{
    let folder_path_key = folder_path_key(folder_path.as_str());
    DiskIdentityCensusEntry { folder_path, folder_path_key, raw_name, absolute_path }
}

/// Census entries sort by their folder path, ASCII case folded.
pub open spec fn census_path_key() -> spec_fn(DiskIdentityCensusEntry) -> Seq<char> {
    |e: DiskIdentityCensusEntry| lower(e.folder_path@)
}

/// The census entries in report order: by folder path with ASCII case
/// folded; entries with equal keys keep the order they were found in.
pub fn sort_census_entries(entries: Vec<DiskIdentityCensusEntry>) -> (r: Vec<DiskIdentityCensusEntry>)
    ensures
        r@ == sort_by_key(entries@, census_path_key()),
{
    let ghost original = entries@;
    let ghost total: usize = entries.len();
    let mut input = entries;
    let mut sorted: Vec<DiskIdentityCensusEntry> = Vec::new();
    let mut done: usize = 0;
    assert(original.skip(0) =~= original);
    while input.len() > 0
        invariant
            done <= original.len(),
            original.len() == total,
            input@ == original.skip(done as int),
            sorted@ == sort_by_key(original.take(done as int), census_path_key()),
        decreases input@.len(),
    {
        let x = input.remove(0);
        proof {
            assert(x == original[done as int]);
            assert(original.skip(done as int).remove(0) =~= original.skip(done + 1));
            assert(original.take(done + 1).drop_last() =~= original.take(done as int));
            assert(original.take(done + 1).last() == x);
        }
        let xk = lower_chars(to_chars(x.folder_path.as_str()).as_slice());
        let mut j: usize = sorted.len();
        while j > 0 && !chars_le(lower_chars(to_chars(sorted[j - 1].folder_path.as_str()).as_slice()).as_slice(), xk.as_slice())
            invariant
                j <= sorted@.len(),
                xk@ == lower(x.folder_path@),
                forall|k: int| j <= k < sorted@.len() ==> !text_le(lower((#[trigger] sorted@[k]).folder_path@), lower(x.folder_path@)),
            decreases j,
        {
            j -= 1;
        }
        proof {
            let key = census_path_key();
            assert forall|k: int| j <= k < sorted@.len() implies !text_le(key(#[trigger] sorted@[k]), key(x)) by {}
            lemma_insert_at(sorted@, x, key, j as int);
            assert(sorted@.insert(j as int, x) =~= sorted@.take(j as int) + seq![x] + sorted@.skip(j as int));
        }
        sorted.insert(j, x);
        done += 1;
    }
    assert(original.take(original.len() as int) =~= original);
    sorted
}

/// The total of `sizes`.
pub open spec fn size_total(sizes: Seq<u64>) -> int
    decreases sizes.len(),
{
    if sizes.len() == 0 {
        0
    } else {
        size_total(sizes.drop_last()) + sizes.last()
    }
}

proof fn lemma_size_total_monotone(sizes: Seq<u64>, i: int)
    requires
        0 <= i <= sizes.len(),
    ensures
        size_total(sizes.take(i)) <= size_total(sizes),
    decreases sizes.len() - i,
{
    if i < sizes.len() {
        lemma_size_total_monotone(sizes, i + 1);
        assert(sizes.take(i + 1).drop_last() =~= sizes.take(i));
    } else {
        assert(sizes.take(i) =~= sizes);
    }
}

pub open spec fn size_overflow_message(path: Seq<char>) -> Seq<char> {
    "Storage size overflow while sizing '"@ + path + "'"@
}

pub open spec fn size_range_message(path: Seq<char>) -> Seq<char> {
    "Storage size exceeds supported range for '"@ + path + "'"@
}

/// The storage size of a folder from the sizes of the files under it. A
/// total beyond what 64 bits hold is refused, and so is one beyond the
/// signed range the index stores.
pub fn directory_size_total(path: &str, sizes: &Vec<u64>) -> (r: Result<i64, DiskProjectionError>)
    ensures
        size_total(sizes@) > u64::MAX ==> (r matches Err(DiskProjectionError::Failed(m)) && m@ == size_overflow_message(path@)),
        u64::MAX >= size_total(sizes@) > i64::MAX ==> (r matches Err(DiskProjectionError::Failed(m)) && m@ == size_range_message(path@)),
        size_total(sizes@) <= i64::MAX ==> r == Ok::<i64, DiskProjectionError>(size_total(sizes@) as i64),
{
    let mut total: u64 = 0;
    let mut i: usize = 0;
    while i < sizes.len()
        invariant
            i <= sizes@.len(),
            total == size_total(sizes@.take(i as int)),
        decreases sizes@.len() - i,
    {
        proof {
            assert(sizes@.take(i + 1).drop_last() =~= sizes@.take(i as int));
            assert(sizes@.take(i + 1).last() == sizes@[i as int]);
        }
        match total.checked_add(sizes[i]) {
            Some(t) => total = t,
            None => {
                proof {
                    lemma_size_total_monotone(sizes@, i + 1);
                }
                let head = concat_str("Storage size overflow while sizing '", path);
                return Err(DiskProjectionError::Failed(concat_str(head.as_str(), "'")));
            },
        }
        i += 1;
    }
    assert(sizes@.take(sizes@.len() as int) =~= sizes@);
    if total > 9223372036854775807u64 {
        let head = concat_str("Storage size exceeds supported range for '", path);
        return Err(DiskProjectionError::Failed(concat_str(head.as_str(), "'")));
    }
    Ok(total as i64)
}

/// The roots a scoped projection walks: the changed roots in order, each
/// once.
pub fn scoped_target_roots(changed_roots: &Vec<String>) -> (r: Vec<String>)
    ensures
        views(r@) == trusted_roots(views(changed_roots@)),
{
    let sorted = sort_texts(changed_roots, false);
    dedup_exact_texts(&sorted)
}

/// The object entry of a top-level folder: its name without case-folding
/// or marker as shown, enabled unless the name carries the marker.
pub fn object_entry_for_root(root_name: String, absolute_path: String, filesystem_identity: Option<String>) -> (r: DiskObjectEntry)
    ensures
        r.folder_path == root_name,
        r.folder_path_key@ == folder_key(root_name@),
        r.name@ == display_name(root_name@),
        r.is_disabled == disabled_folder(root_name@),
        r.absolute_path == absolute_path,
        r.filesystem_identity == filesystem_identity,
{
    let chars = to_chars(root_name.as_str());
    let name = from_chars(normalize_display_name(chars.as_slice()).as_slice());
    let is_disabled = is_disabled_folder(chars.as_slice());
    let folder_path_key = folder_path_key(root_name.as_str());
    DiskObjectEntry { folder_path: root_name, folder_path_key, name, is_disabled, absolute_path, filesystem_identity }
}

/// The mod entry of a terminal mod folder at `folder_path` under object
/// `object_folder_path_key`.
pub fn mod_entry(
    folder_path: String,
    object_folder_path_key: &str,
    raw_name: String,
    absolute_path: String,
    filesystem_identity: Option<String>,
    size_bytes: Option<i64>,
) -> (r: DiskModEntry)
    ensures
        r.folder_path == folder_path,
        r.folder_path_key@ == folder_key(folder_path@),
        r.object_folder_path_key@ == object_folder_path_key@,
        r.raw_name == raw_name,
        r.absolute_path == absolute_path,
        r.filesystem_identity == filesystem_identity,
        r.size_bytes == size_bytes,
{
    let folder_path_key = folder_path_key(folder_path.as_str());
    DiskModEntry {
        folder_path,
        folder_path_key,
        object_folder_path_key: String::from_str(object_folder_path_key),
        raw_name,
        absolute_path,
        filesystem_identity,
        size_bytes,
    }
}

/// The objects of the roots that were found, in root order.
pub open spec fn found_objects(roots: Seq<Option<(DiskObjectEntry, Vec<DiskModEntry>)>>) -> Seq<DiskObjectEntry>
    decreases roots.len(),
{
    if roots.len() == 0 {
        Seq::empty()
    } else {
        match roots.last() {
            Some(found) => found_objects(roots.drop_last()).push(found.0),
            None => found_objects(roots.drop_last()),
        }
    }
}

/// The mods of the roots that were found, root after root.
pub open spec fn found_mods(roots: Seq<Option<(DiskObjectEntry, Vec<DiskModEntry>)>>) -> Seq<DiskModEntry>
    decreases roots.len(),
{
    if roots.len() == 0 {
        Seq::empty()
    } else {
        match roots.last() {
            Some(found) => found_mods(roots.drop_last()) + found.1@,
            None => found_mods(roots.drop_last()),
        }
    }
}

/// The projection of the walked roots: a root that vanished before it was
/// walked adds nothing; each other root adds its object and then its mods.
pub fn assemble_projection(per_root: Vec<Option<(DiskObjectEntry, Vec<DiskModEntry>)>>) -> (r: DiskProjection)
    ensures
        r.objects@ == found_objects(per_root@),
        r.mods@ == found_mods(per_root@),
{
    let ghost original = per_root@;
    let ghost total: usize = per_root.len();
    let mut input = per_root;
    let mut objects: Vec<DiskObjectEntry> = Vec::new();
    let mut mods: Vec<DiskModEntry> = Vec::new();
    let mut done: usize = 0;
    assert(original.skip(0) =~= original);
    while input.len() > 0
        invariant
            done <= original.len(),
            original.len() == total,
            input@ == original.skip(done as int),
            objects@ == found_objects(original.take(done as int)),
            mods@ == found_mods(original.take(done as int)),
        decreases input@.len(),
    {
        let x = input.remove(0);
        proof {
            assert(x == original[done as int]);
            assert(original.skip(done as int).remove(0) =~= original.skip(done + 1));
            assert(original.take(done + 1).drop_last() =~= original.take(done as int));
            assert(original.take(done + 1).last() == x);
        }
        match x {
            Some((object, root_mods)) => {
                objects.push(object);
                let ghost before = mods@;
                let mut rest = root_mods;
                let mut k: usize = 0;
                let ghost all = rest@;
                let ghost count: usize = rest.len();
                while rest.len() > 0
                    invariant
                        k <= all.len(),
                        all.len() == count,
                        rest@ == all.skip(k as int),
                        mods@ == before + all.take(k as int),
                    decreases rest@.len(),
                {
                    let m = rest.remove(0);
                    proof {
                        assert(all.skip(k as int).remove(0) =~= all.skip(k + 1));
                        assert(all.take(k + 1) =~= all.take(k as int).push(m));
                    }
                    mods.push(m);
                    k += 1;
                }
                assert(all.take(k as int) =~= all);
            },
            None => {},
        }
        done += 1;
    }
    assert(original.take(original.len() as int) =~= original);
    DiskProjection { objects, mods }
}

} // verus!
