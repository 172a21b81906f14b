//! What one disk discovery saw: the object and mod folders of a mods root,
//! their identity keys and filesystem identities, and the rows the runtime
//! projection held before.

use vstd::prelude::*;

use crate::path_rules::{components, folder_key, folder_path_key, path_components};
use crate::sets::{contains_text, distinct, insert_distinct, text_set, views};
use crate::text::{chars_eq, has_prefix, starts_with, to_chars};

verus! {

/// A top-level object folder found on disk.
#[derive(Debug)]
pub struct DiskObjectEntry {
    pub folder_path: String,
    pub folder_path_key: String,
    pub name: String,
    pub is_disabled: bool,
    pub absolute_path: String,
    pub filesystem_identity: Option<String>,
}

/// A terminal mod folder found on disk.
#[derive(Debug)]
pub struct DiskModEntry {
    pub folder_path: String,
    pub folder_path_key: String,
    pub object_folder_path_key: String,
    pub raw_name: String,
    pub absolute_path: String,
    pub filesystem_identity: Option<String>,
    /// `None` when an incremental reconcile did not need to rescan this mod.
    pub size_bytes: Option<i64>,
}

/// The objects and mods of one discovery.
#[derive(Debug)]
pub struct DiskProjection {
    pub objects: Vec<DiskObjectEntry>,
    pub mods: Vec<DiskModEntry>,
}

/// A projected object row as the database held it before a pass.
#[derive(Debug)]
pub struct ReconcileObjectRow {
    pub id: String,
    pub name: String,
    pub folder_path: String,
    pub folder_path_key: String,
    pub filesystem_identity: Option<String>,
}

/// A projected mod row as the database held it before a pass.
#[derive(Debug)]
pub struct ReconcileModRow {
    pub id: String,
    pub folder_path: String,
    pub folder_path_key: String,
    pub actual_name: String,
    pub filesystem_identity: Option<String>,
}

/// One directory of the name census.
#[derive(Debug)]
pub struct DiskIdentityCensusEntry {
    pub folder_path: String,
    pub folder_path_key: String,
    pub raw_name: String,
    pub absolute_path: String,
}

/// Directory names and normalized identities discovered without reading any
/// metadata.
#[derive(Debug)]
pub struct DiskIdentityCensus {
    pub entries: Vec<DiskIdentityCensusEntry>,
    pub top_level_roots: usize,
}

/// How much one discovery scanned.
#[derive(Debug, Clone, Copy, PartialEq, Eq, Structural)]
pub struct DiskDiscoveryScanCounts {
    pub census_directories: usize,
    pub classified_roots: usize,
    pub classified_directories: usize,
}

/// How long the parts of one discovery took, in ms.
#[derive(Debug, Clone, Copy, PartialEq, Eq, Structural)]
pub struct DiskDiscoveryTimings {
    pub census_ms: u64,
    pub classification_ms: u64,
}

/// A discovery: the census, the projection, and whether it covered only
/// the changed roots.
#[derive(Debug)]
pub struct DiskScopedDiscovery {
    pub census: DiskIdentityCensus,
    pub projection: DiskProjection,
    pub scoped: bool,
    pub scan_counts: DiskDiscoveryScanCounts,
    pub timings: DiskDiscoveryTimings,
}

/// The stages of onboarding discovery.
#[derive(Debug, Clone, Copy, PartialEq, Eq, Structural)]
pub enum OnboardingDiscoveryPhase {
    Metadata,
    Classifying,
}

/// Progress of the filesystem preparation that precedes an onboarding apply.
#[derive(Debug)]
pub struct OnboardingDiscoveryProgress {
    pub phase: OnboardingDiscoveryPhase,
    pub completed_roots: usize,
    pub total_roots: usize,
    pub folders_classified: usize,
    pub current_root: Option<String>,
    pub is_terminal: bool,
}

/// Why a snapshot failed.
#[derive(Debug, Clone, PartialEq, Eq)]
pub enum DiskProjectionError {
    SourceUnavailable(String),
    Failed(String),
}

impl DiskProjectionError {
    pub fn into_message(self) -> (r: String)
        ensures
            r@ == match self {
                DiskProjectionError::SourceUnavailable(m) => m@,
                DiskProjectionError::Failed(m) => m@,
            },
    {
        match self {
            DiskProjectionError::SourceUnavailable(message) => message,
            DiskProjectionError::Failed(message) => message,
        }
    }
}

/// A copy of an optional string.
pub fn copy_opt(o: &Option<String>) -> (r: Option<String>)
    ensures
        r == *o,
{
    match o {
        Some(s) => Some(s.clone()),
        None => None,
    }
}

impl DiskObjectEntry {
    pub fn duplicate(&self) -> (r: Self)
        ensures
            r == *self,
    {
        DiskObjectEntry {
            folder_path: self.folder_path.clone(),
            folder_path_key: self.folder_path_key.clone(),
            name: self.name.clone(),
            is_disabled: self.is_disabled,
            absolute_path: self.absolute_path.clone(),
            filesystem_identity: copy_opt(&self.filesystem_identity),
        }
    }
}

impl DiskModEntry {
    pub fn duplicate(&self) -> (r: Self)
        ensures
            r == *self,
    {
        DiskModEntry {
            folder_path: self.folder_path.clone(),
            folder_path_key: self.folder_path_key.clone(),
            object_folder_path_key: self.object_folder_path_key.clone(),
            raw_name: self.raw_name.clone(),
            absolute_path: self.absolute_path.clone(),
            filesystem_identity: copy_opt(&self.filesystem_identity),
            size_bytes: self.size_bytes,
        }
    }
}

/// The identity keys of a list of root folders.
pub open spec fn root_key_set(roots: Seq<String>) -> Set<Seq<char>> {
    Set::new(|k: Seq<char>| exists|i: int| 0 <= i < roots.len() && folder_key((#[trigger] roots[i])@) == k)
}

/// The keys of `roots`, each once.
pub fn root_keys(roots: &Vec<String>) -> (r: Vec<String>)
    ensures
        distinct(r@),
        text_set(r@) == root_key_set(roots@),
{
    let mut r: Vec<String> = Vec::new();
    let mut i: usize = 0;
    while i < roots.len()
        invariant
            i <= roots@.len(),
            distinct(r@),
            text_set(r@) == root_key_set(roots@.take(i as int)),
        decreases roots@.len() - i,
    {
        let key = folder_path_key(roots[i].as_str());
        insert_distinct(&mut r, key);
        proof {
            assert(roots@.take(i + 1).take(i as int) =~= roots@.take(i as int));
            assert(text_set(r@) =~= root_key_set(roots@.take(i + 1))) by {
                assert forall|k: Seq<char>| root_key_set(roots@.take(i + 1)).contains(k) implies text_set(r@).contains(k) by {
                    let j = choose|j: int| 0 <= j < i + 1 && folder_key((#[trigger] roots@.take(i + 1)[j])@) == k;
                    if j < i {
                        assert(root_key_set(roots@.take(i as int)).contains(k)) by {
                            assert(roots@.take(i as int)[j] == roots@.take(i + 1)[j]);
                        }
                    }
                }
                assert forall|k: Seq<char>| text_set(r@).contains(k) implies root_key_set(roots@.take(i + 1)).contains(k) by {
                    if k == folder_key(roots@[i as int]@) {
                        assert(roots@.take(i + 1)[i as int] == roots@[i as int]);
                    } else {
                        assert(root_key_set(roots@.take(i as int)).contains(k));
                        let j = choose|j: int| 0 <= j < i && folder_key((#[trigger] roots@.take(i as int)[j])@) == k;
                        assert(roots@.take(i + 1)[j] == roots@.take(i as int)[j]);
                    }
                }
            }
        }
        i += 1;
    }
    assert(roots@.take(roots@.len() as int) =~= roots@);
    r
}

/// The objects of a projection that sit under one of the given root keys.
pub open spec fn objects_in_roots(objects: Seq<DiskObjectEntry>, keys: Set<Seq<char>>) -> Seq<DiskObjectEntry> {
    objects.filter(|e: DiskObjectEntry| keys.contains(e.folder_path_key@))
}

/// The mods of a projection whose object sits under one of the given root keys.
pub open spec fn mods_in_roots(mods: Seq<DiskModEntry>, keys: Set<Seq<char>>) -> Seq<DiskModEntry> {
    mods.filter(|e: DiskModEntry| keys.contains(e.object_folder_path_key@))
}

impl DiskProjection {
    /// The part of this projection that lies under the given roots.
    pub fn scoped_to_roots(&self, changed_roots: &Vec<String>) -> (r: Self)
        ensures
            r.objects@ == objects_in_roots(self.objects@, root_key_set(changed_roots@)),
            r.mods@ == mods_in_roots(self.mods@, root_key_set(changed_roots@)),
    {
        let keys = root_keys(changed_roots);
        let ghost key_set = root_key_set(changed_roots@);
        let mut objects: Vec<DiskObjectEntry> = Vec::new();
        let mut i: usize = 0;
        while i < self.objects.len()
            invariant
                i <= self.objects@.len(),
                text_set(keys@) == key_set,
                objects@ == objects_in_roots(self.objects@.take(i as int), key_set),
            decreases self.objects@.len() - i,
        {
            proof {
                assert(self.objects@.take(i + 1).drop_last() =~= self.objects@.take(i as int));
            }
            let ghost before = objects@;
            let keep = contains_text(&keys, &self.objects[i].folder_path_key);
            if keep {
                objects.push(self.objects[i].duplicate());
            }
            proof {
                reveal(Seq::filter);
                let t = self.objects@.take(i + 1);
                assert(t.last() == self.objects@[i as int]);
                assert(objects_in_roots(t, key_set) == if key_set.contains(t.last().folder_path_key@) {
                    objects_in_roots(t.drop_last(), key_set).push(t.last())
                } else {
                    objects_in_roots(t.drop_last(), key_set)
                });
            }
            i += 1;
        }
        assert(self.objects@.take(self.objects@.len() as int) =~= self.objects@);
        let mut mods: Vec<DiskModEntry> = Vec::new();
        let mut j: usize = 0;
        while j < self.mods.len()
            invariant
                j <= self.mods@.len(),
                text_set(keys@) == key_set,
                mods@ == mods_in_roots(self.mods@.take(j as int), key_set),
            decreases self.mods@.len() - j,
        {
            proof {
                assert(self.mods@.take(j + 1).drop_last() =~= self.mods@.take(j as int));
            }
            if contains_text(&keys, &self.mods[j].object_folder_path_key) {
                mods.push(self.mods[j].duplicate());
            }
            proof {
                reveal(Seq::filter);
                let t = self.mods@.take(j + 1);
                assert(t.last() == self.mods@[j as int]);
                assert(mods_in_roots(t, key_set) == if key_set.contains(t.last().object_folder_path_key@) {
                    mods_in_roots(t.drop_last(), key_set).push(t.last())
                } else {
                    mods_in_roots(t.drop_last(), key_set)
                });
            }
            j += 1;
        }
        assert(self.mods@.take(self.mods@.len() as int) =~= self.mods@);
        DiskProjection { objects, mods }
    }
}

/// The first component of a relative folder path, if it has one.
pub open spec fn top_root(path: Seq<char>) -> Option<Seq<char>> {
    if components(path).len() > 0 {
        Some(components(path)[0])
    } else {
        None
    }
}

/// Two census entries share an identity key but sit under different
/// top-level roots.
pub open spec fn cross_root_ambiguity(entries: Seq<DiskIdentityCensusEntry>) -> bool {
    exists|i: int, j: int|
        0 <= i < entries.len() && 0 <= j < entries.len()
        && #[trigger] entries[i].folder_path_key@ == #[trigger] entries[j].folder_path_key@
        && top_root(entries[i].folder_path@) is Some
        && top_root(entries[j].folder_path@) is Some
        && top_root(entries[i].folder_path@) != top_root(entries[j].folder_path@)
}

/// The first component of a path, as characters.
fn first_component(path: &str) -> (r: Option<Vec<char>>)
    ensures
        match r {
            Some(c) => top_root(path@) == Some(c@),
            None => top_root(path@) is None,
        },
{
    let chars = to_chars(path);
    let comps = path_components(chars.as_slice());
    if comps.len() == 0 {
        None
    } else {
        let first = comps[0].clone();
        Some(first)
    }
}

impl DiskIdentityCensus {
    /// A collision spanning top-level roots can alter the object/mod
    /// ownership boundary, so the whole tree must then be classified.
    pub fn has_cross_root_ambiguity(&self) -> (r: bool)
        ensures
            r == cross_root_ambiguity(self.entries@),
    {
        let n = self.entries.len();
        let mut i: usize = 0;
        while i < n
            invariant
                n == self.entries@.len(),
                i <= n,
                forall|a: int, b: int|
                    0 <= a < i && 0 <= b < n
                    && #[trigger] self.entries@[a].folder_path_key@ == #[trigger] self.entries@[b].folder_path_key@
                    && top_root(self.entries@[a].folder_path@) is Some
                    && top_root(self.entries@[b].folder_path@) is Some
                    ==> top_root(self.entries@[a].folder_path@) == top_root(self.entries@[b].folder_path@),
            decreases n - i,
        {
            let ri = first_component(self.entries[i].folder_path.as_str());
            if let Some(root_i) = ri {
                let mut j: usize = 0;
                while j < n
                    invariant
                        n == self.entries@.len(),
                        i < n,
                        top_root(self.entries@[i as int].folder_path@) == Some(root_i@),
                        j <= n,
                        forall|b: int|
                            0 <= b < j
                            && self.entries@[i as int].folder_path_key@ == #[trigger] self.entries@[b].folder_path_key@
                            && top_root(self.entries@[b].folder_path@) is Some
                            ==> top_root(self.entries@[b].folder_path@) == Some(root_i@),
                    decreases n - j,
                {
                    if self.entries[i].folder_path_key == self.entries[j].folder_path_key {
                        if let Some(root_j) = first_component(self.entries[j].folder_path.as_str()) {
                            if !chars_eq(root_i.as_slice(), root_j.as_slice()) {
                                assert(top_root(self.entries@[i as int].folder_path@) != top_root(self.entries@[j as int].folder_path@));
                                return true;
                            }
                        }
                    }
                    j += 1;
                }
            }
            i += 1;
        }
        false
    }
}

/// One key is the other, or lies under it as a `/`-separated descendant.
pub open spec fn key_related(left: Seq<char>, right: Seq<char>) -> bool {
    ||| left == right
    ||| (has_prefix(left, right) && left.len() > right.len() && left[right.len() as int] == '/')
    ||| (has_prefix(right, left) && right.len() > left.len() && right[left.len() as int] == '/')
}

fn under(a: &[char], b: &[char]) -> (r: bool)
    ensures
        r == (has_prefix(a@, b@) && a@.len() > b@.len() && a@[b@.len() as int] == '/'),
{
    starts_with(a, b) && a.len() > b.len() && a[b.len()] == '/'
}

/// Whether two identity keys are equal, or one is an ancestor of the other.
pub fn path_key_is_ancestor_or_descendant(left: &str, right: &str) -> (r: bool)
    ensures
        r == key_related(left@, right@),
{
    let l = to_chars(left);
    let rr = to_chars(right);
    chars_eq(l.as_slice(), rr.as_slice()) || under(l.as_slice(), rr.as_slice()) || under(
        rr.as_slice(),
        l.as_slice(),
    )
}

} // verus!

verus! {

/// The identity key of `path` relative to `mods_path`, when it lies
/// strictly inside it.
pub open spec fn relative_folder_key(mods_path: Seq<char>, path: Seq<char>) -> Option<Seq<char>> {
    let m = components(mods_path).len();
    let n = components(path).len();
    if crate::path_rules::component_prefix(path, mods_path) && n > m {
        Some(crate::path_rules::join_slash(Seq::new((n - m) as nat, |i: int| crate::path_rules::segment_key(components(path)[m + i]))))
    } else {
        None
    }
}

/// The relative keys of the changed paths inside the mods folder, in order.
pub open spec fn changed_keys(mods_path: Seq<char>, paths: Seq<Seq<char>>) -> Seq<Seq<char>>
    decreases paths.len(),
{
    if paths.len() == 0 {
        Seq::empty()
    } else {
        let before = changed_keys(mods_path, paths.drop_last());
        match relative_folder_key(mods_path, paths.last()) {
            Some(k) => before.push(k),
            None => before,
        }
    }
}

/// A path that is the mods folder itself.
pub open spec fn names_mods_root(mods_path: Seq<char>, path: Seq<char>) -> bool {
    crate::path_rules::component_prefix(path, mods_path) && components(path).len() == components(mods_path).len()
}

/// Which mods an incremental pass measures the size of: all of them when
/// the mods folder itself changed; otherwise the mods not known before and
/// those on the line of a changed path.
#[derive(Debug)]
pub struct DiskSizeScan {
    pub scan_all: bool,
    pub known_mod_keys: Vec<String>,
    /// The changed paths' identity keys, sorted, each once.
    pub changed_path_keys: Vec<String>,
}

/// `key` joined from the identity keys of `comps[start..]`.
pub fn relative_key_chars(comps: &Vec<Vec<char>>, start: usize) -> (r: Vec<char>)
    requires
        start <= comps@.len(),
    ensures
        r@ == crate::path_rules::join_slash(Seq::new((comps@.len() - start) as nat, |i: int| crate::path_rules::segment_key(comps@[start + i]@))),
{
    let ghost keys = Seq::new((comps@.len() - start) as nat, |i: int| crate::path_rules::segment_key(comps@[start + i]@));
    let mut out: Vec<char> = Vec::new();
    let mut i: usize = start;
    while i < comps.len()
        invariant
            start <= i <= comps@.len(),
            keys == Seq::new((comps@.len() - start) as nat, |i: int| crate::path_rules::segment_key(comps@[start + i]@)),
            out@ == crate::path_rules::join_slash(keys.take(i - start)),
        decreases comps@.len() - i,
    {
        let name = crate::path_rules::normalize_display_name(comps[i].as_slice());
        let key = crate::text::lower_chars(name.as_slice());
        assert(key@ == keys[i - start]);
        assert(keys.take(i - start + 1).drop_last() =~= keys.take(i - start));
        assert(keys.take(i - start + 1).last() == keys[i - start]);
        let ghost base = out@;
        if i > start {
            out.push('/');
        }
        let mut j: usize = 0;
        while j < key.len()
            invariant
                j <= key@.len(),
                out@ =~= (if i > start { base.push('/') } else { base }) + key@.take(j as int),
            decreases key@.len() - j,
        {
            out.push(key[j]);
            j += 1;
        }
        assert(key@.take(key@.len() as int) =~= key@);
        proof {
            if i == start {
                assert(keys.take(1) =~= seq![keys[0]]);
                assert(base =~= Seq::<char>::empty());
            }
        }
        i += 1;
    }
    assert(keys.take(comps@.len() - start) =~= keys);
    out
}

/// The relative identity key of a path inside the mods folder.
pub fn relative_folder_path_key(mods_path: &str, path: &str) -> (r: Option<String>)
    ensures
        crate::reconcile::authority::text_opt(r) == relative_folder_key(mods_path@, path@),
{
    let base = to_chars(mods_path);
    let p = to_chars(path);
    if !crate::path_rules::has_component_prefix(p.as_slice(), base.as_slice()) {
        return None;
    }
    let base_comps = path_components(base.as_slice());
    let comps = path_components(p.as_slice());
    if comps.len() <= base_comps.len() {
        return None;
    }
    let key = relative_key_chars(&comps, base_comps.len());
    let ghost m = components(mods_path@).len();
    let ghost n = components(path@).len();
    assert(Seq::new((comps@.len() - base_comps@.len()) as nat, |i: int| crate::path_rules::segment_key(comps@[base_comps@.len() + i]@))
        =~= Seq::new((n - m) as nat, |i: int| crate::path_rules::segment_key(components(path@)[m + i])));
    Some(crate::text::from_chars(key.as_slice()))
}

impl DiskSizeScan {
    /// The scan of an incremental pass over the changed paths.
    pub fn incremental(mods_path: &str, known_mod_keys: Vec<String>, changed_paths: &Vec<String>) -> (r: Self)
        ensures
            r.scan_all == exists|i: int| 0 <= i < changed_paths@.len() && names_mods_root(mods_path@, #[trigger] changed_paths@[i]@),
            r.known_mod_keys@ == known_mod_keys@,
            views(r.changed_path_keys@) == crate::reconcile::identity_conflicts::dedup_exact(
                crate::order::stable_sort(changed_keys(mods_path@, views(changed_paths@)), false)),
    {
        let mut keys: Vec<String> = Vec::new();
        let mut scan_all = false;
        let mut i: usize = 0;
        while i < changed_paths.len()
            invariant
                i <= changed_paths@.len(),
                views(keys@) == changed_keys(mods_path@, views(changed_paths@).take(i as int)),
                scan_all == exists|k: int| 0 <= k < i && names_mods_root(mods_path@, #[trigger] changed_paths@[k]@),
            decreases changed_paths@.len() - i,
        {
            proof {
                assert(views(changed_paths@).take(i + 1).drop_last() =~= views(changed_paths@).take(i as int));
                assert(views(changed_paths@).take(i + 1).last() == changed_paths@[i as int]@);
            }
            match relative_folder_path_key(mods_path, changed_paths[i].as_str()) {
                Some(key) => {
                    let ghost before = keys@;
                    keys.push(key);
                    proof {
                        crate::sets::lemma_views_push(before, keys@.last());
                    }
                },
                None => {},
            }
            let base = to_chars(mods_path);
            let p = to_chars(changed_paths[i].as_str());
            if crate::path_rules::has_component_prefix(p.as_slice(), base.as_slice())
                && path_components(p.as_slice()).len() == path_components(base.as_slice()).len() {
                scan_all = true;
            }
            i += 1;
        }
        assert(views(changed_paths@).take(changed_paths@.len() as int) =~= views(changed_paths@));
        let sorted = crate::order::sort_texts(&keys, false);
        let changed_path_keys = crate::reconcile::identity_conflicts::dedup_exact_texts(&sorted);
        DiskSizeScan { scan_all, known_mod_keys, changed_path_keys }
    }

    /// Whether the size of the mod with identity key `mod_key` is measured.
    pub fn should_measure(&self, mod_key: &str) -> (r: bool)
        ensures
            r == (self.scan_all || !views(self.known_mod_keys@).contains(mod_key@)
                || exists|i: int| 0 <= i < self.changed_path_keys@.len()
                    && key_related(mod_key@, (#[trigger] self.changed_path_keys@[i])@)),
    {
        if self.scan_all {
            return true;
        }
        let key = String::from_str(mod_key);
        if !contains_text(&self.known_mod_keys, &key) {
            return true;
        }
        let mut i: usize = 0;
        while i < self.changed_path_keys.len()
            invariant
                i <= self.changed_path_keys@.len(),
                forall|k: int| 0 <= k < i ==> !key_related(mod_key@, (#[trigger] self.changed_path_keys@[k])@),
            decreases self.changed_path_keys@.len() - i,
        {
            if path_key_is_ancestor_or_descendant(mod_key, self.changed_path_keys[i].as_str()) {
                return true;
            }
            i += 1;
        }
        false
    }
}

} // verus!
