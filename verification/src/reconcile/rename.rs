//! Rename confirmations: when the folders the runtime projection knew and
//! the folders on disk cannot be paired by filesystem identity or by path
//! key, the pairs that need a person's decision are grouped for review.

use vstd::prelude::*;

use crate::digest::stable_id;
use crate::error::AppError;
use crate::order::{dedup_ignore_case, dedup_texts_ignore_case, sort_by_key, sort_texts, stable_sort};
use crate::reconcile::snapshot::{DiskModEntry, DiskObjectEntry, DiskProjection, ReconcileModRow, ReconcileObjectRow};
use crate::path_rules::{components, folder_key, folder_path_key, path_components};
use crate::reconcile::types::{RenameConfirmationGroup, RenameConfirmationKind, RenameConfirmationReason};
use crate::sets::{lemma_views_push, views};
use crate::reconcile::request::ModWatchEvent;
use crate::sets::text_set;
use crate::text::{concat_str, from_chars, to_chars};

verus! {

/// The scope that every object shares.
pub open spec fn object_scope() -> Seq<char> {
    "__top_level__"@
}

/// The most paths a group lists on each side.
pub open spec fn max_paths_per_side() -> int {
    16
}

/// The most previous/current pairs a scope may have before its candidates
/// are reported in one bounded group.
pub open spec fn max_candidate_pairs() -> int {
    64
}

/// The scope a folder is reviewed in: one scope for all objects, and the
/// key of the owning object folder for a mod.
pub open spec fn scope_of(kind: RenameConfirmationKind, path: Seq<char>) -> Seq<char> {
    match kind {
        RenameConfirmationKind::Object => object_scope(),
        RenameConfirmationKind::Mod => if components(path).len() > 0 {
            folder_key(components(path)[0])
        } else {
            Seq::<char>::empty()
        },
    }
}

/// The scope a folder is reviewed in.
pub fn scope_key(kind: RenameConfirmationKind, path: &str) -> (r: String)
    ensures
        r@ == scope_of(kind, path@),
{
    match kind {
        RenameConfirmationKind::Object => String::from_str("__top_level__"),
        RenameConfirmationKind::Mod => {
            let chars = to_chars(path);
            let comps = path_components(chars.as_slice());
            if comps.len() == 0 {
                String::new()
            } else {
                let first = from_chars(comps[0].as_slice());
                folder_path_key(first.as_str())
            }
        },
    }
}

/// The variant name of a kind.
pub open spec fn kind_name(kind: RenameConfirmationKind) -> Seq<char> {
    match kind {
        RenameConfirmationKind::Object => "Object"@,
        RenameConfirmationKind::Mod => "Mod"@,
    }
}

/// The variant name of a reason.
pub open spec fn reason_name(reason: RenameConfirmationReason) -> Seq<char> {
    match reason {
        RenameConfirmationReason::MissingIdentity => "MissingIdentity"@,
        RenameConfirmationReason::AmbiguousIdentity => "AmbiguousIdentity"@,
    }
}

fn kind_text(kind: RenameConfirmationKind) -> (r: &'static str)
    ensures
        r@ == kind_name(kind),
{
    match kind {
        RenameConfirmationKind::Object => "Object",
        RenameConfirmationKind::Mod => "Mod",
    }
}

fn reason_text(reason: RenameConfirmationReason) -> (r: &'static str)
    ensures
        r@ == reason_name(reason),
{
    match reason {
        RenameConfirmationReason::MissingIdentity => "MissingIdentity",
        RenameConfirmationReason::AmbiguousIdentity => "AmbiguousIdentity",
    }
}

/// `parts` joined with NUL characters.
pub open spec fn join_nul(parts: Seq<Seq<char>>) -> Seq<char>
    decreases parts.len(),
{
    if parts.len() == 0 {
        Seq::<char>::empty()
    } else if parts.len() == 1 {
        parts[0]
    } else {
        join_nul(parts.drop_last()) + seq!['\0'] + parts.last()
    }
}

fn join_with_nul(parts: &Vec<String>) -> (r: String)
    ensures
        r@ == join_nul(views(parts@)),
{
    let mut out: Vec<char> = Vec::new();
    let mut i: usize = 0;
    while i < parts.len()
        invariant
            i <= parts@.len(),
            out@ == join_nul(views(parts@).take(i as int)),
        decreases parts@.len() - i,
    {
        proof {
            assert(views(parts@).take(i + 1).drop_last() =~= views(parts@).take(i as int));
            assert(views(parts@).take(i + 1).last() == parts@[i as int]@);
        }
        if i > 0 {
            out.push('\0');
        }
        let piece = to_chars(parts[i].as_str());
        let ghost base = out@;
        let mut j: usize = 0;
        while j < piece.len()
            invariant
                j <= piece@.len(),
                out@ =~= base + piece@.take(j as int),
            decreases piece@.len() - j,
        {
            out.push(piece[j]);
            j += 1;
        }
        proof {
            assert(piece@.take(piece@.len() as int) =~= piece@);
            if i == 0 {
                assert(views(parts@).take(1)[0] == parts@[0]@);
            }
        }
        i += 1;
    }
    assert(views(parts@).take(parts@.len() as int) =~= views(parts@));
    from_chars(out.as_slice())
}

/// What a group's id is derived from: its kind, reason, scope and both
/// path lists.
pub open spec fn group_signature(
    kind: RenameConfirmationKind,
    reason: RenameConfirmationReason,
    scope: Seq<char>,
    previous: Seq<Seq<char>>,
    current: Seq<Seq<char>>,
) -> Seq<char> {
    "rename-confirmation:"@ + kind_name(kind) + ":"@ + reason_name(reason) + ":"@ + scope + ":"@
        + join_nul(previous) + ":"@ + join_nul(current)
}

/// A path list as a group shows it: sorted ignoring ASCII case, each path
/// once up to case.
pub open spec fn listed(paths: Seq<Seq<char>>) -> Seq<Seq<char>> {
    dedup_ignore_case(stable_sort(paths, true))
}

/// At most the first `max_paths_per_side()` paths of a list.
pub open spec fn capped(paths: Seq<Seq<char>>) -> Seq<Seq<char>> {
    if paths.len() > max_paths_per_side() {
        paths.take(max_paths_per_side())
    } else {
        paths
    }
}

/// `g` is the group `build_group` makes from these inputs.
pub open spec fn group_built(
    g: RenameConfirmationGroup,
    game_id: Seq<char>,
    kind: RenameConfirmationKind,
    reason: RenameConfirmationReason,
    scope: Seq<char>,
    previous: Seq<Seq<char>>,
    current: Seq<Seq<char>>,
    force_truncated: bool,
) -> bool {
    let p = listed(previous);
    let c = listed(current);
    &&& g.group_id@ == stable_id(game_id, group_signature(kind, reason, scope, p, c))
    &&& g.kind == kind
    &&& g.reason == reason
    &&& g.scope_key@ == scope
    &&& views(g.previous_paths@) == capped(p)
    &&& views(g.current_paths@) == capped(c)
    &&& g.previous_path_count == p.len()
    &&& g.current_path_count == c.len()
    &&& g.candidates_truncated == (force_truncated || p.len() > max_paths_per_side() || c.len() > max_paths_per_side())
}

/// One review group: both path lists sorted and de-duplicated ignoring
/// case, capped per side, with a stable id derived from the full lists.
pub fn build_group(
    game_id: &str,
    kind: RenameConfirmationKind,
    reason: RenameConfirmationReason,
    scope_key: &str,
    previous_paths: Vec<String>,
    current_paths: Vec<String>,
    force_truncated: bool,
) -> (r: RenameConfirmationGroup)
    ensures
        group_built(r, game_id@, kind, reason, scope_key@, views(previous_paths@), views(current_paths@), force_truncated),
{
    let sorted_previous = sort_texts(&previous_paths, true);
    let mut previous = dedup_texts_ignore_case(&sorted_previous);
    let sorted_current = sort_texts(&current_paths, true);
    let mut current = dedup_texts_ignore_case(&sorted_current);
    let previous_path_count = previous.len();
    let current_path_count = current.len();
    let a = concat_str("rename-confirmation:", kind_text(kind));
    let b = concat_str(a.as_str(), ":");
    let c = concat_str(b.as_str(), reason_text(reason));
    let d = concat_str(c.as_str(), ":");
    let e = concat_str(d.as_str(), scope_key);
    let f = concat_str(e.as_str(), ":");
    let joined_previous = join_with_nul(&previous);
    let g = concat_str(f.as_str(), joined_previous.as_str());
    let h = concat_str(g.as_str(), ":");
    let joined_current = join_with_nul(&current);
    let signature = concat_str(h.as_str(), joined_current.as_str());
    let group_id = crate::digest::generate_stable_id_from_key(game_id, signature.as_str());
    let ghost full_previous = previous@;
    let ghost full_current = current@;
    previous.truncate(16);
    current.truncate(16);
    proof {
        if full_previous.len() > 16 {
            assert(views(previous@) =~= views(full_previous).take(16));
        } else {
            assert(previous@ =~= full_previous);
        }
        if full_current.len() > 16 {
            assert(views(current@) =~= views(full_current).take(16));
        } else {
            assert(current@ =~= full_current);
        }
    }
    let candidates_truncated = force_truncated || previous.len() != previous_path_count
        || current.len() != current_path_count;
    RenameConfirmationGroup {
        group_id,
        kind,
        reason,
        scope_key: String::from_str(scope_key),
        previous_paths: previous,
        current_paths: current,
        previous_path_count,
        current_path_count,
        candidates_truncated,
    }
}

/// Too many candidates to pair one by one.
pub open spec fn oversized(previous_len: int, current_len: int) -> bool {
    previous_len > max_paths_per_side() || current_len > max_paths_per_side()
        || previous_len * current_len > max_candidate_pairs()
}

/// The groups `build_candidate_groups` makes: one bounded group for an
/// oversized scope, else one group per current path.
pub open spec fn candidate_groups_built(
    groups: Seq<RenameConfirmationGroup>,
    game_id: Seq<char>,
    kind: RenameConfirmationKind,
    reason: RenameConfirmationReason,
    scope: Seq<char>,
    previous: Seq<Seq<char>>,
    current: Seq<Seq<char>>,
) -> bool {
    if oversized(previous.len() as int, current.len() as int) {
        groups.len() == 1 && group_built(groups[0], game_id, kind, reason, scope, previous, current, true)
    } else {
        &&& groups.len() == current.len()
        &&& forall|i: int| 0 <= i < groups.len() ==> group_built(#[trigger] groups[i], game_id, kind, reason, scope, previous, seq![current[i]], false)
    }
}

fn copy_texts(v: &Vec<String>) -> (r: Vec<String>)
    ensures
        r@ == v@,
{
    let mut r: Vec<String> = Vec::new();
    let mut i: usize = 0;
    while i < v.len()
        invariant
            i <= v@.len(),
            r@ =~= v@.take(i as int),
        decreases v@.len() - i,
    {
        r.push(v[i].clone());
        i += 1;
    }
    assert(v@.take(v@.len() as int) =~= v@);
    r
}

/// The review groups of one scope.
pub fn build_candidate_groups(
    game_id: &str,
    kind: RenameConfirmationKind,
    reason: RenameConfirmationReason,
    scope_key: &str,
    previous_paths: Vec<String>,
    current_paths: Vec<String>,
) -> (r: Vec<RenameConfirmationGroup>)
    ensures
        candidate_groups_built(r@, game_id@, kind, reason, scope_key@, views(previous_paths@), views(current_paths@)),
{
    let np = previous_paths.len();
    let nc = current_paths.len();
    let too_many = if np > 16 || nc > 16 {
        true
    } else {
        assert(np * nc <= 256) by (nonlinear_arith)
            requires
                np <= 16,
                nc <= 16,
        ;
        np * nc > 64
    };
    if too_many {
        let mut r: Vec<RenameConfirmationGroup> = Vec::new();
        r.push(build_group(game_id, kind, reason, scope_key, previous_paths, current_paths, true));
        return r;
    }
    let mut r: Vec<RenameConfirmationGroup> = Vec::new();
    let mut i: usize = 0;
    while i < current_paths.len()
        invariant
            i <= current_paths@.len(),
            r@.len() == i,
            forall|k: int| 0 <= k < i ==> group_built(#[trigger] r@[k], game_id@, kind, reason, scope_key@, views(previous_paths@), seq![current_paths@[k]@], false),
        decreases current_paths@.len() - i,
    {
        let mut single: Vec<String> = Vec::new();
        single.push(current_paths[i].clone());
        assert(views(single@) =~= seq![current_paths@[i as int]@]);
        r.push(build_group(game_id, kind, reason, scope_key, copy_texts(&previous_paths), single, false));
        i += 1;
    }
    proof {
        assert forall|k: int| 0 <= k < r@.len() implies group_built(#[trigger] r@[k], game_id@, kind, reason, scope_key@, views(previous_paths@), seq![views(current_paths@)[k]], false) by {
            assert(views(current_paths@)[k] == current_paths@[k]@);
        }
    }
    r
}

/// A runtime folder as rename detection compares it: its path, the keys it
/// is matched and protected by, its review scope and its filesystem
/// identity when one was read.
#[derive(Debug)]
pub struct RuntimeEntry {
    pub path: String,
    pub logical_key: String,
    pub protected_key: String,
    pub scope_key: String,
    pub filesystem_identity: Option<String>,
}

/// `e` carries the filesystem identity `id`.
pub open spec fn has_identity(e: RuntimeEntry, id: Seq<char>) -> bool {
    e.filesystem_identity is Some && e.filesystem_identity->0@ == id
}

pub open spec fn with_identity(id: Seq<char>) -> spec_fn(RuntimeEntry) -> bool {
    |e: RuntimeEntry| has_identity(e, id)
}

pub open spec fn with_identity_in_scope(id: Seq<char>, scope: Seq<char>) -> spec_fn(RuntimeEntry) -> bool {
    |e: RuntimeEntry| has_identity(e, id) && e.scope_key@ == scope
}

/// Some entry of `s` carries the identity `id`.
pub open spec fn seen_identity(s: Seq<RuntimeEntry>, id: Seq<char>) -> bool {
    exists|k: int| 0 <= k < s.len() && has_identity(#[trigger] s[k], id)
}

/// Both sides carry the identity `id`.
pub open spec fn shared_identity(previous: Seq<RuntimeEntry>, current: Seq<RuntimeEntry>, id: Seq<char>) -> bool {
    seen_identity(previous, id) && seen_identity(current, id)
}

/// `e` is paired through an identity that both sides carry.
pub open spec fn identity_matched(e: RuntimeEntry, previous: Seq<RuntimeEntry>, current: Seq<RuntimeEntry>) -> bool {
    e.filesystem_identity is Some && shared_identity(previous, current, e.filesystem_identity->0@)
}

pub open spec fn previous_with_key(previous: Seq<RuntimeEntry>, current: Seq<RuntimeEntry>, key: Seq<char>) -> spec_fn(RuntimeEntry) -> bool {
    |e: RuntimeEntry| !identity_matched(e, previous, current) && e.logical_key@ == key
}

/// How many previous entries not paired by identity have the path key `key`.
pub open spec fn key_count(previous: Seq<RuntimeEntry>, current: Seq<RuntimeEntry>, key: Seq<char>) -> nat {
    previous.filter(previous_with_key(previous, current, key)).len()
}

/// A previous entry is paired by identity, or is the only unpaired previous
/// entry with its path key and an unpaired current entry has that key.
pub open spec fn previous_matched(p: RuntimeEntry, previous: Seq<RuntimeEntry>, current: Seq<RuntimeEntry>) -> bool {
    ||| identity_matched(p, previous, current)
    ||| (key_count(previous, current, p.logical_key@) == 1 && exists|k: int|
        0 <= k < current.len() && !identity_matched(#[trigger] current[k], previous, current)
            && current[k].logical_key@ == p.logical_key@)
}

/// A current entry is paired by identity, or exactly one unpaired previous
/// entry has its path key.
pub open spec fn current_matched(c: RuntimeEntry, previous: Seq<RuntimeEntry>, current: Seq<RuntimeEntry>) -> bool {
    identity_matched(c, previous, current) || key_count(previous, current, c.logical_key@) == 1
}

/// An identity both sides carry, on more than one entry of one side.
pub open spec fn ambiguous_identity(previous: Seq<RuntimeEntry>, current: Seq<RuntimeEntry>, id: Seq<char>) -> bool {
    &&& shared_identity(previous, current, id)
    &&& !(previous.filter(with_identity(id)).len() == 1 && current.filter(with_identity(id)).len() == 1)
}

/// Whether some entry of `s` carries the identity `id`.
fn identity_seen(s: &Vec<RuntimeEntry>, id: &String) -> (r: bool)
    ensures
        r == seen_identity(s@, id@),
{
    let mut k: usize = 0;
    while k < s.len()
        invariant
            k <= s@.len(),
            forall|j: int| 0 <= j < k ==> !has_identity(#[trigger] s@[j], id@),
        decreases s@.len() - k,
    {
        match &s[k].filesystem_identity {
            Some(other) => {
                if *other == *id {
                    return true;
                }
            },
            None => {},
        }
        k += 1;
    }
    false
}

/// For each entry of `s`: whether the other side carries its identity.
fn identity_pairing(s: &Vec<RuntimeEntry>, other: &Vec<RuntimeEntry>, Ghost(previous): Ghost<Seq<RuntimeEntry>>, Ghost(current): Ghost<Seq<RuntimeEntry>>) -> (r: Vec<bool>)
    requires
        (s@ == previous && other@ == current) || (s@ == current && other@ == previous),
    ensures
        r@.len() == s@.len(),
        forall|i: int| 0 <= i < s@.len() ==> r@[i] == identity_matched(#[trigger] s@[i], previous, current),
{
    let mut r: Vec<bool> = Vec::new();
    let mut i: usize = 0;
    while i < s.len()
        invariant
            (s@ == previous && other@ == current) || (s@ == current && other@ == previous),
            i <= s@.len(),
            r@.len() == i,
            forall|j: int| 0 <= j < i ==> r@[j] == identity_matched(#[trigger] s@[j], previous, current),
        decreases s@.len() - i,
    {
        let flag = match &s[i].filesystem_identity {
            Some(id) => {
                let seen = identity_seen(other, id);
                proof {
                    assert(seen_identity(s@, id@)) by {
                        assert(has_identity(s@[i as int], id@));
                    }
                }
                seen
            },
            None => false,
        };
        r.push(flag);
        i += 1;
    }
    r
}

/// The number of previous entries, not paired by identity, with path key `key`.
fn count_previous_with_key(previous: &Vec<RuntimeEntry>, paired: &Vec<bool>, key: &String, Ghost(current): Ghost<Seq<RuntimeEntry>>) -> (r: usize)
    requires
        paired@.len() == previous@.len(),
        forall|i: int| 0 <= i < previous@.len() ==> paired@[i] == identity_matched(#[trigger] previous@[i], previous@, current),
    ensures
        r == key_count(previous@, current, key@),
{
    let ghost pred = previous_with_key(previous@, current, key@);
    let mut n: usize = 0;
    let mut i: usize = 0;
    while i < previous.len()
        invariant
            paired@.len() == previous@.len(),
            forall|j: int| 0 <= j < previous@.len() ==> paired@[j] == identity_matched(#[trigger] previous@[j], previous@, current),
            pred == previous_with_key(previous@, current, key@),
            i <= previous@.len(),
            n == previous@.take(i as int).filter(pred).len(),
            n <= i,
        decreases previous@.len() - i,
    {
        proof {
            reveal(Seq::filter);
            assert(previous@.take(i + 1).drop_last() =~= previous@.take(i as int));
            assert(previous@.take(i + 1).last() == previous@[i as int]);
        }
        if !paired[i] && previous[i].logical_key == *key {
            n += 1;
        }
        i += 1;
    }
    assert(previous@.take(previous@.len() as int) =~= previous@);
    n
}

/// Whether a current entry not paired by identity has the path key `key`.
fn unpaired_current_has_key(
    current: &Vec<RuntimeEntry>,
    current_paired: &Vec<bool>,
    key: &String,
    Ghost(previous): Ghost<Seq<RuntimeEntry>>,
) -> (r: bool)
    requires
        current_paired@.len() == current@.len(),
        forall|i: int| 0 <= i < current@.len() ==> current_paired@[i] == identity_matched(#[trigger] current@[i], previous, current@),
    ensures
        r == exists|k: int| 0 <= k < current@.len() && !identity_matched(#[trigger] current@[k], previous, current@)
            && current@[k].logical_key@ == key@,
{
    let mut k: usize = 0;
    while k < current.len()
        invariant
            current_paired@.len() == current@.len(),
            forall|j: int| 0 <= j < current@.len() ==> current_paired@[j] == identity_matched(#[trigger] current@[j], previous, current@),
            k <= current@.len(),
            forall|j: int| 0 <= j < k ==> !(!identity_matched(#[trigger] current@[j], previous, current@)
                && current@[j].logical_key@ == key@),
        decreases current@.len() - k,
    {
        if !current_paired[k] && current[k].logical_key == *key {
            return true;
        }
        k += 1;
    }
    false
}

/// Whether each previous entry ends up paired.
fn previous_pairing(
    previous: &Vec<RuntimeEntry>,
    current: &Vec<RuntimeEntry>,
    previous_paired: &Vec<bool>,
    current_paired: &Vec<bool>,
) -> (r: Vec<bool>)
    requires
        previous_paired@.len() == previous@.len(),
        current_paired@.len() == current@.len(),
        forall|i: int| 0 <= i < previous@.len() ==> previous_paired@[i] == identity_matched(#[trigger] previous@[i], previous@, current@),
        forall|i: int| 0 <= i < current@.len() ==> current_paired@[i] == identity_matched(#[trigger] current@[i], previous@, current@),
    ensures
        r@.len() == previous@.len(),
        forall|i: int| 0 <= i < previous@.len() ==> r@[i] == previous_matched(#[trigger] previous@[i], previous@, current@),
{
    let mut r: Vec<bool> = Vec::new();
    let mut i: usize = 0;
    while i < previous.len()
        invariant
            previous_paired@.len() == previous@.len(),
            current_paired@.len() == current@.len(),
            forall|j: int| 0 <= j < previous@.len() ==> previous_paired@[j] == identity_matched(#[trigger] previous@[j], previous@, current@),
            forall|j: int| 0 <= j < current@.len() ==> current_paired@[j] == identity_matched(#[trigger] current@[j], previous@, current@),
            i <= previous@.len(),
            r@.len() == i,
            forall|j: int| 0 <= j < i ==> r@[j] == previous_matched(#[trigger] previous@[j], previous@, current@),
        decreases previous@.len() - i,
    {
        let mut flag = previous_paired[i];
        if !flag {
            let count = count_previous_with_key(previous, previous_paired, &previous[i].logical_key, Ghost(current@));
            if count == 1 {
                flag = unpaired_current_has_key(current, current_paired, &previous[i].logical_key, Ghost(previous@));
            }
        }
        r.push(flag);
        i += 1;
    }
    r
}

/// Whether each current entry ends up paired.
fn current_pairing(
    previous: &Vec<RuntimeEntry>,
    current: &Vec<RuntimeEntry>,
    previous_paired: &Vec<bool>,
    current_paired: &Vec<bool>,
) -> (r: Vec<bool>)
    requires
        previous_paired@.len() == previous@.len(),
        current_paired@.len() == current@.len(),
        forall|i: int| 0 <= i < previous@.len() ==> previous_paired@[i] == identity_matched(#[trigger] previous@[i], previous@, current@),
        forall|i: int| 0 <= i < current@.len() ==> current_paired@[i] == identity_matched(#[trigger] current@[i], previous@, current@),
    ensures
        r@.len() == current@.len(),
        forall|i: int| 0 <= i < current@.len() ==> r@[i] == current_matched(#[trigger] current@[i], previous@, current@),
{
    let mut r: Vec<bool> = Vec::new();
    let mut i: usize = 0;
    while i < current.len()
        invariant
            previous_paired@.len() == previous@.len(),
            current_paired@.len() == current@.len(),
            forall|j: int| 0 <= j < previous@.len() ==> previous_paired@[j] == identity_matched(#[trigger] previous@[j], previous@, current@),
            forall|j: int| 0 <= j < current@.len() ==> current_paired@[j] == identity_matched(#[trigger] current@[j], previous@, current@),
            i <= current@.len(),
            r@.len() == i,
            forall|j: int| 0 <= j < i ==> r@[j] == current_matched(#[trigger] current@[j], previous@, current@),
        decreases current@.len() - i,
    {
        let flag = current_paired[i] || count_previous_with_key(previous, previous_paired, &current[i].logical_key, Ghost(current@)) == 1;
        r.push(flag);
        i += 1;
    }
    r
}

/// The paths of some entries.
pub open spec fn paths_of(s: Seq<RuntimeEntry>) -> Seq<Seq<char>> {
    s.map_values(|e: RuntimeEntry| e.path@)
}

/// The scopes of some entries.
pub open spec fn scopes_of(s: Seq<RuntimeEntry>) -> Seq<Seq<char>> {
    s.map_values(|e: RuntimeEntry| e.scope_key@)
}

/// The identities of some entries that carry one.
pub open spec fn identities_of(s: Seq<RuntimeEntry>) -> Seq<Seq<char>> {
    s.map_values(|e: RuntimeEntry| e.filesystem_identity->0@)
}

/// `s` with later repetitions dropped.
pub open spec fn unique(s: Seq<Seq<char>>) -> Seq<Seq<char>>
    decreases s.len(),
{
    if s.len() == 0 {
        s
    } else {
        let u = unique(s.drop_last());
        if u.contains(s.last()) {
            u
        } else {
            u.push(s.last())
        }
    }
}

/// What one entry contributes to a selection.
pub enum Field {
    Path,
    Scope,
    Identity,
}

pub open spec fn field_of(e: RuntimeEntry, field: Field) -> Seq<char> {
    match field {
        Field::Path => e.path@,
        Field::Scope => e.scope_key@,
        Field::Identity => e.filesystem_identity->0@,
    }
}

pub open spec fn fields_of(s: Seq<RuntimeEntry>, field: Field) -> Seq<Seq<char>> {
    match field {
        Field::Path => paths_of(s),
        Field::Scope => scopes_of(s),
        Field::Identity => identities_of(s),
    }
}

fn field_text(e: &RuntimeEntry, field: &Field) -> (r: String)
    requires
        *field is Identity ==> e.filesystem_identity is Some,
    ensures
        r@ == field_of(*e, *field),
{
    match field {
        Field::Path => e.path.clone(),
        Field::Scope => e.scope_key.clone(),
        Field::Identity => match &e.filesystem_identity {
            Some(id) => id.clone(),
            None => String::new(),
        },
    }
}

proof fn lemma_fields_push(s: Seq<RuntimeEntry>, x: RuntimeEntry, field: Field)
    ensures
        fields_of(s.push(x), field) == fields_of(s, field).push(field_of(x, field)),
{
    match field {
        Field::Path => assert(paths_of(s.push(x)) =~= paths_of(s).push(x.path@)),
        Field::Scope => assert(scopes_of(s.push(x)) =~= scopes_of(s).push(x.scope_key@)),
        Field::Identity => assert(identities_of(s.push(x)) =~= identities_of(s).push(x.filesystem_identity->0@)),
    }
}

/// The chosen field of the kept entries, in order; without repetitions when
/// `once` is set.
fn select_fields(
    s: &Vec<RuntimeEntry>,
    keep: &Vec<bool>,
    field: Field,
    once: bool,
    Ghost(pred): Ghost<spec_fn(RuntimeEntry) -> bool>,
) -> (r: Vec<String>)
    requires
        keep@.len() == s@.len(),
        forall|i: int| 0 <= i < s@.len() ==> keep@[i] == pred(#[trigger] s@[i]),
        field is Identity ==> forall|i: int| 0 <= i < s@.len() && pred(#[trigger] s@[i]) ==> s@[i].filesystem_identity is Some,
    ensures
        !once ==> views(r@) == fields_of(s@.filter(pred), field),
        once ==> views(r@) == unique(fields_of(s@.filter(pred), field)),
{
    let mut r: Vec<String> = Vec::new();
    let mut i: usize = 0;
    while i < s.len()
        invariant
            keep@.len() == s@.len(),
            forall|j: int| 0 <= j < s@.len() ==> keep@[j] == pred(#[trigger] s@[j]),
            field is Identity ==> forall|j: int| 0 <= j < s@.len() && pred(#[trigger] s@[j]) ==> s@[j].filesystem_identity is Some,
            i <= s@.len(),
            !once ==> views(r@) == fields_of(s@.take(i as int).filter(pred), field),
            once ==> views(r@) == unique(fields_of(s@.take(i as int).filter(pred), field)),
        decreases s@.len() - i,
    {
        proof {
            reveal(Seq::filter);
            assert(s@.take(i + 1).drop_last() =~= s@.take(i as int));
            assert(s@.take(i + 1).last() == s@[i as int]);
            if pred(s@[i as int]) {
                lemma_fields_push(s@.take(i as int).filter(pred), s@[i as int], field);
                let fs = fields_of(s@.take(i as int).filter(pred), field);
                assert(fs.push(field_of(s@[i as int], field)).drop_last() =~= fs);
            }
        }
        if keep[i] {
            let t = field_text(&s[i], &field);
            let ghost before = r@;
            if once {
                if !crate::sets::contains_text(&r, &t) {
                    r.push(t);
                    proof {
                        lemma_views_push(before, t);
                    }
                }
            } else {
                r.push(t);
                proof {
                    lemma_views_push(before, t);
                }
            }
        }
        i += 1;
    }
    assert(s@.take(s@.len() as int) =~= s@);
    r
}

/// Which entries carry the identity `id` (and sit in `scope`, when given).
fn identity_flags(s: &Vec<RuntimeEntry>, id: &String, scope: &Option<String>) -> (r: Vec<bool>)
    ensures
        r@.len() == s@.len(),
        forall|i: int| 0 <= i < s@.len() ==> r@[i] == match scope {
            Some(sc) => has_identity(#[trigger] s@[i], id@) && s@[i].scope_key@ == sc@,
            None => has_identity(s@[i], id@),
        },
{
    let mut r: Vec<bool> = Vec::new();
    let mut i: usize = 0;
    while i < s.len()
        invariant
            i <= s@.len(),
            r@.len() == i,
            forall|j: int| 0 <= j < i ==> r@[j] == match scope {
                Some(sc) => has_identity(#[trigger] s@[j], id@) && s@[j].scope_key@ == sc@,
                None => has_identity(s@[j], id@),
            },
        decreases s@.len() - i,
    {
        let carries = match &s[i].filesystem_identity {
            Some(other) => *other == *id,
            None => false,
        };
        let flag = match scope {
            Some(sc) => carries && s[i].scope_key == *sc,
            None => carries,
        };
        r.push(flag);
        i += 1;
    }
    r
}

/// Which entries are unpaired (per `paired`) and sit in `scope`.
fn unpaired_in_scope(s: &Vec<RuntimeEntry>, paired: &Vec<bool>, scope: &String) -> (r: Vec<bool>)
    requires
        paired@.len() == s@.len(),
    ensures
        r@.len() == s@.len(),
        forall|i: int| 0 <= i < s@.len() ==> r@[i] == (!paired@[i] && (#[trigger] s@[i]).scope_key@ == scope@),
{
    let mut r: Vec<bool> = Vec::new();
    let mut i: usize = 0;
    while i < s.len()
        invariant
            paired@.len() == s@.len(),
            i <= s@.len(),
            r@.len() == i,
            forall|j: int| 0 <= j < i ==> r@[j] == (!paired@[j] && (#[trigger] s@[j]).scope_key@ == scope@),
        decreases s@.len() - i,
    {
        r.push(!paired[i] && s[i].scope_key == *scope);
        i += 1;
    }
    r
}

fn negated(flags: &Vec<bool>) -> (r: Vec<bool>)
    ensures
        r@.len() == flags@.len(),
        forall|i: int| 0 <= i < flags@.len() ==> r@[i] == !flags@[i],
{
    let mut r: Vec<bool> = Vec::new();
    let mut i: usize = 0;
    while i < flags.len()
        invariant
            i <= flags@.len(),
            r@.len() == i,
            forall|j: int| 0 <= j < i ==> r@[j] == !flags@[j],
        decreases flags@.len() - i,
    {
        r.push(!flags[i]);
        i += 1;
    }
    r
}

/// Some entry of `s` was read without a filesystem identity.
pub open spec fn lacks_identity(s: Seq<RuntimeEntry>) -> bool {
    exists|k: int| 0 <= k < s.len() && (#[trigger] s[k]).filesystem_identity is None
}

/// Whether a kept entry lacks a filesystem identity.
fn kept_lack_identity(s: &Vec<RuntimeEntry>, keep: &Vec<bool>, Ghost(pred): Ghost<spec_fn(RuntimeEntry) -> bool>) -> (r: bool)
    requires
        keep@.len() == s@.len(),
        forall|i: int| 0 <= i < s@.len() ==> keep@[i] == pred(#[trigger] s@[i]),
    ensures
        r == lacks_identity(s@.filter(pred)),
{
    let mut found = false;
    let mut i: usize = 0;
    while i < s.len()
        invariant
            keep@.len() == s@.len(),
            forall|j: int| 0 <= j < s@.len() ==> keep@[j] == pred(#[trigger] s@[j]),
            i <= s@.len(),
            found == lacks_identity(s@.take(i as int).filter(pred)),
        decreases s@.len() - i,
    {
        proof {
            reveal(Seq::filter);
            assert(s@.take(i + 1).drop_last() =~= s@.take(i as int));
            assert(s@.take(i + 1).last() == s@[i as int]);
            let f = s@.take(i as int).filter(pred);
            if pred(s@[i as int]) {
                let g = f.push(s@[i as int]);
                assert(lacks_identity(g) == (lacks_identity(f) || s@[i as int].filesystem_identity is None)) by {
                    if lacks_identity(g) && !lacks_identity(f) {
                        let k = choose|k: int| 0 <= k < g.len() && (#[trigger] g[k]).filesystem_identity is None;
                        if k < f.len() {
                            assert(g[k] == f[k]);
                        }
                    }
                    if lacks_identity(f) {
                        let k = choose|k: int| 0 <= k < f.len() && (#[trigger] f[k]).filesystem_identity is None;
                        assert(g[k] == f[k]);
                    }
                    if s@[i as int].filesystem_identity is None {
                        assert(g[f.len() as int] == s@[i as int]);
                    }
                }
            }
        }
        if keep[i] && s[i].filesystem_identity.is_none() {
            found = true;
        }
        i += 1;
    }
    assert(s@.take(s@.len() as int) =~= s@);
    found
}

/// What one review group is made from: its reason, scope, and previous
/// and current paths.
pub type ReviewPlan = (RenameConfirmationReason, Seq<char>, Seq<Seq<char>>, Seq<Seq<char>>);

/// How many groups one plan yields.
pub open spec fn plan_size(plan: ReviewPlan) -> int {
    if oversized(plan.2.len() as int, plan.3.len() as int) {
        1
    } else {
        plan.3.len() as int
    }
}

/// `groups` are the groups the plans yield, plan after plan.
pub open spec fn plans_built(
    groups: Seq<RenameConfirmationGroup>,
    game_id: Seq<char>,
    kind: RenameConfirmationKind,
    plans: Seq<ReviewPlan>,
) -> bool
    decreases plans.len(),
{
    if plans.len() == 0 {
        groups.len() == 0
    } else {
        let n = plan_size(plans.last());
        &&& n <= groups.len()
        &&& plans_built(groups.take(groups.len() - n), game_id, kind, plans.drop_last())
        &&& candidate_groups_built(
            groups.skip(groups.len() - n),
            game_id,
            kind,
            plans.last().0,
            plans.last().1,
            plans.last().2,
            plans.last().3,
        )
    }
}

proof fn lemma_plans_append(
    groups: Seq<RenameConfirmationGroup>,
    more: Seq<RenameConfirmationGroup>,
    game_id: Seq<char>,
    kind: RenameConfirmationKind,
    plans: Seq<ReviewPlan>,
    plan: ReviewPlan,
)
    requires
        plans_built(groups, game_id, kind, plans),
        candidate_groups_built(more, game_id, kind, plan.0, plan.1, plan.2, plan.3),
    ensures
        plans_built(groups + more, game_id, kind, plans.push(plan)),
{
    assert(plans.push(plan).drop_last() =~= plans);
    assert(plans.push(plan).last() == plan);
    assert(more.len() == plan_size(plan));
    assert((groups + more).take(groups.len() as int) =~= groups);
    assert((groups + more).skip(groups.len() as int) =~= more);
}

pub open spec fn paired_by_identity(previous: Seq<RuntimeEntry>, current: Seq<RuntimeEntry>) -> spec_fn(RuntimeEntry) -> bool {
    |e: RuntimeEntry| identity_matched(e, previous, current)
}

/// The identities both sides carry, in ascending order.
pub open spec fn shared_identities(previous: Seq<RuntimeEntry>, current: Seq<RuntimeEntry>) -> Seq<Seq<char>> {
    stable_sort(unique(identities_of(previous.filter(paired_by_identity(previous, current)))), false)
}

/// The scopes of the current entries carrying `id`, in ascending order.
pub open spec fn identity_scopes(current: Seq<RuntimeEntry>, id: Seq<char>) -> Seq<Seq<char>> {
    stable_sort(unique(scopes_of(current.filter(with_identity(id)))), false)
}

/// The plans of one identity: for an ambiguous identity, one per scope of
/// its current entries, each listing every previous entry with it.
pub open spec fn identity_plans(previous: Seq<RuntimeEntry>, current: Seq<RuntimeEntry>, id: Seq<char>) -> Seq<ReviewPlan> {
    if ambiguous_identity(previous, current, id) {
        identity_scopes(current, id).map_values(|scope: Seq<char>| (
            RenameConfirmationReason::AmbiguousIdentity,
            scope,
            paths_of(previous.filter(with_identity(id))),
            paths_of(current.filter(with_identity_in_scope(id, scope))),
        ))
    } else {
        Seq::<ReviewPlan>::empty()
    }
}

pub open spec fn identity_plans_for(previous: Seq<RuntimeEntry>, current: Seq<RuntimeEntry>, ids: Seq<Seq<char>>) -> Seq<ReviewPlan>
    decreases ids.len(),
{
    if ids.len() == 0 {
        Seq::<ReviewPlan>::empty()
    } else {
        identity_plans_for(previous, current, ids.drop_last()) + identity_plans(previous, current, ids.last())
    }
}

pub open spec fn unpaired_previous(previous: Seq<RuntimeEntry>, current: Seq<RuntimeEntry>) -> spec_fn(RuntimeEntry) -> bool {
    |e: RuntimeEntry| !previous_matched(e, previous, current)
}

pub open spec fn unpaired_previous_in(previous: Seq<RuntimeEntry>, current: Seq<RuntimeEntry>, scope: Seq<char>) -> spec_fn(RuntimeEntry) -> bool {
    |e: RuntimeEntry| !previous_matched(e, previous, current) && e.scope_key@ == scope
}

pub open spec fn unpaired_current_in(previous: Seq<RuntimeEntry>, current: Seq<RuntimeEntry>, scope: Seq<char>) -> spec_fn(RuntimeEntry) -> bool {
    |e: RuntimeEntry| !current_matched(e, previous, current) && e.scope_key@ == scope
}

/// The scopes of the unpaired previous entries, in ascending order.
pub open spec fn unpaired_scopes(previous: Seq<RuntimeEntry>, current: Seq<RuntimeEntry>) -> Seq<Seq<char>> {
    stable_sort(unique(scopes_of(previous.filter(unpaired_previous(previous, current)))), false)
}

/// A scope needs a review when both sides have unpaired entries in it and
/// one of them was read without a filesystem identity.
pub open spec fn missing_scope_plans(previous: Seq<RuntimeEntry>, current: Seq<RuntimeEntry>, scope: Seq<char>) -> Seq<ReviewPlan> {
    let pe = previous.filter(unpaired_previous_in(previous, current, scope));
    let ce = current.filter(unpaired_current_in(previous, current, scope));
    if ce.len() > 0 && (lacks_identity(pe) || lacks_identity(ce)) {
        seq![(RenameConfirmationReason::MissingIdentity, scope, paths_of(pe), paths_of(ce))]
    } else {
        Seq::<ReviewPlan>::empty()
    }
}

pub open spec fn missing_plans_for(previous: Seq<RuntimeEntry>, current: Seq<RuntimeEntry>, scopes: Seq<Seq<char>>) -> Seq<ReviewPlan>
    decreases scopes.len(),
{
    if scopes.len() == 0 {
        Seq::<ReviewPlan>::empty()
    } else {
        missing_plans_for(previous, current, scopes.drop_last()) + missing_scope_plans(previous, current, scopes.last())
    }
}

/// Every review of one kind: ambiguous identities first, in identity
/// order, then scopes with unpaired folders lacking an identity.
pub open spec fn rename_plans(previous: Seq<RuntimeEntry>, current: Seq<RuntimeEntry>) -> Seq<ReviewPlan> {
    identity_plans_for(previous, current, shared_identities(previous, current))
        + missing_plans_for(previous, current, unpaired_scopes(previous, current))
}

/// The protected keys of the entries of `s` that `pred` keeps.
pub open spec fn kept_keys(s: Seq<RuntimeEntry>, pred: spec_fn(RuntimeEntry) -> bool) -> Set<Seq<char>> {
    Set::new(|k: Seq<char>| exists|x: int| 0 <= x < s.len() && pred(#[trigger] s[x]) && s[x].protected_key@ == k)
}

/// The keys held back for an ambiguous identity: every folder with it.
pub open spec fn identity_keys_for(previous: Seq<RuntimeEntry>, current: Seq<RuntimeEntry>, ids: Seq<Seq<char>>) -> Set<Seq<char>>
    decreases ids.len(),
{
    if ids.len() == 0 {
        Set::<Seq<char>>::empty()
    } else {
        let id = ids.last();
        identity_keys_for(previous, current, ids.drop_last()) + if ambiguous_identity(previous, current, id) {
            kept_keys(previous, with_identity(id)) + kept_keys(current, with_identity(id))
        } else {
            Set::<Seq<char>>::empty()
        }
    }
}

/// The keys held back for the scopes under review: every unpaired folder
/// of the scope.
pub open spec fn scope_keys_for(previous: Seq<RuntimeEntry>, current: Seq<RuntimeEntry>, scopes: Seq<Seq<char>>) -> Set<Seq<char>>
    decreases scopes.len(),
{
    if scopes.len() == 0 {
        Set::<Seq<char>>::empty()
    } else {
        let scope = scopes.last();
        scope_keys_for(previous, current, scopes.drop_last()) + if missing_scope_plans(previous, current, scope).len() > 0 {
            kept_keys(previous, unpaired_previous_in(previous, current, scope)) + kept_keys(
                current,
                unpaired_current_in(previous, current, scope),
            )
        } else {
            Set::<Seq<char>>::empty()
        }
    }
}

/// Every key a detection holds back from the projection writer.
pub open spec fn protected_keys_of(previous: Seq<RuntimeEntry>, current: Seq<RuntimeEntry>) -> Set<Seq<char>> {
    identity_keys_for(previous, current, shared_identities(previous, current)) + scope_keys_for(
        previous,
        current,
        unpaired_scopes(previous, current),
    )
}

/// Adds the protected keys of the kept entries.
fn protect_kept(
    keys: &mut Vec<String>,
    s: &Vec<RuntimeEntry>,
    keep: &Vec<bool>,
    Ghost(pred): Ghost<spec_fn(RuntimeEntry) -> bool>,
)
    requires
        crate::sets::distinct(old(keys)@),
        keep@.len() == s@.len(),
        forall|i: int| 0 <= i < s@.len() ==> keep@[i] == pred(#[trigger] s@[i]),
    ensures
        crate::sets::distinct(final(keys)@),
        crate::sets::text_set(final(keys)@) == crate::sets::text_set(old(keys)@) + kept_keys(s@, pred),
{
    let ghost start = crate::sets::text_set(keys@);
    let mut i: usize = 0;
    while i < s.len()
        invariant
            keep@.len() == s@.len(),
            forall|j: int| 0 <= j < s@.len() ==> keep@[j] == pred(#[trigger] s@[j]),
            i <= s@.len(),
            crate::sets::distinct(keys@),
            crate::sets::text_set(keys@) == start + kept_keys(s@.take(i as int), pred),
        decreases s@.len() - i,
    {
        if keep[i] {
            crate::sets::insert_distinct(keys, s[i].protected_key.clone());
        }
        proof {
            let t = s@.take(i + 1);
            assert(crate::sets::text_set(keys@) =~= start + kept_keys(t, pred)) by {
                assert forall|k: Seq<char>| kept_keys(t, pred).contains(k) implies crate::sets::text_set(keys@).contains(k) by {
                    let x = choose|x: int| 0 <= x < t.len() && pred(#[trigger] t[x]) && t[x].protected_key@ == k;
                    if x < i {
                        assert(s@.take(i as int)[x] == t[x]);
                        assert(kept_keys(s@.take(i as int), pred).contains(k));
                    } else {
                        assert(t[x] == s@[i as int]);
                    }
                }
                assert forall|k: Seq<char>| kept_keys(s@.take(i as int), pred).contains(k) implies kept_keys(t, pred).contains(k) by {
                    let x = choose|x: int| 0 <= x < i && pred(#[trigger] s@.take(i as int)[x]) && s@.take(i as int)[x].protected_key@ == k;
                    assert(t[x] == s@.take(i as int)[x]);
                }
                if keep[i as int] {
                    assert(t[i as int] == s@[i as int]);
                    assert(kept_keys(t, pred).contains(s@[i as int].protected_key@));
                }
            }
        }
        i += 1;
    }
    assert(s@.take(s@.len() as int) =~= s@);
}

/// The reviews of one kind, and the keys of every folder they hold back.
#[derive(Debug)]
pub struct KindDetection {
    pub groups: Vec<RenameConfirmationGroup>,
    pub protected_keys: Vec<String>,
}

/// Pairs the previous and current folders of one kind: first by a
/// filesystem identity both sides carry, then by a path key only one
/// unpaired previous folder has. What cannot be paired safely becomes a
/// review group.
pub fn detect_kind(
    game_id: &str,
    kind: RenameConfirmationKind,
    previous: &Vec<RuntimeEntry>,
    current: &Vec<RuntimeEntry>,
) -> (r: KindDetection)
    ensures
        plans_built(r.groups@, game_id@, kind, rename_plans(previous@, current@)),
        crate::sets::distinct(r.protected_keys@),
        crate::sets::text_set(r.protected_keys@) == protected_keys_of(previous@, current@),
{
    let ghost pv = previous@;
    let ghost cv = current@;
    let previous_paired = identity_pairing(previous, current, Ghost(pv), Ghost(cv));
    let current_paired = identity_pairing(current, previous, Ghost(pv), Ghost(cv));
    let mut groups: Vec<RenameConfirmationGroup> = Vec::new();
    let mut protected: Vec<String> = Vec::new();

    let found_ids = select_fields(previous, &previous_paired, Field::Identity, true, Ghost(paired_by_identity(pv, cv)));
    let ids = sort_texts(&found_ids, false);
    assert(views(ids@) == shared_identities(pv, cv));
    let mut i: usize = 0;
    while i < ids.len()
        invariant
            pv == previous@,
            cv == current@,
            views(ids@) == shared_identities(pv, cv),
            i <= ids@.len(),
            plans_built(groups@, game_id@, kind, identity_plans_for(pv, cv, views(ids@).take(i as int))),
            crate::sets::distinct(protected@),
            crate::sets::text_set(protected@) == identity_keys_for(pv, cv, views(ids@).take(i as int)),
        decreases ids@.len() - i,
    {
        let id = &ids[i];
        let ghost idv = id@;
        proof {
            assert(views(ids@)[i as int] == idv);
            assert(views(ids@).take(i + 1).drop_last() =~= views(ids@).take(i as int));
            assert(views(ids@).take(i + 1).last() == idv);
        }
        let pflags = identity_flags(previous, id, &None);
        let prev_paths = select_fields(previous, &pflags, Field::Path, false, Ghost(with_identity(idv)));
        let cflags = identity_flags(current, id, &None);
        let cur_all = select_fields(current, &cflags, Field::Path, false, Ghost(with_identity(idv)));
        let ambiguous = identity_seen(previous, id) && identity_seen(current, id) && !(prev_paths.len() == 1
            && cur_all.len() == 1);
        proof {
            assert(views(prev_paths@).len() == prev_paths@.len());
            assert(views(cur_all@).len() == cur_all@.len());
            assert(paths_of(pv.filter(with_identity(idv))).len() == pv.filter(with_identity(idv)).len());
            assert(paths_of(cv.filter(with_identity(idv))).len() == cv.filter(with_identity(idv)).len());
        }
        assert(ambiguous == ambiguous_identity(pv, cv, idv));
        if ambiguous {
            protect_kept(&mut protected, previous, &pflags, Ghost(with_identity(idv)));
            protect_kept(&mut protected, current, &cflags, Ghost(with_identity(idv)));
            proof {
                assert(crate::sets::text_set(protected@) =~= identity_keys_for(pv, cv, views(ids@).take(i + 1)));
            }
            let found_scopes = select_fields(current, &cflags, Field::Scope, true, Ghost(with_identity(idv)));
            let scopes = sort_texts(&found_scopes, false);
            assert(views(scopes@) == identity_scopes(cv, idv));
            let ghost base = identity_plans_for(pv, cv, views(ids@).take(i as int));
            let mut j: usize = 0;
            while j < scopes.len()
                invariant
                    pv == previous@,
                    cv == current@,
                    id@ == idv,
                    views(scopes@) == identity_scopes(cv, idv),
                    ambiguous_identity(pv, cv, idv),
                    views(prev_paths@) == paths_of(pv.filter(with_identity(idv))),
                    j <= scopes@.len(),
                    plans_built(groups@, game_id@, kind, base + identity_plans(pv, cv, idv).take(j as int)),
                    crate::sets::distinct(protected@),
                    crate::sets::text_set(protected@) == identity_keys_for(pv, cv, views(ids@).take(i + 1)),
                    i < ids@.len(),
                    views(ids@).take(i + 1).drop_last() == views(ids@).take(i as int),
                decreases scopes@.len() - j,
            {
                let scope = scopes[j].clone();
                let ghost sv = scope@;
                let sflags = identity_flags(current, id, &Some(scope.clone()));
                let cur_paths = select_fields(current, &sflags, Field::Path, false, Ghost(with_identity_in_scope(idv, sv)));
                let mut more = build_candidate_groups(
                    game_id,
                    kind,
                    RenameConfirmationReason::AmbiguousIdentity,
                    scope.as_str(),
                    copy_texts(&prev_paths),
                    cur_paths,
                );
                proof {
                    let plan: ReviewPlan = (
                        RenameConfirmationReason::AmbiguousIdentity,
                        sv,
                        paths_of(pv.filter(with_identity(idv))),
                        paths_of(cv.filter(with_identity_in_scope(idv, sv))),
                    );
                    assert(views(scopes@)[j as int] == sv);
                    assert(identity_plans(pv, cv, idv)[j as int] == plan);
                    assert(identity_plans(pv, cv, idv).take(j + 1) =~= identity_plans(pv, cv, idv).take(j as int).push(plan));
                    lemma_plans_append(groups@, more@, game_id@, kind, base + identity_plans(pv, cv, idv).take(j as int), plan);
                    assert(base + identity_plans(pv, cv, idv).take(j + 1) =~= (base + identity_plans(pv, cv, idv).take(j as int)).push(plan));
                }
                groups.append(&mut more);
                j += 1;
            }
            proof {
                assert(identity_plans(pv, cv, idv).take(j as int) =~= identity_plans(pv, cv, idv));
            }
        } else {
            proof {
                assert(identity_plans_for(pv, cv, views(ids@).take(i as int)) + identity_plans(pv, cv, idv)
                    =~= identity_plans_for(pv, cv, views(ids@).take(i as int)));
                assert(crate::sets::text_set(protected@) =~= identity_keys_for(pv, cv, views(ids@).take(i + 1)));
            }
        }
        i += 1;
    }
    assert(views(ids@).take(ids@.len() as int) =~= views(ids@));
    let ghost identity_part = identity_plans_for(pv, cv, shared_identities(pv, cv));
    let ghost identity_keys = identity_keys_for(pv, cv, shared_identities(pv, cv));

    let previous_done = previous_pairing(previous, current, &previous_paired, &current_paired);
    let current_done = current_pairing(previous, current, &previous_paired, &current_paired);
    let previous_open = negated(&previous_done);
    let found_scopes = select_fields(previous, &previous_open, Field::Scope, true, Ghost(unpaired_previous(pv, cv)));
    let scopes = sort_texts(&found_scopes, false);
    assert(views(scopes@) == unpaired_scopes(pv, cv));
    let mut k: usize = 0;
    while k < scopes.len()
        invariant
            pv == previous@,
            cv == current@,
            views(scopes@) == unpaired_scopes(pv, cv),
            previous_done@.len() == pv.len(),
            current_done@.len() == cv.len(),
            forall|x: int| 0 <= x < pv.len() ==> previous_done@[x] == previous_matched(#[trigger] pv[x], pv, cv),
            forall|x: int| 0 <= x < cv.len() ==> current_done@[x] == current_matched(#[trigger] cv[x], pv, cv),
            k <= scopes@.len(),
            plans_built(groups@, game_id@, kind, identity_part + missing_plans_for(pv, cv, views(scopes@).take(k as int))),
            crate::sets::distinct(protected@),
            crate::sets::text_set(protected@) == identity_keys + scope_keys_for(pv, cv, views(scopes@).take(k as int)),
        decreases scopes@.len() - k,
    {
        let scope = &scopes[k];
        let ghost sv = scope@;
        proof {
            assert(views(scopes@)[k as int] == sv);
            assert(views(scopes@).take(k + 1).drop_last() =~= views(scopes@).take(k as int));
            assert(views(scopes@).take(k + 1).last() == sv);
        }
        let pf = unpaired_in_scope(previous, &previous_done, scope);
        let cf = unpaired_in_scope(current, &current_done, scope);
        let pe_paths = select_fields(previous, &pf, Field::Path, false, Ghost(unpaired_previous_in(pv, cv, sv)));
        let ce_paths = select_fields(current, &cf, Field::Path, false, Ghost(unpaired_current_in(pv, cv, sv)));
        let needs_review = ce_paths.len() > 0 && (kept_lack_identity(previous, &pf, Ghost(unpaired_previous_in(pv, cv, sv)))
            || kept_lack_identity(current, &cf, Ghost(unpaired_current_in(pv, cv, sv))));
        let ghost before = identity_part + missing_plans_for(pv, cv, views(scopes@).take(k as int));
        proof {
            assert(views(ce_paths@).len() == ce_paths@.len());
            assert(paths_of(cv.filter(unpaired_current_in(pv, cv, sv))).len() == cv.filter(unpaired_current_in(pv, cv, sv)).len());
            assert(needs_review == (missing_scope_plans(pv, cv, sv).len() > 0));
        }
        if needs_review {
            protect_kept(&mut protected, previous, &pf, Ghost(unpaired_previous_in(pv, cv, sv)));
            protect_kept(&mut protected, current, &cf, Ghost(unpaired_current_in(pv, cv, sv)));
            proof {
                assert(missing_scope_plans(pv, cv, sv).len() > 0);
                assert(crate::sets::text_set(protected@) =~= identity_keys + scope_keys_for(pv, cv, views(scopes@).take(k + 1)));
            }
            let mut more = build_candidate_groups(
                game_id,
                kind,
                RenameConfirmationReason::MissingIdentity,
                scope.as_str(),
                pe_paths,
                ce_paths,
            );
            proof {
                let plan = missing_scope_plans(pv, cv, sv)[0];
                lemma_plans_append(groups@, more@, game_id@, kind, before, plan);
                assert(missing_scope_plans(pv, cv, sv) =~= seq![plan]);
                assert(identity_part + missing_plans_for(pv, cv, views(scopes@).take(k + 1)) =~= before.push(plan));
            }
            groups.append(&mut more);
        } else {
            proof {
                assert(missing_scope_plans(pv, cv, sv) =~= Seq::<ReviewPlan>::empty());
                assert(identity_part + missing_plans_for(pv, cv, views(scopes@).take(k + 1)) =~= before);
                assert(crate::sets::text_set(protected@) =~= identity_keys + scope_keys_for(pv, cv, views(scopes@).take(k + 1)));
            }
        }
        k += 1;
    }
    assert(views(scopes@).take(scopes@.len() as int) =~= views(scopes@));
    KindDetection { groups, protected_keys: protected }
}

/// `s` without its leading separators.
pub open spec fn drop_seps(s: Seq<char>) -> Seq<char>
    decreases s.len(),
{
    if s.len() > 0 && crate::path_rules::is_sep(s[0]) {
        drop_seps(s.drop_first())
    } else {
        s
    }
}

/// `s` without its leading component.
pub open spec fn drop_word(s: Seq<char>) -> Seq<char>
    decreases s.len(),
{
    if s.len() > 0 && !crate::path_rules::is_sep(s[0]) {
        drop_word(s.drop_first())
    } else {
        s
    }
}

/// The text of `s` after its first `n` components.
pub open spec fn skip_components(s: Seq<char>, n: nat) -> Seq<char>
    decreases n,
{
    if n == 0 {
        drop_seps(s)
    } else {
        skip_components(drop_word(drop_seps(s)), (n - 1) as nat)
    }
}

/// `path` relative to `base` when it lies under it (`Path::strip_prefix`),
/// else `path` itself.
pub open spec fn relative_to(path: Seq<char>, base: Seq<char>) -> Seq<char> {
    if crate::path_rules::component_prefix(path, base) {
        skip_components(path, components(base).len())
    } else {
        path
    }
}

fn skip_leading(s: &[char], start: usize, sep: bool) -> (r: usize)
    requires
        start <= s@.len(),
    ensures
        start <= r <= s@.len(),
        sep ==> s@.subrange(r as int, s@.len() as int) == drop_seps(s@.subrange(start as int, s@.len() as int)),
        !sep ==> s@.subrange(r as int, s@.len() as int) == drop_word(s@.subrange(start as int, s@.len() as int)),
{
    let mut i = start;
    while i < s.len() && crate::path_rules::is_separator(s[i]) == sep
        invariant
            start <= i <= s@.len(),
            sep ==> drop_seps(s@.subrange(i as int, s@.len() as int)) == drop_seps(s@.subrange(start as int, s@.len() as int)),
            !sep ==> drop_word(s@.subrange(i as int, s@.len() as int)) == drop_word(s@.subrange(start as int, s@.len() as int)),
        decreases s@.len() - i,
    {
        proof {
            let t = s@.subrange(i as int, s@.len() as int);
            assert(t.drop_first() =~= s@.subrange(i + 1, s@.len() as int));
            assert(t[0] == s@[i as int]);
        }
        i += 1;
    }
    proof {
        let t = s@.subrange(i as int, s@.len() as int);
        if i < s@.len() {
            assert(t[0] == s@[i as int]);
        }
    }
    i
}

/// `path` relative to `base` when it lies under it, else `path` itself.
pub fn strip_base(path: &str, base: &str) -> (r: String)
    ensures
        r@ == relative_to(path@, base@),
{
    let p = to_chars(path);
    let b = to_chars(base);
    if !crate::path_rules::has_component_prefix(p.as_slice(), b.as_slice()) {
        return String::from_str(path);
    }
    let n = path_components(b.as_slice()).len();
    let mut i: usize = 0;
    let mut k: usize = 0;
    assert(p@.subrange(0, p@.len() as int) =~= p@);
    while k < n
        invariant
            n == components(b@).len(),
            k <= n,
            i <= p@.len(),
            skip_components(p@.subrange(i as int, p@.len() as int), (n - k) as nat) == skip_components(p@, n as nat),
        decreases n - k,
    {
        let j = skip_leading(p.as_slice(), i, true);
        let m = skip_leading(p.as_slice(), j, false);
        i = m;
        k += 1;
    }
    let e = skip_leading(p.as_slice(), i, true);
    let rest = crate::text::tail_from(p.as_slice(), e);
    from_chars(rest.as_slice())
}

/// A resolution event's group id, ends and decision.
pub open spec fn is_resolution(e: ModWatchEvent) -> bool {
    e is RenameResolution
}

/// The reviewed decisions among a batch of events, in order.
pub open spec fn resolutions_of(events: Seq<ModWatchEvent>) -> Seq<ModWatchEvent> {
    events.filter(resolution_filter())
}

pub open spec fn resolution_filter() -> spec_fn(ModWatchEvent) -> bool {
    |e: ModWatchEvent| is_resolution(e)
}

/// The index of the first group with id `id`, or -1.
pub open spec fn group_index(groups: Seq<RenameConfirmationGroup>, id: Seq<char>) -> int
    decreases groups.len(),
{
    if groups.len() == 0 {
        -1
    } else if groups[0].group_id@ == id {
        0
    } else {
        let k = group_index(groups.drop_first(), id);
        if k < 0 {
            -1
        } else {
            k + 1
        }
    }
}

pub open spec fn report_changed_message() -> Seq<char> {
    "Rename confirmation report changed; review every current group again"@
}

pub open spec fn duplicate_group_message() -> Seq<char> {
    "Duplicate rename confirmation group"@
}

pub open spec fn stale_report_message() -> Seq<char> {
    "Rename confirmation report is stale; refresh and try again"@
}

pub open spec fn review_limit_message() -> Seq<char> {
    "Rename candidates exceed the safe review limit; keep them separate or reduce the scope"@
}

pub open spec fn both_ends_message() -> Seq<char> {
    "Confirmed rename requires both the previous and current path"@
}

pub open spec fn not_in_report_message() -> Seq<char> {
    "Confirmed rename paths are not part of the current report"@
}

pub open spec fn same_previous_message() -> Seq<char> {
    "The same previous folder cannot be assigned to more than one current folder"@
}

/// Some path of `paths` equals `p` ignoring ASCII case.
pub open spec fn listed_ignoring_case(paths: Seq<String>, p: Seq<char>) -> bool {
    exists|i: int| 0 <= i < paths.len() && crate::text::eq_ignore_case(#[trigger] paths[i]@, p)
}

/// Checks the decisions in order; the first refusal wins. `seen` holds the
/// groups decided so far, `renamed` the previous folders already assigned.
pub open spec fn check_resolutions(
    groups: Seq<RenameConfirmationGroup>,
    base: Seq<char>,
    res: Seq<ModWatchEvent>,
    seen: Set<Seq<char>>,
    renamed: Set<Seq<char>>,
) -> Option<Seq<char>>
    decreases res.len(),
{
    if res.len() == 0 {
        None
    } else {
        match res[0] {
            ModWatchEvent::RenameResolution { group_id, from, to, apply_as_rename } => {
                let id = group_id@;
                let g = group_index(groups, id);
                if seen.contains(id) {
                    Some(duplicate_group_message())
                } else if g < 0 {
                    Some(stale_report_message())
                } else if !apply_as_rename {
                    check_resolutions(groups, base, res.drop_first(), seen.insert(id), renamed)
                } else if groups[g].candidates_truncated {
                    Some(review_limit_message())
                } else if from is None || to is None {
                    Some(both_ends_message())
                } else {
                    let f = relative_to(from->0@, base);
                    let t = relative_to(to->0@, base);
                    if !listed_ignoring_case(groups[g].previous_paths@, f) || !listed_ignoring_case(groups[g].current_paths@, t) {
                        Some(not_in_report_message())
                    } else if renamed.contains(crate::text::lower(f)) {
                        Some(same_previous_message())
                    } else {
                        check_resolutions(groups, base, res.drop_first(), seen.insert(id), renamed.insert(crate::text::lower(f)))
                    }
                }
            },
            _ => check_resolutions(groups, base, res.drop_first(), seen, renamed),
        }
    }
}

/// What validating the reviewed decisions of a batch gives: `Ok(false)`
/// when there are none, `Ok(true)` when every group was decided
/// consistently, else the first refusal.
pub open spec fn resolutions_outcome(groups: Seq<RenameConfirmationGroup>, base: Seq<char>, events: Seq<ModWatchEvent>) -> Result<bool, Seq<char>> {
    let res = resolutions_of(events);
    if res.len() == 0 {
        Ok(false)
    } else if res.len() != groups.len() {
        Err(report_changed_message())
    } else {
        match check_resolutions(groups, base, res, Set::empty(), Set::empty()) {
            None => Ok(true),
            Some(m) => Err(m),
        }
    }
}

fn find_group(groups: &Vec<RenameConfirmationGroup>, id: &String) -> (r: Option<usize>)
    ensures
        r matches Some(k) ==> k == group_index(groups@, id@) && k < groups@.len(),
        r is None ==> group_index(groups@, id@) < 0,
{
    let mut k: usize = 0;
    assert(groups@.skip(0) =~= groups@);
    while k < groups.len()
        invariant
            k <= groups@.len(),
            forall|j: int| 0 <= j < k ==> groups@[j].group_id@ != id@,
            group_index(groups@, id@) == if group_index(groups@.skip(k as int), id@) < 0 { -1 } else { group_index(groups@.skip(k as int), id@) + k },
        decreases groups@.len() - k,
    {
        proof {
            let t = groups@.skip(k as int);
            assert(t.drop_first() =~= groups@.skip(k + 1));
            assert(t[0] == groups@[k as int]);
        }
        if groups[k].group_id == *id {
            return Some(k);
        }
        k += 1;
    }
    assert(groups@.skip(k as int).len() == 0);
    None
}

fn list_has_ignoring_case(paths: &Vec<String>, p: &String) -> (r: bool)
    ensures
        r == listed_ignoring_case(paths@, p@),
{
    let pc = to_chars(p.as_str());
    let mut i: usize = 0;
    while i < paths.len()
        invariant
            i <= paths@.len(),
            pc@ == p@,
            forall|j: int| 0 <= j < i ==> !crate::text::eq_ignore_case(#[trigger] paths@[j]@, p@),
        decreases paths@.len() - i,
    {
        if crate::text::chars_eq_ignore_case(to_chars(paths[i].as_str()).as_slice(), pc.as_slice()) {
            return true;
        }
        i += 1;
    }
    false
}

/// Checks the reviewed decisions a batch carries against the current
/// report.
pub fn validate_explicit_resolutions(
    groups: &Vec<RenameConfirmationGroup>,
    mods_path: &str,
    watcher_events: &Vec<ModWatchEvent>,
) -> (r: Result<bool, AppError>)
    ensures
        match resolutions_outcome(groups@, mods_path@, watcher_events@) {
            Ok(b) => r == Ok::<bool, AppError>(b),
            Err(m) => r matches Err(AppError::Validation(e)) && e@ == m,
        },
{
    let ghost res = resolutions_of(watcher_events@);
    let mut count: usize = 0;
    let mut i: usize = 0;
    while i < watcher_events.len()
        invariant
            i <= watcher_events@.len(),
            count == resolutions_of(watcher_events@.take(i as int)).len(),
            count <= i,
        decreases watcher_events@.len() - i,
    {
        proof {
            reveal(Seq::filter);
            assert(watcher_events@.take(i + 1).drop_last() =~= watcher_events@.take(i as int));
            assert(watcher_events@.take(i + 1).last() == watcher_events@[i as int]);
        }
        if let ModWatchEvent::RenameResolution { .. } = &watcher_events[i] {
            count += 1;
        }
        i += 1;
    }
    assert(watcher_events@.take(watcher_events@.len() as int) =~= watcher_events@);
    if count == 0 {
        return Ok(false);
    }
    if count != groups.len() {
        return Err(AppError::Validation(String::from_str(
            "Rename confirmation report changed; review every current group again",
        )));
    }
    let mut seen: Vec<String> = Vec::new();
    let mut renamed: Vec<String> = Vec::new();
    let mut k: usize = 0;
    assert(watcher_events@.skip(0) =~= watcher_events@);
    assert(text_set(seen@) =~= Set::<Seq<char>>::empty());
    assert(text_set(renamed@) =~= Set::<Seq<char>>::empty());
    while k < watcher_events.len()
        invariant
            k <= watcher_events@.len(),
            res == resolutions_of(watcher_events@),
            res.len() == groups@.len(),
            check_resolutions(groups@, mods_path@, res, Set::empty(), Set::empty())
                == check_resolutions(groups@, mods_path@, resolutions_of(watcher_events@.skip(k as int)), text_set(seen@), text_set(renamed@)),
            crate::sets::distinct(seen@),
            crate::sets::distinct(renamed@),
        decreases watcher_events@.len() - k,
    {
        let ghost tail = watcher_events@.skip(k as int);
        let ghost rest = resolutions_of(watcher_events@.skip(k + 1));
        proof {
            lemma_filter_front(tail);
            assert(tail.drop_first() =~= watcher_events@.skip(k + 1));
            assert(tail[0] == watcher_events@[k as int]);
            assert((seq![tail[0]] + rest).drop_first() =~= rest);
            assert((seq![tail[0]] + rest)[0] == tail[0]);
        }
        match &watcher_events[k] {
            ModWatchEvent::RenameResolution { group_id, from, to, apply_as_rename } => {
                if crate::sets::contains_text(&seen, group_id) {
                    return Err(AppError::Validation(String::from_str("Duplicate rename confirmation group")));
                }
                let found = find_group(groups, group_id);
                let g = match found {
                    None => {
                        return Err(AppError::Validation(String::from_str(
                            "Rename confirmation report is stale; refresh and try again",
                        )));
                    },
                    Some(g) => g,
                };
                if *apply_as_rename {
                    if groups[g].candidates_truncated {
                        return Err(AppError::Validation(String::from_str(
                            "Rename candidates exceed the safe review limit; keep them separate or reduce the scope",
                        )));
                    }
                    let (f_raw, t_raw) = match (from, to) {
                        (Some(f), Some(t)) => (f, t),
                        _ => {
                            return Err(AppError::Validation(String::from_str(
                                "Confirmed rename requires both the previous and current path",
                            )));
                        },
                    };
                    let f = strip_base(f_raw.as_str(), mods_path);
                    let t = strip_base(t_raw.as_str(), mods_path);
                    if !list_has_ignoring_case(&groups[g].previous_paths, &f) || !list_has_ignoring_case(
                        &groups[g].current_paths,
                        &t,
                    ) {
                        return Err(AppError::Validation(String::from_str(
                            "Confirmed rename paths are not part of the current report",
                        )));
                    }
                    let lf = from_chars(crate::text::lower_chars(to_chars(f.as_str()).as_slice()).as_slice());
                    if crate::sets::contains_text(&renamed, &lf) {
                        return Err(AppError::Validation(String::from_str(
                            "The same previous folder cannot be assigned to more than one current folder",
                        )));
                    }
                    assert(lf@ == crate::text::lower(f@));
                    crate::sets::insert_distinct(&mut renamed, lf);
                }
                crate::sets::insert_distinct(&mut seen, group_id.clone());
            },
            _ => {},
        }
        k += 1;
    }
    assert(watcher_events@.skip(k as int).len() == 0);
    Ok(true)
}

/// Every entry carries a filesystem identity, and no two entries share one.
pub open spec fn fully_identified(s: Seq<RuntimeEntry>) -> bool {
    &&& forall|k: int| 0 <= k < s.len() ==> (#[trigger] s[k]).filesystem_identity is Some
    &&& forall|i: int, j: int| 0 <= i < j < s.len() ==> (#[trigger] s[i]).filesystem_identity->0@
        != (#[trigger] s[j]).filesystem_identity->0@
}

proof fn lemma_filter_members<A>(s: Seq<A>, pred: spec_fn(A) -> bool)
    ensures
        forall|i: int| 0 <= i < s.filter(pred).len() ==> exists|j: int| 0 <= j < s.len() && s[j] == #[trigger] s.filter(pred)[i],
    decreases s.len(),
{
    reveal(Seq::filter);
    if s.len() > 0 {
        lemma_filter_members(s.drop_last(), pred);
        let sub = s.drop_last().filter(pred);
        assert forall|i: int| 0 <= i < s.filter(pred).len() implies exists|j: int| 0 <= j < s.len() && s[j] == #[trigger] s.filter(pred)[i] by {
            if i < sub.len() {
                assert(s.filter(pred)[i] == sub[i]);
                let j = choose|j: int| 0 <= j < s.drop_last().len() && s.drop_last()[j] == #[trigger] sub[i];
                assert(s[j] == s.drop_last()[j]);
            } else {
                assert(s[s.len() - 1] == s.filter(pred)[i]);
            }
        }
    }
}

proof fn lemma_filter_single<A>(s: Seq<A>, pred: spec_fn(A) -> bool, k: int)
    requires
        0 <= k < s.len(),
        pred(s[k]),
        forall|j: int| 0 <= j < s.len() && j != k ==> !pred(#[trigger] s[j]),
    ensures
        s.filter(pred).len() == 1,
    decreases s.len(),
{
    reveal(Seq::filter);
    if k == s.len() - 1 {
        lemma_filter_none(s.drop_last(), pred);
    } else {
        assert forall|j: int| 0 <= j < s.drop_last().len() && j != k implies !pred(#[trigger] s.drop_last()[j]) by {
            assert(s.drop_last()[j] == s[j]);
        }
        assert(s.drop_last()[k] == s[k]);
        lemma_filter_single(s.drop_last(), pred, k);
        assert(!pred(s[s.len() - 1]));
    }
}

proof fn lemma_filter_none<A>(s: Seq<A>, pred: spec_fn(A) -> bool)
    requires
        forall|j: int| 0 <= j < s.len() ==> !pred(#[trigger] s[j]),
    ensures
        s.filter(pred).len() == 0,
    decreases s.len(),
{
    reveal(Seq::filter);
    if s.len() > 0 {
        assert forall|j: int| 0 <= j < s.drop_last().len() implies !pred(#[trigger] s.drop_last()[j]) by {
            assert(s.drop_last()[j] == s[j]);
        }
        lemma_filter_none(s.drop_last(), pred);
        assert(!pred(s[s.len() - 1]));
    }
}

proof fn lemma_identified_side(s: Seq<RuntimeEntry>, id: Seq<char>)
    requires
        fully_identified(s),
        seen_identity(s, id),
    ensures
        s.filter(with_identity(id)).len() == 1,
{
    let k = choose|k: int| 0 <= k < s.len() && has_identity(#[trigger] s[k], id);
    assert forall|j: int| 0 <= j < s.len() && j != k implies !with_identity(id)(#[trigger] s[j]) by {
        if j < k {
            assert(s[j].filesystem_identity->0@ != s[k].filesystem_identity->0@);
        } else {
            assert(s[k].filesystem_identity->0@ != s[j].filesystem_identity->0@);
        }
    }
    lemma_filter_single(s, with_identity(id), k);
}

proof fn lemma_no_identity_plans(previous: Seq<RuntimeEntry>, current: Seq<RuntimeEntry>, ids: Seq<Seq<char>>)
    requires
        fully_identified(previous),
        fully_identified(current),
    ensures
        identity_plans_for(previous, current, ids).len() == 0,
        identity_keys_for(previous, current, ids) == Set::<Seq<char>>::empty(),
    decreases ids.len(),
{
    if ids.len() > 0 {
        lemma_no_identity_plans(previous, current, ids.drop_last());
        let id = ids.last();
        if shared_identity(previous, current, id) {
            lemma_identified_side(previous, id);
            lemma_identified_side(current, id);
        }
        assert(!ambiguous_identity(previous, current, id));
        assert(identity_keys_for(previous, current, ids) =~= Set::<Seq<char>>::empty());
    }
}

proof fn lemma_filter_identified(s: Seq<RuntimeEntry>, pred: spec_fn(RuntimeEntry) -> bool)
    requires
        fully_identified(s),
    ensures
        !lacks_identity(s.filter(pred)),
{
    lemma_filter_members(s, pred);
    if lacks_identity(s.filter(pred)) {
        let k = choose|k: int| 0 <= k < s.filter(pred).len() && (#[trigger] s.filter(pred)[k]).filesystem_identity is None;
        let j = choose|j: int| 0 <= j < s.len() && s[j] == #[trigger] s.filter(pred)[k];
        assert(s[j].filesystem_identity is Some);
    }
}

proof fn lemma_no_missing_plans(previous: Seq<RuntimeEntry>, current: Seq<RuntimeEntry>, scopes: Seq<Seq<char>>)
    requires
        fully_identified(previous),
        fully_identified(current),
    ensures
        missing_plans_for(previous, current, scopes).len() == 0,
        scope_keys_for(previous, current, scopes) == Set::<Seq<char>>::empty(),
    decreases scopes.len(),
{
    if scopes.len() > 0 {
        lemma_no_missing_plans(previous, current, scopes.drop_last());
        let scope = scopes.last();
        lemma_filter_identified(previous, unpaired_previous_in(previous, current, scope));
        lemma_filter_identified(current, unpaired_current_in(previous, current, scope));
        assert(missing_scope_plans(previous, current, scope).len() == 0);
        assert(scope_keys_for(previous, current, scopes) =~= Set::<Seq<char>>::empty());
    }
}

/// Folders that all carry a filesystem identity, none shared within a side,
/// need no review: the detection of one kind over them yields no group and
/// holds no key back.
pub proof fn law_identified_distinct_folders_need_no_review(
    game_id: Seq<char>,
    kind: RenameConfirmationKind,
    previous: Seq<RuntimeEntry>,
    current: Seq<RuntimeEntry>,
    groups: Seq<RenameConfirmationGroup>,
    protected_keys: Seq<String>,
)
    requires
        fully_identified(previous),
        fully_identified(current),
        plans_built(groups, game_id, kind, rename_plans(previous, current)),
        text_set(protected_keys) == protected_keys_of(previous, current),
    ensures
        groups.len() == 0,
        protected_keys.len() == 0,
{
    lemma_no_identity_plans(previous, current, shared_identities(previous, current));
    lemma_no_missing_plans(previous, current, unpaired_scopes(previous, current));
    assert(rename_plans(previous, current).len() == 0);
    assert(protected_keys_of(previous, current) =~= Set::<Seq<char>>::empty());
    if protected_keys.len() > 0 {
        assert(views(protected_keys).contains(protected_keys[0]@)) by {
            assert(views(protected_keys)[0] == protected_keys[0]@);
        }
        assert(text_set(protected_keys).contains(protected_keys[0]@));
    }
}

/// Filtering a sequence for resolutions consumes its first element.
pub proof fn lemma_filter_front(s: Seq<ModWatchEvent>)
    requires
        s.len() > 0,
    ensures
        resolutions_of(s) == if is_resolution(s[0]) {
            seq![s[0]] + resolutions_of(s.drop_first())
        } else {
            resolutions_of(s.drop_first())
        },
{
    let p = resolution_filter();
    assert(s =~= seq![s[0]] + s.drop_first());
    Seq::filter_distributes_over_add(seq![s[0]], s.drop_first(), p);
    reveal(Seq::filter);
    assert(seq![s[0]].drop_last() =~= Seq::<ModWatchEvent>::empty());
    assert(Seq::<ModWatchEvent>::empty().filter(p) =~= Seq::<ModWatchEvent>::empty());
    if is_resolution(s[0]) {
        assert(seq![s[0]].filter(p) =~= seq![s[0]]);
    } else {
        assert(seq![s[0]].filter(p) =~= Seq::<ModWatchEvent>::empty());
        assert(Seq::<ModWatchEvent>::empty() + resolutions_of(s.drop_first()) =~= resolutions_of(s.drop_first()));
    }
}

/// `e` describes the folder at `path` of the given kind.
pub open spec fn entry_for(
    e: RuntimeEntry,
    kind: RenameConfirmationKind,
    path: Seq<char>,
    protected_key: Seq<char>,
    identity: Option<String>,
) -> bool {
    &&& e.path@ == path
    &&& e.logical_key@ == folder_key(path)
    &&& e.protected_key@ == protected_key
    &&& e.scope_key@ == scope_of(kind, path)
    &&& e.filesystem_identity == identity
}

fn make_entry(kind: RenameConfirmationKind, path: &String, protected_key: &String, identity: &Option<String>) -> (r: RuntimeEntry)
    ensures
        entry_for(r, kind, path@, protected_key@, *identity),
{
    RuntimeEntry {
        path: path.clone(),
        logical_key: folder_path_key(path.as_str()),
        protected_key: protected_key.clone(),
        scope_key: scope_key(kind, path.as_str()),
        filesystem_identity: crate::reconcile::snapshot::copy_opt(identity),
    }
}

/// The entries of stored object rows.
pub open spec fn object_row_entries(entries: Seq<RuntimeEntry>, rows: Seq<ReconcileObjectRow>) -> bool {
    entries.len() == rows.len() && forall|i: int| 0 <= i < rows.len() ==> entry_for(
        #[trigger] entries[i],
        RenameConfirmationKind::Object,
        rows[i].folder_path@,
        rows[i].folder_path_key@,
        rows[i].filesystem_identity,
    )
}

/// The entries of stored mod rows.
pub open spec fn mod_row_entries(entries: Seq<RuntimeEntry>, rows: Seq<ReconcileModRow>) -> bool {
    entries.len() == rows.len() && forall|i: int| 0 <= i < rows.len() ==> entry_for(
        #[trigger] entries[i],
        RenameConfirmationKind::Mod,
        rows[i].folder_path@,
        rows[i].folder_path_key@,
        rows[i].filesystem_identity,
    )
}

/// The entries of discovered object folders.
pub open spec fn disk_object_entries(entries: Seq<RuntimeEntry>, objects: Seq<DiskObjectEntry>) -> bool {
    entries.len() == objects.len() && forall|i: int| 0 <= i < objects.len() ==> entry_for(
        #[trigger] entries[i],
        RenameConfirmationKind::Object,
        objects[i].folder_path@,
        objects[i].folder_path_key@,
        objects[i].filesystem_identity,
    )
}

/// The entries of discovered mod folders.
pub open spec fn disk_mod_entries(entries: Seq<RuntimeEntry>, mods: Seq<DiskModEntry>) -> bool {
    entries.len() == mods.len() && forall|i: int| 0 <= i < mods.len() ==> entry_for(
        #[trigger] entries[i],
        RenameConfirmationKind::Mod,
        mods[i].folder_path@,
        mods[i].folder_path_key@,
        mods[i].filesystem_identity,
    )
}

fn object_rows_to_entries(rows: &Vec<ReconcileObjectRow>) -> (r: Vec<RuntimeEntry>)
    ensures
        object_row_entries(r@, rows@),
{
    let mut r: Vec<RuntimeEntry> = Vec::new();
    let mut i: usize = 0;
    while i < rows.len()
        invariant
            i <= rows@.len(),
            r@.len() == i,
            forall|j: int| 0 <= j < i ==> entry_for(#[trigger] r@[j], RenameConfirmationKind::Object, rows@[j].folder_path@, rows@[j].folder_path_key@, rows@[j].filesystem_identity),
        decreases rows@.len() - i,
    {
        r.push(make_entry(RenameConfirmationKind::Object, &rows[i].folder_path, &rows[i].folder_path_key, &rows[i].filesystem_identity));
        i += 1;
    }
    r
}

fn mod_rows_to_entries(rows: &Vec<ReconcileModRow>) -> (r: Vec<RuntimeEntry>)
    ensures
        mod_row_entries(r@, rows@),
{
    let mut r: Vec<RuntimeEntry> = Vec::new();
    let mut i: usize = 0;
    while i < rows.len()
        invariant
            i <= rows@.len(),
            r@.len() == i,
            forall|j: int| 0 <= j < i ==> entry_for(#[trigger] r@[j], RenameConfirmationKind::Mod, rows@[j].folder_path@, rows@[j].folder_path_key@, rows@[j].filesystem_identity),
        decreases rows@.len() - i,
    {
        r.push(make_entry(RenameConfirmationKind::Mod, &rows[i].folder_path, &rows[i].folder_path_key, &rows[i].filesystem_identity));
        i += 1;
    }
    r
}

fn disk_objects_to_entries(objects: &Vec<DiskObjectEntry>) -> (r: Vec<RuntimeEntry>)
    ensures
        disk_object_entries(r@, objects@),
{
    let mut r: Vec<RuntimeEntry> = Vec::new();
    let mut i: usize = 0;
    while i < objects.len()
        invariant
            i <= objects@.len(),
            r@.len() == i,
            forall|j: int| 0 <= j < i ==> entry_for(#[trigger] r@[j], RenameConfirmationKind::Object, objects@[j].folder_path@, objects@[j].folder_path_key@, objects@[j].filesystem_identity),
        decreases objects@.len() - i,
    {
        r.push(make_entry(RenameConfirmationKind::Object, &objects[i].folder_path, &objects[i].folder_path_key, &objects[i].filesystem_identity));
        i += 1;
    }
    r
}

fn disk_mods_to_entries(mods: &Vec<DiskModEntry>) -> (r: Vec<RuntimeEntry>)
    ensures
        disk_mod_entries(r@, mods@),
{
    let mut r: Vec<RuntimeEntry> = Vec::new();
    let mut i: usize = 0;
    while i < mods.len()
        invariant
            i <= mods@.len(),
            r@.len() == i,
            forall|j: int| 0 <= j < i ==> entry_for(#[trigger] r@[j], RenameConfirmationKind::Mod, mods@[j].folder_path@, mods@[j].folder_path_key@, mods@[j].filesystem_identity),
        decreases mods@.len() - i,
    {
        r.push(make_entry(RenameConfirmationKind::Mod, &mods[i].folder_path, &mods[i].folder_path_key, &mods[i].filesystem_identity));
        i += 1;
    }
    r
}

/// Groups sort by id.
pub open spec fn group_id_key() -> spec_fn(RenameConfirmationGroup) -> Seq<char> {
    |g: RenameConfirmationGroup| g.group_id@
}

/// The groups stably sorted by id.
pub fn sort_groups_by_id(groups: Vec<RenameConfirmationGroup>) -> (r: Vec<RenameConfirmationGroup>)
    ensures
        r@ == sort_by_key(groups@, group_id_key()),
{
    let ghost original = groups@;
    let ghost total: usize = groups.len();
    let mut input = groups;
    let mut sorted: Vec<RenameConfirmationGroup> = Vec::new();
    let mut done: usize = 0;
    assert(original.skip(0) =~= original);
    while input.len() > 0
        invariant
            done <= original.len(),
            original.len() == total,
            input@ == original.skip(done as int),
            sorted@ == sort_by_key(original.take(done as int), group_id_key()),
        decreases input@.len(),
    {
        let x = input.remove(0);
        proof {
            assert(x == original[done as int]);
            assert(original.skip(done as int).remove(0) =~= original.skip(done + 1));
            assert(original.take(done + 1).drop_last() =~= original.take(done as int));
            assert(original.take(done + 1).last() == x);
        }
        let xk = to_chars(x.group_id.as_str());
        let mut j: usize = sorted.len();
        while j > 0 && !crate::order::chars_le(to_chars(sorted[j - 1].group_id.as_str()).as_slice(), xk.as_slice())
            invariant
                j <= sorted@.len(),
                xk@ == x.group_id@,
                forall|k: int| j <= k < sorted@.len() ==> !crate::order::text_le((#[trigger] sorted@[k]).group_id@, x.group_id@),
            decreases j,
        {
            j -= 1;
        }
        proof {
            let key = group_id_key();
            assert forall|k: int| j <= k < sorted@.len() implies !crate::order::text_le(key(#[trigger] sorted@[k]), key(x)) by {}
            crate::order::lemma_insert_at(sorted@, x, key, j as int);
            assert(sorted@.insert(j as int, x) =~= sorted@.take(j as int) + seq![x] + sorted@.skip(j as int));
        }
        sorted.insert(j, x);
        done += 1;
    }
    assert(original.take(original.len() as int) =~= original);
    sorted
}

/// The reviews of a pass: object and mod groups sorted by id, and the keys
/// each kind holds back.
#[derive(Debug)]
pub struct RenameConfirmationDetection {
    pub groups: Vec<RenameConfirmationGroup>,
    pub protected_object_keys: Vec<String>,
    pub protected_mod_keys: Vec<String>,
}

/// What detection gives for the entries of the stored rows and the
/// discovery.
pub open spec fn detection_of(
    r: RenameConfirmationDetection,
    game_id: Seq<char>,
    previous_objects: Seq<RuntimeEntry>,
    current_objects: Seq<RuntimeEntry>,
    previous_mods: Seq<RuntimeEntry>,
    current_mods: Seq<RuntimeEntry>,
) -> bool {
    exists|object_groups: Seq<RenameConfirmationGroup>, mod_groups: Seq<RenameConfirmationGroup>|
        #![trigger plans_built(object_groups, game_id, RenameConfirmationKind::Object, rename_plans(previous_objects, current_objects)), plans_built(mod_groups, game_id, RenameConfirmationKind::Mod, rename_plans(previous_mods, current_mods))]
        plans_built(object_groups, game_id, RenameConfirmationKind::Object, rename_plans(previous_objects, current_objects))
        && plans_built(mod_groups, game_id, RenameConfirmationKind::Mod, rename_plans(previous_mods, current_mods))
        && r.groups@ == sort_by_key(object_groups + mod_groups, group_id_key())
        && text_set(r.protected_object_keys@) == protected_keys_of(previous_objects, current_objects)
        && text_set(r.protected_mod_keys@) == protected_keys_of(previous_mods, current_mods)
}

/// Compares the stored rows of a game with a discovery and reports the
/// rename decisions a person must make.
pub fn detect_rename_confirmations_with_protection_from_rows(
    game_id: &str,
    projection: &DiskProjection,
    objects: &Vec<ReconcileObjectRow>,
    mods: &Vec<ReconcileModRow>,
) -> (r: RenameConfirmationDetection)
    ensures
        exists|po: Seq<RuntimeEntry>, co: Seq<RuntimeEntry>, pm: Seq<RuntimeEntry>, cm: Seq<RuntimeEntry>|
            #![trigger object_row_entries(po, objects@), disk_object_entries(co, projection.objects@), mod_row_entries(pm, mods@), disk_mod_entries(cm, projection.mods@)]
            object_row_entries(po, objects@) && disk_object_entries(co, projection.objects@)
            && mod_row_entries(pm, mods@) && disk_mod_entries(cm, projection.mods@)
            && detection_of(r, game_id@, po, co, pm, cm),
{
    let previous_objects = object_rows_to_entries(objects);
    let current_objects = disk_objects_to_entries(&projection.objects);
    let previous_mods = mod_rows_to_entries(mods);
    let current_mods = disk_mods_to_entries(&projection.mods);
    let object_detection = detect_kind(game_id, RenameConfirmationKind::Object, &previous_objects, &current_objects);
    let mod_detection = detect_kind(game_id, RenameConfirmationKind::Mod, &previous_mods, &current_mods);
    let KindDetection { groups: object_groups, protected_keys: protected_object_keys } = object_detection;
    let KindDetection { groups: mut mod_groups, protected_keys: protected_mod_keys } = mod_detection;
    let ghost og = object_groups@;
    let ghost mg = mod_groups@;
    let mut all = object_groups;
    all.append(&mut mod_groups);
    let groups = sort_groups_by_id(all);
    let r = RenameConfirmationDetection { groups, protected_object_keys, protected_mod_keys };
    assert(detection_of(r, game_id@, previous_objects@, current_objects@, previous_mods@, current_mods@));
    assert(object_row_entries(previous_objects@, objects@) && disk_object_entries(current_objects@, projection.objects@)
        && mod_row_entries(previous_mods@, mods@) && disk_mod_entries(current_mods@, projection.mods@));
    r
}

/// The group a reviewed decision names.
pub open spec fn decided_group(e: ModWatchEvent) -> Seq<char> {
    match e {
        ModWatchEvent::RenameResolution { group_id, .. } => group_id@,
        _ => Seq::empty(),
    }
}

/// Whether a reviewed decision confirms a rename.
pub open spec fn confirms_rename(e: ModWatchEvent) -> bool {
    match e {
        ModWatchEvent::RenameResolution { apply_as_rename, .. } => apply_as_rename,
        _ => false,
    }
}

/// The previous folder a confirmed rename assigns, relative to `base` and
/// case-folded.
pub open spec fn assigned_previous(e: ModWatchEvent, base: Seq<char>) -> Seq<char> {
    match e {
        ModWatchEvent::RenameResolution { from, .. } => crate::text::lower(relative_to(from->0@, base)),
        _ => Seq::empty(),
    }
}

/// A decision on its own is acceptable: it names a group of the report,
/// and a confirmed rename targets a group listing all its candidates, with
/// both ends given, the previous folder among the group's previous paths
/// and the current folder among its current paths, ignoring case.
pub open spec fn decision_acceptable(groups: Seq<RenameConfirmationGroup>, base: Seq<char>, e: ModWatchEvent) -> bool {
    match e {
        ModWatchEvent::RenameResolution { group_id, from, to, apply_as_rename } => {
            let g = group_index(groups, group_id@);
            &&& g >= 0
            &&& apply_as_rename ==> {
                &&& !groups[g].candidates_truncated
                &&& from is Some && to is Some
                &&& listed_ignoring_case(groups[g].previous_paths@, relative_to(from->0@, base))
                &&& listed_ignoring_case(groups[g].current_paths@, relative_to(to->0@, base))
            }
        },
        _ => false,
    }
}

/// The decisions are consistent, given the groups already decided and the
/// previous folders already assigned: each is acceptable, no group is
/// decided twice, and no previous folder is assigned twice.
pub open spec fn decisions_consistent(
    groups: Seq<RenameConfirmationGroup>,
    base: Seq<char>,
    res: Seq<ModWatchEvent>,
    seen: Set<Seq<char>>,
    renamed: Set<Seq<char>>,
) -> bool {
    &&& forall|i: int| 0 <= i < res.len() ==> decision_acceptable(groups, base, #[trigger] res[i])
        && !seen.contains(decided_group(res[i]))
    &&& forall|i: int, j: int| 0 <= i < j < res.len() ==> decided_group(#[trigger] res[i]) != decided_group(#[trigger] res[j])
    &&& forall|i: int| 0 <= i < res.len() && confirms_rename(#[trigger] res[i]) ==> !renamed.contains(assigned_previous(res[i], base))
    &&& forall|i: int, j: int| 0 <= i < j < res.len() && confirms_rename(#[trigger] res[i]) && confirms_rename(#[trigger] res[j])
        ==> assigned_previous(res[i], base) != assigned_previous(res[j], base)
}

proof fn lemma_check_resolutions(
    groups: Seq<RenameConfirmationGroup>,
    base: Seq<char>,
    res: Seq<ModWatchEvent>,
    seen: Set<Seq<char>>,
    renamed: Set<Seq<char>>,
)
    requires
        forall|i: int| 0 <= i < res.len() ==> is_resolution(#[trigger] res[i]),
    ensures
        check_resolutions(groups, base, res, seen, renamed) is None <==> decisions_consistent(groups, base, res, seen, renamed),
    decreases res.len(),
{
    if res.len() > 0 {
        let e = res[0];
        let rest = res.drop_first();
        assert forall|i: int| 0 <= i < rest.len() implies is_resolution(#[trigger] rest[i]) by {
            assert(rest[i] == res[i + 1]);
        }
        let id = decided_group(e);
        let key = assigned_previous(e, base);
        let seen2 = seen.insert(id);
        let renamed2 = if confirms_rename(e) { renamed.insert(key) } else { renamed };
        lemma_check_resolutions(groups, base, rest, seen2, renamed2);
        let whole = decisions_consistent(groups, base, res, seen, renamed);
        let tail = decisions_consistent(groups, base, rest, seen2, renamed2);
        let head = decision_acceptable(groups, base, e) && !seen.contains(id) && (confirms_rename(e) ==> !renamed.contains(key));
        assert(whole <==> (head && tail)) by {
            if whole {
                assert(decision_acceptable(groups, base, res[0]) && !seen.contains(decided_group(res[0])));
                assert forall|i: int| 0 <= i < rest.len() implies decision_acceptable(groups, base, #[trigger] rest[i])
                    && !seen2.contains(decided_group(rest[i])) by {
                    assert(rest[i] == res[i + 1]);
                    assert(decided_group(res[0]) != decided_group(res[i + 1]));
                }
                assert forall|i: int, j: int| 0 <= i < j < rest.len() implies decided_group(#[trigger] rest[i]) != decided_group(#[trigger] rest[j]) by {
                    assert(rest[i] == res[i + 1] && rest[j] == res[j + 1]);
                }
                assert forall|i: int| 0 <= i < rest.len() && confirms_rename(#[trigger] rest[i]) implies !renamed2.contains(assigned_previous(rest[i], base)) by {
                    assert(rest[i] == res[i + 1]);
                    if confirms_rename(e) {
                        assert(assigned_previous(res[0], base) != assigned_previous(res[i + 1], base));
                    }
                }
                assert forall|i: int, j: int| 0 <= i < j < rest.len() && confirms_rename(#[trigger] rest[i]) && confirms_rename(#[trigger] rest[j])
                    implies assigned_previous(rest[i], base) != assigned_previous(rest[j], base) by {
                    assert(rest[i] == res[i + 1] && rest[j] == res[j + 1]);
                }
                if confirms_rename(e) {
                    assert(confirms_rename(res[0]));
                }
            }
            if head && tail {
                assert forall|i: int| 0 <= i < res.len() implies decision_acceptable(groups, base, #[trigger] res[i])
                    && !seen.contains(decided_group(res[i])) by {
                    if i > 0 {
                        assert(res[i] == rest[i - 1]);
                    }
                }
                assert forall|i: int, j: int| 0 <= i < j < res.len() implies decided_group(#[trigger] res[i]) != decided_group(#[trigger] res[j]) by {
                    assert(res[j] == rest[j - 1]);
                    if i > 0 {
                        assert(res[i] == rest[i - 1]);
                    } else {
                        assert(!seen2.contains(decided_group(rest[j - 1])));
                    }
                }
                assert forall|i: int| 0 <= i < res.len() && confirms_rename(#[trigger] res[i]) implies !renamed.contains(assigned_previous(res[i], base)) by {
                    if i > 0 {
                        assert(res[i] == rest[i - 1]);
                    }
                }
                assert forall|i: int, j: int| 0 <= i < j < res.len() && confirms_rename(#[trigger] res[i]) && confirms_rename(#[trigger] res[j])
                    implies assigned_previous(res[i], base) != assigned_previous(res[j], base) by {
                    assert(res[j] == rest[j - 1]);
                    if i > 0 {
                        assert(res[i] == rest[i - 1]);
                    } else {
                        assert(!renamed2.contains(assigned_previous(rest[j - 1], base)));
                    }
                }
            }
        }
        assert(is_resolution(res[0]));
    }
}

/// When the reviewed decisions of a batch are accepted: none gives
/// `Ok(false)`; otherwise `Ok(true)` comes exactly when there is one
/// decision per group of the report, each names a group and is acceptable
/// on its own, no group is decided twice, and no previous folder is
/// assigned to two current folders.
pub proof fn law_resolutions_accepted_exactly_when_consistent(
    groups: Seq<RenameConfirmationGroup>,
    mods_path: Seq<char>,
    events: Seq<ModWatchEvent>,
)
    ensures
        resolutions_of(events).len() == 0 ==> resolutions_outcome(groups, mods_path, events) == Ok::<bool, Seq<char>>(false),
        resolutions_of(events).len() > 0 ==> (resolutions_outcome(groups, mods_path, events) == Ok::<bool, Seq<char>>(true) <==> {
            &&& resolutions_of(events).len() == groups.len()
            &&& decisions_consistent(groups, mods_path, resolutions_of(events), Set::empty(), Set::empty())
        }),
{
    let res = resolutions_of(events);
    events.filter_lemma(resolution_filter());
    assert forall|i: int| 0 <= i < res.len() implies is_resolution(#[trigger] res[i]) by {
        assert(resolution_filter()(res[i]));
    }
    lemma_check_resolutions(groups, mods_path, res, Set::empty(), Set::empty());
}

/// Every element of `a` is an element of `b`.
pub open spec fn drawn_from(a: Seq<Seq<char>>, b: Seq<Seq<char>>) -> bool {
    forall|i: int| 0 <= i < a.len() ==> b.contains(#[trigger] a[i])
}

proof fn lemma_insert_drawn(s: Seq<Seq<char>>, x: Seq<char>, key: spec_fn(Seq<char>) -> Seq<char>, b: Seq<Seq<char>>)
    requires
        drawn_from(s, b),
        b.contains(x),
    ensures
        drawn_from(crate::order::insert_by_key(s, x, key), b),
    decreases s.len(),
{
    let r = crate::order::insert_by_key(s, x, key);
    if s.len() > 0 && !crate::order::text_le(key(s.last()), key(x)) {
        assert forall|i: int| 0 <= i < s.drop_last().len() implies b.contains(#[trigger] s.drop_last()[i]) by {
            assert(s.drop_last()[i] == s[i]);
        }
        lemma_insert_drawn(s.drop_last(), x, key, b);
        let t = crate::order::insert_by_key(s.drop_last(), x, key);
        assert forall|i: int| 0 <= i < r.len() implies b.contains(#[trigger] r[i]) by {
            if i < t.len() {
                assert(r[i] == t[i]);
            } else {
                assert(r[i] == s[s.len() - 1]);
            }
        }
    } else if s.len() > 0 {
        assert forall|i: int| 0 <= i < r.len() implies b.contains(#[trigger] r[i]) by {
            if i < s.len() {
                assert(r[i] == s[i]);
            }
        }
    }
}

proof fn lemma_sort_drawn(s: Seq<Seq<char>>, key: spec_fn(Seq<char>) -> Seq<char>)
    ensures
        drawn_from(sort_by_key(s, key), s),
    decreases s.len(),
{
    if s.len() > 0 {
        lemma_sort_drawn(s.drop_last(), key);
        let d = sort_by_key(s.drop_last(), key);
        assert forall|i: int| 0 <= i < d.len() implies s.contains(#[trigger] d[i]) by {
            let k = choose|k: int| 0 <= k < s.drop_last().len() && s.drop_last()[k] == d[i];
            assert(s[k] == s.drop_last()[k]);
        }
        assert(s.contains(s.last())) by {
            assert(s[s.len() - 1] == s.last());
        }
        lemma_insert_drawn(d, s.last(), key, s);
    }
}

proof fn lemma_dedup_drawn(s: Seq<Seq<char>>)
    ensures
        drawn_from(dedup_ignore_case(s), s),
    decreases s.len(),
{
    if s.len() > 0 {
        lemma_dedup_drawn(s.drop_last());
        let d = dedup_ignore_case(s.drop_last());
        let r = dedup_ignore_case(s);
        assert forall|i: int| 0 <= i < r.len() implies s.contains(#[trigger] r[i]) by {
            if i < d.len() {
                assert(r[i] == d[i]);
                let k = choose|k: int| 0 <= k < s.drop_last().len() && s.drop_last()[k] == d[i];
                assert(s[k] == s.drop_last()[k]);
            } else {
                assert(r[i] == s[s.len() - 1]);
            }
        }
    }
}

proof fn lemma_drawn_trans(a: Seq<Seq<char>>, b: Seq<Seq<char>>, c: Seq<Seq<char>>)
    requires
        drawn_from(a, b),
        drawn_from(b, c),
    ensures
        drawn_from(a, c),
{
    assert forall|i: int| 0 <= i < a.len() implies c.contains(#[trigger] a[i]) by {
        let k = choose|k: int| 0 <= k < b.len() && b[k] == a[i];
        assert(c.contains(b[k]));
    }
}

proof fn lemma_shown_drawn(paths: Seq<Seq<char>>)
    ensures
        drawn_from(capped(listed(paths)), paths),
{
    lemma_sort_drawn(paths, crate::order::text_key(true));
    lemma_dedup_drawn(stable_sort(paths, true));
    lemma_drawn_trans(listed(paths), stable_sort(paths, true), paths);
    let l = listed(paths);
    assert(drawn_from(capped(l), l)) by {
        assert forall|i: int| 0 <= i < capped(l).len() implies l.contains(#[trigger] capped(l)[i]) by {
            assert(capped(l)[i] == l[i]);
        }
    }
    lemma_drawn_trans(capped(l), l, paths);
}

proof fn lemma_filter_paths_drawn(s: Seq<RuntimeEntry>, pred: spec_fn(RuntimeEntry) -> bool)
    ensures
        drawn_from(paths_of(s.filter(pred)), paths_of(s)),
{
    lemma_filter_members(s, pred);
    let f = s.filter(pred);
    assert forall|i: int| 0 <= i < paths_of(f).len() implies paths_of(s).contains(#[trigger] paths_of(f)[i]) by {
        let j = choose|j: int| 0 <= j < s.len() && s[j] == #[trigger] f[i];
        assert(paths_of(s)[j] == paths_of(f)[i]);
    }
}

/// A plan lists only paths of the entries it was made from.
pub open spec fn plan_drawn_from(plan: ReviewPlan, previous: Seq<RuntimeEntry>, current: Seq<RuntimeEntry>) -> bool {
    drawn_from(plan.2, paths_of(previous)) && drawn_from(plan.3, paths_of(current))
}

pub open spec fn plans_drawn_from(plans: Seq<ReviewPlan>, previous: Seq<RuntimeEntry>, current: Seq<RuntimeEntry>) -> bool {
    forall|k: int| 0 <= k < plans.len() ==> plan_drawn_from(#[trigger] plans[k], previous, current)
}

proof fn lemma_concat_drawn(a: Seq<ReviewPlan>, b: Seq<ReviewPlan>, previous: Seq<RuntimeEntry>, current: Seq<RuntimeEntry>)
    requires
        plans_drawn_from(a, previous, current),
        plans_drawn_from(b, previous, current),
    ensures
        plans_drawn_from(a + b, previous, current),
{
    assert forall|k: int| 0 <= k < (a + b).len() implies plan_drawn_from(#[trigger] (a + b)[k], previous, current) by {
        if k < a.len() {
            assert((a + b)[k] == a[k]);
        } else {
            assert((a + b)[k] == b[k - a.len()]);
        }
    }
}

proof fn lemma_identity_plans_drawn(previous: Seq<RuntimeEntry>, current: Seq<RuntimeEntry>, ids: Seq<Seq<char>>)
    ensures
        plans_drawn_from(identity_plans_for(previous, current, ids), previous, current),
    decreases ids.len(),
{
    if ids.len() > 0 {
        lemma_identity_plans_drawn(previous, current, ids.drop_last());
        let id = ids.last();
        let ps = identity_plans(previous, current, id);
        assert forall|k: int| 0 <= k < ps.len() implies plan_drawn_from(#[trigger] ps[k], previous, current) by {
            let scope = identity_scopes(current, id)[k];
            lemma_filter_paths_drawn(previous, with_identity(id));
            lemma_filter_paths_drawn(current, with_identity_in_scope(id, scope));
        }
        lemma_concat_drawn(identity_plans_for(previous, current, ids.drop_last()), ps, previous, current);
    }
}

proof fn lemma_missing_plans_drawn(previous: Seq<RuntimeEntry>, current: Seq<RuntimeEntry>, scopes: Seq<Seq<char>>)
    ensures
        plans_drawn_from(missing_plans_for(previous, current, scopes), previous, current),
    decreases scopes.len(),
{
    if scopes.len() > 0 {
        lemma_missing_plans_drawn(previous, current, scopes.drop_last());
        let scope = scopes.last();
        let ps = missing_scope_plans(previous, current, scope);
        lemma_filter_paths_drawn(previous, unpaired_previous_in(previous, current, scope));
        lemma_filter_paths_drawn(current, unpaired_current_in(previous, current, scope));
        assert forall|k: int| 0 <= k < ps.len() implies plan_drawn_from(#[trigger] ps[k], previous, current) by {}
        lemma_concat_drawn(missing_plans_for(previous, current, scopes.drop_last()), ps, previous, current);
    }
}

/// Each group lists only paths drawn from its plan's sides, and has the kind asked for.
pub open spec fn groups_drawn_from(groups: Seq<RenameConfirmationGroup>, kind: RenameConfirmationKind, previous: Seq<RuntimeEntry>, current: Seq<RuntimeEntry>) -> bool {
    forall|i: int| 0 <= i < groups.len() ==> (#[trigger] groups[i]).kind == kind
        && drawn_from(views(groups[i].previous_paths@), paths_of(previous))
        && drawn_from(views(groups[i].current_paths@), paths_of(current))
}

proof fn lemma_groups_drawn(
    groups: Seq<RenameConfirmationGroup>,
    game_id: Seq<char>,
    kind: RenameConfirmationKind,
    plans: Seq<ReviewPlan>,
    previous: Seq<RuntimeEntry>,
    current: Seq<RuntimeEntry>,
)
    requires
        plans_built(groups, game_id, kind, plans),
        plans_drawn_from(plans, previous, current),
    ensures
        groups_drawn_from(groups, kind, previous, current),
    decreases plans.len(),
{
    if plans.len() > 0 {
        let plan = plans.last();
        let n = plan_size(plan);
        let head = groups.take(groups.len() - n);
        let tail = groups.skip(groups.len() - n);
        assert forall|k: int| 0 <= k < plans.drop_last().len() implies plan_drawn_from(#[trigger] plans.drop_last()[k], previous, current) by {
            assert(plans.drop_last()[k] == plans[k]);
        }
        lemma_groups_drawn(head, game_id, kind, plans.drop_last(), previous, current);
        assert(plan_drawn_from(plans[plans.len() - 1], previous, current));
        lemma_shown_drawn(plan.2);
        lemma_drawn_trans(capped(listed(plan.2)), plan.2, paths_of(previous));
        assert forall|i: int| 0 <= i < groups.len() implies (#[trigger] groups[i]).kind == kind
            && drawn_from(views(groups[i].previous_paths@), paths_of(previous))
            && drawn_from(views(groups[i].current_paths@), paths_of(current)) by {
            if i < groups.len() - n {
                assert(groups[i] == head[i]);
            } else {
                let t = i - (groups.len() - n);
                assert(groups[i] == tail[t]);
                if oversized(plan.2.len() as int, plan.3.len() as int) {
                    lemma_shown_drawn(plan.3);
                    lemma_drawn_trans(capped(listed(plan.3)), plan.3, paths_of(current));
                } else {
                    let one = seq![plan.3[t]];
                    assert(group_built(tail[t], game_id, kind, plan.0, plan.1, plan.2, one, false));
                    lemma_shown_drawn(one);
                    assert(drawn_from(one, plan.3)) by {
                        assert(one[0] == plan.3[t]);
                    }
                    lemma_drawn_trans(one, plan.3, paths_of(current));
                    lemma_drawn_trans(capped(listed(one)), one, paths_of(current));
                }
            }
        }
    }
}

/// Every group a detection of one kind reports has that kind and lists
/// only paths of the folders it was given: previous paths from the
/// previous folders, current paths from the current ones.
pub proof fn law_review_groups_list_only_given_folders(
    game_id: Seq<char>,
    kind: RenameConfirmationKind,
    previous: Seq<RuntimeEntry>,
    current: Seq<RuntimeEntry>,
    groups: Seq<RenameConfirmationGroup>,
)
    requires
        plans_built(groups, game_id, kind, rename_plans(previous, current)),
    ensures
        groups_drawn_from(groups, kind, previous, current),
{
    lemma_identity_plans_drawn(previous, current, shared_identities(previous, current));
    lemma_missing_plans_drawn(previous, current, unpaired_scopes(previous, current));
    lemma_concat_drawn(
        identity_plans_for(previous, current, shared_identities(previous, current)),
        missing_plans_for(previous, current, unpaired_scopes(previous, current)),
        previous,
        current,
    );
    lemma_groups_drawn(groups, game_id, kind, rename_plans(previous, current), previous, current);
}

proof fn lemma_unique_drawn(s: Seq<Seq<char>>)
    ensures
        drawn_from(unique(s), s),
    decreases s.len(),
{
    if s.len() > 0 {
        lemma_unique_drawn(s.drop_last());
        let u = unique(s.drop_last());
        let r = unique(s);
        assert forall|i: int| 0 <= i < r.len() implies s.contains(#[trigger] r[i]) by {
            if i < u.len() {
                assert(r[i] == u[i]);
                let k = choose|k: int| 0 <= k < s.drop_last().len() && s.drop_last()[k] == u[i];
                assert(s[k] == s.drop_last()[k]);
            } else {
                assert(r[i] == s[s.len() - 1]);
            }
        }
    }
}

/// A list as a group shows it keeps a path of a non-empty list, and exactly
/// the one path of a single-path list.
proof fn lemma_listed_len(paths: Seq<Seq<char>>)
    ensures
        paths.len() >= 1 ==> listed(paths).len() >= 1,
        paths.len() == 1 ==> listed(paths).len() == 1,
{
    let sorted = stable_sort(paths, true);
    crate::order::lemma_sort_len(paths, crate::order::text_key(true));
    if sorted.len() == 1 {
        assert(sorted.drop_last().len() == 0);
        assert(dedup_ignore_case(sorted.drop_last()).len() == 0);
    }
}

/// Some entry of `s` that `pred` keeps and whose scope is `scope`, when
/// `scope` is among the sorted distinct scopes of those entries.
proof fn lemma_scope_member(s: Seq<RuntimeEntry>, pred: spec_fn(RuntimeEntry) -> bool, scope: Seq<char>) -> (k: int)
    requires
        stable_sort(unique(scopes_of(s.filter(pred))), false).contains(scope),
    ensures
        0 <= k < s.len(),
        pred(s[k]),
        s[k].scope_key@ == scope,
{
    let f = s.filter(pred);
    let u = unique(scopes_of(f));
    lemma_sort_drawn(u, crate::order::text_key(false));
    lemma_unique_drawn(scopes_of(f));
    let a = choose|a: int| 0 <= a < stable_sort(u, false).len() && stable_sort(u, false)[a] == scope;
    assert(u.contains(stable_sort(u, false)[a]));
    let b = choose|b: int| 0 <= b < u.len() && u[b] == scope;
    assert(scopes_of(f).contains(u[b]));
    let j = choose|j: int| 0 <= j < scopes_of(f).len() && scopes_of(f)[j] == scope;
    s.lemma_filter_pred(pred, j);
    lemma_filter_members(s, pred);
    let k = choose|k: int| 0 <= k < s.len() && s[k] == #[trigger] f[j];
    k
}

/// Both sides of a plan list at least one path.
pub open spec fn plan_sides_listed(plan: ReviewPlan) -> bool {
    plan.2.len() >= 1 && plan.3.len() >= 1
}

proof fn lemma_identity_plans_listed(previous: Seq<RuntimeEntry>, current: Seq<RuntimeEntry>, ids: Seq<Seq<char>>)
    ensures
        forall|k: int| 0 <= k < identity_plans_for(previous, current, ids).len() ==> plan_sides_listed(
            #[trigger] identity_plans_for(previous, current, ids)[k],
        ),
    decreases ids.len(),
{
    if ids.len() > 0 {
        lemma_identity_plans_listed(previous, current, ids.drop_last());
        let id = ids.last();
        let head = identity_plans_for(previous, current, ids.drop_last());
        let ps = identity_plans(previous, current, id);
        assert forall|k: int| 0 <= k < ps.len() implies plan_sides_listed(#[trigger] ps[k]) by {
            let scope = identity_scopes(current, id)[k];
            let p = choose|p: int| 0 <= p < previous.len() && has_identity(#[trigger] previous[p], id);
            previous.lemma_filter_contains(with_identity(id), p);
            assert(identity_scopes(current, id).contains(scope));
            let c = lemma_scope_member(current, with_identity(id), scope);
            current.lemma_filter_contains(with_identity_in_scope(id, scope), c);
        }
        let all = head + ps;
        assert forall|k: int| 0 <= k < all.len() implies plan_sides_listed(#[trigger] all[k]) by {
            if k < head.len() {
                assert(all[k] == head[k]);
            } else {
                assert(all[k] == ps[k - head.len()]);
            }
        }
    }
}

proof fn lemma_missing_plans_listed(previous: Seq<RuntimeEntry>, current: Seq<RuntimeEntry>, scopes: Seq<Seq<char>>)
    requires
        forall|k: int| 0 <= k < scopes.len() ==> unpaired_scopes(previous, current).contains(#[trigger] scopes[k]),
    ensures
        forall|k: int| 0 <= k < missing_plans_for(previous, current, scopes).len() ==> plan_sides_listed(
            #[trigger] missing_plans_for(previous, current, scopes)[k],
        ),
    decreases scopes.len(),
{
    if scopes.len() > 0 {
        assert forall|k: int| 0 <= k < scopes.drop_last().len() implies unpaired_scopes(previous, current).contains(
            #[trigger] scopes.drop_last()[k],
        ) by {
            assert(scopes.drop_last()[k] == scopes[k]);
        }
        lemma_missing_plans_listed(previous, current, scopes.drop_last());
        let scope = scopes.last();
        let head = missing_plans_for(previous, current, scopes.drop_last());
        let ps = missing_scope_plans(previous, current, scope);
        if ps.len() > 0 {
            assert(unpaired_scopes(previous, current).contains(scopes[scopes.len() - 1]));
            let e = lemma_scope_member(previous, unpaired_previous(previous, current), scope);
            previous.lemma_filter_contains(unpaired_previous_in(previous, current, scope), e);
            assert(plan_sides_listed(ps[0]));
        }
        let all = head + ps;
        assert forall|k: int| 0 <= k < all.len() implies plan_sides_listed(#[trigger] all[k]) by {
            if k < head.len() {
                assert(all[k] == head[k]);
            } else {
                assert(all[k] == ps[k - head.len()]);
            }
        }
    }
}

/// Each group lists a previous and a current path, and a group whose
/// candidates were not cut short lists exactly one current path.
pub open spec fn groups_counted(groups: Seq<RenameConfirmationGroup>) -> bool {
    forall|i: int| 0 <= i < groups.len() ==> (#[trigger] groups[i]).previous_path_count >= 1
        && groups[i].current_path_count >= 1 && (!groups[i].candidates_truncated ==> groups[i].current_paths@.len() == 1)
}

proof fn lemma_groups_counted(
    groups: Seq<RenameConfirmationGroup>,
    game_id: Seq<char>,
    kind: RenameConfirmationKind,
    plans: Seq<ReviewPlan>,
)
    requires
        plans_built(groups, game_id, kind, plans),
        forall|k: int| 0 <= k < plans.len() ==> plan_sides_listed(#[trigger] plans[k]),
    ensures
        groups_counted(groups),
    decreases plans.len(),
{
    if plans.len() > 0 {
        let plan = plans.last();
        let n = plan_size(plan);
        let head = groups.take(groups.len() - n);
        let tail = groups.skip(groups.len() - n);
        assert forall|k: int| 0 <= k < plans.drop_last().len() implies plan_sides_listed(#[trigger] plans.drop_last()[k]) by {
            assert(plans.drop_last()[k] == plans[k]);
        }
        lemma_groups_counted(head, game_id, kind, plans.drop_last());
        assert(plan_sides_listed(plans[plans.len() - 1]));
        lemma_listed_len(plan.2);
        lemma_listed_len(plan.3);
        assert forall|i: int| 0 <= i < groups.len() implies (#[trigger] groups[i]).previous_path_count >= 1
            && groups[i].current_path_count >= 1 && (!groups[i].candidates_truncated ==> groups[i].current_paths@.len()
            == 1) by {
            if i < groups.len() - n {
                assert(groups[i] == head[i]);
            } else {
                let t = i - (groups.len() - n);
                assert(groups[i] == tail[t]);
                if !oversized(plan.2.len() as int, plan.3.len() as int) {
                    let one = seq![plan.3[t]];
                    assert(group_built(tail[t], game_id, kind, plan.0, plan.1, plan.2, one, false));
                    lemma_listed_len(one);
                    assert(views(tail[t].current_paths@).len() == 1);
                }
            }
        }
    }
}

/// Every review group of a detection lists at least one previous and one
/// current path, and a group whose candidates were not cut short offers
/// exactly one current path to choose.
pub proof fn law_review_groups_offer_a_choice(
    game_id: Seq<char>,
    kind: RenameConfirmationKind,
    previous: Seq<RuntimeEntry>,
    current: Seq<RuntimeEntry>,
    groups: Seq<RenameConfirmationGroup>,
)
    requires
        plans_built(groups, game_id, kind, rename_plans(previous, current)),
    ensures
        groups_counted(groups),
{
    let ids = shared_identities(previous, current);
    let scopes = unpaired_scopes(previous, current);
    lemma_identity_plans_listed(previous, current, ids);
    assert forall|k: int| 0 <= k < scopes.len() implies unpaired_scopes(previous, current).contains(#[trigger] scopes[k]) by {}
    lemma_missing_plans_listed(previous, current, scopes);
    let a = identity_plans_for(previous, current, ids);
    let b = missing_plans_for(previous, current, scopes);
    assert forall|k: int| 0 <= k < (a + b).len() implies plan_sides_listed(#[trigger] (a + b)[k]) by {
        if k < a.len() {
            assert((a + b)[k] == a[k]);
        } else {
            assert((a + b)[k] == b[k - a.len()]);
        }
    }
    lemma_groups_counted(groups, game_id, kind, rename_plans(previous, current));
}

} // verus!
