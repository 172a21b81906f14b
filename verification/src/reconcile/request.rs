//! Reconcile requests: what a caller or a watcher batch asks for, whether a
//! watcher batch needs a complete pass, and the progress a pass reports.

use vstd::prelude::*;

use crate::path_rules::{components, path_components};
use crate::reconcile::snapshot::DiskScopedDiscovery;
use crate::reconcile::types::{DiskReconcilePhase, DiskReconcileProgress, DiskReconcileReason};
use crate::sets::{distinct, insert_distinct, text_set};
use crate::text::{concat_str, from_chars, has_prefix, lower, lower_chars, to_chars};

verus! {

/// One filesystem event a watcher reported, or a reviewed rename decision.
#[derive(Debug, Clone, PartialEq, Eq)]
pub enum ModWatchEvent {
    Created(String),
    Removed(String),
    Modified(String),
    Renamed { from: String, to: String },
    RenameResolution { group_id: String, from: Option<String>, to: Option<String>, apply_as_rename: bool },
    Error(String),
}

/// A batch this wide, in distinct top-level roots, is reconciled completely.
pub open spec fn force_full_root_count() -> int {
    128
}

/// A path's comparison key: its components in ASCII lowercase joined with `/`.
pub open spec fn canonical_key(path: Seq<char>) -> Seq<char> {
    crate::path_rules::join_slash(Seq::new(components(path).len(), |i: int| lower(components(path)[i])))
}

/// Whether a path climbs with a `..` component.
pub open spec fn climbs(path: Seq<char>) -> bool {
    exists|i: int| 0 <= i < components(path).len() && #[trigger] components(path)[i] == ".."@
}

/// The text up to the first `/`.
pub open spec fn first_piece(s: Seq<char>) -> Seq<char>
    decreases s.len(),
{
    if s.len() == 0 || s[0] == '/' {
        Seq::<char>::empty()
    } else {
        seq![s[0]] + first_piece(s.drop_first())
    }
}

/// The key of the top-level root a changed path lies under, when it lies
/// strictly inside the mods folder without climbing and the root is not
/// hidden.
pub open spec fn root_key_of(mods_path: Seq<char>, changed_path: Seq<char>) -> Option<Seq<char>> {
    let prefix = canonical_key(mods_path) + seq!['/'];
    let key = canonical_key(changed_path);
    if climbs(changed_path) || !has_prefix(key, prefix) {
        None
    } else {
        let root = first_piece(key.subrange(prefix.len() as int, key.len() as int));
        if root.len() == 0 || root[0] == '.' {
            None
        } else {
            Some(root)
        }
    }
}

fn canonical_key_chars(path: &str) -> (r: Vec<char>)
    ensures
        r@ == canonical_key(path@),
{
    let chars = to_chars(path);
    let comps = path_components(chars.as_slice());
    let ghost keys = Seq::new(components(chars@).len(), |i: int| lower(components(chars@)[i]));
    let mut out: Vec<char> = Vec::new();
    let mut i: usize = 0;
    while i < comps.len()
        invariant
            comps@.len() == components(chars@).len(),
            forall|k: int| 0 <= k < comps@.len() ==> #[trigger] comps@[k]@ == components(chars@)[k],
            keys.len() == comps@.len(),
            forall|k: int| 0 <= k < keys.len() ==> #[trigger] keys[k] == lower(components(chars@)[k]),
            i <= comps@.len(),
            out@ == crate::path_rules::join_slash(keys.take(i as int)),
        decreases comps@.len() - i,
    {
        let key = lower_chars(comps[i].as_slice());
        assert(key@ == keys[i as int]);
        assert(keys.take(i + 1).drop_last() =~= keys.take(i as int));
        if i > 0 {
            out.push('/');
        }
        let ghost base = out@;
        let mut j: usize = 0;
        while j < key.len()
            invariant
                j <= key@.len(),
                out@ =~= base + key@.take(j as int),
            decreases key@.len() - j,
        {
            out.push(key[j]);
            j += 1;
        }
        proof {
            assert(key@.take(key@.len() as int) =~= key@);
            if i == 0 {
                assert(keys.take(1) =~= seq![keys[0]]);
                assert(out@ =~= keys[0]);
            } else {
                assert(out@ =~= crate::path_rules::join_slash(keys.take(i as int)) + seq!['/'] + keys[i as int]);
            }
        }
        i += 1;
    }
    assert(keys.take(comps@.len() as int) =~= keys);
    out
}

fn path_climbs(path: &str) -> (r: bool)
    ensures
        r == climbs(path@),
{
    let chars = to_chars(path);
    let comps = path_components(chars.as_slice());
    let dots = to_chars("..");
    proof {
        reveal_strlit("..");
    }
    let mut i: usize = 0;
    while i < comps.len()
        invariant
            comps@.len() == components(chars@).len(),
            forall|k: int| 0 <= k < comps@.len() ==> #[trigger] comps@[k]@ == components(chars@)[k],
            dots@ == ".."@,
            chars@ == path@,
            i <= comps@.len(),
            forall|k: int| 0 <= k < i ==> components(path@)[k] != ".."@,
        decreases comps@.len() - i,
    {
        if crate::text::chars_eq(comps[i].as_slice(), dots.as_slice()) {
            assert(components(path@)[i as int] == ".."@);
            return true;
        }
        i += 1;
    }
    false
}

/// A path's comparison key as text.
pub fn canonical_path_key(path: &str) -> (r: String)
    ensures
        r@ == canonical_key(path@),
{
    let key = canonical_key_chars(path);
    from_chars(key.as_slice())
}

/// The key of the top-level root a changed path lies under.
pub fn watcher_path_root_key(mods_path: &str, changed_path: &str) -> (r: Option<String>)
    ensures
        r matches Some(k) ==> root_key_of(mods_path@, changed_path@) == Some(k@),
        r is None ==> root_key_of(mods_path@, changed_path@) is None,
{
    if path_climbs(changed_path) {
        return None;
    }
    let mods_key = canonical_key_chars(mods_path);
    let mut prefix = mods_key;
    prefix.push('/');
    assert(prefix@ =~= canonical_key(mods_path@) + seq!['/']);
    let key = canonical_key_chars(changed_path);
    if !crate::text::starts_with(key.as_slice(), prefix.as_slice()) {
        return None;
    }
    let ghost rest = key@.subrange(prefix@.len() as int, key@.len() as int);
    let mut root: Vec<char> = Vec::new();
    let mut i: usize = prefix.len();
    while i < key.len() && key[i] != '/'
        invariant
            prefix@.len() <= i <= key@.len(),
            rest == key@.subrange(prefix@.len() as int, key@.len() as int),
            first_piece(rest) == root@ + first_piece(key@.subrange(i as int, key@.len() as int)),
        decreases key@.len() - i,
    {
        proof {
            let tail = key@.subrange(i as int, key@.len() as int);
            assert(tail.drop_first() =~= key@.subrange(i + 1, key@.len() as int));
            assert(tail[0] == key@[i as int]);
            assert(root@.push(key@[i as int]) + first_piece(key@.subrange(i + 1, key@.len() as int))
                =~= root@ + first_piece(tail));
        }
        root.push(key[i]);
        i += 1;
    }
    proof {
        let tail = key@.subrange(i as int, key@.len() as int);
        if i < key@.len() {
            assert(tail[0] == key@[i as int]);
            assert(tail[0] == '/');
        } else {
            assert(tail.len() == 0);
        }
        assert(first_piece(tail) == Seq::<char>::empty());
        assert(root@ + Seq::<char>::empty() =~= root@);
        assert(first_piece(rest) == root@);
        assert(rest == key@.subrange((canonical_key(mods_path@) + seq!['/']).len() as int, key@.len() as int));
    }
    if root.len() == 0 || root[0] == '.' {
        return None;
    }
    Some(from_chars(root.as_slice()))
}

/// The set of root keys of a batch, when every path has one.
pub open spec fn batch_root_keys(mods_path: Seq<char>, changed_paths: Seq<String>) -> Option<Set<Seq<char>>> {
    if exists|i: int| 0 <= i < changed_paths.len() && (#[trigger] root_key_of(mods_path, changed_paths[i]@)) is None {
        None
    } else {
        Some(Set::new(|k: Seq<char>| exists|i: int| 0 <= i < changed_paths.len() && #[trigger] root_key_of(mods_path, changed_paths[i]@) == Some(k)))
    }
}

/// The distinct root keys of a batch, or `None` when a path has none.
pub fn watcher_batch_root_keys(mods_path: &str, changed_paths: &Vec<String>) -> (r: Option<Vec<String>>)
    ensures
        r is None <==> batch_root_keys(mods_path@, changed_paths@) is None,
        r matches Some(keys) ==> distinct(keys@) && Some(text_set(keys@)) == batch_root_keys(mods_path@, changed_paths@),
{
    let mut keys: Vec<String> = Vec::new();
    let mut i: usize = 0;
    while i < changed_paths.len()
        invariant
            i <= changed_paths@.len(),
            distinct(keys@),
            forall|j: int| 0 <= j < i ==> (#[trigger] root_key_of(mods_path@, changed_paths@[j]@)) is Some,
            text_set(keys@) == Set::new(|k: Seq<char>| exists|j: int| 0 <= j < i && #[trigger] root_key_of(mods_path@, changed_paths@[j]@) == Some(k)),
        decreases changed_paths@.len() - i,
    {
        let ghost before = text_set(keys@);
        match watcher_path_root_key(mods_path, changed_paths[i].as_str()) {
            None => {
                return None;
            },
            Some(key) => {
                let ghost kv = key@;
                insert_distinct(&mut keys, key);
                proof {
                    assert(text_set(keys@) =~= Set::new(|k: Seq<char>| exists|j: int| 0 <= j < i + 1 && #[trigger] root_key_of(mods_path@, changed_paths@[j]@) == Some(k))) by {
                        assert forall|k: Seq<char>| (exists|j: int| 0 <= j < i + 1 && #[trigger] root_key_of(mods_path@, changed_paths@[j]@) == Some(k)) implies text_set(keys@).contains(k) by {
                            let j = choose|j: int| 0 <= j < i + 1 && #[trigger] root_key_of(mods_path@, changed_paths@[j]@) == Some(k);
                            if j < i {
                                assert(before.contains(k));
                            }
                        }
                        assert forall|k: Seq<char>| text_set(keys@).contains(k) implies (exists|j: int| 0 <= j < i + 1 && #[trigger] root_key_of(mods_path@, changed_paths@[j]@) == Some(k)) by {
                            if !before.contains(k) {
                                assert(k == kv);
                                assert(root_key_of(mods_path@, changed_paths@[i as int]@) == Some(k));
                            }
                        }
                    }
                }
            },
        }
        i += 1;
    }
    Some(keys)
}

/// A rename moves a folder from one top-level root to another, or an end
/// of it lies outside every root.
pub open spec fn rename_crosses_roots(mods_path: Seq<char>, from: Seq<char>, to: Seq<char>) -> bool {
    match (root_key_of(mods_path, from), root_key_of(mods_path, to)) {
        (Some(a), Some(b)) => a != b,
        _ => true,
    }
}

/// Whether a rename crosses top-level roots.
pub fn watcher_rename_crosses_roots(mods_path: &str, from: &str, to: &str) -> (r: bool)
    ensures
        r == rename_crosses_roots(mods_path@, from@, to@),
{
    match (watcher_path_root_key(mods_path, from), watcher_path_root_key(mods_path, to)) {
        (Some(a), Some(b)) => a != b,
        _ => true,
    }
}

/// An event that moves folders across roots: a rename across roots, or an
/// applied rename decision that crosses roots or lacks an end.
pub open spec fn event_crosses_roots(mods_path: Seq<char>, event: ModWatchEvent) -> bool {
    match event {
        ModWatchEvent::Renamed { from, to } => rename_crosses_roots(mods_path, from@, to@),
        ModWatchEvent::RenameResolution { from, to, apply_as_rename, .. } => apply_as_rename && match (from, to) {
            (Some(f), Some(t)) => rename_crosses_roots(mods_path, f@, t@),
            _ => true,
        },
        _ => false,
    }
}

/// Whether an event moves folders across roots.
pub fn watcher_event_has_cross_root_rename(mods_path: &str, event: &ModWatchEvent) -> (r: bool)
    ensures
        r == event_crosses_roots(mods_path@, *event),
{
    match event {
        ModWatchEvent::Renamed { from, to } => watcher_rename_crosses_roots(mods_path, from.as_str(), to.as_str()),
        ModWatchEvent::RenameResolution { from, to, apply_as_rename, .. } => {
            if !*apply_as_rename {
                false
            } else {
                match (from, to) {
                    (Some(f), Some(t)) => watcher_rename_crosses_roots(mods_path, f.as_str(), t.as_str()),
                    _ => true,
                }
            }
        },
        _ => false,
    }
}

/// A watcher batch is reconciled completely when it reports a watcher
/// error, carries no paths, moves folders across roots, has a path outside
/// every root, or touches too many roots.
pub open spec fn batch_requires_full_scan(mods_path: Seq<char>, changed_paths: Seq<String>, events: Seq<ModWatchEvent>) -> bool {
    if events.len() == 0 {
        false
    } else if (exists|i: int| 0 <= i < events.len() && (#[trigger] events[i]) is Error) || changed_paths.len() == 0
        || (exists|i: int| 0 <= i < events.len() && event_crosses_roots(mods_path, #[trigger] events[i])) {
        true
    } else {
        match batch_root_keys(mods_path, changed_paths) {
            None => true,
            Some(keys) => keys.len() >= force_full_root_count(),
        }
    }
}

/// Whether a watcher batch needs a complete pass.
pub fn watcher_batch_requires_full_scan(mods_path: &str, changed_paths: &Vec<String>, events: &Vec<ModWatchEvent>) -> (r: bool)
    ensures
        r == batch_requires_full_scan(mods_path@, changed_paths@, events@),
{
    if events.len() == 0 {
        return false;
    }
    let mut i: usize = 0;
    while i < events.len()
        invariant
            i <= events@.len(),
            forall|j: int| 0 <= j < i ==> !((#[trigger] events@[j]) is Error),
        decreases events@.len() - i,
    {
        if let ModWatchEvent::Error(_) = &events[i] {
            return true;
        }
        i += 1;
    }
    if changed_paths.len() == 0 {
        return true;
    }
    let mut k: usize = 0;
    while k < events.len()
        invariant
            k <= events@.len(),
            forall|j: int| 0 <= j < k ==> !event_crosses_roots(mods_path@, #[trigger] events@[j]),
        decreases events@.len() - k,
    {
        if watcher_event_has_cross_root_rename(mods_path, &events[k]) {
            return true;
        }
        k += 1;
    }
    match watcher_batch_root_keys(mods_path, changed_paths) {
        None => true,
        Some(keys) => {
            proof {
                crate::sets::views(keys@).unique_seq_to_set();
            }
            keys.len() >= 128
        },
    }
}

/// A rename the caller already knows about: the folder moved from
/// `old_path` to `new_path` and belongs to `target_object_id`.
#[derive(Debug, Clone, PartialEq, Eq)]
pub struct DiskReconcilePathHint {
    pub old_path: String,
    pub new_path: String,
    pub target_object_id: String,
}

/// What one reconcile pass is asked to do.
#[derive(Debug)]
pub struct DiskReconcileRequest {
    pub game_id: String,
    pub reason: DiskReconcileReason,
    pub changed_paths: Vec<String>,
    pub force_full: bool,
    pub watcher_events: Vec<ModWatchEvent>,
    /// The watcher session a watcher-owned request belongs to.
    pub watcher_session: Option<u64>,
    pub path_hints: Vec<DiskReconcilePathHint>,
    /// Only a durable internal mutation, or its locked regional preflight,
    /// may set this: it bypasses the global directory census.
    pub trusted_mutation_scope: bool,
    /// The caller publishes the overlay at a later, better-defined point.
    pub defer_overlay_sync: bool,
    pub precomputed_discovery: Option<DiskScopedDiscovery>,
}

impl DiskReconcileRequest {
    /// A request made by a caller, not by the watcher.
    pub fn manual(game_id: String, reason: DiskReconcileReason, changed_paths: Vec<String>, force_full: bool) -> (r: Self)
        ensures
            r.game_id == game_id,
            r.reason == reason,
            r.changed_paths == changed_paths,
            r.force_full == force_full,
            r.watcher_events@.len() == 0,
            r.watcher_session is None,
            r.path_hints@.len() == 0,
            !r.trusted_mutation_scope,
            !r.defer_overlay_sync,
            r.precomputed_discovery is None,
    {
        DiskReconcileRequest {
            game_id,
            reason,
            changed_paths,
            force_full,
            watcher_events: Vec::new(),
            watcher_session: None,
            path_hints: Vec::new(),
            trusted_mutation_scope: false,
            defer_overlay_sync: false,
            precomputed_discovery: None,
        }
    }

    /// A caller's request that names folders it renamed itself.
    pub fn manual_with_path_hints(
        game_id: String,
        reason: DiskReconcileReason,
        changed_paths: Vec<String>,
        path_hints: Vec<DiskReconcilePathHint>,
    ) -> (r: Self)
        ensures
            r.game_id == game_id,
            r.reason == reason,
            r.changed_paths == changed_paths,
            !r.force_full,
            r.watcher_events@.len() == 0,
            r.watcher_session is None,
            r.path_hints == path_hints,
            !r.trusted_mutation_scope,
            !r.defer_overlay_sync,
            r.precomputed_discovery is None,
    {
        DiskReconcileRequest {
            game_id,
            reason,
            changed_paths,
            force_full: false,
            watcher_events: Vec::new(),
            watcher_session: None,
            path_hints,
            trusted_mutation_scope: false,
            defer_overlay_sync: false,
            precomputed_discovery: None,
        }
    }

    /// A coalesced watcher batch. It runs completely when its coverage is
    /// wide or ambiguous, and leaves the overlay to the watcher lifecycle.
    pub fn watcher_batch(game_id: String, mods_path: &str, changed_paths: Vec<String>, watcher_events: Vec<ModWatchEvent>) -> (r: Self)
        ensures
            r.game_id == game_id,
            r.reason == DiskReconcileReason::WatcherBatch,
            r.changed_paths == changed_paths,
            r.force_full == batch_requires_full_scan(mods_path@, changed_paths@, watcher_events@),
            r.watcher_events == watcher_events,
            r.watcher_session is None,
            r.path_hints@.len() == 0,
            !r.trusted_mutation_scope,
            r.defer_overlay_sync,
            r.precomputed_discovery is None,
    {
        let force_full = watcher_batch_requires_full_scan(mods_path, &changed_paths, &watcher_events);
        DiskReconcileRequest {
            game_id,
            reason: DiskReconcileReason::WatcherBatch,
            changed_paths,
            force_full,
            watcher_events,
            watcher_session: None,
            path_hints: Vec::new(),
            trusted_mutation_scope: false,
            defer_overlay_sync: true,
            precomputed_discovery: None,
        }
    }

    /// Binds the request to a watcher session.
    pub fn for_watcher_session(self, session: u64) -> (r: Self)
        ensures
            r == (Self { watcher_session: Some(session), ..self }),
    {
        DiskReconcileRequest { watcher_session: Some(session), ..self }
    }

    /// Leaves the overlay publish to the caller.
    pub fn defer_overlay_sync(self) -> (r: Self)
        ensures
            r == (Self { defer_overlay_sync: true, ..self }),
    {
        DiskReconcileRequest { defer_overlay_sync: true, ..self }
    }

    /// Trusts the scope of a durable internal mutation.
    pub fn trust_durable_mutation_scope(self) -> (r: Self)
        requires
            self.reason == DiskReconcileReason::InternalMutation,
        ensures
            r == (Self { trusted_mutation_scope: true, ..self }),
    {
        DiskReconcileRequest { trusted_mutation_scope: true, ..self }
    }

    /// Trusts the scope of a locked, identity-validated regional preflight.
    pub fn trust_locked_regional_preflight(self) -> (r: Self)
        requires
            self.reason == DiskReconcileReason::InternalMutation,
        ensures
            r == (Self { trusted_mutation_scope: true, ..self }),
    {
        DiskReconcileRequest { trusted_mutation_scope: true, ..self }
    }

    /// Hands the pass a discovery made beforehand.
    pub fn with_precomputed_discovery(self, discovery: DiskScopedDiscovery) -> (r: Self)
        ensures
            r == (Self { precomputed_discovery: Some(discovery), ..self }),
    {
        DiskReconcileRequest { precomputed_discovery: Some(discovery), ..self }
    }
}

/// `a * b`, or `u128::MAX` when the product does not fit.
pub open spec fn saturating_product(a: u128, b: u128) -> int {
    if a * b > u128::MAX {
        u128::MAX as int
    } else {
        a * b
    }
}

/// The time left, extrapolated from the roots finished so far; only once
/// two roots are done and some remain.
pub open spec fn eta_of(elapsed_ms: u128, completed_units: u64, total_units: Option<u64>) -> Option<u64> {
    match total_units {
        None => None,
        Some(total) => if completed_units < 2 || completed_units >= total {
            None
        } else {
            let estimated = saturating_product(elapsed_ms, (total - completed_units) as u128) / (completed_units as int);
            Some(if estimated > u64::MAX { u64::MAX } else { estimated as u64 })
        },
    }
}

/// The estimated time left of a pass.
pub fn estimate_eta_ms(elapsed_ms: u128, completed_units: u64, total_units: Option<u64>) -> (r: Option<u64>)
    ensures
        r == eta_of(elapsed_ms, completed_units, total_units),
{
    let total = match total_units {
        None => return None,
        Some(t) => t,
    };
    if completed_units < 2 || completed_units >= total {
        return None;
    }
    let remaining: u128 = (total - completed_units) as u128;
    let product: u128 = if remaining != 0 && elapsed_ms > u128::MAX / remaining {
        proof {
            assert(elapsed_ms * remaining > u128::MAX) by (nonlinear_arith)
                requires
                    remaining > 0,
                    elapsed_ms > u128::MAX / remaining,
            ;
        }
        u128::MAX
    } else {
        proof {
            assert(elapsed_ms * remaining <= u128::MAX) by (nonlinear_arith)
                requires
                    remaining == 0 || elapsed_ms <= u128::MAX / remaining,
            ;
        }
        elapsed_ms * remaining
    };
    let estimated = product / (completed_units as u128);
    if estimated > u64::MAX as u128 {
        Some(u64::MAX)
    } else {
        Some(estimated as u64)
    }
}

/// How often intermediate scanning progress may be reported, in ms.
pub open spec fn progress_interval_ms() -> int {
    125
}

/// A progress emitter for one pass. Progress comes from completed
/// top-level roots; intermediate scanning updates are throttled.
#[derive(Debug)]
pub struct DiskReconcileProgressReporter {
    pub game_id: String,
    pub run_id: String,
    pub reason: DiskReconcileReason,
    pub last_emitted_at: u128,
    pub watcher_session: Option<u64>,
}

impl DiskReconcileProgressReporter {
    /// A reporter for the `run_number`-th pass of the process.
    pub fn new(game_id: String, reason: DiskReconcileReason, run_number: u64) -> (r: Self)
        ensures
            r.game_id == game_id,
            r.run_id@ == game_id@ + seq!['-'] + crate::digest::decimal(run_number as nat),
            r.reason == reason,
            r.last_emitted_at == 0,
            r.watcher_session is None,
    {
        let head = concat_str(game_id.as_str(), "-");
        proof {
            reveal_strlit("-");
        }
        let number = crate::digest::decimal_string(run_number as u128);
        let run_id = concat_str(head.as_str(), number.as_str());
        DiskReconcileProgressReporter { game_id, run_id, reason, last_emitted_at: 0, watcher_session: None }
    }

    /// Restricts the reporter to one watcher session.
    pub fn for_watcher_session(self, session: u64) -> (r: Self)
        ensures
            r == (Self { watcher_session: Some(session), ..self }),
    {
        DiskReconcileProgressReporter { watcher_session: Some(session), ..self }
    }

    /// A reporter bound to a watcher session reports only while that
    /// session is the current one.
    pub fn watcher_session_is_current(&self, current_session: Option<u64>) -> (r: bool)
        ensures
            r == match self.watcher_session {
                None => true,
                Some(s) => current_session == Some(s),
            },
    {
        match self.watcher_session {
            None => true,
            Some(s) => match current_session {
                Some(c) => c == s,
                None => false,
            },
        }
    }

    /// The progress event to report now, if any, and the new throttle mark.
    pub fn emit(
        &mut self,
        phase: DiskReconcilePhase,
        completed_units: u64,
        total_units: Option<u64>,
        current_root: Option<String>,
        elapsed_ms: u128,
        session_is_current: bool,
    ) -> (r: Option<DiskReconcileProgress>)
        ensures
            ({
                let throttled = phase == DiskReconcilePhase::ScanningRoots && completed_units > 0
                    && total_units != Some(completed_units);
                let too_soon = elapsed_ms < old(self).last_emitted_at + progress_interval_ms();
                &&& !session_is_current ==> r is None && *final(self) == *old(self)
                &&& session_is_current && throttled && too_soon ==> r is None && *final(self) == *old(self)
                &&& session_is_current && throttled && !too_soon ==> final(self).last_emitted_at == elapsed_ms
                &&& session_is_current && !(throttled && too_soon) ==> (r matches Some(p) && p.game_id == old(self).game_id
                    && p.run_id == old(self).run_id && p.reason == old(self).reason && p.phase == phase
                    && p.completed_units == completed_units && p.total_units == total_units
                    && p.current_root == current_root
                    && p.elapsed_ms == (if elapsed_ms > u64::MAX { u64::MAX } else { elapsed_ms as u64 })
                    && p.eta_ms == eta_of(elapsed_ms, completed_units, total_units))
                &&& session_is_current && !throttled ==> *final(self) == *old(self)
            }),
    {
        if !session_is_current {
            return None;
        }
        let terminal = match total_units {
            Some(t) => t == completed_units,
            None => false,
        };
        if phase == DiskReconcilePhase::ScanningRoots && completed_units > 0 && !terminal {
            let since = if elapsed_ms >= self.last_emitted_at {
                elapsed_ms - self.last_emitted_at
            } else {
                0
            };
            if since < 125 {
                return None;
            }
            self.last_emitted_at = elapsed_ms;
        }
        let eta_ms = estimate_eta_ms(elapsed_ms, completed_units, total_units);
        let shown: u64 = if elapsed_ms > u64::MAX as u128 {
            u64::MAX
        } else {
            elapsed_ms as u64
        };
        Some(DiskReconcileProgress {
            game_id: self.game_id.clone(),
            run_id: self.run_id.clone(),
            reason: self.reason,
            phase,
            completed_units,
            total_units,
            current_root,
            elapsed_ms: shown,
            eta_ms,
        })
    }
}

} // verus!

verus! {

/// What a watcher-owned reconcile gives its watcher.
#[derive(Debug)]
pub enum WatcherReconcileOutcome {
    Applied(crate::reconcile::types::DiskReconcileResult),
    /// A newer watcher session took over while the pass ran.
    Superseded,
}

/// A watcher-owned result counts only for the session that is still
/// current.
pub fn watcher_outcome_for_current_session(session_is_current: bool, result: crate::reconcile::types::DiskReconcileResult) -> (r: WatcherReconcileOutcome)
    ensures
        session_is_current ==> r == WatcherReconcileOutcome::Applied(result),
        !session_is_current ==> r is Superseded,
{
    if session_is_current {
        WatcherReconcileOutcome::Applied(result)
    } else {
        WatcherReconcileOutcome::Superseded
    }
}

} // verus!

verus! {

/// Whether the two ends of a move lie under different top-level roots of
/// the mods folder, or one of them lies under none.
pub open spec fn ends_in_different_roots(mods_path: Seq<char>, from: Seq<char>, to: Seq<char>) -> bool {
    root_key_of(mods_path, from) is None || root_key_of(mods_path, to) is None
        || root_key_of(mods_path, from) != root_key_of(mods_path, to)
}

/// A watcher rename moves folders across roots exactly when its two ends
/// lie under different top-level roots, or one lies outside every root; a
/// rename inside one root does not.
pub proof fn law_rename_crosses_roots_when_its_ends_differ(mods_path: Seq<char>, from: String, to: String)
    ensures
        event_crosses_roots(mods_path, ModWatchEvent::Renamed { from, to }) == ends_in_different_roots(
            mods_path,
            from@,
            to@,
        ),
        root_key_of(mods_path, from@) is Some && root_key_of(mods_path, from@) == root_key_of(mods_path, to@)
            ==> !event_crosses_roots(mods_path, ModWatchEvent::Renamed { from, to }),
{
}

/// An applied rename decision with both ends crosses roots exactly when its
/// ends lie under different top-level roots (or one under none), the same
/// as a watcher rename with those ends; an applied decision missing an end
/// always counts as crossing, and one that is not applied never does.
pub proof fn law_applied_rename_decision_crosses_like_a_rename(
    mods_path: Seq<char>,
    group_id: String,
    from: String,
    to: String,
    missing_from: Option<String>,
    other_to: Option<String>,
    any_from: Option<String>,
    any_to: Option<String>,
)
    ensures
        event_crosses_roots(
            mods_path,
            ModWatchEvent::RenameResolution { group_id, from: Some(from), to: Some(to), apply_as_rename: true },
        ) == ends_in_different_roots(mods_path, from@, to@),
        event_crosses_roots(
            mods_path,
            ModWatchEvent::RenameResolution { group_id, from: Some(from), to: Some(to), apply_as_rename: true },
        ) == event_crosses_roots(mods_path, ModWatchEvent::Renamed { from, to }),
        event_crosses_roots(
            mods_path,
            ModWatchEvent::RenameResolution { group_id, from: None, to: other_to, apply_as_rename: true },
        ),
        event_crosses_roots(
            mods_path,
            ModWatchEvent::RenameResolution { group_id, from: missing_from, to: None, apply_as_rename: true },
        ),
        !event_crosses_roots(
            mods_path,
            ModWatchEvent::RenameResolution { group_id, from: any_from, to: any_to, apply_as_rename: false },
        ),
{
}

/// Events that only create, remove or modify a path, or report a watcher
/// error, move nothing across roots.
pub proof fn law_only_renames_cross_roots(mods_path: Seq<char>, path: String)
    ensures
        !event_crosses_roots(mods_path, ModWatchEvent::Created(path)),
        !event_crosses_roots(mods_path, ModWatchEvent::Removed(path)),
        !event_crosses_roots(mods_path, ModWatchEvent::Modified(path)),
        !event_crosses_roots(mods_path, ModWatchEvent::Error(path)),
{
}

/// A watcher batch holding an applied rename decision whose ends lie under
/// different top-level roots (or one under none) is reconciled in full,
/// whatever else it holds; so is one holding such a watcher rename.
pub proof fn law_cross_root_rename_forces_a_full_scan(
    mods_path: Seq<char>,
    changed_paths: Seq<String>,
    events: Seq<ModWatchEvent>,
    k: int,
)
    requires
        0 <= k < events.len(),
        (events[k] matches ModWatchEvent::RenameResolution { from: Some(f), to: Some(t), apply_as_rename: true, .. }
            && ends_in_different_roots(mods_path, f@, t@)) || (events[k] matches ModWatchEvent::Renamed { from: f, to: t }
            && ends_in_different_roots(mods_path, f@, t@)),
    ensures
        batch_requires_full_scan(mods_path, changed_paths, events),
{
    assert(event_crosses_roots(mods_path, events[k]));
}

/// A watcher batch without errors or renames whose paths all lie under
/// fewer top-level roots than the full-scan threshold is scoped, not
/// reconciled in full.
pub proof fn law_narrow_batch_without_renames_stays_scoped(
    mods_path: Seq<char>,
    changed_paths: Seq<String>,
    events: Seq<ModWatchEvent>,
)
    requires
        changed_paths.len() > 0,
        forall|i: int| 0 <= i < events.len() ==> ((#[trigger] events[i]) is Created || events[i] is Removed
            || events[i] is Modified),
        batch_root_keys(mods_path, changed_paths) matches Some(keys) && keys.len() < force_full_root_count(),
    ensures
        !batch_requires_full_scan(mods_path, changed_paths, events),
{
    assert forall|i: int| 0 <= i < events.len() implies !event_crosses_roots(mods_path, #[trigger] events[i]) by {}
    assert forall|i: int| 0 <= i < events.len() implies !((#[trigger] events[i]) is Error) by {}
}

proof fn lemma_split_segments_clean(s: Seq<char>)
    ensures
        forall|i: int, j: int| 0 <= i < crate::path_rules::split_segments(s).len() && 0 <= j < crate::path_rules::split_segments(s)[i].len()
            ==> !crate::path_rules::is_sep(#[trigger] crate::path_rules::split_segments(s)[i][j]),
    decreases s.len(),
{
    if s.len() > 0 {
        lemma_split_segments_clean(s.drop_last());
        crate::path_rules::lemma_split_segments_nonempty(s.drop_last());
        let rest = crate::path_rules::split_segments(s.drop_last());
        let r = crate::path_rules::split_segments(s);
        assert forall|i: int, j: int| 0 <= i < r.len() && 0 <= j < r[i].len() implies !crate::path_rules::is_sep(
            #[trigger] r[i][j],
        ) by {
            if crate::path_rules::is_sep(s.last()) {
                if i < rest.len() {
                    assert(r[i] == rest[i]);
                }
            } else {
                if i < rest.len() - 1 {
                    assert(r[i] == rest[i]);
                } else {
                    assert(r[i] == rest.last().push(s.last()));
                    if j < rest.last().len() {
                        assert(r[i][j] == rest[rest.len() - 1][j]);
                    }
                }
            }
        }
    }
}

proof fn lemma_drop_empty_clean(segs: Seq<Seq<char>>)
    requires
        forall|i: int, j: int| 0 <= i < segs.len() && 0 <= j < segs[i].len() ==> !crate::path_rules::is_sep(
            #[trigger] segs[i][j],
        ),
    ensures
        forall|i: int| 0 <= i < crate::path_rules::drop_empty(segs).len() ==> (#[trigger] crate::path_rules::drop_empty(
            segs,
        )[i]).len() > 0,
        forall|i: int, j: int| 0 <= i < crate::path_rules::drop_empty(segs).len() && 0 <= j < crate::path_rules::drop_empty(
            segs,
        )[i].len() ==> !crate::path_rules::is_sep(#[trigger] crate::path_rules::drop_empty(segs)[i][j]),
    decreases segs.len(),
{
    if segs.len() > 0 {
        let init = segs.drop_last();
        assert forall|i: int, j: int| 0 <= i < init.len() && 0 <= j < init[i].len() implies !crate::path_rules::is_sep(
            #[trigger] init[i][j],
        ) by {
            assert(init[i] == segs[i]);
        }
        lemma_drop_empty_clean(init);
        let d = crate::path_rules::drop_empty(init);
        let r = crate::path_rules::drop_empty(segs);
        if segs.last().len() > 0 {
            assert forall|i: int, j: int| 0 <= i < r.len() && 0 <= j < r[i].len() implies !crate::path_rules::is_sep(
                #[trigger] r[i][j],
            ) by {
                if i < d.len() {
                    assert(r[i] == d[i]);
                } else {
                    assert(r[i] == segs[segs.len() - 1]);
                }
            }
            assert forall|i: int| 0 <= i < r.len() implies (#[trigger] r[i]).len() > 0 by {
                if i < d.len() {
                    assert(r[i] == d[i]);
                }
            }
        }
    }
}

/// The components of a path are non-empty and hold no separator.
proof fn lemma_components_clean(s: Seq<char>)
    ensures
        forall|i: int| 0 <= i < components(s).len() ==> (#[trigger] components(s)[i]).len() > 0,
        forall|i: int, j: int| 0 <= i < components(s).len() && 0 <= j < components(s)[i].len()
            ==> !crate::path_rules::is_sep(#[trigger] components(s)[i][j]),
{
    lemma_split_segments_clean(s);
    lemma_drop_empty_clean(crate::path_rules::split_segments(s));
}

proof fn lemma_join_slash_append(a: Seq<Seq<char>>, b: Seq<Seq<char>>)
    requires
        a.len() > 0,
        b.len() > 0,
    ensures
        crate::path_rules::join_slash(a + b) == crate::path_rules::join_slash(a) + seq!['/']
            + crate::path_rules::join_slash(b),
    decreases b.len(),
{
    if b.len() == 1 {
        assert((a + b).drop_last() =~= a);
        assert((a + b).last() == b[0]);
    } else {
        lemma_join_slash_append(a, b.drop_last());
        assert((a + b).drop_last() =~= a + b.drop_last());
        assert((a + b).last() == b.last());
    }
}

proof fn lemma_first_piece_stops_at_slash(x: Seq<char>, y: Seq<char>)
    requires
        forall|j: int| 0 <= j < x.len() ==> x[j] != '/',
    ensures
        first_piece(x + seq!['/'] + y) == x,
        first_piece(x) == x,
    decreases x.len(),
{
    if x.len() == 0 {
        assert((x + seq!['/'] + y)[0] == '/');
    } else {
        lemma_first_piece_stops_at_slash(x.drop_first(), y);
        assert((x + seq!['/'] + y).drop_first() =~= x.drop_first() + seq!['/'] + y);
        assert(x =~= seq![x[0]] + x.drop_first());
    }
}

/// Every path strictly inside the mods folder lies under the top-level root
/// its first component after the folder names: its root key is that
/// component in ASCII lowercase, unless the path climbs or the component is
/// hidden. The mods folder's own components match ignoring ASCII case.
pub proof fn law_root_key_is_the_first_component_inside(mods_path: Seq<char>, path: Seq<char>)
    requires
        components(mods_path).len() > 0,
        components(path).len() > components(mods_path).len(),
        forall|i: int| 0 <= i < components(mods_path).len() ==> #[trigger] lower(components(path)[i]) == lower(
            components(mods_path)[i],
        ),
        !climbs(path),
        components(path)[components(mods_path).len() as int][0] != '.',
    ensures
        root_key_of(mods_path, path) == Some(lower(components(path)[components(mods_path).len() as int])),
{
    let c = components(path);
    let mc = components(mods_path);
    let m = mc.len() as int;
    let lc = Seq::new(c.len(), |i: int| lower(c[i]));
    let lm = Seq::new(mc.len(), |i: int| lower(mc[i]));
    lemma_components_clean(path);
    assert(lc =~= lm + lc.skip(m));
    lemma_join_slash_append(lm, lc.skip(m));
    let prefix = canonical_key(mods_path) + seq!['/'];
    let key = canonical_key(path);
    let tail = crate::path_rules::join_slash(lc.skip(m));
    assert(key == prefix + tail);
    assert(key.subrange(0, prefix.len() as int) =~= prefix);
    assert(key.subrange(prefix.len() as int, key.len() as int) =~= tail);
    let r = lower(c[m]);
    assert(c[m].len() > 0);
    assert forall|j: int| 0 <= j < r.len() implies r[j] != '/' by {
        assert(!crate::path_rules::is_sep(c[m][j]));
    }
    let s = lc.skip(m);
    assert(s[0] == r);
    if s.len() == 1 {
        assert(tail == r);
        lemma_first_piece_stops_at_slash(r, Seq::<char>::empty());
    } else {
        lemma_join_slash_append(seq![r], s.drop_first());
        assert(seq![r] + s.drop_first() =~= s);
        assert(crate::path_rules::join_slash(seq![r]) == r);
        lemma_first_piece_stops_at_slash(r, crate::path_rules::join_slash(s.drop_first()));
    }
    assert(r[0] == crate::text::ascii_lower(c[m][0]));
}

/// A path that climbs with `..` lies under no root.
pub proof fn law_climbing_path_has_no_root(mods_path: Seq<char>, path: Seq<char>)
    requires
        climbs(path),
    ensures
        root_key_of(mods_path, path) is None,
{
}

/// When to reconcile a watcher batch in full: never for a batch without
/// events; always for one reporting a watcher error, carrying no paths,
/// holding a path outside every top-level root, or touching at least as
/// many roots as the full-scan threshold.
pub proof fn law_when_a_watcher_batch_is_reconciled_in_full(
    mods_path: Seq<char>,
    changed_paths: Seq<String>,
    events: Seq<ModWatchEvent>,
    k: int,
)
    ensures
        events.len() == 0 ==> !batch_requires_full_scan(mods_path, changed_paths, events),
        0 <= k < events.len() && events[k] is Error ==> batch_requires_full_scan(mods_path, changed_paths, events),
        events.len() > 0 && changed_paths.len() == 0 ==> batch_requires_full_scan(mods_path, changed_paths, events),
        events.len() > 0 && 0 <= k < changed_paths.len() && root_key_of(mods_path, changed_paths[k]@) is None
            ==> batch_requires_full_scan(mods_path, changed_paths, events),
        events.len() > 0 && (batch_root_keys(mods_path, changed_paths) matches Some(keys) && keys.len()
            >= force_full_root_count()) ==> batch_requires_full_scan(mods_path, changed_paths, events),
{
    if 0 <= k < changed_paths.len() && root_key_of(mods_path, changed_paths[k]@) is None {
        assert(batch_root_keys(mods_path, changed_paths) is None);
    }
}

} // verus!
