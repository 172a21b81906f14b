//! Runtime sync requests: their causes, scopes and the settlement of one
//! worker generation.

use vstd::prelude::*;

use crate::error::AppError;
use crate::reconcile::state::{DiskReconcileState, InitialRecoveryReadiness, StagedRuntimeEffects};
use crate::reconcile::types::{no_runtime_effects, DiskReconcileReason};
use crate::sets::views;
use crate::text::{chars_eq, to_chars};

verus! {

/// Why a runtime sync was queued.
#[derive(Debug, Clone, Copy, PartialEq, Eq, Structural)]
pub enum RuntimeSyncCause {
    EffectiveModsChanged,
    GameActivated,
    ModsRootChanged,
    ImporterRootChanged,
    SafeModeChanged,
    CollectionApplied,
    SettingsChanged,
    Recovery,
    ManualRetry,
}

/// Why the published overlay is refreshed.
#[derive(Debug, Clone, Copy, PartialEq, Eq, Structural)]
pub enum OverlaySyncCause {
    EffectiveModsChanged,
    GameActivated,
    ModsRootChanged,
    ImporterRootChanged,
    SafeModeChanged,
    CollectionApplied,
    SettingsChanged,
    Recovery,
    Startup,
    FirstIndex,
    EffectiveIniChanged,
}

/// How a runtime mod ends up after a change.
#[derive(Debug, Clone, Copy, PartialEq, Eq, Structural)]
pub enum RuntimeModOutcome {
    Enabled,
    Disabled,
}

/// One mod whose runtime state changed.
#[derive(Debug, Clone, PartialEq, Eq)]
pub struct RuntimeModChange {
    pub mod_id: String,
    pub folder_path: String,
    pub outcome: RuntimeModOutcome,
}

/// The scope of a runtime refresh.
#[derive(Debug, Clone, PartialEq, Eq)]
pub enum RuntimeSyncRequest {
    Full,
    ScopedRoots { roots: Vec<String> },
    Scoped { changes: Vec<RuntimeModChange> },
}

/// The queue label of a cause.
pub open spec fn cause_label(cause: RuntimeSyncCause) -> Seq<char> {
    match cause {
        RuntimeSyncCause::EffectiveModsChanged => "effective_mods_changed"@,
        RuntimeSyncCause::GameActivated => "game_activated"@,
        RuntimeSyncCause::ModsRootChanged => "mods_root_changed"@,
        RuntimeSyncCause::ImporterRootChanged => "importer_root_changed"@,
        RuntimeSyncCause::SafeModeChanged => "safe_mode_changed"@,
        RuntimeSyncCause::CollectionApplied => "collection_applied"@,
        RuntimeSyncCause::SettingsChanged => "settings_changed"@,
        RuntimeSyncCause::Recovery => "recovery"@,
        RuntimeSyncCause::ManualRetry => "manual_retry"@,
    }
}

/// The overlay cause a runtime sync cause publishes under.
pub open spec fn overlay_cause_of(cause: RuntimeSyncCause) -> OverlaySyncCause {
    match cause {
        RuntimeSyncCause::EffectiveModsChanged => OverlaySyncCause::EffectiveModsChanged,
        RuntimeSyncCause::GameActivated => OverlaySyncCause::GameActivated,
        RuntimeSyncCause::ModsRootChanged => OverlaySyncCause::ModsRootChanged,
        RuntimeSyncCause::ImporterRootChanged => OverlaySyncCause::ImporterRootChanged,
        RuntimeSyncCause::SafeModeChanged => OverlaySyncCause::SafeModeChanged,
        RuntimeSyncCause::CollectionApplied => OverlaySyncCause::CollectionApplied,
        RuntimeSyncCause::SettingsChanged => OverlaySyncCause::SettingsChanged,
        RuntimeSyncCause::Recovery => OverlaySyncCause::Recovery,
        RuntimeSyncCause::ManualRetry => OverlaySyncCause::Recovery,
    }
}

impl RuntimeSyncCause {
    pub fn label(self) -> (r: &'static str)
        ensures
            r@ == cause_label(self),
    {
        match self {
            RuntimeSyncCause::EffectiveModsChanged => "effective_mods_changed",
            RuntimeSyncCause::GameActivated => "game_activated",
            RuntimeSyncCause::ModsRootChanged => "mods_root_changed",
            RuntimeSyncCause::ImporterRootChanged => "importer_root_changed",
            RuntimeSyncCause::SafeModeChanged => "safe_mode_changed",
            RuntimeSyncCause::CollectionApplied => "collection_applied",
            RuntimeSyncCause::SettingsChanged => "settings_changed",
            RuntimeSyncCause::Recovery => "recovery",
            RuntimeSyncCause::ManualRetry => "manual_retry",
        }
    }

    pub fn overlay_cause(self) -> (r: OverlaySyncCause)
        ensures
            r == overlay_cause_of(self),
    {
        match self {
            RuntimeSyncCause::EffectiveModsChanged => OverlaySyncCause::EffectiveModsChanged,
            RuntimeSyncCause::GameActivated => OverlaySyncCause::GameActivated,
            RuntimeSyncCause::ModsRootChanged => OverlaySyncCause::ModsRootChanged,
            RuntimeSyncCause::ImporterRootChanged => OverlaySyncCause::ImporterRootChanged,
            RuntimeSyncCause::SafeModeChanged => OverlaySyncCause::SafeModeChanged,
            RuntimeSyncCause::CollectionApplied => OverlaySyncCause::CollectionApplied,
            RuntimeSyncCause::SettingsChanged => OverlaySyncCause::SettingsChanged,
            RuntimeSyncCause::Recovery => OverlaySyncCause::Recovery,
            RuntimeSyncCause::ManualRetry => OverlaySyncCause::Recovery,
        }
    }
}

/// Every cause, in declaration order.
pub open spec fn all_causes() -> Seq<RuntimeSyncCause> {
    seq![
        RuntimeSyncCause::EffectiveModsChanged,
        RuntimeSyncCause::GameActivated,
        RuntimeSyncCause::ModsRootChanged,
        RuntimeSyncCause::ImporterRootChanged,
        RuntimeSyncCause::SafeModeChanged,
        RuntimeSyncCause::CollectionApplied,
        RuntimeSyncCause::SettingsChanged,
        RuntimeSyncCause::Recovery,
        RuntimeSyncCause::ManualRetry,
    ]
}

proof fn lemma_labels_known()
    ensures
        "effective_mods_changed"@.len() == 22,
        "game_activated"@.len() == 14,
        "mods_root_changed"@.len() == 17,
        "importer_root_changed"@.len() == 21,
        "safe_mode_changed"@.len() == 17,
        "collection_applied"@.len() == 18,
        "settings_changed"@.len() == 16,
        "recovery"@.len() == 8,
        "manual_retry"@.len() == 12,
        "mods_root_changed"@[0] == 'm',
        "safe_mode_changed"@[0] == 's',
{
    reveal_strlit("effective_mods_changed");
    reveal_strlit("game_activated");
    reveal_strlit("mods_root_changed");
    reveal_strlit("importer_root_changed");
    reveal_strlit("safe_mode_changed");
    reveal_strlit("collection_applied");
    reveal_strlit("settings_changed");
    reveal_strlit("recovery");
    reveal_strlit("manual_retry");
}

/// Distinct causes have distinct labels.
pub proof fn lemma_cause_labels_distinct(a: RuntimeSyncCause, b: RuntimeSyncCause)
    ensures
        cause_label(a) == cause_label(b) ==> a == b,
{
    lemma_labels_known();
    if cause_label(a) == cause_label(b) && a != b {
        assert(cause_label(a).len() == cause_label(b).len());
        assert(cause_label(a)[0] == cause_label(b)[0]);
    }
}

/// The cause whose queue label is `label`, if any.
pub open spec fn cause_named(label: Seq<char>) -> Option<RuntimeSyncCause> {
    if exists|c: RuntimeSyncCause| cause_label(c) == label {
        Some(choose|c: RuntimeSyncCause| cause_label(c) == label)
    } else {
        None
    }
}

/// The cause whose queue label is `label`.
pub fn cause_from_label(label: &str) -> (r: Option<RuntimeSyncCause>)
    ensures
        r == cause_named(label@),
{
    let text = to_chars(label);
    let mut i: usize = 0;
    let causes = [
        RuntimeSyncCause::EffectiveModsChanged,
        RuntimeSyncCause::GameActivated,
        RuntimeSyncCause::ModsRootChanged,
        RuntimeSyncCause::ImporterRootChanged,
        RuntimeSyncCause::SafeModeChanged,
        RuntimeSyncCause::CollectionApplied,
        RuntimeSyncCause::SettingsChanged,
        RuntimeSyncCause::Recovery,
        RuntimeSyncCause::ManualRetry,
    ];
    assert(causes@ =~= all_causes());
    while i < 9
        invariant
            causes@ == all_causes(),
            text@ == label@,
            i <= 9,
            forall|k: int| 0 <= k < i ==> cause_label(#[trigger] all_causes()[k]) != label@,
        decreases 9 - i,
    {
        let candidate = causes[i];
        let name = to_chars(candidate.label());
        if chars_eq(name.as_slice(), text.as_slice()) {
            proof {
                let c = choose|c: RuntimeSyncCause| cause_label(c) == label@;
                lemma_cause_labels_distinct(c, candidate);
            }
            return Some(candidate);
        }
        i += 1;
    }
    assert forall|c: RuntimeSyncCause| cause_label(c) != label@ by {
        let k: int = match c {
            RuntimeSyncCause::EffectiveModsChanged => 0,
            RuntimeSyncCause::GameActivated => 1,
            RuntimeSyncCause::ModsRootChanged => 2,
            RuntimeSyncCause::ImporterRootChanged => 3,
            RuntimeSyncCause::SafeModeChanged => 4,
            RuntimeSyncCause::CollectionApplied => 5,
            RuntimeSyncCause::SettingsChanged => 6,
            RuntimeSyncCause::Recovery => 7,
            RuntimeSyncCause::ManualRetry => 8,
        };
        assert(all_causes()[k] == c);
    }
    None
}

/// Every cause survives the round trip through its queue label: parsing the
/// label a cause is queued under gives back that cause.
pub proof fn law_cause_label_round_trip(cause: RuntimeSyncCause)
    ensures
        cause_named(cause_label(cause)) == Some(cause),
{
    let c = choose|c: RuntimeSyncCause| cause_label(c) == cause_label(cause);
    lemma_cause_labels_distinct(c, cause);
}

/// The message that refuses a retry while activation is syncing.
pub open spec fn retry_syncing_message() -> Seq<char> {
    "Game activation is still syncing; retry runtime sync after it is ready"@
}

/// The message that refuses a retry after a failed activation.
pub open spec fn retry_failed_message() -> Seq<char> {
    "Game activation failed; retry activation before runtime sync"@
}

/// A manual runtime retry needs a completed activation recovery.
pub fn ensure_runtime_retry_ready(readiness: InitialRecoveryReadiness) -> (r: Result<(), AppError>)
    ensures
        readiness is Ready ==> r is Ok,
        (readiness is Unstarted || readiness is Syncing) ==> (r matches Err(AppError::Validation(m)) && m@ == retry_syncing_message()),
        readiness is Failed ==> (r matches Err(AppError::Validation(m)) && m@ == retry_failed_message()),
{
    match readiness {
        InitialRecoveryReadiness::Ready { .. } => Ok(()),
        InitialRecoveryReadiness::Unstarted { .. } | InitialRecoveryReadiness::Syncing { .. } => Err(AppError::Validation(
            String::from_str("Game activation is still syncing; retry runtime sync after it is ready"),
        )),
        InitialRecoveryReadiness::Failed { .. } => Err(AppError::Validation(
            String::from_str("Game activation failed; retry activation before runtime sync"),
        )),
    }
}

/// A copy of a list of strings.
pub fn clone_strings(items: &[String]) -> (r: Vec<String>)
    ensures
        r@.len() == items@.len(),
        forall|i: int| 0 <= i < items@.len() ==> #[trigger] r@[i]@ == items@[i]@,
{
    let mut r: Vec<String> = Vec::new();
    let mut i: usize = 0;
    while i < items.len()
        invariant
            i <= items@.len(),
            r@.len() == i,
            forall|k: int| 0 <= k < i ==> #[trigger] r@[k]@ == items@[k]@,
        decreases items@.len() - i,
    {
        r.push(items[i].clone());
        i += 1;
    }
    r
}

/// A refresh scoped to the given roots.
pub fn runtime_sync_request_for_roots(roots: &[String]) -> (r: RuntimeSyncRequest)
    ensures
        r matches RuntimeSyncRequest::ScopedRoots { roots: out } && out@.len() == roots@.len()
            && forall|i: int| 0 <= i < roots@.len() ==> #[trigger] out@[i]@ == roots@[i]@,
{
    RuntimeSyncRequest::ScopedRoots { roots: clone_strings(roots) }
}

/// The overlay cause under which a finished pass publishes.
pub open spec fn overlay_cause_for(reason: DiskReconcileReason) -> OverlaySyncCause {
    match reason {
        DiskReconcileReason::StartupBoot => OverlaySyncCause::Startup,
        DiskReconcileReason::OnboardingCompleted => OverlaySyncCause::FirstIndex,
        DiskReconcileReason::ManualRepair => OverlaySyncCause::Recovery,
        DiskReconcileReason::GameSwitched => OverlaySyncCause::GameActivated,
        DiskReconcileReason::WatcherBatch => OverlaySyncCause::EffectiveIniChanged,
        DiskReconcileReason::InternalMutation => OverlaySyncCause::EffectiveModsChanged,
        _ => OverlaySyncCause::Recovery,
    }
}

pub fn overlay_cause_for_reason(reason: DiskReconcileReason) -> (r: OverlaySyncCause)
    ensures
        r == overlay_cause_for(reason),
{
    match reason {
        DiskReconcileReason::StartupBoot => OverlaySyncCause::Startup,
        DiskReconcileReason::OnboardingCompleted => OverlaySyncCause::FirstIndex,
        DiskReconcileReason::ManualRepair => OverlaySyncCause::Recovery,
        DiskReconcileReason::GameSwitched => OverlaySyncCause::GameActivated,
        DiskReconcileReason::WatcherBatch => OverlaySyncCause::EffectiveIniChanged,
        DiskReconcileReason::InternalMutation => OverlaySyncCause::EffectiveModsChanged,
        DiskReconcileReason::ModsViewEntered | DiskReconcileReason::WindowRefocused
        | DiskReconcileReason::StorageSizeBackfill => OverlaySyncCause::Recovery,
    }
}

/// Settles one worker generation: its staged runtime effects are
/// acknowledged only when the publication settled and the generation is
/// still current; then the worker finishes if nothing newer is queued.
pub fn finish_runtime_sync_generation(
    state: &mut DiskReconcileState,
    game_id: &str,
    generation: u64,
    staged: StagedRuntimeEffects,
    settled: bool,
) -> (r: bool)
    ensures
        r == (old(state).sync(game_id@).runtime_sync_generation == generation && old(state).queued_job(game_id@).is_none()),
        final(state).sync(game_id@).pending_runtime_effects == if settled
            && old(state).sync(game_id@).runtime_sync_generation == generation
            && old(state).sync(game_id@).runtime_effects_generation == staged.generation {
            no_runtime_effects()
        } else {
            old(state).sync(game_id@).pending_runtime_effects
        },
        final(state).sync(game_id@).runtime_sync_worker_running == (!r && old(state).sync(game_id@).runtime_sync_worker_running),
        final(state).sync(game_id@).runtime_sync_generation == old(state).sync(game_id@).runtime_sync_generation,
        final(state).sync(game_id@).runtime_effects_generation == old(state).sync(game_id@).runtime_effects_generation,
        forall|g: Seq<char>| g != game_id@ ==> final(state).sync(g) == old(state).sync(g),
        forall|g: Seq<char>| final(state).queued_job(g) == old(state).queued_job(g),
{
    if settled && state.runtime_sync_is_current(game_id, generation) {
        let _ = state.acknowledge_runtime_effects(game_id, staged);
    }
    state.finish_runtime_sync(game_id, generation)
}

} // verus!

verus! {

pub open spec fn retry_not_active_message() -> Seq<char> {
    "Runtime sync can only be retried for the active game"@
}

/// A manual runtime retry is accepted only for the active game, once its
/// activation recovery is ready.
pub fn check_runtime_retry(
    active_game_id: &Option<String>,
    game_id: &str,
    readiness: InitialRecoveryReadiness,
) -> (r: Result<(), AppError>)
    ensures
        !(active_game_id matches Some(a) && a@ == game_id@) ==> (r matches Err(AppError::Validation(m))
            && m@ == retry_not_active_message()),
        (active_game_id matches Some(a) && a@ == game_id@) ==> (r is Ok <==> readiness is Ready),
{
    let is_active = match active_game_id {
        Some(active) => crate::text::str_eq(active.as_str(), game_id),
        None => false,
    };
    if !is_active {
        return Err(AppError::Validation(String::from_str("Runtime sync can only be retried for the active game")));
    }
    ensure_runtime_retry_ready(readiness)
}

/// The cause a worker publishes under: the one its job was queued with,
/// or the previous one when the label is unknown.
pub fn worker_cause(label: &str, fallback: RuntimeSyncCause) -> (r: RuntimeSyncCause)
    ensures
        r == match cause_named(label@) {
            Some(c) => c,
            None => fallback,
        },
{
    match cause_from_label(label) {
        Some(cause) => cause,
        None => fallback,
    }
}

/// Where a runtime sync generation stands.
#[derive(Debug, Clone, Copy, PartialEq, Eq, Structural)]
pub enum RuntimeSyncPhase {
    Queued,
    Running,
    Succeeded,
    NeedsManualReload,
    Failed,
}

/// What one overlay publication reported: a failure, or whether the
/// running game must be reloaded by hand.
#[derive(Debug, Clone, PartialEq, Eq)]
pub struct PublicationReport {
    pub failure: Option<String>,
    pub manual_reload_reason: Option<String>,
}

/// How a worker settles a publication: the phase it reports, its message,
/// and whether the staged runtime effects were delivered.
pub fn settle_publication(outcome: &Result<PublicationReport, AppError>) -> (r: (RuntimeSyncPhase, Option<String>, bool))
    ensures
        match outcome {
            Err(e) => r.0 == RuntimeSyncPhase::Failed && (r.1 matches Some(m) && m@ == e.spec_message()) && !r.2,
            Ok(report) => match report.failure {
                Some(f) => r.0 == RuntimeSyncPhase::Failed && r.1 == Some(f) && !r.2,
                None => match report.manual_reload_reason {
                    Some(reason) => r.0 == RuntimeSyncPhase::NeedsManualReload && r.1 == Some(reason) && r.2,
                    None => r.0 == RuntimeSyncPhase::Succeeded && r.1 is None && r.2,
                },
            },
        },
{
    match outcome {
        Err(error) => (RuntimeSyncPhase::Failed, Some(error.message()), false),
        Ok(report) => match &report.failure {
            Some(failure) => (RuntimeSyncPhase::Failed, Some(failure.clone()), false),
            None => match &report.manual_reload_reason {
                Some(reason) => (RuntimeSyncPhase::NeedsManualReload, Some(reason.clone()), true),
                None => (RuntimeSyncPhase::Succeeded, None, true),
            },
        },
    }
}

/// A stored mod row looked up for a changed path: its id, folder path,
/// status (1 when enabled) and whether other mods lie under it.
#[derive(Debug, Clone, PartialEq, Eq)]
pub struct LeafRuntimeRow {
    pub id: String,
    pub folder_path: String,
    pub status: i64,
    pub has_descendants: bool,
}

/// The identity key a changed path is counted under: relative to the mods
/// folder when it lies in it, else the path's own key.
pub open spec fn changed_path_key(mods_root: Seq<char>, path: Seq<char>) -> Seq<char> {
    match crate::reconcile::pass::relative_key_of(mods_root, path) {
        Some(k) => k,
        None => crate::path_rules::folder_key(path),
    }
}

pub open spec fn changed_path_keys(mods_root: Seq<char>, paths: Seq<String>) -> Seq<Seq<char>> {
    paths.map_values(|p: String| changed_path_key(mods_root, p@))
}

/// Leaf rows describe the change exactly when there is one per distinct
/// changed path and none has mods under it.
pub open spec fn leaf_rows_exact(mods_root: Seq<char>, paths: Seq<String>, rows: Seq<LeafRuntimeRow>) -> bool {
    &&& rows.len() == changed_path_keys(mods_root, paths).to_set().len()
    &&& forall|i: int| 0 <= i < rows.len() ==> !(#[trigger] rows[i]).has_descendants
}

/// The narrowest runtime refresh for committed folder changes: one change
/// per stable mod id when the looked-up rows are exact leaves, otherwise
/// (or when they could not be read) the changed roots.
pub fn runtime_sync_request_for_leaf_rows(
    mods_root: &str,
    changed_paths: &Vec<String>,
    rows: Option<Vec<LeafRuntimeRow>>,
    fallback_roots: &Vec<String>,
) -> (r: RuntimeSyncRequest)
    ensures
        match rows {
            Some(rs) if leaf_rows_exact(mods_root@, changed_paths@, rs@) => r matches RuntimeSyncRequest::Scoped { changes }
                && changes@.len() == rs@.len()
                && forall|i: int| 0 <= i < rs@.len() ==> (#[trigger] changes@[i]).mod_id == rs@[i].id
                    && changes@[i].folder_path == rs@[i].folder_path
                    && changes@[i].outcome == (if rs@[i].status == 1 { RuntimeModOutcome::Enabled } else { RuntimeModOutcome::Disabled }),
            _ => r matches RuntimeSyncRequest::ScopedRoots { roots } && roots@.len() == fallback_roots@.len()
                && forall|i: int| 0 <= i < fallback_roots@.len() ==> #[trigger] roots@[i]@ == fallback_roots@[i]@,
        },
{
    let found = match rows {
        Some(found) => found,
        None => return runtime_sync_request_for_roots(fallback_roots.as_slice()),
    };
    let mut keys: Vec<String> = Vec::new();
    let mut i: usize = 0;
    while i < changed_paths.len()
        invariant
            i <= changed_paths@.len(),
            views(keys@) == changed_path_keys(mods_root@, changed_paths@).take(i as int),
        decreases changed_paths@.len() - i,
    {
        let key = match crate::reconcile::pass::relative_identity_key(mods_root, changed_paths[i].as_str()) {
            Some(k) => k,
            None => crate::path_rules::folder_path_key(changed_paths[i].as_str()),
        };
        let ghost before = keys@;
        keys.push(key);
        proof {
            crate::sets::lemma_views_push(before, keys@.last());
            assert(changed_path_keys(mods_root@, changed_paths@).take(i + 1)
                =~= changed_path_keys(mods_root@, changed_paths@).take(i as int).push(keys@.last()@));
        }
        i += 1;
    }
    assert(changed_path_keys(mods_root@, changed_paths@).take(changed_paths@.len() as int) =~= changed_path_keys(mods_root@, changed_paths@));
    let unique = crate::sets::distinct_texts(&keys);
    proof {
        views(unique@).unique_seq_to_set();
        assert(views(unique@).len() == unique@.len());
    }
    if found.len() != unique.len() {
        return runtime_sync_request_for_roots(fallback_roots.as_slice());
    }
    let mut j: usize = 0;
    while j < found.len()
        invariant
            j <= found@.len(),
            rows == Some(found),
            forall|k: int| 0 <= k < j ==> !(#[trigger] found@[k]).has_descendants,
        decreases found@.len() - j,
    {
        if found[j].has_descendants {
            assert(found@[j as int].has_descendants);
            return runtime_sync_request_for_roots(fallback_roots.as_slice());
        }
        j += 1;
    }
    let mut changes: Vec<RuntimeModChange> = Vec::new();
    let mut k: usize = 0;
    while k < found.len()
        invariant
            k <= found@.len(),
            changes@.len() == k,
            forall|x: int| 0 <= x < k ==> (#[trigger] changes@[x]).mod_id == found@[x].id
                && changes@[x].folder_path == found@[x].folder_path
                && changes@[x].outcome == (if found@[x].status == 1 { RuntimeModOutcome::Enabled } else { RuntimeModOutcome::Disabled }),
        decreases found@.len() - k,
    {
        let outcome = if found[k].status == 1 { RuntimeModOutcome::Enabled } else { RuntimeModOutcome::Disabled };
        changes.push(RuntimeModChange {
            mod_id: found[k].id.clone(),
            folder_path: found[k].folder_path.clone(),
            outcome,
        });
        k += 1;
    }
    RuntimeSyncRequest::Scoped { changes }
}

} // verus!
