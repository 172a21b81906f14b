//! The decisions behind the reconcile commands: which background phase a
//! result shows, when a caller waits for the initial recovery, how reviewed
//! rename decisions become watcher events, and what runtime refresh a
//! manual pass queues.

use vstd::prelude::*;

use crate::error::AppError;
use crate::path_rules::{contained_relative, is_contained_relative, join_path, joined};
use crate::reconcile::request::ModWatchEvent;
use crate::reconcile::runtime_sync::{runtime_sync_request_for_roots, RuntimeSyncCause, RuntimeSyncRequest};
use crate::reconcile::state::InitialRecoveryReadiness;
use crate::reconcile::types::{
    status_applied, DiskReconcileReason, DiskReconcileResult, DiskReconcileStatus, OnboardingIndexingBackgroundPhase,
    OnboardingIndexingSnapshotPhase, OnboardingIndexingSnapshotProgress, RenameConfirmationResolution,
    RenameConfirmationResolutionAction,
};
use crate::settings::{find_game, game_index, AppSettings};
use crate::text::{concat_str, from_chars, to_chars};

verus! {

/// The progress shown while a prepared snapshot is checked again before
/// its apply.
pub fn snapshot_rechecking_progress(session_id: String, game_id: String) -> (r: OnboardingIndexingSnapshotProgress)
    ensures
        r.session_id == session_id,
        r.game_id == game_id,
        r.phase == OnboardingIndexingSnapshotPhase::Rechecking,
        r.completed_games == 0 && r.total_games == 0,
        r.completed_roots == 0 && r.total_roots == 0 && r.folders_classified == 0,
        r.current_root is None,
        r.elapsed_ms == 0,
{
    OnboardingIndexingSnapshotProgress {
        session_id,
        game_id,
        phase: OnboardingIndexingSnapshotPhase::Rechecking,
        completed_games: 0,
        total_games: 0,
        completed_roots: 0,
        total_roots: 0,
        folders_classified: 0,
        current_root: None,
        elapsed_ms: 0,
    }
}

/// A game is ready only once its projection was applied; any other result
/// needs attention.
pub fn background_phase_for_reconcile_status(status: &DiskReconcileStatus) -> (r: OnboardingIndexingBackgroundPhase)
    ensures
        r == if status_applied(*status) {
            OnboardingIndexingBackgroundPhase::Ready
        } else {
            OnboardingIndexingBackgroundPhase::NeedsAttention
        },
{
    if status.applied() {
        OnboardingIndexingBackgroundPhase::Ready
    } else {
        OnboardingIndexingBackgroundPhase::NeedsAttention
    }
}

/// How an operation ended, for diagnostics.
#[derive(Debug, Clone, Copy, PartialEq, Eq, Structural)]
pub enum TelemetryOutcome {
    Success,
    Failed,
    Cancelled,
}

/// A cancelled operation is reported as cancelled; any other error as a
/// failure.
pub fn telemetry_outcome_for_error(error: &AppError) -> (r: TelemetryOutcome)
    ensures
        r == if *error is Cancelled {
            TelemetryOutcome::Cancelled
        } else {
            TelemetryOutcome::Failed
        },
{
    match error {
        AppError::Cancelled => TelemetryOutcome::Cancelled,
        _ => TelemetryOutcome::Failed,
    }
}

pub open spec fn uncontained_path_message() -> Seq<char> {
    "Rename confirmation path must be a contained relative folder path"@
}

/// A reviewed path joined under the mods root; refused unless it is a
/// relative path that stays inside the root.
pub fn checked_resolution_path(root: &str, relative: &str) -> (r: Result<String, AppError>)
    ensures
        contained_relative(relative@) ==> (r matches Ok(p) && p@ == joined(root@, relative@)),
        !contained_relative(relative@) ==> (r matches Err(AppError::Security(m)) && m@ == uncontained_path_message()),
{
    let rel = to_chars(relative);
    if !is_contained_relative(rel.as_slice()) {
        return Err(AppError::Security(String::from_str(
            "Rename confirmation path must be a contained relative folder path",
        )));
    }
    let base = to_chars(root);
    let full = join_path(base.as_slice(), rel.as_slice());
    Ok(from_chars(full.as_slice()))
}

/// Opening the mods view or switching games while the initial recovery
/// runs reuses that pass instead of queueing another.
pub fn should_wait_for_initial_recovery(reason: &DiskReconcileReason, readiness: InitialRecoveryReadiness) -> (r: bool)
    ensures
        r == ((*reason == DiskReconcileReason::ModsViewEntered || *reason == DiskReconcileReason::GameSwitched)
            && readiness is Syncing),
{
    let waits_for = match reason {
        DiskReconcileReason::ModsViewEntered | DiskReconcileReason::GameSwitched => true,
        _ => false,
    };
    waits_for && match readiness {
        InitialRecoveryReadiness::Syncing { .. } => true,
        _ => false,
    }
}

/// A manual pass refreshes the runtime of the roots it changed, or all of
/// it when it names none.
pub fn manual_reconcile_runtime_request(changed_roots: &Vec<String>) -> (r: RuntimeSyncRequest)
    ensures
        changed_roots@.len() == 0 ==> r is Full,
        changed_roots@.len() > 0 ==> (r matches RuntimeSyncRequest::ScopedRoots { roots } && roots@.len() == changed_roots@.len()
            && forall|i: int| 0 <= i < changed_roots@.len() ==> #[trigger] roots@[i]@ == changed_roots@[i]@),
{
    if changed_roots.len() == 0 {
        RuntimeSyncRequest::Full
    } else {
        runtime_sync_request_for_roots(changed_roots.as_slice())
    }
}

/// A manual pass of the active game that changed folders or runtime files
/// queues a recovery refresh of what it changed.
pub fn runtime_sync_after_manual_reconcile(
    result: &DiskReconcileResult,
    active_game_id: &Option<String>,
) -> (r: Option<(RuntimeSyncCause, RuntimeSyncRequest)>)
    ensures
        r is Some <==> (status_applied(result.status) && (result.folders_changed || result.runtime_file_changed)
            && (active_game_id matches Some(a) && a@ == result.game_id@)),
        r matches Some((cause, request)) ==> cause == RuntimeSyncCause::Recovery
            && (result.changed_roots@.len() == 0 ==> request is Full)
            && (result.changed_roots@.len() > 0 ==> request is ScopedRoots),
{
    if !result.status.applied() || (!result.folders_changed && !result.runtime_file_changed) {
        return None;
    }
    let is_active = match active_game_id {
        Some(a) => *a == result.game_id,
        None => false,
    };
    if !is_active {
        return None;
    }
    Some((RuntimeSyncCause::Recovery, manual_reconcile_runtime_request(&result.changed_roots)))
}

pub open spec fn no_resolutions_message() -> Seq<char> {
    "At least one rename confirmation resolution is required"@
}

pub open spec fn previous_required_message() -> Seq<char> {
    "Confirmed rename requires a previous folder path"@
}

pub open spec fn current_required_message() -> Seq<char> {
    "Confirmed rename requires a current folder path"@
}

/// The watcher event a reviewed decision becomes, or why it is refused.
pub open spec fn resolution_event_ok(
    mods_path: Seq<char>,
    resolution: RenameConfirmationResolution,
    event: ModWatchEvent,
) -> bool {
    match event {
        ModWatchEvent::RenameResolution { group_id, from, to, apply_as_rename } => {
            &&& group_id == resolution.group_id
            &&& apply_as_rename == (resolution.action == RenameConfirmationResolutionAction::Rename)
            &&& apply_as_rename ==> (resolution.previous_path matches Some(p) && from matches Some(f)
                && f@ == joined(mods_path, p@))
            &&& apply_as_rename ==> (resolution.current_path matches Some(c) && to matches Some(t)
                && t@ == joined(mods_path, c@))
            &&& !apply_as_rename ==> from is None && to is None
        },
        _ => false,
    }
}

/// Whether a reviewed decision can be turned into an event.
pub open spec fn resolution_acceptable(resolution: RenameConfirmationResolution) -> bool {
    resolution.action == RenameConfirmationResolutionAction::Rename ==> ((resolution.previous_path matches Some(p)
        && contained_relative(p@)) && (resolution.current_path matches Some(c) && contained_relative(c@)))
}

/// `e` is why a reviewed decision is refused: the first missing path, or a
/// path that leaves the mods folder.
pub open spec fn refused_with(resolution: RenameConfirmationResolution, e: AppError) -> bool {
    match resolution.previous_path {
        None => e matches AppError::Validation(m) && m@ == previous_required_message(),
        Some(_) => match resolution.current_path {
            None => e matches AppError::Validation(m) && m@ == current_required_message(),
            Some(_) => e matches AppError::Security(m) && m@ == uncontained_path_message(),
        },
    }
}

fn resolution_event(mods_path: &str, resolution: RenameConfirmationResolution) -> (r: Result<ModWatchEvent, AppError>)
    ensures
        resolution_acceptable(resolution) ==> (r matches Ok(e) && resolution_event_ok(mods_path@, resolution, e)),
        !resolution_acceptable(resolution) ==> (r matches Err(e) && refused_with(resolution, e)),
{
    let apply_as_rename = match resolution.action {
        RenameConfirmationResolutionAction::Rename => true,
        RenameConfirmationResolutionAction::Separate => false,
    };
    let RenameConfirmationResolution { group_id, action: _, previous_path, current_path } = resolution;
    if !apply_as_rename {
        return Ok(ModWatchEvent::RenameResolution { group_id, from: None, to: None, apply_as_rename: false });
    }
    let previous = match previous_path {
        None => {
            return Err(AppError::Validation(String::from_str("Confirmed rename requires a previous folder path")));
        },
        Some(p) => p,
    };
    let current = match current_path {
        None => {
            return Err(AppError::Validation(String::from_str("Confirmed rename requires a current folder path")));
        },
        Some(c) => c,
    };
    let from = match checked_resolution_path(mods_path, previous.as_str()) {
        Err(e) => return Err(e),
        Ok(f) => f,
    };
    let to = match checked_resolution_path(mods_path, current.as_str()) {
        Err(e) => return Err(e),
        Ok(t) => t,
    };
    Ok(ModWatchEvent::RenameResolution { group_id, from: Some(from), to: Some(to), apply_as_rename: true })
}

pub open spec fn game_missing_message(id: Seq<char>) -> Seq<char> {
    "Game '"@ + id + "' was not found"@
}

/// The watcher events for the reviewed decisions of a game, one per
/// decision in order, with their paths joined under the game's mods folder.
pub fn rename_resolution_events(
    settings: &AppSettings,
    game_id: &str,
    resolutions: Vec<RenameConfirmationResolution>,
) -> (r: Result<Vec<ModWatchEvent>, AppError>)
    ensures
        resolutions@.len() == 0 ==> (r matches Err(AppError::Validation(m)) && m@ == no_resolutions_message()),
        resolutions@.len() > 0 && game_index(settings.games@, game_id@) < 0 ==> (r matches Err(AppError::Validation(m))
            && m@ == game_missing_message(game_id@)),
        resolutions@.len() > 0 && game_index(settings.games@, game_id@) >= 0 ==> {
            let root = settings.games@[game_index(settings.games@, game_id@)].mod_path@;
            &&& (forall|i: int| 0 <= i < resolutions@.len() ==> resolution_acceptable(#[trigger] resolutions@[i])) ==> (r matches Ok(events)
                && events@.len() == resolutions@.len()
                && forall|i: int| 0 <= i < resolutions@.len() ==> resolution_event_ok(root, resolutions@[i], #[trigger] events@[i]))
            &&& !(forall|i: int| 0 <= i < resolutions@.len() ==> resolution_acceptable(#[trigger] resolutions@[i])) ==> exists|i: int|
                0 <= i < resolutions@.len() && !resolution_acceptable(#[trigger] resolutions@[i])
                && (forall|j: int| 0 <= j < i ==> resolution_acceptable(#[trigger] resolutions@[j]))
                && (r matches Err(e) && refused_with(resolutions@[i], e))
        },
{
    if resolutions.len() == 0 {
        return Err(AppError::Validation(String::from_str("At least one rename confirmation resolution is required")));
    }
    let k = match find_game(&settings.games, game_id) {
        None => {
            let a = concat_str("Game '", game_id);
            return Err(AppError::Validation(concat_str(a.as_str(), "' was not found")));
        },
        Some(k) => k,
    };
    let root = settings.games[k].mod_path.as_str();
    let ghost all = resolutions@;
    let mut input = resolutions;
    let mut events: Vec<ModWatchEvent> = Vec::new();
    let mut done: usize = 0;
    let ghost total: usize = input.len();
    assert(all.skip(0) =~= all);
    while input.len() > 0
        invariant
            input@ == all.skip(done as int),
            all == resolutions@,
            all.len() > 0,
            k == game_index(settings.games@, game_id@),
            k < settings.games@.len(),
            all.len() == total,
            done <= all.len(),
            root@ == settings.games@[k as int].mod_path@,
            events@.len() == done,
            forall|i: int| 0 <= i < done ==> resolution_event_ok(root@, all[i], #[trigger] events@[i]),
            forall|i: int| 0 <= i < done ==> resolution_acceptable(#[trigger] all[i]),
        decreases input@.len(),
    {
        let resolution = input.remove(0);
        proof {
            assert(resolution == all[done as int]);
            assert(all.skip(done as int).remove(0) =~= all.skip(done + 1));
        }
        match resolution_event(root, resolution) {
            Err(e) => {
                assert(!resolution_acceptable(all[done as int]));
                return Err(e);
            },
            Ok(event) => {
                events.push(event);
            },
        }
        done += 1;
    }
    Ok(events)
}

} // verus!

verus! {

/// Two lists of strings with the same strings in the same order.
pub open spec fn same_text_list(a: Seq<String>, b: Seq<String>) -> bool {
    crate::sets::views(a) == crate::sets::views(b)
}

fn texts_equal(a: &Vec<String>, b: &Vec<String>) -> (r: bool)
    ensures
        r == same_text_list(a@, b@),
{
    if a.len() != b.len() {
        assert(crate::sets::views(a@).len() != crate::sets::views(b@).len());
        return false;
    }
    let mut i: usize = 0;
    while i < a.len()
        invariant
            i <= a@.len(),
            a@.len() == b@.len(),
            forall|k: int| 0 <= k < i ==> (#[trigger] a@[k])@ == b@[k]@,
        decreases a@.len() - i,
    {
        if a[i] != b[i] {
            assert(crate::sets::views(a@)[i as int] != crate::sets::views(b@)[i as int]);
            return false;
        }
        i += 1;
    }
    assert(crate::sets::views(a@) =~= crate::sets::views(b@));
    true
}

/// The game whose disk state must be reconciled after a settings save: the
/// active game, when the Safe Mode keywords changed.
pub fn reconcile_after_save(previous: &AppSettings, saved: &AppSettings) -> (r: Option<String>)
    ensures
        r == (if !same_text_list(saved.safety.keywords@, previous.safety.keywords@) {
            saved.active_game_id
        } else {
            None
        }),
{
    if texts_equal(&saved.safety.keywords, &previous.safety.keywords) {
        None
    } else {
        match &saved.active_game_id {
            Some(id) => Some(id.clone()),
            None => None,
        }
    }
}

/// The game whose initial recovery settings hydration waits for: the
/// active game, when its mods folder is set.
pub fn settings_recovery_target(settings: &AppSettings) -> (r: Option<String>)
    ensures
        match settings.active_game_id {
            None => r is None,
            Some(id) => {
                let k = game_index(settings.games@, id@);
                if k < 0 || settings.games@[k].mod_path@.len() == 0 {
                    r is None
                } else {
                    r matches Some(g) && g@ == settings.games@[k].id@
                }
            },
        },
{
    match settings.active_game() {
        Some(game) => {
            if game.mod_path.as_str().is_empty() {
                None
            } else {
                Some(game.id.clone())
            }
        },
        None => None,
    }
}

pub open spec fn hydration_failure_message(error: Seq<char>) -> Seq<char> {
    "Disk recovery failed before settings hydration: "@ + error
}

pub open spec fn activation_failure_message(game_id: Seq<char>, error: Seq<char>) -> Seq<char> {
    "Disk recovery failed while activating game '"@ + game_id + "': "@ + error
}

/// The result of the recovery that settings hydration waited for.
pub fn hydration_recovery_result(outcome: crate::reconcile::state::InitialRecoveryOutcome) -> (r: Result<DiskReconcileResult, AppError>)
    ensures
        match outcome {
            crate::reconcile::state::InitialRecoveryOutcome::Completed(result) => r == Ok::<DiskReconcileResult, AppError>(*result),
            crate::reconcile::state::InitialRecoveryOutcome::Failed(e) => r matches Err(AppError::Io(m))
                && m@ == hydration_failure_message(e@),
        },
{
    match outcome {
        crate::reconcile::state::InitialRecoveryOutcome::Completed(result) => Ok(*result),
        crate::reconcile::state::InitialRecoveryOutcome::Failed(error) => Err(AppError::Io(concat_str(
            "Disk recovery failed before settings hydration: ",
            error.as_str(),
        ))),
    }
}

/// The result of the recovery an activation waited for.
pub fn activation_recovery_result(game_id: &str, outcome: crate::reconcile::state::InitialRecoveryOutcome) -> (r: Result<DiskReconcileResult, AppError>)
    ensures
        match outcome {
            crate::reconcile::state::InitialRecoveryOutcome::Completed(result) => r == Ok::<DiskReconcileResult, AppError>(*result),
            crate::reconcile::state::InitialRecoveryOutcome::Failed(e) => r matches Err(AppError::Io(m))
                && m@ == activation_failure_message(game_id@, e@),
        },
{
    match outcome {
        crate::reconcile::state::InitialRecoveryOutcome::Completed(result) => Ok(*result),
        crate::reconcile::state::InitialRecoveryOutcome::Failed(error) => {
            let head = concat_str("Disk recovery failed while activating game '", game_id);
            let middle = concat_str(head.as_str(), "': ");
            Err(AppError::Io(concat_str(middle.as_str(), error.as_str())))
        },
    }
}

/// A recovery result is shown to the user unless it applied cleanly.
pub fn recovery_result_needs_attention(status: &DiskReconcileStatus) -> (r: bool)
    ensures
        r == (*status != DiskReconcileStatus::Applied),
{
    match status {
        DiskReconcileStatus::Applied => false,
        _ => true,
    }
}

} // verus!
