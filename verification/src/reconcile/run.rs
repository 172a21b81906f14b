//! Which runtime side-effects a finished reconcile pass owes, and the
//! result it reports once they were handed on.

use vstd::prelude::*;

use crate::reconcile::pass::ReconcileOutcome;
use crate::reconcile::runtime_sync::{overlay_cause_for, overlay_cause_for_reason, OverlaySyncCause};
use crate::reconcile::state::{stage_runtime_effects_step, DiskReconcileState, StagedRuntimeEffects};
use crate::reconcile::types::{
    status_applied, DiskReconcileReason, DiskReconcileResult, DiskReconcileStatus, DiskReconcileWarning,
    DiskReconcileWarningKind, PendingRuntimeEffects,
};

verus! {

/// Startup and first onboarding are authority boundaries: they republish
/// runtime state even when no disk row changed.
pub open spec fn is_authority_boundary(reason: DiskReconcileReason) -> bool {
    reason == DiskReconcileReason::StartupBoot || reason == DiskReconcileReason::OnboardingCompleted
}

/// The runtime work owed after a pass: collections are refreshed after any
/// applied change (or at an authority boundary); the overlay is republished
/// for folder or runtime-file changes (or at a boundary) unless the caller
/// defers it.
pub open spec fn runtime_effects_for(
    reason: DiskReconcileReason,
    status: DiskReconcileStatus,
    folders_changed: bool,
    objects_changed: bool,
    runtime_file_changed: bool,
    defer_overlay_sync: bool,
) -> PendingRuntimeEffects {
    let applied = status_applied(status);
    let boundary = is_authority_boundary(reason);
    PendingRuntimeEffects {
        collections_dirty: applied && (boundary || folders_changed || objects_changed || runtime_file_changed),
        overlay_refresh: !defer_overlay_sync && applied && (boundary || folders_changed || runtime_file_changed),
    }
}

pub fn requested_runtime_effects(
    reason: &DiskReconcileReason,
    status: &DiskReconcileStatus,
    folders_changed: bool,
    objects_changed: bool,
    runtime_file_changed: bool,
    defer_overlay_sync: bool,
) -> (r: PendingRuntimeEffects)
    ensures
        r == runtime_effects_for(*reason, *status, folders_changed, objects_changed, runtime_file_changed, defer_overlay_sync),
{
    let applied = status.applied();
    let authority_boundary = match reason {
        DiskReconcileReason::StartupBoot | DiskReconcileReason::OnboardingCompleted => true,
        _ => false,
    };
    PendingRuntimeEffects {
        collections_dirty: applied && (authority_boundary || folders_changed || objects_changed || runtime_file_changed),
        // The first index must publish even for an empty library: the unified
        // status panel is still a valid overlay without any character mod.
        overlay_refresh: !defer_overlay_sync && applied && (authority_boundary || folders_changed || runtime_file_changed),
    }
}

/// A blocked pass (not applied) owes no runtime work; a deferred overlay is
/// never republished by the pass itself; and whenever the overlay is
/// republished the collections are refreshed too.
pub proof fn law_runtime_effects_follow_the_projection(
    reason: DiskReconcileReason,
    status: DiskReconcileStatus,
    folders_changed: bool,
    objects_changed: bool,
    runtime_file_changed: bool,
    defer_overlay_sync: bool,
)
    ensures
        ({
            let e = runtime_effects_for(reason, status, folders_changed, objects_changed, runtime_file_changed, defer_overlay_sync);
            &&& !status_applied(status) ==> !e.collections_dirty && !e.overlay_refresh
            &&& defer_overlay_sync ==> !e.overlay_refresh
            &&& e.overlay_refresh ==> e.collections_dirty
            &&& (status_applied(status) && is_authority_boundary(reason)) ==> e.collections_dirty
                && (e.overlay_refresh <==> !defer_overlay_sync)
        }),
{
}

/// The runtime work an applied pass hands to the settlement: everything
/// now owed for the game, as staged, and the cause the overlay reports.
#[derive(Debug, Clone, Copy, PartialEq, Eq)]
pub struct RuntimeEffectsOrder {
    pub staged: StagedRuntimeEffects,
    pub overlay_cause: OverlaySyncCause,
}

/// What the settlement of the runtime work hands back: the work still owed,
/// and a warning when some of it could not be done.
#[derive(Debug, Clone, PartialEq, Eq)]
pub struct RuntimeSettlement {
    pub pending_runtime_effects: PendingRuntimeEffects,
    pub warning: Option<String>,
}

/// Stages the runtime work of a finished pass. Only an applied pass owes
/// work: its requested effects join what the game already owed, and the
/// settlement gets the whole. A pass that was not applied stages nothing.
pub fn stage_finished_pass(
    state: &mut DiskReconcileState,
    game_id: &str,
    reason: &DiskReconcileReason,
    outcome: &ReconcileOutcome,
    defer_overlay_sync: bool,
) -> (r: Option<RuntimeEffectsOrder>)
    requires
        old(state).sync(game_id@).runtime_effects_generation < u64::MAX,
    ensures
        ({
            let requested = runtime_effects_for(
                *reason,
                outcome.status,
                outcome.folders_changed,
                outcome.objects_changed,
                outcome.runtime_file_changed,
                defer_overlay_sync,
            );
            &&& status_applied(outcome.status) ==> (r matches Some(o)
                && stage_runtime_effects_step(*old(state), *final(state), game_id, requested, o.staged)
                && o.overlay_cause == overlay_cause_for(*reason))
            &&& !status_applied(outcome.status) ==> r is None && *final(state) == *old(state)
        }),
{
    if !outcome.status.applied() {
        return None;
    }
    let requested = requested_runtime_effects(
        reason,
        &outcome.status,
        outcome.folders_changed,
        outcome.objects_changed,
        outcome.runtime_file_changed,
        defer_overlay_sync,
    );
    let staged = state.stage_runtime_effects_for_settlement(game_id, requested);
    Some(RuntimeEffectsOrder { staged, overlay_cause: overlay_cause_for_reason(*reason) })
}

/// The warnings a settlement leaves on the result.
pub open spec fn settlement_warnings(settlement: Option<RuntimeSettlement>) -> Seq<DiskReconcileWarning> {
    match settlement {
        Some(s) => match s.warning {
            Some(m) => seq![DiskReconcileWarning { kind: DiskReconcileWarningKind::RuntimeEffectsPending, message: m }],
            None => Seq::empty(),
        },
        None => Seq::empty(),
    }
}

/// The result of a finished pass: the outcome as the pass found it, the
/// collections reported changed when the staged work refreshes them, the
/// work the settlement left owed, and its warning. The revision is assigned
/// when the result is recorded.
pub fn finished_pass_result(
    game_id: &str,
    reason: DiskReconcileReason,
    outcome: ReconcileOutcome,
    order: &Option<RuntimeEffectsOrder>,
    settlement: Option<RuntimeSettlement>,
) -> (r: DiskReconcileResult)
    ensures
        r.game_id@ == game_id@,
        r.reconcile_revision == 0,
        r.reason == reason,
        r.status == outcome.status,
        r.scan_scope == outcome.scan_scope,
        r.error_message == outcome.error_message,
        r.folder_conflicts == outcome.folder_conflicts,
        r.rename_confirmations == outcome.rename_confirmations,
        r.changed_roots == outcome.changed_roots,
        r.objects_changed == outcome.objects_changed,
        r.folders_changed == outcome.folders_changed,
        r.collections_changed == (order matches Some(o) && o.staged.pending.collections_dirty),
        r.runtime_file_changed == outcome.runtime_file_changed,
        r.thumbnail_roots == outcome.thumbnail_roots,
        r.cleared_selection_paths == outcome.cleared_selection_paths,
        r.path_updates == outcome.path_updates,
        r.change_summary == outcome.change_summary,
        r.pending_runtime_effects == (match settlement {
            Some(s) => s.pending_runtime_effects,
            None => crate::reconcile::types::no_runtime_effects(),
        }),
        r.warnings@ == settlement_warnings(settlement),
{
    let collections_changed = match order {
        Some(o) => o.staged.pending.collections_dirty,
        None => false,
    };
    let (pending_runtime_effects, warnings) = match settlement {
        Some(s) => {
            let warnings = match s.warning {
                Some(message) => vec![DiskReconcileWarning { kind: DiskReconcileWarningKind::RuntimeEffectsPending, message }],
                None => Vec::new(),
            };
            (s.pending_runtime_effects, warnings)
        },
        None => (PendingRuntimeEffects::none(), Vec::new()),
    };
    DiskReconcileResult {
        game_id: String::from_str(game_id),
        reconcile_revision: 0,
        reason,
        status: outcome.status,
        scan_scope: outcome.scan_scope,
        folder_conflicts: outcome.folder_conflicts,
        rename_confirmations: outcome.rename_confirmations,
        error_message: outcome.error_message,
        changed_roots: outcome.changed_roots,
        objects_changed: outcome.objects_changed,
        folders_changed: outcome.folders_changed,
        collections_changed,
        runtime_file_changed: outcome.runtime_file_changed,
        thumbnail_roots: outcome.thumbnail_roots,
        cleared_selection_paths: outcome.cleared_selection_paths,
        path_updates: outcome.path_updates,
        change_summary: outcome.change_summary,
        pending_runtime_effects,
        warnings,
    }
}

} // verus!
