use emmm_reconcile::reconcile::pass::{source_unavailable, ReconcileOutcome};
use emmm_reconcile::reconcile::run::{finished_pass_result, stage_finished_pass, RuntimeSettlement};
use emmm_reconcile::reconcile::runtime_sync::overlay_cause_for_reason;
use emmm_reconcile::reconcile::runtime_sync::OverlaySyncCause;
use emmm_reconcile::reconcile::state::DiskReconcileState;
use emmm_reconcile::reconcile::types::{
    DiskReconcileReason, DiskReconcileScanScope, DiskReconcileStatus, DiskReconcileWarningKind, PendingRuntimeEffects,
};

fn applied_outcome(folders_changed: bool) -> ReconcileOutcome {
    ReconcileOutcome {
        status: DiskReconcileStatus::Applied,
        scan_scope: DiskReconcileScanScope::Full,
        error_message: None,
        folder_conflicts: vec![],
        rename_confirmations: vec![],
        changed_roots: vec!["Alice".to_string()],
        thumbnail_roots: vec![],
        objects_changed: false,
        folders_changed,
        runtime_file_changed: false,
        cleared_selection_paths: vec![],
        path_updates: vec![],
        change_summary: Default::default(),
    }
}

#[test]
fn applied_pass_hands_its_work_to_the_settlement() {
    let mut state = DiskReconcileState::new();
    assert!(state.runtime_effects_can_stage("game"));
    let outcome = applied_outcome(true);
    let order = stage_finished_pass(&mut state, "game", &DiskReconcileReason::InternalMutation, &outcome, false)
        .expect("applied pass stages");
    assert_eq!(order.staged.pending, PendingRuntimeEffects { collections_dirty: true, overlay_refresh: true });
    assert_eq!(order.staged.generation, 1);
    assert_eq!(order.overlay_cause, OverlaySyncCause::EffectiveModsChanged);
    let settlement = RuntimeSettlement {
        pending_runtime_effects: PendingRuntimeEffects { collections_dirty: false, overlay_refresh: true },
        warning: Some("overlay busy".to_string()),
    };
    let result = finished_pass_result("game", DiskReconcileReason::InternalMutation, outcome, &Some(order), Some(settlement));
    assert_eq!(result.game_id, "game");
    assert_eq!(result.reconcile_revision, 0);
    assert!(result.collections_changed);
    assert!(result.folders_changed);
    assert_eq!(result.changed_roots, vec!["Alice".to_string()]);
    assert_eq!(result.pending_runtime_effects, PendingRuntimeEffects { collections_dirty: false, overlay_refresh: true });
    assert_eq!(result.warnings.len(), 1);
    assert_eq!(result.warnings[0].kind, DiskReconcileWarningKind::RuntimeEffectsPending);
    assert_eq!(result.warnings[0].message, "overlay busy");
}

#[test]
fn deferred_watcher_pass_leaves_the_overlay_alone() {
    let mut state = DiskReconcileState::new();
    let order = stage_finished_pass(&mut state, "game", &DiskReconcileReason::WatcherBatch, &applied_outcome(true), true)
        .expect("applied pass stages");
    assert_eq!(order.staged.pending, PendingRuntimeEffects { collections_dirty: true, overlay_refresh: false });
    assert_eq!(order.overlay_cause, OverlaySyncCause::EffectiveIniChanged);
}

#[test]
fn blocked_pass_owes_nothing() {
    let mut state = DiskReconcileState::new();
    let outcome = source_unavailable("gone".to_string(), vec![], vec![], true, Default::default());
    let order = stage_finished_pass(&mut state, "game", &DiskReconcileReason::StartupBoot, &outcome, false);
    assert!(order.is_none());
    let result = finished_pass_result("game", DiskReconcileReason::StartupBoot, outcome, &order, None);
    assert_eq!(result.status, DiskReconcileStatus::SourceUnavailable);
    assert!(!result.collections_changed);
    assert_eq!(result.pending_runtime_effects, PendingRuntimeEffects::default());
    assert!(result.warnings.is_empty());
    assert_eq!(result.error_message.as_deref(), Some("gone"));
}

#[test]
fn each_reason_names_its_overlay_cause() {
    assert_eq!(overlay_cause_for_reason(DiskReconcileReason::StartupBoot), OverlaySyncCause::Startup);
    assert_eq!(overlay_cause_for_reason(DiskReconcileReason::OnboardingCompleted), OverlaySyncCause::FirstIndex);
    assert_eq!(overlay_cause_for_reason(DiskReconcileReason::GameSwitched), OverlaySyncCause::GameActivated);
    assert_eq!(overlay_cause_for_reason(DiskReconcileReason::WindowRefocused), OverlaySyncCause::Recovery);
    assert_eq!(overlay_cause_for_reason(DiskReconcileReason::ManualRepair), OverlaySyncCause::Recovery);
}
