use emmm_reconcile::reconcile::runtime_sync::{
    cause_from_label, ensure_runtime_retry_ready, finish_runtime_sync_generation, RuntimeSyncCause,
};
use emmm_reconcile::reconcile::state::{DiskReconcileState, InitialRecoveryReadiness};
use emmm_reconcile::reconcile::types::PendingRuntimeEffects;

#[test]
fn runtime_sync_cause_round_trips_through_queue_label() {
    for cause in [
        RuntimeSyncCause::EffectiveModsChanged,
        RuntimeSyncCause::GameActivated,
        RuntimeSyncCause::ModsRootChanged,
        RuntimeSyncCause::ImporterRootChanged,
        RuntimeSyncCause::SafeModeChanged,
        RuntimeSyncCause::CollectionApplied,
        RuntimeSyncCause::SettingsChanged,
        RuntimeSyncCause::Recovery,
        RuntimeSyncCause::ManualRetry,
    ] {
        assert_eq!(
            cause_from_label(cause.label()).unwrap().label(),
            cause.label()
        );
    }
}

#[test]
fn unknown_queue_label_has_no_cause() {
    assert!(cause_from_label("startup").is_none());
    assert_eq!(cause_from_label("recovery"), Some(RuntimeSyncCause::Recovery));
}

#[test]
fn manual_retry_requires_completed_activation_recovery() {
    assert!(ensure_runtime_retry_ready(InitialRecoveryReadiness::Ready { generation: 4 }).is_ok());
    assert!(ensure_runtime_retry_ready(InitialRecoveryReadiness::Syncing { generation: 4 }).is_err());
    assert!(ensure_runtime_retry_ready(InitialRecoveryReadiness::Failed { generation: 4 }).is_err());
}

#[test]
fn superseded_generation_does_not_acknowledge_runtime_effects() {
    let mut state = DiskReconcileState::new();
    state.enqueue_runtime_sync("game", "first".to_string(), Some(1), None);
    let first = state
        .claim_latest_runtime_sync("game")
        .expect("first generation should be claimable");
    let staged = state.stage_runtime_effects_for_settlement(
        "game",
        PendingRuntimeEffects {
            collections_dirty: true,
            overlay_refresh: true,
        },
    );
    state.enqueue_runtime_sync("game", "second".to_string(), Some(2), None);

    assert!(!finish_runtime_sync_generation(
        &mut state,
        "game",
        first.generation,
        staged,
        true,
    ));
    let pending = state.stage_runtime_effects("game", PendingRuntimeEffects::default());
    assert!(pending.collections_dirty);
    assert!(pending.overlay_refresh);
}

#[test]
fn current_generation_acknowledges_its_staged_effects() {
    let mut state = DiskReconcileState::new();
    state.enqueue_runtime_sync("game", "first".to_string(), Some(1), None);
    let job = state.claim_latest_runtime_sync("game").expect("queued");
    let staged = state.stage_runtime_effects_for_settlement(
        "game",
        PendingRuntimeEffects {
            collections_dirty: true,
            overlay_refresh: false,
        },
    );
    assert!(finish_runtime_sync_generation(&mut state, "game", job.generation, staged, true));
    assert_eq!(
        state.stage_runtime_effects("game", PendingRuntimeEffects::default()),
        PendingRuntimeEffects::default()
    );
}
