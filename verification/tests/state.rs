use emmm_reconcile::reconcile::state::{
    DiskReconcileState, InitialRecoveryOutcome, InitialRecoveryReadiness, InitialRecoveryStart,
};
use emmm_reconcile::reconcile::types::{
    DiskReconcilePathKind, DiskReconcilePathUpdate, FolderNameConflictCandidate, FolderNameConflictGroup,
};
use emmm_reconcile::reconcile::types::{
    DiskReconcileReason, DiskReconcileResult, DiskReconcileScanScope, DiskReconcileStatus, PendingRuntimeEffects,
};

#[test]
fn recovery_readiness_reports_pending_without_waiting_for_completion() {
    let mut state = DiskReconcileState::new();
    let generation = state.mark_initial_recovery_pending("game");
    assert_eq!(
        state.initial_recovery_readiness("game"),
        InitialRecoveryReadiness::Syncing { generation }
    );
}

#[test]
fn activation_generation_rejects_stale_game_results() {
    let mut state = DiskReconcileState::new();
    let first = state.begin_activation(Some("game-a".to_string()));
    let first_authority = state
        .activation_authority_for("game-a")
        .expect("current game should receive publication authority");
    let second = state.begin_activation(Some("game-b".to_string()));

    assert!(!state.activation_is_current(Some("game-a"), first));
    assert!(state.activation_is_current(Some("game-b"), second));
    assert!(!state.authority_is_current(&first_authority));
}

#[test]
fn restoring_activation_after_a_failed_persist_revokes_the_failed_target() {
    let mut state = DiskReconcileState::new();
    state.begin_activation(Some("game-a".to_string()));
    let failed_generation = state.begin_activation(Some("game-b".to_string()));
    state.begin_activation(Some("game-a".to_string()));

    assert!(state.activation_authority_for_generation("game-b", failed_generation).is_none());
    assert!(state.activation_authority_for("game-a").is_some());
}

#[test]
fn runtime_effect_intent_persists_and_merges_until_acknowledged() {
    let mut state = DiskReconcileState::new();

    let first = state.stage_runtime_effects(
        "game",
        PendingRuntimeEffects { collections_dirty: true, overlay_refresh: false },
    );
    assert!(first.collections_dirty);
    assert!(!first.overlay_refresh);

    let retry = state.stage_runtime_effects_for_settlement(
        "game",
        PendingRuntimeEffects { collections_dirty: false, overlay_refresh: true },
    );
    assert!(retry.pending.collections_dirty);
    assert!(retry.pending.overlay_refresh);

    state.acknowledge_runtime_effects("game", retry);
    assert_eq!(
        state.stage_runtime_effects("game", PendingRuntimeEffects::default()),
        PendingRuntimeEffects::default()
    );
}

#[test]
fn runtime_sync_queue_is_single_flight_and_latest_wins() {
    let mut state = DiskReconcileState::new();
    let first = state.enqueue_runtime_sync("game", "first".to_string(), Some(1), None);
    let second = state.enqueue_runtime_sync("game", "second".to_string(), Some(2), None);

    assert!(first.start_worker);
    assert!(!second.start_worker);
    assert!(second.generation > first.generation);
    let claimed = state
        .claim_latest_runtime_sync("game")
        .expect("latest request should be queued");
    assert_eq!(claimed.generation, second.generation);
    assert_eq!(claimed.cause, "second");
    assert_eq!(claimed.publication_revision, Some(2));
    assert!(state.finish_runtime_sync("game", claimed.generation));
}

#[test]
fn older_runtime_sync_cannot_finish_a_newer_generation() {
    let mut state = DiskReconcileState::new();
    let first = state.enqueue_runtime_sync("game", "first".to_string(), Some(1), None);
    let first_job = state
        .claim_latest_runtime_sync("game")
        .expect("first request should be claimed");
    let second = state.enqueue_runtime_sync("game", "second".to_string(), Some(2), None);

    assert!(!state.runtime_sync_is_current("game", first_job.generation));
    assert!(state.runtime_sync_is_current("game", second.generation));
    assert!(!state.finish_runtime_sync("game", first_job.generation));
    let second_job = state
        .claim_latest_runtime_sync("game")
        .expect("newer request should remain queued");
    assert_eq!(second_job.generation, second.generation);
    assert!(state.finish_runtime_sync("game", second_job.generation));
    assert!(first.generation < second.generation);
}

fn applied_result(game_id: &str) -> DiskReconcileResult {
    DiskReconcileResult {
        game_id: game_id.into(),
        reconcile_revision: 0,
        reason: DiskReconcileReason::ManualRepair,
        status: DiskReconcileStatus::Applied,
        scan_scope: DiskReconcileScanScope::Full,
        folder_conflicts: vec![],
        rename_confirmations: vec![],
        error_message: None,
        changed_roots: vec![],
        objects_changed: false,
        folders_changed: false,
        collections_changed: false,
        runtime_file_changed: false,
        thumbnail_roots: vec![],
        cleared_selection_paths: vec![],
        path_updates: vec![],
        change_summary: Default::default(),
        pending_runtime_effects: Default::default(),
        warnings: vec![],
    }
}

#[test]
fn recorded_results_carry_increasing_revisions_per_game() {
    let mut state = DiskReconcileState::new();
    let mut first = applied_result("game");
    state.record_result("game", &mut first, 10);
    let mut second = applied_result("game");
    state.record_result("game", &mut second, 20);
    let mut other = applied_result("other");
    state.record_result("other", &mut other, 30);
    assert_eq!(first.reconcile_revision, 1);
    assert_eq!(second.reconcile_revision, 2);
    assert_eq!(other.reconcile_revision, 1);
    assert_eq!(state.authoritative_result("game").map(|r| r.reconcile_revision), Some(2));
}

fn detailed_result(game_id: &str) -> DiskReconcileResult {
    let mut result = applied_result(game_id);
    result.status = DiskReconcileStatus::AppliedWithFolderConflicts;
    result.changed_roots = vec!["Alice".to_string(), "Bob".to_string()];
    result.folder_conflicts = vec![FolderNameConflictGroup {
        group_id: "group".to_string(),
        identity: "alice".to_string(),
        display_name: "Alice".to_string(),
        candidates: vec![FolderNameConflictCandidate {
            path: "E:/Mods/Alice".to_string(),
            folder_name: "Alice".to_string(),
            base_name: "Alice".to_string(),
            is_enabled: true,
        }],
    }];
    result.path_updates = vec![DiskReconcilePathUpdate {
        from: "Alice/Old".to_string(),
        to: "Alice/New".to_string(),
        kind: DiskReconcilePathKind::Mod,
    }];
    result.error_message = Some("note".to_string());
    result
}

#[test]
fn the_newest_result_is_read_back_with_all_its_contents() {
    let mut state = DiskReconcileState::new();
    let mut result = detailed_result("game");
    state.record_result("game", &mut result, 10);
    let read = state.authoritative_result("game").expect("a result was recorded");
    assert_eq!(read, result);
    assert!(state.recent_applied_result("game", 10, 1_000).is_none());
    let mut clean = applied_result("game");
    clean.changed_roots = vec!["Carol".to_string()];
    state.record_result("game", &mut clean, 20);
    assert_eq!(state.recent_applied_result("game", 25, 1_000), Some(clean));
}

#[test]
fn waiters_of_the_initial_recovery_receive_the_runners_outcome() {
    let mut state = DiskReconcileState::new();
    let generation = match state.start_initial_recovery("game") {
        InitialRecoveryStart::Run { generation } => generation,
        other => panic!("the first caller runs, got {other:?}"),
    };
    assert!(matches!(state.start_initial_recovery("game"), InitialRecoveryStart::Syncing { .. }));
    state.finish_initial_recovery("game", generation, InitialRecoveryOutcome::Failed("disk gone".to_string()));
    match state.start_initial_recovery("game") {
        InitialRecoveryStart::Finished(InitialRecoveryOutcome::Failed(message)) => assert_eq!(message, "disk gone"),
        other => panic!("expected the runner's failure, got {other:?}"),
    }

    let mut other = DiskReconcileState::new();
    let generation = match other.start_initial_recovery("game") {
        InitialRecoveryStart::Run { generation } => generation,
        other => panic!("the first caller runs, got {other:?}"),
    };
    let result = detailed_result("game");
    other.finish_initial_recovery("game", generation, InitialRecoveryOutcome::Completed(Box::new(result.clone())));
    match other.start_initial_recovery("game") {
        InitialRecoveryStart::Finished(InitialRecoveryOutcome::Completed(done)) => assert_eq!(*done, result),
        other => panic!("expected the runner's result, got {other:?}"),
    }
}

#[test]
fn a_claimed_runtime_sync_carries_its_activation_authority() {
    let mut state = DiskReconcileState::new();
    state.begin_activation(Some("game".to_string()));
    let authority = state.activation_authority_for("game");
    state.enqueue_runtime_sync("game", "save".to_string(), None, authority.clone());
    let job = state.claim_latest_runtime_sync("game").expect("a sync was queued");
    assert_eq!(job.activation_authority, authority);
}
