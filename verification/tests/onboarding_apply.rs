use emmm_reconcile::error::AppError;
use emmm_reconcile::reconcile::onboarding::SessionClaim;
use emmm_reconcile::reconcile::onboarding_apply::{
    onboarding_game_step, OnboardingGameAction, OnboardingGameEvent, OnboardingGameStage, OnboardingOperation,
    OnboardingRecord, OperationOutcome,
};
use emmm_reconcile::reconcile::types::{
    DiskReconcileReason, DiskReconcileResult, DiskReconcileScanScope, DiskReconcileStatus,
};

fn result(revision: u64) -> DiskReconcileResult {
    DiskReconcileResult {
        game_id: "game".into(),
        reconcile_revision: revision,
        reason: DiskReconcileReason::OnboardingCompleted,
        status: DiskReconcileStatus::Applied,
        scan_scope: DiskReconcileScanScope::Full,
        folder_conflicts: vec![],
        rename_confirmations: vec![],
        error_message: None,
        changed_roots: vec![],
        objects_changed: true,
        folders_changed: true,
        collections_changed: false,
        runtime_file_changed: false,
        thumbnail_roots: vec![],
        cleared_selection_paths: vec![],
        path_updates: vec![],
        change_summary: Default::default(),
        pending_runtime_effects: Default::default(),
        warnings: vec![],
    }
}

#[test]
fn a_claimed_snapshot_is_applied_and_reported_when_nothing_changed() {
    let (stage, action) = onboarding_game_step(OnboardingGameStage::Consuming, OnboardingGameEvent::Consumed(Ok(SessionClaim::Claimed)));
    assert!(matches!(action, OnboardingGameAction::MarkApplying));
    let (stage, action) = onboarding_game_step(stage, OnboardingGameEvent::PhaseMarked(Ok(())));
    assert!(matches!(action, OnboardingGameAction::Reconcile { use_snapshot: true }));
    let (stage, action) = onboarding_game_step(stage, OnboardingGameEvent::Reconciled(Ok(result(1))));
    match action {
        OnboardingGameAction::CheckWatcher { record } => assert_eq!(
            record,
            OnboardingRecord { operation: OnboardingOperation::Apply, outcome: OperationOutcome::Success }
        ),
        other => panic!("expected a watcher check, got {other:?}"),
    }
    let (_, action) = onboarding_game_step(stage, OnboardingGameEvent::ChangesObserved(false));
    match action {
        OnboardingGameAction::Finish { record: None, outcome: Ok(done) } => assert_eq!(done.reconcile_revision, 1),
        other => panic!("expected the applied result, got {other:?}"),
    }
}

#[test]
fn changes_during_apply_are_settled_by_a_full_recheck() {
    let stage = OnboardingGameStage::AwaitingWatcher { result: result(1) };
    let (stage, action) = onboarding_game_step(stage, OnboardingGameEvent::ChangesObserved(true));
    assert!(matches!(action, OnboardingGameAction::AnnounceRecheck));
    let (stage, action) = onboarding_game_step(stage, OnboardingGameEvent::RecheckAnnounced(Ok(())));
    assert!(matches!(action, OnboardingGameAction::Reconcile { use_snapshot: false }));
    let (_, action) = onboarding_game_step(stage, OnboardingGameEvent::Reconciled(Ok(result(2))));
    match action {
        OnboardingGameAction::Finish { record: Some(record), outcome: Ok(done) } => {
            assert_eq!(record.operation, OnboardingOperation::Recheck);
            assert_eq!(done.reconcile_revision, 2);
        }
        other => panic!("expected the recheck's result, got {other:?}"),
    }
}

#[test]
fn an_expired_session_rechecks_and_failures_are_recorded() {
    let (stage, _) = onboarding_game_step(OnboardingGameStage::Consuming, OnboardingGameEvent::Consumed(Ok(SessionClaim::Expired)));
    let (stage, action) = onboarding_game_step(stage, OnboardingGameEvent::PhaseMarked(Ok(())));
    assert!(matches!(action, OnboardingGameAction::AnnounceRecheck));
    let (stage, _) = onboarding_game_step(stage, OnboardingGameEvent::RecheckAnnounced(Ok(())));
    let (_, action) = onboarding_game_step(stage, OnboardingGameEvent::Reconciled(Err(AppError::Cancelled)));
    match action {
        OnboardingGameAction::Finish { record: Some(record), outcome: Err(AppError::Cancelled) } => assert_eq!(
            record,
            OnboardingRecord { operation: OnboardingOperation::Recheck, outcome: OperationOutcome::Cancelled }
        ),
        other => panic!("expected a cancelled recheck, got {other:?}"),
    }

    let (_, action) = onboarding_game_step(
        OnboardingGameStage::Consuming,
        OnboardingGameEvent::Consumed(Err(AppError::NotFound("session".into()))),
    );
    assert!(matches!(action, OnboardingGameAction::Finish { record: None, outcome: Err(AppError::NotFound(_)) }));
    let (_, action) = onboarding_game_step(
        OnboardingGameStage::Reconciling { with_snapshot: true },
        OnboardingGameEvent::Reconciled(Err(AppError::Db("locked".into()))),
    );
    match action {
        OnboardingGameAction::Finish { record: Some(record), .. } => assert_eq!(
            record,
            OnboardingRecord { operation: OnboardingOperation::Apply, outcome: OperationOutcome::Failed }
        ),
        other => panic!("expected a failed apply, got {other:?}"),
    }
}
