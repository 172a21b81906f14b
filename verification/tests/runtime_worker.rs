use emmm_reconcile::error::AppError;
use emmm_reconcile::reconcile::runtime_sync::{
    check_runtime_retry, runtime_sync_request_for_leaf_rows, settle_publication, worker_cause, LeafRuntimeRow,
    PublicationReport, RuntimeModOutcome, RuntimeSyncCause, RuntimeSyncPhase, RuntimeSyncRequest,
};
use emmm_reconcile::reconcile::state::InitialRecoveryReadiness;

#[test]
fn runtime_retry_is_only_for_the_ready_active_game() {
    let active = Some("game".to_string());
    assert!(check_runtime_retry(&active, "game", InitialRecoveryReadiness::Ready { generation: 1 }).is_ok());
    assert_eq!(
        check_runtime_retry(&active, "other", InitialRecoveryReadiness::Ready { generation: 1 }),
        Err(AppError::Validation("Runtime sync can only be retried for the active game".to_string()))
    );
    assert!(check_runtime_retry(&None, "game", InitialRecoveryReadiness::Ready { generation: 1 }).is_err());
    assert!(check_runtime_retry(&active, "game", InitialRecoveryReadiness::Unstarted { generation: 1 }).is_err());
}

#[test]
fn worker_keeps_the_previous_cause_for_an_unknown_label() {
    assert_eq!(worker_cause("collection_applied", RuntimeSyncCause::Recovery), RuntimeSyncCause::CollectionApplied);
    assert_eq!(worker_cause("unknown", RuntimeSyncCause::SafeModeChanged), RuntimeSyncCause::SafeModeChanged);
}

#[test]
fn publication_outcomes_settle_into_phases() {
    let failed = settle_publication(&Ok(PublicationReport { failure: Some("boom".to_string()), manual_reload_reason: None }));
    assert_eq!(failed, (RuntimeSyncPhase::Failed, Some("boom".to_string()), false));
    let manual = settle_publication(&Ok(PublicationReport { failure: None, manual_reload_reason: Some("press F10".to_string()) }));
    assert_eq!(manual, (RuntimeSyncPhase::NeedsManualReload, Some("press F10".to_string()), true));
    let done = settle_publication(&Ok(PublicationReport { failure: None, manual_reload_reason: None }));
    assert_eq!(done, (RuntimeSyncPhase::Succeeded, None, true));
    let error = settle_publication(&Err(AppError::Internal("no authority".to_string())));
    assert_eq!(error, (RuntimeSyncPhase::Failed, Some("no authority".to_string()), false));
}

fn row(id: &str, path: &str, status: i64, has_descendants: bool) -> LeafRuntimeRow {
    LeafRuntimeRow { id: id.to_string(), folder_path: path.to_string(), status, has_descendants }
}

#[test]
fn exact_leaf_rows_give_per_mod_changes() {
    let changed = vec!["E:/Mods/Alice/DISABLED Blue".to_string()];
    let roots = vec!["Alice".to_string()];
    let request = runtime_sync_request_for_leaf_rows(
        "E:/Mods",
        &changed,
        Some(vec![row("mod-1", "Alice/DISABLED Blue", 0, false)]),
        &roots,
    );
    match request {
        RuntimeSyncRequest::Scoped { changes } => {
            assert_eq!(changes.len(), 1);
            assert_eq!(changes[0].mod_id, "mod-1");
            assert_eq!(changes[0].outcome, RuntimeModOutcome::Disabled);
        }
        other => panic!("unexpected {:?}", other),
    }
}

#[test]
fn parents_missing_rows_or_lookup_failures_fall_back_to_roots() {
    let changed = vec!["E:/Mods/Alice".to_string()];
    let roots = vec!["Alice".to_string()];
    let parent = runtime_sync_request_for_leaf_rows("E:/Mods", &changed, Some(vec![row("m", "Alice", 1, true)]), &roots);
    assert_eq!(parent, RuntimeSyncRequest::ScopedRoots { roots: roots.clone() });
    let missing = runtime_sync_request_for_leaf_rows("E:/Mods", &changed, Some(vec![]), &roots);
    assert_eq!(missing, RuntimeSyncRequest::ScopedRoots { roots: roots.clone() });
    let failed = runtime_sync_request_for_leaf_rows("E:/Mods", &changed, None, &roots);
    assert_eq!(failed, RuntimeSyncRequest::ScopedRoots { roots });
}
