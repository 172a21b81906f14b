use emmm_reconcile::error::AppError;
use emmm_reconcile::reconcile::pass::{
    after_discovery, finished_outcome, mods_path_unavailable, pass_action, reconcile_gate, thumbnail_only_outcome, DiscoveryStep, PassAction,
};
use emmm_reconcile::reconcile::snapshot::DiskProjectionError;
use emmm_reconcile::reconcile::types::{
    DiskReconcileReason, DiskReconcileScanScope, DiskReconcileStatus, FolderNameConflictCandidate,
    FolderNameConflictGroup,
};

fn strings(items: &[&str]) -> Vec<String> {
    items.iter().map(|item| item.to_string()).collect()
}

fn conflict() -> FolderNameConflictGroup {
    FolderNameConflictGroup {
        group_id: "group".to_string(),
        identity: "alice".to_string(),
        display_name: "Alice".to_string(),
        candidates: vec![FolderNameConflictCandidate {
            path: "E:/Mods/Alice".to_string(),
            folder_name: "Alice".to_string(),
            base_name: "Alice".to_string(),
            is_enabled: true,
        }],
    }
}

#[test]
fn the_gate_decides_between_finishing_and_scanning() {
    let thumbnails = strings(&["E:/Mods/Alice/preview.png"]);
    let roots = strings(&["Alice"]);
    let gate = reconcile_gate(&DiskReconcileReason::WatcherBatch, false, false, &roots, &thumbnails, true, false);
    assert_eq!(pass_action(&gate, true), PassAction::FinishThumbnailOnly);
    let idle = reconcile_gate(&DiskReconcileReason::WatcherBatch, false, false, &vec![], &strings(&["E:/Mods/x.txt"]), false, false);
    assert_eq!(pass_action(&idle, true), PassAction::FinishWithoutScan);
    let full = reconcile_gate(&DiskReconcileReason::ManualRepair, true, false, &roots, &vec![], false, false);
    assert!(matches!(pass_action(&full, true), PassAction::Scan { scoped: false, .. }));
    assert_eq!(pass_action(&full, false), PassAction::FinishUnavailable);
}

#[test]
fn a_thumbnail_batch_finishes_unscanned_and_unchanged() {
    let outcome = thumbnail_only_outcome(strings(&["Alice"]), strings(&["Alice"]));
    assert_eq!(outcome.status, DiskReconcileStatus::Applied);
    assert_eq!(outcome.scan_scope, DiskReconcileScanScope::Unscanned);
    assert!(outcome.error_message.is_none());
    assert_eq!(outcome.thumbnail_roots, strings(&["Alice"]));
    assert!(!outcome.objects_changed && !outcome.folders_changed && !outcome.runtime_file_changed);
    assert_eq!(outcome.change_summary, Default::default());
}

#[test]
fn a_finished_pass_reports_no_error_and_its_review_status() {
    let outcome = finished_outcome(
        DiskReconcileScanScope::Scoped,
        vec![conflict()],
        vec![],
        strings(&["Alice"]),
        vec![],
        true,
        true,
        false,
        vec![],
        vec![],
        Default::default(),
    );
    assert_eq!(outcome.status, DiskReconcileStatus::AppliedWithFolderConflicts);
    assert!(outcome.error_message.is_none());
    assert_eq!(outcome.scan_scope, DiskReconcileScanScope::Scoped);
    assert!(outcome.objects_changed && outcome.folders_changed);
}

#[test]
fn discovery_goes_on_scoped_or_full_or_ends_the_pass() {
    assert!(matches!(
        after_discovery(Ok(true), vec![], vec![], false, Default::default()),
        Ok(DiscoveryStep::Proceed { scan_scope: DiskReconcileScanScope::Scoped })
    ));
    assert!(matches!(
        after_discovery(Ok(false), vec![], vec![], false, Default::default()),
        Ok(DiscoveryStep::Proceed { scan_scope: DiskReconcileScanScope::Full })
    ));
    match after_discovery(
        Err(DiskProjectionError::SourceUnavailable("gone".to_string())),
        strings(&["Alice"]),
        vec![],
        true,
        Default::default(),
    ) {
        Ok(DiscoveryStep::Unavailable(outcome)) => {
            assert_eq!(outcome.status, DiskReconcileStatus::SourceUnavailable);
            assert_eq!(outcome.error_message.as_deref(), Some("gone"));
            assert_eq!(outcome.changed_roots, strings(&["Alice"]));
            assert!(outcome.runtime_file_changed);
        },
        other => panic!("expected an unavailable outcome, got {other:?}"),
    }
    assert!(matches!(
        after_discovery(Err(DiskProjectionError::Failed("bad".to_string())), vec![], vec![], false, Default::default()),
        Err(AppError::Internal(message)) if message == "bad"
    ));
}

#[test]
fn a_missing_mods_folder_is_reported_with_its_path() {
    let outcome = mods_path_unavailable("E:/Mods", strings(&["Alice"]), strings(&["Alice"]), true);
    assert_eq!(outcome.status, DiskReconcileStatus::SourceUnavailable);
    assert_eq!(outcome.scan_scope, DiskReconcileScanScope::Unscanned);
    assert_eq!(outcome.error_message.as_deref(), Some("Disk Reconcile mods path is unavailable: E:/Mods"));
    assert_eq!(outcome.changed_roots, strings(&["Alice"]));
    assert!(outcome.runtime_file_changed && !outcome.objects_changed && !outcome.folders_changed);
    assert_eq!(outcome.change_summary, Default::default());
}
