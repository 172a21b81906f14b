use emmm_reconcile::error::AppError;
use emmm_reconcile::reconcile::emit::{
    conflicts_intersect_paths, ensure_initial_recovery_allows_mutation, initial_recovery_allows_mutation,
    path_is_within_conflict_scope, require_applied_reconcile, settle_committed_reconcile,
};
use emmm_reconcile::reconcile::state::InitialRecoveryReadiness;
use emmm_reconcile::reconcile::types::{
    CommittedMutationSyncWarningKind, DiskReconcileReason, DiskReconcileResult, DiskReconcileScanScope,
    DiskReconcileStatus, DiskReconcileWarning, DiskReconcileWarningKind, FolderNameConflictCandidate,
    FolderNameConflictGroup,
};

fn result_with_status(status: DiskReconcileStatus) -> DiskReconcileResult {
    DiskReconcileResult {
        game_id: "game".into(),
        reconcile_revision: 1,
        reason: DiskReconcileReason::InternalMutation,
        status,
        scan_scope: DiskReconcileScanScope::Full,
        folder_conflicts: vec![],
        rename_confirmations: vec![],
        error_message: None,
        changed_roots: vec![],
        objects_changed: false,
        folders_changed: false,
        collections_changed: false,
        runtime_file_changed: false,
        thumbnail_roots: vec![],
        cleared_selection_paths: vec![],
        path_updates: vec![],
        change_summary: Default::default(),
        pending_runtime_effects: Default::default(),
        warnings: vec![],
    }
}

#[test]
fn journal_completion_requires_an_applied_projection() {
    for status in [
        DiskReconcileStatus::Applied,
        DiskReconcileStatus::AppliedWithFolderConflicts,
    ] {
        assert!(require_applied_reconcile(result_with_status(status)).is_ok());
    }
    for status in [
        DiskReconcileStatus::SourceUnavailable,
        DiskReconcileStatus::NeedsRenameConfirmation,
    ] {
        let mut result = result_with_status(status);
        result.error_message = Some("injected blocked projection".into());
        let error = require_applied_reconcile(result).unwrap_err();
        assert!(error.message().contains("injected blocked projection"));
    }
}

#[test]
fn blocked_projection_without_a_message_names_its_status() {
    let error = require_applied_reconcile(result_with_status(DiskReconcileStatus::SourceUnavailable)).unwrap_err();
    assert_eq!(error.message(), "Disk projection requires attention: SourceUnavailable");
}

#[test]
fn applied_projection_preserves_pending_runtime_warning() {
    let mut result = result_with_status(DiskReconcileStatus::AppliedWithFolderConflicts);
    result.pending_runtime_effects.overlay_refresh = true;
    result.warnings.push(DiskReconcileWarning {
        kind: DiskReconcileWarningKind::RuntimeEffectsPending,
        message: "Overlay refresh is pending".into(),
    });
    let settlement = settle_committed_reconcile(Ok(result));
    assert!(settlement.reconcile.unwrap().status.applied());
    let warning = settlement
        .sync_warning
        .expect("do not silently drop runtime warnings");
    assert_eq!(warning.kind, CommittedMutationSyncWarningKind::RuntimeSyncPending);
    assert_eq!(warning.message, "Overlay refresh is pending");
}

#[test]
fn clean_applied_projection_has_no_sync_warning() {
    let settlement = settle_committed_reconcile(Ok(result_with_status(DiskReconcileStatus::Applied)));
    assert!(settlement.reconcile.is_some());
    assert!(settlement.sync_warning.is_none());
}

#[test]
fn committed_reconcile_failure_becomes_retryable_warning_instead_of_command_error() {
    let settlement = settle_committed_reconcile(Err(AppError::Io("injected projection failure".to_string())));

    assert!(settlement.reconcile.is_none());
    let warning = settlement
        .sync_warning
        .expect("committed mutation must retain a non-fatal sync warning");
    assert_eq!(warning.kind, CommittedMutationSyncWarningKind::ReconcileFailed);
    assert!(warning.message.contains("injected projection failure"));
}

#[test]
fn pending_initial_recovery_rejects_disk_mutations() {
    assert!(!initial_recovery_allows_mutation(InitialRecoveryReadiness::Syncing { generation: 3 }));
}

#[test]
fn finished_or_absent_recovery_allows_disk_mutations() {
    assert!(initial_recovery_allows_mutation(InitialRecoveryReadiness::Ready { generation: 3 }));
    assert!(ensure_initial_recovery_allows_mutation(None).is_ok());
    assert!(ensure_initial_recovery_allows_mutation(Some(InitialRecoveryReadiness::Syncing { generation: 1 })).is_err());
}

#[test]
fn conflict_scope_blocks_only_its_candidate_and_descendants() {
    let scope = "E:/Mods/Alice";
    assert!(path_is_within_conflict_scope("E:/Mods/Alice/Blue", scope));
    assert!(path_is_within_conflict_scope("e:\\mods\\alice", scope));
    assert!(!path_is_within_conflict_scope("E:/Mods/Bob/Blue", scope));
}

#[test]
fn conflict_scope_blocks_parent_mutations_that_cover_a_candidate() {
    assert!(path_is_within_conflict_scope("E:/Mods/Alice", "E:/Mods/Alice/Variants/Blue"));
}

#[test]
fn conflict_scope_treats_windows_verbatim_and_regular_paths_as_equal() {
    assert!(path_is_within_conflict_scope(r"\\?\C:\Mods\Alice\Blue", r"C:\Mods\Alice\Blue"));
}

#[test]
fn conflict_scope_does_not_match_a_sibling_with_a_longer_name() {
    assert!(!path_is_within_conflict_scope("E:/Mods/Alice Two", "E:/Mods/Alice"));
}

#[test]
fn conflict_scope_classifies_mixed_mutation_targets_independently() {
    let conflicts = vec![FolderNameConflictGroup {
        group_id: "alice-blue".to_string(),
        identity: "alice/blue".to_string(),
        display_name: "Blue".to_string(),
        candidates: vec![FolderNameConflictCandidate {
            path: "E:/Mods/Alice/DISABLED Blue".to_string(),
            folder_name: "DISABLED Blue".to_string(),
            base_name: "Blue".to_string(),
            is_enabled: false,
        }],
    }];
    let conflicted = vec!["E:/Mods/Alice/DISABLED Blue".to_string()];
    let safe = vec!["E:/Mods/Bob/DISABLED Red".to_string()];

    assert!(conflicts_intersect_paths(&conflicts, &conflicted));
    assert!(!conflicts_intersect_paths(&conflicts, &safe));
}
