use emmm_reconcile::reconcile::commands::{
    background_phase_for_reconcile_status, checked_resolution_path, manual_reconcile_runtime_request,
    should_wait_for_initial_recovery,
};
use emmm_reconcile::reconcile::runtime_sync::RuntimeSyncRequest;
use emmm_reconcile::reconcile::state::InitialRecoveryReadiness;
use emmm_reconcile::reconcile::types::{
    DiskReconcileReason, DiskReconcileStatus, OnboardingIndexingBackgroundPhase,
};

#[test]
fn rename_confirmation_paths_must_be_relative_and_contained() {
    let root = "E:/Mods";
    assert!(checked_resolution_path(root, "Alice/Blue").is_ok());
    assert!(checked_resolution_path(root, "../Outside").is_err());
    assert!(checked_resolution_path(root, "E:/Outside").is_err());
    assert!(checked_resolution_path(root, "Alice/../Outside").is_err());
}

#[test]
fn mods_entry_reuses_an_in_flight_initial_recovery() {
    assert!(should_wait_for_initial_recovery(
        &DiskReconcileReason::ModsViewEntered,
        InitialRecoveryReadiness::Syncing { generation: 1 },
    ));
    assert!(!should_wait_for_initial_recovery(
        &DiskReconcileReason::WatcherBatch,
        InitialRecoveryReadiness::Syncing { generation: 1 },
    ));
}

#[test]
fn manual_reconcile_keeps_known_roots_scoped_for_runtime() {
    assert!(matches!(
        manual_reconcile_runtime_request(&vec!["Character/Mod A".to_string()]),
        RuntimeSyncRequest::ScopedRoots { .. }
    ));
    assert!(matches!(
        manual_reconcile_runtime_request(&vec![]),
        RuntimeSyncRequest::Full
    ));
}

#[test]
fn onboarding_background_ready_requires_an_applied_reconcile_status() {
    for status in [
        DiskReconcileStatus::Applied,
        DiskReconcileStatus::AppliedWithFolderConflicts,
    ] {
        assert_eq!(
            background_phase_for_reconcile_status(&status),
            OnboardingIndexingBackgroundPhase::Ready
        );
    }
    for status in [
        DiskReconcileStatus::SourceUnavailable,
        DiskReconcileStatus::NeedsRenameConfirmation,
    ] {
        assert_eq!(
            background_phase_for_reconcile_status(&status),
            OnboardingIndexingBackgroundPhase::NeedsAttention
        );
    }
}

#[test]
fn resolution_path_joins_the_relative_path_under_the_root() {
    let joined = checked_resolution_path("E:/Mods", "Alice/Blue").expect("contained path");
    assert_eq!(joined, "E:/Mods\\Alice/Blue");
    assert_eq!(checked_resolution_path("E:/Mods/", "Alice").unwrap(), "E:/Mods/Alice");
}

#[test]
fn resolution_path_refusal_is_a_security_error() {
    match checked_resolution_path("E:/Mods", "../Outside") {
        Err(emmm_reconcile::error::AppError::Security(_)) => {}
        other => panic!("unexpected {:?}", other),
    }
}

#[test]
fn ready_recovery_is_not_waited_for() {
    assert!(!should_wait_for_initial_recovery(
        &DiskReconcileReason::ModsViewEntered,
        InitialRecoveryReadiness::Ready { generation: 1 },
    ));
}

#[test]
fn interior_dots_and_later_colons_stay_inside_the_root() {
    assert_eq!(checked_resolution_path("E:/Mods", "Alice/./Blue").unwrap(), "E:/Mods\\Alice/./Blue");
    assert_eq!(checked_resolution_path("E:/Mods", "Alice/a:b").unwrap(), "E:/Mods\\Alice/a:b");
    assert!(checked_resolution_path("E:/Mods", "Alice/.").is_ok());
    assert!(checked_resolution_path("E:/Mods", "./Alice").is_err());
    assert!(checked_resolution_path("E:/Mods", ".").is_err());
    assert!(checked_resolution_path("E:/Mods", "C:Alice").is_err());
    assert!(checked_resolution_path("E:/Mods", "\\\\server\\share").is_err());
}
