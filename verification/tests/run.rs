use emmm_reconcile::reconcile::run::requested_runtime_effects;
use emmm_reconcile::reconcile::types::{DiskReconcileReason, DiskReconcileStatus, PendingRuntimeEffects};

#[test]
fn startup_retries_runtime_projection_even_when_disk_rows_are_unchanged() {
    let effects = requested_runtime_effects(
        &DiskReconcileReason::StartupBoot,
        &DiskReconcileStatus::Applied,
        false,
        false,
        false,
        false,
    );
    assert_eq!(effects, PendingRuntimeEffects { collections_dirty: true, overlay_refresh: true });
}

#[test]
fn first_index_publishes_the_status_overlay_for_an_empty_library() {
    let effects = requested_runtime_effects(
        &DiskReconcileReason::OnboardingCompleted,
        &DiskReconcileStatus::Applied,
        false,
        false,
        false,
        false,
    );
    assert_eq!(effects, PendingRuntimeEffects { collections_dirty: true, overlay_refresh: true });
}

#[test]
fn ordinary_noop_reconcile_does_not_repeat_runtime_effects() {
    let effects = requested_runtime_effects(
        &DiskReconcileReason::ModsViewEntered,
        &DiskReconcileStatus::Applied,
        false,
        false,
        false,
        false,
    );
    assert_eq!(effects, PendingRuntimeEffects::default());
}

#[test]
fn partial_conflict_reconcile_still_refreshes_safe_runtime_effects() {
    let effects = requested_runtime_effects(
        &DiskReconcileReason::WatcherBatch,
        &DiskReconcileStatus::AppliedWithFolderConflicts,
        true,
        false,
        false,
        false,
    );
    assert_eq!(effects, PendingRuntimeEffects { collections_dirty: true, overlay_refresh: true });
}

#[test]
fn deferred_root_reconcile_keeps_projection_work_but_not_the_overlay_publish() {
    let effects = requested_runtime_effects(
        &DiskReconcileReason::ManualRepair,
        &DiskReconcileStatus::Applied,
        true,
        true,
        false,
        true,
    );
    assert_eq!(effects, PendingRuntimeEffects { collections_dirty: true, overlay_refresh: false });
}

#[test]
fn blocked_projection_owes_no_runtime_work_even_at_startup() {
    let effects = requested_runtime_effects(
        &DiskReconcileReason::StartupBoot,
        &DiskReconcileStatus::SourceUnavailable,
        true,
        true,
        true,
        false,
    );
    assert_eq!(effects, PendingRuntimeEffects::default());
}

#[test]
fn object_only_changes_refresh_collections_without_the_overlay() {
    let effects = requested_runtime_effects(
        &DiskReconcileReason::WatcherBatch,
        &DiskReconcileStatus::Applied,
        false,
        true,
        false,
        false,
    );
    assert_eq!(effects, PendingRuntimeEffects { collections_dirty: true, overlay_refresh: false });
}
