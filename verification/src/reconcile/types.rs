//! The data exchanged by disk reconciliation: reasons, statuses, progress,
//! conflict and rename reports, and the final result of one pass.

use vstd::prelude::*;

verus! {

#[derive(Debug, Clone, Copy, PartialEq, Eq, Structural)]
pub enum DiskReconcileReason {
    StartupBoot,
    OnboardingCompleted,
    ModsViewEntered,
    WindowRefocused,
    WatcherBatch,
    ManualRepair,
    GameSwitched,
    InternalMutation,
    StorageSizeBackfill,
}

#[derive(Debug, Clone, Copy, PartialEq, Eq, Structural)]
pub enum DiskReconcilePathKind {
    Object,
    Mod,
}

#[derive(Debug, Clone, Copy, PartialEq, Eq, Structural)]
pub enum DiskReconcileStatus {
    Applied,
    AppliedWithFolderConflicts,
    SourceUnavailable,
    NeedsRenameConfirmation,
}

/// The filesystem discovery coverage that produced a reconcile result.
#[derive(Debug, Clone, Copy, PartialEq, Eq, Structural)]
pub enum DiskReconcileScanScope {
    Full,
    Scoped,
    /// No disk discovery ran (named `None` in the frontend payload).
    Unscanned,
}

#[derive(Debug, Clone, Copy, PartialEq, Eq, Structural)]
pub enum DiskReconcilePhase {
    DiscoveringRoots,
    ScanningRoots,
    Projecting,
    Finalizing,
    Completed,
    Failed,
}

#[derive(Debug, Clone, PartialEq, Eq)]
pub struct DiskReconcileProgress {
    pub game_id: String,
    pub run_id: String,
    pub reason: DiskReconcileReason,
    pub phase: DiskReconcilePhase,
    pub completed_units: u64,
    pub total_units: Option<u64>,
    pub current_root: Option<String>,
    pub elapsed_ms: u64,
    pub eta_ms: Option<u64>,
}

/// A status counts as applied when the projection was written, with or
/// without read-only folder conflicts.
pub open spec fn status_applied(status: DiskReconcileStatus) -> bool {
    status == DiskReconcileStatus::Applied || status == DiskReconcileStatus::AppliedWithFolderConflicts
}

impl DiskReconcileStatus {
    pub fn applied(&self) -> (r: bool)
        ensures
            r == status_applied(*self),
    {
        match self {
            DiskReconcileStatus::Applied | DiskReconcileStatus::AppliedWithFolderConflicts => true,
            _ => false,
        }
    }

    /// The variant's name, as the status is shown in messages.
    pub open spec fn spec_label(&self) -> Seq<char> {
        match self {
            DiskReconcileStatus::Applied => "Applied"@,
            DiskReconcileStatus::AppliedWithFolderConflicts => "AppliedWithFolderConflicts"@,
            DiskReconcileStatus::SourceUnavailable => "SourceUnavailable"@,
            DiskReconcileStatus::NeedsRenameConfirmation => "NeedsRenameConfirmation"@,
        }
    }

    pub fn label(&self) -> (r: &'static str)
        ensures
            r@ == self.spec_label(),
    {
        match self {
            DiskReconcileStatus::Applied => "Applied",
            DiskReconcileStatus::AppliedWithFolderConflicts => "AppliedWithFolderConflicts",
            DiskReconcileStatus::SourceUnavailable => "SourceUnavailable",
            DiskReconcileStatus::NeedsRenameConfirmation => "NeedsRenameConfirmation",
        }
    }
}

#[derive(Debug, Clone, Copy, PartialEq, Eq, Structural)]
pub enum RenameConfirmationKind {
    Object,
    Mod,
}

#[derive(Debug, Clone, Copy, PartialEq, Eq, Structural)]
pub enum RenameConfirmationReason {
    MissingIdentity,
    AmbiguousIdentity,
}

#[derive(Debug, Clone, PartialEq, Eq)]
pub struct RenameConfirmationGroup {
    pub group_id: String,
    pub kind: RenameConfirmationKind,
    pub reason: RenameConfirmationReason,
    pub scope_key: String,
    pub previous_paths: Vec<String>,
    pub current_paths: Vec<String>,
    pub previous_path_count: usize,
    pub current_path_count: usize,
    pub candidates_truncated: bool,
}

#[derive(Debug, Clone, Copy, PartialEq, Eq, Structural)]
pub enum RenameConfirmationResolutionAction {
    Rename,
    Separate,
}

#[derive(Debug, Clone, PartialEq, Eq)]
pub struct RenameConfirmationResolution {
    pub group_id: String,
    pub action: RenameConfirmationResolutionAction,
    pub previous_path: Option<String>,
    pub current_path: Option<String>,
}

#[derive(Debug, Clone, PartialEq, Eq)]
pub struct FolderNameConflictCandidate {
    pub path: String,
    pub folder_name: String,
    pub base_name: String,
    pub is_enabled: bool,
}

#[derive(Debug, Clone, PartialEq, Eq)]
pub struct FolderNameConflictGroup {
    pub group_id: String,
    pub identity: String,
    pub display_name: String,
    pub candidates: Vec<FolderNameConflictCandidate>,
}

#[derive(Debug, Clone, PartialEq, Eq)]
pub struct DiskReconcilePathUpdate {
    pub from: String,
    pub to: String,
    pub kind: DiskReconcilePathKind,
}

#[derive(Debug, Clone, Copy, Default, PartialEq, Eq, Structural)]
pub struct DiskReconcileChangeCounts {
    pub added: u32,
    pub removed: u32,
    pub renamed: u32,
    pub modified: u32,
}

impl DiskReconcileChangeCounts {
    /// Whether any counter is non-zero.
    pub fn any(&self) -> (r: bool)
        ensures
            r == (self.added > 0 || self.removed > 0 || self.renamed > 0 || self.modified > 0),
    {
        self.added > 0 || self.removed > 0 || self.renamed > 0 || self.modified > 0
    }
}

#[derive(Debug, Clone, Default, PartialEq, Eq)]
pub struct DiskReconcileChangeSummary {
    pub object_changes: DiskReconcileChangeCounts,
    pub mod_changes: DiskReconcileChangeCounts,
    pub object_sample_names: Vec<String>,
    pub mod_sample_names: Vec<String>,
    pub has_user_visible_changes: bool,
}

/// Runtime work still owed to the published overlay after a reconcile.
#[derive(Debug, Clone, Copy, Default, PartialEq, Eq, Structural)]
pub struct PendingRuntimeEffects {
    pub collections_dirty: bool,
    pub overlay_refresh: bool,
}

/// No runtime work is owed.
pub open spec fn no_runtime_effects() -> PendingRuntimeEffects {
    PendingRuntimeEffects { collections_dirty: false, overlay_refresh: false }
}

/// The union of two sets of owed runtime work.
pub open spec fn merged_effects(a: PendingRuntimeEffects, b: PendingRuntimeEffects) -> PendingRuntimeEffects {
    PendingRuntimeEffects {
        collections_dirty: a.collections_dirty || b.collections_dirty,
        overlay_refresh: a.overlay_refresh || b.overlay_refresh,
    }
}

impl PendingRuntimeEffects {
    pub fn none() -> (r: Self)
        ensures
            r == no_runtime_effects(),
    {
        PendingRuntimeEffects { collections_dirty: false, overlay_refresh: false }
    }

    /// Adds the other owed work to this one.
    pub fn merge(&mut self, other: Self)
        ensures
            *final(self) == merged_effects(*old(self), other),
    {
        self.collections_dirty = self.collections_dirty || other.collections_dirty;
        self.overlay_refresh = self.overlay_refresh || other.overlay_refresh;
    }
}

#[derive(Debug, Clone, Copy, PartialEq, Eq, Structural)]
pub enum DiskReconcileWarningKind {
    RuntimeEffectsPending,
}

#[derive(Debug, Clone, PartialEq, Eq)]
pub struct DiskReconcileWarning {
    pub kind: DiskReconcileWarningKind,
    pub message: String,
}

/// A filesystem mutation already committed, but its terminal projection sync
/// could not finish. Commands return this as data so callers refresh the
/// successful disk effect without retrying the mutation itself.
#[derive(Debug, Clone, Copy, PartialEq, Eq, Structural)]
pub enum CommittedMutationSyncWarningKind {
    ReconcileFailed,
    ReconcileBlocked,
    CleanupPending,
    RuntimeSyncPending,
    ManualReloadRequired,
    WatcherUnavailable,
}

#[derive(Debug, Clone, PartialEq, Eq)]
pub struct IndexingRootWork {
    pub root_name: String,
    pub file_count: u64,
    pub total_bytes: u64,
    pub work_units: u64,
}

#[derive(Debug, Clone, PartialEq, Eq)]
pub struct OnboardingIndexingWorkPlan {
    pub game_id: String,
    pub file_count: u64,
    pub total_bytes: u64,
    pub work_units: u64,
    pub roots: Vec<IndexingRootWork>,
}

/// Opaque handle for a short-lived onboarding disk snapshot.
#[derive(Debug, Clone, PartialEq, Eq)]
pub struct OnboardingIndexingSession {
    pub session_id: String,
    pub work_plans: Vec<OnboardingIndexingWorkPlan>,
}

/// Replaces a game's onboarding work estimate after a scoped rescan.
#[derive(Debug, Clone, PartialEq, Eq)]
pub struct OnboardingIndexingWorkPlanUpdate {
    pub session_id: String,
    pub work_plan: OnboardingIndexingWorkPlan,
}

/// The stages of the pre-index snapshot of one game.
#[derive(Debug, Clone, Copy, PartialEq, Eq, Structural)]
pub enum OnboardingIndexingSnapshotPhase {
    Metadata,
    Classifying,
    Ready,
    Rechecking,
}

/// Progress for the pre-index snapshot phase. This is intentionally separate
/// from projection progress because the DB reconcile has not begun yet.
#[derive(Debug, Clone, PartialEq, Eq)]
pub struct OnboardingIndexingSnapshotProgress {
    pub session_id: String,
    pub game_id: String,
    pub phase: OnboardingIndexingSnapshotPhase,
    pub completed_games: u64,
    pub total_games: u64,
    pub completed_roots: u64,
    pub total_roots: u64,
    pub folders_classified: u64,
    pub current_root: Option<String>,
    pub elapsed_ms: u64,
}

/// Where one game stands in background onboarding indexing.
#[derive(Debug, Clone, Copy, PartialEq, Eq, Structural)]
pub enum OnboardingIndexingBackgroundPhase {
    Queued,
    Preparing,
    Prepared,
    Applying,
    Ready,
    NeedsAttention,
    Failed,
}

#[derive(Debug, Clone, PartialEq, Eq)]
pub struct OnboardingIndexingBackgroundGameStatus {
    pub game_id: String,
    pub phase: OnboardingIndexingBackgroundPhase,
}

#[derive(Debug, Clone, PartialEq, Eq)]
pub struct OnboardingIndexingBackgroundStatus {
    pub session_id: String,
    pub completed_games: u64,
    pub total_games: u64,
    pub games: Vec<OnboardingIndexingBackgroundGameStatus>,
}

#[derive(Debug, Clone, PartialEq, Eq)]
pub struct CommittedMutationSyncWarning {
    pub kind: CommittedMutationSyncWarningKind,
    pub message: String,
}

#[derive(Debug, Clone, Default, PartialEq, Eq)]
pub struct CommittedMutationResult {
    pub sync_warning: Option<CommittedMutationSyncWarning>,
}

/// The outcome of one reconcile pass for one game.
#[derive(Debug, Clone, PartialEq, Eq)]
pub struct DiskReconcileResult {
    pub game_id: String,
    /// Monotonic per-game revision assigned after this disk observation finishes.
    pub reconcile_revision: u64,
    pub reason: DiskReconcileReason,
    pub status: DiskReconcileStatus,
    pub scan_scope: DiskReconcileScanScope,
    pub folder_conflicts: Vec<FolderNameConflictGroup>,
    pub rename_confirmations: Vec<RenameConfirmationGroup>,
    pub error_message: Option<String>,
    pub changed_roots: Vec<String>,
    pub objects_changed: bool,
    pub folders_changed: bool,
    pub collections_changed: bool,
    pub runtime_file_changed: bool,
    pub thumbnail_roots: Vec<String>,
    pub cleared_selection_paths: Vec<String>,
    pub path_updates: Vec<DiskReconcilePathUpdate>,
    pub change_summary: DiskReconcileChangeSummary,
    pub pending_runtime_effects: PendingRuntimeEffects,
    pub warnings: Vec<DiskReconcileWarning>,
}

} // verus!
