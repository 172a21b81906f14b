//! The decisions of one reconcile pass: whether and how widely to scan,
//! which folders a conflict or a rename review holds back, which roots
//! changed, and the status the pass ends with. The pass itself reads disk
//! and writes the database around these decisions.

use vstd::prelude::*;

use crate::order::{sort_texts, stable_sort};
use crate::reconcile::identity_conflicts::{dedup_exact, dedup_exact_texts};
use crate::error::AppError;
use crate::reconcile::snapshot::{names_mods_root, DiskProjectionError};
use crate::reconcile::types::{
    DiskReconcileChangeSummary, DiskReconcilePathUpdate, DiskReconcileReason, DiskReconcileScanScope, DiskReconcileStatus,
    FolderNameConflictGroup, RenameConfirmationGroup,
};
use crate::sets::{contains_text, lemma_views_push, views};
use crate::text::{chars_eq_ignore_case, eq_ignore_case, to_chars};

verus! {

/// A scoped pass runs for watcher batches and internal mutations that
/// name at least one changed root.
pub open spec fn scoped_pass_wanted(reason: DiskReconcileReason, changed_root_count: nat) -> bool {
    changed_root_count > 0
        && (reason == DiskReconcileReason::WatcherBatch || reason == DiskReconcileReason::InternalMutation)
}

pub fn should_run_scoped_disk_reconcile(reason: &DiskReconcileReason, changed_roots: &Vec<String>) -> (r: bool)
    ensures
        r == scoped_pass_wanted(*reason, changed_roots@.len()),
{
    if changed_roots.len() == 0 {
        return false;
    }
    match reason {
        DiskReconcileReason::WatcherBatch | DiskReconcileReason::InternalMutation => true,
        _ => false,
    }
}

/// Some changed path is the mods folder itself, as a path or as text up
/// to ASCII case.
pub open spec fn mods_root_event(mods_path: Seq<char>, changed_paths: Seq<String>) -> bool {
    exists|i: int| 0 <= i < changed_paths.len()
        && (names_mods_root(mods_path, (#[trigger] changed_paths[i])@) || eq_ignore_case(changed_paths[i]@, mods_path))
}

pub fn has_mods_root_event(mods_path: &str, changed_paths: &Vec<String>) -> (r: bool)
    ensures
        r == mods_root_event(mods_path@, changed_paths@),
{
    let base = to_chars(mods_path);
    let mut i: usize = 0;
    while i < changed_paths.len()
        invariant
            i <= changed_paths@.len(),
            base@ == mods_path@,
            forall|k: int| 0 <= k < i ==> !(names_mods_root(mods_path@, (#[trigger] changed_paths@[k])@)
                || eq_ignore_case(changed_paths@[k]@, mods_path@)),
        decreases changed_paths@.len() - i,
    {
        let p = to_chars(changed_paths[i].as_str());
        let at_root = crate::path_rules::has_component_prefix(p.as_slice(), base.as_slice())
            && crate::path_rules::path_components(p.as_slice()).len() == crate::path_rules::path_components(base.as_slice()).len();
        if at_root || chars_eq_ignore_case(p.as_slice(), base.as_slice()) {
            return true;
        }
        i += 1;
    }
    false
}

/// What a pass does before touching the database.
#[derive(Debug, Clone, Copy, PartialEq, Eq, Structural)]
pub struct ReconcileGate {
    /// A watcher batch of thumbnails only is applied without a scan.
    pub thumbnail_only: bool,
    /// Whether disk is scanned and projected at all.
    pub should_reconcile: bool,
    /// Whether the scan may cover only the changed roots.
    pub requested_scoped: bool,
    /// Whether the scoped scan may trust the mutation's own scope.
    pub trusted_scope: bool,
    /// Whether changed mods have their size measured.
    pub measure_sizes: bool,
}

pub open spec fn gate_of(
    reason: DiskReconcileReason,
    force_full: bool,
    mods_root_event: bool,
    changed_root_count: nat,
    changed_path_count: nat,
    all_thumbnails: bool,
    trusted_mutation_scope: bool,
) -> ReconcileGate {
    let watcher = reason == DiskReconcileReason::WatcherBatch;
    let requested_scoped = !force_full && !mods_root_event && scoped_pass_wanted(reason, changed_root_count);
    ReconcileGate {
        thumbnail_only: !force_full && watcher && changed_path_count > 0 && all_thumbnails,
        should_reconcile: force_full || mods_root_event || !watcher || changed_root_count > 0,
        requested_scoped,
        trusted_scope: trusted_mutation_scope && requested_scoped,
        measure_sizes: reason != DiskReconcileReason::OnboardingCompleted,
    }
}

/// What a reconcile run does before it touches the database. The caller
/// sets `all_thumbnails` when every changed path is a preview image.
pub fn reconcile_gate(
    reason: &DiskReconcileReason,
    force_full: bool,
    mods_root_event: bool,
    changed_roots: &Vec<String>,
    changed_paths: &Vec<String>,
    all_thumbnails: bool,
    trusted_mutation_scope: bool,
) -> (r: ReconcileGate)
    ensures
        r == gate_of(*reason, force_full, mods_root_event, changed_roots@.len(), changed_paths@.len(), all_thumbnails,
            trusted_mutation_scope),
{
    let watcher = match reason {
        DiskReconcileReason::WatcherBatch => true,
        _ => false,
    };
    let onboarding = match reason {
        DiskReconcileReason::OnboardingCompleted => true,
        _ => false,
    };
    let requested_scoped = !force_full && !mods_root_event && should_run_scoped_disk_reconcile(reason, changed_roots);
    ReconcileGate {
        thumbnail_only: !force_full && watcher && changed_paths.len() > 0 && all_thumbnails,
        should_reconcile: force_full || mods_root_event || !watcher || changed_roots.len() > 0,
        requested_scoped,
        trusted_scope: trusted_mutation_scope && requested_scoped,
        measure_sizes: !onboarding,
    }
}

/// The strings of `s`, sorted and each once.
pub open spec fn sorted_set(s: Seq<Seq<char>>) -> Seq<Seq<char>> {
    dedup_exact(stable_sort(s, false))
}

/// The strings of `a` that `b` lacks, in order.
pub open spec fn minus(a: Seq<Seq<char>>, b: Seq<Seq<char>>) -> Seq<Seq<char>>
    decreases a.len(),
{
    if a.len() == 0 {
        a
    } else if b.contains(a.last()) {
        minus(a.drop_last(), b)
    } else {
        minus(a.drop_last(), b).push(a.last())
    }
}

/// The sorted set of the given strings.
pub fn sorted_text_set(items: &Vec<String>) -> (r: Vec<String>)
    ensures
        views(r@) == sorted_set(views(items@)),
{
    let sorted = sort_texts(items, false);
    dedup_exact_texts(&sorted)
}

/// The object folders that carry runtime descriptors, as a sorted set.
pub fn runtime_roots(descriptor_folder_paths: &Vec<String>) -> (r: Vec<String>)
    ensures
        views(r@) == sorted_set(views(descriptor_folder_paths@)),
{
    sorted_text_set(descriptor_folder_paths)
}

/// The strings of `a` that `b` lacks.
pub fn texts_minus(a: &Vec<String>, b: &Vec<String>) -> (r: Vec<String>)
    ensures
        views(r@) == minus(views(a@), views(b@)),
{
    let mut r: Vec<String> = Vec::new();
    let mut i: usize = 0;
    while i < a.len()
        invariant
            i <= a@.len(),
            views(r@) == minus(views(a@).take(i as int), views(b@)),
        decreases a@.len() - i,
    {
        proof {
            assert(views(a@).take(i + 1).drop_last() =~= views(a@).take(i as int));
            assert(views(a@).take(i + 1).last() == a@[i as int]@);
        }
        if !contains_text(b, &a[i]) {
            let ghost before = r@;
            r.push(a[i].clone());
            proof {
                lemma_views_push(before, r@.last());
            }
        }
        i += 1;
    }
    assert(views(a@).take(a@.len() as int) =~= views(a@));
    r
}

/// The roots whose selection must be cleared: those that carried runtime
/// descriptors before the pass and no longer do.
pub fn cleared_selection_paths(before_roots: &Vec<String>, after_roots: &Vec<String>) -> (r: Vec<String>)
    ensures
        views(r@) == minus(views(before_roots@), views(after_roots@)),
{
    texts_minus(before_roots, after_roots)
}

/// The changed roots together with every root that gained or lost runtime
/// descriptors, sorted and each once.
pub fn merge_changed_roots(changed_roots: &Vec<String>, before_roots: &Vec<String>, after_roots: &Vec<String>) -> (r: Vec<String>)
    ensures
        views(r@) == sorted_set(views(changed_roots@) + minus(views(before_roots@), views(after_roots@))
            + minus(views(after_roots@), views(before_roots@))),
{
    let lost = texts_minus(before_roots, after_roots);
    let gained = texts_minus(after_roots, before_roots);
    let mut all: Vec<String> = Vec::new();
    let mut i: usize = 0;
    while i < changed_roots.len()
        invariant
            i <= changed_roots@.len(),
            views(all@) == views(changed_roots@).take(i as int),
        decreases changed_roots@.len() - i,
    {
        let ghost before = all@;
        all.push(changed_roots[i].clone());
        proof {
            lemma_views_push(before, all@.last());
            assert(views(changed_roots@).take(i + 1) =~= views(changed_roots@).take(i as int).push(changed_roots@[i as int]@));
        }
        i += 1;
    }
    assert(views(changed_roots@).take(changed_roots@.len() as int) =~= views(changed_roots@));
    let ghost head = views(all@);
    let mut j: usize = 0;
    while j < lost.len()
        invariant
            j <= lost@.len(),
            views(all@) == head + views(lost@).take(j as int),
        decreases lost@.len() - j,
    {
        let ghost before = all@;
        all.push(lost[j].clone());
        proof {
            lemma_views_push(before, all@.last());
            assert(views(lost@).take(j + 1) =~= views(lost@).take(j as int).push(lost@[j as int]@));
            assert(head + views(lost@).take(j + 1) =~= (head + views(lost@).take(j as int)).push(lost@[j as int]@));
        }
        j += 1;
    }
    assert(views(lost@).take(lost@.len() as int) =~= views(lost@));
    let ghost middle = views(all@);
    let mut k: usize = 0;
    while k < gained.len()
        invariant
            k <= gained@.len(),
            views(all@) == middle + views(gained@).take(k as int),
        decreases gained@.len() - k,
    {
        let ghost before = all@;
        all.push(gained[k].clone());
        proof {
            lemma_views_push(before, all@.last());
            assert(views(gained@).take(k + 1) =~= views(gained@).take(k as int).push(gained@[k as int]@));
            assert(middle + views(gained@).take(k + 1) =~= (middle + views(gained@).take(k as int)).push(gained@[k as int]@));
        }
        k += 1;
    }
    assert(views(gained@).take(gained@.len() as int) =~= views(gained@));
    sorted_text_set(&all)
}

/// The status a pass ends with: open rename reviews come first, then
/// folder conflicts.
pub open spec fn outcome_status(rename_count: nat, conflict_count: nat) -> DiskReconcileStatus {
    if rename_count > 0 {
        DiskReconcileStatus::NeedsRenameConfirmation
    } else if conflict_count == 0 {
        DiskReconcileStatus::Applied
    } else {
        DiskReconcileStatus::AppliedWithFolderConflicts
    }
}

pub fn reconcile_status(renames: &Vec<RenameConfirmationGroup>, conflicts: &Vec<FolderNameConflictGroup>) -> (r: DiskReconcileStatus)
    ensures
        r == outcome_status(renames@.len(), conflicts@.len()),
{
    if renames.len() > 0 {
        DiskReconcileStatus::NeedsRenameConfirmation
    } else if conflicts.len() == 0 {
        DiskReconcileStatus::Applied
    } else {
        DiskReconcileStatus::AppliedWithFolderConflicts
    }
}

/// What one pass found and did.
#[derive(Debug)]
pub struct ReconcileOutcome {
    pub status: DiskReconcileStatus,
    pub scan_scope: DiskReconcileScanScope,
    pub error_message: Option<String>,
    pub folder_conflicts: Vec<FolderNameConflictGroup>,
    pub rename_confirmations: Vec<RenameConfirmationGroup>,
    pub changed_roots: Vec<String>,
    pub thumbnail_roots: Vec<String>,
    pub objects_changed: bool,
    pub folders_changed: bool,
    pub runtime_file_changed: bool,
    pub cleared_selection_paths: Vec<String>,
    pub path_updates: Vec<DiskReconcilePathUpdate>,
    pub change_summary: DiskReconcileChangeSummary,
}

/// The next step of a pass: a missing mods folder ends it as unavailable,
/// a thumbnail batch finishes at once, as does a pass with nothing to scan;
/// any other pass scans the disk, scoped and trusted as decided before.
#[derive(Debug, Clone, Copy, PartialEq, Eq, Structural)]
pub enum PassAction {
    FinishUnavailable,
    FinishThumbnailOnly,
    FinishWithoutScan,
    Scan { scoped: bool, trusted: bool, measure_sizes: bool },
}

pub open spec fn action_of(gate: ReconcileGate, mods_path_available: bool) -> PassAction {
    if !mods_path_available {
        PassAction::FinishUnavailable
    } else if gate.thumbnail_only {
        PassAction::FinishThumbnailOnly
    } else if !gate.should_reconcile {
        PassAction::FinishWithoutScan
    } else {
        PassAction::Scan { scoped: gate.requested_scoped, trusted: gate.trusted_scope, measure_sizes: gate.measure_sizes }
    }
}

/// The next step of a pass from its gate and whether its mods folder is an
/// existing folder.
pub fn pass_action(gate: &ReconcileGate, mods_path_available: bool) -> (r: PassAction)
    ensures
        r == action_of(*gate, mods_path_available),
{
    if !mods_path_available {
        PassAction::FinishUnavailable
    } else if gate.thumbnail_only {
        PassAction::FinishThumbnailOnly
    } else if !gate.should_reconcile {
        PassAction::FinishWithoutScan
    } else {
        PassAction::Scan { scoped: gate.requested_scoped, trusted: gate.trusted_scope, measure_sizes: gate.measure_sizes }
    }
}

/// An empty change summary.
pub open spec fn empty_summary(s: DiskReconcileChangeSummary) -> bool {
    &&& s.object_changes == (crate::reconcile::types::DiskReconcileChangeCounts { added: 0, removed: 0, renamed: 0, modified: 0 })
    &&& s.mod_changes == (crate::reconcile::types::DiskReconcileChangeCounts { added: 0, removed: 0, renamed: 0, modified: 0 })
    &&& s.object_sample_names@.len() == 0
    &&& s.mod_sample_names@.len() == 0
    &&& !s.has_user_visible_changes
}

fn no_changes() -> (r: DiskReconcileChangeSummary)
    ensures
        empty_summary(r),
{
    DiskReconcileChangeSummary {
        object_changes: crate::reconcile::types::DiskReconcileChangeCounts { added: 0, removed: 0, renamed: 0, modified: 0 },
        mod_changes: crate::reconcile::types::DiskReconcileChangeCounts { added: 0, removed: 0, renamed: 0, modified: 0 },
        object_sample_names: Vec::new(),
        mod_sample_names: Vec::new(),
        has_user_visible_changes: false,
    }
}

/// A watcher batch of thumbnails only: applied without a scan; the changed
/// and thumbnail roots are reported and nothing else changed.
pub fn thumbnail_only_outcome(changed_roots: Vec<String>, thumbnail_roots: Vec<String>) -> (r: ReconcileOutcome)
    ensures
        r.status == DiskReconcileStatus::Applied,
        r.scan_scope == DiskReconcileScanScope::Unscanned,
        r.error_message is None,
        r.folder_conflicts@.len() == 0,
        r.rename_confirmations@.len() == 0,
        r.changed_roots == changed_roots,
        r.thumbnail_roots == thumbnail_roots,
        !r.objects_changed && !r.folders_changed && !r.runtime_file_changed,
        r.cleared_selection_paths@.len() == 0,
        r.path_updates@.len() == 0,
        empty_summary(r.change_summary),
{
    ReconcileOutcome {
        status: DiskReconcileStatus::Applied,
        scan_scope: DiskReconcileScanScope::Unscanned,
        error_message: None,
        folder_conflicts: Vec::new(),
        rename_confirmations: Vec::new(),
        changed_roots,
        thumbnail_roots,
        objects_changed: false,
        folders_changed: false,
        runtime_file_changed: false,
        cleared_selection_paths: Vec::new(),
        path_updates: Vec::new(),
        change_summary: no_changes(),
    }
}

/// The outcome of a pass that ran to its end (with or without a scan):
/// no error; the status says whether rename reviews are open, else whether
/// folder conflicts were found; everything else is what the pass found.
pub fn finished_outcome(
    scan_scope: DiskReconcileScanScope,
    folder_conflicts: Vec<FolderNameConflictGroup>,
    rename_confirmations: Vec<RenameConfirmationGroup>,
    changed_roots: Vec<String>,
    thumbnail_roots: Vec<String>,
    objects_changed: bool,
    folders_changed: bool,
    runtime_file_changed: bool,
    cleared_selection_paths: Vec<String>,
    path_updates: Vec<DiskReconcilePathUpdate>,
    change_summary: DiskReconcileChangeSummary,
) -> (r: ReconcileOutcome)
    ensures
        r.status == outcome_status(rename_confirmations@.len(), folder_conflicts@.len()),
        r.scan_scope == scan_scope,
        r.error_message is None,
        r.folder_conflicts == folder_conflicts,
        r.rename_confirmations == rename_confirmations,
        r.changed_roots == changed_roots,
        r.thumbnail_roots == thumbnail_roots,
        r.objects_changed == objects_changed,
        r.folders_changed == folders_changed,
        r.runtime_file_changed == runtime_file_changed,
        r.cleared_selection_paths == cleared_selection_paths,
        r.path_updates == path_updates,
        r.change_summary == change_summary,
{
    let status = reconcile_status(&rename_confirmations, &folder_conflicts);
    ReconcileOutcome {
        status,
        scan_scope,
        error_message: None,
        folder_conflicts,
        rename_confirmations,
        changed_roots,
        thumbnail_roots,
        objects_changed,
        folders_changed,
        runtime_file_changed,
        cleared_selection_paths,
        path_updates,
        change_summary,
    }
}

/// A pass that ran to its end reports no error, and its status tells its
/// open reviews: rename confirmations exactly when some are open, folder
/// conflicts exactly when none are and conflicts were found, and a clean
/// `Applied` exactly when there is neither; it is never a source failure.
pub proof fn law_finished_pass_status_tells_its_reviews(rename_count: nat, conflict_count: nat)
    ensures
        ({
            let s = outcome_status(rename_count, conflict_count);
            &&& s != DiskReconcileStatus::SourceUnavailable
            &&& (s == DiskReconcileStatus::NeedsRenameConfirmation <==> rename_count > 0)
            &&& (s == DiskReconcileStatus::AppliedWithFolderConflicts <==> rename_count == 0 && conflict_count > 0)
            &&& (s == DiskReconcileStatus::Applied <==> rename_count == 0 && conflict_count == 0)
        }),
{
}

/// The outcome of a pass whose mods folder disappeared or could not be
/// read: what the change list already gave still stands, nothing was
/// written, and the error says why.
pub open spec fn unavailable_outcome(
    r: ReconcileOutcome,
    error_message: Seq<char>,
    changed_roots: Vec<String>,
    thumbnail_roots: Vec<String>,
    runtime_file_changed: bool,
    change_summary: DiskReconcileChangeSummary,
) -> bool {
    &&& r.status == DiskReconcileStatus::SourceUnavailable
    &&& r.scan_scope == DiskReconcileScanScope::Unscanned
    &&& r.error_message matches Some(m) && m@ == error_message
    &&& r.folder_conflicts@.len() == 0
    &&& r.rename_confirmations@.len() == 0
    &&& r.changed_roots == changed_roots
    &&& r.thumbnail_roots == thumbnail_roots
    &&& !r.objects_changed && !r.folders_changed
    &&& r.runtime_file_changed == runtime_file_changed
    &&& r.cleared_selection_paths@.len() == 0
    &&& r.path_updates@.len() == 0
    &&& r.change_summary == change_summary
}

/// The mods folder disappeared or could not be read: what the change list
/// already gave still stands, nothing was written.
pub fn source_unavailable(
    error_message: String,
    changed_roots: Vec<String>,
    thumbnail_roots: Vec<String>,
    runtime_file_changed: bool,
    change_summary: DiskReconcileChangeSummary,
) -> (r: ReconcileOutcome)
    ensures
        unavailable_outcome(r, error_message@, changed_roots, thumbnail_roots, runtime_file_changed, change_summary),
{
    ReconcileOutcome {
        status: DiskReconcileStatus::SourceUnavailable,
        scan_scope: DiskReconcileScanScope::Unscanned,
        error_message: Some(error_message),
        folder_conflicts: Vec::new(),
        rename_confirmations: Vec::new(),
        changed_roots,
        thumbnail_roots,
        objects_changed: false,
        folders_changed: false,
        runtime_file_changed,
        cleared_selection_paths: Vec::new(),
        path_updates: Vec::new(),
        change_summary,
    }
}

/// What a pass does with the result of its disk discovery.
#[derive(Debug)]
pub enum DiscoveryStep {
    /// The source was lost: the pass ends with this outcome, nothing written.
    Unavailable(ReconcileOutcome),
    /// The discovery stands: the pass goes on, over the scope it covered.
    Proceed { scan_scope: DiskReconcileScanScope },
}

/// Decides how a pass goes on from its discovery, given whether the
/// discovery covered only the changed roots: a lost source ends the pass
/// with a source-unavailable outcome, another discovery failure is an
/// internal error, and a discovery goes on as a scoped or a full scan.
pub fn after_discovery(
    discovery: Result<bool, DiskProjectionError>,
    changed_roots: Vec<String>,
    thumbnail_roots: Vec<String>,
    runtime_file_changed: bool,
    change_summary: DiskReconcileChangeSummary,
) -> (r: Result<DiscoveryStep, AppError>)
    ensures
        match discovery {
            Ok(scoped) => r == Ok::<DiscoveryStep, AppError>(
                DiscoveryStep::Proceed {
                    scan_scope: if scoped {
                        DiskReconcileScanScope::Scoped
                    } else {
                        DiskReconcileScanScope::Full
                    },
                },
            ),
            Err(DiskProjectionError::SourceUnavailable(m)) => r matches Ok(DiscoveryStep::Unavailable(o))
                && unavailable_outcome(o, m@, changed_roots, thumbnail_roots, runtime_file_changed, change_summary),
            Err(DiskProjectionError::Failed(m)) => r matches Err(AppError::Internal(e)) && e@ == m@,
        },
{
    match discovery {
        Ok(scoped) => {
            let scan_scope = if scoped {
                DiskReconcileScanScope::Scoped
            } else {
                DiskReconcileScanScope::Full
            };
            Ok(DiscoveryStep::Proceed { scan_scope })
        },
        Err(DiskProjectionError::SourceUnavailable(m)) => Ok(
            DiscoveryStep::Unavailable(source_unavailable(m, changed_roots, thumbnail_roots, runtime_file_changed, change_summary)),
        ),
        Err(error) => Err(AppError::Internal(error.into_message())),
    }
}

/// The message of a pass whose mods folder is missing or not a folder.
pub open spec fn mods_path_unavailable_message(mods_path: Seq<char>) -> Seq<char> {
    "Disk Reconcile mods path is unavailable: "@ + mods_path
}

/// The discovery error for a mods folder that is missing or not a folder.
pub fn mods_path_unavailable_error(mods_path: &str) -> (r: DiskProjectionError)
    ensures
        r matches DiskProjectionError::SourceUnavailable(m) && m@ == mods_path_unavailable_message(mods_path@),
{
    DiskProjectionError::SourceUnavailable(crate::text::concat_str("Disk Reconcile mods path is unavailable: ", mods_path))
}

/// A pass whose mods folder is missing or not a folder ends before any
/// scan: the source is reported unavailable with the folder's path, what
/// the change list gave stands, and nothing is written.
pub fn mods_path_unavailable(
    mods_path: &str,
    changed_roots: Vec<String>,
    thumbnail_roots: Vec<String>,
    runtime_file_changed: bool,
) -> (r: ReconcileOutcome)
    ensures
        unavailable_outcome(
            r,
            mods_path_unavailable_message(mods_path@),
            changed_roots,
            thumbnail_roots,
            runtime_file_changed,
            r.change_summary,
        ),
        empty_summary(r.change_summary),
{
    let message = crate::text::concat_str("Disk Reconcile mods path is unavailable: ", mods_path);
    source_unavailable(message, changed_roots, thumbnail_roots, runtime_file_changed, no_changes())
}

} // verus!

verus! {

/// The candidate paths of the conflict groups, group by group.
pub open spec fn conflict_paths(groups: Seq<FolderNameConflictGroup>) -> Seq<Seq<char>>
    decreases groups.len(),
{
    if groups.len() == 0 {
        Seq::empty()
    } else {
        conflict_paths(groups.drop_last()) + groups.last().candidates@.map_values(
            |c: crate::reconcile::types::FolderNameConflictCandidate| c.path@,
        )
    }
}

/// The identity key of the first object found at `path`.
pub open spec fn object_key_at(objects: Seq<crate::reconcile::snapshot::DiskObjectEntry>, path: Seq<char>) -> Option<Seq<char>>
    decreases objects.len(),
{
    if objects.len() == 0 {
        None
    } else if objects[0].absolute_path@ == path {
        Some(objects[0].folder_path_key@)
    } else {
        object_key_at(objects.drop_first(), path)
    }
}

/// The identity key of the first mod found at `path`.
pub open spec fn mod_key_at(mods: Seq<crate::reconcile::snapshot::DiskModEntry>, path: Seq<char>) -> Option<Seq<char>>
    decreases mods.len(),
{
    if mods.len() == 0 {
        None
    } else if mods[0].absolute_path@ == path {
        Some(mods[0].folder_path_key@)
    } else {
        mod_key_at(mods.drop_first(), path)
    }
}

/// The keys found at the given paths, in order, repeats kept.
pub open spec fn keys_found(found: spec_fn(Seq<char>) -> Option<Seq<char>>, paths: Seq<Seq<char>>) -> Seq<Seq<char>>
    decreases paths.len(),
{
    if paths.len() == 0 {
        Seq::empty()
    } else {
        match found(paths.last()) {
            Some(k) => keys_found(found, paths.drop_last()).push(k),
            None => keys_found(found, paths.drop_last()),
        }
    }
}

/// The objects whose key is not held back, in order.
pub open spec fn unprotected_objects(objects: Seq<crate::reconcile::snapshot::DiskObjectEntry>, object_keys: Seq<Seq<char>>) -> Seq<crate::reconcile::snapshot::DiskObjectEntry>
    decreases objects.len(),
{
    if objects.len() == 0 {
        objects
    } else if object_keys.contains(objects.last().folder_path_key@) {
        unprotected_objects(objects.drop_last(), object_keys)
    } else {
        unprotected_objects(objects.drop_last(), object_keys).push(objects.last())
    }
}

/// The mods neither held back nor under a held-back object, in order.
pub open spec fn unprotected_mods(mods: Seq<crate::reconcile::snapshot::DiskModEntry>, object_keys: Seq<Seq<char>>, mod_keys: Seq<Seq<char>>) -> Seq<crate::reconcile::snapshot::DiskModEntry>
    decreases mods.len(),
{
    if mods.len() == 0 {
        mods
    } else if object_keys.contains(mods.last().object_folder_path_key@) || mod_keys.contains(mods.last().folder_path_key@) {
        unprotected_mods(mods.drop_last(), object_keys, mod_keys)
    } else {
        unprotected_mods(mods.drop_last(), object_keys, mod_keys).push(mods.last())
    }
}

/// The candidate paths of the conflict groups.
pub fn conflict_candidate_paths(groups: &Vec<FolderNameConflictGroup>) -> (r: Vec<String>)
    ensures
        views(r@) == conflict_paths(groups@),
{
    let mut r: Vec<String> = Vec::new();
    let mut i: usize = 0;
    while i < groups.len()
        invariant
            i <= groups@.len(),
            views(r@) == conflict_paths(groups@.take(i as int)),
        decreases groups@.len() - i,
    {
        let cands = &groups[i].candidates;
        let ghost head = views(r@);
        let ghost paths = cands@.map_values(|c: crate::reconcile::types::FolderNameConflictCandidate| c.path@);
        let mut j: usize = 0;
        while j < cands.len()
            invariant
                j <= cands@.len(),
                paths == cands@.map_values(|c: crate::reconcile::types::FolderNameConflictCandidate| c.path@),
                views(r@) == head + paths.take(j as int),
            decreases cands@.len() - j,
        {
            let ghost before = r@;
            r.push(cands[j].path.clone());
            proof {
                lemma_views_push(before, r@.last());
                assert(head + paths.take(j + 1) =~= (head + paths.take(j as int)).push(paths[j as int]));
            }
            j += 1;
        }
        proof {
            assert(paths.take(cands@.len() as int) =~= paths);
            assert(groups@.take(i + 1).drop_last() =~= groups@.take(i as int));
        }
        i += 1;
    }
    assert(groups@.take(groups@.len() as int) =~= groups@);
    r
}

fn object_key_at_path(objects: &Vec<crate::reconcile::snapshot::DiskObjectEntry>, path: &String) -> (r: Option<String>)
    ensures
        crate::reconcile::authority::text_opt(r) == object_key_at(objects@, path@),
{
    let mut i: usize = 0;
    assert(objects@.skip(0) =~= objects@);
    while i < objects.len()
        invariant
            i <= objects@.len(),
            object_key_at(objects@, path@) == object_key_at(objects@.skip(i as int), path@),
        decreases objects@.len() - i,
    {
        proof {
            assert(objects@.skip(i as int)[0] == objects@[i as int]);
            assert(objects@.skip(i as int).drop_first() =~= objects@.skip(i + 1));
        }
        if objects[i].absolute_path == *path {
            return Some(objects[i].folder_path_key.clone());
        }
        i += 1;
    }
    None
}

fn mod_key_at_path(mods: &Vec<crate::reconcile::snapshot::DiskModEntry>, path: &String) -> (r: Option<String>)
    ensures
        crate::reconcile::authority::text_opt(r) == mod_key_at(mods@, path@),
{
    let mut i: usize = 0;
    assert(mods@.skip(0) =~= mods@);
    while i < mods.len()
        invariant
            i <= mods@.len(),
            mod_key_at(mods@, path@) == mod_key_at(mods@.skip(i as int), path@),
        decreases mods@.len() - i,
    {
        proof {
            assert(mods@.skip(i as int)[0] == mods@[i as int]);
            assert(mods@.skip(i as int).drop_first() =~= mods@.skip(i + 1));
        }
        if mods[i].absolute_path == *path {
            return Some(mods[i].folder_path_key.clone());
        }
        i += 1;
    }
    None
}

/// The object and mod keys that folder conflicts hold back: the key of
/// the object, and of the mod, found at each candidate's path.
pub struct ConflictProtection {
    pub object_keys: Vec<String>,
    pub mod_keys: Vec<String>,
}

pub open spec fn object_finder(objects: Seq<crate::reconcile::snapshot::DiskObjectEntry>) -> spec_fn(Seq<char>) -> Option<Seq<char>> {
    |p: Seq<char>| object_key_at(objects, p)
}

pub open spec fn mod_finder(mods: Seq<crate::reconcile::snapshot::DiskModEntry>) -> spec_fn(Seq<char>) -> Option<Seq<char>> {
    |p: Seq<char>| mod_key_at(mods, p)
}

pub fn conflict_protected_keys(projection: &crate::reconcile::snapshot::DiskProjection, conflicts: &Vec<FolderNameConflictGroup>) -> (r: ConflictProtection)
    ensures
        crate::sets::distinct(r.object_keys@),
        crate::sets::distinct(r.mod_keys@),
        crate::sets::text_set(r.object_keys@) == keys_found(object_finder(projection.objects@), conflict_paths(conflicts@)).to_set(),
        crate::sets::text_set(r.mod_keys@) == keys_found(mod_finder(projection.mods@), conflict_paths(conflicts@)).to_set(),
{
    let paths = conflict_candidate_paths(conflicts);
    let ghost pv = views(paths@);
    let ghost of = object_finder(projection.objects@);
    let ghost mf = mod_finder(projection.mods@);
    let mut object_keys: Vec<String> = Vec::new();
    let mut mod_keys: Vec<String> = Vec::new();
    let mut i: usize = 0;
    assert(keys_found(of, pv.take(0)).to_set() =~= Set::<Seq<char>>::empty());
    assert(keys_found(mf, pv.take(0)).to_set() =~= Set::<Seq<char>>::empty());
    while i < paths.len()
        invariant
            i <= paths@.len(),
            pv == views(paths@),
            of == object_finder(projection.objects@),
            mf == mod_finder(projection.mods@),
            crate::sets::distinct(object_keys@),
            crate::sets::distinct(mod_keys@),
            crate::sets::text_set(object_keys@) == keys_found(of, pv.take(i as int)).to_set(),
            crate::sets::text_set(mod_keys@) == keys_found(mf, pv.take(i as int)).to_set(),
        decreases paths@.len() - i,
    {
        proof {
            assert(pv.take(i + 1).drop_last() =~= pv.take(i as int));
            assert(pv.take(i + 1).last() == paths@[i as int]@);
        }
        match object_key_at_path(&projection.objects, &paths[i]) {
            Some(k) => {
                proof {
                    keys_found(of, pv.take(i as int)).lemma_push_to_set_commute(k@);
                }
                crate::sets::insert_distinct(&mut object_keys, k);
            },
            None => {},
        }
        match mod_key_at_path(&projection.mods, &paths[i]) {
            Some(k) => {
                proof {
                    keys_found(mf, pv.take(i as int)).lemma_push_to_set_commute(k@);
                }
                crate::sets::insert_distinct(&mut mod_keys, k);
            },
            None => {},
        }
        i += 1;
    }
    assert(pv.take(paths@.len() as int) =~= pv);
    ConflictProtection { object_keys, mod_keys }
}

/// The projection without what the given keys hold back: objects with a
/// held-back key, and mods with a held-back key or under a held-back object.
pub fn retain_unprotected(
    projection: &crate::reconcile::snapshot::DiskProjection,
    object_keys: &Vec<String>,
    mod_keys: &Vec<String>,
) -> (r: crate::reconcile::snapshot::DiskProjection)
    ensures
        r.objects@ == unprotected_objects(projection.objects@, views(object_keys@)),
        r.mods@ == unprotected_mods(projection.mods@, views(object_keys@), views(mod_keys@)),
{
    let mut objects: Vec<crate::reconcile::snapshot::DiskObjectEntry> = Vec::new();
    let mut i: usize = 0;
    while i < projection.objects.len()
        invariant
            i <= projection.objects@.len(),
            objects@ == unprotected_objects(projection.objects@.take(i as int), views(object_keys@)),
        decreases projection.objects@.len() - i,
    {
        proof {
            assert(projection.objects@.take(i + 1).drop_last() =~= projection.objects@.take(i as int));
            assert(projection.objects@.take(i + 1).last() == projection.objects@[i as int]);
        }
        if !contains_text(object_keys, &projection.objects[i].folder_path_key) {
            objects.push(projection.objects[i].duplicate());
        }
        i += 1;
    }
    assert(projection.objects@.take(projection.objects@.len() as int) =~= projection.objects@);
    let mut mods: Vec<crate::reconcile::snapshot::DiskModEntry> = Vec::new();
    let mut j: usize = 0;
    while j < projection.mods.len()
        invariant
            j <= projection.mods@.len(),
            mods@ == unprotected_mods(projection.mods@.take(j as int), views(object_keys@), views(mod_keys@)),
        decreases projection.mods@.len() - j,
    {
        proof {
            assert(projection.mods@.take(j + 1).drop_last() =~= projection.mods@.take(j as int));
            assert(projection.mods@.take(j + 1).last() == projection.mods@[j as int]);
        }
        let m = &projection.mods[j];
        if !contains_text(object_keys, &m.object_folder_path_key) && !contains_text(mod_keys, &m.folder_path_key) {
            mods.push(m.duplicate());
        }
        j += 1;
    }
    assert(projection.mods@.take(projection.mods@.len() as int) =~= projection.mods@);
    crate::reconcile::snapshot::DiskProjection { objects, mods }
}

} // verus!

verus! {

/// The identity key of `path` relative to `mods_path` (empty for the
/// folder itself), when it lies inside it.
pub open spec fn relative_key_of(mods_path: Seq<char>, path: Seq<char>) -> Option<Seq<char>> {
    let m = crate::path_rules::components(mods_path).len();
    let n = crate::path_rules::components(path).len();
    if crate::path_rules::component_prefix(path, mods_path) {
        Some(crate::path_rules::join_slash(Seq::new((n - m) as nat, |i: int| crate::path_rules::segment_key(crate::path_rules::components(path)[m + i]))))
    } else {
        None
    }
}

/// A changed path: its relative identity key, the path, and whether it
/// exists on disk now.
pub type TaggedChange = (Seq<char>, Seq<char>, bool);

pub open spec fn tagged_changes(mods_path: Seq<char>, paths: Seq<Seq<char>>, exists_now: Seq<bool>) -> Seq<TaggedChange>
    decreases paths.len(),
{
    if paths.len() == 0 {
        Seq::empty()
    } else {
        let before = tagged_changes(mods_path, paths.drop_last(), exists_now.drop_last());
        match relative_key_of(mods_path, paths.last()) {
            Some(k) => before.push((k, paths.last(), exists_now.last())),
            None => before,
        }
    }
}

/// The paths of one identity, each once up to ASCII case (first kept),
/// with whether they exist.
pub open spec fn group_members(tagged: Seq<TaggedChange>, key: Seq<char>) -> Seq<(Seq<char>, bool)>
    decreases tagged.len(),
{
    if tagged.len() == 0 {
        Seq::empty()
    } else {
        let before = group_members(tagged.drop_last(), key);
        let t = tagged.last();
        if t.0 == key && !(exists|j: int| 0 <= j < before.len() && eq_ignore_case((#[trigger] before[j]).0, t.1)) {
            before.push((t.1, t.2))
        } else {
            before
        }
    }
}

/// Two paths of one identity, one gone and one present, are a rename from
/// the gone one to the present one.
pub open spec fn rename_of(members: Seq<(Seq<char>, bool)>) -> Option<(Seq<char>, Seq<char>)> {
    if members.len() == 2 && members[0].1 != members[1].1 {
        if members[0].1 {
            Some((members[1].0, members[0].0))
        } else {
            Some((members[0].0, members[1].0))
        }
    } else {
        None
    }
}

pub open spec fn renames_for(keys: Seq<Seq<char>>, tagged: Seq<TaggedChange>) -> Seq<(Seq<char>, Seq<char>)>
    decreases keys.len(),
{
    if keys.len() == 0 {
        Seq::empty()
    } else {
        let before = renames_for(keys.drop_last(), tagged);
        match rename_of(group_members(tagged, keys.last())) {
            Some(e) => before.push(e),
            None => before,
        }
    }
}

/// The renames an internal mutation's own changed paths show, identity by
/// identity in key order.
pub open spec fn mutation_renames(mods_path: Seq<char>, paths: Seq<Seq<char>>, exists_now: Seq<bool>) -> Seq<(Seq<char>, Seq<char>)> {
    let tagged = tagged_changes(mods_path, paths, exists_now);
    renames_for(sorted_set(tagged.map_values(|t: TaggedChange| t.0)), tagged)
}

/// The events are exactly these renames.
pub open spec fn renames_are(events: Seq<crate::reconcile::request::ModWatchEvent>, renames: Seq<(Seq<char>, Seq<char>)>) -> bool {
    &&& events.len() == renames.len()
    &&& forall|i: int| 0 <= i < events.len() ==> (#[trigger] events[i] matches crate::reconcile::request::ModWatchEvent::Renamed { from, to }
        && from@ == renames[i].0 && to@ == renames[i].1)
}

/// The relative identity key of a path inside the mods folder (empty for
/// the folder itself).
pub fn relative_identity_key(mods_path: &str, path: &str) -> (r: Option<String>)
    ensures
        crate::reconcile::authority::text_opt(r) == relative_key_of(mods_path@, path@),
{
    let base = to_chars(mods_path);
    let p = to_chars(path);
    if !crate::path_rules::has_component_prefix(p.as_slice(), base.as_slice()) {
        return None;
    }
    let base_comps = crate::path_rules::path_components(base.as_slice());
    let comps = crate::path_rules::path_components(p.as_slice());
    let key = crate::reconcile::snapshot::relative_key_chars(&comps, base_comps.len());
    let ghost m = crate::path_rules::components(mods_path@).len();
    let ghost n = crate::path_rules::components(path@).len();
    assert(Seq::new((comps@.len() - base_comps@.len()) as nat, |i: int| crate::path_rules::segment_key(comps@[base_comps@.len() + i]@))
        =~= Seq::new((n - m) as nat, |i: int| crate::path_rules::segment_key(crate::path_rules::components(path@)[m + i])));
    Some(crate::text::from_chars(key.as_slice()))
}

/// The paths of one identity, each once up to ASCII case.
fn collect_group(tagged: &Vec<(String, String, bool)>, key: &String) -> (r: Vec<(String, bool)>)
    ensures
        r@.map_values(|m: (String, bool)| (m.0@, m.1))
            == group_members(tagged@.map_values(|t: (String, String, bool)| (t.0@, t.1@, t.2)), key@),
{
    let ghost tv = tagged@.map_values(|t: (String, String, bool)| (t.0@, t.1@, t.2));
    let mut r: Vec<(String, bool)> = Vec::new();
    let mut i: usize = 0;
    while i < tagged.len()
        invariant
            i <= tagged@.len(),
            tv == tagged@.map_values(|t: (String, String, bool)| (t.0@, t.1@, t.2)),
            r@.map_values(|m: (String, bool)| (m.0@, m.1)) == group_members(tv.take(i as int), key@),
        decreases tagged@.len() - i,
    {
        let ghost rv = r@.map_values(|m: (String, bool)| (m.0@, m.1));
        proof {
            assert(tv.take(i + 1).drop_last() =~= tv.take(i as int));
            assert(tv.take(i + 1).last() == tv[i as int]);
        }
        if tagged[i].0 == *key {
            let path = to_chars(tagged[i].1.as_str());
            let mut seen = false;
            let mut j: usize = 0;
            while j < r.len()
                invariant
                    j <= r@.len(),
                    rv == r@.map_values(|m: (String, bool)| (m.0@, m.1)),
                    path@ == tagged@[i as int].1@,
                    !seen ==> forall|k: int| 0 <= k < j ==> !eq_ignore_case((#[trigger] rv[k]).0, path@),
                    seen ==> exists|k: int| 0 <= k < rv.len() && eq_ignore_case((#[trigger] rv[k]).0, path@),
                decreases r@.len() - j,
            {
                let other = to_chars(r[j].0.as_str());
                if chars_eq_ignore_case(other.as_slice(), path.as_slice()) {
                    seen = true;
                    assert(eq_ignore_case(rv[j as int].0, path@));
                }
                j += 1;
            }
            if !seen {
                r.push((tagged[i].1.clone(), tagged[i].2));
                assert(r@.map_values(|m: (String, bool)| (m.0@, m.1)) =~= rv.push((tagged@[i as int].1@, tagged@[i as int].2)));
            }
        }
        i += 1;
    }
    assert(tv.take(tagged@.len() as int) =~= tv);
    r
}

/// The renames an internal mutation's own changed paths show: two paths
/// of one identity inside the mods folder, one gone and one present.
/// `exists_now` says, for each changed path, whether it exists on disk.
pub fn internal_mutation_rename_evidence(mods_path: &str, changed_paths: &Vec<String>, exists_now: &Vec<bool>) -> (r: Vec<crate::reconcile::request::ModWatchEvent>)
    requires
        exists_now@.len() == changed_paths@.len(),
    ensures
        renames_are(r@, mutation_renames(mods_path@, views(changed_paths@), exists_now@)),
{
    let ghost pv = views(changed_paths@);
    let mut tagged: Vec<(String, String, bool)> = Vec::new();
    let mut keys: Vec<String> = Vec::new();
    let mut i: usize = 0;
    while i < changed_paths.len()
        invariant
            i <= changed_paths@.len(),
            exists_now@.len() == changed_paths@.len(),
            pv == views(changed_paths@),
            tagged@.map_values(|t: (String, String, bool)| (t.0@, t.1@, t.2))
                == tagged_changes(mods_path@, pv.take(i as int), exists_now@.take(i as int)),
            views(keys@) == tagged_changes(mods_path@, pv.take(i as int), exists_now@.take(i as int)).map_values(|t: TaggedChange| t.0),
        decreases changed_paths@.len() - i,
    {
        proof {
            assert(pv.take(i + 1).drop_last() =~= pv.take(i as int));
            assert(exists_now@.take(i + 1).drop_last() =~= exists_now@.take(i as int));
            assert(pv.take(i + 1).last() == changed_paths@[i as int]@);
            assert(exists_now@.take(i + 1).last() == exists_now@[i as int]);
        }
        let ghost tv = tagged@.map_values(|t: (String, String, bool)| (t.0@, t.1@, t.2));
        match relative_identity_key(mods_path, changed_paths[i].as_str()) {
            Some(k) => {
                let ghost before_keys = keys@;
                keys.push(k.clone());
                tagged.push((k, changed_paths[i].clone(), exists_now[i]));
                proof {
                    lemma_views_push(before_keys, keys@.last());
                    assert(tagged@.map_values(|t: (String, String, bool)| (t.0@, t.1@, t.2)) =~= tv.push(
                        (keys@.last()@, changed_paths@[i as int]@, exists_now@[i as int])));
                    let tc = tagged_changes(mods_path@, pv.take(i + 1), exists_now@.take(i + 1));
                    assert(tc.map_values(|t: TaggedChange| t.0) =~= tagged_changes(mods_path@, pv.take(i as int), exists_now@.take(i as int)).map_values(|t: TaggedChange| t.0).push(keys@.last()@));
                }
            },
            None => {},
        }
        i += 1;
    }
    assert(pv.take(changed_paths@.len() as int) =~= pv);
    assert(exists_now@.take(changed_paths@.len() as int) =~= exists_now@);
    let ghost tv = tagged@.map_values(|t: (String, String, bool)| (t.0@, t.1@, t.2));
    let ordered = sorted_text_set(&keys);
    let ghost kv = views(ordered@);
    let mut events: Vec<crate::reconcile::request::ModWatchEvent> = Vec::new();
    let mut k: usize = 0;
    while k < ordered.len()
        invariant
            k <= ordered@.len(),
            kv == views(ordered@),
            tv == tagged@.map_values(|t: (String, String, bool)| (t.0@, t.1@, t.2)),
            renames_are(events@, renames_for(kv.take(k as int), tv)),
        decreases ordered@.len() - k,
    {
        proof {
            assert(kv.take(k + 1).drop_last() =~= kv.take(k as int));
            assert(kv.take(k + 1).last() == ordered@[k as int]@);
        }
        let members = collect_group(&tagged, &ordered[k]);
        let ghost mv = members@.map_values(|m: (String, bool)| (m.0@, m.1));
        if members.len() == 2 && members[0].1 != members[1].1 {
            assert(mv[0] == (members@[0].0@, members@[0].1));
            assert(mv[1] == (members@[1].0@, members@[1].1));
            let event = if members[0].1 {
                crate::reconcile::request::ModWatchEvent::Renamed { from: members[1].0.clone(), to: members[0].0.clone() }
            } else {
                crate::reconcile::request::ModWatchEvent::Renamed { from: members[0].0.clone(), to: members[1].0.clone() }
            };
            events.push(event);
        }
        k += 1;
    }
    assert(kv.take(ordered@.len() as int) =~= kv);
    events
}

} // verus!

verus! {

/// A copy of a watcher event.
pub fn copy_event(e: &crate::reconcile::request::ModWatchEvent) -> (r: crate::reconcile::request::ModWatchEvent)
    ensures
        r == *e,
{
    match e {
        crate::reconcile::request::ModWatchEvent::Created(p) => crate::reconcile::request::ModWatchEvent::Created(p.clone()),
        crate::reconcile::request::ModWatchEvent::Removed(p) => crate::reconcile::request::ModWatchEvent::Removed(p.clone()),
        crate::reconcile::request::ModWatchEvent::Modified(p) => crate::reconcile::request::ModWatchEvent::Modified(p.clone()),
        crate::reconcile::request::ModWatchEvent::Renamed { from, to } => crate::reconcile::request::ModWatchEvent::Renamed {
            from: from.clone(),
            to: to.clone(),
        },
        crate::reconcile::request::ModWatchEvent::RenameResolution { group_id, from, to, apply_as_rename } => {
            crate::reconcile::request::ModWatchEvent::RenameResolution {
                group_id: group_id.clone(),
                from: crate::reconcile::snapshot::copy_opt(from),
                to: crate::reconcile::snapshot::copy_opt(to),
                apply_as_rename: *apply_as_rename,
            }
        },
        crate::reconcile::request::ModWatchEvent::Error(m) => crate::reconcile::request::ModWatchEvent::Error(m.clone()),
    }
}

/// The renames the caller's path hints name, joined under the mods folder.
pub open spec fn hint_renames(mods_path: Seq<char>, hints: Seq<crate::reconcile::request::DiskReconcilePathHint>) -> Seq<(Seq<char>, Seq<char>)> {
    hints.map_values(|h: crate::reconcile::request::DiskReconcilePathHint|
        (crate::path_rules::joined(mods_path, h.old_path@), crate::path_rules::joined(mods_path, h.new_path@)))
}

/// The rename evidence a pass works with: the watcher's events, then the
/// caller's path hints as renames, then, for an internal mutation, the
/// renames its own changed paths show.
pub fn effective_watcher_events(
    mods_path: &str,
    reason: &DiskReconcileReason,
    watcher_events: &Vec<crate::reconcile::request::ModWatchEvent>,
    path_hints: &Vec<crate::reconcile::request::DiskReconcilePathHint>,
    changed_paths: &Vec<String>,
    exists_now: &Vec<bool>,
) -> (r: Vec<crate::reconcile::request::ModWatchEvent>)
    requires
        exists_now@.len() == changed_paths@.len(),
    ensures
        r@.take(watcher_events@.len() as int) == watcher_events@,
        renames_are(r@.skip(watcher_events@.len() as int), hint_renames(mods_path@, path_hints@)
            + if *reason == DiskReconcileReason::InternalMutation {
                mutation_renames(mods_path@, views(changed_paths@), exists_now@)
            } else {
                Seq::empty()
            }),
{
    let mut r: Vec<crate::reconcile::request::ModWatchEvent> = Vec::new();
    let mut i: usize = 0;
    while i < watcher_events.len()
        invariant
            i <= watcher_events@.len(),
            r@ == watcher_events@.take(i as int),
        decreases watcher_events@.len() - i,
    {
        r.push(copy_event(&watcher_events[i]));
        assert(watcher_events@.take(i + 1) =~= watcher_events@.take(i as int).push(watcher_events@[i as int]));
        i += 1;
    }
    assert(watcher_events@.take(watcher_events@.len() as int) =~= watcher_events@);
    let ghost n = watcher_events@.len();
    let base = to_chars(mods_path);
    let ghost hr = hint_renames(mods_path@, path_hints@);
    let mut j: usize = 0;
    while j < path_hints.len()
        invariant
            j <= path_hints@.len(),
            n == watcher_events@.len(),
            base@ == mods_path@,
            hr == hint_renames(mods_path@, path_hints@),
            r@.take(n as int) == watcher_events@,
            r@.len() == n + j,
            renames_are(r@.skip(n as int), hr.take(j as int)),
        decreases path_hints@.len() - j,
    {
        let from = crate::path_rules::join_path(base.as_slice(), to_chars(path_hints[j].old_path.as_str()).as_slice());
        let to = crate::path_rules::join_path(base.as_slice(), to_chars(path_hints[j].new_path.as_str()).as_slice());
        let ghost before = r@;
        r.push(crate::reconcile::request::ModWatchEvent::Renamed {
            from: crate::text::from_chars(from.as_slice()),
            to: crate::text::from_chars(to.as_slice()),
        });
        proof {
            assert(r@.take(n as int) =~= before.take(n as int));
            assert(r@.skip(n as int) =~= before.skip(n as int).push(r@.last()));
            assert(hr.take(j + 1) =~= hr.take(j as int).push(hr[j as int]));
            let s = r@.skip(n as int);
            assert forall|k: int| 0 <= k < s.len() implies (#[trigger] s[k] matches crate::reconcile::request::ModWatchEvent::Renamed { from, to }
                && from@ == hr.take(j + 1)[k].0 && to@ == hr.take(j + 1)[k].1) by {
                if k < s.len() - 1 {
                    assert(s[k] == before.skip(n as int)[k]);
                }
            }
        }
        j += 1;
    }
    assert(hr.take(path_hints@.len() as int) =~= hr);
    let is_mutation = match reason {
        DiskReconcileReason::InternalMutation => true,
        _ => false,
    };
    if is_mutation {
        let evidence = internal_mutation_rename_evidence(mods_path, changed_paths, exists_now);
        let ghost ev = mutation_renames(mods_path@, views(changed_paths@), exists_now@);
        let ghost m = r@.len();
        let mut k: usize = 0;
        while k < evidence.len()
            invariant
                k <= evidence@.len(),
                renames_are(evidence@, ev),
                n == watcher_events@.len(),
                m == n + hr.len(),
                r@.len() == m + k,
                r@.take(n as int) == watcher_events@,
                renames_are(r@.skip(n as int), hr + ev.take(k as int)),
            decreases evidence@.len() - k,
        {
            let ghost before = r@;
            r.push(copy_event(&evidence[k]));
            proof {
                assert(r@.take(n as int) =~= before.take(n as int));
                assert(r@.skip(n as int) =~= before.skip(n as int).push(evidence@[k as int]));
                assert(hr + ev.take(k + 1) =~= (hr + ev.take(k as int)).push(ev[k as int]));
                let s = r@.skip(n as int);
                let t = hr + ev.take(k + 1);
                assert forall|x: int| 0 <= x < s.len() implies (#[trigger] s[x] matches crate::reconcile::request::ModWatchEvent::Renamed { from, to }
                    && from@ == t[x].0 && to@ == t[x].1) by {
                    if x < s.len() - 1 {
                        assert(s[x] == before.skip(n as int)[x]);
                    } else {
                        assert(s[x] == evidence@[k as int]);
                    }
                }
            }
            k += 1;
        }
        assert(ev.take(evidence@.len() as int) =~= ev);
    } else {
        assert(hr + Seq::<(Seq<char>, Seq<char>)>::empty() =~= hr);
    }
    r
}

} // verus!

verus! {

/// No held-back folder reaches the projection writer: every object kept
/// has a free key, and every mod kept has a free key under a free object.
pub proof fn law_held_back_folders_are_not_written(
    objects: Seq<crate::reconcile::snapshot::DiskObjectEntry>,
    mods: Seq<crate::reconcile::snapshot::DiskModEntry>,
    object_keys: Seq<Seq<char>>,
    mod_keys: Seq<Seq<char>>,
)
    ensures
        forall|i: int| 0 <= i < unprotected_objects(objects, object_keys).len()
            ==> !object_keys.contains((#[trigger] unprotected_objects(objects, object_keys)[i]).folder_path_key@),
        forall|i: int| 0 <= i < unprotected_mods(mods, object_keys, mod_keys).len()
            ==> !object_keys.contains((#[trigger] unprotected_mods(mods, object_keys, mod_keys)[i]).object_folder_path_key@)
                && !mod_keys.contains(unprotected_mods(mods, object_keys, mod_keys)[i].folder_path_key@),
    decreases objects.len() + mods.len(),
{
    if objects.len() > 0 {
        law_held_back_folders_are_not_written(objects.drop_last(), mods, object_keys, mod_keys);
        let before = unprotected_objects(objects.drop_last(), object_keys);
        assert forall|i: int| 0 <= i < unprotected_objects(objects, object_keys).len()
            implies !object_keys.contains((#[trigger] unprotected_objects(objects, object_keys)[i]).folder_path_key@) by {
            if i < before.len() {
                assert(unprotected_objects(objects, object_keys)[i] == before[i]);
            }
        }
    }
    if mods.len() > 0 {
        law_held_back_folders_are_not_written(objects, mods.drop_last(), object_keys, mod_keys);
        let before = unprotected_mods(mods.drop_last(), object_keys, mod_keys);
        assert forall|i: int| 0 <= i < unprotected_mods(mods, object_keys, mod_keys).len()
            implies !object_keys.contains((#[trigger] unprotected_mods(mods, object_keys, mod_keys)[i]).object_folder_path_key@)
                && !mod_keys.contains(unprotected_mods(mods, object_keys, mod_keys)[i].folder_path_key@) by {
            if i < before.len() {
                assert(unprotected_mods(mods, object_keys, mod_keys)[i] == before[i]);
            }
        }
    }
}

/// A pass that is forced full, or that saw the mods folder itself change,
/// always scans, and never narrows its scan to the changed roots.
pub proof fn law_forced_or_root_events_scan_everything(
    reason: DiskReconcileReason,
    force_full: bool,
    root_event: bool,
    changed_root_count: nat,
    changed_path_count: nat,
    all_thumbnails: bool,
    trusted_mutation_scope: bool,
)
    requires
        force_full || root_event,
    ensures
        gate_of(reason, force_full, root_event, changed_root_count, changed_path_count, all_thumbnails, trusted_mutation_scope).should_reconcile,
        !gate_of(reason, force_full, root_event, changed_root_count, changed_path_count, all_thumbnails, trusted_mutation_scope).requested_scoped,
        !gate_of(reason, force_full, root_event, changed_root_count, changed_path_count, all_thumbnails, trusted_mutation_scope).trusted_scope,
{
}

} // verus!

verus! {

/// Some changed path is a file the runtime reads. `runtime_relevant` says
/// this of each changed path.
pub fn collect_runtime_file_changed(runtime_relevant: &Vec<bool>) -> (r: bool)
    ensures
        r == exists|i: int| 0 <= i < runtime_relevant@.len() && #[trigger] runtime_relevant@[i],
{
    let mut i: usize = 0;
    while i < runtime_relevant.len()
        invariant
            i <= runtime_relevant@.len(),
            forall|k: int| 0 <= k < i ==> !#[trigger] runtime_relevant@[k],
        decreases runtime_relevant@.len() - i,
    {
        if runtime_relevant[i] {
            return true;
        }
        i += 1;
    }
    false
}

/// The folder a runtime file belongs to, relative to the mods folder: its
/// parent, when the file lies below a folder of the mods folder.
pub open spec fn runtime_file_parent(mods_path: Seq<char>, path: Seq<char>) -> Option<Seq<Seq<char>>> {
    let m = crate::path_rules::components(mods_path).len();
    let n = crate::path_rules::components(path).len();
    if crate::path_rules::component_prefix(path, mods_path) && n >= m + 2 {
        Some(crate::path_rules::components(path).subrange(m as int, n - 1))
    } else {
        None
    }
}

/// The display names of the mods whose runtime files changed, one per
/// parent folder, in the order the changes came.
pub open spec fn modified_mod_names(mods_path: Seq<char>, paths: Seq<Seq<char>>, runtime_relevant: Seq<bool>) -> (Seq<Seq<Seq<char>>>, Seq<Seq<char>>)
    decreases paths.len(),
{
    if paths.len() == 0 {
        (Seq::empty(), Seq::empty())
    } else {
        let before = modified_mod_names(mods_path, paths.drop_last(), runtime_relevant.drop_last());
        if !runtime_relevant.last() {
            before
        } else {
            match runtime_file_parent(mods_path, paths.last()) {
                Some(parent) => if before.0.contains(parent) {
                    before
                } else {
                    (before.0.push(parent), before.1.push(crate::path_rules::display_name(parent.last())))
                },
                None => before,
            }
        }
    }
}

fn same_components(a: &Vec<Vec<char>>, b: &Vec<Vec<char>>) -> (r: bool)
    ensures
        r == (a@.map_values(|c: Vec<char>| c@) == b@.map_values(|c: Vec<char>| c@)),
{
    if a.len() != b.len() {
        assert(a@.map_values(|c: Vec<char>| c@).len() != b@.map_values(|c: Vec<char>| c@).len());
        return false;
    }
    let mut i: usize = 0;
    while i < a.len()
        invariant
            i <= a@.len(),
            a@.len() == b@.len(),
            forall|k: int| 0 <= k < i ==> (#[trigger] a@[k])@ == b@[k]@,
        decreases a@.len() - i,
    {
        if !crate::text::chars_eq(a[i].as_slice(), b[i].as_slice()) {
            assert(a@.map_values(|c: Vec<char>| c@)[i as int] != b@.map_values(|c: Vec<char>| c@)[i as int]);
            return false;
        }
        i += 1;
    }
    assert(a@.map_values(|c: Vec<char>| c@) =~= b@.map_values(|c: Vec<char>| c@));
    true
}

/// The display names of the mods whose runtime files changed, each parent
/// folder once (a file directly in the mods folder, or outside it, names
/// none). `runtime_relevant` says, for each changed path, whether the
/// runtime reads that file.
pub fn record_runtime_modifications(mods_path: &str, changed_paths: &Vec<String>, runtime_relevant: &Vec<bool>) -> (r: Vec<String>)
    requires
        runtime_relevant@.len() == changed_paths@.len(),
    ensures
        views(r@) == modified_mod_names(mods_path@, views(changed_paths@), runtime_relevant@).1,
{
    let base = to_chars(mods_path);
    let base_comps = crate::path_rules::path_components(base.as_slice());
    let m = base_comps.len();
    let mut seen: Vec<Vec<Vec<char>>> = Vec::new();
    let mut names: Vec<String> = Vec::new();
    let mut i: usize = 0;
    while i < changed_paths.len()
        invariant
            i <= changed_paths@.len(),
            runtime_relevant@.len() == changed_paths@.len(),
            base@ == mods_path@,
            m == crate::path_rules::components(mods_path@).len(),
            seen@.map_values(|p: Vec<Vec<char>>| p@.map_values(|c: Vec<char>| c@))
                == modified_mod_names(mods_path@, views(changed_paths@).take(i as int), runtime_relevant@.take(i as int)).0,
            views(names@) == modified_mod_names(mods_path@, views(changed_paths@).take(i as int), runtime_relevant@.take(i as int)).1,
        decreases changed_paths@.len() - i,
    {
        proof {
            assert(views(changed_paths@).take(i + 1).drop_last() =~= views(changed_paths@).take(i as int));
            assert(runtime_relevant@.take(i + 1).drop_last() =~= runtime_relevant@.take(i as int));
            assert(views(changed_paths@).take(i + 1).last() == changed_paths@[i as int]@);
            assert(runtime_relevant@.take(i + 1).last() == runtime_relevant@[i as int]);
        }
        let ghost sv = seen@.map_values(|p: Vec<Vec<char>>| p@.map_values(|c: Vec<char>| c@));
        if runtime_relevant[i] {
            let p = to_chars(changed_paths[i].as_str());
            if crate::path_rules::has_component_prefix(p.as_slice(), base.as_slice()) {
                let comps = crate::path_rules::path_components(p.as_slice());
                let n = comps.len();
                if n >= 2 && n - 2 >= m {
                    let mut parent: Vec<Vec<char>> = Vec::new();
                    let mut j: usize = m;
                    while j < n - 1
                        invariant
                            i < changed_paths@.len(),
                            m <= j <= n - 1,
                            n == comps@.len(),
                            n == crate::path_rules::components(changed_paths@[i as int]@).len(),
                            forall|k: int| 0 <= k < comps@.len() ==> #[trigger] comps@[k]@ == crate::path_rules::components(changed_paths@[i as int]@)[k],
                            parent@.map_values(|c: Vec<char>| c@) == crate::path_rules::components(changed_paths@[i as int]@).subrange(m as int, j as int),
                        decreases n - 1 - j,
                    {
                        let c = crate::path_rules::copy_chars(comps[j].as_slice());
                        let ghost before = parent@;
                        parent.push(c);
                        assert(parent@.map_values(|c: Vec<char>| c@) =~= before.map_values(|c: Vec<char>| c@).push(comps@[j as int]@));
                        assert(crate::path_rules::components(changed_paths@[i as int]@).subrange(m as int, j + 1)
                            =~= crate::path_rules::components(changed_paths@[i as int]@).subrange(m as int, j as int).push(comps@[j as int]@));
                        j += 1;
                    }
                    let ghost pv = parent@.map_values(|c: Vec<char>| c@);
                    let mut known = false;
                    let mut k: usize = 0;
                    while k < seen.len()
                        invariant
                            k <= seen@.len(),
                            sv == seen@.map_values(|p: Vec<Vec<char>>| p@.map_values(|c: Vec<char>| c@)),
                            pv == parent@.map_values(|c: Vec<char>| c@),
                            known == exists|x: int| 0 <= x < k && sv[x] == pv,
                        decreases seen@.len() - k,
                    {
                        let same = same_components(&seen[k], &parent);
                        assert(sv[k as int] == seen@[k as int]@.map_values(|c: Vec<char>| c@));
                        if same {
                            known = true;
                        }
                        proof {
                            if !same && !known {
                                assert forall|x: int| 0 <= x < k + 1 implies !(sv[x] == pv) by {
                                    if x < k {
                                        assert(!(sv[x] == pv));
                                    }
                                }
                            }
                        }
                        k += 1;
                    }
                    if !known {
                        let last = &parent[parent.len() - 1];
                        let shown = crate::path_rules::normalize_display_name(last.as_slice());
                        assert(last@ == pv.last());
                        let ghost before_names = names@;
                        names.push(crate::text::from_chars(shown.as_slice()));
                        proof {
                            lemma_views_push(before_names, names@.last());
                        }
                        seen.push(parent);
                        assert(seen@.map_values(|p: Vec<Vec<char>>| p@.map_values(|c: Vec<char>| c@)) =~= sv.push(pv));
                    }
                }
            }
        }
        i += 1;
    }
    proof {
        assert(views(changed_paths@).take(changed_paths@.len() as int) =~= views(changed_paths@));
        assert(runtime_relevant@.take(changed_paths@.len() as int) =~= runtime_relevant@);
    }
    names
}

} // verus!
