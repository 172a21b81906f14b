//! Copies of reconcile results that keep every field: what is kept as a
//! game's newest result, or as its initial recovery's outcome, is handed
//! back with the same contents.

use vstd::prelude::*;

use crate::reconcile::types::{
    DiskReconcileChangeSummary, DiskReconcilePathUpdate, DiskReconcileResult, DiskReconcileWarning,
    FolderNameConflictCandidate, FolderNameConflictGroup, RenameConfirmationGroup,
};

verus! {

/// Two conflict groups hold the same id, identity, name and candidates.
pub open spec fn same_conflict_group(a: FolderNameConflictGroup, b: FolderNameConflictGroup) -> bool {
    &&& a.group_id == b.group_id
    &&& a.identity == b.identity
    &&& a.display_name == b.display_name
    &&& a.candidates@ == b.candidates@
}

/// Two lists of conflict groups hold the same groups in the same order.
pub open spec fn same_conflict_groups(a: Seq<FolderNameConflictGroup>, b: Seq<FolderNameConflictGroup>) -> bool {
    a.len() == b.len() && forall|k: int| 0 <= k < a.len() ==> same_conflict_group(#[trigger] a[k], b[k])
}

/// Two rename groups hold the same fields and path lists.
pub open spec fn same_rename_group(a: RenameConfirmationGroup, b: RenameConfirmationGroup) -> bool {
    &&& a.group_id == b.group_id
    &&& a.kind == b.kind
    &&& a.reason == b.reason
    &&& a.scope_key == b.scope_key
    &&& a.previous_paths@ == b.previous_paths@
    &&& a.current_paths@ == b.current_paths@
    &&& a.previous_path_count == b.previous_path_count
    &&& a.current_path_count == b.current_path_count
    &&& a.candidates_truncated == b.candidates_truncated
}

/// Two lists of rename groups hold the same groups in the same order.
pub open spec fn same_rename_groups(a: Seq<RenameConfirmationGroup>, b: Seq<RenameConfirmationGroup>) -> bool {
    a.len() == b.len() && forall|k: int| 0 <= k < a.len() ==> same_rename_group(#[trigger] a[k], b[k])
}

/// Two change summaries hold the same counts, sample names and flag.
pub open spec fn same_summary(a: DiskReconcileChangeSummary, b: DiskReconcileChangeSummary) -> bool {
    &&& a.object_changes == b.object_changes
    &&& a.mod_changes == b.mod_changes
    &&& a.object_sample_names@ == b.object_sample_names@
    &&& a.mod_sample_names@ == b.mod_sample_names@
    &&& a.has_user_visible_changes == b.has_user_visible_changes
}

/// Two reconcile results hold the same contents, field by field.
pub open spec fn same_result(a: DiskReconcileResult, b: DiskReconcileResult) -> bool {
    &&& a.game_id == b.game_id
    &&& a.reconcile_revision == b.reconcile_revision
    &&& a.reason == b.reason
    &&& a.status == b.status
    &&& a.scan_scope == b.scan_scope
    &&& same_conflict_groups(a.folder_conflicts@, b.folder_conflicts@)
    &&& same_rename_groups(a.rename_confirmations@, b.rename_confirmations@)
    &&& a.error_message == b.error_message
    &&& a.changed_roots@ == b.changed_roots@
    &&& a.objects_changed == b.objects_changed
    &&& a.folders_changed == b.folders_changed
    &&& a.collections_changed == b.collections_changed
    &&& a.runtime_file_changed == b.runtime_file_changed
    &&& a.thumbnail_roots@ == b.thumbnail_roots@
    &&& a.cleared_selection_paths@ == b.cleared_selection_paths@
    &&& a.path_updates@ == b.path_updates@
    &&& same_summary(a.change_summary, b.change_summary)
    &&& a.pending_runtime_effects == b.pending_runtime_effects
    &&& a.warnings@ == b.warnings@
}

/// A copy of a list of strings.
pub fn copy_texts(v: &Vec<String>) -> (r: Vec<String>)
    ensures
        r@ == v@,
{
    let mut r: Vec<String> = Vec::new();
    let mut i: usize = 0;
    while i < v.len()
        invariant
            i <= v@.len(),
            r@ == v@.take(i as int),
        decreases v@.len() - i,
    {
        r.push(v[i].clone());
        proof {
            assert(v@.take(i + 1) =~= v@.take(i as int).push(v@[i as int]));
        }
        i += 1;
    }
    assert(v@.take(v@.len() as int) =~= v@);
    r
}

fn copy_candidates(v: &Vec<FolderNameConflictCandidate>) -> (r: Vec<FolderNameConflictCandidate>)
    ensures
        r@ == v@,
{
    let mut r: Vec<FolderNameConflictCandidate> = Vec::new();
    let mut i: usize = 0;
    while i < v.len()
        invariant
            i <= v@.len(),
            r@ == v@.take(i as int),
        decreases v@.len() - i,
    {
        let c = &v[i];
        r.push(FolderNameConflictCandidate {
            path: c.path.clone(),
            folder_name: c.folder_name.clone(),
            base_name: c.base_name.clone(),
            is_enabled: c.is_enabled,
        });
        proof {
            assert(v@.take(i + 1) =~= v@.take(i as int).push(v@[i as int]));
        }
        i += 1;
    }
    assert(v@.take(v@.len() as int) =~= v@);
    r
}

fn copy_conflict_groups(v: &Vec<FolderNameConflictGroup>) -> (r: Vec<FolderNameConflictGroup>)
    ensures
        same_conflict_groups(r@, v@),
{
    let mut r: Vec<FolderNameConflictGroup> = Vec::new();
    let mut i: usize = 0;
    while i < v.len()
        invariant
            i <= v@.len(),
            r@.len() == i,
            forall|k: int| 0 <= k < i ==> same_conflict_group(#[trigger] r@[k], v@[k]),
        decreases v@.len() - i,
    {
        let g = &v[i];
        r.push(FolderNameConflictGroup {
            group_id: g.group_id.clone(),
            identity: g.identity.clone(),
            display_name: g.display_name.clone(),
            candidates: copy_candidates(&g.candidates),
        });
        i += 1;
    }
    r
}

fn copy_rename_groups(v: &Vec<RenameConfirmationGroup>) -> (r: Vec<RenameConfirmationGroup>)
    ensures
        same_rename_groups(r@, v@),
{
    let mut r: Vec<RenameConfirmationGroup> = Vec::new();
    let mut i: usize = 0;
    while i < v.len()
        invariant
            i <= v@.len(),
            r@.len() == i,
            forall|k: int| 0 <= k < i ==> same_rename_group(#[trigger] r@[k], v@[k]),
        decreases v@.len() - i,
    {
        let g = &v[i];
        r.push(RenameConfirmationGroup {
            group_id: g.group_id.clone(),
            kind: g.kind,
            reason: g.reason,
            scope_key: g.scope_key.clone(),
            previous_paths: copy_texts(&g.previous_paths),
            current_paths: copy_texts(&g.current_paths),
            previous_path_count: g.previous_path_count,
            current_path_count: g.current_path_count,
            candidates_truncated: g.candidates_truncated,
        });
        i += 1;
    }
    r
}

fn copy_path_updates(v: &Vec<DiskReconcilePathUpdate>) -> (r: Vec<DiskReconcilePathUpdate>)
    ensures
        r@ == v@,
{
    let mut r: Vec<DiskReconcilePathUpdate> = Vec::new();
    let mut i: usize = 0;
    while i < v.len()
        invariant
            i <= v@.len(),
            r@ == v@.take(i as int),
        decreases v@.len() - i,
    {
        let u = &v[i];
        r.push(DiskReconcilePathUpdate { from: u.from.clone(), to: u.to.clone(), kind: u.kind });
        proof {
            assert(v@.take(i + 1) =~= v@.take(i as int).push(v@[i as int]));
        }
        i += 1;
    }
    assert(v@.take(v@.len() as int) =~= v@);
    r
}

fn copy_warnings(v: &Vec<DiskReconcileWarning>) -> (r: Vec<DiskReconcileWarning>)
    ensures
        r@ == v@,
{
    let mut r: Vec<DiskReconcileWarning> = Vec::new();
    let mut i: usize = 0;
    while i < v.len()
        invariant
            i <= v@.len(),
            r@ == v@.take(i as int),
        decreases v@.len() - i,
    {
        let w = &v[i];
        r.push(DiskReconcileWarning { kind: w.kind, message: w.message.clone() });
        proof {
            assert(v@.take(i + 1) =~= v@.take(i as int).push(v@[i as int]));
        }
        i += 1;
    }
    assert(v@.take(v@.len() as int) =~= v@);
    r
}

fn copy_summary(s: &DiskReconcileChangeSummary) -> (r: DiskReconcileChangeSummary)
    ensures
        same_summary(r, *s),
{
    DiskReconcileChangeSummary {
        object_changes: s.object_changes,
        mod_changes: s.mod_changes,
        object_sample_names: copy_texts(&s.object_sample_names),
        mod_sample_names: copy_texts(&s.mod_sample_names),
        has_user_visible_changes: s.has_user_visible_changes,
    }
}

/// A copy of a reconcile result with every field kept.
pub fn copy_result(result: &DiskReconcileResult) -> (r: DiskReconcileResult)
    ensures
        same_result(r, *result),
{
    DiskReconcileResult {
        game_id: result.game_id.clone(),
        reconcile_revision: result.reconcile_revision,
        reason: result.reason,
        status: result.status,
        scan_scope: result.scan_scope,
        folder_conflicts: copy_conflict_groups(&result.folder_conflicts),
        rename_confirmations: copy_rename_groups(&result.rename_confirmations),
        error_message: match &result.error_message {
            Some(m) => Some(m.clone()),
            None => None,
        },
        changed_roots: copy_texts(&result.changed_roots),
        objects_changed: result.objects_changed,
        folders_changed: result.folders_changed,
        collections_changed: result.collections_changed,
        runtime_file_changed: result.runtime_file_changed,
        thumbnail_roots: copy_texts(&result.thumbnail_roots),
        cleared_selection_paths: copy_texts(&result.cleared_selection_paths),
        path_updates: copy_path_updates(&result.path_updates),
        change_summary: copy_summary(&result.change_summary),
        pending_runtime_effects: result.pending_runtime_effects,
        warnings: copy_warnings(&result.warnings),
    }
}

/// Copying keeps the contents, and keeping the same contents is symmetric
/// and transitive.
pub proof fn lemma_same_result_equivalence(a: DiskReconcileResult, b: DiskReconcileResult, c: DiskReconcileResult)
    ensures
        same_result(a, a),
        same_result(a, b) ==> same_result(b, a),
        same_result(a, b) && same_result(b, c) ==> same_result(a, c),
{
}

} // verus!
