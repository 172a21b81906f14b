//! Settlement of reconcile passes that follow a committed disk mutation,
//! the mutation preflight gates, and the folder-conflict scope test.

use vstd::prelude::*;

use crate::error::AppError;
use crate::reconcile::state::InitialRecoveryReadiness;
use crate::reconcile::types::{
    status_applied, CommittedMutationSyncWarning, CommittedMutationSyncWarningKind, DiskReconcileResult,
    DiskReconcileStatus, DiskReconcileWarning, DiskReconcileWarningKind, FolderNameConflictGroup,
};
use crate::text::{
    concat_str, from_chars, has_prefix, lower, lower_chars, replace_char, replace_chars, starts_with, tail_from,
    to_chars, trim_end, trim_end_chars,
};

verus! {

/// The reconcile that followed a committed mutation, and the non-fatal
/// warning the command reports when it did not converge.
pub struct CommittedReconcileSettlement {
    pub reconcile: Option<DiskReconcileResult>,
    pub sync_warning: Option<CommittedMutationSyncWarning>,
}

/// The message of a blocked projection without its own error message.
pub open spec fn attention_message(status: DiskReconcileStatus) -> Seq<char> {
    "Disk projection requires attention: "@ + status.spec_label()
}

/// Accepts only an applied projection; any other status becomes an I/O
/// error carrying the result's message.
pub fn require_applied_reconcile(result: DiskReconcileResult) -> (r: Result<DiskReconcileResult, AppError>)
    ensures
        status_applied(result.status) ==> r == Ok::<DiskReconcileResult, AppError>(result),
        !status_applied(result.status) ==> (r matches Err(AppError::Io(m)) && m@ == match result.error_message {
            Some(e) => e@,
            None => attention_message(result.status),
        }),
{
    if !result.status.applied() {
        let message = match result.error_message {
            Some(message) => message,
            None => concat_str("Disk projection requires attention: ", result.status.label()),
        };
        return Err(AppError::Io(message));
    }
    Ok(result)
}

/// The index of the first runtime-effects warning, if any.
pub open spec fn first_pending_warning(warnings: Seq<DiskReconcileWarning>) -> Option<int> {
    if exists|i: int| 0 <= i < warnings.len() && warnings[i].kind == DiskReconcileWarningKind::RuntimeEffectsPending {
        Some(choose|i: int| 0 <= i < warnings.len() && warnings[i].kind == DiskReconcileWarningKind::RuntimeEffectsPending
            && forall|j: int| 0 <= j < i ==> warnings[j].kind != DiskReconcileWarningKind::RuntimeEffectsPending)
    } else {
        None
    }
}

fn find_pending_warning(warnings: &Vec<DiskReconcileWarning>) -> (r: Option<usize>)
    ensures
        match r {
            Some(i) => i < warnings@.len() && warnings@[i as int].kind == DiskReconcileWarningKind::RuntimeEffectsPending
                && forall|j: int| 0 <= j < i ==> warnings@[j].kind != DiskReconcileWarningKind::RuntimeEffectsPending,
            None => forall|j: int| 0 <= j < warnings@.len() ==> warnings@[j].kind != DiskReconcileWarningKind::RuntimeEffectsPending,
        },
{
    let mut i: usize = 0;
    while i < warnings.len()
        invariant
            i <= warnings@.len(),
            forall|j: int| 0 <= j < i ==> warnings@[j].kind != DiskReconcileWarningKind::RuntimeEffectsPending,
        decreases warnings@.len() - i,
    {
        if warnings[i].kind == DiskReconcileWarningKind::RuntimeEffectsPending {
            return Some(i);
        }
        i += 1;
    }
    None
}

/// The message of a blocked reconcile after a committed mutation.
pub open spec fn blocked_message(result: DiskReconcileResult) -> Seq<char> {
    match result.error_message {
        Some(e) => e@,
        None => "Disk mutation succeeded but reconcile was blocked with status "@ + result.status.spec_label(),
    }
}

/// The message of a failed reconcile after a committed mutation.
pub open spec fn failed_message(error: AppError) -> Seq<char> {
    "Disk mutation succeeded but projection sync failed: "@ + error.spec_message()
}

/// Convert terminal convergence into data after the filesystem mutation has
/// committed: an applied pass keeps any pending runtime warning, a blocked
/// pass becomes a `ReconcileBlocked` warning and a failure a
/// `ReconcileFailed` warning, so the caller never retries the mutation.
pub fn settle_committed_reconcile(outcome: Result<DiskReconcileResult, AppError>) -> (r: CommittedReconcileSettlement)
    ensures
        match outcome {
            Ok(result) => {
                &&& r.reconcile == Some(result)
                &&& status_applied(result.status) ==> match first_pending_warning(result.warnings@) {
                    Some(i) => r.sync_warning matches Some(w) && w.kind == CommittedMutationSyncWarningKind::RuntimeSyncPending
                        && w.message@ == result.warnings@[i].message@,
                    None => r.sync_warning.is_none(),
                }
                &&& !status_applied(result.status) ==> (r.sync_warning matches Some(w)
                    && w.kind == CommittedMutationSyncWarningKind::ReconcileBlocked && w.message@ == blocked_message(result))
            },
            Err(error) => {
                &&& r.reconcile.is_none()
                &&& r.sync_warning matches Some(w) && w.kind == CommittedMutationSyncWarningKind::ReconcileFailed
                    && w.message@ == failed_message(error)
            },
        },
{
    match outcome {
        Ok(result) => {
            if result.status.applied() {
                let found = find_pending_warning(&result.warnings);
                let sync_warning = match found {
                    Some(i) => Some(CommittedMutationSyncWarning {
                        kind: CommittedMutationSyncWarningKind::RuntimeSyncPending,
                        message: result.warnings[i].message.clone(),
                    }),
                    None => None,
                };
                proof {
                    let ws = result.warnings@;
                    match found {
                        Some(i) => {
                            assert(exists|k: int| 0 <= k < ws.len() && ws[k].kind == DiskReconcileWarningKind::RuntimeEffectsPending);
                            let c = first_pending_warning(ws)->0;
                            assert(c == i as int) by {
                                if c < i { } else if c > i { }
                            }
                        },
                        None => {},
                    }
                }
                CommittedReconcileSettlement { reconcile: Some(result), sync_warning }
            } else {
                let message = match &result.error_message {
                    Some(message) => message.clone(),
                    None => concat_str("Disk mutation succeeded but reconcile was blocked with status ", result.status.label()),
                };
                CommittedReconcileSettlement {
                    reconcile: Some(result),
                    sync_warning: Some(CommittedMutationSyncWarning {
                        kind: CommittedMutationSyncWarningKind::ReconcileBlocked,
                        message,
                    }),
                }
            }
        },
        Err(error) => {
            let detail = error.message();
            let message = concat_str("Disk mutation succeeded but projection sync failed: ", detail.as_str());
            CommittedReconcileSettlement {
                reconcile: None,
                sync_warning: Some(CommittedMutationSyncWarning {
                    kind: CommittedMutationSyncWarningKind::ReconcileFailed,
                    message,
                }),
            }
        },
    }
}

/// Whether the pass stopped for an explicit user decision.
pub fn requires_user_resolution(status: &DiskReconcileStatus) -> (r: bool)
    ensures
        r == (*status == DiskReconcileStatus::NeedsRenameConfirmation),
{
    *status == DiskReconcileStatus::NeedsRenameConfirmation
}

/// Disk mutations wait while the initial recovery is still syncing.
pub fn initial_recovery_allows_mutation(readiness: InitialRecoveryReadiness) -> (r: bool)
    ensures
        r == !(readiness is Syncing),
{
    !matches!(readiness, InitialRecoveryReadiness::Syncing { .. })
}

/// The message that rejects a mutation during initial recovery.
pub open spec fn still_syncing_message() -> Seq<char> {
    "Mods are still synchronizing with disk. Try again when sync completes."@
}

/// The recovery gate of a mutation: `readiness` is the game's initial
/// recovery readiness when reconcile state exists at all.
pub fn ensure_initial_recovery_allows_mutation(readiness: Option<InitialRecoveryReadiness>) -> (r: Result<(), AppError>)
    ensures
        (readiness matches Some(x) && x is Syncing) ==> (r matches Err(AppError::Io(m)) && m@ == still_syncing_message()),
        !(readiness matches Some(x) && x is Syncing) ==> r is Ok,
{
    if let Some(readiness) = readiness {
        if !initial_recovery_allows_mutation(readiness) {
            return Err(AppError::Io(String::from_str("Mods are still synchronizing with disk. Try again when sync completes.")));
        }
    }
    Ok(())
}

/// A path in a form that compares equal across separators, ASCII case,
/// Windows verbatim prefixes and trailing separators.
pub open spec fn comparable(path: Seq<char>) -> Seq<char> {
    let normalized = lower(replace_char(path, '\\', '/'));
    let without_prefix = if has_prefix(normalized, "//?/unc/"@) {
        "//"@ + normalized.subrange(8, normalized.len() as int)
    } else if has_prefix(normalized, "//?/"@) {
        normalized.subrange(4, normalized.len() as int)
    } else {
        normalized
    };
    trim_end(without_prefix, '/')
}

pub fn comparable_path(path: &str) -> (r: Vec<char>)
    ensures
        r@ == comparable(path@),
{
    let chars = to_chars(path);
    let replaced = replace_chars(chars.as_slice(), '\\', '/');
    let normalized = lower_chars(replaced.as_slice());
    let unc = to_chars("//?/unc/");
    let verbatim = to_chars("//?/");
    proof {
        reveal_strlit("//?/unc/");
        reveal_strlit("//?/");
        reveal_strlit("//");
    }
    let without_prefix = if starts_with(normalized.as_slice(), unc.as_slice()) {
        let rest = tail_from(normalized.as_slice(), 8);
        let mut joined = to_chars("//");
        let mut i: usize = 0;
        while i < rest.len()
            invariant
                i <= rest@.len(),
                joined@ =~= "//"@ + rest@.take(i as int),
            decreases rest@.len() - i,
        {
            joined.push(rest[i]);
            i += 1;
        }
        assert(rest@.take(rest@.len() as int) =~= rest@);
        joined
    } else if starts_with(normalized.as_slice(), verbatim.as_slice()) {
        tail_from(normalized.as_slice(), 4)
    } else {
        normalized
    };
    trim_end_chars(without_prefix.as_slice(), '/')
}

/// Whether `path` is the conflict candidate `scope`, lies inside it, or
/// contains it.
pub open spec fn within_conflict_scope(path: Seq<char>, scope: Seq<char>) -> bool {
    let p = comparable(path);
    let s = comparable(scope);
    p == s || has_prefix(p, s.push('/')) || has_prefix(s, p.push('/'))
}

pub fn path_is_within_conflict_scope(path: &str, scope: &str) -> (r: bool)
    ensures
        r == within_conflict_scope(path@, scope@),
{
    let p = comparable_path(path);
    let s = comparable_path(scope);
    if crate::text::chars_eq(p.as_slice(), s.as_slice()) {
        return true;
    }
    let mut s_sep = s.clone();
    s_sep.push('/');
    let mut p_sep = p.clone();
    p_sep.push('/');
    starts_with(p.as_slice(), s_sep.as_slice()) || starts_with(s.as_slice(), p_sep.as_slice())
}

/// Whether any of `paths` falls within the scope of any conflict candidate.
pub open spec fn conflicts_touch(conflicts: Seq<FolderNameConflictGroup>, paths: Seq<String>) -> bool {
    exists|p: int, g: int, c: int|
        0 <= p < paths.len() && 0 <= g < conflicts.len() && 0 <= c < conflicts[g].candidates@.len()
            && #[trigger] within_conflict_scope(paths[p]@, conflicts[g].candidates@[c].path@)
}

pub fn conflicts_intersect_paths(conflicts: &[FolderNameConflictGroup], paths: &[String]) -> (r: bool)
    ensures
        r == conflicts_touch(conflicts@, paths@),
{
    let mut p: usize = 0;
    while p < paths.len()
        invariant
            p <= paths@.len(),
            forall|pi: int, g: int, c: int|
                0 <= pi < p && 0 <= g < conflicts@.len() && 0 <= c < conflicts@[g].candidates@.len()
                    ==> !#[trigger] within_conflict_scope(paths@[pi]@, conflicts@[g].candidates@[c].path@),
        decreases paths@.len() - p,
    {
        let mut g: usize = 0;
        while g < conflicts.len()
            invariant
                p < paths@.len(),
                g <= conflicts@.len(),
                forall|pi: int, gi: int, c: int|
                    0 <= pi < p && 0 <= gi < conflicts@.len() && 0 <= c < conflicts@[gi].candidates@.len()
                        ==> !#[trigger] within_conflict_scope(paths@[pi]@, conflicts@[gi].candidates@[c].path@),
                forall|gi: int, c: int|
                    0 <= gi < g && 0 <= c < conflicts@[gi].candidates@.len()
                        ==> !#[trigger] within_conflict_scope(paths@[p as int]@, conflicts@[gi].candidates@[c].path@),
            decreases conflicts@.len() - g,
        {
            let candidates = &conflicts[g].candidates;
            let mut c: usize = 0;
            while c < candidates.len()
                invariant
                    p < paths@.len(),
                    g < conflicts@.len(),
                    candidates@ == conflicts@[g as int].candidates@,
                    c <= candidates@.len(),
                    forall|ci: int| 0 <= ci < c ==> !#[trigger] within_conflict_scope(paths@[p as int]@, candidates@[ci].path@),
                decreases candidates@.len() - c,
            {
                if path_is_within_conflict_scope(paths[p].as_str(), candidates[c].path.as_str()) {
                    assert(within_conflict_scope(paths@[p as int]@, conflicts@[g as int].candidates@[c as int].path@));
                    return true;
                }
                c += 1;
            }
            g += 1;
        }
        p += 1;
    }
    false
}

/// The message that rejects a mutation touching a folder-name conflict.
pub open spec fn folder_conflict_message() -> Seq<char> {
    "Resolve folder name conflicts affecting this mod before modifying it"@
}

pub fn folder_conflict_mutation_error() -> (r: AppError)
    ensures
        r matches AppError::Io(m) && m@ == folder_conflict_message(),
{
    AppError::Io(String::from_str("Resolve folder name conflicts affecting this mod before modifying it"))
}

/// Whether a preflight result must also be shown to the user.
pub fn preflight_result_requires_emit(status: &DiskReconcileStatus) -> (r: bool)
    ensures
        r == (*status == DiskReconcileStatus::AppliedWithFolderConflicts
            || *status == DiskReconcileStatus::NeedsRenameConfirmation),
{
    *status == DiskReconcileStatus::AppliedWithFolderConflicts || *status == DiskReconcileStatus::NeedsRenameConfirmation
}

/// The message that rejects a mutation while renames await review.
pub open spec fn rename_review_message() -> Seq<char> {
    "Review external folder rename candidates before modifying the mods directory"@
}

/// A preflight pass allows a mutation unless renames await review or the
/// mods folder is unavailable.
pub fn validate_mutation_preflight_result(result: DiskReconcileResult) -> (r: Result<DiskReconcileResult, AppError>)
    ensures
        result.status == DiskReconcileStatus::NeedsRenameConfirmation ==> (r matches Err(AppError::Io(m))
            && m@ == rename_review_message()),
        result.status == DiskReconcileStatus::SourceUnavailable ==> (r matches Err(AppError::Io(m)) && m@ == match result.error_message {
            Some(e) => e@,
            None => "Mods folder is unavailable"@,
        }),
        status_applied(result.status) ==> r == Ok::<DiskReconcileResult, AppError>(result),
{
    if result.status == DiskReconcileStatus::NeedsRenameConfirmation {
        return Err(AppError::Io(String::from_str("Review external folder rename candidates before modifying the mods directory")));
    }
    if result.status == DiskReconcileStatus::SourceUnavailable {
        let message = match &result.error_message {
            Some(message) => message.clone(),
            None => String::from_str("Mods folder is unavailable"),
        };
        return Err(AppError::Io(message));
    }
    Ok(result)
}

/// A preflight with folder conflicts blocks a mutation of the whole mods
/// folder (`paths` absent) or of any path within a conflict's scope.
pub fn ensure_preflight_allows_paths(result: &DiskReconcileResult, paths: Option<&[String]>) -> (r: Result<(), AppError>)
    ensures
        (result.status == DiskReconcileStatus::AppliedWithFolderConflicts && match paths {
            None => true,
            Some(ps) => conflicts_touch(result.folder_conflicts@, ps@),
        }) ==> (r matches Err(AppError::Io(m)) && m@ == folder_conflict_message()),
        !(result.status == DiskReconcileStatus::AppliedWithFolderConflicts && match paths {
            None => true,
            Some(ps) => conflicts_touch(result.folder_conflicts@, ps@),
        }) ==> r is Ok,
{
    if result.status == DiskReconcileStatus::AppliedWithFolderConflicts {
        let blocked = match paths {
            None => true,
            Some(ps) => conflicts_intersect_paths(result.folder_conflicts.as_slice(), ps),
        };
        if blocked {
            return Err(folder_conflict_mutation_error());
        }
    }
    Ok(())
}

} // verus!

verus! {

pub open spec fn incomplete_pairs_message() -> Seq<char> {
    "Trusted toggle reconcile requires complete rename pairs"@
}

pub open spec fn shared_parent_message() -> Seq<char> {
    "Trusted toggle reconcile paths must share one parent inside the Mods root"@
}

pub open spec fn identity_changed_message() -> Seq<char> {
    "Trusted toggle reconcile paths do not preserve normalized identity"@
}

pub open spec fn missing_mods_root_message() -> Seq<char> {
    "Game mods path not found"@
}

/// Two paths with the same parent folder.
pub open spec fn same_parent(a: Seq<char>, b: Seq<char>) -> bool {
    let ca = crate::path_rules::components(a);
    let cb = crate::path_rules::components(b);
    &&& ca.len() > 0
    &&& cb.len() > 0
    &&& crate::path_rules::rooted(a) == crate::path_rules::rooted(b)
    &&& ca.drop_last() == cb.drop_last()
}

/// What is wrong with one toggled pair, if anything: both paths must lie
/// in the mods folder under one parent, with one identity key.
pub open spec fn toggle_pair_error(root: Seq<char>, old_path: Seq<char>, new_path: Seq<char>) -> Option<Seq<char>> {
    if !(crate::path_rules::component_prefix(old_path, root) && crate::path_rules::component_prefix(new_path, root)
        && same_parent(old_path, new_path)) {
        Some(shared_parent_message())
    } else if crate::reconcile::pass::relative_key_of(root, old_path) != crate::reconcile::pass::relative_key_of(root, new_path) {
        Some(identity_changed_message())
    } else {
        None
    }
}

/// The first error among the first `k` pairs.
pub open spec fn first_toggle_error(root: Seq<char>, paths: Seq<String>, k: nat) -> Option<Seq<char>>
    decreases k,
{
    if k == 0 {
        None
    } else {
        match first_toggle_error(root, paths, (k - 1) as nat) {
            Some(e) => Some(e),
            None => toggle_pair_error(root, paths[2 * (k - 1)]@, paths[2 * (k - 1) + 1]@),
        }
    }
}

proof fn lemma_first_toggle_error_stays(root: Seq<char>, paths: Seq<String>, k: nat, n: nat)
    requires
        k <= n,
        first_toggle_error(root, paths, k) is Some,
    ensures
        first_toggle_error(root, paths, n) == first_toggle_error(root, paths, k),
    decreases n,
{
    if n > k {
        lemma_first_toggle_error_stays(root, paths, k, (n - 1) as nat);
    }
}

fn parents_match(a: &Vec<char>, b: &Vec<char>) -> (r: bool)
    ensures
        r == same_parent(a@, b@),
{
    let ca = crate::path_rules::path_components(a.as_slice());
    let cb = crate::path_rules::path_components(b.as_slice());
    if ca.len() == 0 || cb.len() == 0 || ca.len() != cb.len() {
        proof {
            if ca@.len() > 0 && cb@.len() > 0 {
                assert(crate::path_rules::components(a@).drop_last().len() != crate::path_rules::components(b@).drop_last().len());
            }
        }
        return false;
    }
    let ra = a.len() > 0 && crate::path_rules::is_separator(a[0]);
    let rb = b.len() > 0 && crate::path_rules::is_separator(b[0]);
    if ra != rb {
        return false;
    }
    let n = ca.len() - 1;
    let mut i: usize = 0;
    while i < n
        invariant
            n + 1 == ca@.len(),
            ca@.len() == cb@.len(),
            ca@.len() == crate::path_rules::components(a@).len(),
            cb@.len() == crate::path_rules::components(b@).len(),
            forall|k: int| 0 <= k < ca@.len() ==> #[trigger] ca@[k]@ == crate::path_rules::components(a@)[k],
            forall|k: int| 0 <= k < cb@.len() ==> #[trigger] cb@[k]@ == crate::path_rules::components(b@)[k],
            i <= n,
            forall|k: int| 0 <= k < i ==> crate::path_rules::components(a@)[k] == #[trigger] crate::path_rules::components(b@)[k],
        decreases n - i,
    {
        if !crate::text::chars_eq(ca[i].as_slice(), cb[i].as_slice()) {
            proof {
                assert(crate::path_rules::components(a@).drop_last()[i as int] != crate::path_rules::components(b@).drop_last()[i as int]);
            }
            return false;
        }
        i += 1;
    }
    assert(crate::path_rules::components(a@).drop_last() =~= crate::path_rules::components(b@).drop_last());
    true
}

/// Checks that a trusted toggle batch is a list of renames of a folder to
/// its enabled or disabled name: complete pairs, each under one parent in
/// the game's mods folder, with one identity key.
pub fn validate_trusted_toggle_batch_scope(
    settings: &crate::settings::AppSettings,
    game_id: &str,
    changed_paths: &Vec<String>,
) -> (r: Result<(), AppError>)
    ensures
        changed_paths@.len() == 0 || changed_paths@.len() % 2 == 1 ==> (r matches Err(AppError::Validation(m))
            && m@ == incomplete_pairs_message()),
        changed_paths@.len() > 0 && changed_paths@.len() % 2 == 0 && crate::settings::game_index(settings.games@, game_id@) < 0
            ==> (r matches Err(AppError::NotFound(m)) && m@ == missing_mods_root_message()),
        changed_paths@.len() > 0 && changed_paths@.len() % 2 == 0 && crate::settings::game_index(settings.games@, game_id@) >= 0
            ==> match first_toggle_error(
                settings.games@[crate::settings::game_index(settings.games@, game_id@)].mod_path@,
                changed_paths@,
                (changed_paths@.len() / 2) as nat,
            ) {
                Some(e) => r matches Err(AppError::Validation(m)) && m@ == e,
                None => r is Ok,
            },
{
    if changed_paths.len() == 0 || changed_paths.len() % 2 == 1 {
        return Err(AppError::Validation(String::from_str("Trusted toggle reconcile requires complete rename pairs")));
    }
    let k = match crate::settings::find_game(&settings.games, game_id) {
        Some(k) => k,
        None => return Err(AppError::NotFound(String::from_str("Game mods path not found"))),
    };
    let root = &settings.games[k].mod_path;
    let ghost rv = root@;
    let root_chars = to_chars(root.as_str());
    let pairs = changed_paths.len() / 2;
    let ghost gi = crate::settings::game_index(settings.games@, game_id@);
    assert(gi == k as int);
    let mut j: usize = 0;
    while j < pairs
        invariant
            pairs == changed_paths@.len() / 2,
            2 * pairs == changed_paths@.len(),
            changed_paths@.len() <= usize::MAX,
            crate::settings::game_index(settings.games@, game_id@) == k as int,
            k < settings.games@.len(),
            settings.games@[k as int].mod_path@ == rv,
            root_chars@ == rv,
            rv == root@,
            j <= pairs,
            first_toggle_error(rv, changed_paths@, j as nat) is None,
        decreases pairs - j,
    {
        proof {
            assert(first_toggle_error(rv, changed_paths@, (j + 1) as nat)
                == toggle_pair_error(rv, changed_paths@[2 * j as int]@, changed_paths@[2 * j as int + 1]@));
        }
        let old_path = &changed_paths[2 * j];
        let new_path = &changed_paths[2 * j + 1];
        let oc = to_chars(old_path.as_str());
        let nc = to_chars(new_path.as_str());
        if !(crate::path_rules::has_component_prefix(oc.as_slice(), root_chars.as_slice())
            && crate::path_rules::has_component_prefix(nc.as_slice(), root_chars.as_slice())
            && parents_match(&oc, &nc)) {
            proof {
                lemma_first_toggle_error_stays(rv, changed_paths@, (j + 1) as nat, pairs as nat);
            }
            return Err(AppError::Validation(String::from_str(
                "Trusted toggle reconcile paths must share one parent inside the Mods root",
            )));
        }
        let old_key = crate::reconcile::pass::relative_identity_key(root.as_str(), old_path.as_str());
        let new_key = crate::reconcile::pass::relative_identity_key(root.as_str(), new_path.as_str());
        let same = match (&old_key, &new_key) {
            (Some(a), Some(b)) => *a == *b,
            (None, None) => true,
            _ => false,
        };
        if !same {
            proof {
                lemma_first_toggle_error_stays(rv, changed_paths@, (j + 1) as nat, pairs as nat);
            }
            return Err(AppError::Validation(String::from_str(
                "Trusted toggle reconcile paths do not preserve normalized identity",
            )));
        }
        j += 1;
    }
    Ok(())
}

pub open spec fn open_path_conflict_message() -> Seq<char> {
    "Resolve folder name conflicts affecting this mod before opening it"@
}

/// Some conflict candidate's scope covers `path`.
pub open spec fn path_in_conflict(conflicts: Seq<FolderNameConflictGroup>, path: Seq<char>) -> bool {
    exists|g: int, c: int|
        0 <= g < conflicts.len() && 0 <= c < conflicts[g].candidates@.len()
            && #[trigger] within_conflict_scope(path, conflicts[g].candidates@[c].path@)
}

/// Opening a folder is refused while a folder-name conflict covers it.
pub fn check_open_path(conflicts: &Vec<FolderNameConflictGroup>, path: &str) -> (r: Result<(), AppError>)
    ensures
        path_in_conflict(conflicts@, path@) ==> (r matches Err(AppError::Io(m)) && m@ == open_path_conflict_message()),
        !path_in_conflict(conflicts@, path@) ==> r is Ok,
{
    let paths = vec![String::from_str(path)];
    assert(paths@[0]@ == path@);
    proof {
        if path_in_conflict(conflicts@, path@) {
            let (g, c) = choose|g: int, c: int| 0 <= g < conflicts@.len() && 0 <= c < conflicts@[g].candidates@.len()
                && #[trigger] within_conflict_scope(path@, conflicts@[g].candidates@[c].path@);
            assert(within_conflict_scope(paths@[0]@, conflicts@[g].candidates@[c].path@));
        }
    }
    if conflicts_intersect_paths(conflicts, paths.as_slice()) {
        return Err(AppError::Io(String::from_str("Resolve folder name conflicts affecting this mod before opening it")));
    }
    Ok(())
}

pub open spec fn preflight_paths_message() -> Seq<char> {
    "Regional mutation preflight requires affected paths"@
}

/// The request of a regional mutation preflight: an internal mutation of
/// the affected paths, whose overlay publish waits for the mutation, and
/// whose scope is trusted when the caller holds the locks for it.
pub fn mutation_preflight_request(
    game_id: String,
    paths: Vec<String>,
    trusted_regional_scope: bool,
) -> (r: Result<crate::reconcile::request::DiskReconcileRequest, AppError>)
    ensures
        paths@.len() == 0 ==> (r matches Err(AppError::Validation(m)) && m@ == preflight_paths_message()),
        paths@.len() > 0 ==> (r matches Ok(q) && q.game_id == game_id && q.reason == crate::reconcile::types::DiskReconcileReason::InternalMutation
            && q.changed_paths == paths && !q.force_full && q.defer_overlay_sync
            && q.trusted_mutation_scope == trusted_regional_scope && q.watcher_events@.len() == 0
            && q.path_hints@.len() == 0 && q.watcher_session is None && q.precomputed_discovery is None),
{
    if paths.len() == 0 {
        return Err(AppError::Validation(String::from_str("Regional mutation preflight requires affected paths")));
    }
    let request = crate::reconcile::request::DiskReconcileRequest::manual(game_id, crate::reconcile::types::DiskReconcileReason::InternalMutation, paths, false)
        .defer_overlay_sync();
    if trusted_regional_scope {
        Ok(request.trust_locked_regional_preflight())
    } else {
        Ok(request)
    }
}

} // verus!
