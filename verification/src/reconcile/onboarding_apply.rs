//! Applying one prepared game of an onboarding session: the game leaves its
//! session, is marked as applying, and its prepared snapshot is applied,
//! unless the session ran out, in which case a full recheck replaces it. A
//! snapshot whose folders changed while it was applied is settled by a full
//! recheck too. Each reconcile is recorded for diagnostics as an apply or a
//! recheck with its outcome.

use vstd::prelude::*;

use crate::error::AppError;
use crate::reconcile::onboarding::SessionClaim;
use crate::reconcile::types::DiskReconcileResult;

verus! {

/// Which onboarding operation a reconcile is recorded as.
#[derive(Debug, Clone, Copy, PartialEq, Eq, Structural)]
pub enum OnboardingOperation {
    Apply,
    Recheck,
}

/// How a recorded onboarding operation ended.
#[derive(Debug, Clone, Copy, PartialEq, Eq, Structural)]
pub enum OperationOutcome {
    Success,
    Cancelled,
    Failed,
}

/// What is recorded of one onboarding reconcile.
#[derive(Debug, Clone, Copy, PartialEq, Eq, Structural)]
pub struct OnboardingRecord {
    pub operation: OnboardingOperation,
    pub outcome: OperationOutcome,
}

/// Where the application of a prepared game stands.
#[derive(Debug)]
pub enum OnboardingGameStage {
    /// The game is leaving its session.
    Consuming,
    /// The game is being marked as applying; `recheck` when no snapshot is left.
    MarkingApplying { recheck: bool },
    /// The recheck is being announced.
    AnnouncingRecheck,
    /// A reconcile runs, from the prepared snapshot or as a full recheck.
    Reconciling { with_snapshot: bool },
    /// The snapshot was applied; the watcher is asked whether folders changed meanwhile.
    AwaitingWatcher { result: DiskReconcileResult },
    Finished,
}

/// What the caller reports after the work an action asked for.
#[derive(Debug)]
pub enum OnboardingGameEvent {
    Consumed(Result<SessionClaim, AppError>),
    PhaseMarked(Result<(), AppError>),
    RecheckAnnounced(Result<(), AppError>),
    Reconciled(Result<DiskReconcileResult, AppError>),
    /// Whether the watcher saw folders change while the snapshot was applied.
    ChangesObserved(bool),
}

/// The work the caller does next.
#[derive(Debug)]
pub enum OnboardingGameAction {
    MarkApplying,
    AnnounceRecheck,
    Reconcile { use_snapshot: bool },
    /// Record the apply, then ask the watcher about changes during it.
    CheckWatcher { record: OnboardingRecord },
    /// Record the reconcile, if one ran just before, and report the outcome.
    Finish { record: Option<OnboardingRecord>, outcome: Result<DiskReconcileResult, AppError> },
}

/// How an onboarding reconcile that failed with `error` is recorded.
pub open spec fn failure_outcome(error: AppError) -> OperationOutcome {
    if error is Cancelled {
        OperationOutcome::Cancelled
    } else {
        OperationOutcome::Failed
    }
}

/// The operation a reconcile is recorded as.
pub open spec fn operation_of(with_snapshot: bool) -> OnboardingOperation {
    if with_snapshot {
        OnboardingOperation::Apply
    } else {
        OnboardingOperation::Recheck
    }
}

/// Whether `event` answers the action that led to `stage`.
pub open spec fn onboarding_event_fits(stage: OnboardingGameStage, event: OnboardingGameEvent) -> bool {
    match stage {
        OnboardingGameStage::Consuming => event is Consumed,
        OnboardingGameStage::MarkingApplying { .. } => event is PhaseMarked,
        OnboardingGameStage::AnnouncingRecheck => event is RecheckAnnounced,
        OnboardingGameStage::Reconciling { .. } => event is Reconciled,
        OnboardingGameStage::AwaitingWatcher { .. } => event is ChangesObserved,
        OnboardingGameStage::Finished => false,
    }
}

/// The next stage and action for each stage and the event that answers it.
pub open spec fn onboarding_game_transition(
    stage: OnboardingGameStage,
    event: OnboardingGameEvent,
    next: OnboardingGameStage,
    action: OnboardingGameAction,
) -> bool {
    match stage {
        OnboardingGameStage::Consuming => match event {
            OnboardingGameEvent::Consumed(Err(e)) => next is Finished && action == (OnboardingGameAction::Finish {
                record: None,
                outcome: Err(e),
            }),
            OnboardingGameEvent::Consumed(Ok(claim)) => next == (OnboardingGameStage::MarkingApplying {
                recheck: claim == SessionClaim::Expired,
            }) && action is MarkApplying,
            _ => false,
        },
        OnboardingGameStage::MarkingApplying { recheck } => match event {
            OnboardingGameEvent::PhaseMarked(Err(e)) => next is Finished && action == (OnboardingGameAction::Finish {
                record: None,
                outcome: Err(e),
            }),
            OnboardingGameEvent::PhaseMarked(Ok(())) => if recheck {
                next is AnnouncingRecheck && action is AnnounceRecheck
            } else {
                next == (OnboardingGameStage::Reconciling { with_snapshot: true })
                    && action == (OnboardingGameAction::Reconcile { use_snapshot: true })
            },
            _ => false,
        },
        OnboardingGameStage::AnnouncingRecheck => match event {
            OnboardingGameEvent::RecheckAnnounced(Err(e)) => next is Finished && action == (
            OnboardingGameAction::Finish { record: None, outcome: Err(e) }),
            OnboardingGameEvent::RecheckAnnounced(Ok(())) => next == (OnboardingGameStage::Reconciling {
                with_snapshot: false,
            }) && action == (OnboardingGameAction::Reconcile { use_snapshot: false }),
            _ => false,
        },
        OnboardingGameStage::Reconciling { with_snapshot } => match event {
            OnboardingGameEvent::Reconciled(Err(e)) => next is Finished && action == (OnboardingGameAction::Finish {
                record: Some(OnboardingRecord { operation: operation_of(with_snapshot), outcome: failure_outcome(e) }),
                outcome: Err(e),
            }),
            OnboardingGameEvent::Reconciled(Ok(result)) => if with_snapshot {
                next == (OnboardingGameStage::AwaitingWatcher { result }) && action == (
                OnboardingGameAction::CheckWatcher {
                    record: OnboardingRecord { operation: OnboardingOperation::Apply, outcome: OperationOutcome::Success },
                })
            } else {
                next is Finished && action == (OnboardingGameAction::Finish {
                    record: Some(
                        OnboardingRecord { operation: OnboardingOperation::Recheck, outcome: OperationOutcome::Success },
                    ),
                    outcome: Ok(result),
                })
            },
            _ => false,
        },
        OnboardingGameStage::AwaitingWatcher { result } => match event {
            OnboardingGameEvent::ChangesObserved(changed) => if changed {
                next is AnnouncingRecheck && action is AnnounceRecheck
            } else {
                next is Finished && action == (OnboardingGameAction::Finish { record: None, outcome: Ok(result) })
            },
            _ => false,
        },
        OnboardingGameStage::Finished => false,
    }
}

fn record_failure(operation: OnboardingOperation, error: &AppError) -> (r: OnboardingRecord)
    ensures
        r == (OnboardingRecord { operation, outcome: failure_outcome(*error) }),
{
    let outcome = match error {
        AppError::Cancelled => OperationOutcome::Cancelled,
        _ => OperationOutcome::Failed,
    };
    OnboardingRecord { operation, outcome }
}

/// One step of applying a prepared game: given the stage it stands in and
/// what the work of its last action gave, the stage it moves to and the
/// work to do next.
pub fn onboarding_game_step(stage: OnboardingGameStage, event: OnboardingGameEvent) -> (r: (
    OnboardingGameStage,
    OnboardingGameAction,
))
    requires
        onboarding_event_fits(stage, event),
    ensures
        onboarding_game_transition(stage, event, r.0, r.1),
{
    let finished = OnboardingGameStage::Finished;
    match stage {
        OnboardingGameStage::Consuming => match event {
            OnboardingGameEvent::Consumed(Err(e)) => (finished, OnboardingGameAction::Finish { record: None, outcome: Err(e) }),
            OnboardingGameEvent::Consumed(Ok(claim)) => {
                let recheck = match claim {
                    SessionClaim::Expired => true,
                    SessionClaim::Claimed => false,
                };
                (OnboardingGameStage::MarkingApplying { recheck }, OnboardingGameAction::MarkApplying)
            },
            _ => (finished, OnboardingGameAction::Finish { record: None, outcome: Err(AppError::Cancelled) }),
        },
        OnboardingGameStage::MarkingApplying { recheck } => match event {
            OnboardingGameEvent::PhaseMarked(Err(e)) => (
                finished,
                OnboardingGameAction::Finish { record: None, outcome: Err(e) },
            ),
            OnboardingGameEvent::PhaseMarked(Ok(())) => if recheck {
                (OnboardingGameStage::AnnouncingRecheck, OnboardingGameAction::AnnounceRecheck)
            } else {
                (
                    OnboardingGameStage::Reconciling { with_snapshot: true },
                    OnboardingGameAction::Reconcile { use_snapshot: true },
                )
            },
            _ => (finished, OnboardingGameAction::Finish { record: None, outcome: Err(AppError::Cancelled) }),
        },
        OnboardingGameStage::AnnouncingRecheck => match event {
            OnboardingGameEvent::RecheckAnnounced(Err(e)) => (
                finished,
                OnboardingGameAction::Finish { record: None, outcome: Err(e) },
            ),
            OnboardingGameEvent::RecheckAnnounced(Ok(())) => (
                OnboardingGameStage::Reconciling { with_snapshot: false },
                OnboardingGameAction::Reconcile { use_snapshot: false },
            ),
            _ => (finished, OnboardingGameAction::Finish { record: None, outcome: Err(AppError::Cancelled) }),
        },
        OnboardingGameStage::Reconciling { with_snapshot } => match event {
            OnboardingGameEvent::Reconciled(Err(e)) => {
                let operation = if with_snapshot {
                    OnboardingOperation::Apply
                } else {
                    OnboardingOperation::Recheck
                };
                let record = record_failure(operation, &e);
                (finished, OnboardingGameAction::Finish { record: Some(record), outcome: Err(e) })
            },
            OnboardingGameEvent::Reconciled(Ok(result)) => if with_snapshot {
                (
                    OnboardingGameStage::AwaitingWatcher { result },
                    OnboardingGameAction::CheckWatcher {
                        record: OnboardingRecord { operation: OnboardingOperation::Apply, outcome: OperationOutcome::Success },
                    },
                )
            } else {
                (
                    finished,
                    OnboardingGameAction::Finish {
                        record: Some(
                            OnboardingRecord { operation: OnboardingOperation::Recheck, outcome: OperationOutcome::Success },
                        ),
                        outcome: Ok(result),
                    },
                )
            },
            _ => (finished, OnboardingGameAction::Finish { record: None, outcome: Err(AppError::Cancelled) }),
        },
        OnboardingGameStage::AwaitingWatcher { result } => match event {
            OnboardingGameEvent::ChangesObserved(changed) => if changed {
                (OnboardingGameStage::AnnouncingRecheck, OnboardingGameAction::AnnounceRecheck)
            } else {
                (finished, OnboardingGameAction::Finish { record: None, outcome: Ok(result) })
            },
            _ => (finished, OnboardingGameAction::Finish { record: None, outcome: Err(AppError::Cancelled) }),
        },
        OnboardingGameStage::Finished => (finished, OnboardingGameAction::Finish { record: None, outcome: Err(AppError::Cancelled) }),
    }
}

/// A snapshot whose folders changed while it was applied is not reported:
/// once the watcher says so, the game is rechecked in full and the outcome
/// is that recheck's, recorded as a recheck.
pub proof fn law_changed_snapshot_is_rechecked(
    applied: DiskReconcileResult,
    recheck: Result<DiskReconcileResult, AppError>,
    n1: OnboardingGameStage,
    a1: OnboardingGameAction,
    n2: OnboardingGameStage,
    a2: OnboardingGameAction,
    n3: OnboardingGameStage,
    a3: OnboardingGameAction,
)
    requires
        onboarding_game_transition(
            OnboardingGameStage::AwaitingWatcher { result: applied },
            OnboardingGameEvent::ChangesObserved(true),
            n1,
            a1,
        ),
        onboarding_game_transition(n1, OnboardingGameEvent::RecheckAnnounced(Ok(())), n2, a2),
        onboarding_game_transition(n2, OnboardingGameEvent::Reconciled(recheck), n3, a3),
    ensures
        a2 == (OnboardingGameAction::Reconcile { use_snapshot: false }),
        a3 matches OnboardingGameAction::Finish { record: Some(rec), outcome } && outcome == recheck
            && rec.operation == OnboardingOperation::Recheck,
{
}

/// A game whose session ran out is never applied from a snapshot: after it
/// is marked as applying, a full recheck is announced and run.
pub proof fn law_expired_session_rechecks_in_full(
    n1: OnboardingGameStage,
    a1: OnboardingGameAction,
    n2: OnboardingGameStage,
    a2: OnboardingGameAction,
    n3: OnboardingGameStage,
    a3: OnboardingGameAction,
)
    requires
        onboarding_game_transition(
            OnboardingGameStage::Consuming,
            OnboardingGameEvent::Consumed(Ok(SessionClaim::Expired)),
            n1,
            a1,
        ),
        onboarding_game_transition(n1, OnboardingGameEvent::PhaseMarked(Ok(())), n2, a2),
        onboarding_game_transition(n2, OnboardingGameEvent::RecheckAnnounced(Ok(())), n3, a3),
    ensures
        a1 is MarkApplying,
        a2 is AnnounceRecheck,
        a3 == (OnboardingGameAction::Reconcile { use_snapshot: false }),
{
}

} // verus!
