//! The order in which a new mods directory is applied to a game, and how a
//! failure part-way is undone: the checks come before any change, the
//! generated data follows the library, the settings are saved, a reconcile
//! runs, and a failure after a change rolls the directory back and moves the
//! generated data home before the error is reported.

use vstd::prelude::*;

use crate::error::AppError;
use crate::reconcile::source_recovery::{
    changed_since_inspection_message, confirm_empty_message, confirm_replace_message, confirmation_given,
    directory_lost_message, ensure_directory_confirmed, ensure_fingerprint_unchanged, game_missing_for_apply_message,
    generated_move_outcome, move_generated_emmm_data_directory, require_available_source, ApplyGameModsDirectoryRequest,
    GameModsDirectoryClassification, GameModsDirectoryInspection,
};
use crate::reconcile::types::{DiskReconcileResult, DiskReconcileStatus};
use crate::settings::{find_game, game_index, AppSettings};
use crate::text::concat_str;

verus! {

/// What an accepted apply starts from: the game it changes and the move of
/// the generated data folder, as (from, to), when there is one.
pub struct ApplyStart {
    pub game_index: usize,
    pub data_move: Option<(String, String)>,
}

/// What checking an apply request gives: a changed fingerprint, an unknown
/// game or a missing confirmation refuses it, in that order; otherwise the
/// generated data move is planned from the game's current directory to the
/// inspected one.
pub open spec fn begin_outcome(
    inspection: GameModsDirectoryInspection,
    request: ApplyGameModsDirectoryRequest,
    settings: AppSettings,
    source_has_data: bool,
    destination_has_data: bool,
    r: Result<ApplyStart, AppError>,
) -> bool {
    let k = game_index(settings.games@, request.game_id@);
    if inspection.fingerprint@ != request.expected_fingerprint@ {
        r matches Err(AppError::Validation(m)) && m@ == changed_since_inspection_message()
    } else if k < 0 {
        r matches Err(AppError::Validation(m)) && m@ == game_missing_for_apply_message(request.game_id@)
    } else if !confirmation_given(
        inspection.summary.classification,
        request.confirm_empty,
        request.different_confirmation_game_name,
        settings.games@[k].name@,
    ) {
        r matches Err(AppError::Validation(m)) && m@ == (if inspection.summary.classification
            == GameModsDirectoryClassification::Empty {
            confirm_empty_message()
        } else {
            confirm_replace_message(settings.games@[k].name@)
        })
    } else {
        let from = settings.games@[k].mod_path@;
        let to = inspection.candidate_path@;
        match r {
            Ok(start) => start.game_index == k && generated_move_outcome(
                from,
                to,
                source_has_data,
                destination_has_data,
                Ok(start.data_move),
            ),
            Err(e) => generated_move_outcome(from, to, source_has_data, destination_has_data, Err(e)),
        }
    }
}

/// Checks an apply request against its inspection and the settings, before
/// anything is changed, and plans the move of the generated data. Whether
/// the current directory holds generated data and whether the new one
/// already does are read from disk by the caller.
pub fn begin_apply(
    inspection: &GameModsDirectoryInspection,
    request: &ApplyGameModsDirectoryRequest,
    settings: &AppSettings,
    source_has_data: bool,
    destination_has_data: bool,
) -> (r: Result<ApplyStart, AppError>)
    ensures
        begin_outcome(*inspection, *request, *settings, source_has_data, destination_has_data, r),
{
    ensure_fingerprint_unchanged(&inspection.fingerprint, &request.expected_fingerprint)?;
    let k = match find_game(&settings.games, request.game_id.as_str()) {
        Some(k) => k,
        None => {
            let a = concat_str("Game '", request.game_id.as_str());
            return Err(AppError::Validation(concat_str(a.as_str(), "' was not found")));
        },
    };
    ensure_directory_confirmed(
        inspection.summary.classification,
        request.confirm_empty,
        &request.different_confirmation_game_name,
        settings.games[k].name.as_str(),
    )?;
    let data_move = move_generated_emmm_data_directory(
        settings.games[k].mod_path.as_str(),
        inspection.candidate_path.as_str(),
        source_has_data,
        destination_has_data,
    )?;
    Ok(ApplyStart { game_index: k, data_move })
}

/// Where an apply stands once its checks passed.
#[derive(Debug)]
pub enum ApplyStage {
    /// The generated data is being moved to the new directory.
    MovingData,
    /// The new directory is being saved in the settings.
    Saving { moved: bool },
    /// The reconcile of the new directory is running.
    Reconciling { moved: bool },
    /// The previous directory is being put back after `error`.
    RollingBack { moved: bool, error: AppError },
    /// The generated data is being moved back after `error`; `saved` tells
    /// whether the failure came after the settings were saved.
    RestoringData { moved: bool, saved: bool, error: AppError },
    /// The apply is over.
    Finished,
}

/// What the caller reports after doing the work an action asked for.
#[derive(Debug)]
pub enum ApplyEvent {
    /// The generated data move: whether data was moved, or why it failed.
    DataMoved(Result<bool, AppError>),
    /// The save of the new directory in the settings.
    Saved(Result<(), AppError>),
    /// The reconcile of the new directory.
    Reconciled(Result<DiskReconcileResult, AppError>),
    /// The rollback of the settings to the previous directory.
    RolledBack(Result<(), AppError>),
    /// The move of the generated data back to the previous directory.
    DataRestored(Result<(), AppError>),
}

/// The work the caller does next.
#[derive(Debug)]
pub enum ApplyAction {
    SaveSettings,
    RunReconcile,
    RollBackDirectory,
    /// Move the generated data back (nothing to do when none was moved).
    RestoreData { moved: bool },
    /// Report the apply's outcome.
    Finish(Result<DiskReconcileResult, AppError>),
}

/// Whether `event` answers the action that led to `stage`.
pub open spec fn event_fits(stage: ApplyStage, event: ApplyEvent) -> bool {
    match stage {
        ApplyStage::MovingData => event is DataMoved,
        ApplyStage::Saving { .. } => event is Saved,
        ApplyStage::Reconciling { .. } => event is Reconciled,
        ApplyStage::RollingBack { .. } => event is RolledBack,
        ApplyStage::RestoringData { .. } => event is DataRestored,
        ApplyStage::Finished => false,
    }
}

/// The message for a failed save whose data could not be moved back.
pub open spec fn save_restore_failed_message(error: Seq<char>, restore: Seq<char>) -> Seq<char> {
    "Could not save the new mods directory ("@ + error + ") and could not restore generated EMMM data: "@ + restore
}

/// The message for a failed apply whose previous directory could not be put back.
pub open spec fn rollback_failed_message(error: Seq<char>, rollback: Seq<char>) -> Seq<char> {
    "Applying the mods directory failed ("@ + error + ") and restoring the previous directory also failed: "@
        + rollback
}

/// The message for a failed apply whose directory came back but whose data did not.
pub open spec fn reconcile_restore_failed_message(error: Seq<char>, restore: Seq<char>) -> Seq<char> {
    "Applying the mods directory failed ("@ + error
        + "); the previous directory was restored, but generated EMMM data could not be restored: "@ + restore
}

/// Whether `error` is what a reconcile result stands for when the apply
/// cannot keep it: the reconcile's own error, or a lost source reported as
/// an I/O error with the reconcile's message.
pub open spec fn reconcile_failure(result: Result<DiskReconcileResult, AppError>, error: AppError) -> bool {
    match result {
        Err(e) => error == e,
        Ok(r) => r.status == DiskReconcileStatus::SourceUnavailable && (error matches AppError::Io(m) && m@ == match r.error_message {
            Some(e) => e@,
            None => directory_lost_message(),
        }),
    }
}

/// Whether a reconcile result completes the apply.
pub open spec fn reconcile_kept(result: Result<DiskReconcileResult, AppError>) -> bool {
    result matches Ok(r) && r.status != DiskReconcileStatus::SourceUnavailable
}

/// The next stage and action of an apply, for each stage and the event
/// that answers it.
pub open spec fn apply_transition(stage: ApplyStage, event: ApplyEvent, next: ApplyStage, action: ApplyAction) -> bool {
    match stage {
        ApplyStage::MovingData => match event {
            ApplyEvent::DataMoved(Err(e)) => next is Finished && action == ApplyAction::Finish(Err(e)),
            ApplyEvent::DataMoved(Ok(m)) => next == (ApplyStage::Saving { moved: m }) && action is SaveSettings,
            _ => false,
        },
        ApplyStage::Saving { moved } => match event {
            ApplyEvent::Saved(Ok(())) => next == (ApplyStage::Reconciling { moved }) && action is RunReconcile,
            ApplyEvent::Saved(Err(e)) => next == (ApplyStage::RestoringData { moved, saved: false, error: e })
                && action == (ApplyAction::RestoreData { moved }),
            _ => false,
        },
        ApplyStage::Reconciling { moved } => match event {
            ApplyEvent::Reconciled(result) => if reconcile_kept(result) {
                next is Finished && action == ApplyAction::Finish(result)
            } else {
                next matches ApplyStage::RollingBack { moved: m, error } && m == moved && reconcile_failure(result, error)
                    && action is RollBackDirectory
            },
            _ => false,
        },
        ApplyStage::RollingBack { moved, error } => match event {
            ApplyEvent::RolledBack(Ok(())) => next == (ApplyStage::RestoringData { moved, saved: true, error })
                && action == (ApplyAction::RestoreData { moved }),
            ApplyEvent::RolledBack(Err(rollback)) => next is Finished && (action matches ApplyAction::Finish(
                Err(AppError::Internal(m)),
            ) && m@ == rollback_failed_message(error.spec_message(), rollback.spec_message())),
            _ => false,
        },
        ApplyStage::RestoringData { moved, saved, error } => match event {
            ApplyEvent::DataRestored(Ok(())) => next is Finished && action == ApplyAction::Finish(Err(error)),
            ApplyEvent::DataRestored(Err(restore)) => next is Finished && (action matches ApplyAction::Finish(
                Err(AppError::Internal(m)),
            ) && m@ == if saved {
                reconcile_restore_failed_message(error.spec_message(), restore.spec_message())
            } else {
                save_restore_failed_message(error.spec_message(), restore.spec_message())
            }),
            _ => false,
        },
        ApplyStage::Finished => false,
    }
}

/// One step of an apply: given the stage it stands in and what the work
/// of its last action gave, the stage it moves to and the work to do next.
pub fn apply_step(stage: ApplyStage, event: ApplyEvent) -> (r: (ApplyStage, ApplyAction))
    requires
        event_fits(stage, event),
    ensures
        apply_transition(stage, event, r.0, r.1),
{
    match stage {
        ApplyStage::MovingData => match event {
            ApplyEvent::DataMoved(Err(e)) => (ApplyStage::Finished, ApplyAction::Finish(Err(e))),
            ApplyEvent::DataMoved(Ok(m)) => (ApplyStage::Saving { moved: m }, ApplyAction::SaveSettings),
            _ => (ApplyStage::Finished, ApplyAction::Finish(Err(AppError::Cancelled))),
        },
        ApplyStage::Saving { moved } => match event {
            ApplyEvent::Saved(Ok(())) => (ApplyStage::Reconciling { moved }, ApplyAction::RunReconcile),
            ApplyEvent::Saved(Err(e)) => (
                ApplyStage::RestoringData { moved, saved: false, error: e },
                ApplyAction::RestoreData { moved },
            ),
            _ => (ApplyStage::Finished, ApplyAction::Finish(Err(AppError::Cancelled))),
        },
        ApplyStage::Reconciling { moved } => match event {
            ApplyEvent::Reconciled(Ok(result)) => match require_available_source(result) {
                Ok(kept) => (ApplyStage::Finished, ApplyAction::Finish(Ok(kept))),
                Err(error) => (ApplyStage::RollingBack { moved, error }, ApplyAction::RollBackDirectory),
            },
            ApplyEvent::Reconciled(Err(error)) => (ApplyStage::RollingBack { moved, error }, ApplyAction::RollBackDirectory),
            _ => (ApplyStage::Finished, ApplyAction::Finish(Err(AppError::Cancelled))),
        },
        ApplyStage::RollingBack { moved, error } => match event {
            ApplyEvent::RolledBack(Ok(())) => (
                ApplyStage::RestoringData { moved, saved: true, error },
                ApplyAction::RestoreData { moved },
            ),
            ApplyEvent::RolledBack(Err(rollback)) => {
                let a = concat_str("Applying the mods directory failed (", error.message().as_str());
                let b = concat_str(a.as_str(), ") and restoring the previous directory also failed: ");
                let m = concat_str(b.as_str(), rollback.message().as_str());
                (ApplyStage::Finished, ApplyAction::Finish(Err(AppError::Internal(m))))
            },
            _ => (ApplyStage::Finished, ApplyAction::Finish(Err(AppError::Cancelled))),
        },
        ApplyStage::RestoringData { moved, saved, error } => match event {
            ApplyEvent::DataRestored(Ok(())) => (ApplyStage::Finished, ApplyAction::Finish(Err(error))),
            ApplyEvent::DataRestored(Err(restore)) => {
                let m = if saved {
                    let a = concat_str("Applying the mods directory failed (", error.message().as_str());
                    let b = concat_str(
                        a.as_str(),
                        "); the previous directory was restored, but generated EMMM data could not be restored: ",
                    );
                    concat_str(b.as_str(), restore.message().as_str())
                } else {
                    let a = concat_str("Could not save the new mods directory (", error.message().as_str());
                    let b = concat_str(a.as_str(), ") and could not restore generated EMMM data: ");
                    concat_str(b.as_str(), restore.message().as_str())
                };
                (ApplyStage::Finished, ApplyAction::Finish(Err(AppError::Internal(m))))
            },
            _ => (ApplyStage::Finished, ApplyAction::Finish(Err(AppError::Cancelled))),
        },
        ApplyStage::Finished => (ApplyStage::Finished, ApplyAction::Finish(Err(AppError::Cancelled))),
    }
}

/// What is left applied once the work answered by `event` was done, as
/// (generated data moved, new directory saved).
pub open spec fn applied_after(stage: ApplyStage, event: ApplyEvent) -> (bool, bool) {
    match stage {
        ApplyStage::MovingData => match event {
            ApplyEvent::DataMoved(Ok(m)) => (m, false),
            _ => (false, false),
        },
        ApplyStage::Saving { moved } => (moved, event matches ApplyEvent::Saved(Ok(_))),
        ApplyStage::Reconciling { moved } => (moved, true),
        ApplyStage::RollingBack { moved, .. } => (moved, event matches ApplyEvent::RolledBack(Err(_))),
        ApplyStage::RestoringData { moved, .. } => (moved && event matches ApplyEvent::DataRestored(Err(_)), false),
        ApplyStage::Finished => (false, false),
    }
}

/// Whether `event` reports that undoing part of the apply failed.
pub open spec fn undo_failed(event: ApplyEvent) -> bool {
    event matches ApplyEvent::RolledBack(Err(_)) || event matches ApplyEvent::DataRestored(Err(_))
}

/// A failed apply is not left half-applied: it ends in an error only once
/// the directory and the generated data are back where they were, or when
/// putting one of them back failed, which the error then says; it ends in
/// success only with the new directory saved and a reconcile that kept the
/// source; and a failure while something is applied leads to undoing it.
pub proof fn law_failed_apply_is_undone(stage: ApplyStage, event: ApplyEvent, next: ApplyStage, action: ApplyAction)
    requires
        apply_transition(stage, event, next, action),
    ensures
        action matches ApplyAction::Finish(Err(_)) ==> applied_after(stage, event) == (false, false) || undo_failed(event),
        undo_failed(event) ==> (action matches ApplyAction::Finish(Err(AppError::Internal(_)))),
        action matches ApplyAction::Finish(Ok(r)) ==> applied_after(stage, event).1 && r.status
            != DiskReconcileStatus::SourceUnavailable,
        applied_after(stage, event).1 && !(action is Finish) ==> action is RunReconcile || action is RollBackDirectory,
        applied_after(stage, event).0 && !applied_after(stage, event).1 && !(action is Finish) ==> action is SaveSettings
            || action is RestoreData,
{
}

/// Once undone, a failed apply reports the error that made it fail: a
/// failed save followed by the data moved back, or a failed reconcile
/// followed by the rollback and the data moved back, ends in that error.
pub proof fn law_undone_apply_reports_its_first_error(
    moved: bool,
    error: AppError,
    n1: ApplyStage,
    a1: ApplyAction,
    n2: ApplyStage,
    a2: ApplyAction,
    n3: ApplyStage,
    a3: ApplyAction,
)
    ensures
        apply_transition(ApplyStage::Saving { moved }, ApplyEvent::Saved(Err(error)), n1, a1) && apply_transition(
            n1,
            ApplyEvent::DataRestored(Ok(())),
            n2,
            a2,
        ) ==> a1 == (ApplyAction::RestoreData { moved }) && a2 == ApplyAction::Finish(Err(error)),
        apply_transition(ApplyStage::Reconciling { moved }, ApplyEvent::Reconciled(Err(error)), n1, a1)
            && apply_transition(n1, ApplyEvent::RolledBack(Ok(())), n2, a2) && apply_transition(
            n2,
            ApplyEvent::DataRestored(Ok(())),
            n3,
            a3,
        ) ==> a1 is RollBackDirectory && a2 == (ApplyAction::RestoreData { moved }) && a3 == ApplyAction::Finish(
            Err(error),
        ),
{
}

/// A request is refused, before anything changes, when the directory
/// changed since its inspection, the game is unknown, or the confirmation
/// its classification needs is missing.
pub proof fn law_refusals_come_before_any_change(
    inspection: GameModsDirectoryInspection,
    request: ApplyGameModsDirectoryRequest,
    settings: AppSettings,
    source_has_data: bool,
    destination_has_data: bool,
    r: Result<ApplyStart, AppError>,
)
    requires
        begin_outcome(inspection, request, settings, source_has_data, destination_has_data, r),
    ensures
        inspection.fingerprint@ != request.expected_fingerprint@ ==> (r matches Err(AppError::Validation(_))),
        game_index(settings.games@, request.game_id@) < 0 ==> (r matches Err(AppError::Validation(_))),
        game_index(settings.games@, request.game_id@) >= 0 && !confirmation_given(
            inspection.summary.classification,
            request.confirm_empty,
            request.different_confirmation_game_name,
            settings.games@[game_index(settings.games@, request.game_id@)].name@,
        ) ==> (r matches Err(AppError::Validation(_))),
{
}

} // verus!
