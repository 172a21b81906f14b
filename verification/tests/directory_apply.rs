use emmm_reconcile::error::AppError;
use emmm_reconcile::reconcile::directory_apply::{apply_step, begin_apply, ApplyAction, ApplyEvent, ApplyStage};
use emmm_reconcile::reconcile::source_recovery::{
    ApplyGameModsDirectoryRequest, GameModsDirectoryCandidateSummary, GameModsDirectoryClassification,
    GameModsDirectoryInspection,
};
use emmm_reconcile::reconcile::types::{
    DiskReconcileReason, DiskReconcileResult, DiskReconcileScanScope, DiskReconcileStatus,
};
use emmm_reconcile::settings::{AppSettings, GameConfig, GameType};

fn game(id: &str, name: &str, mod_path: &str) -> GameConfig {
    GameConfig {
        id: id.to_string(),
        name: name.to_string(),
        game_type: GameType::GIMI,
        instance_path: "E:/Game".to_string(),
        mod_path: mod_path.to_string(),
        ready_to_move_path: None,
        launch_mode: "xxmi".to_string(),
        game_exe: None,
        loader_exe: None,
        xxmi_launcher_exe: None,
        launch_args: None,
        warnings: vec![],
    }
}

fn settings() -> AppSettings {
    let mut settings = AppSettings::default();
    settings.games.push(game("other", "Other", "D:/Mods"));
    settings.games.push(game("gimi", "Genshin", "E:/Old"));
    settings
}

fn inspection(classification: GameModsDirectoryClassification) -> GameModsDirectoryInspection {
    GameModsDirectoryInspection {
        game_id: "gimi".to_string(),
        candidate_path: "E:/New".to_string(),
        fingerprint: "abc".to_string(),
        summary: GameModsDirectoryCandidateSummary {
            classification,
            existing_object_count: 1,
            existing_mod_count: 1,
            candidate_object_count: 1,
            candidate_mod_count: 1,
            physical_entry_count: 1,
            filesystem_identity_match_count: 0,
            relative_path_match_count: 0,
            requires_confirmation: false,
        },
    }
}

fn request(game_id: &str, fingerprint: &str, confirm_empty: bool, typed: Option<&str>) -> ApplyGameModsDirectoryRequest {
    ApplyGameModsDirectoryRequest {
        game_id: game_id.to_string(),
        candidate_path: "E:/New".to_string(),
        expected_fingerprint: fingerprint.to_string(),
        confirm_empty,
        different_confirmation_game_name: typed.map(str::to_string),
    }
}

fn result(status: DiskReconcileStatus, error_message: Option<&str>) -> DiskReconcileResult {
    DiskReconcileResult {
        game_id: "gimi".into(),
        reconcile_revision: 3,
        reason: DiskReconcileReason::ManualRepair,
        status,
        scan_scope: DiskReconcileScanScope::Full,
        folder_conflicts: vec![],
        rename_confirmations: vec![],
        error_message: error_message.map(str::to_string),
        changed_roots: vec![],
        objects_changed: false,
        folders_changed: false,
        collections_changed: false,
        runtime_file_changed: false,
        thumbnail_roots: vec![],
        cleared_selection_paths: vec![],
        path_updates: vec![],
        change_summary: Default::default(),
        pending_runtime_effects: Default::default(),
        warnings: vec![],
    }
}

fn finish_error(action: ApplyAction) -> AppError {
    match action {
        ApplyAction::Finish(Err(error)) => error,
        other => panic!("expected a failed finish, got {other:?}"),
    }
}

#[test]
fn apply_refuses_a_changed_fingerprint_an_unknown_game_and_missing_confirmations() {
    let s = settings();
    let changed = begin_apply(&inspection(GameModsDirectoryClassification::Matching), &request("gimi", "zzz", false, None), &s, true, false);
    assert_eq!(
        changed.err(),
        Some(AppError::Validation(
            "The selected mods directory changed after it was inspected. Review it again before applying.".to_string()
        ))
    );
    let unknown = begin_apply(&inspection(GameModsDirectoryClassification::Matching), &request("srmi", "abc", false, None), &s, true, false);
    assert_eq!(unknown.err(), Some(AppError::Validation("Game 'srmi' was not found".to_string())));
    let empty = begin_apply(&inspection(GameModsDirectoryClassification::Empty), &request("gimi", "abc", false, None), &s, true, false);
    assert_eq!(
        empty.err(),
        Some(AppError::Validation("Confirm the empty directory before creating a new mods library".to_string()))
    );
    let different = begin_apply(
        &inspection(GameModsDirectoryClassification::Different),
        &request("gimi", "abc", false, Some("Genshin Impact")),
        &s,
        true,
        false,
    );
    assert_eq!(
        different.err(),
        Some(AppError::Validation("Type the game name 'Genshin' to confirm replacing this mods library".to_string()))
    );
}

#[test]
fn an_accepted_apply_plans_the_generated_data_move() {
    let s = settings();
    let start = begin_apply(
        &inspection(GameModsDirectoryClassification::Different),
        &request("gimi", "abc", false, Some("  Genshin ")),
        &s,
        true,
        false,
    )
    .unwrap();
    assert_eq!(start.game_index, 1);
    assert_eq!(start.data_move, Some(("E:/Old\\.emmm_data".to_string(), "E:/New\\.emmm_data".to_string())));

    let without_data = begin_apply(&inspection(GameModsDirectoryClassification::Empty), &request("gimi", "abc", true, None), &s, false, true)
        .unwrap();
    assert_eq!(without_data.data_move, None);

    let occupied = begin_apply(&inspection(GameModsDirectoryClassification::Matching), &request("gimi", "abc", false, None), &s, true, true);
    assert_eq!(
        occupied.err(),
        Some(AppError::Validation("Cannot move generated EMMM data because 'E:/New\\.emmm_data' already exists".to_string()))
    );
}

#[test]
fn a_successful_apply_moves_saves_and_reconciles() {
    let (stage, action) = apply_step(ApplyStage::MovingData, ApplyEvent::DataMoved(Ok(true)));
    assert!(matches!(action, ApplyAction::SaveSettings));
    let (stage, action) = apply_step(stage, ApplyEvent::Saved(Ok(())));
    assert!(matches!(action, ApplyAction::RunReconcile));
    let (stage, action) = apply_step(stage, ApplyEvent::Reconciled(Ok(result(DiskReconcileStatus::Applied, None))));
    assert!(matches!(stage, ApplyStage::Finished));
    match action {
        ApplyAction::Finish(Ok(done)) => assert_eq!(done.reconcile_revision, 3),
        other => panic!("expected success, got {other:?}"),
    }
}

#[test]
fn a_failed_data_move_ends_the_apply_with_nothing_changed() {
    let (stage, action) = apply_step(ApplyStage::MovingData, ApplyEvent::DataMoved(Err(AppError::Io("busy".into()))));
    assert!(matches!(stage, ApplyStage::Finished));
    assert_eq!(finish_error(action), AppError::Io("busy".into()));
}

#[test]
fn a_failed_save_moves_the_data_back_and_reports_the_save_error() {
    let (stage, action) = apply_step(ApplyStage::Saving { moved: true }, ApplyEvent::Saved(Err(AppError::Db("locked".into()))));
    assert!(matches!(action, ApplyAction::RestoreData { moved: true }));
    let (_, action) = apply_step(stage, ApplyEvent::DataRestored(Ok(())));
    assert_eq!(finish_error(action), AppError::Db("locked".into()));

    let (stage, _) = apply_step(ApplyStage::Saving { moved: true }, ApplyEvent::Saved(Err(AppError::Db("locked".into()))));
    let (_, action) = apply_step(stage, ApplyEvent::DataRestored(Err(AppError::Io("gone".into()))));
    assert_eq!(
        finish_error(action),
        AppError::Internal("Could not save the new mods directory (locked) and could not restore generated EMMM data: gone".into())
    );
}

#[test]
fn a_lost_source_rolls_back_the_directory_then_the_data() {
    let (stage, action) = apply_step(
        ApplyStage::Reconciling { moved: false },
        ApplyEvent::Reconciled(Ok(result(DiskReconcileStatus::SourceUnavailable, None))),
    );
    assert!(matches!(action, ApplyAction::RollBackDirectory));
    let (stage, action) = apply_step(stage, ApplyEvent::RolledBack(Ok(())));
    assert!(matches!(action, ApplyAction::RestoreData { moved: false }));
    let (_, action) = apply_step(stage, ApplyEvent::DataRestored(Ok(())));
    assert_eq!(
        finish_error(action),
        AppError::Io("The selected mods directory became unavailable during reconcile".into())
    );

    let (stage, _) = apply_step(
        ApplyStage::Reconciling { moved: true },
        ApplyEvent::Reconciled(Ok(result(DiskReconcileStatus::SourceUnavailable, Some("unplugged")))),
    );
    let (stage, _) = apply_step(stage, ApplyEvent::RolledBack(Ok(())));
    let (_, action) = apply_step(stage, ApplyEvent::DataRestored(Ok(())));
    assert_eq!(finish_error(action), AppError::Io("unplugged".into()));
}

#[test]
fn double_failures_name_both_errors() {
    let (stage, _) = apply_step(ApplyStage::Reconciling { moved: true }, ApplyEvent::Reconciled(Err(AppError::Internal("boom".into()))));
    let (_, action) = apply_step(stage, ApplyEvent::RolledBack(Err(AppError::Db("stuck".into()))));
    assert_eq!(
        finish_error(action),
        AppError::Internal(
            "Applying the mods directory failed (boom) and restoring the previous directory also failed: stuck".into()
        )
    );

    let (stage, _) = apply_step(ApplyStage::Reconciling { moved: true }, ApplyEvent::Reconciled(Err(AppError::Internal("boom".into()))));
    let (stage, _) = apply_step(stage, ApplyEvent::RolledBack(Ok(())));
    let (_, action) = apply_step(stage, ApplyEvent::DataRestored(Err(AppError::Io("gone".into()))));
    assert_eq!(
        finish_error(action),
        AppError::Internal(
            "Applying the mods directory failed (boom); the previous directory was restored, but generated EMMM data could not be restored: gone"
                .into()
        )
    );
}
