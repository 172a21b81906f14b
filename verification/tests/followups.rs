use emmm_reconcile::error::AppError;
use emmm_reconcile::reconcile::commands::{
    activation_recovery_result, hydration_recovery_result, reconcile_after_save, recovery_result_needs_attention,
    settings_recovery_target,
};
use emmm_reconcile::reconcile::onboarding::compose_refreshed_roots;
use emmm_reconcile::reconcile::pass::{collect_runtime_file_changed, record_runtime_modifications};
use emmm_reconcile::reconcile::request::{watcher_outcome_for_current_session, WatcherReconcileOutcome};
use emmm_reconcile::reconcile::snapshot::{
    DiskDiscoveryScanCounts, DiskDiscoveryTimings, DiskIdentityCensus, DiskModEntry, DiskObjectEntry, DiskProjection,
    DiskScopedDiscovery,
};
use emmm_reconcile::reconcile::source_recovery::{
    generated_data_path, move_generated_emmm_data_directory, replace_mods_path, restore_generated_emmm_data_directory,
    rollback_game_mods_directory,
};
use emmm_reconcile::reconcile::state::{ActivationAuthority, DiskReconcileState, InitialRecoveryOutcome};
use emmm_reconcile::reconcile::types::{
    DiskReconcileReason, DiskReconcileResult, DiskReconcileScanScope, DiskReconcileStatus,
};
use emmm_reconcile::settings::{ensure_configured_mod_viewer_executable, AppSettings, GameConfig, GameType};

fn result(status: DiskReconcileStatus) -> DiskReconcileResult {
    DiskReconcileResult {
        game_id: "game".into(),
        reconcile_revision: 3,
        reason: DiskReconcileReason::GameSwitched,
        status,
        scan_scope: DiskReconcileScanScope::Full,
        folder_conflicts: vec![],
        rename_confirmations: vec![],
        error_message: None,
        changed_roots: vec![],
        objects_changed: false,
        folders_changed: false,
        collections_changed: false,
        runtime_file_changed: false,
        thumbnail_roots: vec![],
        cleared_selection_paths: vec![],
        path_updates: vec![],
        change_summary: Default::default(),
        pending_runtime_effects: Default::default(),
        warnings: vec![],
    }
}

#[test]
fn recovery_failures_name_where_they_happened() {
    assert_eq!(
        activation_recovery_result("game", InitialRecoveryOutcome::Failed("disk gone".to_string())).unwrap_err(),
        AppError::Io("Disk recovery failed while activating game 'game': disk gone".to_string())
    );
    assert_eq!(
        hydration_recovery_result(InitialRecoveryOutcome::Failed("disk gone".to_string())).unwrap_err(),
        AppError::Io("Disk recovery failed before settings hydration: disk gone".to_string())
    );
    let ok = hydration_recovery_result(InitialRecoveryOutcome::Completed(Box::new(result(DiskReconcileStatus::Applied))))
        .expect("completed");
    assert_eq!(ok.reconcile_revision, 3);
    assert!(!recovery_result_needs_attention(&DiskReconcileStatus::Applied));
    assert!(recovery_result_needs_attention(&DiskReconcileStatus::AppliedWithFolderConflicts));
}

fn game(id: &str, mod_path: &str) -> GameConfig {
    GameConfig {
        id: id.to_string(),
        name: id.to_string(),
        game_type: GameType::ZZMI,
        instance_path: String::new(),
        mod_path: mod_path.to_string(),
        ready_to_move_path: None,
        launch_mode: "xxmi".to_string(),
        game_exe: None,
        loader_exe: None,
        xxmi_launcher_exe: None,
        launch_args: None,
        warnings: vec![],
    }
}

#[test]
fn saving_changed_keywords_reconciles_the_active_game() {
    let mut previous = AppSettings::default();
    previous.active_game_id = Some("game".to_string());
    let mut saved = AppSettings::default();
    saved.active_game_id = Some("game".to_string());
    saved.safety.keywords = previous.safety.keywords.clone();
    assert_eq!(reconcile_after_save(&previous, &saved), None);
    saved.safety.keywords.push("extra".to_string());
    assert_eq!(reconcile_after_save(&previous, &saved).as_deref(), Some("game"));
    saved.active_game_id = None;
    assert_eq!(reconcile_after_save(&previous, &saved), None);
}

#[test]
fn hydration_waits_only_for_an_active_game_with_a_mods_folder() {
    let mut settings = AppSettings::default();
    assert_eq!(settings_recovery_target(&settings), None);
    settings.games.push(game("game", "E:/Mods"));
    settings.games.push(game("empty", ""));
    settings.active_game_id = Some("game".to_string());
    assert_eq!(settings_recovery_target(&settings).as_deref(), Some("game"));
    settings.active_game_id = Some("empty".to_string());
    assert_eq!(settings_recovery_target(&settings), None);
}

#[test]
fn generated_data_follows_the_library_unless_the_target_has_its_own() {
    assert_eq!(generated_data_path("E:/Mods"), "E:/Mods\\.emmm_data");
    assert_eq!(move_generated_emmm_data_directory("E:/Old", "E:/New", false, false), Ok(None));
    assert_eq!(
        move_generated_emmm_data_directory("E:/Old", "E:/New", true, false),
        Ok(Some(("E:/Old\\.emmm_data".to_string(), "E:/New\\.emmm_data".to_string())))
    );
    assert_eq!(
        move_generated_emmm_data_directory("E:/Old", "E:/New", true, true),
        Err(AppError::Validation("Cannot move generated EMMM data because 'E:/New\\.emmm_data' already exists".to_string()))
    );
    assert_eq!(restore_generated_emmm_data_directory(false, "E:/New", "E:/Old", false, false), Ok(None));
    assert!(matches!(restore_generated_emmm_data_directory(true, "E:/New", "E:/Old", false, false), Err(AppError::Io(_))));
    assert_eq!(
        restore_generated_emmm_data_directory(true, "E:/New", "E:/Old", true, false),
        Ok(Some(("E:/New\\.emmm_data".to_string(), "E:/Old\\.emmm_data".to_string())))
    );
}

#[test]
fn runtime_file_changes_name_their_mod_folder_once() {
    let changed = vec![
        "E:/Mods/Alice/DISABLED Blue/mod.ini".to_string(),
        "E:/Mods/Alice/DISABLED Blue/other.ini".to_string(),
        "E:/Mods/d3dx.ini".to_string(),
        "E:/Mods/Alice/Red/mesh.buf".to_string(),
        "E:/Mods/Bob/Green/mod.ini".to_string(),
    ];
    let relevant = vec![true, true, true, false, true];
    assert!(collect_runtime_file_changed(&relevant));
    assert!(!collect_runtime_file_changed(&vec![false, false]));
    assert_eq!(
        record_runtime_modifications("E:/Mods", &changed, &relevant),
        vec!["Blue".to_string(), "Green".to_string()]
    );
}

#[test]
fn watcher_results_count_only_for_the_current_session() {
    assert!(matches!(
        watcher_outcome_for_current_session(true, result(DiskReconcileStatus::Applied)),
        WatcherReconcileOutcome::Applied(_)
    ));
    assert!(matches!(
        watcher_outcome_for_current_session(false, result(DiskReconcileStatus::Applied)),
        WatcherReconcileOutcome::Superseded
    ));
}

#[test]
fn stale_activation_authority_commits_nothing() {
    let mut state = DiskReconcileState::new();
    state.begin_activation(Some("game".to_string()));
    let authority = ActivationAuthority::current_for(&state, "game").expect("game is active");
    assert_eq!(authority.with_current(&state, || 7), Some(7));
    state.begin_activation(Some("other".to_string()));
    assert_eq!(authority.with_current(&state, || 7), None);
    assert!(ActivationAuthority::current_for(&state, "game").is_none());
}

#[test]
fn configured_mod_viewer_must_still_be_an_executable() {
    assert!(ensure_configured_mod_viewer_executable("C:/Tools/Viewer.EXE", true, true).is_ok());
    match ensure_configured_mod_viewer_executable("C:/Tools/Viewer.txt", true, true) {
        Err(AppError::Validation(message)) => {
            assert!(message.starts_with("Configured 3DMigoto Mod Viewer executable is no longer valid ("));
            assert!(message.ends_with("). Select it again in Settings > Integrations."));
        }
        other => panic!("unexpected {:?}", other),
    }
}

fn object(folder: &str) -> DiskObjectEntry {
    DiskObjectEntry {
        folder_path: folder.to_string(),
        folder_path_key: folder.to_lowercase(),
        name: folder.to_string(),
        is_disabled: false,
        absolute_path: format!("E:/Mods/{folder}"),
        filesystem_identity: None,
    }
}

fn mod_entry(folder: &str, object_key: &str) -> DiskModEntry {
    DiskModEntry {
        folder_path: folder.to_string(),
        folder_path_key: folder.to_lowercase(),
        object_folder_path_key: object_key.to_string(),
        raw_name: folder.to_string(),
        absolute_path: format!("E:/Mods/{folder}"),
        filesystem_identity: None,
        size_bytes: None,
    }
}

fn discovery(objects: Vec<DiskObjectEntry>, mods: Vec<DiskModEntry>, scoped: bool) -> DiskScopedDiscovery {
    DiskScopedDiscovery {
        census: DiskIdentityCensus { entries: vec![], top_level_roots: objects.len() },
        projection: DiskProjection { objects, mods },
        scoped,
        scan_counts: DiskDiscoveryScanCounts { census_directories: 0, classified_roots: 0, classified_directories: 0 },
        timings: DiskDiscoveryTimings { census_ms: 0, classification_ms: 0 },
    }
}

#[test]
fn refreshed_roots_replace_their_part_of_the_prepared_discovery() {
    let prepared = discovery(
        vec![object("Alice"), object("Bob")],
        vec![mod_entry("Alice/Old", "alice"), mod_entry("Bob/Red", "bob")],
        false,
    );
    let refreshed = discovery(vec![object("Alice")], vec![mod_entry("Alice/New", "alice")], true);
    let composed = compose_refreshed_roots(prepared, refreshed, &vec!["Alice".to_string()]);
    assert!(!composed.scoped);
    assert_eq!(
        composed.projection.objects.iter().map(|o| o.folder_path.as_str()).collect::<Vec<_>>(),
        vec!["Bob", "Alice"]
    );
    assert_eq!(
        composed.projection.mods.iter().map(|m| m.folder_path.as_str()).collect::<Vec<_>>(),
        vec!["Bob/Red", "Alice/New"]
    );
    assert_eq!(composed.census.top_level_roots, 1);
}

#[test]
fn rollback_after_apply_restores_the_previous_directory() {
    let mut settings = AppSettings::default();
    settings.games.push(game("a", "E:/ModsA"));
    settings.games.push(game("b", "E:/Old"));
    let before = settings.clone();
    let previous = replace_mods_path(&mut settings, "b", "E:/New".to_string()).expect("known game");
    assert_eq!(previous, "E:/Old");
    assert_eq!(settings.games[1].mod_path, "E:/New");
    assert_eq!(settings.games[0], before.games[0]);
    assert_eq!(rollback_game_mods_directory(&mut settings, "b", "E:/New/", previous), Ok(()));
    assert_eq!(settings, before);
}

#[test]
fn rollback_is_refused_once_the_directory_moved_again() {
    let mut settings = AppSettings::default();
    settings.games.push(game("b", "E:/Other"));
    let before = settings.clone();
    assert_eq!(
        rollback_game_mods_directory(&mut settings, "b", "E:/New", "E:/Old".to_string()),
        Err(AppError::Validation("The mods directory for game 'b' changed again before rollback".to_string()))
    );
    assert_eq!(settings, before);
    assert_eq!(
        replace_mods_path(&mut settings, "zz", "E:/New".to_string()),
        Err(AppError::Validation("Game 'zz' was not found".to_string()))
    );
}
