use emmm_reconcile::error::AppError;
use emmm_reconcile::reconcile::emit::{check_open_path, mutation_preflight_request, validate_trusted_toggle_batch_scope};
use emmm_reconcile::reconcile::types::{DiskReconcileReason, FolderNameConflictCandidate, FolderNameConflictGroup};
use emmm_reconcile::settings::{AppSettings, GameConfig, GameType};

fn game(id: &str, mod_path: &str) -> GameConfig {
    GameConfig {
        id: id.to_string(),
        name: id.to_string(),
        game_type: GameType::GIMI,
        instance_path: "E:/Game".to_string(),
        mod_path: mod_path.to_string(),
        ready_to_move_path: None,
        launch_mode: "xxmi".to_string(),
        game_exe: None,
        loader_exe: None,
        xxmi_launcher_exe: None,
        launch_args: None,
        warnings: vec![],
    }
}

fn settings() -> AppSettings {
    let mut settings = AppSettings::default();
    settings.games.push(game("game", "E:/Mods"));
    settings
}

fn strings(items: &[&str]) -> Vec<String> {
    items.iter().map(|item| item.to_string()).collect()
}

#[test]
fn toggle_batch_accepts_enable_and_disable_renames() {
    let paths = strings(&["E:/Mods/Alice/Blue", "E:/Mods/Alice/DISABLED Blue", "E:/Mods/Bob", "E:/Mods/DISABLED Bob"]);
    assert!(validate_trusted_toggle_batch_scope(&settings(), "game", &paths).is_ok());
}

#[test]
fn toggle_batch_refuses_incomplete_foreign_or_renaming_pairs() {
    let incomplete = validate_trusted_toggle_batch_scope(&settings(), "game", &strings(&["E:/Mods/Alice"]));
    assert_eq!(
        incomplete,
        Err(AppError::Validation("Trusted toggle reconcile requires complete rename pairs".to_string()))
    );
    assert!(matches!(
        validate_trusted_toggle_batch_scope(&settings(), "other", &strings(&["E:/Mods/A", "E:/Mods/B"])),
        Err(AppError::NotFound(_))
    ));
    assert_eq!(
        validate_trusted_toggle_batch_scope(&settings(), "game", &strings(&["E:/Mods/Alice/Blue", "E:/Mods/Bob/Blue"])),
        Err(AppError::Validation("Trusted toggle reconcile paths must share one parent inside the Mods root".to_string()))
    );
    assert_eq!(
        validate_trusted_toggle_batch_scope(&settings(), "game", &strings(&["E:/Other/Blue", "E:/Other/DISABLED Blue"])),
        Err(AppError::Validation("Trusted toggle reconcile paths must share one parent inside the Mods root".to_string()))
    );
    assert_eq!(
        validate_trusted_toggle_batch_scope(&settings(), "game", &strings(&["E:/Mods/Alice/Blue", "E:/Mods/Alice/Red"])),
        Err(AppError::Validation("Trusted toggle reconcile paths do not preserve normalized identity".to_string()))
    );
}

#[test]
fn opening_a_conflicting_folder_is_refused() {
    let conflicts = vec![FolderNameConflictGroup {
        group_id: "g".to_string(),
        identity: "alice".to_string(),
        display_name: "Alice".to_string(),
        candidates: vec![FolderNameConflictCandidate {
            path: "E:/Mods/Alice".to_string(),
            folder_name: "Alice".to_string(),
            base_name: "Alice".to_string(),
            is_enabled: true,
        }],
    }];
    assert!(matches!(check_open_path(&conflicts, "E:/Mods/Alice/Blue"), Err(AppError::Io(_))));
    assert!(check_open_path(&conflicts, "E:/Mods/Bob").is_ok());
}

#[test]
fn regional_preflight_needs_paths_and_defers_the_overlay() {
    assert!(matches!(mutation_preflight_request("game".to_string(), vec![], true), Err(AppError::Validation(_))));
    let request = mutation_preflight_request("game".to_string(), strings(&["E:/Mods/Alice"]), true).expect("paths given");
    assert_eq!(request.reason, DiskReconcileReason::InternalMutation);
    assert!(request.defer_overlay_sync && request.trusted_mutation_scope && !request.force_full);
    let untrusted = mutation_preflight_request("game".to_string(), strings(&["E:/Mods/Alice"]), false).expect("paths given");
    assert!(!untrusted.trusted_mutation_scope);
}

#[test]
fn settings_find_a_game_by_id_or_by_a_path_inside_its_mods_folder() {
    let mut settings = settings();
    settings.games.push(game("second", "F:/Other Mods"));
    assert_eq!(settings.mods_root_for("second").as_deref(), Some("F:/Other Mods"));
    assert_eq!(settings.mods_root_for("missing"), None);
    assert_eq!(settings.game_id_for_path("F:/Other Mods/Alice").as_deref(), Some("second"));
    assert_eq!(settings.game_id_for_path("E:/Mods").as_deref(), Some("game"));
    assert_eq!(settings.game_id_for_path("E:/Mods2/Alice"), None);
}
