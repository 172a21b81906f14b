use emmm_reconcile::error::AppError;
use emmm_reconcile::settings::{
    ai_transport_error, prepare_ai_connection_test, prepare_settings_save, AppSettings, GameConfig, GameType,
    ParsedAiUrl,
};

fn game(id: &str, mod_path: &str) -> GameConfig {
    GameConfig {
        id: id.to_string(),
        name: id.to_string(),
        game_type: GameType::GIMI,
        instance_path: "E:/Game".to_string(),
        mod_path: mod_path.to_string(),
        ready_to_move_path: None,
        launch_mode: "xxmi".to_string(),
        game_exe: None,
        loader_exe: None,
        xxmi_launcher_exe: None,
        launch_args: None,
        warnings: vec![],
    }
}

fn current() -> AppSettings {
    let mut settings = AppSettings::default();
    settings.games.push(game("gimi", "E:/Mods"));
    settings
}

#[test]
fn a_save_with_repeated_game_ids_is_a_validation_error() {
    let mut requested = current();
    requested.games.push(game("gimi", "E:/Other"));
    assert_eq!(
        prepare_settings_save(&current(), requested).err(),
        Some(AppError::Validation("Settings contain duplicate game id 'gimi'".to_string()))
    );
}

#[test]
fn a_save_that_moves_a_mods_directory_is_a_validation_error() {
    let mut requested = current();
    requested.games[0].mod_path = "E:/Elsewhere".to_string();
    assert_eq!(
        prepare_settings_save(&current(), requested).err(),
        Some(AppError::Validation("Use source recovery to change an existing game's mods directory".to_string()))
    );
}

fn url(scheme: &str, host: &str, path: &str) -> ParsedAiUrl {
    ParsedAiUrl {
        scheme: scheme.to_string(),
        has_username: false,
        has_password: false,
        host: host.to_string(),
        host_is_loopback_ip: false,
        path: path.to_string(),
    }
}

#[test]
fn an_ai_connection_test_checks_the_url_then_the_key() {
    assert_eq!(
        prepare_ai_connection_test(None, Some("k".to_string())).err(),
        Some(AppError::Validation("AI base URL is invalid".to_string()))
    );
    assert_eq!(
        prepare_ai_connection_test(Some(url("http", "api.example.com", "/v1")), Some("k".to_string())).err(),
        Some(AppError::Validation("AI base URL must use HTTPS unless it targets localhost".to_string()))
    );
    assert_eq!(
        prepare_ai_connection_test(Some(url("https", "api.example.com", "/v1")), None).err(),
        Some(AppError::Validation("Configure an AI API key before testing the connection".to_string()))
    );
    let request = prepare_ai_connection_test(Some(url("https", "api.example.com", "/v1/chat/completions/")), Some("sk-1".to_string()))
        .unwrap();
    assert_eq!(request.models_path, "/v1/models");
    assert_eq!(request.authorization, "Bearer sk-1");
    let local = prepare_ai_connection_test(Some(url("http", "LocalHost", "/")), Some("k".to_string())).unwrap();
    assert_eq!(local.models_path, "/models");
    assert_eq!(ai_transport_error(true), AppError::Io("AI connection test timed out".to_string()));
    assert_eq!(ai_transport_error(false), AppError::Io("Could not reach the AI service".to_string()));
}
