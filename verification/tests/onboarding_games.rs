use emmm_reconcile::error::AppError;
use emmm_reconcile::reconcile::onboarding::{begin_onboarding_indexing, resolve_requested_games, OnboardingIndexingSessionStore};
use emmm_reconcile::settings::{GameConfig, GameType};

fn game(id: &str) -> GameConfig {
    GameConfig {
        id: id.to_string(),
        name: id.to_string(),
        game_type: GameType::GIMI,
        instance_path: "E:/Game".to_string(),
        mod_path: format!("E:/Mods/{id}"),
        ready_to_move_path: None,
        launch_mode: "xxmi".to_string(),
        game_exe: None,
        loader_exe: None,
        xxmi_launcher_exe: None,
        launch_args: None,
        warnings: vec![],
    }
}

fn ids(items: &[&str]) -> Vec<String> {
    items.iter().map(|item| item.to_string()).collect()
}

#[test]
fn requested_games_resolve_in_request_order() {
    let games = vec![game("gimi"), game("srmi"), game("zzmi")];
    assert_eq!(resolve_requested_games(&games, &ids(&["zzmi", "gimi"])), Ok(vec![2, 0]));
    assert_eq!(resolve_requested_games(&games, &ids(&[])), Ok(vec![]));
}

#[test]
fn the_first_unknown_game_is_not_found() {
    let games = vec![game("gimi"), game("srmi")];
    assert_eq!(
        resolve_requested_games(&games, &ids(&["gimi", "wuwa", "hsr"])),
        Err(AppError::NotFound("Game 'wuwa' not found".to_string()))
    );
}

#[test]
fn onboarding_for_an_unknown_game_opens_no_session() {
    let games = vec![game("gimi")];
    let mut store = OnboardingIndexingSessionStore::new();
    let result = begin_onboarding_indexing(&mut store, &games, &ids(&["gimi", "wuwa"]), 1_000);
    assert_eq!(result, Err(AppError::NotFound("Game 'wuwa' not found".to_string())));
    assert!(store.sessions.is_empty());
    assert!(store.background_statuses.is_empty());
}

#[test]
fn onboarding_for_known_games_opens_a_queued_session() {
    let games = vec![game("gimi"), game("srmi")];
    let mut store = OnboardingIndexingSessionStore::new();
    let session = begin_onboarding_indexing(&mut store, &games, &ids(&["srmi", "gimi"]), 1_000).unwrap();
    assert_eq!(session.len(), 36);
    assert_eq!(store.sessions.len(), 1);
    assert_eq!(store.sessions[0].pending_game_ids, ids(&["srmi", "gimi"]));
    assert_eq!(store.background_statuses[0].total_games, 2);
    assert_eq!(
        begin_onboarding_indexing(&mut store, &games, &ids(&[]), 2_000),
        Err(AppError::Validation("At least one game is required for onboarding indexing".to_string()))
    );
}
