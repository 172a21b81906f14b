use emmm_reconcile::error::AppError;
use emmm_reconcile::reconcile::emit::settle_committed_reconcile;
use emmm_reconcile::reconcile::types::CommittedMutationSyncWarningKind;
use emmm_reconcile::settings::{completed_settings_save, ensure_mod_viewer_supports, AppSettings, GameType};

#[test]
fn persisted_settings_remain_success_when_follow_up_reconcile_fails() {
    let mut settings = AppSettings::default();
    settings.safety.keywords = vec!["unsafe".to_string()];
    let settlement = settle_committed_reconcile(Err(AppError::Io("disk unavailable".to_string())));

    let result = completed_settings_save(settings, settlement.sync_warning);

    assert_eq!(result.settings.safety.keywords, ["unsafe"]);
    assert_eq!(
        result.sync_warning.expect("typed warning").kind,
        CommittedMutationSyncWarningKind::ReconcileFailed
    );
}

#[test]
fn only_supported_mod_viewer_games_can_launch() {
    for game_type in [GameType::GIMI, GameType::ZZMI, GameType::WWMI, GameType::SRMI] {
        assert!(ensure_mod_viewer_supports(game_type).is_ok());
    }
    assert!(ensure_mod_viewer_supports(GameType::EFMI).is_err());
}
