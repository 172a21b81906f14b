use emmm_reconcile::error::AppError;
use emmm_reconcile::reconcile::work_plan::{plan_onboarding_indexing_work, GameRootMeasurements};
use emmm_reconcile::settings::{ensure_settings_authoritative, should_pass_disabled_ini};

const FILE_METADATA_WORK_BYTES: u64 = 65536;

#[test]
fn work_plan_combines_file_count_and_file_sizes() {
    let game = GameRootMeasurements { game_id: "game-1".to_string(), roots: vec![("UI".to_string(), vec![3, 100])] };

    let plan = plan_onboarding_indexing_work(&vec![game]).unwrap();

    assert_eq!(plan[0].file_count, 2);
    assert_eq!(plan[0].total_bytes, 103);
    assert_eq!(plan[0].roots[0].root_name, "UI");
    assert_eq!(plan[0].roots[0].work_units, 2 * FILE_METADATA_WORK_BYTES + 103);
}

#[test]
fn disabled_ini_flag_uses_only_direct_disabled_ini_files() {
    // The direct entries of the mod folder: (is a file, name).
    let direct = vec![(true, "DISABLED_mod.ini".to_string())];
    assert!(should_pass_disabled_ini(&direct));

    // A nested folder with an active ini is a directory entry here.
    let with_nested = vec![(true, "DISABLED_mod.ini".to_string()), (false, "nested".to_string())];
    assert!(
        should_pass_disabled_ini(&with_nested),
        "nested files must not affect the direct-file launch argument"
    );
}

#[test]
fn active_ini_wins_over_disabled_ini_and_folder_name() {
    let entries = vec![(true, "DISABLED_mod.ini".to_string()), (true, "active.INI".to_string())];

    assert!(
        !should_pass_disabled_ini(&entries),
        "a folder name starting with DISABLED must not force --disabled-ini"
    );
}

#[test]
fn settings_are_written_only_after_an_authoritative_load() {
    assert_eq!(ensure_settings_authoritative(true), Ok(()));
    assert_eq!(
        ensure_settings_authoritative(false),
        Err(AppError::Db(
            "Settings were not loaded authoritatively; restart or repair the database before saving".to_string()
        ))
    );
}
