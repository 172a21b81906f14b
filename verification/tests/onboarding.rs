use emmm_reconcile::error::AppError;
use emmm_reconcile::reconcile::onboarding::{
    paths_contain_unmapped_path, paths_include_direct_root_path, snapshot_follow_up, validate_game_ids,
    OnboardingIndexingSessionStore, OnboardingSnapshotProgressReporter, SessionClaim, SnapshotFollowUp,
};
use emmm_reconcile::reconcile::snapshot::{DiskIdentityCensusEntry, OnboardingDiscoveryPhase, OnboardingDiscoveryProgress};
use emmm_reconcile::reconcile::types::{
    OnboardingIndexingBackgroundGameStatus, OnboardingIndexingBackgroundPhase, OnboardingIndexingBackgroundStatus,
    OnboardingIndexingSnapshotPhase, OnboardingIndexingSnapshotProgress,
};

#[test]
fn pending_game_ids_must_be_unique_and_non_empty() {
    assert!(validate_game_ids(&["first".to_string(), "second".to_string()]).is_ok());
    assert!(validate_game_ids(&["first".to_string(), "first".to_string()]).is_err());
    assert!(validate_game_ids(&[String::new()]).is_err());
}

#[test]
fn pending_game_id_error_is_a_validation_error() {
    assert!(validate_game_ids(&[]).is_ok());
    assert_eq!(
        validate_game_ids(&["a".to_string(), "b".to_string(), "a".to_string()]),
        Err(AppError::Validation("Pending onboarding game IDs must be unique and non-empty".to_string()))
    );
}

#[test]
fn unmapped_raw_watcher_paths_force_the_safe_fallback() {
    assert!(paths_contain_unmapped_path(&vec!["E:/other/Mod.buf".to_string()], "E:/mods"));
}

#[test]
fn deep_asset_paths_are_accepted_for_scoped_rescan() {
    assert!(!paths_contain_unmapped_path(&vec!["E:/mods/Alice/Blue/mesh.buf".to_string()], "E:/mods"));
}

#[test]
fn sibling_folder_with_the_same_prefix_is_unmapped() {
    assert!(paths_contain_unmapped_path(&vec!["E:/mods2/Alice".to_string()], "E:/mods"));
}

fn discovery(phase: OnboardingDiscoveryPhase, completed_roots: usize, current_root: Option<String>) -> OnboardingDiscoveryProgress {
    OnboardingDiscoveryProgress {
        phase,
        completed_roots,
        total_roots: 2,
        folders_classified: 0,
        current_root,
        is_terminal: false,
    }
}

#[test]
fn preparation_progress_reports_phase_transitions_and_throttles_heartbeats() {
    let mut prepared_games: u64 = 0;
    let mut reporter = OnboardingSnapshotProgressReporter::new("session".to_string(), "game".to_string(), 1);
    let mut reports = Vec::new();

    reports.extend(reporter.report_discovery(&mut prepared_games, discovery(OnboardingDiscoveryPhase::Metadata, 0, None), 0));
    reports.extend(reporter.report_discovery(
        &mut prepared_games,
        discovery(OnboardingDiscoveryPhase::Metadata, 1, Some("Alice".to_string())),
        1,
    ));
    reports.extend(reporter.report_discovery(&mut prepared_games, discovery(OnboardingDiscoveryPhase::Classifying, 0, None), 2));
    reports.extend(reporter.emit(&mut prepared_games, OnboardingIndexingSnapshotPhase::Ready, 2, 2, 4, None, true, 3));

    assert_eq!(reports.len(), 3);
    assert_eq!(
        reports.iter().map(|report| report.phase).collect::<Vec<_>>(),
        vec![
            OnboardingIndexingSnapshotPhase::Metadata,
            OnboardingIndexingSnapshotPhase::Classifying,
            OnboardingIndexingSnapshotPhase::Ready,
        ]
    );
    assert_eq!(reports[1].completed_roots, 0);
    assert_eq!(reports[2].completed_games, 1);
}

#[test]
fn heartbeat_is_reported_again_after_the_interval() {
    let mut prepared_games: u64 = 0;
    let mut reporter = OnboardingSnapshotProgressReporter::new("session".to_string(), "game".to_string(), 1);
    assert!(reporter.report_discovery(&mut prepared_games, discovery(OnboardingDiscoveryPhase::Metadata, 0, None), 100).is_some());
    assert!(reporter.report_discovery(&mut prepared_games, discovery(OnboardingDiscoveryPhase::Metadata, 1, None), 349).is_none());
    let late = reporter
        .report_discovery(&mut prepared_games, discovery(OnboardingDiscoveryPhase::Metadata, 1, None), 350)
        .expect("a heartbeat after 250 ms is reported");
    assert_eq!(late.completed_roots, 1);
    assert_eq!(late.elapsed_ms, 350);
    assert_eq!(prepared_games, 0);
}

fn queued_store() -> OnboardingIndexingSessionStore {
    let mut store = OnboardingIndexingSessionStore::new();
    store.background_statuses.push(OnboardingIndexingBackgroundStatus {
        session_id: "session".to_string(),
        completed_games: 0,
        total_games: 2,
        games: vec![
            OnboardingIndexingBackgroundGameStatus {
                game_id: "first".to_string(),
                phase: OnboardingIndexingBackgroundPhase::Queued,
            },
            OnboardingIndexingBackgroundGameStatus {
                game_id: "second".to_string(),
                phase: OnboardingIndexingBackgroundPhase::Queued,
            },
        ],
    });
    store
}

#[test]
fn background_status_only_counts_games_after_their_projection_is_applied() {
    let mut store = queued_store();

    let prepared = store
        .record_snapshot_progress(&OnboardingIndexingSnapshotProgress {
            session_id: "session".to_string(),
            game_id: "first".to_string(),
            phase: OnboardingIndexingSnapshotPhase::Ready,
            completed_games: 1,
            total_games: 2,
            completed_roots: 1,
            total_roots: 1,
            folders_classified: 1,
            current_root: None,
            elapsed_ms: 1,
        })
        .expect("prepared progress should update the background status");
    assert_eq!(prepared.completed_games, 0);
    assert_eq!(prepared.games[0].phase, OnboardingIndexingBackgroundPhase::Prepared);

    let applying = store
        .set_background_phase("session", "first", OnboardingIndexingBackgroundPhase::Applying)
        .expect("applying phase should update the background status");
    assert_eq!(applying.completed_games, 0);

    let ready = store
        .set_background_phase("session", "first", OnboardingIndexingBackgroundPhase::Ready)
        .expect("ready phase should update the background status");
    assert_eq!(ready.completed_games, 1);
    assert_eq!(ready.games[1].phase, OnboardingIndexingBackgroundPhase::Queued);
}

#[test]
fn unknown_session_is_not_found() {
    let mut store = queued_store();
    match store.set_background_phase("other", "first", OnboardingIndexingBackgroundPhase::Ready) {
        Err(AppError::NotFound(_)) => {}
        other => panic!("unexpected {:?}", other),
    }
    assert_eq!(store.background_statuses[0].completed_games, 0);
}

#[test]
fn a_session_opens_with_every_game_queued() {
    let mut store = OnboardingIndexingSessionStore::new();
    let ids = vec!["first".to_string(), "second".to_string()];
    let session_id = store.begin_with_progress(&ids, 1_000).expect("two distinct games");
    assert_eq!(session_id.len(), 36);
    assert_eq!(session_id.chars().filter(|c| *c == '-').count(), 4);
    assert_eq!(session_id.chars().nth(8), Some('-'));
    assert_eq!(store.sessions.len(), 1);
    assert_eq!(store.sessions[0].session_id, session_id);
    assert_eq!(store.sessions[0].pending_game_ids, ids);
    assert_eq!(store.background_statuses[0].total_games, 2);
    assert!(store.background_statuses[0]
        .games
        .iter()
        .all(|game| game.phase == OnboardingIndexingBackgroundPhase::Queued));
    assert!(store.begin_with_progress(&vec![], 0).is_err());
    assert!(store.begin_with_progress(&vec!["a".to_string(), "a".to_string()], 0).is_err());
}

#[test]
fn each_prepared_game_is_claimed_once_and_the_session_ends_with_its_last_game() {
    let mut store = OnboardingIndexingSessionStore::new();
    let session_id = store
        .begin_with_progress(&vec!["first".to_string(), "second".to_string()], 1_000)
        .expect("session");
    assert_eq!(store.consume(&session_id, "first", 2_000), Ok(SessionClaim::Claimed));
    assert_eq!(
        store.consume(&session_id, "first", 2_000),
        Err(AppError::NotFound(
            "Game 'first' is not available in this onboarding indexing session".to_string()
        ))
    );
    assert_eq!(store.consume(&session_id, "second", 2_000), Ok(SessionClaim::Claimed));
    assert!(store.sessions.is_empty());
    assert!(matches!(store.consume(&session_id, "second", 2_000), Err(AppError::NotFound(_))));
}

#[test]
fn an_expired_session_falls_back_to_a_full_pass() {
    let mut store = OnboardingIndexingSessionStore::new();
    let session_id = store.begin_with_progress(&vec!["first".to_string()], 0).expect("session");
    assert_eq!(store.consume(&session_id, "first", 900_000), Ok(SessionClaim::Expired));
    assert!(store.sessions.is_empty());
    assert!(store.background_statuses.is_empty());
}

fn census_entry(path: &str) -> DiskIdentityCensusEntry {
    DiskIdentityCensusEntry {
        folder_path: path.to_string(),
        folder_path_key: path.to_lowercase(),
        raw_name: path.to_string(),
        absolute_path: format!("E:/mods/{path}"),
    }
}

#[test]
fn loose_files_at_the_top_of_the_mods_folder_force_a_full_pass() {
    let census = vec![census_entry("Alice")];
    let loose = vec!["E:/mods/d3dx.ini".to_string()];
    assert!(paths_include_direct_root_path(&loose, &vec![false], "E:/mods", &census));
    assert!(!paths_include_direct_root_path(&loose, &vec![true], "E:/mods", &census));
    let known = vec!["E:/mods/alice".to_string()];
    assert!(!paths_include_direct_root_path(&known, &vec![false], "E:/mods", &census));
    assert_eq!(
        snapshot_follow_up(&Some(loose), &vec![false], "E:/mods", &census),
        SnapshotFollowUp::FullFallback
    );
    assert_eq!(snapshot_follow_up(&None, &vec![], "E:/mods", &census), SnapshotFollowUp::FullFallback);
    assert_eq!(snapshot_follow_up(&Some(vec![]), &vec![], "E:/mods", &census), SnapshotFollowUp::UseSnapshot);
    assert_eq!(
        snapshot_follow_up(&Some(vec!["E:/mods/Alice/Blue/mesh.buf".to_string()]), &vec![false], "E:/mods", &census),
        SnapshotFollowUp::RefreshRoots
    );
}

#[test]
fn background_phase_for_a_game_moves_it_in_the_first_session_that_holds_it() {
    let mut store = OnboardingIndexingSessionStore::new();
    store.begin_with_progress(&vec!["first".to_string(), "second".to_string()], 0).expect("session");
    store.begin_with_progress(&vec!["second".to_string()], 0).expect("session");
    let status = store
        .set_background_phase_for_game("second", OnboardingIndexingBackgroundPhase::Applying)
        .expect("a status holds the game");
    assert_eq!(status.session_id, store.background_statuses[0].session_id);
    assert_eq!(status.games[1].phase, OnboardingIndexingBackgroundPhase::Applying);
    assert_eq!(status.games[0].phase, OnboardingIndexingBackgroundPhase::Queued);
    assert_eq!(store.background_statuses[0].games[1].phase, OnboardingIndexingBackgroundPhase::Applying);
    assert_eq!(store.background_statuses[1].games[0].phase, OnboardingIndexingBackgroundPhase::Queued);
    assert!(store.set_background_phase_for_game("unknown", OnboardingIndexingBackgroundPhase::Failed).is_none());
}

#[test]
fn cancel_forgets_only_that_session() {
    let mut store = OnboardingIndexingSessionStore::new();
    let first = store.begin_with_progress(&vec!["a".to_string()], 0).expect("session");
    let second = store.begin_with_progress(&vec!["b".to_string()], 0).expect("session");
    assert_eq!(store.cancel(&first), Ok(()));
    assert_eq!(store.sessions.len(), 1);
    assert_eq!(store.sessions[0].session_id, second);
    assert_eq!(store.background_statuses.len(), 1);
    assert_eq!(store.background_statuses[0].session_id, second);
}

#[test]
fn expired_sessions_are_purged_before_a_new_one_opens() {
    let mut store = OnboardingIndexingSessionStore::new();
    let old = store.begin_with_progress(&vec!["a".to_string()], 0).expect("session");
    let kept = store.begin_with_progress(&vec!["b".to_string()], 100_000).expect("session");
    let newest = store.begin_with_progress(&vec!["c".to_string()], 900_000).expect("session");
    let ids: Vec<&str> = store.sessions.iter().map(|s| s.session_id.as_str()).collect();
    assert_eq!(ids, vec![kept.as_str(), newest.as_str()]);
    assert!(store.background_statuses.iter().all(|s| s.session_id != old));
    assert_eq!(store.purge_expired(1_000_000), vec![kept.clone()]);
    assert_eq!(store.sessions.len(), 1);
    assert_eq!(store.background_statuses.len(), 1);
    assert_eq!(store.background_statuses[0].session_id, newest);
}
