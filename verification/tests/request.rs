use emmm_reconcile::reconcile::request::{estimate_eta_ms, DiskReconcileRequest, ModWatchEvent};

#[test]
fn eta_is_only_available_after_two_completed_roots() {
    assert_eq!(estimate_eta_ms(1_000, 1, Some(5)), None);
    assert_eq!(estimate_eta_ms(1_000, 2, Some(5)), Some(1_500));
    assert_eq!(estimate_eta_ms(1_000, 5, Some(5)), None);
}

#[test]
fn eta_needs_a_known_total_and_saturates() {
    assert_eq!(estimate_eta_ms(1_000, 2, None), None);
    assert_eq!(estimate_eta_ms(u128::MAX, 2, Some(5)), Some(u64::MAX));
    assert_eq!(estimate_eta_ms(900, 3, Some(4)), Some(300));
}

const MODS: &str = "/work/Mods";

fn modified(path: &str) -> ModWatchEvent {
    ModWatchEvent::Modified(path.to_string())
}

#[test]
fn watcher_batch_with_many_events_in_one_normalized_root_stays_scoped() {
    let paths = (0..128).map(|index| format!("{MODS}/Alice/Blue/variant-{index}.ini")).collect::<Vec<_>>();
    let events = paths.iter().map(|path| modified(path)).collect::<Vec<_>>();

    let request = DiskReconcileRequest::watcher_batch("game-1".to_string(), MODS, paths, events);

    assert!(!request.force_full);
    assert!(request.defer_overlay_sync);
}

#[test]
fn watcher_batch_forces_full_scan_for_wide_or_ambiguous_coverage() {
    let paths = (0..128).map(|index| format!("{MODS}/Root-{index}/mod.ini")).collect::<Vec<_>>();
    let events = paths.iter().map(|path| modified(path)).collect::<Vec<_>>();

    let wide_request = DiskReconcileRequest::watcher_batch("game-1".to_string(), MODS, paths, events);
    assert!(wide_request.force_full);

    let outside_path = "/work/Elsewhere/mod.ini";
    let ambiguous_request = DiskReconcileRequest::watcher_batch(
        "game-1".to_string(),
        MODS,
        vec![outside_path.to_string()],
        vec![modified(outside_path)],
    );
    assert!(ambiguous_request.force_full);
}

#[test]
fn watcher_batch_errors_always_force_full_scan() {
    let path = format!("{MODS}/Alice/Blue/mod.ini");

    let request = DiskReconcileRequest::watcher_batch(
        "game-1".to_string(),
        MODS,
        vec![path],
        vec![ModWatchEvent::Error("watcher overflow".to_string())],
    );

    assert!(request.force_full);
}

#[test]
fn watcher_batch_cross_root_rename_forces_full_scan() {
    let from = format!("{MODS}/Alice/Blue");
    let to = format!("{MODS}/Bob/Blue");

    let request = DiskReconcileRequest::watcher_batch(
        "game-1".to_string(),
        MODS,
        vec![from.clone(), to.clone()],
        vec![ModWatchEvent::Renamed { from, to }],
    );

    assert!(request.force_full);
}

#[test]
fn watcher_batch_partial_rename_resolution_forces_full_scan() {
    let path = format!("{MODS}/Alice/Blue");

    for event in [
        ModWatchEvent::RenameResolution {
            group_id: "rename-1".to_string(),
            from: None,
            to: Some(path.clone()),
            apply_as_rename: true,
        },
        ModWatchEvent::RenameResolution {
            group_id: "rename-2".to_string(),
            from: Some(path.clone()),
            to: None,
            apply_as_rename: true,
        },
    ] {
        let request = DiskReconcileRequest::watcher_batch("game-1".to_string(), MODS, vec![path.clone()], vec![event]);

        assert!(request.force_full);
    }
}
