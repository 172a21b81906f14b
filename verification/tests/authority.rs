use emmm_reconcile::reconcile::authority::{path_lies_inside, affected_top_root, AuthorityCatchUp, WatcherAuthority};
use emmm_reconcile::reconcile::types::{
    DiskReconcileReason, DiskReconcileResult, DiskReconcileScanScope, DiskReconcileStatus,
};

fn identity() -> Option<String> {
    Some("volume-1:42".to_string())
}

fn result(scan_scope: DiskReconcileScanScope, revision: u64) -> DiskReconcileResult {
    DiskReconcileResult {
        game_id: "game".into(),
        reconcile_revision: revision,
        reason: DiskReconcileReason::WatcherBatch,
        status: DiskReconcileStatus::Applied,
        scan_scope,
        folder_conflicts: vec![],
        rename_confirmations: vec![],
        error_message: None,
        changed_roots: vec![],
        objects_changed: false,
        folders_changed: false,
        collections_changed: false,
        runtime_file_changed: false,
        thumbnail_roots: vec![],
        cleared_selection_paths: vec![],
        path_updates: vec![],
        change_summary: Default::default(),
        pending_runtime_effects: Default::default(),
        warnings: vec![],
    }
}

fn trusted_authority() -> WatcherAuthority {
    let mut authority = WatcherAuthority::new();
    authority.begin_authority_session("game", "E:/Mods", identity(), 1);
    assert!(matches!(
        authority.authority_catch_up("game", "E:/Mods", &identity(), 1),
        AuthorityCatchUp::Full { observed_generation: 0 }
    ));
    assert!(authority.mark_authority_reconciled(
        "game",
        "E:/Mods",
        &identity(),
        1,
        0,
        &result(DiskReconcileScanScope::Full, 7),
        &vec![],
    ));
    authority
}

#[test]
fn full_reconcile_makes_a_new_session_clean() {
    let authority = trusted_authority();
    assert_eq!(
        authority.authority_catch_up("game", "E:/Mods", &identity(), 1),
        AuthorityCatchUp::Clean { reconcile_revision: 7, observed_generation: 0 }
    );
    assert!(authority.trusted_regional_mutation_allowed("game", "e:\\mods", &identity()));
    assert!(authority.trusted_internal_mutation_evidence("game", "E:/Mods", &identity(), 1).is_some());
    assert!(authority.trusted_internal_mutation_evidence("game", "E:/Mods", &None, 1).is_none());
}

#[test]
fn observed_roots_are_scanned_sorted_and_cleared_by_a_scoped_reconcile() {
    let mut authority = trusted_authority();
    authority.observe_authority_event(
        "game",
        1,
        "E:/Mods",
        identity(),
        &vec!["E:/Mods/Bob/mod.ini".to_string(), "E:/Mods/Alice/Blue/mesh.buf".to_string(), "E:/Mods/.cache/x".to_string()],
        false,
    );
    let expected = vec!["E:/Mods\\Alice".to_string(), "E:/Mods\\Bob".to_string()];
    assert_eq!(
        authority.authority_catch_up("game", "E:/Mods", &identity(), 1),
        AuthorityCatchUp::Scoped { changed_paths: expected, observed_generation: 1 }
    );
    assert!(!authority.trusted_regional_mutation_allowed("game", "E:/Mods", &identity()));
    assert!(authority.mark_authority_reconciled(
        "game",
        "E:/Mods",
        &identity(),
        1,
        1,
        &result(DiskReconcileScanScope::Scoped, 8),
        &vec!["E:/Mods/Alice".to_string()],
    ));
    assert_eq!(
        authority.authority_catch_up("game", "E:/Mods", &identity(), 1),
        AuthorityCatchUp::Scoped { changed_paths: vec!["E:/Mods\\Bob".to_string()], observed_generation: 1 }
    );
}

#[test]
fn reconcile_observed_before_a_later_event_is_not_accepted() {
    let mut authority = trusted_authority();
    let observed = authority.authority_event_generation("game", 1).expect("session is current");
    authority.observe_authority_event("game", 1, "E:/Mods", identity(), &vec!["E:/Mods/Alice".to_string()], false);
    assert!(!authority.mark_authority_reconciled(
        "game",
        "E:/Mods",
        &identity(),
        1,
        observed,
        &result(DiskReconcileScanScope::Full, 9),
        &vec![],
    ));
    assert_eq!(authority.authority_event_generation("game", 2), None);
}

#[test]
fn events_at_or_outside_the_root_force_a_full_pass() {
    for path in ["E:/Mods", "E:/Importer/d3dx.ini"] {
        let mut authority = trusted_authority();
        authority.observe_authority_event("game", 1, "E:/Mods", identity(), &vec![path.to_string()], false);
        assert!(matches!(
            authority.authority_catch_up("game", "E:/Mods", &identity(), 1),
            AuthorityCatchUp::Full { .. }
        ));
    }
    let mut lost = trusted_authority();
    lost.observe_authority_event("game", 1, "E:/Mods", identity(), &vec![], true);
    assert!(matches!(lost.authority_catch_up("game", "E:/Mods", &identity(), 1), AuthorityCatchUp::Full { .. }));
}

#[test]
fn too_many_changed_roots_force_a_full_pass() {
    let mut authority = trusted_authority();
    let paths: Vec<String> = (0..513).map(|index| format!("E:/Mods/Root-{index}/mod.ini")).collect();
    authority.observe_authority_event("game", 1, "E:/Mods", identity(), &paths, false);
    assert!(matches!(
        authority.authority_catch_up("game", "E:/Mods", &identity(), 1),
        AuthorityCatchUp::Full { observed_generation: 1 }
    ));
}

#[test]
fn handoff_keeps_authority_only_for_the_covered_session() {
    let mut authority = trusted_authority();
    assert!(!authority.handoff_authority_session("game", "E:/Mods", &identity(), 2, 3));
    assert!(authority.handoff_authority_session("game", "E:/Mods", &identity(), 1, 2));
    assert!(matches!(authority.authority_catch_up("game", "E:/Mods", &identity(), 2), AuthorityCatchUp::Clean { .. }));
    assert!(matches!(authority.authority_catch_up("game", "E:/Mods", &identity(), 1), AuthorityCatchUp::Full { .. }));
}

#[test]
fn invalidation_and_a_new_identity_require_a_full_pass() {
    let mut authority = trusted_authority();
    authority.invalidate_authority("game", "E:/Mods", identity());
    assert!(matches!(
        authority.authority_catch_up("game", "E:/Mods", &identity(), 1),
        AuthorityCatchUp::Full { observed_generation: 1 }
    ));
    let trusted = trusted_authority();
    assert!(matches!(
        trusted.authority_catch_up("game", "E:/Mods", &Some("volume-2:7".to_string()), 1),
        AuthorityCatchUp::Full { .. }
    ));
}

#[test]
fn evidence_taken_before_a_trusted_mutation_settles_its_reconcile() {
    let mut authority = trusted_authority();
    let evidence = authority
        .trusted_internal_mutation_evidence("game", "E:/Mods", &identity(), 1)
        .expect("clean authority");
    assert!(!authority.mark_trusted_internal_mutation_reconciled(
        &evidence,
        &Some("other".to_string()),
        &result(DiskReconcileScanScope::Scoped, 11),
        &vec![],
    ));
    assert!(authority.mark_trusted_internal_mutation_reconciled(
        &evidence,
        &identity(),
        &result(DiskReconcileScanScope::Scoped, 11),
        &vec![],
    ));
    assert_eq!(
        authority.authority_catch_up("game", "E:/Mods", &identity(), 1),
        AuthorityCatchUp::Clean { reconcile_revision: 11, observed_generation: 0 }
    );
}

#[test]
fn top_root_is_the_first_visible_component_under_the_mods_folder() {
    assert_eq!(affected_top_root("E:/Mods", "E:/Mods/Alice/Blue/mesh.buf").as_deref(), Some("E:/Mods\\Alice"));
    assert_eq!(affected_top_root("E:/Mods", "E:/Mods/.git/index"), None);
    assert_eq!(affected_top_root("E:/Mods", "E:/Mods"), None);
    assert_eq!(affected_top_root("E:/Mods", "E:/Other/Alice"), None);
    assert!(path_lies_inside("E:/Mods", "E:/Mods/.git"));
    assert!(!path_lies_inside("E:/Mods", "E:/Mods/"));
}
