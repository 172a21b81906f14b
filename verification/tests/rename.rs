use emmm_reconcile::error::AppError;
use emmm_reconcile::path_rules::folder_path_key;
use emmm_reconcile::reconcile::rename::{
    detect_kind, detect_rename_confirmations_with_protection_from_rows, validate_explicit_resolutions, RuntimeEntry,
};
use emmm_reconcile::reconcile::rename_evidence::{
    detect_rename_confirmations, path_is_covered, without_watcher_rename_evidence,
};
use emmm_reconcile::reconcile::request::ModWatchEvent;
use emmm_reconcile::reconcile::snapshot::{
    DiskModEntry, DiskObjectEntry, DiskProjection, ReconcileModRow, ReconcileObjectRow,
};
use emmm_reconcile::reconcile::types::{RenameConfirmationGroup, RenameConfirmationKind, RenameConfirmationReason};

fn object(path: &str, identity: Option<&str>) -> ReconcileObjectRow {
    ReconcileObjectRow {
        id: format!("object-{path}"),
        name: path.to_string(),
        folder_path: path.to_string(),
        folder_path_key: folder_path_key(path),
        filesystem_identity: identity.map(str::to_string),
    }
}

fn disk_object(path: &str, identity: Option<&str>) -> DiskObjectEntry {
    DiskObjectEntry {
        folder_path: path.to_string(),
        folder_path_key: folder_path_key(path),
        name: path.to_string(),
        is_disabled: false,
        absolute_path: format!("E:/Mods/{path}"),
        filesystem_identity: identity.map(str::to_string),
    }
}

fn disk_mod(path: &str, identity: Option<&str>) -> DiskModEntry {
    let object_key = folder_path_key(path.split('/').next().unwrap());
    DiskModEntry {
        folder_path: path.to_string(),
        folder_path_key: folder_path_key(path),
        object_folder_path_key: object_key,
        raw_name: path.rsplit('/').next().unwrap().to_string(),
        absolute_path: format!("E:/Mods/{path}"),
        filesystem_identity: identity.map(str::to_string),
        size_bytes: None,
    }
}

fn db_mod(path: &str, identity: Option<&str>) -> ReconcileModRow {
    ReconcileModRow {
        id: format!("mod-{path}"),
        folder_path: path.to_string(),
        folder_path_key: folder_path_key(path),
        actual_name: path.rsplit('/').next().unwrap().to_string(),
        filesystem_identity: identity.map(str::to_string),
    }
}

fn detect_rename_confirmations_from_rows(
    game_id: &str,
    projection: &DiskProjection,
    objects: &[ReconcileObjectRow],
    mods: &[ReconcileModRow],
) -> Vec<RenameConfirmationGroup> {
    let objects: Vec<ReconcileObjectRow> = objects.iter().map(|row| row.duplicate()).collect();
    let mods: Vec<ReconcileModRow> = mods.iter().map(|row| row.duplicate()).collect();
    detect_rename_confirmations_with_protection_from_rows(game_id, projection, &objects, &mods).groups
}

#[test]
fn unique_filesystem_identity_is_evidence_not_a_confirmation() {
    let projection = DiskProjection {
        objects: vec![disk_object("Alicia", Some("object-fs"))],
        mods: vec![disk_mod("Alicia/New", Some("mod-fs"))],
    };
    let groups = detect_rename_confirmations_from_rows(
        "game",
        &projection,
        &[object("Alice", Some("object-fs"))],
        &[db_mod("Alice/Old", Some("mod-fs"))],
    );
    assert!(groups.is_empty());
}

#[test]
fn missing_identity_one_to_one_is_reported_without_guessing() {
    let projection = DiskProjection {
        objects: vec![disk_object("Alice", Some("object-fs"))],
        mods: vec![disk_mod("Alice/New", None)],
    };
    let groups = detect_rename_confirmations_from_rows(
        "game",
        &projection,
        &[object("Alice", Some("object-fs"))],
        &[db_mod("Alice/Old", None)],
    );

    assert_eq!(groups.len(), 1);
    assert_eq!(groups[0].kind, RenameConfirmationKind::Mod);
    assert_eq!(groups[0].reason, RenameConfirmationReason::MissingIdentity);
    assert_eq!(groups[0].previous_paths, ["Alice/Old"]);
    assert_eq!(groups[0].current_paths, ["Alice/New"]);
}

#[test]
fn ambiguous_filesystem_identity_exposes_all_previous_candidates() {
    let projection = DiskProjection {
        objects: vec![disk_object("Alice", Some("object-fs"))],
        mods: vec![disk_mod("Alice/New", Some("duplicate-fs"))],
    };
    let groups = detect_rename_confirmations_from_rows(
        "game",
        &projection,
        &[object("Alice", Some("object-fs"))],
        &[db_mod("Alice/Old One", Some("duplicate-fs")), db_mod("Alice/Old Two", Some("duplicate-fs"))],
    );

    assert_eq!(groups.len(), 1);
    assert_eq!(groups[0].reason, RenameConfirmationReason::AmbiguousIdentity);
    assert_eq!(groups[0].previous_paths.len(), 2);
    assert_eq!(groups[0].current_paths, ["Alice/New"]);
}

#[test]
fn unrelated_add_or_delete_does_not_require_confirmation() {
    let added = DiskProjection {
        objects: vec![disk_object("Alice", Some("object-fs"))],
        mods: vec![disk_mod("Alice/New", None)],
    };
    assert!(detect_rename_confirmations_from_rows("game", &added, &[object("Alice", Some("object-fs"))], &[]).is_empty());

    let deleted = DiskProjection { objects: vec![disk_object("Alice", Some("object-fs"))], mods: vec![] };
    assert!(detect_rename_confirmations_from_rows(
        "game",
        &deleted,
        &[object("Alice", Some("object-fs"))],
        &[db_mod("Alice/Old", None)],
    )
    .is_empty());
}

#[test]
fn multiple_missing_identity_candidates_create_one_decision_per_current_path() {
    let projection = DiskProjection {
        objects: vec![disk_object("Alice", Some("object-fs"))],
        mods: vec![disk_mod("Alice/New One", None), disk_mod("Alice/New Two", None)],
    };
    let groups = detect_rename_confirmations_from_rows(
        "game",
        &projection,
        &[object("Alice", Some("object-fs"))],
        &[db_mod("Alice/Old One", None), db_mod("Alice/Old Two", None)],
    );

    assert_eq!(groups.len(), 2);
    assert!(groups.iter().all(|group| group.previous_paths.len() == 2));
    assert!(groups.iter().all(|group| group.current_paths.len() == 1));
}

#[test]
fn missing_identity_candidates_are_partitioned_by_nearest_object_scope() {
    let projection = DiskProjection {
        objects: vec![
            disk_object("Alice", Some("object-alice")),
            disk_object("Bob", Some("object-bob")),
            disk_object("Charlie", Some("object-charlie")),
        ],
        mods: vec![disk_mod("Alice/New", None), disk_mod("Charlie/Fresh", None)],
    };
    let groups = detect_rename_confirmations_from_rows(
        "game",
        &projection,
        &[object("Alice", Some("object-alice")), object("Bob", Some("object-bob"))],
        &[db_mod("Alice/Old", None), db_mod("Bob/Removed", None)],
    );

    assert_eq!(groups.len(), 1, "add/delete-only scopes are not renames");
    assert_eq!(groups[0].previous_paths, ["Alice/Old"]);
    assert_eq!(groups[0].current_paths, ["Alice/New"]);
    assert_eq!(groups[0].scope_key, "alice");
    assert!(!groups[0].candidates_truncated);
}

fn oversized() -> Vec<RenameConfirmationGroup> {
    let previous: Vec<ReconcileModRow> = (0..100).map(|index| db_mod(&format!("Alice/Old {index:03}"), None)).collect();
    let projection = DiskProjection {
        objects: vec![disk_object("Alice", Some("object-alice"))],
        mods: (0..100).map(|index| disk_mod(&format!("Alice/New {index:03}"), None)).collect(),
    };
    detect_rename_confirmations_from_rows("game", &projection, &[object("Alice", Some("object-alice"))], &previous)
}

#[test]
fn oversized_missing_identity_scope_has_one_bounded_explicit_payload() {
    let groups = oversized();
    assert_eq!(groups.len(), 1, "oversized ambiguity must not expand N*M");
    assert!(groups[0].previous_paths.len() <= 16);
    assert!(groups[0].current_paths.len() <= 16);
    assert_eq!(groups[0].scope_key, "alice");
    assert_eq!(groups[0].previous_path_count, 100);
    assert_eq!(groups[0].current_path_count, 100);
    assert!(groups[0].candidates_truncated);
}

#[test]
fn truncated_candidate_payload_cannot_be_applied_as_a_guessed_rename() {
    let groups = oversized();
    let resolution = ModWatchEvent::RenameResolution {
        group_id: groups[0].group_id.clone(),
        from: Some("Alice/Old 000".to_string()),
        to: Some("Alice/New 000".to_string()),
        apply_as_rename: true,
    };
    let error = validate_explicit_resolutions(&groups, "E:/Mods", &vec![resolution])
        .expect_err("a truncated candidate set cannot safely choose a rename");
    assert!(error.message().contains("safe review limit"), "{:?}", error);
}

#[test]
fn watcher_rename_evidence_removes_both_sides_from_the_review() {
    let projection = DiskProjection {
        objects: vec![disk_object("Alice", Some("object-fs"))],
        mods: vec![disk_mod("Alice/New", None), disk_mod("Alice/Other", None)],
    };
    let objects = vec![object("Alice", Some("object-fs"))];
    let mods = vec![db_mod("Alice/Old", None), db_mod("Alice/Kept", None)];
    let mod_renames = vec![("alice/old".to_string(), "ALICE/NEW".to_string())];
    let input = without_watcher_rename_evidence(&projection, &objects, &mods, &vec![], &mod_renames);
    assert_eq!(input.projection.objects.len(), 1);
    assert_eq!(input.projection.mods.len(), 1);
    assert_eq!(input.projection.mods[0].folder_path, "Alice/Other");
    assert_eq!(input.objects.len(), 1);
    assert_eq!(input.mods.len(), 1);
    assert_eq!(input.mods[0].folder_path, "Alice/Kept");

    let object_renames = vec![("Alice".to_string(), "Alicia".to_string())];
    let moved = without_watcher_rename_evidence(&projection, &objects, &mods, &object_renames, &vec![]);
    assert_eq!(moved.projection.mods.len(), 2);
    assert!(moved.objects.is_empty());
    assert!(moved.mods.is_empty());
}

#[test]
fn coverage_ignores_case_and_needs_whole_components() {
    assert!(path_is_covered("Alice/Blue", "alice"));
    assert!(path_is_covered("ALICE", "alice"));
    assert!(!path_is_covered("Alice Two/Blue", "Alice"));
    assert!(!path_is_covered("Alice", "Alice/Blue"));
}

#[test]
fn explained_rename_needs_no_review_and_resolved_reviews_clear_protection() {
    let projection = DiskProjection {
        objects: vec![disk_object("Alice", Some("object-fs"))],
        mods: vec![disk_mod("Alice/New", None)],
    };
    let objects = vec![object("Alice", Some("object-fs"))];
    let mods = vec![db_mod("Alice/Old", None)];
    let explained = detect_rename_confirmations(
        "game",
        "E:/Mods",
        &projection,
        &objects,
        &mods,
        &vec![],
        &vec![],
        &vec![("Alice/Old".to_string(), "Alice/New".to_string())],
    )
    .expect("no resolutions to validate");
    assert!(explained.groups.is_empty());

    let open = detect_rename_confirmations("game", "E:/Mods", &projection, &objects, &mods, &vec![], &vec![], &vec![])
        .expect("no resolutions to validate");
    assert_eq!(open.groups.len(), 1);
    let decision = ModWatchEvent::RenameResolution {
        group_id: open.groups[0].group_id.clone(),
        from: Some("E:/Mods/Alice/Old".to_string()),
        to: Some("E:/Mods/Alice/New".to_string()),
        apply_as_rename: true,
    };
    let resolved = detect_rename_confirmations(
        "game",
        "E:/Mods",
        &projection,
        &objects,
        &mods,
        &vec![decision],
        &vec![],
        &vec![],
    )
    .expect("a complete decision set is accepted");
    assert!(resolved.groups.is_empty());
    assert!(resolved.protected_mod_keys.is_empty());

    let stale = ModWatchEvent::RenameResolution {
        group_id: "other".to_string(),
        from: None,
        to: None,
        apply_as_rename: false,
    };
    match detect_rename_confirmations("game", "E:/Mods", &projection, &objects, &mods, &vec![stale], &vec![], &vec![]) {
        Err(AppError::Validation(message)) => assert!(message.contains("stale")),
        other => panic!("unexpected {:?}", other.map(|d| d.groups.len())),
    }
}

fn entry(path: &str, identity: Option<&str>) -> RuntimeEntry {
    RuntimeEntry {
        path: path.to_string(),
        logical_key: folder_path_key(path),
        protected_key: folder_path_key(path),
        scope_key: folder_path_key(path.split('/').next().unwrap()),
        filesystem_identity: identity.map(str::to_string),
    }
}

#[test]
fn identified_distinct_folders_need_no_review() {
    let previous = vec![entry("Alice/Old", Some("a")), entry("Bob/Red", Some("b"))];
    let current = vec![entry("Alice/New", Some("a")), entry("Carol/Green", Some("c"))];
    let detection = detect_kind("game", RenameConfirmationKind::Mod, &previous, &current);
    assert!(detection.groups.is_empty());
    assert!(detection.protected_keys.is_empty());
}

#[test]
fn review_groups_list_only_given_folders() {
    let previous = vec![entry("Alice/Old", None)];
    let current = vec![entry("Alice/New", None)];
    let detection = detect_kind("game", RenameConfirmationKind::Mod, &previous, &current);
    assert_eq!(detection.groups.len(), 1);
    assert_eq!(detection.groups[0].kind, RenameConfirmationKind::Mod);
    assert_eq!(detection.groups[0].previous_paths, vec!["Alice/Old".to_string()]);
    assert_eq!(detection.groups[0].current_paths, vec!["Alice/New".to_string()]);
}

fn scoped_entry(path: &str, scope: &str, identity: Option<&str>) -> RuntimeEntry {
    RuntimeEntry {
        path: path.to_string(),
        logical_key: path.to_lowercase(),
        protected_key: path.to_lowercase(),
        scope_key: scope.to_string(),
        filesystem_identity: identity.map(str::to_string),
    }
}

#[test]
fn every_review_group_offers_both_sides_and_one_choice_unless_cut_short() {
    let previous: Vec<RuntimeEntry> = (0..20).map(|i| scoped_entry(&format!("Old {i:02}"), "top", Some("shared"))).collect();
    let current = vec![scoped_entry("New A", "top", Some("shared")), scoped_entry("New B", "top", Some("shared"))];
    let wide = detect_kind("game", RenameConfirmationKind::Object, &previous, &current);
    assert_eq!(wide.groups.len(), 1);
    assert!(wide.groups[0].candidates_truncated);
    assert_eq!(wide.groups[0].previous_path_count, 20);
    assert_eq!(wide.groups[0].previous_paths.len(), 16);
    assert_eq!(wide.groups[0].current_path_count, 2);

    let few_previous = vec![scoped_entry("Old A", "top", Some("shared")), scoped_entry("Old B", "top", Some("shared"))];
    let narrow = detect_kind("game", RenameConfirmationKind::Object, &few_previous, &current);
    assert_eq!(narrow.groups.len(), 2);
    for group in &narrow.groups {
        assert!(!group.candidates_truncated);
        assert!(group.previous_path_count >= 1);
        assert_eq!(group.current_path_count, 1);
        assert_eq!(group.current_paths.len(), 1);
    }
}
