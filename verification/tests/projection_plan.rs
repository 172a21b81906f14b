use emmm_reconcile::digest::generate_stable_id_from_key;
use emmm_reconcile::error::AppError;
use emmm_reconcile::reconcile::projection_plan::{
    plan_mod_identity_transitions, ModIdentityTransition, occupant_is_displaced, plan_existing_object_sync, plan_mod_write, ItemStatus, RuntimeModMetadata,
    StoredModRow, StoredObjectRow,
};
use emmm_reconcile::reconcile::snapshot::{DiskModEntry, DiskObjectEntry, ReconcileModRow};

fn object_row(name: &str, folder: &str, status: ItemStatus) -> StoredObjectRow {
    StoredObjectRow { id: "obj-1".to_string(), name: name.to_string(), folder_path: folder.to_string(), status }
}

fn disk_object(folder: &str, disabled: bool) -> DiskObjectEntry {
    DiskObjectEntry {
        folder_path: folder.to_string(),
        folder_path_key: folder.to_lowercase(),
        name: folder.to_string(),
        is_disabled: disabled,
        absolute_path: format!("E:/Mods/{}", folder),
        filesystem_identity: None,
    }
}

fn disk_mod(folder: &str, size: Option<i64>) -> DiskModEntry {
    DiskModEntry {
        folder_path: folder.to_string(),
        folder_path_key: folder.to_lowercase(),
        object_folder_path_key: "alice".to_string(),
        raw_name: "Blue".to_string(),
        absolute_path: format!("E:/Mods/{}", folder),
        filesystem_identity: None,
        size_bytes: size,
    }
}

fn stored_mod(id: &str, folder: &str) -> StoredModRow {
    StoredModRow {
        id: id.to_string(),
        folder_path: folder.to_string(),
        folder_path_key: folder.to_lowercase(),
        actual_name: "Blue".to_string(),
        status: ItemStatus::Enabled,
        is_safe: true,
        safety_source: None,
        object_id: Some("obj-1".to_string()),
        object_type: Some("Character".to_string()),
        size_bytes: 100,
    }
}

fn metadata() -> RuntimeModMetadata {
    RuntimeModMetadata {
        actual_name: "Blue".to_string(),
        status: ItemStatus::Enabled,
        is_safe: true,
        safety_source: "unknown".to_string(),
    }
}

#[test]
fn unchanged_object_needs_no_write() {
    let row = object_row("Alice", "Alice", ItemStatus::Enabled);
    let plan = plan_existing_object_sync(&row, &row, &disk_object("Alice", false), false, false);
    assert!(!plan.update_disk_identity);
    assert!(!plan.rename_collection_references);
    assert_eq!(plan.path_update, None);
}

#[test]
fn disabled_object_folder_rewrites_status_only() {
    let row = object_row("Alice", "Alice", ItemStatus::Enabled);
    let plan = plan_existing_object_sync(&row, &row, &disk_object("Alice", true), false, false);
    assert!(plan.update_disk_identity);
    assert_eq!(plan.path_update, None);
}

#[test]
fn moved_object_carries_collections_along() {
    let row = object_row("Alice", "Alice", ItemStatus::Enabled);
    let plan = plan_existing_object_sync(&row, &row, &disk_object("Alicia", false), false, false);
    assert!(plan.update_disk_identity);
    assert!(plan.rename_collection_references);
    assert_eq!(plan.path_update, Some(("Alice".to_string(), "Alicia".to_string())));
}

#[test]
fn staged_or_runtime_prefixed_move_leaves_collections() {
    let row = object_row("Alice", "Alice", ItemStatus::Enabled);
    let staged = plan_existing_object_sync(&row, &row, &disk_object("Alicia", false), true, false);
    assert!(staged.update_disk_identity && !staged.rename_collection_references);
    let prefixed = plan_existing_object_sync(&row, &row, &disk_object("Alicia", false), false, true);
    assert!(!prefixed.rename_collection_references);
    assert_eq!(prefixed.path_update, Some(("Alice".to_string(), "Alicia".to_string())));
}

#[test]
fn leaked_stage_name_is_rewritten() {
    let row = object_row(".emmm-reconcile-object-stage-obj-1", "Alice", ItemStatus::Enabled);
    let plan = plan_existing_object_sync(&row, &row, &disk_object("Alice", false), false, false);
    assert!(plan.update_disk_identity);
    assert_eq!(plan.path_update, None);
}

#[test]
fn new_mod_is_inserted_under_its_stable_id() {
    let entry = disk_mod("Alice/Blue", Some(42));
    let plan = plan_mod_write("game", &entry, &None, &None, false, &metadata(), "obj-1", "Character", false, "unknown")
        .unwrap();
    let expected = blake3::hash(b"game\0alice/blue").to_hex().to_string();
    assert_eq!(plan.new_id, expected);
    assert_eq!(plan.new_id, generate_stable_id_from_key("game", "alice/blue"));
    assert!(plan.insert);
    assert_eq!(plan.seen_keys, vec!["alice/blue".to_string()]);
}

#[test]
fn new_mod_without_size_is_refused() {
    let entry = disk_mod("Alice/Blue", None);
    let result = plan_mod_write("game", &entry, &None, &None, false, &metadata(), "obj-1", "Character", false, "unknown");
    assert_eq!(
        result,
        Err(AppError::Internal("Storage size missing for newly discovered mod 'Alice/Blue'".to_string()))
    );
}

#[test]
fn known_mod_in_place_keeps_its_row() {
    let id = generate_stable_id_from_key("game", "alice/blue");
    let stored = Some(stored_mod(&id, "Alice/Blue"));
    let entry = disk_mod("Alice/Blue", Some(100));
    let plan = plan_mod_write("game", &entry, &stored, &None, false, &metadata(), "obj-1", "Character", false, "unknown")
        .unwrap();
    assert!(!plan.insert);
    assert!(!plan.update_identity);
    assert_eq!(plan.detach_previous_id, None);
    assert_eq!(plan.path_update, None);
    assert!(!plan.update_object);
    assert_eq!(plan.update_size, None);
    assert!(!plan.move_collection_references);
}

#[test]
fn moved_mod_gets_a_new_id_and_its_references_follow() {
    let stored = Some(stored_mod("old-id", "Alice/Blue"));
    let entry = disk_mod("Alice/Navy", Some(120));
    let plan = plan_mod_write("game", &entry, &stored, &None, false, &metadata(), "obj-2", "Character", false, "unknown")
        .unwrap();
    assert_eq!(plan.new_id, generate_stable_id_from_key("game", "alice/navy"));
    assert!(plan.update_identity);
    assert_eq!(plan.detach_previous_id, Some("old-id".to_string()));
    assert_eq!(plan.path_update, Some(("Alice/Blue".to_string(), "Alice/Navy".to_string())));
    assert!(plan.update_object);
    assert_eq!(plan.update_size, Some(120));
    assert!(plan.move_collection_references);
    assert_eq!(
        plan.seen_keys,
        vec!["alice/blue".to_string(), "alice/blue".to_string(), "alice/navy".to_string()]
    );
}

#[test]
fn safety_source_change_rewrites_identity() {
    let id = generate_stable_id_from_key("game", "alice/blue");
    let stored = Some(stored_mod(&id, "Alice/Blue"));
    let mut meta = metadata();
    meta.safety_source = "manual".to_string();
    let plan = plan_mod_write("game", &disk_mod("Alice/Blue", None), &stored, &None, false, &meta, "obj-1", "Character", false, "unknown")
        .unwrap();
    assert!(plan.update_identity);
    assert_eq!(plan.update_size, None);
}

#[test]
fn occupant_still_on_disk_is_not_displaced() {
    let disk = vec!["id-a".to_string(), "id-b".to_string()];
    assert!(!occupant_is_displaced(&"row-1".to_string(), &"row-2".to_string(), &Some("id-a".to_string()), &disk));
    assert!(occupant_is_displaced(&"row-1".to_string(), &"row-2".to_string(), &Some("id-z".to_string()), &disk));
    assert!(occupant_is_displaced(&"row-1".to_string(), &"row-2".to_string(), &None, &disk));
    assert!(!occupant_is_displaced(&"row-1".to_string(), &"row-1".to_string(), &None, &disk));
}

fn row(id: &str, folder: &str, identity: Option<&str>) -> ReconcileModRow {
    ReconcileModRow {
        id: id.to_string(),
        folder_path: folder.to_string(),
        folder_path_key: folder.to_lowercase(),
        actual_name: folder.to_string(),
        filesystem_identity: identity.map(str::to_string),
    }
}

fn identified(folder: &str, identity: &str) -> DiskModEntry {
    let mut entry = disk_mod(folder, Some(1));
    entry.filesystem_identity = Some(identity.to_string());
    entry
}

#[test]
fn moved_mod_follows_its_identity_and_displaces_a_stale_occupant() {
    let existing = vec![row("old", "Alice/Blue", Some("m1")), row("stale", "Alice/Navy", Some("m9"))];
    let disk = vec![identified("Alice/Navy", "m1")];
    let plan = plan_mod_identity_transitions("game", &disk, &existing);
    assert_eq!(
        plan,
        vec![ModIdentityTransition {
            source_id: "old".to_string(),
            final_id: generate_stable_id_from_key("game", "alice/navy"),
            displaced_id: Some("stale".to_string()),
        }]
    );
}

#[test]
fn occupant_still_on_disk_and_settled_mods_cause_no_displacement() {
    let settled_id = generate_stable_id_from_key("game", "alice/red");
    let existing = vec![
        row("old", "Alice/Blue", Some("m1")),
        row("other", "Alice/Navy", Some("m2")),
        row(&settled_id, "Alice/Red", Some("m3")),
    ];
    let disk = vec![identified("Alice/Navy", "m1"), identified("Alice/Green", "m2"), identified("Alice/Red", "m3")];
    let plan = plan_mod_identity_transitions("game", &disk, &existing);
    assert_eq!(plan.len(), 2);
    assert_eq!(plan[0].source_id, "old");
    assert_eq!(plan[0].displaced_id, None);
    assert_eq!(plan[1].source_id, "other");
    assert_eq!(plan[1].final_id, generate_stable_id_from_key("game", "alice/green"));
}
