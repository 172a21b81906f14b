use emmm_reconcile::reconcile::projection_plan::{
    find_existing_mod, plan_mod_moves, plan_object_identity_transitions, staged_original, ObjectIdentityTransition,
};
use emmm_reconcile::reconcile::snapshot::{DiskModEntry, DiskObjectEntry, ReconcileModRow, ReconcileObjectRow};

fn row(id: &str, path: &str, key: &str, identity: Option<&str>) -> ReconcileModRow {
    ReconcileModRow {
        id: id.to_string(),
        folder_path: path.to_string(),
        folder_path_key: key.to_string(),
        actual_name: path.to_string(),
        filesystem_identity: identity.map(str::to_string),
    }
}

fn folder(path: &str, key: &str, identity: Option<&str>) -> DiskModEntry {
    DiskModEntry {
        folder_path: path.to_string(),
        folder_path_key: key.to_string(),
        object_folder_path_key: "alice".to_string(),
        raw_name: path.to_string(),
        absolute_path: format!("E:/Mods/{path}"),
        filesystem_identity: identity.map(str::to_string),
        size_bytes: None,
    }
}

fn object_row(id: &str, path: &str, key: &str, identity: Option<&str>) -> ReconcileObjectRow {
    ReconcileObjectRow {
        id: id.to_string(),
        name: path.to_string(),
        folder_path: path.to_string(),
        folder_path_key: key.to_string(),
        filesystem_identity: identity.map(str::to_string),
    }
}

fn object_folder(path: &str, key: &str, identity: Option<&str>) -> DiskObjectEntry {
    DiskObjectEntry {
        folder_path: path.to_string(),
        folder_path_key: key.to_string(),
        name: path.to_string(),
        is_disabled: false,
        absolute_path: format!("E:/Mods/{path}"),
        filesystem_identity: identity.map(str::to_string),
    }
}

fn keys(items: &[&str]) -> Vec<String> {
    items.iter().map(|item| item.to_string()).collect()
}

#[test]
fn existing_mod_is_found_by_identity_then_key_then_path_then_runtime_key() {
    let rows = vec![
        row("by-runtime", "Alice/Old Runtime", "k-runtime", None),
        row("by-path", "Alice/BLUE", "k-path", None),
        row("by-key", "Alice/Elsewhere", "alice/blue", None),
        row("by-identity", "Alice/Moved", "k-identity", Some("fs-1")),
    ];
    let runtime = keys(&["rt-blue", "rt-path", "rt-key", "rt-identity"]);
    assert_eq!(find_existing_mod(&rows, &runtime, &folder("Alice/Blue", "alice/blue", Some("fs-1")), "rt-blue"), Some(3));
    assert_eq!(find_existing_mod(&rows, &runtime, &folder("Alice/Blue", "alice/blue", Some("fs-9")), "rt-blue"), Some(2));
    assert_eq!(find_existing_mod(&rows, &runtime, &folder("Alice/Blue", "other", None), "rt-blue"), Some(1));
    assert_eq!(find_existing_mod(&rows, &runtime, &folder("Alice/Green", "other", None), "rt-blue"), Some(0));
    assert_eq!(find_existing_mod(&rows, &runtime, &folder("Alice/Green", "other", None), "rt-none"), None);
}

#[test]
fn staged_mods_are_read_as_they_were_before_staging() {
    let originals = vec![row("a", "Alice/A", "alice/a", None), row("b", "Alice/B", "alice/b", None)];
    assert_eq!(staged_original(&originals, "b"), Some(1));
    assert_eq!(staged_original(&originals, "c"), None);
}

#[test]
fn object_transitions_stage_moved_objects_and_displace_stale_occupants() {
    let rows = vec![
        object_row("alice", "Alice", "alice", Some("fs-a")),
        object_row("stale", "Alicia", "alicia", Some("fs-gone")),
        object_row("bob", "Bob", "bob", Some("fs-b")),
    ];
    let disk = vec![
        object_folder("Alicia", "alicia", Some("fs-a")),
        object_folder("Bob", "bob", Some("fs-b")),
        object_folder("Carol", "carol", None),
    ];
    let plan = plan_object_identity_transitions(&disk, &rows);
    assert_eq!(
        plan.transitions,
        vec![ObjectIdentityTransition { source_id: "alice".to_string(), displaced_id: Some("stale".to_string()) }]
    );
    assert_eq!(plan.staged_ids, keys(&["alice"]));
    assert_eq!(plan.moves, vec![("Alice".to_string(), "Alicia".to_string())]);
}

#[test]
fn an_occupant_whose_identity_is_still_on_disk_is_not_displaced() {
    let rows = vec![
        object_row("alice", "Alice", "alice", Some("fs-a")),
        object_row("bob", "Bob", "bob", Some("fs-b")),
    ];
    let disk = vec![object_folder("Bob", "bob", Some("fs-a")), object_folder("Robert", "robert", Some("fs-b"))];
    let plan = plan_object_identity_transitions(&disk, &rows);
    assert_eq!(
        plan.transitions,
        vec![
            ObjectIdentityTransition { source_id: "alice".to_string(), displaced_id: None },
            ObjectIdentityTransition { source_id: "bob".to_string(), displaced_id: None },
        ]
    );
    assert_eq!(plan.staged_ids, keys(&["alice", "bob"]));
    assert_eq!(plan.moves.len(), 2);
}

#[test]
fn mod_moves_follow_identities_whose_path_changed() {
    let rows = vec![row("m1", "Alice/Blue", "alice/blue", Some("fs-1")), row("m2", "Alice/Red", "alice/red", Some("fs-2"))];
    let disk = vec![folder("Alice/Navy", "alice/navy", Some("fs-1")), folder("Alice/Red", "alice/red", Some("fs-2"))];
    assert_eq!(plan_mod_moves(&disk, &rows), vec![("Alice/Blue".to_string(), "Alice/Navy".to_string())]);
}
