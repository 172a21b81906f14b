use emmm_reconcile::path_rules::folder_path_key;
use emmm_reconcile::reconcile::snapshot::{
    DiskModEntry, DiskObjectEntry, DiskProjection, ReconcileModRow, ReconcileObjectRow,
};
use emmm_reconcile::reconcile::source_recovery::{
    candidate_fingerprint, classify_candidate, GameModsDirectoryClassification,
};

fn object(path: &str, identity: Option<&str>) -> ReconcileObjectRow {
    ReconcileObjectRow {
        id: format!("object-{path}"),
        name: path.to_string(),
        folder_path: path.to_string(),
        folder_path_key: folder_path_key(path),
        filesystem_identity: identity.map(str::to_string),
    }
}

fn db_mod(path: &str, identity: Option<&str>) -> ReconcileModRow {
    ReconcileModRow {
        id: format!("mod-{path}"),
        folder_path: path.to_string(),
        folder_path_key: folder_path_key(path),
        actual_name: path.to_string(),
        filesystem_identity: identity.map(str::to_string),
    }
}

fn disk_object(path: &str, identity: Option<&str>) -> DiskObjectEntry {
    DiskObjectEntry {
        folder_path: path.to_string(),
        folder_path_key: folder_path_key(path),
        name: path.to_string(),
        is_disabled: false,
        absolute_path: path.to_string(),
        filesystem_identity: identity.map(str::to_string),
    }
}

fn disk_mod(path: &str, identity: Option<&str>) -> DiskModEntry {
    DiskModEntry {
        folder_path: path.to_string(),
        folder_path_key: folder_path_key(path),
        object_folder_path_key: path.split(['/', '\\']).next().unwrap_or_default().to_ascii_lowercase(),
        raw_name: path.to_string(),
        absolute_path: path.to_string(),
        filesystem_identity: identity.map(str::to_string),
        size_bytes: None,
    }
}

#[test]
fn identity_match_is_safe_to_auto_apply() {
    let existing_objects = vec![object("Alice", Some("object-fs"))];
    let existing_mods = vec![db_mod("Alice/Blue", Some("mod-fs"))];
    let candidate = DiskProjection {
        objects: vec![disk_object("Alicia", Some("object-fs"))],
        mods: vec![disk_mod("Alicia/Blue", Some("mod-fs"))],
    };

    let result = classify_candidate(&existing_objects, &existing_mods, &candidate, 1);

    assert_eq!(result.classification, GameModsDirectoryClassification::Matching);
    assert_eq!(result.filesystem_identity_match_count, 2);
    assert!(!result.requires_confirmation);
}

#[test]
fn exact_relative_path_sets_match_after_cross_volume_copy() {
    let existing_objects = vec![object("Alice", Some("old-object"))];
    let existing_mods = vec![db_mod("Alice/Blue", Some("old-mod"))];
    let candidate = DiskProjection {
        objects: vec![disk_object("Alice", Some("new-object"))],
        mods: vec![disk_mod("Alice/Blue", Some("new-mod"))],
    };

    let result = classify_candidate(&existing_objects, &existing_mods, &candidate, 1);

    assert_eq!(result.classification, GameModsDirectoryClassification::Matching);
    assert_eq!(result.relative_path_match_count, 2);
}

#[test]
fn partial_overlap_requires_different_library_confirmation() {
    let existing_objects = vec![object("Alice", None), object("Bob", None)];
    let existing_mods = vec![db_mod("Alice/Blue", None), db_mod("Bob/Red", None)];
    let candidate = DiskProjection {
        objects: vec![disk_object("Alice", None), disk_object("Carol", None)],
        mods: vec![disk_mod("Alice/Blue", None), disk_mod("Carol/Green", None)],
    };

    let result = classify_candidate(&existing_objects, &existing_mods, &candidate, 2);

    assert_eq!(result.classification, GameModsDirectoryClassification::Different);
    assert!(result.requires_confirmation);
}

#[test]
fn one_matching_identity_does_not_match_a_mostly_different_library() {
    let existing_objects = vec![object("Alice", Some("object-alice")), object("Bob", Some("object-bob"))];
    let existing_mods = vec![db_mod("Alice/Blue", Some("mod-blue")), db_mod("Bob/Red", Some("mod-red"))];
    let candidate = DiskProjection {
        objects: vec![disk_object("Alice", Some("object-alice")), disk_object("Carol", Some("object-carol"))],
        mods: vec![disk_mod("Alice/Green", Some("mod-green")), disk_mod("Carol/Purple", Some("mod-purple"))],
    };

    let result = classify_candidate(&existing_objects, &existing_mods, &candidate, 2);

    assert_eq!(result.filesystem_identity_match_count, 1);
    assert_eq!(result.classification, GameModsDirectoryClassification::Different);
    assert!(result.requires_confirmation);
}

#[test]
fn fingerprint_changes_when_mod_is_disabled_without_changing_its_path_key() {
    let enabled = DiskProjection {
        objects: vec![disk_object("Alice", Some("object-fs"))],
        mods: vec![disk_mod("Alice/Blue", Some("mod-fs"))],
    };
    let disabled = DiskProjection {
        objects: vec![disk_object("Alice", Some("object-fs"))],
        mods: vec![disk_mod("Alice/DISABLED Blue", Some("mod-fs"))],
    };

    assert_ne!(candidate_fingerprint("C:/mods", &enabled, 1), candidate_fingerprint("C:/mods", &disabled, 1));
}

#[test]
fn physical_empty_is_not_the_same_as_unrecognized_content() {
    let existing_objects = vec![object("Alice", None)];
    let existing_mods = vec![db_mod("Alice/Blue", None)];
    let candidate = DiskProjection { objects: vec![], mods: vec![] };

    let empty = classify_candidate(&existing_objects, &existing_mods, &candidate, 0);
    let unrecognized = classify_candidate(&existing_objects, &existing_mods, &candidate, 3);

    assert_eq!(empty.classification, GameModsDirectoryClassification::Empty);
    assert_eq!(unrecognized.classification, GameModsDirectoryClassification::Different);
    assert!(empty.requires_confirmation);
    assert!(unrecognized.requires_confirmation);
}

#[test]
fn candidate_is_new_library_when_database_has_no_runtime_rows() {
    let candidate = DiskProjection {
        objects: vec![disk_object("Alice", None)],
        mods: vec![disk_mod("Alice/Blue", None)],
    };

    let result = classify_candidate(&vec![], &vec![], &candidate, 1);

    assert_eq!(result.classification, GameModsDirectoryClassification::NewLibrary);
    assert!(!result.requires_confirmation);
}
