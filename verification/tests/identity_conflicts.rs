use emmm_reconcile::digest::generate_stable_id_from_key;
use emmm_reconcile::path_rules::folder_path_key;
use emmm_reconcile::reconcile::identity_conflicts::{
    detect_folder_name_conflicts, detect_folder_name_conflicts_from_census, folder_conflict_identity, path_is_enabled,
};
use emmm_reconcile::reconcile::snapshot::{
    DiskIdentityCensus, DiskIdentityCensusEntry, DiskModEntry, DiskObjectEntry, DiskProjection,
};

fn census_entry(path: &str) -> DiskIdentityCensusEntry {
    DiskIdentityCensusEntry {
        folder_path: path.to_string(),
        folder_path_key: folder_path_key(path),
        raw_name: path.rsplit('/').next().unwrap_or_default().to_string(),
        absolute_path: path.to_string(),
    }
}

#[test]
fn reports_normalized_names_with_the_same_physical_parent_including_mods_root() {
    let census = DiskIdentityCensus {
        entries: vec![
            census_entry("Alice"),
            census_entry("DISABLED Alice"),
            census_entry("Alice/Blue"),
            census_entry("Alice/DISABLED Blue"),
            census_entry("DISABLED Alice/Blue"),
        ],
        top_level_roots: 2,
    };

    let groups = detect_folder_name_conflicts_from_census("game", &census);

    assert_eq!(groups.len(), 2);
    assert_eq!(groups[0].identity, "alice");
    assert_eq!(
        groups[0].candidates.iter().map(|candidate| candidate.path.as_str()).collect::<Vec<_>>(),
        vec!["Alice", "DISABLED Alice"],
    );
    assert_eq!(groups[1].identity, "alice/blue");
    assert_eq!(
        groups[1].candidates.iter().map(|candidate| candidate.path.as_str()).collect::<Vec<_>>(),
        vec!["Alice/Blue", "Alice/DISABLED Blue"],
    );
}

#[test]
fn conflict_group_carries_stable_id_display_name_and_enabled_flags() {
    let census = DiskIdentityCensus {
        entries: vec![census_entry("DISABLED Alice"), census_entry("Alice")],
        top_level_roots: 2,
    };
    let groups = detect_folder_name_conflicts_from_census("game", &census);
    assert_eq!(groups.len(), 1);
    let group = &groups[0];
    assert_eq!(group.group_id, generate_stable_id_from_key("game", "alice"));
    assert_eq!(group.display_name, "Alice");
    assert_eq!(group.candidates[0].path, "Alice");
    assert!(group.candidates[0].is_enabled);
    assert_eq!(group.candidates[1].folder_name, "DISABLED Alice");
    assert_eq!(group.candidates[1].base_name, "Alice");
    assert!(!group.candidates[1].is_enabled);
}

#[test]
fn sibling_identity_keeps_the_physical_parent() {
    assert_eq!(folder_conflict_identity("Alice/DISABLED Blue").as_deref(), Some("alice/blue"));
    assert_eq!(folder_conflict_identity("DISABLED Alice/Blue").as_deref(), Some("disabled alice/blue"));
    assert_eq!(folder_conflict_identity("DISABLED Alice").as_deref(), Some("alice"));
    assert_eq!(folder_conflict_identity("Alice/.."), None);
    assert_eq!(folder_conflict_identity(""), None);
}

#[test]
fn any_disabled_component_disables_the_path() {
    assert!(path_is_enabled("E:/Mods/Alice/Blue"));
    assert!(!path_is_enabled("E:/Mods/DISABLED Alice/Blue"));
    assert!(!path_is_enabled("E:/Mods/Alice/disabled Blue"));
}

#[test]
fn projection_conflicts_include_objects_and_mods() {
    let projection = DiskProjection {
        objects: vec![DiskObjectEntry {
            folder_path: "Alice".to_string(),
            folder_path_key: "alice".to_string(),
            name: "Alice".to_string(),
            is_disabled: false,
            absolute_path: "E:/Mods/Alice".to_string(),
            filesystem_identity: None,
        }],
        mods: vec![DiskModEntry {
            folder_path: "DISABLED Alice".to_string(),
            folder_path_key: "alice".to_string(),
            object_folder_path_key: String::new(),
            raw_name: "DISABLED Alice".to_string(),
            absolute_path: "E:/Mods/DISABLED Alice".to_string(),
            filesystem_identity: None,
            size_bytes: None,
        }],
    };
    let groups = detect_folder_name_conflicts("game", &projection);
    assert_eq!(groups.len(), 1);
    assert_eq!(groups[0].candidates.len(), 2);
    assert_eq!(groups[0].candidates[0].folder_name, "Alice");
    assert_eq!(groups[0].candidates[1].folder_name, "DISABLED Alice");
    assert!(!groups[0].candidates[1].is_enabled);
}

#[test]
fn unique_names_report_no_conflict() {
    let census = DiskIdentityCensus {
        entries: vec![census_entry("Alice"), census_entry("Bob"), census_entry("Alice/Blue")],
        top_level_roots: 2,
    };
    assert!(detect_folder_name_conflicts_from_census("game", &census).is_empty());
}
