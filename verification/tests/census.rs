use emmm_reconcile::reconcile::census::{
    assemble_projection, census_entry, directory_size_total, is_valid_trusted_root, mod_entry, object_entry_for_root,
    scoped_target_roots, sort_census_entries, trusted_root_names,
};
use emmm_reconcile::reconcile::snapshot::{DiskIdentityCensus, DiskIdentityCensusEntry, DiskProjectionError};

#[test]
fn trusted_roots_come_sorted_and_once() {
    let roots = trusted_root_names(&vec!["Bob".to_string(), "Alice".to_string(), "Bob".to_string(), "Blue/".to_string()]);
    assert_eq!(roots, Ok(vec!["Alice".to_string(), "Blue/".to_string(), "Bob".to_string()]));
}

#[test]
fn first_invalid_trusted_root_is_named() {
    let roots = trusted_root_names(&vec!["Alice".to_string(), "a/b".to_string(), ".hidden".to_string()]);
    assert_eq!(roots, Err(DiskProjectionError::Failed("Trusted reconcile root is invalid: .hidden".to_string())));
    assert!(!is_valid_trusted_root(""));
    assert!(!is_valid_trusted_root("/Alice"));
    assert!(!is_valid_trusted_root("Alice\\Blue"));
    assert!(is_valid_trusted_root("Alice"));
}

#[test]
fn census_entries_sort_by_folded_path_and_keep_ties() {
    let entries = vec![
        census_entry("bob".to_string(), "bob".to_string(), "E:/Mods/bob".to_string()),
        census_entry("Alice".to_string(), "Alice".to_string(), "E:/Mods/Alice".to_string()),
        census_entry("alice".to_string(), "alice".to_string(), "E:/Mods/alice".to_string()),
        census_entry("Alice/DISABLED Blue".to_string(), "DISABLED Blue".to_string(), "E:/Mods/Alice/DISABLED Blue".to_string()),
    ];
    let sorted = sort_census_entries(entries);
    let paths: Vec<&str> = sorted.iter().map(|e| e.folder_path.as_str()).collect();
    assert_eq!(paths, vec!["Alice", "alice", "Alice/DISABLED Blue", "bob"]);
    assert_eq!(sorted[2].folder_path_key, "alice/blue");
}

#[test]
fn folder_size_is_the_sum_of_its_files() {
    assert_eq!(directory_size_total("E:/Mods/A", &vec![1, 2, 3]), Ok(6));
    assert_eq!(directory_size_total("E:/Mods/A", &vec![]), Ok(0));
    assert_eq!(
        directory_size_total("E:/Mods/A", &vec![u64::MAX, 1]),
        Err(DiskProjectionError::Failed("Storage size overflow while sizing 'E:/Mods/A'".to_string()))
    );
    assert_eq!(
        directory_size_total("E:/Mods/A", &vec![i64::MAX as u64, 1]),
        Err(DiskProjectionError::Failed("Storage size exceeds supported range for 'E:/Mods/A'".to_string()))
    );
}

#[test]
fn disabled_root_is_an_object_shown_without_its_marker() {
    let object = object_entry_for_root("DISABLED Alice ".to_string(), "E:/Mods/DISABLED Alice ".to_string(), None);
    assert_eq!(object.name, "Alice");
    assert!(object.is_disabled);
    assert_eq!(object.folder_path_key, "alice");
    let enabled = object_entry_for_root("Alice".to_string(), "E:/Mods/Alice".to_string(), Some("7:42".to_string()));
    assert!(!enabled.is_disabled);
    assert_eq!(enabled.filesystem_identity.as_deref(), Some("7:42"));
}

#[test]
fn projection_keeps_root_order_and_skips_vanished_roots() {
    let alice = object_entry_for_root("Alice".to_string(), "E:/Mods/Alice".to_string(), None);
    let bob = object_entry_for_root("Bob".to_string(), "E:/Mods/Bob".to_string(), None);
    let blue = mod_entry("Alice/Blue".to_string(), "alice", "Blue".to_string(), "E:/Mods/Alice/Blue".to_string(), None, Some(5));
    let red = mod_entry("Alice/Red".to_string(), "alice", "Red".to_string(), "E:/Mods/Alice/Red".to_string(), None, None);
    let green = mod_entry("Bob/Green".to_string(), "bob", "Green".to_string(), "E:/Mods/Bob/Green".to_string(), None, None);
    assert_eq!(blue.folder_path_key, "alice/blue");
    assert_eq!(blue.size_bytes, Some(5));
    let projection = assemble_projection(vec![Some((alice, vec![blue, red])), None, Some((bob, vec![green]))]);
    let objects: Vec<&str> = projection.objects.iter().map(|o| o.folder_path.as_str()).collect();
    let mods: Vec<&str> = projection.mods.iter().map(|m| m.folder_path.as_str()).collect();
    assert_eq!(objects, vec!["Alice", "Bob"]);
    assert_eq!(mods, vec!["Alice/Blue", "Alice/Red", "Bob/Green"]);
    assert_eq!(scoped_target_roots(&vec!["Bob".to_string(), "Alice".to_string(), "Bob".to_string()]), vec!["Alice".to_string(), "Bob".to_string()]);
}

#[test]
fn identity_census_detects_conflicting_normalized_names_across_roots() {
    let census = DiskIdentityCensus {
        entries: vec![
            DiskIdentityCensusEntry {
                folder_path: "Alice/Shared".to_string(),
                folder_path_key: "shared".to_string(),
                raw_name: "Shared".to_string(),
                absolute_path: "Alice/Shared".to_string(),
            },
            DiskIdentityCensusEntry {
                folder_path: "Bob/shared".to_string(),
                folder_path_key: "shared".to_string(),
                raw_name: "shared".to_string(),
                absolute_path: "Bob/shared".to_string(),
            },
        ],
        top_level_roots: 2,
    };

    assert!(census.has_cross_root_ambiguity());
}
