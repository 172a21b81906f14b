use emmm_reconcile::reconcile::snapshot::{relative_folder_path_key, DiskSizeScan};

#[test]
fn storage_scan_deduplicates_normalized_changed_paths() {
    let changed_path = "E:/Mods/Alice/Blue/mod.ini".to_string();
    let size_scan = DiskSizeScan::incremental("E:/Mods", Vec::new(), &vec![changed_path.clone(), changed_path]);
    assert_eq!(size_scan.changed_path_keys.len(), 1);
}

#[test]
fn storage_scan_measures_new_and_changed_mods_only() {
    let known = vec!["alice/blue".to_string(), "alice/red".to_string(), "bob/green".to_string()];
    let scan = DiskSizeScan::incremental(
        "E:/Mods",
        known,
        &vec!["E:/Mods/Alice/DISABLED Red/mesh.buf".to_string(), "E:/Elsewhere/x".to_string()],
    );
    assert!(!scan.scan_all);
    assert_eq!(scan.changed_path_keys, vec!["alice/red/mesh.buf".to_string()]);
    assert!(scan.should_measure("alice/red"));
    assert!(!scan.should_measure("alice/blue"));
    assert!(scan.should_measure("carol/new"));
}

#[test]
fn a_change_to_the_mods_folder_measures_everything() {
    let scan = DiskSizeScan::incremental("E:/Mods", vec!["alice/blue".to_string()], &vec!["E:/Mods/".to_string()]);
    assert!(scan.scan_all);
    assert!(scan.should_measure("alice/blue"));
}

#[test]
fn relative_key_ignores_case_and_the_disabled_marker() {
    assert_eq!(relative_folder_path_key("E:/Mods", "E:\\Mods\\DISABLED Alice\\Blue").as_deref(), Some("alice/blue"));
    assert_eq!(relative_folder_path_key("E:/Mods", "E:/Mods"), None);
}
