use emmm_reconcile::reconcile::pass::{
    cleared_selection_paths, conflict_protected_keys, effective_watcher_events, has_mods_root_event,
    internal_mutation_rename_evidence, merge_changed_roots, reconcile_gate, reconcile_status, retain_unprotected,
    runtime_roots, should_run_scoped_disk_reconcile, source_unavailable,
};
use emmm_reconcile::reconcile::request::{DiskReconcilePathHint, ModWatchEvent};
use emmm_reconcile::reconcile::snapshot::{DiskModEntry, DiskObjectEntry, DiskProjection};
use emmm_reconcile::reconcile::types::{
    DiskReconcileReason, DiskReconcileScanScope, DiskReconcileStatus, FolderNameConflictCandidate,
    FolderNameConflictGroup,
};

fn strings(items: &[&str]) -> Vec<String> {
    items.iter().map(|item| item.to_string()).collect()
}

#[test]
fn scoped_pass_needs_roots_and_a_scoped_reason() {
    let roots = strings(&["Alice"]);
    assert!(should_run_scoped_disk_reconcile(&DiskReconcileReason::WatcherBatch, &roots));
    assert!(should_run_scoped_disk_reconcile(&DiskReconcileReason::InternalMutation, &roots));
    assert!(!should_run_scoped_disk_reconcile(&DiskReconcileReason::ManualRepair, &roots));
    assert!(!should_run_scoped_disk_reconcile(&DiskReconcileReason::WatcherBatch, &vec![]));
}

#[test]
fn mods_root_event_matches_the_folder_as_path_or_text() {
    assert!(has_mods_root_event("E:/Mods", &strings(&["E:\\Mods\\"])));
    assert!(has_mods_root_event("E:/Mods", &strings(&["e:/mods"])));
    assert!(!has_mods_root_event("E:/Mods", &strings(&["E:/Mods/Alice"])));
}

#[test]
fn gate_skips_thumbnail_batches_and_forces_full_scans() {
    let roots = strings(&["Alice"]);
    let paths = strings(&["E:/Mods/Alice/preview.png"]);
    let thumbs = reconcile_gate(&DiskReconcileReason::WatcherBatch, false, false, &roots, &paths, true, false);
    assert!(thumbs.thumbnail_only);
    let forced = reconcile_gate(&DiskReconcileReason::WatcherBatch, true, false, &roots, &paths, false, true);
    assert!(forced.should_reconcile && !forced.requested_scoped && !forced.trusted_scope);
    let scoped = reconcile_gate(&DiskReconcileReason::InternalMutation, false, false, &roots, &paths, false, true);
    assert!(scoped.requested_scoped && scoped.trusted_scope && scoped.measure_sizes);
    let idle = reconcile_gate(&DiskReconcileReason::WatcherBatch, false, false, &vec![], &paths, false, false);
    assert!(!idle.should_reconcile);
    let onboarding = reconcile_gate(&DiskReconcileReason::OnboardingCompleted, false, false, &vec![], &vec![], false, false);
    assert!(onboarding.should_reconcile && !onboarding.measure_sizes);
}

#[test]
fn changed_roots_merge_with_roots_that_gained_or_lost_descriptors() {
    let before = runtime_roots(&strings(&["Carol", "Alice", "Alice"]));
    let after = runtime_roots(&strings(&["Bob", "Alice"]));
    assert_eq!(before, strings(&["Alice", "Carol"]));
    assert_eq!(cleared_selection_paths(&before, &after), strings(&["Carol"]));
    assert_eq!(
        merge_changed_roots(&strings(&["Dave", "Alice"]), &before, &after),
        strings(&["Alice", "Bob", "Carol", "Dave"])
    );
}

#[test]
fn status_prefers_rename_reviews_over_conflicts() {
    let conflict = FolderNameConflictGroup {
        group_id: "g".to_string(),
        identity: "alice".to_string(),
        display_name: "Alice".to_string(),
        candidates: vec![],
    };
    assert_eq!(reconcile_status(&vec![], &vec![]), DiskReconcileStatus::Applied);
    assert_eq!(reconcile_status(&vec![], &vec![conflict]), DiskReconcileStatus::AppliedWithFolderConflicts);
}

#[test]
fn unavailable_source_keeps_what_the_change_list_gave() {
    let outcome = source_unavailable(
        "gone".to_string(),
        strings(&["Alice"]),
        strings(&["Alice"]),
        true,
        Default::default(),
    );
    assert_eq!(outcome.status, DiskReconcileStatus::SourceUnavailable);
    assert_eq!(outcome.scan_scope, DiskReconcileScanScope::Unscanned);
    assert_eq!(outcome.error_message.as_deref(), Some("gone"));
    assert_eq!(outcome.changed_roots, strings(&["Alice"]));
    assert!(outcome.runtime_file_changed && !outcome.objects_changed);
}

fn object(folder: &str, key: &str) -> DiskObjectEntry {
    DiskObjectEntry {
        folder_path: folder.to_string(),
        folder_path_key: key.to_string(),
        name: folder.to_string(),
        is_disabled: false,
        absolute_path: format!("E:/Mods/{folder}"),
        filesystem_identity: None,
    }
}

fn mod_entry(folder: &str, key: &str, object_key: &str) -> DiskModEntry {
    DiskModEntry {
        folder_path: folder.to_string(),
        folder_path_key: key.to_string(),
        object_folder_path_key: object_key.to_string(),
        raw_name: folder.rsplit('/').next().unwrap_or_default().to_string(),
        absolute_path: format!("E:/Mods/{folder}"),
        filesystem_identity: None,
        size_bytes: None,
    }
}

#[test]
fn conflicting_candidates_and_their_children_are_held_back() {
    let projection = DiskProjection {
        objects: vec![object("Alice", "alice"), object("DISABLED Alice", "alice"), object("Bob", "bob")],
        mods: vec![
            mod_entry("Alice/Blue", "alice/blue", "alice"),
            mod_entry("Bob/Red", "bob/red", "bob"),
            mod_entry("Bob/DISABLED Red", "bob/red", "bob"),
        ],
    };
    let conflicts = vec![
        FolderNameConflictGroup {
            group_id: "a".to_string(),
            identity: "alice".to_string(),
            display_name: "Alice".to_string(),
            candidates: vec![
                FolderNameConflictCandidate {
                    path: "E:/Mods/Alice".to_string(),
                    folder_name: "Alice".to_string(),
                    base_name: "Alice".to_string(),
                    is_enabled: true,
                },
                FolderNameConflictCandidate {
                    path: "E:/Mods/DISABLED Alice".to_string(),
                    folder_name: "DISABLED Alice".to_string(),
                    base_name: "Alice".to_string(),
                    is_enabled: false,
                },
            ],
        },
        FolderNameConflictGroup {
            group_id: "r".to_string(),
            identity: "bob/red".to_string(),
            display_name: "Red".to_string(),
            candidates: vec![FolderNameConflictCandidate {
                path: "E:/Mods/Bob/DISABLED Red".to_string(),
                folder_name: "DISABLED Red".to_string(),
                base_name: "Red".to_string(),
                is_enabled: false,
            }],
        },
    ];
    let protection = conflict_protected_keys(&projection, &conflicts);
    assert_eq!(protection.object_keys, strings(&["alice"]));
    assert_eq!(protection.mod_keys, strings(&["bob/red"]));
    let kept = retain_unprotected(&projection, &protection.object_keys, &protection.mod_keys);
    assert_eq!(kept.objects.len(), 1);
    assert_eq!(kept.objects[0].folder_path, "Bob");
    assert!(kept.mods.is_empty());
}

#[test]
fn internal_mutation_shows_a_rename_from_the_gone_path_to_the_present_one() {
    let changed = strings(&["E:/Mods/Alice/Blue", "E:/Mods/Alice/DISABLED Blue", "E:/Mods/Bob/Red"]);
    let events = internal_mutation_rename_evidence("E:/Mods", &changed, &vec![false, true, true]);
    assert_eq!(
        events,
        vec![ModWatchEvent::Renamed {
            from: "E:/Mods/Alice/Blue".to_string(),
            to: "E:/Mods/Alice/DISABLED Blue".to_string(),
        }]
    );
    assert!(internal_mutation_rename_evidence("E:/Mods", &changed, &vec![true, true, true]).is_empty());
    let repeated = strings(&["E:/Mods/Alice/Blue", "e:/mods/alice/blue"]);
    assert!(internal_mutation_rename_evidence("E:/Mods", &repeated, &vec![false, true]).is_empty());
}

#[test]
fn effective_events_append_hints_and_mutation_renames() {
    let watcher = vec![ModWatchEvent::Created("E:/Mods/Carol".to_string())];
    let hints = vec![DiskReconcilePathHint {
        old_path: "Bob/Old".to_string(),
        new_path: "Bob/New".to_string(),
        target_object_id: "obj".to_string(),
    }];
    let changed = strings(&["E:/Mods/Alice/Blue", "E:/Mods/Alice/DISABLED Blue"]);
    let events = effective_watcher_events(
        "E:/Mods",
        &DiskReconcileReason::InternalMutation,
        &watcher,
        &hints,
        &changed,
        &vec![true, false],
    );
    assert_eq!(
        events,
        vec![
            ModWatchEvent::Created("E:/Mods/Carol".to_string()),
            ModWatchEvent::Renamed { from: "E:/Mods\\Bob/Old".to_string(), to: "E:/Mods\\Bob/New".to_string() },
            ModWatchEvent::Renamed {
                from: "E:/Mods/Alice/DISABLED Blue".to_string(),
                to: "E:/Mods/Alice/Blue".to_string(),
            },
        ]
    );
    let watcher_only = effective_watcher_events(
        "E:/Mods",
        &DiskReconcileReason::WatcherBatch,
        &watcher,
        &vec![],
        &changed,
        &vec![true, false],
    );
    assert_eq!(watcher_only.len(), 1);
}
