//! What the projection writer does with each folder found on disk: which
//! stored row it updates or inserts, which references follow a move, and
//! which keys the prune pass must leave alone. The writer performs these
//! plans inside one database transaction.

use vstd::prelude::*;

use crate::digest::{generate_stable_id_from_key, stable_id};
use crate::error::AppError;
use crate::reconcile::snapshot::{DiskModEntry, DiskObjectEntry, ReconcileModRow, ReconcileObjectRow};
use crate::sets::{contains_text, distinct, insert_distinct, text_set, views};
use crate::text::{concat_str, has_prefix, lower, lower_chars, starts_with, str_eq, to_chars};

verus! {

/// Whether a row is shown as enabled or disabled.
#[derive(Debug, Clone, Copy, PartialEq, Eq, Structural)]
pub enum ItemStatus {
    Enabled,
    Disabled,
}

impl ItemStatus {
    pub fn from_is_disabled(is_disabled: bool) -> (r: Self)
        ensures
            r == (if is_disabled { ItemStatus::Disabled } else { ItemStatus::Enabled }),
    {
        if is_disabled {
            ItemStatus::Disabled
        } else {
            ItemStatus::Enabled
        }
    }
}

/// The name prefix an object carries while its identity is staged.
pub open spec fn object_stage_prefix() -> Seq<char> {
    ".emmm-reconcile-object-stage-"@
}

/// A stored row whose identity is held by another folder on disk is
/// displaced: it is neither the moving row itself nor a row whose own
/// folder is still on disk elsewhere.
pub open spec fn displaced(occupant_id: Seq<char>, source_id: Seq<char>, occupant_identity: Option<Seq<char>>, disk_identities: Seq<Seq<char>>) -> bool {
    occupant_id != source_id && !(occupant_identity matches Some(i) && disk_identities.contains(i))
}

pub fn occupant_is_displaced(
    occupant_id: &String,
    source_id: &String,
    occupant_identity: &Option<String>,
    disk_identities: &Vec<String>,
) -> (r: bool)
    ensures
        r == displaced(occupant_id@, source_id@, crate::reconcile::authority::text_opt(*occupant_identity), views(disk_identities@)),
{
    let elsewhere = match occupant_identity {
        Some(identity) => contains_text(disk_identities, identity),
        None => false,
    };
    *occupant_id != *source_id && !elsewhere
}

/// A stored object row as the object pass reads it.
#[derive(Debug, Clone, PartialEq, Eq)]
pub struct StoredObjectRow {
    pub id: String,
    pub name: String,
    pub folder_path: String,
    pub status: ItemStatus,
}

/// What the object pass does with an object row the disk still shows.
#[derive(Debug, Clone, PartialEq, Eq)]
pub struct ObjectSyncPlan {
    /// Rewrite the row's name, folder and status from disk.
    pub update_disk_identity: bool,
    /// Collections follow the rename of the folder.
    pub rename_collection_references: bool,
    /// The folder moved: (from, to).
    pub path_update: Option<(String, String)>,
}

/// The plan for an object row found again on disk. `persisted` is the row
/// as it was before its identity was staged (the row itself otherwise).
pub fn plan_existing_object_sync(
    existing: &StoredObjectRow,
    persisted: &StoredObjectRow,
    disk_object: &DiskObjectEntry,
    identity_was_staged: bool,
    runtime_prefix_transition: bool,
) -> (r: ObjectSyncPlan)
    ensures
        ({
            let path_changed = persisted.folder_path@ != disk_object.folder_path@;
            let leaked = has_prefix(existing.name@, object_stage_prefix());
            let expected = if disk_object.is_disabled { ItemStatus::Disabled } else { ItemStatus::Enabled };
            let update = identity_was_staged || leaked || path_changed || persisted.status != expected;
            &&& r.update_disk_identity == update
            &&& r.rename_collection_references == (update && path_changed && !identity_was_staged && !runtime_prefix_transition)
            &&& (update && path_changed) ==> (r.path_update matches Some(p) && p.0@ == persisted.folder_path@
                && p.1@ == disk_object.folder_path@)
            &&& !(update && path_changed) ==> r.path_update is None
        }),
{
    let expected = ItemStatus::from_is_disabled(disk_object.is_disabled);
    let path_changed = persisted.folder_path != disk_object.folder_path;
    let name = to_chars(existing.name.as_str());
    let prefix = to_chars(".emmm-reconcile-object-stage-");
    proof {
        reveal_strlit(".emmm-reconcile-object-stage-");
    }
    let leaked = starts_with(name.as_slice(), prefix.as_slice());
    if !identity_was_staged && !leaked && !path_changed && persisted.status == expected {
        return ObjectSyncPlan { update_disk_identity: false, rename_collection_references: false, path_update: None };
    }
    if !path_changed {
        return ObjectSyncPlan { update_disk_identity: true, rename_collection_references: false, path_update: None };
    }
    ObjectSyncPlan {
        update_disk_identity: true,
        rename_collection_references: !identity_was_staged && !runtime_prefix_transition,
        path_update: Some((persisted.folder_path.clone(), disk_object.folder_path.clone())),
    }
}

/// A stored mod row as the mod pass reads it.
#[derive(Debug, Clone, PartialEq, Eq)]
pub struct StoredModRow {
    pub id: String,
    pub folder_path: String,
    pub folder_path_key: String,
    pub actual_name: String,
    pub status: ItemStatus,
    pub is_safe: bool,
    pub safety_source: Option<String>,
    pub object_id: Option<String>,
    pub object_type: Option<String>,
    pub size_bytes: i64,
}

/// What a mod folder's files say of it.
#[derive(Debug, Clone, PartialEq, Eq)]
pub struct RuntimeModMetadata {
    pub actual_name: String,
    pub status: ItemStatus,
    pub is_safe: bool,
    pub safety_source: String,
}

/// What the mod pass does with one mod folder found on disk.
#[derive(Debug, Clone, PartialEq, Eq)]
pub struct ModWritePlan {
    /// The row id derived from the folder's identity key.
    pub new_id: String,
    /// No stored row matched: insert one.
    pub insert: bool,
    /// Rewrite the row's id, folder, name, status and safety.
    pub update_identity: bool,
    /// The row changes id: references to its old id are detached first.
    pub detach_previous_id: Option<String>,
    /// The folder moved: (from, to).
    pub path_update: Option<(String, String)>,
    /// Rewrite the row's owning object and type.
    pub update_object: bool,
    /// Store the newly measured size.
    pub update_size: Option<i64>,
    /// Collections follow the move of the folder.
    pub move_collection_references: bool,
    /// Keys the prune pass must leave alone.
    pub seen_keys: Vec<String>,
}

pub open spec fn missing_size_message(folder_path: Seq<char>) -> Seq<char> {
    "Storage size missing for newly discovered mod '"@ + folder_path + "'"@
}

/// The safety source a row carries, the unknown source when it has none.
pub open spec fn source_or(o: Option<String>, unknown: Seq<char>) -> Seq<char> {
    match o {
        Some(s) => s@,
        None => unknown,
    }
}

/// The plan for one mod folder. `existing` is the stored row it matched,
/// and `persisted` that row as it was before its identity was staged;
/// `unknown_source` is the safety source of a row that records none.
pub fn plan_mod_write(
    game_id: &str,
    disk_mod: &DiskModEntry,
    existing: &Option<StoredModRow>,
    persisted: &Option<StoredModRow>,
    identity_was_staged: bool,
    metadata: &RuntimeModMetadata,
    object_id: &str,
    object_type: &str,
    runtime_prefix_transition: bool,
    unknown_source: &str,
) -> (r: Result<ModWritePlan, AppError>)
    ensures
        ({
            let new_id = stable_id(game_id@, disk_mod.folder_path_key@);
            match *existing {
                None => match disk_mod.size_bytes {
                    None => r matches Err(AppError::Internal(m)) && m@ == missing_size_message(disk_mod.folder_path@),
                    Some(size) => r matches Ok(p) && p.new_id@ == new_id && p.insert && !p.update_identity
                        && p.detach_previous_id is None && p.path_update is None && !p.update_object
                        && p.update_size is None && !p.move_collection_references
                        && views(p.seen_keys@) == seq![disk_mod.folder_path_key@],
                },
                Some(e) => {
                    let q = match *persisted { Some(q) => q, None => e };
                    let path_changed = q.folder_path@ != disk_mod.folder_path@;
                    let id_changed = e.id@ != new_id;
                    let identity = path_changed || q.actual_name@ != metadata.actual_name@ || q.status != metadata.status
                        || q.is_safe != metadata.is_safe || source_or(q.safety_source, unknown_source@) != metadata.safety_source@
                        || id_changed;
                    r matches Ok(p) && p.new_id@ == new_id && !p.insert
                        && p.update_identity == identity
                        && (id_changed ==> (p.detach_previous_id matches Some(old) && old@ == e.id@))
                        && (!id_changed ==> p.detach_previous_id is None)
                        && (path_changed ==> (p.path_update matches Some(u) && u.0@ == q.folder_path@ && u.1@ == disk_mod.folder_path@))
                        && (!path_changed ==> p.path_update is None)
                        && p.update_object == (!(e.object_id matches Some(o) && o@ == object_id@)
                            || !(e.object_type matches Some(t) && t@ == object_type@))
                        && p.update_size == (match disk_mod.size_bytes {
                            Some(s) => if s != q.size_bytes { Some(s) } else { None },
                            None => None,
                        })
                        && p.move_collection_references == (path_changed && !runtime_prefix_transition && !identity_was_staged)
                        && views(p.seen_keys@) == seq![q.folder_path_key@, e.folder_path_key@, disk_mod.folder_path_key@]
                },
            }
        }),
{
    let new_id = generate_stable_id_from_key(game_id, disk_mod.folder_path_key.as_str());
    match existing {
        None => match disk_mod.size_bytes {
            None => {
                let head = concat_str("Storage size missing for newly discovered mod '", disk_mod.folder_path.as_str());
                Err(AppError::Internal(concat_str(head.as_str(), "'")))
            },
            Some(_) => {
                let seen_keys = vec![disk_mod.folder_path_key.clone()];
                assert(views(seen_keys@) =~= seq![disk_mod.folder_path_key@]);
                Ok(ModWritePlan {
                    new_id,
                    insert: true,
                    update_identity: false,
                    detach_previous_id: None,
                    path_update: None,
                    update_object: false,
                    update_size: None,
                    move_collection_references: false,
                    seen_keys,
                })
            },
        },
        Some(e) => {
            let q = match persisted {
                Some(q) => q,
                None => e,
            };
            let path_changed = q.folder_path != disk_mod.folder_path;
            let name_changed = q.actual_name != metadata.actual_name;
            let status_changed = q.status != metadata.status;
            let source_differs = match &q.safety_source {
                Some(s) => *s != metadata.safety_source,
                None => !crate::text::str_eq(unknown_source, metadata.safety_source.as_str()),
            };
            let safety_changed = q.is_safe != metadata.is_safe || source_differs;
            let id_changed = e.id != new_id;
            let object_matches = match &e.object_id {
                Some(o) => crate::text::str_eq(o.as_str(), object_id),
                None => false,
            };
            let type_matches = match &e.object_type {
                Some(t) => crate::text::str_eq(t.as_str(), object_type),
                None => false,
            };
            let update_size = match disk_mod.size_bytes {
                Some(s) => if s != q.size_bytes { Some(s) } else { None },
                None => None,
            };
            let seen_keys = vec![q.folder_path_key.clone(), e.folder_path_key.clone(), disk_mod.folder_path_key.clone()];
            assert(views(seen_keys@) =~= seq![q.folder_path_key@, e.folder_path_key@, disk_mod.folder_path_key@]);
            Ok(ModWritePlan {
                new_id,
                insert: false,
                update_identity: path_changed || name_changed || status_changed || safety_changed || id_changed,
                detach_previous_id: if id_changed { Some(e.id.clone()) } else { None },
                path_update: if path_changed {
                    Some((q.folder_path.clone(), disk_mod.folder_path.clone()))
                } else {
                    None
                },
                update_object: !object_matches || !type_matches,
                update_size,
                move_collection_references: path_changed && !runtime_prefix_transition && !identity_was_staged,
                seen_keys,
            })
        },
    }
}

} // verus!

verus! {

/// The first stored mod whose filesystem identity is `identity`, or -1.
pub open spec fn mod_with_identity(rows: Seq<ReconcileModRow>, identity: Seq<char>) -> int
    decreases rows.len(),
{
    if rows.len() == 0 {
        -1
    } else {
        let k = mod_with_identity(rows.drop_last(), identity);
        if k >= 0 {
            k
        } else if rows.last().filesystem_identity matches Some(i) && i@ == identity {
            rows.len() - 1
        } else {
            -1
        }
    }
}

/// The first stored mod that `at` picks out, or -1.
pub open spec fn first_mod_where(rows: Seq<ReconcileModRow>, at: spec_fn(ReconcileModRow) -> bool) -> int
    decreases rows.len(),
{
    if rows.len() == 0 {
        -1
    } else {
        let k = first_mod_where(rows.drop_last(), at);
        if k >= 0 {
            k
        } else if at(rows.last()) {
            rows.len() - 1
        } else {
            -1
        }
    }
}

/// The stored mod that holds the place a folder moves into: the one with
/// its final id, else the one with its key, else the one with its path
/// ignoring ASCII case; -1 when none does.
pub open spec fn mod_occupant(rows: Seq<ReconcileModRow>, final_id: Seq<char>, key: Seq<char>, path: Seq<char>) -> int {
    let by_id = first_mod_where(rows, |r: ReconcileModRow| r.id@ == final_id);
    let by_key = first_mod_where(rows, |r: ReconcileModRow| r.folder_path_key@ == key);
    let by_path = first_mod_where(rows, |r: ReconcileModRow| lower(r.folder_path@) == lower(path));
    if by_id >= 0 {
        by_id
    } else if by_key >= 0 {
        by_key
    } else {
        by_path
    }
}

/// The identities the folders on disk carry.
pub open spec fn disk_identities(mods: Seq<DiskModEntry>) -> Seq<Seq<char>>
    decreases mods.len(),
{
    if mods.len() == 0 {
        Seq::empty()
    } else {
        match mods.last().filesystem_identity {
            Some(i) => disk_identities(mods.drop_last()).push(i@),
            None => disk_identities(mods.drop_last()),
        }
    }
}

/// One stored mod that follows its folder to a new place: its current id,
/// the id the new place gives it, and the stored mod it displaces, if any.
#[derive(Debug, Clone, PartialEq, Eq)]
pub struct ModIdentityTransition {
    pub source_id: String,
    pub final_id: String,
    pub displaced_id: Option<String>,
}

/// A transition as plain values.
pub open spec fn transition_view(t: ModIdentityTransition) -> (Seq<char>, Seq<char>, Option<Seq<char>>) {
    (t.source_id@, t.final_id@, match t.displaced_id {
        Some(d) => Some(d@),
        None => None,
    })
}

/// The transition a folder on disk causes: a stored mod with the folder's
/// identity moves when its id or key differ from what the folder's place
/// gives; the occupant of that place is displaced unless it is the moving
/// mod itself or its own identity is still on disk elsewhere.
pub open spec fn mod_transition(
    game_id: Seq<char>,
    d: DiskModEntry,
    rows: Seq<ReconcileModRow>,
    on_disk: Seq<Seq<char>>,
) -> Option<(Seq<char>, Seq<char>, Option<Seq<char>>)> {
    match d.filesystem_identity {
        None => None,
        Some(identity) => {
            let s = mod_with_identity(rows, identity@);
            let final_id = stable_id(game_id, d.folder_path_key@);
            if s < 0 {
                None
            } else if rows[s].id@ == final_id && rows[s].folder_path_key@ == d.folder_path_key@ {
                None
            } else {
                let o = mod_occupant(rows, final_id, d.folder_path_key@, d.folder_path@);
                let displaced = if o >= 0 && rows[o].id@ != rows[s].id@ && !(rows[o].filesystem_identity matches Some(x)
                    && on_disk.contains(x@)) {
                    Some(rows[o].id@)
                } else {
                    None
                };
                Some((rows[s].id@, final_id, displaced))
            }
        },
    }
}

/// The transitions of the folders on disk, in folder order.
pub open spec fn mod_transitions(
    game_id: Seq<char>,
    mods: Seq<DiskModEntry>,
    rows: Seq<ReconcileModRow>,
    on_disk: Seq<Seq<char>>,
) -> Seq<(Seq<char>, Seq<char>, Option<Seq<char>>)>
    decreases mods.len(),
{
    if mods.len() == 0 {
        Seq::empty()
    } else {
        let t = mod_transitions(game_id, mods.drop_last(), rows, on_disk);
        match mod_transition(game_id, mods.last(), rows, on_disk) {
            Some(x) => t.push(x),
            None => t,
        }
    }
}

fn find_mod_with_identity(rows: &Vec<ReconcileModRow>, identity: &String) -> (r: Option<usize>)
    ensures
        r matches Some(k) ==> k == mod_with_identity(rows@, identity@) && k < rows@.len(),
        r is None ==> mod_with_identity(rows@, identity@) < 0,
{
    let mut k: usize = 0;
    while k < rows.len()
        invariant
            k <= rows@.len(),
            mod_with_identity(rows@.take(k as int), identity@) < 0,
        decreases rows@.len() - k,
    {
        proof {
            assert(rows@.take(k + 1).drop_last() =~= rows@.take(k as int));
            assert(rows@.take(k + 1).last() == rows@[k as int]);
        }
        let hit = match &rows[k].filesystem_identity {
            Some(i) => *i == *identity,
            None => false,
        };
        if hit {
            proof {
                lemma_mod_identity_prefix(rows@, identity@, k as int + 1);
            }
            return Some(k);
        }
        k += 1;
    }
    assert(rows@.take(rows@.len() as int) =~= rows@);
    None
}

proof fn lemma_mod_identity_prefix(rows: Seq<ReconcileModRow>, identity: Seq<char>, n: int)
    requires
        0 <= n <= rows.len(),
        mod_with_identity(rows.take(n), identity) >= 0,
    ensures
        mod_with_identity(rows, identity) == mod_with_identity(rows.take(n), identity),
    decreases rows.len() - n,
{
    if n < rows.len() {
        assert(rows.take(n + 1).drop_last() =~= rows.take(n));
        lemma_mod_identity_prefix(rows, identity, n + 1);
    } else {
        assert(rows.take(n) =~= rows);
    }
}

proof fn lemma_first_mod_prefix(rows: Seq<ReconcileModRow>, at: spec_fn(ReconcileModRow) -> bool, n: int)
    requires
        0 <= n <= rows.len(),
        first_mod_where(rows.take(n), at) >= 0,
    ensures
        first_mod_where(rows, at) == first_mod_where(rows.take(n), at),
    decreases rows.len() - n,
{
    if n < rows.len() {
        assert(rows.take(n + 1).drop_last() =~= rows.take(n));
        lemma_first_mod_prefix(rows, at, n + 1);
    } else {
        assert(rows.take(n) =~= rows);
    }
}

/// Which test `find_first_mod` applies to a stored mod.
pub enum ModLookup {
    Id,
    Key,
    LowerPath,
}

pub open spec fn lookup_pred(how: ModLookup, text: Seq<char>) -> spec_fn(ReconcileModRow) -> bool {
    match how {
        ModLookup::Id => |r: ReconcileModRow| r.id@ == text,
        ModLookup::Key => |r: ReconcileModRow| r.folder_path_key@ == text,
        ModLookup::LowerPath => |r: ReconcileModRow| lower(r.folder_path@) == lower(text),
    }
}

fn find_first_mod(rows: &Vec<ReconcileModRow>, how: ModLookup, text: &str) -> (r: Option<usize>)
    ensures
        r matches Some(k) ==> k == first_mod_where(rows@, lookup_pred(how, text@)) && k < rows@.len(),
        r is None ==> first_mod_where(rows@, lookup_pred(how, text@)) < 0,
{
    let ghost at = lookup_pred(how, text@);
    let lowered = lower_chars(to_chars(text).as_slice());
    let mut k: usize = 0;
    while k < rows.len()
        invariant
            k <= rows@.len(),
            at == lookup_pred(how, text@),
            lowered@ == lower(text@),
            first_mod_where(rows@.take(k as int), at) < 0,
        decreases rows@.len() - k,
    {
        proof {
            assert(rows@.take(k + 1).drop_last() =~= rows@.take(k as int));
            assert(rows@.take(k + 1).last() == rows@[k as int]);
        }
        let hit = match how {
            ModLookup::Id => str_eq(rows[k].id.as_str(), text),
            ModLookup::Key => str_eq(rows[k].folder_path_key.as_str(), text),
            ModLookup::LowerPath => {
                let lp = lower_chars(to_chars(rows[k].folder_path.as_str()).as_slice());
                crate::text::chars_eq(lp.as_slice(), lowered.as_slice())
            },
        };
        if hit {
            proof {
                lemma_first_mod_prefix(rows@, at, k as int + 1);
            }
            return Some(k);
        }
        k += 1;
    }
    assert(rows@.take(rows@.len() as int) =~= rows@);
    None
}

fn collect_disk_identities(mods: &Vec<DiskModEntry>) -> (r: Vec<String>)
    ensures
        views(r@) == disk_identities(mods@),
{
    let mut r: Vec<String> = Vec::new();
    let mut i: usize = 0;
    while i < mods.len()
        invariant
            i <= mods@.len(),
            views(r@) == disk_identities(mods@.take(i as int)),
        decreases mods@.len() - i,
    {
        proof {
            assert(mods@.take(i + 1).drop_last() =~= mods@.take(i as int));
            assert(mods@.take(i + 1).last() == mods@[i as int]);
        }
        match &mods[i].filesystem_identity {
            Some(id) => {
                let ghost before = r@;
                let c = id.clone();
                r.push(c);
                proof {
                    crate::sets::lemma_views_push(before, c);
                }
            },
            None => {},
        }
        i += 1;
    }
    assert(mods@.take(mods@.len() as int) =~= mods@);
    r
}

/// The transition one folder on disk causes.
fn plan_mod_transition(
    game_id: &str,
    d: &DiskModEntry,
    rows: &Vec<ReconcileModRow>,
    on_disk: &Vec<String>,
) -> (r: Option<ModIdentityTransition>)
    ensures
        match r {
            Some(t) => mod_transition(game_id@, *d, rows@, views(on_disk@)) == Some(transition_view(t)),
            None => mod_transition(game_id@, *d, rows@, views(on_disk@)) is None,
        },
{
    let identity = match &d.filesystem_identity {
        None => return None,
        Some(i) => i,
    };
    let s = match find_mod_with_identity(rows, identity) {
        None => return None,
        Some(s) => s,
    };
    let final_id = generate_stable_id_from_key(game_id, d.folder_path_key.as_str());
    if rows[s].id == final_id && rows[s].folder_path_key == d.folder_path_key {
        return None;
    }
    let occupant = match find_first_mod(rows, ModLookup::Id, final_id.as_str()) {
        Some(o) => Some(o),
        None => match find_first_mod(rows, ModLookup::Key, d.folder_path_key.as_str()) {
            Some(o) => Some(o),
            None => find_first_mod(rows, ModLookup::LowerPath, d.folder_path.as_str()),
        },
    };
    proof {
        assert(lookup_pred(ModLookup::Id, final_id@) == (|r: ReconcileModRow| r.id@ == final_id@));
        assert(lookup_pred(ModLookup::Key, d.folder_path_key@) == (|r: ReconcileModRow| r.folder_path_key@ == d.folder_path_key@));
        assert(lookup_pred(ModLookup::LowerPath, d.folder_path@) == (|r: ReconcileModRow| lower(r.folder_path@) == lower(d.folder_path@)));
    }
    let displaced_id = match occupant {
        Some(o) => {
            let elsewhere = match &rows[o].filesystem_identity {
                Some(x) => contains_text(on_disk, x),
                None => false,
            };
            if rows[o].id != rows[s].id && !elsewhere {
                Some(rows[o].id.clone())
            } else {
                None
            }
        },
        None => None,
    };
    Some(ModIdentityTransition { source_id: rows[s].id.clone(), final_id, displaced_id })
}

/// The stored mods that follow their folders to new places, in the order
/// of the folders on disk, each with the id its new place gives it and the
/// stored mod it displaces. A mod is found by its filesystem identity; the
/// occupant of its new place is displaced unless it is the mod itself or
/// its own identity is still on disk elsewhere.
pub fn plan_mod_identity_transitions(
    game_id: &str,
    disk_mods: &Vec<DiskModEntry>,
    existing: &Vec<ReconcileModRow>,
) -> (r: Vec<ModIdentityTransition>)
    ensures
        r@.map_values(|t: ModIdentityTransition| transition_view(t)) == mod_transitions(
            game_id@,
            disk_mods@,
            existing@,
            disk_identities(disk_mods@),
        ),
{
    let on_disk = collect_disk_identities(disk_mods);
    let ghost ids = views(on_disk@);
    let mut r: Vec<ModIdentityTransition> = Vec::new();
    let mut i: usize = 0;
    while i < disk_mods.len()
        invariant
            i <= disk_mods@.len(),
            ids == views(on_disk@),
            ids == disk_identities(disk_mods@),
            r@.map_values(|t: ModIdentityTransition| transition_view(t)) == mod_transitions(
                game_id@,
                disk_mods@.take(i as int),
                existing@,
                ids,
            ),
        decreases disk_mods@.len() - i,
    {
        proof {
            assert(disk_mods@.take(i + 1).drop_last() =~= disk_mods@.take(i as int));
            assert(disk_mods@.take(i + 1).last() == disk_mods@[i as int]);
        }
        match plan_mod_transition(game_id, &disk_mods[i], existing, &on_disk) {
            Some(t) => {
                let ghost before = r@;
                r.push(t);
                proof {
                    assert(r@.map_values(|t: ModIdentityTransition| transition_view(t)) =~= before.map_values(
                        |t: ModIdentityTransition| transition_view(t),
                    ).push(transition_view(t)));
                }
            },
            None => {},
        }
        i += 1;
    }
    assert(disk_mods@.take(disk_mods@.len() as int) =~= disk_mods@);
    r
}

/// The first position of `key` among `keys`, or -1.
pub open spec fn first_key(keys: Seq<Seq<char>>, key: Seq<char>) -> int
    decreases keys.len(),
{
    if keys.len() == 0 {
        -1
    } else {
        let k = first_key(keys.drop_last(), key);
        if k >= 0 {
            k
        } else if keys.last() == key {
            keys.len() - 1
        } else {
            -1
        }
    }
}

/// The identity a folder is looked up by: its own, or the empty text.
pub open spec fn lookup_identity(d: DiskModEntry) -> Seq<char> {
    match d.filesystem_identity {
        Some(i) => i@,
        None => Seq::empty(),
    }
}

/// The stored mod a folder on disk updates: the first with the folder's
/// filesystem identity, else the first with its key, else the first with its
/// path ignoring ASCII case, else the first whose runtime key is the
/// folder's; -1 when there is none and the folder is new.
pub open spec fn existing_mod_for(
    rows: Seq<ReconcileModRow>,
    row_runtime_keys: Seq<Seq<char>>,
    d: DiskModEntry,
    runtime_key: Seq<char>,
) -> int {
    let by_identity = mod_with_identity(rows, lookup_identity(d));
    let by_key = first_mod_where(rows, lookup_pred(ModLookup::Key, d.folder_path_key@));
    let by_path = first_mod_where(rows, lookup_pred(ModLookup::LowerPath, d.folder_path@));
    if by_identity >= 0 {
        by_identity
    } else if by_key >= 0 {
        by_key
    } else if by_path >= 0 {
        by_path
    } else {
        first_key(row_runtime_keys, runtime_key)
    }
}

fn find_key(keys: &Vec<String>, key: &str) -> (r: Option<usize>)
    ensures
        r matches Some(k) ==> k == first_key(views(keys@), key@) && k < keys@.len(),
        r is None ==> first_key(views(keys@), key@) < 0,
{
    let mut k: usize = 0;
    while k < keys.len()
        invariant
            k <= keys@.len(),
            first_key(views(keys@).take(k as int), key@) < 0,
        decreases keys@.len() - k,
    {
        proof {
            assert(views(keys@).take(k + 1).drop_last() =~= views(keys@).take(k as int));
            assert(views(keys@).take(k + 1).last() == keys@[k as int]@);
        }
        if str_eq(keys[k].as_str(), key) {
            proof {
                lemma_first_key_prefix(views(keys@), key@, k as int + 1);
            }
            return Some(k);
        }
        k += 1;
    }
    assert(views(keys@).take(keys@.len() as int) =~= views(keys@));
    None
}

proof fn lemma_first_key_prefix(keys: Seq<Seq<char>>, key: Seq<char>, n: int)
    requires
        0 <= n <= keys.len(),
        first_key(keys.take(n), key) >= 0,
    ensures
        first_key(keys, key) == first_key(keys.take(n), key),
    decreases keys.len() - n,
{
    if n < keys.len() {
        assert(keys.take(n + 1).drop_last() =~= keys.take(n));
        lemma_first_key_prefix(keys, key, n + 1);
    } else {
        assert(keys.take(n) =~= keys);
    }
}

/// Finds the stored mod a folder on disk updates, by identity, key, path
/// ignoring ASCII case and runtime key in turn. `row_runtime_keys` holds the
/// runtime key of each stored mod, and `runtime_key` the folder's.
pub fn find_existing_mod(
    rows: &Vec<ReconcileModRow>,
    row_runtime_keys: &Vec<String>,
    d: &DiskModEntry,
    runtime_key: &str,
) -> (r: Option<usize>)
    requires
        row_runtime_keys@.len() == rows@.len(),
    ensures
        r matches Some(k) ==> k == existing_mod_for(rows@, views(row_runtime_keys@), *d, runtime_key@) && k < rows@.len(),
        r is None ==> existing_mod_for(rows@, views(row_runtime_keys@), *d, runtime_key@) < 0,
{
    let identity = match &d.filesystem_identity {
        Some(i) => i.clone(),
        None => String::new(),
    };
    proof {
        assert(identity@ == lookup_identity(*d));
    }
    if let Some(k) = find_mod_with_identity(rows, &identity) {
        return Some(k);
    }
    if let Some(k) = find_first_mod(rows, ModLookup::Key, d.folder_path_key.as_str()) {
        return Some(k);
    }
    if let Some(k) = find_first_mod(rows, ModLookup::LowerPath, d.folder_path.as_str()) {
        return Some(k);
    }
    match find_key(row_runtime_keys, runtime_key) {
        Some(k) => {
            proof {
                assert(views(row_runtime_keys@).len() == rows@.len());
            }
            Some(k)
        },
        None => None,
    }
}

/// The stored state of a mod found for a folder: the row as it was before
/// the identity transitions staged it, when they did, else the row itself.
/// Gives the position of that earlier row among `originals`.
pub fn staged_original(originals: &Vec<ReconcileModRow>, row_id: &str) -> (r: Option<usize>)
    ensures
        r matches Some(k) ==> k == first_mod_where(originals@, lookup_pred(ModLookup::Id, row_id@)) && k < originals@.len(),
        r is None ==> first_mod_where(originals@, lookup_pred(ModLookup::Id, row_id@)) < 0,
{
    find_first_mod(originals, ModLookup::Id, row_id)
}

/// The first stored object whose filesystem identity is `identity`, or -1.
pub open spec fn object_with_identity(rows: Seq<ReconcileObjectRow>, identity: Seq<char>) -> int
    decreases rows.len(),
{
    if rows.len() == 0 {
        -1
    } else {
        let k = object_with_identity(rows.drop_last(), identity);
        if k >= 0 {
            k
        } else if rows.last().filesystem_identity matches Some(i) && i@ == identity {
            rows.len() - 1
        } else {
            -1
        }
    }
}

/// The first stored object whose key is `key`, or -1.
pub open spec fn object_with_key(rows: Seq<ReconcileObjectRow>, key: Seq<char>) -> int
    decreases rows.len(),
{
    if rows.len() == 0 {
        -1
    } else {
        let k = object_with_key(rows.drop_last(), key);
        if k >= 0 {
            k
        } else if rows.last().folder_path_key@ == key {
            rows.len() - 1
        } else {
            -1
        }
    }
}

/// The identities the object folders on disk carry.
pub open spec fn disk_object_identities(objects: Seq<DiskObjectEntry>) -> Seq<Seq<char>>
    decreases objects.len(),
{
    if objects.len() == 0 {
        Seq::empty()
    } else {
        match objects.last().filesystem_identity {
            Some(i) => disk_object_identities(objects.drop_last()).push(i@),
            None => disk_object_identities(objects.drop_last()),
        }
    }
}

/// The transition an object folder on disk causes, as (source id, displaced
/// id): the stored object with the folder's identity is staged when its key
/// differs from the folder's, and the stored object holding that key is
/// displaced unless it is the source or its own identity is still on disk.
pub open spec fn object_transition(
    d: DiskObjectEntry,
    rows: Seq<ReconcileObjectRow>,
    on_disk: Seq<Seq<char>>,
) -> Option<(Seq<char>, Option<Seq<char>>)> {
    match d.filesystem_identity {
        None => None,
        Some(identity) => {
            let s = object_with_identity(rows, identity@);
            if s < 0 || rows[s].folder_path_key@ == d.folder_path_key@ {
                None
            } else {
                let o = object_with_key(rows, d.folder_path_key@);
                let gone = if o >= 0 && displaced(
                    rows[o].id@,
                    rows[s].id@,
                    crate::reconcile::authority::text_opt(rows[o].filesystem_identity),
                    on_disk,
                ) {
                    Some(rows[o].id@)
                } else {
                    None
                };
                Some((rows[s].id@, gone))
            }
        },
    }
}

/// The object transitions of the folders on disk, in folder order.
pub open spec fn object_transitions(
    objects: Seq<DiskObjectEntry>,
    rows: Seq<ReconcileObjectRow>,
    on_disk: Seq<Seq<char>>,
) -> Seq<(Seq<char>, Option<Seq<char>>)>
    decreases objects.len(),
{
    if objects.len() == 0 {
        Seq::empty()
    } else {
        let t = object_transitions(objects.drop_last(), rows, on_disk);
        match object_transition(objects.last(), rows, on_disk) {
            Some(x) => t.push(x),
            None => t,
        }
    }
}

/// The moves of stored objects to the folders that now carry their
/// identity, as (stored path, path on disk), where the path changed.
pub open spec fn object_moves(objects: Seq<DiskObjectEntry>, rows: Seq<ReconcileObjectRow>) -> Seq<(Seq<char>, Seq<char>)>
    decreases objects.len(),
{
    if objects.len() == 0 {
        Seq::empty()
    } else {
        let t = object_moves(objects.drop_last(), rows);
        let d = objects.last();
        match d.filesystem_identity {
            Some(identity) => {
                let s = object_with_identity(rows, identity@);
                if s >= 0 && rows[s].folder_path@ != d.folder_path@ {
                    t.push((rows[s].folder_path@, d.folder_path@))
                } else {
                    t
                }
            },
            None => t,
        }
    }
}

/// One stored object whose folder carries its identity under another key,
/// and the stored object that folder's key displaces, if any.
#[derive(Debug, Clone, PartialEq, Eq)]
pub struct ObjectIdentityTransition {
    pub source_id: String,
    pub displaced_id: Option<String>,
}

/// What the object side of the identity transitions does: the transitions
/// in folder order, the ids of the objects staged (each once), and the
/// path moves whose collection references follow them.
pub struct ObjectTransitionPlan {
    pub transitions: Vec<ObjectIdentityTransition>,
    pub staged_ids: Vec<String>,
    pub moves: Vec<(String, String)>,
}

pub open spec fn object_transition_view(t: ObjectIdentityTransition) -> (Seq<char>, Option<Seq<char>>) {
    (t.source_id@, crate::reconcile::authority::text_opt(t.displaced_id))
}

pub open spec fn move_view(m: (String, String)) -> (Seq<char>, Seq<char>) {
    (m.0@, m.1@)
}

fn find_object_with_identity(rows: &Vec<ReconcileObjectRow>, identity: &String) -> (r: Option<usize>)
    ensures
        r matches Some(k) ==> k == object_with_identity(rows@, identity@) && k < rows@.len(),
        r is None ==> object_with_identity(rows@, identity@) < 0,
{
    let mut k: usize = 0;
    while k < rows.len()
        invariant
            k <= rows@.len(),
            object_with_identity(rows@.take(k as int), identity@) < 0,
        decreases rows@.len() - k,
    {
        proof {
            assert(rows@.take(k + 1).drop_last() =~= rows@.take(k as int));
            assert(rows@.take(k + 1).last() == rows@[k as int]);
        }
        let hit = match &rows[k].filesystem_identity {
            Some(i) => *i == *identity,
            None => false,
        };
        if hit {
            proof {
                lemma_object_identity_prefix(rows@, identity@, k as int + 1);
            }
            return Some(k);
        }
        k += 1;
    }
    assert(rows@.take(rows@.len() as int) =~= rows@);
    None
}

proof fn lemma_object_identity_prefix(rows: Seq<ReconcileObjectRow>, identity: Seq<char>, n: int)
    requires
        0 <= n <= rows.len(),
        object_with_identity(rows.take(n), identity) >= 0,
    ensures
        object_with_identity(rows, identity) == object_with_identity(rows.take(n), identity),
    decreases rows.len() - n,
{
    if n < rows.len() {
        assert(rows.take(n + 1).drop_last() =~= rows.take(n));
        lemma_object_identity_prefix(rows, identity, n + 1);
    } else {
        assert(rows.take(n) =~= rows);
    }
}

fn find_object_with_key(rows: &Vec<ReconcileObjectRow>, key: &String) -> (r: Option<usize>)
    ensures
        r matches Some(k) ==> k == object_with_key(rows@, key@) && k < rows@.len(),
        r is None ==> object_with_key(rows@, key@) < 0,
{
    let mut k: usize = 0;
    while k < rows.len()
        invariant
            k <= rows@.len(),
            object_with_key(rows@.take(k as int), key@) < 0,
        decreases rows@.len() - k,
    {
        proof {
            assert(rows@.take(k + 1).drop_last() =~= rows@.take(k as int));
            assert(rows@.take(k + 1).last() == rows@[k as int]);
        }
        if rows[k].folder_path_key == *key {
            proof {
                lemma_object_key_prefix(rows@, key@, k as int + 1);
            }
            return Some(k);
        }
        k += 1;
    }
    assert(rows@.take(rows@.len() as int) =~= rows@);
    None
}

proof fn lemma_object_key_prefix(rows: Seq<ReconcileObjectRow>, key: Seq<char>, n: int)
    requires
        0 <= n <= rows.len(),
        object_with_key(rows.take(n), key) >= 0,
    ensures
        object_with_key(rows, key) == object_with_key(rows.take(n), key),
    decreases rows.len() - n,
{
    if n < rows.len() {
        assert(rows.take(n + 1).drop_last() =~= rows.take(n));
        lemma_object_key_prefix(rows, key, n + 1);
    } else {
        assert(rows.take(n) =~= rows);
    }
}

fn collect_object_identities(objects: &Vec<DiskObjectEntry>) -> (r: Vec<String>)
    ensures
        views(r@) == disk_object_identities(objects@),
{
    let mut r: Vec<String> = Vec::new();
    let mut i: usize = 0;
    while i < objects.len()
        invariant
            i <= objects@.len(),
            views(r@) == disk_object_identities(objects@.take(i as int)),
        decreases objects@.len() - i,
    {
        proof {
            assert(objects@.take(i + 1).drop_last() =~= objects@.take(i as int));
            assert(objects@.take(i + 1).last() == objects@[i as int]);
        }
        match &objects[i].filesystem_identity {
            Some(id) => {
                let ghost before = r@;
                let c = id.clone();
                r.push(c);
                proof {
                    crate::sets::lemma_views_push(before, c);
                }
            },
            None => {},
        }
        i += 1;
    }
    assert(objects@.take(objects@.len() as int) =~= objects@);
    r
}

/// The ids among `ts`' sources.
pub open spec fn source_ids(ts: Seq<(Seq<char>, Option<Seq<char>>)>) -> Set<Seq<char>> {
    Set::new(|id: Seq<char>| exists|k: int| 0 <= k < ts.len() && (#[trigger] ts[k]).0 == id)
}

/// The object side of the identity transitions: which stored objects move
/// to the folders that now carry their identity (and are staged, each
/// once), which stored objects those folders' keys displace, and which
/// object paths moved, so that collection references can follow.
pub fn plan_object_identity_transitions(
    disk_objects: &Vec<DiskObjectEntry>,
    existing: &Vec<ReconcileObjectRow>,
) -> (r: ObjectTransitionPlan)
    ensures
        r.transitions@.map_values(|t: ObjectIdentityTransition| object_transition_view(t)) == object_transitions(
            disk_objects@,
            existing@,
            disk_object_identities(disk_objects@),
        ),
        distinct(r.staged_ids@),
        text_set(r.staged_ids@) == source_ids(
            object_transitions(disk_objects@, existing@, disk_object_identities(disk_objects@)),
        ),
        r.moves@.map_values(|m: (String, String)| move_view(m)) == object_moves(disk_objects@, existing@),
{
    let on_disk = collect_object_identities(disk_objects);
    let ghost ids = views(on_disk@);
    let mut transitions: Vec<ObjectIdentityTransition> = Vec::new();
    let mut staged: Vec<String> = Vec::new();
    let mut moves: Vec<(String, String)> = Vec::new();
    let mut i: usize = 0;
    while i < disk_objects.len()
        invariant
            i <= disk_objects@.len(),
            ids == views(on_disk@),
            ids == disk_object_identities(disk_objects@),
            transitions@.map_values(|t: ObjectIdentityTransition| object_transition_view(t)) == object_transitions(
                disk_objects@.take(i as int),
                existing@,
                ids,
            ),
            distinct(staged@),
            text_set(staged@) == source_ids(object_transitions(disk_objects@.take(i as int), existing@, ids)),
            moves@.map_values(|m: (String, String)| move_view(m)) == object_moves(disk_objects@.take(i as int), existing@),
        decreases disk_objects@.len() - i,
    {
        let ghost prefix = disk_objects@.take(i as int);
        let ghost before_t = object_transitions(prefix, existing@, ids);
        proof {
            assert(disk_objects@.take(i + 1).drop_last() =~= prefix);
            assert(disk_objects@.take(i + 1).last() == disk_objects@[i as int]);
        }
        let d = &disk_objects[i];
        if let Some(identity) = &d.filesystem_identity {
            if let Some(s) = find_object_with_identity(existing, identity) {
                if existing[s].folder_path != d.folder_path {
                    let ghost before = moves@;
                    moves.push((existing[s].folder_path.clone(), d.folder_path.clone()));
                    proof {
                        assert(moves@.map_values(|m: (String, String)| move_view(m)) =~= before.map_values(
                            |m: (String, String)| move_view(m),
                        ).push(move_view(moves@.last())));
                    }
                }
                if existing[s].folder_path_key != d.folder_path_key {
                    let displaced_id = match find_object_with_key(existing, &d.folder_path_key) {
                        Some(o) => {
                            if occupant_is_displaced(&existing[o].id, &existing[s].id, &existing[o].filesystem_identity, &on_disk) {
                                Some(existing[o].id.clone())
                            } else {
                                None
                            }
                        },
                        None => None,
                    };
                    let t = ObjectIdentityTransition { source_id: existing[s].id.clone(), displaced_id };
                    let ghost before = transitions@;
                    let ghost tv = object_transition_view(t);
                    transitions.push(t);
                    insert_distinct(&mut staged, existing[s].id.clone());
                    proof {
                        assert(transitions@.map_values(|t: ObjectIdentityTransition| object_transition_view(t)) =~= before.map_values(
                            |t: ObjectIdentityTransition| object_transition_view(t),
                        ).push(tv));
                        let after_t = before_t.push(tv);
                        assert(source_ids(after_t) =~= source_ids(before_t).insert(tv.0)) by {
                            assert forall|id: Seq<char>| source_ids(after_t).contains(id) implies source_ids(before_t).insert(tv.0).contains(id) by {
                                let k = choose|k: int| 0 <= k < after_t.len() && (#[trigger] after_t[k]).0 == id;
                                if k < before_t.len() {
                                    assert(after_t[k] == before_t[k]);
                                }
                            }
                            assert forall|id: Seq<char>| source_ids(before_t).insert(tv.0).contains(id) implies source_ids(after_t).contains(id) by {
                                if id == tv.0 {
                                    assert(after_t[before_t.len() as int].0 == id);
                                } else {
                                    let k = choose|k: int| 0 <= k < before_t.len() && (#[trigger] before_t[k]).0 == id;
                                    assert(after_t[k] == before_t[k]);
                                }
                            }
                        }
                    }
                }
            }
        }
        i += 1;
    }
    assert(disk_objects@.take(disk_objects@.len() as int) =~= disk_objects@);
    ObjectTransitionPlan { transitions, staged_ids: staged, moves }
}

/// The moves of stored mods to the folders that now carry their identity,
/// as (stored path, path on disk), where the path changed.
pub open spec fn mod_moves(mods: Seq<DiskModEntry>, rows: Seq<ReconcileModRow>) -> Seq<(Seq<char>, Seq<char>)>
    decreases mods.len(),
{
    if mods.len() == 0 {
        Seq::empty()
    } else {
        let t = mod_moves(mods.drop_last(), rows);
        let d = mods.last();
        match d.filesystem_identity {
            Some(identity) => {
                let s = mod_with_identity(rows, identity@);
                if s >= 0 && rows[s].folder_path@ != d.folder_path@ {
                    t.push((rows[s].folder_path@, d.folder_path@))
                } else {
                    t
                }
            },
            None => t,
        }
    }
}

/// The mod paths that moved with their identity, in folder order, so that
/// collection references can follow them.
pub fn plan_mod_moves(disk_mods: &Vec<DiskModEntry>, existing: &Vec<ReconcileModRow>) -> (r: Vec<(String, String)>)
    ensures
        r@.map_values(|m: (String, String)| move_view(m)) == mod_moves(disk_mods@, existing@),
{
    let mut moves: Vec<(String, String)> = Vec::new();
    let mut i: usize = 0;
    while i < disk_mods.len()
        invariant
            i <= disk_mods@.len(),
            moves@.map_values(|m: (String, String)| move_view(m)) == mod_moves(disk_mods@.take(i as int), existing@),
        decreases disk_mods@.len() - i,
    {
        proof {
            assert(disk_mods@.take(i + 1).drop_last() =~= disk_mods@.take(i as int));
            assert(disk_mods@.take(i + 1).last() == disk_mods@[i as int]);
        }
        let d = &disk_mods[i];
        if let Some(identity) = &d.filesystem_identity {
            if let Some(s) = find_mod_with_identity(existing, identity) {
                if existing[s].folder_path != d.folder_path {
                    let ghost before = moves@;
                    moves.push((existing[s].folder_path.clone(), d.folder_path.clone()));
                    proof {
                        assert(moves@.map_values(|m: (String, String)| move_view(m)) =~= before.map_values(
                            |m: (String, String)| move_view(m),
                        ).push(move_view(moves@.last())));
                    }
                }
            }
        }
        i += 1;
    }
    assert(disk_mods@.take(disk_mods@.len() as int) =~= disk_mods@);
    moves
}

} // verus!
