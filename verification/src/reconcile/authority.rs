//! Watcher-backed authority over a game's mods folder.
//!
//! A watcher session that has seen every change since the last full
//! reconcile lets later passes scan only the top-level roots it saw change.
//! Any gap (a new session, lost events, a change to the folder itself or
//! outside it, too many changed roots, another folder) makes the next pass
//! a full one. The folder's identity on disk is read by the caller and
//! handed in.

use vstd::prelude::*;
use vstd::hash_map::StringHashMap;

use crate::order::{sort_texts, stable_sort};
use crate::path_rules::{component_prefix, components, has_component_prefix, join_path, joined, path_components};
use crate::reconcile::request::{canonical_key, canonical_path_key};
use crate::reconcile::runtime_sync::clone_strings;
use crate::reconcile::types::{status_applied, DiskReconcileResult, DiskReconcileScanScope, DiskReconcileStatus};
use crate::sets::{contains_text, lemma_views_push, views};
use crate::text::{from_chars, to_chars};

verus! {

/// Beyond this many changed roots a session stops tracking them and asks
/// for a full pass.
pub open spec fn max_scoped_dirty_roots() -> int {
    512
}

/// The watcher evidence kept for one game.
#[derive(Debug)]
pub struct GameAuthorityState {
    pub root_key: String,
    pub root_identity: Option<String>,
    pub watcher_session: u64,
    pub event_generation: u64,
    pub reconcile_revision: u64,
    /// Top-level roots changed since the last accepted reconcile, each once.
    pub dirty_roots: Vec<String>,
    pub dropped_events: bool,
    pub trusted: bool,
}

/// How the next pass must catch up with what the watcher saw.
#[derive(Debug, Clone, PartialEq, Eq)]
pub enum AuthorityCatchUp {
    Clean { reconcile_revision: u64, observed_generation: u64 },
    Scoped { changed_paths: Vec<String>, observed_generation: u64 },
    Full { observed_generation: u64 },
}

/// Proof, taken before an internal mutation, that the authority was clean.
#[derive(Debug)]
pub struct TrustedAuthorityEvidence {
    game_id: String,
    mods_root: String,
    root_key: String,
    root_identity: String,
    watcher_session: u64,
    observed_generation: u64,
}

impl TrustedAuthorityEvidence {
    pub closed spec fn game(&self) -> Seq<char> {
        self.game_id@
    }

    pub closed spec fn root(&self) -> Seq<char> {
        self.mods_root@
    }

    pub closed spec fn key(&self) -> Seq<char> {
        self.root_key@
    }

    pub closed spec fn identity(&self) -> Seq<char> {
        self.root_identity@
    }

    pub closed spec fn session(&self) -> u64 {
        self.watcher_session
    }

    pub closed spec fn generation(&self) -> u64 {
        self.observed_generation
    }
}

/// The text of an optional string.
pub open spec fn text_opt(o: Option<String>) -> Option<Seq<char>> {
    match o {
        Some(s) => Some(s@),
        None => None,
    }
}

/// The fields of an authority state, by value.
pub open spec fn authority_is(
    s: GameAuthorityState,
    root_key: Seq<char>,
    root_identity: Option<Seq<char>>,
    watcher_session: u64,
    event_generation: u64,
    reconcile_revision: u64,
    dirty: Seq<Seq<char>>,
    dropped: bool,
    trusted: bool,
) -> bool {
    &&& s.root_key@ == root_key
    &&& text_opt(s.root_identity) == root_identity
    &&& s.watcher_session == watcher_session
    &&& s.event_generation == event_generation
    &&& s.reconcile_revision == reconcile_revision
    &&& views(s.dirty_roots@) == dirty
    &&& s.dropped_events == dropped
    &&& s.trusted == trusted
}

// The fields of a possibly missing entry; a missing entry reads as the
// empty state.
pub open spec fn key_of(e: Option<GameAuthorityState>) -> Seq<char> {
    match e { Some(s) => s.root_key@, None => Seq::<char>::empty() }
}

pub open spec fn identity_of(e: Option<GameAuthorityState>) -> Option<Seq<char>> {
    match e { Some(s) => text_opt(s.root_identity), None => None }
}

pub open spec fn session_of(e: Option<GameAuthorityState>) -> u64 {
    match e { Some(s) => s.watcher_session, None => 0 }
}

pub open spec fn generation_of(e: Option<GameAuthorityState>) -> u64 {
    match e { Some(s) => s.event_generation, None => 0 }
}

pub open spec fn revision_of(e: Option<GameAuthorityState>) -> u64 {
    match e { Some(s) => s.reconcile_revision, None => 0 }
}

pub open spec fn dirty_of(e: Option<GameAuthorityState>) -> Seq<Seq<char>> {
    match e { Some(s) => views(s.dirty_roots@), None => Seq::<Seq<char>>::empty() }
}

pub open spec fn dropped_of(e: Option<GameAuthorityState>) -> bool {
    match e { Some(s) => s.dropped_events, None => false }
}

pub open spec fn trusted_of(e: Option<GameAuthorityState>) -> bool {
    match e { Some(s) => s.trusted, None => false }
}

/// Adds one, staying at the maximum.
pub open spec fn bump(x: u64) -> u64 {
    if x < u64::MAX { (x + 1) as u64 } else { x }
}

/// `path` lies strictly inside `mods_root`.
pub open spec fn lies_inside(mods_root: Seq<char>, path: Seq<char>) -> bool {
    component_prefix(path, mods_root) && components(path).len() > components(mods_root).len()
}

/// The top-level root a changed path lies under, unless it is hidden.
pub open spec fn affected_root(mods_root: Seq<char>, path: Seq<char>) -> Option<Seq<char>> {
    if lies_inside(mods_root, path) {
        let first = components(path)[components(mods_root).len() as int];
        if first.len() == 0 || first[0] == '.' {
            None
        } else {
            Some(joined(mods_root, first))
        }
    } else {
        None
    }
}

/// One observed path: its root is marked changed (too many marked roots
/// give up on tracking); a path at or outside the folder is a gap. The
/// third component says that tracking stopped.
pub open spec fn event_step(mods_root: Seq<char>, dirty: Seq<Seq<char>>, dropped: bool, path: Seq<char>) -> (Seq<Seq<char>>, bool, bool) {
    match affected_root(mods_root, path) {
        Some(root) => {
            let marked = if dirty.contains(root) { dirty } else { dirty.push(root) };
            if marked.len() > max_scoped_dirty_roots() {
                (Seq::<Seq<char>>::empty(), true, true)
            } else {
                (marked, dropped, false)
            }
        },
        None => (dirty, dropped || !lies_inside(mods_root, path), false),
    }
}

/// The observed paths, one after the other, until tracking stops.
pub open spec fn scan_events(mods_root: Seq<char>, dirty: Seq<Seq<char>>, dropped: bool, paths: Seq<Seq<char>>) -> (Seq<Seq<char>>, bool, bool)
    decreases paths.len(),
{
    if paths.len() == 0 {
        (dirty, dropped, false)
    } else {
        let before = scan_events(mods_root, dirty, dropped, paths.drop_last());
        if before.2 {
            before
        } else {
            event_step(mods_root, before.0, before.1, paths.last())
        }
    }
}

/// `dirty` without `root`.
pub open spec fn without(dirty: Seq<Seq<char>>, root: Seq<char>) -> Seq<Seq<char>>
    decreases dirty.len(),
{
    if dirty.len() == 0 {
        dirty
    } else if dirty.last() == root {
        without(dirty.drop_last(), root)
    } else {
        without(dirty.drop_last(), root).push(dirty.last())
    }
}

/// `dirty` without the roots of the reconciled paths.
pub open spec fn remove_roots(mods_root: Seq<char>, dirty: Seq<Seq<char>>, paths: Seq<Seq<char>>) -> Seq<Seq<char>>
    decreases paths.len(),
{
    if paths.len() == 0 {
        dirty
    } else {
        let before = remove_roots(mods_root, dirty, paths.drop_last());
        match affected_root(mods_root, paths.last()) {
            Some(root) => without(before, root),
            None => before,
        }
    }
}

/// The authority of this exact folder is complete and clean.
pub open spec fn clean_authority(e: Option<GameAuthorityState>, root_key: Seq<char>, root_identity: Option<Seq<char>>) -> bool {
    &&& e is Some
    &&& key_of(e) == root_key
    &&& root_identity is Some
    &&& identity_of(e) == root_identity
    &&& trusted_of(e)
    &&& !dropped_of(e)
    &&& dirty_of(e).len() == 0
}

/// Continuity of this session over this exact folder is proved: no gap
/// since the last accepted full reconcile.
pub open spec fn continuity_proved(e: Option<GameAuthorityState>, root_key: Seq<char>, root_identity: Option<Seq<char>>, watcher_session: u64) -> bool {
    &&& e is Some
    &&& session_of(e) == watcher_session
    &&& key_of(e) == root_key
    &&& root_identity is Some
    &&& identity_of(e) == root_identity
    &&& trusted_of(e)
    &&& !dropped_of(e)
}

/// What `begin_authority_session` does.
pub open spec fn begin_session_step(pre: WatcherAuthority, post: WatcherAuthority, game: Seq<char>, mods_root: Seq<char>, root_identity: Option<Seq<char>>, watcher_session: u64) -> bool {
    let e = pre.entry(game);
    &&& watcher_session < session_of(e) ==> post.entry(game) == e
    &&& watcher_session >= session_of(e) ==> (post.entry(game) matches Some(n)
        && authority_is(n, canonical_key(mods_root), root_identity, watcher_session, 0, 0, Seq::empty(), true, false))
    &&& forall|g: Seq<char>| g != game ==> post.entry(g) == pre.entry(g)
}

/// What `handoff_authority_session` does.
pub open spec fn handoff_step(pre: WatcherAuthority, post: WatcherAuthority, game: Seq<char>, mods_root: Seq<char>, root_identity: Option<Seq<char>>, covered_session: u64, watcher_session: u64, r: bool) -> bool {
    let e = pre.entry(game);
    &&& r == (e is Some && watcher_session > covered_session && session_of(e) == covered_session
        && key_of(e) == canonical_key(mods_root) && root_identity is Some && identity_of(e) == root_identity)
    &&& r ==> (post.entry(game) matches Some(n) && authority_is(n, key_of(e), identity_of(e),
        watcher_session, generation_of(e), revision_of(e), dirty_of(e), dropped_of(e), trusted_of(e)))
    &&& !r ==> post.entry(game) == e
    &&& forall|g: Seq<char>| g != game ==> post.entry(g) == pre.entry(g)
}

/// What `observe_authority_event` does.
pub open spec fn observe_step(pre: WatcherAuthority, post: WatcherAuthority, game: Seq<char>, watcher_session: u64, mods_root: Seq<char>, root_identity: Option<Seq<char>>, paths: Seq<Seq<char>>, events_lost: bool) -> bool {
    let e = pre.entry(game);
    let key = canonical_key(mods_root);
    let reset = watcher_session > session_of(e) || key_of(e) != key;
    let s_key = if reset { key } else { key_of(e) };
    let s_identity = if reset { root_identity } else { identity_of(e) };
    let s_session = if reset { watcher_session } else { session_of(e) };
    let s_generation = if reset { 0 } else { generation_of(e) };
    let s_revision = if reset { 0 } else { revision_of(e) };
    let s_dirty = if reset { Seq::<Seq<char>>::empty() } else { dirty_of(e) };
    let s_dropped = if reset { true } else { dropped_of(e) };
    let s_trusted = if reset { false } else { trusted_of(e) };
    let scanned = scan_events(mods_root, s_dirty, s_dropped || events_lost, paths);
    &&& watcher_session < session_of(e) ==> post.entry(game) == e
    &&& watcher_session >= session_of(e) ==> (post.entry(game) matches Some(n)
        && authority_is(n, s_key, s_identity, s_session, bump(s_generation), s_revision, scanned.0, scanned.1, s_trusted))
    &&& forall|g: Seq<char>| g != game ==> post.entry(g) == pre.entry(g)
}

/// What `mark_authority_reconciled` does.
pub open spec fn reconciled_step(
    pre: WatcherAuthority,
    post: WatcherAuthority,
    game: Seq<char>,
    mods_root: Seq<char>,
    root_identity: Option<Seq<char>>,
    watcher_session: u64,
    observed_generation: u64,
    status: DiskReconcileStatus,
    scan_scope: DiskReconcileScanScope,
    reconcile_revision: u64,
    changed_paths: Seq<Seq<char>>,
    r: bool,
) -> bool {
    let e = pre.entry(game);
    let dirty = match scan_scope {
        DiskReconcileScanScope::Full => Seq::<Seq<char>>::empty(),
        DiskReconcileScanScope::Scoped => remove_roots(mods_root, dirty_of(e), changed_paths),
        DiskReconcileScanScope::Unscanned => dirty_of(e),
    };
    let dropped = if scan_scope == DiskReconcileScanScope::Full { false } else { dropped_of(e) };
    &&& r == (e is Some && session_of(e) == watcher_session && generation_of(e) == observed_generation
        && key_of(e) == canonical_key(mods_root) && root_identity is Some
        && identity_of(e) == root_identity && status_applied(status))
    &&& r ==> (post.entry(game) matches Some(n) && authority_is(n, key_of(e), identity_of(e),
        session_of(e), generation_of(e), reconcile_revision, dirty, dropped, true))
    &&& !r ==> post.entry(game) == e
    &&& forall|g: Seq<char>| g != game ==> post.entry(g) == pre.entry(g)
}

/// The key under which a mods folder's authority is kept.
pub fn authority_root_key(mods_root: &str) -> (r: String)
    ensures
        r@ == canonical_key(mods_root@),
{
    canonical_path_key(mods_root)
}

/// Whether `path` lies strictly inside `mods_root`.
pub fn path_lies_inside(mods_root: &str, path: &str) -> (r: bool)
    ensures
        r == lies_inside(mods_root@, path@),
{
    let base = to_chars(mods_root);
    let p = to_chars(path);
    if !has_component_prefix(p.as_slice(), base.as_slice()) {
        return false;
    }
    let base_comps = path_components(base.as_slice());
    let comps = path_components(p.as_slice());
    comps.len() > base_comps.len()
}

/// The top-level root a changed path lies under, unless it is hidden.
pub fn affected_top_root(mods_root: &str, path: &str) -> (r: Option<String>)
    ensures
        r matches Some(x) ==> affected_root(mods_root@, path@) == Some(x@),
        r is None ==> affected_root(mods_root@, path@) is None,
{
    let base = to_chars(mods_root);
    let p = to_chars(path);
    if !has_component_prefix(p.as_slice(), base.as_slice()) {
        return None;
    }
    let base_comps = path_components(base.as_slice());
    let comps = path_components(p.as_slice());
    if comps.len() <= base_comps.len() {
        return None;
    }
    let first = &comps[base_comps.len()];
    assert(first@ == components(path@)[components(mods_root@).len() as int]);
    if first.len() == 0 || first[0] == '.' {
        return None;
    }
    let full = join_path(base.as_slice(), first.as_slice());
    Some(from_chars(full.as_slice()))
}

/// `v` without the strings equal to `s`.
pub fn without_text(v: &Vec<String>, s: &String) -> (r: Vec<String>)
    ensures
        views(r@) == without(views(v@), s@),
{
    let mut r: Vec<String> = Vec::new();
    let mut i: usize = 0;
    while i < v.len()
        invariant
            i <= v@.len(),
            views(r@) == without(views(v@).take(i as int), s@),
        decreases v@.len() - i,
    {
        proof {
            assert(views(v@).take(i + 1).drop_last() =~= views(v@).take(i as int));
            assert(views(v@).take(i + 1).last() == v@[i as int]@);
        }
        if v[i] != *s {
            let ghost before = r@;
            r.push(v[i].clone());
            proof {
                lemma_views_push(before, r@.last());
            }
        }
        i += 1;
    }
    assert(views(v@).take(v@.len() as int) =~= views(v@));
    r
}

impl GameAuthorityState {
    pub fn duplicate(&self) -> (r: Self)
        ensures
            authority_is(r, self.root_key@, text_opt(self.root_identity), self.watcher_session, self.event_generation,
                self.reconcile_revision, views(self.dirty_roots@), self.dropped_events, self.trusted),
    {
        let dirty = clone_strings(self.dirty_roots.as_slice());
        assert(views(dirty@) =~= views(self.dirty_roots@));
        GameAuthorityState {
            root_key: self.root_key.clone(),
            root_identity: match &self.root_identity {
                Some(s) => Some(s.clone()),
                None => None,
            },
            watcher_session: self.watcher_session,
            event_generation: self.event_generation,
            reconcile_revision: self.reconcile_revision,
            dirty_roots: dirty,
            dropped_events: self.dropped_events,
            trusted: self.trusted,
        }
    }

    /// A session that has not proved continuity yet.
    fn started(root_key: String, root_identity: Option<String>, watcher_session: u64) -> (r: Self)
        ensures
            authority_is(r, root_key@, text_opt(root_identity), watcher_session, 0, 0, Seq::empty(), true, false),
    {
        let r = GameAuthorityState {
            root_key,
            root_identity,
            watcher_session,
            event_generation: 0,
            reconcile_revision: 0,
            dirty_roots: Vec::new(),
            dropped_events: true,
            trusted: false,
        };
        assert(views(r.dirty_roots@) =~= Seq::<Seq<char>>::empty());
        r
    }

    /// The empty state of a game never seen.
    fn empty() -> (r: Self)
        ensures
            authority_is(r, Seq::empty(), None, 0, 0, 0, Seq::empty(), false, false),
    {
        let r = GameAuthorityState {
            root_key: String::new(),
            root_identity: None,
            watcher_session: 0,
            event_generation: 0,
            reconcile_revision: 0,
            dirty_roots: Vec::new(),
            dropped_events: false,
            trusted: false,
        };
        assert(views(r.dirty_roots@) =~= Seq::<Seq<char>>::empty());
        r
    }
}

fn same_identity(a: &Option<String>, b: &Option<String>) -> (r: bool)
    ensures
        r == (text_opt(*a) == text_opt(*b)),
{
    match (a, b) {
        (Some(x), Some(y)) => *x == *y,
        (None, None) => true,
        _ => false,
    }
}

/// The watcher authority of every game.
pub struct WatcherAuthority {
    games: StringHashMap<GameAuthorityState>,
}

impl WatcherAuthority {
    /// The authority kept for `game`, if any.
    pub closed spec fn entry(&self, game: Seq<char>) -> Option<GameAuthorityState> {
        if self.games@.contains_key(game) {
            Some(self.games@[game])
        } else {
            None
        }
    }

    pub fn new() -> (r: Self)
        ensures
            forall|g: Seq<char>| r.entry(g) is None,
    {
        WatcherAuthority { games: StringHashMap::new() }
    }

    fn current(&self, game_id: &str) -> (r: GameAuthorityState)
        ensures
            authority_is(r, key_of(self.entry(game_id@)), identity_of(self.entry(game_id@)), session_of(self.entry(game_id@)),
                generation_of(self.entry(game_id@)), revision_of(self.entry(game_id@)), dirty_of(self.entry(game_id@)),
                dropped_of(self.entry(game_id@)), trusted_of(self.entry(game_id@))),
    {
        match self.games.get(game_id) {
            Some(state) => state.duplicate(),
            None => GameAuthorityState::empty(),
        }
    }

    fn put(&mut self, game_id: &str, state: GameAuthorityState)
        ensures
            final(self).entry(game_id@) == Some(state),
            forall|g: Seq<char>| g != game_id@ ==> final(self).entry(g) == old(self).entry(g),
    {
        self.games.insert(String::from_str(game_id), state);
    }
}

impl WatcherAuthority {
    /// Trusted internal mutations may use regional validation only while the
    /// watcher-backed authority for this exact folder is complete and clean.
    pub fn trusted_regional_mutation_allowed(&self, game_id: &str, mods_root: &str, root_identity: &Option<String>) -> (r: bool)
        ensures
            r == clean_authority(self.entry(game_id@), canonical_key(mods_root@), text_opt(*root_identity)),
    {
        let key = canonical_path_key(mods_root);
        match self.games.get(game_id) {
            Some(state) => {
                state.root_key == key && root_identity.is_some() && same_identity(&state.root_identity, root_identity)
                    && state.trusted && !state.dropped_events && state.dirty_roots.len() == 0
            },
            None => false,
        }
    }

    /// Starts watcher coverage without continuity proof: a full catch-up is
    /// needed before the session becomes authoritative. An older session
    /// than the one kept changes nothing.
    pub fn begin_authority_session(&mut self, game_id: &str, mods_root: &str, root_identity: Option<String>, watcher_session: u64)
        ensures
            begin_session_step(*old(self), *final(self), game_id@, mods_root@, text_opt(root_identity), watcher_session),
    {
        let current = self.current(game_id);
        if watcher_session < current.watcher_session {
            return;
        }
        let key = canonical_path_key(mods_root);
        self.put(game_id, GameAuthorityState::started(key, root_identity, watcher_session));
    }

    /// Hands authority to a new watcher only when the old and new watchers
    /// overlapped and the caller names the exact session that was covering.
    pub fn handoff_authority_session(
        &mut self,
        game_id: &str,
        mods_root: &str,
        root_identity: &Option<String>,
        covered_session: u64,
        watcher_session: u64,
    ) -> (r: bool)
        ensures
            handoff_step(*old(self), *final(self), game_id@, mods_root@, text_opt(*root_identity), covered_session, watcher_session, r),
    {
        let key = canonical_path_key(mods_root);
        let mut state = match self.games.get(game_id) {
            Some(state) => state.duplicate(),
            None => return false,
        };
        if watcher_session <= covered_session || state.watcher_session != covered_session || state.root_key != key
            || root_identity.is_none() || !same_identity(&state.root_identity, root_identity) {
            return false;
        }
        state.watcher_session = watcher_session;
        self.put(game_id, state);
        true
    }

    /// Marks the authority stale: the next pass must be a full one. Another
    /// folder, or the same folder under another identity, starts afresh.
    pub fn invalidate_authority(&mut self, game_id: &str, mods_root: &str, root_identity: Option<String>)
        ensures
            ({
                let e = old(self).entry(game_id@);
                let same_root = key_of(e) == canonical_key(mods_root@) && identity_of(e) == text_opt(root_identity);
                &&& !same_root ==> (final(self).entry(game_id@) matches Some(n)
                    && authority_is(n, canonical_key(mods_root@), text_opt(root_identity), 0, 0, 0, Seq::empty(), true, false))
                &&& same_root ==> (final(self).entry(game_id@) matches Some(n)
                    && authority_is(n, key_of(e), identity_of(e), session_of(e), bump(generation_of(e)), revision_of(e),
                        dirty_of(e), true, false))
            }),
            forall|g: Seq<char>| g != game_id@ ==> final(self).entry(g) == old(self).entry(g),
    {
        let key = canonical_path_key(mods_root);
        let mut state = self.current(game_id);
        if state.root_key != key || !same_identity(&state.root_identity, &root_identity) {
            self.put(game_id, GameAuthorityState::started(key, root_identity, 0));
            return;
        }
        state.event_generation = state.event_generation.saturating_add(1);
        state.dropped_events = true;
        state.trusted = false;
        self.put(game_id, state);
    }

    /// The evidence an internal mutation carries when the authority of this
    /// folder and session is complete and clean.
    pub fn trusted_internal_mutation_evidence(
        &self,
        game_id: &str,
        mods_root: &str,
        root_identity: &Option<String>,
        watcher_session: u64,
    ) -> (r: Option<TrustedAuthorityEvidence>)
        ensures
            ({
                let e = self.entry(game_id@);
                &&& r is Some <==> (clean_authority(e, canonical_key(mods_root@), text_opt(*root_identity))
                    && session_of(e) == watcher_session)
                &&& r matches Some(ev) ==> ev.game() == game_id@ && ev.root() == mods_root@ && ev.key() == key_of(e)
                    && Some(ev.identity()) == text_opt(*root_identity) && ev.session() == watcher_session
                    && ev.generation() == generation_of(e)
            }),
    {
        let key = canonical_path_key(mods_root);
        let identity = match root_identity {
            Some(identity) => identity,
            None => return None,
        };
        match self.games.get(game_id) {
            Some(state) => {
                if state.root_key == key && same_identity(&state.root_identity, root_identity)
                    && state.watcher_session == watcher_session && state.trusted && !state.dropped_events
                    && state.dirty_roots.len() == 0 {
                    Some(TrustedAuthorityEvidence {
                        game_id: String::from_str(game_id),
                        mods_root: String::from_str(mods_root),
                        root_key: key,
                        root_identity: identity.clone(),
                        watcher_session,
                        observed_generation: state.event_generation,
                    })
                } else {
                    None
                }
            },
            None => None,
        }
    }

    /// The event generation of the game's authority in this session.
    pub fn authority_event_generation(&self, game_id: &str, watcher_session: u64) -> (r: Option<u64>)
        ensures
            r == (if self.entry(game_id@) is Some && session_of(self.entry(game_id@)) == watcher_session {
                Some(generation_of(self.entry(game_id@)))
            } else {
                None
            }),
    {
        match self.games.get(game_id) {
            Some(state) => if state.watcher_session == watcher_session {
                Some(state.event_generation)
            } else {
                None
            },
            None => None,
        }
    }
}

impl WatcherAuthority {
    /// Records watcher evidence before any suppression or batching, so that
    /// no filesystem write can keep a stale clean state: a newer session or
    /// another folder starts afresh, every event moves the generation, and
    /// each path marks its top-level root changed or, at or outside the
    /// folder, makes a gap.
    pub fn observe_authority_event(
        &mut self,
        game_id: &str,
        watcher_session: u64,
        mods_root: &str,
        root_identity: Option<String>,
        paths: &Vec<String>,
        events_lost: bool,
    )
        ensures
            observe_step(*old(self), *final(self), game_id@, watcher_session, mods_root@, text_opt(root_identity),
                views(paths@), events_lost),
    {
        let key = canonical_path_key(mods_root);
        let current = self.current(game_id);
        if watcher_session < current.watcher_session {
            return;
        }
        let mut state = if watcher_session > current.watcher_session || current.root_key != key {
            GameAuthorityState::started(key, root_identity, watcher_session)
        } else {
            current
        };
        state.event_generation = state.event_generation.saturating_add(1);
        state.dropped_events = state.dropped_events || events_lost;
        let ghost d0 = views(state.dirty_roots@);
        let ghost dr0 = state.dropped_events;
        let ghost s0 = state;
        let mut stopped = false;
        let mut i: usize = 0;
        while i < paths.len()
            invariant
                i <= paths@.len(),
                state.root_key == s0.root_key,
                state.root_identity == s0.root_identity,
                state.watcher_session == s0.watcher_session,
                state.event_generation == s0.event_generation,
                state.reconcile_revision == s0.reconcile_revision,
                state.trusted == s0.trusted,
                scan_events(mods_root@, d0, dr0, views(paths@).take(i as int))
                    == (views(state.dirty_roots@), state.dropped_events, stopped),
            decreases paths@.len() - i,
        {
            proof {
                assert(views(paths@).take(i + 1).drop_last() =~= views(paths@).take(i as int));
                assert(views(paths@).take(i + 1).last() == paths@[i as int]@);
            }
            if !stopped {
                match affected_top_root(mods_root, paths[i].as_str()) {
                    Some(root) => {
                        if !contains_text(&state.dirty_roots, &root) {
                            let ghost before = state.dirty_roots@;
                            state.dirty_roots.push(root);
                            proof {
                                lemma_views_push(before, state.dirty_roots@.last());
                            }
                        }
                        if state.dirty_roots.len() > 512 {
                            state.dirty_roots = Vec::new();
                            state.dropped_events = true;
                            stopped = true;
                            assert(views(state.dirty_roots@) =~= Seq::<Seq<char>>::empty());
                        }
                    },
                    None => {
                        if !path_lies_inside(mods_root, paths[i].as_str()) {
                            state.dropped_events = true;
                        }
                    },
                }
            }
            i += 1;
        }
        assert(views(paths@).take(paths@.len() as int) =~= views(paths@));
        self.put(game_id, state);
    }

    /// How the next pass must catch up: clean, scoped to the changed roots
    /// (sorted), or full whenever continuity is not proved.
    pub fn authority_catch_up(&self, game_id: &str, mods_root: &str, root_identity: &Option<String>, watcher_session: u64) -> (r: AuthorityCatchUp)
        ensures
            ({
                let e = self.entry(game_id@);
                let proved = continuity_proved(e, canonical_key(mods_root@), text_opt(*root_identity), watcher_session);
                &&& !proved ==> r == AuthorityCatchUp::Full { observed_generation: generation_of(e) }
                &&& proved && dirty_of(e).len() == 0 ==> r == AuthorityCatchUp::Clean {
                    reconcile_revision: revision_of(e),
                    observed_generation: generation_of(e),
                }
                &&& proved && dirty_of(e).len() > 0 ==> (r matches AuthorityCatchUp::Scoped { changed_paths, observed_generation }
                    && views(changed_paths@) == stable_sort(dirty_of(e), false) && observed_generation == generation_of(e))
            }),
    {
        let key = canonical_path_key(mods_root);
        match self.games.get(game_id) {
            None => AuthorityCatchUp::Full { observed_generation: 0 },
            Some(state) => {
                let observed_generation = state.event_generation;
                if state.watcher_session != watcher_session || state.root_key != key || root_identity.is_none()
                    || !same_identity(&state.root_identity, root_identity) || !state.trusted || state.dropped_events {
                    AuthorityCatchUp::Full { observed_generation }
                } else if state.dirty_roots.len() == 0 {
                    AuthorityCatchUp::Clean { reconcile_revision: state.reconcile_revision, observed_generation }
                } else {
                    AuthorityCatchUp::Scoped { changed_paths: sort_texts(&state.dirty_roots, false), observed_generation }
                }
            },
        }
    }

    /// Accepts an applied reconcile as authority only if no watcher event
    /// arrived after its input was observed: a full pass clears every
    /// changed root and gap, a scoped pass clears the roots it covered.
    pub fn mark_authority_reconciled(
        &mut self,
        game_id: &str,
        mods_root: &str,
        root_identity: &Option<String>,
        watcher_session: u64,
        observed_generation: u64,
        result: &DiskReconcileResult,
        changed_paths: &Vec<String>,
    ) -> (r: bool)
        ensures
            reconciled_step(*old(self), *final(self), game_id@, mods_root@, text_opt(*root_identity), watcher_session,
                observed_generation, result.status, result.scan_scope, result.reconcile_revision, views(changed_paths@), r),
    {
        let key = canonical_path_key(mods_root);
        let mut state = match self.games.get(game_id) {
            Some(state) => state.duplicate(),
            None => return false,
        };
        if state.watcher_session != watcher_session || state.event_generation != observed_generation
            || state.root_key != key || root_identity.is_none() || !same_identity(&state.root_identity, root_identity)
            || !result.status.applied() {
            return false;
        }
        match result.scan_scope {
            DiskReconcileScanScope::Full => {
                state.dirty_roots = Vec::new();
                state.dropped_events = false;
                assert(views(state.dirty_roots@) =~= Seq::<Seq<char>>::empty());
            },
            DiskReconcileScanScope::Scoped => {
                let ghost d0 = views(state.dirty_roots@);
                let ghost s0 = state;
                let mut i: usize = 0;
                while i < changed_paths.len()
                    invariant
                        i <= changed_paths@.len(),
                        state.root_key == s0.root_key,
                        state.root_identity == s0.root_identity,
                        state.watcher_session == s0.watcher_session,
                        state.event_generation == s0.event_generation,
                        state.reconcile_revision == s0.reconcile_revision,
                        state.trusted == s0.trusted,
                        state.dropped_events == s0.dropped_events,
                        views(state.dirty_roots@) == remove_roots(mods_root@, d0, views(changed_paths@).take(i as int)),
                    decreases changed_paths@.len() - i,
                {
                    proof {
                        assert(views(changed_paths@).take(i + 1).drop_last() =~= views(changed_paths@).take(i as int));
                        assert(views(changed_paths@).take(i + 1).last() == changed_paths@[i as int]@);
                    }
                    match affected_top_root(mods_root, changed_paths[i].as_str()) {
                        Some(root) => {
                            state.dirty_roots = without_text(&state.dirty_roots, &root);
                        },
                        None => {},
                    }
                    i += 1;
                }
                assert(views(changed_paths@).take(changed_paths@.len() as int) =~= views(changed_paths@));
            },
            DiskReconcileScanScope::Unscanned => {},
        }
        state.reconcile_revision = result.reconcile_revision;
        state.trusted = true;
        self.put(game_id, state);
        true
    }

    /// Accepts the reconcile that followed a trusted internal mutation, if
    /// the folder still has the identity the evidence was taken under.
    pub fn mark_trusted_internal_mutation_reconciled(
        &mut self,
        evidence: &TrustedAuthorityEvidence,
        root_identity: &Option<String>,
        result: &DiskReconcileResult,
        changed_paths: &Vec<String>,
    ) -> (r: bool)
        ensures
            ({
                let e = old(self).entry(evidence.game());
                let dirty = match result.scan_scope {
                    DiskReconcileScanScope::Full => Seq::<Seq<char>>::empty(),
                    DiskReconcileScanScope::Scoped => remove_roots(evidence.root(), dirty_of(e), views(changed_paths@)),
                    DiskReconcileScanScope::Unscanned => dirty_of(e),
                };
                let dropped = if result.scan_scope == DiskReconcileScanScope::Full { false } else { dropped_of(e) };
                &&& r == (canonical_key(evidence.root()) == evidence.key() && text_opt(*root_identity) == Some(evidence.identity())
                    && e is Some && session_of(e) == evidence.session() && generation_of(e) == evidence.generation()
                    && key_of(e) == evidence.key() && identity_of(e) == Some(evidence.identity())
                    && status_applied(result.status))
                &&& r ==> (final(self).entry(evidence.game()) matches Some(n) && authority_is(n, key_of(e), identity_of(e),
                    session_of(e), generation_of(e), result.reconcile_revision, dirty, dropped, true))
                &&& !r ==> final(self).entry(evidence.game()) == e
            }),
            forall|g: Seq<char>| g != evidence.game() ==> final(self).entry(g) == old(self).entry(g),
    {
        let key = canonical_path_key(evidence.mods_root.as_str());
        let still_same = match root_identity {
            Some(identity) => *identity == evidence.root_identity,
            None => false,
        };
        if key != evidence.root_key || !still_same {
            return false;
        }
        self.mark_authority_reconciled(
            evidence.game_id.as_str(),
            evidence.mods_root.as_str(),
            root_identity,
            evidence.watcher_session,
            evidence.observed_generation,
            result,
            changed_paths,
        )
    }
}

} // verus!

verus! {

/// A marked root stays marked, and a gap stays a gap, while later paths are
/// observed; tracking only stops by declaring a gap.
proof fn lemma_scan_keeps_evidence(mods_root: Seq<char>, dirty: Seq<Seq<char>>, dropped: bool, paths: Seq<Seq<char>>)
    ensures
        ({
            let r = scan_events(mods_root, dirty, dropped, paths);
            &&& r.2 ==> r.1
            &&& dropped ==> r.1
            &&& forall|x: Seq<char>| dirty.contains(x) ==> r.1 || r.0.contains(x)
            &&& forall|i: int| 0 <= i < paths.len() && (#[trigger] affected_root(mods_root, paths[i])) is Some
                ==> r.1 || r.0.contains(affected_root(mods_root, paths[i])->0)
        }),
    decreases paths.len(),
{
    if paths.len() > 0 {
        let rest = paths.drop_last();
        lemma_scan_keeps_evidence(mods_root, dirty, dropped, rest);
        let b = scan_events(mods_root, dirty, dropped, rest);
        let r = scan_events(mods_root, dirty, dropped, paths);
        assert forall|i: int| 0 <= i < paths.len() && (#[trigger] affected_root(mods_root, paths[i])) is Some
            implies r.1 || r.0.contains(affected_root(mods_root, paths[i])->0) by {
            if i < paths.len() - 1 {
                assert(rest[i] == paths[i]);
            }
            if !b.2 {
                match affected_root(mods_root, paths.last()) {
                    Some(root) => {
                        let marked = if b.0.contains(root) { b.0 } else { b.0.push(root) };
                        if i < paths.len() - 1 && b.0.contains(affected_root(mods_root, paths[i])->0) {
                            let x = affected_root(mods_root, paths[i])->0;
                            let k = choose|k: int| 0 <= k < b.0.len() && b.0[k] == x;
                            assert(marked[k] == x);
                        }
                        if i == paths.len() - 1 && !b.0.contains(root) {
                            assert(marked[marked.len() - 1] == root);
                        }
                    },
                    None => {},
                }
            }
        }
        assert forall|x: Seq<char>| dirty.contains(x) implies r.1 || r.0.contains(x) by {
            if !b.2 && b.0.contains(x) {
                match affected_root(mods_root, paths.last()) {
                    Some(root) => {
                        let marked = if b.0.contains(root) { b.0 } else { b.0.push(root) };
                        let k = choose|k: int| 0 <= k < b.0.len() && b.0[k] == x;
                        assert(marked[k] == x);
                    },
                    None => {},
                }
            }
        }
    }
}

/// A new watcher session is never authoritative by itself: until a
/// reconcile is accepted in it, every catch-up is a full pass.
pub proof fn law_new_session_requires_a_full_pass(
    pre: WatcherAuthority,
    post: WatcherAuthority,
    game: Seq<char>,
    mods_root: Seq<char>,
    root_identity: Option<Seq<char>>,
    watcher_session: u64,
    key: Seq<char>,
    identity: Option<Seq<char>>,
    session: u64,
)
    requires
        begin_session_step(pre, post, game, mods_root, root_identity, watcher_session),
        watcher_session >= session_of(pre.entry(game)),
    ensures
        !continuity_proved(post.entry(game), key, identity, session),
{
}

/// An accepted full reconcile makes the authority clean: the next catch-up
/// in the same session and folder has nothing left to scan, and reports the
/// revision of that reconcile.
pub proof fn law_full_reconcile_makes_authority_clean(
    pre: WatcherAuthority,
    post: WatcherAuthority,
    game: Seq<char>,
    mods_root: Seq<char>,
    root_identity: Option<Seq<char>>,
    watcher_session: u64,
    observed_generation: u64,
    status: DiskReconcileStatus,
    reconcile_revision: u64,
    changed_paths: Seq<Seq<char>>,
)
    requires
        reconciled_step(pre, post, game, mods_root, root_identity, watcher_session, observed_generation, status,
            DiskReconcileScanScope::Full, reconcile_revision, changed_paths, true),
    ensures
        continuity_proved(post.entry(game), canonical_key(mods_root), root_identity, watcher_session),
        clean_authority(post.entry(game), canonical_key(mods_root), root_identity),
        revision_of(post.entry(game)) == reconcile_revision,
{
}

/// A reconcile whose input was observed before a watcher event of the same
/// session is never accepted: the newer evidence stays for the next pass.
pub proof fn law_event_after_observation_blocks_acceptance(
    s0: WatcherAuthority,
    s1: WatcherAuthority,
    s2: WatcherAuthority,
    game: Seq<char>,
    mods_root: Seq<char>,
    root_identity: Option<Seq<char>>,
    watcher_session: u64,
    paths: Seq<Seq<char>>,
    events_lost: bool,
    status: DiskReconcileStatus,
    scan_scope: DiskReconcileScanScope,
    reconcile_revision: u64,
    changed_paths: Seq<Seq<char>>,
    accepted: bool,
)
    requires
        s0.entry(game) is Some,
        session_of(s0.entry(game)) == watcher_session,
        key_of(s0.entry(game)) == canonical_key(mods_root),
        generation_of(s0.entry(game)) < u64::MAX,
        observe_step(s0, s1, game, watcher_session, mods_root, root_identity, paths, events_lost),
        reconciled_step(s1, s2, game, mods_root, root_identity, watcher_session, generation_of(s0.entry(game)),
            status, scan_scope, reconcile_revision, changed_paths, accepted),
    ensures
        !accepted,
        s2.entry(game) == s1.entry(game),
{
}

/// A watcher event on a root never leaves the authority clean: the root is
/// among those the next scoped pass scans, or the next pass is full.
pub proof fn law_observed_root_is_rescanned(
    pre: WatcherAuthority,
    post: WatcherAuthority,
    game: Seq<char>,
    watcher_session: u64,
    mods_root: Seq<char>,
    root_identity: Option<Seq<char>>,
    paths: Seq<Seq<char>>,
    events_lost: bool,
    i: int,
)
    requires
        observe_step(pre, post, game, watcher_session, mods_root, root_identity, paths, events_lost),
        watcher_session >= session_of(pre.entry(game)),
        0 <= i < paths.len(),
        affected_root(mods_root, paths[i]) is Some,
    ensures
        dropped_of(post.entry(game)) || dirty_of(post.entry(game)).contains(affected_root(mods_root, paths[i])->0),
        !clean_authority(post.entry(game), key_of(post.entry(game)), identity_of(post.entry(game))),
{
    let e = pre.entry(game);
    let reset = watcher_session > session_of(e) || key_of(e) != canonical_key(mods_root);
    let s_dirty = if reset { Seq::<Seq<char>>::empty() } else { dirty_of(e) };
    let s_dropped = if reset { true } else { dropped_of(e) };
    lemma_scan_keeps_evidence(mods_root, s_dirty, s_dropped || events_lost, paths);
    assert(affected_root(mods_root, paths[i]) is Some);
}

/// A handoff transfers authority rather than re-earning it: the new
/// session is exactly as proved as the covered one was.
pub proof fn law_handoff_transfers_continuity(
    pre: WatcherAuthority,
    post: WatcherAuthority,
    game: Seq<char>,
    mods_root: Seq<char>,
    root_identity: Option<Seq<char>>,
    covered_session: u64,
    watcher_session: u64,
)
    requires
        handoff_step(pre, post, game, mods_root, root_identity, covered_session, watcher_session, true),
    ensures
        continuity_proved(post.entry(game), canonical_key(mods_root), root_identity, watcher_session)
            == continuity_proved(pre.entry(game), canonical_key(mods_root), root_identity, covered_session),
        dirty_of(post.entry(game)) == dirty_of(pre.entry(game)),
        !continuity_proved(post.entry(game), canonical_key(mods_root), root_identity, covered_session),
{
}

} // verus!
