//! Onboarding indexing sessions: which games a session still holds, the
//! background status each session shows, and the snapshot progress it
//! reports while games are prepared.

use vstd::prelude::*;

use crate::error::AppError;
use crate::reconcile::snapshot::{DiskProjectionError, OnboardingDiscoveryPhase, OnboardingDiscoveryProgress};
use crate::reconcile::types::{
    OnboardingIndexingBackgroundGameStatus, OnboardingIndexingBackgroundPhase, OnboardingIndexingBackgroundStatus,
    OnboardingIndexingSnapshotPhase, OnboardingIndexingSnapshotProgress,
};
use crate::sets::{contains_text, distinct, insert_distinct, text_set, views};
use crate::text::concat_str;

verus! {

/// How long an unstarted session lives, in ms.
pub open spec fn session_ttl_ms() -> int {
    900000
}

/// How often heartbeat progress may be reported, in ms.
pub open spec fn snapshot_interval_ms() -> int {
    250
}

/// Calls `uuid::Uuid::new_v4` and writes the id as text, which the crate
/// formats hyphenated: 36 characters, lowercase hexadecimal digits with a
/// hyphen at positions 8, 13, 18 and 23. Which id comes is left unsaid: it
/// is random.
#[verifier::external_body]
fn new_session_id() -> (r: String)
    ensures
        r@.len() == 36,
        forall|i: int| 0 <= i < 36 ==> (if i == 8 || i == 13 || i == 18 || i == 23 {
            #[trigger] r@[i] == '-'
        } else {
            crate::digest::is_hex_digit(r@[i])
        }),
{
    uuid::Uuid::new_v4().to_string()
}

/// One preparation session: the games it still holds and whether its
/// background indexing started.
#[derive(Debug)]
pub struct OnboardingSessionRecord {
    pub session_id: String,
    pub created_at_ms: u64,
    pub pending_game_ids: Vec<String>,
    pub background_started: bool,
}

/// The sessions, and the background status of each session.
#[derive(Debug)]
pub struct OnboardingIndexingSessionStore {
    pub sessions: Vec<OnboardingSessionRecord>,
    pub background_statuses: Vec<OnboardingIndexingBackgroundStatus>,
}

/// The index of the first status of `session_id`, or -1.
pub open spec fn status_index(statuses: Seq<OnboardingIndexingBackgroundStatus>, session_id: Seq<char>) -> int
    decreases statuses.len(),
{
    if statuses.len() == 0 {
        -1
    } else if statuses[0].session_id@ == session_id {
        0
    } else {
        let k = status_index(statuses.drop_first(), session_id);
        if k < 0 {
            -1
        } else {
            k + 1
        }
    }
}

/// The index of the first status that holds `game_id`, or -1.
pub open spec fn first_status_with_game(statuses: Seq<OnboardingIndexingBackgroundStatus>, game_id: Seq<char>) -> int
    decreases statuses.len(),
{
    if statuses.len() == 0 {
        -1
    } else if game_status_index(statuses[0].games@, game_id) >= 0 {
        0
    } else {
        let k = first_status_with_game(statuses.drop_first(), game_id);
        if k < 0 {
            -1
        } else {
            k + 1
        }
    }
}

/// The index of the first game status of `game_id`, or -1.
pub open spec fn game_status_index(games: Seq<OnboardingIndexingBackgroundGameStatus>, game_id: Seq<char>) -> int
    decreases games.len(),
{
    if games.len() == 0 {
        -1
    } else if games[0].game_id@ == game_id {
        0
    } else {
        let k = game_status_index(games.drop_first(), game_id);
        if k < 0 {
            -1
        } else {
            k + 1
        }
    }
}

/// The number of games whose projection is applied.
pub open spec fn ready_count(games: Seq<OnboardingIndexingBackgroundGameStatus>) -> nat
    decreases games.len(),
{
    if games.len() == 0 {
        0
    } else {
        ready_count(games.drop_last()) + if games.last().phase == OnboardingIndexingBackgroundPhase::Ready {
            1nat
        } else {
            0nat
        }
    }
}

proof fn lemma_ready_count_bound(games: Seq<OnboardingIndexingBackgroundGameStatus>)
    ensures
        ready_count(games) <= games.len(),
    decreases games.len(),
{
    if games.len() > 0 {
        lemma_ready_count_bound(games.drop_last());
    }
}

fn find_status(statuses: &Vec<OnboardingIndexingBackgroundStatus>, session_id: &str) -> (r: Option<usize>)
    ensures
        r matches Some(k) ==> k == status_index(statuses@, session_id@) && k < statuses@.len(),
        r is None ==> status_index(statuses@, session_id@) < 0,
{
    let mut k: usize = 0;
    assert(statuses@.skip(0) =~= statuses@);
    while k < statuses.len()
        invariant
            k <= statuses@.len(),
            status_index(statuses@, session_id@) == if status_index(statuses@.skip(k as int), session_id@) < 0 { -1 } else { status_index(statuses@.skip(k as int), session_id@) + k },
        decreases statuses@.len() - k,
    {
        proof {
            let t = statuses@.skip(k as int);
            assert(t.drop_first() =~= statuses@.skip(k + 1));
            assert(t[0] == statuses@[k as int]);
        }
        if crate::text::str_eq(statuses[k].session_id.as_str(), session_id) {
            return Some(k);
        }
        k += 1;
    }
    assert(statuses@.skip(k as int).len() == 0);
    None
}

fn find_game_status(games: &Vec<OnboardingIndexingBackgroundGameStatus>, game_id: &str) -> (r: Option<usize>)
    ensures
        r matches Some(k) ==> k == game_status_index(games@, game_id@) && k < games@.len(),
        r is None ==> game_status_index(games@, game_id@) < 0,
{
    let mut k: usize = 0;
    assert(games@.skip(0) =~= games@);
    while k < games.len()
        invariant
            k <= games@.len(),
            game_status_index(games@, game_id@) == if game_status_index(games@.skip(k as int), game_id@) < 0 { -1 } else { game_status_index(games@.skip(k as int), game_id@) + k },
        decreases games@.len() - k,
    {
        proof {
            let t = games@.skip(k as int);
            assert(t.drop_first() =~= games@.skip(k + 1));
            assert(t[0] == games@[k as int]);
        }
        if crate::text::str_eq(games[k].game_id.as_str(), game_id) {
            return Some(k);
        }
        k += 1;
    }
    assert(games@.skip(k as int).len() == 0);
    None
}

fn count_ready(games: &Vec<OnboardingIndexingBackgroundGameStatus>) -> (r: u64)
    ensures
        r == ready_count(games@),
{
    let mut n: u64 = 0;
    let mut i: usize = 0;
    while i < games.len()
        invariant
            i <= games@.len(),
            n == ready_count(games@.take(i as int)),
        decreases games@.len() - i,
    {
        proof {
            assert(games@.take(i + 1).drop_last() =~= games@.take(i as int));
            assert(games@.take(i + 1).last() == games@[i as int]);
            lemma_ready_count_bound(games@.take(i as int));
        }
        if games[i].phase == OnboardingIndexingBackgroundPhase::Ready {
            n = n + 1;
        }
        i += 1;
    }
    assert(games@.take(games@.len() as int) =~= games@);
    n
}

/// Two statuses hold the same session, counts and games.
pub open spec fn same_status(a: OnboardingIndexingBackgroundStatus, b: OnboardingIndexingBackgroundStatus) -> bool {
    a.session_id == b.session_id && a.completed_games == b.completed_games && a.total_games == b.total_games
        && a.games@ == b.games@
}

/// A copy of a background status.
pub fn copy_status(s: &OnboardingIndexingBackgroundStatus) -> (r: OnboardingIndexingBackgroundStatus)
    ensures
        same_status(r, *s),
{
    let mut games: Vec<OnboardingIndexingBackgroundGameStatus> = Vec::new();
    let mut i: usize = 0;
    while i < s.games.len()
        invariant
            i <= s.games@.len(),
            games@ =~= s.games@.take(i as int),
        decreases s.games@.len() - i,
    {
        games.push(OnboardingIndexingBackgroundGameStatus { game_id: s.games[i].game_id.clone(), phase: s.games[i].phase });
        i += 1;
    }
    assert(s.games@.take(s.games@.len() as int) =~= s.games@);
    OnboardingIndexingBackgroundStatus {
        session_id: s.session_id.clone(),
        completed_games: s.completed_games,
        total_games: s.total_games,
        games,
    }
}

/// A status after one game moves to `phase`: that game's phase changes and
/// the completed count is recounted.
pub open spec fn status_after(
    s: OnboardingIndexingBackgroundStatus,
    k: int,
    phase: OnboardingIndexingBackgroundPhase,
    games: Seq<OnboardingIndexingBackgroundGameStatus>,
) -> bool {
    &&& games.len() == s.games@.len()
    &&& games[k].game_id == s.games@[k].game_id
    &&& games[k].phase == phase
    &&& forall|j: int| 0 <= j < games.len() && j != k ==> games[j] == s.games@[j]
}

pub open spec fn session_missing_message() -> Seq<char> {
    "Onboarding indexing session was not found"@
}

pub open spec fn game_not_in_session_message(game_id: Seq<char>) -> Seq<char> {
    "Game '"@ + game_id + "' is not available in this onboarding indexing session"@
}

pub open spec fn no_resumed_games_message() -> Seq<char> {
    "At least one resumed onboarding game is required"@
}

pub open spec fn resumed_ids_message() -> Seq<char> {
    "Resumed onboarding game IDs must be unique and non-empty"@
}

pub open spec fn no_queued_games_message() -> Seq<char> {
    "At least one queued onboarding game is required"@
}

pub open spec fn queued_ids_message() -> Seq<char> {
    "Background onboarding game IDs must be unique"@
}

pub open spec fn already_started_message() -> Seq<char> {
    "Background onboarding indexing has already started"@
}

pub open spec fn games_mismatch_message() -> Seq<char> {
    "Background onboarding games must match the remaining session games"@
}

/// The background phase a snapshot phase shows.
pub open spec fn background_phase_of(phase: OnboardingIndexingSnapshotPhase) -> OnboardingIndexingBackgroundPhase {
    match phase {
        OnboardingIndexingSnapshotPhase::Metadata => OnboardingIndexingBackgroundPhase::Preparing,
        OnboardingIndexingSnapshotPhase::Classifying => OnboardingIndexingBackgroundPhase::Preparing,
        OnboardingIndexingSnapshotPhase::Ready => OnboardingIndexingBackgroundPhase::Prepared,
        OnboardingIndexingSnapshotPhase::Rechecking => OnboardingIndexingBackgroundPhase::Applying,
    }
}

/// A session expired: its background never started and its time ran out.
pub open spec fn session_expired(s: OnboardingSessionRecord, now_ms: u64) -> bool {
    !s.background_started && now_ms >= s.created_at_ms + session_ttl_ms()
}

/// Whether the game ids are non-empty and pairwise different.
fn unique_ids(game_ids: &Vec<String>) -> (r: bool)
    ensures
        r == distinct(game_ids@),
{
    let d = crate::sets::distinct_texts(game_ids);
    proof {
        views(d@).unique_seq_to_set();
        views(game_ids@).lemma_cardinality_of_set();
        if d.len() == game_ids.len() {
            views(game_ids@).lemma_no_dup_set_cardinality();
        } else if distinct(game_ids@) {
            views(game_ids@).unique_seq_to_set();
        }
    }
    d.len() == game_ids.len()
}

fn any_empty(game_ids: &Vec<String>) -> (r: bool)
    ensures
        r == exists|i: int| 0 <= i < game_ids@.len() && (#[trigger] game_ids@[i])@.len() == 0,
{
    let mut i: usize = 0;
    while i < game_ids.len()
        invariant
            i <= game_ids@.len(),
            forall|k: int| 0 <= k < i ==> (#[trigger] game_ids@[k])@.len() != 0,
        decreases game_ids@.len() - i,
    {
        if game_ids[i].as_str().is_empty() {
            return true;
        }
        i += 1;
    }
    false
}

impl OnboardingIndexingSessionStore {
    pub fn new() -> (r: Self)
        ensures
            r.sessions@.len() == 0,
            r.background_statuses@.len() == 0,
    {
        OnboardingIndexingSessionStore { sessions: Vec::new(), background_statuses: Vec::new() }
    }

    /// Moves one game of one session to `phase` and gives the updated status.
    pub fn set_background_phase(
        &mut self,
        session_id: &str,
        game_id: &str,
        phase: OnboardingIndexingBackgroundPhase,
    ) -> (r: Result<OnboardingIndexingBackgroundStatus, AppError>)
        ensures
            final(self).sessions == old(self).sessions,
            status_index(old(self).background_statuses@, session_id@) < 0 ==> (r matches Err(AppError::NotFound(m))
                && m@ == session_missing_message()) && final(self).background_statuses == old(self).background_statuses,
            status_index(old(self).background_statuses@, session_id@) >= 0 ==> {
                let k = status_index(old(self).background_statuses@, session_id@);
                let s = old(self).background_statuses@[k];
                let g = game_status_index(s.games@, game_id@);
                &&& g < 0 ==> (r matches Err(AppError::NotFound(m)) && m@ == game_not_in_session_message(game_id@))
                    && final(self).background_statuses == old(self).background_statuses
                &&& g >= 0 ==> {
                    let n = final(self).background_statuses@[k];
                    &&& final(self).background_statuses@.len() == old(self).background_statuses@.len()
                    &&& forall|j: int| 0 <= j < old(self).background_statuses@.len() && j != k
                        ==> final(self).background_statuses@[j] == old(self).background_statuses@[j]
                    &&& n.session_id == s.session_id && n.total_games == s.total_games
                    &&& status_after(s, g, phase, n.games@)
                    &&& n.completed_games == ready_count(n.games@)
                    &&& (r matches Ok(out) && same_status(out, n))
                }
            },
    {
        let k = match find_status(&self.background_statuses, session_id) {
            None => {
                return Err(AppError::NotFound(String::from_str("Onboarding indexing session was not found")));
            },
            Some(k) => k,
        };
        let g = match find_game_status(&self.background_statuses[k].games, game_id) {
            None => {
                let a = concat_str("Game '", game_id);
                return Err(AppError::NotFound(concat_str(a.as_str(), "' is not available in this onboarding indexing session")));
            },
            Some(g) => g,
        };
        let mut status = self.background_statuses.remove(k);
        let mut game = status.games.remove(g);
        game.phase = phase;
        status.games.insert(g, game);
        status.completed_games = count_ready(&status.games);
        let result = copy_status(&status);
        self.background_statuses.insert(k, status);
        proof {
            assert(self.background_statuses@ =~= old(self).background_statuses@.update(k as int, self.background_statuses@[k as int]));
        }
        Ok(result)
    }

    /// Moves a game to the background phase its snapshot progress shows;
    /// nothing when the session or game is unknown.
    pub fn record_snapshot_progress(&mut self, progress: &OnboardingIndexingSnapshotProgress) -> (r: Option<OnboardingIndexingBackgroundStatus>)
        ensures
            final(self).sessions == old(self).sessions,
            ({
                let k = status_index(old(self).background_statuses@, progress.session_id@);
                let found = k >= 0 && game_status_index(old(self).background_statuses@[k].games@, progress.game_id@) >= 0;
                &&& !found ==> r is None && final(self).background_statuses == old(self).background_statuses
                &&& found ==> (r matches Some(n) && same_status(final(self).background_statuses@[k], n)
                    && status_after(old(self).background_statuses@[k], game_status_index(old(self).background_statuses@[k].games@, progress.game_id@), background_phase_of(progress.phase), n.games@)
                    && n.completed_games == ready_count(n.games@))
                &&& found ==> final(self).background_statuses@.len() == old(self).background_statuses@.len()
                    && final(self).background_statuses@[k].session_id == old(self).background_statuses@[k].session_id
                    && final(self).background_statuses@[k].total_games == old(self).background_statuses@[k].total_games
                    && (forall|j: int| 0 <= j < old(self).background_statuses@.len() && j != k
                        ==> final(self).background_statuses@[j] == old(self).background_statuses@[j])
            }),
    {
        let phase = match progress.phase {
            OnboardingIndexingSnapshotPhase::Metadata | OnboardingIndexingSnapshotPhase::Classifying => OnboardingIndexingBackgroundPhase::Preparing,
            OnboardingIndexingSnapshotPhase::Ready => OnboardingIndexingBackgroundPhase::Prepared,
            OnboardingIndexingSnapshotPhase::Rechecking => OnboardingIndexingBackgroundPhase::Applying,
        };
        match self.set_background_phase(progress.session_id.as_str(), progress.game_id.as_str(), phase) {
            Ok(s) => Some(s),
            Err(_) => None,
        }
    }

    /// Moves a game to `phase` in the first status that holds it.
    pub fn set_background_phase_for_game(&mut self, game_id: &str, phase: OnboardingIndexingBackgroundPhase) -> (r: Option<OnboardingIndexingBackgroundStatus>)
        ensures
            final(self).sessions == old(self).sessions,
            first_status_with_game(old(self).background_statuses@, game_id@) < 0 ==> r is None
                && final(self).background_statuses == old(self).background_statuses,
            first_status_with_game(old(self).background_statuses@, game_id@) >= 0 ==> {
                let k = first_status_with_game(old(self).background_statuses@, game_id@);
                let s = old(self).background_statuses@[k];
                let g = game_status_index(s.games@, game_id@);
                let n = final(self).background_statuses@[k];
                &&& 0 <= g
                &&& final(self).background_statuses@.len() == old(self).background_statuses@.len()
                &&& forall|j: int| 0 <= j < old(self).background_statuses@.len() && j != k
                    ==> final(self).background_statuses@[j] == old(self).background_statuses@[j]
                &&& n.session_id == s.session_id && n.total_games == s.total_games
                &&& status_after(s, g, phase, n.games@)
                &&& n.completed_games == ready_count(n.games@)
                &&& (r matches Some(out) && same_status(out, n))
            },
    {
        let mut k: usize = 0;
        assert(self.background_statuses@.skip(0) =~= self.background_statuses@);
        while k < self.background_statuses.len()
            invariant
                self.background_statuses == old(self).background_statuses,
                self.sessions == old(self).sessions,
                k <= self.background_statuses@.len(),
                first_status_with_game(self.background_statuses@, game_id@) == if first_status_with_game(
                    self.background_statuses@.skip(k as int),
                    game_id@,
                ) < 0 {
                    -1
                } else {
                    first_status_with_game(self.background_statuses@.skip(k as int), game_id@) + k
                },
            decreases self.background_statuses@.len() - k,
        {
            proof {
                assert(self.background_statuses@.skip(k as int)[0] == self.background_statuses@[k as int]);
                assert(self.background_statuses@.skip(k as int).drop_first() =~= self.background_statuses@.skip(k + 1));
            }
            let g = match find_game_status(&self.background_statuses[k].games, game_id) {
                None => {
                    k += 1;
                    continue;
                },
                Some(g) => g,
            };
            let mut status = self.background_statuses.remove(k);
            let mut game = status.games.remove(g);
            game.phase = phase;
            status.games.insert(g, game);
            status.completed_games = count_ready(&status.games);
            let result = copy_status(&status);
            self.background_statuses.insert(k, status);
            proof {
                assert(self.background_statuses@ =~= old(self).background_statuses@.update(k as int, self.background_statuses@[k as int]));
                assert(same_status(self.background_statuses@[k as int], result));
            }
            return Some(result);
        }
        proof {
            assert(self.background_statuses@.skip(k as int).len() == 0);
        }
        None
    }

    /// Registers onboarding work resumed after a restart: each game starts
    /// queued under a fresh session.
    pub fn begin_resumed_background(&mut self, game_ids: &Vec<String>) -> (r: Result<OnboardingIndexingBackgroundStatus, AppError>)
        ensures
            final(self).sessions == old(self).sessions,
            game_ids@.len() == 0 ==> (r matches Err(AppError::Validation(m)) && m@ == no_resumed_games_message())
                && final(self).background_statuses == old(self).background_statuses,
            game_ids@.len() > 0 && (!distinct(game_ids@) || exists|i: int| 0 <= i < game_ids@.len() && (#[trigger] game_ids@[i])@.len() == 0)
                ==> (r matches Err(AppError::Validation(m)) && m@ == resumed_ids_message())
                && final(self).background_statuses == old(self).background_statuses,
            game_ids@.len() > 0 && distinct(game_ids@) && (forall|i: int| 0 <= i < game_ids@.len() ==> (#[trigger] game_ids@[i])@.len() != 0)
                ==> (r matches Ok(s) && {
                    &&& s.completed_games == 0
                    &&& s.total_games == game_ids@.len()
                    &&& s.games@.len() == game_ids@.len()
                    &&& forall|i: int| 0 <= i < game_ids@.len() ==> (#[trigger] s.games@[i]).game_id == game_ids@[i]
                        && s.games@[i].phase == OnboardingIndexingBackgroundPhase::Queued
                    &&& final(self).background_statuses@.len() == old(self).background_statuses@.len() + 1
                    &&& final(self).background_statuses@.drop_last() == old(self).background_statuses@
                    &&& same_status(final(self).background_statuses@.last(), s)
                }),
    {
        if game_ids.len() == 0 {
            return Err(AppError::Validation(String::from_str("At least one resumed onboarding game is required")));
        }
        if !unique_ids(game_ids) || any_empty(game_ids) {
            return Err(AppError::Validation(String::from_str("Resumed onboarding game IDs must be unique and non-empty")));
        }
        let mut games: Vec<OnboardingIndexingBackgroundGameStatus> = Vec::new();
        let mut i: usize = 0;
        while i < game_ids.len()
            invariant
                i <= game_ids@.len(),
                games@.len() == i,
                forall|k: int| 0 <= k < i ==> (#[trigger] games@[k]).game_id == game_ids@[k]
                    && games@[k].phase == OnboardingIndexingBackgroundPhase::Queued,
            decreases game_ids@.len() - i,
        {
            games.push(OnboardingIndexingBackgroundGameStatus { game_id: game_ids[i].clone(), phase: OnboardingIndexingBackgroundPhase::Queued });
            i += 1;
        }
        let status = OnboardingIndexingBackgroundStatus {
            session_id: new_session_id(),
            completed_games: 0,
            total_games: game_ids.len() as u64,
            games,
        };
        let stored = copy_status(&status);
        let ghost before = self.background_statuses@;
        self.background_statuses.push(stored);
        assert(self.background_statuses@.drop_last() =~= before);
        Ok(status)
    }

    /// Starts background indexing of a session: the queued ids must be the
    /// session's remaining games, each once, and it starts only once.
    pub fn mark_background_started(&mut self, session_id: &str, game_ids: &Vec<String>) -> (r: Result<(), AppError>)
        ensures
            final(self).background_statuses == old(self).background_statuses,
            ({
                let k = session_index(old(self).sessions@, session_id@);
                if game_ids@.len() == 0 {
                    (r matches Err(AppError::Validation(m)) && m@ == no_queued_games_message())
                        && final(self).sessions == old(self).sessions
                } else if !distinct(game_ids@) {
                    (r matches Err(AppError::Validation(m)) && m@ == queued_ids_message())
                        && final(self).sessions == old(self).sessions
                } else if k < 0 {
                    (r matches Err(AppError::NotFound(m)) && m@ == session_missing_message())
                        && final(self).sessions == old(self).sessions
                } else if old(self).sessions@[k].background_started {
                    (r matches Err(AppError::Validation(m)) && m@ == already_started_message())
                        && final(self).sessions == old(self).sessions
                } else if text_set(old(self).sessions@[k].pending_game_ids@) != text_set(game_ids@) {
                    (r matches Err(AppError::Validation(m)) && m@ == games_mismatch_message())
                        && final(self).sessions == old(self).sessions
                } else {
                    r is Ok && final(self).sessions@ == old(self).sessions@.update(
                        k,
                        OnboardingSessionRecord { background_started: true, ..old(self).sessions@[k] },
                    )
                }
            }),
    {
        if game_ids.len() == 0 {
            return Err(AppError::Validation(String::from_str("At least one queued onboarding game is required")));
        }
        if !unique_ids(game_ids) {
            return Err(AppError::Validation(String::from_str("Background onboarding game IDs must be unique")));
        }
        let k = match find_session(&self.sessions, session_id) {
            Some(k) => k,
            None => return Err(AppError::NotFound(String::from_str("Onboarding indexing session was not found"))),
        };
        if self.sessions[k].background_started {
            return Err(AppError::Validation(String::from_str("Background onboarding indexing has already started")));
        }
        let pending = crate::sets::distinct_texts(&self.sessions[k].pending_game_ids);
        let requested = crate::sets::distinct_texts(game_ids);
        if !crate::sets::same_texts(&pending, &requested) {
            return Err(AppError::Validation(String::from_str(
                "Background onboarding games must match the remaining session games",
            )));
        }
        let mut record = self.sessions.remove(k);
        record.background_started = true;
        self.sessions.insert(k, record);
        proof {
            assert(self.sessions@ =~= old(self).sessions@.update(k as int, self.sessions@[k as int]));
        }
        Ok(())
    }

    /// Forgets a session and its background status.
    pub fn cancel(&mut self, session_id: &str) -> (r: Result<(), AppError>)
        ensures
            r is Ok,
            final(self).sessions@ == sessions_without(old(self).sessions@, session_id@),
            final(self).background_statuses@ == statuses_without(old(self).background_statuses@, session_id@),
    {
        let mut sessions: Vec<OnboardingSessionRecord> = Vec::new();
        std::mem::swap(&mut sessions, &mut self.sessions);
        self.sessions = drop_sessions(sessions, session_id);
        let mut statuses: Vec<OnboardingIndexingBackgroundStatus> = Vec::new();
        std::mem::swap(&mut statuses, &mut self.background_statuses);
        self.background_statuses = drop_statuses(statuses, session_id);
        Ok(())
    }

    /// Drops the sessions whose time ran out before their background
    /// started, with their statuses, and gives their ids in order.
    pub fn purge_expired(&mut self, now_ms: u64) -> (r: Vec<String>)
        ensures
            final(self).sessions@ == live_sessions(old(self).sessions@, now_ms),
            views(r@) == expired_ids(old(self).sessions@, now_ms),
            final(self).background_statuses@ == statuses_outside(old(self).background_statuses@, expired_ids(old(self).sessions@, now_ms)),
    {
        let ghost original = self.sessions@;
        let ghost total: usize = self.sessions.len();
        let mut input: Vec<OnboardingSessionRecord> = Vec::new();
        std::mem::swap(&mut input, &mut self.sessions);
        let mut kept: Vec<OnboardingSessionRecord> = Vec::new();
        let mut expired: Vec<String> = Vec::new();
        let mut done: usize = 0;
        assert(original.skip(0) =~= original);
        while input.len() > 0
            invariant
                input@ == original.skip(done as int),
                original.len() == total,
                done <= original.len(),
                kept@ == live_sessions(original.take(done as int), now_ms),
                views(expired@) == expired_ids(original.take(done as int), now_ms),
            decreases input@.len(),
        {
            let s = input.remove(0);
            proof {
                assert(s == original[done as int]);
                assert(original.skip(done as int).remove(0) =~= original.skip(done + 1));
                assert(original.take(done + 1).drop_last() =~= original.take(done as int));
                assert(original.take(done + 1).last() == s);
            }
            let is_expired = !s.background_started && s.created_at_ms <= u64::MAX - 900000
                && now_ms >= s.created_at_ms + 900000;
            if is_expired {
                let ghost before = expired@;
                let id = s.session_id.clone();
                expired.push(id);
                proof {
                    crate::sets::lemma_views_push(before, id);
                }
            } else {
                kept.push(s);
            }
            done += 1;
        }
        assert(original.take(original.len() as int) =~= original);
        self.sessions = kept;
        let ghost gone = views(expired@);
        let ghost old_statuses = self.background_statuses@;
        let ghost count: usize = self.background_statuses.len();
        let mut pending: Vec<OnboardingIndexingBackgroundStatus> = Vec::new();
        std::mem::swap(&mut pending, &mut self.background_statuses);
        let mut statuses: Vec<OnboardingIndexingBackgroundStatus> = Vec::new();
        let mut m: usize = 0;
        assert(old_statuses.skip(0) =~= old_statuses);
        while pending.len() > 0
            invariant
                pending@ == old_statuses.skip(m as int),
                old_statuses.len() == count,
                m <= old_statuses.len(),
                gone == views(expired@),
                statuses@ == statuses_outside(old_statuses.take(m as int), gone),
            decreases pending@.len(),
        {
            let st = pending.remove(0);
            proof {
                assert(st == old_statuses[m as int]);
                assert(old_statuses.skip(m as int).remove(0) =~= old_statuses.skip(m + 1));
                assert(old_statuses.take(m + 1).drop_last() =~= old_statuses.take(m as int));
                assert(old_statuses.take(m + 1).last() == st);
            }
            if !crate::sets::contains_text(&expired, &st.session_id) {
                statuses.push(st);
            }
            m += 1;
        }
        assert(old_statuses.take(old_statuses.len() as int) =~= old_statuses);
        self.background_statuses = statuses;
        expired
    }
}

/// The error a failed snapshot becomes.
pub fn snapshot_error(error: DiskProjectionError) -> (r: AppError)
    ensures
        match error {
            DiskProjectionError::SourceUnavailable(m) => r == AppError::Io(m),
            DiskProjectionError::Failed(m) => r == AppError::Internal(m),
        },
{
    match error {
        DiskProjectionError::SourceUnavailable(message) => AppError::Io(message),
        DiskProjectionError::Failed(message) => AppError::Internal(message),
    }
}

/// The message for a pending-game list that is not a set of real ids.
pub open spec fn pending_ids_message() -> Seq<char> {
    "Pending onboarding game IDs must be unique and non-empty"@
}

/// A pending-game list that can be stored: no id twice, none empty.
pub open spec fn pending_ids_valid(game_ids: Seq<String>) -> bool {
    &&& distinct(game_ids)
    &&& forall|i: int| 0 <= i < game_ids.len() ==> (#[trigger] game_ids[i])@.len() > 0
}

/// Checks the ids of the games that onboarding still has to index.
pub fn validate_game_ids(game_ids: &[String]) -> (r: Result<(), AppError>)
    ensures
        r is Ok <==> pending_ids_valid(game_ids@),
        r is Err ==> (r matches Err(AppError::Validation(m)) && m@ == pending_ids_message()),
{
    let mut j: usize = 0;
    while j < game_ids.len()
        invariant
            j <= game_ids@.len(),
            distinct(game_ids@.take(j as int)),
            forall|k: int| 0 <= k < j ==> (#[trigger] game_ids@[k])@.len() > 0,
        decreases game_ids@.len() - j,
    {
        if game_ids[j].as_str().is_empty() {
            return Err(AppError::Validation("Pending onboarding game IDs must be unique and non-empty".to_string()));
        }
        let mut i: usize = 0;
        while i < j
            invariant
                i <= j,
                j < game_ids@.len(),
                forall|k: int| 0 <= k < i ==> (#[trigger] game_ids@[k])@ != game_ids@[j as int]@,
            decreases j - i,
        {
            if game_ids[i] == game_ids[j] {
                proof {
                    assert(views(game_ids@)[i as int] == views(game_ids@)[j as int]);
                }
                return Err(AppError::Validation("Pending onboarding game IDs must be unique and non-empty".to_string()));
            }
            i += 1;
        }
        proof {
            let before = game_ids@.take(j as int);
            assert(game_ids@.take(j + 1) =~= before.push(game_ids@[j as int]));
            crate::sets::lemma_views_push(before, game_ids@[j as int]);
            assert forall|k: int| 0 <= k < views(before).len() implies views(before)[k] != game_ids@[j as int]@ by {
                assert(views(before)[k] == game_ids@[k]@);
            }
            crate::sets::lemma_push_distinct(views(before), game_ids@[j as int]@);
        }
        j += 1;
    }
    assert(game_ids@.take(game_ids@.len() as int) =~= game_ids@);
    Ok(())
}

/// Some changed path lies outside the mods folder.
pub open spec fn has_unmapped_path(paths: Seq<String>, mods_path: Seq<char>) -> bool {
    exists|i: int| 0 <= i < paths.len() && !crate::path_rules::component_prefix((#[trigger] paths[i])@, mods_path)
}

/// Whether a raw watcher saw a path outside the mods folder, which forces a
/// full pass.
pub fn paths_contain_unmapped_path(paths: &Vec<String>, mods_path: &str) -> (r: bool)
    ensures
        r == has_unmapped_path(paths@, mods_path@),
{
    let base = crate::text::to_chars(mods_path);
    let mut i: usize = 0;
    while i < paths.len()
        invariant
            i <= paths@.len(),
            base@ == mods_path@,
            forall|k: int| 0 <= k < i ==> crate::path_rules::component_prefix((#[trigger] paths@[k])@, mods_path@),
        decreases paths@.len() - i,
    {
        let p = crate::text::to_chars(paths[i].as_str());
        if !crate::path_rules::has_component_prefix(p.as_slice(), base.as_slice()) {
            return true;
        }
        i += 1;
    }
    false
}

/// Snapshot progress of one game's preparation, throttled to heartbeats.
#[derive(Debug)]
pub struct OnboardingSnapshotProgressReporter {
    pub session_id: String,
    pub game_id: String,
    pub total_games: u64,
    pub last_emitted_at: Option<u64>,
}

impl OnboardingSnapshotProgressReporter {
    pub fn new(session_id: String, game_id: String, total_games: u64) -> (r: Self)
        ensures
            r.session_id == session_id,
            r.game_id == game_id,
            r.total_games == total_games,
            r.last_emitted_at is None,
    {
        OnboardingSnapshotProgressReporter { session_id, game_id, total_games, last_emitted_at: None }
    }

    /// The progress to report, if any. A `Ready` phase counts one more
    /// prepared game in the shared counter; unless forced, reports come at
    /// most every 250 ms.
    pub fn emit(
        &mut self,
        prepared_games: &mut u64,
        phase: OnboardingIndexingSnapshotPhase,
        completed_roots: usize,
        total_roots: usize,
        folders_classified: usize,
        current_root: Option<String>,
        force: bool,
        elapsed_ms: u64,
    ) -> (r: Option<OnboardingIndexingSnapshotProgress>)
        requires
            phase == OnboardingIndexingSnapshotPhase::Ready ==> *old(prepared_games) < u64::MAX,
        ensures
            *final(prepared_games) == if phase == OnboardingIndexingSnapshotPhase::Ready {
                *old(prepared_games) + 1
            } else {
                *old(prepared_games) as int
            },
            ({
                let throttled = !force && (old(self).last_emitted_at matches Some(last)
                    && (if elapsed_ms >= last { elapsed_ms - last } else { 0 }) < snapshot_interval_ms());
                &&& throttled ==> r is None && *final(self) == *old(self)
                &&& !throttled ==> final(self).last_emitted_at == Some(elapsed_ms)
                    && final(self).session_id == old(self).session_id && final(self).game_id == old(self).game_id
                    && final(self).total_games == old(self).total_games
                    && (r matches Some(p) && p.session_id == old(self).session_id && p.game_id == old(self).game_id
                        && p.phase == phase && p.completed_games == *final(prepared_games)
                        && p.total_games == old(self).total_games && p.completed_roots == completed_roots as u64
                        && p.total_roots == total_roots as u64 && p.folders_classified == folders_classified as u64
                        && p.current_root == current_root && p.elapsed_ms == elapsed_ms)
            }),
    {
        if phase == OnboardingIndexingSnapshotPhase::Ready {
            *prepared_games = *prepared_games + 1;
        }
        let completed_games = *prepared_games;
        if !force {
            if let Some(last) = self.last_emitted_at {
                let since = if elapsed_ms >= last {
                    elapsed_ms - last
                } else {
                    0
                };
                if since < 250 {
                    return None;
                }
            }
        }
        self.last_emitted_at = Some(elapsed_ms);
        Some(OnboardingIndexingSnapshotProgress {
            session_id: self.session_id.clone(),
            game_id: self.game_id.clone(),
            phase,
            completed_games,
            total_games: self.total_games,
            completed_roots: completed_roots as u64,
            total_roots: total_roots as u64,
            folders_classified: folders_classified as u64,
            current_root,
            elapsed_ms,
        })
    }

    /// Reports filesystem preparation progress: the start of each phase
    /// and its end are always reported, heartbeats are throttled.
    pub fn report_discovery(
        &mut self,
        prepared_games: &mut u64,
        progress: OnboardingDiscoveryProgress,
        elapsed_ms: u64,
    ) -> (r: Option<OnboardingIndexingSnapshotProgress>)
        ensures
            *final(prepared_games) == *old(prepared_games),
            ({
                let force = (progress.completed_roots == 0 && progress.folders_classified == 0) || progress.is_terminal;
                let throttled = !force && (old(self).last_emitted_at matches Some(last)
                    && (if elapsed_ms >= last { elapsed_ms - last } else { 0 }) < snapshot_interval_ms());
                let phase = match progress.phase {
                    OnboardingDiscoveryPhase::Metadata => OnboardingIndexingSnapshotPhase::Metadata,
                    OnboardingDiscoveryPhase::Classifying => OnboardingIndexingSnapshotPhase::Classifying,
                };
                &&& throttled ==> r is None && *final(self) == *old(self)
                &&& !throttled ==> final(self).last_emitted_at == Some(elapsed_ms)
                    && (r matches Some(p) && p.phase == phase && p.completed_games == *old(prepared_games)
                        && p.completed_roots == progress.completed_roots as u64
                        && p.total_roots == progress.total_roots as u64
                        && p.folders_classified == progress.folders_classified as u64
                        && p.current_root == progress.current_root)
            }),
    {
        let phase = match progress.phase {
            OnboardingDiscoveryPhase::Metadata => OnboardingIndexingSnapshotPhase::Metadata,
            OnboardingDiscoveryPhase::Classifying => OnboardingIndexingSnapshotPhase::Classifying,
        };
        let is_phase_start = progress.completed_roots == 0 && progress.folders_classified == 0;
        let force = is_phase_start || progress.is_terminal;
        self.emit(
            prepared_games,
            phase,
            progress.completed_roots,
            progress.total_roots,
            progress.folders_classified,
            progress.current_root,
            force,
            elapsed_ms,
        )
    }
}

} // verus!

verus! {

pub open spec fn no_games_message() -> Seq<char> {
    "At least one game is required for onboarding indexing"@
}

pub open spec fn duplicate_games_message() -> Seq<char> {
    "Onboarding indexing game IDs must be unique"@
}

/// The index of the first session named `session_id`, or -1.
pub open spec fn session_index(sessions: Seq<OnboardingSessionRecord>, session_id: Seq<char>) -> int
    decreases sessions.len(),
{
    if sessions.len() == 0 {
        -1
    } else if sessions[0].session_id@ == session_id {
        0
    } else {
        let k = session_index(sessions.drop_first(), session_id);
        if k < 0 {
            -1
        } else {
            k + 1
        }
    }
}

proof fn lemma_session_index_bounds(sessions: Seq<OnboardingSessionRecord>, session_id: Seq<char>)
    ensures
        session_index(sessions, session_id) < sessions.len(),
        session_index(sessions, session_id) >= 0 ==> sessions[session_index(sessions, session_id)].session_id@ == session_id,
    decreases sessions.len(),
{
    if sessions.len() > 0 {
        lemma_session_index_bounds(sessions.drop_first(), session_id);
    }
}

/// What claiming a prepared game gave.
#[derive(Debug, Clone, Copy, PartialEq, Eq, Structural)]
pub enum SessionClaim {
    /// The game left its session; its prepared snapshot may be applied.
    Claimed,
    /// The session ran out before its background started: a full pass
    /// replaces the snapshot.
    Expired,
}

fn find_session(sessions: &Vec<OnboardingSessionRecord>, session_id: &str) -> (r: Option<usize>)
    ensures
        r matches Some(k) ==> k == session_index(sessions@, session_id@) && k < sessions@.len(),
        r is None ==> session_index(sessions@, session_id@) < 0,
{
    let mut k: usize = 0;
    assert(sessions@.skip(0) =~= sessions@);
    while k < sessions.len()
        invariant
            k <= sessions@.len(),
            session_index(sessions@, session_id@) == if session_index(sessions@.skip(k as int), session_id@) < 0 {
                -1
            } else {
                session_index(sessions@.skip(k as int), session_id@) + k
            },
        decreases sessions@.len() - k,
    {
        proof {
            assert(sessions@.skip(k as int)[0] == sessions@[k as int]);
            assert(sessions@.skip(k as int).drop_first() =~= sessions@.skip(k + 1));
        }
        if crate::text::str_eq(sessions[k].session_id.as_str(), session_id) {
            return Some(k);
        }
        k += 1;
    }
    None
}

/// The statuses not of `session_id`, in order.
pub open spec fn statuses_without(statuses: Seq<OnboardingIndexingBackgroundStatus>, session_id: Seq<char>) -> Seq<OnboardingIndexingBackgroundStatus>
    decreases statuses.len(),
{
    if statuses.len() == 0 {
        statuses
    } else if statuses.last().session_id@ == session_id {
        statuses_without(statuses.drop_last(), session_id)
    } else {
        statuses_without(statuses.drop_last(), session_id).push(statuses.last())
    }
}

/// The sessions not of `session_id`, in order.
pub open spec fn sessions_without(sessions: Seq<OnboardingSessionRecord>, session_id: Seq<char>) -> Seq<OnboardingSessionRecord>
    decreases sessions.len(),
{
    if sessions.len() == 0 {
        sessions
    } else if sessions.last().session_id@ == session_id {
        sessions_without(sessions.drop_last(), session_id)
    } else {
        sessions_without(sessions.drop_last(), session_id).push(sessions.last())
    }
}

/// The sessions that have not expired at `now_ms`, in order.
pub open spec fn live_sessions(sessions: Seq<OnboardingSessionRecord>, now_ms: u64) -> Seq<OnboardingSessionRecord>
    decreases sessions.len(),
{
    if sessions.len() == 0 {
        sessions
    } else if session_expired(sessions.last(), now_ms) {
        live_sessions(sessions.drop_last(), now_ms)
    } else {
        live_sessions(sessions.drop_last(), now_ms).push(sessions.last())
    }
}

/// The ids of the sessions that expired at `now_ms`, in order.
pub open spec fn expired_ids(sessions: Seq<OnboardingSessionRecord>, now_ms: u64) -> Seq<Seq<char>>
    decreases sessions.len(),
{
    if sessions.len() == 0 {
        Seq::empty()
    } else if session_expired(sessions.last(), now_ms) {
        expired_ids(sessions.drop_last(), now_ms).push(sessions.last().session_id@)
    } else {
        expired_ids(sessions.drop_last(), now_ms)
    }
}

/// The statuses whose session is none of `ids`, in order.
pub open spec fn statuses_outside(statuses: Seq<OnboardingIndexingBackgroundStatus>, ids: Seq<Seq<char>>) -> Seq<OnboardingIndexingBackgroundStatus>
    decreases statuses.len(),
{
    if statuses.len() == 0 {
        statuses
    } else if ids.contains(statuses.last().session_id@) {
        statuses_outside(statuses.drop_last(), ids)
    } else {
        statuses_outside(statuses.drop_last(), ids).push(statuses.last())
    }
}

fn drop_sessions(sessions: Vec<OnboardingSessionRecord>, session_id: &str) -> (r: Vec<OnboardingSessionRecord>)
    ensures
        r@ == sessions_without(sessions@, session_id@),
{
    let ghost original = sessions@;
    let ghost total: usize = sessions.len();
    let mut input = sessions;
    let mut kept: Vec<OnboardingSessionRecord> = Vec::new();
    let mut done: usize = 0;
    assert(original.skip(0) =~= original);
    while input.len() > 0
        invariant
            original.len() == total,
            done <= original.len(),
            input@ == original.skip(done as int),
            kept@ == sessions_without(original.take(done as int), session_id@),
        decreases input@.len(),
    {
        let s = input.remove(0);
        proof {
            assert(s == original[done as int]);
            assert(original.skip(done as int).remove(0) =~= original.skip(done + 1));
            assert(original.take(done + 1).drop_last() =~= original.take(done as int));
            assert(original.take(done + 1).last() == s);
        }
        if !crate::text::str_eq(s.session_id.as_str(), session_id) {
            kept.push(s);
        }
        done += 1;
    }
    assert(original.take(original.len() as int) =~= original);
    kept
}

fn drop_statuses(statuses: Vec<OnboardingIndexingBackgroundStatus>, session_id: &str) -> (r: Vec<OnboardingIndexingBackgroundStatus>)
    ensures
        r@ == statuses_without(statuses@, session_id@),
{
    let ghost original = statuses@;
    let ghost total: usize = statuses.len();
    let mut input = statuses;
    let mut kept: Vec<OnboardingIndexingBackgroundStatus> = Vec::new();
    let mut done: usize = 0;
    assert(original.skip(0) =~= original);
    while input.len() > 0
        invariant
            original.len() == total,
            done <= original.len(),
            input@ == original.skip(done as int),
            kept@ == statuses_without(original.take(done as int), session_id@),
        decreases input@.len(),
    {
        let s = input.remove(0);
        proof {
            assert(s == original[done as int]);
            assert(original.skip(done as int).remove(0) =~= original.skip(done + 1));
            assert(original.take(done + 1).drop_last() =~= original.take(done as int));
            assert(original.take(done + 1).last() == s);
        }
        if !crate::text::str_eq(s.session_id.as_str(), session_id) {
            kept.push(s);
        }
        done += 1;
    }
    assert(original.take(original.len() as int) =~= original);
    kept
}

impl OnboardingIndexingSessionStore {
    /// What opening a preparation session gives: a refusal, with the store
    /// unchanged, for no games or a repeated game; otherwise a new session
    /// and background status for the games, after the expired sessions were
    /// dropped.
    pub open spec fn session_begun(before: Self, after: Self, game_ids: Seq<String>, created_at_ms: u64, r: Result<String, AppError>) -> bool {
        &&& game_ids.len() == 0 ==> (r matches Err(AppError::Validation(m)) && m@ == no_games_message())
            && after.sessions == before.sessions && after.background_statuses == before.background_statuses
        &&& game_ids.len() > 0 && !distinct(game_ids) ==> (r matches Err(AppError::Validation(m))
            && m@ == duplicate_games_message()) && after.sessions == before.sessions
            && after.background_statuses == before.background_statuses
        &&& game_ids.len() > 0 && distinct(game_ids) ==> (r matches Ok(id) && {
            &&& id@.len() == 36
            &&& after.sessions@.drop_last() == live_sessions(before.sessions@, created_at_ms)
            &&& after.sessions@.len() > 0
            &&& after.sessions@.last().session_id@ == id@
            &&& after.sessions@.last().created_at_ms == created_at_ms
            &&& views(after.sessions@.last().pending_game_ids@) == views(game_ids)
            &&& !after.sessions@.last().background_started
            &&& after.background_statuses@.drop_last() == statuses_outside(
                before.background_statuses@,
                expired_ids(before.sessions@, created_at_ms),
            )
            &&& after.background_statuses@.len() > 0
            &&& after.background_statuses@.last().session_id@ == id@
            &&& after.background_statuses@.last().completed_games == 0
            &&& after.background_statuses@.last().total_games == game_ids.len()
            &&& after.background_statuses@.last().games@.len() == game_ids.len()
            &&& forall|i: int| 0 <= i < game_ids.len() ==> (#[trigger] after.background_statuses@.last().games@[i]).game_id
                == game_ids[i] && after.background_statuses@.last().games@[i].phase == OnboardingIndexingBackgroundPhase::Queued
        })
    }

    /// Opens a preparation session for the given games: each is pending in
    /// the session and queued in its background status.
    pub fn begin_with_progress(&mut self, game_ids: &Vec<String>, created_at_ms: u64) -> (r: Result<String, AppError>)
        ensures
            Self::session_begun(*old(self), *final(self), game_ids@, created_at_ms, r),
    {
        if game_ids.len() == 0 {
            return Err(AppError::Validation(String::from_str("At least one game is required for onboarding indexing")));
        }
        if !unique_ids(game_ids) {
            return Err(AppError::Validation(String::from_str("Onboarding indexing game IDs must be unique")));
        }
        let _expired = self.purge_expired(created_at_ms);
        let session_id = new_session_id();
        let mut games: Vec<OnboardingIndexingBackgroundGameStatus> = Vec::new();
        let mut i: usize = 0;
        while i < game_ids.len()
            invariant
                i <= game_ids@.len(),
                games@.len() == i,
                forall|k: int| 0 <= k < i ==> (#[trigger] games@[k]).game_id == game_ids@[k]
                    && games@[k].phase == OnboardingIndexingBackgroundPhase::Queued,
            decreases game_ids@.len() - i,
        {
            games.push(OnboardingIndexingBackgroundGameStatus { game_id: game_ids[i].clone(), phase: OnboardingIndexingBackgroundPhase::Queued });
            i += 1;
        }
        let pending = crate::reconcile::runtime_sync::clone_strings(game_ids.as_slice());
        assert(views(pending@) =~= views(game_ids@));
        let ghost before_sessions = self.sessions@;
        self.sessions.push(OnboardingSessionRecord {
            session_id: session_id.clone(),
            created_at_ms,
            pending_game_ids: pending,
            background_started: false,
        });
        assert(self.sessions@.drop_last() =~= before_sessions);
        let ghost before_statuses = self.background_statuses@;
        self.background_statuses.push(OnboardingIndexingBackgroundStatus {
            session_id: session_id.clone(),
            completed_games: 0,
            total_games: game_ids.len() as u64,
            games,
        });
        assert(self.background_statuses@.drop_last() =~= before_statuses);
        Ok(session_id)
    }

    /// Takes one prepared game out of its session, so that each snapshot is
    /// applied once; the session is forgotten with its last game. A session
    /// whose time ran out before its background started is forgotten and
    /// answered with a full pass instead.
    pub fn consume(&mut self, session_id: &str, game_id: &str, now_ms: u64) -> (r: Result<SessionClaim, AppError>)
        ensures
            ({
                let k = session_index(old(self).sessions@, session_id@);
                let s = old(self).sessions@[k];
                &&& k < 0 ==> (r matches Err(AppError::NotFound(m)) && m@ == session_missing_message())
                    && final(self).sessions == old(self).sessions && final(self).background_statuses == old(self).background_statuses
                &&& k >= 0 && session_expired(s, now_ms) ==> r == Ok::<SessionClaim, AppError>(SessionClaim::Expired)
                    && final(self).sessions@ == old(self).sessions@.remove(k)
                    && final(self).background_statuses@ == statuses_without(old(self).background_statuses@, session_id@)
                &&& k >= 0 && !session_expired(s, now_ms) && !views(s.pending_game_ids@).contains(game_id@)
                    ==> (r matches Err(AppError::NotFound(m)) && m@ == game_not_in_session_message(game_id@))
                    && final(self).sessions == old(self).sessions && final(self).background_statuses == old(self).background_statuses
                &&& k >= 0 && !session_expired(s, now_ms) && views(s.pending_game_ids@).contains(game_id@)
                    ==> r == Ok::<SessionClaim, AppError>(SessionClaim::Claimed)
                    && final(self).background_statuses == old(self).background_statuses
                    && (crate::reconcile::authority::without(views(s.pending_game_ids@), game_id@).len() == 0
                        ==> final(self).sessions@ == old(self).sessions@.remove(k))
                    && (crate::reconcile::authority::without(views(s.pending_game_ids@), game_id@).len() > 0
                        ==> final(self).sessions@.len() == old(self).sessions@.len()
                        && (forall|j: int| 0 <= j < old(self).sessions@.len() && j != k ==> final(self).sessions@[j] == old(self).sessions@[j])
                        && final(self).sessions@[k].session_id == s.session_id
                        && final(self).sessions@[k].created_at_ms == s.created_at_ms
                        && final(self).sessions@[k].background_started == s.background_started
                        && views(final(self).sessions@[k].pending_game_ids@)
                            == crate::reconcile::authority::without(views(s.pending_game_ids@), game_id@))
            }),
    {
        proof {
            lemma_session_index_bounds(self.sessions@, session_id@);
        }
        let k = match find_session(&self.sessions, session_id) {
            Some(k) => k,
            None => return Err(AppError::NotFound(String::from_str("Onboarding indexing session was not found"))),
        };
        let expired = !self.sessions[k].background_started && self.sessions[k].created_at_ms <= u64::MAX - 900000
            && now_ms >= self.sessions[k].created_at_ms + 900000;
        if expired {
            let _ = self.sessions.remove(k);
            let mut statuses: Vec<OnboardingIndexingBackgroundStatus> = Vec::new();
            std::mem::swap(&mut statuses, &mut self.background_statuses);
            self.background_statuses = drop_statuses(statuses, session_id);
            return Ok(SessionClaim::Expired);
        }
        let game = String::from_str(game_id);
        if !contains_text(&self.sessions[k].pending_game_ids, &game) {
            return Err(AppError::NotFound(concat_str(
                concat_str("Game '", game_id).as_str(),
                "' is not available in this onboarding indexing session",
            )));
        }
        let mut record = self.sessions.remove(k);
        let remaining = crate::reconcile::authority::without_text(&record.pending_game_ids, &game);
        if remaining.len() > 0 {
            record.pending_game_ids = remaining;
            self.sessions.insert(k, record);
        }
        Ok(SessionClaim::Claimed)
    }
}

/// Some changed path is a direct child of the mods folder that is not a
/// folder and that the census does not list: a loose file at the top of the
/// mods folder. `is_dir` says, for each path, whether it is a folder now.
pub open spec fn has_direct_root_file(
    paths: Seq<String>,
    is_dir: Seq<bool>,
    mods_path: Seq<char>,
    census: Seq<crate::reconcile::snapshot::DiskIdentityCensusEntry>,
) -> bool {
    exists|i: int| 0 <= i < paths.len() && #[trigger] crate::reconcile::pass::relative_key_of(mods_path, paths[i]@) is Some
        && crate::path_rules::components(paths[i]@).len() == crate::path_rules::components(mods_path).len() + 1
        && !is_dir[i]
        && !(exists|j: int| 0 <= j < census.len() && crate::text::eq_ignore_case((#[trigger] census[j]).folder_path@,
            crate::path_rules::components(paths[i]@)[crate::path_rules::components(mods_path).len() as int]))
}

fn census_lists(census: &Vec<crate::reconcile::snapshot::DiskIdentityCensusEntry>, name: &Vec<char>) -> (r: bool)
    ensures
        r == exists|j: int| 0 <= j < census@.len() && crate::text::eq_ignore_case((#[trigger] census@[j]).folder_path@, name@),
{
    let mut j: usize = 0;
    while j < census.len()
        invariant
            j <= census@.len(),
            forall|x: int| 0 <= x < j ==> !crate::text::eq_ignore_case((#[trigger] census@[x]).folder_path@, name@),
        decreases census@.len() - j,
    {
        let f = crate::text::to_chars(census[j].folder_path.as_str());
        if crate::text::chars_eq_ignore_case(f.as_slice(), name.as_slice()) {
            return true;
        }
        j += 1;
    }
    false
}

/// Whether the raw watcher saw a loose file at the top of the mods folder,
/// which the prepared snapshot cannot absorb.
pub fn paths_include_direct_root_path(
    paths: &Vec<String>,
    is_dir: &Vec<bool>,
    mods_path: &str,
    census: &Vec<crate::reconcile::snapshot::DiskIdentityCensusEntry>,
) -> (r: bool)
    requires
        is_dir@.len() == paths@.len(),
    ensures
        r == has_direct_root_file(paths@, is_dir@, mods_path@, census@),
{
    let base = crate::text::to_chars(mods_path);
    let base_comps = crate::path_rules::path_components(base.as_slice());
    let mut i: usize = 0;
    while i < paths.len()
        invariant
            i <= paths@.len(),
            is_dir@.len() == paths@.len(),
            base@ == mods_path@,
            base_comps@.len() == crate::path_rules::components(mods_path@).len(),
            forall|x: int| 0 <= x < i ==> !(#[trigger] crate::reconcile::pass::relative_key_of(mods_path@, paths@[x]@) is Some
                && crate::path_rules::components(paths@[x]@).len() == crate::path_rules::components(mods_path@).len() + 1
                && !is_dir@[x]
                && !(exists|j: int| 0 <= j < census@.len() && crate::text::eq_ignore_case((#[trigger] census@[j]).folder_path@,
                    crate::path_rules::components(paths@[x]@)[crate::path_rules::components(mods_path@).len() as int]))),
        decreases paths@.len() - i,
    {
        let p = crate::text::to_chars(paths[i].as_str());
        if crate::path_rules::has_component_prefix(p.as_slice(), base.as_slice()) {
            let comps = crate::path_rules::path_components(p.as_slice());
            if comps.len() > base_comps.len() && comps.len() - 1 == base_comps.len() && !is_dir[i] {
                let name = &comps[base_comps.len()];
                assert(name@ == crate::path_rules::components(paths@[i as int]@)[crate::path_rules::components(mods_path@).len() as int]);
                if !census_lists(census, name) {
                    assert(crate::reconcile::pass::relative_key_of(mods_path@, paths@[i as int]@) is Some);
                    return true;
                }
            }
        }
        i += 1;
    }
    false
}

/// The onboarding discovery with the changed roots rescanned: the
/// prepared projection loses what it held for those roots and gains the
/// fresh scan; the census is the fresh one, and the discovery counts as full.
pub fn compose_refreshed_roots(
    prepared: crate::reconcile::snapshot::DiskScopedDiscovery,
    refreshed: crate::reconcile::snapshot::DiskScopedDiscovery,
    changed_roots: &Vec<String>,
) -> (r: crate::reconcile::snapshot::DiskScopedDiscovery)
    ensures
        ({
            let keys = changed_roots@.map_values(|root: String| crate::path_rules::folder_key(root@));
            &&& r.projection.objects@ == crate::reconcile::pass::unprotected_objects(prepared.projection.objects@, keys)
                + refreshed.projection.objects@
            &&& r.projection.mods@ == crate::reconcile::pass::unprotected_mods(prepared.projection.mods@, keys, Seq::empty())
                + refreshed.projection.mods@
            &&& r.census == refreshed.census
            &&& !r.scoped
            &&& r.scan_counts == prepared.scan_counts
            &&& r.timings == prepared.timings
        }),
{
    let mut root_keys: Vec<String> = Vec::new();
    let mut i: usize = 0;
    while i < changed_roots.len()
        invariant
            i <= changed_roots@.len(),
            views(root_keys@) == changed_roots@.take(i as int).map_values(|root: String| crate::path_rules::folder_key(root@)),
        decreases changed_roots@.len() - i,
    {
        let ghost before = root_keys@;
        root_keys.push(crate::path_rules::folder_path_key(changed_roots[i].as_str()));
        proof {
            crate::sets::lemma_views_push(before, root_keys@.last());
            assert(changed_roots@.take(i + 1).map_values(|root: String| crate::path_rules::folder_key(root@))
                =~= changed_roots@.take(i as int).map_values(|root: String| crate::path_rules::folder_key(root@)).push(root_keys@.last()@));
        }
        i += 1;
    }
    assert(changed_roots@.take(changed_roots@.len() as int) =~= changed_roots@);
    let no_mod_keys: Vec<String> = Vec::new();
    assert(views(no_mod_keys@) =~= Seq::<Seq<char>>::empty());
    let kept = crate::reconcile::pass::retain_unprotected(&prepared.projection, &root_keys, &no_mod_keys);
    let crate::reconcile::snapshot::DiskScopedDiscovery { census, projection: fresh, scoped: _, scan_counts: _, timings: _ } = refreshed;
    let crate::reconcile::snapshot::DiskProjection { objects: mut fresh_objects, mods: mut fresh_mods } = fresh;
    let crate::reconcile::snapshot::DiskProjection { objects: mut objects, mods: mut mods } = kept;
    objects.append(&mut fresh_objects);
    mods.append(&mut fresh_mods);
    crate::reconcile::snapshot::DiskScopedDiscovery {
        census,
        projection: crate::reconcile::snapshot::DiskProjection { objects, mods },
        scoped: false,
        scan_counts: prepared.scan_counts,
        timings: prepared.timings,
    }
}

} // verus!

verus! {

/// What becomes of a prepared snapshot once its game is claimed.
#[derive(Debug, Clone, Copy, PartialEq, Eq, Structural)]
pub enum SnapshotFollowUp {
    /// Apply the snapshot as prepared.
    UseSnapshot,
    /// Rescan the roots that changed meanwhile, then apply.
    RefreshRoots,
    /// Discard the snapshot for a full pass.
    FullFallback,
}

/// The follow-up of a claimed snapshot, from what its raw watcher saw
/// meanwhile (`None` when the watcher failed): a path outside the mods
/// folder or a loose file at its top forces a full pass.
pub fn snapshot_follow_up(
    changed_paths: &Option<Vec<String>>,
    is_dir: &Vec<bool>,
    mods_path: &str,
    census: &Vec<crate::reconcile::snapshot::DiskIdentityCensusEntry>,
) -> (r: SnapshotFollowUp)
    requires
        changed_paths matches Some(p) ==> is_dir@.len() == p@.len(),
    ensures
        match changed_paths {
            None => r == SnapshotFollowUp::FullFallback,
            Some(p) => if has_unmapped_path(p@, mods_path@) || has_direct_root_file(p@, is_dir@, mods_path@, census@) {
                r == SnapshotFollowUp::FullFallback
            } else if p@.len() == 0 {
                r == SnapshotFollowUp::UseSnapshot
            } else {
                r == SnapshotFollowUp::RefreshRoots
            },
        },
{
    match changed_paths {
        None => SnapshotFollowUp::FullFallback,
        Some(paths) => {
            if paths_contain_unmapped_path(paths, mods_path) || paths_include_direct_root_path(paths, is_dir, mods_path, census) {
                SnapshotFollowUp::FullFallback
            } else if paths.len() == 0 {
                SnapshotFollowUp::UseSnapshot
            } else {
                SnapshotFollowUp::RefreshRoots
            }
        },
    }
}

/// A claimed game leaves its session exactly once: claiming it again from
/// the same session is refused, whatever happened to the session.
pub proof fn law_a_prepared_game_is_claimed_once(
    s0: OnboardingIndexingSessionStore,
    s1: OnboardingIndexingSessionStore,
    session_id: Seq<char>,
    game_id: Seq<char>,
    now_ms: u64,
    k: int,
)
    requires
        0 <= k < s0.sessions@.len(),
        k == session_index(s0.sessions@, session_id),
        !session_expired(s0.sessions@[k], now_ms),
        views(s0.sessions@[k].pending_game_ids@).contains(game_id),
        crate::reconcile::authority::without(views(s0.sessions@[k].pending_game_ids@), game_id).len() > 0,
        s1.sessions@.len() == s0.sessions@.len(),
        forall|j: int| 0 <= j < s0.sessions@.len() && j != k ==> s1.sessions@[j] == s0.sessions@[j],
        s1.sessions@[k].session_id == s0.sessions@[k].session_id,
        views(s1.sessions@[k].pending_game_ids@) == crate::reconcile::authority::without(views(s0.sessions@[k].pending_game_ids@), game_id),
    ensures
        session_index(s1.sessions@, session_id) == k,
        !views(s1.sessions@[k].pending_game_ids@).contains(game_id),
{
    lemma_without_drops(views(s0.sessions@[k].pending_game_ids@), game_id);
    lemma_same_prefix_index(s0.sessions@, s1.sessions@, session_id, k);
}

proof fn lemma_without_drops(s: Seq<Seq<char>>, x: Seq<char>)
    ensures
        !crate::reconcile::authority::without(s, x).contains(x),
    decreases s.len(),
{
    if s.len() > 0 {
        lemma_without_drops(s.drop_last(), x);
        let w = crate::reconcile::authority::without(s.drop_last(), x);
        if s.last() != x {
            assert forall|i: int| 0 <= i < w.push(s.last()).len() implies w.push(s.last())[i] != x by {
                if i < w.len() {
                    assert(w.push(s.last())[i] == w[i]);
                }
            }
        }
    }
}

proof fn lemma_same_prefix_index(a: Seq<OnboardingSessionRecord>, b: Seq<OnboardingSessionRecord>, id: Seq<char>, k: int)
    requires
        a.len() == b.len(),
        0 <= k < a.len(),
        k == session_index(a, id),
        forall|j: int| 0 <= j < a.len() && j != k ==> b[j] == a[j],
        b[k].session_id == a[k].session_id,
    ensures
        session_index(b, id) == k,
    decreases a.len(),
{
    if k > 0 {
        assert(a[0].session_id@ != id);
        assert(b[0] == a[0]);
        let k2 = session_index(a.drop_first(), id);
        assert(k2 == k - 1);
        assert forall|j: int| 0 <= j < a.drop_first().len() && j != k - 1 implies b.drop_first()[j] == a.drop_first()[j] by {
            assert(b.drop_first()[j] == b[j + 1]);
            assert(a.drop_first()[j] == a[j + 1]);
        }
        lemma_same_prefix_index(a.drop_first(), b.drop_first(), id, k - 1);
    } else {
        assert(b[0].session_id@ == id);
    }
}

} // verus!

verus! {

/// The message for a requested game that the settings do not know.
pub open spec fn unknown_game_message(id: Seq<char>) -> Seq<char> {
    "Game '"@ + id + "' not found"@
}

/// Whether every requested id names a configured game.
pub open spec fn all_known(games: Seq<crate::settings::GameConfig>, ids: Seq<String>) -> bool {
    forall|i: int| 0 <= i < ids.len() ==> crate::settings::game_index(games, (#[trigger] ids[i])@) >= 0
}

/// What resolving the requested games gives: the position of each among
/// the configured games, or a not-found error naming the first unknown one.
pub open spec fn games_resolved(
    games: Seq<crate::settings::GameConfig>,
    ids: Seq<String>,
    r: Result<Vec<usize>, AppError>,
) -> bool {
    if all_known(games, ids) {
        r matches Ok(found) && found@.len() == ids.len() && forall|i: int|
            0 <= i < ids.len() ==> (#[trigger] found@[i]) == crate::settings::game_index(games, ids[i]@)
    } else {
        r matches Err(AppError::NotFound(m)) && first_unknown_named(games, ids, m@)
    }
}

/// Whether `message` names the first requested id that no configured game has.
pub open spec fn first_unknown_named(games: Seq<crate::settings::GameConfig>, ids: Seq<String>, message: Seq<char>) -> bool {
    exists|k: int|
        0 <= k < ids.len() && crate::settings::game_index(games, (#[trigger] ids[k])@) < 0 && all_known(games, ids.take(k))
            && message == unknown_game_message(ids[k]@)
}

/// Finds each requested game among the configured ones, in request order.
pub fn resolve_requested_games(games: &Vec<crate::settings::GameConfig>, game_ids: &Vec<String>) -> (r: Result<
    Vec<usize>,
    AppError,
>)
    ensures
        games_resolved(games@, game_ids@, r),
{
    let mut found: Vec<usize> = Vec::new();
    let mut i: usize = 0;
    while i < game_ids.len()
        invariant
            i <= game_ids@.len(),
            found@.len() == i,
            all_known(games@, game_ids@.take(i as int)),
            forall|j: int| 0 <= j < i ==> (#[trigger] found@[j]) == crate::settings::game_index(games@, game_ids@[j]@),
        decreases game_ids@.len() - i,
    {
        match crate::settings::find_game(games, game_ids[i].as_str()) {
            Some(k) => {
                found.push(k);
                proof {
                    assert forall|j: int| 0 <= j < i + 1 implies crate::settings::game_index(
                        games@,
                        (#[trigger] game_ids@.take(i + 1)[j])@,
                    ) >= 0 by {
                        if j < i {
                            assert(game_ids@.take(i + 1)[j] == game_ids@.take(i as int)[j]);
                        }
                    }
                }
            },
            None => {
                let a = concat_str("Game '", game_ids[i].as_str());
                let m = concat_str(a.as_str(), "' not found");
                proof {
                    assert(!all_known(games@, game_ids@));
                    assert(crate::settings::game_index(games@, game_ids@[i as int]@) < 0);
                }
                return Err(AppError::NotFound(m));
            },
        }
        i += 1;
    }
    assert(game_ids@.take(game_ids@.len() as int) =~= game_ids@);
    Ok(found)
}

/// Opens a preparation session for the requested games: every id must name
/// a configured game, else the first unknown one is reported and the store
/// is left as it was.
pub fn begin_onboarding_indexing(
    store: &mut OnboardingIndexingSessionStore,
    games: &Vec<crate::settings::GameConfig>,
    game_ids: &Vec<String>,
    created_at_ms: u64,
) -> (r: Result<String, AppError>)
    ensures
        all_known(games@, game_ids@) ==> OnboardingIndexingSessionStore::session_begun(
            *old(store),
            *final(store),
            game_ids@,
            created_at_ms,
            r,
        ),
        !all_known(games@, game_ids@) ==> *final(store) == *old(store) && (r matches Err(AppError::NotFound(m))
            && first_unknown_named(games@, game_ids@, m@)),
{
    match resolve_requested_games(games, game_ids) {
        Err(e) => Err(e),
        Ok(_) => store.begin_with_progress(game_ids, created_at_ms),
    }
}

} // verus!
