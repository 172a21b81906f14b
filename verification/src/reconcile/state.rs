//! Per-game reconcile bookkeeping: the single-flight initial recovery gate,
//! the latest-wins runtime sync queue, staged runtime effects, reconcile
//! revisions and the active-game generation.
//!
//! This is the sequential core. Callers that share it between tasks hold it
//! behind one lock; waiting for a recovery that another task owns is done by
//! the caller, which asks `start_initial_recovery` again after each change.

use vstd::prelude::*;
use vstd::hash_map::StringHashMap;

use crate::reconcile::result_copy::{copy_result, same_result};
use crate::reconcile::types::{
    merged_effects, no_runtime_effects, DiskReconcileResult, DiskReconcileStatus, PendingRuntimeEffects,
};

verus! {

/// The scalar bookkeeping kept for one game.
#[derive(Debug, Clone, Copy, PartialEq, Eq, Structural)]
pub struct GameSyncState {
    pub reconcile_revision: u64,
    pub completed_at_ms: Option<u64>,
    pub pending_runtime_effects: PendingRuntimeEffects,
    pub runtime_effects_generation: u64,
    pub runtime_sync_generation: u64,
    pub runtime_sync_worker_running: bool,
}

/// The bookkeeping of a game that has never been touched.
/// Adds one, staying at the maximum.
pub open spec fn sat_inc(x: u64) -> u64 {
    if x < u64::MAX { (x + 1) as u64 } else { x }
}

pub open spec fn fresh_sync_state() -> GameSyncState {
    GameSyncState {
        reconcile_revision: 0,
        completed_at_ms: None,
        pending_runtime_effects: no_runtime_effects(),
        runtime_effects_generation: 0,
        runtime_sync_generation: 0,
        runtime_sync_worker_running: false,
    }
}

fn fresh_sync() -> (r: GameSyncState)
    ensures
        r == fresh_sync_state(),
{
    GameSyncState {
        reconcile_revision: 0,
        completed_at_ms: None,
        pending_runtime_effects: PendingRuntimeEffects::none(),
        runtime_effects_generation: 0,
        runtime_sync_generation: 0,
        runtime_sync_worker_running: false,
    }
}

/// Proof that a publication was requested while `game_id` was the active
/// game at activation `generation`.
#[derive(Debug, Clone, PartialEq, Eq)]
pub struct ActivationAuthority {
    pub game_id: String,
    pub generation: u64,
}

#[derive(Debug)]
struct QueuedRuntimeSync {
    generation: u64,
    cause: String,
    publication_revision: Option<u64>,
    activation_authority: Option<ActivationAuthority>,
}

/// The latest queued runtime sync of a game, handed to its worker.
#[derive(Debug)]
pub struct RuntimeSyncJob {
    pub generation: u64,
    pub cause: String,
    pub publication_revision: Option<u64>,
    pub activation_authority: Option<ActivationAuthority>,
}

#[derive(Debug, Clone, Copy, PartialEq, Eq, Structural)]
pub struct RuntimeSyncEnqueue {
    pub generation: u64,
    pub start_worker: bool,
}

/// Runtime effects as staged for one settlement attempt.
#[derive(Debug, Clone, Copy, PartialEq, Eq, Structural)]
pub struct StagedRuntimeEffects {
    pub pending: PendingRuntimeEffects,
    pub generation: u64,
}

/// The terminal result of a game's initial disk recovery.
#[derive(Debug, Clone)]
pub enum InitialRecoveryOutcome {
    Completed(Box<DiskReconcileResult>),
    Failed(String),
}

/// What a caller of `start_initial_recovery` must do next.
#[derive(Debug, Clone)]
pub enum InitialRecoveryStart {
    /// This caller owns the recovery and must finish this generation.
    Run { generation: u64 },
    /// Another caller owns the recovery of this generation.
    Syncing { generation: u64 },
    Finished(InitialRecoveryOutcome),
}

/// What a waiting claim of the initial recovery resolved to.
#[derive(Debug, Clone)]
pub enum InitialRecoveryClaim {
    Run { generation: u64 },
    Finished(InitialRecoveryOutcome),
}

/// A non-blocking view of a game's initial disk recovery. It deliberately
/// carries no result data: callers must wait for the terminal reconcile
/// result before mutating disk.
#[derive(Debug, Clone, Copy, PartialEq, Eq, Structural)]
pub enum InitialRecoveryReadiness {
    Unstarted { generation: u64 },
    Syncing { generation: u64 },
    Ready { generation: u64 },
    Failed { generation: u64 },
}

/// The stage of a recovery gate, without its result data.
#[derive(Debug, Clone, Copy, PartialEq, Eq, Structural)]
pub enum RecoveryStage {
    Unstarted,
    Pending,
    Completed,
    Failed,
}

#[derive(Debug)]
enum RecoveryStatus {
    Unstarted,
    Pending,
    Finished(InitialRecoveryOutcome),
}

#[derive(Debug)]
struct RecoveryGate {
    generation: u64,
    status: RecoveryStatus,
}

impl InitialRecoveryOutcome {
    pub open spec fn spec_stage(&self) -> RecoveryStage {
        match self {
            InitialRecoveryOutcome::Completed(_) => RecoveryStage::Completed,
            InitialRecoveryOutcome::Failed(_) => RecoveryStage::Failed,
        }
    }

    /// A copy that keeps the variant and its result or message.
    pub fn duplicate(&self) -> (r: Self)
        ensures
            same_outcome(r, *self),
    {
        match self {
            InitialRecoveryOutcome::Completed(result) => InitialRecoveryOutcome::Completed(Box::new(copy_result(result))),
            InitialRecoveryOutcome::Failed(message) => InitialRecoveryOutcome::Failed(message.clone()),
        }
    }
}

/// Two outcomes are of the same kind and hold the same result or message.
pub open spec fn same_outcome(a: InitialRecoveryOutcome, b: InitialRecoveryOutcome) -> bool {
    match (a, b) {
        (InitialRecoveryOutcome::Completed(x), InitialRecoveryOutcome::Completed(y)) => same_result(*x, *y),
        (InitialRecoveryOutcome::Failed(m), InitialRecoveryOutcome::Failed(n)) => m == n,
        _ => false,
    }
}

impl RecoveryStatus {
    spec fn stage(&self) -> RecoveryStage {
        match self {
            RecoveryStatus::Unstarted => RecoveryStage::Unstarted,
            RecoveryStatus::Pending => RecoveryStage::Pending,
            RecoveryStatus::Finished(outcome) => outcome.spec_stage(),
        }
    }
}

/// The readiness reported for a gate at `generation` in `stage`.
pub open spec fn readiness_of(generation: u64, stage: RecoveryStage) -> InitialRecoveryReadiness {
    match stage {
        RecoveryStage::Unstarted => InitialRecoveryReadiness::Unstarted { generation },
        RecoveryStage::Pending => InitialRecoveryReadiness::Syncing { generation },
        RecoveryStage::Completed => InitialRecoveryReadiness::Ready { generation },
        RecoveryStage::Failed => InitialRecoveryReadiness::Failed { generation },
    }
}

/// An activation authority as plain values: its game and generation.
pub open spec fn authority_view(a: Option<ActivationAuthority>) -> Option<(Seq<char>, u64)> {
    match a {
        Some(x) => Some((x.game_id@, x.generation)),
        None => None,
    }
}

/// Per-game reconcile bookkeeping.
pub struct DiskReconcileState {
    games: StringHashMap<GameSyncState>,
    queued: StringHashMap<QueuedRuntimeSync>,
    last_results: StringHashMap<DiskReconcileResult>,
    gates: StringHashMap<RecoveryGate>,
    activation_generation: u64,
    activation_game: Option<String>,
}

impl DiskReconcileState {
    /// The scalar bookkeeping of `game`.
    pub closed spec fn sync(&self, game: Seq<char>) -> GameSyncState {
        if self.games@.contains_key(game) {
            self.games@[game]
        } else {
            fresh_sync_state()
        }
    }

    /// The queued runtime sync of `game`: generation, cause, publication
    /// revision and the activation authority it was requested under.
    pub closed spec fn queued_job(&self, game: Seq<char>) -> Option<(u64, Seq<char>, Option<u64>, Option<(Seq<char>, u64)>)> {
        if self.queued@.contains_key(game) {
            let q = self.queued@[game];
            Some((q.generation, q.cause@, q.publication_revision, authority_view(q.activation_authority)))
        } else {
            None
        }
    }

    /// Whether a reconcile result was recorded for `game`.
    pub closed spec fn has_result(&self, game: Seq<char>) -> bool {
        self.last_results@.contains_key(game)
    }

    /// The last recorded result of `game`.
    pub closed spec fn result(&self, game: Seq<char>) -> DiskReconcileResult {
        self.last_results@[game]
    }

    /// The status of the last recorded result of `game`.
    pub open spec fn result_status(&self, game: Seq<char>) -> DiskReconcileStatus {
        self.result(game).status
    }

    /// The revision of the last recorded result of `game`.
    pub open spec fn result_revision(&self, game: Seq<char>) -> u64 {
        self.result(game).reconcile_revision
    }

    /// The outcome the initial recovery gate of `game` holds once finished.
    pub closed spec fn gate_outcome(&self, game: Seq<char>) -> Option<InitialRecoveryOutcome> {
        if self.gates@.contains_key(game) {
            match self.gates@[game].status {
                RecoveryStatus::Finished(o) => Some(o),
                _ => None,
            }
        } else {
            None
        }
    }

    /// The generation of the initial recovery gate of `game`.
    pub closed spec fn gate_generation(&self, game: Seq<char>) -> u64 {
        if self.gates@.contains_key(game) {
            self.gates@[game].generation
        } else {
            0
        }
    }

    /// The stage of the initial recovery gate of `game`.
    pub closed spec fn gate_stage(&self, game: Seq<char>) -> RecoveryStage {
        if self.gates@.contains_key(game) {
            self.gates@[game].status.stage()
        } else {
            RecoveryStage::Unstarted
        }
    }

    /// The current activation generation.
    pub closed spec fn activation(&self) -> u64 {
        self.activation_generation
    }

    /// The game selected by the current activation.
    pub closed spec fn activated_game(&self) -> Option<Seq<char>> {
        match self.activation_game {
            Some(g) => Some(g@),
            None => None,
        }
    }

    pub fn new() -> (r: Self)
        ensures
            forall|g: Seq<char>| r.sync(g) == fresh_sync_state(),
            forall|g: Seq<char>| r.queued_job(g).is_none(),
            forall|g: Seq<char>| !r.has_result(g),
            forall|g: Seq<char>| r.gate_generation(g) == 0 && r.gate_stage(g) == RecoveryStage::Unstarted,
            forall|g: Seq<char>| r.gate_outcome(g).is_none(),
            r.activation() == 0,
            r.activated_game().is_none(),
    {
        DiskReconcileState {
            games: StringHashMap::new(),
            queued: StringHashMap::new(),
            last_results: StringHashMap::new(),
            gates: StringHashMap::new(),
            activation_generation: 0,
            activation_game: None,
        }
    }

    fn sync_of(&self, game_id: &str) -> (r: GameSyncState)
        ensures
            r == self.sync(game_id@),
    {
        match self.games.get(game_id) {
            Some(state) => *state,
            None => fresh_sync(),
        }
    }

    fn set_sync(&mut self, game_id: &str, state: GameSyncState)
        ensures
            final(self).sync(game_id@) == state,
            forall|g: Seq<char>| g != game_id@ ==> final(self).sync(g) == old(self).sync(g),
            final(self).queued@ == old(self).queued@,
            final(self).last_results@ == old(self).last_results@,
            final(self).gates@ == old(self).gates@,
            final(self).activation_generation == old(self).activation_generation,
            final(self).activation_game == old(self).activation_game,
    {
        self.games.insert(String::from_str(game_id), state);
    }
}


impl DiskReconcileState {
    /// Merges newly requested runtime work into the game's owed work and
    /// returns everything now owed.
    pub fn stage_runtime_effects(&mut self, game_id: &str, requested: PendingRuntimeEffects) -> (r: PendingRuntimeEffects)
        requires
            old(self).sync(game_id@).runtime_effects_generation < u64::MAX,
        ensures
            r == merged_effects(old(self).sync(game_id@).pending_runtime_effects, requested),
            final(self).sync(game_id@) == (GameSyncState {
                pending_runtime_effects: r,
                runtime_effects_generation: (old(self).sync(game_id@).runtime_effects_generation + 1) as u64,
                ..old(self).sync(game_id@)
            }),
            forall|g: Seq<char>| g != game_id@ ==> final(self).sync(g) == old(self).sync(g),
            forall|g: Seq<char>| final(self).queued_job(g) == old(self).queued_job(g),
    {
        self.stage_runtime_effects_for_settlement(game_id, requested).pending
    }

    /// Like `stage_runtime_effects`, also returning the staging generation
    /// that a later acknowledgement must match.
    pub fn stage_runtime_effects_for_settlement(&mut self, game_id: &str, requested: PendingRuntimeEffects) -> (r: StagedRuntimeEffects)
        requires
            old(self).sync(game_id@).runtime_effects_generation < u64::MAX,
        ensures
            stage_runtime_effects_step(*old(self), *final(self), game_id, requested, r),

    {
        let mut state = self.sync_of(game_id);
        state.pending_runtime_effects.merge(requested);
        state.runtime_effects_generation = state.runtime_effects_generation + 1;
        self.set_sync(game_id, state);
        StagedRuntimeEffects { pending: state.pending_runtime_effects, generation: state.runtime_effects_generation }
    }

    /// Whether the game's staging counter can still move on, as staging
    /// requires.
    pub fn runtime_effects_can_stage(&self, game_id: &str) -> (r: bool)
        ensures
            r == (self.sync(game_id@).runtime_effects_generation < u64::MAX),
    {
        self.sync_of(game_id).runtime_effects_generation < u64::MAX
    }

    /// Clears the owed runtime work only when no newer staging happened since
    /// `staged`; returns what is still owed.
    pub fn acknowledge_runtime_effects(&mut self, game_id: &str, staged: StagedRuntimeEffects) -> (r: PendingRuntimeEffects)
        ensures
            acknowledge_runtime_effects_step(*old(self), *final(self), game_id, staged, r),

    {
        let mut state = self.sync_of(game_id);
        if state.runtime_effects_generation == staged.generation {
            state.pending_runtime_effects = PendingRuntimeEffects::none();
            self.set_sync(game_id, state);
        }
        state.pending_runtime_effects
    }

    /// Queues a runtime sync; the newest request replaces any older queued
    /// one. A worker must be started only when none is running.
    pub fn enqueue_runtime_sync(
        &mut self,
        game_id: &str,
        cause: String,
        publication_revision: Option<u64>,
        activation_authority: Option<ActivationAuthority>,
    ) -> (r: RuntimeSyncEnqueue)
        ensures
            enqueue_runtime_sync_step(*old(self), *final(self), game_id, cause, publication_revision, activation_authority, r),

    {
        let mut state = self.sync_of(game_id);
        state.runtime_sync_generation = state.runtime_sync_generation.saturating_add(1);
        let generation = state.runtime_sync_generation;
        let start_worker = !state.runtime_sync_worker_running;
        state.runtime_sync_worker_running = true;
        self.set_sync(game_id, state);
        let ghost cause_view = cause@;
        let ghost authority = authority_view(activation_authority);
        self.queued.insert(
            String::from_str(game_id),
            QueuedRuntimeSync { generation, cause, publication_revision, activation_authority },
        );
        assert(self.queued_job(game_id@) == Some((generation, cause_view, publication_revision, authority)));
        RuntimeSyncEnqueue { generation, start_worker }
    }

    /// Takes the latest queued runtime sync of the game, if any.
    pub fn claim_latest_runtime_sync(&mut self, game_id: &str) -> (r: Option<RuntimeSyncJob>)
        ensures
            claim_latest_runtime_sync_step(*old(self), *final(self), game_id, r),

    {
        let job = match self.queued.get(game_id) {
            Some(queued) => Some(RuntimeSyncJob {
                generation: queued.generation,
                cause: queued.cause.clone(),
                publication_revision: queued.publication_revision,
                activation_authority: match &queued.activation_authority {
                    Some(authority) => Some(ActivationAuthority {
                        game_id: authority.game_id.clone(),
                        generation: authority.generation,
                    }),
                    None => None,
                },
            }),
            None => None,
        };
        self.queued.remove(game_id);
        job
    }

    /// Whether `generation` is still the newest runtime sync request of the game.
    pub fn runtime_sync_is_current(&self, game_id: &str, generation: u64) -> (r: bool)
        ensures
            r == (self.sync(game_id@).runtime_sync_generation == generation),
    {
        self.sync_of(game_id).runtime_sync_generation == generation
    }

    /// Ends the work of `generation`. Returns true (and stops the worker) only
    /// when this generation is still the newest and nothing newer is queued;
    /// a newer request keeps the same worker alive.
    pub fn finish_runtime_sync(&mut self, game_id: &str, generation: u64) -> (r: bool)
        ensures
            finish_runtime_sync_step(*old(self), *final(self), game_id, generation, r),

    {
        let mut state = self.sync_of(game_id);
        if state.runtime_sync_generation == generation && !self.queued.contains_key(game_id) {
            state.runtime_sync_worker_running = false;
            self.set_sync(game_id, state);
            true
        } else {
            false
        }
    }
}


impl DiskReconcileState {
    /// The newest recorded reconcile result of the game.
    pub fn authoritative_result(&self, game_id: &str) -> (r: Option<DiskReconcileResult>)
        ensures
            r.is_some() == self.has_result(game_id@),
            r matches Some(result) ==> same_result(result, self.result(game_id@)),
    {
        match self.last_results.get(game_id) {
            Some(result) => Some(copy_result(result)),
            None => None,
        }
    }

    /// The newest result when it is a clean `Applied` pass that completed at
    /// most `max_age_ms` before `now_ms`.
    pub fn recent_applied_result(&self, game_id: &str, now_ms: u64, max_age_ms: u64) -> (r: Option<DiskReconcileResult>)
        ensures
            r.is_some() == (self.has_result(game_id@)
                && self.result_status(game_id@) == DiskReconcileStatus::Applied
                && (self.sync(game_id@).completed_at_ms matches Some(done)
                && (if now_ms >= done { now_ms - done } else { 0 }) <= max_age_ms)),
            r matches Some(result) ==> same_result(result, self.result(game_id@)),
    {
        let completed = match self.sync_of(game_id).completed_at_ms {
            Some(done) => done,
            None => return None,
        };
        if now_ms.saturating_sub(completed) > max_age_ms {
            return None;
        }
        match self.last_results.get(game_id) {
            Some(result) => {
                if result.status == DiskReconcileStatus::Applied {
                    Some(copy_result(result))
                } else {
                    None
                }
            },
            None => None,
        }
    }
}

impl DiskReconcileState {
    /// Starts a new activation for `game_id` (or for no game) and returns its
    /// generation; every earlier activation stops being current.
    pub fn begin_activation(&mut self, game_id: Option<String>) -> (r: u64)
        ensures
            begin_activation_step(*old(self), *final(self), game_id, r),

    {
        self.activation_generation = self.activation_generation.saturating_add(1);
        self.activation_game = game_id;
        self.activation_generation
    }

    /// Whether activation `generation` for `game_id` is still the current one.
    pub fn activation_is_current(&self, game_id: Option<&str>, generation: u64) -> (r: bool)
        ensures
            r == (self.activation() == generation && self.activated_game() == (match game_id {
                Some(g) => Some(g@),
                None => None::<Seq<char>>,
            })),
    {
        if self.activation_generation != generation {
            return false;
        }
        match (&self.activation_game, game_id) {
            (Some(current), Some(requested)) => {
                let requested = String::from_str(requested);
                *current == requested
            },
            (None, None) => true,
            _ => false,
        }
    }

    /// Publication authority for `game_id` under the current activation, when
    /// that game is the activated one.
    pub fn activation_authority_for(&self, game_id: &str) -> (r: Option<ActivationAuthority>)
        ensures
            self.activated_game() == Some(game_id@) ==> (r matches Some(a) && a.game_id@ == game_id@
                && a.generation == self.activation()),
            self.activated_game() != Some(game_id@) ==> r.is_none(),
    {
        let generation = self.activation_generation;
        self.activation_authority_for_generation(game_id, generation)
    }

    /// Publication authority for `game_id` only while activation `generation`
    /// of that game is current.
    pub fn activation_authority_for_generation(&self, game_id: &str, generation: u64) -> (r: Option<ActivationAuthority>)
        ensures
            (self.activated_game() == Some(game_id@) && self.activation() == generation) ==> (r matches Some(a)
                && a.game_id@ == game_id@ && a.generation == generation),
            !(self.activated_game() == Some(game_id@) && self.activation() == generation) ==> r.is_none(),
    {
        if self.activation_is_current(Some(game_id), generation) {
            Some(ActivationAuthority { game_id: String::from_str(game_id), generation })
        } else {
            None
        }
    }

    /// Whether a publication authority is still backed by the current activation.
    pub fn authority_is_current(&self, authority: &ActivationAuthority) -> (r: bool)
        ensures
            r == (self.activation() == authority.generation && self.activated_game() == Some(authority.game_id@)),
    {
        self.activation_is_current(Some(authority.game_id.as_str()), authority.generation)
    }

    /// The readiness of the game's initial recovery.
    pub fn initial_recovery_readiness(&self, game_id: &str) -> (r: InitialRecoveryReadiness)
        ensures
            r == readiness_of(self.gate_generation(game_id@), self.gate_stage(game_id@)),
    {
        match self.gates.get(game_id) {
            Some(gate) => {
                let generation = gate.generation;
                match &gate.status {
                    RecoveryStatus::Unstarted => InitialRecoveryReadiness::Unstarted { generation },
                    RecoveryStatus::Pending => InitialRecoveryReadiness::Syncing { generation },
                    RecoveryStatus::Finished(InitialRecoveryOutcome::Completed(_)) => InitialRecoveryReadiness::Ready { generation },
                    RecoveryStatus::Finished(InitialRecoveryOutcome::Failed(_)) => InitialRecoveryReadiness::Failed { generation },
                }
            },
            None => InitialRecoveryReadiness::Unstarted { generation: 0 },
        }
    }

    fn set_gate(&mut self, game_id: &str, generation: u64, status: RecoveryStatus)
        ensures
            final(self).gate_generation(game_id@) == generation,
            final(self).gate_stage(game_id@) == status.stage(),
            final(self).gate_outcome(game_id@) == match status {
                RecoveryStatus::Finished(o) => Some(o),
                _ => None::<InitialRecoveryOutcome>,
            },
            forall|g: Seq<char>| g != game_id@ ==> final(self).gate_generation(g) == old(self).gate_generation(g)
                && final(self).gate_stage(g) == old(self).gate_stage(g) && final(self).gate_outcome(g) == old(self).gate_outcome(g),
            final(self).games@ == old(self).games@,
            final(self).queued@ == old(self).queued@,
            final(self).last_results@ == old(self).last_results@,
            final(self).activation_generation == old(self).activation_generation,
            final(self).activation_game == old(self).activation_game,
    {
        self.gates.insert(String::from_str(game_id), RecoveryGate { generation, status });
    }

    /// Starts the game's initial recovery exactly once without making a
    /// reader wait: the caller receiving `Run` owns that generation and must
    /// finish it.
    pub fn start_initial_recovery(&mut self, game_id: &str) -> (r: InitialRecoveryStart)
        requires
            old(self).gate_generation(game_id@) < u64::MAX,
        ensures
            start_initial_recovery_step(*old(self), *final(self), game_id, r),

    {
        let (generation, stage) = match self.gates.get(game_id) {
            Some(gate) => match &gate.status {
                RecoveryStatus::Unstarted => (gate.generation, RecoveryStage::Unstarted),
                RecoveryStatus::Pending => (gate.generation, RecoveryStage::Pending),
                RecoveryStatus::Finished(outcome) => {
                    return InitialRecoveryStart::Finished(outcome.duplicate());
                },
            },
            None => (0, RecoveryStage::Unstarted),
        };
        if stage == RecoveryStage::Pending {
            return InitialRecoveryStart::Syncing { generation };
        }
        let generation = generation + 1;
        self.set_gate(game_id, generation, RecoveryStatus::Pending);
        InitialRecoveryStart::Run { generation }
    }

    /// Marks a new pending recovery generation owned by the caller.
    pub fn mark_initial_recovery_pending(&mut self, game_id: &str) -> (r: u64)
        requires
            old(self).gate_generation(game_id@) < u64::MAX,
        ensures
            r == old(self).gate_generation(game_id@) + 1,
            final(self).gate_generation(game_id@) == r,
            final(self).gate_stage(game_id@) == RecoveryStage::Pending,
            forall|g: Seq<char>| g != game_id@ ==> final(self).gate_generation(g) == old(self).gate_generation(g)
                && final(self).gate_stage(g) == old(self).gate_stage(g),
            forall|g: Seq<char>| final(self).sync(g) == old(self).sync(g),
            forall|g: Seq<char>| final(self).queued_job(g) == old(self).queued_job(g),
    {
        let generation = self.gate_generation_of(game_id) + 1;
        self.set_gate(game_id, generation, RecoveryStatus::Pending);
        generation
    }

    fn gate_generation_of(&self, game_id: &str) -> (r: u64)
        ensures
            r == self.gate_generation(game_id@),
    {
        match self.gates.get(game_id) {
            Some(gate) => gate.generation,
            None => 0,
        }
    }

    /// Makes the game's next read start a fresh recovery; completions of
    /// earlier generations are ignored from now on.
    pub fn reset_initial_recovery(&mut self, game_id: &str)
        requires
            old(self).gate_generation(game_id@) < u64::MAX,
        ensures
            reset_initial_recovery_step(*old(self), *final(self), game_id),

    {
        let generation = self.gate_generation_of(game_id) + 1;
        self.set_gate(game_id, generation, RecoveryStatus::Unstarted);
        let mut state = self.sync_of(game_id);
        state.completed_at_ms = None;
        self.set_sync(game_id, state);
    }

    /// Records the terminal outcome of recovery `generation`; ignored unless
    /// that generation is still the pending one.
    pub fn finish_initial_recovery(&mut self, game_id: &str, generation: u64, outcome: InitialRecoveryOutcome)
        ensures
            finish_initial_recovery_step(*old(self), *final(self), game_id, generation, outcome),

    {
        let pending_now = match self.gates.get(game_id) {
            Some(gate) => gate.generation == generation && matches!(gate.status, RecoveryStatus::Pending),
            None => false,
        };
        if pending_now {
            self.set_gate(game_id, generation, RecoveryStatus::Finished(outcome));
        }
    }

    /// Assigns the next reconcile revision of the game to `result` and keeps
    /// it as the game's newest result. Once the initial recovery is terminal,
    /// this result also becomes its disk-authoritative outcome.
    pub fn record_result(&mut self, game_id: &str, result: &mut DiskReconcileResult, completed_at_ms: u64)
        ensures
            final(result).reconcile_revision == sat_inc(old(self).sync(game_id@).reconcile_revision),
            final(result).status == old(result).status,
            final(result).scan_scope == old(result).scan_scope,
            final(self).sync(game_id@) == (GameSyncState {
                reconcile_revision: final(result).reconcile_revision,
                completed_at_ms: Some(completed_at_ms),
                ..old(self).sync(game_id@)
            }),
            final(self).has_result(game_id@),
            same_result(final(self).result(game_id@), *final(result)),
            forall|g: Seq<char>| g != game_id@ ==> final(self).has_result(g) == old(self).has_result(g)
                && final(self).result(g) == old(self).result(g),
            *final(result) == (DiskReconcileResult { reconcile_revision: final(result).reconcile_revision, ..*old(result) }),
            (old(self).gate_stage(game_id@) == RecoveryStage::Completed || old(self).gate_stage(game_id@) == RecoveryStage::Failed)
                ==> final(self).gate_stage(game_id@) == RecoveryStage::Completed && (final(self).gate_outcome(game_id@) matches Some(
                InitialRecoveryOutcome::Completed(kept),
            ) && same_result(*kept, *final(result))),
            !(old(self).gate_stage(game_id@) == RecoveryStage::Completed || old(self).gate_stage(game_id@) == RecoveryStage::Failed)
                ==> final(self).gate_stage(game_id@) == old(self).gate_stage(game_id@)
                && final(self).gate_outcome(game_id@) == old(self).gate_outcome(game_id@),
            final(self).gate_generation(game_id@) == old(self).gate_generation(game_id@),
            forall|g: Seq<char>| g != game_id@ ==> final(self).sync(g) == old(self).sync(g),
            forall|g: Seq<char>| g != game_id@ ==> final(self).gate_generation(g) == old(self).gate_generation(g)
                && final(self).gate_stage(g) == old(self).gate_stage(g) && final(self).gate_outcome(g) == old(self).gate_outcome(g),
            forall|g: Seq<char>| final(self).queued_job(g) == old(self).queued_job(g),
    {
        let mut state = self.sync_of(game_id);
        state.reconcile_revision = state.reconcile_revision.saturating_add(1);
        state.completed_at_ms = Some(completed_at_ms);
        self.set_sync(game_id, state);
        result.reconcile_revision = state.reconcile_revision;
        let stored = copy_result(result);
        self.last_results.insert(String::from_str(game_id), stored);
        let finished = match self.gates.get(game_id) {
            Some(gate) => match &gate.status {
                RecoveryStatus::Finished(_) => Some(gate.generation),
                _ => None,
            },
            None => None,
        };
        if let Some(generation) = finished {
            self.set_gate(game_id, generation, RecoveryStatus::Finished(InitialRecoveryOutcome::Completed(Box::new(copy_result(result)))));
        }
    }
}


/// The state transitions of `DiskReconcileState`, as its operations guarantee them.

pub open spec fn stage_runtime_effects_step(pre: DiskReconcileState, post: DiskReconcileState, game_id: &str, requested: PendingRuntimeEffects, r: StagedRuntimeEffects) -> bool {
    &&& r.pending == merged_effects(pre.sync(game_id@).pending_runtime_effects, requested)
    &&& r.generation == pre.sync(game_id@).runtime_effects_generation + 1
    &&& post.sync(game_id@) == (GameSyncState {
                    pending_runtime_effects: r.pending,
                    runtime_effects_generation: r.generation,
                    ..pre.sync(game_id@)
                })
    &&& forall|g: Seq<char>| g != game_id@ ==> post.sync(g) == pre.sync(g)
    &&& forall|g: Seq<char>| post.queued_job(g) == pre.queued_job(g)
}

pub open spec fn acknowledge_runtime_effects_step(pre: DiskReconcileState, post: DiskReconcileState, game_id: &str, staged: StagedRuntimeEffects, r: PendingRuntimeEffects) -> bool {
    &&& pre.sync(game_id@).runtime_effects_generation == staged.generation ==> {
                    &&& r == no_runtime_effects()
                    &&& post.sync(game_id@) == (GameSyncState { pending_runtime_effects: no_runtime_effects(), ..pre.sync(game_id@) })
                }
    &&& pre.sync(game_id@).runtime_effects_generation != staged.generation ==> {
                    &&& r == pre.sync(game_id@).pending_runtime_effects
                    &&& post.sync(game_id@) == pre.sync(game_id@)
                }
    &&& forall|g: Seq<char>| g != game_id@ ==> post.sync(g) == pre.sync(g)
    &&& forall|g: Seq<char>| post.queued_job(g) == pre.queued_job(g)
}

pub open spec fn enqueue_runtime_sync_step(
    pre: DiskReconcileState,
    post: DiskReconcileState,
    game_id: &str,
    cause: String,
    publication_revision: Option<u64>,
    activation_authority: Option<ActivationAuthority>,
    r: RuntimeSyncEnqueue,
) -> bool {
    &&& r.generation == sat_inc(pre.sync(game_id@).runtime_sync_generation)
    &&& r.start_worker == !pre.sync(game_id@).runtime_sync_worker_running
    &&& post.sync(game_id@) == (GameSyncState {
                    runtime_sync_generation: r.generation,
                    runtime_sync_worker_running: true,
                    ..pre.sync(game_id@)
                })
    &&& post.queued_job(game_id@) == Some((r.generation, cause@, publication_revision, authority_view(activation_authority)))
    &&& forall|g: Seq<char>| g != game_id@ ==> post.sync(g) == pre.sync(g)
    &&& forall|g: Seq<char>| g != game_id@ ==> post.queued_job(g) == pre.queued_job(g)
}

pub open spec fn claim_latest_runtime_sync_step(pre: DiskReconcileState, post: DiskReconcileState, game_id: &str, r: Option<RuntimeSyncJob>) -> bool {
    &&& match pre.queued_job(game_id@) {
                    Some((generation, cause, revision, authority)) => r matches Some(job) && job.generation == generation
                        && job.cause@ == cause && job.publication_revision == revision
                        && authority_view(job.activation_authority) == authority,
                    None => r.is_none(),
                }
    &&& post.queued_job(game_id@).is_none()
    &&& forall|g: Seq<char>| g != game_id@ ==> post.queued_job(g) == pre.queued_job(g)
    &&& forall|g: Seq<char>| post.sync(g) == pre.sync(g)
}

pub open spec fn finish_runtime_sync_step(pre: DiskReconcileState, post: DiskReconcileState, game_id: &str, generation: u64, r: bool) -> bool {
    &&& r == (pre.sync(game_id@).runtime_sync_generation == generation
                    && pre.queued_job(game_id@).is_none())
    &&& r ==> post.sync(game_id@) == (GameSyncState { runtime_sync_worker_running: false, ..pre.sync(game_id@) })
    &&& !r ==> post.sync(game_id@) == pre.sync(game_id@)
    &&& forall|g: Seq<char>| g != game_id@ ==> post.sync(g) == pre.sync(g)
    &&& forall|g: Seq<char>| post.queued_job(g) == pre.queued_job(g)
}

pub open spec fn begin_activation_step(pre: DiskReconcileState, post: DiskReconcileState, game_id: Option<String>, r: u64) -> bool {
    &&& r == sat_inc(pre.activation())
    &&& post.activation() == r
    &&& post.activated_game() == (match game_id { Some(g) => Some(g@), None => None::<Seq<char>> })
    &&& forall|g: Seq<char>| post.sync(g) == pre.sync(g)
    &&& forall|g: Seq<char>| post.queued_job(g) == pre.queued_job(g)
    &&& forall|g: Seq<char>| post.gate_generation(g) == pre.gate_generation(g)
                    && post.gate_stage(g) == pre.gate_stage(g)
    &&& forall|g: Seq<char>| post.has_result(g) == pre.has_result(g) && post.result(g) == pre.result(g)
}

pub open spec fn start_initial_recovery_step(pre: DiskReconcileState, post: DiskReconcileState, game_id: &str, r: InitialRecoveryStart) -> bool {
    &&& pre.gate_stage(game_id@) == RecoveryStage::Unstarted ==> {
                    &&& r matches InitialRecoveryStart::Run { generation } && generation == pre.gate_generation(game_id@) + 1
                    &&& post.gate_generation(game_id@) == pre.gate_generation(game_id@) + 1
                    &&& post.gate_stage(game_id@) == RecoveryStage::Pending
                }
    &&& pre.gate_stage(game_id@) == RecoveryStage::Pending ==> {
                    &&& r matches InitialRecoveryStart::Syncing { generation } && generation == pre.gate_generation(game_id@)
                    &&& post.gate_generation(game_id@) == pre.gate_generation(game_id@)
                    &&& post.gate_stage(game_id@) == pre.gate_stage(game_id@)
                }
    &&& (pre.gate_stage(game_id@) == RecoveryStage::Completed || pre.gate_stage(game_id@) == RecoveryStage::Failed) ==> {
                    &&& r matches InitialRecoveryStart::Finished(o) && o.spec_stage() == pre.gate_stage(game_id@)
                        && (pre.gate_outcome(game_id@) matches Some(kept) && same_outcome(o, kept))
                    &&& post.gate_outcome(game_id@) == pre.gate_outcome(game_id@)
                    &&& post.gate_generation(game_id@) == pre.gate_generation(game_id@)
                    &&& post.gate_stage(game_id@) == pre.gate_stage(game_id@)
                }
    &&& forall|g: Seq<char>| g != game_id@ ==> post.gate_generation(g) == pre.gate_generation(g)
                    && post.gate_stage(g) == pre.gate_stage(g) && post.gate_outcome(g) == pre.gate_outcome(g)
    &&& forall|g: Seq<char>| post.sync(g) == pre.sync(g)
    &&& forall|g: Seq<char>| post.queued_job(g) == pre.queued_job(g)
}

pub open spec fn reset_initial_recovery_step(pre: DiskReconcileState, post: DiskReconcileState, game_id: &str) -> bool {
    &&& post.gate_generation(game_id@) == pre.gate_generation(game_id@) + 1
    &&& post.gate_stage(game_id@) == RecoveryStage::Unstarted
    &&& post.gate_outcome(game_id@).is_none()
    &&& forall|g: Seq<char>| g != game_id@ ==> post.gate_generation(g) == pre.gate_generation(g)
                    && post.gate_stage(g) == pre.gate_stage(g) && post.gate_outcome(g) == pre.gate_outcome(g)
    &&& post.sync(game_id@) == (GameSyncState { completed_at_ms: None, ..pre.sync(game_id@) })
    &&& forall|g: Seq<char>| g != game_id@ ==> post.sync(g) == pre.sync(g)
    &&& forall|g: Seq<char>| post.queued_job(g) == pre.queued_job(g)
}

pub open spec fn finish_initial_recovery_step(pre: DiskReconcileState, post: DiskReconcileState, game_id: &str, generation: u64, outcome: InitialRecoveryOutcome) -> bool {
    &&& (pre.gate_generation(game_id@) == generation && pre.gate_stage(game_id@) == RecoveryStage::Pending) ==>
                    post.gate_stage(game_id@) == outcome.spec_stage() && post.gate_outcome(game_id@) == Some(outcome)
    &&& !(pre.gate_generation(game_id@) == generation && pre.gate_stage(game_id@) == RecoveryStage::Pending) ==>
                    post.gate_stage(game_id@) == pre.gate_stage(game_id@) && post.gate_outcome(game_id@) == pre.gate_outcome(game_id@)
    &&& post.gate_generation(game_id@) == pre.gate_generation(game_id@)
    &&& forall|g: Seq<char>| g != game_id@ ==> post.gate_generation(g) == pre.gate_generation(g)
                    && post.gate_stage(g) == pre.gate_stage(g) && post.gate_outcome(g) == pre.gate_outcome(g)
    &&& forall|g: Seq<char>| post.sync(g) == pre.sync(g)
    &&& forall|g: Seq<char>| post.queued_job(g) == pre.queued_job(g)
}


/// Each recorded result of a game carries a newer revision than the one
/// recorded before it, until the counter reaches its maximum and stays
/// there: `first` and `second` are the revisions two successive
/// `record_result` calls on the game gave.
pub proof fn law_reconcile_revisions_increase(
    before: DiskReconcileState,
    between: DiskReconcileState,
    game_id: Seq<char>,
    first: u64,
    second: u64,
)
    requires
        first == sat_inc(before.sync(game_id).reconcile_revision),
        between.sync(game_id).reconcile_revision == first,
        second == sat_inc(between.sync(game_id).reconcile_revision),
    ensures
        first > before.sync(game_id).reconcile_revision || first == u64::MAX,
        second > first || (first == u64::MAX && second == u64::MAX),
{
}

/// Latest wins: when two runtime syncs are queued for a game before its
/// worker claims one, the worker receives the second request, and the second
/// enqueue does not start another worker.
pub proof fn law_runtime_sync_latest_wins(
    s0: DiskReconcileState, s1: DiskReconcileState, s2: DiskReconcileState, s3: DiskReconcileState,
    game_id: &str,
    first_cause: String, first_revision: Option<u64>, first_authority: Option<ActivationAuthority>,
    first: RuntimeSyncEnqueue,
    second_cause: String, second_revision: Option<u64>, second_authority: Option<ActivationAuthority>,
    second: RuntimeSyncEnqueue,
    job: Option<RuntimeSyncJob>,
)
    requires
        enqueue_runtime_sync_step(s0, s1, game_id, first_cause, first_revision, first_authority, first),
        enqueue_runtime_sync_step(s1, s2, game_id, second_cause, second_revision, second_authority, second),
        claim_latest_runtime_sync_step(s2, s3, game_id, job),
    ensures
        job matches Some(j) && j.generation == second.generation && j.cause@ == second_cause@
            && j.publication_revision == second_revision
            && authority_view(j.activation_authority) == authority_view(second_authority),
        !second.start_worker,
        first.generation <= second.generation,
{
}

/// Single flight: a worker whose generation was superseded while it ran
/// cannot finish; the newer generation, once claimed and finished, can.
pub proof fn law_superseded_runtime_sync_cannot_finish(
    s0: DiskReconcileState, s1: DiskReconcileState, s2: DiskReconcileState, s3: DiskReconcileState,
    s4: DiskReconcileState, s5: DiskReconcileState, s6: DiskReconcileState,
    game_id: &str,
    first_cause: String, first_revision: Option<u64>, first_authority: Option<ActivationAuthority>,
    first: RuntimeSyncEnqueue,
    first_job: Option<RuntimeSyncJob>,
    second_cause: String, second_revision: Option<u64>, second_authority: Option<ActivationAuthority>,
    second: RuntimeSyncEnqueue,
    first_finished: bool,
    second_job: Option<RuntimeSyncJob>,
    second_finished: bool,
)
    requires
        s0.sync(game_id@).runtime_sync_generation < u64::MAX - 1,
        enqueue_runtime_sync_step(s0, s1, game_id, first_cause, first_revision, first_authority, first),
        claim_latest_runtime_sync_step(s1, s2, game_id, first_job),
        enqueue_runtime_sync_step(s2, s3, game_id, second_cause, second_revision, second_authority, second),
        finish_runtime_sync_step(s3, s4, game_id, first.generation, first_finished),
        claim_latest_runtime_sync_step(s4, s5, game_id, second_job),
        finish_runtime_sync_step(s5, s6, game_id, second.generation, second_finished),
    ensures
        first.generation < second.generation,
        !first_finished,
        second_job matches Some(j) && j.generation == second.generation,
        second_finished,
        !s6.sync(game_id@).runtime_sync_worker_running,
{
}

/// Owed runtime work survives a settlement of an older staging: it is
/// cleared only by acknowledging the newest staging.
pub proof fn law_runtime_effects_persist_until_acknowledged(
    s0: DiskReconcileState, s1: DiskReconcileState, s2: DiskReconcileState, s3: DiskReconcileState,
    s4: DiskReconcileState,
    game_id: &str,
    first_request: PendingRuntimeEffects, first: StagedRuntimeEffects,
    second_request: PendingRuntimeEffects, second: StagedRuntimeEffects,
    stale_ack: PendingRuntimeEffects, fresh_ack: PendingRuntimeEffects,
)
    requires
        stage_runtime_effects_step(s0, s1, game_id, first_request, first),
        stage_runtime_effects_step(s1, s2, game_id, second_request, second),
        acknowledge_runtime_effects_step(s2, s3, game_id, first, stale_ack),
        acknowledge_runtime_effects_step(s3, s4, game_id, second, fresh_ack),
    ensures
        stale_ack == merged_effects(merged_effects(s0.sync(game_id@).pending_runtime_effects, first_request), second_request),
        fresh_ack == no_runtime_effects(),
        s4.sync(game_id@).pending_runtime_effects == no_runtime_effects(),
{
}

/// Initial recovery runs once: while a started recovery is pending, a second
/// start is told to wait for the same generation instead of running again.
pub proof fn law_initial_recovery_runs_once(
    s0: DiskReconcileState, s1: DiskReconcileState, s2: DiskReconcileState,
    game_id: &str, first: InitialRecoveryStart, second: InitialRecoveryStart,
)
    requires
        start_initial_recovery_step(s0, s1, game_id, first),
        start_initial_recovery_step(s1, s2, game_id, second),
    ensures
        first matches InitialRecoveryStart::Run { generation } ==>
            (second matches InitialRecoveryStart::Syncing { generation: g2 } && g2 == generation),
        !(second is Run),
{
}

/// One run per recovery generation, and its waiters get its outcome: once a
/// caller received `Run` for a generation, a caller arriving meanwhile is
/// told to wait for that same generation; once the runner finishes it, the
/// next caller receives the outcome of that run instead of running again.
pub proof fn law_waiters_receive_the_runs_outcome(
    s0: DiskReconcileState, s1: DiskReconcileState, s2: DiskReconcileState, s3: DiskReconcileState,
    s4: DiskReconcileState, game_id: &str, generation: u64, waiting: InitialRecoveryStart,
    outcome: InitialRecoveryOutcome, after: InitialRecoveryStart,
)
    requires
        start_initial_recovery_step(s0, s1, game_id, InitialRecoveryStart::Run { generation }),
        start_initial_recovery_step(s1, s2, game_id, waiting),
        finish_initial_recovery_step(s2, s3, game_id, generation, outcome),
        start_initial_recovery_step(s3, s4, game_id, after),
    ensures
        waiting matches InitialRecoveryStart::Syncing { generation: g } && g == generation,
        after matches InitialRecoveryStart::Finished(o) && same_outcome(o, outcome),
        s4.gate_generation(game_id@) == generation,
        s4.gate_stage(game_id@) == outcome.spec_stage(),
{
}

/// A reset makes the completion of the recovery generation it replaced
/// irrelevant: that completion is ignored and the next start runs anew.
pub proof fn law_reset_ignores_stale_recovery_completion(
    s0: DiskReconcileState, s1: DiskReconcileState, s2: DiskReconcileState, s3: DiskReconcileState,
    game_id: &str, outcome: InitialRecoveryOutcome, next: InitialRecoveryStart,
)
    requires
        s0.gate_generation(game_id@) < u64::MAX - 1,
        reset_initial_recovery_step(s0, s1, game_id),
        finish_initial_recovery_step(s1, s2, game_id, s0.gate_generation(game_id@), outcome),
        start_initial_recovery_step(s2, s3, game_id, next),
    ensures
        s2.gate_stage(game_id@) == RecoveryStage::Unstarted,
        next matches InitialRecoveryStart::Run { generation } && generation == s0.gate_generation(game_id@) + 2,
{
}

/// Only the latest activation is current: beginning a second activation
/// revokes the first one, whatever games they name.
pub proof fn law_only_latest_activation_is_current(
    s0: DiskReconcileState, s1: DiskReconcileState, s2: DiskReconcileState,
    first_game: Option<String>, first: u64, second_game: Option<String>, second: u64,
)
    requires
        s0.activation() < u64::MAX - 1,
        begin_activation_step(s0, s1, first_game, first),
        begin_activation_step(s1, s2, second_game, second),
    ensures
        first < second,
        s2.activation() == second,
        s2.activation() != first,
{
}

} // verus!

verus! {

impl ActivationAuthority {
    /// Runs `commit` only while this authority is still the current
    /// activation, and gives its result; otherwise nothing runs.
    pub fn with_current<T, F: FnOnce() -> T>(&self, state: &DiskReconcileState, commit: F) -> (r: Option<T>)
        requires
            commit.requires(()),
        ensures
            (state.activation() == self.generation && state.activated_game() == Some(self.game_id@))
                ==> (r matches Some(v) && commit.ensures((), v)),
            !(state.activation() == self.generation && state.activated_game() == Some(self.game_id@)) ==> r is None,
    {
        if state.authority_is_current(self) {
            Some(commit())
        } else {
            None
        }
    }

    /// The authority of the current activation, when it selected `game_id`.
    pub fn current_for(state: &DiskReconcileState, game_id: &str) -> (r: Option<ActivationAuthority>)
        ensures
            state.activated_game() == Some(game_id@) ==> (r matches Some(a) && a.game_id@ == game_id@
                && a.generation == state.activation()),
            state.activated_game() != Some(game_id@) ==> r.is_none(),
    {
        state.activation_authority_for(game_id)
    }
}

} // verus!
