//! The training manager: sole owner of the registry of runs.
//!
//! Its driver takes the outbox after every turn and carries the actions out:
//! it starts training backends, sets their control channels and broadcasts to
//! viewers. Late events from a winding-down (reset) run are ignored via the
//! run id: Reset removes the run from the registry, so a thread message whose
//! id is no longer registered is dropped.

use std::collections::{HashMap, VecDeque};

use vstd::prelude::*;
use vstd::string::*;

pub use crate::model::{Action, ManagerEvent, Outcome, Phase, RunStatus, MAX_RUNS};

use crate::clock::{is_clock_reading, now, Timestamp};
use crate::dataset::{
    check_name, name_refusal, refused, snapshot_file, validate_dataset, SnapshotProbe,
};
use crate::ids::{id_text, is_random_id, new_run_id, RunId};
use crate::model::{
    action_of, active_ids, fresh_run, lemma_active_after_insert, lemma_active_after_replace,
    lemma_active_after_wipe, unknown_run_text, ManagerView, RunView,
};
use crate::protocol::TrainingCommand;
use crate::replay::{
    batch_count, lemma_batch_count_push, lemma_without_oldest_batch, MAX_REPLAY_BATCH_EVENTS,
};
use crate::text::{outcome_text, trim, trimmed};
use crate::train::{ControlState, ThreadMsg, TrainAction, TrainEvent, TrainExit, TrainParams};

verus! {

/// Snapshot for late/reattaching viewers: run status and replay buffer, taken
/// in one turn of the manager. The driver opens the viewer's live subscription
/// in the same turn, so no event can interleave between them.
#[derive(Debug, PartialEq)]
pub struct AttachDump {
    pub id: RunId,
    pub status: RunStatus,
    /// Buffered Batch/EpochEnd events (replay for new viewers). Batch points
    /// are capped (oldest dropped); epoch summaries are kept for the whole run.
    pub replay: Vec<TrainEvent>,
}

/// Point-in-time snapshot of one run.
#[derive(Debug, PartialEq)]
pub struct Snapshot {
    pub id: RunId,
    pub status: RunStatus,
    pub replay: Vec<TrainEvent>,
    /// Metrics points produced so far, those included that the replay has
    /// dropped.
    pub points: usize,
}

/// Mailbox message to the manager.
#[derive(Debug, PartialEq)]
#[allow(inconsistent_fields)]
pub enum TrainCmd {
    Start { params: TrainParams, speed: u64, probe: SnapshotProbe },
    Command { cmd: TrainingCommand },
    Attach { id: RunId },
    Snapshot { id: Option<RunId> },
}

/// The answer to a mailbox message.
#[derive(Debug, PartialEq)]
pub enum TrainReply {
    Start(Result<RunId, String>),
    Command(Result<(), String>),
    Attach(Result<AttachDump, String>),
    Snapshot(Result<Snapshot, String>),
}

/// What callers are told once the manager no longer runs.
pub fn gone() -> (r: String)
    ensures
        r@ == "training manager is gone"@,
{
    "training manager is gone".to_string()
}

/// What callers are told about an id that is not registered.
pub fn unknown_run(id: RunId) -> (r: String)
    ensures
        r@ == unknown_run_text(id),
{
    "unknown training run ".to_string().concat(id_text(id).as_str())
}

/// State of one registered run.
pub struct RunState {
    status: RunStatus,
    /// Buffered Batch/EpochEnd events (replayed to new viewers; survives into
    /// `Ended` so late attachers still see the last run).
    replay: VecDeque<TrainEvent>,
    /// Number of `Batch` events currently in `replay` (epoch ends excluded).
    replay_batches: usize,
    /// Metrics points produced so far, buffered or not.
    points: usize,
    /// Value of the control channel of the training thread (`None` once the
    /// run ended).
    control: Option<ControlState>,
}

impl View for RunState {
    type V = RunView;

    closed spec fn view(&self) -> RunView {
        RunView {
            status: self.status,
            replay: self.replay@,
            points: self.points as nat,
            control: self.control,
        }
    }
}

impl RunState {
    /// The batch counter agrees with the buffer, and the run is consistent.
    pub closed spec fn wf(self) -> bool {
        &&& self.replay_batches == batch_count(self.replay@)
        &&& self@.valid()
    }

    /// A well-formed run is consistent: its buffer keeps to the cap.
    pub proof fn lemma_wf_valid(self)
        requires
            self.wf(),
        ensures
            self@.valid(),
    {
    }

    /// A run that has just been started.
    pub fn fresh(params: TrainParams, speed: u64, started_at: Timestamp) -> (r: RunState)
        ensures
            r.wf(),
            r@ == fresh_run(params, speed, started_at),
    {
        RunState {
            status: RunStatus::Active { phase: Phase::Running, config: params, started_at },
            replay: VecDeque::new(),
            replay_batches: 0,
            points: 0,
            control: Some(
                ControlState { action: TrainAction::Continue, batches_per_sec: speed },
            ),
        }
    }

    fn active_phase(&self) -> (r: Result<Phase, String>)
        ensures
            match r {
                Ok(phase) => self@.active() && phase == self@.status->Active_phase,
                Err(message) => !self@.active() && message@ == "no active run"@,
            },
    {
        match &self.status {
            RunStatus::Active { phase, .. } => Ok(*phase),
            _ => Err("no active run".to_string()),
        }
    }

    fn set_action(&mut self, action: TrainAction)
        ensures
            final(self)@ == old(self)@.with_action(action),
            final(self).replay_batches == old(self).replay_batches,
    {
        if let Some(control) = self.control {
            self.control = Some(ControlState { action, ..control });
        }
    }

    fn set_speed(&mut self, batches_per_sec: u64)
        ensures
            final(self)@ == old(self)@.with_speed(batches_per_sec),
            final(self).replay_batches == old(self).replay_batches,
    {
        if let Some(control) = self.control {
            self.control = Some(ControlState { batches_per_sec, ..control });
        }
    }

    fn set_phase(&mut self, phase: Phase)
        ensures
            final(self)@ == old(self)@.with_phase(phase),
            final(self).replay_batches == old(self).replay_batches,
    {
        if let RunStatus::Active { phase: p, .. } = &mut self.status {
            *p = phase;
        }
    }

    /// Whether the run is active, and when it was started.
    fn rank(&self) -> (r: (bool, Timestamp))
        ensures
            r.0 == self@.active(),
            r.1 == self@.status.start_time(),
    {
        match &self.status {
            RunStatus::Active { started_at, .. } => (true, *started_at),
            RunStatus::Ended { started_at, .. } => (false, *started_at),
        }
    }

    /// Place of the oldest batch point in the buffer.
    fn oldest_batch(&self) -> (r: Option<usize>)
        ensures
            match r {
                Some(at) => at < self.replay@.len() && self.replay@[at as int] is Batch && forall|
                    k: int,
                |
                    0 <= k < at ==> !(#[trigger] self.replay@[k] is Batch),
                None => forall|k: int|
                    0 <= k < self.replay@.len() ==> !(#[trigger] self.replay@[k] is Batch),
            },
    {
        let mut at: usize = 0;
        while at < self.replay.len()
            invariant
                at <= self.replay@.len(),
                forall|k: int| 0 <= k < at ==> !(#[trigger] self.replay@[k] is Batch),
            decreases self.replay@.len() - at,
        {
            if matches!(self.replay[at], TrainEvent::Batch { .. }) {
                return Some(at);
            }
            at += 1;
        }
        None
    }

    /// Buffer an event for late attachers. Epoch summaries are kept for the
    /// whole run; batch points beyond [`MAX_REPLAY_BATCH_EVENTS`] drop the
    /// oldest first, so a long run can't grow memory without bound.
    pub fn push_replay(&mut self, event: TrainEvent)
        requires
            old(self).wf(),
        ensures
            final(self).wf(),
            final(self)@ == old(self)@.with_event(event),
            old(self)@.metrics_only() && !(event is Paused) ==> final(self)@.metrics_only(),
    {
        let ghost before = self.replay@;
        let is_batch = matches!(event, TrainEvent::Batch { .. });
        self.replay.push_back(event);
        self.points = self.points.saturating_add(1);
        proof {
            lemma_batch_count_push(before, event);
        }
        if !is_batch {
            return;
        }
        self.replay_batches += 1;
        if self.replay_batches > MAX_REPLAY_BATCH_EVENTS {
            let ghost grown = self.replay@;
            assert(grown[grown.len() - 1] is Batch);
            if let Some(at) = self.oldest_batch() {
                let _ = self.replay.remove(at);
                self.replay_batches -= 1;
                proof {
                    lemma_without_oldest_batch(grown, at as int);
                }
            }
        }
    }

    /// The training thread has exited; whether the run was active until now.
    fn end(&mut self, outcome: Outcome) -> (r: bool)
        requires
            old(self).wf(),
        ensures
            final(self).wf(),
            final(self)@ == old(self)@.exited(outcome),
            r == old(self)@.active(),
    {
        self.control = None;
        if let RunStatus::Active { config, started_at, .. } = &self.status {
            self.status = RunStatus::Ended {
                outcome,
                config: config.clone(),
                started_at: *started_at,
            };
            true
        } else {
            false
        }
    }

    /// The buffered events, oldest first.
    fn buffered(&self) -> (r: Vec<TrainEvent>)
        ensures
            r@ == self@.replay,
    {
        let mut r: Vec<TrainEvent> = Vec::new();
        let mut i: usize = 0;
        while i < self.replay.len()
            invariant
                i <= self.replay@.len(),
                r@ == self.replay@.take(i as int),
            decreases self.replay@.len() - i,
        {
            r.push(self.replay[i]);
            i += 1;
        }
        assert(self.replay@.take(i as int) =~= self.replay@);
        r
    }
}

impl ManagerView {
    /// `actions` are the outstanding actions, in order; after they are taken
    /// there is none.
    pub open spec fn hands_out(self, actions: Seq<Action>, after: ManagerView) -> bool {
        &&& actions == self.outbox
        &&& after == (ManagerView { outbox: Seq::empty(), ..self })
    }

    /// `r` answers a start under the id `id`, as of `started_at`, and `after` is
    /// the manager then.
    pub open spec fn starts_as(
        self,
        params: TrainParams,
        speed: u64,
        probe: SnapshotProbe,
        id: RunId,
        started_at: Timestamp,
        r: Result<RunId, String>,
        after: ManagerView,
    ) -> bool {
        match self.start_refusal(params, probe) {
            Some(why) => r is Err && r->Err_0@ == why && after == self,
            None => r is Ok && r->Ok_0 == id && after == self.started(
                id,
                params,
                speed,
                started_at,
            ),
        }
    }

    /// `r` answers a start, and `after` is the manager then: an accepted one has a
    /// random id, and began at some reading of the clock.
    pub open spec fn starts(
        self,
        params: TrainParams,
        speed: u64,
        probe: SnapshotProbe,
        r: Result<RunId, String>,
        after: ManagerView,
    ) -> bool {
        match self.start_refusal(params, probe) {
            Some(why) => r is Err && r->Err_0@ == why && after == self,
            None => r is Ok && is_random_id(r->Ok_0) && exists|started_at: Timestamp|
                is_clock_reading(started_at) && after == #[trigger] self.started(
                    r->Ok_0,
                    params,
                    speed,
                    started_at,
                ),
        }
    }

    /// `r` answers a start before the store is looked at: why it is refused
    /// already, or which manifest file to probe.
    pub open spec fn shows_preflight(self, params: TrainParams, r: Result<String, String>) -> bool {
        match r {
            Ok(file) => !self.busy() && name_refusal(trimmed(params.config.dataset@)) is None
                && file@ == params.config.dataset@ + ".json"@,
            Err(message) => Some(message@) == (if self.busy() {
                Some("a training run is already active"@)
            } else {
                name_refusal(trimmed(params.config.dataset@))
            }),
        }
    }

    /// `r` answers a viewer that attaches to run `id`.
    pub open spec fn shows_attach(self, id: RunId, r: Result<AttachDump, String>) -> bool {
        match r {
            Ok(dump) => {
                &&& self.runs.contains_key(id)
                &&& dump.id == id
                &&& dump.status == self.runs[id].status
                &&& dump.replay@ == self.runs[id].replay
            },
            Err(message) => !self.runs.contains_key(id) && message@ == unknown_run_text(id),
        }
    }

    /// `r` answers a request for the status of run `id`, or of the latest run
    /// where it names none.
    pub open spec fn shows_snapshot(self, id: Option<RunId>, r: Result<Snapshot, String>) -> bool {
        match r {
            Ok(snap) => {
                &&& match id {
                    Some(id) => snap.id == id && self.runs.contains_key(id),
                    None => self.is_latest(snap.id),
                }
                &&& snap.status == self.runs[snap.id].status
                &&& snap.replay@ == self.runs[snap.id].replay
                &&& snap.points == self.runs[snap.id].points
            },
            Err(message) => match id {
                Some(id) => !self.runs.contains_key(id) && message@ == unknown_run_text(id),
                None => self.runs.dom() == Set::<RunId>::empty() && message@ == "no training run"@,
            },
        }
    }
}

/// The models of the registered runs.
spec fn view_runs(runs: Map<RunId, RunState>) -> Map<RunId, RunView> {
    Map::new(|id: RunId| runs.contains_key(id), |id: RunId| runs[id]@)
}

proof fn lemma_view_runs_insert(runs: Map<RunId, RunState>, id: RunId, run: RunState)
    ensures
        view_runs(runs.insert(id, run)) == view_runs(runs).insert(id, run@),
{
    assert(view_runs(runs.insert(id, run)) =~= view_runs(runs).insert(id, run@));
}

proof fn lemma_view_runs_remove(runs: Map<RunId, RunState>, id: RunId)
    ensures
        view_runs(runs.remove(id)) == view_runs(runs).remove(id),
{
    assert(view_runs(runs.remove(id)) =~= view_runs(runs).remove(id));
}

/// The manager: the registry of runs, and the actions that its driver has not
/// taken yet.
pub struct TrainManager {
    runs: HashMap<RunId, RunState>,
    outbox: Vec<Action>,
}

impl View for TrainManager {
    type V = ManagerView;

    closed spec fn view(&self) -> ManagerView {
        ManagerView { runs: view_runs(self.runs@), outbox: self.outbox@ }
    }
}

impl TrainManager {
    /// A well-formed manager is consistent.
    pub proof fn lemma_wf_valid(self)
        requires
            self.wf(),
        ensures
            self@.valid(),
    {
    }

    /// Every registered run is well-formed, and the registry is consistent.
    pub closed spec fn wf(self) -> bool {
        &&& self@.valid()
        &&& forall|id: RunId| #[trigger] self.runs@.contains_key(id) ==> self.runs@[id].wf()
    }

    /// A manager without runs.
    pub fn new() -> (m: TrainManager)
        ensures
            m.wf(),
            m@.runs == Map::<RunId, RunView>::empty(),
            m@.outbox == Seq::<Action>::empty(),
    {
        let m = TrainManager { runs: HashMap::new(), outbox: Vec::new() };
        assert(m@.runs =~= Map::<RunId, RunView>::empty());
        assert(active_ids(m@.runs) =~= Set::<RunId>::empty());
        m
    }

    /// Hands the outstanding actions to the driver, in order.
    pub fn take_actions(&mut self) -> (r: Vec<Action>)
        requires
            old(self).wf(),
        ensures
            final(self).wf(),
            old(self)@.hands_out(r@, final(self)@),
    {
        let mut r: Vec<Action> = Vec::new();
        std::mem::swap(&mut r, &mut self.outbox);
        r
    }

    fn broadcast(&mut self, event: ManagerEvent)
        ensures
            final(self)@ == old(self)@.broadcast(event),
            final(self).runs == old(self).runs,
    {
        self.outbox.push(Action::Broadcast(event));
    }

    /// The registered ids, each once, in no particular order.
    fn run_ids(&self) -> (r: Vec<RunId>)
        ensures
            r@.no_duplicates(),
            forall|id: RunId| #[trigger] r@.contains(id) <==> self.runs@.contains_key(id),
    {
        let mut r: Vec<RunId> = Vec::new();
        let ghost keys = vstd::std_specs::iter::IteratorSpec::remaining(&self.runs.keys());
        for id in it: self.runs.keys()
            invariant
                it.seq() == keys,
                r@ == keys.unref().take(it.index() as int),
        {
            r.push(*id);
        }
        proof {
            assert(r@ =~= keys.unref());
            assert forall|id: RunId| #[trigger] r@.contains(id) <==> self.runs@.contains_key(
                id,
            ) by {
                assert(r@.to_set().contains(id) <==> self.runs@.dom().contains(id));
            }
        }
        r
    }

    /// Number of active runs.
    fn active_count(&self) -> (r: usize)
        ensures
            r == active_ids(self@.runs).len(),
    {
        let ids = self.run_ids();
        let mut active: usize = 0;
        let mut i: usize = 0;
        let ghost mut seen: Set<RunId> = Set::empty();
        while i < ids.len()
            invariant
                i <= ids.len(),
                ids@.no_duplicates(),
                forall|id: RunId| #[trigger] ids@.contains(id) <==> self.runs@.contains_key(id),
                seen.finite(),
                active == seen.len(),
                active <= i,
                forall|id: RunId| #[trigger]
                    seen.contains(id) <==> ids@.take(i as int).contains(id)
                        && self.runs@[id]@.active(),
            decreases ids.len() - i,
        {
            let id = ids[i];
            proof {
                assert(ids@.contains(id));
                assert(!ids@.take(i as int).contains(id));
                assert(ids@.take(i + 1) =~= ids@.take(i as int).push(id));
                assert(forall|k: RunId| #[trigger]
                    ids@.take(i + 1).contains(k) <==> ids@.take(i as int).contains(k) || k == id)
                    by {
                    broadcast use vstd::seq_lib::group_seq_properties;

                }
            }
            if let Some(run) = self.runs.get(&id) {
                if matches!(run.status, RunStatus::Active { .. }) {
                    active += 1;
                    proof {
                        seen = seen.insert(id);
                    }
                }
            }
            i += 1;
        }
        proof {
            assert(ids@.take(i as int) =~= ids@);
            assert(seen =~= active_ids(self@.runs));
        }
        active
    }

    /// Refuses a start that the store need not be looked at for: because of an
    /// active run, or of the dataset's name. Where there is no such reason, the
    /// file name of the snapshot manifest to probe.
    pub fn preflight(&self, params: &TrainParams) -> (r: Result<String, String>)
        requires
            self.wf(),
        ensures
            self@.shows_preflight(*params, r),
    {
        if self.active_count() >= MAX_RUNS {
            return Err("a training run is already active".to_string());
        }
        let dataset = params.config.dataset.as_str();
        match check_name(trim(dataset)) {
            Ok(()) => Ok(snapshot_file(dataset)),
            Err(message) => Err(message),
        }
    }

    /// Refuses a start because of an active run or of the dataset; `probe` tells
    /// what the store has for it.
    fn check_start(&self, params: &TrainParams, probe: &SnapshotProbe) -> (r: Result<(), String>)
        ensures
            refused(r) == self@.start_refusal(*params, *probe),
    {
        if self.active_count() >= MAX_RUNS {
            return Err("a training run is already active".to_string());
        }
        validate_dataset(params, probe)
    }

    /// Registers a run and has its training backend started.
    fn launch(&mut self, params: TrainParams, speed: u64, id: RunId, started_at: Timestamp)
        requires
            old(self).wf(),
            !old(self)@.busy(),
        ensures
            final(self).wf(),
            final(self)@ == old(self)@.started(id, params, speed, started_at),
    {
        let control = ControlState { action: TrainAction::Continue, batches_per_sec: speed };
        self.outbox.push(Action::Spawn { id, params: params.clone(), control });
        let run = RunState::fresh(params, speed, started_at);
        proof {
            lemma_view_runs_insert(self.runs@, id, run);
            lemma_active_after_insert(old(self)@.runs, id, run@);
        }
        self.runs.insert(id, run);
        self.broadcast(ManagerEvent::PhaseChanged { id, phase: Phase::Running });
    }

    /// Start a run under the id `id`, as of `started_at`; `probe` tells what the
    /// store has for the dataset.
    pub fn start_as(
        &mut self,
        params: TrainParams,
        speed: u64,
        probe: &SnapshotProbe,
        id: RunId,
        started_at: Timestamp,
    ) -> (r: Result<RunId, String>)
        requires
            old(self).wf(),
        ensures
            final(self).wf(),
            old(self)@.starts_as(params, speed, *probe, id, started_at, r, final(self)@),
    {
        match self.check_start(&params, probe) {
            Ok(()) => {
                self.launch(params, speed, id, started_at);
                Ok(id)
            },
            Err(message) => Err(message),
        }
    }

    /// Start a run; the manager assigns and returns its run id. `probe` tells
    /// what the store has for the dataset.
    pub fn start(&mut self, params: TrainParams, speed: u64, probe: &SnapshotProbe) -> (r: Result<
        RunId,
        String,
    >)
        requires
            old(self).wf(),
        ensures
            final(self).wf(),
            old(self)@.starts(params, speed, *probe, r, final(self)@),
    {
        match self.check_start(&params, probe) {
            Ok(()) => {
                let id = new_run_id();
                let started_at = now();
                self.launch(params, speed, id, started_at);
                Ok(id)
            },
            Err(message) => Err(message),
        }
    }

    /// Takes a run out of the registry, to be changed and put back.
    fn take_run(&mut self, id: RunId) -> (run: RunState)
        requires
            old(self).wf(),
            old(self)@.runs.contains_key(id),
        ensures
            run.wf(),
            run@.metrics_only(),
            run@ == old(self)@.runs[id],
            final(self).runs@ == old(self).runs@.remove(id),
            final(self).outbox == old(self).outbox,
    {
        self.runs.remove(&id).unwrap()
    }

    /// Puts a run back that was taken out of a well-formed registry, with no
    /// more than its former activity.
    fn put_run(&mut self, id: RunId, run: RunState, Ghost(before): Ghost<TrainManager>)
        requires
            before.wf(),
            before@.runs.contains_key(id),
            old(self).runs@ == before.runs@.remove(id),
            run.wf(),
            run@.metrics_only(),
            run@.active() ==> before@.runs[id].active(),
        ensures
            final(self).wf(),
            final(self)@.runs == before@.runs.insert(id, run@),
            final(self).outbox == old(self).outbox,
    {
        proof {
            assert(before.runs@.remove(id).insert(id, run) =~= before.runs@.insert(id, run));
            lemma_view_runs_insert(before.runs@, id, run);
            lemma_active_after_replace(before@.runs, id, run@);
        }
        self.runs.insert(id, run);
    }

    /// Phase of the run that a command is addressed to.
    fn phase_of(&self, id: RunId) -> (r: Result<Phase, String>)
        ensures
            match r {
                Ok(phase) => self@.runs.contains_key(id) && self@.runs[id].active() && phase
                    == self@.runs[id].status->Active_phase,
                Err(message) => message@ == (if self@.runs.contains_key(id) {
                    "no active run"@
                } else {
                    unknown_run_text(id)
                }) && !(self@.runs.contains_key(id) && self@.runs[id].active()),
            },
    {
        match self.runs.get(&id) {
            Some(run) => run.active_phase(),
            None => Err(unknown_run(id)),
        }
    }

    /// Gives an active run a new action and phase, and tells viewers.
    fn steer(&mut self, id: RunId, action: TrainAction, phase: Phase)
        requires
            old(self).wf(),
            old(self)@.runs.contains_key(id),
            old(self)@.runs[id].active(),
            action == action_of(phase),
        ensures
            final(self).wf(),
            final(self)@ == old(self)@.steered(id, action, phase),
    {
        let ghost before = *self;
        let mut run = self.take_run(id);
        run.set_action(action);
        run.set_phase(phase);
        self.signal(id, &run);
        self.put_run(id, run, Ghost(before));
        self.broadcast(ManagerEvent::PhaseChanged { id, phase });
    }

    /// The control value of `run` goes out, where it has a control channel.
    fn signal(&mut self, id: RunId, run: &RunState)
        ensures
            final(self).runs == old(self).runs,
            final(self)@ == old(self)@.signal(id, run@),
    {
        if let Some(state) = run.control {
            self.outbox.push(Action::Control { id, state });
        }
    }

    /// The control channel of `run` is dropped, where it has one.
    fn release(&mut self, id: RunId, run: &RunState)
        ensures
            final(self).runs == old(self).runs,
            final(self)@ == old(self)@.release(id, run@),
    {
        if run.control.is_some() {
            self.outbox.push(Action::Release { id });
        }
    }

    /// Runtime command (Pause/Resume/Stop/Reset/SetSpeed), addressed to the run
    /// id inside it.
    pub fn command(&mut self, cmd: TrainingCommand) -> (r: Result<(), String>)
        requires
            old(self).wf(),
        ensures
            final(self).wf(),
            outcome_text(r) == old(self)@.command_reply(cmd),
            final(self)@ == old(self)@.after_command(cmd),
    {
        let ghost before = *self;
        match cmd {
            TrainingCommand::Start { .. } | TrainingCommand::Attach { .. } => Err(
                "not a runtime command: use start()/attach()".to_string(),
            ),
            TrainingCommand::Reset { id } => {
                if !self.runs.contains_key(&id) {
                    return Err(unknown_run(id));
                }
                // Checkpoint still saved: the thread sees Abort and exits
                // through the normal finish path; its late messages are
                // dropped because the id is gone from the registry.
                let mut run = self.take_run(id);
                proof {
                    lemma_view_runs_remove(before.runs@, id);
                    lemma_active_after_wipe(before@.runs, id);
                }
                run.set_action(TrainAction::Abort);
                self.signal(id, &run);
                self.release(id, &run);
                self.broadcast(ManagerEvent::Reset { id });
                Ok(())
            },
            TrainingCommand::Pause { id } => {
                match self.phase_of(id) {
                    Ok(phase) => {
                        if matches!(phase, Phase::Running) {
                            self.steer(id, TrainAction::Pause, Phase::Pausing);
                        }
                        Ok(())
                    },
                    Err(message) => Err(message),
                }
            },
            TrainingCommand::Resume { id } => {
                match self.phase_of(id) {
                    Ok(phase) => {
                        if matches!(phase, Phase::Pausing | Phase::Paused) {
                            self.steer(id, TrainAction::Continue, Phase::Running);
                        }
                        Ok(())
                    },
                    Err(message) => Err(message),
                }
            },
            TrainingCommand::Stop { id } => {
                match self.phase_of(id) {
                    Ok(phase) => {
                        if !matches!(phase, Phase::Stopping) {
                            self.steer(id, TrainAction::Abort, Phase::Stopping);
                        }
                        Ok(())
                    },
                    Err(message) => Err(message),
                }
            },
            TrainingCommand::SetSpeed { id, batches_per_sec } => {
                match self.phase_of(id) {
                    Ok(_) => {
                        let mut run = self.take_run(id);
                        run.set_speed(batches_per_sec);
                        self.signal(id, &run);
                        self.put_run(id, run, Ghost(before));
                        Ok(())
                    },
                    Err(message) => Err(message),
                }
            },
        }
    }

    /// Replay for a (re)attaching viewer of run `id`.
    pub fn attach(&self, id: RunId) -> (r: Result<AttachDump, String>)
        ensures
            self@.shows_attach(id, r),
    {
        match self.runs.get(&id) {
            Some(run) => Ok(
                AttachDump { id, status: run.status.clone(), replay: run.buffered() },
            ),
            None => Err(unknown_run(id)),
        }
    }

    /// Whether run `a` comes before run `b` for a request that names no run.
    fn ranks_above(&self, a: RunId, b: RunId) -> (r: bool)
        requires
            self.runs@.contains_key(a),
            self.runs@.contains_key(b),
        ensures
            r == self@.outranks(a, b),
    {
        let (x_active, x_start) = self.runs.get(&a).unwrap().rank();
        let (y_active, y_start) = self.runs.get(&b).unwrap().rank();
        if x_active != y_active {
            x_active
        } else if x_start != y_start {
            y_start.is_before(&x_start)
        } else {
            a > b
        }
    }

    /// The run that a request that names none refers to: the active run if one
    /// exists, else the most recently started ended run.
    fn latest_run(&self) -> (r: Option<RunId>)
        ensures
            match r {
                Some(id) => self@.is_latest(id),
                None => self@.runs.dom() == Set::<RunId>::empty(),
            },
    {
        let ids = self.run_ids();
        let mut best: Option<RunId> = None;
        let mut i: usize = 0;
        while i < ids.len()
            invariant
                i <= ids.len(),
                ids@.no_duplicates(),
                forall|id: RunId| #[trigger] ids@.contains(id) <==> self.runs@.contains_key(id),
                best is None <==> i == 0,
                best matches Some(id) ==> self.runs@.contains_key(id) && forall|k: int|
                    0 <= k < i && ids@[k] != id ==> self@.outranks(id, #[trigger] ids@[k]),
            decreases ids.len() - i,
        {
            let id = ids[i];
            assert(ids@.contains(id));
            best = match best {
                Some(leader) => if self.ranks_above(id, leader) {
                    Some(id)
                } else {
                    Some(leader)
                },
                None => Some(id),
            };
            i += 1;
        }
        proof {
            if let Some(id) = best {
                assert forall|other: RunId| #[trigger]
                    self@.runs.contains_key(other) && other != id implies self@.outranks(
                    id,
                    other,
                ) by {
                    assert(ids@.contains(other));
                }
            } else {
                assert forall|id: RunId| !self@.runs.contains_key(id) by {
                    assert(!ids@.contains(id));
                }
                assert(self@.runs.dom() =~= Set::<RunId>::empty());
            }
        }
        best
    }

    /// Point-in-time status. `None` resolves to the active run if one exists,
    /// else the most recently started ended run.
    pub fn snapshot(&self, id: Option<RunId>) -> (r: Result<Snapshot, String>)
        ensures
            self@.shows_snapshot(id, r),
    {
        let id = match id {
            Some(id) => id,
            None => match self.latest_run() {
                Some(id) => id,
                None => {
                    return Err("no training run".to_string());
                },
            },
        };
        match self.runs.get(&id) {
            Some(run) => Ok(
                Snapshot {
                    id,
                    status: run.status.clone(),
                    replay: run.buffered(),
                    points: run.points,
                },
            ),
            None => Err(unknown_run(id)),
        }
    }

    /// Message from the training thread of run `id`.
    pub fn handle_thread_msg(&mut self, id: RunId, msg: ThreadMsg)
        requires
            old(self).wf(),
        ensures
            final(self).wf(),
            final(self)@ == old(self)@.after_thread_msg(id, msg),
    {
        if !self.runs.contains_key(&id) {
            return ;  // winding-down run after Reset: its id is gone
        }
        let ghost before = *self;
        match msg {
            ThreadMsg::Event(event) => {
                if matches!(event, TrainEvent::Paused) {
                    // A stale Paused arriving while Running (thread entered
                    // the hold just as Resume landed) is ignored.
                    if let Ok(Phase::Pausing) = self.phase_of(id) {
                        let mut run = self.take_run(id);
                        run.set_phase(Phase::Paused);
                        self.put_run(id, run, Ghost(before));
                        self.broadcast(ManagerEvent::PhaseChanged { id, phase: Phase::Paused });
                    }
                    return ;
                }
                let mut run = self.take_run(id);
                run.push_replay(event);
                self.put_run(id, run, Ghost(before));
                self.broadcast(ManagerEvent::Train { id, event });
            },
            ThreadMsg::Exited(result) => {
                let outcome = match result {
                    Ok(TrainExit::Completed { run_dir, duration_secs }) => Outcome::Completed {
                        run_dir,
                        duration_secs,
                    },
                    Ok(TrainExit::Aborted { run_dir, duration_secs }) => Outcome::Stopped {
                        run_dir,
                        duration_secs,
                    },
                    Err(error) => Outcome::Failed { error },
                };
                let mut run = self.take_run(id);
                self.release(id, &run);
                let ended = run.end(outcome.clone());
                self.put_run(id, run, Ghost(before));
                if ended {
                    self.broadcast(ManagerEvent::Ended { id, outcome });
                }
            },
        }
    }

    /// Answers a mailbox message.
    pub fn handle_cmd(&mut self, cmd: TrainCmd) -> (r: TrainReply)
        requires
            old(self).wf(),
        ensures
            final(self).wf(),
            match cmd {
                TrainCmd::Start { params, speed, probe } => r is Start && old(self)@.starts(
                    params,
                    speed,
                    probe,
                    r->Start_0,
                    final(self)@,
                ),
                TrainCmd::Command { cmd } => r is Command && outcome_text(r->Command_0) == old(
                    self,
                )@.command_reply(cmd) && final(self)@ == old(self)@.after_command(cmd),
                TrainCmd::Attach { id } => r is Attach && old(self)@.shows_attach(
                    id,
                    r->Attach_0,
                ) && final(self)@ == old(self)@,
                TrainCmd::Snapshot { id } => r is Snapshot && old(self)@.shows_snapshot(
                    id,
                    r->Snapshot_0,
                ) && final(self)@ == old(self)@,
            },
    {
        match cmd {
            TrainCmd::Start { params, speed, probe } => TrainReply::Start(
                self.start(params, speed, &probe),
            ),
            TrainCmd::Command { cmd } => TrainReply::Command(self.command(cmd)),
            TrainCmd::Attach { id } => TrainReply::Attach(self.attach(id)),
            TrainCmd::Snapshot { id } => TrainReply::Snapshot(self.snapshot(id)),
        }
    }
}

} // verus!
