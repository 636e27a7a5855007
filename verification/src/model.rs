//! Runs, the events that viewers see, and the mathematical model of the
//! registry: what every command and every thread message does to it.

use vstd::prelude::*;

use crate::clock::Timestamp;
use crate::dataset::{dataset_refusal, SnapshotProbe};
use crate::ids::{hyphenated, RunId};
use crate::protocol::TrainingCommand;
use crate::replay::{batch_count, replay_push, MAX_REPLAY_BATCH_EVENTS};
use crate::train::{ControlState, ThreadMsg, TrainAction, TrainEvent, TrainExit, TrainParams};

verus! {

/// Max concurrent active runs. This is the GPU resource policy, not a limit of
/// the run registry.
pub const MAX_RUNS: usize = 1;

/// Phase of an active run. `Pausing`/`Stopping` mean the command was accepted
/// but the training thread has not reached the batch boundary yet.
#[derive(Debug, Clone, Copy, PartialEq, Eq, Structural)]
pub enum Phase {
    Running,
    Pausing,
    Paused,
    Stopping,
}

/// Terminal outcome of a run.
#[derive(Debug, PartialEq)]
pub enum Outcome {
    Completed { run_dir: String, duration_secs: u64 },
    /// Ended via Stop or Reset; the checkpoint was saved either way.
    Stopped { run_dir: String, duration_secs: u64 },
    Failed { error: String },
}

impl Clone for Outcome {
    fn clone(&self) -> (r: Self)
        ensures
            r == *self,
    {
        match self {
            Outcome::Completed { run_dir, duration_secs } => Outcome::Completed {
                run_dir: run_dir.clone(),
                duration_secs: *duration_secs,
            },
            Outcome::Stopped { run_dir, duration_secs } => Outcome::Stopped {
                run_dir: run_dir.clone(),
                duration_secs: *duration_secs,
            },
            Outcome::Failed { error } => Outcome::Failed { error: error.clone() },
        }
    }
}

/// Lifecycle of one training run. Absence from the registry means idle: there
/// is no `Idle` variant.
#[derive(Debug, PartialEq)]
pub enum RunStatus {
    Active { phase: Phase, config: TrainParams, started_at: Timestamp },
    Ended { outcome: Outcome, config: TrainParams, started_at: Timestamp },
}

impl Clone for RunStatus {
    fn clone(&self) -> (r: Self)
        ensures
            r == *self,
    {
        match self {
            RunStatus::Active { phase, config, started_at } => RunStatus::Active {
                phase: *phase,
                config: config.clone(),
                started_at: *started_at,
            },
            RunStatus::Ended { outcome, config, started_at } => RunStatus::Ended {
                outcome: outcome.clone(),
                config: config.clone(),
                started_at: *started_at,
            },
        }
    }
}

impl RunStatus {
    /// When the run was started.
    pub open spec fn start_time(self) -> Timestamp {
        match self {
            RunStatus::Active { started_at, .. } => started_at,
            RunStatus::Ended { started_at, .. } => started_at,
        }
    }

    /// What the run was started with.
    pub open spec fn params(self) -> TrainParams {
        match self {
            RunStatus::Active { config, .. } => config,
            RunStatus::Ended { config, .. } => config,
        }
    }
}

/// Event broadcast to all viewers. Every variant carries the run id; viewers
/// filter by the run they started or attached to.
#[derive(Debug, Clone, PartialEq)]
pub enum ManagerEvent {
    /// A training metrics event (Batch / EpochEnd).
    Train { id: RunId, event: TrainEvent },
    /// Instant control acknowledgment (Pausing/Stopping) or settled phase
    /// (Running/Paused).
    PhaseChanged { id: RunId, phase: Phase },
    /// Terminal outcome of the run.
    Ended { id: RunId, outcome: Outcome },
    /// The run record was wiped; viewers clear their charts.
    Reset { id: RunId },
}

impl ManagerEvent {
    /// The run that the event is about.
    pub open spec fn subject(self) -> RunId {
        match self {
            ManagerEvent::Train { id, .. } => id,
            ManagerEvent::PhaseChanged { id, .. } => id,
            ManagerEvent::Ended { id, .. } => id,
            ManagerEvent::Reset { id } => id,
        }
    }
}

/// What the manager's driver has to do, in the order of the outbox.
#[derive(Debug, PartialEq)]
pub enum Action {
    /// Open a control channel that holds `control`, and start the training
    /// backend of run `id` on it.
    Spawn { id: RunId, params: TrainParams, control: ControlState },
    /// Set the control channel of run `id` to `state`.
    Control { id: RunId, state: ControlState },
    /// Drop the control channel of run `id`.
    Release { id: RunId },
    /// Send the event to all viewers.
    Broadcast(ManagerEvent),
}

impl Action {
    /// The run that the action is about.
    pub open spec fn subject(self) -> RunId {
        match self {
            Action::Spawn { id, .. } => id,
            Action::Control { id, .. } => id,
            Action::Release { id } => id,
            Action::Broadcast(event) => event.subject(),
        }
    }
}

/// Model of one registered run.
#[verifier::ext_equal]
pub struct RunView {
    pub status: RunStatus,
    /// Buffered Batch/EpochEnd events.
    pub replay: Seq<TrainEvent>,
    /// Metrics points produced so far, buffered or not.
    pub points: nat,
    /// Value of the control channel (`None` once the run ended).
    pub control: Option<ControlState>,
}

/// What a training thread in this phase has been asked to do.
pub open spec fn action_of(phase: Phase) -> TrainAction {
    match phase {
        Phase::Running => TrainAction::Continue,
        Phase::Pausing => TrainAction::Pause,
        Phase::Paused => TrainAction::Pause,
        Phase::Stopping => TrainAction::Abort,
    }
}

/// What a steering command makes of a run in `phase`: the action for its
/// thread and its next phase (`None` = nothing to do).
pub open spec fn turn(cmd: TrainingCommand, phase: Phase) -> Option<(TrainAction, Phase)> {
    match cmd {
        TrainingCommand::Pause { .. } => if phase is Running {
            Some((TrainAction::Pause, Phase::Pausing))
        } else {
            None
        },
        TrainingCommand::Resume { .. } => if phase is Pausing || phase is Paused {
            Some((TrainAction::Continue, Phase::Running))
        } else {
            None
        },
        TrainingCommand::Stop { .. } => if phase is Stopping {
            None
        } else {
            Some((TrainAction::Abort, Phase::Stopping))
        },
        _ => None,
    }
}

/// The outcome that a thread's exit stands for.
pub open spec fn outcome_of(exit: Result<TrainExit, String>) -> Outcome {
    match exit {
        Ok(TrainExit::Completed { run_dir, duration_secs }) => Outcome::Completed {
            run_dir,
            duration_secs,
        },
        Ok(TrainExit::Aborted { run_dir, duration_secs }) => Outcome::Stopped {
            run_dir,
            duration_secs,
        },
        Err(error) => Outcome::Failed { error },
    }
}

/// A count of points after one more; it stays at the greatest machine size.
pub open spec fn one_more(points: nat) -> nat {
    if points < usize::MAX {
        points + 1
    } else {
        points
    }
}

/// The message about an id that is not registered.
pub open spec fn unknown_run_text(id: RunId) -> Seq<char> {
    "unknown training run "@ + hyphenated(id)
}

impl RunView {
    pub open spec fn active(self) -> bool {
        self.status is Active
    }

    /// Internal consistency: the buffer keeps to the cap and has no more points
    /// than were produced; an active run has a control channel that asks for what
    /// its phase says, an ended run has none.
    pub open spec fn valid(self) -> bool {
        &&& batch_count(self.replay) <= MAX_REPLAY_BATCH_EVENTS
        &&& self.points <= usize::MAX
        &&& self.replay.len() <= self.points || self.points == usize::MAX
        &&& match self.status {
            RunStatus::Active { phase, .. } => self.control is Some && self.control->0.action
                == action_of(phase),
            RunStatus::Ended { .. } => self.control is None,
        }
    }

    /// The buffer holds metrics only.
    pub open spec fn metrics_only(self) -> bool {
        forall|i: int| 0 <= i < self.replay.len() ==> !(#[trigger] self.replay[i] is Paused)
    }

    /// The run with another phase (an ended run has none).
    pub open spec fn with_phase(self, phase: Phase) -> RunView {
        match self.status {
            RunStatus::Active { config, started_at, .. } => RunView {
                status: RunStatus::Active { phase, config, started_at },
                ..self
            },
            RunStatus::Ended { .. } => self,
        }
    }

    /// The run with its thread asked for `action` (an ended run has none).
    pub open spec fn with_action(self, action: TrainAction) -> RunView {
        match self.control {
            Some(control) => RunView {
                control: Some(ControlState { action, ..control }),
                ..self
            },
            None => self,
        }
    }

    /// The run with its thread throttled to `batches_per_sec` (an ended run has
    /// none).
    pub open spec fn with_speed(self, batches_per_sec: u64) -> RunView {
        match self.control {
            Some(control) => RunView {
                control: Some(ControlState { batches_per_sec, ..control }),
                ..self
            },
            None => self,
        }
    }

    /// The run with one more event in its buffer.
    pub open spec fn with_event(self, event: TrainEvent) -> RunView {
        RunView {
            replay: replay_push(self.replay, event),
            points: one_more(self.points),
            ..self
        }
    }

    /// The run after its thread has exited.
    pub open spec fn exited(self, outcome: Outcome) -> RunView {
        match self.status {
            RunStatus::Active { config, started_at, .. } => RunView {
                status: RunStatus::Ended { outcome, config, started_at },
                control: None,
                ..self
            },
            RunStatus::Ended { .. } => RunView { control: None, ..self },
        }
    }
}

/// Ids of the active runs.
pub open spec fn active_ids(runs: Map<RunId, RunView>) -> Set<RunId> {
    runs.dom().filter(|id: RunId| runs[id].active())
}

/// A run that has just been started.
pub open spec fn fresh_run(params: TrainParams, speed: u64, started_at: Timestamp) -> RunView {
    RunView {
        status: RunStatus::Active { phase: Phase::Running, config: params, started_at },
        replay: Seq::empty(),
        points: 0,
        control: Some(fresh_control(speed)),
    }
}

/// The control value that a run is started with.
pub open spec fn fresh_control(speed: u64) -> ControlState {
    ControlState { action: TrainAction::Continue, batches_per_sec: speed }
}

/// Model of the manager: its runs, and the actions that its driver has not
/// taken yet.
#[verifier::ext_equal]
pub struct ManagerView {
    pub runs: Map<RunId, RunView>,
    pub outbox: Seq<Action>,
}

impl ManagerView {
    /// At most [`MAX_RUNS`] runs are active, and every run is consistent and has
    /// buffered metrics only.
    pub open spec fn valid(self) -> bool {
        &&& self.runs.dom().finite()
        &&& active_ids(self.runs).len() <= MAX_RUNS
        &&& forall|id: RunId| #[trigger]
            self.runs.contains_key(id) ==> self.runs[id].valid() && self.runs[id].metrics_only()
    }

    /// No further run may be started.
    pub open spec fn busy(self) -> bool {
        active_ids(self.runs).len() >= MAX_RUNS
    }

    pub open spec fn put(self, id: RunId, run: RunView) -> ManagerView {
        ManagerView { runs: self.runs.insert(id, run), ..self }
    }

    pub open spec fn wipe(self, id: RunId) -> ManagerView {
        ManagerView { runs: self.runs.remove(id), ..self }
    }

    pub open spec fn emit(self, action: Action) -> ManagerView {
        ManagerView { outbox: self.outbox.push(action), ..self }
    }

    pub open spec fn broadcast(self, event: ManagerEvent) -> ManagerView {
        self.emit(Action::Broadcast(event))
    }

    /// The control value of `run` goes out, where it has a control channel.
    pub open spec fn signal(self, id: RunId, run: RunView) -> ManagerView {
        match run.control {
            Some(state) => self.emit(Action::Control { id, state }),
            None => self,
        }
    }

    /// The control channel of `run` is dropped, where it has one.
    pub open spec fn release(self, id: RunId, run: RunView) -> ManagerView {
        if run.control is Some {
            self.emit(Action::Release { id })
        } else {
            self
        }
    }

    /// Why a start is refused (`None` = it is not): first for an active run,
    /// then for the dataset.
    pub open spec fn start_refusal(self, params: TrainParams, probe: SnapshotProbe) -> Option<
        Seq<char>,
    > {
        if self.busy() {
            Some("a training run is already active"@)
        } else {
            dataset_refusal(params.config.dataset@, probe)
        }
    }

    /// The manager after an accepted start.
    pub open spec fn started(
        self,
        id: RunId,
        params: TrainParams,
        speed: u64,
        started_at: Timestamp,
    ) -> ManagerView {
        self.emit(Action::Spawn { id, params, control: fresh_control(speed) }).put(
            id,
            fresh_run(params, speed, started_at),
        ).broadcast(ManagerEvent::PhaseChanged { id, phase: Phase::Running })
    }

    /// The answer to a runtime command.
    pub open spec fn command_reply(self, cmd: TrainingCommand) -> Result<(), Seq<char>> {
        match cmd {
            TrainingCommand::Start { .. } | TrainingCommand::Attach { .. } => Err(
                "not a runtime command: use start()/attach()"@,
            ),
            TrainingCommand::Reset { id } => if self.runs.contains_key(id) {
                Ok(())
            } else {
                Err(unknown_run_text(id))
            },
            TrainingCommand::Pause { id }
            | TrainingCommand::Resume { id }
            | TrainingCommand::Stop { id }
            | TrainingCommand::SetSpeed { id, .. } => if !self.runs.contains_key(id) {
                Err(unknown_run_text(id))
            } else if !self.runs[id].active() {
                Err("no active run"@)
            } else {
                Ok(())
            },
        }
    }

    /// The manager after run `id` was given a new action and phase.
    pub open spec fn steered(self, id: RunId, action: TrainAction, phase: Phase) -> ManagerView {
        let run = self.runs[id].with_action(action).with_phase(phase);
        self.signal(id, run).put(id, run).broadcast(ManagerEvent::PhaseChanged { id, phase })
    }

    /// The manager after a runtime command; a refused one changes nothing.
    pub open spec fn after_command(self, cmd: TrainingCommand) -> ManagerView {
        if self.command_reply(cmd) is Err {
            self
        } else {
            match cmd {
                TrainingCommand::Start { .. } | TrainingCommand::Attach { .. } => self,
                TrainingCommand::Reset { id } => {
                    let run = self.runs[id].with_action(TrainAction::Abort);
                    self.signal(id, run).wipe(id).release(id, run).broadcast(
                        ManagerEvent::Reset { id },
                    )
                },
                TrainingCommand::SetSpeed { id, batches_per_sec } => {
                    let run = self.runs[id].with_speed(batches_per_sec);
                    self.signal(id, run).put(id, run)
                },
                TrainingCommand::Pause { id }
                | TrainingCommand::Resume { id }
                | TrainingCommand::Stop { id } => match turn(
                    cmd,
                    self.runs[id].status->Active_phase,
                ) {
                    Some((action, phase)) => self.steered(id, action, phase),
                    None => self,
                },
            }
        }
    }

    /// The manager after a message from the thread of run `id`; a message of a
    /// run that is not registered changes nothing.
    pub open spec fn after_thread_msg(self, id: RunId, msg: ThreadMsg) -> ManagerView {
        if !self.runs.contains_key(id) {
            self
        } else {
            let run = self.runs[id];
            match msg {
                ThreadMsg::Event(TrainEvent::Paused) => match run.status {
                    RunStatus::Active { phase: Phase::Pausing, .. } => self.put(
                        id,
                        run.with_phase(Phase::Paused),
                    ).broadcast(ManagerEvent::PhaseChanged { id, phase: Phase::Paused }),
                    _ => self,
                },
                ThreadMsg::Event(event) => self.put(
                    id,
                    run.with_event(event),
                ).broadcast(ManagerEvent::Train { id, event }),
                ThreadMsg::Exited(exit) => {
                    let ended = self.release(id, run).put(id, run.exited(outcome_of(exit)));
                    if run.active() {
                        ended.broadcast(ManagerEvent::Ended { id, outcome: outcome_of(exit) })
                    } else {
                        ended
                    }
                },
            }
        }
    }

    /// Run `a` comes before run `b` for a request that names no run: an active
    /// run before an ended one, then the later start, then the greater id.
    pub open spec fn outranks(self, a: RunId, b: RunId) -> bool {
        let x = self.runs[a];
        let y = self.runs[b];
        if x.active() != y.active() {
            x.active()
        } else if x.status.start_time() != y.status.start_time() {
            y.status.start_time().precedes(x.status.start_time())
        } else {
            a > b
        }
    }

    /// `id` is the run that a request that names no run refers to.
    pub open spec fn is_latest(self, id: RunId) -> bool {
        &&& self.runs.contains_key(id)
        &&& forall|other: RunId| #[trigger]
            self.runs.contains_key(other) && other != id ==> self.outranks(id, other)
    }
}

/// Replacing a run by one that is active only where the old one was leaves no
/// more runs active.
pub proof fn lemma_active_after_replace(runs: Map<RunId, RunView>, id: RunId, run: RunView)
    requires
        runs.dom().finite(),
        runs.contains_key(id),
        run.active() ==> runs[id].active(),
    ensures
        active_ids(runs.insert(id, run)).len() <= active_ids(runs).len(),
{
    let before = active_ids(runs);
    let after = active_ids(runs.insert(id, run));
    assert(after.subset_of(before));
    vstd::set_lib::lemma_len_subset(after, before);
}

/// Wiping a run leaves no more runs active.
pub proof fn lemma_active_after_wipe(runs: Map<RunId, RunView>, id: RunId)
    requires
        runs.dom().finite(),
    ensures
        active_ids(runs.remove(id)).len() <= active_ids(runs).len(),
{
    let before = active_ids(runs);
    let after = active_ids(runs.remove(id));
    assert(after.subset_of(before));
    vstd::set_lib::lemma_len_subset(after, before);
}

/// A fresh run adds at most one to the active ones.
pub proof fn lemma_active_after_insert(runs: Map<RunId, RunView>, id: RunId, run: RunView)
    requires
        runs.dom().finite(),
    ensures
        active_ids(runs.insert(id, run)).len() <= active_ids(runs).len() + 1,
{
    let before = active_ids(runs);
    let after = active_ids(runs.insert(id, run));
    assert(after.subset_of(before.insert(id)));
    vstd::set_lib::lemma_len_subset(after, before.insert(id));
}

} // verus!
