//! Server end of the training routes: `GET /ws/training` (start/attach + live
//! stream) and `GET /api/training/status`.
//!
//! A pure protocol adapter: the training manager owns the runs; this module
//! maps manager types to wire types, replays buffered metrics, forwards live
//! events and relays commands. A socket either starts a run or attaches to one,
//! and then only receives events for that run. A client disconnect ends only
//! the forwarding: training always continues server-side.

use vstd::prelude::*;
use vstd::string::*;

use crate::ids::RunId;
use crate::manager::{AttachDump, Snapshot};
use crate::model::{ManagerEvent, Outcome, Phase, RunStatus};
use crate::protocol::{
    Loss, TrainingCommand, TrainingEvent, TrainingMetricsPoint, TrainingRunStatus, TrainingStatus,
};
use crate::train::{TrainEvent, TrainParams};

verus! {

/// The wire status of a phase.
pub open spec fn phase_status(phase: Phase) -> TrainingStatus {
    match phase {
        Phase::Running => TrainingStatus::Running,
        Phase::Pausing => TrainingStatus::Pausing,
        Phase::Paused => TrainingStatus::Paused,
        Phase::Stopping => TrainingStatus::Stopping,
    }
}

/// The wire status of a terminal outcome.
pub open spec fn outcome_status(outcome: Outcome) -> TrainingStatus {
    match outcome {
        Outcome::Completed { run_dir, duration_secs } => TrainingStatus::Done {
            run_dir,
            duration_secs,
        },
        Outcome::Stopped { run_dir, duration_secs } => TrainingStatus::Stopped {
            run_dir,
            duration_secs,
        },
        Outcome::Failed { error } => TrainingStatus::Failed { error },
    }
}

/// The wire status of a run.
pub open spec fn run_status(status: RunStatus) -> TrainingStatus {
    match status {
        RunStatus::Active { phase, .. } => phase_status(phase),
        RunStatus::Ended { outcome, .. } => outcome_status(outcome),
    }
}

/// The chart point of a training event, as number `seq`. `Paused` carries no
/// metrics.
pub open spec fn event_point(seq: u64, event: TrainEvent) -> Option<TrainingMetricsPoint> {
    match event {
        TrainEvent::Batch { epoch, batch, total_batches, cls_loss, bbox_loss, total_loss } => Some(
            TrainingMetricsPoint {
                seq,
                epoch,
                batch,
                total_batches,
                train_loss: Loss::Single(total_loss),
                cls_loss: Loss::Single(cls_loss),
                bbox_loss: Loss::Single(bbox_loss),
                valid_loss: None,
                map: None,
            },
        ),
        TrainEvent::EpochEnd { epoch, train_cls, train_bbox, valid_cls, valid_bbox, .. } => Some(
            TrainingMetricsPoint {
                seq,
                epoch,
                batch: 0,
                total_batches: 0,
                train_loss: Loss::SingleSum(train_cls, train_bbox),
                cls_loss: Loss::Single(train_cls),
                bbox_loss: Loss::Single(train_bbox),
                valid_loss: Some(Loss::SingleSum(valid_cls, valid_bbox)),
                map: None,
            },
        ),
        TrainEvent::Paused => None,
    }
}

/// Manager phase to wire status for an active run.
pub fn wire_phase(phase: Phase) -> (r: TrainingStatus)
    ensures
        r == phase_status(phase),
{
    match phase {
        Phase::Running => TrainingStatus::Running,
        Phase::Pausing => TrainingStatus::Pausing,
        Phase::Paused => TrainingStatus::Paused,
        Phase::Stopping => TrainingStatus::Stopping,
    }
}

/// Terminal outcome to wire status.
pub fn wire_outcome(outcome: Outcome) -> (r: TrainingStatus)
    ensures
        r == outcome_status(outcome),
{
    match outcome {
        Outcome::Completed { run_dir, duration_secs } => TrainingStatus::Done {
            run_dir,
            duration_secs,
        },
        Outcome::Stopped { run_dir, duration_secs } => TrainingStatus::Stopped {
            run_dir,
            duration_secs,
        },
        Outcome::Failed { error } => TrainingStatus::Failed { error },
    }
}

/// Manager run status to wire status.
pub fn wire_status(status: &RunStatus) -> (r: TrainingStatus)
    ensures
        r == run_status(*status),
{
    match status {
        RunStatus::Active { phase, .. } => wire_phase(*phase),
        RunStatus::Ended { outcome, .. } => wire_outcome(outcome.clone()),
    }
}

/// One training event to one chart point (`seq` is assigned per attached
/// viewer, continuing after the replay).
pub fn metrics_point(seq: u64, event: &TrainEvent) -> (r: Option<TrainingMetricsPoint>)
    ensures
        r == event_point(seq, *event),
{
    match event {
        TrainEvent::Batch { epoch, batch, total_batches, cls_loss, bbox_loss, total_loss } => Some(
            TrainingMetricsPoint {
                seq,
                epoch: *epoch,
                batch: *batch,
                total_batches: *total_batches,
                train_loss: Loss::Single(*total_loss),
                cls_loss: Loss::Single(*cls_loss),
                bbox_loss: Loss::Single(*bbox_loss),
                valid_loss: None,
                map: None,
            },
        ),
        TrainEvent::EpochEnd { epoch, train_cls, train_bbox, valid_cls, valid_bbox, .. } => Some(
            TrainingMetricsPoint {
                seq,
                epoch: *epoch,
                batch: 0,  // epoch-eval point (the progress line shows the latest batch point)
                total_batches: 0,
                train_loss: Loss::SingleSum(*train_cls, *train_bbox),
                cls_loss: Loss::Single(*train_cls),
                bbox_loss: Loss::Single(*train_bbox),
                valid_loss: Some(Loss::SingleSum(*valid_cls, *valid_bbox)),
                map: None,
            },
        ),
        TrainEvent::Paused => None,
    }
}

/// Why a request is not answered.
#[derive(Debug, Clone, Copy, PartialEq, Eq, Structural)]
pub enum Error {
    NotFound,
}

/// `r` answers a status request, given the manager's answer to a snapshot request
/// that names no run.
pub open spec fn reports_run(
    snapshot: Result<Snapshot, String>,
    r: Result<TrainingRunStatus, Error>,
) -> bool {
    match r {
        Ok(status) => snapshot is Ok && {
            let snap = snapshot->Ok_0;
            &&& status.id == snap.id
            &&& status.config == snap.status.params().config
            &&& status.started_at == snap.status.start_time()
            &&& status.status == run_status(snap.status)
            // Both count every point produced: once the replay drops points, its
            // length would give one number to different points.
            &&& status.points == snap.points
            &&& status.latest == (if snap.replay@.len() == 0 {
                None
            } else {
                event_point(snap.points as u64, snap.replay@.last())
            })
        },
        Err(error) => snapshot is Err && error is NotFound,
    }
}

/// `GET /api/training/status`: the active or most recent run, from the
/// manager's answer to a snapshot request that names no run (not found when
/// there is none).
pub fn get_training_status(snapshot: Result<Snapshot, String>) -> (r: Result<
    TrainingRunStatus,
    Error,
>)
    ensures
        reports_run(snapshot, r),
{
    let snapshot = match snapshot {
        Ok(snapshot) => snapshot,
        Err(_) => {
            return Err(Error::NotFound);
        },
    };
    let points = snapshot.points;
    let buffered = snapshot.replay.len();
    let latest = if buffered == 0 {
        None
    } else {
        metrics_point(points as u64, &snapshot.replay[buffered - 1])
    };
    let status = wire_status(&snapshot.status);
    let (params, started_at) = match snapshot.status {
        RunStatus::Active { config, started_at, .. } => (config, started_at),
        RunStatus::Ended { config, started_at, .. } => (config, started_at),
    };
    Ok(
        TrainingRunStatus {
            id: snapshot.id,
            config: params.config,
            started_at,
            status,
            points,
            latest,
        },
    )
}

/// What the client's half of the socket brought.
#[derive(Debug, PartialEq)]
pub enum ClientFrame {
    /// A text frame: the command in it, or why it holds none.
    Text(Result<TrainingCommand, String>),
    /// The client closed the socket.
    Close,
    /// Anything else.
    Other,
}

/// What a viewer's live subscription brought.
#[derive(Debug, PartialEq)]
pub enum Feed {
    Event(ManagerEvent),
    /// The viewer was too slow; events were skipped.
    Lagged,
    /// There will be no more events.
    Closed,
}

/// An event to send to the client.
#[derive(Debug, PartialEq)]
pub struct Outgoing {
    pub event: TrainingEvent,
    /// Where it cannot be sent, the socket is dropped, and with it the rest of
    /// the step.
    pub required: bool,
}

/// What the driver of a socket does once it has sent what a step says.
#[derive(Debug, PartialEq)]
pub enum Task {
    /// Wait for the client's next frame.
    Receive,
    /// Ask the manager to start a run.
    Start { params: TrainParams, speed: u64 },
    /// Ask the manager for a replay and a live subscription.
    Attach { id: RunId },
    /// Wait for a live event or the client's next frame.
    Listen,
    /// Relay a command to the manager.
    Command { cmd: TrainingCommand },
    /// Drop the socket.
    Stop,
}

/// What to send, in order, and what to do then.
#[derive(Debug, PartialEq)]
pub struct Step {
    pub sends: Vec<Outgoing>,
    pub next: Task,
}

/// Where a socket stands.
#[derive(Debug, Clone, Copy, PartialEq, Eq, Structural)]
pub enum SocketState {
    /// Nothing started or attached yet.
    Opening,
    /// A start is with the manager.
    Starting,
    /// A request for the replay of run `id` is with the manager.
    Attaching { id: RunId },
    /// Run `id` is being forwarded; `seq` events of it have been numbered.
    Live { id: RunId, seq: u64 },
    /// Nothing more is sent.
    Closed,
}

impl Step {
    /// Nothing is sent, and `next` comes.
    pub open spec fn quiet(self, next: Task) -> bool {
        self.sends@.len() == 0 && self.next == next
    }

    /// The client is told of a command that was refused, and is listened to.
    pub open spec fn reports_back(self, reply: Result<(), String>) -> bool {
        match reply {
            Ok(()) => self.quiet(Task::Listen),
            Err(message) => self.complains(message@, Task::Listen),
        }
    }

    /// The client is told `text` as an error, whether it arrives or not, and
    /// `next` comes.
    pub open spec fn complains(self, text: Seq<char>, next: Task) -> bool {
        &&& self.sends@.len() == 1
        &&& self.sends@[0].event.reports(text)
        &&& !self.sends@[0].required
        &&& self.next == next
    }
}

/// The metrics of a replay for a viewer of run `id`, numbered from 1.
pub open spec fn replay_metrics(id: RunId, replay: Seq<TrainEvent>) -> Seq<Outgoing>
    decreases replay.len(),
{
    if replay.len() == 0 {
        Seq::empty()
    } else {
        let earlier = replay_metrics(id, replay.drop_last());
        match event_point(replay.len() as u64, replay.last()) {
            Some(point) => earlier.push(
                Outgoing { event: TrainingEvent::Metrics { id, point }, required: true },
            ),
            None => earlier,
        }
    }
}

/// What a viewer of run `id` gets first: the replay, then the status, and after
/// a terminal one the end.
pub open spec fn greeting(id: RunId, replay: Seq<TrainEvent>, status: TrainingStatus) -> Seq<
    Outgoing,
> {
    let up_to_status = replay_metrics(id, replay).push(
        Outgoing { event: TrainingEvent::Status { id, status }, required: true },
    );
    if status.terminal() {
        up_to_status.push(Outgoing { event: TrainingEvent::Finished { id }, required: false })
    } else {
        up_to_status
    }
}

/// The event that a viewer of run `id` gets for a live event; `seq` is the
/// number for a metrics point.
pub open spec fn live_message(id: RunId, seq: u64, event: ManagerEvent) -> Option<TrainingEvent> {
    if event.subject() != id {
        None
    } else {
        match event {
            ManagerEvent::Train { event, .. } => match event_point(seq, event) {
                Some(point) => Some(TrainingEvent::Metrics { id, point }),
                None => None,
            },
            ManagerEvent::PhaseChanged { phase, .. } => Some(
                TrainingEvent::Status { id, status: phase_status(phase) },
            ),
            ManagerEvent::Ended { outcome, .. } => Some(
                TrainingEvent::Status { id, status: outcome_status(outcome) },
            ),
            ManagerEvent::Reset { .. } => Some(TrainingEvent::Cleared { id }),
        }
    }
}

/// A live event takes a number of its own: it is a training event of run `id`.
pub open spec fn numbered(id: RunId, event: ManagerEvent) -> bool {
    event is Train && event.subject() == id
}

/// How many events of run `id` have been numbered once `event` has come, after
/// `seq` before it.
pub open spec fn next_seq(id: RunId, seq: u64, event: ManagerEvent) -> u64 {
    if numbered(id, event) {
        (seq + 1) as u64
    } else {
        seq
    }
}

/// One client connection: decides what its driver sends and does.
pub struct TrainingSocket {
    state: SocketState,
    /// Store root that the server trains from.
    data: String,
    /// Directory that receives checkpoint directories.
    out: String,
}

/// Model of a connection.
pub struct TrainingSocketView {
    pub state: SocketState,
    pub data: String,
    pub out: String,
}

impl View for TrainingSocket {
    type V = TrainingSocketView;

    closed spec fn view(&self) -> TrainingSocketView {
        TrainingSocketView { state: self.state, data: self.data, out: self.out }
    }
}

impl TrainingSocketView {
    /// The step that answers a frame before anything is started or attached.
    pub open spec fn opens_with(self, frame: ClientFrame, after: SocketState, r: Step) -> bool {
        match frame {
            ClientFrame::Text(Ok(TrainingCommand::Start { config, speed })) => {
                &&& after is Starting
                &&& r.quiet(
                    Task::Start {
                        params: TrainParams { config, data: self.data, out: self.out },
                        speed,
                    },
                )
            },
            ClientFrame::Text(Ok(TrainingCommand::Attach { id })) => {
                &&& after == SocketState::Attaching { id }
                &&& r.quiet(Task::Attach { id })
            },
            ClientFrame::Text(Ok(_)) => {
                &&& after is Opening
                &&& r.complains("expected Start or Attach before commands"@, Task::Receive)
            },
            ClientFrame::Text(Err(error)) => {
                &&& after is Opening
                &&& r.complains("invalid message: "@ + error@, Task::Receive)
            },
            ClientFrame::Close => after is Closed && r.quiet(Task::Stop),
            ClientFrame::Other => after is Opening && r.quiet(Task::Receive),
        }
    }

    /// The step that answers a frame while a run is being forwarded.
    pub open spec fn relays(self, frame: ClientFrame, after: SocketState, r: Step) -> bool {
        match frame {
            ClientFrame::Close => after is Closed && r.quiet(Task::Stop),
            _ => after == self.state && match frame {
                ClientFrame::Text(Ok(TrainingCommand::Start { .. })) => r.complains(
                    "already started"@,
                    Task::Listen,
                ),
                ClientFrame::Text(Ok(TrainingCommand::Attach { .. })) => r.complains(
                    "already attached"@,
                    Task::Listen,
                ),
                ClientFrame::Text(Ok(cmd)) => r.quiet(Task::Command { cmd }),
                ClientFrame::Text(Err(error)) => r.complains(
                    "invalid message: "@ + error@,
                    Task::Listen,
                ),
                _ => r.quiet(Task::Listen),
            },
        }
    }

    /// The step that follows the manager's answer to a start.
    pub open spec fn acknowledges(
        self,
        reply: Result<RunId, String>,
        after: SocketState,
        r: Step,
    ) -> bool {
        match reply {
            Ok(id) => {
                &&& after == SocketState::Attaching { id }
                &&& r.sends@ == seq![
                    Outgoing { event: TrainingEvent::Started { id }, required: true },
                ]
                &&& r.next == Task::Attach { id }
            },
            Err(message) => after is Closed && r.complains(message@, Task::Stop),
        }
    }

    /// The step that follows the manager's answer to an attach.
    pub open spec fn greets(
        self,
        reply: Result<AttachDump, String>,
        after: SocketState,
        r: Step,
    ) -> bool {
        match reply {
            Ok(dump) => {
                let id = self.state->Attaching_id;
                let status = run_status(dump.status);
                &&& r.sends@ == greeting(id, dump.replay@, status)
                &&& if status.terminal() {
                    after is Closed && r.next is Stop
                } else {
                    &&& after == SocketState::Live { id, seq: dump.replay@.len() as u64 }
                    &&& r.next is Listen
                }
            },
            Err(message) => after is Closed && r.complains(message@, Task::Stop),
        }
    }

    /// There is a number left for what the subscription brought.
    pub open spec fn can_number(self, feed: Feed) -> bool {
        feed is Event && numbered(self.state->Live_id, feed->Event_0) ==> self.state->Live_seq
            < u64::MAX
    }

    /// The step that follows something from the live subscription.
    pub open spec fn forwards(self, feed: Feed, after: SocketState, r: Step) -> bool {
        let id = self.state->Live_id;
        let seq = self.state->Live_seq;
        match feed {
            Feed::Lagged => after == self.state && r.quiet(Task::Listen),
            Feed::Closed => after is Closed && r.quiet(Task::Stop),
            Feed::Event(event) => {
                let live = SocketState::Live { id, seq: next_seq(id, seq, event) };
                match live_message(id, (seq + 1) as u64, event) {
                    None => after == live && r.quiet(Task::Listen),
                    Some(message) => {
                        let sent = Outgoing { event: message, required: true };
                        if message.ends() {
                            &&& after is Closed
                            &&& r.sends@ == seq![
                                sent,
                                Outgoing { event: TrainingEvent::Finished { id }, required: false },
                            ]
                            &&& r.next is Stop
                        } else {
                            &&& after == live
                            &&& r.sends@ == seq![sent]
                            &&& r.next is Listen
                        }
                    },
                }
            },
        }
    }
}

fn quiet(next: Task) -> (r: Step)
    ensures
        r.quiet(next),
{
    Step { sends: Vec::new(), next }
}

fn complain(message: String, next: Task) -> (r: Step)
    ensures
        r.complains(message@, next),
{
    let mut sends: Vec<Outgoing> = Vec::new();
    sends.push(Outgoing { event: TrainingEvent::Error { message }, required: false });
    Step { sends, next }
}

impl TrainingSocket {
    /// A fresh connection. Its first task is to receive.
    pub fn new(data: String, out: String) -> (r: TrainingSocket)
        ensures
            r@.state is Opening,
            r@.data == data,
            r@.out == out,
    {
        TrainingSocket { state: SocketState::Opening, data, out }
    }

    /// Where the connection stands.
    pub fn state(&self) -> (r: SocketState)
        ensures
            r == self@.state,
    {
        self.state
    }

    /// A frame from the client. The first Start or Attach decides which run the
    /// socket is about; from then on commands are relayed unchanged (their run
    /// id comes from the message, not from the socket).
    pub fn on_frame(&mut self, frame: ClientFrame) -> (r: Step)
        requires
            old(self)@.state is Opening || old(self)@.state is Live,
        ensures
            final(self)@.data == old(self)@.data,
            final(self)@.out == old(self)@.out,
            old(self)@.state is Opening ==> old(self)@.opens_with(frame, final(self)@.state, r),
            old(self)@.state is Live ==> old(self)@.relays(frame, final(self)@.state, r),
    {
        let opening = matches!(self.state, SocketState::Opening);
        let idle = if opening {
            Task::Receive
        } else {
            Task::Listen
        };
        match frame {
            ClientFrame::Text(Ok(TrainingCommand::Start { config, speed })) => {
                if opening {
                    self.state = SocketState::Starting;
                    quiet(
                        Task::Start {
                            params: TrainParams {
                                config,
                                data: self.data.clone(),
                                out: self.out.clone(),
                            },
                            speed,
                        },
                    )
                } else {
                    complain("already started".to_string(), idle)
                }
            },
            ClientFrame::Text(Ok(TrainingCommand::Attach { id })) => {
                if opening {
                    self.state = SocketState::Attaching { id };
                    quiet(Task::Attach { id })
                } else {
                    complain("already attached".to_string(), idle)
                }
            },
            ClientFrame::Text(Ok(cmd)) => {
                if opening {
                    complain("expected Start or Attach before commands".to_string(), idle)
                } else {
                    quiet(Task::Command { cmd })
                }
            },
            ClientFrame::Text(Err(error)) => complain(
                "invalid message: ".to_string().concat(error.as_str()),
                idle,
            ),
            ClientFrame::Close => {
                self.state = SocketState::Closed;
                quiet(Task::Stop)
            },
            ClientFrame::Other => quiet(idle),
        }
    }

    /// The manager's answer to a start: an accepted run is acknowledged and then
    /// attached to, a refused one ends the connection.
    pub fn on_started(&mut self, reply: Result<RunId, String>) -> (r: Step)
        requires
            old(self)@.state is Starting,
        ensures
            final(self)@.data == old(self)@.data,
            final(self)@.out == old(self)@.out,
            old(self)@.acknowledges(reply, final(self)@.state, r),
    {
        match reply {
            Ok(id) => {
                self.state = SocketState::Attaching { id };
                let mut sends: Vec<Outgoing> = Vec::new();
                sends.push(Outgoing { event: TrainingEvent::Started { id }, required: true });
                Step { sends, next: Task::Attach { id } }
            },
            Err(message) => {
                self.state = SocketState::Closed;
                complain(message, Task::Stop)
            },
        }
    }

    /// The manager's answer to an attach: the replay and the status go out.
    /// Attaching to an ended run replays it, then closes like a live end.
    pub fn on_attached(&mut self, reply: Result<AttachDump, String>) -> (r: Step)
        requires
            old(self)@.state is Attaching,
        ensures
            final(self)@.data == old(self)@.data,
            final(self)@.out == old(self)@.out,
            old(self)@.greets(reply, final(self)@.state, r),
    {
        let SocketState::Attaching { id } = self.state else {
            return quiet(Task::Stop);
        };
        let dump = match reply {
            Ok(dump) => dump,
            Err(message) => {
                self.state = SocketState::Closed;
                return complain(message, Task::Stop);
            },
        };
        let status = wire_status(&dump.status);
        let mut sends: Vec<Outgoing> = Vec::new();
        let mut seq: u64 = 0;
        let mut i: usize = 0;
        assert(dump.replay@.take(0) =~= Seq::<TrainEvent>::empty());
        while i < dump.replay.len()
            invariant
                i <= dump.replay.len(),
                seq == i,
                sends@ == replay_metrics(id, dump.replay@.take(i as int)),
            decreases dump.replay.len() - i,
        {
            let ghost shown = dump.replay@.take(i + 1);
            assert(shown.drop_last() =~= dump.replay@.take(i as int));
            seq += 1;
            if let Some(point) = metrics_point(seq, &dump.replay[i]) {
                sends.push(
                    Outgoing { event: TrainingEvent::Metrics { id, point }, required: true },
                );
            }
            i += 1;
        }
        assert(dump.replay@.take(i as int) =~= dump.replay@);
        let terminal = status.is_terminal();
        sends.push(Outgoing { event: TrainingEvent::Status { id, status }, required: true });
        if terminal {
            sends.push(Outgoing { event: TrainingEvent::Finished { id }, required: false });
            self.state = SocketState::Closed;
            Step { sends, next: Task::Stop }
        } else {
            self.state = SocketState::Live { id, seq };
            Step { sends, next: Task::Listen }
        }
    }

    /// The manager's answer to a relayed command; a refusal goes to the client.
    pub fn on_commanded(&mut self, reply: Result<(), String>) -> (r: Step)
        requires
            old(self)@.state is Live,
        ensures
            *final(self) == *old(self),
            r.reports_back(reply),
    {
        match reply {
            Ok(()) => quiet(Task::Listen),
            Err(message) => complain(message, Task::Listen),
        }
    }

    /// Something from the live subscription. One broadcast serves all runs: only
    /// the events of this socket's run are forwarded. A terminal status ends the
    /// connection.
    pub fn on_feed(&mut self, feed: Feed) -> (r: Step)
        requires
            old(self)@.state is Live,
            old(self)@.can_number(feed),
        ensures
            final(self)@.data == old(self)@.data,
            final(self)@.out == old(self)@.out,
            old(self)@.forwards(feed, final(self)@.state, r),
    {
        let SocketState::Live { id: run_id, seq } = self.state else {
            return quiet(Task::Stop);
        };
        let event = match feed {
            Feed::Event(event) => event,
            Feed::Lagged => {
                return quiet(Task::Listen);
            },
            Feed::Closed => {
                self.state = SocketState::Closed;
                return quiet(Task::Stop);
            },
        };
        let message = match event {
            ManagerEvent::Train { id, event } => {
                if id != run_id {
                    None
                } else {
                    self.state = SocketState::Live { id, seq: seq + 1 };
                    match metrics_point(seq + 1, &event) {
                        Some(point) => Some(TrainingEvent::Metrics { id, point }),
                        None => None,
                    }
                }
            },
            ManagerEvent::PhaseChanged { id, phase } => {
                if id != run_id {
                    None
                } else {
                    Some(TrainingEvent::Status { id, status: wire_phase(phase) })
                }
            },
            ManagerEvent::Ended { id, outcome } => {
                if id != run_id {
                    None
                } else {
                    Some(TrainingEvent::Status { id, status: wire_outcome(outcome) })
                }
            },
            ManagerEvent::Reset { id } => {
                if id != run_id {
                    None
                } else {
                    Some(TrainingEvent::Cleared { id })
                }
            },
        };
        let message = match message {
            Some(message) => message,
            None => {
                return quiet(Task::Listen);
            },
        };
        let terminal = match &message {
            TrainingEvent::Status { status, .. } => status.is_terminal(),
            _ => false,
        };
        let ghost sent = Outgoing { event: message, required: true };
        let mut sends: Vec<Outgoing> = Vec::new();
        sends.push(Outgoing { event: message, required: true });
        assert(sends@ =~= seq![sent]);
        if terminal {
            sends.push(Outgoing { event: TrainingEvent::Finished { id: run_id }, required: false });
            assert(sends@ =~= seq![
                sent,
                Outgoing { event: TrainingEvent::Finished { id: run_id }, required: false },
            ]);
            self.state = SocketState::Closed;
            Step { sends, next: Task::Stop }
        } else {
            Step { sends, next: Task::Listen }
        }
    }
}

} // verus!
