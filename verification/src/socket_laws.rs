//! What the server's end of a socket does with everything that is handed to it,
//! told by what goes in and what goes out, and how viewers keep up with the
//! registry.

use vstd::prelude::*;

use crate::connection::TrainingConnection;
use crate::ids::RunId;
use crate::laws::{after_input, after_inputs, law_every_turn_keeps_valid, replaces, Input};
use crate::manager::{AttachDump, Snapshot};
use crate::model::{Action, ManagerEvent, ManagerView, Outcome, Phase, RunStatus};
use crate::protocol::{
    Loss, TrainingCommand, TrainingConfig, TrainingEvent, TrainingMetricsPoint, TrainingRunStatus,
    TrainingStatus,
};
use crate::runs::{RunStateView, ServerFrame};
use crate::server::{
    event_point, live_message, outcome_status, phase_status, reports_run, run_status, ClientFrame,
    Error, Feed, Outgoing, SocketState, Step, Task, TrainingSocketView,
};
use crate::train::{TrainEvent, TrainParams};

verus! {

/// The status on the wire has the name of the phase.
pub open spec fn names_phase(phase: Phase, wire: TrainingStatus) -> bool {
    match phase {
        Phase::Running => wire is Running,
        Phase::Pausing => wire is Pausing,
        Phase::Paused => wire is Paused,
        Phase::Stopping => wire is Stopping,
    }
}

/// The status on the wire tells the outcome, with where and how long, or why.
pub open spec fn tells_outcome(outcome: Outcome, wire: TrainingStatus) -> bool {
    match outcome {
        Outcome::Completed { run_dir, duration_secs } => wire == TrainingStatus::Done {
            run_dir,
            duration_secs,
        },
        Outcome::Stopped { run_dir, duration_secs } => wire == TrainingStatus::Stopped {
            run_dir,
            duration_secs,
        },
        Outcome::Failed { error } => wire == TrainingStatus::Failed { error },
    }
}

/// The status on the wire tells where the run stands.
pub open spec fn tells_run(status: RunStatus, wire: TrainingStatus) -> bool {
    match status {
        RunStatus::Active { phase, .. } => names_phase(phase, wire),
        RunStatus::Ended { outcome, .. } => tells_outcome(outcome, wire),
    }
}

/// The point tells the event under number `seq`: a batch its place and losses; an
/// epoch its number and losses, with the sums of both parts, and no batch.
pub open spec fn tells_event(point: TrainingMetricsPoint, seq: u64, event: TrainEvent) -> bool {
    &&& point.seq == seq
    &&& point.map is None
    &&& match event {
        TrainEvent::Batch { epoch, batch, total_batches, cls_loss, bbox_loss, total_loss } => {
            &&& point.epoch == epoch
            &&& point.batch == batch
            &&& point.total_batches == total_batches
            &&& point.train_loss == Loss::Single(total_loss)
            &&& point.cls_loss == Loss::Single(cls_loss)
            &&& point.bbox_loss == Loss::Single(bbox_loss)
            &&& point.valid_loss is None
        },
        TrainEvent::EpochEnd { epoch, train_cls, train_bbox, valid_cls, valid_bbox, .. } => {
            &&& point.epoch == epoch
            &&& point.batch == 0
            &&& point.total_batches == 0
            &&& point.train_loss == Loss::SingleSum(train_cls, train_bbox)
            &&& point.cls_loss == Loss::Single(train_cls)
            &&& point.bbox_loss == Loss::Single(train_bbox)
            &&& point.valid_loss == Some(Loss::SingleSum(valid_cls, valid_bbox))
        },
        TrainEvent::Paused => false,
    }
}

/// Every phase, outcome and run status has the wire status that tells it, and
/// every metrics event the point that tells it, under any number.
pub proof fn law_wire_forms_tell_what_they_stand_for(
    phase: Phase,
    outcome: Outcome,
    status: RunStatus,
    seq: u64,
    event: TrainEvent,
)
    ensures
        names_phase(phase, phase_status(phase)),
        tells_outcome(outcome, outcome_status(outcome)),
        tells_run(status, run_status(status)),
        event is Paused <==> event_point(seq, event) is None,
        !(event is Paused) ==> tells_event(event_point(seq, event)->0, seq, event),
{
}

/// The status request shows the run of the snapshot: its id, config, start and
/// wire status, how many points were produced, and the last buffered event as the
/// point with that number. Without a snapshot it is not found.
pub proof fn law_status_request_shows_the_snapshot(
    snapshot: Result<Snapshot, String>,
    r: Result<TrainingRunStatus, Error>,
)
    requires
        reports_run(snapshot, r),
    ensures
        snapshot is Err ==> r is Err && r->Err_0 is NotFound,
        snapshot is Ok ==> r is Ok,
        snapshot is Ok ==> {
            let snap = snapshot->Ok_0;
            let shown = r->Ok_0;
            let n = snap.replay@.len();
            &&& shown.id == snap.id
            &&& match snap.status {
                RunStatus::Active { config, started_at, .. } => shown.config == config.config
                    && shown.started_at == started_at,
                RunStatus::Ended { config, started_at, .. } => shown.config == config.config
                    && shown.started_at == started_at,
            }
            &&& tells_run(snap.status, shown.status)
            &&& shown.points == snap.points
            &&& n == 0 ==> shown.latest is None
            &&& n > 0 && !(snap.replay@[n - 1] is Paused) ==> shown.latest is Some && tells_event(
                shown.latest->0,
                snap.points as u64,
                snap.replay@[n - 1],
            )
        },
{
}

/// The step sends nothing.
pub open spec fn sends_nothing(r: Step) -> bool {
    r.sends@ == Seq::<Outgoing>::empty()
}

/// The step sends one event, and the socket is dropped where it cannot.
pub open spec fn sends_one(r: Step, event: TrainingEvent) -> bool {
    r.sends@ == seq![Outgoing { event, required: true }]
}

/// The step tells the client an error, and goes on where it cannot.
pub open spec fn sends_error(r: Step, text: Seq<char>) -> bool {
    &&& r.sends@.len() == 1
    &&& !r.sends@[0].required
    &&& r.sends@[0].event is Error
    &&& r.sends@[0].event->message@ == text
}

/// Before anything is started or attached: a Start asks the manager for a run
/// with the client's config and speed and the server's directories, an Attach for
/// the run named; the socket waits on after anything else, and says why where a
/// text was sent.
pub proof fn law_first_frames(
    s: TrainingSocketView,
    frame: ClientFrame,
    after: SocketState,
    r: Step,
)
    requires
        s.state is Opening,
        s.opens_with(frame, after, r),
    ensures
        match frame {
            ClientFrame::Text(Ok(TrainingCommand::Start { config, speed })) => {
                &&& sends_nothing(r)
                &&& after is Starting
                &&& r.next == Task::Start {
                    params: TrainParams { config, data: s.data, out: s.out },
                    speed,
                }
            },
            ClientFrame::Text(Ok(TrainingCommand::Attach { id })) => {
                &&& sends_nothing(r)
                &&& after == SocketState::Attaching { id }
                &&& r.next == Task::Attach { id }
            },
            ClientFrame::Text(Ok(_)) => {
                &&& sends_error(r, "expected Start or Attach before commands"@)
                &&& after is Opening
                &&& r.next is Receive
            },
            ClientFrame::Text(Err(error)) => {
                &&& sends_error(r, "invalid message: "@ + error@)
                &&& after is Opening
                &&& r.next is Receive
            },
            ClientFrame::Close => sends_nothing(r) && after is Closed && r.next is Stop,
            ClientFrame::Other => sends_nothing(r) && after is Opening && r.next is Receive,
        },
{
    assert(r.sends@.len() == 0 ==> r.sends@ =~= Seq::<Outgoing>::empty());
}

/// While a run is forwarded, every runtime command goes to the manager as it came,
/// whichever run it names; a second Start or Attach, and a text that is no
/// command, are answered with an error; nothing but Close changes where the socket
/// stands.
pub proof fn law_live_frames(s: TrainingSocketView, frame: ClientFrame, after: SocketState, r: Step)
    requires
        s.state is Live,
        s.relays(frame, after, r),
    ensures
        match frame {
            ClientFrame::Text(Ok(TrainingCommand::Start { .. })) => sends_error(
                r,
                "already started"@,
            ) && r.next is Listen,
            ClientFrame::Text(Ok(TrainingCommand::Attach { .. })) => sends_error(
                r,
                "already attached"@,
            ) && r.next is Listen,
            ClientFrame::Text(Ok(cmd)) => sends_nothing(r) && r.next == Task::Command { cmd },
            ClientFrame::Text(Err(error)) => sends_error(r, "invalid message: "@ + error@)
                && r.next is Listen,
            ClientFrame::Close => sends_nothing(r) && r.next is Stop,
            ClientFrame::Other => sends_nothing(r) && r.next is Listen,
        },
        frame is Close ==> after is Closed,
        !(frame is Close) ==> after == s.state,
{
    assert(r.sends@.len() == 0 ==> r.sends@ =~= Seq::<Outgoing>::empty());
}

/// An accepted start is acknowledged with its id and then attached to; a refused
/// one is told why, and the socket is dropped.
pub proof fn law_start_is_acknowledged(
    s: TrainingSocketView,
    reply: Result<RunId, String>,
    after: SocketState,
    r: Step,
)
    requires
        s.acknowledges(reply, after, r),
    ensures
        reply matches Ok(id) ==> sends_one(r, TrainingEvent::Started { id }) && after
            == (SocketState::Attaching { id }) && r.next == (Task::Attach { id }),
        reply matches Err(message) ==> sends_error(r, message@) && after is Closed && r.next
            is Stop,
{
}

/// A viewer that is let in gets every buffered event as a point, numbered by its
/// place, then the status of the run. Where the run has ended, `Finished` and the
/// end of the socket follow; else it listens on, with that many numbered. One that
/// is not let in is told why, and the socket is dropped.
pub proof fn law_viewers_are_greeted(
    s: TrainingSocketView,
    reply: Result<AttachDump, String>,
    after: SocketState,
    r: Step,
)
    requires
        s.state is Attaching,
        s.greets(reply, after, r),
        reply matches Ok(dump) ==> forall|i: int|
            0 <= i < dump.replay@.len() ==> !(#[trigger] dump.replay@[i] is Paused),
    ensures
        reply matches Ok(dump) ==> {
            let id = s.state->Attaching_id;
            let n = dump.replay@.len() as int;
            &&& forall|k: int|
                0 <= k < n ==> {
                    let sent = #[trigger] r.sends@[k];
                    &&& sent.required
                    &&& sent.event is Metrics
                    &&& sent.event->Metrics_id == id
                    &&& tells_event(sent.event->point, (k + 1) as u64, dump.replay@[k])
                }
            &&& r.sends@[n].required
            &&& r.sends@[n].event is Status
            &&& r.sends@[n].event->Status_id == id
            &&& tells_run(dump.status, r.sends@[n].event->status)
            &&& match dump.status {
                RunStatus::Active { .. } => {
                    &&& r.sends@.len() == n + 1
                    &&& after == SocketState::Live { id, seq: n as u64 }
                    &&& r.next is Listen
                },
                RunStatus::Ended { .. } => {
                    &&& r.sends@.len() == n + 2
                    &&& r.sends@[n + 1] == (Outgoing {
                        event: TrainingEvent::Finished { id },
                        required: false,
                    })
                    &&& after is Closed
                    &&& r.next is Stop
                },
            }
        },
        reply matches Err(message) ==> sends_error(r, message@) && after is Closed && r.next
            is Stop,
{
    if let Ok(dump) = reply {
        assert(dump.replay@.len() == dump.replay.len());
        crate::laws::law_replay_points_are_numbered(s.state->Attaching_id, dump.replay@);
        let metrics = crate::server::replay_metrics(s.state->Attaching_id, dump.replay@);
        assert forall|k: int| 0 <= k < dump.replay@.len() implies {
            let sent = #[trigger] r.sends@[k];
            &&& sent.required
            &&& sent.event is Metrics
            &&& sent.event->Metrics_id == s.state->Attaching_id
            &&& tells_event(sent.event->point, (k + 1) as u64, dump.replay@[k])
        } by {
            assert(r.sends@[k] == metrics[k]);
            assert(!(dump.replay@[k] is Paused));
        }
    }
}

/// The metrics of a greeting are the points that tell the buffered events, each
/// under the number of its place, and all of them but holds, in order.
pub proof fn law_greeting_numbers_by_place(id: RunId, replay: Seq<TrainEvent>)
    requires
        replay.len() <= u64::MAX,
    ensures
        exists|places: Seq<int>|
            shows_replay(id, replay, places, crate::server::replay_metrics(id, replay)),
{
    let places = lemma_shown_places(id, replay);
    assert(shows_replay(id, replay, places, crate::server::replay_metrics(id, replay)));
}

/// `sends` tells the events of `replay` that are no holds, in order; `places` says
/// where each of them stands.
pub open spec fn shows_replay(
    id: RunId,
    replay: Seq<TrainEvent>,
    places: Seq<int>,
    sends: Seq<Outgoing>,
) -> bool {
    &&& places.len() == sends.len()
    &&& forall|k: int|
        0 <= k < places.len() ==> {
            &&& 0 <= #[trigger] places[k] < replay.len()
            &&& sends[k].required
            &&& sends[k].event is Metrics
            &&& sends[k].event->Metrics_id == id
            &&& tells_event(sends[k].event->point, (places[k] + 1) as u64, replay[places[k]])
        }
    &&& forall|k: int, l: int|
        0 <= k < l < places.len() ==> #[trigger] places[k] < #[trigger] places[l]
    &&& forall|i: int|
        0 <= i < replay.len() ==> (#[trigger] places.contains(i) <==> !(replay[i] is Paused))
}

proof fn lemma_shown_places(id: RunId, replay: Seq<TrainEvent>) -> (places: Seq<int>)
    requires
        replay.len() <= u64::MAX,
    ensures
        shows_replay(id, replay, places, crate::server::replay_metrics(id, replay)),
    decreases replay.len(),
{
    if replay.len() == 0 {
        Seq::empty()
    } else {
        let earlier = replay.drop_last();
        let before = lemma_shown_places(id, earlier);
        let n = replay.len() - 1;
        let places = if replay.last() is Paused {
            before
        } else {
            before.push(n)
        };
        let sends = crate::server::replay_metrics(id, replay);
        assert forall|k: int| 0 <= k < places.len() implies {
            &&& 0 <= #[trigger] places[k] < replay.len()
            &&& sends[k].required
            &&& sends[k].event is Metrics
            &&& sends[k].event->Metrics_id == id
            &&& tells_event(sends[k].event->point, (places[k] + 1) as u64, replay[places[k]])
        } by {
            if k < before.len() {
                assert(places[k] == before[k]);
                assert(earlier[before[k]] == replay[before[k]]);
            }
        }
        assert forall|i: int| 0 <= i < replay.len() implies (#[trigger] places.contains(i) <==> !(
        replay[i] is Paused)) by {
            if i < n {
                assert(before.contains(i) <==> !(earlier[i] is Paused));
                if before.contains(i) {
                    let k = choose|k: int| 0 <= k < before.len() && before[k] == i;
                    assert(places[k] == i);
                }
                if places.contains(i) {
                    let k = choose|k: int| 0 <= k < places.len() && places[k] == i;
                    assert(before[k] == i);
                }
            } else {
                if !(replay.last() is Paused) {
                    assert(places[places.len() - 1] == n);
                }
                if places.contains(i) && replay.last() is Paused {
                    let k = choose|k: int| 0 <= k < places.len() && places[k] == i;
                    assert(before[k] == n);
                }
            }
        }
        places
    }
}

/// A refused command is told to the client, an accepted one is not; either way the
/// socket listens on.
pub proof fn law_refused_commands_are_told(reply: Result<(), String>, r: Step)
    requires
        r.reports_back(reply),
    ensures
        r.next is Listen,
        reply is Ok ==> sends_nothing(r),
        reply matches Err(message) ==> sends_error(r, message@),
{
    assert(r.sends@.len() == 0 ==> r.sends@ =~= Seq::<Outgoing>::empty());
}

/// Every change of phase of the socket's run, to whatever phase, is sent as the
/// one status of that name, and the socket listens on as it stood.
pub proof fn law_every_phase_reaches_the_viewer(
    s: TrainingSocketView,
    phase: Phase,
    after: SocketState,
    r: Step,
)
    requires
        s.state is Live,
        s.forwards(
            Feed::Event(ManagerEvent::PhaseChanged { id: s.state->Live_id, phase }),
            after,
            r,
        ),
    ensures
        r.sends@.len() == 1,
        r.sends@[0].required,
        r.sends@[0].event is Status,
        r.sends@[0].event->Status_id == s.state->Live_id,
        names_phase(phase, r.sends@[0].event->status),
        r.next is Listen,
        after == s.state,
{
}

/// Every metrics event of the socket's run is sent as the point that tells it,
/// under the next number. A hold takes a number too, but nothing is sent.
pub proof fn law_live_metrics_reach_the_viewer(
    s: TrainingSocketView,
    event: TrainEvent,
    after: SocketState,
    r: Step,
)
    requires
        s.state is Live,
        s.state->Live_seq < u64::MAX,
        s.forwards(
            Feed::Event(ManagerEvent::Train { id: s.state->Live_id, event }),
            after,
            r,
        ),
    ensures
        event is Paused ==> sends_nothing(r),
        !(event is Paused) ==> {
            &&& r.sends@.len() == 1
            &&& r.sends@[0].required
            &&& r.sends@[0].event is Metrics
            &&& r.sends@[0].event->Metrics_id == s.state->Live_id
            &&& tells_event(r.sends@[0].event->point, (s.state->Live_seq + 1) as u64, event)
        },
        r.next is Listen,
        after == (SocketState::Live {
            id: s.state->Live_id,
            seq: (s.state->Live_seq + 1) as u64,
        }),
{
    assert(r.sends@.len() == 0 ==> r.sends@ =~= Seq::<Outgoing>::empty());
}

/// Every end of the socket's run is sent as the status that tells its outcome,
/// then `Finished`, and the socket is dropped.
pub proof fn law_every_end_reaches_the_viewer(
    s: TrainingSocketView,
    outcome: Outcome,
    after: SocketState,
    r: Step,
)
    requires
        s.state is Live,
        s.forwards(
            Feed::Event(ManagerEvent::Ended { id: s.state->Live_id, outcome }),
            after,
            r,
        ),
    ensures
        r.sends@.len() == 2,
        r.sends@[0].required,
        r.sends@[0].event is Status,
        r.sends@[0].event->Status_id == s.state->Live_id,
        tells_outcome(outcome, r.sends@[0].event->status),
        r.sends@[1] == (Outgoing {
            event: TrainingEvent::Finished { id: s.state->Live_id },
            required: false,
        }),
        r.next is Stop,
        after is Closed,
{
}

/// A reset of the socket's run is sent as `Cleared`, and the socket listens on. A
/// viewer that was too slow loses nothing else; the end of the subscription drops
/// the socket without a word.
pub proof fn law_reset_lag_and_end_of_feed(
    s: TrainingSocketView,
    feed: Feed,
    after: SocketState,
    r: Step,
)
    requires
        s.state is Live,
        s.forwards(feed, after, r),
    ensures
        feed == Feed::Event(ManagerEvent::Reset { id: s.state->Live_id }) ==> {
            &&& sends_one(r, TrainingEvent::Cleared { id: s.state->Live_id })
            &&& r.next is Listen
            &&& after == s.state
        },
        feed is Lagged ==> sends_nothing(r) && r.next is Listen && after == s.state,
        feed is Closed ==> sends_nothing(r) && r.next is Stop && after is Closed,
{
    assert(r.sends@.len() == 0 ==> r.sends@ =~= Seq::<Outgoing>::empty());
}

/// No event of another run is sent or numbered.
pub proof fn law_foreign_events_are_not_forwarded(
    s: TrainingSocketView,
    other: RunId,
    event: TrainEvent,
    phase: Phase,
    outcome: Outcome,
    feed: Feed,
    after: SocketState,
    r: Step,
)
    requires
        s.state is Live,
        other != s.state->Live_id,
        feed == Feed::Event(ManagerEvent::Train { id: other, event }) || feed == Feed::Event(
            ManagerEvent::PhaseChanged { id: other, phase },
        ) || feed == Feed::Event(ManagerEvent::Ended { id: other, outcome }) || feed == Feed::Event(
            ManagerEvent::Reset { id: other },
        ),
        s.forwards(feed, after, r),
    ensures
        sends_nothing(r),
        r.next is Listen,
        after == s.state,
{
    assert(r.sends@ =~= Seq::<Outgoing>::empty());
}

/// A client of run `id` after it has read what its socket sends for a series of
/// actions of the manager.
pub open spec fn watched(
    client: RunStateView,
    id: RunId,
    seq: u64,
    actions: Seq<Action>,
) -> RunStateView
    decreases actions.len(),
{
    if actions.len() == 0 {
        client
    } else {
        let before = watched(client, id, seq, actions.drop_last());
        match actions.last() {
            Action::Broadcast(event) => match live_message(id, seq, event) {
                Some(message) => before.after_frame(id, ServerFrame::Text(Ok(message))),
                None => before,
            },
            _ => before,
        }
    }
}

/// A client that knows the status of its run, and reads all that is sent for it,
/// knows its status after every series of turns: whatever phase the run is in, or
/// how it ended. (`seq` numbers the points; the status does not depend on it.)
pub proof fn law_client_follows_the_registry(
    m: ManagerView,
    id: RunId,
    inputs: Seq<Input>,
    client: RunStateView,
    seq: u64,
)
    requires
        m.valid(),
        m.runs.contains_key(id),
        forall|i: int| 0 <= i < inputs.len() ==> !replaces(id, #[trigger] inputs[i]),
        client.status is Some,
        tells_run(m.runs[id].status, client.status->0),
    ensures
        ({
            let later = after_inputs(m, inputs);
            let read = watched(client, id, seq, later.outbox.skip(m.outbox.len() as int));
            &&& later.runs.contains_key(id)
            &&& m.outbox.is_prefix_of(later.outbox)
            &&& read.status is Some
            &&& tells_run(later.runs[id].status, read.status->0)
        }),
    decreases inputs.len(),
{
    let n = m.outbox.len() as int;
    let later = after_inputs(m, inputs);
    if inputs.len() == 0 {
        assert(later.outbox.skip(n) =~= Seq::<Action>::empty());
    } else {
        let input = inputs.last();
        let earlier = inputs.drop_last();
        let before = after_inputs(m, earlier);
        assert forall|i: int| 0 <= i < earlier.len() implies !replaces(id, #[trigger] earlier[i]) by {
            assert(earlier[i] == inputs[i]);
        }
        law_client_follows_the_registry(m, id, earlier, client, seq);
        assert(!replaces(id, inputs[inputs.len() - 1]));
        lemma_always_valid_from(m, earlier);
        lemma_turn_is_watched(before, id, input, client, seq, n);
    }
}

proof fn lemma_always_valid_from(m: ManagerView, inputs: Seq<Input>)
    requires
        m.valid(),
    ensures
        after_inputs(m, inputs).valid(),
    decreases inputs.len(),
{
    if inputs.len() > 0 {
        lemma_always_valid_from(m, inputs.drop_last());
        law_every_turn_keeps_valid(after_inputs(m, inputs.drop_last()), inputs.last());
    }
}

/// One more action.
proof fn lemma_watched_push(
    client: RunStateView,
    id: RunId,
    seq: u64,
    actions: Seq<Action>,
    action: Action,
)
    ensures
        ({
            let before = watched(client, id, seq, actions);
            watched(client, id, seq, actions.push(action)) == (match action {
                Action::Broadcast(event) => match live_message(id, seq, event) {
                    Some(message) => before.after_frame(id, ServerFrame::Text(Ok(message))),
                    None => before,
                },
                _ => before,
            })
        }),
{
    assert(actions.push(action).drop_last() =~= actions);
}

/// One turn keeps a client that reads all up to date.
proof fn lemma_turn_is_watched(
    m: ManagerView,
    id: RunId,
    input: Input,
    client: RunStateView,
    seq: u64,
    n: int,
)
    requires
        m.valid(),
        m.runs.contains_key(id),
        !replaces(id, input),
        0 <= n <= m.outbox.len(),
        ({
            let read = watched(client, id, seq, m.outbox.skip(n));
            read.status is Some && tells_run(m.runs[id].status, read.status->0)
        }),
    ensures
        ({
            let after = after_input(m, input);
            let read = watched(client, id, seq, after.outbox.skip(n));
            &&& after.runs.contains_key(id)
            &&& m.outbox.is_prefix_of(after.outbox)
            &&& read.status is Some
            &&& tells_run(after.runs[id].status, read.status->0)
        }),
{
    let after = after_input(m, input);
    let sent = m.outbox.skip(n);
    let s = m.outbox.len() as int;
    let added = after.outbox.len() - s;
    assert(0 <= added <= 3);
    if added == 0 {
        assert(after.outbox.skip(n) =~= sent);
    } else {
        let one = sent.push(after.outbox[s]);
        lemma_watched_push(client, id, seq, sent, after.outbox[s]);
        if added == 1 {
            assert(after.outbox.skip(n) =~= one);
        } else {
            let two = one.push(after.outbox[s + 1]);
            lemma_watched_push(client, id, seq, one, after.outbox[s + 1]);
            if added == 2 {
                assert(after.outbox.skip(n) =~= two);
            } else {
                let three = two.push(after.outbox[s + 2]);
                lemma_watched_push(client, id, seq, two, after.outbox[s + 2]);
                assert(after.outbox.skip(n) =~= three);
            }
        }
    }
}

/// What a page asks for is what the manager is asked for: the command that a new
/// connection sends when it opens makes a fresh socket ask for a run with the
/// page's config and speed, or for the run that the page named.
pub proof fn law_page_gets_what_it_asks_for(
    page: TrainingConnection,
    config: TrainingConfig,
    speed: u64,
    id: RunId,
    first: TrainingCommand,
    sent: TrainingCommand,
    notice: crate::connection::Notice,
    s: TrainingSocketView,
    after: SocketState,
    r: Step,
)
    requires
        page.opens(first, sent, notice),
        s.state is Opening,
        s.opens_with(ClientFrame::Text(Ok(sent)), after, r),
    ensures
        page.starts(config, speed, first) ==> {
            &&& page.run_id is None
            &&& r.next == Task::Start {
                params: TrainParams { config, data: s.data, out: s.out },
                speed,
            }
        },
        page.attaches(id, first) ==> page.run_id == Some(id) && r.next == (Task::Attach { id }),
        notice is Status && notice->Status_0@ == "connected"@,
{
}

} // verus!
