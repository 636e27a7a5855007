//! What holds of the library as a whole: of every run, every order of commands
//! and messages, and both ends of the socket together.

use vstd::prelude::*;

use crate::clock::Timestamp;
use crate::connection::{Notice, TrainingConnection};
use crate::dataset::{name_char, name_refusal, SnapshotProbe};
use crate::ids::RunId;
use crate::manager::{AttachDump, Snapshot};
use crate::model::{
    active_ids, lemma_active_after_insert, lemma_active_after_replace, lemma_active_after_wipe,
    one_more, outcome_of, Action, ManagerEvent, ManagerView, Phase, RunStatus, RunView,
};
use crate::protocol::{TrainingCommand, TrainingEvent, TrainingMetricsPoint, TrainingStatus};
use crate::replay::{
    batch_count, lemma_batch_count_push, lemma_retained_push, lemma_retained_within_cap,
    lemma_without_oldest_batch, replay_extend, replay_push, retained, without_oldest_batch,
    MAX_REPLAY_BATCH_EVENTS,
};
use crate::runs::{
    confirmed_id, ends_reading, start_failure, RunStateView, RunsError, ServerFrame, TrainingRuns,
    TrainingRunsView,
};
use crate::server::{
    event_point, greeting, live_message, next_seq, phase_status, replay_metrics, run_status,
    ClientFrame, Feed, Outgoing, SocketState, Step, TrainingSocketView,
};
use crate::text::{trimmed, white_space};
use crate::train::{ControlState, ThreadMsg, TrainEvent, TrainExit, TrainParams};

verus! {

/// A replay buffer within the cap that takes a series of events holds what is
/// retained of its old content and the series together.
pub proof fn law_replay_is_retained_history(replay: Seq<TrainEvent>, events: Seq<TrainEvent>)
    requires
        batch_count(replay) <= MAX_REPLAY_BATCH_EVENTS,
    ensures
        replay_extend(replay, events) == retained(replay + events),
    decreases events.len(),
{
    if events.len() == 0 {
        assert(replay + events =~= replay);
        lemma_retained_within_cap(replay);
    } else {
        let earlier = replay + events.drop_last();
        law_replay_is_retained_history(replay, events.drop_last());
        lemma_retained_push(earlier, events.last());
        assert(earlier.push(events.last()) =~= replay + events);
    }
}

/// One more event goes to the end of the buffer. Where the buffer then has more
/// batch points than the cap, its first batch point leaves, and nothing else
/// does: every summary is kept, and the order stays. Status and control of the
/// run stay as they are.
pub proof fn law_push_drops_oldest_batch_only(run: RunView, event: TrainEvent)
    requires
        batch_count(run.replay) <= MAX_REPLAY_BATCH_EVENTS,
    ensures
        ({
            let grown = run.replay.push(event);
            let after = run.with_event(event);
            &&& if batch_count(grown) <= MAX_REPLAY_BATCH_EVENTS {
                after.replay == grown
            } else {
                exists|at: int| #[trigger]
                    is_first_batch(grown, at) && after.replay == grown.remove(at)
            }
            &&& after.replay.len() > 0
            &&& after.replay.last() == event
            &&& after.replay.filter(|e: TrainEvent| !(e is Batch)) == grown.filter(
                |e: TrainEvent| !(e is Batch),
            )
            &&& batch_count(after.replay) <= MAX_REPLAY_BATCH_EVENTS
            &&& after.status == run.status
            &&& after.control == run.control
        }),
{
    let grown = run.replay.push(event);
    lemma_batch_count_push(run.replay, event);
    if batch_count(grown) > MAX_REPLAY_BATCH_EVENTS {
        let at = lemma_first_batch(grown);
        lemma_without_oldest_batch(grown, at);
        lemma_drop_keeps_summaries(grown);
        // The new event is not the first of that many batch points.
        if at == grown.len() - 1 {
            assert forall|k: int| 0 <= k < run.replay.len() implies !(#[trigger] run.replay[k]
                is Batch) by {
                assert(grown[k] == run.replay[k]);
            }
            lemma_no_batch(run.replay);
        }
    }
}

/// The event at `at` is the first batch point of `s`.
pub open spec fn is_first_batch(s: Seq<TrainEvent>, at: int) -> bool {
    &&& 0 <= at < s.len()
    &&& s[at] is Batch
    &&& forall|k: int| 0 <= k < at ==> !(#[trigger] s[k] is Batch)
}

/// A series that has batch points has a first one.
proof fn lemma_first_batch(s: Seq<TrainEvent>) -> (at: int)
    requires
        batch_count(s) > 0,
    ensures
        is_first_batch(s, at),
    decreases s.len(),
{
    if s.first() is Batch {
        0
    } else {
        let rest = s.drop_first();
        let at = lemma_first_batch(rest) + 1;
        assert forall|k: int| 0 <= k < at implies !(#[trigger] s[k] is Batch) by {
            if k > 0 {
                assert(s[k] == rest[k - 1]);
            }
        }
        at
    }
}

/// Without batch points the count is zero.
proof fn lemma_no_batch(s: Seq<TrainEvent>)
    requires
        forall|k: int| 0 <= k < s.len() ==> !(#[trigger] s[k] is Batch),
    ensures
        batch_count(s) == 0,
    decreases s.len(),
{
    if s.len() > 0 {
        let rest = s.drop_first();
        assert(!(s[0] is Batch));
        assert forall|k: int| 0 <= k < rest.len() implies !(#[trigger] rest[k] is Batch) by {
            assert(rest[k] == s[k + 1]);
        }
        lemma_no_batch(rest);
    }
}

/// Dropping the oldest batch point keeps every summary.
proof fn lemma_drop_keeps_summaries(s: Seq<TrainEvent>)
    ensures
        without_oldest_batch(s).filter(|e: TrainEvent| !(e is Batch)) == s.filter(
            |e: TrainEvent| !(e is Batch),
        ),
    decreases s.len(),
{
    let summary = |e: TrainEvent| !(e is Batch);
    if s.len() > 0 {
        lemma_filter_first(s, summary);
        if !(s.first() is Batch) {
            let rest = s.drop_first();
            lemma_drop_keeps_summaries(rest);
            let left = without_oldest_batch(s);
            lemma_filter_first(left, summary);
            assert(left.drop_first() =~= without_oldest_batch(rest));
        }
    }
}

/// Epoch summaries are kept for the whole run, in order.
pub proof fn law_epoch_summaries_are_kept(history: Seq<TrainEvent>)
    ensures
        retained(history).filter(|e: TrainEvent| !(e is Batch)) == history.filter(
            |e: TrainEvent| !(e is Batch),
        ),
    decreases history.len(),
{
    let summary = |e: TrainEvent| !(e is Batch);
    if history.len() > 0 {
        let rest = history.drop_first();
        law_epoch_summaries_are_kept(rest);
        lemma_filter_first(history, summary);
        let kept = seq![history.first()] + retained(rest);
        lemma_filter_first(kept, summary);
        assert(kept.drop_first() =~= retained(rest));
    }
}

/// Of the batch points, the newest are kept, in order: all of them up to the
/// cap, and exactly as many as the cap beyond it.
pub proof fn law_newest_batches_are_kept(history: Seq<TrainEvent>)
    ensures
        ({
            let batches = history.filter(|e: TrainEvent| e is Batch);
            retained(history).filter(|e: TrainEvent| e is Batch) == (if batches.len()
                <= MAX_REPLAY_BATCH_EVENTS {
                batches
            } else {
                batches.skip(batches.len() - MAX_REPLAY_BATCH_EVENTS)
            })
        }),
    decreases history.len(),
{
    let batch = |e: TrainEvent| e is Batch;
    lemma_batch_count_is_filter_len(history);
    if history.len() > 0 {
        let rest = history.drop_first();
        law_newest_batches_are_kept(rest);
        lemma_batch_count_is_filter_len(rest);
        lemma_filter_first(history, batch);
        let kept = seq![history.first()] + retained(rest);
        lemma_filter_first(kept, batch);
        assert(kept.drop_first() =~= retained(rest));
        let all = history.filter(batch);
        let later = rest.filter(batch);
        if history.first() is Batch {
            assert(all =~= seq![history.first()] + later);
            if batch_count(rest) >= MAX_REPLAY_BATCH_EVENTS {
                assert(all.skip(all.len() - MAX_REPLAY_BATCH_EVENTS) =~= later.skip(
                    later.len() - MAX_REPLAY_BATCH_EVENTS,
                ));
                assert(later.skip(0) =~= later);
            }
        }
    }
}

/// Filtering takes the first element by itself.
proof fn lemma_filter_first(s: Seq<TrainEvent>, keep: spec_fn(TrainEvent) -> bool)
    requires
        s.len() > 0,
    ensures
        s.filter(keep) == (if keep(s.first()) {
            seq![s.first()] + s.drop_first().filter(keep)
        } else {
            s.drop_first().filter(keep)
        }),
    decreases s.len(),
{
    reveal(Seq::filter);
    let rest = s.drop_first();
    if s.len() == 1 {
        assert(s.drop_last() =~= Seq::<TrainEvent>::empty());
        assert(rest =~= Seq::<TrainEvent>::empty());
        assert(s.drop_last().filter(keep) =~= Seq::<TrainEvent>::empty());
        assert(rest.filter(keep) =~= Seq::<TrainEvent>::empty());
    } else {
        lemma_filter_first(s.drop_last(), keep);
        assert(s.drop_last().drop_first() =~= rest.drop_last());
        assert(s.filter(keep) =~= (if keep(s.first()) {
            seq![s.first()] + rest.filter(keep)
        } else {
            rest.filter(keep)
        }));
    }
}

/// The count of batch points is the length of their subsequence.
pub(crate) proof fn lemma_batch_count_is_filter_len(s: Seq<TrainEvent>)
    ensures
        batch_count(s) == s.filter(|e: TrainEvent| e is Batch).len(),
    decreases s.len(),
{
    let batch = |e: TrainEvent| e is Batch;
    if s.len() == 0 {
        reveal(Seq::filter);
    } else {
        lemma_filter_first(s, batch);
        lemma_batch_count_is_filter_len(s.drop_first());
    }
}

/// One thing that a manager deals with in one turn.
pub enum Input {
    /// A start, with the id and the time that it would get.
    Start {
        id: RunId,
        params: TrainParams,
        speed: u64,
        started_at: Timestamp,
        probe: SnapshotProbe,
    },
    /// A runtime command.
    Command(TrainingCommand),
    /// A message from the training thread of run `id`.
    Message { id: RunId, msg: ThreadMsg },
}

/// The manager after one turn.
pub open spec fn after_input(m: ManagerView, input: Input) -> ManagerView {
    match input {
        Input::Start { id, params, speed, started_at, probe } => if m.start_refusal(
            params,
            probe,
        ) is Some {
            m
        } else {
            m.started(id, params, speed, started_at)
        },
        Input::Command(cmd) => m.after_command(cmd),
        Input::Message { id, msg } => m.after_thread_msg(id, msg),
    }
}

/// The manager after a series of turns.
pub open spec fn after_inputs(m: ManagerView, inputs: Seq<Input>) -> ManagerView
    decreases inputs.len(),
{
    if inputs.len() == 0 {
        m
    } else {
        after_input(after_inputs(m, inputs.drop_last()), inputs.last())
    }
}

/// The run that a turn is about (`None` for what is not a runtime command).
pub open spec fn input_subject(input: Input) -> Option<RunId> {
    match input {
        Input::Start { id, .. } => Some(id),
        Input::Command(cmd) => cmd.addressee(),
        Input::Message { id, .. } => Some(id),
    }
}

/// Every turn keeps the manager consistent: at most [`MAX_RUNS`] runs are
/// active, every active run's thread is asked for what its phase says, ended
/// runs have no control channel, and every replay buffer holds metrics only and
/// keeps to its cap.
pub proof fn law_every_turn_keeps_valid(m: ManagerView, input: Input)
    requires
        m.valid(),
    ensures
        after_input(m, input).valid(),
{
    let after = after_input(m, input);
    match input {
        Input::Start { id, params, speed, started_at, probe } => {
            if m.start_refusal(params, probe) is None {
                let run = crate::model::fresh_run(params, speed, started_at);
                lemma_active_after_insert(m.runs, id, run);
                assert(after.runs == m.runs.insert(id, run));
            }
        },
        Input::Command(TrainingCommand::Reset { id }) => {
            lemma_active_after_wipe(m.runs, id);
        },
        Input::Command(cmd) => {
            if after != m {
                let id = cmd.addressee()->0;
                lemma_active_after_replace(m.runs, id, after.runs[id]);
                assert(after.runs =~= m.runs.insert(id, after.runs[id]));
            }
        },
        Input::Message { id, msg } => {
            if m.runs.contains_key(id) && after != m {
                lemma_active_after_replace(m.runs, id, after.runs[id]);
                assert(after.runs =~= m.runs.insert(id, after.runs[id]));
                if let ThreadMsg::Event(event) = msg {
                    if !(event is Paused) {
                        lemma_push_keeps_valid(m.runs[id], event);
                    }
                }
            }
        },
    }
}

/// One more metrics event keeps a run consistent.
proof fn lemma_push_keeps_valid(run: RunView, event: TrainEvent)
    requires
        run.valid(),
        run.metrics_only(),
        !(event is Paused),
    ensures
        run.with_event(event).valid(),
        run.with_event(event).metrics_only(),
{
    let grown = run.replay.push(event);
    lemma_batch_count_push(run.replay, event);
    if event is Batch && batch_count(grown) > MAX_REPLAY_BATCH_EVENTS {
        lemma_drop_keeps(grown);
    }
}

/// Dropping the oldest batch point brings in nothing new.
proof fn lemma_drop_keeps(s: Seq<TrainEvent>)
    requires
        batch_count(s) > 0,
        forall|i: int| 0 <= i < s.len() ==> !(#[trigger] s[i] is Paused),
    ensures
        batch_count(without_oldest_batch(s)) + 1 == batch_count(s),
        without_oldest_batch(s).len() + 1 == s.len(),
        forall|i: int|
            0 <= i < without_oldest_batch(s).len() ==> !(#[trigger] without_oldest_batch(s)[i]
                is Paused),
    decreases s.len(),
{
    if !(s.first() is Batch) {
        let rest = s.drop_first();
        lemma_drop_keeps(rest);
        let left = without_oldest_batch(s);
        assert(left.drop_first() =~= without_oldest_batch(rest));
        assert forall|i: int| 0 <= i < left.len() implies !(#[trigger] left[i] is Paused) by {
            if i > 0 {
                assert(left[i] == without_oldest_batch(rest)[i - 1]);
            }
        }
    }
}

/// A manager that started empty is consistent after any series of turns.
pub proof fn law_always_valid(inputs: Seq<Input>)
    ensures
        after_inputs(
            ManagerView { runs: Map::empty(), outbox: Seq::empty() },
            inputs,
        ).valid(),
    decreases inputs.len(),
{
    let empty = ManagerView { runs: Map::empty(), outbox: Seq::empty() };
    if inputs.len() == 0 {
        assert(active_ids(empty.runs) =~= Set::<RunId>::empty());
    } else {
        law_always_valid(inputs.drop_last());
        law_every_turn_keeps_valid(after_inputs(empty, inputs.drop_last()), inputs.last());
    }
}

/// A turn leaves every run alone but the one it is about; what it adds to the
/// outbox is about that run too, and what the outbox holds stays.
pub proof fn law_a_turn_touches_one_run(m: ManagerView, input: Input)
    ensures
        forall|other: RunId|
            Some(other) != input_subject(input) ==> (#[trigger] after_input(
                m,
                input,
            ).runs.contains_key(other) <==> m.runs.contains_key(other)) && after_input(
                m,
                input,
            ).runs[other] == m.runs[other],
        m.outbox.is_prefix_of(after_input(m, input).outbox),
        forall|i: int|
            m.outbox.len() <= i < after_input(m, input).outbox.len() ==> Some(
                (#[trigger] after_input(m, input).outbox[i]).subject(),
            ) == input_subject(input),
{
}

/// A refused command changes nothing, and neither does a refused start.
pub proof fn law_refusal_changes_nothing(m: ManagerView, input: Input)
    requires
        match input {
            Input::Start { params, probe, .. } => m.start_refusal(params, probe) is Some,
            Input::Command(cmd) => m.command_reply(cmd) is Err,
            Input::Message { id, .. } => !m.runs.contains_key(id),
        },
    ensures
        after_input(m, input) == m,
{
}

/// While a run is active, every start is refused for that reason, whatever it
/// asks for.
pub proof fn law_one_active_run(
    m: ManagerView,
    id: RunId,
    params: TrainParams,
    probe: SnapshotProbe,
)
    requires
        m.valid(),
        m.runs.contains_key(id),
        m.runs[id].active(),
    ensures
        m.start_refusal(params, probe) == Some("a training run is already active"@),
{
    let active = active_ids(m.runs);
    assert(active.contains(id));
    assert(set![id].subset_of(active));
    vstd::set_lib::lemma_len_subset(set![id], active);
}

/// Two runs are never active together.
pub proof fn law_active_run_is_unique(m: ManagerView, a: RunId, b: RunId)
    requires
        m.valid(),
        m.runs.contains_key(a),
        m.runs.contains_key(b),
        m.runs[a].active(),
        m.runs[b].active(),
    ensures
        a == b,
{
    let active = active_ids(m.runs);
    if a != b {
        assert(set![a, b].subset_of(active));
        vstd::set_lib::lemma_len_subset(set![a, b], active);
    }
}

/// Reset wipes the run: it can be neither attached to nor asked for, and it
/// leaves no other run active, so that a new start is not refused as busy.
pub proof fn law_reset_wipes_run(
    m: ManagerView,
    id: RunId,
    attached: Result<AttachDump, String>,
    shown: Result<Snapshot, String>,
)
    requires
        m.valid(),
        m.runs.contains_key(id),
        m.after_command(TrainingCommand::Reset { id }).shows_attach(id, attached),
        m.after_command(TrainingCommand::Reset { id }).shows_snapshot(Some(id), shown),
    ensures
        attached is Err,
        shown is Err,
        m.runs[id].active() ==> !m.after_command(TrainingCommand::Reset { id }).busy(),
{
    let after = m.after_command(TrainingCommand::Reset { id });
    if m.runs[id].active() {
        assert forall|other: RunId| !active_ids(after.runs).contains(other) by {
            if active_ids(after.runs).contains(other) {
                law_active_run_is_unique(m, id, other);
            }
        }
        assert(active_ids(after.runs) =~= Set::<RunId>::empty());
    }
}

/// Whatever the thread of a reset run still sends is dropped: it reaches no
/// run, and no viewer.
pub proof fn law_late_messages_are_dropped(m: ManagerView, id: RunId, msg: ThreadMsg)
    requires
        m.runs.contains_key(id),
    ensures
        m.after_command(TrainingCommand::Reset { id }).after_thread_msg(id, msg)
            == m.after_command(TrainingCommand::Reset { id }),
{
}

/// The thread of a reset run is asked to abort before the run is forgotten, so
/// that it still saves its checkpoint.
pub proof fn law_reset_aborts_thread(m: ManagerView, id: RunId)
    requires
        m.valid(),
        m.runs.contains_key(id),
        m.runs[id].active(),
    ensures
        ({
            let sent = m.after_command(TrainingCommand::Reset { id }).outbox.skip(
                m.outbox.len() as int,
            );
            &&& sent.len() == 3
            &&& sent[0] matches Action::Control { id: to, state } && to == id && state.action is Abort
            &&& sent[1] == Action::Release { id }
            &&& sent[2] == Action::Broadcast(ManagerEvent::Reset { id })
        }),
{
}

/// An ended run is final: whatever comes but its reset or a new run under its
/// id, its status stays as it ended, and only a reset is accepted for it.
pub proof fn law_ended_run_is_final(
    m: ManagerView,
    id: RunId,
    inputs: Seq<Input>,
    cmd: TrainingCommand,
)
    requires
        m.valid(),
        m.runs.contains_key(id),
        !m.runs[id].active(),
        forall|i: int| 0 <= i < inputs.len() ==> !replaces(id, #[trigger] inputs[i]),
        cmd.addressee() == Some(id),
        cmd != (TrainingCommand::Reset { id }),
    ensures
        after_inputs(m, inputs).runs.contains_key(id),
        after_inputs(m, inputs).runs[id].status == m.runs[id].status,
        after_inputs(m, inputs).runs[id].control is None,
        after_inputs(m, inputs).command_reply(cmd) is Err,
    decreases inputs.len(),
{
    if inputs.len() > 0 {
        let earlier = inputs.drop_last();
        assert forall|i: int| 0 <= i < earlier.len() implies !replaces(id, #[trigger] earlier[i]) by {
            assert(earlier[i] == inputs[i]);
        }
        law_ended_run_is_final(m, id, earlier, cmd);
        assert(!replaces(id, inputs[inputs.len() - 1]));
    }
}

/// A turn that ends run `id`: a reset of it, or the exit of its thread.
pub open spec fn ends_run(id: RunId, input: Input) -> bool {
    match input {
        Input::Start { .. } => false,
        Input::Command(cmd) => cmd == (TrainingCommand::Reset { id }),
        Input::Message { id: from, msg } => from == id && msg is Exited,
    }
}

/// The action tells viewers of another phase of run `id`.
pub open spec fn announces_phase(id: RunId, action: Action) -> bool {
    action matches Action::Broadcast(ManagerEvent::PhaseChanged { id: of, .. }) && of == id
}

/// A stopping run never goes on: whatever comes but its reset or the exit of its
/// thread, it stays active and stopping, its thread stays asked to abort, and
/// viewers are told of no other phase. The exit ends it.
pub proof fn law_stopping_run_only_ends(
    m: ManagerView,
    id: RunId,
    inputs: Seq<Input>,
    exit: Result<TrainExit, String>,
)
    requires
        m.valid(),
        m.runs.contains_key(id),
        m.runs[id].active(),
        m.runs[id].status->Active_phase is Stopping,
        forall|i: int| 0 <= i < inputs.len() ==> !ends_run(id, #[trigger] inputs[i]),
    ensures
        ({
            let later = after_inputs(m, inputs);
            &&& later.valid()
            &&& later.runs.contains_key(id)
            &&& later.runs[id].status == m.runs[id].status
            &&& later.runs[id].control is Some
            &&& later.runs[id].control->0.action is Abort
            &&& m.outbox.is_prefix_of(later.outbox)
            &&& forall|k: int|
                m.outbox.len() <= k < later.outbox.len() ==> !announces_phase(
                    id,
                    #[trigger] later.outbox[k],
                )
            &&& !later.after_thread_msg(id, ThreadMsg::Exited(exit)).runs[id].active()
        }),
    decreases inputs.len(),
{
    if inputs.len() > 0 {
        let earlier = inputs.drop_last();
        let input = inputs.last();
        let before = after_inputs(m, earlier);
        let later = after_inputs(m, inputs);
        assert forall|i: int| 0 <= i < earlier.len() implies !ends_run(id, #[trigger] earlier[i]) by {
            assert(earlier[i] == inputs[i]);
        }
        law_stopping_run_only_ends(m, id, earlier, exit);
        assert(!ends_run(id, inputs[inputs.len() - 1]));
        law_every_turn_keeps_valid(before, input);
        law_a_turn_touches_one_run(before, input);
        if let Input::Start { params, probe, .. } = input {
            law_one_active_run(before, id, params, probe);
        }
        assert forall|k: int| m.outbox.len() <= k < later.outbox.len() implies !announces_phase(
            id,
            #[trigger] later.outbox[k],
        ) by {
            if k < before.outbox.len() {
                assert(later.outbox[k] == before.outbox[k]);
            }
        }
    }
}

/// Pausing a running run and resuming it gives back the run, whether or not its
/// thread had reached the hold in between.
pub proof fn law_resume_undoes_pause(m: ManagerView, id: RunId)
    requires
        m.valid(),
        m.runs.contains_key(id),
        m.runs[id].active(),
        m.runs[id].status->Active_phase is Running,
    ensures
        ({
            let pausing = m.after_command(TrainingCommand::Pause { id });
            let paused = pausing.after_thread_msg(id, ThreadMsg::Event(TrainEvent::Paused));
            &&& pausing.runs[id].status->Active_phase is Pausing
            &&& paused.runs[id].status->Active_phase is Paused
            &&& pausing.after_command(TrainingCommand::Resume { id }).runs == m.runs
            &&& paused.after_command(TrainingCommand::Resume { id }).runs == m.runs
        }),
{
    let pausing = m.after_command(TrainingCommand::Pause { id });
    let paused = pausing.after_thread_msg(id, ThreadMsg::Event(TrainEvent::Paused));
    assert(pausing.after_command(TrainingCommand::Resume { id }).runs =~= m.runs);
    assert(paused.after_command(TrainingCommand::Resume { id }).runs =~= m.runs);
}

/// A late confirmation of the hold is ignored once the run goes on or stops: it
/// only settles a run that is pausing.
pub proof fn law_stale_pause_is_ignored(m: ManagerView, id: RunId)
    requires
        m.runs.contains_key(id),
        !m.runs[id].active() || !(m.runs[id].status->Active_phase is Pausing),
    ensures
        m.after_thread_msg(id, ThreadMsg::Event(TrainEvent::Paused)) == m,
{
}

/// Saying Pause, Resume or Stop again changes nothing and tells viewers nothing.
pub proof fn law_steering_is_idempotent(m: ManagerView, cmd: TrainingCommand)
    requires
        cmd is Pause || cmd is Resume || cmd is Stop,
    ensures
        m.after_command(cmd).after_command(cmd) == m.after_command(cmd),
        m.after_command(cmd).command_reply(cmd) == m.command_reply(cmd),
{
}

/// Setting the speed changes the throttle and nothing else: the rest of the run
/// and all other runs stay, and the one action is the new control value.
pub proof fn law_speed_changes_throttle_only(m: ManagerView, id: RunId, batches_per_sec: u64)
    requires
        m.valid(),
        m.runs.contains_key(id),
        m.runs[id].active(),
    ensures
        ({
            let after = m.after_command(TrainingCommand::SetSpeed { id, batches_per_sec });
            let state = ControlState { batches_per_sec, ..m.runs[id].control->0 };
            &&& after.runs == m.runs.insert(
                id,
                RunView { control: Some(state), ..m.runs[id] },
            )
            &&& after.runs[id].status == m.runs[id].status
            &&& after.runs[id].replay == m.runs[id].replay
            &&& after.runs[id].points == m.runs[id].points
            &&& after.runs[id].control->0.action == m.runs[id].control->0.action
            &&& after.runs[id].control->0.batches_per_sec == batches_per_sec
            &&& after.outbox == m.outbox.push(Action::Control { id, state })
        }),
{
}

/// The exit of an active run's thread ends the run with the matching outcome,
/// keeps its replay for late viewers, tells them, and makes room for a new run.
pub proof fn law_exit_ends_run(m: ManagerView, id: RunId, exit: Result<TrainExit, String>)
    requires
        m.valid(),
        m.runs.contains_key(id),
        m.runs[id].active(),
    ensures
        ({
            let after = m.after_thread_msg(id, ThreadMsg::Exited(exit));
            &&& after.runs[id].status == (RunStatus::Ended {
                outcome: outcome_of(exit),
                config: m.runs[id].status.params(),
                started_at: m.runs[id].status.start_time(),
            })
            &&& after.runs[id].replay == m.runs[id].replay
            &&& after.outbox.last() == Action::Broadcast(
                ManagerEvent::Ended { id, outcome: outcome_of(exit) },
            )
            &&& !after.busy()
        }),
{
    let after = m.after_thread_msg(id, ThreadMsg::Exited(exit));
    assert forall|other: RunId| !active_ids(after.runs).contains(other) by {
        if active_ids(after.runs).contains(other) {
            law_active_run_is_unique(m, id, other);
        }
    }
    assert(active_ids(after.runs) =~= Set::<RunId>::empty());
}

/// A request that names no run refers to one run only, and to the active one
/// where there is one.
pub proof fn law_latest_run(m: ManagerView, a: RunId, b: RunId)
    requires
        m.is_latest(a),
    ensures
        m.is_latest(b) ==> a == b,
        m.runs.contains_key(b) && m.runs[b].active() ==> m.runs[a].active(),
        m.valid() && m.runs.contains_key(b) && m.runs[b].active() ==> a == b,
{
    if m.runs.contains_key(b) && m.runs[b].active() && b != a {
        assert(m.outranks(a, b));
        if m.valid() {
            law_active_run_is_unique(m, a, b);
        }
    }
}

/// Where no run is active, a request that names no run refers to one that no
/// other was started after.
pub proof fn law_latest_ended_run(m: ManagerView, id: RunId, other: RunId)
    requires
        m.is_latest(id),
        !m.runs[id].active(),
        m.runs.contains_key(other),
    ensures
        !m.runs[id].status.start_time().precedes(m.runs[other].status.start_time()),
{
    if other != id {
        assert(m.outranks(id, other));
    }
}

/// An active run that was started later than every other is the one that a
/// request that names no run refers to, and stays it when it ends: of the ended
/// runs, the one that ended last.
pub proof fn law_last_to_end_is_latest(m: ManagerView, id: RunId, exit: Result<TrainExit, String>)
    requires
        m.valid(),
        m.runs.contains_key(id),
        m.runs[id].active(),
        forall|other: RunId| #[trigger]
            m.runs.contains_key(other) && other != id
                ==> m.runs[other].status.start_time().precedes(m.runs[id].status.start_time()),
    ensures
        m.is_latest(id),
        m.after_thread_msg(id, ThreadMsg::Exited(exit)).is_latest(id),
{
    let after = m.after_thread_msg(id, ThreadMsg::Exited(exit));
    assert forall|other: RunId| #[trigger]
        m.runs.contains_key(other) && other != id implies !m.runs[other].active() by {
        if m.runs[other].active() {
            law_active_run_is_unique(m, id, other);
        }
    }
    assert forall|other: RunId| #[trigger]
        after.runs.contains_key(other) && other != id implies after.outranks(id, other) by {
        assert(m.runs.contains_key(other));
    }
}

/// The metrics that turns bring for run `id`.
pub open spec fn metrics_of(id: RunId, inputs: Seq<Input>) -> Seq<TrainEvent>
    decreases inputs.len(),
{
    if inputs.len() == 0 {
        Seq::empty()
    } else {
        let earlier = metrics_of(id, inputs.drop_last());
        match inputs.last() {
            Input::Message { id: from, msg: ThreadMsg::Event(event) } => if from == id && !(event
                is Paused) {
                earlier.push(event)
            } else {
                earlier
            },
            _ => earlier,
        }
    }
}

/// The metrics of run `id` that actions broadcast to viewers.
pub open spec fn broadcast_metrics(id: RunId, actions: Seq<Action>) -> Seq<TrainEvent>
    decreases actions.len(),
{
    if actions.len() == 0 {
        Seq::empty()
    } else {
        let earlier = broadcast_metrics(id, actions.drop_last());
        match actions.last() {
            Action::Broadcast(ManagerEvent::Train { id: of, event }) => if of == id {
                earlier.push(event)
            } else {
                earlier
            },
            _ => earlier,
        }
    }
}

/// One more action.
proof fn lemma_broadcast_push(id: RunId, actions: Seq<Action>, action: Action)
    ensures
        broadcast_metrics(id, actions.push(action)) == (match action {
            Action::Broadcast(ManagerEvent::Train { id: of, event }) => if of == id {
                broadcast_metrics(id, actions).push(event)
            } else {
                broadcast_metrics(id, actions)
            },
            _ => broadcast_metrics(id, actions),
        }),
{
    assert(actions.push(action).drop_last() =~= actions);
}

/// A turn that wipes run `id` or puts another in its place.
pub open spec fn replaces(id: RunId, input: Input) -> bool {
    match input {
        Input::Start { id: of, .. } => of == id,
        Input::Command(cmd) => cmd == (TrainingCommand::Reset { id }),
        Input::Message { .. } => false,
    }
}

/// No gap between replay and live stream: from any turn on, viewers are sent
/// exactly the metrics that the run's thread brings, in order, and a viewer that
/// attaches later gets what is retained of the earlier replay and those metrics
/// together. Every one of them counts as a point produced.
pub proof fn law_replay_and_live_stream_agree(m: ManagerView, id: RunId, inputs: Seq<Input>)
    requires
        m.valid(),
        m.runs.contains_key(id),
        forall|i: int| 0 <= i < inputs.len() ==> !replaces(id, #[trigger] inputs[i]),
    ensures
        ({
            let later = after_inputs(m, inputs);
            &&& later.runs.contains_key(id)
            &&& m.outbox.is_prefix_of(later.outbox)
            &&& broadcast_metrics(id, later.outbox.skip(m.outbox.len() as int)) == metrics_of(
                id,
                inputs,
            )
            &&& later.runs[id].replay == retained(m.runs[id].replay + metrics_of(id, inputs))
            &&& m.runs[id].points + metrics_of(id, inputs).len() <= usize::MAX
                ==> later.runs[id].points == m.runs[id].points + metrics_of(id, inputs).len()
        }),
    decreases inputs.len(),
{
    let later = after_inputs(m, inputs);
    let n = m.outbox.len() as int;
    if inputs.len() == 0 {
        assert(later.outbox.skip(n) =~= Seq::<Action>::empty());
        assert(m.runs[id].replay + Seq::<TrainEvent>::empty() =~= m.runs[id].replay);
        lemma_retained_within_cap(m.runs[id].replay);
    } else {
        let input = inputs.last();
        let before = after_inputs(m, inputs.drop_last());
        assert forall|i: int| 0 <= i < inputs.drop_last().len() implies !replaces(
            id,
            #[trigger] inputs.drop_last()[i],
        ) by {
            assert(inputs.drop_last()[i] == inputs[i]);
        }
        law_replay_and_live_stream_agree(m, id, inputs.drop_last());
        assert(!replaces(id, inputs[inputs.len() - 1]));
        lemma_turn_broadcasts(before, id, input, n);
        let history = m.runs[id].replay + metrics_of(id, inputs.drop_last());
        if let Input::Message { id: from, msg: ThreadMsg::Event(event) } = input {
            if from == id && !(event is Paused) {
                lemma_retained_push(history, event);
                assert(history.push(event) =~= m.runs[id].replay + metrics_of(id, inputs));
            }
        }
    }
}

/// What one turn adds to the metrics that viewers of run `id` are sent, and to
/// its replay.
proof fn lemma_turn_broadcasts(m: ManagerView, id: RunId, input: Input, n: int)
    requires
        m.runs.contains_key(id),
        !replaces(id, input),
        0 <= n <= m.outbox.len(),
    ensures
        ({
            let after = after_input(m, input);
            let sent = broadcast_metrics(id, m.outbox.skip(n));
            let sent_after = broadcast_metrics(id, after.outbox.skip(n));
            &&& after.runs.contains_key(id)
            &&& m.outbox.is_prefix_of(after.outbox)
            &&& match input {
                Input::Message { id: from, msg: ThreadMsg::Event(event) } if from == id && !(event
                    is Paused) => {
                    &&& sent_after == sent.push(event)
                    &&& after.runs[id].replay == replay_push(m.runs[id].replay, event)
                    &&& after.runs[id].points == one_more(m.runs[id].points)
                },
                _ => {
                    &&& sent_after == sent
                    &&& after.runs[id].replay == m.runs[id].replay
                    &&& after.runs[id].points == m.runs[id].points
                },
            }
        }),
{
    let after = after_input(m, input);
    let old_sent = m.outbox.skip(n);
    let added = after.outbox.len() - m.outbox.len();
    assert(0 <= added <= 3);
    let s = m.outbox.len() as int;
    if added >= 1 {
        lemma_broadcast_push(id, old_sent, after.outbox[s]);
    }
    if added >= 2 {
        lemma_broadcast_push(id, old_sent.push(after.outbox[s]), after.outbox[s + 1]);
    }
    if added >= 3 {
        lemma_broadcast_push(
            id,
            old_sent.push(after.outbox[s]).push(after.outbox[s + 1]),
            after.outbox[s + 2],
        );
    }
    if added == 0 {
        assert(after.outbox.skip(n) =~= old_sent);
    } else if added == 1 {
        assert(after.outbox.skip(n) =~= old_sent.push(after.outbox[s]));
    } else if added == 2 {
        assert(after.outbox.skip(n) =~= old_sent.push(after.outbox[s]).push(after.outbox[s + 1]));
    } else {
        assert(after.outbox.skip(n) =~= old_sent.push(after.outbox[s]).push(
            after.outbox[s + 1],
        ).push(after.outbox[s + 2]));
    }
}

/// A socket only carries events of its own run: what it greets a viewer with,
/// and what it forwards.
pub proof fn law_socket_carries_one_run(
    id: RunId,
    replay: Seq<TrainEvent>,
    status: TrainingStatus,
    seq: u64,
    event: ManagerEvent,
)
    ensures
        forall|i: int|
            0 <= i < greeting(id, replay, status).len() ==> (#[trigger] greeting(
                id,
                replay,
                status,
            )[i]).event.subject() == Some(id),
        live_message(id, seq, event) is Some ==> live_message(id, seq, event)->0.subject() == Some(
            id,
        ),
        event.subject() != id ==> live_message(id, seq, event) is None,
{
    lemma_replay_metrics_subject(id, replay);
}

proof fn lemma_replay_metrics_subject(id: RunId, replay: Seq<TrainEvent>)
    ensures
        forall|i: int|
            0 <= i < replay_metrics(id, replay).len() ==> (#[trigger] replay_metrics(
                id,
                replay,
            )[i]).event.subject() == Some(id),
    decreases replay.len(),
{
    if replay.len() > 0 {
        lemma_replay_metrics_subject(id, replay.drop_last());
    }
}

/// A viewer's replay is complete and numbered from 1 without gaps: every
/// buffered event goes out as the metrics point with its place as its number.
pub proof fn law_replay_points_are_numbered(id: RunId, replay: Seq<TrainEvent>)
    requires
        replay.len() <= u64::MAX,
        forall|i: int| 0 <= i < replay.len() ==> !(#[trigger] replay[i] is Paused),
    ensures
        replay_metrics(id, replay).len() == replay.len(),
        forall|i: int|
            0 <= i < replay.len() ==> #[trigger] replay_metrics(id, replay)[i] == (Outgoing {
                event: TrainingEvent::Metrics {
                    id,
                    point: event_point((i + 1) as u64, replay[i])->0,
                },
                required: true,
            }),
        forall|i: int|
            0 <= i < replay.len() ==> event_point((i + 1) as u64, #[trigger] replay[i]) is Some
                && event_point((i + 1) as u64, replay[i])->0.seq == i + 1,
    decreases replay.len(),
{
    if replay.len() > 0 {
        let earlier = replay.drop_last();
        assert forall|i: int| 0 <= i < earlier.len() implies !(#[trigger] earlier[i] is Paused) by {
            assert(earlier[i] == replay[i]);
        }
        law_replay_points_are_numbered(id, earlier);
        assert(!(replay[replay.len() - 1] is Paused));
        assert forall|i: int| 0 <= i < replay.len() implies #[trigger] replay_metrics(id, replay)[i]
            == (Outgoing {
            event: TrainingEvent::Metrics {
                id,
                point: event_point((i + 1) as u64, replay[i])->0,
            },
            required: true,
        }) by {
            if i < earlier.len() {
                assert(replay_metrics(id, replay)[i] == replay_metrics(id, earlier)[i]);
                assert(earlier[i] == replay[i]);
            }
        }
    }
}

/// The wire status says whether the run has ended, and which phase an active
/// run is in.
pub proof fn law_wire_status_is_faithful(status: RunStatus, a: Phase, b: Phase)
    ensures
        run_status(status).terminal() <==> status is Ended,
        phase_status(a) == phase_status(b) ==> a == b,
{
}

/// In what a viewer is greeted with, `Finished` comes right after a terminal
/// status, as the last event, and never otherwise.
pub proof fn law_finished_follows_terminal_status(
    id: RunId,
    replay: Seq<TrainEvent>,
    status: TrainingStatus,
)
    ensures
        ({
            let sent = greeting(id, replay, status);
            if status.terminal() {
                &&& sent.len() >= 2
                &&& sent.last().event == (TrainingEvent::Finished { id })
                &&& sent[sent.len() - 2].event == (TrainingEvent::Status { id, status })
                &&& forall|i: int|
                    0 <= i < sent.len() - 1 ==> !((#[trigger] sent[i]).event is Finished)
            } else {
                &&& sent.last().event == (TrainingEvent::Status { id, status })
                &&& forall|i: int| 0 <= i < sent.len() ==> !((#[trigger] sent[i]).event is Finished)
            }
        }),
{
    lemma_replay_metrics_are_metrics(id, replay);
}

proof fn lemma_replay_metrics_are_metrics(id: RunId, replay: Seq<TrainEvent>)
    ensures
        forall|i: int|
            0 <= i < replay_metrics(id, replay).len() ==> (#[trigger] replay_metrics(
                id,
                replay,
            )[i]).event is Metrics,
    decreases replay.len(),
{
    if replay.len() > 0 {
        lemma_replay_metrics_are_metrics(id, replay.drop_last());
    }
}

/// A client's state of run `id` after it has read a series of events.
pub open spec fn after_reading(state: RunStateView, id: RunId, sent: Seq<Outgoing>) -> RunStateView
    decreases sent.len(),
{
    if sent.len() == 0 {
        state
    } else {
        after_reading(state, id, sent.drop_last()).after_frame(
            id,
            ServerFrame::Text(Ok(sent.last().event)),
        )
    }
}

/// A client that reads what the server greets it with knows the run: its
/// status, how many points there are, and the latest of them.
pub proof fn law_client_learns_run(
    state: RunStateView,
    id: RunId,
    replay: Seq<TrainEvent>,
    status: TrainingStatus,
)
    requires
        forall|i: int| 0 <= i < replay.len() ==> !(#[trigger] replay[i] is Paused),
    ensures
        after_reading(state, id, greeting(id, replay, status)) == (RunStateView {
            status: Some(status),
            detail: state.detail,
            points: state.points + replay.len(),
            latest: if replay.len() == 0 {
                state.latest
            } else {
                event_point(replay.len() as u64, replay.last())
            },
        }),
{
    lemma_client_reads_replay(state, id, replay);
    let metrics = replay_metrics(id, replay);
    let up_to_status = metrics.push(
        Outgoing { event: TrainingEvent::Status { id, status }, required: true },
    );
    assert(up_to_status.drop_last() =~= metrics);
    let known = after_reading(state, id, up_to_status);
    assert(known.status == Some(status));
    if status.terminal() {
        assert(greeting(id, replay, status).drop_last() =~= up_to_status);
    }
}

proof fn lemma_client_reads_replay(state: RunStateView, id: RunId, replay: Seq<TrainEvent>)
    requires
        forall|i: int| 0 <= i < replay.len() ==> !(#[trigger] replay[i] is Paused),
    ensures
        after_reading(state, id, replay_metrics(id, replay)) == (RunStateView {
            points: state.points + replay.len(),
            latest: if replay.len() == 0 {
                state.latest
            } else {
                event_point(replay.len() as u64, replay.last())
            },
            ..state
        }),
    decreases replay.len(),
{
    if replay.len() > 0 {
        let earlier = replay.drop_last();
        assert forall|i: int| 0 <= i < earlier.len() implies !(#[trigger] earlier[i] is Paused) by {
            assert(earlier[i] == replay[i]);
        }
        lemma_client_reads_replay(state, id, earlier);
        assert(!(replay[replay.len() - 1] is Paused));
        assert(replay_metrics(id, replay).drop_last() =~= replay_metrics(id, earlier));
    }
}

/// A reset reaches every viewer of the run as `Cleared`, and a client that reads
/// it has no points left.
pub proof fn law_reset_clears_viewers(m: ManagerView, id: RunId, seq: u64, state: RunStateView)
    requires
        m.runs.contains_key(id),
    ensures
        ({
            let told = m.after_command(TrainingCommand::Reset { id }).outbox.last();
            let cleared = TrainingEvent::Cleared { id };
            let after = state.after_frame(id, ServerFrame::Text(Ok(cleared)));
            &&& told == Action::Broadcast(ManagerEvent::Reset { id })
            &&& live_message(id, seq, ManagerEvent::Reset { id }) == Some(cleared)
            &&& after.points == 0
            &&& after.latest is None
        }),
{
}

/// The id under which a start succeeds that reads these frames: that of the
/// first frame that answers it.
pub open spec fn start_answer(frames: Seq<ServerFrame>) -> Option<RunId>
    decreases frames.len(),
{
    if frames.len() == 0 {
        None
    } else if confirmed_id(frames.first()) is Some || start_failure(frames.first()) is Some {
        confirmed_id(frames.first())
    } else {
        start_answer(frames.drop_first())
    }
}

/// The registry after a start has read frames until one answered it.
pub open spec fn after_replies<H>(
    runs: TrainingRunsView<H>,
    frames: Seq<ServerFrame>,
    handle: H,
) -> TrainingRunsView<H>
    decreases frames.len(),
{
    if frames.len() == 0 {
        runs
    } else {
        let first = runs.after_reply(frames.first(), handle);
        if confirmed_id(frames.first()) is Some || start_failure(frames.first()) is Some {
            first
        } else {
            after_replies(first, frames.drop_first(), handle)
        }
    }
}

/// A start that succeeds registers exactly its run, which is then the one that
/// a status request without a handle shows. A start that fails leaves the
/// registry, and what such a request shows, as they were.
pub proof fn law_start_registers_its_run<H>(
    before: TrainingRuns<H>,
    after: TrainingRuns<H>,
    frames: Seq<ServerFrame>,
    handle: H,
    shown: Result<&H, RunsError>,
)
    requires
        after@ == after_replies(before@, frames, handle),
        after.shows_status(None, shown),
    ensures
        match start_answer(frames) {
            Some(id) => {
                &&& after@.runs == before@.runs.insert(id, handle)
                &&& after@.runs.dom() == before@.runs.dom().insert(id)
                &&& after@.last_started == Some(id)
                &&& shown is Ok
                &&& *shown->Ok_0 == handle
            },
            None => after@ == before@ && before.shows_status(None, shown),
        },
{
    lemma_replies(before@, frames, handle);
}

/// A start registers its run, if any.
proof fn lemma_replies<H>(runs: TrainingRunsView<H>, frames: Seq<ServerFrame>, handle: H)
    ensures
        after_replies(runs, frames, handle) == (match start_answer(frames) {
            Some(id) => TrainingRunsView {
                runs: runs.runs.insert(id, handle),
                last_started: Some(id),
            },
            None => runs,
        }),
    decreases frames.len(),
{
    if frames.len() > 0 {
        lemma_replies(runs, frames.drop_first(), handle);
    }
}

/// Events of another run neither change a client's state of its run nor end its
/// reading, and a page is not told of them.
pub proof fn law_clients_ignore_other_runs(
    state: RunStateView,
    connection: TrainingConnection,
    run_id: RunId,
    event: TrainingEvent,
    notice: Notice,
)
    requires
        event.subject() is Some,
        event.subject() != Some(run_id),
        !(event is Started),
        connection.run_id == Some(run_id),
        connection.tells(Ok(event), notice),
    ensures
        state.after_frame(run_id, ServerFrame::Text(Ok(event))) == state,
        !ends_reading(run_id, ServerFrame::Text(Ok(event))),
        connection.after_message(Ok(event)) == connection,
        notice is Silent,
{
}

/// The metrics points that a viewer of run `id` gets for live events, after
/// `seq` events have been numbered for it.
pub open spec fn live_points(id: RunId, seq: u64, events: Seq<ManagerEvent>) -> Seq<
    TrainingMetricsPoint,
>
    decreases events.len(),
{
    if events.len() == 0 {
        Seq::empty()
    } else {
        let later = live_points(id, next_seq(id, seq, events.first()), events.drop_first());
        match live_message(id, (seq + 1) as u64, events.first()) {
            Some(TrainingEvent::Metrics { point, .. }) => seq![point] + later,
            _ => later,
        }
    }
}

/// Live points continue the numbering of the replay, without gaps or
/// repetitions.
pub proof fn law_live_points_continue_numbering(id: RunId, seq: u64, events: Seq<ManagerEvent>)
    requires
        seq + events.len() <= u64::MAX,
        forall|i: int|
            0 <= i < events.len() ==> (#[trigger] events[i] matches ManagerEvent::Train {
                event,
                ..
            } ==> !(event is Paused)),
    ensures
        forall|k: int|
            0 <= k < live_points(id, seq, events).len() ==> (#[trigger] live_points(
                id,
                seq,
                events,
            )[k]).seq == seq + k + 1,
    decreases events.len(),
{
    if events.len() > 0 {
        let first = events.first();
        let rest = events.drop_first();
        assert(first == events[0]);
        assert forall|i: int| 0 <= i < rest.len() implies (#[trigger] rest[i] matches ManagerEvent::Train {
            event,
            ..
        } ==> !(event is Paused)) by {
            assert(rest[i] == events[i + 1]);
        }
        law_live_points_continue_numbering(id, next_seq(id, seq, first), rest);
    }
}

/// A run that has just been started is the one that a request that names no run
/// refers to: running, with nothing to replay.
pub proof fn law_started_run_is_latest(
    m: ManagerView,
    id: RunId,
    params: TrainParams,
    speed: u64,
    started_at: Timestamp,
)
    requires
        m.valid(),
        !m.busy(),
    ensures
        ({
            let after = m.started(id, params, speed, started_at);
            &&& after.is_latest(id)
            &&& after.busy()
            &&& after.runs[id].status == (RunStatus::Active {
                phase: Phase::Running,
                config: params,
                started_at,
            })
            &&& after.runs[id].replay.len() == 0
            &&& after.runs[id].control->0.batches_per_sec == speed
        }),
{
    let after = m.started(id, params, speed, started_at);
    assert forall|other: RunId| #[trigger]
        after.runs.contains_key(other) && other != id implies after.outranks(id, other) by {
        if m.runs[other].active() {
            assert(active_ids(m.runs).contains(other));
            assert(set![other].subset_of(active_ids(m.runs)));
            vstd::set_lib::lemma_len_subset(set![other], active_ids(m.runs));
        }
    }
    lemma_active_after_insert(m.runs, id, after.runs[id]);
    assert(set![id].subset_of(active_ids(after.runs)));
    vstd::set_lib::lemma_len_subset(set![id], active_ids(after.runs));
}

/// A dataset whose name is accepted has no path separator anywhere, so that its
/// manifest is looked for in the store's dataset directory and nowhere else.
pub proof fn law_accepted_dataset_stays_in_store(dataset: Seq<char>)
    requires
        name_refusal(trimmed(dataset)) is None,
    ensures
        forall|i: int|
            0 <= i < dataset.len() ==> #[trigger] dataset[i] != '/' && dataset[i] != '\\',
    decreases dataset.len(),
{
    if dataset.len() > 0 && white_space(dataset.first()) {
        let rest = dataset.drop_first();
        law_accepted_dataset_stays_in_store(rest);
        assert forall|i: int| 0 <= i < dataset.len() implies #[trigger] dataset[i] != '/'
            && dataset[i] != '\\' by {
            if i > 0 {
                assert(dataset[i] == rest[i - 1]);
            }
        }
    } else if dataset.len() > 0 && white_space(dataset.last()) {
        let rest = dataset.drop_last();
        law_accepted_dataset_stays_in_store(rest);
        assert forall|i: int| 0 <= i < dataset.len() implies #[trigger] dataset[i] != '/'
            && dataset[i] != '\\' by {
            if i < rest.len() {
                assert(dataset[i] == rest[i]);
            }
        }
    } else {
        assert forall|i: int| 0 <= i < dataset.len() implies #[trigger] dataset[i] != '/'
            && dataset[i] != '\\' by {
            assert(name_char(dataset[i]));
        }
    }
}

/// One thing that the driver of a socket hands in.
pub enum SocketInput {
    Frame(ClientFrame),
    Started(Result<RunId, String>),
    Attached(Result<AttachDump, String>),
    Commanded(Result<(), String>),
    Feed(Feed),
}

/// A socket that stands at `s` may be handed `input`.
pub open spec fn awaits(s: TrainingSocketView, input: SocketInput) -> bool {
    match input {
        SocketInput::Frame(_) => s.state is Opening || s.state is Live,
        SocketInput::Started(_) => s.state is Starting,
        SocketInput::Attached(_) => s.state is Attaching,
        SocketInput::Commanded(_) => s.state is Live,
        SocketInput::Feed(feed) => s.state is Live && s.can_number(feed),
    }
}

/// A socket at `s` that is handed `input` takes the step `r` and then stands at
/// `after`.
pub open spec fn takes_step(
    s: TrainingSocketView,
    input: SocketInput,
    after: TrainingSocketView,
    r: Step,
) -> bool {
    match input {
        SocketInput::Frame(frame) => if s.state is Opening {
            s.opens_with(frame, after.state, r)
        } else {
            s.relays(frame, after.state, r)
        },
        SocketInput::Started(reply) => s.acknowledges(reply, after.state, r),
        SocketInput::Attached(reply) => s.greets(reply, after.state, r),
        SocketInput::Commanded(reply) => after == s && r.reports_back(reply),
        SocketInput::Feed(feed) => s.forwards(feed, after.state, r),
    }
}

/// What is handed in brings metrics only, as a manager gives them out.
pub open spec fn brings_metrics_only(input: SocketInput) -> bool {
    match input {
        SocketInput::Attached(Ok(dump)) => forall|i: int|
            0 <= i < dump.replay@.len() ==> !(#[trigger] dump.replay@[i] is Paused),
        SocketInput::Feed(Feed::Event(ManagerEvent::Train { event, .. })) => !(event is Paused),
        _ => true,
    }
}

/// A socket's whole life so far: it stood at `stands[0]` when it was opened, and
/// was handed `inputs[i]` at `stands[i]`, to which it took the step `steps[i]`.
pub open spec fn is_session(
    stands: Seq<TrainingSocketView>,
    inputs: Seq<SocketInput>,
    steps: Seq<Step>,
) -> bool {
    &&& stands.len() == inputs.len() + 1
    &&& steps.len() == inputs.len()
    &&& stands[0].state is Opening
    &&& forall|i: int|
        0 <= i < inputs.len() ==> {
            &&& awaits(stands[i], #[trigger] inputs[i])
            &&& takes_step(stands[i], inputs[i], stands[i + 1], steps[i])
            &&& brings_metrics_only(inputs[i])
        }
}

/// What a series of steps sends to the client, in order.
pub open spec fn sent_by(steps: Seq<Step>) -> Seq<Outgoing>
    decreases steps.len(),
{
    if steps.len() == 0 {
        Seq::empty()
    } else {
        sent_by(steps.drop_last()) + steps.last().sends@
    }
}

/// The metrics points among what is sent, in order.
pub open spec fn points_of(sent: Seq<Outgoing>) -> Seq<TrainingMetricsPoint>
    decreases sent.len(),
{
    if sent.len() == 0 {
        Seq::empty()
    } else {
        let earlier = points_of(sent.drop_last());
        match sent.last().event {
            TrainingEvent::Metrics { point, .. } => earlier.push(point),
            _ => earlier,
        }
    }
}

/// Over a socket's whole life the metrics points are numbered 1, 2, 3, and so
/// on, through the replay and the live stream.
pub proof fn law_session_numbers_points(
    stands: Seq<TrainingSocketView>,
    inputs: Seq<SocketInput>,
    steps: Seq<Step>,
)
    requires
        is_session(stands, inputs, steps),
    ensures
        forall|k: int|
            0 <= k < points_of(sent_by(steps)).len() ==> (#[trigger] points_of(
                sent_by(steps),
            )[k]).seq == k + 1,
{
    lemma_session(stands, inputs, steps);
}

/// Over a socket's whole life `Finished` is sent exactly after a status that
/// ends the run, and nothing is sent after it.
pub proof fn law_session_finishes_after_end(
    stands: Seq<TrainingSocketView>,
    inputs: Seq<SocketInput>,
    steps: Seq<Step>,
)
    requires
        is_session(stands, inputs, steps),
    ensures
        ({
            let sent = sent_by(steps);
            &&& forall|i: int|
                0 <= i < sent.len() && (#[trigger] sent[i]).event is Finished ==> i == sent.len()
                    - 1 && i > 0 && sent[i - 1].event.ends()
            &&& forall|i: int|
                0 <= i < sent.len() && (#[trigger] sent[i]).event.ends() ==> i + 1 < sent.len()
                    && sent[i + 1].event is Finished
        }),
{
    lemma_session(stands, inputs, steps);
    reveal(finishes_in_order);
}

/// What holds of a socket at `state` that has sent `sent`.
spec fn session_inv(state: SocketState, sent: Seq<Outgoing>) -> bool {
    let points = points_of(sent);
    &&& forall|k: int| 0 <= k < points.len() ==> (#[trigger] points[k]).seq == k + 1
    &&& match state {
        SocketState::Live { seq, .. } => points.len() == seq,
        SocketState::Closed => true,
        _ => points.len() == 0,
    }
    &&& finishes_in_order(state, sent)
}

/// `Finished` and the end of the run stand last in `sent`, where they do.
#[verifier::opaque]
spec fn finishes_in_order(state: SocketState, sent: Seq<Outgoing>) -> bool {
    &&& forall|i: int|
        0 <= i < sent.len() && (#[trigger] sent[i]).event is Finished ==> state is Closed && i
            == sent.len() - 1 && i > 0 && sent[i - 1].event.ends()
    &&& forall|i: int|
        0 <= i < sent.len() && (#[trigger] sent[i]).event.ends() ==> state is Closed && i + 1
            < sent.len() && sent[i + 1].event is Finished
}

/// The invariant of a session, over its whole life.
proof fn lemma_session(
    stands: Seq<TrainingSocketView>,
    inputs: Seq<SocketInput>,
    steps: Seq<Step>,
)
    requires
        is_session(stands, inputs, steps),
    ensures
        session_inv(stands.last().state, sent_by(steps)),
    decreases inputs.len(),
{
    if inputs.len() == 0 {
        reveal(finishes_in_order);
    } else {
        let n = inputs.len() - 1;
        let s0 = stands.drop_last();
        let i0 = inputs.drop_last();
        let r0 = steps.drop_last();
        assert forall|i: int| 0 <= i < i0.len() implies {
            &&& awaits(s0[i], #[trigger] i0[i])
            &&& takes_step(s0[i], i0[i], s0[i + 1], r0[i])
            &&& brings_metrics_only(i0[i])
        } by {
            assert(i0[i] == inputs[i]);
        }
        lemma_session(s0, i0, r0);
        assert(awaits(stands[n], inputs[n]));
        assert(s0.last() == stands[n]);
        lemma_session_step(stands[n], inputs[n], stands[n + 1], steps[n], sent_by(r0));
    }
}

/// Nothing in `sends` ends the run.
spec fn goes_on(sends: Seq<Outgoing>) -> bool {
    forall|i: int|
        0 <= i < sends.len() ==> !((#[trigger] sends[i]).event is Finished)
            && !sends[i].event.ends()
}

/// `sends` ends with the end of the run and `Finished`, and only there.
spec fn closes(sends: Seq<Outgoing>) -> bool {
    &&& sends.len() >= 2
    &&& goes_on(sends.take(sends.len() - 2))
    &&& sends[sends.len() - 2].event.ends()
    &&& sends[sends.len() - 1].event is Finished
}

/// What a step sends keeps the invariant, where it continues the numbers and
/// either goes on or closes.
proof fn lemma_session_append(
    state: SocketState,
    sent: Seq<Outgoing>,
    sends: Seq<Outgoing>,
    after: SocketState,
)
    requires
        session_inv(state, sent),
        !(state is Closed),
        forall|k: int|
            0 <= k < points_of(sends).len() ==> (#[trigger] points_of(sends)[k]).seq == points_of(
                sent,
            ).len() + k + 1,
        match after {
            SocketState::Live { seq, .. } => points_of(sent).len() + points_of(sends).len() == seq,
            SocketState::Closed => true,
            _ => points_of(sent).len() + points_of(sends).len() == 0,
        },
        goes_on(sends) || (closes(sends) && after is Closed),
    ensures
        session_inv(after, sent + sends),
{
    reveal(finishes_in_order);
    lemma_points_of_concat(sent, sends);
    let all = sent + sends;
    let n = sent.len() as int;
    let m = sends.len() as int;
    assert forall|i: int| 0 <= i < all.len() && (#[trigger] all[i]).event is Finished implies after
        is Closed && i == all.len() - 1 && i > 0 && all[i - 1].event.ends() by {
        if i < n {
            assert(sent[i].event is Finished);
        } else {
            assert(sends[i - n].event is Finished);
            assert(closes(sends));
            if i - n < m - 2 {
                assert(sends.take(m - 2)[i - n] == sends[i - n]);
            }
            assert(i - n == m - 1);
            assert(all[i - 1] == sends[m - 2]);
        }
    }
    assert forall|i: int| 0 <= i < all.len() && (#[trigger] all[i]).event.ends() implies after
        is Closed && i + 1 < all.len() && all[i + 1].event is Finished by {
        if i < n {
            assert(sent[i].event.ends());
        } else {
            assert(sends[i - n].event.ends());
            assert(closes(sends));
            if i - n < m - 2 {
                assert(sends.take(m - 2)[i - n] == sends[i - n]);
            }
            assert(i - n == m - 2);
            assert(all[i + 1] == sends[m - 1]);
        }
    }
}

/// Every step keeps the invariant of a session.
proof fn lemma_session_step(
    s: TrainingSocketView,
    input: SocketInput,
    after: TrainingSocketView,
    r: Step,
    sent: Seq<Outgoing>,
)
    requires
        awaits(s, input),
        takes_step(s, input, after, r),
        brings_metrics_only(input),
        session_inv(s.state, sent),
    ensures
        session_inv(after.state, sent + r.sends@),
{
    match input {
        SocketInput::Attached(Ok(dump)) => {
            assert(dump.replay@.len() == dump.replay.len());
            lemma_greeting(s.state->Attaching_id, dump.replay@, run_status(dump.status));
        },
        SocketInput::Feed(Feed::Event(event)) => {
            lemma_forwarded(s, event, after, r);
        },
        _ => {
            lemma_other_step(s, input, after, r);
        },
    }
    lemma_session_append(s.state, sent, r.sends@, after.state);
}

/// A step that brings no metrics sends no points and ends no run.
proof fn lemma_other_step(
    s: TrainingSocketView,
    input: SocketInput,
    after: TrainingSocketView,
    r: Step,
)
    requires
        awaits(s, input),
        takes_step(s, input, after, r),
        !(input matches SocketInput::Attached(Ok(_))),
        !(input matches SocketInput::Feed(Feed::Event(_))),
    ensures
        points_of(r.sends@) == Seq::<TrainingMetricsPoint>::empty(),
        goes_on(r.sends@),
        s.state is Live ==> after.state == s.state || after.state is Closed,
        !(s.state is Live) ==> !(after.state is Live),
{
    match input {
        SocketInput::Frame(frame) => {
            assert(r.sends@.len() == 0 || (r.sends@.len() == 1 && r.sends@[0].event is Error));
        },
        SocketInput::Started(reply) => {
            assert(r.sends@.len() == 1);
            assert(r.sends@[0].event is Error || r.sends@[0].event is Started);
        },
        SocketInput::Attached(reply) => {
            assert(r.sends@.len() == 1 && r.sends@[0].event is Error);
        },
        SocketInput::Commanded(reply) => {
            assert(r.sends@.len() == 0 || (r.sends@.len() == 1 && r.sends@[0].event is Error));
        },
        SocketInput::Feed(feed) => {
            assert(r.sends@.len() == 0);
        },
    }
    lemma_points_of_none(r.sends@);
}

/// A greeting numbers the replay, and closes exactly after a terminal status.
proof fn lemma_greeting(id: RunId, replay: Seq<TrainEvent>, status: TrainingStatus)
    requires
        replay.len() <= u64::MAX,
        forall|i: int| 0 <= i < replay.len() ==> !(#[trigger] replay[i] is Paused),
    ensures
        ({
            let sends = greeting(id, replay, status);
            &&& points_of(sends).len() == replay.len()
            &&& forall|k: int|
                0 <= k < replay.len() ==> (#[trigger] points_of(sends)[k]).seq == k + 1
            &&& if status.terminal() {
                closes(sends)
            } else {
                goes_on(sends)
            }
        }),
{
    let metrics = replay_metrics(id, replay);
    let told = seq![Outgoing { event: TrainingEvent::Status { id, status }, required: true }];
    let done = seq![Outgoing { event: TrainingEvent::Finished { id }, required: false }];
    lemma_points_of_replay(id, replay);
    lemma_replay_metrics_are_metrics(id, replay);
    lemma_points_of_none(told);
    lemma_points_of_none(done);
    lemma_points_of_concat(metrics, told);
    lemma_points_of_concat(metrics + told, done);
    let sends = greeting(id, replay, status);
    if status.terminal() {
        assert(sends =~= metrics + told + done);
        assert(sends.take(sends.len() - 2) =~= metrics);
        assert(points_of(sends) =~= points_of(metrics));
    } else {
        assert(sends =~= metrics + told);
        assert(points_of(sends) =~= points_of(metrics));
    }
}

/// A live event continues the numbers, and closes exactly after a terminal
/// status.
proof fn lemma_forwarded(
    s: TrainingSocketView,
    event: ManagerEvent,
    after: TrainingSocketView,
    r: Step,
)
    requires
        s.state is Live,
        s.can_number(Feed::Event(event)),
        s.forwards(Feed::Event(event), after.state, r),
        event matches ManagerEvent::Train { event, .. } ==> !(event is Paused),
    ensures
        ({
            let seq = s.state->Live_seq;
            &&& forall|k: int|
                0 <= k < points_of(r.sends@).len() ==> (#[trigger] points_of(r.sends@)[k]).seq
                    == seq + k + 1
            &&& after.state matches SocketState::Live { seq: then, .. } ==> seq + points_of(
                r.sends@,
            ).len() == then
            &&& after.state is Live || after.state is Closed
            &&& goes_on(r.sends@) || (closes(r.sends@) && after.state is Closed)
        }),
{
    let id = s.state->Live_id;
    let seq = s.state->Live_seq;
    let message = live_message(id, (seq + 1) as u64, event);
    if message is Some && message->0 is Metrics {
        assert(r.sends@.drop_last() =~= Seq::<Outgoing>::empty());
        assert(points_of(r.sends@.drop_last()) =~= Seq::<TrainingMetricsPoint>::empty());
        assert(points_of(r.sends@) =~= seq![message->0->point]);
    } else {
        lemma_points_of_none(r.sends@);
        if message is Some && message->0.ends() {
            assert(closes(r.sends@));
        }
    }
}

/// The points of two series are those of the first, then those of the second.
proof fn lemma_points_of_concat(a: Seq<Outgoing>, b: Seq<Outgoing>)
    ensures
        points_of(a + b) == points_of(a) + points_of(b),
    decreases b.len(),
{
    if b.len() == 0 {
        assert(a + b =~= a);
        assert(points_of(a) + points_of(b) =~= points_of(a));
    } else {
        lemma_points_of_concat(a, b.drop_last());
        assert((a + b).drop_last() =~= a + b.drop_last());
        assert(points_of(a + b) =~= points_of(a) + points_of(b));
    }
}

/// A series without metrics has no points.
proof fn lemma_points_of_none(sent: Seq<Outgoing>)
    requires
        forall|i: int| 0 <= i < sent.len() ==> !((#[trigger] sent[i]).event is Metrics),
    ensures
        points_of(sent) == Seq::<TrainingMetricsPoint>::empty(),
    decreases sent.len(),
{
    if sent.len() > 0 {
        assert(!(sent[sent.len() - 1].event is Metrics));
        assert forall|i: int| 0 <= i < sent.drop_last().len() implies !(
        (#[trigger] sent.drop_last()[i]).event is Metrics) by {
            assert(sent.drop_last()[i] == sent[i]);
        }
        lemma_points_of_none(sent.drop_last());
    }
}

/// The points of a replay are numbered from 1.
proof fn lemma_points_of_replay(id: RunId, replay: Seq<TrainEvent>)
    requires
        replay.len() <= u64::MAX,
        forall|i: int| 0 <= i < replay.len() ==> !(#[trigger] replay[i] is Paused),
    ensures
        points_of(replay_metrics(id, replay)).len() == replay.len(),
        forall|k: int|
            0 <= k < replay.len() ==> (#[trigger] points_of(replay_metrics(id, replay))[k]).seq == k
                + 1,
    decreases replay.len(),
{
    if replay.len() > 0 {
        let earlier = replay.drop_last();
        assert forall|i: int| 0 <= i < earlier.len() implies !(#[trigger] earlier[i] is Paused) by {
            assert(earlier[i] == replay[i]);
        }
        lemma_points_of_replay(id, earlier);
        assert(!(replay[replay.len() - 1] is Paused));
        assert(replay_metrics(id, replay).drop_last() =~= replay_metrics(id, earlier));
    }
}

/// A client's state of run `id` after it has read a series of frames.
pub open spec fn after_frames(
    state: RunStateView,
    id: RunId,
    frames: Seq<ServerFrame>,
) -> RunStateView
    decreases frames.len(),
{
    if frames.len() == 0 {
        state
    } else {
        after_frames(state, id, frames.drop_last()).after_frame(id, frames.last())
    }
}

/// The status of run `id` that a frame reports.
pub open spec fn status_in(id: RunId, frame: ServerFrame) -> Option<TrainingStatus> {
    match frame {
        ServerFrame::Text(Ok(TrainingEvent::Status { id: of, status })) => if of == id {
            Some(status)
        } else {
            None
        },
        _ => None,
    }
}

/// The metrics point of run `id` that a frame brings.
pub open spec fn point_in(id: RunId, frame: ServerFrame) -> Option<TrainingMetricsPoint> {
    match frame {
        ServerFrame::Text(Ok(TrainingEvent::Metrics { id: of, point })) => if of == id {
            Some(point)
        } else {
            None
        },
        _ => None,
    }
}

/// The frame says that run `id` was cleared.
pub open spec fn clears(id: RunId, frame: ServerFrame) -> bool {
    frame == ServerFrame::Text(Ok(TrainingEvent::Cleared { id }))
}

/// The note that a frame leaves with a client of run `id`.
pub open spec fn note_in(id: RunId, frame: ServerFrame) -> Option<Seq<char>> {
    match frame {
        ServerFrame::Text(Ok(TrainingEvent::Error { message })) => Some("error: "@ + message@),
        ServerFrame::Text(Ok(TrainingEvent::Cleared { id: of })) => if of == id {
            Some("run cleared — record wiped, charts cleared"@)
        } else {
            None
        },
        ServerFrame::Text(Err(error)) => Some("parse error: "@ + error@),
        ServerFrame::Failed(error) => Some("socket error: "@ + error@),
        _ => None,
    }
}

/// The metrics points of run `id` that frames bring, since it was last cleared
/// among them.
pub open spec fn points_since_cleared(id: RunId, frames: Seq<ServerFrame>) -> Seq<
    TrainingMetricsPoint,
>
    decreases frames.len(),
{
    if frames.len() == 0 || clears(id, frames.last()) {
        Seq::empty()
    } else {
        let earlier = points_since_cleared(id, frames.drop_last());
        match point_in(id, frames.last()) {
            Some(point) => earlier.push(point),
            None => earlier,
        }
    }
}

/// One of the frames says that run `id` was cleared.
pub open spec fn was_cleared(id: RunId, frames: Seq<ServerFrame>) -> bool
    decreases frames.len(),
{
    frames.len() > 0 && (clears(id, frames.last()) || was_cleared(id, frames.drop_last()))
}

/// The last status of run `id` that frames report.
pub open spec fn last_status(id: RunId, frames: Seq<ServerFrame>) -> Option<TrainingStatus>
    decreases frames.len(),
{
    if frames.len() == 0 {
        None
    } else if status_in(id, frames.last()) is Some {
        status_in(id, frames.last())
    } else {
        last_status(id, frames.drop_last())
    }
}

/// The last note that frames leave with a client of run `id`.
pub open spec fn last_note(id: RunId, frames: Seq<ServerFrame>) -> Option<Seq<char>>
    decreases frames.len(),
{
    if frames.len() == 0 {
        None
    } else if note_in(id, frames.last()) is Some {
        note_in(id, frames.last())
    } else {
        last_note(id, frames.drop_last())
    }
}

/// What a client knows of its run after any series of frames: the last status
/// reported; how many points came since the run was last cleared, and the last of
/// them; and the last note. Where nothing of a kind came, that part is as it was
/// before.
pub proof fn law_client_state_after_frames(
    state: RunStateView,
    id: RunId,
    frames: Seq<ServerFrame>,
)
    ensures
        ({
            let points = points_since_cleared(id, frames);
            let cleared = was_cleared(id, frames);
            after_frames(state, id, frames) == (RunStateView {
                status: if last_status(id, frames) is Some {
                    last_status(id, frames)
                } else {
                    state.status
                },
                detail: if last_note(id, frames) is Some {
                    last_note(id, frames)->0
                } else {
                    state.detail
                },
                points: points.len() + (if cleared {
                    0
                } else {
                    state.points
                }),
                latest: if points.len() > 0 {
                    Some(points.last())
                } else if cleared {
                    None
                } else {
                    state.latest
                },
            })
        }),
    decreases frames.len(),
{
    if frames.len() > 0 {
        law_client_state_after_frames(state, id, frames.drop_last());
    }
}

/// A registry that was empty, after a series of frames for starts, each with the
/// handle by which its run would be reached.
pub open spec fn after_starts<H>(starts: Seq<(ServerFrame, H)>) -> TrainingRunsView<H>
    decreases starts.len(),
{
    if starts.len() == 0 {
        TrainingRunsView { runs: Map::empty(), last_started: None }
    } else {
        after_starts(starts.drop_last()).after_reply(starts.last().0, starts.last().1)
    }
}

/// The most recently started run is always registered, so that a status request
/// without a handle fails only while no start was confirmed.
pub proof fn law_latest_start_is_registered<H>(
    starts: Seq<(ServerFrame, H)>,
    runs: TrainingRuns<H>,
    shown: Result<&H, RunsError>,
)
    requires
        runs@ == after_starts(starts),
        runs.shows_status(None, shown),
    ensures
        runs@.last_started matches Some(id) ==> runs@.runs.contains_key(id),
        shown is Ok <==> exists|i: int|
            0 <= i < starts.len() && confirmed_id((#[trigger] starts[i]).0) is Some,
{
    lemma_latest_start(starts);
}

/// The run recorded as started last is registered.
pub(crate) proof fn lemma_latest_start<H>(starts: Seq<(ServerFrame, H)>)
    ensures
        after_starts(starts).last_started matches Some(id) ==> after_starts(
            starts,
        ).runs.contains_key(id),
        after_starts(starts).last_started is Some <==> exists|i: int|
            0 <= i < starts.len() && confirmed_id((#[trigger] starts[i]).0) is Some,
    decreases starts.len(),
{
    if starts.len() > 0 {
        let earlier = starts.drop_last();
        lemma_latest_start(earlier);
        assert(forall|i: int| 0 <= i < earlier.len() ==> #[trigger] earlier[i] == starts[i]);
        if after_starts(earlier).last_started is Some {
            let i = choose|i: int|
                0 <= i < earlier.len() && confirmed_id((#[trigger] earlier[i]).0) is Some;
            assert(confirmed_id(starts[i].0) is Some);
        }
        if confirmed_id(starts.last().0) is Some {
            assert(confirmed_id(starts[starts.len() - 1].0) is Some);
        }
        if exists|i: int| 0 <= i < starts.len() && confirmed_id((#[trigger] starts[i]).0) is Some {
            let i = choose|i: int|
                0 <= i < starts.len() && confirmed_id((#[trigger] starts[i]).0) is Some;
            if i < earlier.len() {
                assert(confirmed_id(earlier[i].0) is Some);
            }
        }
    }
}

} // verus!
