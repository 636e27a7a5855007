//! What the manager's operations do, told by what goes in and what comes out:
//! every start, command, thread message and request, in every phase.

use vstd::prelude::*;

use crate::clock::Timestamp;
use crate::dataset::SnapshotProbe;
use crate::ids::{hyphenated, RunId};
use crate::laws::{
    after_input, after_inputs, law_every_turn_keeps_valid, law_push_drops_oldest_batch_only,
    law_replay_and_live_stream_agree, lemma_batch_count_is_filter_len, metrics_of, replaces, Input,
};
use crate::manager::{AttachDump, Snapshot};
use crate::model::{active_ids, Action, ManagerEvent, ManagerView, Outcome, Phase, RunStatus};
use crate::protocol::TrainingCommand;
use crate::replay::retained;
use crate::train::{ControlState, ThreadMsg, TrainAction, TrainEvent, TrainExit, TrainParams};

verus! {

/// The event at `i` belongs into a replay of `history`: it is no batch point, or
/// fewer than 5000 batch points follow it.
pub open spec fn belongs(history: Seq<TrainEvent>, i: int) -> bool {
    history[i] is Batch ==> history.skip(i + 1).filter(|e: TrainEvent| e is Batch).len() < 5000
}

/// `replay` has exactly the events of `history` that belong into it, in the order
/// in which they came; `places` says where each of them stood.
pub open spec fn replays(
    history: Seq<TrainEvent>,
    places: Seq<int>,
    replay: Seq<TrainEvent>,
) -> bool {
    &&& places.len() == replay.len()
    &&& forall|k: int|
        0 <= k < places.len() ==> 0 <= #[trigger] places[k] < history.len() && replay[k]
            == history[places[k]]
    &&& forall|k: int, l: int|
        0 <= k < l < places.len() ==> #[trigger] places[k] < #[trigger] places[l]
    &&& forall|i: int|
        0 <= i < history.len() ==> (#[trigger] places.contains(i) <==> belongs(history, i))
}

/// What is retained of a history is its events that belong into a replay, in
/// order.
pub proof fn law_retained_events_keep_order(history: Seq<TrainEvent>)
    ensures
        exists|places: Seq<int>| replays(history, places, retained(history)),
{
    let places = lemma_places(history);
    assert(replays(history, places, retained(history)));
}

proof fn lemma_places(history: Seq<TrainEvent>) -> (places: Seq<int>)
    ensures
        replays(history, places, retained(history)),
    decreases history.len(),
{
    if history.len() == 0 {
        Seq::empty()
    } else {
        let rest = history.drop_first();
        let tail = lemma_places(rest);
        let shifted = tail.map_values(|i: int| i + 1);
        lemma_batch_count_is_filter_len(rest);
        assert(history.skip(1) =~= rest);
        assert forall|i: int| 0 <= i < rest.len() implies (belongs(history, i + 1) <==> belongs(
            rest,
            i,
        )) by {
            assert(history.skip(i + 2) =~= rest.skip(i + 1));
        }
        assert forall|i: int| 0 <= i < rest.len() implies (shifted.contains(i + 1)
            <==> #[trigger] tail.contains(i)) by {
            if tail.contains(i) {
                let k = choose|k: int| 0 <= k < tail.len() && tail[k] == i;
                assert(shifted[k] == i + 1);
            }
            if shifted.contains(i + 1) {
                let k = choose|k: int| 0 <= k < shifted.len() && shifted[k] == i + 1;
                assert(tail[k] == i);
            }
        }
        let places = if belongs(history, 0) {
            seq![0int] + shifted
        } else {
            shifted
        };
        let first: int = if belongs(history, 0) {
            1
        } else {
            0
        };
        let replay = retained(history);
        assert(replay.len() == places.len());
        assert forall|k: int| 0 <= k < places.len() implies 0 <= #[trigger] places[k]
            < history.len() && replay[k] == history[places[k]] by {
            if k >= first {
                assert(places[k] == tail[k - first] + 1);
            }
        }
        assert forall|k: int, l: int| 0 <= k < l < places.len() implies #[trigger] places[k]
            < #[trigger] places[l] by {
            assert(places[l] == tail[l - first] + 1);
            if k >= first {
                assert(places[k] == tail[k - first] + 1);
            }
        }
        assert forall|i: int| 0 <= i < history.len() implies (#[trigger] places.contains(i)
            <==> belongs(history, i)) by {
            if i == 0 {
                if belongs(history, 0) {
                    assert(places[0] == 0);
                }
            } else {
                assert(tail.contains(i - 1) <==> belongs(rest, i - 1));
                assert(shifted.contains(i) <==> tail.contains(i - 1));
                if shifted.contains(i) {
                    let k = choose|k: int| 0 <= k < shifted.len() && shifted[k] == i;
                    assert(places[k + first] == i);
                }
                if places.contains(i) {
                    let k = choose|k: int| 0 <= k < places.len() && places[k] == i;
                    assert(shifted[k - first] == i);
                }
            }
        }
        places
    }
}

/// Whatever has come since a run was started, and whatever phase or outcome it
/// is in, a viewer that attaches gets its status and all metrics that its thread
/// has sent, in order, but for batch points that 5000 later ones follow.
pub proof fn law_attach_replays_all_metrics(
    m: ManagerView,
    id: RunId,
    params: TrainParams,
    speed: u64,
    started_at: Timestamp,
    probe: SnapshotProbe,
    inputs: Seq<Input>,
    r: Result<AttachDump, String>,
)
    requires
        m.valid(),
        m.start_refusal(params, probe) is None,
        forall|i: int| 0 <= i < inputs.len() ==> !replaces(id, #[trigger] inputs[i]),
        after_inputs(
            after_input(m, Input::Start { id, params, speed, started_at, probe }),
            inputs,
        ).shows_attach(id, r),
    ensures
        r is Ok,
        r->Ok_0.id == id,
        r->Ok_0.replay@ == retained(metrics_of(id, inputs)),
        exists|places: Seq<int>| replays(metrics_of(id, inputs), places, r->Ok_0.replay@),
        r->Ok_0.status == after_inputs(
            after_input(m, Input::Start { id, params, speed, started_at, probe }),
            inputs,
        ).runs[id].status,
{
    let input = Input::Start { id, params, speed, started_at, probe };
    let first = after_input(m, input);
    law_every_turn_keeps_valid(m, input);
    law_replay_and_live_stream_agree(first, id, inputs);
    assert(first.runs[id].replay + metrics_of(id, inputs) =~= metrics_of(id, inputs));
    law_retained_events_keep_order(metrics_of(id, inputs));
}

/// A viewer that attaches to a registered run gets its status and whole buffer,
/// and any other is told that the run is unknown.
pub proof fn law_attach_shows_the_record(m: ManagerView, id: RunId, r: Result<AttachDump, String>)
    requires
        m.shows_attach(id, r),
    ensures
        m.runs.contains_key(id) ==> {
            &&& r is Ok
            &&& r->Ok_0.id == id
            &&& r->Ok_0.status == m.runs[id].status
            &&& r->Ok_0.replay@ == m.runs[id].replay
        },
        !m.runs.contains_key(id) ==> r is Err && r->Err_0@ == "unknown training run "@ + hyphenated(
            id,
        ),
{
}

/// A request that names a run shows what a viewer that attaches to it gets, and
/// is refused when that is; it also tells how many points were produced.
pub proof fn law_snapshot_agrees_with_attach(
    m: ManagerView,
    id: RunId,
    attached: Result<AttachDump, String>,
    shown: Result<Snapshot, String>,
)
    requires
        m.shows_attach(id, attached),
        m.shows_snapshot(Some(id), shown),
    ensures
        shown is Ok <==> attached is Ok,
        shown is Ok <==> m.runs.contains_key(id),
        shown is Ok ==> {
            &&& shown->Ok_0.id == id
            &&& shown->Ok_0.status == attached->Ok_0.status
            &&& shown->Ok_0.replay@ == attached->Ok_0.replay@
            &&& shown->Ok_0.points == m.runs[id].points
        },
        shown is Err ==> shown->Err_0@ == attached->Err_0@,
{
}

/// A request that names no run shows what one for the shown run would. Among the
/// registered runs no other comes before it: none is active while it is not, and
/// of those that are active or not like it, none was started later, nor at the
/// same time under a greater id. It is refused when there is no run at all.
pub proof fn law_bare_snapshot_shows_the_latest(
    m: ManagerView,
    shown: Result<Snapshot, String>,
    same: Result<Snapshot, String>,
    other: RunId,
)
    requires
        m.shows_snapshot(None, shown),
        shown is Ok ==> m.shows_snapshot(Some(shown->Ok_0.id), same),
    ensures
        shown is Ok <==> exists|id: RunId| m.runs.contains_key(id),
        shown is Err ==> shown->Err_0@ == "no training run"@,
        shown is Ok ==> {
            &&& same is Ok
            &&& m.runs.contains_key(shown->Ok_0.id)
            &&& shown->Ok_0.status == same->Ok_0.status
            &&& shown->Ok_0.replay@ == same->Ok_0.replay@
            &&& shown->Ok_0.points == same->Ok_0.points
        },
        shown is Ok && m.runs.contains_key(other) && other != shown->Ok_0.id ==> {
            let a = m.runs[shown->Ok_0.id].status;
            let b = m.runs[other].status;
            let t = started(a);
            let u = started(b);
            ||| a is Active && b is Ended
            ||| (a is Active <==> b is Active) && (u.secs < t.secs || (u.secs == t.secs && u.nanos
                < t.nanos))
            ||| (a is Active <==> b is Active) && u == t && other < shown->Ok_0.id
        },
{
    if shown is Err && exists|id: RunId| m.runs.contains_key(id) {
        let id = choose|id: RunId| m.runs.contains_key(id);
        assert(m.runs.dom().contains(id));
    }
    if shown is Ok && m.runs.contains_key(other) && other != shown->Ok_0.id {
        assert(m.outranks(shown->Ok_0.id, other));
    }
}

/// When a run was started.
pub open spec fn started(status: RunStatus) -> Timestamp {
    match status {
        RunStatus::Active { started_at, .. } => started_at,
        RunStatus::Ended { started_at, .. } => started_at,
    }
}

/// An accepted start spawns the backend with exactly what was asked for, and
/// registers the run with the same: two actions, the spawn under the run's id with
/// the requested parameters and speed, and the news that it is running.
pub proof fn law_start_spawns_what_was_asked(
    m: ManagerView,
    id: RunId,
    params: TrainParams,
    speed: u64,
    started_at: Timestamp,
)
    ensures
        ({
            let after = m.started(id, params, speed, started_at);
            let control = ControlState { action: TrainAction::Continue, batches_per_sec: speed };
            let run = after.runs[id];
            let added = after.outbox.skip(m.outbox.len() as int);
            &&& after.outbox.take(m.outbox.len() as int) == m.outbox
            &&& added == seq![
                Action::Spawn { id, params, control },
                Action::Broadcast(ManagerEvent::PhaseChanged { id, phase: Phase::Running }),
            ]
            &&& after.runs.dom() == m.runs.dom().insert(id)
            &&& run.status == (RunStatus::Active {
                phase: Phase::Running,
                config: params,
                started_at,
            })
            &&& run.control == Some(control)
            &&& run.replay == Seq::<TrainEvent>::empty()
            &&& run.points == 0
            &&& forall|other: RunId| other != id ==> #[trigger] after.runs[other] == m.runs[other]
        }),
{
    let after = m.started(id, params, speed, started_at);
    let control = ControlState { action: TrainAction::Continue, batches_per_sec: speed };
    assert(after.outbox.take(m.outbox.len() as int) =~= m.outbox);
    assert(after.outbox.skip(m.outbox.len() as int) =~= seq![
        Action::Spawn { id, params, control },
        Action::Broadcast(ManagerEvent::PhaseChanged { id, phase: Phase::Running }),
    ]);
    assert(after.runs.dom() =~= m.runs.dom().insert(id));
}

/// What an accepted start adds, under the id that it returns: the spawn with the
/// requested parameters and speed, then the news that the run is running; and the
/// record has the same parameters and control value as the spawn. No other run is
/// touched.
pub open spec fn began_as_asked(
    m: ManagerView,
    id: RunId,
    params: TrainParams,
    speed: u64,
    after: ManagerView,
) -> bool {
    let n = m.outbox.len() as int;
    &&& after.outbox.len() == n + 2
    &&& after.outbox.take(n) == m.outbox
    &&& after.outbox[n] is Spawn
    &&& after.outbox[n]->Spawn_id == id
    &&& after.outbox[n]->params == params
    &&& after.outbox[n]->control.action is Continue
    &&& after.outbox[n]->control.batches_per_sec == speed
    &&& after.outbox[n + 1] == Action::Broadcast(
        ManagerEvent::PhaseChanged { id, phase: Phase::Running },
    )
    &&& after.runs.dom() == m.runs.dom().insert(id)
    &&& after.runs[id].status is Active
    &&& after.runs[id].status->Active_phase is Running
    &&& after.runs[id].status->Active_config == after.outbox[n]->params
    &&& after.runs[id].control == Some(after.outbox[n]->control)
    &&& after.runs[id].replay == Seq::<TrainEvent>::empty()
    &&& after.runs[id].points == 0
    &&& forall|other: RunId| other != id ==> #[trigger] after.runs[other] == m.runs[other]
}

/// Every answer to a start: an accepted one began exactly what was asked for,
/// under the id it returns (and as of the time given, where one is); a refused one
/// changed nothing. It is accepted exactly when no run is active and the dataset
/// is not refused.
pub proof fn law_answers_to_a_start(
    m: ManagerView,
    params: TrainParams,
    speed: u64,
    probe: SnapshotProbe,
    r: Result<RunId, String>,
    after: ManagerView,
    id: RunId,
    started_at: Timestamp,
    given: Result<RunId, String>,
    after_given: ManagerView,
)
    requires
        m.valid(),
        m.starts(params, speed, probe, r, after),
        m.starts_as(params, speed, probe, id, started_at, given, after_given),
    ensures
        r is Ok ==> began_as_asked(m, r->Ok_0, params, speed, after),
        r is Ok ==> (r->Ok_0 / 0x1000_0000_0000_0000_0000) % 16 == 4,
        r is Err ==> after == m,
        given is Ok ==> given->Ok_0 == id && began_as_asked(m, id, params, speed, after_given)
            && after_given.runs[id].status->Active_started_at == started_at,
        given is Err ==> after_given == m,
        r is Ok <==> given is Ok,
        r is Err ==> r->Err_0@ == given->Err_0@,
        r is Ok <==> (forall|other: RunId| #[trigger]
            m.runs.contains_key(other) ==> !(m.runs[other].status is Active))
            && crate::dataset::dataset_refusal(params.config.dataset@, probe) is None,
{
    law_busy_means_an_active_run(m, params, params, probe);
    if let Ok(new) = r {
        let at = choose|at: Timestamp|
            crate::clock::is_clock_reading(at) && after == #[trigger] m.started(
                new,
                params,
                speed,
                at,
            );
        law_start_spawns_what_was_asked(m, new, params, speed, at);
        lemma_began(m, new, params, speed, at);
        law_start_spawns_what_was_asked(m, id, params, speed, started_at);
        lemma_began(m, id, params, speed, started_at);
    }
}

proof fn lemma_began(
    m: ManagerView,
    id: RunId,
    params: TrainParams,
    speed: u64,
    started_at: Timestamp,
)
    ensures
        began_as_asked(m, id, params, speed, m.started(id, params, speed, started_at)),
{
    let after = m.started(id, params, speed, started_at);
    law_start_spawns_what_was_asked(m, id, params, speed, started_at);
    let added = after.outbox.skip(m.outbox.len() as int);
    assert(added[0] == after.outbox[m.outbox.len() as int]);
    assert(added[1] == after.outbox[m.outbox.len() as int + 1]);
}

/// A start is refused as busy exactly while some run is active, and else for its
/// dataset alone, whatever the other parameters ask for.
pub proof fn law_busy_means_an_active_run(
    m: ManagerView,
    params: TrainParams,
    others: TrainParams,
    probe: SnapshotProbe,
)
    requires
        m.valid(),
        others.config.dataset@ == params.config.dataset@,
    ensures
        (exists|id: RunId| #[trigger] m.runs.contains_key(id) && m.runs[id].status is Active)
            ==> m.start_refusal(params, probe) == Some("a training run is already active"@),
        !(exists|id: RunId| #[trigger] m.runs.contains_key(id) && m.runs[id].status is Active)
            ==> m.start_refusal(params, probe) == crate::dataset::dataset_refusal(
            params.config.dataset@,
            probe,
        ),
        m.start_refusal(params, probe) == m.start_refusal(others, probe),
{
    let active = active_ids(m.runs);
    if exists|id: RunId| #[trigger] m.runs.contains_key(id) && m.runs[id].status is Active {
        let id = choose|id: RunId| #[trigger]
            m.runs.contains_key(id) && m.runs[id].status is Active;
        assert(active.contains(id));
        assert(set![id].subset_of(active));
        vstd::set_lib::lemma_len_subset(set![id], active);
    } else {
        assert(active =~= Set::<RunId>::empty());
    }
}

/// What a run in `before` becomes when it is steered to `phase`, its thread being
/// asked for `action`: nothing else of it changes, and neither does another run.
pub open spec fn only_steered(
    before: ManagerView,
    after: ManagerView,
    id: RunId,
    action: TrainAction,
    phase: Phase,
) -> bool {
    let run = before.runs[id];
    let now = after.runs[id];
    &&& after.runs.dom() == before.runs.dom()
    &&& forall|other: RunId| other != id ==> #[trigger] after.runs[other] == before.runs[other]
    &&& now.status == (RunStatus::Active {
        phase,
        config: run.status->Active_config,
        started_at: run.status->Active_started_at,
    })
    &&& now.control == Some(
        ControlState { action, batches_per_sec: run.control->0.batches_per_sec },
    )
    &&& now.replay == run.replay
    &&& now.points == run.points
}

/// The actions that a steering adds: the new control value with the speed as it
/// was, then the news of the phase.
pub open spec fn steering_actions(
    before: ManagerView,
    after: ManagerView,
    id: RunId,
    action: TrainAction,
    phase: Phase,
) -> bool {
    after.outbox == before.outbox + seq![
        Action::Control {
            id,
            state: ControlState {
                action,
                batches_per_sec: before.runs[id].control->0.batches_per_sec,
            },
        },
        Action::Broadcast(ManagerEvent::PhaseChanged { id, phase }),
    ]
}

/// Stop is accepted in every phase of an active run, and after it the run is
/// stopping and its thread asked to abort. A run that was stopping already is left
/// alone; otherwise the thread and the viewers are told.
pub proof fn law_stop_stops_in_every_phase(m: ManagerView, id: RunId)
    requires
        m.valid(),
        m.runs.contains_key(id),
        m.runs[id].status is Active,
    ensures
        ({
            let after = m.after_command(TrainingCommand::Stop { id });
            &&& m.command_reply(TrainingCommand::Stop { id }) is Ok
            &&& only_steered(m, after, id, TrainAction::Abort, Phase::Stopping)
            &&& match m.runs[id].status->Active_phase {
                Phase::Stopping => after.outbox == m.outbox,
                Phase::Running | Phase::Pausing | Phase::Paused => steering_actions(
                    m,
                    after,
                    id,
                    TrainAction::Abort,
                    Phase::Stopping,
                ),
            }
        }),
{
    let after = m.after_command(TrainingCommand::Stop { id });
    assert(after.runs.dom() =~= m.runs.dom());
    let state = ControlState {
        action: TrainAction::Abort,
        batches_per_sec: m.runs[id].control->0.batches_per_sec,
    };
    if !(m.runs[id].status->Active_phase is Stopping) {
        assert(after.outbox =~= m.outbox + seq![
            Action::Control { id, state },
            Action::Broadcast(ManagerEvent::PhaseChanged { id, phase: Phase::Stopping }),
        ]);
    }
}

/// Pause is accepted in every phase of an active run. A running run is then
/// pausing, its thread asked to pause; a run in another phase is left alone.
pub proof fn law_pause_holds_a_running_run(m: ManagerView, id: RunId)
    requires
        m.valid(),
        m.runs.contains_key(id),
        m.runs[id].status is Active,
    ensures
        ({
            let after = m.after_command(TrainingCommand::Pause { id });
            &&& m.command_reply(TrainingCommand::Pause { id }) is Ok
            &&& match m.runs[id].status->Active_phase {
                Phase::Running => {
                    &&& only_steered(m, after, id, TrainAction::Pause, Phase::Pausing)
                    &&& steering_actions(m, after, id, TrainAction::Pause, Phase::Pausing)
                },
                Phase::Pausing | Phase::Paused | Phase::Stopping => after == m,
            }
        }),
{
    let after = m.after_command(TrainingCommand::Pause { id });
    let state = ControlState {
        action: TrainAction::Pause,
        batches_per_sec: m.runs[id].control->0.batches_per_sec,
    };
    if m.runs[id].status->Active_phase is Running {
        assert(after.runs.dom() =~= m.runs.dom());
        assert(after.outbox =~= m.outbox + seq![
            Action::Control { id, state },
            Action::Broadcast(ManagerEvent::PhaseChanged { id, phase: Phase::Pausing }),
        ]);
    }
}

/// Resume is accepted in every phase of an active run. A pausing or paused run
/// goes on, its thread asked to continue; a run in another phase is left alone.
pub proof fn law_resume_continues_a_held_run(m: ManagerView, id: RunId)
    requires
        m.valid(),
        m.runs.contains_key(id),
        m.runs[id].status is Active,
    ensures
        ({
            let after = m.after_command(TrainingCommand::Resume { id });
            &&& m.command_reply(TrainingCommand::Resume { id }) is Ok
            &&& match m.runs[id].status->Active_phase {
                Phase::Pausing | Phase::Paused => {
                    &&& only_steered(m, after, id, TrainAction::Continue, Phase::Running)
                    &&& steering_actions(m, after, id, TrainAction::Continue, Phase::Running)
                },
                Phase::Running | Phase::Stopping => after == m,
            }
        }),
{
    let after = m.after_command(TrainingCommand::Resume { id });
    let phase = m.runs[id].status->Active_phase;
    let state = ControlState {
        action: TrainAction::Continue,
        batches_per_sec: m.runs[id].control->0.batches_per_sec,
    };
    if phase is Pausing || phase is Paused {
        assert(after.runs.dom() =~= m.runs.dom());
        assert(after.outbox =~= m.outbox + seq![
            Action::Control { id, state },
            Action::Broadcast(ManagerEvent::PhaseChanged { id, phase: Phase::Running }),
        ]);
    }
}

/// SetSpeed is accepted in every phase of an active run, and in each the thread is
/// told the new speed and nothing else.
pub proof fn law_speed_is_set_in_every_phase(m: ManagerView, id: RunId, batches_per_sec: u64)
    requires
        m.valid(),
        m.runs.contains_key(id),
        m.runs[id].status is Active,
    ensures
        ({
            let cmd = TrainingCommand::SetSpeed { id, batches_per_sec };
            let after = m.after_command(cmd);
            let state = ControlState { action: m.runs[id].control->0.action, batches_per_sec };
            &&& m.command_reply(cmd) is Ok
            &&& after.runs.dom() == m.runs.dom()
            &&& forall|other: RunId| other != id ==> #[trigger] after.runs[other] == m.runs[other]
            &&& after.runs[id].status == m.runs[id].status
            &&& after.runs[id].replay == m.runs[id].replay
            &&& after.runs[id].points == m.runs[id].points
            &&& after.runs[id].control == Some(state)
            &&& after.outbox == m.outbox + seq![Action::Control { id, state }]
        }),
{
    let after = m.after_command(TrainingCommand::SetSpeed { id, batches_per_sec });
    let state = ControlState { action: m.runs[id].control->0.action, batches_per_sec };
    assert(after.runs.dom() =~= m.runs.dom());
    assert(after.outbox =~= m.outbox + seq![Action::Control { id, state }]);
}

/// Reset is accepted for every registered run, active or ended: the run leaves the
/// registry, no other does, and viewers are told. The thread of an active run is
/// first asked to abort, at the speed it had, and its channel dropped.
pub proof fn law_reset_forgets_any_run(m: ManagerView, id: RunId)
    requires
        m.valid(),
        m.runs.contains_key(id),
    ensures
        ({
            let after = m.after_command(TrainingCommand::Reset { id });
            let state = ControlState {
                action: TrainAction::Abort,
                batches_per_sec: m.runs[id].control->0.batches_per_sec,
            };
            let told = Action::Broadcast(ManagerEvent::Reset { id });
            &&& m.command_reply(TrainingCommand::Reset { id }) is Ok
            &&& after.runs.dom() == m.runs.dom().remove(id)
            &&& forall|other: RunId| other != id ==> #[trigger] after.runs[other] == m.runs[other]
            &&& match m.runs[id].status {
                RunStatus::Active { .. } => after.outbox == m.outbox + seq![
                    Action::Control { id, state },
                    Action::Release { id },
                    told,
                ],
                RunStatus::Ended { .. } => after.outbox == m.outbox + seq![told],
            }
        }),
{
    let after = m.after_command(TrainingCommand::Reset { id });
    let state = ControlState {
        action: TrainAction::Abort,
        batches_per_sec: m.runs[id].control->0.batches_per_sec,
    };
    let told = Action::Broadcast(ManagerEvent::Reset { id });
    assert(after.runs.dom() =~= m.runs.dom().remove(id));
    if m.runs[id].status is Active {
        assert(after.outbox =~= m.outbox + seq![
            Action::Control { id, state },
            Action::Release { id },
            told,
        ]);
    } else {
        assert(after.outbox =~= m.outbox + seq![told]);
    }
}

/// What is refused, and why: Start and Attach always, any command to a run that is
/// not registered, and any but Reset to one that has ended. A refused command
/// changes nothing.
pub proof fn law_commands_are_refused_for_cause(m: ManagerView, cmd: TrainingCommand, id: RunId)
    ensures
        cmd is Start || cmd is Attach ==> m.command_reply(cmd) == Err::<(), Seq<char>>(
            "not a runtime command: use start()/attach()"@,
        ),
        is_runtime_command(cmd, id) && !m.runs.contains_key(id) ==> m.command_reply(cmd) == Err::<
            (),
            Seq<char>,
        >("unknown training run "@ + hyphenated(id)),
        is_runtime_command(cmd, id) && m.runs.contains_key(id) && m.runs[id].status is Ended && !(
        cmd is Reset) ==> m.command_reply(cmd) == Err::<(), Seq<char>>("no active run"@),
        is_runtime_command(cmd, id) && m.runs.contains_key(id) && (m.runs[id].status is Active
            || cmd is Reset) ==> m.command_reply(cmd) is Ok,
        m.command_reply(cmd) is Err ==> m.after_command(cmd) == m,
{
}

/// `cmd` is a runtime command to run `id`.
pub open spec fn is_runtime_command(cmd: TrainingCommand, id: RunId) -> bool {
    ||| cmd == TrainingCommand::Pause { id }
    ||| cmd == TrainingCommand::Resume { id }
    ||| cmd == TrainingCommand::Stop { id }
    ||| cmd == TrainingCommand::Reset { id }
    ||| cmd matches TrainingCommand::SetSpeed { id: to, .. } && to == id
}

/// A metrics event of a registered run, in whatever phase or outcome: it goes to
/// the end of the run's buffer, counts as one more point, and is broadcast
/// unchanged. Of the buffer at most its first batch point leaves, and that only
/// where there would be more than 5000.
pub proof fn law_metrics_are_kept_and_broadcast(m: ManagerView, id: RunId, event: TrainEvent)
    requires
        m.valid(),
        m.runs.contains_key(id),
        !(event is Paused),
    ensures
        ({
            let after = m.after_thread_msg(id, ThreadMsg::Event(event));
            let run = m.runs[id];
            let now = after.runs[id];
            let grown = run.replay + seq![event];
            let batches = grown.filter(|e: TrainEvent| e is Batch).len();
            &&& after.outbox == m.outbox + seq![
                Action::Broadcast(ManagerEvent::Train { id, event }),
            ]
            &&& after.runs.dom() == m.runs.dom()
            &&& forall|other: RunId| other != id ==> #[trigger] after.runs[other] == m.runs[other]
            &&& now.status == run.status
            &&& now.control == run.control
            &&& run.points < usize::MAX ==> now.points == run.points + 1
            &&& run.points == usize::MAX ==> now.points == usize::MAX
            &&& batches <= 5000 ==> now.replay == grown
            &&& batches > 5000 ==> exists|at: int|
                0 <= at < grown.len() && (#[trigger] grown[at]) is Batch && (forall|k: int|
                    0 <= k < at ==> !(#[trigger] grown[k] is Batch)) && now.replay == grown.remove(
                    at,
                )
        }),
{
    let after = m.after_thread_msg(id, ThreadMsg::Event(event));
    let run = m.runs[id];
    let grown = run.replay + seq![event];
    assert(grown =~= run.replay.push(event));
    assert(after.outbox =~= m.outbox + seq![Action::Broadcast(ManagerEvent::Train { id, event })]);
    assert(after.runs.dom() =~= m.runs.dom());
    lemma_batch_count_is_filter_len(grown);
    law_push_drops_oldest_batch_only(run, event);
    if grown.filter(|e: TrainEvent| e is Batch).len() > 5000 {
        let at = choose|at: int| #[trigger]
            crate::laws::is_first_batch(grown, at) && after.runs[id].replay == grown.remove(at);
        assert(grown[at] is Batch);
    }
}

/// The confirmation of the hold settles a pausing run as paused, and viewers are
/// told; in every other phase, and for an ended run, it changes nothing.
pub proof fn law_hold_settles_a_pausing_run(m: ManagerView, id: RunId)
    requires
        m.valid(),
        m.runs.contains_key(id),
    ensures
        ({
            let after = m.after_thread_msg(id, ThreadMsg::Event(TrainEvent::Paused));
            match m.runs[id].status {
                RunStatus::Active { phase: Phase::Pausing, .. } => {
                    &&& only_steered(m, after, id, TrainAction::Pause, Phase::Paused)
                    &&& after.outbox == m.outbox + seq![
                        Action::Broadcast(ManagerEvent::PhaseChanged { id, phase: Phase::Paused }),
                    ]
                },
                _ => after == m,
            }
        }),
{
    let after = m.after_thread_msg(id, ThreadMsg::Event(TrainEvent::Paused));
    if let RunStatus::Active { phase: Phase::Pausing, .. } = m.runs[id].status {
        assert(after.runs.dom() =~= m.runs.dom());
        assert(after.outbox =~= m.outbox + seq![
            Action::Broadcast(ManagerEvent::PhaseChanged { id, phase: Phase::Paused }),
        ]);
    }
}

/// `outcome` is what a thread's exit stands for: completed and aborted threads
/// have saved where they say, a failed one tells why.
pub open spec fn stands_for(exit: Result<TrainExit, String>, outcome: Outcome) -> bool {
    match outcome {
        Outcome::Completed { run_dir, duration_secs } => exit == Ok::<TrainExit, String>(
            TrainExit::Completed { run_dir, duration_secs },
        ),
        Outcome::Stopped { run_dir, duration_secs } => exit == Ok::<TrainExit, String>(
            TrainExit::Aborted { run_dir, duration_secs },
        ),
        Outcome::Failed { error } => exit == Err::<TrainExit, String>(error),
    }
}

/// The exit of an active run's thread, in whatever phase, ends the run with what
/// the exit stands for; parameters, start time, buffer and count of points stay,
/// the channel is dropped, and viewers are told the same outcome. The exit of a
/// run that has ended changes nothing.
pub proof fn law_exit_is_recorded_and_told(
    m: ManagerView,
    id: RunId,
    exit: Result<TrainExit, String>,
)
    requires
        m.valid(),
        m.runs.contains_key(id),
    ensures
        ({
            let after = m.after_thread_msg(id, ThreadMsg::Exited(exit));
            let now = after.runs[id];
            match m.runs[id].status {
                RunStatus::Active { config, started_at, .. } => {
                    &&& now.status is Ended
                    &&& stands_for(exit, now.status->Ended_outcome)
                    &&& now.status->Ended_config == config
                    &&& now.status->Ended_started_at == started_at
                    &&& now.replay == m.runs[id].replay
                    &&& now.points == m.runs[id].points
                    &&& now.control is None
                    &&& after.runs.dom() == m.runs.dom()
                    &&& forall|other: RunId|
                        other != id ==> #[trigger] after.runs[other] == m.runs[other]
                    &&& after.outbox == m.outbox + seq![
                        Action::Release { id },
                        Action::Broadcast(
                            ManagerEvent::Ended { id, outcome: now.status->Ended_outcome },
                        ),
                    ]
                },
                RunStatus::Ended { .. } => after == m,
            }
        }),
{
    let after = m.after_thread_msg(id, ThreadMsg::Exited(exit));
    if m.runs[id].status is Active {
        assert(after.runs.dom() =~= m.runs.dom());
        assert(after.outbox =~= m.outbox + seq![
            Action::Release { id },
            Action::Broadcast(
                ManagerEvent::Ended { id, outcome: after.runs[id].status->Ended_outcome },
            ),
        ]);
    } else {
        assert(after.runs =~= m.runs);
    }
}

/// The driver is handed every outstanding action once, in the order in which they
/// were decided, and no run is touched.
pub proof fn law_actions_are_handed_out_once(
    m: ManagerView,
    actions: Seq<Action>,
    after: ManagerView,
    again: Seq<Action>,
    last: ManagerView,
)
    requires
        m.hands_out(actions, after),
        after.hands_out(again, last),
    ensures
        actions == m.outbox,
        again == Seq::<Action>::empty(),
        after.runs == m.runs,
        last.runs == m.runs,
{
}

/// The answer to a command, taken as text, is the answer: accepted as such, or
/// refused with the words that the caller gets.
pub proof fn law_answers_keep_their_words(r: Result<(), String>)
    ensures
        r is Ok <==> crate::text::outcome_text(r) is Ok,
        r matches Err(message) ==> crate::text::outcome_text(r) == Err::<(), Seq<char>>(message@),
{
}

/// A message of a run that is not registered changes nothing, whatever it says.
pub proof fn law_unregistered_messages_are_dropped(m: ManagerView, id: RunId, msg: ThreadMsg)
    requires
        !m.runs.contains_key(id),
    ensures
        m.after_thread_msg(id, msg) == m,
{
}

} // verus!
