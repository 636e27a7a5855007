//! The manager under a small synchronous driver: fake training backends answer
//! the actions of its outbox, and their messages are handed back one by one.

use std::collections::{HashMap, HashSet, VecDeque};
use std::time::{SystemTime, UNIX_EPOCH};

use faf_ml_training::clock::Timestamp;
use faf_ml_training::dataset::SnapshotProbe;
use faf_ml_training::ids::RunId;
use faf_ml_training::manager::{
    gone, unknown_run, Action, AttachDump, ManagerEvent, Outcome, Phase, RunStatus, Snapshot,
    TrainCmd, TrainManager, TrainReply, MAX_RUNS,
};
use faf_ml_training::protocol::{TrainingCommand, TrainingConfig};
use faf_ml_training::replay::MAX_REPLAY_BATCH_EVENTS;
use faf_ml_training::train::{
    ControlState, ThreadMsg, TrainAction, TrainEvent, TrainExit, TrainParams,
};

/// A training backend.
enum Trainer {
    /// Emits one batch point, then completes immediately.
    Completes,
    /// Holds until Pause (then confirms with `Paused`), exits on Abort.
    Controllable,
    /// Fails.
    Fails,
    /// Emits two epochs of this many batches each, then completes.
    Bursts(usize),
}

struct Driver {
    manager: TrainManager,
    trainer: Trainer,
    /// Manifest files of the store, with their number of entries.
    store: HashMap<String, usize>,
    broadcasts: Vec<ManagerEvent>,
    mail: VecDeque<(RunId, ThreadMsg)>,
    paused_sent: HashSet<RunId>,
}

/// A live subscription: the place of its next event.
struct Viewer {
    next: usize,
}

impl Driver {
    fn new(trainer: Trainer) -> Driver {
        Driver {
            manager: TrainManager::new(),
            trainer,
            store: HashMap::from([("test.json".to_string(), 2)]),
            broadcasts: Vec::new(),
            mail: VecDeque::new(),
            paused_sent: HashSet::new(),
        }
    }

    fn react(&mut self, id: RunId, action: TrainAction) {
        match (&self.trainer, action) {
            (Trainer::Controllable, TrainAction::Pause) => {
                if self.paused_sent.insert(id) {
                    self.mail.push_back((id, ThreadMsg::Event(TrainEvent::Paused)));
                }
            }
            (Trainer::Controllable, TrainAction::Abort) => {
                self.mail.push_back((
                    id,
                    ThreadMsg::Exited(Ok(TrainExit::Aborted {
                        run_dir: "runs/20260912-000000".to_string(),
                        duration_secs: 1,
                    })),
                ));
            }
            _ => {}
        }
    }

    fn spawn(&mut self, id: RunId, control: ControlState) {
        match self.trainer {
            Trainer::Completes => {
                self.mail.push_back((id, ThreadMsg::Event(batch(1, 1))));
                self.mail.push_back((id, completed()));
            }
            Trainer::Controllable => self.react(id, control.action),
            Trainer::Fails => {
                self.mail.push_back((id, ThreadMsg::Exited(Err("boom".to_string()))));
            }
            Trainer::Bursts(batches_per_epoch) => {
                for epoch in 1..=2usize {
                    for number in 1..=batches_per_epoch {
                        self.mail.push_back((id, ThreadMsg::Event(batch(epoch, number))));
                    }
                    self.mail.push_back((id, ThreadMsg::Event(epoch_end(epoch))));
                }
                self.mail.push_back((id, completed()));
            }
        }
    }

    /// Carries out what the outbox holds.
    fn perform(&mut self) {
        for action in self.manager.take_actions() {
            match action {
                Action::Spawn { id, control, .. } => self.spawn(id, control),
                Action::Control { id, state } => self.react(id, state.action),
                Action::Release { .. } => {}
                Action::Broadcast(event) => self.broadcasts.push(event),
            }
        }
    }

    /// Hands the next thread message to the manager.
    fn deliver(&mut self) -> bool {
        match self.mail.pop_front() {
            Some((id, msg)) => {
                self.manager.handle_thread_msg(id, msg);
                self.perform();
                true
            }
            None => false,
        }
    }

    fn settle(&mut self) {
        while self.deliver() {}
    }

    fn start(&mut self, params: TrainParams, speed: f64) -> Result<RunId, String> {
        let file = self.manager.preflight(&params)?;
        let probe = match self.store.get(&file) {
            Some(entries) => SnapshotProbe::Entries(*entries),
            None => SnapshotProbe::Missing,
        };
        let r = self.manager.start(params, speed.to_bits(), &probe);
        self.perform();
        r
    }

    fn command(&mut self, cmd: TrainingCommand) -> Result<(), String> {
        let r = self.manager.command(cmd);
        self.perform();
        r
    }

    fn attach(&self, id: RunId) -> Result<(AttachDump, Viewer), String> {
        let dump = self.manager.attach(id)?;
        Ok((dump, Viewer { next: self.broadcasts.len() }))
    }

    fn snapshot(&self, id: Option<RunId>) -> Result<Snapshot, String> {
        self.manager.snapshot(id)
    }

    /// The viewer's next event; threads run on until there is one.
    fn recv(&mut self, viewer: &mut Viewer) -> ManagerEvent {
        while viewer.next >= self.broadcasts.len() {
            assert!(self.deliver(), "no manager event will come");
        }
        viewer.next += 1;
        self.broadcasts[viewer.next - 1].clone()
    }
}

fn batch(epoch: usize, number: usize) -> TrainEvent {
    TrainEvent::Batch {
        epoch,
        batch: number,
        total_batches: 1,
        cls_loss: 1.0f32.to_bits(),
        bbox_loss: 1.0f32.to_bits(),
        total_loss: 2.0f32.to_bits(),
    }
}

fn epoch_end(epoch: usize) -> TrainEvent {
    TrainEvent::EpochEnd {
        epoch,
        total_epochs: 2,
        train_cls: 1.0f32.to_bits(),
        train_bbox: 1.0f32.to_bits(),
        valid_cls: 1.0f32.to_bits(),
        valid_bbox: 1.0f32.to_bits(),
    }
}

fn completed() -> ThreadMsg {
    ThreadMsg::Exited(Ok(TrainExit::Completed {
        run_dir: "runs/20260912-000000".to_string(),
        duration_secs: 1,
    }))
}

fn test_params() -> TrainParams {
    TrainParams {
        config: TrainingConfig {
            dataset: "test".to_string(),
            ..Default::default()
        },
        data: "/store".to_string(),
        ..Default::default()
    }
}

/// A manager with run 7 just started at second 100, unthrottled.
fn with_run_seven() -> TrainManager {
    let mut manager = TrainManager::new();
    let r = manager.start_as(test_params(), 0, &SnapshotProbe::Entries(2), 7, at(100));
    assert_eq!(r, Ok(7));
    let _ = manager.take_actions();
    manager
}

fn at(secs: i64) -> Timestamp {
    Timestamp { secs, nanos: 0 }
}

fn phase(manager: &TrainManager, id: RunId) -> Phase {
    match manager.snapshot(Some(id)).unwrap().status {
        RunStatus::Active { phase, .. } => phase,
        other => panic!("expected an active run, got {other:?}"),
    }
}

#[test]
fn start_rejects_second_start() {
    let mut handle = Driver::new(Trainer::Controllable);
    let params = test_params();
    handle.start(params.clone(), 0.0).unwrap();
    let err = handle.start(params, 0.0).unwrap_err();
    assert!(err.contains("already active"));
    let snap = handle.snapshot(None).unwrap();
    assert!(matches!(
        snap.status,
        RunStatus::Active {
            phase: Phase::Running,
            ..
        }
    ));
}

#[test]
fn start_validates_dataset() {
    let mut handle = Driver::new(Trainer::Completes);
    let err = handle.start(TrainParams::default(), 0.0).unwrap_err();
    assert!(err.contains("no dataset snapshot"));
    let mut params = test_params();
    params.config.dataset = "missing".to_string();
    let err = handle.start(params, 0.0).unwrap_err();
    assert!(err.contains("not found"));
}

#[test]
fn pause_then_resume() {
    let mut handle = Driver::new(Trainer::Controllable);
    let id = handle.start(test_params(), 0.0).unwrap();
    let (_, mut events) = handle.attach(id).unwrap();

    handle.command(TrainingCommand::Pause { id }).unwrap();
    // Instant ack, then the settled state once the thread confirms.
    assert_eq!(
        handle.recv(&mut events),
        ManagerEvent::PhaseChanged {
            id,
            phase: Phase::Pausing
        }
    );
    assert_eq!(
        handle.recv(&mut events),
        ManagerEvent::PhaseChanged {
            id,
            phase: Phase::Paused
        }
    );
    let snap = handle.snapshot(Some(id)).unwrap();
    assert!(matches!(
        snap.status,
        RunStatus::Active {
            phase: Phase::Paused,
            ..
        }
    ));

    handle.command(TrainingCommand::Resume { id }).unwrap();
    assert_eq!(
        handle.recv(&mut events),
        ManagerEvent::PhaseChanged {
            id,
            phase: Phase::Running
        }
    );
}

#[test]
fn stop_ends_with_stopped_outcome() {
    let mut handle = Driver::new(Trainer::Controllable);
    let id = handle.start(test_params(), 0.0).unwrap();
    let (_, mut events) = handle.attach(id).unwrap();

    handle.command(TrainingCommand::Stop { id }).unwrap();
    assert_eq!(
        handle.recv(&mut events),
        ManagerEvent::PhaseChanged {
            id,
            phase: Phase::Stopping
        }
    );
    let outcome = match handle.recv(&mut events) {
        ManagerEvent::Ended { id: ended_id, outcome } => {
            assert_eq!(ended_id, id);
            outcome
        }
        other => panic!("expected Ended, got {other:?}"),
    };
    assert!(matches!(outcome, Outcome::Stopped { .. }));
    let snap = handle.snapshot(Some(id)).unwrap();
    assert!(matches!(snap.status, RunStatus::Ended { .. }));
}

#[test]
fn reset_wipes_run_and_allows_new_start() {
    let mut handle = Driver::new(Trainer::Controllable);
    let params = test_params();
    let id = handle.start(params.clone(), 0.0).unwrap();
    let (_, mut events) = handle.attach(id).unwrap();

    handle.command(TrainingCommand::Reset { id }).unwrap();
    assert_eq!(handle.recv(&mut events), ManagerEvent::Reset { id });
    // The run is gone from the registry: there is no idle record to snapshot
    // or attach to.
    assert!(handle.snapshot(None).is_err());
    assert!(handle.snapshot(Some(id)).is_err());

    // New Start accepted while the old thread winds down; its late Exited is
    // dropped and must not clobber the new run.
    let id2 = handle.start(params, 0.0).unwrap();
    assert_ne!(id, id2);
    assert_eq!(handle.mail.len(), 1);
    handle.settle();
    let snap = handle.snapshot(Some(id2)).unwrap();
    assert!(matches!(
        snap.status,
        RunStatus::Active {
            phase: Phase::Running,
            ..
        }
    ));
}

#[test]
fn trainer_failure_ends_failed() {
    let mut handle = Driver::new(Trainer::Fails);
    let id = handle.start(test_params(), 0.0).unwrap();
    handle.settle();
    let snap = handle.snapshot(Some(id)).unwrap();
    match &snap.status {
        RunStatus::Ended {
            outcome: Outcome::Failed { error },
            ..
        } => assert_eq!(error, "boom"),
        other => panic!("expected a failed run, got {other:?}"),
    }
}

#[test]
fn completed_run_replays_to_late_viewers() {
    let mut handle = Driver::new(Trainer::Completes);
    let id = handle.start(test_params(), 0.0).unwrap();
    handle.settle();
    let snap = handle.snapshot(None).unwrap();
    assert!(matches!(snap.status, RunStatus::Ended { .. }));
    let (dump, _) = handle.attach(id).unwrap();
    assert_eq!(dump.id, id);
    assert!(matches!(dump.status, RunStatus::Ended { .. }));
    assert_eq!(dump.replay.len(), 1);
}

#[test]
fn commands_with_unknown_id_are_rejected() {
    let mut handle = Driver::new(Trainer::Controllable);
    let id = uuid::Uuid::new_v4().as_u128();
    assert!(handle.snapshot(None).is_err());
    assert!(handle.snapshot(Some(id)).is_err());
    assert!(handle.attach(id).is_err());
    assert!(handle.command(TrainingCommand::Pause { id }).is_err());
    assert!(handle.command(TrainingCommand::Stop { id }).is_err());
    assert!(handle
        .command(TrainingCommand::SetSpeed {
            id,
            batches_per_sec: 1.0f64.to_bits(),
        })
        .is_err());
    // Reset with an unknown id errors too: there is no global idle run to
    // wipe.
    assert!(handle.command(TrainingCommand::Reset { id }).is_err());
    // Start/Attach are not runtime commands.
    let err = handle.command(TrainingCommand::Attach { id }).unwrap_err();
    assert!(err.contains("not a runtime command"));
}

#[test]
fn start_rejects_tiny_snapshot() {
    let mut handle = Driver::new(Trainer::Completes);
    handle.store.insert("test.json".to_string(), 1);
    let err = handle.start(test_params(), 0.0).unwrap_err();
    assert!(err.contains("need at least 2"));
}

#[test]
fn replay_caps_batch_events_but_keeps_epochs() {
    let batches_per_epoch = MAX_REPLAY_BATCH_EVENTS / 2 + 100;
    let mut handle = Driver::new(Trainer::Bursts(batches_per_epoch));
    let id = handle.start(test_params(), 0.0).unwrap();
    handle.settle();
    assert!(matches!(
        handle.snapshot(None).unwrap().status,
        RunStatus::Ended { .. }
    ));
    let (dump, _) = handle.attach(id).unwrap();
    let batches = dump
        .replay
        .iter()
        .filter(|e| matches!(e, TrainEvent::Batch { .. }))
        .count();
    let epochs = dump
        .replay
        .iter()
        .filter(|e| matches!(e, TrainEvent::EpochEnd { .. }))
        .count();
    assert_eq!(batches, MAX_REPLAY_BATCH_EVENTS);
    assert_eq!(epochs, 2);
    // Oldest batch points were dropped first.
    match dump.replay.first() {
        Some(TrainEvent::Batch { epoch, batch, .. }) => {
            assert_eq!((*epoch, *batch), (1, 201));
        }
        other => panic!("expected oldest surviving Batch, got {other:?}"),
    }
    // Every point counts as produced, whether or not it is still buffered.
    assert_eq!(handle.snapshot(None).unwrap().points, 5202);
    // The epoch summaries stand where they came.
    assert_eq!(dump.replay[batches_per_epoch - 200], epoch_end(1));
    assert_eq!(*dump.replay.last().unwrap(), epoch_end(2));
}

#[test]
fn replay_at_the_cap_drops_nothing() {
    let mut manager = with_run_seven();
    for number in 1..=MAX_REPLAY_BATCH_EVENTS {
        manager.handle_thread_msg(7, ThreadMsg::Event(batch(1, number)));
    }
    let replay = manager.attach(7).unwrap().replay;
    assert_eq!(replay.len(), 5000);
    assert_eq!(replay[0], batch(1, 1));
    // One more batch point pushes out exactly one; a summary none.
    manager.handle_thread_msg(7, ThreadMsg::Event(epoch_end(1)));
    manager.handle_thread_msg(7, ThreadMsg::Event(batch(2, 1)));
    let replay = manager.attach(7).unwrap().replay;
    assert_eq!(replay.len(), 5001);
    assert_eq!(replay[0], batch(1, 2));
    assert_eq!(replay[4999], epoch_end(1));
    assert_eq!(replay[5000], batch(2, 1));
}

#[test]
fn start_assigns_a_random_id_and_the_time() {
    let mut manager = TrainManager::new();
    let before = SystemTime::now().duration_since(UNIX_EPOCH).unwrap().as_secs() as i64;
    let id = manager
        .start(test_params(), 3.5f64.to_bits(), &SnapshotProbe::Entries(2))
        .unwrap();
    let after = SystemTime::now().duration_since(UNIX_EPOCH).unwrap().as_secs() as i64;
    let uuid = uuid::Uuid::from_u128(id);
    assert_eq!(uuid.get_version_num(), 4);
    assert_eq!(uuid.get_variant(), uuid::Variant::RFC4122);
    match manager.snapshot(Some(id)).unwrap().status {
        RunStatus::Active { started_at, config, .. } => {
            assert!(before <= started_at.secs && started_at.secs <= after);
            assert!(started_at.nanos < 1_000_000_000);
            assert_eq!(config, test_params());
        }
        other => panic!("expected an active run, got {other:?}"),
    }
    assert_eq!(
        manager.take_actions(),
        vec![
            Action::Spawn {
                id,
                params: test_params(),
                control: ControlState {
                    action: TrainAction::Continue,
                    batches_per_sec: 3.5f64.to_bits(),
                },
            },
            Action::Broadcast(ManagerEvent::PhaseChanged { id, phase: Phase::Running }),
        ]
    );
    assert_eq!(manager.take_actions(), vec![]);
}

#[test]
fn start_refusals_in_full() {
    let mut manager = TrainManager::new();
    let mut start = |dataset: &str, probe: SnapshotProbe| {
        let mut params = test_params();
        params.config.dataset = dataset.to_string();
        let r = manager.start_as(params, 0, &probe, 1, at(1));
        assert_eq!(manager.take_actions(), vec![]);
        r.unwrap_err()
    };
    assert_eq!(
        start(" \t", SnapshotProbe::Entries(9)),
        "no dataset snapshot selected — create one on the Datasets page first"
    );
    assert_eq!(
        start("a/b\"\n", SnapshotProbe::Entries(9)),
        "invalid dataset name \"a/b\\\"\": only [A-Za-z0-9._-] allowed"
    );
    // Messages about the snapshot show the name as it was given.
    assert_eq!(
        start("a.b-c_9 ", SnapshotProbe::Missing),
        "snapshot \"a.b-c_9 \" not found — create one on the Datasets page first"
    );
    assert_eq!(
        start(
            "a",
            SnapshotProbe::Unreadable {
                path: "/s/datasets/a.json".to_string(),
                error: "denied".to_string()
            }
        ),
        "reading /s/datasets/a.json: denied"
    );
    assert_eq!(
        start(
            "a",
            SnapshotProbe::Malformed {
                path: "/s/datasets/a.json".to_string(),
                error: "EOF".to_string()
            }
        ),
        "parsing /s/datasets/a.json: EOF"
    );
    assert_eq!(
        start("a", SnapshotProbe::Entries(0)),
        "snapshot \"a\" has 0 sample(s) — need at least 2 to train"
    );
    assert_eq!(
        start("a", SnapshotProbe::Entries(1)),
        "snapshot \"a\" has 1 sample(s) — need at least 2 to train"
    );
}

#[test]
fn preflight_names_the_manifest_file() {
    let mut manager = TrainManager::new();
    let mut params = test_params();
    params.config.dataset = " v1.2 ".to_string();
    assert_eq!(manager.preflight(&params), Ok(" v1.2 .json".to_string()));
    params.config.dataset = "../x".to_string();
    assert_eq!(
        manager.preflight(&params),
        Err("invalid dataset name \"../x\": only [A-Za-z0-9._-] allowed".to_string())
    );
    let _ = manager.start_as(test_params(), 0, &SnapshotProbe::Entries(2), 1, at(1));
    assert_eq!(
        manager.preflight(&params),
        Err("a training run is already active".to_string())
    );
    assert_eq!(MAX_RUNS, 1);
}

#[test]
fn unknown_runs_are_named() {
    let id = 0x0123_4567_89ab_cdef_0123_4567_89ab_cdef_u128;
    let text = "unknown training run 01234567-89ab-cdef-0123-456789abcdef";
    assert_eq!(unknown_run(id), text);
    let mut manager = with_run_seven();
    assert_eq!(manager.attach(id), Err(text.to_string()));
    assert_eq!(manager.snapshot(Some(id)), Err(text.to_string()));
    for cmd in [
        TrainingCommand::Pause { id },
        TrainingCommand::Resume { id },
        TrainingCommand::Stop { id },
        TrainingCommand::Reset { id },
        TrainingCommand::SetSpeed { id, batches_per_sec: 1 },
    ] {
        assert_eq!(manager.command(cmd), Err(text.to_string()));
    }
    // A refusal changes nothing.
    assert_eq!(manager.take_actions(), vec![]);
    assert_eq!(phase(&manager, 7), Phase::Running);
    assert_eq!(gone(), "training manager is gone");
}

#[test]
fn start_and_attach_are_no_runtime_commands() {
    let mut manager = with_run_seven();
    let text = "not a runtime command: use start()/attach()".to_string();
    let start = TrainingCommand::Start { config: TrainingConfig::default(), speed: 0 };
    assert_eq!(manager.command(start), Err(text.clone()));
    assert_eq!(manager.command(TrainingCommand::Attach { id: 7 }), Err(text));
    assert_eq!(manager.take_actions(), vec![]);
}

#[test]
fn ended_runs_take_no_commands_but_reset() {
    let mut manager = with_run_seven();
    manager.handle_thread_msg(7, completed());
    assert_eq!(
        manager.take_actions(),
        vec![
            Action::Release { id: 7 },
            Action::Broadcast(ManagerEvent::Ended {
                id: 7,
                outcome: Outcome::Completed {
                    run_dir: "runs/20260912-000000".to_string(),
                    duration_secs: 1
                }
            }),
        ]
    );
    for cmd in [
        TrainingCommand::Pause { id: 7 },
        TrainingCommand::Resume { id: 7 },
        TrainingCommand::Stop { id: 7 },
        TrainingCommand::SetSpeed { id: 7, batches_per_sec: 1 },
    ] {
        assert_eq!(manager.command(cmd), Err("no active run".to_string()));
    }
    // A second exit is not announced and changes nothing.
    manager.handle_thread_msg(7, ThreadMsg::Exited(Err("late".to_string())));
    assert_eq!(manager.take_actions(), vec![]);
    assert!(matches!(
        manager.snapshot(Some(7)).unwrap().status,
        RunStatus::Ended { outcome: Outcome::Completed { .. }, .. }
    ));
    assert_eq!(manager.command(TrainingCommand::Reset { id: 7 }), Ok(()));
    assert_eq!(
        manager.take_actions(),
        vec![Action::Broadcast(ManagerEvent::Reset { id: 7 })]
    );
    assert_eq!(manager.snapshot(None), Err("no training run".to_string()));
}

#[test]
fn steering_sends_the_action_and_tells_viewers() {
    let mut manager = with_run_seven();
    let step = |action, phase| {
        vec![
            Action::Control { id: 7, state: ControlState { action, batches_per_sec: 0 } },
            Action::Broadcast(ManagerEvent::PhaseChanged { id: 7, phase }),
        ]
    };
    assert_eq!(manager.command(TrainingCommand::Resume { id: 7 }), Ok(()));
    assert_eq!(manager.take_actions(), vec![]);
    assert_eq!(manager.command(TrainingCommand::Pause { id: 7 }), Ok(()));
    assert_eq!(manager.take_actions(), step(TrainAction::Pause, Phase::Pausing));
    // Pausing twice is pausing once.
    assert_eq!(manager.command(TrainingCommand::Pause { id: 7 }), Ok(()));
    assert_eq!(manager.take_actions(), vec![]);
    assert_eq!(manager.command(TrainingCommand::Resume { id: 7 }), Ok(()));
    assert_eq!(manager.take_actions(), step(TrainAction::Continue, Phase::Running));
    // The thread entered the hold just as Resume landed.
    manager.handle_thread_msg(7, ThreadMsg::Event(TrainEvent::Paused));
    assert_eq!(manager.take_actions(), vec![]);
    assert_eq!(phase(&manager, 7), Phase::Running);
    assert_eq!(manager.command(TrainingCommand::Stop { id: 7 }), Ok(()));
    assert_eq!(manager.take_actions(), step(TrainAction::Abort, Phase::Stopping));
    for cmd in [
        TrainingCommand::Stop { id: 7 },
        TrainingCommand::Pause { id: 7 },
        TrainingCommand::Resume { id: 7 },
    ] {
        assert_eq!(manager.command(cmd), Ok(()));
        assert_eq!(manager.take_actions(), vec![]);
        assert_eq!(phase(&manager, 7), Phase::Stopping);
    }
}

#[test]
fn set_speed_changes_the_throttle_only() {
    let mut manager = with_run_seven();
    let _ = manager.command(TrainingCommand::Pause { id: 7 });
    let _ = manager.take_actions();
    let batches_per_sec = 2.5f64.to_bits();
    assert_eq!(manager.command(TrainingCommand::SetSpeed { id: 7, batches_per_sec }), Ok(()));
    assert_eq!(
        manager.take_actions(),
        vec![Action::Control {
            id: 7,
            state: ControlState { action: TrainAction::Pause, batches_per_sec }
        }]
    );
    assert_eq!(phase(&manager, 7), Phase::Pausing);
    // The throttle stays over the next command.
    let _ = manager.command(TrainingCommand::Resume { id: 7 });
    assert_eq!(
        manager.take_actions()[0],
        Action::Control {
            id: 7,
            state: ControlState { action: TrainAction::Continue, batches_per_sec }
        }
    );
}

#[test]
fn reset_aborts_the_thread_first() {
    let mut manager = with_run_seven();
    assert_eq!(manager.command(TrainingCommand::Reset { id: 7 }), Ok(()));
    assert_eq!(
        manager.take_actions(),
        vec![
            Action::Control {
                id: 7,
                state: ControlState { action: TrainAction::Abort, batches_per_sec: 0 }
            },
            Action::Release { id: 7 },
            Action::Broadcast(ManagerEvent::Reset { id: 7 }),
        ]
    );
    // Nothing that the old thread still sends arrives anywhere.
    for msg in [
        ThreadMsg::Event(batch(1, 1)),
        ThreadMsg::Event(TrainEvent::Paused),
        ThreadMsg::Exited(Err("late".to_string())),
    ] {
        manager.handle_thread_msg(7, msg);
        assert_eq!(manager.take_actions(), vec![]);
    }
    assert!(manager.attach(7).is_err());
}

#[test]
fn metrics_are_buffered_and_broadcast() {
    let mut manager = with_run_seven();
    for event in [batch(1, 1), epoch_end(1)] {
        manager.handle_thread_msg(7, ThreadMsg::Event(event));
        assert_eq!(
            manager.take_actions(),
            vec![Action::Broadcast(ManagerEvent::Train { id: 7, event })]
        );
    }
    let dump = manager.attach(7).unwrap();
    assert_eq!(dump.id, 7);
    assert_eq!(dump.replay, vec![batch(1, 1), epoch_end(1)]);
    assert_eq!(
        dump.status,
        RunStatus::Active { phase: Phase::Running, config: test_params(), started_at: at(100) }
    );
}

#[test]
fn bare_snapshot_is_the_active_or_latest_run() {
    let mut manager = TrainManager::new();
    assert_eq!(manager.snapshot(None), Err("no training run".to_string()));
    let probe = SnapshotProbe::Entries(2);
    // The times are not in the order of the starts.
    for (id, secs) in [(5, 30), (9, 40), (6, 40), (8, 20)] {
        assert_eq!(manager.start_as(test_params(), 0, &probe, id, at(secs)), Ok(id));
        assert_eq!(manager.snapshot(None).unwrap().id, id);
        manager.handle_thread_msg(id, completed());
    }
    // Of the ended runs the latest start counts, and then the greater id.
    assert_eq!(manager.snapshot(None).unwrap().id, 9);
    let _ = manager.command(TrainingCommand::Reset { id: 9 });
    assert_eq!(manager.snapshot(None).unwrap().id, 6);
    let _ = manager.command(TrainingCommand::Reset { id: 6 });
    assert_eq!(manager.snapshot(None).unwrap().id, 5);
}

#[test]
fn a_turn_touches_one_run() {
    let mut manager = with_run_seven();
    manager.handle_thread_msg(7, ThreadMsg::Event(batch(1, 1)));
    manager.handle_thread_msg(7, completed());
    let probe = SnapshotProbe::Entries(2);
    assert_eq!(manager.start_as(test_params(), 0, &probe, 8, at(200)), Ok(8));
    let seven = manager.snapshot(Some(7)).unwrap();
    let _ = manager.command(TrainingCommand::Pause { id: 8 });
    manager.handle_thread_msg(8, ThreadMsg::Event(TrainEvent::Paused));
    manager.handle_thread_msg(8, ThreadMsg::Exited(Err("boom".to_string())));
    assert_eq!(manager.snapshot(Some(7)).unwrap(), seven);
}

#[test]
fn mailbox_messages_are_answered_in_kind() {
    let mut manager = TrainManager::new();
    let start = TrainCmd::Start {
        params: test_params(),
        speed: 0,
        probe: SnapshotProbe::Entries(2),
    };
    let id = match manager.handle_cmd(start) {
        TrainReply::Start(Ok(id)) => id,
        other => panic!("expected an accepted start, got {other:?}"),
    };
    let again = TrainCmd::Start {
        params: test_params(),
        speed: 0,
        probe: SnapshotProbe::Missing,
    };
    assert_eq!(
        manager.handle_cmd(again),
        TrainReply::Start(Err("a training run is already active".to_string()))
    );
    assert_eq!(
        manager.handle_cmd(TrainCmd::Command { cmd: TrainingCommand::Stop { id } }),
        TrainReply::Command(Ok(()))
    );
    match manager.handle_cmd(TrainCmd::Attach { id }) {
        TrainReply::Attach(Ok(dump)) => {
            assert_eq!(dump.id, id);
            assert!(matches!(dump.status, RunStatus::Active { phase: Phase::Stopping, .. }));
        }
        other => panic!("expected a dump, got {other:?}"),
    }
    match manager.handle_cmd(TrainCmd::Snapshot { id: None }) {
        TrainReply::Snapshot(Ok(snap)) => assert_eq!(snap.id, id),
        other => panic!("expected a snapshot, got {other:?}"),
    }
}

#[test]
fn a_stopping_run_only_ends() {
    let mut manager = with_run_seven();
    manager.command(TrainingCommand::Stop { id: 7 }).unwrap();
    let _ = manager.take_actions();
    let _ = manager.command(TrainingCommand::Resume { id: 7 });
    let _ = manager.command(TrainingCommand::Reset { id: 8 });
    manager.handle_thread_msg(7, ThreadMsg::Event(TrainEvent::Paused));
    manager.handle_thread_msg(7, ThreadMsg::Event(batch(1, 1)));
    let refused = manager.start_as(test_params(), 0, &SnapshotProbe::Entries(2), 9, at(200));
    assert_eq!(refused, Err("a training run is already active".to_string()));
    assert_eq!(
        manager.take_actions(),
        vec![Action::Broadcast(ManagerEvent::Train { id: 7, event: batch(1, 1) })]
    );
    assert_eq!(phase(&manager, 7), Phase::Stopping);
    manager.handle_thread_msg(7, completed());
    assert!(matches!(manager.snapshot(Some(7)).unwrap().status, RunStatus::Ended { .. }));
}
