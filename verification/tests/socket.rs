use faf_ml_training::clock::Timestamp;
use faf_ml_training::manager::{
    AttachDump, ManagerEvent, Outcome, Phase, RunStatus, Snapshot,
};
use faf_ml_training::protocol::{
    Loss, TrainingCommand, TrainingConfig, TrainingEvent, TrainingMetricsPoint, TrainingRunStatus,
    TrainingStatus,
};
use faf_ml_training::server::{
    get_training_status, metrics_point, wire_outcome, wire_phase, wire_status, ClientFrame, Error,
    Feed, Outgoing, SocketState, Step, Task, TrainingSocket,
};
use faf_ml_training::train::{TrainEvent, TrainParams};

fn batch(number: usize) -> TrainEvent {
    TrainEvent::Batch {
        epoch: 2,
        batch: number,
        total_batches: 30,
        cls_loss: 0.25f32.to_bits(),
        bbox_loss: 0.5f32.to_bits(),
        total_loss: 0.75f32.to_bits(),
    }
}

fn epoch_end() -> TrainEvent {
    TrainEvent::EpochEnd {
        epoch: 2,
        total_epochs: 5,
        train_cls: 0.1f32.to_bits(),
        train_bbox: 0.2f32.to_bits(),
        valid_cls: 0.3f32.to_bits(),
        valid_bbox: 0.4f32.to_bits(),
    }
}

fn batch_point(seq: u64, number: usize) -> TrainingMetricsPoint {
    TrainingMetricsPoint {
        seq,
        epoch: 2,
        batch: number,
        total_batches: 30,
        train_loss: Loss::Single(0.75f32.to_bits()),
        cls_loss: Loss::Single(0.25f32.to_bits()),
        bbox_loss: Loss::Single(0.5f32.to_bits()),
        valid_loss: None,
        map: None,
    }
}

fn epoch_point(seq: u64) -> TrainingMetricsPoint {
    TrainingMetricsPoint {
        seq,
        epoch: 2,
        batch: 0,
        total_batches: 0,
        train_loss: Loss::SingleSum(0.1f32.to_bits(), 0.2f32.to_bits()),
        cls_loss: Loss::Single(0.1f32.to_bits()),
        bbox_loss: Loss::Single(0.2f32.to_bits()),
        valid_loss: Some(Loss::SingleSum(0.3f32.to_bits(), 0.4f32.to_bits())),
        map: None,
    }
}

fn active(phase: Phase) -> RunStatus {
    RunStatus::Active { phase, config: params(), started_at: Timestamp { secs: 5, nanos: 6 } }
}

fn ended(outcome: Outcome) -> RunStatus {
    RunStatus::Ended { outcome, config: params(), started_at: Timestamp { secs: 5, nanos: 6 } }
}

fn stopped() -> Outcome {
    Outcome::Stopped { run_dir: "runs/20260922-120000".to_string(), duration_secs: 42 }
}

fn params() -> TrainParams {
    TrainParams {
        config: TrainingConfig { dataset: "test".to_string(), ..Default::default() },
        data: "/store".to_string(),
        out: "/store/runs".to_string(),
    }
}

fn required(event: TrainingEvent) -> Outgoing {
    Outgoing { event, required: true }
}

fn best_effort(event: TrainingEvent) -> Outgoing {
    Outgoing { event, required: false }
}

fn complaint(message: &str, next: Task) -> Step {
    let event = TrainingEvent::Error { message: message.to_string() };
    Step { sends: vec![best_effort(event)], next }
}

fn quiet(next: Task) -> Step {
    Step { sends: vec![], next }
}

/// A socket that has come to stand at `state`.
fn socket(state: SocketState) -> TrainingSocket {
    let mut socket = TrainingSocket::new("/store".to_string(), "/store/runs".to_string());
    assert_eq!(socket.state(), SocketState::Opening);
    match state {
        SocketState::Opening => {}
        SocketState::Starting => {
            let start = TrainingCommand::Start { config: params().config, speed: 0 };
            let _ = socket.on_frame(ClientFrame::Text(Ok(start)));
        }
        SocketState::Attaching { id } | SocketState::Live { id, .. } => {
            let _ = socket.on_frame(ClientFrame::Text(Ok(TrainingCommand::Attach { id })));
        }
        SocketState::Closed => {
            let _ = socket.on_frame(ClientFrame::Close);
        }
    }
    if let SocketState::Live { id, seq } = state {
        let replay = (0..seq as usize).map(batch).collect();
        let dump = AttachDump { id, status: active(Phase::Running), replay };
        let _ = socket.on_attached(Ok(dump));
    }
    assert_eq!(socket.state(), state);
    socket
}

#[test]
fn statuses_on_the_wire() {
    assert_eq!(wire_phase(Phase::Running), TrainingStatus::Running);
    assert_eq!(wire_phase(Phase::Pausing), TrainingStatus::Pausing);
    assert_eq!(wire_phase(Phase::Paused), TrainingStatus::Paused);
    assert_eq!(wire_phase(Phase::Stopping), TrainingStatus::Stopping);
    let run_dir = "runs/1".to_string();
    assert_eq!(
        wire_outcome(Outcome::Completed { run_dir: run_dir.clone(), duration_secs: 3 }),
        TrainingStatus::Done { run_dir, duration_secs: 3 }
    );
    assert_eq!(
        wire_outcome(stopped()),
        TrainingStatus::Stopped { run_dir: "runs/20260922-120000".to_string(), duration_secs: 42 }
    );
    assert_eq!(
        wire_status(&ended(Outcome::Failed { error: "boom".to_string() })),
        TrainingStatus::Failed { error: "boom".to_string() }
    );
    assert_eq!(wire_status(&active(Phase::Paused)), TrainingStatus::Paused);
}

#[test]
fn events_become_chart_points() {
    assert_eq!(metrics_point(7, &batch(3)), Some(batch_point(7, 3)));
    assert_eq!(metrics_point(8, &epoch_end()), Some(epoch_point(8)));
    assert_eq!(metrics_point(9, &TrainEvent::Paused), None);
}

#[test]
fn status_of_a_run() {
    let snapshot = Snapshot {
        id: 4,
        status: active(Phase::Running),
        replay: vec![batch(1), epoch_end()],
        points: 2,
    };
    assert_eq!(
        get_training_status(Ok(snapshot)),
        Ok(TrainingRunStatus {
            id: 4,
            config: params().config,
            started_at: Timestamp { secs: 5, nanos: 6 },
            status: TrainingStatus::Running,
            points: 2,
            latest: Some(epoch_point(2)),
        })
    );
    let snapshot = Snapshot { id: 4, status: ended(stopped()), replay: vec![], points: 0 };
    let status = get_training_status(Ok(snapshot)).unwrap();
    assert_eq!((status.points, status.latest), (0, None));
    assert!(status.status.is_terminal());
    // Points that the replay has dropped still count.
    let snapshot = Snapshot {
        id: 4,
        status: active(Phase::Running),
        replay: vec![batch(9)],
        points: 9,
    };
    let status = get_training_status(Ok(snapshot)).unwrap();
    assert_eq!((status.points, status.latest), (9, Some(batch_point(9, 9))));
}

#[test]
fn no_run_is_not_found() {
    assert_eq!(get_training_status(Err("no training run".to_string())), Err(Error::NotFound));
}

#[test]
fn first_frame_starts_a_run() {
    let mut s = socket(SocketState::Opening);
    let start = TrainingCommand::Start { config: params().config, speed: 2.0f64.to_bits() };
    assert_eq!(
        s.on_frame(ClientFrame::Text(Ok(start))),
        quiet(Task::Start { params: params(), speed: 2.0f64.to_bits() })
    );
    assert_eq!(s.state(), SocketState::Starting);
    assert_eq!(
        s.on_started(Ok(4)),
        Step {
            sends: vec![required(TrainingEvent::Started { id: 4 })],
            next: Task::Attach { id: 4 }
        }
    );
    assert_eq!(s.state(), SocketState::Attaching { id: 4 });
}

#[test]
fn refused_start_ends_the_connection() {
    let mut s = socket(SocketState::Starting);
    assert_eq!(
        s.on_started(Err("a training run is already active".to_string())),
        complaint("a training run is already active", Task::Stop)
    );
    assert_eq!(s.state(), SocketState::Closed);
}

#[test]
fn first_frame_attaches() {
    let mut s = socket(SocketState::Opening);
    assert_eq!(
        s.on_frame(ClientFrame::Text(Ok(TrainingCommand::Attach { id: 4 }))),
        quiet(Task::Attach { id: 4 })
    );
    assert_eq!(
        s.on_attached(Err("unknown training run 4".to_string())),
        complaint("unknown training run 4", Task::Stop)
    );
    assert_eq!(s.state(), SocketState::Closed);
}

#[test]
fn other_first_frames_keep_it_waiting() {
    let mut s = socket(SocketState::Opening);
    assert_eq!(
        s.on_frame(ClientFrame::Text(Ok(TrainingCommand::Pause { id: 4 }))),
        complaint("expected Start or Attach before commands", Task::Receive)
    );
    assert_eq!(
        s.on_frame(ClientFrame::Text(Err("expected value".to_string()))),
        complaint("invalid message: expected value", Task::Receive)
    );
    assert_eq!(s.on_frame(ClientFrame::Other), quiet(Task::Receive));
    assert_eq!(s.state(), SocketState::Opening);
    assert_eq!(s.on_frame(ClientFrame::Close), quiet(Task::Stop));
    assert_eq!(s.state(), SocketState::Closed);
}

#[test]
fn viewers_get_the_replay_then_the_status() {
    let mut s = socket(SocketState::Attaching { id: 4 });
    let dump = AttachDump {
        id: 4,
        status: active(Phase::Pausing),
        replay: vec![batch(1), epoch_end(), batch(2)],
    };
    assert_eq!(
        s.on_attached(Ok(dump)),
        Step {
            sends: vec![
                required(TrainingEvent::Metrics { id: 4, point: batch_point(1, 1) }),
                required(TrainingEvent::Metrics { id: 4, point: epoch_point(2) }),
                required(TrainingEvent::Metrics { id: 4, point: batch_point(3, 2) }),
                required(TrainingEvent::Status { id: 4, status: TrainingStatus::Pausing }),
            ],
            next: Task::Listen
        }
    );
    assert_eq!(s.state(), SocketState::Live { id: 4, seq: 3 });
    // Live points continue the numbering.
    assert_eq!(
        s.on_feed(Feed::Event(ManagerEvent::Train { id: 4, event: batch(3) })),
        Step {
            sends: vec![required(TrainingEvent::Metrics { id: 4, point: batch_point(4, 3) })],
            next: Task::Listen
        }
    );
    assert_eq!(s.state(), SocketState::Live { id: 4, seq: 4 });
}

#[test]
fn ended_runs_are_replayed_then_finished() {
    let mut s = socket(SocketState::Attaching { id: 4 });
    let dump = AttachDump { id: 4, status: ended(stopped()), replay: vec![batch(1)] };
    assert_eq!(
        s.on_attached(Ok(dump)),
        Step {
            sends: vec![
                required(TrainingEvent::Metrics { id: 4, point: batch_point(1, 1) }),
                required(TrainingEvent::Status { id: 4, status: wire_outcome(stopped()) }),
                best_effort(TrainingEvent::Finished { id: 4 }),
            ],
            next: Task::Stop
        }
    );
    assert_eq!(s.state(), SocketState::Closed);
}

#[test]
fn live_status_events() {
    let mut s = socket(SocketState::Live { id: 4, seq: 0 });
    assert_eq!(
        s.on_feed(Feed::Event(ManagerEvent::PhaseChanged { id: 4, phase: Phase::Stopping })),
        Step {
            sends: vec![required(TrainingEvent::Status {
                id: 4,
                status: TrainingStatus::Stopping
            })],
            next: Task::Listen
        }
    );
    assert_eq!(
        s.on_feed(Feed::Event(ManagerEvent::Reset { id: 4 })),
        Step {
            sends: vec![required(TrainingEvent::Cleared { id: 4 })],
            next: Task::Listen
        }
    );
    assert_eq!(
        s.on_feed(Feed::Event(ManagerEvent::Ended { id: 4, outcome: stopped() })),
        Step {
            sends: vec![
                required(TrainingEvent::Status { id: 4, status: wire_outcome(stopped()) }),
                best_effort(TrainingEvent::Finished { id: 4 }),
            ],
            next: Task::Stop
        }
    );
    assert_eq!(s.state(), SocketState::Closed);
}

#[test]
fn events_of_other_runs_are_not_forwarded() {
    let mut s = socket(SocketState::Live { id: 4, seq: 7 });
    for event in [
        ManagerEvent::Train { id: 5, event: batch(1) },
        ManagerEvent::PhaseChanged { id: 5, phase: Phase::Paused },
        ManagerEvent::Ended { id: 5, outcome: stopped() },
        ManagerEvent::Reset { id: 5 },
    ] {
        assert_eq!(s.on_feed(Feed::Event(event)), quiet(Task::Listen));
        assert_eq!(s.state(), SocketState::Live { id: 4, seq: 7 });
    }
    assert_eq!(s.on_feed(Feed::Lagged), quiet(Task::Listen));
    assert_eq!(s.state(), SocketState::Live { id: 4, seq: 7 });
    assert_eq!(s.on_feed(Feed::Closed), quiet(Task::Stop));
    assert_eq!(s.state(), SocketState::Closed);
}

#[test]
fn commands_are_relayed_unchanged() {
    let mut s = socket(SocketState::Live { id: 4, seq: 0 });
    // The run id comes from the message, not from the socket.
    let cmd = TrainingCommand::SetSpeed { id: 9, batches_per_sec: 5.0f64.to_bits() };
    assert_eq!(
        s.on_frame(ClientFrame::Text(Ok(cmd.clone()))),
        quiet(Task::Command { cmd })
    );
    assert_eq!(s.on_commanded(Ok(())), quiet(Task::Listen));
    assert_eq!(
        s.on_commanded(Err("no active run".to_string())),
        complaint("no active run", Task::Listen)
    );
    assert_eq!(s.state(), SocketState::Live { id: 4, seq: 0 });
}

#[test]
fn a_socket_is_about_one_run() {
    let mut s = socket(SocketState::Live { id: 4, seq: 0 });
    let start = TrainingCommand::Start { config: TrainingConfig::default(), speed: 0 };
    assert_eq!(
        s.on_frame(ClientFrame::Text(Ok(start))),
        complaint("already started", Task::Listen)
    );
    assert_eq!(
        s.on_frame(ClientFrame::Text(Ok(TrainingCommand::Attach { id: 9 }))),
        complaint("already attached", Task::Listen)
    );
    assert_eq!(
        s.on_frame(ClientFrame::Text(Err("bad".to_string()))),
        complaint("invalid message: bad", Task::Listen)
    );
    assert_eq!(s.on_frame(ClientFrame::Other), quiet(Task::Listen));
    assert_eq!(s.state(), SocketState::Live { id: 4, seq: 0 });
    assert_eq!(s.on_frame(ClientFrame::Close), quiet(Task::Stop));
    assert_eq!(s.state(), SocketState::Closed);
}
