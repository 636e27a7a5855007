//! Manager, socket and client together.

use faf_ml_training::clock::Timestamp;
use faf_ml_training::dataset::SnapshotProbe;
use faf_ml_training::manager::{Action, ManagerEvent, TrainManager};
use faf_ml_training::protocol::{TrainingCommand, TrainingConfig, TrainingEvent, TrainingStatus};
use faf_ml_training::runs::{RunState, ServerFrame};
use faf_ml_training::server::{
    metrics_point, ClientFrame, Feed, Step, Task, TrainingSocket,
};
use faf_ml_training::train::{ThreadMsg, TrainEvent, TrainExit, TrainParams};

fn batch(number: usize) -> TrainEvent {
    TrainEvent::Batch {
        epoch: 1,
        batch: number,
        total_batches: 9,
        cls_loss: 1.0f32.to_bits(),
        bbox_loss: 1.0f32.to_bits(),
        total_loss: 2.0f32.to_bits(),
    }
}

fn started() -> TrainManager {
    let mut manager = TrainManager::new();
    let params = TrainParams {
        config: TrainingConfig { dataset: "test".to_string(), ..Default::default() },
        ..Default::default()
    };
    let now = Timestamp { secs: 1, nanos: 2 };
    manager.start_as(params, 0, &SnapshotProbe::Entries(2), 7, now).unwrap();
    let _ = manager.take_actions();
    manager
}

fn broadcasts(manager: &mut TrainManager) -> Vec<ManagerEvent> {
    manager
        .take_actions()
        .into_iter()
        .filter_map(|action| match action {
            Action::Broadcast(event) => Some(event),
            _ => None,
        })
        .collect()
}

/// A client that reads what the socket sends.
fn read(state: &mut RunState, step: Step) -> (bool, Task) {
    let mut more = true;
    for sent in step.sends {
        more = state.on_frame(7, ServerFrame::Text(Ok(sent.event)));
    }
    (more, step.next)
}

#[test]
fn a_viewer_misses_nothing() {
    let mut manager = started();
    for number in 1..=3 {
        manager.handle_thread_msg(7, ThreadMsg::Event(batch(number)));
    }
    let _ = manager.take_actions();

    let mut socket = TrainingSocket::new("/store".to_string(), "/store/runs".to_string());
    let mut client = RunState::default();
    let attach = ClientFrame::Text(Ok(TrainingCommand::Attach { id: 7 }));
    assert_eq!(socket.on_frame(attach).next, Task::Attach { id: 7 });
    let (more, next) = read(&mut client, socket.on_attached(manager.attach(7)));
    assert!(more);
    assert_eq!(next, Task::Listen);
    assert_eq!(client.status, Some(TrainingStatus::Running));
    assert_eq!(client.points, 3);
    assert_eq!(client.latest, metrics_point(3, &batch(3)));

    for number in 4..=5 {
        manager.handle_thread_msg(7, ThreadMsg::Event(batch(number)));
    }
    for event in broadcasts(&mut manager) {
        let (more, _) = read(&mut client, socket.on_feed(Feed::Event(event)));
        assert!(more);
    }
    assert_eq!(client.points, 5);
    assert_eq!(client.latest, metrics_point(5, &batch(5)));
    // A later viewer gets the same points.
    assert_eq!(
        manager.attach(7).unwrap().replay,
        (1..=5).map(batch).collect::<Vec<_>>()
    );

    let exit = TrainExit::Completed { run_dir: "runs/1".to_string(), duration_secs: 8 };
    manager.handle_thread_msg(7, ThreadMsg::Exited(Ok(exit)));
    let mut last = Task::Listen;
    let mut reading = true;
    for event in broadcasts(&mut manager) {
        (reading, last) = read(&mut client, socket.on_feed(Feed::Event(event)));
    }
    assert!(!reading);
    assert_eq!(last, Task::Stop);
    assert_eq!(
        client.status,
        Some(TrainingStatus::Done { run_dir: "runs/1".to_string(), duration_secs: 8 })
    );
}

#[test]
fn a_reset_clears_its_viewers() {
    let mut manager = started();
    manager.handle_thread_msg(7, ThreadMsg::Event(batch(1)));
    let _ = manager.take_actions();
    let mut socket = TrainingSocket::new("/store".to_string(), "/store/runs".to_string());
    let mut client = RunState::default();
    let _ = socket.on_frame(ClientFrame::Text(Ok(TrainingCommand::Attach { id: 7 })));
    let _ = read(&mut client, socket.on_attached(manager.attach(7)));
    assert_eq!(client.points, 1);

    // The viewer itself asks for the reset.
    let reset = TrainingCommand::Reset { id: 7 };
    let step = socket.on_frame(ClientFrame::Text(Ok(reset.clone())));
    assert_eq!(step.next, Task::Command { cmd: reset.clone() });
    let step = socket.on_commanded(manager.command(reset));
    assert_eq!(step.next, Task::Listen);
    for event in broadcasts(&mut manager) {
        let _ = read(&mut client, socket.on_feed(Feed::Event(event)));
    }
    assert_eq!((client.points, client.latest), (0, None));
    assert_eq!(client.detail, "run cleared — record wiped, charts cleared");
}

#[test]
fn resuming_gives_back_the_run() {
    for confirmed in [false, true] {
        let mut manager = started();
        let before = manager.snapshot(Some(7)).unwrap();
        manager.command(TrainingCommand::Pause { id: 7 }).unwrap();
        assert_ne!(manager.snapshot(Some(7)).unwrap(), before);
        if confirmed {
            manager.handle_thread_msg(7, ThreadMsg::Event(TrainEvent::Paused));
        }
        manager.command(TrainingCommand::Resume { id: 7 }).unwrap();
        assert_eq!(manager.snapshot(Some(7)).unwrap(), before);
    }
}

#[test]
fn a_refused_command_reaches_the_client() {
    let mut manager = started();
    let mut socket = TrainingSocket::new("/store".to_string(), "/store/runs".to_string());
    let _ = socket.on_frame(ClientFrame::Text(Ok(TrainingCommand::Attach { id: 7 })));
    let _ = socket.on_attached(manager.attach(7));
    let step = socket.on_commanded(manager.command(TrainingCommand::Stop { id: 8 }));
    let message = "unknown training run 00000000-0000-0000-0000-000000000008".to_string();
    assert_eq!(step.sends[0].event, TrainingEvent::Error { message: message.clone() });
    let mut client = RunState::default();
    let _ = read(&mut client, step);
    assert_eq!(client.detail, format!("error: {message}"));
}
