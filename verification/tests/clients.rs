use faf_ml_training::connection::{event_run_id, Notice, SocketSignal, TrainingConnection};
use faf_ml_training::protocol::{
    Loss, TrainingCommand, TrainingConfig, TrainingEvent, TrainingMetricsPoint, TrainingStatus,
};
use faf_ml_training::runs::{
    forwarded, handle_id, handshake, invalid_handle, parse_handle, ws_url, Handshake, RunState, RunsError,
    ServerFrame, StartStep, TrainingRuns,
};

const ID: u128 = 0x67e5_5044_10b1_426f_9247_bb68_0e5f_e0c8;
const ID_TEXT: &str = "67e55044-10b1-426f-9247-bb680e5fe0c8";

fn point(seq: u64) -> TrainingMetricsPoint {
    let loss = Loss::Double(0.5f64.to_bits());
    TrainingMetricsPoint {
        seq,
        epoch: 1,
        batch: 3,
        total_batches: 100,
        train_loss: loss,
        cls_loss: loss,
        bbox_loss: loss,
        valid_loss: None,
        map: Some(Loss::Double(0.42f64.to_bits())),
    }
}

fn frame(event: TrainingEvent) -> ServerFrame {
    ServerFrame::Text(Ok(event))
}

fn ack(id: u128) -> ServerFrame {
    frame(TrainingEvent::Started { id })
}

fn error(message: &str) -> TrainingEvent {
    TrainingEvent::Error { message: message.to_string() }
}

fn says(message: &str) -> RunsError {
    RunsError { message: message.to_string(), cause: None }
}

fn scoped_events(id: u128) -> Vec<TrainingEvent> {
    vec![
        TrainingEvent::Metrics { id, point: point(1) },
        TrainingEvent::Status { id, status: TrainingStatus::Paused },
        TrainingEvent::Cleared { id },
        TrainingEvent::Finished { id },
    ]
}

#[test]
fn socket_addresses() {
    assert_eq!(ws_url("http://localhost:80"), "ws://localhost:80/ws/training");
    assert_eq!(ws_url("https://host/http"), "wss://host/http/ws/training");
    assert_eq!(ws_url("host-http-http"), "host-ws-http/ws/training");
    assert_eq!(ws_url("ws://host"), "ws://host/ws/training");
    assert_eq!(ws_url(""), "/ws/training");
}

#[test]
fn handshake_waits_for_the_ack() {
    assert_eq!(handshake(frame(TrainingEvent::Started { id: 4 })), Handshake::Started(4));
    for event in scoped_events(4) {
        assert_eq!(handshake(frame(event)), Handshake::Wait);
    }
    assert_eq!(handshake(ServerFrame::Other), Handshake::Wait);
}

#[test]
fn handshake_failures() {
    let refused = |frame| match handshake(frame) {
        Handshake::Refused(message) => message,
        other => panic!("expected a refusal, got {other:?}"),
    };
    assert_eq!(refused(frame(error("busy"))), "server rejected the run: busy");
    assert_eq!(
        refused(ServerFrame::Text(Err("EOF".to_string()))),
        "invalid server frame: EOF"
    );
    assert_eq!(
        refused(ServerFrame::Close),
        "server closed the socket before confirming the run"
    );
    assert_eq!(refused(ServerFrame::Failed("reset".to_string())), "socket error: reset");
}

#[test]
fn run_state_follows_its_run() {
    let mut state = RunState::default();
    assert_eq!(
        state,
        RunState { status: None, detail: String::new(), points: 0, latest: None }
    );
    for seq in 1..=2 {
        assert!(state.on_frame(4, frame(TrainingEvent::Metrics { id: 4, point: point(seq) })));
    }
    let status = TrainingStatus::Failed { error: "boom".to_string() };
    assert!(state.on_frame(4, frame(TrainingEvent::Status { id: 4, status: status.clone() })));
    assert_eq!(
        state,
        RunState {
            status: Some(status.clone()),
            detail: String::new(),
            points: 2,
            latest: Some(point(2)),
        }
    );
    let copy = state.clone();
    assert!(state.on_frame(4, frame(TrainingEvent::Cleared { id: 4 })));
    assert_eq!(
        state,
        RunState {
            status: Some(status),
            detail: "run cleared — record wiped, charts cleared".to_string(),
            points: 0,
            latest: None,
        }
    );
    assert_eq!((copy.points, copy.latest), (2, Some(point(2))));
}

#[test]
fn run_state_notes_errors() {
    let mut state = RunState::default();
    assert!(state.on_frame(4, frame(error("no active run"))));
    assert_eq!(state.detail, "error: no active run");
    assert!(state.on_frame(4, ServerFrame::Text(Err("EOF".to_string()))));
    assert_eq!(state.detail, "parse error: EOF");
    assert!(!state.on_frame(4, ServerFrame::Failed("reset".to_string())));
    assert_eq!(state.detail, "socket error: reset");
}

#[test]
fn reading_stops_at_the_end() {
    let mut state = RunState::default();
    assert!(state.on_frame(4, ServerFrame::Other));
    assert!(state.on_frame(4, frame(TrainingEvent::Started { id: 4 })));
    assert!(!state.on_frame(4, ServerFrame::Close));
    assert!(!state.on_frame(4, frame(TrainingEvent::Finished { id: 4 })));
    assert_eq!(state, RunState::default());
}

#[test]
fn run_state_ignores_other_runs() {
    let mut state = RunState::default();
    for event in scoped_events(5) {
        assert!(state.on_frame(4, frame(event)));
        assert_eq!(state, RunState::default());
    }
}

#[test]
fn handles_are_run_ids() {
    assert_eq!(parse_handle(ID_TEXT), Ok(ID));
    assert_eq!(parse_handle("67E5504410B1426F9247BB680E5FE0C8"), Ok(ID));
    assert_eq!(parse_handle("00000000-0000-0000-0000-000000000000"), Ok(0));
    let bad = parse_handle("not \"a\" run").unwrap_err();
    assert_eq!(bad.message, "invalid run handle \"not \\\"a\\\" run\"");
    assert_eq!(
        bad.cause,
        Some(uuid::Uuid::parse_str("not \"a\" run").unwrap_err().to_string())
    );
    assert_eq!(
        handle_id("h", Err("because".to_string())),
        Err(RunsError {
            message: "invalid run handle \"h\"".to_string(),
            cause: Some("because".to_string())
        })
    );
    assert_eq!(handle_id("h", Ok(3)), Ok(3));
    assert_eq!(
        invalid_handle("<h>", "because".to_string()),
        RunsError {
            message: "invalid run handle <h>".to_string(),
            cause: Some("because".to_string())
        }
    );
}

#[test]
fn an_empty_registry_has_no_latest_run() {
    let runs: TrainingRuns<&str> = TrainingRuns::new();
    let none = says("no training runs yet in this MCP server session");
    assert_eq!(runs.resolve(None), Err(none));
    assert_eq!(
        runs.status(None),
        Err(says("no training runs yet in this MCP server session"))
    );
    assert_eq!(
        runs.status(Some(ID_TEXT)),
        Err(says("unknown training run 67e55044-10b1-426f-9247-bb680e5fe0c8"))
    );
}

#[test]
fn an_omitted_handle_is_the_run_started_last() {
    let mut runs: TrainingRuns<&str> = TrainingRuns::new();
    assert_eq!(runs.start(ack(ID), "first"), StartStep::Started(ID));
    assert_eq!(runs.start(ack(5), "second"), StartStep::Started(5));
    assert_eq!(runs.resolve(None), Ok(5));
    assert_eq!(runs.status(None), Ok(&"second"));
    assert_eq!(runs.status(Some(ID_TEXT)), Ok(&"first"));
    assert_eq!(runs.lookup(5), Ok(&"second"));
    assert_eq!(
        runs.lookup(6),
        Err(says("unknown training run 00000000-0000-0000-0000-000000000006"))
    );
    assert!(runs.status(Some("x")).unwrap_err().cause.is_some());
}

#[test]
fn only_a_confirmed_start_is_registered() {
    let mut runs: TrainingRuns<&str> = TrainingRuns::new();
    assert_eq!(runs.start(ack(5), "first"), StartStep::Started(5));
    // Frames that do not answer give the handle back.
    assert_eq!(runs.start(ServerFrame::Other, "second"), StartStep::Wait("second"));
    for event in scoped_events(6) {
        assert_eq!(runs.start(frame(event), "second"), StartStep::Wait("second"));
    }
    for (answer, why) in [
        (frame(error("busy")), "server rejected the run: busy"),
        (ServerFrame::Text(Err("EOF".to_string())), "invalid server frame: EOF"),
        (ServerFrame::Close, "server closed the socket before confirming the run"),
        (ServerFrame::Failed("reset".to_string()), "socket error: reset"),
    ] {
        assert_eq!(runs.start(answer, "second"), StartStep::Refused(says(why)));
    }
    assert_eq!(runs.status(None), Ok(&"first"));
    assert!(runs.lookup(6).is_err());
    assert_eq!(runs.start(ack(6), "second"), StartStep::Started(6));
    assert_eq!(runs.status(None), Ok(&"second"));
    assert_eq!(runs.lookup(5), Ok(&"first"));
}

#[test]
fn commands_must_match_their_handle() {
    let mut runs: TrainingRuns<&str> = TrainingRuns::new();
    assert_eq!(runs.start(ack(ID), "first"), StartStep::Started(ID));
    let stop = TrainingCommand::Stop { id: ID };
    assert_eq!(runs.command(ID_TEXT, &stop), Ok(&"first"));
    assert_eq!(
        runs.command(ID_TEXT, &TrainingCommand::Stop { id: 5 }),
        Err(says(
            "command run id does not match handle 67e55044-10b1-426f-9247-bb680e5fe0c8"
        ))
    );
    let start = TrainingCommand::Start { config: TrainingConfig::default(), speed: 0 };
    assert!(runs.command(ID_TEXT, &start).is_err());
    let other = "00000000-0000-0000-0000-000000000005";
    assert_eq!(
        runs.command(other, &TrainingCommand::Stop { id: 5 }),
        Err(says("unknown training run 00000000-0000-0000-0000-000000000005"))
    );
    let bad = runs.command("?", &stop).unwrap_err();
    assert_eq!(bad.message, "invalid run handle \"?\"");
    assert!(bad.cause.is_some());
    assert_eq!(runs.route("?", Err(says("why")), &stop), Err(says("why")));
    assert_eq!(runs.route("?", Ok(ID), &stop), Ok(&"first"));
}

#[test]
fn a_closed_socket_takes_no_commands() {
    assert_eq!(forwarded(ID, true), Ok(()));
    assert_eq!(
        forwarded(ID, false),
        Err(says(
            "training run 67e55044-10b1-426f-9247-bb680e5fe0c8 is no longer connected"
        ))
    );
}

#[test]
fn run_ids_of_events() {
    for event in scoped_events(4) {
        assert_eq!(event_run_id(&event), Some(4));
    }
    assert_eq!(event_run_id(&TrainingEvent::Started { id: 4 }), Some(4));
    assert_eq!(event_run_id(&error("x")), None);
}

#[test]
fn page_connections_open_with_a_command() {
    let config = TrainingConfig { dataset: "test".to_string(), ..Default::default() };
    let (connection, first) = TrainingConnection::open(config.clone(), 1.5f64.to_bits());
    assert_eq!(connection.run_id, None);
    assert_eq!(first, TrainingCommand::Start { config, speed: 1.5f64.to_bits() });
    let (connection, first) = TrainingConnection::open_attach(4);
    assert_eq!(connection.run_id, Some(4));
    assert_eq!(first, TrainingCommand::Attach { id: 4 });
}

#[test]
fn page_commands_wait_for_the_run_id() {
    let (mut connection, _) = TrainingConnection::open(TrainingConfig::default(), 0);
    assert_eq!(connection.send_command(|id| TrainingCommand::Pause { id }), None);
    assert_eq!(connection.on_message(Ok(TrainingEvent::Started { id: 4 })), Notice::Silent);
    assert_eq!(
        connection.send_command(|id| TrainingCommand::Pause { id }),
        Some(TrainingCommand::Pause { id: 4 })
    );
}

#[test]
fn page_is_told_of_its_run() {
    let (mut connection, _) = TrainingConnection::open_attach(4);
    let events = scoped_events(4);
    for event in &events[..3] {
        assert_eq!(connection.on_message(Ok(event.clone())), Notice::Message(event.clone()));
    }
    assert_eq!(
        connection.on_message(Ok(events[3].clone())),
        Notice::Status("finished".to_string())
    );
    for event in scoped_events(5) {
        assert_eq!(connection.on_message(Ok(event)), Notice::Silent);
    }
    let (mut fresh, _) = TrainingConnection::open(TrainingConfig::default(), 0);
    for event in scoped_events(4) {
        assert_eq!(fresh.on_message(Ok(event)), Notice::Silent);
    }
    assert_eq!(connection.run_id, Some(4));
}

#[test]
fn page_is_told_of_errors_and_signals() {
    let (mut connection, _) = TrainingConnection::open_attach(4);
    let status = |text: &str| Notice::Status(text.to_string());
    assert_eq!(connection.on_message(Ok(error("busy"))), status("error: busy"));
    assert_eq!(connection.on_message(Err("EOF".to_string())), status("parse error: EOF"));
    let first = TrainingCommand::Attach { id: 4 };
    assert_eq!(connection.on_open(first.clone()), (first, status("connected")));
    assert_eq!(connection.on_signal(SocketSignal::Errored), status("error"));
    assert_eq!(connection.on_signal(SocketSignal::Closed), status("finished"));
}
