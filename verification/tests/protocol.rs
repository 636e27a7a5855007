use faf_ml_training::clock::Timestamp;
use faf_ml_training::connection::{Notice, TrainingConnection};
use faf_ml_training::dataset::{
    check_name, check_probe, invalid_name, missing_snapshot, snapshot_file, tiny_snapshot,
    validate_dataset, SnapshotProbe, MIN_SAMPLES,
};
use faf_ml_training::manager::{AttachDump, Phase, RunStatus};
use faf_ml_training::protocol::{
    default_batch_size, default_epochs, default_lr, default_valid_fraction, Loss, TrainingCommand,
    TrainingConfig, TrainingEvent, TrainingMetricsPoint, TrainingStatus,
};
use faf_ml_training::server::{ClientFrame, Task, TrainingSocket};
use faf_ml_training::text::{
    is_ascii_alphanumeric, is_white_space, replace_first, strip_prefix, trim,
};
use faf_ml_training::train::TrainParams;

/// What a config that leaves everything out is filled with.
#[test]
fn config_defaults_fill_missing_fields() {
    let config = TrainingConfig::default();
    assert_eq!(config.dataset, "");
    assert_eq!(config.epochs, 50);
    assert_eq!(config.batch_size, 4);
    assert_eq!(f64::from_bits(config.lr), 1e-3);
    assert_eq!(f32::from_bits(config.valid_fraction), 0.1);
    assert_eq!(config.max_batches, None);
    assert!(!config.cpu);
    assert_eq!(default_epochs(), 50);
    assert_eq!(default_batch_size(), 4);
    assert_eq!(default_lr(), 1e-3f64.to_bits());
    assert_eq!(default_valid_fraction(), 0.1f32.to_bits());
    let params = TrainParams::default();
    assert_eq!(params.config, config);
    assert_eq!((params.data.as_str(), params.out.as_str()), ("", ""));
}

/// The messages of both directions come out of the library as they went in; the
/// JSON text of a frame is its driver's.
#[test]
fn protocol_round_trips() {
    let id = uuid::Uuid::nil().as_u128();
    let (mut page, _) = TrainingConnection::open_attach(id);
    let mut socket = TrainingSocket::new("/store".to_string(), "/store/runs".to_string());

    let double = |value: f64| Loss::Double(value.to_bits());
    let msg = TrainingEvent::Metrics {
        id,
        point: TrainingMetricsPoint {
            seq: 7,
            epoch: 1,
            batch: 3,
            total_batches: 100,
            train_loss: double(0.5),
            cls_loss: double(0.3),
            bbox_loss: double(0.2),
            valid_loss: None,
            map: Some(double(0.42)),
        },
    };
    assert_eq!(page.on_message(Ok(msg.clone())), Notice::Message(msg));

    let status = TrainingEvent::Status {
        id,
        status: TrainingStatus::Stopped {
            run_dir: "runs/20260922-120000".to_string(),
            duration_secs: 42,
        },
    };
    assert_eq!(page.on_message(Ok(status.clone())), Notice::Message(status));

    let cleared = TrainingEvent::Cleared { id };
    assert_eq!(page.on_message(Ok(cleared.clone())), Notice::Message(cleared));

    let (mut fresh, start) = TrainingConnection::open(TrainingConfig::default(), 0.0f64.to_bits());
    assert_eq!(fresh.on_message(Ok(TrainingEvent::Started { id })), Notice::Silent);
    assert_eq!(fresh.run_id, Some(id));

    assert_eq!(start.run_id(), None);
    match socket.on_frame(ClientFrame::Text(Ok(start))).next {
        Task::Start { params, speed } => {
            assert_eq!(params.config, TrainingConfig::default());
            assert_eq!(f64::from_bits(speed), 0.0);
        }
        other => panic!("expected a start, got {other:?}"),
    }
    let _ = socket.on_started(Ok(id));
    let dump = AttachDump {
        id,
        status: RunStatus::Active {
            phase: Phase::Running,
            config: TrainParams::default(),
            started_at: Timestamp { secs: 0, nanos: 0 },
        },
        replay: vec![],
    };
    let _ = socket.on_attached(Ok(dump));

    let cmd = TrainingCommand::SetSpeed { id, batches_per_sec: 5.0f64.to_bits() };
    assert_eq!(cmd.run_id(), Some(id));
    assert_eq!(
        socket.on_frame(ClientFrame::Text(Ok(cmd.clone()))).next,
        Task::Command { cmd }
    );
    let cmd = TrainingCommand::Reset { id };
    assert_eq!(
        socket.on_frame(ClientFrame::Text(Ok(cmd.clone()))).next,
        Task::Command { cmd }
    );
}

#[test]
fn command_run_ids() {
    let id = 9;
    let start = TrainingCommand::Start { config: TrainingConfig::default(), speed: 0 };
    assert_eq!(start.run_id(), None);
    for cmd in [
        TrainingCommand::Attach { id },
        TrainingCommand::Pause { id },
        TrainingCommand::Resume { id },
        TrainingCommand::Stop { id },
        TrainingCommand::Reset { id },
        TrainingCommand::SetSpeed { id, batches_per_sec: 5.0f64.to_bits() },
    ] {
        assert_eq!(cmd.run_id(), Some(9));
    }
}

#[test]
fn terminal_statuses() {
    let run_dir = "runs/1".to_string();
    assert!(TrainingStatus::Done { run_dir: run_dir.clone(), duration_secs: 1 }.is_terminal());
    assert!(TrainingStatus::Stopped { run_dir, duration_secs: 1 }.is_terminal());
    assert!(TrainingStatus::Failed { error: String::new() }.is_terminal());
    for status in [
        TrainingStatus::Running,
        TrainingStatus::Pausing,
        TrainingStatus::Paused,
        TrainingStatus::Stopping,
    ] {
        assert!(!status.is_terminal());
        assert_eq!(status.clone(), status);
    }
}

#[test]
fn timestamps_are_ordered_by_second_then_fraction() {
    let early = Timestamp { secs: 1, nanos: 999 };
    let late = Timestamp { secs: 2, nanos: 0 };
    assert!(early.is_before(&late));
    assert!(!late.is_before(&early));
    assert!(late.is_before(&Timestamp { secs: 2, nanos: 1 }));
    assert!(!late.is_before(&late));
}

#[test]
fn white_space_is_unicode_white_space() {
    for code in 0..=0x10ffffu32 {
        if let Some(c) = char::from_u32(code) {
            assert_eq!(is_white_space(c), c.is_whitespace(), "{c:?}");
            assert_eq!(is_ascii_alphanumeric(c), c.is_ascii_alphanumeric(), "{c:?}");
        }
    }
}

#[test]
fn trim_takes_white_space_off_both_ends() {
    for text in ["", " ", "a", " a ", "\u{3000}a b\u{a0}\n", "\u{200b}x", "  ", "é \u{2028}"] {
        assert_eq!(trim(text), text.trim(), "{text:?}");
    }
}

#[test]
fn replace_first_replaces_once() {
    assert_eq!(replace_first("http://http", "http", "ws"), "ws://http");
    assert_eq!(replace_first("x-http", "http", "ws"), "x-ws");
    assert_eq!(replace_first("ftp://x", "http", "ws"), "ftp://x");
    assert_eq!(replace_first("aab", "ab", ""), "a");
    for text in ["", "h", "htthttp", "httphttp", "é http"] {
        assert_eq!(replace_first(text, "http", "ws"), text.replacen("http", "ws", 1));
    }
}

#[test]
fn strip_prefix_takes_a_whole_prefix() {
    assert_eq!(strip_prefix("https://x", "https"), Some("://x"));
    assert_eq!(strip_prefix("https", "https"), Some(""));
    assert_eq!(strip_prefix("http", "https"), None);
    assert_eq!(strip_prefix("xhttps", "https"), None);
}

#[test]
fn dataset_names() {
    assert_eq!(check_name("Az09-_."), Ok(()));
    assert_eq!(
        check_name(""),
        Err("no dataset snapshot selected — create one on the Datasets page first".to_string())
    );
    for name in ["a b", "a/b", "a\\b", "é", "tab\t", "quote\"", "\u{301}"] {
        assert_eq!(
            check_name(name),
            Err(format!("invalid dataset name {name:?}: only [A-Za-z0-9._-] allowed"))
        );
    }
}

#[test]
fn dataset_probes() {
    assert_eq!(MIN_SAMPLES, 2);
    assert_eq!(check_probe("x", &SnapshotProbe::Entries(2)), Ok(()));
    assert_eq!(check_probe("x", &SnapshotProbe::Entries(usize::MAX)), Ok(()));
    assert_eq!(
        check_probe("a\"b", &SnapshotProbe::Missing),
        Err("snapshot \"a\\\"b\" not found — create one on the Datasets page first".to_string())
    );
    assert_eq!(snapshot_file("x.y"), "x.y.json");
    let mut params = TrainParams::default();
    params.config.dataset = "\tset-1\n".to_string();
    assert_eq!(validate_dataset(&params, &SnapshotProbe::Entries(2)), Ok(()));
    // The name is looked at before the store.
    params.config.dataset = "a b".to_string();
    assert_eq!(
        validate_dataset(&params, &SnapshotProbe::Missing),
        Err("invalid dataset name \"a b\": only [A-Za-z0-9._-] allowed".to_string())
    );
}

#[test]
fn dataset_messages_take_the_quoted_name() {
    assert_eq!(invalid_name("<a b>"), "invalid dataset name <a b>: only [A-Za-z0-9._-] allowed");
    assert_eq!(
        missing_snapshot("<x>"),
        "snapshot <x> not found — create one on the Datasets page first"
    );
    assert_eq!(
        tiny_snapshot("<x>", true),
        "snapshot <x> has 0 sample(s) — need at least 2 to train"
    );
    assert_eq!(
        tiny_snapshot("<x>", false),
        "snapshot <x> has 1 sample(s) — need at least 2 to train"
    );
}
