//! Browser side of `/ws/training`: one page's connection to one run.

use vstd::prelude::*;
use vstd::string::*;

use crate::ids::RunId;
use crate::protocol::{TrainingCommand, TrainingConfig, TrainingEvent};

verus! {

/// Run id carried by a run-scoped event (`None` for `Error`).
pub fn event_run_id(event: &TrainingEvent) -> (r: Option<RunId>)
    ensures
        r == event.subject(),
{
    match event {
        TrainingEvent::Started { id } | TrainingEvent::Metrics { id, .. }
        | TrainingEvent::Status { id, .. } | TrainingEvent::Cleared { id }
        | TrainingEvent::Finished { id } => Some(*id),
        TrainingEvent::Error { .. } => None,
    }
}

/// How the socket itself comes to an end.
#[derive(Debug, Clone, Copy, PartialEq, Eq, Structural)]
pub enum SocketSignal {
    Errored,
    Closed,
}

/// What the page is told.
#[derive(Debug, PartialEq)]
pub enum Notice {
    /// Nothing.
    Silent,
    /// The state of the connection or of the run.
    Status(String),
    /// An event of the run (`Metrics`/`Status`/`Cleared`).
    Message(TrainingEvent),
}

impl Notice {
    /// The page is told `text` as a state.
    pub open spec fn states(self, text: Seq<char>) -> bool {
        self is Status && self->Status_0@ == text
    }
}

/// Connection to the training server.
#[derive(Debug, Clone, Copy, PartialEq, Eq, Structural)]
pub struct TrainingConnection {
    /// Server-assigned run id (set by `Started`, or known up front when
    /// attaching). Scopes every command sent on this socket.
    pub run_id: Option<RunId>,
}

impl TrainingConnection {
    /// A new connection that asks for a run with `first`.
    pub open spec fn starts(
        self,
        config: TrainingConfig,
        speed: u64,
        first: TrainingCommand,
    ) -> bool {
        self.run_id is None && first == (TrainingCommand::Start { config, speed })
    }

    /// A new connection that attaches to run `id` with `first`.
    pub open spec fn attaches(self, id: RunId, first: TrainingCommand) -> bool {
        self.run_id == Some(id) && first == (TrainingCommand::Attach { id })
    }

    /// When the socket opens, `sent` goes out and the page is told `notice`.
    pub open spec fn opens(
        self,
        first: TrainingCommand,
        sent: TrainingCommand,
        notice: Notice,
    ) -> bool {
        sent == first && notice.states("connected"@)
    }

    /// `r` is what the page is told about a socket signal.
    pub open spec fn shows_signal(self, signal: SocketSignal, r: Notice) -> bool {
        r.states(
            match signal {
                SocketSignal::Errored => "error"@,
                SocketSignal::Closed => "finished"@,
            },
        )
    }

    /// `r` is the command to send that `build` makes for the run of this
    /// connection; there is none before the run is known.
    pub open spec fn addresses<F: FnOnce(RunId) -> TrainingCommand>(
        self,
        build: F,
        r: Option<TrainingCommand>,
    ) -> bool {
        match self.run_id {
            Some(id) => r is Some && build.ensures((id,), r->0),
            None => r is None,
        }
    }

    /// A connection that starts a new run, with the first command to send; the
    /// run id is stored once the server replies `Started`.
    pub fn open(config: TrainingConfig, speed: u64) -> (r: (TrainingConnection, TrainingCommand))
        ensures
            r.0.starts(config, speed, r.1),
    {
        (TrainingConnection { run_id: None }, TrainingCommand::Start { config, speed })
    }

    /// A connection that attaches to run `id` (replay + live stream; starts
    /// nothing), with the first command to send.
    pub fn open_attach(id: RunId) -> (r: (TrainingConnection, TrainingCommand))
        ensures
            r.0.attaches(id, r.1),
    {
        (TrainingConnection { run_id: Some(id) }, TrainingCommand::Attach { id })
    }

    /// The socket has opened: the command to send first, and what the page is
    /// told once it is sent.
    pub fn on_open(&self, first: TrainingCommand) -> (r: (TrainingCommand, Notice))
        ensures
            self.opens(first, r.0, r.1),
    {
        (first, Notice::Status("connected".to_string()))
    }

    /// The state that a socket signal is shown as.
    pub fn on_signal(&self, signal: SocketSignal) -> (r: Notice)
        ensures
            self.shows_signal(signal, r),
    {
        let text = match signal {
            SocketSignal::Errored => "error",
            SocketSignal::Closed => "finished",
        };
        Notice::Status(text.to_string())
    }

    /// The connection after a text frame: `Started` sets the run id.
    pub open spec fn after_message(self, frame: Result<TrainingEvent, String>) -> TrainingConnection {
        match frame {
            Ok(TrainingEvent::Started { id }) => TrainingConnection { run_id: Some(id) },
            _ => self,
        }
    }

    /// `r` is what the page is told about a text frame. Events of any run but
    /// this connection's are dropped.
    pub open spec fn tells(self, frame: Result<TrainingEvent, String>, r: Notice) -> bool {
        match frame {
            Ok(TrainingEvent::Started { .. }) => r is Silent,
            Ok(TrainingEvent::Error { message }) => r.states("error: "@ + message@),
            Ok(event) => if self.run_id is None || event.subject() != self.run_id {
                r is Silent
            } else if event is Finished {
                r.states("finished"@)
            } else {
                r == Notice::Message(event)
            },
            Err(error) => r.states("parse error: "@ + error@),
        }
    }

    /// A text frame from the server: the event in it, or why it holds none.
    pub fn on_message(&mut self, frame: Result<TrainingEvent, String>) -> (r: Notice)
        ensures
            *final(self) == old(self).after_message(frame),
            old(self).tells(frame, r),
    {
        match frame {
            Ok(TrainingEvent::Started { id }) => {
                self.run_id = Some(id);
                Notice::Silent
            },
            Ok(TrainingEvent::Error { message }) => Notice::Status(
                "error: ".to_string().concat(message.as_str()),
            ),
            Ok(event) => {
                // Defensive id filter (the server filters too).
                let matches_run = match (event_run_id(&event), self.run_id) {
                    (Some(id), Some(run_id)) => id == run_id,
                    _ => false,
                };
                if matches_run {
                    match event {
                        TrainingEvent::Finished { .. } => Notice::Status("finished".to_string()),
                        event => Notice::Message(event),
                    }
                } else {
                    Notice::Silent
                }
            },
            Err(error) => Notice::Status("parse error: ".to_string().concat(error.as_str())),
        }
    }

    /// A run-scoped command to send; `build` gets the stored run id. Nothing
    /// until the server has assigned the id.
    pub fn send_command(&self, build: impl FnOnce(RunId) -> TrainingCommand) -> (r: Option<
        TrainingCommand,
    >)
        requires
            self.run_id is Some ==> build.requires((self.run_id->0,)),
        ensures
            self.addresses(build, r),
    {
        match self.run_id {
            Some(id) => Some(build(id)),
            None => None,
        }
    }
}

} // verus!
