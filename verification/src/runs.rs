//! Client side of `/ws/training` for callers that only want plain calls: a
//! registry of the runs started in this session, and the state of each as the
//! server reports it.
//!
//! Run handles are server-assigned run ids: `Start` is acknowledged with
//! `Started { id }`, and that id scopes every later command and event.

use std::collections::HashMap;

use vstd::prelude::*;
use vstd::string::*;

use crate::ids::{hyphenated, id_text, parse_id, uuid_parsed, RunId};
use crate::protocol::{TrainingCommand, TrainingEvent, TrainingMetricsPoint, TrainingStatus};
use crate::text::{is_first_replaced, quote, quoted, replace_first, strip_prefix};

verus! {

/// What the server's half of the socket brought.
#[derive(Debug, PartialEq)]
pub enum ServerFrame {
    /// A text frame: the event in it, or why it holds none.
    Text(Result<TrainingEvent, String>),
    /// The server closed the socket.
    Close,
    /// Any other frame.
    Other,
    /// The socket failed.
    Failed(String),
}

/// What a frame means to a client that waits for the ack of its start.
#[derive(Debug, PartialEq)]
pub enum Handshake {
    /// The server runs it under this id.
    Started(RunId),
    /// It does not, or it cannot be told.
    Refused(String),
    /// Keep waiting.
    Wait,
}

/// `url` is the address of the training socket for the API at `base`: the same
/// with `http` made `ws` (`https` made `wss`) where it first occurs, and the
/// socket's path.
pub open spec fn is_ws_url(url: Seq<char>, base: Seq<char>) -> bool {
    if "https"@.is_prefix_of(base) {
        url == "wss"@ + base.skip(5) + "/ws/training"@
    } else {
        exists|ws_base: Seq<char>| #[trigger]
            is_first_replaced(ws_base, base, "http"@, "ws"@) && url == ws_base + "/ws/training"@
    }
}

/// Address of the training socket for the API at `api_base`.
pub fn ws_url(api_base: &str) -> (url: String)
    ensures
        is_ws_url(url@, api_base@),
{
    proof {
        reveal_strlit("https");
    }
    let ws_base = match strip_prefix(api_base, "https") {
        Some(rest) => {
            assert(api_base@.skip(5) =~= rest@);
            "wss".to_string().concat(rest)
        },
        None => replace_first(api_base, "http", "ws"),
    };
    ws_base.concat("/ws/training")
}

/// The run id that a frame confirms a start with.
pub open spec fn confirmed_id(frame: ServerFrame) -> Option<RunId> {
    match frame {
        ServerFrame::Text(Ok(TrainingEvent::Started { id })) => Some(id),
        _ => None,
    }
}

/// Why a frame refuses a start: an error, a frame that cannot be read, or the
/// end of the socket.
pub open spec fn start_failure(frame: ServerFrame) -> Option<Seq<char>> {
    match frame {
        ServerFrame::Text(Ok(TrainingEvent::Error { message })) => Some(
            "server rejected the run: "@ + message@,
        ),
        ServerFrame::Text(Ok(_)) => None,
        ServerFrame::Text(Err(error)) => Some("invalid server frame: "@ + error@),
        ServerFrame::Close => Some("server closed the socket before confirming the run"@),
        ServerFrame::Other => None,
        ServerFrame::Failed(error) => Some("socket error: "@ + error@),
    }
}

/// What a frame means before the run is confirmed: the ack ends the wait, an
/// error or the end of the socket refuses the run, other frames are skipped.
pub fn handshake(frame: ServerFrame) -> (r: Handshake)
    ensures
        match r {
            Handshake::Started(id) => confirmed_id(frame) == Some(id),
            Handshake::Refused(why) => start_failure(frame) == Some(why@),
            Handshake::Wait => confirmed_id(frame) is None && start_failure(frame) is None,
        },
{
    match frame {
        ServerFrame::Text(Ok(TrainingEvent::Started { id })) => Handshake::Started(id),
        ServerFrame::Text(Ok(TrainingEvent::Error { message })) => Handshake::Refused(
            "server rejected the run: ".to_string().concat(message.as_str()),
        ),
        ServerFrame::Text(Ok(_)) => Handshake::Wait,
        ServerFrame::Text(Err(error)) => Handshake::Refused(
            "invalid server frame: ".to_string().concat(error.as_str()),
        ),
        ServerFrame::Close => Handshake::Refused(
            "server closed the socket before confirming the run".to_string(),
        ),
        ServerFrame::Other => Handshake::Wait,
        ServerFrame::Failed(error) => Handshake::Refused(
            "socket error: ".to_string().concat(error.as_str()),
        ),
    }
}

/// Live state of one training run, updated by the socket's reader.
#[derive(Debug, PartialEq)]
pub struct RunState {
    /// Last status reported by the server (`None` until the first arrives).
    pub status: Option<TrainingStatus>,
    /// Free-form note: protocol/socket errors, cleared-by-reset notices.
    pub detail: String,
    /// Metrics points received so far.
    pub points: usize,
    /// The most recent metrics point (progress + current losses).
    pub latest: Option<TrainingMetricsPoint>,
}

impl Default for RunState {
    fn default() -> (r: Self)
        ensures
            r.status is None,
            r.detail@ == Seq::<char>::empty(),
            r.points == 0,
            r.latest is None,
    {
        RunState { status: None, detail: String::new(), points: 0, latest: None }
    }
}

impl Clone for RunState {
    fn clone(&self) -> (r: Self)
        ensures
            r == *self,
    {
        let status = match &self.status {
            Some(status) => Some(status.clone()),
            None => None,
        };
        RunState { status, detail: self.detail.clone(), points: self.points, latest: self.latest }
    }
}

/// Model of a run's state, with its note as text.
#[verifier::ext_equal]
pub struct RunStateView {
    pub status: Option<TrainingStatus>,
    pub detail: Seq<char>,
    pub points: nat,
    pub latest: Option<TrainingMetricsPoint>,
}

impl View for RunState {
    type V = RunStateView;

    open spec fn view(&self) -> RunStateView {
        RunStateView {
            status: self.status,
            detail: self.detail@,
            points: self.points as nat,
            latest: self.latest,
        }
    }
}

impl RunStateView {
    pub open spec fn noting(self, detail: Seq<char>) -> RunStateView {
        RunStateView { detail, ..self }
    }

    /// The state of run `run_id` after a frame. Events of another run change
    /// nothing; an error is about no run in particular.
    pub open spec fn after_frame(self, run_id: RunId, frame: ServerFrame) -> RunStateView {
        match frame {
            ServerFrame::Text(Ok(TrainingEvent::Error { message })) => self.noting(
                "error: "@ + message@,
            ),
            ServerFrame::Text(Ok(event)) => if event.subject() != Some(run_id) {
                self
            } else {
                match event {
                    TrainingEvent::Metrics { point, .. } => RunStateView {
                        points: self.points + 1,
                        latest: Some(point),
                        ..self
                    },
                    TrainingEvent::Status { status, .. } => RunStateView {
                        status: Some(status),
                        ..self
                    },
                    TrainingEvent::Cleared { .. } => RunStateView {
                        points: 0,
                        latest: None,
                        ..self.noting("run cleared — record wiped, charts cleared"@)
                    },
                    _ => self,
                }
            },
            ServerFrame::Text(Err(error)) => self.noting("parse error: "@ + error@),
            ServerFrame::Failed(error) => self.noting("socket error: "@ + error@),
            ServerFrame::Close | ServerFrame::Other => self,
        }
    }
}

/// The reader of run `run_id` stops at this frame.
pub open spec fn ends_reading(run_id: RunId, frame: ServerFrame) -> bool {
    ||| frame is Close
    ||| frame is Failed
    ||| frame == ServerFrame::Text(Ok(TrainingEvent::Finished { id: run_id }))
}

/// The frame brings a metrics point of run `run_id`.
pub open spec fn brings_point(run_id: RunId, frame: ServerFrame) -> bool {
    frame matches ServerFrame::Text(Ok(TrainingEvent::Metrics { id, .. })) && id == run_id
}

impl RunState {
    /// A frame for the reader of run `run_id`; whether it reads on.
    pub fn on_frame(&mut self, run_id: RunId, frame: ServerFrame) -> (more: bool)
        requires
            brings_point(run_id, frame) ==> old(self).points < usize::MAX,
        ensures
            final(self)@ == old(self)@.after_frame(run_id, frame),
            more == !ends_reading(run_id, frame),
    {
        match frame {
            ServerFrame::Text(Ok(event)) => match event {
                TrainingEvent::Metrics { id, point } => {
                    if id == run_id {
                        self.points += 1;
                        self.latest = Some(point);
                    }
                    true
                },
                TrainingEvent::Status { id, status } => {
                    if id == run_id {
                        self.status = Some(status);
                    }
                    true
                },
                TrainingEvent::Cleared { id } => {
                    if id == run_id {
                        self.detail = "run cleared — record wiped, charts cleared".to_string();
                        self.points = 0;
                        self.latest = None;
                    }
                    true
                },
                TrainingEvent::Finished { id } => id != run_id,
                // Error is not run-scoped.
                TrainingEvent::Error { message } => {
                    self.detail = "error: ".to_string().concat(message.as_str());
                    true
                },
                // The ack was already consumed by the handshake.
                TrainingEvent::Started { .. } => true,
            },
            ServerFrame::Text(Err(error)) => {
                self.detail = "parse error: ".to_string().concat(error.as_str());
                true
            },
            ServerFrame::Close => false,
            ServerFrame::Other => true,
            ServerFrame::Failed(error) => {
                self.detail = "socket error: ".to_string().concat(error.as_str());
                false
            },
        }
    }
}

/// Why a call on the registry failed: what the caller is told, and the error
/// below it where there is one.
#[derive(Debug, PartialEq)]
pub struct RunsError {
    pub message: String,
    pub cause: Option<String>,
}

impl RunsError {
    /// The error says `text`, and nothing lies below it.
    pub open spec fn says(self, text: Seq<char>) -> bool {
        self.message@ == text && self.cause is None
    }
}

fn plain(message: String) -> (r: RunsError)
    ensures
        r.says(message@),
{
    RunsError { message, cause: None }
}

/// The error about a handle that is no run id: `shown` is its quoted form,
/// `cause` why it is none.
pub fn invalid_handle(shown: &str, cause: String) -> (r: RunsError)
    ensures
        r.message@ == "invalid run handle "@ + shown@,
        r.cause == Some(cause),
{
    RunsError {
        message: "invalid run handle ".to_string().concat(shown),
        cause: Some(cause),
    }
}

/// `r` is the id that a handle stands for, given what its text was parsed to.
pub open spec fn handle_stands_for(
    handle: Seq<char>,
    parsed: Result<RunId, String>,
    r: Result<RunId, RunsError>,
) -> bool {
    match parsed {
        Ok(id) => r is Ok && r->Ok_0 == id,
        Err(cause) => r is Err && r->Err_0.message@ == "invalid run handle "@ + quoted(handle)
            && r->Err_0.cause == Some(cause),
    }
}

/// The id that a handle stands for, given what its text was parsed to.
pub fn handle_id(handle: &str, parsed: Result<RunId, String>) -> (r: Result<RunId, RunsError>)
    ensures
        handle_stands_for(handle@, parsed, r),
{
    match parsed {
        Ok(id) => Ok(id),
        Err(cause) => Err(invalid_handle(quote(handle).as_str(), cause)),
    }
}

/// `r` is what reading a handle as a run id gives.
pub open spec fn reads_handle(handle: Seq<char>, r: Result<RunId, RunsError>) -> bool {
    match uuid_parsed(handle) {
        Ok(id) => r is Ok && r->Ok_0 == id,
        Err(cause) => r is Err && r->Err_0.message@ == "invalid run handle "@ + quoted(handle)
            && r->Err_0.cause is Some && r->Err_0.cause->0@ == cause,
    }
}

/// Reads a run handle. The text of an id is a handle of that id.
pub fn parse_handle(handle: &str) -> (r: Result<RunId, RunsError>)
    ensures
        reads_handle(handle@, r),
        forall|id: RunId| handle@ == #[trigger] hyphenated(id) ==> r is Ok && r->Ok_0 == id,
{
    handle_id(handle, parse_id(handle))
}

/// Where a start stands once a frame has come.
#[derive(Debug, PartialEq)]
pub enum StartStep<H> {
    /// The server runs it under this id.
    Started(RunId),
    /// It does not, or it cannot be told.
    Refused(RunsError),
    /// Not answered yet; the handle comes back.
    Wait(H),
}

impl<H> StartStep<H> {
    /// Where a start stands whose run is reached by `handle`, once `frame` has
    /// come.
    pub open spec fn answers(self, frame: ServerFrame, handle: H) -> bool {
        match self {
            StartStep::Started(id) => confirmed_id(frame) == Some(id),
            StartStep::Refused(error) => start_failure(frame) is Some && error.says(
                start_failure(frame)->0,
            ),
            StartStep::Wait(unused) => confirmed_id(frame) is None && start_failure(frame) is None
                && unused == handle,
        }
    }
}

/// Registry of the training runs started in this session (in memory only), each
/// with the handle `H` by which its socket is reached.
pub struct TrainingRuns<H> {
    runs: HashMap<RunId, H>,
    last_started: Option<RunId>,
}

/// Model of the registry.
#[verifier::ext_equal]
#[verifier::reject_recursive_types(H)]
pub struct TrainingRunsView<H> {
    pub runs: Map<RunId, H>,
    pub last_started: Option<RunId>,
}

impl<H> TrainingRunsView<H> {
    /// The registry after a frame for a start whose run is reached by `handle`.
    pub open spec fn after_reply(self, frame: ServerFrame, handle: H) -> TrainingRunsView<H> {
        match confirmed_id(frame) {
            Some(id) => TrainingRunsView {
                runs: self.runs.insert(id, handle),
                last_started: Some(id),
            },
            None => self,
        }
    }
}

impl<H> View for TrainingRuns<H> {
    type V = TrainingRunsView<H>;

    closed spec fn view(&self) -> TrainingRunsView<H> {
        TrainingRunsView { runs: self.runs@, last_started: self.last_started }
    }
}

impl<H> TrainingRuns<H> {
    /// A registry without runs.
    pub fn new() -> (r: TrainingRuns<H>)
        ensures
            r@.runs == Map::<RunId, H>::empty(),
            r@.last_started is None,
    {
        TrainingRuns { runs: HashMap::new(), last_started: None }
    }

    /// A frame for a start that waits for the server's answer; the run is
    /// reached by `handle`. A confirmed run is registered, and is the most recent
    /// from then on. Until then, and where it is refused, the registry stays as
    /// it is.
    pub fn start(&mut self, frame: ServerFrame, handle: H) -> (r: StartStep<H>)
        ensures
            final(self)@ == old(self)@.after_reply(frame, handle),
            r.answers(frame, handle),
    {
        match handshake(frame) {
            Handshake::Started(id) => {
                self.runs.insert(id, handle);
                self.last_started = Some(id);
                StartStep::Started(id)
            },
            Handshake::Refused(message) => StartStep::Refused(plain(message)),
            Handshake::Wait => StartStep::Wait(handle),
        }
    }

    /// The run that `handle` stands for: the one it names, or the most recent
    /// when it is omitted.
    pub fn resolve(&self, handle: Option<&str>) -> (r: Result<RunId, RunsError>)
        ensures
            match handle {
                Some(h) => reads_handle(h@, r),
                None => match self@.last_started {
                    Some(id) => r is Ok && r->Ok_0 == id,
                    None => r is Err && r->Err_0.says(
                        "no training runs yet in this MCP server session"@,
                    ),
                },
            },
            forall|id: RunId|
                handle is Some && handle->0@ == #[trigger] hyphenated(id) ==> r is Ok && r->Ok_0
                    == id,
    {
        match handle {
            Some(h) => parse_handle(h),
            None => match self.last_started {
                Some(id) => Ok(id),
                None => Err(plain("no training runs yet in this MCP server session".to_string())),
            },
        }
    }

    /// `r` is what looking up run `id` gives.
    pub open spec fn finds(self, id: RunId, r: Result<&H, RunsError>) -> bool {
        if self@.runs.contains_key(id) {
            r is Ok && *r->Ok_0 == self@.runs[id]
        } else {
            r is Err && r->Err_0.says("unknown training run "@ + hyphenated(id))
        }
    }

    /// The registered run `id`.
    pub fn lookup(&self, id: RunId) -> (r: Result<&H, RunsError>)
        ensures
            self.finds(id, r),
    {
        match self.runs.get(&id) {
            Some(run) => Ok(run),
            None => Err(
                plain("unknown training run ".to_string().concat(id_text(id).as_str())),
            ),
        }
    }

    /// `r` is what asking for the state of a run gives, by its handle or, where
    /// it is omitted, for the most recent.
    pub open spec fn shows_status(
        self,
        handle: Option<Seq<char>>,
        r: Result<&H, RunsError>,
    ) -> bool {
        match handle {
            Some(h) => match uuid_parsed(h) {
                Ok(id) => self.finds(id, r),
                Err(cause) => r is Err && r->Err_0.message@ == "invalid run handle "@ + quoted(h)
                    && r->Err_0.cause is Some && r->Err_0.cause->0@ == cause,
            },
            None => match self@.last_started {
                Some(id) => self.finds(id, r),
                None => r is Err && r->Err_0.says(
                    "no training runs yet in this MCP server session"@,
                ),
            },
        }
    }

    /// The run whose state is asked for (most recent when `handle` is omitted).
    pub fn status(&self, handle: Option<&str>) -> (r: Result<&H, RunsError>)
        ensures
            self.shows_status(
                match handle {
                    Some(h) => Some(h@),
                    None => None,
                },
                r,
            ),
            forall|id: RunId|
                handle is Some && handle->0@ == #[trigger] hyphenated(id) ==> self.finds(id, r),
    {
        match self.resolve(handle) {
            Ok(id) => self.lookup(id),
            Err(error) => Err(error),
        }
    }

    /// `r` is the run that `cmd` may be forwarded to when it was sent under the
    /// handle text `handle`, which stands for run `id`.
    pub open spec fn routes(
        self,
        handle: Seq<char>,
        id: RunId,
        cmd: TrainingCommand,
        r: Result<&H, RunsError>,
    ) -> bool {
        if cmd.addressee() != Some(id) {
            r is Err && r->Err_0.says("command run id does not match handle "@ + handle)
        } else {
            self.finds(id, r)
        }
    }

    /// `r` is the run that `cmd` may be forwarded to when it was sent under the
    /// handle text `handle`.
    pub open spec fn routes_under(
        self,
        handle: Seq<char>,
        cmd: TrainingCommand,
        r: Result<&H, RunsError>,
    ) -> bool {
        match uuid_parsed(handle) {
            Ok(id) => self.routes(handle, id, cmd, r),
            Err(cause) => r is Err && r->Err_0.message@ == "invalid run handle "@ + quoted(handle)
                && r->Err_0.cause is Some && r->Err_0.cause->0@ == cause,
        }
    }

    /// The run that a command is forwarded to, given what its handle was read
    /// as. The command must carry the same run id as the handle.
    pub fn route(
        &self,
        handle: &str,
        id: Result<RunId, RunsError>,
        cmd: &TrainingCommand,
    ) -> (r: Result<&H, RunsError>)
        ensures
            match id {
                Ok(id) => self.routes(handle@, id, *cmd, r),
                Err(error) => r == Err::<&H, RunsError>(error),
            },
    {
        match id {
            Ok(id) => {
                if cmd.run_id() != Some(id) {
                    Err(
                        plain(
                            "command run id does not match handle ".to_string().concat(handle),
                        ),
                    )
                } else {
                    self.lookup(id)
                }
            },
            Err(error) => Err(error),
        }
    }

    /// The run that a command is forwarded to. The command must carry the same
    /// run id as the handle.
    pub fn command(&self, handle: &str, cmd: &TrainingCommand) -> (r: Result<&H, RunsError>)
        ensures
            self.routes_under(handle@, *cmd, r),
            forall|id: RunId|
                handle@ == #[trigger] hyphenated(id) ==> self.routes(handle@, id, *cmd, r),
    {
        self.route(handle, parse_handle(handle), cmd)
    }
}

/// `r` tells the caller whether a command to run `id` was taken.
pub open spec fn tells_forwarding(id: RunId, taken: bool, r: Result<(), RunsError>) -> bool {
    match r {
        Ok(()) => taken,
        Err(error) => !taken && error.says(
            "training run "@ + hyphenated(id) + " is no longer connected"@,
        ),
    }
}

/// What the caller is told about a command to run `id`, by whether its socket
/// still took it.
pub fn forwarded(id: RunId, taken: bool) -> (r: Result<(), RunsError>)
    ensures
        tells_forwarding(id, taken, r),
{
    if taken {
        Ok(())
    } else {
        Err(
            plain(
                "training run ".to_string().concat(id_text(id).as_str()).concat(
                    " is no longer connected",
                ),
            ),
        )
    }
}

} // verus!
