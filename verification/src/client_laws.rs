//! What the two clients do with every handle, command, frame and answer, told by
//! what goes in and what comes out.

use vstd::prelude::*;

use crate::connection::{Notice, SocketSignal, TrainingConnection};
use crate::ids::{hyphenated, uuid_parsed, RunId};
use crate::laws::{after_starts, lemma_latest_start};
use crate::protocol::{TrainingCommand, TrainingEvent};
use crate::runs::{
    confirmed_id, ends_reading, handle_stands_for, is_ws_url, reads_handle, start_failure,
    tells_forwarding, RunsError, ServerFrame, StartStep, TrainingRuns,
};
use crate::text::quoted;

verus! {

/// The frame confirms a start under `id`.
pub open spec fn confirms(frame: ServerFrame, id: RunId) -> bool {
    frame == ServerFrame::Text(Ok(TrainingEvent::Started { id }))
}

/// `starts[i]` is the latest confirmed start of run `id`.
pub open spec fn is_latest_start<H>(starts: Seq<(ServerFrame, H)>, id: RunId, i: int) -> bool {
    &&& 0 <= i < starts.len()
    &&& confirms(starts[i].0, id)
    &&& forall|j: int| i < j < starts.len() ==> !confirms((#[trigger] starts[j]).0, id)
}

/// `cmd` names run `id`.
pub open spec fn names_run(cmd: TrainingCommand, id: RunId) -> bool {
    match cmd {
        TrainingCommand::Start { .. } => false,
        TrainingCommand::Attach { id: to } => to == id,
        TrainingCommand::Pause { id: to } => to == id,
        TrainingCommand::Resume { id: to } => to == id,
        TrainingCommand::Stop { id: to } => to == id,
        TrainingCommand::Reset { id: to } => to == id,
        TrainingCommand::SetSpeed { id: to, .. } => to == id,
    }
}

/// After any series of starts, looking up a run finds the handle that its latest
/// confirmed start came with, however many others were started since; a run that
/// none confirmed is unknown.
pub proof fn law_lookup_finds_the_latest_start_of_a_run<H>(
    starts: Seq<(ServerFrame, H)>,
    runs: TrainingRuns<H>,
    id: RunId,
    r: Result<&H, RunsError>,
)
    requires
        runs@ == after_starts(starts),
        runs.finds(id, r),
    ensures
        r is Ok <==> exists|i: int| is_latest_start(starts, id, i),
        forall|i: int|
            #![trigger is_latest_start(starts, id, i)]
            is_latest_start(starts, id, i) ==> r is Ok && *r->Ok_0 == starts[i].1,
        r matches Err(error) ==> error.message@ == "unknown training run "@ + hyphenated(id)
            && error.cause is None,
{
    lemma_registered(starts, id);
}

proof fn lemma_registered<H>(starts: Seq<(ServerFrame, H)>, id: RunId)
    ensures
        after_starts(starts).runs.contains_key(id) <==> exists|i: int|
            is_latest_start(starts, id, i),
        forall|i: int|
            #![trigger is_latest_start(starts, id, i)]
            is_latest_start(starts, id, i) ==> after_starts(starts).runs[id] == starts[i].1,
    decreases starts.len(),
{
    if starts.len() > 0 {
        let earlier = starts.drop_last();
        let n = starts.len() - 1;
        lemma_registered(earlier, id);
        assert(starts.last() == starts[n]);
        if confirms(starts[n].0, id) {
            assert(is_latest_start(starts, id, n));
        } else {
            assert forall|i: int|
                #![trigger is_latest_start(starts, id, i)]
                is_latest_start(starts, id, i) implies is_latest_start(earlier, id, i) by {
                assert(i != n);
                assert(earlier[i] == starts[i]);
                assert forall|j: int| i < j < earlier.len() implies !confirms(
                    (#[trigger] earlier[j]).0,
                    id,
                ) by {
                    assert(earlier[j] == starts[j]);
                }
            }
            assert forall|i: int|
                #![trigger is_latest_start(earlier, id, i)]
                is_latest_start(earlier, id, i) implies is_latest_start(starts, id, i) by {
                assert(earlier[i] == starts[i]);
                assert forall|j: int| i < j < starts.len() implies !confirms(
                    (#[trigger] starts[j]).0,
                    id,
                ) by {
                    if j < n {
                        assert(earlier[j] == starts[j]);
                    }
                }
            }
            if exists|i: int| is_latest_start(earlier, id, i) {
                let i = choose|i: int| is_latest_start(earlier, id, i);
                assert(is_latest_start(starts, id, i));
            }
            if exists|i: int| is_latest_start(starts, id, i) {
                let i = choose|i: int| is_latest_start(starts, id, i);
                assert(is_latest_start(earlier, id, i));
                assert(after_starts(starts).runs[id] == after_starts(earlier).runs[id]);
            }
        }
    }
}

/// A command is routed under a handle that stands for run `id` exactly when it
/// names that run and the run was started, and then to what the latest confirmed
/// start of that run came with, however many others were started since. One that
/// names another run, or none, is refused for that.
pub proof fn law_commands_reach_the_named_run<H>(
    starts: Seq<(ServerFrame, H)>,
    runs: TrainingRuns<H>,
    handle: Seq<char>,
    id: RunId,
    cmd: TrainingCommand,
    r: Result<&H, RunsError>,
)
    requires
        runs@ == after_starts(starts),
        runs.routes(handle, id, cmd, r),
    ensures
        r is Ok <==> names_run(cmd, id) && exists|i: int| is_latest_start(starts, id, i),
        forall|i: int|
            #![trigger is_latest_start(starts, id, i)]
            r is Ok && is_latest_start(starts, id, i) ==> *r->Ok_0 == starts[i].1,
        !names_run(cmd, id) ==> r is Err && r->Err_0.message@
            == "command run id does not match handle "@ + handle && r->Err_0.cause is None,
        names_run(cmd, id) && r is Err ==> r->Err_0.message@ == "unknown training run "@
            + hyphenated(id) && r->Err_0.cause is None,
{
    if names_run(cmd, id) {
        assert(runs.finds(id, r));
        law_lookup_finds_the_latest_start_of_a_run(starts, runs, id, r);
    }
}

/// A command under a handle text is routed as one for the run that the text is
/// parsed to: to what the latest confirmed start of that run came with, and only
/// where it names that run. A text that is no run id is refused as such.
pub proof fn law_commands_under_a_handle<H>(
    starts: Seq<(ServerFrame, H)>,
    runs: TrainingRuns<H>,
    handle: Seq<char>,
    cmd: TrainingCommand,
    r: Result<&H, RunsError>,
)
    requires
        runs@ == after_starts(starts),
        runs.routes_under(handle, cmd, r),
    ensures
        match uuid_parsed(handle) {
            Ok(id) => {
                &&& r is Ok <==> names_run(cmd, id) && exists|i: int|
                    is_latest_start(starts, id, i)
                &&& forall|i: int|
                    #![trigger is_latest_start(starts, id, i)]
                    r is Ok && is_latest_start(starts, id, i) ==> *r->Ok_0 == starts[i].1
            },
            Err(cause) => {
                &&& r is Err
                &&& r->Err_0.message@ == "invalid run handle "@ + quoted(handle)
                &&& r->Err_0.cause is Some
                &&& r->Err_0.cause->0@ == cause
            },
        },
{
    if let Ok(id) = uuid_parsed(handle) {
        law_commands_reach_the_named_run(starts, runs, handle, id, cmd, r);
    }
}

/// A status request under a handle shows the run that the handle stands for, as
/// its latest confirmed start came; without a handle, the run whose start was
/// confirmed last of all. A handle that is no run id is refused as such.
pub proof fn law_status_shows_the_named_run<H>(
    starts: Seq<(ServerFrame, H)>,
    runs: TrainingRuns<H>,
    handle: Option<Seq<char>>,
    r: Result<&H, RunsError>,
)
    requires
        runs@ == after_starts(starts),
        runs.shows_status(handle, r),
    ensures
        handle matches Some(h) ==> match uuid_parsed(h) {
            Ok(id) => {
                &&& r is Ok <==> exists|i: int| is_latest_start(starts, id, i)
                &&& forall|i: int|
                    #![trigger is_latest_start(starts, id, i)]
                    is_latest_start(starts, id, i) ==> r is Ok && *r->Ok_0 == starts[i].1
            },
            Err(cause) => {
                &&& r is Err
                &&& r->Err_0.message@ == "invalid run handle "@ + quoted(h)
                &&& r->Err_0.cause is Some
                &&& r->Err_0.cause->0@ == cause
            },
        },
        handle is None ==> {
            &&& r is Ok <==> exists|i: int| is_last_start(starts, i)
            &&& forall|i: int|
                #![trigger is_last_start(starts, i)]
                is_last_start(starts, i) ==> r is Ok && *r->Ok_0 == starts[i].1
            &&& r matches Err(error) ==> error.message@
                == "no training runs yet in this MCP server session"@ && error.cause is None
        },
{
    match handle {
        Some(h) => {
            if let Ok(id) = uuid_parsed(h) {
                law_lookup_finds_the_latest_start_of_a_run(starts, runs, id, r);
            }
        },
        None => {
            lemma_last_start(starts);
            lemma_latest_start(starts);
        },
    }
}

/// `starts[i]` is the last confirmed start of all.
pub open spec fn is_last_start<H>(starts: Seq<(ServerFrame, H)>, i: int) -> bool {
    &&& 0 <= i < starts.len()
    &&& exists|id: RunId| confirms(starts[i].0, id)
    &&& forall|j: int, id: RunId|
        i < j < starts.len() ==> !#[trigger] confirms((#[trigger] starts[j]).0, id)
}

proof fn lemma_last_start<H>(starts: Seq<(ServerFrame, H)>)
    ensures
        after_starts(starts).last_started is Some <==> exists|i: int| is_last_start(starts, i),
        forall|i: int|
            #![trigger is_last_start(starts, i)]
            is_last_start(starts, i) ==> after_starts(starts).last_started is Some && after_starts(
                starts,
            ).runs[after_starts(starts).last_started->0] == starts[i].1,
    decreases starts.len(),
{
    if starts.len() > 0 {
        let earlier = starts.drop_last();
        let n = starts.len() - 1;
        lemma_last_start(earlier);
        assert(starts.last() == starts[n]);
        if let Some(id) = confirmed_id(starts[n].0) {
            assert(confirms(starts[n].0, id));
            assert(is_last_start(starts, n));
            assert forall|i: int| is_last_start(starts, i) implies i == n by {
                if i < n {
                    assert(!confirms(starts[n].0, id));
                }
            }
        } else {
            assert forall|id: RunId| !confirms(starts[n].0, id) by {}
            assert forall|i: int|
                #![trigger is_last_start(starts, i)]
                is_last_start(starts, i) implies is_last_start(earlier, i) by {
                let id = choose|id: RunId| confirms(starts[i].0, id);
                assert(i != n);
                assert(confirms(earlier[i].0, id));
                assert forall|j: int, id: RunId| i < j < earlier.len() implies !#[trigger] confirms(
                    (#[trigger] earlier[j]).0,
                    id,
                ) by {
                    assert(earlier[j] == starts[j]);
                    assert(!confirms(starts[j].0, id));
                }
            }
            assert forall|i: int|
                #![trigger is_last_start(earlier, i)]
                is_last_start(earlier, i) implies is_last_start(starts, i) by {
                let id = choose|id: RunId| confirms(earlier[i].0, id);
                assert(confirms(starts[i].0, id));
                assert forall|j: int, id: RunId| i < j < starts.len() implies !#[trigger] confirms(
                    (#[trigger] starts[j]).0,
                    id,
                ) by {
                    if j < n {
                        assert(earlier[j] == starts[j]);
                        assert(!confirms(earlier[j].0, id));
                    }
                }
            }
            if exists|i: int| is_last_start(earlier, i) {
                let i = choose|i: int| is_last_start(earlier, i);
                assert(is_last_start(starts, i));
            }
            if exists|i: int| is_last_start(starts, i) {
                let i = choose|i: int| is_last_start(starts, i);
                assert(is_last_start(earlier, i));
            }
        }
    }
}

/// A command for the run that its handle stands for and a status request under
/// the same handle reach the same run, and are refused together.
pub proof fn law_command_and_status_reach_the_same_run<H>(
    runs: TrainingRuns<H>,
    handle: Seq<char>,
    cmd: TrainingCommand,
    routed: Result<&H, RunsError>,
    shown: Result<&H, RunsError>,
)
    requires
        runs.routes_under(handle, cmd, routed),
        runs.shows_status(Some(handle), shown),
        uuid_parsed(handle) is Ok ==> names_run(cmd, uuid_parsed(handle)->Ok_0),
    ensures
        routed is Ok <==> shown is Ok,
        routed is Ok ==> *routed->Ok_0 == *shown->Ok_0,
        routed is Err ==> routed->Err_0.message@ == shown->Err_0.message@,
        uuid_parsed(handle) is Err ==> routed is Err && routed->Err_0.message@
            == "invalid run handle "@ + quoted(handle),
{
}

/// A handle stands for the id that its text is parsed to; one that is none is
/// refused with its quoted text, and why it is none.
pub proof fn law_handles_stand_for_their_id(
    handle: Seq<char>,
    parsed: Result<RunId, String>,
    stood: Result<RunId, RunsError>,
    read: Result<RunId, RunsError>,
)
    requires
        handle_stands_for(handle, parsed, stood),
        reads_handle(handle, read),
    ensures
        parsed matches Ok(id) ==> stood is Ok && stood->Ok_0 == id,
        parsed matches Err(cause) ==> stood is Err && stood->Err_0.message@
            == "invalid run handle "@ + quoted(handle) && stood->Err_0.cause == Some(cause),
        read is Ok <==> uuid_parsed(handle) is Ok,
        read matches Ok(id) ==> uuid_parsed(handle) == Ok::<RunId, Seq<char>>(id),
        read matches Err(error) ==> {
            &&& error.message@ == "invalid run handle "@ + quoted(handle)
            &&& error.cause is Some
            &&& uuid_parsed(handle) == Err::<RunId, Seq<char>>(error.cause->0@)
        },
{
}

/// A command that its socket took is done; one that it did not is told as such.
pub proof fn law_lost_sockets_are_told(id: RunId, taken: bool, r: Result<(), RunsError>)
    requires
        tells_forwarding(id, taken, r),
    ensures
        r is Ok <==> taken,
        r matches Err(error) ==> error.message@ == "training run "@ + hyphenated(id)
            + " is no longer connected"@ && error.cause is None,
{
}

/// What answers a start: only the ack confirms it, under its id; an error, an
/// unreadable text, the end and the failure of the socket refuse it, each with its
/// words; every other frame leaves it waiting.
pub proof fn law_what_answers_a_start(frame: ServerFrame)
    ensures
        match frame {
            ServerFrame::Text(Ok(event)) => match event {
                TrainingEvent::Started { id } => confirmed_id(frame) == Some(id) && start_failure(
                    frame,
                ) is None,
                TrainingEvent::Error { message } => confirmed_id(frame) is None && start_failure(
                    frame,
                ) == Some("server rejected the run: "@ + message@),
                _ => confirmed_id(frame) is None && start_failure(frame) is None,
            },
            ServerFrame::Text(Err(error)) => confirmed_id(frame) is None && start_failure(frame)
                == Some("invalid server frame: "@ + error@),
            ServerFrame::Close => confirmed_id(frame) is None && start_failure(frame) == Some(
                "server closed the socket before confirming the run"@,
            ),
            ServerFrame::Other => confirmed_id(frame) is None && start_failure(frame) is None,
            ServerFrame::Failed(error) => confirmed_id(frame) is None && start_failure(frame)
                == Some("socket error: "@ + error@),
        },
{
}

/// What a start is told of a frame: the id of the ack, or the words of what
/// refuses it, or else the handle back to wait on with.
pub proof fn law_starts_are_told_every_answer<H>(frame: ServerFrame, handle: H, r: StartStep<H>)
    requires
        r.answers(frame, handle),
    ensures
        match frame {
            ServerFrame::Text(Ok(event)) => match event {
                TrainingEvent::Started { id } => r is Started && r->Started_0 == id,
                TrainingEvent::Error { message } => r is Refused && r->Refused_0.message@
                    == "server rejected the run: "@ + message@,
                _ => r is Wait,
            },
            ServerFrame::Text(Err(error)) => r is Refused && r->Refused_0.message@
                == "invalid server frame: "@ + error@,
            ServerFrame::Close => r is Refused && r->Refused_0.message@
                == "server closed the socket before confirming the run"@,
            ServerFrame::Other => r is Wait,
            ServerFrame::Failed(error) => r is Refused && r->Refused_0.message@ == "socket error: "@
                + error@,
        },
        r is Wait ==> r->Wait_0 == handle,
        r is Refused ==> r->Refused_0.cause is None,
{
}

/// A reader stops at the end or failure of its socket and at `Finished` of its own
/// run, and at nothing else.
pub proof fn law_when_reading_stops(run_id: RunId, frame: ServerFrame)
    ensures
        match frame {
            ServerFrame::Text(Ok(TrainingEvent::Finished { id })) => ends_reading(run_id, frame)
                <==> id == run_id,
            ServerFrame::Text(_) => !ends_reading(run_id, frame),
            ServerFrame::Close => ends_reading(run_id, frame),
            ServerFrame::Other => !ends_reading(run_id, frame),
            ServerFrame::Failed(_) => ends_reading(run_id, frame),
        },
{
}

/// The socket of an `https` address is the same address with `wss`; that of any
/// other the same with its first `http` made `ws`, or with nothing changed where
/// there is none; the path follows.
pub proof fn law_ws_url_changes_the_scheme_only(
    url: Seq<char>,
    base: Seq<char>,
    rest: Seq<char>,
    at: int,
)
    requires
        is_ws_url(url, base),
    ensures
        base == "https"@ + rest ==> url == "wss"@ + rest + "/ws/training"@,
        !(base.len() >= 5 && base.take(5) == "https"@) && 0 <= at && at + 4 <= base.len()
            && base.subrange(at, at + 4) == "http"@ && (forall|k: int|
            0 <= k < at ==> #[trigger] base.subrange(k, k + 4) != "http"@) ==> url == base.take(at)
            + "ws"@ + base.skip(at + 4) + "/ws/training"@,
        !(base.len() >= 5 && base.take(5) == "https"@) && (forall|k: int|
            0 <= k && k + 4 <= base.len() ==> #[trigger] base.subrange(k, k + 4) != "http"@) ==> url
            == base + "/ws/training"@,
{
    reveal_strlit("https");
    reveal_strlit("http");
    if base == "https"@ + rest {
        assert("https"@.is_prefix_of(base));
        assert(base.skip(5) =~= rest);
    }
    if "https"@.is_prefix_of(base) {
        assert(base.take(5) =~= "https"@);
    } else {
        if base.len() >= 5 && base.take(5) == "https"@ {
            assert("https"@ =~= base.subrange(0, 5));
            assert("https"@.is_prefix_of(base));
        }
        let ws_base = choose|ws_base: Seq<char>| #[trigger]
            crate::text::is_first_replaced(ws_base, base, "http"@, "ws"@) && url == ws_base
                + "/ws/training"@;
        if 0 <= at && at + 4 <= base.len() && base.subrange(at, at + 4) == "http"@ && (forall|
            k: int,
        |
            0 <= k < at ==> #[trigger] base.subrange(k, k + 4) != "http"@) {
            assert(crate::text::occurs_at(base, "http"@, at));
            let found = choose|found: int| #[trigger]
                crate::text::occurs_at(base, "http"@, found) && (forall|k: int|
                    k < found ==> !#[trigger] crate::text::occurs_at(base, "http"@, k)) && ws_base
                    == base.take(found) + "ws"@ + base.skip(found + 4);
            if found < at {
                assert(base.subrange(found, found + 4) == "http"@);
            }
            assert(found == at);
        }
        if forall|k: int|
            0 <= k && k + 4 <= base.len() ==> #[trigger] base.subrange(k, k + 4) != "http"@ {
            assert forall|k: int| !#[trigger] crate::text::occurs_at(base, "http"@, k) by {
                if crate::text::occurs_at(base, "http"@, k) {
                    assert(base.subrange(k, k + 4) == "http"@);
                }
            }
        }
    }
}

/// What a page is told of every frame, and what it remembers: the ack sets its run
/// and is not shown; an error and an unreadable text are shown as such, whatever
/// the run; `Finished` of its run is shown as a state, and its metrics, status and
/// clearing go to the page as they came; nothing of another run, or before the run
/// is known, does.
pub proof fn law_page_is_told_of_its_run_only(
    page: TrainingConnection,
    frame: Result<TrainingEvent, String>,
    r: Notice,
)
    requires
        page.tells(frame, r),
    ensures
        match frame {
            Ok(event) => match event {
                TrainingEvent::Started { id } => r is Silent && page.after_message(frame).run_id
                    == Some(id),
                TrainingEvent::Error { message } => r is Status && r->Status_0@ == "error: "@
                    + message@,
                TrainingEvent::Finished { id } => if page.run_id == Some(id) {
                    r is Status && r->Status_0@ == "finished"@
                } else {
                    r is Silent
                },
                TrainingEvent::Metrics { id, .. } => if page.run_id == Some(id) {
                    r == Notice::Message(event)
                } else {
                    r is Silent
                },
                TrainingEvent::Status { id, .. } => if page.run_id == Some(id) {
                    r == Notice::Message(event)
                } else {
                    r is Silent
                },
                TrainingEvent::Cleared { id } => if page.run_id == Some(id) {
                    r == Notice::Message(event)
                } else {
                    r is Silent
                },
            },
            Err(error) => r is Status && r->Status_0@ == "parse error: "@ + error@,
        },
        !(frame matches Ok(TrainingEvent::Started { .. })) ==> page.after_message(frame) == page,
{
}

/// A socket error is shown as an error, and its end as the end.
pub proof fn law_page_is_told_of_signals(page: TrainingConnection, signal: SocketSignal, r: Notice)
    requires
        page.shows_signal(signal, r),
    ensures
        r is Status,
        signal is Errored ==> r->Status_0@ == "error"@,
        signal is Closed ==> r->Status_0@ == "finished"@,
{
}

/// A page that knows its run sends what is built for that run, and one that does
/// not sends nothing: a builder that always names the run it is given names the
/// page's run.
pub proof fn law_page_commands_name_its_run<F: FnOnce(RunId) -> TrainingCommand>(
    page: TrainingConnection,
    build: F,
    r: Option<TrainingCommand>,
)
    requires
        page.addresses(build, r),
        forall|id: RunId, cmd: TrainingCommand| #[trigger]
            build.ensures((id,), cmd) ==> names_run(cmd, id),
    ensures
        r is Some <==> page.run_id is Some,
        page.run_id matches Some(id) ==> names_run(r->0, id),
{
}

/// The run that a command is addressed to, and the run that an event is about, is
/// the one it carries.
pub proof fn law_messages_name_their_run(cmd: TrainingCommand, event: TrainingEvent, id: RunId)
    ensures
        cmd.addressee() == Some(id) <==> names_run(cmd, id),
        cmd is Start <==> cmd.addressee() is None,
        event is Error <==> event.subject() is None,
        event.subject() == Some(id) <==> match event {
            TrainingEvent::Started { id: of } => of == id,
            TrainingEvent::Metrics { id: of, .. } => of == id,
            TrainingEvent::Status { id: of, .. } => of == id,
            TrainingEvent::Cleared { id: of } => of == id,
            TrainingEvent::Finished { id: of } => of == id,
            TrainingEvent::Error { .. } => false,
        },
{
}

} // verus!
