//! How the connection of a client goes on, case by case.
use crate::announcing;
use crate::client;
use crate::outside::Timestamp;
use crate::rtmp;
use crate::rtmp::RtmpError;
use crate::state;
use crate::wire;
use rml_rtmp::handshake::{HandshakeError, HandshakeProcessResult};
use rml_rtmp::sessions::{
    ServerSession, ServerSessionConfig, ServerSessionError, ServerSessionResult,
};
use vstd::prelude::*;

verus! {

/// A connection starts with the handshake, with nothing to do and no stream.
pub proof fn law_connection_starts()
    ensures
        client::at_start().stage == client::Stage::Handshaking,
        client::at_start().rest.len() == 0,
        client::at_start().pending.len() == 0,
        client::at_start().stream_key is None,
{
}

/// Whether `q` has what `p` had to do, and then, unless they are none, these bytes to send.
pub open spec fn sends_too(
    p: client::ProgressView,
    q: client::ProgressView,
    response: Seq<u8>,
) -> bool {
    &&& response.len() == 0 ==> q.pending == p.pending
    &&& response.len() > 0 ==> q.pending == p.pending.push(client::StepView::Send(response))
}

/// What the answer of the handshake does: an error ends the connection as one whose handshake failed;
/// bytes of an answer are sent, unless there are none; one that is complete calls for a session, and
/// what came with it is kept.
pub proof fn law_handshake_goes_on(
    p: client::ProgressView,
    answer: Result<HandshakeProcessResult, HandshakeError>,
)
    ensures
        ({
            let q = client::after_reply(p, client::answer_reply(answer));
            &&& q.stream_key == p.stream_key
            &&& answer is Err ==> {
                &&& q.stage == client::Stage::Failed(RtmpError::BadHandshake)
                &&& q.rest == p.rest
                &&& q.pending == p.pending
            }
            &&& answer matches Ok(HandshakeProcessResult::InProgress { response_bytes }) ==> {
                &&& q.stage == p.stage
                &&& q.rest == p.rest
                &&& sends_too(p, q, response_bytes@)
            }
            &&& answer matches Ok(
                HandshakeProcessResult::Completed { response_bytes, remaining_bytes },
            ) ==> {
                &&& q.stage == client::Stage::Opening
                &&& q.rest == remaining_bytes@
                &&& sends_too(p, q, response_bytes@)
            }
        }),
{
    match answer {
        Ok(HandshakeProcessResult::InProgress { response_bytes }) => {
            lemma_send_step(p.pending, response_bytes@);
        },
        Ok(HandshakeProcessResult::Completed { response_bytes, .. }) => {
            lemma_send_step(p.pending, response_bytes@);
        },
        Err(_) => {},
    }
}

/// Bytes that are to be sent, behind what is pending.
proof fn lemma_send_step(pending: Seq<client::StepView>, response: Seq<u8>)
    ensures
        response.len() == 0 ==> pending + client::send_step(response) == pending,
        response.len() > 0 ==> pending + client::send_step(response) == pending.push(
            client::StepView::Send(response),
        ),
{
    assert(response.len() == 0 ==> pending + client::send_step(response) =~= pending);
    assert(response.len() > 0 ==> pending + client::send_step(response) =~= pending.push(
        client::StepView::Send(response),
    ));
}

/// Whether steps are those that results of a session ask for, one for one and in their order: a
/// response is sent, an event is what it says, and anything else is passed over.
pub open spec fn one_for_one(
    steps: Seq<client::StepView>,
    results: Seq<ServerSessionResult>,
) -> bool {
    &&& steps.len() == results.len()
    &&& forall|i: int|
        0 <= i < results.len() ==> match #[trigger] results[i] {
            ServerSessionResult::OutboundResponse(packet) => steps[i] == client::StepView::Send(
                packet.bytes@,
            ),
            ServerSessionResult::RaisedEvent(event) => steps[i] == client::StepView::Event(
                wire::event_content(event),
            ),
            ServerSessionResult::UnhandleableMessageReceived(_) => steps[i] is Skip,
        }
}

/// The steps of an answer of the session are those of its results; an error asks for none.
pub proof fn law_steps_of_an_answer(
    answer: Result<Vec<ServerSessionResult>, ServerSessionError>,
)
    ensures
        answer is Err ==> client::answer_steps(answer) is None && client::accepted_steps(
            answer,
        ).len() == 0,
        answer matches Ok(results) ==> {
            &&& client::answer_steps(answer) is Some
            &&& one_for_one(client::answer_steps(answer)->0, results@)
            &&& one_for_one(client::accepted_steps(answer), results@)
        },
{
}

/// The steps of the start of a session are those of its results; an error asks for none.
pub proof fn law_steps_of_a_start(
    answer: Result<(ServerSession, Vec<ServerSessionResult>), ServerSessionError>,
)
    ensures
        answer is Err ==> client::start_steps(answer) is None,
        answer matches Ok(started) ==> {
            &&& client::start_steps(answer) is Some
            &&& one_for_one(client::start_steps(answer)->0, started.1@)
        },
{
}

/// Whether `q` differs from `p` at most in its stage, and has more to do behind what `p` had.
pub open spec fn goes_on_with(
    p: client::ProgressView,
    q: client::ProgressView,
    more: Seq<client::StepView>,
) -> bool {
    &&& q.rest == p.rest
    &&& q.stream_key == p.stream_key
    &&& q.pending == p.pending + more
}

/// A session that could be started is under way, or first takes in what came with the end of the
/// handshake, where something did. Where none could be started, the connection fails.
pub proof fn law_session_opens(p: client::ProgressView, steps: Seq<client::StepView>)
    ensures
        ({
            let q = client::after_opening(p, Some(steps));
            &&& goes_on_with(p, q, steps)
            &&& p.rest.len() == 0 ==> q.stage == client::Stage::Running
            &&& p.rest.len() > 0 ==> q.stage == client::Stage::Resuming
        }),
        ({
            let q = client::after_opening(p, None);
            &&& goes_on_with(p, q, Seq::empty())
            &&& q.stage == client::Stage::Failed(RtmpError::NoSession)
        }),
{
    assert(p.pending + Seq::<client::StepView>::empty() =~= p.pending);
}

/// What the session made of the bytes of the client: steps that are to be done, or, where it could not
/// take them in, the end of the connection.
pub proof fn law_bytes_are_taken_in(p: client::ProgressView, steps: Seq<client::StepView>)
    ensures
        goes_on_with(p, client::after_resuming(p, Some(steps)), steps),
        client::after_resuming(p, Some(steps)).stage == client::Stage::Running,
        goes_on_with(p, client::after_input(p, Some(steps)), steps),
        client::after_input(p, Some(steps)).stage == p.stage,
        goes_on_with(p, client::after_resuming(p, None), Seq::empty()),
        client::after_resuming(p, None).stage == client::Stage::Over,
        goes_on_with(p, client::after_input(p, None), Seq::empty()),
        client::after_input(p, None).stage == client::Stage::Over,
{
    assert(p.pending + Seq::<client::StepView>::empty() =~= p.pending);
}

/// Whether the stream of a client that has left is no longer live, and nothing else has changed; a client
/// without a stream changes nothing.
pub open spec fn has_left(
    v: state::AppView,
    w: state::AppView,
    key: Option<Seq<char>>,
) -> bool {
    match key {
        Some(k) => if v.streams.contains_key(k) {
            &&& announcing::same_but_stream(v, w, k)
            &&& w.order == v.order
            &&& w.streams.contains_key(k)
            &&& !w.streams[k].meta.is_live
            &&& w.streams[k].meta.bitrate_kbps == 0
            &&& w.streams[k].meta.fps == 0
            &&& announcing::same_but_liveness(v.streams[k].meta, w.streams[k].meta)
            &&& announcing::same_kept(v.streams[k], w.streams[k])
        } else {
            w == v
        },
        None => w == v,
    }
}

/// A client whose bytes could not be taken in, or who sends no more while its session is under way,
/// has left. Nothing else ends its stream.
pub proof fn law_when_a_client_leaves(
    v: state::AppView,
    p: client::ProgressView,
    steps: Seq<client::StepView>,
)
    ensures
        has_left(v, client::state_after_input(v, p, None), p.stream_key),
        client::state_after_input(v, p, Some(steps)) == v,
        p.stage == client::Stage::Running ==> has_left(
            v,
            client::state_after_silence(v, p),
            p.stream_key,
        ),
        p.stage != client::Stage::Running ==> client::state_after_silence(v, p) == v,
{
}

/// The first of the pending steps is taken: the others stay in their order, followed by what came to be
/// done with it. Only an event can change which stream the client publishes.
pub proof fn law_first_step_is_taken(
    p: client::ProgressView,
    first: client::StepView,
    others: Seq<client::StepView>,
    more: Seq<client::StepView>,
)
    requires
        p.pending == seq![first] + others,
    ensures
        ({
            let q = client::after_step(p, more);
            &&& q.pending == others + more
            &&& q.stage == p.stage
            &&& q.rest == p.rest
            &&& first matches client::StepView::Event(e) ==> match e {
                wire::EventView::PublishRequested { stream_key, .. } => q.stream_key == Some(
                    stream_key,
                ),
                wire::EventView::PublishFinished { stream_key } => q.stream_key == (
                if p.stream_key == Some(stream_key) {
                    None
                } else {
                    p.stream_key
                }),
                _ => q.stream_key == p.stream_key,
            }
            &&& !(first is Event) ==> q.stream_key == p.stream_key
        }),
{
    assert(p.pending.skip(1) =~= others);
}

/// What a step does: bytes are sent, and change nothing; an event does what it does; anything else is
/// nothing. Only an event can ask to accept a request.
pub proof fn law_what_a_step_does(
    v: state::AppView,
    b: Seq<u8>,
    e: wire::EventView,
    now: Timestamp,
)
    ensures
        client::action_of_step(v, client::StepView::Send(b)) == rtmp::ActionView::Send(b),
        client::state_after_step(v, client::StepView::Send(b), now) == v,
        client::request_of_step(client::StepView::Send(b)) is None,
        client::action_of_step(v, client::StepView::Skip) is Nothing,
        client::state_after_step(v, client::StepView::Skip, now) == v,
        client::request_of_step(client::StepView::Skip) is None,
        client::action_of_step(v, client::StepView::Event(e)) == rtmp::action_for(v, e),
        client::state_after_step(v, client::StepView::Event(e), now) == rtmp::after_event(
            v,
            e,
            now,
        ),
        client::request_of_step(client::StepView::Event(e)) == rtmp::request_in(e),
{
}

/// What is done where nothing is pending: more is read of a client in its handshake or session, a
/// session that has just started is given what came with the end of the handshake, and a connection
/// that is over is finished, with its error where it has failed.
pub proof fn law_what_is_done_at_rest(p: client::ProgressView)
    ensures
        client::action_at_rest(p) is Read <==> (p.stage == client::Stage::Handshaking || p.stage
            == client::Stage::Running),
        client::action_at_rest(p) is Nothing <==> p.stage == client::Stage::Opening,
        client::action_at_rest(p) is Resume <==> p.stage == client::Stage::Resuming,
        p.stage == client::Stage::Resuming ==> client::action_at_rest(p)
            == rtmp::ActionView::Resume(p.rest),
        client::action_at_rest(p) is Finish <==> p.stage == client::Stage::Over,
        client::action_at_rest(p) is Fail <==> p.stage is Failed,
        p.stage matches client::Stage::Failed(error) ==> client::action_at_rest(p)
            == rtmp::ActionView::Fail(error),
{
}

/// What becomes of bytes that were read: none mean that the client sends no more, those of a session
/// under way are for it, and all others are taken.
pub proof fn law_what_becomes_of_bytes(stage: client::Stage, n: nat)
    ensures
        client::received(stage, n) == client::Received::Silence <==> n == 0,
        client::received(stage, n) == client::Received::ForSession <==> n > 0 && stage
            == client::Stage::Running,
        client::received(stage, n) == client::Received::Taken <==> n > 0 && stage
            != client::Stage::Running,
{
}

/// Steps hold no request exactly where none of them is an event that asks for a connection or to
/// publish.
pub proof fn law_steps_without_requests(steps: Seq<client::StepView>)
    ensures
        client::no_requests(steps) <==> forall|i: int|
            0 <= i < steps.len() ==> !(#[trigger] steps[i] matches client::StepView::Event(e) && (
            e is ConnectionRequested || e is PublishRequested)),
{
    if client::no_requests(steps) {
        assert forall|i: int| 0 <= i < steps.len() implies !(#[trigger] steps[i] matches
        client::StepView::Event(e) && (e is ConnectionRequested || e is PublishRequested)) by {
            assert(client::request_of_step(steps[i]) is None);
        }
    }
}

/// A client whose handshake took in some bytes goes on as the handshake's answer says, with the same
/// session.
pub proof fn law_handshake_of_a_client(
    before: client::RtmpClient,
    b: Seq<u8>,
    after: client::RtmpClient,
)
    requires
        client::shaken_by(before, b, after),
    ensures
        after.session() == before.session(),
        after.progress().stream_key == before.progress().stream_key,
        exists|answer: Result<HandshakeProcessResult, HandshakeError>| #[trigger]
            wire::handshake_takes(before.handshake(), b, after.handshake(), answer) && match answer {
                Err(_) => {
                    &&& after.progress().stage == client::Stage::Failed(RtmpError::BadHandshake)
                    &&& after.progress().pending == before.progress().pending
                },
                Ok(HandshakeProcessResult::InProgress { response_bytes }) => {
                    &&& after.progress().stage == before.progress().stage
                    &&& sends_too(before.progress(), after.progress(), response_bytes@)
                },
                Ok(HandshakeProcessResult::Completed { response_bytes, remaining_bytes }) => {
                    &&& after.progress().stage == client::Stage::Opening
                    &&& after.progress().rest == remaining_bytes@
                    &&& sends_too(before.progress(), after.progress(), response_bytes@)
                },
            },
{
    let answer = choose|answer: Result<HandshakeProcessResult, HandshakeError>| #[trigger]
        wire::handshake_takes(before.handshake(), b, after.handshake(), answer) && after.progress()
            == client::after_reply(before.progress(), client::answer_reply(answer));
    law_handshake_goes_on(before.progress(), answer);
    assert(wire::handshake_takes(before.handshake(), b, after.handshake(), answer));
}

/// A client for whom a session was to be started has the one that was, with the defaults, and then does
/// what its start asks for; where it could not be started, the connection fails.
pub proof fn law_session_of_a_client(before: client::RtmpClient, after: client::RtmpClient)
    requires
        client::opened_by(before, after),
    ensures
        after.handshake() == before.handshake(),
        after.progress().stream_key == before.progress().stream_key,
        after.progress().rest == before.progress().rest,
        exists|
            defaults: ServerSessionConfig,
            answer: Result<(ServerSession, Vec<ServerSessionResult>), ServerSessionError>,
            steps: Seq<client::StepView>,
        |
            wire::default_config(defaults) && #[trigger] wire::session_starts(defaults, answer)
                && #[trigger] goes_on_with(before.progress(), after.progress(), steps)
                && match answer {
                Ok(started) => {
                    &&& after.session() == Some(started.0)
                    &&& one_for_one(steps, started.1@)
                    &&& before.progress().rest.len() == 0 ==> after.progress().stage
                        == client::Stage::Running
                    &&& before.progress().rest.len() > 0 ==> after.progress().stage
                        == client::Stage::Resuming
                },
                Err(_) => {
                    &&& after.session() == before.session()
                    &&& steps.len() == 0
                    &&& after.progress().stage == client::Stage::Failed(RtmpError::NoSession)
                },
            },
{
    let p = before.progress();
    let q = after.progress();
    let (defaults, answer) = choose|
        config: ServerSessionConfig,
        answer: Result<(ServerSession, Vec<ServerSessionResult>), ServerSessionError>,
    |
        {
            &&& wire::default_config(config)
            &&& #[trigger] wire::session_starts(config, answer)
            &&& q == client::after_opening(p, client::start_steps(answer))
            &&& after.session() == (match answer {
                Ok(started) => Some(started.0),
                Err(_) => before.session(),
            })
        };
    law_steps_of_a_start(answer);
    let steps = match client::start_steps(answer) {
        Some(list) => list,
        None => Seq::empty(),
    };
    law_session_opens(p, steps);
    assert(wire::session_starts(defaults, answer));
    assert(goes_on_with(p, q, steps));
}

/// A client whose request was accepted goes on with the steps that the session's answer asks for, and
/// the request no longer waits; where the session could not accept it, nothing more is to be done.
pub proof fn law_request_of_a_client(
    before: client::RtmpClient,
    p: client::ProgressView,
    id: u32,
    after: client::RtmpClient,
)
    requires
        client::accepted_by(before, p, id, after),
    ensures
        after.handshake() == before.handshake(),
        after.progress().stage == p.stage,
        !wire::session_waiting(after.session()->0).contains(id),
        exists|
            answer: Result<Vec<ServerSessionResult>, ServerSessionError>,
            steps: Seq<client::StepView>,
        | #[trigger]
            wire::session_accepts(before.session()->0, id, after.session()->0, answer)
                && #[trigger] goes_on_with(p, after.progress(), steps) && match answer {
                Ok(results) => one_for_one(steps, results@),
                Err(_) => steps.len() == 0,
            },
{
    let answer = choose|answer: Result<Vec<ServerSessionResult>, ServerSessionError>| #[trigger]
        wire::session_accepts(before.session()->0, id, after.session()->0, answer)
            && after.progress() == (client::ProgressView {
            pending: p.pending + client::accepted_steps(answer),
            ..p
        });
    law_steps_of_an_answer(answer);
    let steps = client::accepted_steps(answer);
    assert(wire::session_accepts(before.session()->0, id, after.session()->0, answer));
    assert(goes_on_with(p, after.progress(), steps));
}

} // verus!
