//! One RTMP client, from its handshake to the end of its connection.
use crate::outside;
use crate::outside::Timestamp;
use crate::rtmp;
use crate::rtmp::{RtmpAction, RtmpError};
use crate::state;
use crate::state::AppState;
use crate::types;
use crate::wire;
use crate::wire::SessionEvent;
use rml_rtmp::handshake::{Handshake, HandshakeError, HandshakeProcessResult, PeerType};
use rml_rtmp::sessions::{
    ServerSession, ServerSessionConfig, ServerSessionError, ServerSessionResult,
};
use vstd::prelude::*;

verus! {

/// One thing that a session wants done.
pub enum SessionStep {
    /// These bytes go to the client.
    Send(Vec<u8>),
    /// This has happened.
    Event(SessionEvent),
    /// Nothing that matters here.
    Skip,
}

/// One thing that a session wants done, by its texts and bytes.
pub enum StepView {
    Send(Seq<u8>),
    Event(wire::EventView),
    Skip,
}

impl View for SessionStep {
    type V = StepView;

    open spec fn view(&self) -> StepView {
        match *self {
            SessionStep::Send(b) => StepView::Send(b@),
            SessionStep::Event(e) => StepView::Event(e@),
            SessionStep::Skip => StepView::Skip,
        }
    }
}

/// Steps, by their texts and bytes.
pub open spec fn step_views(list: Seq<SessionStep>) -> Seq<StepView> {
    list.map_values(|s: SessionStep| s@)
}

/// The step that a result of the session asks for.
pub open spec fn step_of(r: ServerSessionResult) -> StepView {
    match r {
        ServerSessionResult::OutboundResponse(packet) => StepView::Send(packet.bytes@),
        ServerSessionResult::RaisedEvent(event) => StepView::Event(wire::event_content(event)),
        ServerSessionResult::UnhandleableMessageReceived(_) => StepView::Skip,
    }
}

/// The steps that the results of the session ask for, in their order.
pub fn steps_of(results: Vec<ServerSessionResult>) -> (r: Vec<SessionStep>)
    ensures
        step_views(r@) == results@.map_values(|x: ServerSessionResult| step_of(x)),
{
    let ghost all = results@;
    let mut steps: Vec<SessionStep> = Vec::new();
    for result in it: results
        invariant
            it.seq() == all,
            steps@.len() == it.index(),
            forall|i: int| 0 <= i < steps@.len() ==> (#[trigger] steps@[i])@ == step_of(all[i]),
    {
        let step = match result {
            ServerSessionResult::OutboundResponse(packet) => SessionStep::Send(packet.bytes),
            ServerSessionResult::RaisedEvent(event) => SessionStep::Event(wire::read_event(event)),
            ServerSessionResult::UnhandleableMessageReceived(_) => SessionStep::Skip,
        };
        steps.push(step);
    }
    assert(step_views(steps@) =~= all.map_values(|x: ServerSessionResult| step_of(x)));
    steps
}

/// How far the connection of a client has come.
#[derive(Clone, Copy, Debug, PartialEq, Eq, Structural)]
pub enum Stage {
    /// The handshake is under way.
    Handshaking,
    /// The handshake is done, and a session is to be started.
    Opening,
    /// The session has started, and what came with the end of the handshake is to be taken in.
    Resuming,
    /// The session is under way.
    Running,
    /// The connection is over.
    Over,
    /// The connection is over because of an error.
    Failed(RtmpError),
}

/// What the library knows of a client's connection.
pub struct Progress {
    pub stage: Stage,
    /// What came with the end of the handshake.
    pub rest: Vec<u8>,
    /// What is still to be done, in its order.
    pub pending: Vec<SessionStep>,
    /// The stream that the client publishes.
    pub stream_key: Option<String>,
}

/// What is known of a client's connection, by its texts and bytes.
pub struct ProgressView {
    pub stage: Stage,
    pub rest: Seq<u8>,
    pub pending: Seq<StepView>,
    pub stream_key: Option<Seq<char>>,
}

impl View for Progress {
    type V = ProgressView;

    open spec fn view(&self) -> ProgressView {
        ProgressView {
            stage: self.stage,
            rest: self.rest@,
            pending: step_views(self.pending@),
            stream_key: types::opt_text(self.stream_key),
        }
    }
}

/// What came of some bytes of a handshake.
pub enum HandshakeReply {
    /// The handshake failed.
    Failed,
    /// The handshake goes on, after these bytes went to the client.
    More(Vec<u8>),
    /// The handshake is done, once these bytes went to the client; more had come than it took.
    Done { response: Vec<u8>, rest: Vec<u8> },
}

/// What came of some bytes of a handshake.
pub enum ReplyView {
    Failed,
    More(Seq<u8>),
    Done { response: Seq<u8>, rest: Seq<u8> },
}

impl View for HandshakeReply {
    type V = ReplyView;

    open spec fn view(&self) -> ReplyView {
        match *self {
            HandshakeReply::Failed => ReplyView::Failed,
            HandshakeReply::More(b) => ReplyView::More(b@),
            HandshakeReply::Done { response, rest } => ReplyView::Done {
                response: response@,
                rest: rest@,
            },
        }
    }
}

/// The reply that a result of the handshake stands for.
pub open spec fn reply_of(r: HandshakeProcessResult) -> ReplyView {
    match r {
        HandshakeProcessResult::InProgress { response_bytes } => ReplyView::More(response_bytes@),
        HandshakeProcessResult::Completed { response_bytes, remaining_bytes } => ReplyView::Done {
            response: response_bytes@,
            rest: remaining_bytes@,
        },
    }
}

/// The reply that a result of the handshake stands for.
pub fn handshake_reply(result: HandshakeProcessResult) -> (r: HandshakeReply)
    ensures
        r@ == reply_of(result),
{
    match result {
        HandshakeProcessResult::InProgress { response_bytes } => HandshakeReply::More(
            response_bytes,
        ),
        HandshakeProcessResult::Completed { response_bytes, remaining_bytes } =>
            HandshakeReply::Done { response: response_bytes, rest: remaining_bytes },
    }
}

/// The reply that an answer of the handshake stands for.
pub open spec fn answer_reply(
    answer: Result<HandshakeProcessResult, HandshakeError>,
) -> ReplyView {
    match answer {
        Ok(result) => reply_of(result),
        Err(_) => ReplyView::Failed,
    }
}

/// The reply that an answer of the handshake stands for.
pub fn reply_in_answer(answer: Result<HandshakeProcessResult, HandshakeError>) -> (r:
    HandshakeReply)
    ensures
        r@ == answer_reply(answer),
{
    match answer {
        Ok(result) => handshake_reply(result),
        Err(_) => HandshakeReply::Failed,
    }
}

/// The step that sends some bytes, if there are any.
pub open spec fn send_step(b: Seq<u8>) -> Seq<StepView> {
    if b.len() > 0 {
        seq![StepView::Send(b)]
    } else {
        Seq::empty()
    }
}

/// A connection that nothing has come in from.
pub open spec fn at_start() -> ProgressView {
    ProgressView {
        stage: Stage::Handshaking,
        rest: Seq::empty(),
        pending: Seq::empty(),
        stream_key: None,
    }
}

/// A connection after a reply of the handshake.
pub open spec fn after_reply(p: ProgressView, reply: ReplyView) -> ProgressView {
    match reply {
        ReplyView::Failed => ProgressView {
            stage: Stage::Failed(RtmpError::BadHandshake),
            ..p
        },
        ReplyView::More(response) => ProgressView {
            pending: p.pending + send_step(response),
            ..p
        },
        ReplyView::Done { response, rest } => ProgressView {
            stage: Stage::Opening,
            rest,
            pending: p.pending + send_step(response),
            ..p
        },
    }
}

/// A connection after a session was started, or could not be.
pub open spec fn after_opening(p: ProgressView, opened: Option<Seq<StepView>>) -> ProgressView {
    match opened {
        None => ProgressView { stage: Stage::Failed(RtmpError::NoSession), ..p },
        Some(steps) => ProgressView {
            stage: if p.rest.len() > 0 {
                Stage::Resuming
            } else {
                Stage::Running
            },
            pending: p.pending + steps,
            ..p
        },
    }
}

/// A connection after the session took in what came with the end of the handshake, or could not.
pub open spec fn after_resuming(p: ProgressView, taken: Option<Seq<StepView>>) -> ProgressView {
    match taken {
        None => ProgressView { stage: Stage::Over, ..p },
        Some(steps) => ProgressView { stage: Stage::Running, pending: p.pending + steps, ..p },
    }
}

/// A connection after the session took in what the client sent, or could not.
pub open spec fn after_input(p: ProgressView, taken: Option<Seq<StepView>>) -> ProgressView {
    match taken {
        None => ProgressView { stage: Stage::Over, ..p },
        Some(steps) => ProgressView { pending: p.pending + steps, ..p },
    }
}

/// Everything known after a client has left: the stream that it published is no longer live.
pub open spec fn client_left(v: state::AppView, p: ProgressView) -> state::AppView {
    match p.stream_key {
        Some(key) => state::on_stream(v, key, |s: state::StreamView| state::ended(s)),
        None => v,
    }
}

/// Everything known after the session took in what the client sent. Where it could not, the
/// client has left.
pub open spec fn state_after_input(
    v: state::AppView,
    p: ProgressView,
    taken: Option<Seq<StepView>>,
) -> state::AppView {
    if taken is None {
        client_left(v, p)
    } else {
        v
    }
}

/// Everything known after a client sends no more. Only one whose session was under way can have
/// published a stream.
pub open spec fn state_after_silence(v: state::AppView, p: ProgressView) -> state::AppView {
    if p.stage == Stage::Running {
        client_left(v, p)
    } else {
        v
    }
}

/// A connection after the first of the pending steps, where `more` came to be done.
pub open spec fn after_step(p: ProgressView, more: Seq<StepView>) -> ProgressView {
    ProgressView {
        pending: p.pending.skip(1) + more,
        stream_key: match p.pending[0] {
            StepView::Event(e) => rtmp::key_after(p.stream_key, e),
            _ => p.stream_key,
        },
        ..p
    }
}

/// Everything known after a step.
pub open spec fn state_after_step(
    v: state::AppView,
    s: StepView,
    now: Timestamp,
) -> state::AppView {
    match s {
        StepView::Event(e) => rtmp::after_event(v, e, now),
        _ => v,
    }
}

/// What is to be done for a step.
pub open spec fn action_of_step(v: state::AppView, s: StepView) -> rtmp::ActionView {
    match s {
        StepView::Send(b) => rtmp::ActionView::Send(b),
        StepView::Event(e) => rtmp::action_for(v, e),
        StepView::Skip => rtmp::ActionView::Nothing,
    }
}

/// The request that a step asks to accept.
pub open spec fn request_of_step(s: StepView) -> Option<u32> {
    match s {
        StepView::Event(e) => rtmp::request_in(e),
        _ => None,
    }
}

/// A connection after some of the pending steps, where each adds what came to be done with it.
pub open spec fn after_steps(p: ProgressView, added: Seq<Seq<StepView>>) -> ProgressView
    decreases added.len(),
{
    if added.len() == 0 {
        p
    } else {
        after_step(after_steps(p, added.drop_last()), added.last())
    }
}

/// Steps are taken in the order in which they came: after some of those that were pending, the
/// others are still pending in their order, followed by what the taken ones added, in theirs.
pub proof fn law_steps_are_taken_in_order(p: ProgressView, added: Seq<Seq<StepView>>)
    requires
        added.len() <= p.pending.len(),
    ensures
        after_steps(p, added).pending == p.pending.skip(added.len() as int) + added.flatten(),
        after_steps(p, added).stage == p.stage,
    decreases added.len(),
{
    if added.len() == 0 {
        assert(added =~= Seq::empty());
        assert(p.pending.skip(0) + added.flatten() =~= p.pending);
    } else {
        let before = added.drop_last();
        law_steps_are_taken_in_order(p, before);
        assert(added =~= before.push(added.last()));
        before.lemma_flatten_push(added.last());
        assert(after_steps(p, added).pending =~= p.pending.skip(added.len() as int)
            + added.flatten());
    }
}

/// A connection that has failed or is over takes in nothing more: what is left to do is done, and
/// then it is finished.
pub proof fn law_over_is_over(p: ProgressView, added: Seq<Seq<StepView>>)
    requires
        p.stage == Stage::Over || p.stage is Failed,
        added.len() <= p.pending.len(),
    ensures
        action_at_rest(after_steps(p, added)) == action_at_rest(p),
        action_at_rest(p) is Finish || action_at_rest(p) is Fail,
{
    law_steps_are_taken_in_order(p, added);
}

impl Progress {
    /// A connection that nothing has come in from.
    pub fn new() -> (r: Self)
        ensures
            r@ == at_start(),
    {
        let r = Progress {
            stage: Stage::Handshaking,
            rest: Vec::new(),
            pending: Vec::new(),
            stream_key: None,
        };
        assert(r@.pending =~= Seq::empty());
        r
    }

    /// Adds steps to those that are pending.
    fn add_steps(&mut self, steps: Vec<SessionStep>)
        ensures
            final(self)@ == (ProgressView {
                pending: old(self)@.pending + step_views(steps@),
                ..old(self)@
            }),
    {
        let ghost given = steps@;
        let mut steps = steps;
        self.pending.append(&mut steps);
        assert(self@.pending =~= old(self)@.pending + step_views(given));
    }

    /// Adds the sending of some bytes to what is pending, if there are any.
    fn add_send(&mut self, response: Vec<u8>)
        ensures
            final(self)@ == (ProgressView {
                pending: old(self)@.pending + send_step(response@),
                ..old(self)@
            }),
    {
        if !response.is_empty() {
            self.pending.push(SessionStep::Send(response));
        }
        assert(self@.pending =~= old(self)@.pending + send_step(response@));
    }

    /// Takes note of a reply of the handshake.
    pub fn shaken(&mut self, reply: HandshakeReply)
        ensures
            final(self)@ == after_reply(old(self)@, reply@),
    {
        match reply {
            HandshakeReply::Failed => {
                self.stage = Stage::Failed(RtmpError::BadHandshake);
            },
            HandshakeReply::More(response) => {
                self.add_send(response);
            },
            HandshakeReply::Done { response, rest } => {
                self.add_send(response);
                self.stage = Stage::Opening;
                self.rest = rest;
            },
        }
    }

    /// Takes note of the start of a session, or that none could be started.
    pub fn opened(&mut self, opened: Option<Vec<SessionStep>>)
        ensures
            final(self)@ == after_opening(old(self)@, opt_steps(opened)),
    {
        match opened {
            None => {
                self.stage = Stage::Failed(RtmpError::NoSession);
            },
            Some(steps) => {
                self.add_steps(steps);
                if self.rest.is_empty() {
                    self.stage = Stage::Running;
                } else {
                    self.stage = Stage::Resuming;
                }
            },
        }
    }

    /// Takes note of what came of the bytes that came with the end of the handshake.
    pub fn resumed(&mut self, taken: Option<Vec<SessionStep>>)
        ensures
            final(self)@ == after_resuming(old(self)@, opt_steps(taken)),
    {
        match taken {
            None => {
                self.stage = Stage::Over;
            },
            Some(steps) => {
                self.add_steps(steps);
                self.stage = Stage::Running;
            },
        }
    }

    /// Takes note of what came of the client's bytes. Where the session could not take them in,
    /// the client has left.
    pub fn fed(&mut self, state: &mut AppState, taken: Option<Vec<SessionStep>>)
        requires
            old(state).wf(),
        ensures
            final(state).wf(),
            final(self)@ == after_input(old(self)@, opt_steps(taken)),
            final(state)@ == state_after_input(old(state)@, old(self)@, opt_steps(taken)),
    {
        match taken {
            None => {
                self.leave(state);
            },
            Some(steps) => {
                self.add_steps(steps);
            },
        }
    }

    /// Takes note that a client has left: the stream that it published is no longer live.
    fn leave(&mut self, state: &mut AppState)
        requires
            old(state).wf(),
        ensures
            final(state).wf(),
            final(self)@ == (ProgressView { stage: Stage::Over, ..old(self)@ }),
            final(state)@ == client_left(old(state)@, old(self)@),
    {
        self.stage = Stage::Over;
        if let Some(key) = &self.stream_key {
            state.end_stream(key.as_str());
        }
    }

    /// Takes note that the client sends no more.
    pub fn disconnected(&mut self, state: &mut AppState)
        requires
            old(state).wf(),
        ensures
            final(state).wf(),
            final(self)@ == (ProgressView { stage: Stage::Over, ..old(self)@ }),
            final(state)@ == state_after_silence(old(state)@, old(self)@),
    {
        if self.stage == Stage::Running {
            self.leave(state);
        } else {
            self.stage = Stage::Over;
        }
    }

    /// Takes the first of the pending steps: acts on everything known, and hands back what is to
    /// be done and the request that is to be accepted.
    pub fn step(&mut self, state: &mut AppState, now: Timestamp) -> (r: (RtmpAction, Option<u32>))
        requires
            old(state).wf(),
            old(self)@.pending.len() > 0,
        ensures
            final(state).wf(),
            final(self)@ == after_step(old(self)@, Seq::empty()),
            final(state)@ == state_after_step(old(state)@, old(self)@.pending[0], now),
            r.0@ == action_of_step(old(state)@, old(self)@.pending[0]),
            r.1 == request_of_step(old(self)@.pending[0]),
    {
        let step = self.pending.remove(0);
        assert(self@.pending =~= old(self)@.pending.skip(1) + Seq::<StepView>::empty());
        match step {
            SessionStep::Send(bytes) => (RtmpAction::Send(bytes), None),
            SessionStep::Event(event) => {
                let request: Option<u32> = rtmp::request_of(&event);
                let action = rtmp::apply_event(state, &mut self.stream_key, event, now);
                (action, request)
            },
            SessionStep::Skip => (RtmpAction::Nothing, None),
        }
    }
}

/// Optional steps, by their texts and bytes.
pub open spec fn opt_steps(steps: Option<Vec<SessionStep>>) -> Option<Seq<StepView>> {
    match steps {
        Some(list) => Some(step_views(list@)),
        None => None,
    }
}

/// What becomes of bytes that were read of a client.
#[derive(Clone, Copy, Debug, PartialEq, Eq, Structural)]
pub enum Received {
    /// They were taken in.
    Taken,
    /// They are for the session to take in.
    ForSession,
    /// There are none: the client sends no more.
    Silence,
}

/// What becomes of a number of bytes that were read of a client.
pub open spec fn received(stage: Stage, len: nat) -> Received {
    if len == 0 {
        Received::Silence
    } else if stage == Stage::Running {
        Received::ForSession
    } else {
        Received::Taken
    }
}

/// A client of the RTMP server.
pub struct RtmpClient {
    progress: Progress,
    handshake: Handshake,
    session: Option<ServerSession>,
}

/// The steps that an answer of the session asks for: those of its results, in their order; none
/// where it is an error.
pub open spec fn answer_steps(
    answer: Result<Vec<ServerSessionResult>, ServerSessionError>,
) -> Option<Seq<StepView>> {
    match answer {
        Ok(results) => Some(results@.map_values(|x: ServerSessionResult| step_of(x))),
        Err(_) => None,
    }
}

/// The steps that an answer of the session asks for.
pub fn steps_in_answer(answer: Result<Vec<ServerSessionResult>, ServerSessionError>) -> (r: Option<
    Vec<SessionStep>,
>)
    ensures
        opt_steps(r) == answer_steps(answer),
{
    match answer {
        Ok(results) => Some(steps_of(results)),
        Err(_) => None,
    }
}

/// The steps that come to be done when a request is accepted: none where it could not be.
pub open spec fn accepted_steps(
    answer: Result<Vec<ServerSessionResult>, ServerSessionError>,
) -> Seq<StepView> {
    match answer_steps(answer) {
        Some(steps) => steps,
        None => Seq::empty(),
    }
}

/// The steps that the start of a session asks for; none where it could not be started.
pub open spec fn start_steps(
    answer: Result<(ServerSession, Vec<ServerSessionResult>), ServerSessionError>,
) -> Option<Seq<StepView>> {
    match answer {
        Ok(started) => Some(started.1@.map_values(|x: ServerSessionResult| step_of(x))),
        Err(_) => None,
    }
}

/// What is to be done where nothing is pending.
pub open spec fn action_at_rest(p: ProgressView) -> rtmp::ActionView {
    match p.stage {
        Stage::Handshaking => rtmp::ActionView::Read,
        Stage::Opening => rtmp::ActionView::Nothing,
        Stage::Resuming => rtmp::ActionView::Resume(p.rest),
        Stage::Running => rtmp::ActionView::Read,
        Stage::Over => rtmp::ActionView::Finish,
        Stage::Failed(error) => rtmp::ActionView::Fail(error),
    }
}

/// Whether none of some steps asks to accept a request.
pub open spec fn no_requests(steps: Seq<StepView>) -> bool {
    forall|i: int| 0 <= i < steps.len() ==> request_of_step(#[trigger] steps[i]) is None
}

/// Whether a client may go on as `after` when the handshake has taken in some bytes: as one after
/// the reply that the handshake's answer stands for.
pub open spec fn shaken_by(before: RtmpClient, data: Seq<u8>, after: RtmpClient) -> bool {
    &&& after.session() == before.session()
    &&& exists|answer: Result<HandshakeProcessResult, HandshakeError>| #[trigger]
        wire::handshake_takes(before.handshake(), data, after.handshake(), answer)
            && after.progress() == after_reply(before.progress(), answer_reply(answer))
}

/// Whether a client may go on as `after` when a session was to be started with the defaults.
pub open spec fn opened_by(before: RtmpClient, after: RtmpClient) -> bool {
    &&& after.handshake() == before.handshake()
    &&& exists|
        config: ServerSessionConfig,
        answer: Result<(ServerSession, Vec<ServerSessionResult>), ServerSessionError>,
    |
        {
            &&& wire::default_config(config)
            &&& #[trigger] wire::session_starts(config, answer)
            &&& after.progress() == after_opening(before.progress(), start_steps(answer))
            &&& after.session() == (match answer {
                Ok(started) => Some(started.0),
                Err(_) => before.session(),
            })
        }
}

/// Whether a client whose connection has come as far as `p` may go on as `after` when the session
/// was told to accept a request: the request no longer waits, and the steps that the session's
/// answer asks for come to be done after those that are pending.
pub open spec fn accepted_by(
    before: RtmpClient,
    p: ProgressView,
    id: u32,
    after: RtmpClient,
) -> bool {
    &&& after.handshake() == before.handshake()
    &&& !wire::session_waiting(after.session()->0).contains(id)
    &&& exists|answer: Result<Vec<ServerSessionResult>, ServerSessionError>| #[trigger]
        wire::session_accepts(before.session()->0, id, after.session()->0, answer)
            && after.progress() == (ProgressView {
            pending: p.pending + accepted_steps(answer),
            ..p
        })
}

impl RtmpClient {
    /// How far the connection has come.
    pub closed spec fn progress(&self) -> ProgressView {
        self.progress@
    }

    /// The handshake with the client.
    pub closed spec fn handshake(&self) -> Handshake {
        self.handshake
    }

    /// The session with the client, once there is one.
    pub closed spec fn session(&self) -> Option<ServerSession> {
        self.session
    }

    /// The handshake is held for the server, there is a session wherever one is needed, and before
    /// there is one nothing asks to accept a request.
    pub open spec fn wf(&self) -> bool {
        &&& wire::handshake_side(self.handshake()) == PeerType::Server
        &&& self.progress().stage == Stage::Resuming ==> self.session() is Some
        &&& self.progress().stage == Stage::Running ==> self.session() is Some
        &&& self.session() is None ==> no_requests(self.progress().pending)
    }

    /// A client that has sent nothing yet.
    pub fn new() -> (r: Self)
        ensures
            r.wf(),
            r.progress() == at_start(),
            r.session() is None,
            wire::handshake_side(r.handshake()) == PeerType::Server,
    {
        RtmpClient {
            progress: Progress::new(),
            handshake: Handshake::new(PeerType::Server),
            session: None,
        }
    }

    /// The session with the client, to take in its bytes. What it answers goes to `fed`, or to
    /// `resumed` for what came with the end of the handshake.
    pub fn session_mut(&mut self) -> (r: Option<&mut ServerSession>)
        ensures
            match r {
                Some(s) => old(self).session() == Some(*s) && final(self).session() == Some(
                    *final(s),
                ),
                None => old(self).session() is None && final(self).session() is None,
            },
            final(self).progress() == old(self).progress(),
            final(self).handshake() == old(self).handshake(),
    {
        match &mut self.session {
            Some(session) => Some(session),
            None => None,
        }
    }

    /// Takes in bytes that were read of the client. Those of the handshake go to it: what it makes of
    /// them is not known beforehand, and the connection goes on as one after its answer. Those of a
    /// session that is under way are left for it. No bytes at all mean that the client sends no more.
    /// Bytes that nobody waits for change nothing.
    pub fn receive(&mut self, data: &[u8]) -> (r: Received)
        requires
            old(self).wf(),
        ensures
            final(self).wf(),
            r == received(old(self).progress().stage, data@.len()),
            if r == Received::Taken && old(self).progress().stage == Stage::Handshaking {
                shaken_by(*old(self), data@, *final(self))
            } else {
                *final(self) == *old(self)
            },
    {
        if data.len() == 0 {
            return Received::Silence;
        }
        match self.progress.stage {
            Stage::Handshaking => {
                self.shake(data);
                Received::Taken
            },
            Stage::Running => Received::ForSession,
            _ => Received::Taken,
        }
    }

    /// Takes note that the client sends no more.
    pub fn disconnected(&mut self, state: &mut AppState)
        requires
            old(self).wf(),
            old(state).wf(),
        ensures
            final(self).wf(),
            final(state).wf(),
            final(self).progress() == (ProgressView {
                stage: Stage::Over,
                ..old(self).progress()
            }),
            final(state)@ == state_after_silence(old(state)@, old(self).progress()),
            final(self).handshake() == old(self).handshake(),
            final(self).session() == old(self).session(),
    {
        self.progress.disconnected(state);
    }

    /// Takes note of what the session answered to bytes of the client. Where it could not take them
    /// in, the client has left.
    pub fn fed(
        &mut self,
        state: &mut AppState,
        answer: Result<Vec<ServerSessionResult>, ServerSessionError>,
    )
        requires
            old(self).wf(),
            old(state).wf(),
            old(self).progress().stage == Stage::Running,
        ensures
            final(self).wf(),
            final(state).wf(),
            final(self).progress() == after_input(old(self).progress(), answer_steps(answer)),
            final(state)@ == state_after_input(
                old(state)@,
                old(self).progress(),
                answer_steps(answer),
            ),
            final(self).session() == old(self).session(),
            final(self).handshake() == old(self).handshake(),
    {
        self.progress.fed(state, steps_in_answer(answer));
    }

    /// Takes note of what the session answered to what came with the end of the handshake.
    pub fn resumed(&mut self, answer: Result<Vec<ServerSessionResult>, ServerSessionError>)
        requires
            old(self).wf(),
            old(self).progress().stage == Stage::Resuming,
        ensures
            final(self).wf(),
            final(self).progress() == after_resuming(old(self).progress(), answer_steps(answer)),
            final(self).session() == old(self).session(),
            final(self).handshake() == old(self).handshake(),
    {
        self.progress.resumed(steps_in_answer(answer));
    }

    /// Hands bytes of the client to the handshake.
    fn shake(&mut self, data: &[u8])
        requires
            old(self).wf(),
            old(self).progress().stage == Stage::Handshaking,
        ensures
            final(self).wf(),
            shaken_by(*old(self), data@, *final(self)),
    {
        let answer = self.handshake.process_bytes(data);
        let ghost given = answer;
        self.progress.shaken(reply_in_answer(answer));
        assert(wire::handshake_takes(old(self).handshake(), data@, self.handshake(), given));
    }

    /// Starts a session with the defaults.
    fn open_session(&mut self)
        requires
            old(self).wf(),
            old(self).progress().stage == Stage::Opening,
        ensures
            final(self).wf(),
            opened_by(*old(self), *final(self)),
    {
        let config = ServerSessionConfig::new();
        let ghost given = config;
        let answer = ServerSession::new(config);
        let ghost outcome = answer;
        match answer {
            Ok((session, results)) => {
                self.session = Some(session);
                self.progress.opened(Some(steps_of(results)));
            },
            Err(_) => {
                self.progress.opened(None);
            },
        }
        assert(wire::session_starts(given, outcome));
    }

    /// Tells the session to accept a request.
    fn accept(&mut self, id: u32)
        requires
            old(self).wf(),
            old(self).session() is Some,
        ensures
            final(self).wf(),
            final(self).session() is Some,
            accepted_by(*old(self), old(self).progress(), id, *final(self)),
    {
        if let Some(session) = &mut self.session {
            let answer = session.accept_request(id);
            let ghost to = *session;
            let ghost given = answer;
            if let Some(steps) = steps_in_answer(answer) {
                self.progress.add_steps(steps);
            }
            proof {
                assert(self.progress().pending =~= old(self).progress().pending + accepted_steps(
                    given,
                ));
                assert(self.session() == Some(to));
                assert(wire::session_accepts(
                    old(self).session()->0,
                    id,
                    self.session()->0,
                    given,
                ));
            }
        }
    }

    /// Does the next thing that there is to do, and hands back what of it is left for others. A
    /// request is accepted, and then no longer waits; what the session adds is not known beforehand.
    /// A step that asks to accept no request adds nothing.
    pub fn next(&mut self, state: &mut AppState) -> (r: RtmpAction)
        requires
            old(self).wf(),
            old(state).wf(),
        ensures
            final(self).wf(),
            final(state).wf(),
            old(self).progress().pending.len() > 0 ==> {
                let p = old(self).progress();
                let taken = after_step(p, Seq::empty());
                &&& r@ == action_of_step(old(state)@, p.pending[0])
                &&& exists|now: Timestamp|
                    outside::clock_may_give(now.secs, now.nanos) && final(state)@
                        == #[trigger] state_after_step(old(state)@, p.pending[0], now)
                &&& match request_of_step(p.pending[0]) {
                    Some(id) => accepted_by(*old(self), taken, id, *final(self)),
                    None => {
                        &&& final(self).progress() == taken
                        &&& final(self).handshake() == old(self).handshake()
                        &&& final(self).session() == old(self).session()
                    },
                }
            },
            old(self).progress().pending.len() == 0 ==> {
                &&& final(state)@ == old(state)@
                &&& r@ == action_at_rest(old(self).progress())
                &&& match old(self).progress().stage {
                    Stage::Opening => opened_by(*old(self), *final(self)),
                    _ => *final(self) == *old(self),
                }
            },
    {
        let ghost p = self.progress@;
        if self.progress.pending.is_empty() {
            match self.progress.stage {
                Stage::Handshaking => RtmpAction::Read,
                Stage::Running => RtmpAction::Read,
                Stage::Opening => {
                    self.open_session();
                    RtmpAction::Nothing
                },
                Stage::Resuming => RtmpAction::Resume(self.progress.rest.clone()),
                Stage::Over => RtmpAction::Finish,
                Stage::Failed(error) => RtmpAction::Fail(error),
            }
        } else {
            let now: Timestamp = outside::utc_now();
            let (action, request) = self.progress.step(state, now);
            assert(state_after_step(old(state)@, p.pending[0], now) == state@);
            if let Some(id) = request {
                self.accept(id);
            }
            action
        }
    }
}

} // verus!
