//! What the library takes from the RTMP protocol crate, and what it relies on of it.
use crate::outside;
use bytes::Bytes;
use rml_rtmp::chunk_io::Packet;
use rml_rtmp::handshake::{Handshake, HandshakeError, HandshakeProcessResult, PeerType};
use rml_rtmp::messages::MessagePayload;
use rml_rtmp::sessions::{
    ServerSession, ServerSessionConfig, ServerSessionError, ServerSessionEvent, ServerSessionResult,
};
use vstd::prelude::*;

verus! {

/// `rml_rtmp::handshake::Handshake`: one side of a handshake that is under way.
#[verifier::external_type_specification]
#[verifier::external_body]
pub struct ExHandshake(Handshake);

/// `rml_rtmp::handshake::HandshakeError`: why a handshake failed.
#[verifier::external_type_specification]
#[verifier::external_body]
pub struct ExHandshakeError(HandshakeError);

/// `rml_rtmp::handshake::PeerType`: which side of a handshake one is.
#[verifier::external_type_specification]
pub struct ExPeerType(PeerType);

/// `rml_rtmp::handshake::HandshakeProcessResult`: how far a handshake has come.
#[verifier::external_type_specification]
pub struct ExHandshakeProcessResult(HandshakeProcessResult);

/// `rml_rtmp::sessions::ServerSession`: the server's side of a connection.
#[verifier::external_type_specification]
#[verifier::external_body]
pub struct ExServerSession(ServerSession);

/// `rml_rtmp::sessions::ServerSessionConfig`: how a session is run.
#[verifier::external_type_specification]
#[verifier::external_body]
pub struct ExServerSessionConfig(ServerSessionConfig);

/// `rml_rtmp::sessions::ServerSessionError`: why a session failed.
#[verifier::external_type_specification]
#[verifier::external_body]
pub struct ExServerSessionError(ServerSessionError);

/// `rml_rtmp::sessions::ServerSessionResult`: what a session wants done.
#[verifier::external_type_specification]
pub struct ExServerSessionResult(ServerSessionResult);

/// `rml_rtmp::sessions::ServerSessionEvent`: what a session has noticed.
#[verifier::external_type_specification]
#[verifier::external_body]
pub struct ExServerSessionEvent(ServerSessionEvent);

/// `rml_rtmp::chunk_io::Packet`: bytes for the client.
#[verifier::external_type_specification]
pub struct ExPacket(Packet);

/// `rml_rtmp::messages::MessagePayload`: a message that the session did not understand.
#[verifier::external_type_specification]
#[verifier::external_body]
pub struct ExMessagePayload(MessagePayload);

/// The side that a handshake speaks for.
pub uninterp spec fn handshake_side(handshake: Handshake) -> PeerType;

/// `Handshake::new` makes a handshake that nothing has come in for yet, for the side that it is
/// given. Nothing else is said of what it holds.
pub assume_specification[ Handshake::new ](peer_type: PeerType) -> (r: Handshake)
    ensures
        handshake_side(r) == peer_type,
;

/// Whether a handshake that stands as `before` may, given some bytes of the peer, answer so and then
/// stand as `after`.
pub uninterp spec fn handshake_takes(
    before: Handshake,
    data: Seq<u8>,
    after: Handshake,
    answer: Result<HandshakeProcessResult, HandshakeError>,
) -> bool;

/// `Handshake::process_bytes` takes in bytes of the peer, and the handshake goes on for the same
/// side. What it answers, and how it then stands, rests on the bytes, on those that came before and
/// on random numbers: it is one of the outcomes that these may give, and no more is said of it.
pub assume_specification[ Handshake::process_bytes ](
    handshake: &mut Handshake,
    data: &[u8],
) -> (r: Result<HandshakeProcessResult, HandshakeError>)
    ensures
        handshake_side(*final(handshake)) == handshake_side(*old(handshake)),
        handshake_takes(*old(handshake), data@, *final(handshake), r),
;

/// Whether a configuration holds the defaults of the protocol crate.
pub uninterp spec fn default_config(config: ServerSessionConfig) -> bool;

/// `ServerSessionConfig::new` gives the crate's defaults. Nothing is said of what they are.
pub assume_specification[ ServerSessionConfig::new ]() -> (r: ServerSessionConfig)
    ensures
        default_config(r),
;

/// Whether starting a session with a configuration may give an answer.
pub uninterp spec fn session_starts(
    config: ServerSessionConfig,
    answer: Result<(ServerSession, Vec<ServerSessionResult>), ServerSessionError>,
) -> bool;

/// `ServerSession::new` starts a session and tells what is to be sent first. What that is rests on
/// the configuration and on the clock: it is one of the outcomes that these may give, and no more is
/// said of it. It is called with the defaults only: there are configurations, such as one with chunks
/// of no bytes, with which it does not return.
pub assume_specification[ ServerSession::new ](config: ServerSessionConfig) -> (r: Result<
    (ServerSession, Vec<ServerSessionResult>),
    ServerSessionError,
>)
    requires
        default_config(config),
    ensures
        session_starts(config, r),
;

/// The numbers of the requests that a session has raised and that are neither accepted nor rejected.
pub uninterp spec fn session_waiting(session: ServerSession) -> Set<u32>;

/// Whether a session that stands as `before` may, told to accept a request, answer so and then stand
/// as `after`.
pub uninterp spec fn session_accepts(
    before: ServerSession,
    request_id: u32,
    after: ServerSession,
    answer: Result<Vec<ServerSessionResult>, ServerSessionError>,
) -> bool;

/// `ServerSession::accept_request` accepts a request that the session has raised, which then no
/// longer waits; an unknown number changes no request. What is to be sent, and how the session then
/// stands, rests on the number, on what the session knows of it and on the clock: it is one of the
/// outcomes that these may give, and no more is said of it.
pub assume_specification[ ServerSession::accept_request ](
    session: &mut ServerSession,
    request_id: u32,
) -> (r: Result<Vec<ServerSessionResult>, ServerSessionError>)
    ensures
        session_waiting(*final(session)) == session_waiting(*old(session)).remove(request_id),
        session_accepts(*old(session), request_id, *final(session), r),
;

/// What a session has noticed, as far as the library acts on it.
pub enum SessionEvent {
    /// The client wants to connect.
    ConnectionRequested { request_id: u32 },
    /// The client wants to publish a stream.
    PublishRequested { request_id: u32, stream_key: String },
    /// Video came.
    VideoReceived { stream_key: String, data: Bytes, timestamp: u32 },
    /// Audio came.
    AudioReceived { stream_key: String, data: Bytes, timestamp: u32 },
    /// The client no longer publishes a stream.
    PublishFinished { stream_key: String },
    /// Anything else.
    Other,
}

/// What a session has noticed, by its texts and bytes.
pub enum EventView {
    ConnectionRequested { request_id: u32 },
    PublishRequested { request_id: u32, stream_key: Seq<char> },
    VideoReceived { stream_key: Seq<char>, data: Seq<u8>, timestamp: u32 },
    AudioReceived { stream_key: Seq<char>, data: Seq<u8>, timestamp: u32 },
    PublishFinished { stream_key: Seq<char> },
    Other,
}

impl View for SessionEvent {
    type V = EventView;

    open spec fn view(&self) -> EventView {
        match *self {
            SessionEvent::ConnectionRequested { request_id } => EventView::ConnectionRequested {
                request_id,
            },
            SessionEvent::PublishRequested { request_id, stream_key } =>
                EventView::PublishRequested { request_id, stream_key: stream_key@ },
            SessionEvent::VideoReceived { stream_key, data, timestamp } =>
                EventView::VideoReceived {
                    stream_key: stream_key@,
                    data: outside::bytes_seq(data),
                    timestamp,
                },
            SessionEvent::AudioReceived { stream_key, data, timestamp } =>
                EventView::AudioReceived {
                    stream_key: stream_key@,
                    data: outside::bytes_seq(data),
                    timestamp,
                },
            SessionEvent::PublishFinished { stream_key } => EventView::PublishFinished {
                stream_key: stream_key@,
            },
            SessionEvent::Other => EventView::Other,
        }
    }
}

/// What an event of the protocol crate says.
pub uninterp spec fn event_content(e: ServerSessionEvent) -> EventView;

/// Reads a `ServerSessionEvent`: the variants that the library acts on, each with the fields that
/// it needs, and any other as `Other`.
#[verifier::external_body]
pub(crate) fn read_event(event: ServerSessionEvent) -> (r: SessionEvent)
    ensures
        r@ == event_content(event),
{
    match event {
        ServerSessionEvent::ConnectionRequested { request_id, .. } =>
            SessionEvent::ConnectionRequested { request_id },
        ServerSessionEvent::PublishStreamRequested { request_id, stream_key, .. } =>
            SessionEvent::PublishRequested { request_id, stream_key },
        ServerSessionEvent::VideoDataReceived { stream_key, data, timestamp, .. } =>
            SessionEvent::VideoReceived { stream_key, data, timestamp: timestamp.value },
        ServerSessionEvent::AudioDataReceived { stream_key, data, timestamp, .. } =>
            SessionEvent::AudioReceived { stream_key, data, timestamp: timestamp.value },
        ServerSessionEvent::PublishStreamFinished { stream_key, .. } =>
            SessionEvent::PublishFinished { stream_key },
        _ => SessionEvent::Other,
    }
}

} // verus!
