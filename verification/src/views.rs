//! What the views of the library's types show: each field, and nothing else in its place.
use crate::api;
use crate::auth;
use crate::chat;
use crate::client;
use crate::outside;
use crate::rtmp;
use crate::state;
use crate::types;
use crate::wire;
use bytes::Bytes;
use vstd::prelude::*;

verus! {

/// The view of a stream's description shows its fields.
pub proof fn law_stream_metadata_is_shown(m: types::StreamMetadata)
    ensures
        m@.stream_key == m.stream_key@,
        m@.title == m.title@,
        m@.broadcaster == m.broadcaster@,
        m@.category == m.category@,
        m@.description == m.description@,
        m@.is_live == m.is_live,
        m@.source_type == m.source_type@,
        m@.started_at == m.started_at,
        m@.viewer_count == m.viewer_count,
        m@.bitrate_kbps == m.bitrate_kbps,
        m@.fps == m.fps,
        m@.resolution == m.resolution@,
{
}

/// The view of a user shows its fields.
pub proof fn law_user_is_shown(u: types::User)
    ensures
        u@.username == u.username@,
        u@.password_hash == u.password_hash@,
        u@.token == u.token@,
        u@.created_at == u.created_at,
{
}

/// The view of a chat message shows its fields.
pub proof fn law_chat_message_is_shown(m: types::ChatMessage)
    ensures
        m@.id == m.id@,
        m@.stream_key == m.stream_key@,
        m@.sender == m.sender@,
        m.badge is None <==> m@.badge is None,
        m.badge is Some ==> m@.badge == Some(m.badge->0@),
        m@.message == m.message@,
        m@.timestamp == m.timestamp,
{
}

/// The view of a packet shows its kind and its fields, and its bytes are the packet's data.
pub proof fn law_packet_is_shown(
    data: Bytes,
    content_type: String,
    timestamp_ms: u32,
    is_keyframe: bool,
)
    ensures
        ({
            let b = outside::bytes_seq(data);
            let header = types::MediaPacket::SequenceHeader(data);
            let video = types::MediaPacket::Video { data, timestamp_ms, is_keyframe };
            let audio = types::MediaPacket::Audio { data, timestamp_ms };
            let chunk = types::MediaPacket::RawChunk { data, content_type };
            &&& header@ == types::PacketView::SequenceHeader(b)
            &&& video@ == (types::PacketView::Video { data: b, timestamp_ms, is_keyframe })
            &&& audio@ == (types::PacketView::Audio { data: b, timestamp_ms })
            &&& chunk@ == (types::PacketView::RawChunk { data: b, content_type: content_type@ })
            &&& header@.bytes() == b && video@.bytes() == b && audio@.bytes() == b && chunk@.bytes()
                == b
        }),
{
}

/// The view of a stream shows what it keeps, in its order.
pub proof fn law_stream_is_shown(s: state::LiveStream, i: int)
    ensures
        s@.meta == s.meta@,
        s@.chat.len() == s.recent_chat@.len(),
        0 <= i < s.recent_chat@.len() ==> s@.chat[i] == s.recent_chat@[i]@,
        s.video_sequence_header is None <==> s@.video is None,
        s.video_sequence_header is Some ==> s@.video == Some(
            outside::bytes_seq(s.video_sequence_header->0),
        ),
        s.audio_sequence_header is None <==> s@.audio is None,
        s.audio_sequence_header is Some ==> s@.audio == Some(
            outside::bytes_seq(s.audio_sequence_header->0),
        ),
        s@.gop.len() == s.gop_cache@.len(),
        0 <= i < s.gop_cache@.len() ==> s@.gop[i] == outside::bytes_seq(s.gop_cache@[i]),
{
}

/// The view of everything known shows every stream, user and token under its key.
pub proof fn law_everything_known_is_shown(s: state::AppState, k: Seq<char>)
    ensures
        s@.order == s.streams.keys(),
        s@.streams.contains_key(k) <==> s.streams@.contains_key(k),
        s@.streams.contains_key(k) ==> s@.streams[k] == s.streams@[k]@,
        s@.users.contains_key(k) <==> s.users@.contains_key(k),
        s@.users.contains_key(k) ==> s@.users[k] == s.users@[k]@,
        s@.tokens.contains_key(k) <==> s.tokens@.contains_key(k),
        s@.tokens.contains_key(k) ==> s@.tokens[k] == s.tokens@[k]@,
        s@.disable_registration == s.disable_registration,
        s@.record_config == s.record_config,
{
}

/// The views of users and tokens that are kept show each of them under its key.
pub proof fn law_kept_accounts_are_shown(
    users: Map<Seq<char>, types::User>,
    tokens: Map<Seq<char>, String>,
    k: Seq<char>,
)
    ensures
        state::user_views(users).contains_key(k) <==> users.contains_key(k),
        users.contains_key(k) ==> state::user_views(users)[k] == users[k]@,
        state::token_views(tokens).contains_key(k) <==> tokens.contains_key(k),
        tokens.contains_key(k) ==> state::token_views(tokens)[k] == tokens[k]@,
{
}

/// A map with string keys holds a key exactly where it is among its keys, with the value that stands
/// at the key's place.
pub proof fn law_map_is_shown<V>(m: crate::store::StringMap<V>, k: Seq<char>, i: int)
    requires
        m.wf(),
    ensures
        m@.contains_key(k) <==> m.keys().contains(k),
        0 <= i < m.keys().len() ==> m@.contains_key(m.keys()[i]) && m@[m.keys()[i]] == m.values()[i],
        m.keys().len() == m.values().len(),
        forall|a: int, b: int|
            0 <= a < b < m.keys().len() ==> #[trigger] m.keys()[a] != #[trigger] m.keys()[b],
{
    if 0 <= i < m.keys().len() {
        m.lemma_position(i);
    }
}

/// The views of lists are as long as the lists, and show each item at its place.
pub proof fn law_lists_are_shown(
    streams: Seq<types::StreamMetadata>,
    messages: Seq<types::ChatMessage>,
    packets: Seq<types::MediaPacket>,
    steps: Seq<client::SessionStep>,
    runs: Seq<Bytes>,
    i: int,
)
    ensures
        api::meta_views(streams).len() == streams.len(),
        0 <= i < streams.len() ==> api::meta_views(streams)[i] == streams[i]@,
        state::chat_views(messages).len() == messages.len(),
        0 <= i < messages.len() ==> state::chat_views(messages)[i] == messages[i]@,
        rtmp::packet_views(packets).len() == packets.len(),
        0 <= i < packets.len() ==> rtmp::packet_views(packets)[i] == packets[i]@,
        client::step_views(steps).len() == steps.len(),
        0 <= i < steps.len() ==> client::step_views(steps)[i] == steps[i]@,
        outside::all_bytes(runs).len() == runs.len(),
        0 <= i < runs.len() ==> outside::all_bytes(runs)[i] == outside::bytes_seq(runs[i]),
{
}

/// The views of what may be missing are missing exactly where it is.
pub proof fn law_options_are_shown(
    t: Option<String>,
    b: Option<Bytes>,
    steps: Option<Vec<client::SessionStep>>,
)
    ensures
        types::opt_text(t) is None <==> t is None,
        t is Some ==> types::opt_text(t) == Some(t->0@),
        t is Some ==> api::text_or_empty(t) == t->0@,
        t is None ==> api::text_or_empty(t).len() == 0,
        outside::opt_bytes(b) is None <==> b is None,
        b is Some ==> outside::opt_bytes(b) == Some(outside::bytes_seq(b->0)),
        client::opt_steps(steps) is None <==> steps is None,
        steps is Some ==> client::opt_steps(steps) == Some(client::step_views(steps->0@)),
{
}

/// The view of an event shows its kind and its fields.
pub proof fn law_event_is_shown(request_id: u32, stream_key: String, data: Bytes, timestamp: u32)
    ensures
        ({
            let k = stream_key@;
            let b = outside::bytes_seq(data);
            let connect = wire::SessionEvent::ConnectionRequested { request_id };
            let publish = wire::SessionEvent::PublishRequested { request_id, stream_key };
            let video = wire::SessionEvent::VideoReceived { stream_key, data, timestamp };
            let audio = wire::SessionEvent::AudioReceived { stream_key, data, timestamp };
            let done = wire::SessionEvent::PublishFinished { stream_key };
            let other = wire::SessionEvent::Other;
            &&& connect@ == (wire::EventView::ConnectionRequested { request_id })
            &&& publish@ == (wire::EventView::PublishRequested { request_id, stream_key: k })
            &&& video@ == (wire::EventView::VideoReceived { stream_key: k, data: b, timestamp })
            &&& audio@ == (wire::EventView::AudioReceived { stream_key: k, data: b, timestamp })
            &&& done@ == (wire::EventView::PublishFinished { stream_key: k })
            &&& other@ == wire::EventView::Other
        }),
{
}

/// The views of what a client's connection asks for and of what is to be done show their kinds and
/// their fields.
pub proof fn law_steps_and_actions_are_shown(
    bytes: Vec<u8>,
    rest: Vec<u8>,
    key: String,
    packets: Vec<types::MediaPacket>,
    event: wire::SessionEvent,
    error: rtmp::RtmpError,
)
    ensures
        client::SessionStep::Send(bytes)@ == client::StepView::Send(bytes@),
        client::SessionStep::Event(event)@ == client::StepView::Event(event@),
        client::SessionStep::Skip@ == client::StepView::Skip,
        rtmp::RtmpAction::Send(bytes)@ == rtmp::ActionView::Send(bytes@),
        (rtmp::RtmpAction::Broadcast { stream_key: key, packets })@ == (
        rtmp::ActionView::Broadcast {
            stream_key: key@,
            packets: packets@.map_values(|p: types::MediaPacket| p@),
        }),
        rtmp::RtmpAction::Record(key)@ == rtmp::ActionView::Record(key@),
        rtmp::RtmpAction::Nothing@ == rtmp::ActionView::Nothing,
        rtmp::RtmpAction::Read@ == rtmp::ActionView::Read,
        rtmp::RtmpAction::Resume(bytes)@ == rtmp::ActionView::Resume(bytes@),
        rtmp::RtmpAction::Finish@ == rtmp::ActionView::Finish,
        rtmp::RtmpAction::Fail(error)@ == rtmp::ActionView::Fail(error),
        client::HandshakeReply::Failed@ == client::ReplyView::Failed,
        client::HandshakeReply::More(bytes)@ == client::ReplyView::More(bytes@),
        (client::HandshakeReply::Done { response: bytes, rest })@ == (client::ReplyView::Done {
            response: bytes@,
            rest: rest@,
        }),
{
}

/// The view of a connection shows how far it has come.
pub proof fn law_progress_is_shown(p: client::Progress, i: int)
    ensures
        p@.stage == p.stage,
        p@.rest == p.rest@,
        p@.pending.len() == p.pending@.len(),
        0 <= i < p.pending@.len() ==> p@.pending[i] == p.pending@[i]@,
        p.stream_key is None <==> p@.stream_key is None,
        p.stream_key is Some ==> p@.stream_key == Some(p.stream_key->0@),
{
}

/// The views of answers show their kinds and their texts.
pub proof fn law_answers_are_shown(
    status: u16,
    body: auth::AuthResponse,
    refusal: auth::ErrorResponse,
    t: String,
    at: outside::Timestamp,
    opening: Vec<u8>,
    tags: Vec<Bytes>,
    user: types::User,
    recent: Vec<types::ChatMessage>,
)
    ensures
        (auth::AuthReply::Granted { status, body })@ == (auth::ReplyView::Granted {
            status,
            token: body.token@,
            username: body.username@,
            message: body.message@,
        }),
        (auth::AuthReply::Refused { status, refusal })@ == (auth::ReplyView::Refused {
            status,
            error: refusal.error@,
        }),
        (auth::Identity::Known { status, username: t, created_at: at })@ == (
        auth::IdentityView::Known { status, username: t@, created_at: at }),
        (auth::Identity::Unknown { status, error: t })@ == (auth::IdentityView::Unknown {
            status,
            error: t@,
        }),
        (api::FlvWatch::Refused { status, reason: t })@ == (api::FlvWatchView::Refused {
            status,
            reason: t@,
        }),
        (api::FlvWatch::Opened { key: t, opening })@ == (api::FlvWatchView::Opened {
            key: t@,
            opening: opening@,
        }),
        api::SocketWatch::Refused(t)@ == api::SocketWatchView::Refused(t@),
        api::SocketWatch::Offline(t)@ == api::SocketWatchView::Offline(t@),
        api::SocketWatch::Opened(tags)@ == api::SocketWatchView::Opened(
            tags@.map_values(|b: Bytes| outside::bytes_seq(b)),
        ),
        api::ChatJoin::Refused(t)@ == api::ChatJoinView::Refused(t@),
        api::ChatJoin::Offline@ == api::ChatJoinView::Offline,
        (api::ChatJoin::Joined { user, recent })@ == (api::ChatJoinView::Joined {
            user: user@,
            recent: recent@.map_values(|m: types::ChatMessage| m@),
        }),
        chat::ChatEntry::Refused(t)@ == chat::EntryView::Refused(t@),
        chat::ChatEntry::Offline@ == chat::EntryView::Offline,
{
}

} // verus!
