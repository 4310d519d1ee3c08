//! What a client that publishes over RTMP brings about, event by event.
use crate::flv;
use crate::outside;
use crate::outside::Timestamp;
use crate::state;
use crate::state::AppState;
use crate::text;
use crate::types;
use crate::types::{MediaPacket, StreamMetadata};
use crate::wire;
use crate::wire::SessionEvent;
use bytes::Bytes;
use vstd::prelude::*;

verus! {

/// What is known of a stream that a client starts to publish.
pub open spec fn published_meta(key: Seq<char>, now: Timestamp) -> types::MetaView {
    types::MetaView {
        stream_key: key,
        title: "Live Stream - "@ + key,
        broadcaster: "Broadcaster (RTMP)"@,
        category: "Live Webcam"@,
        description: "Streaming live via RTMP Ingest (OBS/Hardware Client)"@,
        is_live: true,
        source_type: "RTMP"@,
        started_at: Some(now),
        viewer_count: 0,
        bitrate_kbps: 2500,
        fps: 60,
        resolution: "1920x1080"@,
    }
}

/// Whether a payload of video is an AVC sequence header: it starts with 17 00 or 27 00.
pub open spec fn is_sequence_header(data: Seq<u8>) -> bool {
    data.len() >= 2 && (data[0] == 0x17 || data[0] == 0x27) && data[1] == 0
}

/// The packets that a payload of video becomes: an FLV tag, which comes twice where the payload
/// is a sequence header, first as such.
pub open spec fn video_packets(timestamp: u32, data: Seq<u8>) -> Seq<types::PacketView> {
    let t = flv::tag(flv::VIDEO_TAG, timestamp, data);
    let chunk = types::PacketView::RawChunk { data: t, content_type: "video/x-flv"@ };
    if is_sequence_header(data) {
        seq![types::PacketView::SequenceHeader(t), chunk]
    } else {
        seq![chunk]
    }
}

/// The packets that a payload of audio becomes: an FLV tag.
pub open spec fn audio_packets(timestamp: u32, data: Seq<u8>) -> Seq<types::PacketView> {
    let t = flv::tag(flv::AUDIO_TAG, timestamp, data);
    seq![types::PacketView::RawChunk { data: t, content_type: "video/x-flv"@ }]
}

/// What a stream is after some packets of its media.
pub open spec fn after_packets(s: state::StreamView, ps: Seq<types::PacketView>) -> state::StreamView
    decreases ps.len(),
{
    if ps.len() == 0 {
        s
    } else {
        state::after_packet(after_packets(s, ps.drop_last()), ps.last())
    }
}

/// Everything known after an event.
pub open spec fn after_event(
    v: state::AppView,
    e: wire::EventView,
    now: Timestamp,
) -> state::AppView {
    match e {
        wire::EventView::PublishRequested { stream_key, .. } => state::announced(
            v,
            published_meta(stream_key, now),
            now,
        ),
        wire::EventView::VideoReceived { stream_key, data, timestamp } => after_media(
            v,
            stream_key,
            video_packets(timestamp, data),
        ),
        wire::EventView::AudioReceived { stream_key, data, timestamp } => after_media(
            v,
            stream_key,
            audio_packets(timestamp, data),
        ),
        wire::EventView::PublishFinished { stream_key } => state::on_stream(
            v,
            stream_key,
            |s: state::StreamView| state::ended(s),
        ),
        _ => v,
    }
}

/// The stream that a client publishes, after an event.
pub open spec fn key_after(current: Option<Seq<char>>, e: wire::EventView) -> Option<Seq<char>> {
    match e {
        wire::EventView::PublishRequested { stream_key, .. } => Some(stream_key),
        wire::EventView::PublishFinished { stream_key } => if current == Some(stream_key) {
            None
        } else {
            current
        },
        _ => current,
    }
}

/// The request that an event asks to accept. Every one is.
pub open spec fn request_in(e: wire::EventView) -> Option<u32> {
    match e {
        wire::EventView::ConnectionRequested { request_id } => Some(request_id),
        wire::EventView::PublishRequested { request_id, .. } => Some(request_id),
        _ => None,
    }
}

/// Why a client is given up.
#[derive(Clone, Copy, Debug, PartialEq, Eq, Structural)]
pub enum RtmpError {
    /// The handshake failed.
    BadHandshake,
    /// No session could be started.
    NoSession,
}

/// What is to be done next for a client.
pub enum RtmpAction {
    /// These bytes go to the client.
    Send(Vec<u8>),
    /// These packets go to those who watch a stream, in this order.
    Broadcast { stream_key: String, packets: Vec<MediaPacket> },
    /// A stream is to be recorded.
    Record(String),
    /// Nothing: there is more to do right away.
    Nothing,
    /// The next bytes of the client are to be read.
    Read,
    /// These bytes, which came with the end of the handshake, are for the session to take in.
    Resume(Vec<u8>),
    /// The connection is over.
    Finish,
    /// The connection is over, and this is why.
    Fail(RtmpError),
}

/// What is to be done next for a client, by its texts and bytes.
pub enum ActionView {
    Send(Seq<u8>),
    Broadcast { stream_key: Seq<char>, packets: Seq<types::PacketView> },
    Record(Seq<char>),
    Nothing,
    Read,
    Resume(Seq<u8>),
    Finish,
    Fail(RtmpError),
}

/// Packets, by their bytes.
pub open spec fn packet_views(list: Seq<MediaPacket>) -> Seq<types::PacketView> {
    list.map_values(|p: MediaPacket| p@)
}

impl View for RtmpAction {
    type V = ActionView;

    open spec fn view(&self) -> ActionView {
        match *self {
            RtmpAction::Send(b) => ActionView::Send(b@),
            RtmpAction::Broadcast { stream_key, packets } => ActionView::Broadcast {
                stream_key: stream_key@,
                packets: packet_views(packets@),
            },
            RtmpAction::Record(key) => ActionView::Record(key@),
            RtmpAction::Nothing => ActionView::Nothing,
            RtmpAction::Read => ActionView::Read,
            RtmpAction::Resume(b) => ActionView::Resume(b@),
            RtmpAction::Finish => ActionView::Finish,
            RtmpAction::Fail(error) => ActionView::Fail(error),
        }
    }
}

/// What is to be done for an event: media of a stream that is known goes to those who
/// watch it, and a stream that starts is recorded where streams are.
pub open spec fn action_for(v: state::AppView, e: wire::EventView) -> ActionView {
    match e {
        wire::EventView::PublishRequested { stream_key, .. } => if v.record_config.enabled {
            ActionView::Record(stream_key)
        } else {
            ActionView::Nothing
        },
        wire::EventView::VideoReceived { stream_key, data, timestamp } => media_action(
            v,
            stream_key,
            video_packets(timestamp, data),
        ),
        wire::EventView::AudioReceived { stream_key, data, timestamp } => media_action(
            v,
            stream_key,
            audio_packets(timestamp, data),
        ),
        _ => ActionView::Nothing,
    }
}

/// What is known of a stream that a client starts to publish.
pub fn meta_of_published(key: &str, now: Timestamp) -> (r: StreamMetadata)
    ensures
        r@ == published_meta(key@, now),
{
    let mut title: String = "Live Stream - ".to_owned();
    title.append(key);
    StreamMetadata {
        stream_key: key.to_owned(),
        title,
        broadcaster: "Broadcaster (RTMP)".to_owned(),
        category: "Live Webcam".to_owned(),
        description: "Streaming live via RTMP Ingest (OBS/Hardware Client)".to_owned(),
        is_live: true,
        source_type: "RTMP".to_owned(),
        started_at: Some(now),
        viewer_count: 0,
        bitrate_kbps: 2500,
        fps: 60,
        resolution: "1920x1080".to_owned(),
    }
}

/// The request that an event asks to accept.
pub fn request_of(event: &SessionEvent) -> (r: Option<u32>)
    ensures
        r == request_in(event@),
{
    match event {
        SessionEvent::ConnectionRequested { request_id } => Some(*request_id),
        SessionEvent::PublishRequested { request_id, .. } => Some(*request_id),
        _ => None,
    }
}

/// Keeps what is to be kept of a packet, and adds the packet to those that are to be sent, where
/// there is such a stream.
fn relay(state: &mut AppState, stream_key: &str, packet: MediaPacket, sent: &mut Vec<MediaPacket>)
    requires
        old(state).wf(),
    ensures
        final(state).wf(),
        final(state)@ == state::on_stream(
            old(state)@,
            stream_key@,
            |s: state::StreamView| state::after_packet(s, packet@),
        ),
        packet_views(final(sent)@) == (if old(state)@.streams.contains_key(stream_key@) {
            packet_views(old(sent)@).push(packet@)
        } else {
            packet_views(old(sent)@)
        }),
{
    if let Some(p) = state.publish_media(stream_key, packet) {
        sent.push(p);
        assert(packet_views(sent@) =~= packet_views(old(sent)@).push(packet@));
    }
}

/// What is to be done for media of a stream.
pub open spec fn media_action(
    v: state::AppView,
    key: Seq<char>,
    ps: Seq<types::PacketView>,
) -> ActionView {
    if v.streams.contains_key(key) {
        ActionView::Broadcast { stream_key: key, packets: ps }
    } else {
        ActionView::Nothing
    }
}

/// Everything known after media of a stream.
pub open spec fn after_media(
    v: state::AppView,
    key: Seq<char>,
    ps: Seq<types::PacketView>,
) -> state::AppView {
    state::on_stream(v, key, |s: state::StreamView| after_packets(s, ps))
}

/// The action that sends packets to those who watch a stream, if there are any.
fn send_on(stream_key: String, packets: Vec<MediaPacket>) -> (r: RtmpAction)
    ensures
        r@ == (if packets@.len() > 0 {
            ActionView::Broadcast { stream_key: stream_key@, packets: packet_views(packets@) }
        } else {
            ActionView::Nothing
        }),
{
    if packets.is_empty() {
        RtmpAction::Nothing
    } else {
        RtmpAction::Broadcast { stream_key, packets }
    }
}

/// Takes in a payload of video.
fn publish_video(
    state: &mut AppState,
    stream_key: String,
    data: &Bytes,
    timestamp: u32,
) -> (r: RtmpAction)
    requires
        old(state).wf(),
    ensures
        final(state).wf(),
        final(state)@ == after_media(
            old(state)@,
            stream_key@,
            video_packets(timestamp, outside::bytes_seq(*data)),
        ),
        r@ == media_action(
            old(state)@,
            stream_key@,
            video_packets(timestamp, outside::bytes_seq(*data)),
        ),
{
    let ghost before = state@;
    let ghost k = stream_key@;
    let ghost ps = video_packets(timestamp, outside::bytes_seq(*data));
    let tag: Bytes = Bytes::from(flv::make_tag(flv::VIDEO_TAG, timestamp, data));
    let mut packets: Vec<MediaPacket> = Vec::new();
    assert(packet_views(packets@) =~= Seq::empty());
    if data.len() >= 2 && (data[0] == 0x17 || data[0] == 0x27) && data[1] == 0 {
        relay(state, stream_key.as_str(), MediaPacket::SequenceHeader(tag.clone()), &mut packets);
    }
    relay(
        state,
        stream_key.as_str(),
        MediaPacket::RawChunk { data: tag, content_type: "video/x-flv".to_owned() },
        &mut packets,
    );
    proof {
        reveal_with_fuel(after_packets, 3);
        if ps.len() == 2 {
            assert(ps.drop_last() =~= seq![ps[0]]);
            assert(seq![ps[0]].drop_last() =~= Seq::empty());
        } else {
            assert(ps.drop_last() =~= Seq::empty());
        }
        assert(state@.streams =~= after_media(before, k, ps).streams);
        assert(before.streams.contains_key(k) ==> packet_views(packets@) =~= ps);
    }
    send_on(stream_key, packets)
}

/// Takes in a payload of audio.
fn publish_audio(
    state: &mut AppState,
    stream_key: String,
    data: &Bytes,
    timestamp: u32,
) -> (r: RtmpAction)
    requires
        old(state).wf(),
    ensures
        final(state).wf(),
        final(state)@ == after_media(
            old(state)@,
            stream_key@,
            audio_packets(timestamp, outside::bytes_seq(*data)),
        ),
        r@ == media_action(
            old(state)@,
            stream_key@,
            audio_packets(timestamp, outside::bytes_seq(*data)),
        ),
{
    let ghost before = state@;
    let ghost k = stream_key@;
    let ghost ps = audio_packets(timestamp, outside::bytes_seq(*data));
    let tag: Bytes = Bytes::from(flv::make_tag(flv::AUDIO_TAG, timestamp, data));
    let mut packets: Vec<MediaPacket> = Vec::new();
    assert(packet_views(packets@) =~= Seq::empty());
    relay(
        state,
        stream_key.as_str(),
        MediaPacket::RawChunk { data: tag, content_type: "video/x-flv".to_owned() },
        &mut packets,
    );
    proof {
        reveal_with_fuel(after_packets, 2);
        assert(ps.drop_last() =~= Seq::empty());
        assert(state@.streams =~= after_media(before, k, ps).streams);
        assert(before.streams.contains_key(k) ==> packet_views(packets@) =~= ps);
    }
    send_on(stream_key, packets)
}

/// Acts on an event at a given moment: on everything known, and on the stream that the client
/// publishes. What is left to do is handed back.
pub fn apply_event(
    state: &mut AppState,
    current: &mut Option<String>,
    event: SessionEvent,
    now: Timestamp,
) -> (r: RtmpAction)
    requires
        old(state).wf(),
    ensures
        final(state).wf(),
        final(state)@ == after_event(old(state)@, event@, now),
        types::opt_text(*final(current)) == key_after(types::opt_text(*old(current)), event@),
        r@ == action_for(old(state)@, event@),
{
    match event {
        SessionEvent::PublishRequested { stream_key, .. } => {
            *current = Some(stream_key.clone());
            let meta = meta_of_published(stream_key.as_str(), now);
            let _ = state.create_or_update_stream_at(meta, now);
            if state.record_config.enabled {
                RtmpAction::Record(stream_key)
            } else {
                RtmpAction::Nothing
            }
        },
        SessionEvent::VideoReceived { stream_key, data, timestamp } => publish_video(
            state,
            stream_key,
            &data,
            timestamp,
        ),
        SessionEvent::AudioReceived { stream_key, data, timestamp } => publish_audio(
            state,
            stream_key,
            &data,
            timestamp,
        ),
        SessionEvent::PublishFinished { stream_key } => {
            state.end_stream(stream_key.as_str());
            let same: bool = match current {
                Some(key) => text::same_text(key.as_str(), stream_key.as_str()),
                None => false,
            };
            if same {
                *current = None;
            }
            RtmpAction::Nothing
        },
        SessionEvent::ConnectionRequested { .. } => RtmpAction::Nothing,
        SessionEvent::Other => RtmpAction::Nothing,
    }
}

} // verus!
