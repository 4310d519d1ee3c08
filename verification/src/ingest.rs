//! What each message of one who publishes brings about, byte by byte.
use crate::announcing;
use crate::flv;
use crate::outside::Timestamp;
use crate::rtmp;
use crate::state;
use crate::types;
use crate::wire;
use vstd::prelude::*;

verus! {

/// A byte of a payload; nought behind its end.
pub open spec fn byte_at(p: Seq<u8>, i: int) -> u8 {
    if 0 <= i < p.len() {
        p[i]
    } else {
        0
    }
}

/// Where the first two bytes of a payload stand in its tag, and that the size of the tag, which follows
/// it, starts with noughts where the payload is shorter.
proof fn lemma_first_bytes(kind: u8, timestamp: u32, p: Seq<u8>)
    ensures
        flv::tag(kind, timestamp, p).len() >= 15,
        flv::tag(kind, timestamp, p)[0] == kind,
        flv::tag(kind, timestamp, p)[11] == byte_at(p, 0),
        flv::tag(kind, timestamp, p)[12] == byte_at(p, 1),
{
    let t = flv::tag(kind, timestamp, p);
    flv::lemma_tag_parts(kind, timestamp, p);
    if p.len() >= 1 {
        assert(flv::payload_of(t)[0] == t[11]);
    }
    if p.len() >= 2 {
        assert(flv::payload_of(t)[1] == t[12]);
    } else {
        let size = t.subrange(t.len() - 4, t.len() as int);
        assert(size == flv::be32(p.len() as int + 11));
        assert(size[0] == t[t.len() - 4] && size[1] == t[t.len() - 3]);
    }
}

/// Whether everything known stays as it is but for what a stream keeps of its media.
pub open spec fn only_media_changes(v: state::AppView, w: state::AppView, k: Seq<char>) -> bool {
    &&& announcing::same_but_stream(v, w, k)
    &&& w.order == v.order
    &&& w.streams.contains_key(k)
    &&& w.streams[k].meta == v.streams[k].meta
    &&& w.streams[k].chat == v.streams[k].chat
}

/// What goes out for video of a stream that is known: one packet with the tag of the payload, and
/// before it, exactly where the payload starts with 17 00 or 27 00, the same tag as a header. Nothing
/// goes out for a stream that is not known.
pub proof fn law_what_video_sends(v: state::AppView, k: Seq<char>, p: Seq<u8>, timestamp: u32)
    ensures
        ({
            let e = wire::EventView::VideoReceived { stream_key: k, data: p, timestamp };
            let t = flv::tag(9, timestamp, p);
            let header = p.len() >= 2 && p[1] == 0 && (p[0] == 0x17 || p[0] == 0x27);
            let ps = rtmp::action_for(v, e)->packets;
            &&& v.streams.contains_key(k) ==> {
                &&& rtmp::action_for(v, e) is Broadcast
                &&& rtmp::action_for(v, e)->Broadcast_stream_key == k
                &&& ps.len() == 2 <==> header
                &&& ps.len() == 1 <==> !header
                &&& header ==> ps[0] == types::PacketView::SequenceHeader(t)
                &&& ps.last() == (types::PacketView::RawChunk {
                    data: t,
                    content_type: "video/x-flv"@,
                })
            }
            &&& !v.streams.contains_key(k) ==> rtmp::action_for(v, e) is Nothing
        }),
{
}

/// Video whose second byte is not nought goes out as one packet, and leaves the header of the stream
/// as it was.
pub proof fn law_video_without_header(
    v: state::AppView,
    k: Seq<char>,
    p: Seq<u8>,
    timestamp: u32,
    now: Timestamp,
)
    requires
        v.streams.contains_key(k),
        p.len() >= 2,
        p[1] != 0,
    ensures
        ({
            let e = wire::EventView::VideoReceived { stream_key: k, data: p, timestamp };
            &&& rtmp::action_for(v, e) matches rtmp::ActionView::Broadcast { stream_key, packets }
            &&& stream_key == k
            &&& packets == seq![
                types::PacketView::RawChunk {
                    data: flv::tag(9, timestamp, p),
                    content_type: "video/x-flv"@,
                },
            ]
            &&& rtmp::after_event(v, e, now).streams[k].video == v.streams[k].video
        }),
{
    lemma_first_bytes(9, timestamp, p);
    let t = flv::tag(9, timestamp, p);
    let c = types::PacketView::RawChunk { data: t, content_type: "video/x-flv"@ };
    lemma_one_packet(v.streams[k], c);
}

/// One packet after which nothing else comes.
proof fn lemma_one_packet(s: state::StreamView, p: types::PacketView)
    ensures
        rtmp::after_packets(s, seq![p]) == state::after_packet(s, p),
{
    reveal_with_fuel(rtmp::after_packets, 2);
    assert(seq![p].drop_last() =~= Seq::empty());
}

/// Two packets after which nothing else comes.
proof fn lemma_two_packets(s: state::StreamView, p: types::PacketView, q: types::PacketView)
    ensures
        rtmp::after_packets(s, seq![p, q]) == state::after_packet(state::after_packet(s, p), q),
{
    reveal_with_fuel(rtmp::after_packets, 3);
    assert(seq![p, q].drop_last() =~= seq![p]);
    assert(seq![p].drop_last() =~= Seq::empty());
}

/// What a stream keeps of video. Its tag becomes the header where the payload starts with a byte whose
/// low half is 7 and goes on with nought. It starts the group of pictures anew where the high half of
/// the first byte is 1 and the second byte is 1. Otherwise it joins the group, once there is one; a
/// header does not.
pub proof fn law_what_video_leaves(
    v: state::AppView,
    k: Seq<char>,
    p: Seq<u8>,
    timestamp: u32,
    now: Timestamp,
)
    requires
        v.streams.contains_key(k),
    ensures
        ({
            let e = wire::EventView::VideoReceived { stream_key: k, data: p, timestamp };
            let w = rtmp::after_event(v, e, now);
            let t = flv::tag(9, timestamp, p);
            let s = v.streams[k];
            let header = byte_at(p, 0) % 16 == 7 && byte_at(p, 1) == 0;
            let keyframe = byte_at(p, 0) / 16 == 1 && byte_at(p, 1) == 1;
            &&& only_media_changes(v, w, k)
            &&& header ==> w.streams[k].video == Some(t) && w.streams[k].gop == s.gop
            &&& !header ==> w.streams[k].video == s.video
            &&& keyframe ==> w.streams[k].gop == seq![t]
            &&& !header && !keyframe ==> w.streams[k].gop == announcing::grown(s.gop, t)
            &&& w.streams[k].audio == s.audio
        }),
{
    let t = flv::tag(9, timestamp, p);
    lemma_first_bytes(9, timestamp, p);
    let s = v.streams[k];
    let c = types::PacketView::RawChunk { data: t, content_type: "video/x-flv"@ };
    let h = types::PacketView::SequenceHeader(t);
    lemma_one_packet(s, c);
    lemma_two_packets(s, h, c);
    announcing::law_what_a_tag_does(s, t, c);
    announcing::law_what_a_tag_does(state::after_packet(s, h), t, c);
    assert(t[11] == byte_at(p, 0));
}

/// What goes out for audio: one packet with the tag of the payload, to those who watch the stream, where
/// it is known.
pub proof fn law_what_audio_sends(v: state::AppView, k: Seq<char>, p: Seq<u8>, timestamp: u32)
    ensures
        ({
            let e = wire::EventView::AudioReceived { stream_key: k, data: p, timestamp };
            &&& v.streams.contains_key(k) ==> {
                &&& rtmp::action_for(v, e) matches rtmp::ActionView::Broadcast {
                    stream_key,
                    packets,
                }
                &&& stream_key == k
                &&& packets == seq![
                    types::PacketView::RawChunk {
                        data: flv::tag(8, timestamp, p),
                        content_type: "video/x-flv"@,
                    },
                ]
            }
            &&& !v.streams.contains_key(k) ==> rtmp::action_for(v, e) is Nothing
        }),
{
}

/// What a stream keeps of audio. Its tag becomes the header where the high half of the first byte of
/// the payload is 10 and the second byte is nought. Otherwise it joins the group of pictures, once
/// there is one.
pub proof fn law_what_audio_leaves(
    v: state::AppView,
    k: Seq<char>,
    p: Seq<u8>,
    timestamp: u32,
    now: Timestamp,
)
    requires
        v.streams.contains_key(k),
    ensures
        ({
            let e = wire::EventView::AudioReceived { stream_key: k, data: p, timestamp };
            let w = rtmp::after_event(v, e, now);
            let t = flv::tag(8, timestamp, p);
            let s = v.streams[k];
            let header = byte_at(p, 0) / 16 == 10 && byte_at(p, 1) == 0;
            &&& only_media_changes(v, w, k)
            &&& header ==> w.streams[k].audio == Some(t) && w.streams[k].gop == s.gop
            &&& !header ==> w.streams[k].audio == s.audio && w.streams[k].gop
                == announcing::grown(s.gop, t)
            &&& w.streams[k].video == s.video
        }),
{
    let t = flv::tag(8, timestamp, p);
    lemma_first_bytes(8, timestamp, p);
    let s = v.streams[k];
    let c = types::PacketView::RawChunk { data: t, content_type: "video/x-flv"@ };
    lemma_one_packet(s, c);
    announcing::law_what_a_tag_does(s, t, c);
    assert(t[11] == byte_at(p, 0));
}

/// Media of a stream that is not known changes nothing.
pub proof fn law_unknown_media(
    v: state::AppView,
    k: Seq<char>,
    p: Seq<u8>,
    timestamp: u32,
    now: Timestamp,
)
    requires
        !v.streams.contains_key(k),
    ensures
        rtmp::after_event(
            v,
            wire::EventView::VideoReceived { stream_key: k, data: p, timestamp },
            now,
        ) == v,
        rtmp::after_event(
            v,
            wire::EventView::AudioReceived { stream_key: k, data: p, timestamp },
            now,
        ) == v,
{
}

/// A stream that a client starts to publish is live under the key that was asked for, and is described
/// as one that comes over RTMP; its request is accepted, it is recorded exactly where streams are, and
/// it is what the client publishes from then on.
pub proof fn law_publishing_starts(
    v: state::AppView,
    current: Option<Seq<char>>,
    e: wire::EventView,
    now: Timestamp,
)
    requires
        e is PublishRequested,
    ensures
        ({
            let k = e->PublishRequested_stream_key;
            let w = rtmp::after_event(v, e, now);
            let m = w.streams[k].meta;
            &&& announcing::same_but_stream(v, w, k)
            &&& w.streams.contains_key(k)
            &&& m.title == "Live Stream - "@ + k
            &&& m.broadcaster == "Broadcaster (RTMP)"@
            &&& m.category == "Live Webcam"@
            &&& m.description == "Streaming live via RTMP Ingest (OBS/Hardware Client)"@
            &&& m.source_type == "RTMP"@
            &&& m.is_live
            &&& !v.streams.contains_key(k) ==> {
                &&& m.stream_key == k
                &&& m.started_at == Some(now)
                &&& m.viewer_count == 0
                &&& m.bitrate_kbps == 2500
                &&& m.fps == 60
                &&& m.resolution == "1920x1080"@
                &&& w.streams[k].chat.len() == 0
                &&& w.streams[k].gop.len() == 0
                &&& w.streams[k].video is None
                &&& w.streams[k].audio is None
                &&& w.order == v.order.push(k)
            }
            &&& v.streams.contains_key(k) ==> {
                let b = v.streams[k].meta;
                &&& announcing::same_kept(v.streams[k], w.streams[k])
                &&& m.stream_key == b.stream_key
                &&& m.started_at == Some(
                    if b.started_at is Some {
                        b.started_at->0
                    } else {
                        now
                    },
                )
                &&& m.viewer_count == b.viewer_count
                &&& m.bitrate_kbps == b.bitrate_kbps
                &&& m.fps == b.fps
                &&& m.resolution == b.resolution
                &&& w.order == v.order
            }
            &&& rtmp::request_in(e) == Some(e->PublishRequested_request_id)
            &&& v.record_config.enabled ==> rtmp::action_for(v, e) == rtmp::ActionView::Record(k)
            &&& !v.record_config.enabled ==> rtmp::action_for(v, e) is Nothing
            &&& rtmp::key_after(current, e) == Some(k)
        }),
{
}

/// A stream that a client no longer publishes is not live, and has no bitrate and no frame rate; all
/// else stays. It is no longer what the client publishes, if it was.
pub proof fn law_publishing_ends(
    v: state::AppView,
    current: Option<Seq<char>>,
    k: Seq<char>,
    now: Timestamp,
)
    ensures
        ({
            let e = wire::EventView::PublishFinished { stream_key: k };
            let w = rtmp::after_event(v, e, now);
            &&& v.streams.contains_key(k) ==> {
                &&& announcing::same_but_stream(v, w, k)
                &&& w.order == v.order
                &&& w.streams.contains_key(k)
                &&& !w.streams[k].meta.is_live
                &&& w.streams[k].meta.bitrate_kbps == 0
                &&& w.streams[k].meta.fps == 0
                &&& announcing::same_but_liveness(v.streams[k].meta, w.streams[k].meta)
                &&& announcing::same_kept(v.streams[k], w.streams[k])
            }
            &&& !v.streams.contains_key(k) ==> w == v
            &&& rtmp::request_in(e) is None
            &&& rtmp::action_for(v, e) is Nothing
            &&& current == Some(k) ==> rtmp::key_after(current, e) is None
            &&& current != Some(k) ==> rtmp::key_after(current, e) == current
        }),
{
}

/// Nothing else that happens changes anything or is acted on; only a connection is accepted. Media does
/// not change what a client publishes, and asks to accept nothing.
pub proof fn law_other_messages(
    v: state::AppView,
    current: Option<Seq<char>>,
    e: wire::EventView,
    now: Timestamp,
)
    ensures
        e is ConnectionRequested ==> rtmp::request_in(e) == Some(
            e->ConnectionRequested_request_id,
        ),
        !(e is ConnectionRequested || e is PublishRequested) ==> rtmp::request_in(e) is None,
        !(e is PublishRequested || e is PublishFinished) ==> rtmp::key_after(current, e) == current,
        !(e is PublishRequested || e is PublishFinished || e is VideoReceived
            || e is AudioReceived) ==> {
            &&& rtmp::after_event(v, e, now) == v
            &&& rtmp::action_for(v, e) is Nothing
        },
{
}

} // verus!
