//! What announcing, ending, measuring and watching does to streams, field by field.
use crate::outside::Timestamp;
use crate::rtmp;
use crate::state;
use crate::types;
use vstd::prelude::*;

verus! {

/// Whether two descriptions of a stream differ at most in whether it is live, its bitrate and its
/// frame rate.
pub open spec fn same_but_liveness(a: types::MetaView, b: types::MetaView) -> bool {
    &&& a.stream_key == b.stream_key
    &&& a.title == b.title
    &&& a.broadcaster == b.broadcaster
    &&& a.category == b.category
    &&& a.description == b.description
    &&& a.source_type == b.source_type
    &&& a.started_at == b.started_at
    &&& a.viewer_count == b.viewer_count
    &&& a.resolution == b.resolution
}

/// Whether two streams keep the same chat, headers and group of pictures.
pub open spec fn same_kept(a: state::StreamView, b: state::StreamView) -> bool {
    &&& a.chat == b.chat
    &&& a.video == b.video
    &&& a.audio == b.audio
    &&& a.gop == b.gop
}

/// Whether everything known is the same but for one stream.
pub open spec fn same_but_stream(v: state::AppView, w: state::AppView, k: Seq<char>) -> bool {
    &&& w.users == v.users
    &&& w.tokens == v.tokens
    &&& w.disable_registration == v.disable_registration
    &&& w.record_config == v.record_config
    &&& forall|other: Seq<char>|
        other != k ==> #[trigger] w.streams.contains_key(other) == v.streams.contains_key(other)
    &&& forall|other: Seq<char>| #[trigger]
        v.streams.contains_key(other) && other != k ==> w.streams[other] == v.streams[other]
}

/// After a stream was announced, known before or not, it is known under its key, and its title,
/// broadcaster, category, description, source and whether it is live are those of the announcement;
/// so it is in what is handed back.
pub proof fn law_announcement_is_taken_over(
    v: state::AppView,
    m: types::MetaView,
    now: Timestamp,
)
    ensures
        ({
            let w = state::announced(v, m, now);
            let n = w.streams[m.stream_key].meta;
            &&& w.streams.contains_key(m.stream_key)
            &&& n == state::announced_meta(v, m, now)
            &&& n.title == m.title
            &&& n.broadcaster == m.broadcaster
            &&& n.category == m.category
            &&& n.description == m.description
            &&& n.source_type == m.source_type
            &&& n.is_live == m.is_live
        }),
{
}

/// An announcement changes no other stream, nobody's account and no setting; a stream that was not
/// known comes last in the order.
pub proof fn law_announcement_changes_one_stream(
    v: state::AppView,
    m: types::MetaView,
    now: Timestamp,
)
    ensures
        same_but_stream(v, state::announced(v, m, now), m.stream_key),
        state::announced(v, m, now).order == (if v.streams.contains_key(m.stream_key) {
            v.order
        } else {
            v.order.push(m.stream_key)
        }),
{
}

/// A stream that was not known is taken over as it is announced, with nothing kept yet; where it is
/// live without a start, it starts now.
pub proof fn law_first_announcement(v: state::AppView, m: types::MetaView, now: Timestamp)
    requires
        !v.streams.contains_key(m.stream_key),
    ensures
        ({
            let s = state::announced(v, m, now).streams[m.stream_key];
            &&& s.meta.stream_key == m.stream_key
            &&& s.meta.viewer_count == m.viewer_count
            &&& s.meta.bitrate_kbps == m.bitrate_kbps
            &&& s.meta.fps == m.fps
            &&& s.meta.resolution == m.resolution
            &&& m.started_at is Some ==> s.meta.started_at == m.started_at
            &&& m.started_at is None && m.is_live ==> s.meta.started_at == Some(now)
            &&& m.started_at is None && !m.is_live ==> s.meta.started_at is None
            &&& s.chat.len() == 0
            &&& s.video is None
            &&& s.audio is None
            &&& s.gop.len() == 0
        }),
{
}

/// A stream that is announced again keeps all that was measured of it and all that it keeps for those
/// who join; its start stays, or is now where it had none and is live.
pub proof fn law_later_announcement(v: state::AppView, m: types::MetaView, now: Timestamp)
    requires
        v.streams.contains_key(m.stream_key),
    ensures
        ({
            let before = v.streams[m.stream_key];
            let after = state::announced(v, m, now).streams[m.stream_key];
            &&& same_kept(before, after)
            &&& after.meta.stream_key == before.meta.stream_key
            &&& after.meta.viewer_count == before.meta.viewer_count
            &&& after.meta.bitrate_kbps == before.meta.bitrate_kbps
            &&& after.meta.fps == before.meta.fps
            &&& after.meta.resolution == before.meta.resolution
            &&& before.meta.started_at is Some ==> after.meta.started_at == before.meta.started_at
            &&& before.meta.started_at is None && m.is_live ==> after.meta.started_at == Some(now)
            &&& before.meta.started_at is None && !m.is_live ==> after.meta.started_at is None
        }),
{
}

/// The last of two announcements counts: what they say of a stream is as if only it had come, and
/// the start is that of the first that was live.
pub proof fn law_last_announcement_counts(
    v: state::AppView,
    a: types::MetaView,
    b: types::MetaView,
    first: Timestamp,
    second: Timestamp,
)
    requires
        a.stream_key == b.stream_key,
    ensures
        ({
            let n = state::announced(state::announced(v, a, first), b, second).streams[b.stream_key].meta;
            let once = state::announced(v, b, second).streams[b.stream_key].meta;
            &&& n.title == once.title
            &&& n.broadcaster == once.broadcaster
            &&& n.category == once.category
            &&& n.description == once.description
            &&& n.source_type == once.source_type
            &&& n.is_live == once.is_live
        }),
{
}

/// A change of one stream is made to the stream of that key, where there is one, and to nothing else.
pub proof fn law_change_of_one_stream(
    v: state::AppView,
    k: Seq<char>,
    f: spec_fn(state::StreamView) -> state::StreamView,
)
    ensures
        v.streams.contains_key(k) ==> {
            let w = state::on_stream(v, k, f);
            &&& w.streams.contains_key(k)
            &&& w.streams[k] == f(v.streams[k])
            &&& same_but_stream(v, w, k)
            &&& w.order == v.order
        },
        !v.streams.contains_key(k) ==> state::on_stream(v, k, f) == v,
{
}

/// A stream that ends is not live and has no bitrate and no frame rate; all else of it stays.
pub proof fn law_ending(s: state::StreamView)
    ensures
        !state::ended(s).meta.is_live,
        state::ended(s).meta.bitrate_kbps == 0,
        state::ended(s).meta.fps == 0,
        same_but_liveness(s.meta, state::ended(s).meta),
        same_kept(s, state::ended(s)),
{
}

/// What is measured of a stream is its bitrate, its frame rate and, unless it is empty, its
/// resolution; all else of it stays.
pub proof fn law_measuring(s: state::StreamView, bitrate: u32, fps: u32, resolution: Seq<char>)
    ensures
        ({
            let t = state::with_stats(s, bitrate, fps, resolution);
            &&& t.meta.bitrate_kbps == bitrate
            &&& t.meta.fps == fps
            &&& resolution.len() > 0 ==> t.meta.resolution == resolution
            &&& resolution.len() == 0 ==> t.meta.resolution == s.meta.resolution
            &&& t.meta.is_live == s.meta.is_live
            &&& same_but_liveness(
                types::MetaView { resolution: t.meta.resolution, ..s.meta },
                t.meta,
            )
            &&& same_kept(s, t)
        }),
{
}

/// One who joins a stream or leaves it changes the number of its viewers by one, never below nought,
/// and nothing else of it.
pub proof fn law_counting_viewers(s: state::StreamView)
    ensures
        s.meta.viewer_count < usize::MAX ==> {
            let t = state::joined(s);
            &&& t.meta.viewer_count == s.meta.viewer_count + 1
            &&& t.meta == (types::MetaView { viewer_count: t.meta.viewer_count, ..s.meta })
            &&& same_kept(s, t)
        },
        ({
            let t = state::left(s);
            &&& s.meta.viewer_count > 0 ==> t.meta.viewer_count == s.meta.viewer_count - 1
            &&& s.meta.viewer_count == 0 ==> t.meta.viewer_count == 0
            &&& t.meta == (types::MetaView { viewer_count: t.meta.viewer_count, ..s.meta })
            &&& same_kept(s, t)
        }),
{
}

/// What one who joins is sent first: the video header where there is one, then the audio header where
/// there is one, then every tag of the group of pictures.
pub proof fn law_what_a_joiner_is_sent(s: state::StreamView, v: Seq<u8>, a: Seq<u8>)
    ensures
        s.video == Some(v) && s.audio == Some(a) ==> state::opening_tags(s) == seq![v, a] + s.gop,
        s.video == Some(v) && s.audio is None ==> state::opening_tags(s) == seq![v] + s.gop,
        s.video is None && s.audio == Some(a) ==> state::opening_tags(s) == seq![a] + s.gop,
        s.video is None && s.audio is None ==> state::opening_tags(s) == s.gop,
{
    assert(s.video == Some(v) && s.audio == Some(a) ==> state::opening_tags(s) =~= seq![v, a]
        + s.gop);
    assert(s.video == Some(v) && s.audio is None ==> state::opening_tags(s) =~= seq![v] + s.gop);
    assert(s.video is None && s.audio == Some(a) ==> state::opening_tags(s) =~= seq![a] + s.gop);
    assert(s.video is None && s.audio is None ==> state::opening_tags(s) =~= s.gop);
}

/// The group of pictures with one more tag, which holds at most twelve hundred.
pub open spec fn grown(gop: Seq<Seq<u8>>, t: Seq<u8>) -> Seq<Seq<u8>> {
    if gop.len() == 0 {
        gop
    } else if gop.len() < 1200 {
        gop.push(t)
    } else {
        gop.push(t).skip(1)
    }
}

/// What a tag does to a stream, byte by byte. An AVC header replaces the video header and an AAC header
/// the audio header; a keyframe starts the group of pictures anew; any other tag of video or audio
/// joins the group, once there is one; anything else changes nothing.
pub proof fn law_what_a_tag_does(s: state::StreamView, t: Seq<u8>, p: types::PacketView)
    requires
        p is RawChunk || p is Video,
        p.bytes() == t,
    ensures
        ({
            let u = state::after_packet(s, p);
            let video = t.len() >= 13 && t[0] == 9;
            let audio = t.len() >= 13 && t[0] == 8;
            let avc_header = video && t[11] % 16 == 7 && t[12] == 0;
            let aac_header = audio && 0xa0 <= t[11] <= 0xaf && t[12] == 0;
            let keyframe = video && 0x10 <= t[11] <= 0x1f && t[12] == 1;
            &&& u.meta == s.meta
            &&& u.chat == s.chat
            &&& u.video == (if avc_header {
                Some(t)
            } else {
                s.video
            })
            &&& u.audio == (if aac_header {
                Some(t)
            } else {
                s.audio
            })
            &&& u.gop == (if keyframe {
                seq![t]
            } else if (video || audio) && !avc_header && !aac_header {
                grown(s.gop, t)
            } else {
                s.gop
            })
        }),
{
}

/// What other packets do to a stream: one that is sent as a header is kept as the header of its type,
/// and one that is sent as audio changes nothing.
pub proof fn law_what_other_packets_do(s: state::StreamView, b: Seq<u8>, timestamp_ms: u32)
    ensures
        ({
            let u = state::after_packet(s, types::PacketView::SequenceHeader(b));
            &&& u.meta == s.meta
            &&& u.chat == s.chat
            &&& u.gop == s.gop
            &&& u.video == (if b.len() > 0 && b[0] == 9 {
                Some(b)
            } else {
                s.video
            })
            &&& u.audio == (if b.len() > 0 && b[0] == 8 {
                Some(b)
            } else {
                s.audio
            })
        }),
        state::after_packet(s, types::PacketView::Audio { data: b, timestamp_ms }) == s,
{
}

/// Packets that come one after the other do what they do one after the other.
pub proof fn law_packets_one_by_one(
    s: state::StreamView,
    ps: Seq<types::PacketView>,
    p: types::PacketView,
)
    ensures
        rtmp::after_packets(s, Seq::empty()) == s,
        rtmp::after_packets(s, ps.push(p)) == state::after_packet(rtmp::after_packets(s, ps), p),
{
    assert(ps.push(p).drop_last() =~= ps);
}

/// A message comes last in a chat, which holds at most a hundred: the oldest goes where it would hold
/// more. Nothing else of the stream changes.
pub proof fn law_what_a_message_does(s: state::StreamView, m: types::ChatView)
    ensures
        ({
            let t = state::after_chat(s, m);
            &&& t.meta == s.meta
            &&& t.video == s.video
            &&& t.audio == s.audio
            &&& t.gop == s.gop
            &&& s.chat.len() <= 100 ==> t.chat.len() <= 100
            &&& t.chat.last() == m
            &&& s.chat.len() < 100 ==> t.chat == s.chat.push(m)
            &&& s.chat.len() >= 100 ==> t.chat == s.chat.skip(1).push(m)
        }),
{
    assert(s.chat.len() >= 100 ==> state::after_chat(s, m).chat =~= s.chat.skip(1).push(m));
}

/// A token stands for a user exactly where it is not empty, is known, and the name that is known for it
/// is that of a user; it then stands for that user.
pub proof fn law_whom_a_token_stands_for(
    v: state::AppView,
    token: Seq<char>,
    user: types::UserView,
)
    ensures
        state::holder(v, token) == Some(user) <==> (token.len() > 0 && v.tokens.contains_key(token)
            && v.users.contains_key(v.tokens[token]) && v.users[v.tokens[token]] == user),
        state::holder(v, token) is None <==> (token.len() == 0 || !v.tokens.contains_key(token)
            || !v.users.contains_key(v.tokens[token])),
{
}

/// How much may wait for a slow receiver.
pub proof fn law_how_much_may_wait()
    ensures
        state::MEDIA_CHANNEL_CAPACITY == 8192,
        state::CHAT_CHANNEL_CAPACITY == 256,
{
}

/// What holds of every stream: it keeps at most a hundred messages and twelve hundred tags; its video
/// header starts with 9 and its audio header with 8; every tag of the group of pictures is one of video
/// or audio with a payload; and the first of a group that is not full is a keyframe.
pub proof fn law_what_every_stream_is(s: state::StreamView)
    ensures
        state::stream_ok(s) <==> {
            &&& s.chat.len() <= 100
            &&& s.gop.len() <= 1200
            &&& s.video matches Some(b) ==> b.len() > 0 && b[0] == 9
            &&& s.audio matches Some(b) ==> b.len() > 0 && b[0] == 8
            &&& forall|i: int|
                0 <= i < s.gop.len() ==> (#[trigger] s.gop[i]).len() >= 13 && (s.gop[i][0] == 9
                    || s.gop[i][0] == 8)
            &&& 0 < s.gop.len() < 1200 ==> s.gop[0].len() >= 13 && s.gop[0][0] == 9 && 0x10
                <= s.gop[0][11] <= 0x1f && s.gop[0][12] == 1
        },
{
    if state::stream_ok(s) {
        assert forall|i: int| 0 <= i < s.gop.len() implies (#[trigger] s.gop[i]).len() >= 13 && (
        s.gop[i][0] == 9 || s.gop[i][0] == 8) by {
            assert(state::groupable(s.gop[i]));
        }
    }
}

/// What holds of everything known: the order names each known stream once and no other, and each stream
/// is known under its own key and is as every stream is.
pub proof fn law_what_is_always_known(v: state::AppView)
    ensures
        state::app_ok(v) <==> {
            &&& forall|i: int, j: int|
                0 <= i < v.order.len() && 0 <= j < v.order.len() && i != j ==> #[trigger] v.order[i]
                    != #[trigger] v.order[j]
            &&& forall|k: Seq<char>| v.order.contains(k) <==> #[trigger] v.streams.contains_key(k)
            &&& forall|k: Seq<char>| #[trigger]
                v.streams.contains_key(k) ==> v.streams[k].meta.stream_key == k
                    && state::stream_ok(v.streams[k])
        },
{
}

} // verus!
