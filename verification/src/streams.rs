//! What holds of streams over any number of packets, messages, viewers and announcements.
use crate::client;
use crate::flv;
use crate::outside::Timestamp;
use crate::rtmp;
use crate::state;
use crate::types;
use crate::viewer;
use crate::wire;
use vstd::prelude::*;

verus! {

/// The last `n` elements, or all where there are fewer.
pub open spec fn latest<A>(s: Seq<A>, n: nat) -> Seq<A> {
    if s.len() > n {
        s.skip(s.len() - n)
    } else {
        s
    }
}

/// A bounded sequence holds the latest of all that was added to it.
proof fn lemma_push_keeps_latest<A>(all: Seq<A>, x: A, n: nat)
    requires
        n > 0,
    ensures
        state::push_bounded(latest(all, n), x, n) == latest(all.push(x), n),
{
    assert(state::push_bounded(latest(all, n), x, n) =~= latest(all.push(x), n));
}

/// A stream after some messages in its chat.
pub open spec fn after_chats(s: state::StreamView, ms: Seq<types::ChatView>) -> state::StreamView
    decreases ms.len(),
{
    if ms.len() == 0 {
        s
    } else {
        state::after_chat(after_chats(s, ms.drop_last()), ms.last())
    }
}

/// However many messages come, the chat holds the latest of them in their order, and nothing else
/// of the stream changes.
pub proof fn law_chat_keeps_the_latest(s: state::StreamView, ms: Seq<types::ChatView>)
    requires
        state::stream_ok(s),
    ensures
        after_chats(s, ms) == (state::StreamView {
            chat: latest(s.chat + ms, state::CHAT_LIMIT as nat),
            ..s
        }),
    decreases ms.len(),
{
    if ms.len() == 0 {
        assert(s.chat + ms =~= s.chat);
    } else {
        law_chat_keeps_the_latest(s, ms.drop_last());
        lemma_push_keeps_latest(s.chat + ms.drop_last(), ms.last(), state::CHAT_LIMIT as nat);
        assert((s.chat + ms.drop_last()).push(ms.last()) =~= s.chat + ms);
    }
}

/// The tag in a packet that may belong to a group of pictures.
pub open spec fn tag_in(p: types::PacketView) -> Option<Seq<u8>> {
    match p {
        types::PacketView::Video { data, .. } => Some(data),
        types::PacketView::RawChunk { data, .. } => Some(data),
        _ => None,
    }
}

/// A packet that is kept as the video header: one that is sent as such, or a tag with an AVC header.
pub open spec fn is_video_header(p: types::PacketView) -> bool {
    match p {
        types::PacketView::SequenceHeader(b) => b.len() > 0 && b[0] == flv::VIDEO_TAG,
        _ => tag_in(p) matches Some(t) && t.len() >= 13 && t[0] == flv::VIDEO_TAG && t[11] % 16 == 7
            && t[12] == 0,
    }
}

/// A packet that is kept as the audio header: one that is sent as such, or a tag with an AAC header.
pub open spec fn is_audio_header(p: types::PacketView) -> bool {
    match p {
        types::PacketView::SequenceHeader(b) => b.len() > 0 && b[0] == flv::AUDIO_TAG,
        _ => tag_in(p) matches Some(t) && t.len() >= 13 && t[0] == flv::AUDIO_TAG && t[11] / 16
            == 10 && t[12] == 0,
    }
}

/// A packet that starts a group of pictures.
pub open spec fn starts_group(p: types::PacketView) -> bool {
    tag_in(p) matches Some(t) && flv::is_keyframe(t)
}

/// A packet that joins a group of pictures: any tag of audio or video that neither starts one nor is
/// kept as a header.
pub open spec fn joins_group(p: types::PacketView) -> bool {
    &&& tag_in(p) matches Some(t) && state::groupable(t)
    &&& !starts_group(p)
    &&& !is_video_header(p)
    &&& !is_audio_header(p)
}

/// The last of some packets that is kept as the video header, or what was kept before.
pub open spec fn last_video(before: Option<Seq<u8>>, ps: Seq<types::PacketView>) -> Option<Seq<u8>>
    decreases ps.len(),
{
    if ps.len() == 0 {
        before
    } else if is_video_header(ps.last()) {
        Some(ps.last().bytes())
    } else {
        last_video(before, ps.drop_last())
    }
}

/// The last of some packets that is kept as the audio header, or what was kept before.
pub open spec fn last_audio(before: Option<Seq<u8>>, ps: Seq<types::PacketView>) -> Option<Seq<u8>>
    decreases ps.len(),
{
    if ps.len() == 0 {
        before
    } else if is_audio_header(ps.last()) {
        Some(ps.last().bytes())
    } else {
        last_audio(before, ps.drop_last())
    }
}

/// The whole group of pictures after some packets: what came since the last packet that starts one,
/// or, where none did, what was there before and what joined it.
pub open spec fn group_after(before: Seq<Seq<u8>>, ps: Seq<types::PacketView>) -> Seq<Seq<u8>>
    decreases ps.len(),
{
    if ps.len() == 0 {
        before
    } else {
        let g = group_after(before, ps.drop_last());
        if starts_group(ps.last()) {
            seq![ps.last().bytes()]
        } else if joins_group(ps.last()) && g.len() > 0 {
            g.push(ps.last().bytes())
        } else {
            g
        }
    }
}

/// Those of some packets that join a group of pictures.
pub open spec fn members(ps: Seq<types::PacketView>) -> Seq<Seq<u8>>
    decreases ps.len(),
{
    if ps.len() == 0 {
        Seq::empty()
    } else if joins_group(ps.last()) {
        members(ps.drop_last()).push(ps.last().bytes())
    } else {
        members(ps.drop_last())
    }
}

/// Whatever packets come, a stream keeps the last video header and the last audio header among them,
/// and the latest of the group of pictures; nothing else of it changes.
pub proof fn law_what_a_stream_keeps(s: state::StreamView, ps: Seq<types::PacketView>)
    requires
        state::stream_ok(s),
    ensures
        rtmp::after_packets(s, ps) == (state::StreamView {
            video: last_video(s.video, ps),
            audio: last_audio(s.audio, ps),
            gop: latest(group_after(s.gop, ps), state::GOP_CACHE_LIMIT as nat),
            ..s
        }),
    decreases ps.len(),
{
    if ps.len() > 0 {
        law_what_a_stream_keeps(s, ps.drop_last());
        let g = group_after(s.gop, ps.drop_last());
        lemma_push_keeps_latest(g, ps.last().bytes(), state::GOP_CACHE_LIMIT as nat);
    }
}

/// After a packet that starts a group of pictures and others that start none, the group is that
/// packet and those of the others that join it, whatever was there before.
pub proof fn law_group_of_pictures(
    before: Seq<Seq<u8>>,
    k: types::PacketView,
    ps: Seq<types::PacketView>,
)
    requires
        starts_group(k),
        forall|i: int| 0 <= i < ps.len() ==> !starts_group(#[trigger] ps[i]),
    ensures
        group_after(before, seq![k] + ps) == seq![k.bytes()] + members(ps),
    decreases ps.len(),
{
    let whole = seq![k] + ps;
    if ps.len() == 0 {
        assert(whole.last() == k);
        assert(seq![k.bytes()] + members(ps) =~= seq![k.bytes()]);
    } else {
        let rest = ps.drop_last();
        assert forall|i: int| 0 <= i < rest.len() implies !starts_group(#[trigger] rest[i]) by {
            assert(!starts_group(ps[i]));
        }
        law_group_of_pictures(before, k, rest);
        assert(whole.drop_last() =~= seq![k] + rest);
        assert(whole.last() == ps[ps.len() - 1]);
        assert((seq![k.bytes()] + members(rest)).push(ps.last().bytes()) =~= seq![k.bytes()]
            + members(rest).push(ps.last().bytes()));
    }
}

/// Headers that came before some packets count as those that were kept before.
proof fn lemma_headers_go_on(
    video: Option<Seq<u8>>,
    audio: Option<Seq<u8>>,
    a: Seq<types::PacketView>,
    b: Seq<types::PacketView>,
)
    ensures
        last_video(video, a + b) == last_video(last_video(video, a), b),
        last_audio(audio, a + b) == last_audio(last_audio(audio, a), b),
    decreases b.len(),
{
    if b.len() == 0 {
        assert(a + b =~= a);
    } else {
        lemma_headers_go_on(video, audio, a, b.drop_last());
        assert((a + b).drop_last() =~= a + b.drop_last());
        assert((a + b).last() == b.last());
    }
}

/// Without a video header among some packets, the one that was kept before stays.
proof fn lemma_video_stays(video: Option<Seq<u8>>, ps: Seq<types::PacketView>)
    requires
        forall|i: int| 0 <= i < ps.len() ==> !is_video_header(#[trigger] ps[i]),
    ensures
        last_video(video, ps) == video,
    decreases ps.len(),
{
    if ps.len() > 0 {
        assert(!is_video_header(ps[ps.len() - 1]));
        assert forall|i: int| 0 <= i < ps.drop_last().len() implies !is_video_header(
            #[trigger] ps.drop_last()[i],
        ) by {
            assert(!is_video_header(ps[i]));
        }
        lemma_video_stays(video, ps.drop_last());
    }
}

/// One who joins after a video header, a keyframe and any packets without another of either, as long
/// as the group is not full, is sent the header, then the last audio header, then the keyframe, then
/// all that joined it.
pub proof fn law_joiner_can_decode(
    s: state::StreamView,
    h: types::PacketView,
    k: types::PacketView,
    ps: Seq<types::PacketView>,
)
    requires
        state::stream_ok(s),
        is_video_header(h),
        starts_group(k),
        forall|i: int|
            0 <= i < ps.len() ==> !starts_group(#[trigger] ps[i]) && !is_video_header(ps[i]),
        members(ps).len() < state::GOP_CACHE_LIMIT,
    ensures
        state::opening_tags(rtmp::after_packets(s, seq![h, k] + ps)) == seq![h.bytes()]
            + state::opt_seq(last_audio(s.audio, ps)) + seq![k.bytes()] + members(ps),
{
    let first = seq![h, k];
    let all = first + ps;
    law_what_a_stream_keeps(s, all);
    lemma_headers_go_on(s.video, s.audio, first, ps);
    assert(last_video(s.video, first) == Some(h.bytes()) && last_audio(s.audio, first) == s.audio)
        by {
        reveal_with_fuel(last_video, 3);
        reveal_with_fuel(last_audio, 3);
        assert(first.drop_last() =~= seq![h]);
        assert(seq![h].drop_last() =~= Seq::empty());
    }
    lemma_video_stays(Some(h.bytes()), ps);
    lemma_group_forgets(s.gop, h, k, ps);
    law_group_of_pictures(s.gop, k, ps);
    assert(state::opening_tags(rtmp::after_packets(s, all)) =~= seq![h.bytes()] + state::opt_seq(
        last_audio(s.audio, ps),
    ) + seq![k.bytes()] + members(ps));
}

/// What came before a packet that starts a group of pictures does not count for the group.
proof fn lemma_group_forgets(
    before: Seq<Seq<u8>>,
    h: types::PacketView,
    k: types::PacketView,
    ps: Seq<types::PacketView>,
)
    requires
        starts_group(k),
    ensures
        group_after(before, seq![h, k] + ps) == group_after(before, seq![k] + ps),
    decreases ps.len(),
{
    let a = seq![h, k] + ps;
    let b = seq![k] + ps;
    if ps.len() == 0 {
        assert(a.last() == k && b.last() == k);
    } else {
        lemma_group_forgets(before, h, k, ps.drop_last());
        assert(a.drop_last() =~= seq![h, k] + ps.drop_last());
        assert(b.drop_last() =~= seq![k] + ps.drop_last());
        assert(a.last() == ps.last() && b.last() == ps.last());
    }
}

/// A stream that one joins and leaves again is as before.
pub proof fn law_joining_and_leaving(s: state::StreamView)
    requires
        s.meta.viewer_count < usize::MAX,
    ensures
        state::left(state::joined(s)) == s,
        state::joined(s).meta.viewer_count == s.meta.viewer_count + 1,
{
}

/// The number of viewers stays at nought when one leaves whom nobody counted.
pub proof fn law_leaving_an_empty_stream(s: state::StreamView)
    requires
        s.meta.viewer_count == 0,
    ensures
        state::left(s) == s,
{
}

/// What happens to one stream changes no other, nor the users and their tokens, nor the order.
pub proof fn law_streams_are_separate(
    v: state::AppView,
    k: Seq<char>,
    f: spec_fn(state::StreamView) -> state::StreamView,
    other: Seq<char>,
)
    requires
        other != k,
    ensures
        ({
            let w = state::on_stream(v, k, f);
            &&& w.streams.contains_key(other) == v.streams.contains_key(other)
            &&& v.streams.contains_key(other) ==> w.streams[other] == v.streams[other]
            &&& w.order == v.order
            &&& w.users == v.users
            &&& w.tokens == v.tokens
        }),
{
}

/// An announcement makes its stream known and changes no other, nor the users and their tokens.
pub proof fn law_announcing_changes_one_stream(
    v: state::AppView,
    m: types::MetaView,
    now: Timestamp,
    other: Seq<char>,
)
    requires
        other != m.stream_key,
    ensures
        ({
            let w = state::announced(v, m, now);
            &&& w.streams.contains_key(m.stream_key)
            &&& w.streams[m.stream_key].meta == state::announced_meta(v, m, now)
            &&& w.streams.contains_key(other) == v.streams.contains_key(other)
            &&& v.streams.contains_key(other) ==> w.streams[other] == v.streams[other]
            &&& w.users == v.users
            &&& w.tokens == v.tokens
        }),
{
}

/// A stream that is announced again keeps its chat, its headers, its group of pictures, its
/// viewers and what was measured of it.
pub proof fn law_announcing_again_keeps_what_is_kept(
    v: state::AppView,
    m: types::MetaView,
    now: Timestamp,
)
    requires
        v.streams.contains_key(m.stream_key),
    ensures
        ({
            let s = v.streams[m.stream_key];
            let t = state::announced(v, m, now).streams[m.stream_key];
            &&& t.chat == s.chat
            &&& t.video == s.video
            &&& t.audio == s.audio
            &&& t.gop == s.gop
            &&& t.meta.viewer_count == s.meta.viewer_count
            &&& t.meta.bitrate_kbps == s.meta.bitrate_kbps
            &&& t.meta.fps == s.meta.fps
            &&& t.meta.resolution == s.meta.resolution
            &&& state::announced(v, m, now).order == v.order
        }),
{
}

/// A stream that is announced as live has a start.
pub proof fn law_live_streams_have_a_start(v: state::AppView, m: types::MetaView, now: Timestamp)
    requires
        m.is_live,
    ensures
        state::announced(v, m, now).streams[m.stream_key].meta.started_at is Some,
{
}

/// A start that is known never changes, whatever is announced and whenever the stream ends.
pub proof fn law_start_is_kept(
    v: state::AppView,
    m: types::MetaView,
    now: Timestamp,
    key: Seq<char>,
)
    requires
        v.streams.contains_key(key),
        v.streams[key].meta.started_at is Some,
    ensures
        state::announced(v, m, now).streams[key].meta.started_at
            == v.streams[key].meta.started_at,
        state::ended(v.streams[key]).meta.started_at == v.streams[key].meta.started_at,
{
}

/// A stream that is ended twice is as one that is ended once, and no longer live.
pub proof fn law_ending_twice_is_ending_once(s: state::StreamView)
    ensures
        state::ended(state::ended(s)) == state::ended(s),
        !state::ended(s).meta.is_live,
{
}

/// Where the bytes of a payload stand in its tag.
proof fn lemma_payload_in_tag(kind: u8, timestamp: u32, data: Seq<u8>)
    ensures
        flv::tag(kind, timestamp, data).len() == data.len() + 15,
        flv::tag(kind, timestamp, data)[0] == kind,
        data.len() >= 2 ==> flv::tag(kind, timestamp, data)[11] == data[0] && flv::tag(
            kind,
            timestamp,
            data,
        )[12] == data[1],
{
    let t = flv::tag(kind, timestamp, data);
    flv::lemma_tag_parts(kind, timestamp, data);
    if data.len() >= 2 {
        assert(flv::payload_of(t)[0] == t[11]);
        assert(flv::payload_of(t)[1] == t[12]);
    }
}

/// Every packet that a payload becomes holds the FLV tag of that payload and its timestamp.
pub proof fn law_packets_hold_the_payload(timestamp: u32, data: Seq<u8>, i: int)
    ensures
        0 <= i < rtmp::video_packets(timestamp, data).len() ==> rtmp::video_packets(
            timestamp,
            data,
        )[i].bytes() == flv::tag(flv::VIDEO_TAG, timestamp, data),
        0 <= i < rtmp::audio_packets(timestamp, data).len() ==> rtmp::audio_packets(
            timestamp,
            data,
        )[i].bytes() == flv::tag(flv::AUDIO_TAG, timestamp, data),
        rtmp::video_packets(timestamp, data).len() > 0,
        rtmp::audio_packets(timestamp, data).len() > 0,
{
}

/// What video does to a stream: a sequence header is kept as the header.
pub proof fn law_video_header_is_kept(s: state::StreamView, timestamp: u32, data: Seq<u8>)
    requires
        rtmp::is_sequence_header(data),
    ensures
        rtmp::after_packets(s, rtmp::video_packets(timestamp, data)).video == Some(
            flv::tag(flv::VIDEO_TAG, timestamp, data),
        ),
{
    let ps = rtmp::video_packets(timestamp, data);
    lemma_payload_in_tag(flv::VIDEO_TAG, timestamp, data);
    reveal_with_fuel(rtmp::after_packets, 3);
    assert(ps.drop_last() =~= seq![ps[0]]);
    assert(seq![ps[0]].drop_last() =~= Seq::empty());
}

/// What video does to a stream: a keyframe starts the group of pictures anew.
pub proof fn law_keyframe_starts_a_group(s: state::StreamView, timestamp: u32, data: Seq<u8>)
    requires
        data.len() >= 2,
        data[0] / 16 == 1,
        data[1] == 1,
    ensures
        rtmp::after_packets(s, rtmp::video_packets(timestamp, data)) == (state::StreamView {
            gop: seq![flv::tag(flv::VIDEO_TAG, timestamp, data)],
            ..s
        }),
{
    let ps = rtmp::video_packets(timestamp, data);
    lemma_payload_in_tag(flv::VIDEO_TAG, timestamp, data);
    reveal_with_fuel(rtmp::after_packets, 2);
    assert(ps.drop_last() =~= Seq::empty());
}

/// Every payload of video or audio leaves a stream as every stream is.
pub proof fn law_media_keeps_streams_ok(s: state::StreamView, timestamp: u32, data: Seq<u8>)
    requires
        state::stream_ok(s),
    ensures
        state::stream_ok(rtmp::after_packets(s, rtmp::video_packets(timestamp, data))),
        state::stream_ok(rtmp::after_packets(s, rtmp::audio_packets(timestamp, data))),
{
    lemma_packets_keep_ok(s, rtmp::video_packets(timestamp, data));
    lemma_packets_keep_ok(s, rtmp::audio_packets(timestamp, data));
}

proof fn lemma_packets_keep_ok(s: state::StreamView, ps: Seq<types::PacketView>)
    requires
        state::stream_ok(s),
    ensures
        state::stream_ok(rtmp::after_packets(s, ps)),
    decreases ps.len(),
{
    if ps.len() > 0 {
        lemma_packets_keep_ok(s, ps.drop_last());
    }
}

/// A client that starts to publish makes its stream live under its key; the same client leaving,
/// or saying that it is done, makes the stream no longer live.
pub proof fn law_publishing_goes_live_and_ends(
    v: state::AppView,
    p: client::ProgressView,
    request_id: u32,
    key: Seq<char>,
    now: Timestamp,
    later: Timestamp,
)
    ensures
        ({
            let start = wire::EventView::PublishRequested { request_id, stream_key: key };
            let done = wire::EventView::PublishFinished { stream_key: key };
            let w = rtmp::after_event(v, start, now);
            let q = client::ProgressView { stream_key: rtmp::key_after(p.stream_key, start), ..p };
            let x = client::client_left(w, q);
            let y = rtmp::after_event(w, done, later);
            &&& w.streams.contains_key(key) && w.streams[key].meta.is_live
            &&& q.stream_key == Some(key)
            &&& x.streams.contains_key(key) && !x.streams[key].meta.is_live
            &&& y == x
            &&& rtmp::key_after(q.stream_key, done) is None
        }),
{
}

/// A client that published nothing, or is done with what it published, leaves everything as it is.
pub proof fn law_silent_client_changes_nothing(v: state::AppView, p: client::ProgressView)
    requires
        p.stream_key is None,
    ensures
        client::client_left(v, p) == v,
{
}

/// Media of a stream that nobody announced is dropped.
pub proof fn law_media_of_unknown_stream_is_dropped(
    v: state::AppView,
    key: Seq<char>,
    data: Seq<u8>,
    timestamp: u32,
    now: Timestamp,
)
    requires
        !v.streams.contains_key(key),
    ensures
        ({
            let video = wire::EventView::VideoReceived { stream_key: key, data, timestamp };
            let audio = wire::EventView::AudioReceived { stream_key: key, data, timestamp };
            &&& rtmp::after_event(v, video, now) == v
            &&& rtmp::action_for(v, video) == rtmp::ActionView::Nothing
            &&& rtmp::after_event(v, audio, now) == v
            &&& rtmp::action_for(v, audio) == rtmp::ActionView::Nothing
        }),
{
}

/// A viewer that lost some of a stream goes on with the next video header or keyframe that a
/// client publishes.
pub proof fn law_viewer_goes_on_after_loss(timestamp: u32, data: Seq<u8>)
    requires
        data.len() >= 2,
        data[1] == 0 || (data[0] / 16 == 1 && data[1] == 1),
    ensures
        viewer::passes(true, flv::tag(flv::VIDEO_TAG, timestamp, data)),
{
    lemma_payload_in_tag(flv::VIDEO_TAG, timestamp, data);
}

} // verus!
