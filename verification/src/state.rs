//! The streams that are on, what they keep for those who join, and who may watch.
use crate::flv;
use crate::outside;
use crate::outside::Timestamp;
use crate::store::StringMap;
use crate::types;
use crate::types::{ChatMessage, MediaPacket, RecordConfig, StreamMetadata, User};
use bytes::Bytes;
use vstd::prelude::*;

verus! {

/// How many tags of the current group of pictures a stream keeps for those who join.
pub const GOP_CACHE_LIMIT: usize = 1200;

/// How many chat messages a stream keeps for those who join.
pub const CHAT_LIMIT: usize = 100;

/// How many media packets may wait for the slowest receiver of a stream.
pub const MEDIA_CHANNEL_CAPACITY: usize = 8192;

/// How many chat messages may wait for the slowest receiver of a stream.
pub const CHAT_CHANNEL_CAPACITY: usize = 256;

/// A stream, and what it keeps for those who join.
pub struct LiveStream {
    pub meta: StreamMetadata,
    pub recent_chat: Vec<ChatMessage>,
    pub video_sequence_header: Option<Bytes>,
    pub audio_sequence_header: Option<Bytes>,
    pub gop_cache: Vec<Bytes>,
}

/// A stream, by its texts and bytes.
pub struct StreamView {
    pub meta: types::MetaView,
    pub chat: Seq<types::ChatView>,
    pub video: Option<Seq<u8>>,
    pub audio: Option<Seq<u8>>,
    pub gop: Seq<Seq<u8>>,
}

/// Chat messages, by their texts.
pub open spec fn chat_views(list: Seq<ChatMessage>) -> Seq<types::ChatView> {
    list.map_values(|m: ChatMessage| m@)
}

impl View for LiveStream {
    type V = StreamView;

    open spec fn view(&self) -> StreamView {
        StreamView {
            meta: self.meta@,
            chat: chat_views(self.recent_chat@),
            video: outside::opt_bytes(self.video_sequence_header),
            audio: outside::opt_bytes(self.audio_sequence_header),
            gop: outside::all_bytes(self.gop_cache@),
        }
    }
}

/// `s` with `x` at its end, and without its first element where it would hold more than `limit`.
pub open spec fn push_bounded<A>(s: Seq<A>, x: A, limit: nat) -> Seq<A> {
    if s.len() + 1 > limit {
        s.push(x).skip(1)
    } else {
        s.push(x)
    }
}

/// What a stream keeps after a tag of its media. A video tag with an AVC header or an audio tag
/// with an AAC header replaces the one that is kept; a keyframe starts the group of pictures
/// anew; any other tag joins the group, once there is one.
pub open spec fn after_tag(s: StreamView, t: Seq<u8>) -> StreamView {
    if t.len() < 13 {
        s
    } else if t[0] == flv::VIDEO_TAG {
        if t[11] % 16 == 7 && t[12] == 0 {
            StreamView { video: Some(t), ..s }
        } else if flv::is_keyframe(t) {
            StreamView { gop: seq![t], ..s }
        } else {
            with_group_member(s, t)
        }
    } else if t[0] == flv::AUDIO_TAG {
        if t[11] / 16 == 10 && t[12] == 0 {
            StreamView { audio: Some(t), ..s }
        } else {
            with_group_member(s, t)
        }
    } else {
        s
    }
}

/// A stream whose group of pictures, once there is one, has grown by a tag.
pub open spec fn with_group_member(s: StreamView, t: Seq<u8>) -> StreamView {
    if s.gop.len() > 0 {
        StreamView { gop: push_bounded(s.gop, t, GOP_CACHE_LIMIT as nat), ..s }
    } else {
        s
    }
}

/// What a stream keeps after a packet of its media.
pub open spec fn after_packet(s: StreamView, p: types::PacketView) -> StreamView {
    match p {
        types::PacketView::SequenceHeader(b) => if b.len() > 0 && b[0] == flv::VIDEO_TAG {
            StreamView { video: Some(b), ..s }
        } else if b.len() > 0 && b[0] == flv::AUDIO_TAG {
            StreamView { audio: Some(b), ..s }
        } else {
            s
        },
        types::PacketView::Video { data, .. } => after_tag(s, data),
        types::PacketView::RawChunk { data, .. } => after_tag(s, data),
        types::PacketView::Audio { .. } => s,
    }
}

/// What a stream is after a message in its chat.
pub open spec fn after_chat(s: StreamView, m: types::ChatView) -> StreamView {
    StreamView { chat: push_bounded(s.chat, m, CHAT_LIMIT as nat), ..s }
}

/// What one who joins is sent first: the headers that are kept, then the group of pictures.
pub open spec fn opening_tags(s: StreamView) -> Seq<Seq<u8>> {
    opt_seq(s.video) + opt_seq(s.audio) + s.gop
}

/// The element of an option, if there is one.
pub open spec fn opt_seq<A>(x: Option<A>) -> Seq<A> {
    match x {
        Some(v) => seq![v],
        None => Seq::empty(),
    }
}

/// A tag that may belong to a group of pictures.
pub open spec fn groupable(t: Seq<u8>) -> bool {
    t.len() >= 13 && (t[0] == flv::VIDEO_TAG || t[0] == flv::AUDIO_TAG)
}

/// What holds of every stream: what it keeps is bounded, a kept header is of the type that it is
/// kept as, and the group of pictures holds only audio and video and, until it is full, starts
/// with a keyframe.
pub open spec fn stream_ok(s: StreamView) -> bool {
    &&& s.chat.len() <= CHAT_LIMIT
    &&& s.gop.len() <= GOP_CACHE_LIMIT
    &&& (s.video matches Some(b) ==> b.len() > 0 && b[0] == flv::VIDEO_TAG)
    &&& (s.audio matches Some(b) ==> b.len() > 0 && b[0] == flv::AUDIO_TAG)
    &&& (0 < s.gop.len() < GOP_CACHE_LIMIT ==> flv::is_keyframe(s.gop[0]))
    &&& forall|i: int| 0 <= i < s.gop.len() ==> groupable(#[trigger] s.gop[i])
}

impl LiveStream {
    /// A stream that keeps nothing yet.
    pub fn new(meta: StreamMetadata) -> (r: Self)
        ensures
            r@ == (StreamView {
                meta: meta@,
                chat: Seq::empty(),
                video: None,
                audio: None,
                gop: Seq::empty(),
            }),
            stream_ok(r@),
    {
        let r = LiveStream {
            meta,
            recent_chat: Vec::new(),
            video_sequence_header: None,
            audio_sequence_header: None,
            gop_cache: Vec::new(),
        };
        assert(r@.chat =~= Seq::empty());
        assert(r@.gop =~= Seq::empty());
        r
    }

    /// Keeps what is to be kept of a tag of the stream's media.
    fn keep_tag(&mut self, data: &Bytes)
        requires
            stream_ok(old(self)@),
        ensures
            final(self)@ == after_tag(old(self)@, outside::bytes_seq(*data)),
            stream_ok(final(self)@),
    {
        if data.len() < 13 {
            return;
        }
        if data[0] == flv::VIDEO_TAG {
            if data[11] % 16 == 7 && data[12] == 0 {
                self.video_sequence_header = Some(data.clone());
            } else if flv::keyframe(data) {
                self.gop_cache.clear();
                self.gop_cache.push(data.clone());
                assert(self@.gop =~= seq![outside::bytes_seq(*data)]);
            } else {
                self.keep_in_group(data);
            }
        } else if data[0] == flv::AUDIO_TAG {
            if data[11] / 16 == 10 && data[12] == 0 {
                self.audio_sequence_header = Some(data.clone());
            } else {
                self.keep_in_group(data);
            }
        }
    }

    /// Adds a tag to the group of pictures, once there is one.
    fn keep_in_group(&mut self, data: &Bytes)
        requires
            stream_ok(old(self)@),
            groupable(outside::bytes_seq(*data)),
        ensures
            final(self)@ == with_group_member(old(self)@, outside::bytes_seq(*data)),
            stream_ok(final(self)@),
    {
        let ghost t = outside::bytes_seq(*data);
        if !self.gop_cache.is_empty() {
            self.gop_cache.push(data.clone());
            assert(self@.gop =~= old(self)@.gop.push(t));
            if self.gop_cache.len() > GOP_CACHE_LIMIT {
                let _ = self.gop_cache.remove(0);
                assert(self@.gop =~= old(self)@.gop.push(t).skip(1));
            }
        }
    }

    /// Keeps what is to be kept of a packet of the stream's media.
    pub fn keep_packet(&mut self, packet: &MediaPacket)
        requires
            stream_ok(old(self)@),
        ensures
            final(self)@ == after_packet(old(self)@, packet@),
            stream_ok(final(self)@),
    {
        match packet {
            MediaPacket::SequenceHeader(bytes) => {
                if !bytes.is_empty() {
                    if bytes[0] == flv::VIDEO_TAG {
                        self.video_sequence_header = Some(bytes.clone());
                    } else if bytes[0] == flv::AUDIO_TAG {
                        self.audio_sequence_header = Some(bytes.clone());
                    }
                }
            },
            MediaPacket::Video { data, .. } => {
                self.keep_tag(data);
            },
            MediaPacket::RawChunk { data, .. } => {
                self.keep_tag(data);
            },
            MediaPacket::Audio { .. } => {},
        }
    }

    /// Keeps a message of the stream's chat.
    pub fn keep_chat(&mut self, msg: ChatMessage)
        requires
            stream_ok(old(self)@),
        ensures
            final(self)@ == after_chat(old(self)@, msg@),
            stream_ok(final(self)@),
    {
        if self.recent_chat.len() >= CHAT_LIMIT {
            let _ = self.recent_chat.remove(0);
        }
        self.recent_chat.push(msg);
        assert(self@.chat =~= push_bounded(old(self)@.chat, msg@, CHAT_LIMIT as nat));
    }

    /// What one who joins is sent first.
    pub fn opening(&self) -> (r: Vec<Bytes>)
        ensures
            outside::all_bytes(r@) == opening_tags(self@),
    {
        let mut tags: Vec<Bytes> = Vec::new();
        if let Some(header) = &self.video_sequence_header {
            tags.push(header.clone());
        }
        if let Some(header) = &self.audio_sequence_header {
            tags.push(header.clone());
        }
        tags.extend_from_slice(&self.gop_cache);
        assert(outside::all_bytes(tags@) =~= opening_tags(self@));
        tags
    }
}

/// The users and the tokens, as they are kept from one run to the next.
pub struct AuthDump {
    pub users: StringMap<User>,
    pub tokens: StringMap<String>,
}

/// Everything that the server knows.
pub struct AppState {
    pub streams: StringMap<LiveStream>,
    /// The users, by their names.
    pub users: StringMap<User>,
    /// The names of the users, by the tokens that stand for them.
    pub tokens: StringMap<String>,
    pub disable_registration: bool,
    pub record_config: RecordConfig,
}

/// Users, by their texts.
pub open spec fn user_views(users: Map<Seq<char>, User>) -> Map<Seq<char>, types::UserView> {
    users.map_values(|u: User| u@)
}

/// Tokens, by their texts.
pub open spec fn token_views(tokens: Map<Seq<char>, String>) -> Map<Seq<char>, Seq<char>> {
    tokens.map_values(|t: String| t@)
}

/// Streams, by their texts and bytes.
pub open spec fn stream_views(streams: Map<Seq<char>, LiveStream>) -> Map<Seq<char>, StreamView> {
    streams.map_values(|s: LiveStream| s@)
}

/// Everything that the server knows, by its texts and bytes.
pub struct AppView {
    /// The keys of the streams, in the order in which they came.
    pub order: Seq<Seq<char>>,
    pub streams: Map<Seq<char>, StreamView>,
    pub users: Map<Seq<char>, types::UserView>,
    pub tokens: Map<Seq<char>, Seq<char>>,
    pub disable_registration: bool,
    pub record_config: RecordConfig,
}

impl View for AppState {
    type V = AppView;

    open spec fn view(&self) -> AppView {
        AppView {
            order: self.streams.keys(),
            streams: stream_views(self.streams@),
            users: user_views(self.users@),
            tokens: token_views(self.tokens@),
            disable_registration: self.disable_registration,
            record_config: self.record_config,
        }
    }
}

/// What holds of everything that the server knows, at any time: each stream stands once in the
/// order, is kept under its own key, and is as every stream is.
pub open spec fn app_ok(v: AppView) -> bool {
    &&& v.order.no_duplicates()
    &&& forall|k: Seq<char>| v.order.contains(k) <==> #[trigger] v.streams.contains_key(k)
    &&& forall|k: Seq<char>| #[trigger]
        v.streams.contains_key(k) ==> stream_ok(v.streams[k]) && v.streams[k].meta.stream_key == k
}

/// `v` with the stream of key `k`, where there is one, changed by `f`.
pub open spec fn on_stream(
    v: AppView,
    k: Seq<char>,
    f: spec_fn(StreamView) -> StreamView,
) -> AppView {
    if v.streams.contains_key(k) {
        AppView { streams: v.streams.insert(k, f(v.streams[k])), ..v }
    } else {
        v
    }
}

/// A stream that is no longer live.
pub open spec fn ended(s: StreamView) -> StreamView {
    StreamView { meta: types::MetaView { is_live: false, bitrate_kbps: 0, fps: 0, ..s.meta }, ..s }
}

/// A stream with new measurements; an empty resolution leaves the one that is known.
pub open spec fn with_stats(
    s: StreamView,
    bitrate: u32,
    fps: u32,
    resolution: Seq<char>,
) -> StreamView {
    StreamView {
        meta: types::MetaView {
            bitrate_kbps: bitrate,
            fps,
            resolution: if resolution.len() > 0 {
                resolution
            } else {
                s.meta.resolution
            },
            ..s.meta
        },
        ..s
    }
}

/// A stream with another number of viewers.
pub open spec fn with_viewers(s: StreamView, n: int) -> StreamView {
    StreamView { meta: types::MetaView { viewer_count: n as usize, ..s.meta }, ..s }
}

/// A stream that one more viewer watches.
pub open spec fn joined(s: StreamView) -> StreamView {
    with_viewers(s, s.meta.viewer_count + 1)
}

/// A stream that one viewer fewer watches, if any watched it.
pub open spec fn left(s: StreamView) -> StreamView {
    if s.meta.viewer_count > 0 {
        with_viewers(s, s.meta.viewer_count - 1)
    } else {
        s
    }
}

/// When a stream started: as it is known, else now if it is live.
pub open spec fn start_time(
    known: Option<Timestamp>,
    live: bool,
    now: Timestamp,
) -> Option<Timestamp> {
    if live && known is None {
        Some(now)
    } else {
        known
    }
}

/// What is known of a stream after it was announced again: what it is called and whether it is
/// live is taken over, what was measured of it stays.
pub open spec fn announced_again(
    known: types::MetaView,
    m: types::MetaView,
    now: Timestamp,
) -> types::MetaView {
    types::MetaView {
        title: m.title,
        broadcaster: m.broadcaster,
        category: m.category,
        description: m.description,
        is_live: m.is_live,
        source_type: m.source_type,
        started_at: start_time(known.started_at, m.is_live, now),
        ..known
    }
}

/// What is known of a stream after it was announced.
pub open spec fn announced_meta(v: AppView, m: types::MetaView, now: Timestamp) -> types::MetaView {
    if v.streams.contains_key(m.stream_key) {
        announced_again(v.streams[m.stream_key].meta, m, now)
    } else {
        types::MetaView { started_at: start_time(m.started_at, m.is_live, now), ..m }
    }
}

/// A stream that keeps nothing yet.
pub open spec fn fresh_stream(m: types::MetaView) -> StreamView {
    StreamView { meta: m, chat: Seq::empty(), video: None, audio: None, gop: Seq::empty() }
}

/// Everything that the server knows after a stream was announced.
pub open spec fn announced(v: AppView, m: types::MetaView, now: Timestamp) -> AppView {
    let k = m.stream_key;
    let after = announced_meta(v, m, now);
    if v.streams.contains_key(k) {
        AppView { streams: v.streams.insert(k, StreamView { meta: after, ..v.streams[k] }), ..v }
    } else {
        AppView { order: v.order.push(k), streams: v.streams.insert(k, fresh_stream(after)), ..v }
    }
}

/// The user that a token stands for.
pub open spec fn holder(v: AppView, token: Seq<char>) -> Option<types::UserView> {
    if token.len() > 0 && v.tokens.contains_key(token) && v.users.contains_key(v.tokens[token]) {
        Some(v.users[v.tokens[token]])
    } else {
        None
    }
}

impl AppState {
    /// The parts are well-formed, and everything known is as it is at any time.
    pub open spec fn wf(&self) -> bool {
        &&& self.streams.wf()
        &&& self.users.wf()
        &&& self.tokens.wf()
        &&& app_ok(self@)
    }

    /// A server that knows no stream, and of users and tokens what was kept, if anything was.
    pub fn new(
        disable_registration: bool,
        record_config: RecordConfig,
        kept: Option<AuthDump>,
    ) -> (r: Self)
        requires
            kept matches Some(d) ==> d.users.wf() && d.tokens.wf(),
        ensures
            r.wf(),
            r@ == (AppView {
                order: Seq::empty(),
                streams: Map::empty(),
                users: match kept {
                    Some(d) => user_views(d.users@),
                    None => Map::empty(),
                },
                tokens: match kept {
                    Some(d) => token_views(d.tokens@),
                    None => Map::empty(),
                },
                disable_registration,
                record_config,
            }),
    {
        let (users, tokens): (StringMap<User>, StringMap<String>) = match kept {
            Some(dump) => (dump.users, dump.tokens),
            None => (StringMap::new(), StringMap::new()),
        };
        let r = AppState {
            streams: StringMap::new(),
            users,
            tokens,
            disable_registration,
            record_config,
        };
        assert(r@.streams =~= Map::empty());
        assert(kept is None ==> r@.users =~= Map::empty() && r@.tokens =~= Map::empty());
        r
    }

    /// The users and tokens, to be kept.
    pub fn save_auth(&self) -> (r: AuthDump)
        requires
            self.wf(),
        ensures
            r.users.wf(),
            r.tokens.wf(),
            user_views(r.users@) == self@.users,
            token_views(r.tokens@) == self@.tokens,
    {
        let r = AuthDump { users: self.users.duplicate(), tokens: self.tokens.duplicate() };
        assert(user_views(r.users@) =~= self@.users);
        assert(token_views(r.tokens@) =~= self@.tokens);
        r
    }

    /// The user that a token stands for.
    pub fn verify_token(&self, token: &str) -> (r: Option<User>)
        requires
            self.wf(),
        ensures
            match r {
                Some(u) => holder(self@, token@) == Some(u@),
                None => holder(self@, token@) is None,
            },
    {
        if token.is_empty() {
            return None;
        }
        if let Some(username) = self.tokens.get(token) {
            match self.users.get(username.as_str()) {
                Some(user) => Some(user.clone()),
                None => None,
            }
        } else {
            None
        }
    }

    /// What is known of the streams, in the order in which they came.
    pub fn get_stream_list(&self) -> (r: Vec<StreamMetadata>)
        requires
            self.wf(),
        ensures
            r@.len() == self@.order.len(),
            forall|i: int|
                0 <= i < r@.len() ==> (#[trigger] r@[i])@ == self@.streams[self@.order[i]].meta,
    {
        let mut list: Vec<StreamMetadata> = Vec::new();
        let mut i: usize = 0;
        while i < self.streams.len()
            invariant
                self.wf(),
                i <= self@.order.len(),
                list@.len() == i,
                forall|j: int|
                    0 <= j < i ==> (#[trigger] list@[j])@ == self@.streams[self@.order[j]].meta,
            decreases self@.order.len() - i,
        {
            let (_, stream) = self.streams.entry(i);
            list.push(stream.meta.clone());
            i = i + 1;
        }
        list
    }

    /// Announces a stream at a given moment: it is made known, or what is known of it is brought
    /// up to date.
    pub fn create_or_update_stream_at(&mut self, meta: StreamMetadata, now: Timestamp) -> (r:
        StreamMetadata)
        requires
            old(self).wf(),
        ensures
            final(self).wf(),
            final(self)@ == announced(old(self)@, meta@, now),
            r@ == announced_meta(old(self)@, meta@, now),
    {
        let ghost k = meta@.stream_key;
        if self.streams.contains_key(meta.stream_key.as_str()) {
            let mut known: Option<StreamMetadata> = None;
            if let Some(existing) = self.streams.get_mut(meta.stream_key.as_str()) {
                existing.meta.title = meta.title.clone();
                existing.meta.broadcaster = meta.broadcaster.clone();
                existing.meta.category = meta.category.clone();
                existing.meta.description = meta.description.clone();
                existing.meta.is_live = meta.is_live;
                existing.meta.source_type = meta.source_type.clone();
                if meta.is_live && existing.meta.started_at.is_none() {
                    existing.meta.started_at = Some(now);
                }
                known = Some(existing.meta.clone());
            }
            assert(self@.streams =~= announced(old(self)@, meta@, now).streams);
            known.unwrap()
        } else {
            let mut meta = meta;
            if meta.is_live && meta.started_at.is_none() {
                meta.started_at = Some(now);
            }
            let stream = LiveStream::new(meta.clone());
            self.streams.insert(meta.stream_key.clone(), stream);
            assert(self@.streams =~= old(self)@.streams.insert(k, fresh_stream(meta@)));
            meta
        }
    }

    /// Announces a stream now.
    pub fn create_or_update_stream(&mut self, meta: StreamMetadata) -> (r: StreamMetadata)
        requires
            old(self).wf(),
        ensures
            final(self).wf(),
            exists|now: Timestamp|
                outside::clock_may_give(now.secs, now.nanos) && #[trigger] announced(
                    old(self)@,
                    meta@,
                    now,
                ) == final(self)@ && r@ == announced_meta(
                    old(self)@,
                    meta@,
                    now,
                ),
    {
        let now: Timestamp = outside::utc_now();
        let r = self.create_or_update_stream_at(meta, now);
        assert(announced(old(self)@, meta@, now) == self@);
        r
    }

    /// Notes that a stream is no longer live.
    pub fn end_stream(&mut self, stream_key: &str)
        requires
            old(self).wf(),
        ensures
            final(self).wf(),
            final(self)@ == on_stream(old(self)@, stream_key@, |s: StreamView| ended(s)),
    {
        if let Some(stream) = self.streams.get_mut(stream_key) {
            stream.meta.is_live = false;
            stream.meta.bitrate_kbps = 0;
            stream.meta.fps = 0;
        }
        assert(self@.streams =~= on_stream(
            old(self)@,
            stream_key@,
            |s: StreamView| ended(s),
        ).streams);
    }

    /// Notes what was measured of a stream.
    pub fn update_stats(&mut self, stream_key: &str, bitrate: u32, fps: u32, resolution: &str)
        requires
            old(self).wf(),
        ensures
            final(self).wf(),
            final(self)@ == on_stream(
                old(self)@,
                stream_key@,
                |s: StreamView| with_stats(s, bitrate, fps, resolution@),
            ),
    {
        if let Some(stream) = self.streams.get_mut(stream_key) {
            stream.meta.bitrate_kbps = bitrate;
            stream.meta.fps = fps;
            if !resolution.is_empty() {
                stream.meta.resolution = resolution.to_owned();
            }
        }
        assert(self@.streams =~= on_stream(
            old(self)@,
            stream_key@,
            |s: StreamView| with_stats(s, bitrate, fps, resolution@),
        ).streams);
    }

    /// What one who starts to watch a stream is sent first; none where there is no such stream.
    pub fn subscribe_media(&self, stream_key: &str) -> (r: Option<Vec<Bytes>>)
        requires
            self.wf(),
        ensures
            match r {
                Some(tags) => self@.streams.contains_key(stream_key@) && outside::all_bytes(tags@)
                    == opening_tags(self@.streams[stream_key@]),
                None => !self@.streams.contains_key(stream_key@),
            },
    {
        match self.streams.get(stream_key) {
            Some(stream) => Some(stream.opening()),
            None => None,
        }
    }

    /// Keeps what is to be kept of a packet, and hands the packet back where there is a stream
    /// whose viewers it is to be sent to.
    pub fn publish_media(&mut self, stream_key: &str, packet: MediaPacket) -> (r: Option<
        MediaPacket,
    >)
        requires
            old(self).wf(),
        ensures
            final(self).wf(),
            final(self)@ == on_stream(
                old(self)@,
                stream_key@,
                |s: StreamView| after_packet(s, packet@),
            ),
            match r {
                Some(p) => old(self)@.streams.contains_key(stream_key@) && p == packet,
                None => !old(self)@.streams.contains_key(stream_key@),
            },
    {
        let known: bool = match self.streams.get_mut(stream_key) {
            Some(stream) => {
                stream.keep_packet(&packet);
                true
            },
            None => false,
        };
        assert(self@.streams =~= on_stream(
            old(self)@,
            stream_key@,
            |s: StreamView| after_packet(s, packet@),
        ).streams);
        if known {
            Some(packet)
        } else {
            None
        }
    }

    /// Whether one more viewer of a stream can still be counted.
    pub fn has_room_for_viewer(&self, stream_key: &str) -> (r: bool)
        requires
            self.wf(),
        ensures
            r == (self@.streams.contains_key(stream_key@) ==> self@.streams[stream_key@].meta.viewer_count
                < usize::MAX),
    {
        match self.streams.get(stream_key) {
            Some(stream) => stream.meta.viewer_count < usize::MAX,
            None => true,
        }
    }

    /// Counts one more viewer of a stream and gives the chat messages that it keeps; none where
    /// there is no such stream.
    pub fn subscribe_chat(&mut self, stream_key: &str) -> (r: Option<Vec<ChatMessage>>)
        requires
            old(self).wf(),
            old(self)@.streams.contains_key(stream_key@) ==> old(
                self,
            )@.streams[stream_key@].meta.viewer_count < usize::MAX,
        ensures
            final(self).wf(),
            final(self)@ == on_stream(old(self)@, stream_key@, |s: StreamView| joined(s)),
            match r {
                Some(list) => old(self)@.streams.contains_key(stream_key@) && chat_views(list@)
                    == old(self)@.streams[stream_key@].chat,
                None => !old(self)@.streams.contains_key(stream_key@),
            },
    {
        let r: Option<Vec<ChatMessage>> = match self.streams.get_mut(stream_key) {
            Some(stream) => {
                stream.meta.viewer_count = stream.meta.viewer_count + 1;
                let list = stream.recent_chat.clone();
                assert(chat_views(list@) =~= chat_views(stream.recent_chat@));
                Some(list)
            },
            None => None,
        };
        assert(self@.streams =~= on_stream(
            old(self)@,
            stream_key@,
            |s: StreamView| joined(s),
        ).streams);
        r
    }

    /// Counts one viewer fewer of a stream.
    pub fn unsubscribe_viewer(&mut self, stream_key: &str)
        requires
            old(self).wf(),
        ensures
            final(self).wf(),
            final(self)@ == on_stream(old(self)@, stream_key@, |s: StreamView| left(s)),
    {
        if let Some(stream) = self.streams.get_mut(stream_key) {
            if stream.meta.viewer_count > 0 {
                stream.meta.viewer_count = stream.meta.viewer_count - 1;
            }
        }
        assert(self@.streams =~= on_stream(
            old(self)@,
            stream_key@,
            |s: StreamView| left(s),
        ).streams);
    }

    /// Keeps a chat message, and hands it back where there is a stream whose chat it is to be
    /// sent to.
    pub fn publish_chat(&mut self, msg: ChatMessage) -> (r: Option<ChatMessage>)
        requires
            old(self).wf(),
        ensures
            final(self).wf(),
            final(self)@ == on_stream(
                old(self)@,
                msg@.stream_key,
                |s: StreamView| after_chat(s, msg@),
            ),
            match r {
                Some(m) => old(self)@.streams.contains_key(msg@.stream_key) && m == msg,
                None => !old(self)@.streams.contains_key(msg@.stream_key),
            },
    {
        let known: bool = match self.streams.get_mut(msg.stream_key.as_str()) {
            Some(stream) => {
                stream.keep_chat(msg.clone());
                true
            },
            None => false,
        };
        assert(self@.streams =~= on_stream(
            old(self)@,
            msg@.stream_key,
            |s: StreamView| after_chat(s, msg@),
        ).streams);
        if known {
            Some(msg)
        } else {
            None
        }
    }
}

} // verus!
