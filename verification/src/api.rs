//! What the server answers over HTTP and WebSocket.
use crate::flv;
use crate::outside;
use crate::outside::Timestamp;
use crate::state;
use crate::state::AppState;
use crate::text;
use crate::types;
use crate::types::{ChatMessage, StreamMetadata, User};
use bytes::Bytes;
use vstd::prelude::*;

verus! {

/// What a request to watch says.
#[derive(Debug)]
pub struct WatchQuery {
    pub token: Option<String>,
}

/// What a request for a list of streams says.
#[derive(Debug)]
pub struct StreamFilterQuery {
    pub search: Option<String>,
    pub category: Option<String>,
}

/// A text with small letters in place of ASCII capitals.
pub open spec fn folded(s: Seq<char>) -> Seq<char> {
    s.map_values(|c: char| text::ascii_lower(c))
}

/// Whether a stream is of a category. No category, an empty one and "all" stand for any.
pub open spec fn in_category(m: types::MetaView, category: Option<Seq<char>>) -> bool {
    match category {
        Some(c) => c.len() == 0 || folded(c) == seq!['a', 'l', 'l'] || folded(m.category) == folded(
            c,
        ),
        None => true,
    }
}

/// Whether a needle occurs in one of three texts.
pub open spec fn mentioned(
    needle: Seq<char>,
    title: Seq<char>,
    broadcaster: Seq<char>,
    category: Seq<char>,
) -> bool {
    text::contains_text(title, needle) || text::contains_text(broadcaster, needle)
        || text::contains_text(category, needle)
}

/// Whether a stream is one that is searched for: what is searched occurs in its title, its
/// broadcaster or its category, whatever the case of the letters. Nothing searched, or only white
/// space, finds any.
pub open spec fn found(m: types::MetaView, search: Option<Seq<char>>) -> bool {
    match search {
        Some(q) => {
            let needle = text::lowercase(text::trimmed(q));
            needle.len() == 0 || mentioned(
                needle,
                text::lowercase(m.title),
                text::lowercase(m.broadcaster),
                text::lowercase(m.category),
            )
        },
        None => true,
    }
}

/// Picks the streams that a filter lets through.
pub open spec fn wanted(
    search: Option<Seq<char>>,
    category: Option<Seq<char>>,
) -> spec_fn(types::MetaView) -> bool {
    |m: types::MetaView| in_category(m, category) && found(m, search)
}

/// Streams, by the texts of what is known of them.
pub open spec fn meta_views(list: Seq<StreamMetadata>) -> Seq<types::MetaView> {
    list.map_values(|m: StreamMetadata| m@)
}

/// Whether a stream is of a category.
fn of_category(m: &StreamMetadata, category: &Option<String>) -> (r: bool)
    ensures
        r == in_category(m@, types::opt_text(*category)),
{
    proof {
        reveal_strlit("all");
        assert(folded("all"@) =~= seq!['a', 'l', 'l']);
    }
    match category {
        Some(c) => c.as_str().is_empty() || text::eq_ignore_ascii_case(c.as_str(), "all")
            || text::eq_ignore_ascii_case(m.category.as_str(), c.as_str()),
        None => true,
    }
}

/// Whether a needle occurs in one of three texts.
pub fn mentions(needle: &str, title: &str, broadcaster: &str, category: &str) -> (r: bool)
    ensures
        r == mentioned(needle@, title@, broadcaster@, category@),
{
    text::contains(title, needle) || text::contains(broadcaster, needle) || text::contains(
        category,
        needle,
    )
}

/// Whether a stream is one that is searched for.
fn is_found(m: &StreamMetadata, search: &Option<String>) -> (r: bool)
    ensures
        r == found(m@, types::opt_text(*search)),
{
    match search {
        Some(q) => {
            let needle: String = text::trim(q.as_str()).to_lowercase();
            needle.as_str().is_empty() || mentions(
                needle.as_str(),
                m.title.as_str().to_lowercase().as_str(),
                m.broadcaster.as_str().to_lowercase().as_str(),
                m.category.as_str().to_lowercase().as_str(),
            )
        },
        None => true,
    }
}

/// The streams that a filter lets through, in their order.
pub fn filter_streams(list: &Vec<StreamMetadata>, filter: &StreamFilterQuery) -> (r: Vec<
    StreamMetadata,
>)
    ensures
        meta_views(r@) == meta_views(list@).filter(
            wanted(types::opt_text(filter.search), types::opt_text(filter.category)),
        ),
{
    let ghost all = meta_views(list@);
    let ghost pick = wanted(types::opt_text(filter.search), types::opt_text(filter.category));
    let mut kept: Vec<StreamMetadata> = Vec::new();
    let mut i: usize = 0;
    proof {
        reveal(Seq::filter);
        assert(meta_views(kept@) =~= all.take(0).filter(pick));
    }
    while i < list.len()
        invariant
            i <= list@.len(),
            all == meta_views(list@),
            pick == wanted(types::opt_text(filter.search), types::opt_text(filter.category)),
            meta_views(kept@) == all.take(i as int).filter(pick),
        decreases list@.len() - i,
    {
        let ghost before = kept@;
        proof {
            reveal(Seq::filter);
            assert(all.take(i + 1).drop_last() =~= all.take(i as int));
            assert(all.take(i + 1).last() == list@[i as int]@);
        }
        if of_category(&list[i], &filter.category) && is_found(&list[i], &filter.search) {
            kept.push(list[i].clone());
            assert(meta_views(kept@) =~= meta_views(before).push(list@[i as int]@));
        }
        i = i + 1;
    }
    assert(all.take(i as int) =~= all);
    kept
}

/// The number of viewers of some streams together.
pub open spec fn viewers(list: Seq<types::MetaView>) -> nat
    decreases list.len(),
{
    if list.len() == 0 {
        0
    } else {
        viewers(list.drop_last()) + list.last().viewer_count as nat
    }
}

/// The first of some streams have no more viewers than all.
proof fn lemma_viewers_grow(list: Seq<types::MetaView>, n: int)
    requires
        0 <= n <= list.len(),
    ensures
        viewers(list.take(n)) <= viewers(list),
    decreases list.len() - n,
{
    if n == list.len() {
        assert(list.take(n) =~= list);
    } else {
        lemma_viewers_grow(list, n + 1);
        assert(list.take(n + 1).drop_last() =~= list.take(n));
    }
}

/// The number of viewers of some streams together; none where it is too large to be counted.
pub fn total_viewers(list: &Vec<StreamMetadata>) -> (r: Option<usize>)
    ensures
        r == (if viewers(meta_views(list@)) <= usize::MAX {
            Some(viewers(meta_views(list@)) as usize)
        } else {
            None
        }),
{
    let ghost all = meta_views(list@);
    let mut total: usize = 0;
    let mut i: usize = 0;
    assert(all.take(0) =~= Seq::empty());
    while i < list.len()
        invariant
            i <= list@.len(),
            all == meta_views(list@),
            total == viewers(all.take(i as int)),
        decreases list@.len() - i,
    {
        proof {
            assert(all.take(i + 1).drop_last() =~= all.take(i as int));
            assert(all.take(i + 1).last() == list@[i as int]@);
            lemma_viewers_grow(all, i + 1);
        }
        match total.checked_add(list[i].viewer_count) {
            Some(n) => {
                total = n;
            },
            None => {
                return None;
            },
        }
        i = i + 1;
    }
    assert(all.take(i as int) =~= all);
    Some(total)
}

/// The text of an optional string; the empty text without one.
pub open spec fn text_or_empty(s: Option<String>) -> Seq<char> {
    match s {
        Some(t) => t@,
        None => Seq::empty(),
    }
}

/// The token in a request to watch.
fn token_of(query: &WatchQuery) -> (r: &str)
    ensures
        r@ == text_or_empty(query.token),
{
    proof {
        reveal_strlit("");
        assert(""@ =~= Seq::empty());
    }
    match &query.token {
        Some(t) => t.as_str(),
        None => "",
    }
}

/// The answer to a request to watch a stream over HTTP.
pub enum FlvWatch {
    /// No: an HTTP status and a text.
    Refused { status: u16, reason: String },
    /// Yes: the key of the stream, and what the answer starts with.
    Opened { key: String, opening: Vec<u8> },
}

/// The answer to a request to watch a stream over HTTP, by its texts and bytes.
pub enum FlvWatchView {
    Refused { status: u16, reason: Seq<char> },
    Opened { key: Seq<char>, opening: Seq<u8> },
}

impl View for FlvWatch {
    type V = FlvWatchView;

    open spec fn view(&self) -> FlvWatchView {
        match *self {
            FlvWatch::Refused { status, reason } => FlvWatchView::Refused {
                status,
                reason: reason@,
            },
            FlvWatch::Opened { key, opening } => FlvWatchView::Opened {
                key: key@,
                opening: opening@,
            },
        }
    }
}

/// The key of a stream in a path that may end with ".flv".
pub open spec fn key_in_path(path: Seq<char>) -> Seq<char> {
    text::without_trailing(path, seq!['.', 'f', 'l', 'v'])
}

/// What a request to watch over HTTP is answered: only one with a token that stands for a user is
/// sent anything of a stream, which starts with the FLV header and what one who joins is sent.
pub open spec fn flv_watch(v: state::AppView, token: Seq<char>, path: Seq<char>) -> FlvWatchView {
    let key = key_in_path(path);
    if state::holder(v, token) is None {
        FlvWatchView::Refused {
            status: 401,
            reason: "Authentication Required: Registered users only"@,
        }
    } else if !v.streams.contains_key(key) {
        FlvWatchView::Refused { status: 404, reason: "Stream offline or does not exist"@ }
    } else {
        FlvWatchView::Opened {
            key,
            opening: flv::file_header() + state::opening_tags(v.streams[key]).flatten(),
        }
    }
}

/// The answer to a request to watch a stream over WebSocket.
pub enum SocketWatch {
    /// No: the text that is sent before the socket is closed.
    Refused(String),
    /// There is no such stream: the text that is sent.
    Offline(String),
    /// Yes: what is sent first.
    Opened(Vec<Bytes>),
}

/// The answer to a request to watch a stream over WebSocket, by its texts and bytes.
pub enum SocketWatchView {
    Refused(Seq<char>),
    Offline(Seq<char>),
    Opened(Seq<Seq<u8>>),
}

impl View for SocketWatch {
    type V = SocketWatchView;

    open spec fn view(&self) -> SocketWatchView {
        match *self {
            SocketWatch::Refused(t) => SocketWatchView::Refused(t@),
            SocketWatch::Offline(t) => SocketWatchView::Offline(t@),
            SocketWatch::Opened(tags) => SocketWatchView::Opened(outside::all_bytes(tags@)),
        }
    }
}

/// What a request to watch over WebSocket is answered: only one with a token that stands for a
/// user is sent anything of a stream.
pub open spec fn socket_watch(
    v: state::AppView,
    token: Seq<char>,
    key: Seq<char>,
) -> SocketWatchView {
    if state::holder(v, token) is None {
        SocketWatchView::Refused(
            "{\"error\": \"Authentication required. Please log in to watch this live stream.\"}"@,
        )
    } else if !v.streams.contains_key(key) {
        SocketWatchView::Offline("{\"error\": \"Stream offline\"}"@)
    } else {
        SocketWatchView::Opened(state::opening_tags(v.streams[key]))
    }
}

/// The answer to a request to join the chat of a stream.
pub enum ChatJoin {
    /// No: the text that is sent before the socket is closed.
    Refused(String),
    /// There is no such stream.
    Offline,
    /// Yes: who joins, and the messages that are sent first.
    Joined { user: User, recent: Vec<ChatMessage> },
}

/// The answer to a request to join the chat of a stream, by its texts.
pub enum ChatJoinView {
    Refused(Seq<char>),
    Offline,
    Joined { user: types::UserView, recent: Seq<types::ChatView> },
}

impl View for ChatJoin {
    type V = ChatJoinView;

    open spec fn view(&self) -> ChatJoinView {
        match *self {
            ChatJoin::Refused(t) => ChatJoinView::Refused(t@),
            ChatJoin::Offline => ChatJoinView::Offline,
            ChatJoin::Joined { user, recent } => ChatJoinView::Joined {
                user: user@,
                recent: state::chat_views(recent@),
            },
        }
    }
}

/// What a request to join a chat is answered: only one with a token that stands for a user joins.
pub open spec fn chat_join(v: state::AppView, token: Seq<char>, key: Seq<char>) -> ChatJoinView {
    match state::holder(v, token) {
        None => ChatJoinView::Refused("{\"error\": \"Authentication required to chat.\"}"@),
        Some(user) => if v.streams.contains_key(key) {
            ChatJoinView::Joined { user, recent: v.streams[key].chat }
        } else {
            ChatJoinView::Offline
        },
    }
}

/// Everything known after a request to join a chat: one who joins counts as a viewer.
pub open spec fn after_join(v: state::AppView, token: Seq<char>, key: Seq<char>) -> state::AppView {
    if state::holder(v, token) is Some {
        state::on_stream(v, key, |s: state::StreamView| state::joined(s))
    } else {
        v
    }
}

/// A chat message as it is passed on: of what the sender wrote only the text stays; who sent it,
/// where, when and under which number is the server's word.
pub open spec fn attributed(
    m: types::ChatView,
    id: Seq<char>,
    key: Seq<char>,
    username: Seq<char>,
    now: Timestamp,
) -> types::ChatView {
    types::ChatView {
        id,
        stream_key: key,
        sender: username,
        badge: Some("Registered User"@),
        message: m.message,
        timestamp: now,
    }
}

/// A chat message as it is passed on.
pub fn attribute(msg: ChatMessage, id: String, key: &str, username: &str, now: Timestamp) -> (r:
    ChatMessage)
    ensures
        r@ == attributed(msg@, id@, key@, username@, now),
{
    ChatMessage {
        id,
        stream_key: key.to_owned(),
        sender: username.to_owned(),
        badge: Some("Registered User".to_owned()),
        message: msg.message,
        timestamp: now,
    }
}

/// The key that a stream without one gets: the first twelve digits of an identifier.
pub open spec fn key_from_id(id: Seq<char>) -> Seq<char> {
    text::without_char(id, '-').take(12)
}

/// What is known of a stream, with a key from an identifier where it has none.
pub open spec fn with_key(m: types::MetaView, id: Seq<char>) -> types::MetaView {
    if m.stream_key.len() == 0 {
        types::MetaView { stream_key: key_from_id(id), ..m }
    } else {
        m
    }
}

/// The identifiers that the server makes have enough digits for a key.
proof fn lemma_id_digits(id: Seq<char>)
    requires
        outside::uuid_text(id),
    ensures
        text::without_char(id, '-').len() == 32,
{
    reveal(Seq::filter);
    let p = text::other_than('-');
    let parts = id.subrange(0, 8) + seq!['-'] + id.subrange(9, 13) + seq!['-'] + id.subrange(
        14,
        18,
    ) + seq!['-'] + id.subrange(19, 23) + seq!['-'] + id.subrange(24, 36);
    assert(id =~= parts);
    lemma_filter_all(id.subrange(0, 8), p);
    lemma_filter_all(id.subrange(9, 13), p);
    lemma_filter_all(id.subrange(14, 18), p);
    lemma_filter_all(id.subrange(19, 23), p);
    lemma_filter_all(id.subrange(24, 36), p);
    broadcast use Seq::filter_distributes_over_add;
    let hyphen = seq!['-'];
    assert(hyphen.drop_last() =~= Seq::empty());
    assert(Seq::<char>::empty().filter(p) =~= Seq::empty());
    assert(hyphen.filter(p) =~= Seq::empty());
}

/// A filter that every element passes keeps them all.
proof fn lemma_filter_all(s: Seq<char>, p: spec_fn(char) -> bool)
    requires
        forall|i: int| 0 <= i < s.len() ==> p(#[trigger] s[i]),
    ensures
        s.filter(p) == s,
    decreases s.len(),
{
    reveal(Seq::filter);
    if s.len() > 0 {
        lemma_filter_all(s.drop_last(), p);
        assert(s.drop_last().push(s.last()) =~= s);
    } else {
        assert(s.filter(p) =~= s);
    }
}

/// Only one with a token that stands for a user is sent anything of a stream, or joins a chat: any
/// other is refused on every way in, and changes nothing.
pub proof fn law_only_users_get_in(v: state::AppView, token: Seq<char>, path: Seq<char>)
    ensures
        state::holder(v, token) is None ==> {
            &&& flv_watch(v, token, path) == (FlvWatchView::Refused {
                status: 401,
                reason: "Authentication Required: Registered users only"@,
            })
            &&& socket_watch(v, token, path) is Refused
            &&& chat_join(v, token, path) is Refused
            &&& after_join(v, token, path) == v
        },
        state::holder(v, token) is Some ==> {
            &&& flv_watch(v, token, path) is Opened <==> v.streams.contains_key(key_in_path(path))
            &&& socket_watch(v, token, path) is Opened <==> v.streams.contains_key(path)
            &&& chat_join(v, token, path) is Joined <==> v.streams.contains_key(path)
        },
{
}

/// The empty token stands for nobody: a request without a token is refused.
pub proof fn law_no_token_no_entry(v: state::AppView, path: Seq<char>)
    ensures
        flv_watch(v, Seq::empty(), path) is Refused,
        socket_watch(v, Seq::empty(), path) is Refused,
        chat_join(v, Seq::empty(), path) is Refused,
{
}

/// What is sent over HTTP starts with the FLV file header.
pub proof fn law_answer_starts_with_header(v: state::AppView, token: Seq<char>, path: Seq<char>)
    ensures
        flv_watch(v, token, path) matches FlvWatchView::Opened { opening, .. }
            ==> flv::file_header().is_prefix_of(opening),
{
    if let FlvWatchView::Opened { opening, .. } = flv_watch(v, token, path) {
        let h = flv::file_header();
        assert(opening.subrange(0, h.len() as int) =~= h);
    }
}

/// A stream is found under its key with ".flv" or without, where the key itself does not end so.
pub proof fn law_extension_is_optional(key: Seq<char>)
    requires
        !seq!['.', 'f', 'l', 'v'].is_suffix_of(key),
    ensures
        key_in_path(key) == key,
        key_in_path(key + seq!['.', 'f', 'l', 'v']) == key,
{
    let tail = seq!['.', 'f', 'l', 'v'];
    let p = key + tail;
    assert(p.subrange(p.len() - 4, p.len() as int) =~= tail);
    assert(p.take(p.len() - 4) =~= key);
    reveal_with_fuel(text::without_trailing, 2);
}

/// One who joins a chat and leaves it again leaves everything as it was.
pub proof fn law_joining_and_leaving_a_chat(v: state::AppView, token: Seq<char>, key: Seq<char>)
    requires
        state::holder(v, token) is Some,
        v.streams.contains_key(key),
        v.streams[key].meta.viewer_count < usize::MAX,
    ensures
        state::on_stream(
            after_join(v, token, key),
            key,
            |s: state::StreamView| state::left(s),
        ) == v,
{
    let w = after_join(v, token, key);
    let x = state::on_stream(w, key, |s: state::StreamView| state::left(s));
    assert(x.streams =~= v.streams);
}

/// Whatever a client writes into a message about itself, the message is passed on under the name
/// of the user whose token it came with, and differs only by its text.
pub proof fn law_sender_cannot_be_forged(
    m: types::ChatView,
    n: types::ChatView,
    id: Seq<char>,
    key: Seq<char>,
    username: Seq<char>,
    now: Timestamp,
)
    ensures
        attributed(m, id, key, username, now).sender == username,
        attributed(m, id, key, username, now).stream_key == key,
        attributed(m, id, key, username, now).timestamp == now,
        attributed(m, id, key, username, now).message == m.message,
        m.message == n.message ==> attributed(m, id, key, username, now) == attributed(
            n,
            id,
            key,
            username,
            now,
        ),
{
}

/// Without a filter every stream is listed.
pub proof fn law_no_filter_lists_all(list: Seq<types::MetaView>)
    ensures
        list.filter(wanted(None, None)) == list,
    decreases list.len(),
{
    reveal(Seq::filter);
    let p = wanted(None, None);
    if list.len() > 0 {
        law_no_filter_lists_all(list.drop_last());
        assert(list.drop_last().push(list.last()) =~= list);
    } else {
        assert(list.filter(p) =~= list);
    }
}

/// A category is chosen whatever the case of its letters.
pub proof fn law_category_ignores_case(
    m: types::MetaView,
    a: Seq<char>,
    b: Seq<char>,
)
    requires
        folded(a) == folded(b),
    ensures
        in_category(m, Some(a)) == in_category(m, Some(b)),
{
    assert(folded(a).len() == a.len() && folded(b).len() == b.len());
}

/// The key that a stream without one gets is twelve lower-case hexadecimal digits.
pub proof fn law_made_up_key(id: Seq<char>)
    requires
        outside::uuid_text(id),
    ensures
        key_from_id(id).len() == 12,
        forall|i: int| 0 <= i < 12 ==> outside::lower_hex(#[trigger] key_from_id(id)[i]),
{
    lemma_id_digits(id);
    let all = text::without_char(id, '-');
    let p = text::other_than('-');
    assert forall|i: int| 0 <= i < 12 implies outside::lower_hex(#[trigger] key_from_id(id)[i]) by {
        let c = all[i];
        assert(all.contains(c));
        id.lemma_filter_contains_rev(p, c);
        id.lemma_filter_pred(p, i);
        assert(id.contains(c) && p(c));
        let j = id.index_of(c);
        assert(id[j] == c);
    }
}

impl AppState {
    /// Answers a request to watch a stream over HTTP.
    pub fn watch_flv(&self, query: &WatchQuery, path: &str) -> (r: FlvWatch)
        requires
            self.wf(),
        ensures
            r@ == flv_watch(self@, text_or_empty(query.token), path@),
    {
        proof {
            reveal_strlit(".flv");
            assert(".flv"@ =~= seq!['.', 'f', 'l', 'v']);
        }
        if self.verify_token(token_of(query)).is_none() {
            return FlvWatch::Refused {
                status: 401,
                reason: "Authentication Required: Registered users only".to_owned(),
            };
        }
        let key: String = text::trim_trailing(path, ".flv").to_owned();
        match self.subscribe_media(key.as_str()) {
            Some(tags) => FlvWatch::Opened { key, opening: flv::with_file_header(&tags) },
            None => FlvWatch::Refused {
                status: 404,
                reason: "Stream offline or does not exist".to_owned(),
            },
        }
    }

    /// Answers a request to watch a stream over WebSocket.
    pub fn watch_socket(&self, query: &WatchQuery, key: &str) -> (r: SocketWatch)
        requires
            self.wf(),
        ensures
            r@ == socket_watch(self@, text_or_empty(query.token), key@),
    {
        if self.verify_token(token_of(query)).is_none() {
            return SocketWatch::Refused(
                "{\"error\": \"Authentication required. Please log in to watch this live stream.\"}".to_owned(),
            );
        }
        match self.subscribe_media(key) {
            Some(tags) => SocketWatch::Opened(tags),
            None => SocketWatch::Offline("{\"error\": \"Stream offline\"}".to_owned()),
        }
    }

    /// Answers a request to join the chat of a stream.
    pub fn join_chat(&mut self, query: &WatchQuery, key: &str) -> (r: ChatJoin)
        requires
            old(self).wf(),
            state::holder(old(self)@, text_or_empty(query.token)) is Some && old(
                self,
            )@.streams.contains_key(key@) ==> old(self)@.streams[key@].meta.viewer_count
                < usize::MAX,
        ensures
            final(self).wf(),
            r@ == chat_join(old(self)@, text_or_empty(query.token), key@),
            final(self)@ == after_join(old(self)@, text_or_empty(query.token), key@),
    {
        match self.verify_token(token_of(query)) {
            None => ChatJoin::Refused(
                "{\"error\": \"Authentication required to chat.\"}".to_owned(),
            ),
            Some(user) => match self.subscribe_chat(key) {
                Some(recent) => ChatJoin::Joined { user, recent },
                None => ChatJoin::Offline,
            },
        }
    }

    /// Registers a stream at a given moment, with a key from an identifier where it has none.
    pub fn register_stream_with(&mut self, meta: StreamMetadata, id: &str, now: Timestamp) -> (r:
        StreamMetadata)
        requires
            old(self).wf(),
            meta@.stream_key.len() == 0 ==> text::without_char(id@, '-').len() >= 12,
        ensures
            final(self).wf(),
            final(self)@ == state::announced(old(self)@, with_key(meta@, id@), now),
            r@ == state::announced_meta(old(self)@, with_key(meta@, id@), now),
    {
        let mut meta = meta;
        if meta.stream_key.as_str().is_empty() {
            meta.stream_key = text::first_without(id, '-', 12);
        }
        self.create_or_update_stream_at(meta, now)
    }

    /// Registers a stream.
    pub fn register_stream(&mut self, meta: StreamMetadata) -> (r: StreamMetadata)
        requires
            old(self).wf(),
        ensures
            final(self).wf(),
            exists|id: Seq<char>, now: Timestamp|
                {
                    &&& outside::chance_may_give(id) && outside::uuid_text(id)
                    &&& outside::clock_may_give(now.secs, now.nanos)
                    &&& final(self)@ == #[trigger] state::announced(
                        old(self)@,
                        with_key(meta@, id),
                        now,
                    )
                    &&& r@ == state::announced_meta(old(self)@, with_key(meta@, id), now)
                },
    {
        let id: String = outside::random_uuid();
        let now: Timestamp = outside::utc_now();
        proof {
            lemma_id_digits(id@);
        }
        let r = self.register_stream_with(meta, id.as_str(), now);
        assert(self@ == state::announced(old(self)@, with_key(meta@, id@), now));
        r
    }
}

} // verus!
