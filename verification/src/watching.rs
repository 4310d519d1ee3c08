//! What those who ask over HTTP or WebSocket are answered, text by text and byte by byte.
use crate::announcing;
use crate::api;
use crate::assets;
use crate::chat;
use crate::flv;
use crate::outside::Timestamp;
use crate::pages;
use crate::rtmp;
use crate::state;
use crate::streams;
use crate::text;
use crate::types;
use crate::viewer;
use crate::words;
use vstd::prelude::*;

verus! {

/// Whether a token is not empty and stands for a user.
pub open spec fn lets_in(v: state::AppView, token: Seq<char>) -> bool {
    token.len() > 0 && v.tokens.contains_key(token) && v.users.contains_key(v.tokens[token])
}

/// Who may watch over HTTP: one without a token that stands for a user is told to log in, one with such
/// a token who asks for a stream that is not known is told so, and any other is sent that stream.
pub proof fn law_who_may_watch(v: state::AppView, token: Seq<char>, path: Seq<char>)
    ensures
        ({
            let r = api::flv_watch(v, token, path);
            let k = api::key_in_path(path);
            &&& !lets_in(v, token) ==> r == (api::FlvWatchView::Refused {
                status: 401,
                reason: "Authentication Required: Registered users only"@,
            })
            &&& lets_in(v, token) && !v.streams.contains_key(k) ==> r == (
            api::FlvWatchView::Refused {
                status: 404,
                reason: "Stream offline or does not exist"@,
            })
            &&& lets_in(v, token) && v.streams.contains_key(k) ==> {
                &&& r is Opened
                &&& r->key == k
            }
        }),
{
}

/// The key in a path is the path without ".flv" at its end, however often that stands there.
pub proof fn law_key_in_a_path(path: Seq<char>)
    ensures
        api::key_in_path(path + ".flv"@) == api::key_in_path(path),
        path.len() < 4 || path.skip(path.len() - 4) != ".flv"@ ==> api::key_in_path(path) == path,
{
    reveal_strlit(".flv");
    assert(".flv"@ =~= seq!['.', 'f', 'l', 'v']);
    words::law_trailing_parts_go(path, ".flv"@);
}

/// What one who watches over HTTP is sent first: the file header, then the video header where there is
/// one, then the audio header where there is one, then every tag of the group of pictures in its order.
pub proof fn law_what_a_watcher_is_sent(
    v: state::AppView,
    token: Seq<char>,
    path: Seq<char>,
    video: Seq<u8>,
    audio: Seq<u8>,
)
    requires
        lets_in(v, token),
        v.streams.contains_key(api::key_in_path(path)),
    ensures
        ({
            let s = v.streams[api::key_in_path(path)];
            let opening = api::flv_watch(v, token, path)->opening;
            let h = flv::file_header();
            let g = s.gop.flatten();
            &&& s.video == Some(video) && s.audio == Some(audio) ==> opening == h + video + audio + g
            &&& s.video == Some(video) && s.audio is None ==> opening == h + video + g
            &&& s.video is None && s.audio == Some(audio) ==> opening == h + audio + g
            &&& s.video is None && s.audio is None ==> opening == h + g
        }),
{
    let s = v.streams[api::key_in_path(path)];
    let opening = api::flv_watch(v, token, path)->opening;
    let h = flv::file_header();
    let g = s.gop.flatten();
    announcing::law_what_a_joiner_is_sent(s, video, audio);
    lemma_flat_one(video);
    lemma_flat_one(audio);
    vstd::seq_lib::lemma_flatten_concat(seq![video, audio], s.gop);
    vstd::seq_lib::lemma_flatten_concat(seq![video], seq![audio]);
    assert(seq![video] + seq![audio] =~= seq![video, audio]);
    vstd::seq_lib::lemma_flatten_concat(seq![video], s.gop);
    vstd::seq_lib::lemma_flatten_concat(seq![audio], s.gop);
    if s.video == Some(video) && s.audio == Some(audio) {
        assert(opening =~= h + video + audio + g);
    }
    if s.video == Some(video) && s.audio is None {
        assert(opening =~= h + video + g);
    }
    if s.video is None && s.audio == Some(audio) {
        assert(opening =~= h + audio + g);
    }
}

proof fn lemma_flat_one(b: Seq<u8>)
    ensures
        seq![b].flatten() == b,
{
    seq![b].lemma_flatten_one_element();
}

/// One who watches over HTTP a stream that had a video header, then a keyframe, then any packets without
/// another of either, as long as the group is not full, is sent the file header, that header, the last
/// audio header where there was one, the keyframe, and then all that joined it: what a player needs,
/// and nothing of it is missing.
pub proof fn law_watcher_can_decode(
    v: state::AppView,
    token: Seq<char>,
    path: Seq<char>,
    s: state::StreamView,
    h: types::PacketView,
    k: types::PacketView,
    ps: Seq<types::PacketView>,
)
    requires
        lets_in(v, token),
        v.streams.contains_key(api::key_in_path(path)),
        v.streams[api::key_in_path(path)] == rtmp::after_packets(s, seq![h, k] + ps),
        state::stream_ok(s),
        streams::is_video_header(h),
        streams::starts_group(k),
        forall|i: int|
            0 <= i < ps.len() ==> !streams::starts_group(#[trigger] ps[i])
                && !streams::is_video_header(ps[i]),
        streams::members(ps).len() < 1200,
    ensures
        ({
            let opening = api::flv_watch(v, token, path)->opening;
            let rest = k.bytes() + streams::members(ps).flatten();
            &&& api::flv_watch(v, token, path) is Opened
            &&& streams::last_audio(s.audio, ps) matches Some(a) ==> opening == flv::file_header()
                + h.bytes() + a + rest
            &&& streams::last_audio(s.audio, ps) is None ==> opening == flv::file_header()
                + h.bytes() + rest
        }),
{
    let fh = flv::file_header();
    let m = streams::members(ps);
    let opening = api::flv_watch(v, token, path)->opening;
    let tags = state::opening_tags(rtmp::after_packets(s, seq![h, k] + ps));
    streams::law_joiner_can_decode(s, h, k, ps);
    let la = streams::last_audio(s.audio, ps);
    let head = seq![h.bytes()] + state::opt_seq(la) + seq![k.bytes()];
    vstd::seq_lib::lemma_flatten_concat(head, m);
    vstd::seq_lib::lemma_flatten_concat(seq![h.bytes()] + state::opt_seq(la), seq![k.bytes()]);
    vstd::seq_lib::lemma_flatten_concat(seq![h.bytes()], state::opt_seq(la));
    lemma_flat_one(h.bytes());
    lemma_flat_one(k.bytes());
    assert(tags == head + m);
    let rest = k.bytes() + m.flatten();
    match la {
        Some(a) => {
            lemma_flat_one(a);
            assert(state::opt_seq(la) =~= seq![a]);
            assert(tags.flatten() =~= h.bytes() + a + rest);
            assert(opening =~= fh + h.bytes() + a + rest);
        },
        None => {
            assert(state::opt_seq(la) =~= Seq::empty());
            assert(state::opt_seq(la).flatten() =~= Seq::<u8>::empty());
            assert(tags.flatten() =~= h.bytes() + rest);
            assert(opening =~= fh + h.bytes() + rest);
        },
    }
}

/// What is asked over WebSocket is answered like what is asked over HTTP, with the same tags one by one,
/// and without the file header.
pub proof fn law_what_a_socket_is_sent(v: state::AppView, token: Seq<char>, k: Seq<char>)
    ensures
        ({
            let r = api::socket_watch(v, token, k);
            &&& !lets_in(v, token) ==> r == api::SocketWatchView::Refused(
                "{\"error\": \"Authentication required. Please log in to watch this live stream.\"}"@,
            )
            &&& lets_in(v, token) && !v.streams.contains_key(k) ==> r
                == api::SocketWatchView::Offline("{\"error\": \"Stream offline\"}"@)
            &&& lets_in(v, token) && v.streams.contains_key(k) ==> {
                let s = v.streams[k];
                let first = match (s.video, s.audio) {
                    (Some(video), Some(audio)) => seq![video, audio],
                    (Some(video), None) => seq![video],
                    (None, Some(audio)) => seq![audio],
                    (None, None) => Seq::empty(),
                };
                &&& r is Opened
                &&& r->Opened_0 == first + s.gop
            }
        }),
{
    if lets_in(v, token) && v.streams.contains_key(k) {
        let s = v.streams[k];
        let first = match (s.video, s.audio) {
            (Some(video), Some(audio)) => seq![video, audio],
            (Some(video), None) => seq![video],
            (None, Some(audio)) => seq![audio],
            (None, None) => Seq::empty(),
        };
        assert(api::socket_watch(v, token, k)->Opened_0 =~= first + s.gop);
    }
}

/// Who may join a chat: one without a token that stands for a user is told to log in and changes nothing;
/// one with such a token is told who one is and sent the messages that are kept, and counts as one more
/// viewer, where the stream is known.
pub proof fn law_who_may_chat(v: state::AppView, token: Seq<char>, k: Seq<char>)
    ensures
        ({
            let r = api::chat_join(v, token, k);
            let w = api::after_join(v, token, k);
            &&& !lets_in(v, token) ==> {
                &&& r == api::ChatJoinView::Refused(
                    "{\"error\": \"Authentication required to chat.\"}"@,
                )
                &&& w == v
            }
            &&& lets_in(v, token) && !v.streams.contains_key(k) ==> r is Offline && w == v
            &&& lets_in(v, token) && v.streams.contains_key(k) ==> {
                &&& r is Joined
                &&& r->user == v.users[v.tokens[token]]
                &&& r->recent == v.streams[k].chat
                &&& v.streams[k].meta.viewer_count < usize::MAX ==> {
                    &&& announcing::same_but_stream(v, w, k)
                    &&& w.order == v.order
                    &&& w.streams.contains_key(k)
                    &&& announcing::same_kept(v.streams[k], w.streams[k])
                    &&& w.streams[k].meta == (types::MetaView {
                        viewer_count: (v.streams[k].meta.viewer_count + 1) as usize,
                        ..v.streams[k].meta
                    })
                }
            }
        }),
{
}

/// One who enters a chat is there under the name of the user of the token, in the chat of that stream,
/// with all kept messages still to be sent; any other is answered as one who may not join.
pub proof fn law_entering_a_chat(v: state::AppView, token: Seq<char>, k: Seq<char>)
    ensures
        ({
            let r = chat::entry(v, token, k);
            &&& !lets_in(v, token) ==> r == chat::EntryView::Refused(
                "{\"error\": \"Authentication required to chat.\"}"@,
            )
            &&& lets_in(v, token) && !v.streams.contains_key(k) ==> r is Offline
            &&& lets_in(v, token) && v.streams.contains_key(k) ==> {
                &&& r is Entered
                &&& r->Entered_0.key == k
                &&& r->Entered_0.username == v.users[v.tokens[token]].username
                &&& r->Entered_0.waiting == v.streams[k].chat
                &&& r->Entered_0.present
            }
        }),
{
}

/// A visitor who still counts and leaves is one viewer less of the stream, never below nought; one who no
/// longer counts, or whose stream is not known, changes nothing.
pub proof fn law_leaving_a_chat(v: state::AppView, visit: chat::VisitView)
    ensures
        ({
            let w = chat::after_leaving(v, visit);
            let k = visit.key;
            &&& !visit.present || !v.streams.contains_key(k) ==> w == v
            &&& visit.present && v.streams.contains_key(k) ==> {
                let n = v.streams[k].meta.viewer_count;
                &&& announcing::same_but_stream(v, w, k)
                &&& w.order == v.order
                &&& w.streams.contains_key(k)
                &&& announcing::same_kept(v.streams[k], w.streams[k])
                &&& n > 0 ==> w.streams[k].meta.viewer_count == n - 1
                &&& n == 0 ==> w.streams[k].meta.viewer_count == 0
                &&& w.streams[k].meta == (types::MetaView {
                    viewer_count: w.streams[k].meta.viewer_count,
                    ..v.streams[k].meta
                })
            }
        }),
{
}

/// A message comes last in the chat of its stream, where that is known, and the oldest goes where there
/// would be more than a hundred; nothing else changes.
pub proof fn law_saying_something(v: state::AppView, m: types::ChatView)
    ensures
        ({
            let w = chat::after_message(v, m);
            let k = m.stream_key;
            &&& !v.streams.contains_key(k) ==> w == v
            &&& v.streams.contains_key(k) ==> {
                let s = v.streams[k];
                let t = w.streams[k];
                &&& announcing::same_but_stream(v, w, k)
                &&& w.order == v.order
                &&& w.streams.contains_key(k)
                &&& t.meta == s.meta
                &&& t.video == s.video
                &&& t.audio == s.audio
                &&& t.gop == s.gop
                &&& s.chat.len() < 100 ==> t.chat == s.chat.push(m)
                &&& s.chat.len() >= 100 ==> t.chat == s.chat.skip(1).push(m)
            }
        }),
{
    if v.streams.contains_key(m.stream_key) {
        announcing::law_what_a_message_does(v.streams[m.stream_key], m);
    }
}

/// A message is passed on with its text, under the name, stream, number and moment that the server gives
/// it, marked as that of a registered user.
pub proof fn law_what_is_passed_on(
    m: types::ChatView,
    id: Seq<char>,
    k: Seq<char>,
    username: Seq<char>,
    now: Timestamp,
)
    ensures
        ({
            let t = api::attributed(m, id, k, username, now);
            &&& t.id == id
            &&& t.stream_key == k
            &&& t.sender == username
            &&& t.badge == Some("Registered User"@)
            &&& t.message == m.message
            &&& t.timestamp == now
        }),
{
}

/// A stream that has a key keeps it, and one without gets the first twelve characters of the identifier
/// that are no hyphens; nothing else of it changes.
pub proof fn law_which_key_a_stream_gets(m: types::MetaView, id: Seq<char>)
    ensures
        ({
            let n = api::with_key(m, id);
            &&& m.stream_key.len() > 0 ==> n.stream_key == m.stream_key
            &&& m.stream_key.len() == 0 ==> n.stream_key == text::without_char(id, '-').take(12)
            &&& n.title == m.title
            &&& n.broadcaster == m.broadcaster
            &&& n.category == m.category
            &&& n.description == m.description
            &&& n.is_live == m.is_live
            &&& n.source_type == m.source_type
            &&& n.started_at == m.started_at
            &&& n.viewer_count == m.viewer_count
            &&& n.bitrate_kbps == m.bitrate_kbps
            &&& n.fps == m.fps
            &&& n.resolution == m.resolution
        }),
{
}

/// The key that comes from an identifier in the usual groups is its first eight characters and the four
/// behind the first hyphen.
pub proof fn law_key_from_an_identifier(a: Seq<char>, b: Seq<char>, rest: Seq<char>)
    requires
        a.len() == 8,
        b.len() == 4,
        forall|i: int| 0 <= i < a.len() ==> #[trigger] a[i] != '-',
        forall|i: int| 0 <= i < b.len() ==> #[trigger] b[i] != '-',
    ensures
        api::key_from_id(a + "-"@ + b + rest) == a + b,
{
    reveal_strlit("-");
    assert("-"@ =~= seq!['-']);
    let id = a + seq!['-'] + b + rest;
    words::law_character_is_left_out(a + seq!['-'] + b, rest, '-', '-');
    words::law_character_is_left_out(a + seq!['-'], b, '-', '-');
    words::law_character_is_left_out(a, seq!['-'], '-', '-');
    lemma_nothing_left_out(a, '-');
    lemma_nothing_left_out(b, '-');
    assert(text::without_char(id, '-') =~= a + b + text::without_char(rest, '-'));
    assert(api::key_from_id(id) =~= a + b);
}

/// Where a character does not occur, leaving it out changes nothing.
proof fn lemma_nothing_left_out(s: Seq<char>, c: char)
    requires
        forall|i: int| 0 <= i < s.len() ==> #[trigger] s[i] != c,
    ensures
        text::without_char(s, c) == s,
    decreases s.len(),
{
    if s.len() > 0 {
        let t = s.drop_last();
        assert forall|i: int| 0 <= i < t.len() implies #[trigger] t[i] != c by {
            assert(s[i] != c);
        }
        lemma_nothing_left_out(t, c);
        assert(s =~= t + seq![s.last()]);
        words::law_character_is_left_out(t, seq![s.last()], c, s.last());
    } else {
        reveal(Seq::filter);
        assert(text::without_char(s, c) =~= s);
    }
}

/// Whether two characters are the same, or the capital and the small form of an ASCII letter.
pub open spec fn same_letter(a: char, b: char) -> bool {
    ||| a == b
    ||| 0x41 <= a as u32 <= 0x5a && b as u32 == a as u32 + 32
    ||| 0x41 <= b as u32 <= 0x5a && a as u32 == b as u32 + 32
}

/// Whether two texts are the same but for the case of ASCII letters.
pub open spec fn same_letters(a: Seq<char>, b: Seq<char>) -> bool {
    a.len() == b.len() && forall|i: int| 0 <= i < a.len() ==> same_letter(#[trigger] a[i], b[i])
}

/// Two texts are folded to the same exactly where they are the same but for the case of ASCII letters.
pub proof fn law_folding(a: Seq<char>, b: Seq<char>)
    ensures
        api::folded(a) == api::folded(b) <==> same_letters(a, b),
{
    assert forall|x: char, y: char| #[trigger] text::ascii_lower(x) == #[trigger] text::ascii_lower(
        y,
    ) <==> same_letter(x, y) by {
        words::law_ascii_case(x);
        words::law_ascii_case(y);
    }
    let fa = api::folded(a);
    let fb = api::folded(b);
    if fa == fb {
        assert(fa.len() == a.len() && fb.len() == b.len());
        assert forall|i: int| 0 <= i < a.len() implies same_letter(#[trigger] a[i], b[i]) by {
            assert(fa[i] == text::ascii_lower(a[i]));
            assert(fb[i] == text::ascii_lower(b[i]));
        }
    }
    if same_letters(a, b) {
        assert forall|i: int| 0 <= i < a.len() implies fa[i] == fb[i] by {
            assert(same_letter(a[i], b[i]));
            assert(fa[i] == text::ascii_lower(a[i]));
            assert(fb[i] == text::ascii_lower(b[i]));
        }
        assert(fa =~= fb);
    }
}

/// Which streams a filter lets through. One of the category that is asked for, whatever the case of its
/// letters; no category, an empty one and "all" ask for any. And one whose title, broadcaster or category
/// holds what is searched for, without the white space around it and in small letters; nothing searched
/// for, or a text that is then empty, finds any.
pub proof fn law_which_streams_are_listed(
    m: types::MetaView,
    search: Option<Seq<char>>,
    category: Option<Seq<char>>,
)
    ensures
        ({
            let chosen = match category {
                None => true,
                Some(c) => c.len() == 0 || same_letters(c, "all"@) || same_letters(m.category, c),
            };
            let hit = match search {
                None => true,
                Some(q) => {
                    let needle = text::lowercase(text::trimmed(q));
                    ||| needle.len() == 0
                    ||| text::contains_text(text::lowercase(m.title), needle)
                    ||| text::contains_text(text::lowercase(m.broadcaster), needle)
                    ||| text::contains_text(text::lowercase(m.category), needle)
                },
            };
            api::wanted(search, category)(m) <==> chosen && hit
        }),
{
    reveal_strlit("all");
    let all = seq!['a', 'l', 'l'];
    assert("all"@ =~= all);
    if let Some(c) = category {
        law_folding(c, all);
        law_folding(m.category, c);
        assert(api::folded(all) =~= all);
    }
}

/// A text is mentioned where it stands in one of three.
pub proof fn law_mentions(
    needle: Seq<char>,
    title: Seq<char>,
    broadcaster: Seq<char>,
    category: Seq<char>,
)
    ensures
        api::mentioned(needle, title, broadcaster, category) <==> (text::contains_text(
            title,
            needle,
        ) || text::contains_text(broadcaster, needle) || text::contains_text(category, needle)),
{
}

/// The viewers of some streams together are those of each, added up.
pub proof fn law_viewers_add_up(list: Seq<types::MetaView>, m: types::MetaView)
    ensures
        api::viewers(Seq::empty()) == 0,
        api::viewers(list.push(m)) == api::viewers(list) + m.viewer_count,
{
    assert(list.push(m).drop_last() =~= list);
}

/// What a viewer is passed: never nothing; anything else to one who has lost nothing; and to one who has,
/// only what a player can go on from: a tag with a header of video or audio, whose byte twelve is nought,
/// or one of an AVC keyframe. After such a one it has lost nothing any more; after a loss it has.
pub proof fn law_what_a_viewer_is_passed(waiting: bool, b: Seq<u8>)
    ensures
        ({
            let header = b.len() >= 13 && (b[0] == 9 || b[0] == 8) && b[12] == 0;
            let keyframe = b.len() >= 13 && b[0] == 9 && 0x10 <= b[11] <= 0x1f && b[12] == 1;
            &&& viewer::passes(false, b) <==> b.len() > 0
            &&& viewer::passes(true, b) <==> header || keyframe
            &&& viewer::waits_after(waiting, viewer::Arrival::Lost)
            &&& !viewer::waits_after(false, viewer::Arrival::Data(b))
            &&& viewer::waits_after(true, viewer::Arrival::Data(b)) <==> !header && !keyframe
        }),
{
}

/// The file that a path asks for is the path without the slashes at its start; where nothing is left, the
/// index.
pub proof fn law_which_file_is_sent(path: Seq<char>)
    ensures
        assets::file_for("/"@ + path) == assets::file_for(path),
        path.len() > 0 && path[0] != '/' ==> assets::file_for(path) == path,
        assets::file_for(Seq::empty()) == "index.html"@,
{
    reveal_strlit("/");
    reveal_strlit("index.html");
    assert("/"@ =~= seq!['/']);
    assert("index.html"@ =~= assets::index_file());
    words::law_leading_parts_go(path, seq!['/']);
    words::law_leading_parts_go(Seq::empty(), seq!['/']);
    if path.len() > 0 && path[0] != '/' {
        assert(path.take(1)[0] == path[0]);
    }
}

/// How a file is sent: not at all where the one who asks has it under the same entity tag; else in
/// Brotli where that is accepted and there; else in gzip where that is; else as it is.
pub proof fn law_how_a_file_is_sent(
    etag: Seq<char>,
    known: Option<Seq<char>>,
    accepted: Seq<char>,
    has_brotli: bool,
    has_gzip: bool,
)
    ensures
        ({
            let r = assets::reply_for(etag, known, accepted, has_brotli, has_gzip);
            let same = known == Some(etag);
            let br = has_brotli && text::contains_text(accepted, "br"@);
            let gz = has_gzip && text::contains_text(accepted, "gzip"@);
            &&& r == assets::AssetReply::NotModified <==> same
            &&& r == assets::AssetReply::Content(assets::Coding::Brotli) <==> !same && br
            &&& r == assets::AssetReply::Content(assets::Coding::Gzip) <==> !same && !br && gz
            &&& r == assets::AssetReply::Content(assets::Coding::Plain) <==> !same && !br && !gz
        }),
{
    reveal_strlit("br");
    reveal_strlit("gzip");
    assert("br"@ =~= seq!['b', 'r']);
    assert("gzip"@ =~= seq!['g', 'z', 'i', 'p']);
}

/// What stands on a page: the numbers of streams and viewers under their names and nothing else; on the
/// one that one starts with also its title and whether registering is disabled.
pub proof fn law_what_stands_on_a_page(count: nat, n: nat, disabled: bool, name: Seq<char>)
    ensures
        ({
            let stats = pages::stats_values(count, n);
            let index = pages::index_values(disabled, count, n);
            let is_stat = name == "active_stream_count"@ || name == "total_viewers"@;
            &&& stats["active_stream_count"@] == pages::PageValue::Number(count)
            &&& stats["total_viewers"@] == pages::PageValue::Number(n)
            &&& stats.contains_key(name) <==> is_stat
            &&& index["active_stream_count"@] == pages::PageValue::Number(count)
            &&& index["total_viewers"@] == pages::PageValue::Number(n)
            &&& index["title"@] == pages::PageValue::Text(
                "Castr \u{2014} RTMP Live Webcam Streaming Hub"@,
            )
            &&& index["disable_registration"@] == pages::PageValue::Flag(disabled)
            &&& index.contains_key(name) <==> is_stat || name == "title"@ || name
                == "disable_registration"@
        }),
{
    reveal_strlit("active_stream_count");
    reveal_strlit("total_viewers");
    reveal_strlit("title");
    reveal_strlit("disable_registration");
    assert("active_stream_count"@.len() == 19);
    assert("total_viewers"@.len() == 13);
    assert("title"@.len() == 5);
    assert("disable_registration"@.len() == 20);
}

/// Each page has its template; one that was rendered is sent with the status 200, and where rendering
/// failed the answer is the error with the status 500.
pub proof fn law_how_a_page_is_answered(r: pages::PageReply, rendered: Result<String, String>)
    ensures
        pages::template_name(pages::Page::Index) == "index.html"@,
        pages::template_name(pages::Page::StreamCards) == "partials/stream_cards.html"@,
        pages::template_name(pages::Page::StatsCards) == "partials/stats_cards.html"@,
        rendered matches Ok(page) ==> (pages::answers(r, rendered) <==> r.status == 200 && r.body@
            == page@),
        rendered matches Err(error) ==> (pages::answers(r, rendered) <==> r.status == 500
            && r.body@ == "Template error: "@ + error@),
{
}

} // verus!
