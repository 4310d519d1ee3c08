use bytes::Bytes;
use castr::api::{
    attribute, filter_streams, mentions, total_viewers, ChatJoin, FlvWatch, SocketWatch,
    StreamFilterQuery, WatchQuery,
};
use castr::assets::{asset_path, asset_reply, content_type, AssetReply, Coding};
use castr::auth::AuthRequest;
use castr::chat::{ChatEntry, ChatVisit};
use castr::flv;
use castr::outside::Timestamp;
use castr::state::AppState;
use castr::types::{
    ChatMessage, MediaPacket, RecordConfig, RecordOverflowAction, StreamMetadata,
};

fn at(secs: i64) -> Timestamp {
    Timestamp { secs, nanos: 0 }
}

fn meta(key: &str, title: &str, category: &str, viewers: usize) -> StreamMetadata {
    StreamMetadata {
        stream_key: key.to_string(),
        title: title.to_string(),
        broadcaster: "Broadcaster (RTMP)".to_string(),
        category: category.to_string(),
        description: String::new(),
        is_live: true,
        source_type: "RTMP".to_string(),
        started_at: None,
        viewer_count: viewers,
        bitrate_kbps: 0,
        fps: 0,
        resolution: String::new(),
    }
}

fn server() -> AppState {
    let config = RecordConfig {
        enabled: false,
        max_size_bytes: 100,
        overflow_action: RecordOverflowAction::Archive,
        max_archived_files: 0,
    };
    let mut s = AppState::new(false, config, None);
    let request = AuthRequest { username: "alice".to_string(), password: "abc".to_string() };
    s.register_with(&request, "t1".to_string(), at(7));
    s.create_or_update_stream_at(meta("k", "one", "Music", 0), at(9));
    let header = flv::make_tag(9, 0, &[0x17, 0, 5]);
    s.publish_media("k", MediaPacket::SequenceHeader(Bytes::from(header)));
    s
}

fn query(token: &str) -> WatchQuery {
    WatchQuery { token: Some(token.to_string()) }
}

fn chat(text: &str) -> ChatMessage {
    ChatMessage {
        id: "forged".to_string(),
        stream_key: "elsewhere".to_string(),
        sender: "admin".to_string(),
        badge: Some("Moderator".to_string()),
        message: text.to_string(),
        timestamp: at(1),
    }
}

fn refused(answer: FlvWatch) -> (u16, String) {
    match answer {
        FlvWatch::Refused { status, reason } => (status, reason),
        FlvWatch::Opened { .. } => panic!("opened"),
    }
}

#[test]
fn watching_over_http_needs_a_token() {
    let s = server();
    let text = "Authentication Required: Registered users only".to_string();
    assert_eq!(refused(s.watch_flv(&WatchQuery { token: None }, "k.flv")), (401, text.clone()));
    assert_eq!(refused(s.watch_flv(&query(""), "k.flv")), (401, text.clone()));
    assert_eq!(refused(s.watch_flv(&query("t2"), "nobody")), (401, text));
    assert_eq!(
        refused(s.watch_flv(&query("t1"), "nobody.flv")),
        (404, "Stream offline or does not exist".to_string())
    );
}

#[test]
fn watching_over_http_starts_with_header_and_opening_tags() {
    let s = server();
    for path in ["k", "k.flv", "k.flv.flv"] {
        match s.watch_flv(&query("t1"), path) {
            FlvWatch::Opened { key, opening } => {
                assert_eq!(key, "k");
                assert_eq!(&opening[..13], &flv::file_header_bytes()[..]);
                assert_eq!(&opening[13..], &flv::make_tag(9, 0, &[0x17, 0, 5])[..]);
            }
            FlvWatch::Refused { .. } => panic!("refused"),
        }
    }
}

#[test]
fn watching_over_a_socket_needs_a_token() {
    let s = server();
    match s.watch_socket(&WatchQuery { token: None }, "k") {
        SocketWatch::Refused(text) => assert_eq!(
            text,
            "{\"error\": \"Authentication required. Please log in to watch this live stream.\"}"
        ),
        _ => panic!("let in"),
    }
    match s.watch_socket(&query("t1"), "k.flv") {
        SocketWatch::Offline(text) => assert_eq!(text, "{\"error\": \"Stream offline\"}"),
        _ => panic!("not offline"),
    }
    match s.watch_socket(&query("t1"), "k") {
        SocketWatch::Opened(tags) => {
            assert_eq!(tags, vec![Bytes::from(flv::make_tag(9, 0, &[0x17, 0, 5]))])
        }
        _ => panic!("not opened"),
    }
}

#[test]
fn joining_a_chat_needs_a_token_and_counts_a_viewer() {
    let mut s = server();
    match s.join_chat(&query("t2"), "k") {
        ChatJoin::Refused(text) => {
            assert_eq!(text, "{\"error\": \"Authentication required to chat.\"}")
        }
        _ => panic!("let in"),
    }
    assert_eq!(s.get_stream_list()[0].viewer_count, 0);
    assert!(matches!(s.join_chat(&query("t1"), "nobody"), ChatJoin::Offline));
    s.publish_chat(attribute(chat("hello"), "i".to_string(), "k", "bob", at(2)));
    match s.join_chat(&query("t1"), "k") {
        ChatJoin::Joined { user, recent } => {
            assert_eq!(user.username, "alice");
            assert_eq!(recent.len(), 1);
            assert_eq!(recent[0].message, "hello");
        }
        _ => panic!("not joined"),
    }
    assert_eq!(s.get_stream_list()[0].viewer_count, 1);
    s.unsubscribe_viewer("k");
    assert_eq!(s.get_stream_list()[0].viewer_count, 0);
}

#[test]
fn sender_of_a_message_is_the_servers_word() {
    let m = attribute(chat("hi"), "id1".to_string(), "k", "alice", at(50));
    assert_eq!(m.id, "id1");
    assert_eq!(m.stream_key, "k");
    assert_eq!(m.sender, "alice");
    assert_eq!(m.badge.as_deref(), Some("Registered User"));
    assert_eq!(m.message, "hi");
    assert_eq!(m.timestamp, at(50));
}

fn visit(s: &mut AppState) -> ChatVisit {
    match ChatVisit::enter(s, &query("t1"), "k") {
        ChatEntry::Entered(visit) => visit,
        _ => panic!("not entered"),
    }
}

#[test]
fn visitor_is_sent_the_earlier_messages() {
    let mut s = server();
    for text in ["one", "two"] {
        s.publish_chat(attribute(chat(text), "i".to_string(), "k", "bob", at(2)));
    }
    let mut v = visit(&mut s);
    assert_eq!(v.username(), "alice");
    assert_eq!(v.next_waiting().unwrap().message, "one");
    assert_eq!(v.next_waiting().unwrap().message, "two");
    assert!(v.next_waiting().is_none());
}

#[test]
fn visit_counts_once() {
    let mut s = server();
    let mut a = visit(&mut s);
    let mut b = visit(&mut s);
    assert_eq!(s.get_stream_list()[0].viewer_count, 2);
    a.leave(&mut s);
    a.leave(&mut s);
    assert_eq!(s.get_stream_list()[0].viewer_count, 1);
    b.leave(&mut s);
    assert_eq!(s.get_stream_list()[0].viewer_count, 0);
}

#[test]
fn entering_a_chat_is_refused_without_a_token() {
    let mut s = server();
    match ChatVisit::enter(&mut s, &WatchQuery { token: None }, "k") {
        ChatEntry::Refused(text) => {
            assert_eq!(text, "{\"error\": \"Authentication required to chat.\"}")
        }
        _ => panic!("entered"),
    }
    assert!(matches!(ChatVisit::enter(&mut s, &query("t1"), "nobody"), ChatEntry::Offline));
    assert_eq!(s.get_stream_list()[0].viewer_count, 0);
}

#[test]
fn message_of_a_visitor_is_kept_and_handed_on() {
    let mut s = server();
    let v = visit(&mut s);
    let m = v.say_with(&mut s, chat("hi"), "n1".to_string(), at(60)).unwrap();
    assert_eq!((m.id.as_str(), m.sender.as_str(), m.stream_key.as_str()), ("n1", "alice", "k"));
    assert_eq!((m.message.as_str(), m.timestamp), ("hi", at(60)));
    let m = v.say(&mut s, chat("again")).unwrap();
    assert_eq!(m.sender, "alice");
    assert_eq!(m.badge.as_deref(), Some("Registered User"));
    assert_eq!(m.id.len(), 36);
    assert!(m.timestamp.secs > 1_700_000_000);
    let kept = s.subscribe_chat("k").unwrap();
    assert_eq!(kept.len(), 2);
    assert_eq!(kept[1].id, m.id);
}

#[test]
fn stream_without_a_key_gets_one() {
    let mut s = server();
    let id = "0123abcd-4567-4890-a123-456789abcdef";
    let m = s.register_stream_with(meta("", "new", "Art", 0), id, at(3));
    assert_eq!(m.stream_key, "0123abcd4567");
    assert_eq!(m.started_at, Some(at(3)));
    let m = s.register_stream_with(meta("mine", "new", "Art", 0), "", at(3));
    assert_eq!(m.stream_key, "mine");
    let m = s.register_stream(meta("", "other", "Art", 0));
    assert_eq!(m.stream_key.len(), 12);
    assert!(m.stream_key.chars().all(|c| c.is_ascii_digit() || ('a'..='f').contains(&c)));
    assert_eq!(s.get_stream_list().len(), 4);
}

fn titles(list: &Vec<StreamMetadata>, search: Option<&str>, category: Option<&str>) -> Vec<String> {
    let filter = StreamFilterQuery {
        search: search.map(|t| t.to_string()),
        category: category.map(|t| t.to_string()),
    };
    filter_streams(list, &filter).iter().map(|m| m.title.clone()).collect()
}

#[test]
fn streams_are_filtered() {
    let list = vec![
        meta("a", "Morning Jazz", "Music", 1),
        meta("b", "Oil painting", "Art", 2),
        meta("c", "JAZZ history", "Talk", 3),
    ];
    let all = vec!["Morning Jazz", "Oil painting", "JAZZ history"];
    assert_eq!(titles(&list, None, None), all);
    assert_eq!(titles(&list, Some(""), Some("")), all);
    assert_eq!(titles(&list, Some("  "), Some("ALL")), all);
    assert_eq!(titles(&list, Some("rtmp"), None), all);
    assert_eq!(titles(&list, None, Some("mUSIC")), vec!["Morning Jazz"]);
    assert_eq!(titles(&list, Some(" jAzz "), None), vec!["Morning Jazz", "JAZZ history"]);
    assert_eq!(titles(&list, Some("art"), None), vec!["Oil painting"]);
    assert_eq!(titles(&list, Some("jazz"), Some("Talk")), vec!["JAZZ history"]);
    assert_eq!(titles(&list, Some("chess"), None), Vec::<String>::new());
    assert_eq!(titles(&list, None, Some("Mus")), Vec::<String>::new());
}

#[test]
fn search_folds_letters_beyond_ascii() {
    let list = vec![meta("a", "\u{c4}pfel", "Food", 0)];
    assert_eq!(titles(&list, Some("\u{e4}PFEL"), None), vec!["\u{c4}pfel"]);
    assert_eq!(titles(&list, None, Some("FOOD")), vec!["\u{c4}pfel"]);
    assert!(mentions("b", "abc", "", ""));
    assert!(!mentions("b", "a", "c", "B"));
}

#[test]
fn viewers_are_added_up() {
    assert_eq!(total_viewers(&vec![]), Some(0));
    assert_eq!(total_viewers(&vec![meta("a", "", "", 2), meta("b", "", "", 40)]), Some(42));
    assert_eq!(total_viewers(&vec![meta("a", "", "", usize::MAX), meta("b", "", "", 0)]), Some(usize::MAX));
    assert_eq!(total_viewers(&vec![meta("a", "", "", usize::MAX), meta("b", "", "", 1)]), None);
}

#[test]
fn path_names_a_file() {
    assert_eq!(asset_path("/"), "index.html");
    assert_eq!(asset_path(""), "index.html");
    assert_eq!(asset_path("/css/app.css"), "css/app.css");
    assert_eq!(asset_path("//a/"), "a/");
}

#[test]
fn file_is_sent_once_and_in_the_best_coding() {
    let plain = AssetReply::Content(Coding::Plain);
    assert_eq!(asset_reply("\"e\"", Some("\"e\""), None, true, true), AssetReply::NotModified);
    assert_eq!(asset_reply("\"e\"", Some("\"f\""), None, true, true), plain);
    assert_eq!(asset_reply("e", None, Some("gzip, br"), true, true), AssetReply::Content(Coding::Brotli));
    assert_eq!(asset_reply("e", None, Some("gzip, br"), false, true), AssetReply::Content(Coding::Gzip));
    assert_eq!(asset_reply("e", None, Some("gzip"), true, true), AssetReply::Content(Coding::Gzip));
    assert_eq!(asset_reply("e", None, Some("gzip"), true, false), plain);
    assert_eq!(asset_reply("e", None, Some("identity"), true, true), plain);
    assert_eq!(content_type(Some("text/css")), "text/css");
    assert_eq!(content_type(None), "application/octet-stream");
}
