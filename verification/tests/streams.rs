use bytes::Bytes;
use castr::flv;
use castr::outside::Timestamp;
use castr::state::{AppState, CHAT_LIMIT, GOP_CACHE_LIMIT};
use castr::types::{
    ChatMessage, MediaPacket, RecordConfig, RecordOverflowAction, StreamMetadata,
};

fn server() -> AppState {
    let config = RecordConfig {
        enabled: false,
        max_size_bytes: 100,
        overflow_action: RecordOverflowAction::Archive,
        max_archived_files: 0,
    };
    AppState::new(false, config, None)
}

fn at(secs: i64) -> Timestamp {
    Timestamp { secs, nanos: 5 }
}

fn meta(key: &str, title: &str, live: bool) -> StreamMetadata {
    StreamMetadata {
        stream_key: key.to_string(),
        title: title.to_string(),
        broadcaster: "me".to_string(),
        category: "Music".to_string(),
        description: "d".to_string(),
        is_live: live,
        source_type: "RTMP".to_string(),
        started_at: None,
        viewer_count: 3,
        bitrate_kbps: 10,
        fps: 20,
        resolution: "1x1".to_string(),
    }
}

fn chat(key: &str, text: &str) -> ChatMessage {
    ChatMessage {
        id: "i".to_string(),
        stream_key: key.to_string(),
        sender: "s".to_string(),
        badge: None,
        message: text.to_string(),
        timestamp: at(1),
    }
}

fn raw(kind: u8, first: u8, second: u8, mark: u8) -> MediaPacket {
    MediaPacket::RawChunk {
        data: Bytes::from(flv::make_tag(kind, 0, &[first, second, mark])),
        content_type: "video/x-flv".to_string(),
    }
}

fn marks(s: &AppState, key: &str) -> Vec<u8> {
    s.subscribe_media(key).unwrap().iter().map(|t| t[13]).collect()
}

#[test]
fn new_stream_is_announced() {
    let mut s = server();
    let m = s.create_or_update_stream_at(meta("k", "one", true), at(100));
    assert_eq!(m.started_at, Some(at(100)));
    assert_eq!(m.viewer_count, 3);
    assert_eq!(m.title, "one");
    let list = s.get_stream_list();
    assert_eq!(list.len(), 1);
    assert_eq!(list[0].stream_key, "k");
    assert_eq!(list[0].started_at, Some(at(100)));
    assert_eq!(list[0].resolution, "1x1");
}

#[test]
fn stream_that_is_not_live_has_no_start() {
    let mut s = server();
    let m = s.create_or_update_stream_at(meta("k", "one", false), at(100));
    assert_eq!(m.started_at, None);
    let m = s.create_or_update_stream_at(meta("k", "one", true), at(200));
    assert_eq!(m.started_at, Some(at(200)));
    let m = s.create_or_update_stream_at(meta("k", "one", true), at(300));
    assert_eq!(m.started_at, Some(at(200)));
    let mut given = meta("q", "two", true);
    given.started_at = Some(at(1));
    assert_eq!(s.create_or_update_stream_at(given, at(400)).started_at, Some(at(1)));
}

#[test]
fn stream_that_is_announced_again_keeps_what_it_has() {
    let mut s = server();
    s.create_or_update_stream_at(meta("k", "one", true), at(100));
    s.update_stats("k", 900, 30, "1280x720");
    s.publish_chat(chat("k", "hello"));
    s.publish_media("k", raw(9, 0x17, 0, 1));
    let mut m = meta("k", "two", false);
    m.viewer_count = 77;
    m.category = "Art".to_string();
    let r = s.create_or_update_stream_at(m, at(200));
    assert_eq!(r.title, "two");
    assert_eq!(r.category, "Art");
    assert!(!r.is_live);
    assert_eq!(r.viewer_count, 3);
    assert_eq!(r.bitrate_kbps, 900);
    assert_eq!(r.fps, 30);
    assert_eq!(r.resolution, "1280x720");
    assert_eq!(r.started_at, Some(at(100)));
    assert_eq!(marks(&s, "k"), vec![1]);
    assert_eq!(s.subscribe_chat("k").unwrap().len(), 1);
    assert_eq!(s.get_stream_list().len(), 1);
}

#[test]
fn announcing_now_takes_the_clock() {
    let mut s = server();
    let m = s.create_or_update_stream(meta("k", "one", true));
    assert!(m.started_at.unwrap().secs > 1_700_000_000);
}

#[test]
fn stream_ends() {
    let mut s = server();
    s.create_or_update_stream_at(meta("k", "one", true), at(100));
    s.create_or_update_stream_at(meta("q", "two", true), at(100));
    s.end_stream("k");
    s.end_stream("k");
    s.end_stream("nobody");
    let list = s.get_stream_list();
    assert!(!list[0].is_live);
    assert_eq!((list[0].bitrate_kbps, list[0].fps), (0, 0));
    assert_eq!(list[0].started_at, Some(at(100)));
    assert!(list[1].is_live);
    assert_eq!((list[1].bitrate_kbps, list[1].fps), (10, 20));
}

#[test]
fn empty_resolution_leaves_the_known_one() {
    let mut s = server();
    s.create_or_update_stream_at(meta("k", "one", true), at(100));
    s.update_stats("k", 1, 2, "");
    s.update_stats("nobody", 8, 8, "8x8");
    let m = &s.get_stream_list()[0];
    assert_eq!((m.bitrate_kbps, m.fps, m.resolution.as_str()), (1, 2, "1x1"));
}

#[test]
fn headers_and_group_of_pictures_are_kept_for_joiners() {
    let mut s = server();
    s.create_or_update_stream_at(meta("k", "one", true), at(100));
    assert_eq!(marks(&s, "k"), Vec::<u8>::new());
    s.publish_media("k", raw(9, 0x27, 1, 10));
    assert_eq!(marks(&s, "k"), Vec::<u8>::new());
    s.publish_media("k", raw(8, 0xaf, 0, 11));
    s.publish_media("k", raw(9, 0x17, 0, 12));
    s.publish_media("k", raw(9, 0x17, 1, 13));
    s.publish_media("k", raw(8, 0xaf, 1, 14));
    s.publish_media("k", raw(9, 0x27, 1, 15));
    assert_eq!(marks(&s, "k"), vec![12, 11, 13, 14, 15]);
    s.publish_media("k", raw(9, 0x17, 1, 16));
    s.publish_media("k", raw(9, 0x17, 0, 17));
    assert_eq!(marks(&s, "k"), vec![17, 11, 16]);
    assert!(s.subscribe_media("nobody").is_none());
}

#[test]
fn headers_within_a_group_do_not_join_it() {
    let mut s = server();
    s.create_or_update_stream_at(meta("k", "one", true), at(100));
    s.publish_media("k", raw(9, 0x17, 0, 1));
    s.publish_media("k", raw(9, 0x17, 1, 2));
    s.publish_media("k", raw(8, 0xaf, 0, 3));
    s.publish_media("k", raw(8, 0x2f, 0, 4));
    s.publish_media("k", raw(9, 0x22, 0, 5));
    s.publish_media("k", raw(9, 0x57, 0, 6));
    s.publish_media("k", raw(9, 0x27, 2, 7));
    assert_eq!(marks(&s, "k"), vec![6, 3, 2, 4, 5, 7]);
}

#[test]
fn only_some_packets_are_kept() {
    let mut s = server();
    s.create_or_update_stream_at(meta("k", "one", true), at(100));
    let header = Bytes::from(vec![9u8, 0, 0, 0, 0, 0, 0, 0, 0, 0, 0, 0, 0, 41]);
    let sound = Bytes::from(vec![8u8, 0, 0, 0, 0, 0, 0, 0, 0, 0, 0, 0, 0, 42]);
    s.publish_media("k", MediaPacket::SequenceHeader(header));
    s.publish_media("k", MediaPacket::SequenceHeader(sound));
    s.publish_media("k", MediaPacket::SequenceHeader(Bytes::from(vec![7u8; 20])));
    s.publish_media("k", MediaPacket::SequenceHeader(Bytes::from(vec![])));
    assert_eq!(marks(&s, "k"), vec![41, 42]);
    let key = Bytes::from(flv::make_tag(9, 0, &[0x17, 1, 43]));
    let video = MediaPacket::Video { data: key.clone(), timestamp_ms: 0, is_keyframe: true };
    s.publish_media("k", video);
    s.publish_media("k", MediaPacket::Audio { data: key, timestamp_ms: 0 });
    assert_eq!(marks(&s, "k"), vec![41, 42, 43]);
    let short = MediaPacket::RawChunk {
        data: Bytes::from(vec![9u8; 12]),
        content_type: "x".to_string(),
    };
    s.publish_media("k", short);
    s.publish_media("k", raw(7, 0x17, 1, 44));
    assert_eq!(marks(&s, "k"), vec![41, 42, 43]);
}

#[test]
fn packet_is_handed_back_where_there_is_a_stream() {
    let mut s = server();
    assert!(s.publish_media("k", raw(9, 0x17, 1, 1)).is_none());
    s.create_or_update_stream_at(meta("k", "one", true), at(100));
    let sent = s.publish_media("k", raw(9, 0x17, 1, 1)).unwrap();
    assert_eq!(sent.into_bytes(), Bytes::from(flv::make_tag(9, 0, &[0x17, 1, 1])));
    assert!(s.publish_media("q", raw(9, 0x17, 1, 1)).is_none());
}

#[test]
fn group_of_pictures_is_bounded() {
    let mut s = server();
    s.create_or_update_stream_at(meta("k", "one", true), at(100));
    s.publish_media("k", raw(9, 0x17, 1, 200));
    for i in 1..GOP_CACHE_LIMIT {
        s.publish_media("k", raw(9, 0x27, 1, (i % 100) as u8));
    }
    let kept = marks(&s, "k");
    assert_eq!(kept.len(), GOP_CACHE_LIMIT);
    assert_eq!(kept[0], 200);
    s.publish_media("k", raw(8, 0xaf, 1, 201));
    let kept = marks(&s, "k");
    assert_eq!(kept.len(), GOP_CACHE_LIMIT);
    assert_eq!(kept[0], 1);
    assert_eq!(kept[GOP_CACHE_LIMIT - 1], 201);
}

#[test]
fn chat_keeps_the_latest_messages() {
    let mut s = server();
    assert!(s.publish_chat(chat("k", "lost")).is_none());
    s.create_or_update_stream_at(meta("k", "one", true), at(100));
    for i in 0..CHAT_LIMIT + 5 {
        let sent = s.publish_chat(chat("k", &format!("{}", i))).unwrap();
        assert_eq!(sent.message, format!("{}", i));
    }
    let list = s.subscribe_chat("k").unwrap();
    assert_eq!(list.len(), CHAT_LIMIT);
    assert_eq!(list[0].message, "5");
    assert_eq!(list[CHAT_LIMIT - 1].message, "104");
}

#[test]
fn viewers_are_counted() {
    let mut s = server();
    let mut m = meta("k", "one", true);
    m.viewer_count = 0;
    s.create_or_update_stream_at(m, at(100));
    assert!(s.has_room_for_viewer("k"));
    assert!(s.subscribe_chat("k").is_some());
    assert!(s.subscribe_chat("k").is_some());
    assert!(s.subscribe_chat("nobody").is_none());
    assert_eq!(s.get_stream_list()[0].viewer_count, 2);
    s.unsubscribe_viewer("k");
    assert_eq!(s.get_stream_list()[0].viewer_count, 1);
    s.unsubscribe_viewer("k");
    s.unsubscribe_viewer("k");
    s.unsubscribe_viewer("nobody");
    assert_eq!(s.get_stream_list()[0].viewer_count, 0);
}

#[test]
fn viewers_without_end_have_no_room() {
    let mut s = server();
    let mut m = meta("k", "one", true);
    m.viewer_count = usize::MAX;
    s.create_or_update_stream_at(m, at(100));
    assert!(!s.has_room_for_viewer("k"));
    assert!(s.has_room_for_viewer("nobody"));
}
