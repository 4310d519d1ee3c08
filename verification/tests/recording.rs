use bytes::Bytes;
use castr::flv;
use castr::recording::{
    file_stamp, part_recording_path, plain_recording_path, ArchivedFile, Cleanup, RecordStep, Recorder,
};
use castr::outside::Timestamp;
use castr::types::{MediaPacket, RecordConfig, RecordOverflowAction};

fn config(max: u64, action: RecordOverflowAction, archived: usize) -> RecordConfig {
    RecordConfig {
        enabled: true,
        max_size_bytes: max,
        overflow_action: action,
        max_archived_files: archived,
    }
}

fn tag(kind: u8, first: u8, second: u8) -> Vec<u8> {
    flv::make_tag(kind, 0, &[first, second])
}

fn chunk(data: Vec<u8>) -> MediaPacket {
    MediaPacket::RawChunk { data: Bytes::from(data), content_type: "video/x-flv".to_string() }
}

#[test]
fn paths_of_recordings() {
    assert_eq!(plain_recording_path("k", "20240102_030405"), "recordings/k_20240102_030405.flv");
    assert_eq!(
        part_recording_path("k", "20240102_030405", 12),
        "recordings/k_20240102_030405_part12.flv"
    );
}

#[test]
fn recording_starts_with_header_and_opening_tags() {
    let tags = vec![Bytes::from(tag(9, 0x17, 0)), Bytes::from(tag(8, 0xaf, 0))];
    let c = config(1000, RecordOverflowAction::Archive, 0);
    let (r, opening) = Recorder::start_at("k".to_string(), c, "S", &tags);
    assert_eq!(r.path(), "recordings/k_S.flv");
    assert_eq!(r.part(), 1);
    assert_eq!(r.size(), 13 + 17 + 17);
    assert_eq!(r.config(), c);
    assert_eq!(&opening[..13], &flv::file_header_bytes()[..]);
    assert_eq!(&opening[13..30], &tag(9, 0x17, 0)[..]);
    assert_eq!(&opening[30..], &tag(8, 0xaf, 0)[..]);
}

#[test]
fn recording_that_starts_now_has_a_stamp() {
    let c = config(1000, RecordOverflowAction::Archive, 0);
    let (mut r, _) = Recorder::start("key".to_string(), c, &vec![]);
    let name = r.path().to_string();
    assert!(name.starts_with("recordings/key_20"));
    assert!(name.ends_with(".flv"));
    let stamp = &name[15..name.len() - 4];
    assert_eq!(stamp.len(), 15);
    assert_eq!(&stamp[8..9], "_");
    assert!(stamp.chars().all(|c| c.is_ascii_digit() || c == '_'));
    r.rotate(&Bytes::from(tag(9, 0x17, 1)));
    assert!(r.path().ends_with("_part2.flv"));
}

#[test]
fn packets_go_at_the_end_of_the_file() {
    let c = config(1000, RecordOverflowAction::Archive, 0);
    let (mut r, _) = Recorder::start_at("k".to_string(), c, "S", &vec![]);
    let data = tag(9, 0x27, 1);
    assert!(r.can_take(&chunk(data.clone())));
    match r.on_packet(chunk(data.clone())) {
        RecordStep::Append(b) => assert_eq!(&b[..], &data[..]),
        _ => panic!("not appended"),
    }
    assert_eq!(r.size(), 13 + 17);
    assert!(matches!(r.on_packet(chunk(vec![])), RecordStep::Skip));
    assert_eq!(r.size(), 13 + 17);
    let audio = MediaPacket::Audio { data: Bytes::from(tag(8, 0xaf, 1)), timestamp_ms: 0 };
    assert!(matches!(r.on_packet(audio), RecordStep::Append(_)));
    assert_eq!(r.size(), 13 + 17 + 17);
}

#[test]
fn full_file_ends_at_the_next_keyframe() {
    let c = config(30, RecordOverflowAction::Archive, 0);
    let tags = vec![Bytes::from(tag(9, 0x17, 0)), Bytes::from(tag(8, 0xaf, 0))];
    let (mut r, _) = Recorder::start_at("k".to_string(), c, "S", &tags);
    assert!(matches!(r.on_packet(chunk(tag(9, 0x27, 1))), RecordStep::Append(_)));
    assert_eq!(r.size(), 64);
    let key = tag(9, 0x17, 1);
    match r.on_packet(chunk(key.clone())) {
        RecordStep::Rotate(b) => {
            assert_eq!(&b[..], &key[..]);
            assert_eq!(r.size(), 64);
            assert!(r.can_start_next_file());
            let opening = r.rotate_at("T", &b);
            assert_eq!(opening.len(), 13 + 17 + 17 + 17);
            assert_eq!(&opening[13..30], &tag(9, 0x17, 0)[..]);
            assert_eq!(&opening[30..47], &tag(8, 0xaf, 0)[..]);
            assert_eq!(&opening[47..], &key[..]);
        }
        _ => panic!("not rotated"),
    }
    assert_eq!(r.path(), "recordings/k_T_part2.flv");
    assert_eq!(r.part(), 2);
    assert_eq!(r.size(), 64);
}

#[test]
fn new_file_starts_with_the_latest_headers() {
    let c = config(0, RecordOverflowAction::Delete, 0);
    let (mut r, _) = Recorder::start_at("k".to_string(), c, "S", &vec![]);
    let video = tag(9, 0x27, 0);
    let audio = tag(8, 0x2f, 0);
    r.on_packet(MediaPacket::SequenceHeader(Bytes::from(video.clone())));
    r.on_packet(MediaPacket::SequenceHeader(Bytes::from(audio.clone())));
    r.on_packet(MediaPacket::SequenceHeader(Bytes::from(vec![1u8, 2])));
    let opening = r.rotate_at("T", &Bytes::from(vec![9u8]));
    let mut expected = flv::file_header_bytes();
    expected.extend_from_slice(&video);
    expected.extend_from_slice(&audio);
    expected.push(9);
    assert_eq!(opening, expected);
    assert_eq!(r.path(), "recordings/k_T.flv");
    assert_eq!(r.part(), 1);
}

#[test]
fn first_tags_of_each_type_are_the_headers() {
    let c = config(0, RecordOverflowAction::Delete, 0);
    let tags = vec![
        Bytes::from(vec![]),
        Bytes::from(vec![8u8, 1]),
        Bytes::from(vec![9u8, 2]),
        Bytes::from(vec![9u8, 3]),
    ];
    let (mut r, _) = Recorder::start_at("k".to_string(), c, "S", &tags);
    let opening = r.rotate_at("T", &Bytes::from(vec![7u8]));
    assert_eq!(&opening[13..], &[9, 2, 8, 1, 7]);
}

#[test]
fn older_files_are_cleaned_up_as_configured() {
    let start = |c| Recorder::start_at("k".to_string(), c, "S", &vec![]).0;
    let delete = start(config(1, RecordOverflowAction::Delete, 5));
    let keep = start(config(1, RecordOverflowAction::Archive, 0));
    let prune = start(config(1, RecordOverflowAction::Archive, 5));
    assert_eq!(delete.cleanup(), Cleanup::RemoveCurrent);
    assert_eq!(keep.cleanup(), Cleanup::KeepAll);
    assert_eq!(prune.cleanup(), Cleanup::PruneOldest);
}

fn file(name: &str, modified: i128) -> ArchivedFile {
    ArchivedFile { name: name.to_string(), modified }
}

fn plan(limit: usize, files: &Vec<ArchivedFile>) -> Vec<usize> {
    let c = config(1, RecordOverflowAction::Archive, limit);
    Recorder::start_at("k".to_string(), c, "S", &vec![]).0.prune_plan(files)
}

#[test]
fn oldest_recordings_go_first() {
    let files = vec![
        file("k_20260103_000000.flv", 30),
        file("k_20260101_000000.flv", 10),
        file("q_20260101_000000.flv", 1),
        file("k_20260102_000000_part2.flv", 20),
        file("k_20260101_000000.txt", 2),
        file("kk_20260101_000000.flv", 3),
    ];
    assert_eq!(plan(3, &files), vec![1]);
    assert_eq!(plan(2, &files), vec![1, 3]);
    assert_eq!(plan(1, &files), vec![1, 3, 0]);
    assert_eq!(plan(4, &files), Vec::<usize>::new());
    assert_eq!(plan(0, &files), Vec::<usize>::new());
    assert_eq!(plan(1, &vec![]), Vec::<usize>::new());
}

#[test]
fn files_of_the_same_age_go_in_their_order() {
    let files = vec![
        file("k_20260101_000001.flv", 5),
        file("k_20260101_000002.flv", 5),
        file("k_20260101_000003.flv", -1),
    ];
    assert_eq!(plan(1, &files), vec![2, 0, 1]);
}

fn counts(key: &str, name: &str) -> bool {
    let c = config(1, RecordOverflowAction::Archive, 1);
    let r = Recorder::start_at(key.to_string(), c, "S", &vec![]).0;
    !r.prune_plan(&vec![file(name, 1)]).is_empty()
}

#[test]
fn recordings_of_other_streams_are_spared() {
    assert!(!counts("cam", "cam_2_20260101_000000.flv"));
    assert!(counts("cam_2", "cam_2_20260101_000000.flv"));
    assert!(counts("cam", "cam_20260101_000000.flv"));
    assert!(!counts("cam", "cam_20260101_000000_20260101_000000.flv"));
    assert!(counts("cam_20260101_000000", "cam_20260101_000000_20260101_000000.flv"));
    assert!(!counts("cam", "cam_20260101_000000_part2_20260101_000000.flv"));
    assert!(counts("", "_20260101_000000.flv"));
}

#[test]
fn names_of_recordings() {
    for name in [
        "k_20260101_000000.flv",
        "k_20260101_000000_part2.flv",
        "k_20260101_000000_part123456.flv",
    ] {
        assert!(counts("k", name), "{}", name);
        assert!(!counts("", name), "{}", name);
    }
    for name in [
        "k_a.flv",
        "k.flv",
        "k_20260101_000000",
        "k_20260101_000000.mp4",
        "k_2026010_0000000.flv",
        "k_20260101-000000.flv",
        "k_20260101_00000x.flv",
        "k_20260101_000000_part.flv",
        "k_20260101_000000_part2x.flv",
        "k_20260101_000000_Part2.flv",
        "k_20260101_000000_.flv",
        "k_20260101_0000001.flv",
        "K_20260101_000000.flv",
        "",
    ] {
        assert!(!counts("k", name), "{}", name);
    }
}

#[test]
fn own_files_count_as_recordings() {
    let stamp = file_stamp(Timestamp { secs: 1_709_210_096, nanos: 0 }).unwrap();
    let plain = plain_recording_path("k", &stamp);
    let part = part_recording_path("k", &stamp, 2);
    assert!(counts("k", plain.strip_prefix("recordings/").unwrap()));
    assert!(counts("k", part.strip_prefix("recordings/").unwrap()));
}

#[test]
fn files_of_a_recording_hold_every_packet_once() {
    let c = config(60, RecordOverflowAction::Archive, 0);
    let (mut r, opening) = Recorder::start_at("k".to_string(), c, "S", &vec![]);
    let mut files: Vec<Vec<u8>> = vec![opening];
    let mut all: Vec<u8> = Vec::new();
    for i in 0..20u8 {
        let kind = if i % 5 == 0 { 0x17 } else { 0x27 };
        let data = flv::make_tag(9, i as u32, &[kind, 1, i]);
        all.extend_from_slice(&data);
        match r.on_packet(chunk(data)) {
            RecordStep::Skip => panic!("skipped"),
            RecordStep::Append(b) => files.last_mut().unwrap().extend_from_slice(&b),
            RecordStep::Rotate(b) => files.push(r.rotate_at("T", &b)),
        }
    }
    assert_eq!(files.len(), 4);
    let mut joined: Vec<u8> = Vec::new();
    for f in &files {
        assert_eq!(&f[..13], &flv::file_header_bytes()[..]);
        assert!(flv::keyframe(&Bytes::from(f[13..].to_vec())));
        joined.extend_from_slice(&f[13..]);
    }
    assert_eq!(joined, all);
    assert_eq!(r.part(), 4);
}

#[test]
fn stamps_are_dates_in_utc() {
    let stamp = |secs| file_stamp(Timestamp { secs, nanos: 0 });
    assert_eq!(stamp(0).as_deref(), Some("19700101_000000"));
    assert_eq!(stamp(1_709_210_096).as_deref(), Some("20240229_123456"));
    assert_eq!(stamp(-1).as_deref(), Some("19691231_235959"));
    assert_eq!(stamp(i64::MAX), None);
}

#[test]
fn deleting_leaves_one_file_and_archiving_all() {
    for (action, left) in [(RecordOverflowAction::Delete, 1), (RecordOverflowAction::Archive, 4)] {
        let (mut r, opening) = Recorder::start_at("k".to_string(), config(60, action, 0), "S", &vec![]);
        let mut files: Vec<Vec<u8>> = vec![opening];
        for i in 0..20u8 {
            let kind = if i % 5 == 0 { 0x17 } else { 0x27 };
            match r.on_packet(chunk(flv::make_tag(9, i as u32, &[kind, 1, i]))) {
                RecordStep::Skip => panic!("skipped"),
                RecordStep::Append(b) => files.last_mut().unwrap().extend_from_slice(&b),
                RecordStep::Rotate(b) => {
                    if r.cleanup() == Cleanup::RemoveCurrent {
                        files.pop();
                    }
                    files.push(r.rotate_at("T", &b));
                }
            }
        }
        assert_eq!(files.len(), left);
        assert_eq!(files.last().unwrap().len() as u64, r.size());
    }
}
