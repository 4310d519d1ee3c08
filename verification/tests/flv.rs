use bytes::Bytes;
use castr::flv;
use castr::types::MediaPacket;
use castr::viewer::ViewerGate;

fn tag_of(kind: u8, first: u8, second: u8) -> Bytes {
    Bytes::from(flv::make_tag(kind, 0, &[first, second]))
}

#[test]
fn tag_is_laid_out_byte_by_byte() {
    let t = flv::make_tag(flv::VIDEO_TAG, 0x12345678, &[0x17, 0x00, 0xaa]);
    assert_eq!(
        t,
        vec![
            0x09, 0x00, 0x00, 0x03, 0x34, 0x56, 0x78, 0x12, 0x00, 0x00, 0x00, 0x17, 0x00, 0xaa,
            0x00, 0x00, 0x00, 0x0e
        ]
    );
}

#[test]
fn tag_of_an_empty_payload() {
    let t = flv::make_tag(flv::AUDIO_TAG, 0, &[]);
    assert_eq!(t, vec![0x08, 0, 0, 0, 0, 0, 0, 0, 0, 0, 0, 0, 0, 0, 0x0b]);
}

#[test]
fn long_payload_has_its_size_in_three_bytes_and_in_four() {
    let payload = vec![7u8; 0x012345];
    let t = flv::make_tag(flv::VIDEO_TAG, 40, &payload);
    assert_eq!(t.len(), 0x012345 + 15);
    assert_eq!(&t[1..4], &[0x01, 0x23, 0x45]);
    assert_eq!(&t[11..11 + payload.len()], &payload[..]);
    assert_eq!(&t[t.len() - 4..], &[0x00, 0x01, 0x23, 0x50]);
}

#[test]
fn tags_differ_by_type_timestamp_and_payload() {
    let t = flv::make_tag(9, 1, &[1, 2]);
    assert_ne!(t, flv::make_tag(8, 1, &[1, 2]));
    assert_ne!(t, flv::make_tag(9, 0x0100_0001, &[1, 2]));
    assert_ne!(t, flv::make_tag(9, 1, &[1, 3]));
}

#[test]
fn file_header_announces_audio_and_video() {
    assert_eq!(
        flv::file_header_bytes(),
        vec![0x46, 0x4c, 0x56, 0x01, 0x05, 0, 0, 0, 0x09, 0, 0, 0, 0]
    );
    let tags = vec![Bytes::from(vec![1, 2]), Bytes::from(vec![]), Bytes::from(vec![3])];
    let whole = flv::with_file_header(&tags);
    assert_eq!(&whole[..13], &flv::file_header_bytes()[..]);
    assert_eq!(&whole[13..], &[1, 2, 3]);
}

#[test]
fn keyframes_and_sync_points() {
    assert!(flv::keyframe(&tag_of(9, 0x17, 1)));
    assert!(!flv::keyframe(&tag_of(9, 0x27, 1)));
    assert!(!flv::keyframe(&tag_of(9, 0x17, 0)));
    assert!(!flv::keyframe(&tag_of(8, 0x17, 1)));
    assert!(!flv::keyframe(&Bytes::from(vec![9; 12])));
    assert!(flv::sync_point(&tag_of(9, 0x17, 1)));
    assert!(flv::sync_point(&tag_of(9, 0x27, 0)));
    assert!(flv::sync_point(&tag_of(8, 0xaf, 0)));
    assert!(!flv::sync_point(&tag_of(8, 0xaf, 1)));
    assert!(!flv::sync_point(&tag_of(9, 0x27, 1)));
}

#[test]
fn viewer_that_lost_nothing_gets_everything_but_empty_bytes() {
    let mut gate = ViewerGate::new();
    assert!(gate.offer(&tag_of(9, 0x27, 1)));
    assert!(!gate.offer(&Bytes::from(vec![])));
    assert!(gate.offer(&Bytes::from(vec![1])));
    assert!(!gate.waiting);
}

#[test]
fn viewer_that_lost_some_waits_for_a_sync_point() {
    let mut gate = ViewerGate::new();
    gate.lost();
    assert!(!gate.offer(&tag_of(9, 0x27, 1)));
    assert!(!gate.offer(&tag_of(8, 0xaf, 1)));
    assert!(!gate.offer(&Bytes::from(vec![])));
    assert!(gate.waiting);
    assert!(gate.offer(&tag_of(9, 0x17, 1)));
    assert!(gate.offer(&tag_of(9, 0x27, 1)));
    gate.lost();
    assert!(!gate.offer(&tag_of(9, 0x27, 1)));
    assert!(gate.offer(&tag_of(8, 0xaf, 0)));
}

#[test]
fn packets_pass_with_their_bytes() {
    let mut gate = ViewerGate::new();
    let delta = tag_of(9, 0x27, 1);
    let video =
        MediaPacket::Video { data: delta.clone(), timestamp_ms: 1, is_keyframe: false };
    assert_eq!(gate.pass(video), Some(delta.clone()));
    gate.lost();
    let audio = MediaPacket::Audio { data: tag_of(8, 0xaf, 1), timestamp_ms: 2 };
    assert_eq!(gate.pass(audio), None);
    let header = tag_of(9, 0x17, 0);
    assert_eq!(gate.pass(MediaPacket::SequenceHeader(header.clone())), Some(header));
    let chunk = MediaPacket::RawChunk { data: delta.clone(), content_type: "x".to_string() };
    assert_eq!(gate.pass(chunk), Some(delta));
    assert_eq!(gate.pass(MediaPacket::SequenceHeader(Bytes::from(vec![]))), None);
}
