use bytes::Bytes;
use castr::client::{
    steps_in_answer, HandshakeReply, Progress, Received, RtmpClient, SessionStep, Stage,
};
use castr::flv;
use castr::outside::Timestamp;
use castr::rtmp::{apply_event, meta_of_published, request_of, RtmpAction, RtmpError};
use castr::state::AppState;
use castr::types::{MediaPacket, RecordConfig, RecordOverflowAction};
use castr::wire::SessionEvent;
use rml_rtmp::chunk_io::Packet;
use rml_rtmp::handshake::{Handshake, HandshakeProcessResult, PeerType};
use rml_rtmp::sessions::{
    ClientSession, ClientSessionConfig, ClientSessionEvent, ClientSessionResult,
    PublishRequestType, ServerSessionError, ServerSessionEvent, ServerSessionResult,
};
use rml_rtmp::time::RtmpTimestamp;

fn server(record: bool) -> AppState {
    let config = RecordConfig {
        enabled: record,
        max_size_bytes: 100,
        overflow_action: RecordOverflowAction::Archive,
        max_archived_files: 0,
    };
    AppState::new(false, config, None)
}

fn at(secs: i64) -> Timestamp {
    Timestamp { secs, nanos: 0 }
}

fn publish(key: &str) -> SessionEvent {
    SessionEvent::PublishRequested { request_id: 4, stream_key: key.to_string() }
}

fn video(key: &str, data: &[u8], timestamp: u32) -> SessionEvent {
    SessionEvent::VideoReceived {
        stream_key: key.to_string(),
        data: Bytes::from(data.to_vec()),
        timestamp,
    }
}

fn audio(key: &str, data: &[u8], timestamp: u32) -> SessionEvent {
    SessionEvent::AudioReceived {
        stream_key: key.to_string(),
        data: Bytes::from(data.to_vec()),
        timestamp,
    }
}

fn packets(action: RtmpAction) -> (String, Vec<(bool, Vec<u8>)>) {
    match action {
        RtmpAction::Broadcast { stream_key, packets } => {
            let mut list = Vec::new();
            for p in packets {
                let header = matches!(p, MediaPacket::SequenceHeader(_));
                list.push((header, p.into_bytes().to_vec()));
            }
            (stream_key, list)
        }
        _ => panic!("nothing is sent"),
    }
}

#[test]
fn published_stream_is_described() {
    let m = meta_of_published("cam", at(5));
    assert_eq!(m.stream_key, "cam");
    assert_eq!(m.title, "Live Stream - cam");
    assert_eq!(m.broadcaster, "Broadcaster (RTMP)");
    assert_eq!(m.category, "Live Webcam");
    assert_eq!(m.description, "Streaming live via RTMP Ingest (OBS/Hardware Client)");
    assert!(m.is_live);
    assert_eq!(m.source_type, "RTMP");
    assert_eq!(m.started_at, Some(at(5)));
    assert_eq!((m.viewer_count, m.bitrate_kbps, m.fps), (0, 2500, 60));
    assert_eq!(m.resolution, "1920x1080");
}

#[test]
fn requests_are_to_be_accepted() {
    assert_eq!(request_of(&SessionEvent::ConnectionRequested { request_id: 3 }), Some(3));
    assert_eq!(request_of(&publish("k")), Some(4));
    assert_eq!(request_of(&video("k", &[], 0)), None);
    assert_eq!(request_of(&SessionEvent::Other), None);
}

#[test]
fn publishing_makes_a_stream_live() {
    let mut s = server(false);
    let mut current: Option<String> = None;
    assert!(matches!(apply_event(&mut s, &mut current, publish("cam"), at(5)), RtmpAction::Nothing));
    assert_eq!(current.as_deref(), Some("cam"));
    let list = s.get_stream_list();
    assert_eq!(list.len(), 1);
    assert!(list[0].is_live);
    assert_eq!(list[0].title, "Live Stream - cam");
    let other = SessionEvent::PublishFinished { stream_key: "other".to_string() };
    apply_event(&mut s, &mut current, other, at(6));
    assert_eq!(current.as_deref(), Some("cam"));
    let done = SessionEvent::PublishFinished { stream_key: "cam".to_string() };
    apply_event(&mut s, &mut current, done, at(6));
    assert_eq!(current, None);
    assert!(!s.get_stream_list()[0].is_live);
}

#[test]
fn publishing_starts_a_recording_where_streams_are_recorded() {
    let mut s = server(true);
    let mut current: Option<String> = None;
    match apply_event(&mut s, &mut current, publish("cam"), at(5)) {
        RtmpAction::Record(key) => assert_eq!(key, "cam"),
        _ => panic!("not recorded"),
    }
}

#[test]
fn video_header_is_sent_twice_and_kept() {
    let mut s = server(false);
    let mut current: Option<String> = None;
    apply_event(&mut s, &mut current, publish("cam"), at(5));
    let (key, list) = packets(apply_event(&mut s, &mut current, video("cam", &[0x17, 0, 8], 9), at(6)));
    let tag = flv::make_tag(9, 9, &[0x17, 0, 8]);
    assert_eq!(key, "cam");
    assert_eq!(list, vec![(true, tag.clone()), (false, tag.clone())]);
    assert_eq!(s.subscribe_media("cam").unwrap(), vec![Bytes::from(tag)]);
}

#[test]
fn only_avc_sequence_headers_are_sent_twice() {
    let mut s = server(false);
    let mut current: Option<String> = None;
    apply_event(&mut s, &mut current, publish("cam"), at(5));
    for first in [0x22u8, 0x12, 0x07, 0x57] {
        let event = video("cam", &[first, 0, 0xaa], 0);
        let (_, list) = packets(apply_event(&mut s, &mut current, event, at(6)));
        assert_eq!(list, vec![(false, flv::make_tag(9, 0, &[first, 0, 0xaa]))]);
        if first == 0x22 {
            assert!(s.subscribe_media("cam").unwrap().is_empty());
        }
    }
    let event = video("cam", &[0x27, 0, 0xaa], 0);
    let (_, list) = packets(apply_event(&mut s, &mut current, event, at(6)));
    let tag = flv::make_tag(9, 0, &[0x27, 0, 0xaa]);
    assert_eq!(list, vec![(true, tag.clone()), (false, tag)]);
}

#[test]
fn other_media_is_sent_once() {
    let mut s = server(false);
    let mut current: Option<String> = None;
    apply_event(&mut s, &mut current, publish("cam"), at(5));
    let (_, list) = packets(apply_event(&mut s, &mut current, video("cam", &[0x17, 1, 8], 7), at(6)));
    assert_eq!(list, vec![(false, flv::make_tag(9, 7, &[0x17, 1, 8]))]);
    let (_, list) = packets(apply_event(&mut s, &mut current, video("cam", &[0x17], 8), at(6)));
    assert_eq!(list, vec![(false, flv::make_tag(9, 8, &[0x17]))]);
    let (_, list) = packets(apply_event(&mut s, &mut current, audio("cam", &[0xaf, 0], 9), at(6)));
    assert_eq!(list, vec![(false, flv::make_tag(8, 9, &[0xaf, 0]))]);
    assert_eq!(s.subscribe_media("cam").unwrap().len(), 3);
}

#[test]
fn media_of_an_unknown_stream_is_dropped() {
    let mut s = server(false);
    let mut current: Option<String> = None;
    let action = apply_event(&mut s, &mut current, video("cam", &[0x17, 0, 8], 9), at(6));
    assert!(matches!(action, RtmpAction::Nothing));
    let action = apply_event(&mut s, &mut current, audio("cam", &[0xaf, 0, 8], 9), at(6));
    assert!(matches!(action, RtmpAction::Nothing));
    let action = apply_event(&mut s, &mut current, SessionEvent::Other, at(6));
    assert!(matches!(action, RtmpAction::Nothing));
    assert_eq!(s.get_stream_list().len(), 0);
}

#[test]
fn progress_through_handshake_and_session() {
    let mut s = server(false);
    let mut p = Progress::new();
    assert_eq!(p.stage, Stage::Handshaking);
    p.shaken(HandshakeReply::More(vec![]));
    assert_eq!(p.pending.len(), 0);
    p.shaken(HandshakeReply::More(vec![1, 2]));
    p.shaken(HandshakeReply::Done { response: vec![3], rest: vec![4] });
    assert_eq!(p.stage, Stage::Opening);
    assert!(matches!(p.step(&mut s, at(1)), (RtmpAction::Send(_), None)));
    match p.step(&mut s, at(1)) {
        (RtmpAction::Send(b), None) => assert_eq!(b, vec![3]),
        _ => panic!("nothing to send"),
    }
    p.opened(Some(vec![SessionStep::Skip]));
    assert_eq!(p.stage, Stage::Resuming);
    assert!(matches!(p.step(&mut s, at(1)), (RtmpAction::Nothing, None)));
    p.resumed(Some(vec![SessionStep::Event(publish("cam"))]));
    assert_eq!(p.stage, Stage::Running);
    assert!(matches!(p.step(&mut s, at(1)), (RtmpAction::Nothing, Some(4))));
    assert!(s.get_stream_list()[0].is_live);
    p.fed(&mut s, Some(vec![]));
    assert_eq!(p.stage, Stage::Running);
    p.disconnected(&mut s);
    assert_eq!(p.stage, Stage::Over);
    assert!(!s.get_stream_list()[0].is_live);
}

#[test]
fn progress_ends_where_something_fails() {
    let mut s = server(false);
    let mut p = Progress::new();
    p.shaken(HandshakeReply::Failed);
    assert_eq!(p.stage, Stage::Failed(RtmpError::BadHandshake));
    let mut p = Progress::new();
    p.shaken(HandshakeReply::Done { response: vec![], rest: vec![] });
    p.opened(None);
    assert_eq!(p.stage, Stage::Failed(RtmpError::NoSession));
    let mut p = Progress::new();
    p.shaken(HandshakeReply::Done { response: vec![], rest: vec![] });
    p.opened(Some(vec![SessionStep::Event(publish("cam"))]));
    assert_eq!(p.stage, Stage::Running);
    p.step(&mut s, at(1));
    p.fed(&mut s, None);
    assert_eq!(p.stage, Stage::Over);
    assert!(!s.get_stream_list()[0].is_live);
    let mut p = Progress::new();
    p.shaken(HandshakeReply::Done { response: vec![], rest: vec![1] });
    p.opened(Some(vec![]));
    p.resumed(None);
    assert_eq!(p.stage, Stage::Over);
    let mut p = Progress::new();
    p.disconnected(&mut s);
    assert_eq!(p.stage, Stage::Over);
}

/// Hands bytes to a client of the server, as they are read.
fn give(client: &mut RtmpClient, state: &mut AppState, data: &[u8]) {
    match client.receive(data) {
        Received::Taken => {}
        Received::ForSession => {
            let answer = client.session_mut().unwrap().handle_input(data);
            client.fed(state, answer);
        }
        Received::Silence => client.disconnected(state),
    }
}

/// All that a client of the server does until it waits or is over.
fn run(client: &mut RtmpClient, state: &mut AppState) -> (Vec<u8>, Vec<RtmpAction>) {
    let mut sent: Vec<u8> = Vec::new();
    let mut rest: Vec<RtmpAction> = Vec::new();
    loop {
        match client.next(state) {
            RtmpAction::Send(bytes) => sent.extend_from_slice(&bytes),
            RtmpAction::Nothing => {}
            RtmpAction::Read => return (sent, rest),
            RtmpAction::Resume(data) => {
                let answer = client.session_mut().unwrap().handle_input(&data);
                client.resumed(answer);
            }
            RtmpAction::Finish => {
                rest.push(RtmpAction::Finish);
                return (sent, rest);
            }
            RtmpAction::Fail(error) => {
                rest.push(RtmpAction::Fail(error));
                return (sent, rest);
            }
            action => rest.push(action),
        }
    }
}

/// A peer that talks to the server as an encoder does.
struct Encoder {
    session: ClientSession,
    events: Vec<ClientSessionEvent>,
}

impl Encoder {
    fn take(&mut self, results: Vec<ClientSessionResult>) -> Vec<u8> {
        let mut out: Vec<u8> = Vec::new();
        for r in results {
            match r {
                ClientSessionResult::OutboundResponse(p) => out.extend_from_slice(&p.bytes),
                ClientSessionResult::RaisedEvent(e) => self.events.push(e),
                ClientSessionResult::UnhandleableMessageReceived(_) => {}
            }
        }
        out
    }

    fn exchange(
        &mut self,
        result: ClientSessionResult,
        client: &mut RtmpClient,
        state: &mut AppState,
    ) -> Vec<RtmpAction> {
        let mut out = self.take(vec![result]);
        let mut all: Vec<RtmpAction> = Vec::new();
        while !out.is_empty() {
            give(client, state, &out);
            let (sent, actions) = run(client, state);
            all.extend(actions);
            let results = self.session.handle_input(&sent).unwrap();
            out = self.take(results);
        }
        all
    }
}

fn shake(client: &mut RtmpClient, state: &mut AppState) {
    let mut peer = Handshake::new(PeerType::Client);
    let mut out = peer.generate_outbound_p0_and_p1().unwrap();
    loop {
        give(client, state, &out);
        let (sent, _) = run(client, state);
        match peer.process_bytes(&sent).unwrap() {
            HandshakeProcessResult::InProgress { response_bytes } => out = response_bytes,
            HandshakeProcessResult::Completed { response_bytes, remaining_bytes } => {
                assert!(remaining_bytes.is_empty());
                give(client, state, &response_bytes);
                return;
            }
        }
    }
}

#[test]
fn encoder_publishes_through_a_whole_session() {
    let mut s = server(true);
    let mut client = RtmpClient::new();
    assert!(matches!(client.next(&mut s), RtmpAction::Read));
    shake(&mut client, &mut s);
    let (greeting, actions) = run(&mut client, &mut s);
    assert!(actions.is_empty());
    assert!(!greeting.is_empty());
    let (session, first) = ClientSession::new(ClientSessionConfig::new()).unwrap();
    let mut encoder = Encoder { session, events: Vec::new() };
    assert!(encoder.take(first).is_empty());
    let results = encoder.session.handle_input(&greeting).unwrap();
    let reply = encoder.take(results);
    assert!(reply.is_empty());

    let connect = encoder.session.request_connection("live".to_string()).unwrap();
    assert!(encoder.exchange(connect, &mut client, &mut s).is_empty());
    assert!(encoder.events.contains(&ClientSessionEvent::ConnectionRequestAccepted));
    assert_eq!(s.get_stream_list().len(), 0);

    let publish = encoder
        .session
        .request_publishing("cam".to_string(), PublishRequestType::Live)
        .unwrap();
    let actions = encoder.exchange(publish, &mut client, &mut s);
    assert!(encoder.events.contains(&ClientSessionEvent::PublishRequestAccepted));
    assert_eq!(actions.len(), 1);
    assert!(matches!(&actions[0], RtmpAction::Record(key) if key == "cam"));
    let list = s.get_stream_list();
    assert_eq!(list.len(), 1);
    assert_eq!(list[0].stream_key, "cam");
    assert!(list[0].is_live);
    assert!(list[0].started_at.unwrap().secs > 1_700_000_000);

    let header = Bytes::from(vec![0x17u8, 0, 1, 2, 3]);
    let message = encoder
        .session
        .publish_video_data(header, RtmpTimestamp::new(72), false)
        .unwrap();
    let mut actions = encoder.exchange(message, &mut client, &mut s);
    let tag = flv::make_tag(9, 72, &[0x17, 0, 1, 2, 3]);
    assert_eq!(actions.len(), 1);
    let (key, sent) = packets(actions.remove(0));
    assert_eq!(key, "cam");
    assert_eq!(sent, vec![(true, tag.clone()), (false, tag)]);

    let sound = Bytes::from(vec![0xafu8, 0, 9]);
    let message = encoder
        .session
        .publish_audio_data(sound, RtmpTimestamp::new(73), false)
        .unwrap();
    let mut actions = encoder.exchange(message, &mut client, &mut s);
    let (_, sent) = packets(actions.remove(0));
    assert_eq!(sent, vec![(false, flv::make_tag(8, 73, &[0xaf, 0, 9]))]);
    assert_eq!(s.subscribe_media("cam").unwrap().len(), 2);

    let stop = encoder.session.stop_publishing().unwrap();
    let mut out: Vec<u8> = Vec::new();
    for r in stop {
        if let ClientSessionResult::OutboundResponse(p) = r {
            out.extend_from_slice(&p.bytes);
        }
    }
    give(&mut client, &mut s, &out);
    run(&mut client, &mut s);
    assert!(!s.get_stream_list()[0].is_live);

    give(&mut client, &mut s, &[]);
    assert!(matches!(client.next(&mut s), RtmpAction::Finish));
}

#[test]
fn encoder_that_vanishes_ends_its_stream() {
    let mut s = server(false);
    let mut client = RtmpClient::new();
    shake(&mut client, &mut s);
    let (greeting, _) = run(&mut client, &mut s);
    let (session, _) = ClientSession::new(ClientSessionConfig::new()).unwrap();
    let mut encoder = Encoder { session, events: Vec::new() };
    let results = encoder.session.handle_input(&greeting).unwrap();
    encoder.take(results);
    let connect = encoder.session.request_connection("live".to_string()).unwrap();
    encoder.exchange(connect, &mut client, &mut s);
    let publish = encoder
        .session
        .request_publishing("cam".to_string(), PublishRequestType::Live)
        .unwrap();
    assert!(encoder.exchange(publish, &mut client, &mut s).is_empty());
    assert!(s.get_stream_list()[0].is_live);
    give(&mut client, &mut s, &[]);
    assert!(!s.get_stream_list()[0].is_live);
    let (sent, actions) = run(&mut client, &mut s);
    assert!(sent.is_empty());
    assert!(matches!(actions[0], RtmpAction::Finish));
    give(&mut client, &mut s, &[1, 2, 3]);
    assert!(matches!(client.next(&mut s), RtmpAction::Finish));
}

#[test]
fn handshake_of_another_version_fails() {
    let mut s = server(false);
    let mut client = RtmpClient::new();
    give(&mut client, &mut s, &[9, 9, 9]);
    let (sent, actions) = run(&mut client, &mut s);
    assert!(sent.is_empty());
    assert!(matches!(actions[0], RtmpAction::Fail(RtmpError::BadHandshake)));
}

#[test]
fn bytes_after_the_handshake_are_taken_in() {
    let mut s = server(false);
    let mut client = RtmpClient::new();
    let mut peer = Handshake::new(PeerType::Client);
    let mut out = peer.generate_outbound_p0_and_p1().unwrap();
    let (session, _) = ClientSession::new(ClientSessionConfig::new()).unwrap();
    let mut encoder = Encoder { session, events: Vec::new() };
    let connect = encoder.session.request_connection("live".to_string()).unwrap();
    let early = encoder.take(vec![connect]);
    loop {
        give(&mut client, &mut s, &out);
        let (sent, _) = run(&mut client, &mut s);
        match peer.process_bytes(&sent).unwrap() {
            HandshakeProcessResult::InProgress { response_bytes } => out = response_bytes,
            HandshakeProcessResult::Completed { response_bytes, .. } => {
                let mut last = response_bytes;
                last.extend_from_slice(&early);
                give(&mut client, &mut s, &last);
                break;
            }
        }
    }
    let (sent, actions) = run(&mut client, &mut s);
    assert!(actions.is_empty());
    let results = encoder.session.handle_input(&sent).unwrap();
    encoder.take(results);
    assert!(encoder.events.contains(&ClientSessionEvent::ConnectionRequestAccepted));
}

#[test]
fn answers_of_a_session_become_steps() {
    let packet = Packet { bytes: vec![1, 2], can_be_dropped: false };
    let asked = ServerSessionEvent::ConnectionRequested {
        request_id: 6,
        app_name: "live".to_string(),
    };
    let answer = Ok(vec![
        ServerSessionResult::OutboundResponse(packet),
        ServerSessionResult::RaisedEvent(asked),
        ServerSessionResult::RaisedEvent(ServerSessionEvent::AcknowledgementReceived {
            bytes_received: 1,
        }),
    ]);
    let steps = steps_in_answer(answer).unwrap();
    assert_eq!(steps.len(), 3);
    assert!(matches!(&steps[0], SessionStep::Send(b) if b == &vec![1, 2]));
    assert!(matches!(
        &steps[1],
        SessionStep::Event(SessionEvent::ConnectionRequested { request_id: 6 })
    ));
    assert!(matches!(&steps[2], SessionStep::Event(SessionEvent::Other)));
    let failed = steps_in_answer(Err(ServerSessionError::NoAppNameForConnectionRequest));
    assert!(failed.is_none());
}

#[test]
fn bytes_are_left_for_the_session_once_it_is_under_way() {
    let mut s = server(false);
    let mut client = RtmpClient::new();
    assert!(client.session_mut().is_none());
    assert_eq!(client.receive(&[]), Received::Silence);
    shake(&mut client, &mut s);
    run(&mut client, &mut s);
    assert!(client.session_mut().is_some());
    assert_eq!(client.receive(&[1, 2]), Received::ForSession);
    assert_eq!(client.receive(&[]), Received::Silence);
    client.fed(&mut s, Err(ServerSessionError::NoAppNameForConnectionRequest));
    assert!(matches!(client.next(&mut s), RtmpAction::Finish));
    assert_eq!(client.receive(&[1, 2]), Received::Taken);
}
