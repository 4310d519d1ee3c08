//! The recording of a live stream: what goes into which file, and which old files go.
use crate::flv;
use crate::outside;
use crate::outside::Timestamp;
use crate::text;
use crate::types;
use crate::types::{MediaPacket, RecordConfig, RecordOverflowAction};
use bytes::Bytes;
use vstd::prelude::*;

verus! {

/// The recording of a stream.
pub struct Recorder {
    stream_key: String,
    config: RecordConfig,
    file_path: String,
    part_num: i32,
    current_size: u64,
    video_seq: Option<Bytes>,
    audio_seq: Option<Bytes>,
    written: Ghost<Seq<u8>>,
}

/// The recording of a stream, by its texts and bytes.
pub struct RecorderView {
    pub stream_key: Seq<char>,
    pub config: RecordConfig,
    /// The file that is being written.
    pub path: Seq<char>,
    /// The number of parts so far.
    pub part: int,
    /// What goes into the file that is being written.
    pub file: Seq<u8>,
    /// The header that the video of a new file starts with.
    pub video: Option<Seq<u8>>,
    /// The header that the audio of a new file starts with.
    pub audio: Option<Seq<u8>>,
}

/// What a packet means for a recording.
pub enum RecordStep {
    /// Nothing is written.
    Skip,
    /// These bytes go at the end of the file.
    Append(Bytes),
    /// The file is full, and a new one starts with these bytes.
    Rotate(Bytes),
}

/// What a packet means for a recording, by its bytes.
pub enum StepView {
    Skip,
    Append(Seq<u8>),
    Rotate(Seq<u8>),
}

impl View for RecordStep {
    type V = StepView;

    open spec fn view(&self) -> StepView {
        match *self {
            RecordStep::Skip => StepView::Skip,
            RecordStep::Append(b) => StepView::Append(outside::bytes_seq(b)),
            RecordStep::Rotate(b) => StepView::Rotate(outside::bytes_seq(b)),
        }
    }
}

/// The first of some tags that is of a type.
pub open spec fn first_of_type(tags: Seq<Seq<u8>>, kind: u8) -> Option<Seq<u8>>
    decreases tags.len(),
{
    if tags.len() == 0 {
        None
    } else if tags[0].len() > 0 && tags[0][0] == kind {
        Some(tags[0])
    } else {
        first_of_type(tags.skip(1), kind)
    }
}

/// "recordings/"
pub open spec fn directory() -> Seq<char> {
    seq!['r', 'e', 'c', 'o', 'r', 'd', 'i', 'n', 'g', 's', '/']
}

/// ".flv"
pub open spec fn extension() -> Seq<char> {
    seq!['.', 'f', 'l', 'v']
}

/// The file of a recording that starts at a moment.
pub open spec fn plain_path(key: Seq<char>, stamp: Seq<char>) -> Seq<char> {
    directory() + key + seq!['_'] + stamp + extension()
}

/// The file of a later part of a recording.
pub open spec fn part_path(key: Seq<char>, stamp: Seq<char>, part: int) -> Seq<char> {
    directory() + key + seq!['_'] + stamp + seq!['_', 'p', 'a', 'r', 't'] + text::decimal(
        part as nat,
    ) + extension()
}

/// What follows the stamp in the name of a later part: "_part" and a decimal number. Nothing follows
/// it in the name of a first file.
pub open spec fn part_suffix(t: Seq<char>) -> bool {
    t.len() == 0 || {
        &&& t.len() > 5
        &&& t.take(5) == seq!['_', 'p', 'a', 'r', 't']
        &&& forall|i: int| 5 <= i < t.len() ==> text::is_digit(#[trigger] t[i])
    }
}

/// What follows the key and the underscore in the name of a recording: a stamp, for a later part its
/// number, and the extension.
pub open spec fn stamped(rest: Seq<char>) -> bool {
    &&& rest.len() >= 19
    &&& outside::stamp_shape(rest.take(15))
    &&& part_suffix(rest.subrange(15, rest.len() - 4))
    &&& rest.skip(rest.len() - 4) == extension()
}

/// Whether a file in the directory counts as a recording of a stream: it is named by the stream's
/// key, an underscore, a stamp, for a later part its number, and the extension.
pub open spec fn is_recording_of(key: Seq<char>, name: Seq<char>) -> bool {
    &&& name.len() > key.len()
    &&& name.take(key.len() as int + 1) == key.push('_')
    &&& stamped(name.skip(key.len() as int + 1))
}

/// Where the characters of a recording's name stand: the number of a later part, or the time of the
/// stamp, are the digits before the extension.
proof fn lemma_name_parts(key: Seq<char>, name: Seq<char>)
    requires
        is_recording_of(key, name),
    ensures
        ({
            let a = key.len() as int + 1;
            let e = name.len() - 4;
            &&& a + 15 <= e
            &&& a + 15 == e ==> name[e - 7] == '_' && forall|i: int|
                e - 6 <= i < e ==> text::is_digit(#[trigger] name[i])
            &&& a + 15 < e ==> a + 20 < e && name[a + 19] == 't' && forall|i: int|
                a + 20 <= i < e ==> text::is_digit(#[trigger] name[i])
        }),
{
    let a = key.len() as int + 1;
    let e = name.len() - 4;
    let rest = name.skip(a);
    let stamp = rest.take(15);
    let part = rest.subrange(15, rest.len() - 4);
    if a + 15 == e {
        assert(stamp[8] == name[a + 8]);
        assert forall|i: int| e - 6 <= i < e implies text::is_digit(#[trigger] name[i]) by {
            assert(stamp[i - a] == name[i]);
        }
    } else {
        assert(part.take(5)[4] == 't');
        assert(part[4] == name[a + 19]);
        assert forall|i: int| a + 20 <= i < e implies text::is_digit(#[trigger] name[i]) by {
            assert(part[i - a - 15] == name[i]);
        }
    }
}

/// Streams with different keys never claim the same file: what is counted or removed for one is no
/// recording of another.
pub proof fn law_recordings_stay_apart(a: Seq<char>, b: Seq<char>, name: Seq<char>)
    requires
        is_recording_of(a, name),
        is_recording_of(b, name),
    ensures
        a == b,
{
    lemma_name_parts(a, name);
    lemma_name_parts(b, name);
    let i = a.len() as int + 1;
    let j = b.len() as int + 1;
    let e = name.len() - 4;
    if i != j {
        if i + 15 == e {
            assert(text::is_digit(name[e - 1]) && text::is_digit(name[e - 6]));
            assert(!text::is_digit('t') && !text::is_digit('_'));
            assert(name[j + 19] == 't');
            if j + 20 <= e - 7 {
                assert(text::is_digit(name[e - 7]));
            }
        } else if j + 15 == e {
            assert(name[i + 19] == 't');
            if i + 20 <= e - 7 {
                assert(text::is_digit(name[e - 7]));
            }
        } else {
            assert(name[i + 19] == 't' && name[j + 19] == 't');
        }
        assert(false);
    }
    assert(a =~= name.take(i).drop_last());
    assert(b =~= name.take(j).drop_last());
}

/// The name of a file in the directory of recordings.
pub open spec fn name_in_directory(path: Seq<char>) -> Seq<char> {
    path.skip(directory().len() as int)
}

/// Every file that a recording is written to counts as a recording of its stream.
pub proof fn law_own_files_count(key: Seq<char>, stamp: Seq<char>, part: nat)
    requires
        outside::stamp_shape(stamp),
    ensures
        directory().is_prefix_of(plain_path(key, stamp)),
        is_recording_of(key, name_in_directory(plain_path(key, stamp))),
        directory().is_prefix_of(part_path(key, stamp, part as int)),
        is_recording_of(key, name_in_directory(part_path(key, stamp, part as int))),
{
    let d = text::decimal(part);
    text::lemma_decimal_value(part);
    let a = key.len() as int + 1;
    let n1 = name_in_directory(plain_path(key, stamp));
    let r1 = stamp + extension();
    assert(n1 =~= key.push('_') + r1);
    assert(n1.take(a) =~= key.push('_'));
    assert(n1.skip(a) =~= r1);
    assert(r1.take(15) =~= stamp);
    assert(r1.skip(15) =~= extension());
    assert(plain_path(key, stamp) =~= directory() + n1);
    let n2 = name_in_directory(part_path(key, stamp, part as int));
    let p2 = seq!['_', 'p', 'a', 'r', 't'] + d;
    let r2 = stamp + p2 + extension();
    assert(n2 =~= key.push('_') + r2);
    assert(n2.take(a) =~= key.push('_'));
    assert(n2.skip(a) =~= r2);
    assert(r2.take(15) =~= stamp);
    assert(r2.subrange(15, r2.len() - 4) =~= p2);
    assert(r2.skip(r2.len() - 4) =~= extension());
    assert(p2.take(5) =~= seq!['_', 'p', 'a', 'r', 't']);
    assert forall|i: int| 5 <= i < p2.len() implies text::is_digit(#[trigger] p2[i]) by {
        assert(p2[i] == d[i - 5]);
    }
    assert(part_path(key, stamp, part as int) =~= directory() + n2);
}

/// What a recording starts with in a new file: the file header and the headers of video and audio.
pub open spec fn preamble(video: Option<Seq<u8>>, audio: Option<Seq<u8>>) -> Seq<u8> {
    flv::file_header() + (match video {
        Some(b) => b,
        None => Seq::empty(),
    }) + (match audio {
        Some(b) => b,
        None => Seq::empty(),
    })
}

/// A recording that has started.
pub open spec fn started(
    key: Seq<char>,
    config: RecordConfig,
    stamp: Seq<char>,
    tags: Seq<Seq<u8>>,
) -> RecorderView {
    RecorderView {
        stream_key: key,
        config,
        path: plain_path(key, stamp),
        part: 1,
        file: flv::file_header() + tags.flatten(),
        video: first_of_type(tags, flv::VIDEO_TAG),
        audio: first_of_type(tags, flv::AUDIO_TAG),
    }
}

/// The headers that a recording keeps for its next file, after a packet.
pub open spec fn with_headers_of(v: RecorderView, p: types::PacketView) -> RecorderView {
    match p {
        types::PacketView::SequenceHeader(b) => if b.len() > 0 && b[0] == flv::VIDEO_TAG {
            RecorderView { video: Some(b), ..v }
        } else if b.len() > 0 && b[0] == flv::AUDIO_TAG {
            RecorderView { audio: Some(b), ..v }
        } else {
            v
        },
        _ => v,
    }
}

/// What a packet means for a recording: a keyframe starts a new file once the file has reached
/// its limit; anything else that is not empty goes at the end of the file.
pub open spec fn step_for(v: RecorderView, p: types::PacketView) -> StepView {
    let b = p.bytes();
    if b.len() == 0 {
        StepView::Skip
    } else if v.file.len() >= v.config.max_size_bytes && flv::is_keyframe(b) {
        StepView::Rotate(b)
    } else {
        StepView::Append(b)
    }
}

/// A recording after a packet; where a new file is due, that comes with `rotated`.
pub open spec fn after_packet(v: RecorderView, p: types::PacketView) -> RecorderView {
    let w = with_headers_of(v, p);
    match step_for(v, p) {
        StepView::Append(b) => RecorderView { file: w.file + b, ..w },
        _ => w,
    }
}

/// A recording whose next file has started.
pub open spec fn rotated(v: RecorderView, stamp: Seq<char>, data: Seq<u8>) -> RecorderView {
    let part = match v.config.overflow_action {
        RecordOverflowAction::Delete => v.part,
        RecordOverflowAction::Archive => v.part + 1,
    };
    RecorderView {
        path: match v.config.overflow_action {
            RecordOverflowAction::Delete => plain_path(v.stream_key, stamp),
            RecordOverflowAction::Archive => part_path(v.stream_key, stamp, part),
        },
        part,
        file: preamble(v.video, v.audio) + data,
        ..v
    }
}

/// Whether the size of the file can still be counted after a packet.
pub open spec fn has_room(v: RecorderView, p: types::PacketView) -> bool {
    step_for(v, p) is Append ==> v.file.len() + p.bytes().len() <= u64::MAX
}

/// Whether the next part can still be counted.
pub open spec fn can_rotate(v: RecorderView) -> bool {
    v.config.overflow_action is Archive ==> v.part < i32::MAX
}

/// Whatever packets come, in whichever way files follow each other, the file that is written
/// starts with the file header.
pub proof fn law_file_starts_with_header(
    v: RecorderView,
    p: types::PacketView,
    stamp: Seq<char>,
    data: Seq<u8>,
)
    requires
        flv::file_header().is_prefix_of(v.file),
    ensures
        flv::file_header().is_prefix_of(after_packet(v, p).file),
        flv::file_header().is_prefix_of(rotated(v, stamp, data).file),
{
    let h = flv::file_header();
    assert(v.file =~= h + v.file.skip(h.len() as int));
    let f = after_packet(v, p).file;
    assert(f.subrange(0, h.len() as int) =~= h);
    let g = rotated(v, stamp, data).file;
    assert(g.subrange(0, h.len() as int) =~= h);
}

/// A recording starts with the file header.
pub proof fn law_first_file_starts_with_header(
    key: Seq<char>,
    config: RecordConfig,
    stamp: Seq<char>,
    tags: Seq<Seq<u8>>,
)
    ensures
        flv::file_header().is_prefix_of(started(key, config, stamp, tags).file),
{
    let h = flv::file_header();
    let f = started(key, config, stamp, tags).file;
    assert(f.subrange(0, h.len() as int) =~= h);
}

/// Once a file has reached its limit, no keyframe goes into it any more.
pub proof fn law_full_file_takes_no_keyframe(v: RecorderView, p: types::PacketView)
    requires
        v.file.len() >= v.config.max_size_bytes,
        flv::is_keyframe(p.bytes()),
    ensures
        step_for(v, p) == StepView::Rotate(p.bytes()),
        after_packet(v, p).file == v.file,
{
}

/// A file is left for a new one only where it has reached its limit, and what the new one then
/// holds after its headers is a keyframe.
pub proof fn law_new_file_needs_full_file_and_keyframe(v: RecorderView, p: types::PacketView)
    requires
        step_for(v, p) is Rotate,
    ensures
        v.file.len() >= v.config.max_size_bytes,
        flv::is_keyframe(step_for(v, p)->Rotate_0),
{
}

/// What becomes of older files when a new one starts.
#[derive(Clone, Copy, Debug, PartialEq, Eq, Structural)]
pub enum Cleanup {
    /// The file that was written goes.
    RemoveCurrent,
    /// The oldest recordings of the stream go, as far as there are too many.
    PruneOldest,
    /// They all stay.
    KeepAll,
}

/// What becomes of older files when a new one starts.
pub open spec fn cleanup_for(config: RecordConfig) -> Cleanup {
    match config.overflow_action {
        RecordOverflowAction::Delete => Cleanup::RemoveCurrent,
        RecordOverflowAction::Archive => if config.max_archived_files > 0 {
            Cleanup::PruneOldest
        } else {
            Cleanup::KeepAll
        },
    }
}

/// A recording with all the files that it was written to.
pub struct Tape {
    pub recorder: RecorderView,
    /// What the file that is being written starts with.
    pub opening: Seq<u8>,
    /// What each file holds after what it starts with, in the order of the files.
    pub bodies: Seq<Seq<u8>>,
}

/// A tape after a packet; a new file, where one is due, is named by the stamp.
pub open spec fn tape_after(t: Tape, p: types::PacketView, stamp: Seq<char>) -> Tape {
    let w = after_packet(t.recorder, p);
    match step_for(t.recorder, p) {
        StepView::Skip => Tape { recorder: w, ..t },
        StepView::Append(b) => Tape {
            recorder: w,
            bodies: t.bodies.drop_last().push(t.bodies.last() + b),
            ..t
        },
        StepView::Rotate(b) => Tape {
            recorder: rotated(w, stamp, b),
            opening: preamble(w.video, w.audio),
            bodies: t.bodies.push(b),
        },
    }
}

/// A tape after some packets, each with the stamp of its moment.
pub open spec fn tape_after_all(t: Tape, ps: Seq<(types::PacketView, Seq<char>)>) -> Tape
    decreases ps.len(),
{
    if ps.len() == 0 {
        t
    } else {
        tape_after(tape_after_all(t, ps.drop_last()), ps.last().0, ps.last().1)
    }
}

/// The bytes of some packets, in their order.
pub open spec fn bytes_of_all(ps: Seq<(types::PacketView, Seq<char>)>) -> Seq<u8> {
    ps.map_values(|p: (types::PacketView, Seq<char>)| p.0.bytes()).flatten()
}

/// Whether a keyframe stands at the start of some bytes.
pub open spec fn opens_with_keyframe(b: Seq<u8>) -> bool {
    exists|k: Seq<u8>| flv::is_keyframe(k) && #[trigger] k.is_prefix_of(b)
}

/// What holds of a tape: the file that is being written holds what it starts with and the last of
/// the bodies, and each body but the first starts with a keyframe.
pub open spec fn tape_ok(t: Tape) -> bool {
    &&& t.bodies.len() > 0
    &&& t.recorder.file == t.opening + t.bodies.last()
    &&& forall|i: int| 1 <= i < t.bodies.len() ==> opens_with_keyframe(#[trigger] t.bodies[i])
}

proof fn lemma_one_packet_is_recorded(t: Tape, p: types::PacketView, stamp: Seq<char>)
    requires
        tape_ok(t),
    ensures
        tape_ok(tape_after(t, p, stamp)),
        tape_after(t, p, stamp).bodies.flatten() == t.bodies.flatten() + p.bytes(),
{
    let u = tape_after(t, p, stamp);
    let b = p.bytes();
    let before = t.bodies.drop_last();
    assert(t.bodies =~= before.push(t.bodies.last()));
    before.lemma_flatten_push(t.bodies.last());
    match step_for(t.recorder, p) {
        StepView::Skip => {
            assert(t.bodies.flatten() + b =~= t.bodies.flatten());
        },
        StepView::Append(_) => {
            before.lemma_flatten_push(t.bodies.last() + b);
            assert(u.bodies.flatten() =~= t.bodies.flatten() + b);
            assert(u.recorder.file =~= u.opening + u.bodies.last());
            assert forall|i: int| 1 <= i < u.bodies.len() implies opens_with_keyframe(
                #[trigger] u.bodies[i],
            ) by {
                assert(opens_with_keyframe(t.bodies[i]));
                if i == t.bodies.len() - 1 {
                    let k = choose|k: Seq<u8>|
                        flv::is_keyframe(k) && #[trigger] k.is_prefix_of(t.bodies[i]);
                    assert(u.bodies[i].subrange(0, k.len() as int) =~= t.bodies[i].subrange(
                        0,
                        k.len() as int,
                    ));
                    assert(k.is_prefix_of(u.bodies[i]));
                }
            }
        },
        StepView::Rotate(_) => {
            t.bodies.lemma_flatten_push(b);
            assert forall|i: int| 1 <= i < u.bodies.len() implies opens_with_keyframe(
                #[trigger] u.bodies[i],
            ) by {
                if i == t.bodies.len() {
                    assert(b.subrange(0, b.len() as int) =~= b);
                    assert(b.is_prefix_of(u.bodies[i]));
                } else {
                    assert(opens_with_keyframe(t.bodies[i]));
                }
            }
        },
    }
}

/// However many packets come and however many files they fill, the files hold, after what each
/// starts with, the bytes of all packets in their order, none of them lost or written twice; and
/// each file but the first goes on with a keyframe.
pub proof fn law_nothing_is_lost(t: Tape, ps: Seq<(types::PacketView, Seq<char>)>)
    requires
        tape_ok(t),
    ensures
        tape_ok(tape_after_all(t, ps)),
        tape_after_all(t, ps).bodies.flatten() == t.bodies.flatten() + bytes_of_all(ps),
    decreases ps.len(),
{
    let bytes = ps.map_values(|p: (types::PacketView, Seq<char>)| p.0.bytes());
    if ps.len() == 0 {
        assert(bytes =~= Seq::empty());
        assert(bytes_of_all(ps) =~= Seq::empty());
        assert(t.bodies.flatten() + bytes_of_all(ps) =~= t.bodies.flatten());
    } else {
        let before = ps.drop_last();
        law_nothing_is_lost(t, before);
        lemma_one_packet_is_recorded(tape_after_all(t, before), ps.last().0, ps.last().1);
        let old_bytes = before.map_values(|p: (types::PacketView, Seq<char>)| p.0.bytes());
        assert(bytes =~= old_bytes.push(ps.last().0.bytes()));
        old_bytes.lemma_flatten_push(ps.last().0.bytes());
        assert(tape_after_all(t, ps).bodies.flatten() =~= t.bodies.flatten() + bytes_of_all(ps));
    }
}

/// The files of a run that are there after some packets, each with what it holds: a packet changes
/// the last of them, or starts a new one, where the last goes if that is what becomes of it.
pub open spec fn files_after(t: Tape, ps: Seq<(types::PacketView, Seq<char>)>) -> Seq<Seq<u8>>
    decreases ps.len(),
{
    if ps.len() == 0 {
        seq![t.recorder.file]
    } else {
        let before = ps.drop_last();
        let u = tape_after_all(t, before);
        let files = files_after(t, before);
        let kept = if step_for(u.recorder, ps.last().0) is Rotate && cleanup_for(u.recorder.config)
            != Cleanup::RemoveCurrent {
            files
        } else {
            files.drop_last()
        };
        kept.push(tape_after_all(t, ps).recorder.file)
    }
}

/// The files of a run that were left for a new one, each with what becomes of it.
pub open spec fn files_left_behind(t: Tape, ps: Seq<(types::PacketView, Seq<char>)>) -> Seq<
    (Seq<u8>, Cleanup),
>
    decreases ps.len(),
{
    if ps.len() == 0 {
        Seq::empty()
    } else {
        let u = tape_after_all(t, ps.drop_last());
        let behind = files_left_behind(t, ps.drop_last());
        if step_for(u.recorder, ps.last().0) is Rotate {
            behind.push((u.recorder.file, cleanup_for(u.recorder.config)))
        } else {
            behind
        }
    }
}

/// How a recording is made stays the same, and each file but the last was left for a new one.
proof fn lemma_run(t: Tape, ps: Seq<(types::PacketView, Seq<char>)>)
    requires
        tape_ok(t),
    ensures
        tape_after_all(t, ps).recorder.config == t.recorder.config,
        tape_after_all(t, ps).bodies.len() == t.bodies.len() + files_left_behind(t, ps).len(),
        tape_ok(tape_after_all(t, ps)),
    decreases ps.len(),
{
    if ps.len() > 0 {
        lemma_run(t, ps.drop_last());
        lemma_one_packet_is_recorded(
            tape_after_all(t, ps.drop_last()),
            ps.last().0,
            ps.last().1,
        );
    }
}

/// Where full files are deleted, every file of a run but the last was left when it was full and a
/// keyframe came, and was then removed: whatever packets come, exactly the last is there.
pub proof fn law_deleting_leaves_one_file(t: Tape, ps: Seq<(types::PacketView, Seq<char>)>)
    requires
        tape_ok(t),
        t.recorder.config.overflow_action == RecordOverflowAction::Delete,
    ensures
        files_after(t, ps) == seq![tape_after_all(t, ps).recorder.file],
        tape_after_all(t, ps).bodies.len() == t.bodies.len() + files_left_behind(t, ps).len(),
        forall|i: int|
            0 <= i < files_left_behind(t, ps).len() ==> {
                let (file, cleanup) = #[trigger] files_left_behind(t, ps)[i];
                file.len() >= t.recorder.config.max_size_bytes && cleanup == Cleanup::RemoveCurrent
            },
    decreases ps.len(),
{
    lemma_run(t, ps);
    if ps.len() > 0 {
        lemma_run(t, ps.drop_last());
        law_deleting_leaves_one_file(t, ps.drop_last());
        assert(files_after(t, ps) =~= seq![tape_after_all(t, ps).recorder.file]);
    }
}

/// Where full files are kept and there is no limit, every file of a run is there, those that were
/// left as they were left.
pub proof fn law_archiving_leaves_all_files(t: Tape, ps: Seq<(types::PacketView, Seq<char>)>)
    requires
        tape_ok(t),
        t.recorder.config.overflow_action == RecordOverflowAction::Archive,
        t.recorder.config.max_archived_files == 0,
    ensures
        files_after(t, ps) == files_left_behind(t, ps).map_values(
            |f: (Seq<u8>, Cleanup)| f.0,
        ).push(tape_after_all(t, ps).recorder.file),
        forall|i: int|
            0 <= i < files_left_behind(t, ps).len() ==> (#[trigger] files_left_behind(t, ps)[i]).1
                == Cleanup::KeepAll,
    decreases ps.len(),
{
    if ps.len() > 0 {
        lemma_run(t, ps.drop_last());
        law_archiving_leaves_all_files(t, ps.drop_last());
    }
    assert(files_after(t, ps) =~= files_left_behind(t, ps).map_values(
        |f: (Seq<u8>, Cleanup)| f.0,
    ).push(tape_after_all(t, ps).recorder.file));
}

impl View for Recorder {
    type V = RecorderView;

    closed spec fn view(&self) -> RecorderView {
        RecorderView {
            stream_key: self.stream_key@,
            config: self.config,
            path: self.file_path@,
            part: self.part_num as int,
            file: self.written@,
            video: outside::opt_bytes(self.video_seq),
            audio: outside::opt_bytes(self.audio_seq),
        }
    }
}

/// The first of some tags that is of a type.
fn find_first(tags: &Vec<Bytes>, kind: u8) -> (r: Option<Bytes>)
    ensures
        outside::opt_bytes(r) == first_of_type(outside::all_bytes(tags@), kind),
{
    let ghost all = outside::all_bytes(tags@);
    let mut i: usize = 0;
    assert(all.skip(0) =~= all);
    while i < tags.len()
        invariant
            i <= tags@.len(),
            all == outside::all_bytes(tags@),
            first_of_type(all.skip(i as int), kind) == first_of_type(all, kind),
        decreases tags@.len() - i,
    {
        assert(all.skip(i as int)[0] == outside::bytes_seq(tags@[i as int]));
        assert(all.skip(i as int).skip(1) =~= all.skip(i + 1));
        if !tags[i].is_empty() && tags[i][0] == kind {
            return Some(tags[i].clone());
        }
        i = i + 1;
    }
    None
}

/// The file of a recording that starts at a moment.
pub fn plain_recording_path(key: &str, stamp: &str) -> (r: String)
    ensures
        r@ == plain_path(key@, stamp@),
{
    let mut path: String = "recordings/".to_owned();
    path.append(key);
    path.append("_");
    path.append(stamp);
    path.append(".flv");
    proof {
        reveal_strlit("recordings/");
        reveal_strlit("_");
        reveal_strlit(".flv");
        assert(path@ =~= plain_path(key@, stamp@));
    }
    path
}

/// The file of a later part of a recording.
pub fn part_recording_path(key: &str, stamp: &str, part: u32) -> (r: String)
    ensures
        r@ == part_path(key@, stamp@, part as int),
{
    let mut path: String = "recordings/".to_owned();
    path.append(key);
    path.append("_");
    path.append(stamp);
    path.append("_part");
    path.append(text::decimal_text(part).as_str());
    path.append(".flv");
    proof {
        reveal_strlit("recordings/");
        reveal_strlit("_");
        reveal_strlit("_part");
        reveal_strlit(".flv");
        assert(path@ =~= part_path(key@, stamp@, part as int));
    }
    path
}

/// The text that stands for a moment in the name of a file.
pub open spec fn stamp_of(secs: i64, nanos: u32) -> Option<Seq<char>> {
    outside::utc_text(secs, nanos, outside::stamp_format())
}

/// The text that stands for a moment in the name of a file: its date and time in UTC, as far as
/// there is a date for it.
pub fn file_stamp(at: Timestamp) -> (r: Option<String>)
    ensures
        types::opt_text(r) == stamp_of(at.secs, at.nanos),
        outside::four_digit_year(at.secs, at.nanos) ==> r is Some && outside::stamp_shape(r->0@),
{
    proof {
        reveal_strlit("%Y%m%d_%H%M%S");
        assert("%Y%m%d_%H%M%S"@ =~= outside::stamp_format());
    }
    outside::format_utc(at, "%Y%m%d_%H%M%S")
}

/// The text that stands for the current moment in the name of a file.
fn current_stamp() -> (r: String)
    ensures
        exists|secs: i64, nanos: u32| #[trigger]
            outside::clock_may_give(secs, nanos) && stamp_of(secs, nanos) == Some(r@),
{
    let now: Timestamp = outside::utc_now();
    let stamp = file_stamp(now);
    assert(stamp_of(now.secs, now.nanos) is Some);
    stamp.unwrap()
}

impl Recorder {
    /// The size that is counted is that of what goes into the file, which starts with the file
    /// header, and parts are counted from one.
    pub closed spec fn wf(&self) -> bool {
        &&& self.current_size == self.written@.len()
        &&& flv::file_header().is_prefix_of(self.written@)
        &&& self.part_num >= 1
    }

    /// Starts a recording at the moment that a stamp names, with the tags that one who joins is
    /// sent first. The bytes are what the file starts with.
    pub fn start_at(
        stream_key: String,
        config: RecordConfig,
        stamp: &str,
        init_tags: &Vec<Bytes>,
    ) -> (r: (Recorder, Vec<u8>))
        ensures
            r.0.wf(),
            r.0@ == started(stream_key@, config, stamp@, outside::all_bytes(init_tags@)),
            r.1@ == r.0@.file,
    {
        let opening: Vec<u8> = flv::with_file_header(init_tags);
        let file_path = plain_recording_path(stream_key.as_str(), stamp);
        let video_seq = find_first(init_tags, flv::VIDEO_TAG);
        let audio_seq = find_first(init_tags, flv::AUDIO_TAG);
        let recorder = Recorder {
            stream_key,
            config,
            file_path,
            part_num: 1,
            current_size: opening.len() as u64,
            video_seq,
            audio_seq,
            written: Ghost(opening@),
        };
        proof {
            let h = flv::file_header();
            assert(opening@.subrange(0, h.len() as int) =~= h);
        }
        (recorder, opening)
    }

    /// Starts a recording now.
    pub fn start(stream_key: String, config: RecordConfig, init_tags: &Vec<Bytes>) -> (r: (
        Recorder,
        Vec<u8>,
    ))
        ensures
            r.0.wf(),
            exists|secs: i64, nanos: u32|
                {
                    &&& #[trigger] outside::clock_may_give(secs, nanos)
                    &&& stamp_of(secs, nanos) is Some
                    &&& r.0@ == started(
                        stream_key@,
                        config,
                        stamp_of(secs, nanos)->0,
                        outside::all_bytes(init_tags@),
                    )
                },
            r.1@ == r.0@.file,
    {
        let stamp: String = current_stamp();
        Recorder::start_at(stream_key, config, stamp.as_str(), init_tags)
    }

    /// The file that is being written.
    pub fn path(&self) -> (r: &str)
        ensures
            r@ == self@.path,
    {
        self.file_path.as_str()
    }

    /// How the recording is made.
    pub fn config(&self) -> (r: RecordConfig)
        ensures
            r == self@.config,
    {
        self.config
    }

    /// The number of parts so far.
    pub fn part(&self) -> (r: i32)
        ensures
            r == self@.part,
    {
        self.part_num
    }

    /// The size of the file that is being written.
    pub fn size(&self) -> (r: u64)
        requires
            self.wf(),
        ensures
            r == self@.file.len(),
    {
        self.current_size
    }

    /// What becomes of older files when a new one starts.
    pub fn cleanup(&self) -> (r: Cleanup)
        ensures
            r == cleanup_for(self@.config),
    {
        match self.config.overflow_action {
            RecordOverflowAction::Delete => Cleanup::RemoveCurrent,
            RecordOverflowAction::Archive => if self.config.max_archived_files > 0 {
                Cleanup::PruneOldest
            } else {
                Cleanup::KeepAll
            },
        }
    }

    /// Whether the next part can still be counted.
    pub fn can_start_next_file(&self) -> (r: bool)
        ensures
            r == can_rotate(self@),
    {
        match self.config.overflow_action {
            RecordOverflowAction::Delete => true,
            RecordOverflowAction::Archive => self.part_num < i32::MAX,
        }
    }

    /// Whether the size of the file can still be counted after a packet.
    pub fn can_take(&self, packet: &MediaPacket) -> (r: bool)
        requires
            self.wf(),
        ensures
            r == has_room(self@, packet@),
    {
        let data: Bytes = packet.clone().into_bytes();
        if data.is_empty() || (self.current_size >= self.config.max_size_bytes && flv::keyframe(
            &data,
        )) {
            return true;
        }
        self.current_size.checked_add(data.len() as u64).is_some()
    }

    /// Decides what a packet means for the recording.
    pub fn on_packet(&mut self, packet: MediaPacket) -> (r: RecordStep)
        requires
            old(self).wf(),
            has_room(old(self)@, packet@),
        ensures
            final(self).wf(),
            final(self)@ == after_packet(old(self)@, packet@),
            r@ == step_for(old(self)@, packet@),
    {
        if let MediaPacket::SequenceHeader(header) = &packet {
            if !header.is_empty() && header[0] == flv::VIDEO_TAG {
                self.video_seq = Some(header.clone());
            } else if !header.is_empty() && header[0] == flv::AUDIO_TAG {
                self.audio_seq = Some(header.clone());
            }
        }
        let data: Bytes = packet.into_bytes();
        if data.is_empty() {
            return RecordStep::Skip;
        }
        if self.current_size >= self.config.max_size_bytes && flv::keyframe(&data) {
            return RecordStep::Rotate(data);
        }
        self.current_size = self.current_size + data.len() as u64;
        self.written = Ghost(self.written@ + outside::bytes_seq(data));
        proof {
            let h = flv::file_header();
            assert(self.written@.subrange(0, h.len() as int) =~= old(self).written@.subrange(
                0,
                h.len() as int,
            ));
        }
        RecordStep::Append(data)
    }

    /// Starts the next file at the moment that a stamp names. The bytes are what it starts with.
    pub fn rotate_at(&mut self, stamp: &str, data: &Bytes) -> (r: Vec<u8>)
        requires
            old(self).wf(),
            can_rotate(old(self)@),
        ensures
            final(self).wf(),
            final(self)@ == rotated(old(self)@, stamp@, outside::bytes_seq(*data)),
            r@ == final(self)@.file,
    {
        match self.config.overflow_action {
            RecordOverflowAction::Delete => {
                self.file_path = plain_recording_path(self.stream_key.as_str(), stamp);
            },
            RecordOverflowAction::Archive => {
                self.part_num = self.part_num + 1;
                self.file_path = part_recording_path(
                    self.stream_key.as_str(),
                    stamp,
                    self.part_num as u32,
                );
            },
        }
        let mut opening: Vec<u8> = flv::file_header_bytes();
        if let Some(header) = &self.video_seq {
            opening.extend_from_slice(header);
        }
        if let Some(header) = &self.audio_seq {
            opening.extend_from_slice(header);
        }
        opening.extend_from_slice(data);
        proof {
            assert(opening@ =~= rotated(old(self)@, stamp@, outside::bytes_seq(*data)).file);
            let h = flv::file_header();
            assert(opening@.subrange(0, h.len() as int) =~= h);
        }
        self.current_size = opening.len() as u64;
        self.written = Ghost(opening@);
        opening
    }

    /// Starts the next file now.
    pub fn rotate(&mut self, data: &Bytes) -> (r: Vec<u8>)
        requires
            old(self).wf(),
            can_rotate(old(self)@),
        ensures
            final(self).wf(),
            exists|secs: i64, nanos: u32|
                {
                    &&& #[trigger] outside::clock_may_give(secs, nanos)
                    &&& stamp_of(secs, nanos) is Some
                    &&& final(self)@ == rotated(
                        old(self)@,
                        stamp_of(secs, nanos)->0,
                        outside::bytes_seq(*data),
                    )
                },
            r@ == final(self)@.file,
    {
        let stamp: String = current_stamp();
        self.rotate_at(stamp.as_str(), data)
    }
}

/// A file in the directory of recordings, with the moment of its last change in nanoseconds.
pub struct ArchivedFile {
    pub name: String,
    pub modified: i128,
}

/// Whether the file at one position is older than that at another; of files that were changed at
/// the same moment, the one that comes first.
pub open spec fn older(files: Seq<ArchivedFile>, a: int, b: int) -> bool {
    files[a].modified < files[b].modified || (files[a].modified == files[b].modified && a < b)
}

/// The positions of the files that count as recordings of a stream.
pub open spec fn recordings_of(key: Seq<char>, files: Seq<ArchivedFile>) -> Set<int> {
    Set::new(|i: int| 0 <= i < files.len() && is_recording_of(key, files[i].name@))
}

/// How many of a number of recordings go before a new one starts: as many as are more than one
/// below the limit. A limit of zero is none.
pub open spec fn surplus(count: nat, limit: usize) -> nat {
    if limit > 0 && count >= limit {
        (count - limit + 1) as nat
    } else {
        0
    }
}

/// Whether `picked` are the positions of the oldest recordings of a stream, as many as are to go,
/// oldest first.
pub open spec fn is_prune_plan(
    key: Seq<char>,
    limit: usize,
    files: Seq<ArchivedFile>,
    picked: Seq<usize>,
) -> bool {
    let all = recordings_of(key, files);
    &&& picked.len() == surplus(all.len(), limit)
    &&& forall|i: int| 0 <= i < picked.len() ==> all.contains(#[trigger] picked[i] as int)
    &&& forall|i: int, j: int|
        0 <= i < j < picked.len() ==> older(files, #[trigger] picked[i] as int, #[trigger] picked[j] as int)
    &&& forall|i: int, c: int|
        0 <= i < picked.len() && #[trigger] all.contains(c) && !picked.contains(c as usize)
            ==> older(files, #[trigger] picked[i] as int, c)
}

/// The recordings of a stream that are left when the picked ones are gone.
pub open spec fn left_of(
    key: Seq<char>,
    files: Seq<ArchivedFile>,
    picked: Seq<usize>,
) -> Set<int> {
    recordings_of(key, files).filter(|i: int| !picked.contains(i as usize))
}

/// The recordings of a stream are finitely many.
proof fn lemma_recordings_finite(key: Seq<char>, files: Seq<ArchivedFile>)
    ensures
        recordings_of(key, files).finite(),
{
    let all = Set::<int>::range(0, files.len() as int);
    vstd::set_lib::range_set_properties::<int>(0, files.len() as int);
    assert(recordings_of(key, files).subset_of(all));
    vstd::set_lib::lemma_set_subset_finite(all, recordings_of(key, files));
}

/// With a limit, the recordings of a stream that are left, together with the one that is about
/// to start, are no more than the limit.
pub proof fn law_archive_limit(
    key: Seq<char>,
    limit: usize,
    files: Seq<ArchivedFile>,
    picked: Seq<usize>,
)
    requires
        limit > 0,
        files.len() <= usize::MAX,
        is_prune_plan(key, limit, files, picked),
    ensures
        left_of(key, files, picked).len() + 1 <= limit,
{
    let all = recordings_of(key, files);
    lemma_recordings_finite(key, files);
    let places = picked.map_values(|x: usize| x as int);
    assert forall|j: int, k: int|
        0 <= j < places.len() && 0 <= k < places.len() && j != k implies places[j] != places[k] by {
        if j < k {
            assert(older(files, picked[j] as int, picked[k] as int));
        } else {
            assert(older(files, picked[k] as int, picked[j] as int));
        }
    }
    places.unique_seq_to_set();
    let gone = places.to_set();
    assert forall|c: int| gone.contains(c) implies all.contains(c) by {
        let j = places.index_of(c);
        assert(all.contains(picked[j] as int));
    }
    assert forall|c: int| all.contains(c) implies (picked.contains(c as usize) <==> gone.contains(c))
        by {
        if picked.contains(c as usize) {
            let j = picked.index_of(c as usize);
            assert(places[j] == c);
        }
        if gone.contains(c) {
            let j = places.index_of(c);
            assert(picked[j] == c as usize);
        }
    }
    assert(left_of(key, files, picked) =~= all.difference(gone));
    vstd::set_lib::lemma_set_subset_finite(all, gone);
    vstd::set_lib::lemma_set_disjoint_lens(left_of(key, files, picked), gone);
    assert(left_of(key, files, picked) + gone =~= all);
}

/// The limit is kept for each stream: what goes for one stream is never a recording of another.
pub proof fn law_other_streams_are_spared(
    key: Seq<char>,
    limit: usize,
    files: Seq<ArchivedFile>,
    picked: Seq<usize>,
    other: Seq<char>,
    i: int,
)
    requires
        is_prune_plan(key, limit, files, picked),
        0 <= i < picked.len(),
        other != key,
    ensures
        !is_recording_of(other, files[picked[i] as int].name@),
{
    assert(recordings_of(key, files).contains(picked[i] as int));
    if is_recording_of(other, files[picked[i] as int].name@) {
        law_recordings_stay_apart(key, other, files[picked[i] as int].name@);
    }
}

/// Without a limit, no recording goes.
pub proof fn law_no_limit(key: Seq<char>, files: Seq<ArchivedFile>, picked: Seq<usize>)
    requires
        is_prune_plan(key, 0, files, picked),
    ensures
        picked.len() == 0,
{
}

/// Whether the characters between two positions are decimal digits.
fn digits_between(s: &Vec<char>, from: usize, to: usize) -> (r: bool)
    requires
        from <= to <= s@.len(),
    ensures
        r == forall|i: int| from <= i < to ==> text::is_digit(#[trigger] s@[i]),
{
    let mut i: usize = from;
    while i < to
        invariant
            from <= i <= to <= s@.len(),
            forall|j: int| from <= j < i ==> text::is_digit(#[trigger] s@[j]),
        decreases to - i,
    {
        if s[i] < '0' || s[i] > '9' {
            assert(!text::is_digit(s@[i as int]));
            return false;
        }
        i = i + 1;
    }
    true
}

/// Whether what stands in a name from a position on is a stamp, for a later part its number, and the
/// extension.
fn stamped_from(s: &Vec<char>, a: usize) -> (r: bool)
    requires
        a <= s@.len(),
    ensures
        r == stamped(s@.skip(a as int)),
{
    let n: usize = s.len();
    let ghost rest = s@.skip(a as int);
    if n - a < 19 {
        return false;
    }
    let e: usize = n - 4;
    let ghost stamp = rest.take(15);
    let ghost part = rest.subrange(15, rest.len() - 4);
    let ghost tail = rest.skip(rest.len() - 4);
    proof {
        assert forall|i: int| 0 <= i < 15 implies stamp[i] == s@[a + i] by {}
        assert forall|i: int| 0 <= i < part.len() implies part[i] == s@[a + 15 + i] by {}
        assert(tail[0] == s@[e as int] && tail[1] == s@[e + 1] && tail[2] == s@[e + 2] && tail[3]
            == s@[e + 3]);
    }
    if s[e] != '.' || s[e + 1] != 'f' || s[e + 2] != 'l' || s[e + 3] != 'v' {
        assert(tail != extension());
        return false;
    }
    assert(tail =~= extension());
    if !digits_between(s, a, a + 8) {
        proof {
            let i = choose|i: int| a <= i < a + 8 && !text::is_digit(#[trigger] s@[i]);
            assert(!text::is_digit(stamp[i - a]));
        }
        return false;
    }
    if s[a + 8] != '_' {
        return false;
    }
    if !digits_between(s, a + 9, a + 15) {
        proof {
            let i = choose|i: int| a + 9 <= i < a + 15 && !text::is_digit(#[trigger] s@[i]);
            assert(!text::is_digit(stamp[i - a]));
        }
        return false;
    }
    assert(outside::stamp_shape(stamp)) by {
        assert forall|i: int| 0 <= i < 15 && i != 8 implies text::is_digit(#[trigger] stamp[i]) by {
            assert(text::is_digit(s@[a + i]));
        }
    }
    let q: usize = a + 15;
    if q == e {
        return true;
    }
    if e - q <= 5 {
        return false;
    }
    let ghost lead = part.take(5);
    if s[q] != '_' || s[q + 1] != 'p' || s[q + 2] != 'a' || s[q + 3] != 'r' || s[q + 4] != 't' {
        proof {
            assert(lead[0] == s@[q as int] && lead[1] == s@[q + 1] && lead[2] == s@[q + 2]
                && lead[3] == s@[q + 3] && lead[4] == s@[q + 4]);
            assert(lead != seq!['_', 'p', 'a', 'r', 't']);
        }
        return false;
    }
    assert(lead =~= seq!['_', 'p', 'a', 'r', 't']);
    let digits: bool = digits_between(s, q + 5, e);
    proof {
        if digits {
            assert forall|i: int| 5 <= i < part.len() implies text::is_digit(#[trigger] part[i]) by {
                assert(text::is_digit(s@[q + i]));
            }
        } else {
            let i = choose|i: int| q + 5 <= i < e && !text::is_digit(#[trigger] s@[i]);
            assert(!text::is_digit(part[i - q]));
        }
    }
    digits
}

impl Recorder {
    /// Whether a file in the directory counts as a recording of this stream.
    fn owns(&self, name: &str) -> (r: bool)
        ensures
            r == is_recording_of(self@.stream_key, name@),
    {
        let mut lead: String = self.stream_key.clone();
        lead.push('_');
        if !text::starts_with(name, lead.as_str()) {
            return false;
        }
        let characters: Vec<char> = text::chars_of(name);
        stamped_from(&characters, text::chars_of(lead.as_str()).len())
    }

    /// The files that go before a new one starts: the oldest recordings of the stream, oldest
    /// first, by their positions among the files in the directory.
    pub fn prune_plan(&self, files: &Vec<ArchivedFile>) -> (r: Vec<usize>)
        ensures
            is_prune_plan(self@.stream_key, self@.config.max_archived_files, files@, r@),
    {
        let ghost key = self@.stream_key;
        let mut sorted: Vec<usize> = Vec::new();
        let mut i: usize = 0;
        while i < files.len()
            invariant
                key == self@.stream_key,
                i <= files@.len(),
                forall|j: int| 0 <= j < sorted@.len() ==> #[trigger] sorted@[j] < i,
                forall|j: int, k: int|
                    0 <= j < k < sorted@.len() ==> older(files@, #[trigger] sorted@[j] as int, #[trigger] sorted@[k] as int),
                forall|c: int|
                    0 <= c < i ==> (is_recording_of(key, #[trigger] files@[c].name@) <==> sorted@.contains(c as usize)),
            decreases files@.len() - i,
        {
            if self.owns(files[i].name.as_str()) {
                let mut at: usize = sorted.len();
                while at > 0 && files[i].modified < files[sorted[at - 1]].modified
                    invariant
                        i < files@.len(),
                        at <= sorted@.len(),
                        forall|j: int| 0 <= j < sorted@.len() ==> #[trigger] sorted@[j] < i,
                        forall|j: int|
                            at <= j < sorted@.len() ==> older(files@, i as int, #[trigger] sorted@[j] as int),
                    decreases at,
                {
                    at = at - 1;
                }
                let ghost before = sorted@;
                sorted.insert(at, i);
                proof {
                    assert(sorted@ == before.insert(at as int, i));
                    assert(sorted@[at as int] == i);
                    assert forall|c: int| 0 <= c < i + 1 implies (is_recording_of(
                        key,
                        #[trigger] files@[c].name@,
                    ) <==> sorted@.contains(c as usize)) by {
                        if before.contains(c as usize) {
                            let j = before.index_of(c as usize);
                            assert(sorted@[if j < at { j } else { j + 1 }] == c);
                        }
                        if sorted@.contains(c as usize) && c < i {
                            let j = sorted@.index_of(c as usize);
                            assert(before[if j < at { j } else { j - 1 }] == c);
                        }
                    }
                }
            }
            i = i + 1;
        }
        let ghost all = recordings_of(key, files@);
        proof {
            let places = sorted@.map_values(|x: usize| x as int);
            assert(places.no_duplicates()) by {
                assert forall|j: int, k: int|
                    0 <= j < places.len() && 0 <= k < places.len() && j != k implies places[j]
                    != places[k] by {
                    if j < k {
                        assert(older(files@, sorted@[j] as int, sorted@[k] as int));
                    } else {
                        assert(older(files@, sorted@[k] as int, sorted@[j] as int));
                    }
                }
            }
            places.unique_seq_to_set();
            assert forall|c: int| all.contains(c) == places.to_set().contains(c) by {
                if all.contains(c) {
                    assert(is_recording_of(key, files@[c].name@));
                    let j = sorted@.index_of(c as usize);
                    assert(places[j] == c);
                }
                if places.contains(c) {
                    let j = places.index_of(c);
                    assert(sorted@[j] == c);
                    assert(sorted@.contains(c as usize));
                    assert(is_recording_of(key, files@[c].name@));
                }
            }
            assert(all =~= places.to_set());
        }
        let limit: usize = self.config.max_archived_files;
        if limit == 0 || sorted.len() < limit {
            return Vec::new();
        }
        let count: usize = sorted.len() - limit + 1;
        let ghost whole = sorted@;
        sorted.truncate(count);
        proof {
            assert forall|j: int| 0 <= j < sorted@.len() implies all.contains(
                #[trigger] sorted@[j] as int,
            ) by {
                assert(whole.contains(whole[j]));
                assert(is_recording_of(key, files@[whole[j] as int].name@));
            }
            assert forall|j: int, c: int|
                0 <= j < sorted@.len() && #[trigger] all.contains(c) && !sorted@.contains(
                    c as usize,
                ) implies older(files@, #[trigger] sorted@[j] as int, c) by {
                assert(is_recording_of(key, files@[c].name@));
                let k = whole.index_of(c as usize);
                assert(whole[k] == c);
                if k < sorted@.len() {
                    assert(sorted@[k] == c as usize);
                }
            }
        }
        sorted
    }
}

} // verus!
