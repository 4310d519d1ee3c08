//! What goes into the files of a recording, how they are called and which of them go.
use crate::flv;
use crate::outside;
use crate::recording;
use crate::text;
use crate::types;
use crate::types::{RecordConfig, RecordOverflowAction};
use vstd::prelude::*;

verus! {

/// Whether some bytes are a tag of an AVC keyframe.
pub open spec fn is_avc_keyframe(b: Seq<u8>) -> bool {
    b.len() >= 13 && b[0] == 9 && 0x10 <= b[11] <= 0x1f && b[12] == 1
}

/// What a new file holds: the file header, then the video header where one is known, then the audio
/// header where one is known, then the keyframe. Neither header depends on the other.
pub proof fn law_new_file(
    v: recording::RecorderView,
    stamp: Seq<char>,
    k: Seq<u8>,
    video: Seq<u8>,
    audio: Seq<u8>,
)
    ensures
        ({
            let file = recording::rotated(v, stamp, k).file;
            let h = flv::file_header();
            &&& v.video == Some(video) && v.audio == Some(audio) ==> file == h + video + audio + k
            &&& v.video == Some(video) && v.audio is None ==> file == h + video + k
            &&& v.video is None && v.audio == Some(audio) ==> file == h + audio + k
            &&& v.video is None && v.audio is None ==> file == h + k
        }),
{
    let file = recording::rotated(v, stamp, k).file;
    let h = flv::file_header();
    assert(v.video == Some(video) && v.audio == Some(audio) ==> file =~= h + video + audio + k);
    assert(v.video == Some(video) && v.audio is None ==> file =~= h + video + k);
    assert(v.video is None && v.audio == Some(audio) ==> file =~= h + audio + k);
    assert(v.video is None && v.audio is None ==> file =~= h + k);
}

/// Where a video header is known, a new file starts with the file header and that header, whether an
/// audio header is known or not; where only an audio header is known, with the file header and that.
/// A new file always ends with the keyframe.
pub proof fn law_new_file_can_be_decoded(
    v: recording::RecorderView,
    stamp: Seq<char>,
    k: Seq<u8>,
)
    ensures
        ({
            let file = recording::rotated(v, stamp, k).file;
            &&& v.video matches Some(b) ==> (flv::file_header() + b).is_prefix_of(file)
            &&& v.audio matches Some(b) ==> {
                &&& v.video is None ==> (flv::file_header() + b).is_prefix_of(file)
                &&& v.video matches Some(a) ==> (flv::file_header() + a + b).is_prefix_of(file)
            }
            &&& k.is_suffix_of(file)
        }),
{
    let file = recording::rotated(v, stamp, k).file;
    let h = flv::file_header();
    match (v.video, v.audio) {
        (Some(a), Some(b)) => {
            law_new_file(v, stamp, k, a, b);
            assert(file.subrange(0, (h + a).len() as int) =~= h + a);
            assert(file.subrange(0, (h + a + b).len() as int) =~= h + a + b);
        },
        (Some(a), None) => {
            law_new_file(v, stamp, k, a, a);
            assert(file.subrange(0, (h + a).len() as int) =~= h + a);
        },
        (None, Some(b)) => {
            law_new_file(v, stamp, k, b, b);
            assert(file.subrange(0, (h + b).len() as int) =~= h + b);
        },
        (None, None) => {
            law_new_file(v, stamp, k, k, k);
        },
    }
    assert(file.subrange(file.len() - k.len(), file.len() as int) =~= k);
}

/// A new file is that of the stream at the moment; where full files are kept it is also named by the
/// next number. Nothing else of a recording changes with it.
pub proof fn law_name_of_a_new_file(
    v: recording::RecorderView,
    stamp: Seq<char>,
    k: Seq<u8>,
)
    requires
        v.part >= 0,
    ensures
        ({
            let w = recording::rotated(v, stamp, k);
            let lead = "recordings/"@ + v.stream_key + "_"@ + stamp;
            &&& v.config.overflow_action == RecordOverflowAction::Delete ==> {
                &&& w.path == lead + ".flv"@
                &&& w.part == v.part
            }
            &&& v.config.overflow_action == RecordOverflowAction::Archive ==> {
                &&& w.path == lead + "_part"@ + text::decimal((v.part + 1) as nat) + ".flv"@
                &&& w.part == v.part + 1
            }
            &&& w.stream_key == v.stream_key
            &&& w.config == v.config
            &&& w.video == v.video
            &&& w.audio == v.audio
        }),
{
    reveal_strlit("recordings/");
    reveal_strlit("_");
    reveal_strlit("_part");
    reveal_strlit(".flv");
    let w = recording::rotated(v, stamp, k);
    let lead = "recordings/"@ + v.stream_key + "_"@ + stamp;
    let d = text::decimal((v.part + 1) as nat);
    if v.config.overflow_action == RecordOverflowAction::Delete {
        assert(w.path =~= lead + ".flv"@);
    } else {
        assert(w.path =~= lead + "_part"@ + d + ".flv"@);
    }
}

/// The first of some tags of a type is one of them, starts with that type, and none before it does; there
/// is none only where no tag starts with it.
pub proof fn law_first_of_a_type(tags: Seq<Seq<u8>>, kind: u8)
    ensures
        match recording::first_of_type(tags, kind) {
            Some(t) => exists|i: int|
                {
                    &&& 0 <= i < tags.len()
                    &&& #[trigger] tags[i] == t
                    &&& t.len() > 0
                    &&& t[0] == kind
                    &&& forall|j: int|
                        0 <= j < i ==> !((#[trigger] tags[j]).len() > 0 && tags[j][0] == kind)
                },
            None => forall|j: int|
                0 <= j < tags.len() ==> !((#[trigger] tags[j]).len() > 0 && tags[j][0] == kind),
        },
    decreases tags.len(),
{
    if tags.len() > 0 {
        if tags[0].len() > 0 && tags[0][0] == kind {
            assert(tags[0] == recording::first_of_type(tags, kind)->0);
        } else {
            let rest = tags.skip(1);
            law_first_of_a_type(rest, kind);
            match recording::first_of_type(rest, kind) {
                Some(t) => {
                    let i = choose|i: int|
                        {
                            &&& 0 <= i < rest.len()
                            &&& #[trigger] rest[i] == t
                            &&& t.len() > 0
                            &&& t[0] == kind
                            &&& forall|j: int|
                                0 <= j < i ==> !((#[trigger] rest[j]).len() > 0 && rest[j][0]
                                    == kind)
                        };
                    assert(tags[i + 1] == t);
                    assert forall|j: int| 0 <= j < i + 1 implies !((#[trigger] tags[j]).len() > 0
                        && tags[j][0] == kind) by {
                        if j > 0 {
                            assert(rest[j - 1] == tags[j]);
                        }
                    }
                },
                None => {
                    assert forall|j: int| 0 <= j < tags.len() implies !((#[trigger] tags[j]).len()
                        > 0 && tags[j][0] == kind) by {
                        if j > 0 {
                            assert(rest[j - 1] == tags[j]);
                        }
                    }
                },
            }
        }
    }
}

/// A recording starts with its first file, which is that of the stream at the moment and holds the file
/// header and the tags that one who joins is sent first; the first tags of video and of audio among them
/// are what later files start with.
pub proof fn law_recording_starts(
    key: Seq<char>,
    how: RecordConfig,
    stamp: Seq<char>,
    tags: Seq<Seq<u8>>,
)
    ensures
        ({
            let w = recording::started(key, how, stamp, tags);
            &&& w.stream_key == key
            &&& w.config == how
            &&& w.path == "recordings/"@ + key + "_"@ + stamp + ".flv"@
            &&& w.part == 1
            &&& w.file == flv::file_header() + tags.flatten()
            &&& w.video == recording::first_of_type(tags, 9)
            &&& w.audio == recording::first_of_type(tags, 8)
        }),
{
    reveal_strlit("recordings/");
    reveal_strlit("_");
    reveal_strlit(".flv");
    assert(recording::started(key, how, stamp, tags).path =~= "recordings/"@ + key + "_"@ + stamp
        + ".flv"@);
}

/// What a packet means for a recording: nothing where it has no bytes; a new file where the one that is
/// written has reached its limit and the packet is a keyframe; else its bytes go at the end.
pub proof fn law_what_a_packet_means(v: recording::RecorderView, p: types::PacketView)
    ensures
        ({
            let b = p.bytes();
            let step = recording::step_for(v, p);
            let full = v.file.len() >= v.config.max_size_bytes;
            &&& step is Skip <==> b.len() == 0
            &&& step is Rotate <==> full && is_avc_keyframe(b)
            &&& step is Append <==> b.len() > 0 && !(full && is_avc_keyframe(b))
            &&& step is Rotate ==> step == recording::StepView::Rotate(b)
            &&& step is Append ==> step == recording::StepView::Append(b)
        }),
{
}

/// What a recording is after a packet. Its file holds the bytes of the packet at its end, unless a new
/// file is due. A packet that is sent as a header is kept for the next file, as video or audio by its
/// first byte. Nothing else changes.
pub proof fn law_recording_goes_on(v: recording::RecorderView, p: types::PacketView)
    ensures
        ({
            let w = recording::after_packet(v, p);
            let b = p.bytes();
            let full = v.file.len() >= v.config.max_size_bytes;
            &&& full && is_avc_keyframe(b) ==> w.file == v.file
            &&& !(full && is_avc_keyframe(b)) ==> w.file == v.file + b
            &&& p is SequenceHeader && b.len() > 0 && b[0] == 9 ==> w.video == Some(b)
            &&& !(p is SequenceHeader && b.len() > 0 && b[0] == 9) ==> w.video == v.video
            &&& p is SequenceHeader && b.len() > 0 && b[0] == 8 ==> w.audio == Some(b)
            &&& !(p is SequenceHeader && b.len() > 0 && b[0] == 8) ==> w.audio == v.audio
            &&& w.stream_key == v.stream_key
            &&& w.config == v.config
            &&& w.path == v.path
            &&& w.part == v.part
        }),
{
    let b = p.bytes();
    if b.len() == 0 {
        assert(v.file + b =~= v.file);
    }
}

/// When a packet can be taken: the size of the file can still be counted with it, or nothing is added to
/// the file. When a new file can start: full files are deleted, or their number can still be counted.
pub proof fn law_when_there_is_room(v: recording::RecorderView, p: types::PacketView)
    ensures
        recording::has_room(v, p) <==> (v.file.len() + p.bytes().len() <= u64::MAX
            || p.bytes().len() == 0 || (v.file.len() >= v.config.max_size_bytes && is_avc_keyframe(
            p.bytes(),
        ))),
        recording::can_rotate(v) <==> (v.config.overflow_action == RecordOverflowAction::Delete
            || v.part < 0x7fff_ffff),
{
}

/// What becomes of older files: the full one goes where full files are deleted; the oldest go where full
/// files are kept up to a number; none goes where that number is nought.
pub proof fn law_what_becomes_of_files(how: RecordConfig)
    ensures
        recording::cleanup_for(how) == recording::Cleanup::RemoveCurrent <==> how.overflow_action
            == RecordOverflowAction::Delete,
        recording::cleanup_for(how) == recording::Cleanup::PruneOldest <==> how.overflow_action
            == RecordOverflowAction::Archive && how.max_archived_files > 0,
        recording::cleanup_for(how) == recording::Cleanup::KeepAll <==> how.overflow_action
            == RecordOverflowAction::Archive && how.max_archived_files == 0,
{
}

/// Whether a character is a decimal digit.
pub open spec fn digit(c: char) -> bool {
    '0' <= c <= '9'
}

/// Whether a name is that of a recording, character by character: the key, an underscore, a date of eight
/// digits, an underscore, a time of six digits, then nothing, or "_part" and at least one digit, and at
/// the end ".flv".
pub open spec fn spelled(key: Seq<char>, name: Seq<char>) -> bool {
    let a = key.len() as int;
    let n = name.len() as int;
    &&& n >= a + 20
    &&& forall|i: int| 0 <= i < a ==> #[trigger] name[i] == key[i]
    &&& name[a] == '_'
    &&& forall|i: int| a < i < a + 9 ==> digit(#[trigger] name[i])
    &&& name[a + 9] == '_'
    &&& forall|i: int| a + 9 < i < a + 16 ==> digit(#[trigger] name[i])
    &&& n == a + 20 || {
        &&& n > a + 25
        &&& name[a + 16] == '_'
        &&& name[a + 17] == 'p'
        &&& name[a + 18] == 'a'
        &&& name[a + 19] == 'r'
        &&& name[a + 20] == 't'
        &&& forall|i: int| a + 21 <= i < n - 4 ==> digit(#[trigger] name[i])
    }
    &&& name[n - 4] == '.'
    &&& name[n - 3] == 'f'
    &&& name[n - 2] == 'l'
    &&& name[n - 1] == 'v'
}

/// A file counts as a recording of a stream exactly where its name is spelled like one.
pub proof fn law_names_of_recordings(key: Seq<char>, name: Seq<char>)
    ensures
        recording::is_recording_of(key, name) <==> spelled(key, name),
{
    let a = key.len() as int;
    let n = name.len() as int;
    if n >= a + 20 {
        let lead = name.take(a + 1);
        let rest = name.skip(a + 1);
        let stamp = rest.take(15);
        let part = rest.subrange(15, rest.len() - 4);
        let tail = rest.skip(rest.len() - 4);
        assert forall|i: int| 0 <= i < 15 implies stamp[i] == name[a + 1 + i] by {}
        assert forall|i: int| 0 <= i < part.len() implies part[i] == name[a + 16 + i] by {}
        assert forall|i: int| 0 <= i < 4 implies tail[i] == name[n - 4 + i] by {}
        if spelled(key, name) {
            assert(lead =~= key.push('_'));
            assert(tail =~= recording::extension());
            assert(outside::stamp_shape(stamp));
            if n > a + 20 {
                assert(part.take(5) =~= seq!['_', 'p', 'a', 'r', 't']);
            }
            assert(recording::part_suffix(part));
        }
        if recording::is_recording_of(key, name) {
            assert(lead == key.push('_'));
            assert(lead[a] == name[a]);
            assert forall|i: int| 0 <= i < a implies #[trigger] name[i] == key[i] by {
                assert(lead[i] == name[i]);
                assert(key.push('_')[i] == key[i]);
            }
            assert forall|i: int| a < i < a + 9 implies digit(#[trigger] name[i]) by {
                assert(text::is_digit(stamp[i - a - 1]));
            }
            assert(stamp[8] == name[a + 9]);
            assert forall|i: int| a + 9 < i < a + 16 implies digit(#[trigger] name[i]) by {
                assert(text::is_digit(stamp[i - a - 1]));
            }
            assert(tail[0] == '.' && tail[1] == 'f' && tail[2] == 'l' && tail[3] == 'v');
            if n > a + 20 {
                let word = part.take(5);
                assert(word[0] == '_' && word[1] == 'p' && word[2] == 'a' && word[3] == 'r'
                    && word[4] == 't');
                assert(part[0] == word[0] && part[1] == word[1] && part[2] == word[2] && part[3]
                    == word[3] && part[4] == word[4]);
                assert forall|i: int| a + 21 <= i < n - 4 implies digit(#[trigger] name[i]) by {
                    assert(text::is_digit(part[i - a - 16]));
                }
            }
        }
    }
}

/// The name of a file is what follows "recordings/" in its path, and the directory and the extension are
/// spelled so.
pub proof fn law_names_and_paths(name: Seq<char>)
    ensures
        recording::name_in_directory("recordings/"@ + name) == name,
        recording::directory() == "recordings/"@,
        recording::extension() == ".flv"@,
{
    reveal_strlit("recordings/");
    reveal_strlit(".flv");
    assert(recording::name_in_directory("recordings/"@ + name) =~= name);
    assert(recording::directory() =~= "recordings/"@);
    assert(recording::extension() =~= ".flv"@);
}

/// The path of a file that is started at a moment, and of a later part.
pub proof fn law_paths(key: Seq<char>, stamp: Seq<char>, part: nat)
    ensures
        recording::plain_path(key, stamp) == "recordings/"@ + key + "_"@ + stamp + ".flv"@,
        recording::part_path(key, stamp, part as int) == "recordings/"@ + key + "_"@ + stamp
            + "_part"@ + text::decimal(part) + ".flv"@,
{
    reveal_strlit("recordings/");
    reveal_strlit("_");
    reveal_strlit("_part");
    reveal_strlit(".flv");
    assert(recording::plain_path(key, stamp) =~= "recordings/"@ + key + "_"@ + stamp + ".flv"@);
    assert(recording::part_path(key, stamp, part as int) =~= "recordings/"@ + key + "_"@ + stamp
        + "_part"@ + text::decimal(part) + ".flv"@);
}

/// The stamp of a moment is what chrono gives it under "%Y%m%d_%H%M%S".
pub proof fn law_stamps(secs: i64, nanos: u32)
    ensures
        recording::stamp_of(secs, nanos) == outside::utc_text(secs, nanos, "%Y%m%d_%H%M%S"@),
{
    reveal_strlit("%Y%m%d_%H%M%S");
    assert(outside::stamp_format() =~= "%Y%m%d_%H%M%S"@);
}

/// How many files of a directory are recordings of a stream, among the first so many.
pub open spec fn count_of(
    key: Seq<char>,
    files: Seq<recording::ArchivedFile>,
    n: int,
) -> nat
    decreases n,
{
    if n <= 0 {
        0
    } else if spelled(key, files[n - 1].name@) {
        count_of(key, files, n - 1) + 1
    } else {
        count_of(key, files, n - 1)
    }
}

/// The recordings of a stream among the first so many files.
spec fn first_recordings(
    key: Seq<char>,
    files: Seq<recording::ArchivedFile>,
    n: int,
) -> Set<int> {
    Set::new(|i: int| 0 <= i < n && recording::is_recording_of(key, files[i].name@))
}

proof fn lemma_count(key: Seq<char>, files: Seq<recording::ArchivedFile>, n: int)
    requires
        0 <= n <= files.len(),
    ensures
        first_recordings(key, files, n).finite(),
        first_recordings(key, files, n).len() == count_of(key, files, n),
    decreases n,
{
    let s = first_recordings(key, files, n);
    if n == 0 {
        assert(s =~= Set::empty());
    } else {
        lemma_count(key, files, n - 1);
        law_names_of_recordings(key, files[n - 1].name@);
        let before = first_recordings(key, files, n - 1);
        if spelled(key, files[n - 1].name@) {
            assert(s =~= before.insert(n - 1));
        } else {
            assert(s =~= before);
        }
    }
}

/// Which files go when a new one is about to start: recordings of the stream only, none twice, the oldest
/// first and, of two that were changed at the same moment, the one that comes first; and every recording
/// that stays is at least as new as every one that goes. Where the number of recordings has reached the
/// limit, one less than the limit stay; else, and where the limit is nought, all do.
pub proof fn law_which_files_go(
    key: Seq<char>,
    limit: usize,
    files: Seq<recording::ArchivedFile>,
    picked: Seq<usize>,
)
    requires
        recording::is_prune_plan(key, limit, files, picked),
    ensures
        forall|i: int|
            0 <= i < picked.len() ==> (#[trigger] picked[i]) < files.len() && spelled(
                key,
                files[picked[i] as int].name@,
            ),
        forall|i: int, j: int|
            0 <= i < j < picked.len() ==> {
                let a = #[trigger] picked[i];
                let b = #[trigger] picked[j];
                &&& a != b
                &&& files[a as int].modified <= files[b as int].modified
                &&& files[a as int].modified == files[b as int].modified ==> a < b
            },
        forall|i: int, c: usize|
            0 <= i < picked.len() && c < files.len() && spelled(key, files[c as int].name@)
                && !picked.contains(c) ==> {
                let a = #[trigger] picked[i];
                &&& files[a as int].modified <= (#[trigger] files[c as int]).modified
                &&& files[a as int].modified == files[c as int].modified ==> a < c
            },
        ({
            let count = count_of(key, files, files.len() as int);
            &&& limit > 0 && count >= limit ==> count - picked.len() == limit - 1
            &&& limit == 0 || count < limit ==> picked.len() == 0
        }),
{
    let n = files.len() as int;
    let all = recording::recordings_of(key, files);
    lemma_count(key, files, n);
    assert(all =~= first_recordings(key, files, n));
    assert forall|i: int| 0 <= i < picked.len() implies (#[trigger] picked[i]) < files.len()
        && spelled(key, files[picked[i] as int].name@) by {
        assert(all.contains(picked[i] as int));
        law_names_of_recordings(key, files[picked[i] as int].name@);
    }
    assert forall|i: int, j: int| 0 <= i < j < picked.len() implies {
        let a = #[trigger] picked[i];
        let b = #[trigger] picked[j];
        &&& a != b
        &&& files[a as int].modified <= files[b as int].modified
        &&& files[a as int].modified == files[b as int].modified ==> a < b
    } by {
        assert(recording::older(files, picked[i] as int, picked[j] as int));
    }
    assert forall|i: int, c: usize|
        0 <= i < picked.len() && c < files.len() && spelled(key, files[c as int].name@)
            && !picked.contains(c) implies {
        let a = #[trigger] picked[i];
        &&& files[a as int].modified <= (#[trigger] files[c as int]).modified
        &&& files[a as int].modified == files[c as int].modified ==> a < c
    } by {
        law_names_of_recordings(key, files[c as int].name@);
        assert(all.contains(c as int));
        assert(recording::older(files, picked[i] as int, c as int));
    }
}

} // verus!
