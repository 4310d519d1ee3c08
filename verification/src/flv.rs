//! FLV: tags, what they announce, and which of them a viewer is sent.
use crate::outside;
use bytes::Bytes;
use vstd::prelude::*;

verus! {

/// The type of an audio tag.
pub const AUDIO_TAG: u8 = 0x08;

/// The type of a video tag.
pub const VIDEO_TAG: u8 = 0x09;

/// What an FLV file starts with: the nine bytes of its header, which announces audio and video,
/// and the size of the tag before the first, which is none.
pub open spec fn file_header() -> Seq<u8> {
    seq![
        0x46u8,
        0x4c,
        0x56,
        0x01,
        0x05,
        0x00,
        0x00,
        0x00,
        0x09,
        0x00,
        0x00,
        0x00,
        0x00,
    ]
}

/// The lowest three bytes of a number, highest first.
pub open spec fn be24(n: int) -> Seq<u8> {
    seq![(n / 0x1_0000 % 256) as u8, (n / 0x100 % 256) as u8, (n % 256) as u8]
}

/// The lowest four bytes of a number, highest first.
pub open spec fn be32(n: int) -> Seq<u8> {
    seq![(n / 0x100_0000 % 256) as u8] + be24(n)
}

/// An FLV tag: its type, the size of its payload, its timestamp with the highest byte last, the
/// stream's number, which is always zero, the payload, and the size of all that came before.
pub open spec fn tag(kind: u8, timestamp: u32, payload: Seq<u8>) -> Seq<u8> {
    seq![kind] + be24(payload.len() as int) + be24(timestamp as int) + seq![
        (timestamp as int / 0x100_0000) as u8,
        0,
        0,
        0,
    ] + payload + be32(payload.len() as int + 11)
}

/// The number that three bytes stand for, highest first.
pub open spec fn read24(s: Seq<u8>, at: int) -> int {
    s[at] * 0x1_0000 + s[at + 1] * 0x100 + s[at + 2]
}

/// The number that four bytes stand for, highest first.
pub open spec fn read32(s: Seq<u8>, at: int) -> int {
    s[at] * 0x100_0000 + read24(s, at + 1)
}

/// The payload of a tag: what stands between its first eleven bytes and its last four.
pub open spec fn payload_of(t: Seq<u8>) -> Seq<u8> {
    t.subrange(11, t.len() - 4)
}

/// Three bytes give back the number modulo what they can hold.
proof fn lemma_read24(n: int)
    requires
        n >= 0,
    ensures
        read24(be24(n), 0) == n % 0x100_0000,
{
    assert(0 <= n / 0x1_0000 % 256 < 256 && 0 <= n / 0x100 % 256 < 256 && 0 <= n % 256 < 256);
    let a = n / 0x1_0000;
    let b = n / 0x100;
    assert(b / 256 == a);
    assert(n % 0x1_0000 == (b % 256) * 0x100 + n % 256);
    assert(n % 0x100_0000 == (a % 256) * 0x1_0000 + n % 0x1_0000);
}

/// Four bytes give back the number modulo what they can hold.
proof fn lemma_read32(n: int)
    requires
        n >= 0,
    ensures
        read32(be32(n), 0) == n % 0x1_0000_0000,
{
    lemma_read24(n);
    let top = n / 0x100_0000;
    assert(0 <= top % 256 < 256);
    assert(be32(n)[0] as int == top % 256);
    assert(be32(n)[1] == be24(n)[0] && be32(n)[2] == be24(n)[1] && be32(n)[3] == be24(n)[2]);
    assert(n % 0x1_0000_0000 == (top % 256) * 0x100_0000 + n % 0x100_0000);
}

/// Where the parts of a tag stand.
pub proof fn lemma_tag_parts(kind: u8, timestamp: u32, payload: Seq<u8>)
    ensures
        ({
            let t = tag(kind, timestamp, payload);
            &&& t.len() == payload.len() + 15
            &&& t[0] == kind
            &&& t.subrange(1, 4) == be24(payload.len() as int)
            &&& t.subrange(4, 7) == be24(timestamp as int)
            &&& t[7] == (timestamp as int / 0x100_0000) as u8
            &&& t[8] == 0 && t[9] == 0 && t[10] == 0
            &&& payload_of(t) == payload
            &&& t.subrange(t.len() - 4, t.len() as int) == be32(payload.len() as int + 11)
        }),
{
    let t = tag(kind, timestamp, payload);
    assert(t.subrange(1, 4) =~= be24(payload.len() as int));
    assert(t.subrange(4, 7) =~= be24(timestamp as int));
    assert(payload_of(t) =~= payload);
    assert(t.subrange(t.len() - 4, t.len() as int) =~= be32(payload.len() as int + 11));
}

/// A tag is read back as it was written: the type, the payload's size (as far as three bytes
/// hold it), the timestamp in full, the payload, and the size of the tag before its last four
/// bytes (as far as four bytes hold it).
pub proof fn law_tag_reads_back(kind: u8, timestamp: u32, payload: Seq<u8>)
    ensures
        ({
            let t = tag(kind, timestamp, payload);
            &&& t.len() == payload.len() + 15
            &&& t[0] == kind
            &&& read24(t, 1) == payload.len() % 0x100_0000
            &&& read24(t, 4) + t[7] * 0x100_0000 == timestamp
            &&& t[8] == 0 && t[9] == 0 && t[10] == 0
            &&& payload_of(t) == payload
            &&& read32(t, t.len() - 4) == (payload.len() + 11) % 0x1_0000_0000
        }),
{
    let t = tag(kind, timestamp, payload);
    let n = payload.len() as int;
    let s = timestamp as int;
    let e = t.len() - 4;
    lemma_tag_parts(kind, timestamp, payload);
    lemma_read24(n);
    lemma_read24(s);
    lemma_read32(n + 11);
    let size = t.subrange(1, 4);
    let time = t.subrange(4, 7);
    let last = t.subrange(e, t.len() as int);
    assert(size[0] == t[1] && size[1] == t[2] && size[2] == t[3]);
    assert(time[0] == t[4] && time[1] == t[5] && time[2] == t[6]);
    assert(last[0] == t[e] && last[1] == t[e + 1] && last[2] == t[e + 2] && last[3] == t[e + 3]);
    assert(0 <= s / 0x100_0000 < 256);
    assert(s == (s / 0x100_0000) * 0x100_0000 + s % 0x100_0000);
}

/// Two tags are the same only where type, timestamp and payload are the same.
pub proof fn law_tags_differ(k1: u8, t1: u32, p1: Seq<u8>, k2: u8, t2: u32, p2: Seq<u8>)
    ensures
        tag(k1, t1, p1) == tag(k2, t2, p2) <==> k1 == k2 && t1 == t2 && p1 == p2,
{
    law_tag_reads_back(k1, t1, p1);
    law_tag_reads_back(k2, t2, p2);
}

/// A payload as an FLV tag.
pub fn make_tag(kind: u8, timestamp: u32, payload: &[u8]) -> (r: Vec<u8>)
    ensures
        r@ == tag(kind, timestamp, payload@),
{
    let n: u128 = payload.len() as u128;
    let m: u128 = n + 11;
    let mut t: Vec<u8> = Vec::with_capacity(payload.len().saturating_add(15));
    t.push(kind);
    t.push((n / 0x1_0000 % 256) as u8);
    t.push((n / 0x100 % 256) as u8);
    t.push((n % 256) as u8);
    t.push((timestamp / 0x1_0000 % 256) as u8);
    t.push((timestamp / 0x100 % 256) as u8);
    t.push((timestamp % 256) as u8);
    t.push((timestamp / 0x100_0000) as u8);
    t.push(0);
    t.push(0);
    t.push(0);
    let ghost head = t@;
    t.extend_from_slice(payload);
    assert(t@ =~= head + payload@);
    t.push((m / 0x100_0000 % 256) as u8);
    t.push((m / 0x1_0000 % 256) as u8);
    t.push((m / 0x100 % 256) as u8);
    t.push((m % 256) as u8);
    assert(t@ =~= tag(kind, timestamp, payload@));
    t
}

/// A video tag from which a decoder can start: the frame type is that of a keyframe, and the
/// packet holds coded pictures.
pub open spec fn is_keyframe(t: Seq<u8>) -> bool {
    t.len() >= 13 && t[0] == VIDEO_TAG && t[11] / 16 == 1 && t[12] == 1
}

/// A tag with a packet that tells a decoder how to decode.
pub open spec fn is_decoder_setup(t: Seq<u8>) -> bool {
    t.len() >= 13 && (t[0] == VIDEO_TAG || t[0] == AUDIO_TAG) && t[12] == 0
}

/// A tag from which a viewer that missed some can go on.
pub open spec fn is_sync_point(t: Seq<u8>) -> bool {
    is_keyframe(t) || is_decoder_setup(t)
}

/// Whether a tag is a keyframe.
pub fn keyframe(t: &Bytes) -> (r: bool)
    ensures
        r == is_keyframe(outside::bytes_seq(*t)),
{
    t.len() >= 13 && t[0] == VIDEO_TAG && t[11] / 16 == 1 && t[12] == 1
}

/// Whether a viewer that missed some tags can go on from this one.
pub fn sync_point(t: &Bytes) -> (r: bool)
    ensures
        r == is_sync_point(outside::bytes_seq(*t)),
{
    keyframe(t) || (t.len() >= 13 && (t[0] == VIDEO_TAG || t[0] == AUDIO_TAG) && t[12] == 0)
}

/// A file starts with the letters "FLV", the version, the flags for audio and video, the length of
/// the header, and a previous tag of no bytes.
pub proof fn law_file_header()
    ensures
        file_header().len() == 13,
        file_header()[0] as char == 'F' && file_header()[1] as char == 'L' && file_header()[2] as char
            == 'V',
        file_header()[3] == 1,
        file_header()[4] == 4 + 1,
        file_header()[5] == 0 && file_header()[6] == 0 && file_header()[7] == 0 && file_header()[8]
            == 9,
        file_header()[9] == 0 && file_header()[10] == 0 && file_header()[11] == 0
            && file_header()[12] == 0,
{
}

/// Whether bytes are a payload of less than sixteen megabytes between what stands before it (a type,
/// the size of the payload, a timestamp, three zeros) and what stands after it (the size of all that),
/// byte by byte.
pub open spec fn laid_out(t: Seq<u8>, kind: u8, timestamp: u32, payload: Seq<u8>) -> bool {
    let n = payload.len() as int;
    &&& t.len() == n + 15
    &&& t[0] == kind
    &&& t[1] * 65536 + t[2] * 256 + t[3] == n
    &&& t[7] * 16777216 + t[4] * 65536 + t[5] * 256 + t[6] == timestamp
    &&& t[8] == 0 && t[9] == 0 && t[10] == 0
    &&& forall|i: int| 0 <= i < n ==> t[11 + i] == #[trigger] payload[i]
    &&& t[n + 11] * 16777216 + t[n + 12] * 65536 + t[n + 13] * 256 + t[n + 14] == n + 11
}

/// Bytes that read back as a tag does are laid out as one.
proof fn lemma_laid_out(t: Seq<u8>, kind: u8, timestamp: u32, payload: Seq<u8>)
    requires
        payload.len() < 0x100_0000,
        t.len() == payload.len() + 15,
        t[0] == kind,
        read24(t, 1) == payload.len() % 0x100_0000,
        read24(t, 4) + t[7] * 0x100_0000 == timestamp,
        t[8] == 0 && t[9] == 0 && t[10] == 0,
        payload_of(t) == payload,
        read32(t, t.len() - 4) == (payload.len() + 11) % 0x1_0000_0000,
    ensures
        laid_out(t, kind, timestamp, payload),
{
    assert forall|i: int| 0 <= i < payload.len() implies t[11 + i] == #[trigger] payload[i] by {
        assert(payload_of(t)[i] == t[11 + i]);
    }
}

/// The tag of a payload is laid out byte by byte as a player expects it.
pub proof fn law_tag_byte_by_byte(kind: u8, timestamp: u32, payload: Seq<u8>)
    requires
        payload.len() < 0x100_0000,
    ensures
        laid_out(tag(kind, timestamp, payload), kind, timestamp, payload),
{
    law_tag_reads_back(kind, timestamp, payload);
    lemma_laid_out(tag(kind, timestamp, payload), kind, timestamp, payload);
}

/// Which tags are keyframes, and from which a viewer can go on, byte by byte.
pub proof fn law_which_tags_matter(t: Seq<u8>)
    ensures
        is_keyframe(t) <==> (t.len() >= 13 && t[0] == 9 && 0x10 <= t[11] <= 0x1f && t[12] == 1),
        is_sync_point(t) <==> (t.len() >= 13 && ((t[0] == 9 && 0x10 <= t[11] <= 0x1f && t[12] == 1)
            || (t[0] == 9 && t[12] == 0) || (t[0] == 8 && t[12] == 0))),
        is_decoder_setup(t) <==> (t.len() >= 13 && (t[0] == 9 || t[0] == 8) && t[12] == 0),
{
}

/// The file header, followed by tags in their order.
pub fn with_file_header(tags: &Vec<Bytes>) -> (r: Vec<u8>)
    ensures
        r@ == file_header() + outside::all_bytes(tags@).flatten(),
{
    let mut out: Vec<u8> = file_header_bytes();
    let ghost all = outside::all_bytes(tags@);
    let mut i: usize = 0;
    assert(all.take(0).flatten() =~= Seq::<u8>::empty());
    while i < tags.len()
        invariant
            i <= tags@.len(),
            all == outside::all_bytes(tags@),
            out@ == file_header() + all.take(i as int).flatten(),
        decreases tags@.len() - i,
    {
        let ghost before = out@;
        let ghost one = outside::bytes_seq(tags@[i as int]);
        out.extend_from_slice(&tags[i]);
        proof {
            assert(out@ =~= before + one);
            assert(all.take(i + 1) =~= all.take(i as int).push(one));
            all.take(i as int).lemma_flatten_push(one);
        }
        i = i + 1;
    }
    assert(all.take(i as int) =~= all);
    out
}

/// The bytes that an FLV file starts with.
pub fn file_header_bytes() -> (r: Vec<u8>)
    ensures
        r@ == file_header(),
{
    let header: Vec<u8> = vec![
        0x46, 0x4c, 0x56, 0x01, 0x05, 0x00, 0x00, 0x00, 0x09, 0x00, 0x00, 0x00, 0x00,
    ];
    assert(header@ =~= file_header());
    header
}

} // verus!
