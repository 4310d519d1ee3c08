//! What the library takes from other crates, and what it relies on of each.
use crate::text;
use bytes::Bytes;
use sha2::Digest;
use vstd::prelude::*;

verus! {

/// `bytes::Bytes`: an immutable run of bytes that is cheap to copy.
#[verifier::external_type_specification]
#[verifier::external_body]
pub struct ExBytes(Bytes);

/// The bytes that a `bytes::Bytes` holds.
pub uninterp spec fn bytes_seq(b: Bytes) -> Seq<u8>;

/// `Bytes::len` counts the bytes.
pub assume_specification[ Bytes::len ](b: &Bytes) -> (n: usize)
    ensures
        n == bytes_seq(*b).len(),
;

/// `Bytes::is_empty` tells whether there is no byte.
pub assume_specification[ Bytes::is_empty ](b: &Bytes) -> (r: bool)
    ensures
        r == (bytes_seq(*b).len() == 0),
;

/// `Bytes::clone` hands out another handle on the same bytes.
pub assume_specification[ <Bytes as Clone>::clone ](b: &Bytes) -> (r: Bytes)
    ensures
        bytes_seq(r) == bytes_seq(*b),
;

/// `Bytes::deref` lends the bytes as a slice.
pub assume_specification[ <Bytes as core::ops::Deref>::deref ](b: &Bytes) -> (r: &[u8])
    ensures
        r@ == bytes_seq(*b),
;

/// `Bytes::from` takes over the bytes of a vector.
pub assume_specification[ <Bytes as From<Vec<u8>>>::from ](v: Vec<u8>) -> (r: Bytes)
    ensures
        bytes_seq(r) == v@,
;

/// The bytes of each of a list of runs.
pub open spec fn all_bytes(list: Seq<Bytes>) -> Seq<Seq<u8>> {
    list.map_values(|b: Bytes| bytes_seq(b))
}

/// The bytes of an optional run.
pub open spec fn opt_bytes(b: Option<Bytes>) -> Option<Seq<u8>> {
    match b {
        Some(x) => Some(bytes_seq(x)),
        None => None,
    }
}

/// A moment in UTC: whole seconds since the Unix epoch, and the nanoseconds after them.
#[derive(Clone, Copy, Debug, PartialEq, Eq, Structural)]
pub struct Timestamp {
    pub secs: i64,
    pub nanos: u32,
}

/// The text that chrono gives to a moment under a format; none where chrono has no date for the
/// moment.
pub uninterp spec fn utc_text(secs: i64, nanos: u32, format: Seq<char>) -> Option<Seq<char>>;

/// "%Y%m%d_%H%M%S"
pub open spec fn stamp_format() -> Seq<char> {
    seq!['%', 'Y', '%', 'm', '%', 'd', '_', '%', 'H', '%', 'M', '%', 'S']
}

/// Eight digits, an underscore, and six digits.
pub open spec fn stamp_shape(s: Seq<char>) -> bool {
    &&& s.len() == 15
    &&& s[8] == '_'
    &&& forall|i: int| 0 <= i < 15 && i != 8 ==> text::is_digit(#[trigger] s[i])
}

/// Whether a moment lies between the epoch and the end of the year 9999.
pub open spec fn four_digit_year(secs: i64, nanos: u32) -> bool {
    0 <= secs < 253_402_300_800 && nanos < 1_000_000_000
}

/// Whether the clock may give a moment, in seconds and nanoseconds.
pub uninterp spec fn clock_may_give(secs: i64, nanos: u32) -> bool;

/// `chrono::Utc::now`, as seconds and nanoseconds: a moment that the clock may give. It is never
/// before the epoch, its nanoseconds stay below a second, and it is a moment that chrono has a
/// date for. Does not return where the system's clock stands before the epoch.
#[verifier::external_body]
pub(crate) fn utc_now() -> (r: Timestamp)
    ensures
        clock_may_give(r.secs, r.nanos),
        r.secs >= 0,
        r.nanos < 1_000_000_000,
        utc_text(r.secs, r.nanos, stamp_format()) is Some,
{
    let now = chrono::Utc::now();
    Timestamp { secs: now.timestamp(), nanos: now.timestamp_subsec_nanos() }
}

/// `chrono::DateTime::format` of the moment that `chrono::DateTime::from_timestamp` finds: a function
/// of the moment and the format. Under the one format that it is given here, a moment in a year of
/// four digits has eight digits for its date and six for its time.
#[verifier::external_body]
pub(crate) fn format_utc(at: Timestamp, format: &str) -> (r: Option<String>)
    requires
        format@ == stamp_format(),
    ensures
        match r {
            Some(t) => utc_text(at.secs, at.nanos, format@) == Some(t@),
            None => utc_text(at.secs, at.nanos, format@) is None,
        },
        four_digit_year(at.secs, at.nanos) ==> r is Some && stamp_shape(r->0@),
{
    match chrono::DateTime::from_timestamp(at.secs, at.nanos) {
        Some(date) => Some(date.format(format).to_string()),
        None => None,
    }
}

/// A lower-case hexadecimal digit.
pub open spec fn lower_hex(c: char) -> bool {
    '0' <= c <= '9' || 'a' <= c <= 'f'
}

/// The text of a random UUID: thirty-two lower-case hexadecimal digits in groups of eight, four,
/// four, four and twelve with a hyphen between, where the third group starts with the version 4
/// and the fourth with the variant.
pub open spec fn uuid_text(s: Seq<char>) -> bool {
    &&& s.len() == 36
    &&& forall|i: int|
        0 <= i < 36 ==> if i == 8 || i == 13 || i == 18 || i == 23 {
            #[trigger] s[i] == '-'
        } else {
            lower_hex(s[i])
        }
    &&& s[14] == '4'
    &&& s[19] == '8' || s[19] == '9' || s[19] == 'a' || s[19] == 'b'
}

/// Whether chance may give an identifier.
pub uninterp spec fn chance_may_give(id: Seq<char>) -> bool;

/// `uuid::Uuid::new_v4`, as text. Which one comes is chance; every one has the shape of a UUID of
/// version 4. Does not return where the system has no random numbers to give.
#[verifier::external_body]
pub(crate) fn random_uuid() -> (r: String)
    ensures
        chance_may_give(r@),
        uuid_text(r@),
{
    uuid::Uuid::new_v4().to_string()
}

/// The SHA-256 digest of some bytes.
pub uninterp spec fn sha256(data: Seq<u8>) -> Seq<u8>;

/// `sha2::Sha256` over some bytes: a function of them, thirty-two bytes long.
#[verifier::external_body]
pub(crate) fn sha256_digest(data: &[u8]) -> (r: Vec<u8>)
    ensures
        r@ == sha256(data@),
        r@.len() == 32,
{
    let mut hasher = sha2::Sha256::new();
    hasher.update(data);
    hasher.finalize().to_vec()
}

} // verus!
