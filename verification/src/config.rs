//! What is said on the command line about recording.
use crate::text;
use crate::types::RecordOverflowAction;
use vstd::prelude::*;
use vstd::utf8::*;

verus! {

/// A number times its unit, or, where the text is no number, a default times the unit.
pub open spec fn scaled(number: Seq<char>, default: u64, unit: nat) -> nat {
    match text::u64_value(number) {
        Some(n) => n as nat * unit,
        None => default as nat * unit,
    }
}

/// `t` without its last `n` characters.
pub open spec fn without_last(t: Seq<char>, n: int) -> Seq<char> {
    t.take(t.len() - n)
}

/// The number of bytes that a size in capitals stands for: a number of GB (or G), MB (or M),
/// KB (or K) or B, or a bare number of bytes. Where the number cannot be read, a default takes
/// its place.
pub open spec fn size_value(t: Seq<char>) -> nat {
    if seq!['G', 'B'].is_suffix_of(t) {
        scaled(without_last(t, 2), 1, 0x4000_0000)
    } else if seq!['G'].is_suffix_of(t) {
        scaled(without_last(t, 1), 1, 0x4000_0000)
    } else if seq!['M', 'B'].is_suffix_of(t) {
        scaled(without_last(t, 2), 100, 0x10_0000)
    } else if seq!['M'].is_suffix_of(t) {
        scaled(without_last(t, 1), 100, 0x10_0000)
    } else if seq!['K', 'B'].is_suffix_of(t) {
        scaled(without_last(t, 2), 100_000, 0x400)
    } else if seq!['K'].is_suffix_of(t) {
        scaled(without_last(t, 1), 100_000, 0x400)
    } else if seq!['B'].is_suffix_of(t) {
        scaled(without_last(t, 1), 104_857_600, 1)
    } else {
        scaled(t, 104_857_600, 1)
    }
}

/// The decimal digits of a number of 64 bits are read as that number.
proof fn lemma_decimal_is_read(n: u64)
    ensures
        text::u64_value(text::decimal(n as nat)) == Some(n),
{
    let d = text::decimal(n as nat);
    text::lemma_decimal_value(n as nat);
    assert(text::is_digit(d[0]));
    assert(text::unsigned_digits(d) == d);
}

/// What stands before a unit.
proof fn lemma_unit(d: Seq<char>, unit: Seq<char>)
    ensures
        unit.is_suffix_of(d + unit),
        without_last(d + unit, unit.len() as int) == d,
        (d + unit).len() > 0 && unit.len() > 0 ==> (d + unit).last() == unit.last(),
{
    let t = d + unit;
    assert(t.subrange(t.len() - unit.len(), t.len() as int) =~= unit);
    assert(without_last(t, unit.len() as int) =~= d);
}

/// A text ends with a letter only where that is its last, and with two only where these are its
/// last two.
pub proof fn lemma_tail(t: Seq<char>, a: char, b: char)
    ensures
        seq![b].is_suffix_of(t) <==> t.len() > 0 && t.last() == b,
        seq![a, b].is_suffix_of(t) <==> t.len() > 1 && t.last() == b && t[t.len() - 2] == a,
{
    if t.len() > 0 {
        let u = t.subrange(t.len() - 1, t.len() as int);
        assert(u[0] == t.last());
        if t.last() == b {
            assert(u =~= seq![b]);
        }
    }
    if t.len() > 1 {
        let u = t.subrange(t.len() - 2, t.len() as int);
        assert(u[0] == t[t.len() - 2] && u[1] == t.last());
        if t.last() == b && t[t.len() - 2] == a {
            assert(u =~= seq![a, b]);
        }
    }
}

/// A number and a unit stand for the number times the unit: 1024 to the power of three for GB and
/// G, of two for MB and M, of one for KB and K, and one for B and without a unit.
pub proof fn law_size_units(n: u64)
    ensures
        ({
            let d = text::decimal(n as nat);
            &&& size_value(d + seq!['G', 'B']) == n * 0x4000_0000
            &&& size_value(d + seq!['G']) == n * 0x4000_0000
            &&& size_value(d + seq!['M', 'B']) == n * 0x10_0000
            &&& size_value(d + seq!['M']) == n * 0x10_0000
            &&& size_value(d + seq!['K', 'B']) == n * 0x400
            &&& size_value(d + seq!['K']) == n * 0x400
            &&& size_value(d + seq!['B']) == n
            &&& size_value(d) == n
        }),
{
    let d = text::decimal(n as nat);
    text::lemma_decimal_value(n as nat);
    lemma_decimal_is_read(n);
    assert(text::is_digit(d[d.len() - 1]));
    lemma_size_of(d, seq!['G', 'B']);
    lemma_size_of(d, seq!['G']);
    lemma_size_of(d, seq!['M', 'B']);
    lemma_size_of(d, seq!['M']);
    lemma_size_of(d, seq!['K', 'B']);
    lemma_size_of(d, seq!['K']);
    lemma_size_of(d, seq!['B']);
    lemma_size_of(d, Seq::empty());
    assert(d + Seq::<char>::empty() =~= d);
}

/// Which unit a text ends with, where what stands before it ends with a digit.
proof fn lemma_size_of(d: Seq<char>, unit: Seq<char>)
    requires
        d.len() > 0,
        text::is_digit(d.last()),
    ensures
        unit == seq!['G', 'B'] || unit == seq!['G'] ==> size_value(d + unit) == scaled(
            d,
            1,
            0x4000_0000,
        ),
        unit == seq!['M', 'B'] || unit == seq!['M'] ==> size_value(d + unit) == scaled(
            d,
            100,
            0x10_0000,
        ),
        unit == seq!['K', 'B'] || unit == seq!['K'] ==> size_value(d + unit) == scaled(
            d,
            100_000,
            0x400,
        ),
        unit == seq!['B'] || unit.len() == 0 ==> size_value(d + unit) == scaled(d, 104_857_600, 1),
{
    let t = d + unit;
    lemma_unit(d, unit);
    lemma_tail(t, 'G', 'B');
    lemma_tail(t, 'M', 'B');
    lemma_tail(t, 'K', 'B');
    lemma_tail(t, 'G', 'G');
    lemma_tail(t, 'M', 'M');
    lemma_tail(t, 'K', 'K');
    if unit.len() == 0 {
        assert(t =~= d);
    }
}

/// The text of a size in capitals, without white space around it.
pub open spec fn size_text(s: Seq<char>) -> Seq<char> {
    text::uppercase(text::ascii_capitals(text::trimmed(s)))
}

/// White space around a size and the case of its ASCII letters do not count: both texts are taken as
/// the same size.
pub proof fn law_size_ignores_blanks_and_case(
    s: Seq<char>,
    lead: Seq<char>,
    t: Seq<char>,
    tail: Seq<char>,
)
    requires
        text::blank(lead),
        text::blank(tail),
        text::ascii_capitals(t) == text::ascii_capitals(s),
    ensures
        size_text(lead + t + tail) == size_text(s),
        size_value(size_text(lead + t + tail)) == size_value(size_text(s)),
{
    text::lemma_trimmed_with_blanks(lead, t, tail);
    text::lemma_trimmed_capitals(s);
    text::lemma_trimmed_capitals(t);
}

/// A number times its unit, where that fits.
fn scale(number: &str, default: u64, unit: u64) -> (r: Option<u64>)
    ensures
        r == (if scaled(number@, default, unit as nat) <= u64::MAX {
            Some(scaled(number@, default, unit as nat) as u64)
        } else {
            None
        }),
{
    text::parse_u64(number).unwrap_or(default).checked_mul(unit)
}

/// The number of bytes that a size in capitals stands for, where a number of 64 bits holds it.
pub fn size_in_bytes(s: &str) -> (r: Option<u64>)
    ensures
        r == (if size_value(s@) <= u64::MAX {
            Some(size_value(s@) as u64)
        } else {
            None
        }),
{
    proof {
        reveal_strlit("GB");
        reveal_strlit("G");
        reveal_strlit("MB");
        reveal_strlit("M");
        reveal_strlit("KB");
        reveal_strlit("K");
        reveal_strlit("B");
        assert("GB"@ =~= seq!['G', 'B']);
        assert("G"@ =~= seq!['G']);
        assert("MB"@ =~= seq!['M', 'B']);
        assert("M"@ =~= seq!['M']);
        assert("KB"@ =~= seq!['K', 'B']);
        assert("K"@ =~= seq!['K']);
        assert("B"@ =~= seq!['B']);
    }
    if let Some(number) = text::strip_tail(s, "GB") {
        scale(number, 1, 0x4000_0000)
    } else if let Some(number) = text::strip_tail(s, "G") {
        scale(number, 1, 0x4000_0000)
    } else if let Some(number) = text::strip_tail(s, "MB") {
        scale(number, 100, 0x10_0000)
    } else if let Some(number) = text::strip_tail(s, "M") {
        scale(number, 100, 0x10_0000)
    } else if let Some(number) = text::strip_tail(s, "KB") {
        scale(number, 100_000, 0x400)
    } else if let Some(number) = text::strip_tail(s, "K") {
        scale(number, 100_000, 0x400)
    } else if let Some(number) = text::strip_tail(s, "B") {
        scale(number, 104_857_600, 1)
    } else {
        scale(s, 104_857_600, 1)
    }
}

/// The number of bytes that a size stands for. Letters count alike in either case, and white
/// space around the size does not count.
pub fn parse_size_bytes(s: &str) -> (r: u64)
    requires
        size_value(size_text(s@)) <= u64::MAX,
    ensures
        r == size_value(size_text(s@)),
        is_ascii_chars(s@) ==> r == size_value(
            text::ascii_capitals(text::trimmed(s@)),
        ),
{
    let upper: String = text::trim(s).to_uppercase();
    proof {
        if is_ascii_chars(s@) {
            text::lemma_trimmed_ascii(s@);
        }
    }
    size_in_bytes(upper.as_str()).unwrap()
}

/// The number of bytes that a size stands for, where a number of 64 bits holds it.
pub fn checked_parse_size_bytes(s: &str) -> (r: Option<u64>)
    ensures
        r == (if size_value(size_text(s@)) <= u64::MAX {
            Some(size_value(size_text(s@)) as u64)
        } else {
            None
        }),
        is_ascii_chars(s@) ==> r == ({
            let n = size_value(text::ascii_capitals(text::trimmed(s@)));
            if n <= u64::MAX {
                Some(n as u64)
            } else {
                None
            }
        }),
{
    let upper: String = text::trim(s).to_uppercase();
    proof {
        if is_ascii_chars(s@) {
            text::lemma_trimmed_ascii(s@);
        }
    }
    match size_in_bytes(upper.as_str()) {
        Some(_) => Some(parse_size_bytes(s)),
        None => None,
    }
}

/// What a word in small letters says about recordings that reach their limit: "delete" and "del"
/// that they go, anything else that they are kept.
pub open spec fn action_of(word: Seq<char>) -> RecordOverflowAction {
    if word == seq!['d', 'e', 'l', 'e', 't', 'e'] || word == seq!['d', 'e', 'l'] {
        RecordOverflowAction::Delete
    } else {
        RecordOverflowAction::Archive
    }
}

/// What a word in small letters says about recordings that reach their limit.
pub fn action_from_word(word: &str) -> (r: RecordOverflowAction)
    ensures
        r == action_of(word@),
{
    proof {
        reveal_strlit("delete");
        reveal_strlit("del");
        assert("delete"@ =~= seq!['d', 'e', 'l', 'e', 't', 'e']);
        assert("del"@ =~= seq!['d', 'e', 'l']);
    }
    if text::same_text(word, "delete") || text::same_text(word, "del") {
        RecordOverflowAction::Delete
    } else {
        RecordOverflowAction::Archive
    }
}

/// What a word says about recordings that reach their limit. Letters count alike in either case,
/// and white space around the word does not count.
pub fn parse_overflow_action(s: &str) -> (r: RecordOverflowAction)
    ensures
        r == action_of(text::lowercase(text::trimmed(s@))),
        is_ascii_chars(s@) ==> r == action_of(
            text::trimmed(s@).map_values(|c: char| text::ascii_lower(c)),
        ),
{
    let word: String = text::trim(s).to_lowercase();
    proof {
        if is_ascii_chars(s@) {
            text::lemma_trimmed_ascii(s@);
        }
    }
    action_from_word(word.as_str())
}

} // verus!
