//! What holds of operations on text, whatever the text.
use crate::outside;
use crate::text;
use crate::types::RecordOverflowAction;
use vstd::prelude::*;


verus! {

/// These characters are white space, and no others.
pub proof fn law_white_space(c: char)
    ensures
        text::white_space(c) <==> (c == '\t' || c == '\n' || c == '\u{b}' || c == '\u{c}' || c
            == '\r' || c == ' ' || c == '\u{85}' || c == '\u{a0}' || c == '\u{1680}' || '\u{2000}'
            <= c <= '\u{200a}' || c == '\u{2028}' || c == '\u{2029}' || c == '\u{202f}' || c
            == '\u{205f}' || c == '\u{3000}'),
{
}

/// What is left of a text without the white space around it is a stretch of it: only white space
/// stands before and after, and neither its first nor its last character is any.
pub proof fn law_trimmed_is_the_middle(s: Seq<char>)
    ensures
        exists|from: int, to: int|
            {
                &&& 0 <= from <= to <= s.len()
                &&& text::trimmed(s) == #[trigger] s.subrange(from, to)
                &&& forall|i: int| 0 <= i < from ==> text::white_space(#[trigger] s[i])
                &&& forall|i: int| to <= i < s.len() ==> text::white_space(#[trigger] s[i])
                &&& from < to ==> !text::white_space(s[from]) && !text::white_space(s[to - 1])
            },
{
    let a = text::trimmed_start(s);
    lemma_start(s);
    lemma_end(a);
    let from = s.len() - a.len();
    let to = from + text::trimmed_end(a).len();
    assert(text::trimmed(s) =~= s.subrange(from, to));
    assert forall|i: int| to <= i < s.len() implies text::white_space(#[trigger] s[i]) by {
        assert(a[i - from] == s[i]);
    }
    if from < to {
        assert(a[0] == s[from]);
        assert(a[to - from - 1] == s[to - 1]);
    }
}

proof fn lemma_start(s: Seq<char>)
    ensures
        text::trimmed_start(s).len() <= s.len(),
        text::trimmed_start(s) == s.skip(s.len() - text::trimmed_start(s).len()),
        forall|i: int|
            0 <= i < s.len() - text::trimmed_start(s).len() ==> text::white_space(#[trigger] s[i]),
        text::trimmed_start(s).len() > 0 ==> !text::white_space(text::trimmed_start(s)[0]),
    decreases s.len(),
{
    if s.len() > 0 && text::white_space(s[0]) {
        let r = s.skip(1);
        lemma_start(r);
        let k = s.len() - text::trimmed_start(s).len();
        assert(r.skip(k - 1) =~= s.skip(k));
        assert forall|i: int| 0 <= i < k implies text::white_space(#[trigger] s[i]) by {
            if i > 0 {
                assert(r[i - 1] == s[i]);
            }
        }
    } else {
        assert(s.skip(0) =~= s);
    }
}

proof fn lemma_end(s: Seq<char>)
    ensures
        text::trimmed_end(s).len() <= s.len(),
        text::trimmed_end(s) == s.take(text::trimmed_end(s).len() as int),
        forall|i: int|
            text::trimmed_end(s).len() <= i < s.len() ==> text::white_space(#[trigger] s[i]),
        text::trimmed_end(s).len() > 0 ==> !text::white_space(text::trimmed_end(s).last()),
    decreases s.len(),
{
    if s.len() > 0 && text::white_space(s.last()) {
        let r = s.drop_last();
        lemma_end(r);
        let n = text::trimmed_end(s).len() as int;
        assert(r.take(n) =~= s.take(n));
        assert forall|i: int| n <= i < s.len() implies text::white_space(#[trigger] s[i]) by {
            if i < s.len() - 1 {
                assert(r[i] == s[i]);
            }
        }
    } else {
        assert(s.take(s.len() as int) =~= s);
    }
}

/// Only the twenty-six ASCII letters have another case, which stands thirty-two places away.
pub proof fn law_ascii_case(c: char)
    ensures
        text::ascii_lower(c) as u32 == (if 0x41 <= c as u32 <= 0x5a {
            (c as u32 + 0x20) as u32
        } else {
            c as u32
        }),
        text::ascii_upper(c) as u32 == (if 0x61 <= c as u32 <= 0x7a {
            (c as u32 - 0x20) as u32
        } else {
            c as u32
        }),
        text::ascii_lower(text::ascii_upper(c)) == text::ascii_lower(c),
        text::ascii_upper(text::ascii_lower(c)) == text::ascii_upper(c),
{
}

/// A text with capitals in place of small ASCII letters is as long, and each of its characters is the
/// capital of the one that stood there.
pub proof fn law_ascii_capitals(s: Seq<char>, i: int)
    requires
        0 <= i < s.len(),
    ensures
        text::ascii_capitals(s).len() == s.len(),
        text::ascii_capitals(s)[i] == text::ascii_upper(s[i]),
{
}

/// A text contains another exactly where it is something, then the other, then something.
pub proof fn law_contains(s: Seq<char>, part: Seq<char>)
    ensures
        text::contains_text(s, part) <==> exists|a: Seq<char>, b: Seq<char>|
            s == #[trigger] (a + part + b),
{
    if text::contains_text(s, part) {
        let i = choose|i: int|
            0 <= i <= s.len() - part.len() && #[trigger] s.subrange(i, i + part.len()) == part;
        let a = s.take(i);
        let b = s.skip(i + part.len());
        assert(part =~= s.subrange(i, i + part.len()));
        assert(s =~= a + part + b);
    }
    if exists|a: Seq<char>, b: Seq<char>| s == #[trigger] (a + part + b) {
        let (a, b) = choose|a: Seq<char>, b: Seq<char>| s == #[trigger] (a + part + b);
        let i = a.len() as int;
        assert(s.subrange(i, i + part.len()) =~= part);
    }
}

/// A lead at the start of a text goes, as often as it stands there; a text that does not start with
/// it stays as it is.
pub proof fn law_leading_parts_go(s: Seq<char>, lead: Seq<char>)
    requires
        lead.len() > 0,
    ensures
        text::without_leading(lead + s, lead) == text::without_leading(s, lead),
        s.len() < lead.len() || s.take(lead.len() as int) != lead ==> text::without_leading(s, lead)
            == s,
        text::without_leading(s, lead).len() < lead.len() || text::without_leading(s, lead).take(
            lead.len() as int,
        ) != lead,
    decreases s.len(),
{
    let n = lead.len() as int;
    let t = lead + s;
    assert(t.subrange(0, n) =~= lead);
    assert(t.skip(n) =~= s);
    if s.len() >= n {
        assert(s.take(n) =~= s.subrange(0, n));
    }
    if lead.is_prefix_of(s) {
        let r = s.skip(n);
        law_leading_parts_go(r, lead);
    }
}

/// A tail at the end of a text goes, as often as it stands there; a text that does not end with it
/// stays as it is.
pub proof fn law_trailing_parts_go(s: Seq<char>, tail: Seq<char>)
    requires
        tail.len() > 0,
    ensures
        text::without_trailing(s + tail, tail) == text::without_trailing(s, tail),
        s.len() < tail.len() || s.skip(s.len() - tail.len()) != tail ==> text::without_trailing(
            s,
            tail,
        ) == s,
        text::without_trailing(s, tail).len() < tail.len() || text::without_trailing(s, tail).skip(
            text::without_trailing(s, tail).len() - tail.len(),
        ) != tail,
    decreases s.len(),
{
    let n = tail.len() as int;
    let t = s + tail;
    assert(t.subrange(t.len() - n, t.len() as int) =~= tail);
    assert(t.take(t.len() - n) =~= s);
    if s.len() >= n {
        assert(s.skip(s.len() - n) =~= s.subrange(s.len() - n, s.len() as int));
    }
    if tail.is_suffix_of(s) {
        law_trailing_parts_go(s.take(s.len() - n), tail);
    }
}

/// A character that is left out of a text is left out wherever it stands, and no other is.
pub proof fn law_character_is_left_out(a: Seq<char>, b: Seq<char>, c: char, x: char)
    ensures
        text::without_char(a + b, c) == text::without_char(a, c) + text::without_char(b, c),
        text::without_char(seq![c], c) == Seq::<char>::empty(),
        x != c ==> text::without_char(seq![x], c) == seq![x],
{
    reveal(Seq::filter);
    let p = text::other_than(c);
    Seq::filter_distributes_over_add(a, b, p);
    let none = Seq::<char>::empty();
    assert(none.filter(p) =~= none);
    assert(seq![c].drop_last() =~= none);
    assert(seq![x].drop_last() =~= none);
    assert(seq![c].filter(p) =~= none);
    if x != c {
        assert(seq![x].filter(p) =~= seq![x]);
    }
}

/// The decimal digits of a number are one or more digits without a leading zero, and stand for it,
/// whether a plus sign stands before them or not.
pub proof fn law_numbers_are_written_and_read(n: u64)
    ensures
        ({
            let d = text::decimal(n as nat);
            &&& d.len() > 0
            &&& forall|i: int| 0 <= i < d.len() ==> '0' <= #[trigger] d[i] <= '9'
            &&& d[0] == '0' ==> n == 0
            &&& text::u64_value(d) == Some(n)
            &&& text::u64_value(seq!['+'] + d) == Some(n)
        }),
{
    let d = text::decimal(n as nat);
    text::lemma_decimal_value(n as nat);
    lemma_no_leading_zero(n as nat);
    assert(text::is_digit(d[0]));
    assert(text::unsigned_digits(d) == d);
    let e = seq!['+'] + d;
    assert(e.skip(1) =~= d);
    assert(text::unsigned_digits(e) == d);
}

proof fn lemma_no_leading_zero(n: nat)
    ensures
        text::decimal(n).len() > 0,
        text::decimal(n)[0] == '0' ==> n == 0,
    decreases n,
{
    if n >= 10 {
        lemma_no_leading_zero(n / 10);
    } else {
        assert(text::decimal(n)[0] as u32 == n + ('0' as u32));
    }
}

/// One more digit makes a number ten times what it was, and the digit more.
pub proof fn law_digit_by_digit(s: Seq<char>, d: nat)
    requires
        d < 10,
    ensures
        text::digits_value(Seq::empty()) == 0,
        text::digits_value(s.push((d + 0x30) as char)) == 10 * text::digits_value(s) + d,
{
    let c = (d + 0x30) as char;
    assert(s.push(c).drop_last() =~= s);
    assert(c as u32 == d + 0x30);
}

/// No digits at all, a character that is no digit, and a number that is too large are read as no
/// number; every other run of digits is.
pub proof fn law_what_is_no_number(s: Seq<char>, i: int)
    ensures
        s.len() == 0 ==> text::u64_value(s) is None,
        s == seq!['+'] ==> text::u64_value(s) is None,
        0 < i < s.len() && !('0' <= s[i] <= '9') ==> text::u64_value(s) is None,
        s.len() > 0 && s[0] != '+' && !('0' <= s[0] <= '9') ==> text::u64_value(s) is None,
        (s.len() > 0 && forall|j: int| 0 <= j < s.len() ==> '0' <= #[trigger] s[j] <= '9') ==> (
        text::u64_value(s) == (if text::digits_value(s) <= u64::MAX {
            Some(text::digits_value(s) as u64)
        } else {
            None
        })),
{
    let d = text::unsigned_digits(s);
    if s == seq!['+'] {
        assert(d.len() == 0);
    }
    if 0 < i < s.len() && !('0' <= s[i] <= '9') {
        let j = if s[0] == '+' {
            i - 1
        } else {
            i
        };
        assert(d[j] == s[i]);
        assert(!text::is_digit(d[j]));
    }
    if s.len() > 0 && s[0] != '+' && !('0' <= s[0] <= '9') {
        assert(!text::is_digit(d[0]));
    }
    if s.len() > 0 && forall|j: int| 0 <= j < s.len() ==> '0' <= #[trigger] s[j] <= '9' {
        assert('0' <= s[0] <= '9');
        assert(d == s);
    }
}

/// Each byte is written as two lower-case hexadecimal digits, the higher first.
pub proof fn law_hexadecimal(b: Seq<u8>, i: int)
    requires
        0 <= i < b.len(),
    ensures
        text::hex_text(b).len() == 2 * b.len(),
        text::hex_text(b)[2 * i] as u32 == (b[i] as int / 16) + (if b[i] as int / 16 < 10 {
            0x30int
        } else {
            0x57int
        }),
        text::hex_text(b)[2 * i + 1] as u32 == (b[i] as int % 16) + (if b[i] as int % 16 < 10 {
            0x30int
        } else {
            0x57int
        }),
{
    assert((2 * i) / 2 == i && (2 * i) % 2 == 0);
    assert((2 * i + 1) / 2 == i && (2 * i + 1) % 2 == 1);
}

/// What a number before a unit stands for: where it can be read, the number times the unit, else the
/// default of the unit. Two letters count before one, and the unit is what the text ends with.
pub proof fn law_sizes_are_read(d: Seq<char>)
    ensures
        crate::config::size_value(d + seq!['G', 'B']) == (match text::u64_value(d) {
            Some(n) => n * 1_073_741_824,
            None => 1_073_741_824,
        }),
        crate::config::size_value(d + seq!['G']) == (match text::u64_value(d) {
            Some(n) => n * 1_073_741_824,
            None => 1_073_741_824,
        }),
        crate::config::size_value(d + seq!['M', 'B']) == (match text::u64_value(d) {
            Some(n) => n * 1_048_576,
            None => 104_857_600,
        }),
        crate::config::size_value(d + seq!['M']) == (match text::u64_value(d) {
            Some(n) => n * 1_048_576,
            None => 104_857_600,
        }),
        crate::config::size_value(d + seq!['K', 'B']) == (match text::u64_value(d) {
            Some(n) => n * 1024,
            None => 102_400_000,
        }),
        crate::config::size_value(d + seq!['K']) == (match text::u64_value(d) {
            Some(n) => n * 1024,
            None => 102_400_000,
        }),
        d.len() == 0 || (d.last() != 'G' && d.last() != 'M' && d.last() != 'K')
            ==> crate::config::size_value(d + seq!['B']) == (match text::u64_value(d) {
            Some(n) => n as int,
            None => 104_857_600,
        }),
        d.len() == 0 || (d.last() != 'G' && d.last() != 'M' && d.last() != 'K' && d.last() != 'B')
            ==> crate::config::size_value(d) == (match text::u64_value(d) {
            Some(n) => n as int,
            None => 104_857_600,
        }),
{
    lemma_unit(d, seq!['G', 'B']);
    lemma_unit(d, seq!['G']);
    lemma_unit(d, seq!['M', 'B']);
    lemma_unit(d, seq!['M']);
    lemma_unit(d, seq!['K', 'B']);
    lemma_unit(d, seq!['K']);
    lemma_unit(d, seq!['B']);
    lemma_unit(d, Seq::empty());
    assert(d + Seq::<char>::empty() =~= d);
}

/// How a text ends that something was added to.
proof fn lemma_unit(d: Seq<char>, unit: Seq<char>)
    ensures
        ({
            let t = d + unit;
            &&& crate::config::without_last(t, unit.len() as int) == d
            &&& seq!['G'].is_suffix_of(t) <==> t.len() > 0 && t.last() == 'G'
            &&& seq!['M'].is_suffix_of(t) <==> t.len() > 0 && t.last() == 'M'
            &&& seq!['K'].is_suffix_of(t) <==> t.len() > 0 && t.last() == 'K'
            &&& seq!['B'].is_suffix_of(t) <==> t.len() > 0 && t.last() == 'B'
            &&& seq!['G', 'B'].is_suffix_of(t) <==> t.len() > 1 && t.last() == 'B' && t[t.len() - 2]
                == 'G'
            &&& seq!['M', 'B'].is_suffix_of(t) <==> t.len() > 1 && t.last() == 'B' && t[t.len() - 2]
                == 'M'
            &&& seq!['K', 'B'].is_suffix_of(t) <==> t.len() > 1 && t.last() == 'B' && t[t.len() - 2]
                == 'K'
        }),
{
    let t = d + unit;
    assert(crate::config::without_last(t, unit.len() as int) =~= d);
    crate::config::lemma_tail(t, 'G', 'B');
    crate::config::lemma_tail(t, 'M', 'B');
    crate::config::lemma_tail(t, 'K', 'B');
    crate::config::lemma_tail(t, 'G', 'G');
    crate::config::lemma_tail(t, 'M', 'M');
    crate::config::lemma_tail(t, 'K', 'K');
}

/// A size is read from the text without white space around it, with capitals for small letters.
pub proof fn law_sizes_are_read_in_capitals(s: Seq<char>)
    ensures
        crate::config::size_text(s) == text::uppercase(
            text::trimmed(s).map_values(|c: char| text::ascii_upper(c)),
        ),
{
}

/// The words "delete" and "del" say that full recordings go, and every other word that they stay.
pub proof fn law_words_for_full_recordings(word: Seq<char>)
    ensures
        crate::config::action_of(word) == RecordOverflowAction::Delete <==> (word == "delete"@ || word
            == "del"@),
        crate::config::action_of(word) == RecordOverflowAction::Archive <==> (word != "delete"@ && word
            != "del"@),
{
    reveal_strlit("delete");
    reveal_strlit("del");
    assert("delete"@ =~= seq!['d', 'e', 'l', 'e', 't', 'e']);
    assert("del"@ =~= seq!['d', 'e', 'l']);
}

/// The identifiers that chance gives: hyphens at four places, lower-case hexadecimal digits at all
/// others, the version and the variant at theirs.
pub proof fn law_identifiers(s: Seq<char>, i: int)
    requires
        outside::uuid_text(s),
        0 <= i < 36,
    ensures
        s.len() == 36,
        s[i] == '-' <==> (i == 8 || i == 13 || i == 18 || i == 23),
        s[i] == '-' || '0' <= s[i] <= '9' || 'a' <= s[i] <= 'f',
        s[14] == '4',
        s[19] == '8' || s[19] == '9' || s[19] == 'a' || s[19] == 'b',
{
}

} // verus!
