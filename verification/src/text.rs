//! Text: what the rest of the library asks of strings, stated over sequences of characters.
use vstd::prelude::*;
use vstd::string::*;
use vstd::utf8::*;

verus! {

/// The characters with Unicode's White_Space property.
pub open spec fn white_space(c: char) -> bool {
    let n = c as u32;
    ||| 0x09 <= n <= 0x0d
    ||| n == 0x20
    ||| n == 0x85
    ||| n == 0xa0
    ||| n == 0x1680
    ||| 0x2000 <= n <= 0x200a
    ||| n == 0x2028
    ||| n == 0x2029
    ||| n == 0x202f
    ||| n == 0x205f
    ||| n == 0x3000
}

/// `s` without the white space at its start.
pub open spec fn trimmed_start(s: Seq<char>) -> Seq<char>
    decreases s.len(),
{
    if s.len() > 0 && white_space(s[0]) {
        trimmed_start(s.skip(1))
    } else {
        s
    }
}

/// `s` without the white space at its end.
pub open spec fn trimmed_end(s: Seq<char>) -> Seq<char>
    decreases s.len(),
{
    if s.len() > 0 && white_space(s.last()) {
        trimmed_end(s.drop_last())
    } else {
        s
    }
}

/// `s` without the white space at either end.
pub open spec fn trimmed(s: Seq<char>) -> Seq<char> {
    trimmed_end(trimmed_start(s))
}

/// The lower-case form of an ASCII capital; any other character as it is.
pub open spec fn ascii_lower(c: char) -> char {
    if 'A' <= c <= 'Z' {
        ((c as u32) + 32) as char
    } else {
        c
    }
}

/// The upper-case form of a small ASCII letter; any other character as it is.
pub open spec fn ascii_upper(c: char) -> char {
    if 'a' <= c <= 'z' {
        ((c as u32) - 32) as char
    } else {
        c
    }
}

/// A text with capitals in place of small ASCII letters.
pub open spec fn ascii_capitals(s: Seq<char>) -> Seq<char> {
    s.map_values(|c: char| ascii_upper(c))
}

/// Whether a text holds nothing but white space.
pub open spec fn blank(s: Seq<char>) -> bool {
    forall|i: int| 0 <= i < s.len() ==> white_space(#[trigger] s[i])
}

/// Whether `part` occurs somewhere in `s`.
pub open spec fn contains_text(s: Seq<char>, part: Seq<char>) -> bool {
    exists|i: int|
        0 <= i <= s.len() - part.len() && #[trigger] s.subrange(i, i + part.len()) == part
}

/// `s` after `lead` was taken from its start as often as it stood there.
pub open spec fn without_leading(s: Seq<char>, lead: Seq<char>) -> Seq<char>
    decreases s.len(),
{
    if lead.len() > 0 && lead.is_prefix_of(s) {
        without_leading(s.skip(lead.len() as int), lead)
    } else {
        s
    }
}

/// `s` after `tail` was taken from its end as often as it stood there.
pub open spec fn without_trailing(s: Seq<char>, tail: Seq<char>) -> Seq<char>
    decreases s.len(),
{
    if tail.len() > 0 && tail.is_suffix_of(s) {
        without_trailing(s.take(s.len() - tail.len()), tail)
    } else {
        s
    }
}

/// `s` without the character `c`.
pub open spec fn without_char(s: Seq<char>, c: char) -> Seq<char> {
    s.filter(other_than(c))
}

/// Picks the characters other than `c`.
pub open spec fn other_than(c: char) -> spec_fn(char) -> bool {
    |x: char| x != c
}

/// A decimal digit.
pub open spec fn is_digit(c: char) -> bool {
    '0' <= c <= '9'
}

/// The number that a run of decimal digits stands for.
pub open spec fn digits_value(s: Seq<char>) -> nat
    decreases s.len(),
{
    if s.len() == 0 {
        0
    } else {
        digits_value(s.drop_last()) * 10 + ((s.last() as u32) - ('0' as u32)) as nat
    }
}

/// The digits of a number's text: the text itself, or what follows its plus sign.
pub open spec fn unsigned_digits(s: Seq<char>) -> Seq<char> {
    if s.len() > 0 && s[0] == '+' {
        s.skip(1)
    } else {
        s
    }
}

/// What a text stands for as a number of 64 bits: an optional plus sign, then one or more
/// decimal digits. Any other text, and a number that does not fit, stands for none.
pub open spec fn u64_value(s: Seq<char>) -> Option<u64> {
    let d = unsigned_digits(s);
    if d.len() > 0 && (forall|i: int| 0 <= i < d.len() ==> is_digit(#[trigger] d[i]))
        && digits_value(d) <= u64::MAX {
        Some(digits_value(d) as u64)
    } else {
        None
    }
}

/// The character of a decimal digit.
pub open spec fn digit_char(d: nat) -> char {
    (d + ('0' as u32)) as char
}

/// A number in decimal digits, without leading zeros.
pub open spec fn decimal(n: nat) -> Seq<char>
    decreases n,
{
    if n < 10 {
        seq![digit_char(n)]
    } else {
        decimal(n / 10).push(digit_char(n % 10))
    }
}

/// The digits of a number stand for it.
pub proof fn lemma_decimal_value(n: nat)
    ensures
        digits_value(decimal(n)) == n,
        decimal(n).len() > 0,
        forall|i: int| 0 <= i < decimal(n).len() ==> is_digit(#[trigger] decimal(n)[i]),
    decreases n,
{
    let d = decimal(n);
    if n < 10 {
        assert(d.drop_last() =~= Seq::empty());
        assert(digits_value(d.drop_last()) == 0);
        assert(d.last() as u32 == n + ('0' as u32));
    } else {
        lemma_decimal_value(n / 10);
        assert(d.drop_last() =~= decimal(n / 10));
        assert(d.last() as u32 == n % 10 + ('0' as u32));
        assert forall|i: int| 0 <= i < d.len() implies is_digit(#[trigger] d[i]) by {
            if i < d.len() - 1 {
                assert(d[i] == decimal(n / 10)[i]);
            }
        }
    }
}

/// The lower-case hexadecimal digit of a number below sixteen.
pub open spec fn hex_digit(n: int) -> char {
    if n < 10 {
        (n + ('0' as u32)) as char
    } else {
        (n - 10 + ('a' as u32)) as char
    }
}

/// Bytes as lower-case hexadecimal digits, two for each byte.
pub open spec fn hex_text(b: Seq<u8>) -> Seq<char> {
    Seq::new(
        2 * b.len(),
        |i: int|
            if i % 2 == 0 {
                hex_digit(b[i / 2] as int / 16)
            } else {
                hex_digit(b[i / 2] as int % 16)
            },
    )
}

/// What is left of a text of ASCII characters after white space was taken away is one, too.
pub proof fn lemma_trimmed_ascii(s: Seq<char>)
    requires
        is_ascii_chars(s),
    ensures
        is_ascii_chars(trimmed(s)),
{
    lemma_trimmed_start_ascii(s);
    lemma_trimmed_end_ascii(trimmed_start(s));
}

proof fn lemma_trimmed_start_ascii(s: Seq<char>)
    requires
        is_ascii_chars(s),
    ensures
        is_ascii_chars(trimmed_start(s)),
    decreases s.len(),
{
    if s.len() > 0 && white_space(s[0]) {
        lemma_trimmed_start_ascii(s.skip(1));
    }
}

proof fn lemma_trimmed_end_ascii(s: Seq<char>)
    requires
        is_ascii_chars(s),
    ensures
        is_ascii_chars(trimmed_end(s)),
    decreases s.len(),
{
    if s.len() > 0 && white_space(s.last()) {
        lemma_trimmed_end_ascii(s.drop_last());
    }
}

/// Making a capital of a small letter neither makes nor takes white space.
proof fn lemma_capital_is_no_blank(c: char)
    ensures
        white_space(ascii_upper(c)) == white_space(c),
{
}

proof fn lemma_trimmed_start_capitals(s: Seq<char>)
    ensures
        trimmed_start(ascii_capitals(s)) == ascii_capitals(trimmed_start(s)),
    decreases s.len(),
{
    if s.len() > 0 {
        lemma_capital_is_no_blank(s[0]);
        lemma_trimmed_start_capitals(s.skip(1));
        assert(ascii_capitals(s).skip(1) =~= ascii_capitals(s.skip(1)));
    }
}

proof fn lemma_trimmed_end_capitals(s: Seq<char>)
    ensures
        trimmed_end(ascii_capitals(s)) == ascii_capitals(trimmed_end(s)),
    decreases s.len(),
{
    if s.len() > 0 {
        lemma_capital_is_no_blank(s.last());
        lemma_trimmed_end_capitals(s.drop_last());
        assert(ascii_capitals(s).drop_last() =~= ascii_capitals(s.drop_last()));
    }
}

/// White space can be taken away before or after small letters become capitals.
pub proof fn lemma_trimmed_capitals(s: Seq<char>)
    ensures
        trimmed(ascii_capitals(s)) == ascii_capitals(trimmed(s)),
{
    lemma_trimmed_start_capitals(s);
    lemma_trimmed_end_capitals(trimmed_start(s));
}

proof fn lemma_trimmed_start_after_blank(lead: Seq<char>, s: Seq<char>)
    requires
        blank(lead),
    ensures
        trimmed_start(lead + s) == trimmed_start(s),
    decreases lead.len(),
{
    if lead.len() == 0 {
        assert(lead + s =~= s);
    } else {
        assert(white_space(lead[0]));
        assert((lead + s).skip(1) =~= lead.skip(1) + s);
        assert forall|i: int| 0 <= i < lead.skip(1).len() implies white_space(
            #[trigger] lead.skip(1)[i],
        ) by {
            assert(white_space(lead[i + 1]));
        }
        lemma_trimmed_start_after_blank(lead.skip(1), s);
    }
}

proof fn lemma_trimmed_end_before_blank(s: Seq<char>, tail: Seq<char>)
    requires
        blank(tail),
    ensures
        trimmed_end(s + tail) == trimmed_end(s),
    decreases tail.len(),
{
    if tail.len() == 0 {
        assert(s + tail =~= s);
    } else {
        assert(white_space(tail[tail.len() - 1]));
        assert((s + tail).drop_last() =~= s + tail.drop_last());
        assert forall|i: int| 0 <= i < tail.drop_last().len() implies white_space(
            #[trigger] tail.drop_last()[i],
        ) by {
            assert(white_space(tail[i]));
        }
        lemma_trimmed_end_before_blank(s, tail.drop_last());
    }
}

proof fn lemma_trimmed_start_of_two(s: Seq<char>, tail: Seq<char>)
    ensures
        trimmed_start(s + tail) == (if trimmed_start(s).len() > 0 {
            trimmed_start(s) + tail
        } else {
            trimmed_start(tail)
        }),
    decreases s.len(),
{
    if s.len() == 0 {
        assert(s + tail =~= tail);
    } else {
        assert((s + tail)[0] == s[0]);
        assert((s + tail).skip(1) =~= s.skip(1) + tail);
        lemma_trimmed_start_of_two(s.skip(1), tail);
    }
}

/// White space around a text makes no difference to what is left without it.
pub proof fn lemma_trimmed_with_blanks(lead: Seq<char>, s: Seq<char>, tail: Seq<char>)
    requires
        blank(lead),
        blank(tail),
    ensures
        trimmed(lead + s + tail) == trimmed(s),
{
    assert(lead + s + tail =~= lead + (s + tail));
    lemma_trimmed_start_after_blank(lead, s + tail);
    lemma_trimmed_start_of_two(s, tail);
    if trimmed_start(s).len() > 0 {
        lemma_trimmed_end_before_blank(trimmed_start(s), tail);
    } else {
        let none = Seq::<char>::empty();
        assert(trimmed_start(s) =~= none);
        lemma_trimmed_start_after_blank(tail, none);
        assert(tail + none =~= tail);
    }
}

/// `String::push`: the string grows by the character at its end.
pub assume_specification[ String::push ](s: &mut String, c: char)
    ensures
        final(s)@ == old(s)@.push(c),
;

/// What `str::to_lowercase` makes of a text.
pub uninterp spec fn lowercase(s: Seq<char>) -> Seq<char>;

/// What `str::to_uppercase` makes of a text.
pub uninterp spec fn uppercase(s: Seq<char>) -> Seq<char>;

/// `str::to_lowercase`: Unicode's lower-case mapping, a function of the text alone. On a text of
/// ASCII characters it maps each capital to its small letter and keeps the rest.
pub assume_specification[ str::to_lowercase ](s: &str) -> (r: String)
    ensures
        r@ == lowercase(s@),
        is_ascii_chars(s@) ==> r@ == s@.map_values(|c: char| ascii_lower(c)),
;

/// `str::to_uppercase`: Unicode's upper-case mapping, a function of the text alone. It maps each
/// character whatever stands around it, so it makes no difference whether small ASCII letters are
/// capitals already. On a text of ASCII characters it maps each small letter to its capital and keeps
/// the rest.
pub assume_specification[ str::to_uppercase ](s: &str) -> (r: String)
    ensures
        r@ == uppercase(s@),
        r@ == uppercase(ascii_capitals(s@)),
        is_ascii_chars(s@) ==> r@ == ascii_capitals(s@),
;

/// The characters of a string.
pub fn chars_of(s: &str) -> (r: Vec<char>)
    ensures
        r@ == s@,
{
    let mut v: Vec<char> = Vec::new();
    for c in it: s.chars()
        invariant
            it.seq() == s@,
            v@ == s@.take(it.index() as int),
    {
        assert(s@.take(it.index() + 1) =~= s@.take(it.index() as int).push(c));
        v.push(c);
    }
    v
}

/// Whether two strings hold the same characters.
pub fn same_text(a: &str, b: &str) -> (r: bool)
    ensures
        r == (a@ == b@),
{
    let x: &[u8] = a.as_bytes();
    let y: &[u8] = b.as_bytes();
    proof {
        encode_utf8_decode_utf8(a@);
        encode_utf8_decode_utf8(b@);
    }
    if x.len() != y.len() {
        return false;
    }
    let mut i: usize = 0;
    while i < x.len()
        invariant
            x@.len() == y@.len(),
            i <= x@.len(),
            forall|j: int| 0 <= j < i ==> x@[j] == y@[j],
            x@ == encode_utf8(a@),
            y@ == encode_utf8(b@),
        decreases x@.len() - i,
    {
        if x[i] != y[i] {
            return false;
        }
        i = i + 1;
    }
    assert(x@ =~= y@);
    true
}

/// Whether `lead` stands at the start of `s`.
pub fn starts_with(s: &str, lead: &str) -> (r: bool)
    ensures
        r == lead@.is_prefix_of(s@),
{
    let x: Vec<char> = chars_of(s);
    let y: Vec<char> = chars_of(lead);
    occurs_at(&x, &y, 0)
}

/// Whether `part` stands in `s` at the position `at`.
fn occurs_at(s: &Vec<char>, part: &Vec<char>, at: usize) -> (r: bool)
    requires
        at <= s@.len(),
    ensures
        r == (at + part@.len() <= s@.len() && s@.subrange(at as int, at + part@.len()) == part@),
{
    let len: usize = s.len();
    if part.len() > len - at {
        return false;
    }
    let mut i: usize = 0;
    while i < part.len()
        invariant
            i <= part@.len(),
            at + part@.len() <= s@.len() == len,
            forall|j: int| 0 <= j < i ==> s@[at + j] == part@[j],
        decreases part@.len() - i,
    {
        if s[at + i] != part[i] {
            assert(s@.subrange(at as int, at + part@.len())[i as int] != part@[i as int]);
            return false;
        }
        i = i + 1;
    }
    assert(s@.subrange(at as int, at + part@.len()) =~= part@);
    true
}

/// Whether `tail` stands at the end of `s`.
pub fn ends_with(s: &str, tail: &str) -> (r: bool)
    ensures
        r == tail@.is_suffix_of(s@),
{
    let x: Vec<char> = chars_of(s);
    let y: Vec<char> = chars_of(tail);
    if y.len() > x.len() {
        return false;
    }
    occurs_at(&x, &y, x.len() - y.len())
}

/// Whether `part` occurs in `s`.
pub fn contains(s: &str, part: &str) -> (r: bool)
    ensures
        r == contains_text(s@, part@),
{
    let x: Vec<char> = chars_of(s);
    let y: Vec<char> = chars_of(part);
    if y.len() > x.len() {
        return false;
    }
    let last: usize = x.len() - y.len();
    let mut i: usize = 0;
    while i <= last
        invariant
            last == x@.len() - y@.len(),
            i <= last + 1,
            x@ == s@,
            y@ == part@,
            forall|j: int| 0 <= j < i ==> #[trigger] x@.subrange(j, j + y@.len()) != y@,
        decreases last + 1 - i,
    {
        if occurs_at(&x, &y, i) {
            return true;
        }
        if i == last {
            return false;
        }
        i = i + 1;
    }
    false
}

/// `s` without the white space at either end.
pub fn trim(s: &str) -> (r: &str)
    ensures
        r@ == trimmed(s@),
{
    let x: Vec<char> = chars_of(s);
    let mut from: usize = 0;
    assert(x@.skip(0) =~= s@);
    while from < x.len() && is_white_space(x[from])
        invariant
            x@ == s@,
            from <= x@.len(),
            trimmed_start(x@.skip(from as int)) == trimmed_start(s@),
        decreases x@.len() - from,
    {
        assert(x@.skip(from as int).skip(1) =~= x@.skip(from + 1));
        from = from + 1;
    }
    let ghost front = x@.skip(from as int);
    assert(front == trimmed_start(s@));
    let mut to: usize = x.len();
    assert(x@.subrange(from as int, to as int) =~= front);
    while to > from && is_white_space(x[to - 1])
        invariant
            x@ == s@,
            from <= to <= x@.len(),
            trimmed_end(x@.subrange(from as int, to as int)) == trimmed_end(front),
        decreases to,
    {
        assert(x@.subrange(from as int, to as int).drop_last() =~= x@.subrange(
            from as int,
            to - 1,
        ));
        to = to - 1;
    }
    s.substring_char(from, to)
}

/// Whether a character has Unicode's White_Space property.
pub fn is_white_space(c: char) -> (r: bool)
    ensures
        r == white_space(c),
{
    let n: u32 = c as u32;
    (0x09 <= n && n <= 0x0d) || n == 0x20 || n == 0x85 || n == 0xa0 || n == 0x1680 || (0x2000 <= n
        && n <= 0x200a) || n == 0x2028 || n == 0x2029 || n == 0x202f || n == 0x205f || n == 0x3000
}

/// `s` after every `lead` at its start was taken away.
pub fn trim_leading<'a>(s: &'a str, lead: &str) -> (r: &'a str)
    ensures
        r@ == without_leading(s@, lead@),
{
    let x: Vec<char> = chars_of(s);
    let y: Vec<char> = chars_of(lead);
    let len: usize = x.len();
    let mut from: usize = 0;
    assert(x@.skip(0) =~= s@);
    while y.len() > 0 && occurs_at(&x, &y, from)
        invariant
            x@ == s@,
            x@.len() == len,
            y@ == lead@,
            from <= x@.len(),
            without_leading(x@.skip(from as int), lead@) == without_leading(s@, lead@),
        decreases x@.len() - from,
    {
        let ghost rest = x@.skip(from as int);
        assert(x@.subrange(from as int, from + y@.len()) =~= rest.subrange(0, y@.len() as int));
        assert(rest.skip(lead@.len() as int) =~= x@.skip(from + y@.len()));
        from = from + y.len();
    }
    proof {
        let rest = x@.skip(from as int);
        if lead@.len() > 0 && lead@.is_prefix_of(rest) {
            assert(x@.subrange(from as int, from + y@.len()) =~= rest.subrange(0, y@.len() as int));
        }
        assert(rest =~= x@.subrange(from as int, x@.len() as int));
    }
    s.substring_char(from, len)
}

/// `s` after every `tail` at its end was taken away.
pub fn trim_trailing<'a>(s: &'a str, tail: &str) -> (r: &'a str)
    ensures
        r@ == without_trailing(s@, tail@),
{
    let x: Vec<char> = chars_of(s);
    let y: Vec<char> = chars_of(tail);
    let mut to: usize = x.len();
    assert(x@.take(to as int) =~= s@);
    while y.len() > 0 && y.len() <= to && occurs_at(&x, &y, to - y.len())
        invariant
            x@ == s@,
            y@ == tail@,
            to <= x@.len(),
            without_trailing(x@.take(to as int), tail@) == without_trailing(s@, tail@),
        decreases to,
    {
        let ghost rest = x@.take(to as int);
        assert(x@.subrange(to - y@.len(), to as int) =~= rest.subrange(
            rest.len() - y@.len(),
            rest.len() as int,
        ));
        assert(rest.take(rest.len() - tail@.len()) =~= x@.take(to - y@.len()));
        to = to - y.len();
    }
    proof {
        let rest = x@.take(to as int);
        if tail@.len() > 0 && tail@.is_suffix_of(rest) {
            assert(x@.subrange(to - y@.len(), to as int) =~= rest.subrange(
                rest.len() - y@.len(),
                rest.len() as int,
            ));
        }
        assert(rest =~= x@.subrange(0, to as int));
    }
    s.substring_char(0, to)
}

/// `s` without its last characters `tail`, where it ends with them.
pub fn strip_tail<'a>(s: &'a str, tail: &str) -> (r: Option<&'a str>)
    ensures
        match r {
            Some(t) => tail@.is_suffix_of(s@) && t@ == s@.take(s@.len() - tail@.len()),
            None => !tail@.is_suffix_of(s@),
        },
{
    if ends_with(s, tail) {
        let n: usize = s.unicode_len();
        let m: usize = tail.unicode_len();
        assert(s@.take(n - m) =~= s@.subrange(0, n - m));
        Some(s.substring_char(0, n - m))
    } else {
        None
    }
}

/// The small letter of an ASCII capital; any other character as it is.
fn lower_char(c: char) -> (r: char)
    ensures
        r == ascii_lower(c),
{
    if 'A' <= c && c <= 'Z' {
        ((c as u8) + 32) as char
    } else {
        c
    }
}

/// Whether two strings agree when ASCII capitals count as small letters.
pub fn eq_ignore_ascii_case(a: &str, b: &str) -> (r: bool)
    ensures
        r == (a@.map_values(|c: char| ascii_lower(c)) == b@.map_values(|c: char| ascii_lower(c))),
{
    let x: Vec<char> = chars_of(a);
    let y: Vec<char> = chars_of(b);
    let ghost lx = a@.map_values(|c: char| ascii_lower(c));
    let ghost ly = b@.map_values(|c: char| ascii_lower(c));
    if x.len() != y.len() {
        assert(lx.len() != ly.len());
        return false;
    }
    let mut i: usize = 0;
    while i < x.len()
        invariant
            x@ == a@,
            y@ == b@,
            x@.len() == y@.len(),
            i <= x@.len(),
            lx == a@.map_values(|c: char| ascii_lower(c)),
            ly == b@.map_values(|c: char| ascii_lower(c)),
            forall|j: int| 0 <= j < i ==> lx[j] == ly[j],
        decreases x@.len() - i,
    {
        if lower_char(x[i]) != lower_char(y[i]) {
            assert(lx[i as int] != ly[i as int]);
            return false;
        }
        i = i + 1;
    }
    assert(lx =~= ly);
    true
}

/// The first digits of a run stand for no more than the whole run.
proof fn lemma_digits_grow(s: Seq<char>, n: int)
    requires
        0 <= n <= s.len(),
        forall|i: int| 0 <= i < s.len() ==> is_digit(#[trigger] s[i]),
    ensures
        digits_value(s.take(n)) <= digits_value(s),
    decreases s.len() - n,
{
    if n == s.len() {
        assert(s.take(n) =~= s);
    } else {
        lemma_digits_grow(s, n + 1);
        assert(s.take(n + 1).drop_last() =~= s.take(n));
    }
}

/// The number of 64 bits that a text stands for, if it stands for one.
pub fn parse_u64(s: &str) -> (r: Option<u64>)
    ensures
        r == u64_value(s@),
{
    let x: Vec<char> = chars_of(s);
    let from: usize = if x.len() > 0 && x[0] == '+' {
        1
    } else {
        0
    };
    let ghost d = unsigned_digits(s@);
    assert(d =~= x@.skip(from as int));
    if x.len() == from {
        return None;
    }
    let mut i: usize = from;
    let mut value: u64 = 0;
    assert(d.take(0) =~= Seq::<char>::empty());
    while i < x.len()
        invariant
            x@ == s@,
            from <= 1,
            from <= i <= x@.len(),
            d == unsigned_digits(s@),
            d =~= x@.skip(from as int),
            d.len() > 0,
            forall|j: int| 0 <= j < i - from ==> is_digit(#[trigger] d[j]),
            value == digits_value(d.take(i - from)),
        decreases x@.len() - i,
    {
        let c: char = x[i];
        let ghost k = i - from;
        assert(d[k] == c);
        if !('0' <= c && c <= '9') {
            return None;
        }
        assert(d.take(k + 1).drop_last() =~= d.take(k));
        let digit: u64 = (c as u64) - ('0' as u64);
        match value.checked_mul(10) {
            None => {
                proof {
                    if forall|j: int| 0 <= j < d.len() ==> is_digit(#[trigger] d[j]) {
                        lemma_digits_grow(d, k + 1);
                    }
                }
                return None;
            },
            Some(tens) => {
                match tens.checked_add(digit) {
                    None => {
                        proof {
                            if forall|j: int| 0 <= j < d.len() ==> is_digit(#[trigger] d[j]) {
                                lemma_digits_grow(d, k + 1);
                            }
                        }
                        return None;
                    },
                    Some(next) => {
                        value = next;
                    },
                }
            },
        }
        i = i + 1;
    }
    assert(d.take(i - from) =~= d);
    Some(value)
}

/// A number in decimal digits.
pub fn decimal_text(n: u32) -> (r: String)
    ensures
        r@ == decimal(n as nat),
    decreases n,
{
    let last: char = ((n % 10) as u8 + 48) as char;
    let mut text: String = if n < 10 {
        String::new()
    } else {
        decimal_text(n / 10)
    };
    text.push(last);
    assert(n < 10 ==> text@ =~= seq![digit_char(n as nat)]);
    text
}

/// Bytes as lower-case hexadecimal digits.
pub fn hex_of(b: &[u8]) -> (r: String)
    ensures
        r@ == hex_text(b@),
{
    let mut text: String = String::new();
    let mut i: usize = 0;
    while i < b.len()
        invariant
            i <= b@.len(),
            text@ == hex_text(b@).take(2 * i),
        decreases b@.len() - i,
    {
        let byte: u8 = b[i];
        text.push(hex_char(byte / 16));
        text.push(hex_char(byte % 16));
        assert(hex_text(b@).take(2 * (i + 1)) =~= hex_text(b@).take(2 * i).push(
            hex_digit(byte as int / 16),
        ).push(hex_digit(byte as int % 16)));
        i = i + 1;
    }
    assert(hex_text(b@).take(2 * i) =~= hex_text(b@));
    text
}

/// The lower-case hexadecimal digit of a number below sixteen.
fn hex_char(n: u8) -> (r: char)
    requires
        n < 16,
    ensures
        r == hex_digit(n as int),
{
    if n < 10 {
        (n + 48) as char
    } else {
        (n - 10 + 97) as char
    }
}

/// The first `n` characters of `s` that are not `c`.
pub fn first_without(s: &str, c: char, n: usize) -> (r: String)
    requires
        n <= without_char(s@, c).len(),
    ensures
        r@ == without_char(s@, c).take(n as int),
{
    let x: Vec<char> = chars_of(s);
    let mut kept: Vec<char> = Vec::new();
    let mut i: usize = 0;
    assert(s@.take(0).filter(other_than(c)) =~= Seq::<char>::empty()) by {
        reveal(Seq::filter);
    }
    while i < x.len()
        invariant
            x@ == s@,
            i <= x@.len(),
            kept@ == s@.take(i as int).filter(other_than(c)),
        decreases x@.len() - i,
    {
        assert(s@.take(i + 1).drop_last() =~= s@.take(i as int));
        proof {
            reveal(Seq::filter);
        }
        if x[i] != c {
            kept.push(x[i]);
        }
        i = i + 1;
    }
    assert(s@.take(i as int) =~= s@);
    let mut text: String = String::new();
    let mut j: usize = 0;
    while j < n
        invariant
            j <= n <= kept@.len(),
            text@ == kept@.take(j as int),
        decreases n - j,
    {
        text.push(kept[j]);
        assert(kept@.take(j + 1) =~= kept@.take(j as int).push(kept@[j as int]));
        j = j + 1;
    }
    text
}

} // verus!
