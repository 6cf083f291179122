//! Character-level helpers on strings.
//!
//! A string is modelled by the sequence of its characters. Functions that have to look inside
//! a string first unpack it into a vector of characters.

use vstd::prelude::*;
use vstd::utf8::{decode_utf8, valid_utf8};

verus! {

/// `String::push` of the standard library: the character is appended to the string.
pub assume_specification[ String::push ](s: &mut String, c: char)
    ensures
        final(s)@ == old(s)@.push(c),
;

/// The characters of `s`, in order.
pub fn chars_of(s: &str) -> (chars: Vec<char>)
    ensures
        chars@ == s@,
{
    let mut chars: Vec<char> = Vec::new();
    for c in it: s.chars()
        invariant
            it.seq() == s@,
            chars@ == s@.take(it.index()),
    {
        chars.push(c);
    }
    chars
}

/// The string that holds `chars`, in order.
pub fn string_of(chars: &[char]) -> (s: String)
    ensures
        s@ == chars@,
{
    let mut s: String = String::new();
    let mut i: usize = 0;
    while i < chars.len()
        invariant
            i <= chars@.len(),
            s@ == chars@.take(i as int),
        decreases chars@.len() - i,
    {
        s.push(chars[i]);
        i = i + 1;
    }
    s
}

/// The characters of each string of `strings`.
pub open spec fn texts(strings: Seq<String>) -> Seq<Seq<char>> {
    strings.map_values(|s: String| s@)
}

/// The characters of `s`, if there is a string.
pub open spec fn opt_text(s: Option<String>) -> Option<Seq<char>> {
    match s {
        Some(s) => Some(s@),
        None => None,
    }
}

/// The characters of `s`, if there is a string.
pub open spec fn opt_str(s: Option<&str>) -> Option<Seq<char>> {
    match s {
        Some(s) => Some(s@),
        None => None,
    }
}

/// What `String::from_utf8_lossy` of the standard library makes of `bytes`.
pub uninterp spec fn lossy_utf8(bytes: Seq<u8>) -> Seq<char>;

/// Calls `String::from_utf8_lossy`: bytes that are valid UTF-8 are decoded; how the invalid ones
/// are replaced is left to the standard library, under the name `lossy_utf8`.
#[verifier::external_body]
pub(crate) fn from_utf8_lossy(bytes: &[u8]) -> (s: String)
    ensures
        s@ == lossy_utf8(bytes@),
        valid_utf8(bytes@) ==> s@ == decode_utf8(bytes@),
{
    String::from_utf8_lossy(bytes).into_owned()
}

/// Whether the two strings hold the same characters.
pub fn same_text(a: &str, b: &str) -> (same: bool)
    ensures
        same == (a@ == b@),
{
    a.to_owned() == b.to_owned()
}

/// `a` followed by `b`.
pub fn concat(a: &str, b: &str) -> (s: String)
    ensures
        s@ == a@ + b@,
{
    let mut s: String = a.to_owned();
    s.append(b);
    s
}

/// `a`, `b` and `c`, one after the other.
pub fn concat3(a: &str, b: &str, c: &str) -> (s: String)
    ensures
        s@ == a@ + b@ + c@,
{
    let mut s: String = a.to_owned();
    s.append(b);
    s.append(c);
    s
}

/// `a`, `b`, `c` and `d`, one after the other.
pub fn concat4(a: &str, b: &str, c: &str, d: &str) -> (s: String)
    ensures
        s@ == a@ + b@ + c@ + d@,
{
    let mut s: String = concat3(a, b, c);
    s.append(d);
    s
}

/// The characters with the Unicode property `White_Space`.
pub open spec fn is_white_space(c: char) -> bool {
    let n = c as u32;
    ||| 0x09 <= n <= 0x0d
    ||| n == 0x20
    ||| n == 0x85
    ||| n == 0xa0
    ||| n == 0x1680
    ||| 0x2000 <= n <= 0x200a
    ||| n == 0x2028
    ||| n == 0x2029
    ||| n == 0x202f
    ||| n == 0x205f
    ||| n == 0x3000
}

/// `s` without the white space at its start.
pub open spec fn trim_start(s: Seq<char>) -> Seq<char>
    decreases s.len(),
{
    if s.len() > 0 && is_white_space(s[0]) {
        trim_start(s.drop_first())
    } else {
        s
    }
}

/// `s` without the white space at its end.
pub open spec fn trim_end(s: Seq<char>) -> Seq<char>
    decreases s.len(),
{
    if s.len() > 0 && is_white_space(s.last()) {
        trim_end(s.drop_last())
    } else {
        s
    }
}

/// `s` without the white space at its two ends.
pub open spec fn trimmed(s: Seq<char>) -> Seq<char> {
    trim_end(trim_start(s))
}

fn white_space(c: char) -> (b: bool)
    ensures
        b == is_white_space(c),
{
    let n: u32 = c as u32;
    (0x09 <= n && n <= 0x0d) || n == 0x20 || n == 0x85 || n == 0xa0 || n == 0x1680 || (0x2000 <= n
        && n <= 0x200a) || n == 0x2028 || n == 0x2029 || n == 0x202f || n == 0x205f || n == 0x3000
}

/// `s` without the white space at its two ends.
pub fn trim(s: &str) -> (t: String)
    ensures
        t@ == trimmed(s@),
{
    let chars: Vec<char> = chars_of(s);
    let mut start: usize = 0;
    assert(chars@.skip(0) == chars@);
    while start < chars.len() && white_space(chars[start])
        invariant
            start <= chars@.len(),
            trim_start(chars@) == trim_start(chars@.skip(start as int)),
        decreases chars@.len() - start,
    {
        assert(chars@.skip(start as int).drop_first() == chars@.skip(start + 1));
        start = start + 1;
    }
    let ghost tail = chars@.skip(start as int);
    assert(trim_start(chars@) == tail);
    let mut end: usize = chars.len();
    assert(chars@.subrange(start as int, end as int) == tail);
    while end > start && white_space(chars[end - 1])
        invariant
            start <= end <= chars@.len(),
            trim_end(tail) == trim_end(chars@.subrange(start as int, end as int)),
        decreases end,
    {
        assert(chars@.subrange(start as int, end as int).drop_last() == chars@.subrange(
            start as int,
            end - 1,
        ));
        end = end - 1;
    }
    string_of(vstd::slice::slice_subrange(chars.as_slice(), start, end))
}

/// The parts of `s` between the characters `sep`: always one more than `s` has of these.
pub open spec fn split(s: Seq<char>, sep: char) -> Seq<Seq<char>>
    decreases s.len(),
{
    if s.len() == 0 {
        seq![Seq::empty()]
    } else {
        let parts = split(s.drop_last(), sep);
        if s.last() == sep {
            parts.push(Seq::empty())
        } else {
            parts.drop_last().push(parts.last().push(s.last()))
        }
    }
}

/// Splits `s` at every `sep`.
pub fn split_text(s: &str, sep: char) -> (parts: Vec<String>)
    ensures
        texts(parts@) == split(s@, sep),
{
    let mut parts: Vec<String> = Vec::new();
    let mut part: String = String::new();
    assert(split(s@.take(0), sep) == texts(parts@).push(part@));
    for c in it: s.chars()
        invariant
            it.seq() == s@,
            split(s@.take(it.index()), sep) == texts(parts@).push(part@),
    {
        let ghost before = s@.take(it.index());
        let ghost after = s@.take(it.index() + 1);
        assert(after.drop_last() == before);
        if c == sep {
            let ghost old_parts = parts@;
            let ghost old_part = part@;
            parts.push(part);
            assert(texts(parts@) == texts(old_parts).push(old_part));
            part = String::new();
        } else {
            assert(texts(parts@).push(part@).drop_last() == texts(parts@));
            part.push(c);
        }
    }
    assert(s@.take(s@.len() as int) == s@);
    let ghost old_parts = parts@;
    let ghost old_part = part@;
    parts.push(part);
    assert(texts(parts@) == texts(old_parts).push(old_part));
    parts
}

/// The digits of `n` in base ten.
pub open spec fn decimal(n: nat) -> Seq<char>
    decreases n,
{
    let digit = (('0' as nat) + n % 10) as char;
    if n < 10 {
        seq![digit]
    } else {
        decimal(n / 10).push(digit)
    }
}

/// Writes `n` in base ten.
pub fn decimal_text(n: u64) -> (s: String)
    ensures
        s@ == decimal(n as nat),
    decreases n,
{
    let digit: char = (48u8 + (n % 10) as u8) as char;
    let mut s: String = if n < 10 {
        String::new()
    } else {
        decimal_text(n / 10)
    };
    s.push(digit);
    assert(n < 10 ==> s@ == seq![digit]);
    s
}

/// Whether `a` comes before `b` in the order of the code points, which is the order of the
/// standard library on strings.
pub open spec fn text_lt(a: Seq<char>, b: Seq<char>) -> bool
    decreases a.len(),
{
    if b.len() == 0 {
        false
    } else if a.len() == 0 {
        true
    } else if a[0] != b[0] {
        (a[0] as int) < (b[0] as int)
    } else {
        text_lt(a.drop_first(), b.drop_first())
    }
}

fn char_before(a: char, b: char) -> (before: bool)
    ensures
        before == ((a as int) < (b as int)),
{
    (a as u32) < (b as u32)
}

/// Whether `a` comes before `b` in the order of the code points.
pub fn text_before(a: &str, b: &str) -> (before: bool)
    ensures
        before == text_lt(a@, b@),
{
    let left: Vec<char> = chars_of(a);
    let right: Vec<char> = chars_of(b);
    let mut i: usize = 0;
    assert(left@.skip(0) == left@ && right@.skip(0) == right@);
    while i < left.len() && i < right.len() && left[i] == right[i]
        invariant
            i <= left@.len(),
            i <= right@.len(),
            text_lt(left@, right@) == text_lt(left@.skip(i as int), right@.skip(i as int)),
        decreases left@.len() - i,
    {
        assert(left@.skip(i as int).drop_first() == left@.skip(i + 1));
        assert(right@.skip(i as int).drop_first() == right@.skip(i + 1));
        i = i + 1;
    }
    if i == right.len() {
        false
    } else if i == left.len() {
        true
    } else {
        char_before(left[i], right[i])
    }
}

/// The order on texts is strict and total: of two different texts exactly one comes first.
pub proof fn text_order_is_total(a: Seq<char>, b: Seq<char>)
    ensures
        !(text_lt(a, b) && text_lt(b, a)),
        text_lt(a, b) || text_lt(b, a) <==> a != b,
    decreases a.len(),
{
    if a.len() > 0 && b.len() > 0 && a[0] == b[0] {
        text_order_is_total(a.drop_first(), b.drop_first());
        assert(a == seq![a[0]] + a.drop_first());
        assert(b == seq![b[0]] + b.drop_first());
    } else if a.len() == 0 && b.len() == 0 {
        assert(a == b);
    } else if a.len() > 0 && b.len() > 0 {
        assert(a != b);
    } else {
        assert(a != b);
    }
}

/// The order on texts is transitive.
pub proof fn text_order_is_transitive(a: Seq<char>, b: Seq<char>, c: Seq<char>)
    requires
        text_lt(a, b),
        text_lt(b, c),
    ensures
        text_lt(a, c),
    decreases a.len(),
{
    if a.len() > 0 && a[0] == b[0] && b[0] == c[0] {
        text_order_is_transitive(a.drop_first(), b.drop_first(), c.drop_first());
    }
}

/// The white space is that of Unicode: tabs and line ends, the space, and the spaces beyond ASCII.
pub proof fn white_space_is_that_of_unicode(c: char)
    ensures
        is_white_space(c) <==> ('\t' <= c <= '\r' || c == ' ' || c == '\u{85}' || c == '\u{a0}' || c
            == '\u{1680}' || '\u{2000}' <= c <= '\u{200a}' || c == '\u{2028}' || c == '\u{2029}' || c
            == '\u{202f}' || c == '\u{205f}' || c == '\u{3000}'),
{
}

proof fn trim_start_is_exact(s: Seq<char>) -> (start: int)
    ensures
        0 <= start <= s.len(),
        trim_start(s) == s.skip(start),
        forall|i: int| 0 <= i < start ==> is_white_space(#[trigger] s[i]),
        start < s.len() ==> !is_white_space(s[start]),
    decreases s.len(),
{
    if s.len() > 0 && is_white_space(s[0]) {
        let rest = s.drop_first();
        let start = trim_start_is_exact(rest);
        assert forall|i: int| 0 <= i < start + 1 implies is_white_space(#[trigger] s[i]) by {
            if i > 0 {
                assert(rest[i - 1] == s[i]);
            }
        }
        assert(rest.skip(start) =~= s.skip(start + 1));
        start + 1
    } else {
        assert(s.skip(0) =~= s);
        0
    }
}

proof fn trim_end_is_exact(s: Seq<char>) -> (end: int)
    ensures
        0 <= end <= s.len(),
        trim_end(s) == s.take(end),
        forall|i: int| end <= i < s.len() ==> is_white_space(#[trigger] s[i]),
        end > 0 ==> !is_white_space(s[end - 1]),
    decreases s.len(),
{
    if s.len() > 0 && is_white_space(s.last()) {
        let rest = s.drop_last();
        let end = trim_end_is_exact(rest);
        assert forall|i: int| end <= i < s.len() implies is_white_space(#[trigger] s[i]) by {
            if i < rest.len() {
                assert(rest[i] == s[i]);
            }
        }
        assert(rest.take(end) =~= s.take(end));
        end
    } else {
        assert(s.take(s.len() as int) =~= s);
        s.len() as int
    }
}

/// Trimming takes off white space at the two ends, all of it and nothing else.
pub proof fn trimming_takes_off_just_white_space(s: Seq<char>)
    ensures
        exists|start: int, end: int|
            {
                &&& 0 <= start <= end <= s.len()
                &&& trimmed(s) == #[trigger] s.subrange(start, end)
                &&& forall|i: int|
                    0 <= i < s.len() && !(start <= i < end) ==> is_white_space(#[trigger] s[i])
                &&& start < end ==> !is_white_space(s[start]) && !is_white_space(s[end - 1])
            },
{
    let start = trim_start_is_exact(s);
    let tail = s.skip(start);
    let len = trim_end_is_exact(tail);
    let end = start + len;
    assert(tail.take(len) =~= s.subrange(start, end));
    assert forall|i: int| 0 <= i < s.len() && !(start <= i < end) implies is_white_space(
        #[trigger] s[i],
    ) by {
        if i >= end {
            assert(tail[i - start] == s[i]);
        }
    }
    if start < end {
        assert(tail[0] == s[start]);
        assert(tail[len - 1] == s[end - 1]);
    }
}

/// What is between white space stays whole when it is trimmed.
pub proof fn trimming_keeps_the_rest(before: Seq<char>, rest: Seq<char>, after: Seq<char>)
    requires
        forall|i: int| 0 <= i < before.len() ==> is_white_space(#[trigger] before[i]),
        forall|i: int| 0 <= i < after.len() ==> is_white_space(#[trigger] after[i]),
        rest.len() > 0 ==> !is_white_space(rest[0]) && !is_white_space(rest.last()),
    ensures
        trimmed(before + rest + after) == rest,
{
    let s = before + rest + after;
    let start = trim_start_is_exact(s);
    let tail = s.skip(start);
    let len = trim_end_is_exact(tail);
    if rest.len() > 0 {
        assert(s[before.len() as int] == rest[0]);
        assert(s[before.len() + rest.len() - 1] == rest.last());
        assert(start == before.len()) by {
            if start < before.len() {
                assert(s[start] == before[start]);
            }
        }
        assert(tail[rest.len() - 1] == rest.last());
        assert(len == rest.len()) by {
            if len > rest.len() {
                assert(tail[len - 1] == after[len - 1 - rest.len()]);
            }
        }
        assert(tail.take(len) =~= rest);
    } else {
        assert(start == s.len()) by {
            if start < s.len() {
                if start < before.len() {
                    assert(s[start] == before[start]);
                } else {
                    assert(s[start] == after[start - before.len()]);
                }
            }
        }
        assert(tail.take(len) =~= rest);
    }
}

/// Splitting goes character by character: the separator starts a new part, and any other character
/// goes to the part that is being read.
pub proof fn splitting_goes_on(s: Seq<char>, sep: char, c: char)
    ensures
        split(Seq::empty(), sep) == seq![Seq::<char>::empty()],
        split(s, sep).len() > 0,
        c == sep ==> split(s.push(c), sep) == split(s, sep).push(Seq::empty()),
        c != sep ==> split(s.push(c), sep) == split(s, sep).drop_last().push(
            split(s, sep).last().push(c),
        ),
    decreases s.len(),
{
    assert(s.push(c).drop_last() =~= s);
    if s.len() > 0 {
        splitting_goes_on(s.drop_last(), sep, c);
        assert(s.drop_last().push(s.last()) =~= s);
    }
}

/// No part that splitting gives holds the separator.
pub proof fn parts_hold_no_separator(s: Seq<char>, sep: char)
    ensures
        forall|i: int| 0 <= i < split(s, sep).len() ==> !(#[trigger] split(s, sep)[i]).contains(sep),
    decreases s.len(),
{
    if s.len() > 0 {
        let front = s.drop_last();
        let parts = split(front, sep);
        parts_hold_no_separator(front, sep);
        splitting_goes_on(front, sep, s.last());
        assert forall|i: int| 0 <= i < split(s, sep).len() implies !(
        #[trigger] split(s, sep)[i]).contains(sep) by {
            if i < parts.len() - 1 {
                assert(split(s, sep)[i] == parts[i]);
            } else if s.last() == sep {
                if i < parts.len() {
                    assert(split(s, sep)[i] == parts[i]);
                }
            } else {
                let last = parts[parts.len() - 1];
                assert(split(s, sep)[i] == last.push(s.last()));
                if last.push(s.last()).contains(sep) {
                    let k = last.push(s.last()).index_of(sep);
                    assert(last[k] == sep);
                }
            }
        }
    }
}

/// Numbers are written digit by digit, the last digit last.
pub proof fn digits_are_those_of_the_number(n: nat, digit: nat)
    requires
        digit < 10,
    ensures
        decimal(digit) == seq![(('0' as nat) + digit) as char],
        n > 0 ==> decimal(10 * n + digit) == decimal(n).push((('0' as nat) + digit) as char),
{
    assert((10 * n + digit) / 10 == n && (10 * n + digit) % 10 == digit);
}

/// One text comes before another just if, where the two first differ, it has the character with the
/// smaller number, or has ended.
pub proof fn first_difference_decides(a: Seq<char>, b: Seq<char>, same: int)
    requires
        0 <= same <= a.len(),
        same <= b.len(),
        a.take(same) == b.take(same),
        same < a.len() && same < b.len() ==> a[same] != b[same],
    ensures
        text_lt(a, b) <==> same < b.len() && (same == a.len() || (a[same] as int) < (b[same]
            as int)),
    decreases same,
{
    if same > 0 {
        assert(a.take(same)[0] == a[0]);
        assert(b.take(same)[0] == b[0]);
        assert(a.drop_first().take(same - 1) =~= a.take(same).drop_first());
        assert(b.drop_first().take(same - 1) =~= b.take(same).drop_first());
        first_difference_decides(a.drop_first(), b.drop_first(), same - 1);
    }
}

/// Taking strings as sequences of characters keeps each string.
pub proof fn texts_are_those_of_the_strings(strings: Seq<String>, s: Option<String>)
    ensures
        texts(strings).len() == strings.len(),
        forall|i: int| 0 <= i < strings.len() ==> #[trigger] texts(strings)[i] == strings[i]@,
        s matches Some(text) ==> opt_text(s) == Some(text@),
        s is None ==> opt_text(s) is None,
{
}

/// Taking a string slice as a sequence of characters keeps it.
pub proof fn slices_are_taken_whole(s: Option<&str>)
    ensures
        s matches Some(text) ==> opt_str(s) == Some(text@),
        s is None ==> opt_str(s) is None,
{
}

} // verus!
