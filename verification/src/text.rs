//! Text as sequences of characters: searching, trimming, splitting, and the
//! decimal and hexadecimal forms of numbers.

use vstd::prelude::*;
use vstd::slice::slice_subrange;
use vstd::string::*;
use vstd::utf8::{encode_utf8, valid_utf8};

verus! {

/// `String::push`: appends one character.
pub assume_specification[ String::push ](s: &mut String, c: char)
    ensures
        final(s)@ == old(s)@.push(c),
;

/// `std::str::from_utf8`: succeeds exactly on valid UTF-8, with the text that
/// the bytes encode.
#[verifier::external_body]
pub(crate) fn utf8_text(bytes: &[u8]) -> (text: Option<String>)
    ensures
        text is Some <==> valid_utf8(bytes@),
        text matches Some(t) ==> encode_utf8(t@) == bytes@,
{
    std::str::from_utf8(bytes).ok().map(|t| t.to_owned())
}

// ---------------------------------------------------------------------------
// Conversion
// ---------------------------------------------------------------------------

/// The characters of a text.
pub fn chars_of(s: &str) -> (v: Vec<char>)
    ensures
        v@ == s@,
{
    let mut v: Vec<char> = Vec::new();
    for c in it: s.chars()
        invariant
            v@ == it.seq().take(it.index() as int),
            it.seq() == s@,
    {
        v.push(c);
        proof {
            assert(it.seq().take(it.index() + 1) =~= it.seq().take(it.index() as int).push(c));
        }
    }
    proof {
        assert(s@.take(s@.len() as int) =~= s@);
    }
    v
}

/// The text made of some characters.
pub fn text_of(v: &[char]) -> (s: String)
    ensures
        s@ == v@,
{
    let mut s = String::new();
    let mut i: usize = 0;
    proof {
        assert(s@ =~= v@.take(0));
    }
    while i < v.len()
        invariant
            i <= v.len(),
            s@ == v@.take(i as int),
        decreases v.len() - i,
    {
        s.push(v[i]);
        proof {
            assert(v@.take(i + 1) =~= v@.take(i as int).push(v@[i as int]));
        }
        i = i + 1;
    }
    proof {
        assert(v@.take(v@.len() as int) =~= v@);
    }
    s
}

/// Whether two texts are equal.
pub fn same_text(a: &str, b: &str) -> (same: bool)
    ensures
        same == (a@ == b@),
{
    let x = chars_of(a);
    let y = chars_of(b);
    same_chars(x.as_slice(), y.as_slice())
}

/// Whether two character sequences are equal.
pub fn same_chars(a: &[char], b: &[char]) -> (same: bool)
    ensures
        same == (a@ == b@),
{
    if a.len() != b.len() {
        return false;
    }
    let mut i: usize = 0;
    while i < a.len()
        invariant
            i <= a.len(),
            a.len() == b.len(),
            forall|k: int| 0 <= k < i ==> a@[k] == b@[k],
        decreases a.len() - i,
    {
        if a[i] != b[i] {
            return false;
        }
        i = i + 1;
    }
    proof {
        assert(a@ =~= b@);
    }
    true
}

/// Appends the characters of a slice.
pub fn push_chars(out: &mut Vec<char>, s: &[char])
    ensures
        final(out)@ == old(out)@ + s@,
{
    let mut i: usize = 0;
    proof {
        assert(out@ =~= old(out)@ + s@.take(0));
    }
    while i < s.len()
        invariant
            i <= s.len(),
            out@ == old(out)@ + s@.take(i as int),
        decreases s.len() - i,
    {
        out.push(s[i]);
        proof {
            assert(s@.take(i + 1) =~= s@.take(i as int).push(s@[i as int]));
            assert(out@ =~= old(out)@ + s@.take(i + 1));
        }
        i = i + 1;
    }
    proof {
        assert(s@.take(s@.len() as int) =~= s@);
    }
}

/// A copy of some characters.
pub fn copy_chars(s: &[char]) -> (v: Vec<char>)
    ensures
        v@ == s@,
{
    let mut v: Vec<char> = Vec::new();
    push_chars(&mut v, s);
    proof {
        assert(Seq::<char>::empty() + s@ =~= s@);
    }
    v
}

// ---------------------------------------------------------------------------
// White space
// ---------------------------------------------------------------------------

/// The characters with the Unicode `White_Space` property.
pub open spec fn is_white(c: char) -> bool {
    let u = c as u32;
    ||| 0x9 <= u <= 0xd
    ||| u == 0x20
    ||| u == 0x85
    ||| u == 0xa0
    ||| u == 0x1680
    ||| 0x2000 <= u <= 0x200a
    ||| u == 0x2028
    ||| u == 0x2029
    ||| u == 0x202f
    ||| u == 0x205f
    ||| u == 0x3000
}

/// Whether a character is white space.
pub fn is_whitespace(c: char) -> (white: bool)
    ensures
        white == is_white(c),
{
    let u: u32 = c as u32;
    (0x9 <= u && u <= 0xd) || u == 0x20 || u == 0x85 || u == 0xa0 || u == 0x1680 || (0x2000 <= u
        && u <= 0x200a) || u == 0x2028 || u == 0x2029 || u == 0x202f || u == 0x205f || u == 0x3000
}

/// The text without leading white space.
pub open spec fn trim_start(s: Seq<char>) -> Seq<char>
    decreases s.len(),
{
    if s.len() > 0 && is_white(s[0]) {
        trim_start(s.skip(1))
    } else {
        s
    }
}

/// The text without trailing white space.
pub open spec fn trim_end(s: Seq<char>) -> Seq<char>
    decreases s.len(),
{
    if s.len() > 0 && is_white(s.last()) {
        trim_end(s.drop_last())
    } else {
        s
    }
}

/// The text without white space at either end.
pub open spec fn trim(s: Seq<char>) -> Seq<char> {
    trim_end(trim_start(s))
}

/// Drops leading white space.
pub fn trimmed_start<'a>(s: &'a [char]) -> (t: &'a [char])
    ensures
        t@ == trim_start(s@),
        t@.len() <= s@.len(),
{
    let mut i: usize = 0;
    proof {
        assert(s@.skip(0) =~= s@);
    }
    while i < s.len() && is_whitespace(s[i])
        invariant
            i <= s.len(),
            trim_start(s@) == trim_start(s@.skip(i as int)),
        decreases s.len() - i,
    {
        proof {
            assert(s@.skip(i as int).skip(1) =~= s@.skip(i + 1));
        }
        i = i + 1;
    }
    let t = slice_subrange(s, i, s.len());
    proof {
        assert(t@ =~= s@.skip(i as int));
    }
    t
}

/// Drops leading and trailing white space.
pub fn trimmed<'a>(s: &'a [char]) -> (t: &'a [char])
    ensures
        t@ == trim(s@),
        t@.len() <= s@.len(),
{
    let u = trimmed_start(s);
    let mut n: usize = u.len();
    proof {
        assert(u@.take(n as int) =~= u@);
    }
    while n > 0 && is_whitespace(u[n - 1])
        invariant
            n <= u.len(),
            trim_end(u@) == trim_end(u@.take(n as int)),
        decreases n,
    {
        proof {
            assert(u@.take(n as int).drop_last() =~= u@.take(n - 1));
            assert(u@.take(n as int).last() == u@[n - 1]);
        }
        n = n - 1;
    }
    let t = slice_subrange(u, 0, n);
    proof {
        assert(t@ =~= u@.take(n as int));
        if n > 0 {
            assert(u@.take(n as int).last() == u@[n - 1]);
        }
    }
    t
}

// ---------------------------------------------------------------------------
// Searching and splitting
// ---------------------------------------------------------------------------

/// The first position of `c` in `s` at or after `i`, or the length of `s`.
pub open spec fn find_from(s: Seq<char>, c: char, i: int) -> int
    decreases s.len() - i,
{
    if i < 0 || i >= s.len() {
        s.len() as int
    } else if s[i] == c {
        i
    } else {
        find_from(s, c, i + 1)
    }
}

/// The first position of `c` in `s`, or the length of `s`.
pub open spec fn find(s: Seq<char>, c: char) -> int {
    find_from(s, c, 0)
}

/// A character is found where it first stands.
pub proof fn lemma_find_first(s: Seq<char>, c: char, i: int, n: int)
    requires
        0 <= i <= n < s.len(),
        s[n] == c,
        forall|k: int| i <= k < n ==> s[k] != c,
    ensures
        find_from(s, c, i) == n,
    decreases n - i,
{
    if i < n {
        lemma_find_first(s, c, i + 1, n);
    }
}

pub proof fn lemma_find_from(s: Seq<char>, c: char, i: int)
    requires
        0 <= i <= s.len(),
    ensures
        i <= find_from(s, c, i) <= s.len(),
        find_from(s, c, i) < s.len() ==> s[find_from(s, c, i)] == c,
        forall|k: int| i <= k < find_from(s, c, i) ==> s[k] != c,
    decreases s.len() - i,
{
    if i < s.len() && s[i] != c {
        lemma_find_from(s, c, i + 1);
    }
}

/// Finds a character.
pub fn find_char(s: &[char], c: char) -> (i: usize)
    ensures
        i == find(s@, c),
        i <= s@.len(),
        i < s@.len() ==> s@[i as int] == c,
{
    let mut i: usize = 0;
    while i < s.len() && s[i] != c
        invariant
            i <= s.len(),
            find(s@, c) == find_from(s@, c, i as int),
        decreases s.len() - i,
    {
        i = i + 1;
    }
    i
}

/// The pieces of `s` between occurrences of `sep`.
pub open spec fn split(s: Seq<char>, sep: char) -> Seq<Seq<char>>
    decreases s.len(),
    via split_decreases
{
    let i = find(s, sep);
    if i >= s.len() {
        seq![s]
    } else {
        seq![s.take(i)] + split(s.skip(i + 1), sep)
    }
}

#[via_fn]
proof fn split_decreases(s: Seq<char>, sep: char) {
    lemma_find_from(s, sep, 0);
}

/// The contents of a list of character vectors.
pub open spec fn pieces(v: Seq<Vec<char>>) -> Seq<Seq<char>> {
    v.map_values(|p: Vec<char>| p@)
}

/// Splits at every occurrence of a separator.
pub fn split_chars(s: &[char], sep: char) -> (parts: Vec<Vec<char>>)
    ensures
        pieces(parts@) == split(s@, sep),
        parts@.len() == split(s@, sep).len(),
        parts@.len() >= 1,
        forall|i: int| 0 <= i < parts@.len() ==> #[trigger] parts@[i]@ == split(s@, sep)[i],
{
    let mut parts: Vec<Vec<char>> = Vec::new();
    let mut start: usize = 0;
    proof {
        assert(s@.skip(0) =~= s@);
        assert(pieces(parts@) + split(s@, sep) =~= split(s@, sep));
    }
    loop
        invariant
            start <= s.len(),
            pieces(parts@) + split(s@.skip(start as int), sep) == split(s@, sep),
        decreases s.len() - start,
    {
        let rest = slice_subrange(s, start, s.len());
        let ghost before = parts@;
        proof {
            assert(rest@ =~= s@.skip(start as int));
        }
        let i: usize = find_char(rest, sep);
        let piece = slice_subrange(rest, 0, i);
        parts.push(copy_chars(piece));
        proof {
            assert(piece@ =~= rest@.take(i as int));
            assert(pieces(parts@) =~= pieces(before).push(rest@.take(i as int)));
        }
        if i >= rest.len() {
            proof {
                assert(rest@.take(i as int) =~= rest@);
                assert(pieces(parts@) =~= pieces(before) + seq![rest@]);
                assert forall|k: int| 0 <= k < parts@.len() implies #[trigger] parts@[k]@ == split(
                    s@,
                    sep,
                )[k] by {
                    assert(pieces(parts@)[k] == parts@[k]@);
                }
            }
            return parts;
        }
        proof {
            assert(rest@.skip(i + 1) =~= s@.skip(start + i + 1));
            assert(pieces(parts@) + split(rest@.skip(i + 1), sep) =~= pieces(before) + (seq![
                rest@.take(i as int),
            ] + split(rest@.skip(i + 1), sep)));
        }
        start = start + i + 1;
    }
}

/// A line without the carriage return before its line feed.
pub open spec fn strip_return(s: Seq<char>) -> Seq<char> {
    if s.len() > 0 && s.last() == '\r' {
        s.drop_last()
    } else {
        s
    }
}

/// The lines of a text: each ends with a line feed, which may have a carriage
/// return before it and which the last line may lack.
pub open spec fn lines(s: Seq<char>) -> Seq<Seq<char>>
    decreases s.len(),
    via lines_decreases
{
    let i = find(s, '\n');
    if s.len() == 0 {
        seq![]
    } else if i >= s.len() {
        seq![s]
    } else {
        seq![strip_return(s.take(i))] + lines(s.skip(i + 1))
    }
}

#[via_fn]
proof fn lines_decreases(s: Seq<char>) {
    lemma_find_from(s, '\n', 0);
}

/// Splits a text into its lines.
pub fn lines_of(s: &[char]) -> (parts: Vec<Vec<char>>)
    ensures
        pieces(parts@) == lines(s@),
        parts@.len() == lines(s@).len(),
        forall|i: int| 0 <= i < parts@.len() ==> #[trigger] parts@[i]@ == lines(s@)[i],
{
    let mut parts: Vec<Vec<char>> = Vec::new();
    let mut start: usize = 0;
    proof {
        assert(s@.skip(0) =~= s@);
        assert(pieces(parts@) + lines(s@) =~= lines(s@));
    }
    while start < s.len()
        invariant
            start <= s.len(),
            pieces(parts@) + lines(s@.skip(start as int)) == lines(s@),
        decreases s.len() - start,
    {
        let rest = slice_subrange(s, start, s.len());
        let ghost before = parts@;
        proof {
            assert(rest@ =~= s@.skip(start as int));
        }
        let i: usize = find_char(rest, '\n');
        if i >= rest.len() {
            parts.push(copy_chars(rest));
            proof {
                assert(pieces(parts@) =~= pieces(before) + seq![rest@]);
                assert(s@.skip(s@.len() as int).len() == 0);
                assert(pieces(parts@) + lines(s@.skip(s@.len() as int)) =~= pieces(parts@));
            }
            start = s.len();
        } else {
            let n: usize = if i > 0 && rest[i - 1] == '\r' {
                i - 1
            } else {
                i
            };
            let line = slice_subrange(rest, 0, n);
            parts.push(copy_chars(line));
            proof {
                if i > 0 {
                    assert(rest@.take(i as int).last() == rest@[i - 1]);
                }
                assert(line@ =~= strip_return(rest@.take(i as int)));
                assert(rest@.skip(i + 1) =~= s@.skip(start + i + 1));
                assert(pieces(parts@) =~= pieces(before).push(line@));
                assert(pieces(parts@) + lines(rest@.skip(i + 1)) =~= pieces(before) + (seq![line@]
                    + lines(rest@.skip(i + 1))));
            }
            start = start + i + 1;
        }
    }
    proof {
        assert(s@.skip(start as int).len() == 0);
        assert(pieces(parts@) + lines(s@.skip(start as int)) =~= pieces(parts@));
        assert forall|k: int| 0 <= k < parts@.len() implies #[trigger] parts@[k]@ == lines(
            s@,
        )[k] by {
            assert(pieces(parts@)[k] == parts@[k]@);
        }
    }
    parts
}

/// Whether `s` begins with `p`.
pub open spec fn has_prefix(s: Seq<char>, p: Seq<char>) -> bool {
    p.len() <= s.len() && s.take(p.len() as int) == p
}

/// Whether `p` occurs in `s`.
pub open spec fn contains_text(s: Seq<char>, p: Seq<char>) -> bool {
    exists|i: int| 0 <= i <= s.len() && has_prefix(#[trigger] s.skip(i), p)
}

/// Tests for a prefix.
pub fn starts_with(s: &[char], p: &[char]) -> (yes: bool)
    ensures
        yes == has_prefix(s@, p@),
{
    if p.len() > s.len() {
        return false;
    }
    let head = slice_subrange(s, 0, p.len());
    proof {
        assert(head@ =~= s@.take(p@.len() as int));
    }
    same_chars(head, p)
}

/// What follows a prefix, where there is one.
pub fn after_prefix<'a>(s: &'a [char], p: &str) -> (rest: Option<&'a [char]>)
    ensures
        rest is Some <==> has_prefix(s@, p@),
        rest matches Some(r) ==> r@ == s@.skip(p@.len() as int),
{
    let q = chars_of(p);
    if starts_with(s, q.as_slice()) {
        let r = slice_subrange(s, q.len(), s.len());
        proof {
            assert(r@ =~= s@.skip(p@.len() as int));
        }
        Some(r)
    } else {
        None
    }
}

/// Tests whether a text occurs in another.
pub fn has_text(s: &[char], p: &str) -> (yes: bool)
    ensures
        yes == contains_text(s@, p@),
{
    let q = chars_of(p);
    let mut i: usize = 0;
    loop
        invariant
            i <= s.len(),
            q@ == p@,
            forall|k: int| 0 <= k < i ==> !has_prefix(#[trigger] s@.skip(k), p@),
        decreases s.len() - i,
    {
        let rest = slice_subrange(s, i, s.len());
        proof {
            assert(rest@ =~= s@.skip(i as int));
        }
        if starts_with(rest, q.as_slice()) {
            proof {
                assert(has_prefix(s@.skip(i as int), p@));
            }
            return true;
        }
        if i == s.len() {
            return false;
        }
        i = i + 1;
    }
}

/// Where `p` first begins in `s` at or after `i`, or the length of `s`.
pub open spec fn text_from(s: Seq<char>, p: Seq<char>, i: int) -> int
    decreases s.len() - i,
{
    if i < 0 || i >= s.len() {
        s.len() as int
    } else if has_prefix(s.skip(i), p) {
        i
    } else {
        text_from(s, p, i + 1)
    }
}

/// Where `p` first begins in `s`, or the length of `s`.
pub open spec fn find_text(s: Seq<char>, p: Seq<char>) -> int {
    text_from(s, p, 0)
}

/// A text begins where it is found, and nowhere before.
pub proof fn lemma_text_from(s: Seq<char>, p: Seq<char>, i: int, at: int)
    requires
        0 <= i <= at <= s.len(),
        at < s.len() ==> has_prefix(s.skip(at), p),
        forall|k: int| i <= k < at ==> !has_prefix(#[trigger] s.skip(k), p),
    ensures
        text_from(s, p, i) == at,
    decreases at - i,
{
    if i < at {
        assert(!has_prefix(s.skip(i), p));
        lemma_text_from(s, p, i + 1, at);
    }
}

/// Finds a text.
pub fn position_of(s: &[char], p: &str) -> (i: usize)
    ensures
        i == find_text(s@, p@),
        i <= s@.len(),
        i < s@.len() ==> has_prefix(s@.skip(i as int), p@),
{
    let q = chars_of(p);
    let mut i: usize = 0;
    while i < s.len()
        invariant
            i <= s.len(),
            q@ == p@,
            find_text(s@, p@) == text_from(s@, p@, i as int),
        decreases s.len() - i,
    {
        let rest = slice_subrange(s, i, s.len());
        proof {
            assert(rest@ =~= s@.skip(i as int));
        }
        if starts_with(rest, q.as_slice()) {
            return i;
        }
        i = i + 1;
    }
    i
}

/// An ASCII letter in lower case; any other character unchanged.
pub open spec fn lower(c: char) -> char {
    if 'A' <= c <= 'Z' {
        ((c as u32) + 32) as char
    } else {
        c
    }
}

/// Equality up to the case of ASCII letters.
pub open spec fn same_ignoring_case(a: Seq<char>, b: Seq<char>) -> bool {
    a.len() == b.len() && forall|i: int| 0 <= i < a.len() ==> lower(#[trigger] a[i]) == lower(b[i])
}

/// An ASCII letter in lower case.
pub fn to_lower(c: char) -> (l: char)
    ensures
        l == lower(c),
{
    if 'A' <= c && c <= 'Z' {
        ((c as u8) + 32) as char
    } else {
        c
    }
}

/// Compares up to the case of ASCII letters.
pub fn eq_ignoring_case(a: &[char], b: &str) -> (same: bool)
    ensures
        same == same_ignoring_case(a@, b@),
{
    let c = chars_of(b);
    if a.len() != c.len() {
        return false;
    }
    let mut i: usize = 0;
    while i < a.len()
        invariant
            i <= a.len(),
            a.len() == c.len(),
            c@ == b@,
            forall|k: int| 0 <= k < i ==> lower(#[trigger] a@[k]) == lower(c@[k]),
        decreases a.len() - i,
    {
        if to_lower(a[i]) != to_lower(c[i]) {
            return false;
        }
        i = i + 1;
    }
    true
}

// ---------------------------------------------------------------------------
// Numbers
// ---------------------------------------------------------------------------

/// Whether a character is an ASCII digit.
pub open spec fn is_digit(c: char) -> bool {
    '0' <= c <= '9'
}

/// The number a sequence of digits spells.
pub open spec fn digits_value(s: Seq<char>) -> nat
    decreases s.len(),
{
    if s.len() == 0 {
        0
    } else {
        digits_value(s.drop_last()) * 10 + ((s.last() as u32) - 48) as nat
    }
}

/// The digits of an unsigned number: an optional plus sign is dropped.
pub open spec fn unsigned_digits(s: Seq<char>) -> Seq<char> {
    if s.len() > 0 && s[0] == '+' {
        s.skip(1)
    } else {
        s
    }
}

/// An unsigned decimal number of at most `max`.
pub open spec fn parse_unsigned(s: Seq<char>, max: nat) -> Option<nat> {
    let d = unsigned_digits(s);
    if d.len() > 0 && (forall|i: int| 0 <= i < d.len() ==> is_digit(#[trigger] d[i]))
        && digits_value(d) <= max {
        Some(digits_value(d))
    } else {
        None
    }
}

proof fn lemma_value_grows(s: Seq<char>, n: int)
    requires
        0 <= n <= s.len(),
    ensures
        digits_value(s.take(n)) <= digits_value(s),
    decreases s.len() - n,
{
    if n == s.len() {
        assert(s.take(n) =~= s);
    } else {
        lemma_value_grows(s, n + 1);
        assert(s.take(n + 1).drop_last() =~= s.take(n));
    }
}

/// Reads an unsigned decimal number.
pub fn read_unsigned(s: &[char], max: u64) -> (n: Option<u64>)
    ensures
        n is Some <==> parse_unsigned(s@, max as nat) is Some,
        n matches Some(v) ==> parse_unsigned(s@, max as nat) == Some(v as nat) && v <= max,
{
    let start: usize = if s.len() > 0 && s[0] == '+' {
        1
    } else {
        0
    };
    let d = slice_subrange(s, start, s.len());
    proof {
        assert(d@ =~= unsigned_digits(s@));
    }
    if d.len() == 0 {
        return None;
    }
    let mut value: u64 = 0;
    let mut i: usize = 0;
    proof {
        assert(d@.take(0).len() == 0);
    }
    while i < d.len()
        invariant
            i <= d.len(),
            d@ == unsigned_digits(s@),
            d.len() > 0,
            forall|k: int| 0 <= k < i ==> is_digit(#[trigger] d@[k]),
            value == digits_value(d@.take(i as int)),
            value <= max,
        decreases d.len() - i,
    {
        let c = d[i];
        if !('0' <= c && c <= '9') {
            proof {
                assert(!is_digit(d@[i as int]));
            }
            return None;
        }
        let digit: u64 = (c as u64) - 48;
        proof {
            assert(d@.take(i + 1).drop_last() =~= d@.take(i as int));
            assert(d@.take(i + 1).last() == c);
            lemma_value_grows(d@, i + 1);
        }
        if digit > max || value > (max - digit) / 10 {
            return None;
        }
        value = value * 10 + digit;
        i = i + 1;
    }
    proof {
        assert(d@.take(d@.len() as int) =~= d@);
    }
    Some(value)
}

/// The character of a decimal digit.
pub open spec fn digit_char(d: nat) -> char {
    ((48 + d) as u32) as char
}

/// A number in decimal.
pub open spec fn decimal(n: nat) -> Seq<char>
    decreases n,
{
    if n < 10 {
        seq![digit_char(n)]
    } else {
        decimal(n / 10).push(digit_char(n % 10))
    }
}

/// Writes a number in decimal.
pub fn decimal_text(n: u64) -> (s: String)
    ensures
        s@ == decimal(n as nat),
{
    let mut back: Vec<char> = Vec::new();
    let mut m: u64 = n;
    let ghost mut tail: Seq<char> = seq![];
    while m >= 10
        invariant
            decimal(n as nat) == decimal(m as nat) + tail,
            tail.len() == back@.len(),
            forall|k: int| 0 <= k < tail.len() ==> #[trigger] tail[k] == back@[back@.len() - 1 - k],
        decreases m,
    {
        let c = ((m % 10) as u8 + 48) as char;
        proof {
            assert(c == digit_char((m % 10) as nat));
            let old_tail = tail;
            tail = seq![c] + tail;
            assert(decimal((m / 10) as nat) + tail =~= decimal((m / 10) as nat).push(c) + old_tail);
        }
        back.push(c);
        m = m / 10;
    }
    let mut s = String::new();
    let c = (m as u8 + 48) as char;
    proof {
        assert(c == digit_char(m as nat));
    }
    s.push(c);
    let mut i: usize = back.len();
    proof {
        assert(s@ =~= seq![c] + tail.take(0));
    }
    while i > 0
        invariant
            i <= back@.len(),
            tail.len() == back@.len(),
            forall|k: int| 0 <= k < tail.len() ==> #[trigger] tail[k] == back@[back@.len() - 1 - k],
            s@ == seq![c] + tail.take(back@.len() - i),
        decreases i,
    {
        i = i - 1;
        s.push(back[i]);
        proof {
            let k = back@.len() - 1 - i;
            assert(tail[k] == back@[back@.len() - 1 - k]);
            assert(tail.take(k + 1) =~= tail.take(k).push(tail[k]));
            assert(s@ =~= seq![c] + tail.take(k + 1));
        }
    }
    proof {
        assert(tail.take(tail.len() as int) =~= tail);
    }
    s
}

/// The lower-case character of a hexadecimal digit.
pub open spec fn hex_char(d: int) -> char {
    if d < 10 {
        ((48 + d) as u32) as char
    } else {
        ((87 + d) as u32) as char
    }
}

/// A byte in two lower-case hexadecimal digits.
pub open spec fn hex_byte(b: u8) -> Seq<char> {
    seq![hex_char(b as int / 16), hex_char(b as int % 16)]
}

/// Bytes in lower-case hexadecimal.
pub open spec fn hex_text(bytes: Seq<u8>) -> Seq<char>
    decreases bytes.len(),
{
    if bytes.len() == 0 {
        seq![]
    } else {
        hex_text(bytes.drop_last()) + hex_byte(bytes.last())
    }
}

/// Whether every character is a lower-case hexadecimal digit.
pub open spec fn is_hex(s: Seq<char>) -> bool {
    forall|i: int| 0 <= i < s.len() ==> ('0' <= #[trigger] s[i] <= '9' || 'a' <= s[i] <= 'f')
}

pub proof fn lemma_hex_text(bytes: Seq<u8>)
    ensures
        hex_text(bytes).len() == 2 * bytes.len(),
        is_hex(hex_text(bytes)),
    decreases bytes.len(),
{
    if bytes.len() > 0 {
        lemma_hex_text(bytes.drop_last());
        let h = hex_text(bytes);
        let p = hex_text(bytes.drop_last());
        assert forall|i: int| 0 <= i < h.len() implies ('0' <= #[trigger] h[i] <= '9' || 'a' <= h[i]
            <= 'f') by {
            if i < p.len() {
                assert(h[i] == p[i]);
            } else {
                assert(h[i] == hex_byte(bytes.last())[i - p.len()]);
            }
        }
    }
}

/// The lower-case character of a hexadecimal digit.
pub fn hex_digit(d: u8) -> (c: char)
    requires
        d < 16,
    ensures
        c == hex_char(d as int),
{
    if d < 10 {
        (48 + d) as char
    } else {
        (87 + d) as char
    }
}

/// Appends a byte in two hexadecimal digits.
pub fn push_hex_byte(out: &mut String, b: u8)
    ensures
        final(out)@ == old(out)@ + hex_byte(b),
{
    out.push(hex_digit(b / 16));
    out.push(hex_digit(b % 16));
    proof {
        assert(out@ =~= old(out)@ + hex_byte(b));
    }
}

/// Whether a character is a hexadecimal digit, in either case.
pub open spec fn is_hex_digit(c: char) -> bool {
    '0' <= c <= '9' || 'a' <= c <= 'f' || 'A' <= c <= 'F'
}

/// The value of a hexadecimal digit.
pub open spec fn hex_digit_value(c: char) -> nat {
    if c <= '9' {
        ((c as u32) - 48) as nat
    } else if c <= 'F' {
        ((c as u32) - 55) as nat
    } else {
        ((c as u32) - 87) as nat
    }
}

/// The number a sequence of hexadecimal digits spells.
pub open spec fn hex_value(s: Seq<char>) -> nat
    decreases s.len(),
{
    if s.len() == 0 {
        0
    } else {
        hex_value(s.drop_last()) * 16 + hex_digit_value(s.last())
    }
}

/// A hexadecimal number of at most 32 bits.
pub open spec fn parse_hex32(s: Seq<char>) -> Option<nat> {
    let d = unsigned_digits(s);
    if d.len() > 0 && (forall|i: int| 0 <= i < d.len() ==> is_hex_digit(#[trigger] d[i]))
        && hex_value(d) <= 0xffff_ffff {
        Some(hex_value(d))
    } else {
        None
    }
}

proof fn lemma_hex_value_grows(s: Seq<char>, n: int)
    requires
        0 <= n <= s.len(),
    ensures
        hex_value(s.take(n)) <= hex_value(s),
    decreases s.len() - n,
{
    if n == s.len() {
        assert(s.take(n) =~= s);
    } else {
        lemma_hex_value_grows(s, n + 1);
        assert(s.take(n + 1).drop_last() =~= s.take(n));
    }
}

/// Reads a hexadecimal number of at most 32 bits.
pub fn read_hex32(s: &[char]) -> (n: Option<u32>)
    ensures
        n is Some <==> parse_hex32(s@) is Some,
        n matches Some(v) ==> parse_hex32(s@) == Some(v as nat),
{
    let start: usize = if s.len() > 0 && s[0] == '+' {
        1
    } else {
        0
    };
    let d = slice_subrange(s, start, s.len());
    proof {
        assert(d@ =~= unsigned_digits(s@));
    }
    if d.len() == 0 {
        return None;
    }
    let mut value: u32 = 0;
    let mut i: usize = 0;
    proof {
        assert(d@.take(0).len() == 0);
    }
    while i < d.len()
        invariant
            i <= d.len(),
            d@ == unsigned_digits(s@),
            d.len() > 0,
            forall|k: int| 0 <= k < i ==> is_hex_digit(#[trigger] d@[k]),
            value == hex_value(d@.take(i as int)),
        decreases d.len() - i,
    {
        let c = d[i];
        let digit: u32 = if '0' <= c && c <= '9' {
            c as u32 - 48
        } else if 'a' <= c && c <= 'f' {
            c as u32 - 87
        } else if 'A' <= c && c <= 'F' {
            c as u32 - 55
        } else {
            proof {
                assert(!is_hex_digit(d@[i as int]));
            }
            return None;
        };
        proof {
            assert(d@.take(i + 1).drop_last() =~= d@.take(i as int));
            assert(d@.take(i + 1).last() == c);
            lemma_hex_value_grows(d@, i + 1);
        }
        if value > 0x0fff_ffff {
            return None;
        }
        value = value * 16 + digit;
        i = i + 1;
    }
    proof {
        assert(d@.take(d@.len() as int) =~= d@);
    }
    Some(value)
}

// ---------------------------------------------------------------------------
// What is written is read back
// ---------------------------------------------------------------------------

proof fn lemma_decimal(n: nat)
    ensures
        decimal(n).len() > 0,
        digits_value(decimal(n)) == n,
        forall|i: int| 0 <= i < decimal(n).len() ==> is_digit(#[trigger] decimal(n)[i]),
        decimal(n).len() > 1 ==> decimal(n)[0] != '0',
        n > 0 ==> decimal(n)[0] != '0',
    decreases n,
{
    if n < 10 {
        assert(decimal(n).drop_last() =~= seq![]);
        assert(digits_value(seq![]) == 0);
        assert(decimal(n).last() as u32 == 48 + n);
    } else {
        lemma_decimal(n / 10);
        assert(decimal(n).drop_last() =~= decimal(n / 10));
        assert(decimal(n).last() as u32 == 48 + n % 10);
    }
}

/// A number that is written in decimal is read back, where it is within what is
/// allowed; it is written in digits alone, without leading zeros.
pub proof fn decimals_are_read_back(n: nat, max: nat)
    ensures
        parse_unsigned(decimal(n), max) == (if n <= max {
            Some(n)
        } else {
            None
        }),
        forall|i: int| 0 <= i < decimal(n).len() ==> '0' <= #[trigger] decimal(n)[i] <= '9',
        decimal(n).len() > 0,
        decimal(n).len() > 1 ==> decimal(n)[0] != '0',
{
    lemma_decimal(n);
    assert(is_digit(decimal(n)[0]));
    assert(unsigned_digits(decimal(n)) == decimal(n));
}

/// What is read as a number is made of digits, after a plus sign at most, and
/// every digit counts ten times the one behind it.
pub proof fn numbers_are_read_by_their_digits(s: Seq<char>, c: char, max: nat)
    requires
        '0' <= c <= '9',
        parse_unsigned(s, max) is Some,
    ensures
        ({
            let n = parse_unsigned(s, max)->0 * 10 + (c as int - '0' as int);
            parse_unsigned(s.push(c), max) == (if n <= max {
                Some(n as nat)
            } else {
                None
            })
        }),
{
    let d = unsigned_digits(s);
    let e = unsigned_digits(s.push(c));
    assert(e =~= d.push(c));
    assert(e.drop_last() =~= d);
    assert forall|i: int| 0 <= i < e.len() implies is_digit(#[trigger] e[i]) by {
        if i < d.len() {
            assert(e[i] == d[i]);
        }
    }
}

/// A byte that is written in hexadecimal is read back.
pub proof fn hex_bytes_are_read_back(b: u8)
    ensures
        hex_byte(b).len() == 2,
        hex_value(hex_byte(b)) == b,
        is_hex(hex_byte(b)),
{
    reveal_with_fuel(hex_value, 3);
    let h = hex_byte(b);
    assert(h.drop_last().drop_last().len() == 0);
    assert(h.drop_last().last() == hex_char(b as int / 16));
}

/// Bytes that are written in hexadecimal can be told apart: two digits for each,
/// in their order.
pub proof fn hex_texts_are_read_back(bytes: Seq<u8>, i: int)
    requires
        0 <= i < bytes.len(),
    ensures
        hex_text(bytes).len() == 2 * bytes.len(),
        hex_value(hex_text(bytes).subrange(2 * i, 2 * i + 2)) == bytes[i],
    decreases bytes.len(),
{
    let rest = bytes.drop_last();
    let t = hex_text(bytes);
    hex_bytes_are_read_back(bytes.last());
    if rest.len() > 0 {
        hex_texts_are_read_back(rest, 0);
    } else {
        assert(hex_text(rest).len() == 0);
    }
    if i < rest.len() {
        hex_texts_are_read_back(rest, i);
        assert(t.subrange(2 * i, 2 * i + 2) =~= hex_text(rest).subrange(2 * i, 2 * i + 2));
        assert(rest[i] == bytes[i]);
    } else {
        assert(t.subrange(2 * i, 2 * i + 2) =~= hex_byte(bytes.last()));
    }
}

/// Pieces with a separator between them.
pub open spec fn joined_by(parts: Seq<Seq<char>>, sep: char) -> Seq<char>
    decreases parts.len(),
{
    if parts.len() == 0 {
        seq![]
    } else if parts.len() == 1 {
        parts[0]
    } else {
        parts[0] + seq![sep] + joined_by(parts.skip(1), sep)
    }
}

/// The pieces of a text, joined again, are the text, and none of them holds the
/// separator.
pub proof fn split_texts_are_joined_again(s: Seq<char>, sep: char)
    ensures
        joined_by(split(s, sep), sep) == s,
        split(s, sep).len() > 0,
        forall|i: int|
            0 <= i < split(s, sep).len() ==> !(#[trigger] split(s, sep)[i]).contains(sep),
    decreases s.len(),
{
    let i = find(s, sep);
    lemma_find_from(s, sep, 0);
    if i < s.len() {
        let rest = s.skip(i + 1);
        split_texts_are_joined_again(rest, sep);
        let all = split(s, sep);
        assert(all.skip(1) =~= split(rest, sep));
        assert(s.take(i) + seq![sep] + rest =~= s);
        assert forall|k: int| 0 <= k < all.len() implies !(#[trigger] all[k]).contains(sep) by {
            if k > 0 {
                assert(all[k] == split(rest, sep)[k - 1]);
            }
        }
    } else {
        assert(split(s, sep) =~= seq![s]);
    }
}

/// A first piece without the separator is split off as it is.
pub proof fn first_pieces_are_split_off(first: Seq<char>, rest: Seq<char>, sep: char)
    requires
        !first.contains(sep),
    ensures
        split(first + seq![sep] + rest, sep) == seq![first] + split(rest, sep),
        split(first, sep) == seq![first],
{
    let s = first + seq![sep] + rest;
    let n = first.len() as int;
    assert forall|k: int| 0 <= k < n implies s[k] != sep by {
        assert(first.contains(first[k]));
    }
    lemma_find_first(s, sep, 0, n);
    assert(s.take(n) =~= first);
    assert(s.skip(n + 1) =~= rest);
    lemma_find_from(first, sep, 0);
    if find(first, sep) < n {
        assert(first.contains(first[find(first, sep)]));
    }
}

/// Pieces without the separator, joined by it, are split into the same pieces.
pub proof fn joined_pieces_are_split_again(parts: Seq<Seq<char>>, sep: char)
    requires
        parts.len() > 0,
        forall|i: int| 0 <= i < parts.len() ==> !(#[trigger] parts[i]).contains(sep),
    ensures
        split(joined_by(parts, sep), sep) == parts,
    decreases parts.len(),
{
    let first = parts[0];
    let tail = parts.skip(1);
    first_pieces_are_split_off(first, joined_by(tail, sep), sep);
    if parts.len() > 1 {
        assert forall|i: int| 0 <= i < tail.len() implies !(#[trigger] tail[i]).contains(sep) by {
            assert(tail[i] == parts[i + 1]);
        }
        joined_pieces_are_split_again(tail, sep);
        assert(seq![first] + tail =~= parts);
    } else {
        assert(seq![first] =~= parts);
    }
}

/// Upper and lower case letters of the Latin alphabet count as the same, and
/// nothing else does.
pub proof fn only_case_is_ignored(a: Seq<char>, b: Seq<char>)
    ensures
        same_ignoring_case(a, b) <==> a.len() == b.len() && forall|i: int|
            0 <= i < a.len() ==> {
                ||| #[trigger] a[i] == b[i]
                ||| 'A' <= a[i] <= 'Z' && b[i] as int - a[i] as int == 'a' as int - 'A' as int
                ||| 'A' <= b[i] <= 'Z' && a[i] as int - b[i] as int == 'a' as int - 'A' as int
            },
{
    if same_ignoring_case(a, b) {
        assert forall|i: int| 0 <= i < a.len() implies {
            ||| #[trigger] a[i] == b[i]
            ||| 'A' <= a[i] <= 'Z' && b[i] as int - a[i] as int == 'a' as int - 'A' as int
            ||| 'A' <= b[i] <= 'Z' && a[i] as int - b[i] as int == 'a' as int - 'A' as int
        } by {
            assert(lower(a[i]) == lower(b[i]));
        }
    }
}

/// A first line is split off as it is.
pub proof fn first_lines_are_split_off(line: Seq<char>, rest: Seq<char>)
    requires
        !line.contains('\n'),
    ensures
        lines(line + "\r\n"@ + rest) == seq![line] + lines(rest),
{
    reveal_strlit("\r\n");
    let s = line + "\r\n"@ + rest;
    let n = line.len() as int;
    assert forall|k: int| 0 <= k < n + 1 implies s[k] != '\n' by {
        if k < n {
            assert(line.contains(line[k]));
            assert(s[k] == line[k]);
        } else {
            assert(s[k] == "\r\n"@[0]);
        }
    }
    assert(s[n + 1] == "\r\n"@[1]);
    lemma_find_first(s, '\n', 0, n + 1);
    assert(s.take(n + 1) =~= line.push('\r'));
    assert(s.take(n + 1).drop_last() =~= line);
    assert(s.skip(n + 2) =~= rest);
}

/// Trimming takes white space off both ends, and nothing else.
pub proof fn trimming_takes_white_space_alone(s: Seq<char>)
    ensures
        exists|a: Seq<char>, b: Seq<char>|
            #![trigger a + trim(s) + b]
            s == a + trim(s) + b && (forall|i: int| 0 <= i < a.len() ==> is_white(a[i])) && (
            forall|i: int| 0 <= i < b.len() ==> is_white(b[i])),
        trim(s).len() > 0 ==> !is_white(trim(s)[0]) && !is_white(trim(s).last()),
{
    lemma_trim_start(s);
    let t = trim_start(s);
    lemma_trim_end(t);
    let a = s.take(s.len() - t.len());
    let b = t.skip(trim(s).len() as int);
    assert(a + trim(s) + b =~= s);
}

proof fn lemma_trim_start(s: Seq<char>)
    ensures
        trim_start(s).len() <= s.len(),
        trim_start(s) == s.skip(s.len() - trim_start(s).len()),
        forall|i: int| 0 <= i < s.len() - trim_start(s).len() ==> is_white(#[trigger] s[i]),
        trim_start(s).len() > 0 ==> !is_white(trim_start(s)[0]),
    decreases s.len(),
{
    if s.len() > 0 && is_white(s[0]) {
        let r = s.skip(1);
        lemma_trim_start(r);
        assert(trim_start(s) =~= s.skip(s.len() - trim_start(s).len()));
        assert forall|i: int| 0 <= i < s.len() - trim_start(s).len() implies is_white(
            #[trigger] s[i],
        ) by {
            if i > 0 {
                assert(r[i - 1] == s[i]);
            }
        }
    } else {
        assert(s.skip(0) =~= s);
    }
}

proof fn lemma_trim_end(s: Seq<char>)
    ensures
        trim_end(s).len() <= s.len(),
        trim_end(s) == s.take(trim_end(s).len() as int),
        forall|i: int| trim_end(s).len() <= i < s.len() ==> is_white(#[trigger] s[i]),
        trim_end(s).len() > 0 ==> !is_white(trim_end(s).last()),
    decreases s.len(),
{
    if s.len() > 0 && is_white(s.last()) {
        let r = s.drop_last();
        lemma_trim_end(r);
        assert(trim_end(s) =~= s.take(trim_end(s).len() as int));
        assert forall|i: int| trim_end(s).len() <= i < s.len() implies is_white(
            #[trigger] s[i],
        ) by {
            if i < s.len() - 1 {
                assert(r[i] == s[i]);
            }
        }
    } else {
        assert(s.take(s.len() as int) =~= s);
    }
}

/// Hexadecimal digits count from zero to fifteen, in either case.
pub proof fn hex_digits_count_to_fifteen(c: char)
    ensures
        '0' <= c <= '9' ==> is_hex_digit(c) && hex_digit_value(c) == c as int - '0' as int,
        'a' <= c <= 'f' ==> is_hex_digit(c) && hex_digit_value(c) == 10 + (c as int - 'a' as int),
        'A' <= c <= 'F' ==> is_hex_digit(c) && hex_digit_value(c) == 10 + (c as int - 'A' as int),
        is_hex_digit(c) ==> hex_digit_value(c) <= 15,
{
}

/// White space is what separates words and lines: the blank and the controls
/// from tab to carriage return, and of the rest of Unicode the next line, the
/// no-break and the ogham space, the typographic spaces, the separators of lines
/// and paragraphs, and the ideographic space. No letter, digit or sign that can
/// be seen is.
pub proof fn white_space_separates(c: char)
    ensures
        is_white(' ') && is_white('\t') && is_white('\n') && is_white('\r'),
        is_white('\u{b}') && is_white('\u{c}'),
        is_white('\u{85}') && is_white('\u{a0}') && is_white('\u{1680}'),
        '\u{2000}' <= c <= '\u{200a}' ==> is_white(c),
        is_white('\u{2028}') && is_white('\u{2029}') && is_white('\u{202f}'),
        is_white('\u{205f}') && is_white('\u{3000}'),
        '!' <= c <= '~' ==> !is_white(c),
        '\u{a1}' <= c <= '\u{167f}' ==> !is_white(c),
        c > '\u{3000}' ==> !is_white(c),
{
}

} // verus!
