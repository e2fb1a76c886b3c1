//! Base64, as Basic authentication and SDP parameter sets use it.

use vstd::prelude::*;
use crate::text::{chars_of, is_white, is_whitespace};

verus! {

/// The character of a six-bit value.
pub open spec fn sextet_char(v: int) -> char {
    if v < 26 {
        ((65 + v) as u32) as char
    } else if v < 52 {
        ((71 + v) as u32) as char
    } else if v < 62 {
        ((v - 4) as u32) as char
    } else if v == 62 {
        '+'
    } else {
        '/'
    }
}

/// The six-bit value of a character of the alphabet.
pub open spec fn char_sextet(c: char) -> Option<int> {
    if 'A' <= c <= 'Z' {
        Some((c as int) - 65)
    } else if 'a' <= c <= 'z' {
        Some((c as int) - 71)
    } else if '0' <= c <= '9' {
        Some((c as int) + 4)
    } else if c == '+' {
        Some(62)
    } else if c == '/' {
        Some(63)
    } else {
        None
    }
}

/// Four characters for one to three bytes.
pub open spec fn encode_group(g: Seq<u8>) -> Seq<char> {
    let b0 = g[0] as int;
    let b1 = if g.len() > 1 { g[1] as int } else { 0 };
    let b2 = if g.len() > 2 { g[2] as int } else { 0 };
    seq![
        sextet_char(b0 / 4),
        sextet_char(b0 % 4 * 16 + b1 / 16),
        if g.len() > 1 { sextet_char(b1 % 16 * 4 + b2 / 64) } else { '=' },
        if g.len() > 2 { sextet_char(b2 % 64) } else { '=' },
    ]
}

/// Bytes in Base64.
pub open spec fn encoded(data: Seq<u8>) -> Seq<char>
    decreases data.len(),
{
    if data.len() == 0 {
        seq![]
    } else if data.len() <= 3 {
        encode_group(data)
    } else {
        encode_group(data.take(3)) + encoded(data.skip(3))
    }
}

/// Whether a character may stand in Base64: of the alphabet, or padding.
pub open spec fn is_code_char(c: char) -> bool {
    c == '=' || char_sextet(c) is Some
}

/// The value of a character, with padding as zero.
pub open spec fn code_value(c: char) -> int {
    if c == '=' {
        0
    } else {
        char_sextet(c)->0
    }
}

/// The padding among four characters.
pub open spec fn padding_of(g: Seq<char>) -> int {
    (if g[0] == '=' { 1int } else { 0 }) + (if g[1] == '=' { 1int } else { 0 }) + (if g[2] == '=' {
        1int
    } else {
        0
    }) + (if g[3] == '=' { 1int } else { 0 })
}

/// The bytes of four characters: three, less the padding, but at least one.
pub open spec fn decode_group(g: Seq<char>) -> Seq<u8> {
    let v0 = code_value(g[0]);
    let v1 = code_value(g[1]);
    let v2 = code_value(g[2]);
    let v3 = code_value(g[3]);
    let all = seq![
        (v0 * 4 + v1 / 16) as u8,
        (v1 % 16 * 16 + v2 / 4) as u8,
        (v2 % 4 * 64 + v3) as u8,
    ];
    if padding_of(g) < 1 {
        all
    } else if padding_of(g) < 2 {
        all.take(2)
    } else {
        all.take(1)
    }
}

/// The bytes of a sequence of groups of four characters.
pub open spec fn decode_groups(s: Seq<char>) -> Seq<u8>
    decreases s.len(),
{
    if s.len() < 4 {
        seq![]
    } else {
        decode_group(s.take(4)) + decode_groups(s.skip(4))
    }
}

/// A text without its white space.
pub open spec fn without_white(s: Seq<char>) -> Seq<char> {
    s.filter(|c: char| !is_white(c))
}

/// The bytes that a Base64 text stands for, if it is one: white space apart,
/// it is made of groups of four characters of the alphabet or padding.
pub open spec fn decoded(s: Seq<char>) -> Option<Seq<u8>> {
    let t = without_white(s);
    if t.len() % 4 == 0 && (forall|i: int| 0 <= i < t.len() ==> is_code_char(#[trigger] t[i])) {
        Some(decode_groups(t))
    } else {
        None
    }
}

fn alphabet_char(v: u32) -> (c: char)
    requires
        v < 64,
    ensures
        c == sextet_char(v as int),
{
    if v < 26 {
        (65 + v as u8) as char
    } else if v < 52 {
        (71 + v as u8) as char
    } else if v < 62 {
        (v as u8 - 4) as char
    } else if v == 62 {
        '+'
    } else {
        '/'
    }
}

fn alphabet_value(c: char) -> (v: Option<u32>)
    ensures
        v is Some <==> char_sextet(c) is Some,
        v matches Some(x) ==> char_sextet(c) == Some(x as int) && x < 64,
{
    let u: u32 = c as u32;
    if 'A' <= c && c <= 'Z' {
        Some(u - 65)
    } else if 'a' <= c && c <= 'z' {
        Some(u - 71)
    } else if '0' <= c && c <= '9' {
        Some(u + 4)
    } else if c == '+' {
        Some(62)
    } else if c == '/' {
        Some(63)
    } else {
        None
    }
}

/// The value of a character, with padding as zero.
fn padded_value(c: char) -> (v: Option<u32>)
    ensures
        v is Some <==> is_code_char(c),
        v matches Some(x) ==> x == code_value(c) && x < 64,
{
    if c == '=' {
        Some(0)
    } else {
        alphabet_value(c)
    }
}

/// Appends the bytes of four characters, if each may stand in Base64.
fn push_group(out: &mut Vec<u8>, c0: char, c1: char, c2: char, c3: char) -> (ok: bool)
    ensures
        ok <==> is_code_char(c0) && is_code_char(c1) && is_code_char(c2) && is_code_char(c3),
        ok ==> final(out)@ == old(out)@ + decode_group(seq![c0, c1, c2, c3]),
{
    let (v0, v1, v2, v3): (u32, u32, u32, u32) = match (
        padded_value(c0),
        padded_value(c1),
        padded_value(c2),
        padded_value(c3),
    ) {
        (Some(v0), Some(v1), Some(v2), Some(v3)) => (v0, v1, v2, v3),
        _ => {
            return false;
        },
    };
    let mut padding: u32 = 0;
    if c0 == '=' {
        padding = padding + 1;
    }
    if c1 == '=' {
        padding = padding + 1;
    }
    if c2 == '=' {
        padding = padding + 1;
    }
    if c3 == '=' {
        padding = padding + 1;
    }
    let ghost g = seq![c0, c1, c2, c3];
    out.push((v0 * 4 + v1 / 16) as u8);
    if padding < 2 {
        out.push((v1 % 16 * 16 + v2 / 4) as u8);
    }
    if padding < 1 {
        out.push((v2 % 4 * 64 + v3) as u8);
    }
    proof {
        assert(padding == padding_of(g));
        assert(out@ =~= old(out)@ + decode_group(g));
    }
    true
}

/// Decodes Base64.
pub fn decode_base64(input: &str) -> (bytes: Option<Vec<u8>>)
    ensures
        bytes is Some <==> decoded(input@) is Some,
        bytes matches Some(b) ==> decoded(input@) == Some(b@),
{
    let all = chars_of(input);
    let mut t: Vec<char> = Vec::new();
    let ghost keep = |c: char| !is_white(c);
    let mut i: usize = 0;
    proof {
        reveal(Seq::filter);
        assert(all@.take(0).filter(keep) =~= t@);
    }
    while i < all.len()
        invariant
            i <= all.len(),
            keep == (|c: char| !is_white(c)),
            t@ == all@.take(i as int).filter(keep),
        decreases all.len() - i,
    {
        proof {
            reveal(Seq::filter);
            assert(all@.take(i + 1).drop_last() =~= all@.take(i as int));
            assert(all@.take(i + 1).last() == all@[i as int]);
        }
        if !is_whitespace(all[i]) {
            t.push(all[i]);
        }
        i = i + 1;
    }
    proof {
        assert(all@.take(all@.len() as int) =~= all@);
        assert(t@ == without_white(input@));
    }
    if t.len() % 4 != 0 {
        return None;
    }
    let mut out: Vec<u8> = Vec::new();
    let mut p: usize = 0;
    proof {
        assert(t@.skip(0) =~= t@);
        assert(out@ + decode_groups(t@) =~= decode_groups(t@));
    }
    while p < t.len()
        invariant
            t@ == without_white(input@),
            t.len() % 4 == 0,
            p % 4 == 0,
            p <= t.len(),
            forall|k: int| 0 <= k < p ==> is_code_char(#[trigger] t@[k]),
            out@ + decode_groups(t@.skip(p as int)) == decode_groups(t@),
        decreases t.len() - p,
    {
        let ghost g = t@.skip(p as int).take(4);
        let ghost before = out@;
        proof {
            assert(g =~= seq![t@[p as int], t@[p + 1], t@[p + 2], t@[p + 3]]);
        }
        if !push_group(&mut out, t[p], t[p + 1], t[p + 2], t[p + 3]) {
            return None;
        }
        proof {
            assert(out@ == before + decode_group(g));
            assert(t@.skip(p as int).skip(4) =~= t@.skip(p + 4));
            assert(out@ + decode_groups(t@.skip(p + 4)) =~= before + (decode_group(g)
                + decode_groups(t@.skip(p + 4))));
        }
        p = p + 4;
    }
    proof {
        assert(t@.skip(p as int).len() == 0);
        assert(out@ =~= decode_groups(t@));
    }
    Some(out)
}

/// Encodes bytes in Base64.
pub fn base64_encode(data: &[u8]) -> (s: String)
    ensures
        s@ == encoded(data@),
{
    let mut s = String::new();
    let mut p: usize = 0;
    proof {
        assert(data@.skip(0) =~= data@);
        assert(s@ + encoded(data@) =~= encoded(data@));
    }
    while p < data.len()
        invariant
            p <= data.len(),
            s@ + encoded(data@.skip(p as int)) == encoded(data@),
        decreases data.len() - p,
    {
        let left: usize = data.len() - p;
        let b0: u32 = data[p] as u32;
        let b1: u32 = if left > 1 {
            data[p + 1] as u32
        } else {
            0
        };
        let b2: u32 = if left > 2 {
            data[p + 2] as u32
        } else {
            0
        };
        let ghost rest = data@.skip(p as int);
        let ghost g = if rest.len() <= 3 {
            rest
        } else {
            rest.take(3)
        };
        let ghost before = s@;
        s.push(alphabet_char(b0 / 4));
        s.push(alphabet_char(b0 % 4 * 16 + b1 / 16));
        if left > 1 {
            s.push(alphabet_char(b1 % 16 * 4 + b2 / 64));
        } else {
            s.push('=');
        }
        if left > 2 {
            s.push(alphabet_char(b2 % 64));
        } else {
            s.push('=');
        }
        let step: usize = if left > 3 {
            3
        } else {
            left
        };
        proof {
            assert(s@ =~= before + encode_group(g));
            assert(rest.skip(step as int) =~= data@.skip(p + step));
            if left <= 3 {
                assert(data@.skip(p + step).len() == 0);
                assert(encoded(rest) =~= encode_group(g) + encoded(data@.skip(p + step)));
            }
            assert(s@ + encoded(data@.skip(p + step)) =~= before + (encode_group(g) + encoded(
                data@.skip(p + step),
            )));
        }
        p = p + step;
    }
    proof {
        assert(data@.skip(p as int).len() == 0);
        assert(s@ =~= encoded(data@));
    }
    s
}

proof fn lemma_sextet(v: int)
    requires
        0 <= v < 64,
    ensures
        char_sextet(sextet_char(v)) == Some(v),
        sextet_char(v) != '=',
        !is_white(sextet_char(v)),
{
}

proof fn lemma_group(g: Seq<u8>)
    requires
        1 <= g.len() <= 3,
    ensures
        encode_group(g).len() == 4,
        decode_group(encode_group(g)) == g,
        forall|i: int|
            0 <= i < 4 ==> is_code_char(#[trigger] encode_group(g)[i]) && !is_white(
                encode_group(g)[i],
            ),
{
    let b0 = g[0] as int;
    let b1 = if g.len() > 1 {
        g[1] as int
    } else {
        0
    };
    let b2 = if g.len() > 2 {
        g[2] as int
    } else {
        0
    };
    lemma_sextet(b0 / 4);
    lemma_sextet(b0 % 4 * 16 + b1 / 16);
    lemma_sextet(b1 % 16 * 4 + b2 / 64);
    lemma_sextet(b2 % 64);
    assert(decode_group(encode_group(g)) =~= g);
}

pub proof fn lemma_encoded(data: Seq<u8>)
    ensures
        encoded(data).len() % 4 == 0,
        decode_groups(encoded(data)) == data,
        forall|i: int|
            0 <= i < encoded(data).len() ==> is_code_char(#[trigger] encoded(data)[i]) && !is_white(
                encoded(data)[i],
            ),
    decreases data.len(),
{
    if data.len() == 0 {
        assert(decode_groups(encoded(data)) =~= data);
    } else if data.len() <= 3 {
        lemma_group(data);
        let e = encoded(data);
        assert(e.take(4) =~= e);
        assert(decode_groups(e.skip(4)) =~= seq![]);
        assert(decode_groups(e) =~= data);
    } else {
        let g = data.take(3);
        let rest = data.skip(3);
        lemma_group(g);
        lemma_encoded(rest);
        let e = encoded(data);
        assert(e.take(4) =~= encode_group(g));
        assert(e.skip(4) =~= encoded(rest));
        assert(g + rest =~= data);
        assert forall|i: int| 0 <= i < e.len() implies is_code_char(#[trigger] e[i]) && !is_white(
            e[i],
        ) by {
            if i < 4 {
                assert(e[i] == encode_group(g)[i]);
            } else {
                assert(e[i] == encoded(rest)[i - 4]);
            }
        }
    }
}

proof fn lemma_filter_keeps_all(s: Seq<char>)
    requires
        forall|i: int| 0 <= i < s.len() ==> !is_white(#[trigger] s[i]),
    ensures
        without_white(s) == s,
    decreases s.len(),
{
    reveal(Seq::filter);
    if s.len() > 0 {
        lemma_filter_keeps_all(s.drop_last());
        assert(s.drop_last().push(s.last()) =~= s);
    }
}

/// Decoding gives back what was encoded.
pub proof fn decoding_undoes_encoding(data: Seq<u8>)
    ensures
        decoded(encoded(data)) == Some(data),
{
    lemma_encoded(data);
    lemma_filter_keeps_all(encoded(data));
}

/// The alphabet is the standard one: upper-case letters, lower-case letters,
/// digits, plus and slash, in this order.
pub proof fn the_alphabet_is_the_standard_one(v: int)
    requires
        0 <= v < 64,
    ensures
        v < 26 ==> sextet_char(v) as int == 'A' as int + v,
        26 <= v < 52 ==> sextet_char(v) as int == 'a' as int + v - 26,
        52 <= v < 62 ==> sextet_char(v) as int == '0' as int + v - 52,
        v == 62 ==> sextet_char(v) == '+',
        v == 63 ==> sextet_char(v) == '/',
{
}

/// Three bytes are the four six-bit numbers that their characters stand for.
pub proof fn three_bytes_are_four_characters(data: Seq<u8>)
    requires
        data.len() >= 3,
    ensures
        ({
            let c = encoded(data);
            &&& c.len() == 4 + encoded(data.skip(3)).len()
            &&& c.skip(4) == encoded(data.skip(3))
            &&& char_sextet(c[0]) is Some && char_sextet(c[1]) is Some && char_sextet(c[2]) is Some
                && char_sextet(c[3]) is Some
            &&& char_sextet(c[0])->0 * 0x4_0000 + char_sextet(c[1])->0 * 0x1000 + char_sextet(
                c[2],
            )->0 * 0x40 + char_sextet(c[3])->0 == data[0] * 0x1_0000 + data[1] * 0x100 + data[2]
        }),
{
    let c = encoded(data);
    let g = data.take(3);
    let e = encode_group(g);
    if data.len() == 3 {
        assert(g =~= data);
        assert(data.skip(3) =~= seq![]);
        assert(c.skip(4) =~= seq![]);
    } else {
        assert(c == e + encoded(data.skip(3)));
        assert(c.skip(4) =~= encoded(data.skip(3)));
    }
    assert(c[0] == e[0] && c[1] == e[1] && c[2] == e[2] && c[3] == e[3]);
    let (b0, b1, b2) = (data[0] as int, data[1] as int, data[2] as int);
    lemma_sextet(b0 / 4);
    lemma_sextet(b0 % 4 * 16 + b1 / 16);
    lemma_sextet(b1 % 16 * 4 + b2 / 64);
    lemma_sextet(b2 % 64);
}

/// One byte and two bytes are padded to four characters.
pub proof fn short_ends_are_padded(data: Seq<u8>)
    requires
        0 < data.len() < 3,
    ensures
        encoded(data).len() == 4,
        encoded(data)[3] == '=',
        encoded(data)[2] == '=' <==> data.len() == 1,
{
    if data.len() == 2 {
        lemma_sextet(data[1] as int % 16 * 4);
    }
}

} // verus!
