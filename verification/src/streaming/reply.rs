//! What the server answers: stream descriptions and responses.

use vstd::prelude::*;
use vstd::string::*;
use vstd::utf8::encode_utf8;
use crate::text::{
    contains_text, decimal, decimal_text, find, find_text, has_prefix, hex_byte, hex_value, is_hex,
    lemma_find_first, lemma_text_from, push_hex_byte,
};
use super::base64::{
    base64_encode, decoded, decoding_undoes_encoding, encoded, lemma_encoded,
};
use super::request::StreamMount;
use super::session::{Inner, ParamSets};

verus! {

// ---------------------------------------------------------------------------
// Stream description
// ---------------------------------------------------------------------------

/// The profile and level of a stream, from its sequence parameter set.
pub open spec fn profile_level(p: ParamSets) -> Seq<char> {
    match p.sps {
        Some(sps) if sps.len() >= 4 => hex_byte(sps[1]) + hex_byte(sps[2]) + hex_byte(sps[3]),
        _ => "42e01f"@,
    }
}

/// The parameter sets of a stream, where both are known.
pub open spec fn sprop(p: ParamSets) -> Seq<char> {
    match (p.sps, p.pps) {
        (Some(sps), Some(pps)) => "; sprop-parameter-sets="@ + encoded(sps) + ","@ + encoded(pps),
        _ => Seq::empty(),
    }
}

/// The description of a stream.
pub open spec fn sdp(p: ParamSets) -> Seq<char> {
    "v=0\r\no=- 0 0 IN IP4 0.0.0.0\r\ns=MiBee Eye Stream\r\nt=0 0\r\nm=video 0 RTP/AVP 96\r\na=control:streamid=0\r\na=rtpmap:96 H264/90000\r\na=fmtp:96 profile-level-id="@
        + profile_level(p) + "; packetization-mode=1"@ + sprop(p) + "\r\n"@
}

/// Describes the stream of a mount.
pub fn generate_sdp(inner: &Inner, mount: StreamMount) -> (text: String)
    ensures
        text@ == sdp(inner.params(mount)),
{
    let mut profile = String::new();
    match inner.sps_for(mount) {
        Some(sps) if sps.len() >= 4 => {
            push_hex_byte(&mut profile, sps[1]);
            push_hex_byte(&mut profile, sps[2]);
            push_hex_byte(&mut profile, sps[3]);
            proof {
                assert(profile@ =~= hex_byte(sps@[1]) + hex_byte(sps@[2]) + hex_byte(sps@[3]));
            }
        },
        _ => {
            profile.append("42e01f");
            proof {
                assert(profile@ =~= "42e01f"@);
            }
        },
    }
    let mut sets = String::new();
    match (inner.sps_for(mount), inner.pps_for(mount)) {
        (Some(sps), Some(pps)) => {
            sets.append("; sprop-parameter-sets=");
            sets.append(base64_encode(sps.as_slice()).as_str());
            sets.append(",");
            sets.append(base64_encode(pps.as_slice()).as_str());
            proof {
                assert(sets@ =~= sprop(inner.params(mount)));
            }
        },
        _ => {
            proof {
                assert(sets@ =~= sprop(inner.params(mount)));
            }
        },
    }
    let mut text =
        "v=0\r\no=- 0 0 IN IP4 0.0.0.0\r\ns=MiBee Eye Stream\r\nt=0 0\r\nm=video 0 RTP/AVP 96\r\na=control:streamid=0\r\na=rtpmap:96 H264/90000\r\na=fmtp:96 profile-level-id=".to_owned();
    text.append(profile.as_str());
    text.append("; packetization-mode=1");
    text.append(sets.as_str());
    text.append("\r\n");
    text
}

// ---------------------------------------------------------------------------
// Responses
// ---------------------------------------------------------------------------

/// Header lines.
pub open spec fn header_lines(headers: Seq<(Seq<char>, Seq<char>)>) -> Seq<char>
    decreases headers.len(),
{
    if headers.len() == 0 {
        Seq::empty()
    } else {
        header_lines(headers.drop_last()) + headers.last().0 + ": "@ + headers.last().1 + "\r\n"@
    }
}

/// A response: status line, headers, the length of the body where there is
/// one, and the body.
pub open spec fn response(
    status: Seq<char>,
    reason: Seq<char>,
    headers: Seq<(Seq<char>, Seq<char>)>,
    body: Seq<char>,
) -> Seq<char> {
    "RTSP/1.0 "@ + status + " "@ + reason + "\r\n"@ + header_lines(headers) + (if body.len() == 0 {
        Seq::empty()
    } else {
        "Content-Length: "@ + decimal(encode_utf8(body).len()) + "\r\n"@
    }) + "\r\n"@ + body
}

/// The texts of some headers.
pub open spec fn header_texts(headers: Seq<(&str, &str)>) -> Seq<(Seq<char>, Seq<char>)> {
    headers.map_values(|h: (&str, &str)| (h.0@, h.1@))
}

/// Writes a response.
pub fn response_text(status: &str, reason: &str, headers: &Vec<(&str, &str)>, body: &str) -> (text:
    String)
    ensures
        text@ == response(status@, reason@, header_texts(headers@), body@),
{
    let mut text = "RTSP/1.0 ".to_owned();
    text.append(status);
    text.append(" ");
    text.append(reason);
    text.append("\r\n");
    let ghost start = text@;
    let ghost all = header_texts(headers@);
    let mut i: usize = 0;
    proof {
        assert(start =~= start + header_lines(all.take(0)));
    }
    while i < headers.len()
        invariant
            i <= headers.len(),
            all == header_texts(headers@),
            text@ == start + header_lines(all.take(i as int)),
        decreases headers.len() - i,
    {
        let ghost before = text@;
        let (name, value) = headers[i];
        text.append(name);
        text.append(": ");
        text.append(value);
        text.append("\r\n");
        proof {
            assert(all[i as int] == (name@, value@));
            assert(all.take(i + 1).drop_last() =~= all.take(i as int));
            assert(all.take(i + 1).last() == all[i as int]);
            assert(text@ =~= start + header_lines(all.take(i + 1)));
        }
        i = i + 1;
    }
    proof {
        assert(all.take(all.len() as int) =~= all);
    }
    let ghost head = text@;
    if !body.is_empty() {
        text.append("Content-Length: ");
        text.append(decimal_text(body.as_bytes().len() as u64).as_str());
        text.append("\r\n");
    }
    text.append("\r\n");
    text.append(body);
    proof {
        assert(text@ =~= response(status@, reason@, all, body@));
    }
    text
}

/// A response with the number of its request alone.
pub open spec fn plain(status: Seq<char>, reason: Seq<char>, cseq: u32) -> Seq<char> {
    response(status, reason, seq![("CSeq"@, decimal(cseq as nat))], Seq::empty())
}

/// A response with the number of its request and one header more.
pub open spec fn with_header(
    status: Seq<char>,
    reason: Seq<char>,
    cseq: u32,
    name: Seq<char>,
    value: Seq<char>,
    body: Seq<char>,
) -> Seq<char> {
    response(status, reason, seq![("CSeq"@, decimal(cseq as nat)), (name, value)], body)
}

/// A response with the number of its request, its session and one header more.
pub open spec fn with_session(
    cseq: u32,
    session: Seq<char>,
    name: Seq<char>,
    value: Seq<char>,
) -> Seq<char> {
    response(
        "200"@,
        "OK"@,
        seq![("CSeq"@, decimal(cseq as nat)), ("Session"@, session), (name, value)],
        Seq::empty(),
    )
}

/// The methods that the server knows.
pub open spec fn methods() -> Seq<char> {
    "OPTIONS, DESCRIBE, SETUP, PLAY, TEARDOWN "@
}

/// The challenge to a client that has not authenticated.
pub open spec fn challenge(realm: Seq<char>, nonce: Seq<char>) -> Seq<char> {
    "Basic realm=\""@ + realm + "\", Digest realm=\""@ + realm + "\", nonce=\""@ + nonce
        + "\", algorithm=MD5"@
}

/// The answer to a request that is not let through.
pub open spec fn unauthorized(cseq: u32, realm: Seq<char>, nonce: Seq<char>) -> Seq<char> {
    with_header(
        "401"@,
        "Unauthorized"@,
        cseq,
        "WWW-Authenticate"@,
        challenge(realm, nonce),
        Seq::empty(),
    )
}

/// Writes a response with the number of its request alone.
pub fn plain_text(status: &str, reason: &str, cseq: u32) -> (text: String)
    ensures
        text@ == plain(status@, reason@, cseq),
{
    let number = decimal_text(cseq as u64);
    let headers = vec![("CSeq", number.as_str())];
    proof {
        reveal_strlit("");
        assert(""@ =~= Seq::<char>::empty());
        assert(header_texts(headers@) =~= seq![("CSeq"@, decimal(cseq as nat))]);
    }
    response_text(status, reason, &headers, "")
}

/// Writes a response with the number of its request and one header more.
pub fn with_header_text(
    status: &str,
    reason: &str,
    cseq: u32,
    name: &str,
    value: &str,
    body: &str,
) -> (text: String)
    ensures
        text@ == with_header(status@, reason@, cseq, name@, value@, body@),
{
    let number = decimal_text(cseq as u64);
    let headers = vec![("CSeq", number.as_str()), (name, value)];
    proof {
        assert(header_texts(headers@) =~= seq![
            ("CSeq"@, decimal(cseq as nat)),
            (name@, value@),
        ]);
    }
    response_text(status, reason, &headers, body)
}

/// Writes a response with the number of its request, its session and one
/// header more.
pub fn with_session_text(cseq: u32, session: &str, name: &str, value: &str) -> (text: String)
    ensures
        text@ == with_session(cseq, session@, name@, value@),
{
    let number = decimal_text(cseq as u64);
    let headers = vec![("CSeq", number.as_str()), ("Session", session), (name, value)];
    proof {
        reveal_strlit("");
        assert(""@ =~= Seq::<char>::empty());
        assert(header_texts(headers@) =~= seq![
            ("CSeq"@, decimal(cseq as nat)),
            ("Session"@, session@),
            (name@, value@),
        ]);
    }
    response_text("200", "OK", &headers, "")
}

/// Answers a request that is not let through, with a nonce to use.
pub fn unauthorized_text(cseq: u32, realm: &str, nonce: &str) -> (text: String)
    ensures
        text@ == unauthorized(cseq, realm@, nonce@),
{
    let mut www = "Basic realm=\"".to_owned();
    www.append(realm);
    www.append("\", Digest realm=\"");
    www.append(realm);
    www.append("\", nonce=\"");
    www.append(nonce);
    www.append("\", algorithm=MD5");
    proof {
        reveal_strlit("");
        assert(""@ =~= Seq::<char>::empty());
    }
    with_header_text("401", "Unauthorized", cseq, "WWW-Authenticate", www.as_str(), "")
}

// ---------------------------------------------------------------------------
// What clients read
// ---------------------------------------------------------------------------

/// Whether one character stands right before another at or after `i`.
spec fn has_pair(s: Seq<char>, a: char, b: char, i: int) -> bool
    decreases s.len() - i,
{
    if i < 0 || i + 1 >= s.len() {
        false
    } else {
        (s[i] == a && s[i + 1] == b) || has_pair(s, a, b, i + 1)
    }
}

proof fn lemma_no_pair(s: Seq<char>, a: char, b: char, i: int, k: int)
    requires
        0 <= i <= k,
        k + 1 < s.len(),
        !has_pair(s, a, b, i),
    ensures
        !(s[k] == a && s[k + 1] == b),
    decreases k - i,
{
    if i < k {
        lemma_no_pair(s, a, b, i + 1, k);
    }
}

/// The text before the profile of a stream.
spec fn sdp_head() -> Seq<char> {
    "v=0\r\no=- 0 0 IN IP4 0.0.0.0\r\ns=MiBee Eye Stream\r\nt=0 0\r\nm=video 0 RTP/AVP 96\r\na=control:streamid=0\r\na=rtpmap:96 H264/90000\r\na=fmtp:96 profile-level-id="@
}

#[verifier::rlimit(60)]
#[verifier::spinoff_prover]
proof fn lemma_head_names_no_sets()
    ensures
        !has_pair(sdp_head(), 's', 'p', 0),
        sdp_head().last() == '=',
        sdp_head().len() > 20,
{
    reveal_strlit(
        "v=0\r\no=- 0 0 IN IP4 0.0.0.0\r\ns=MiBee Eye Stream\r\nt=0 0\r\nm=video 0 RTP/AVP 96\r\na=control:streamid=0\r\na=rtpmap:96 H264/90000\r\na=fmtp:96 profile-level-id=",
    );
    reveal_with_fuel(has_pair, 51);
    assert(!has_pair(sdp_head(), 's', 'p', 150));
    assert(!has_pair(sdp_head(), 's', 'p', 100));
    assert(!has_pair(sdp_head(), 's', 'p', 50));
}

proof fn lemma_profile(p: ParamSets)
    ensures
        profile_level(p).len() == 6,
        is_hex(profile_level(p)),
{
    reveal_strlit("42e01f");
}

/// A client reads the parameter sets back out of a description: where a stream
/// knows both, what stands between `sprop-parameter-sets=` and the next comma
/// decodes to the sequence parameter set, and what stands between that comma
/// and the end of the line to the picture parameter set.
#[verifier::spinoff_prover]
pub proof fn parameter_sets_are_read_back(p: ParamSets)
    requires
        p.sps is Some,
        p.pps is Some,
    ensures
        ({
            let d = sdp(p);
            let at = find_text(d, "sprop-parameter-sets="@);
            let rest = d.skip(at + "sprop-parameter-sets="@.len());
            let comma = find(rest, ',');
            let tail = rest.skip(comma + 1);
            let end = find_text(tail, "\r\n"@);
            &&& at < d.len()
            &&& comma < rest.len()
            &&& end < tail.len()
            &&& decoded(rest.take(comma)) == p.sps
            &&& decoded(tail.take(end)) == p.pps
        }),
{
    let (sps, pps) = (p.sps->0, p.pps->0);
    let word = "sprop-parameter-sets="@;
    let mode = "; packetization-mode=1"@;
    let d = sdp(p);
    let l = sdp_head();
    let (a, b) = (encoded(sps), encoded(pps));
    lemma_head_names_no_sets();
    lemma_profile(p);
    reveal_strlit("sprop-parameter-sets=");
    reveal_strlit("; sprop-parameter-sets=");
    reveal_strlit("; packetization-mode=1");
    reveal_strlit(",");
    reveal_strlit("\r\n");
    let at = l.len() as int + 6 + 22 + 2;
    assert(d =~= l + profile_level(p) + mode + "; "@ + word + a + ","@ + b + "\r\n"@) by {
        reveal_strlit("; ");
        assert("; sprop-parameter-sets="@ =~= "; "@ + word);
    }
    reveal_strlit("; ");
    assert(d.skip(at).take(word.len() as int) =~= word);
    assert forall|k: int| 0 <= k < at implies !has_prefix(#[trigger] d.skip(k), word) by {
        if has_prefix(d.skip(k), word) {
            assert(d.skip(k).take(word.len() as int)[0] == 's');
            assert(d.skip(k).take(word.len() as int)[1] == 'p');
            assert(d[k] == 's' && d[k + 1] == 'p');
            if k + 1 < l.len() {
                lemma_no_pair(l, 's', 'p', 0, k);
                assert(l[k] == d[k] && l[k + 1] == d[k + 1]);
            } else if k < l.len() {
                assert(d[k] == l.last());
            } else if k < l.len() + 6 {
                assert(d[k] == profile_level(p)[k - l.len()]);
            } else if k < l.len() + 28 {
                assert(d[k] == mode[k - l.len() - 6]);
            } else {
                assert(d[k] == "; "@[k - l.len() - 28]);
            }
        }
    }
    lemma_text_from(d, word, 0, at);
    let rest = d.skip(at + word.len());
    assert(rest =~= a + ","@ + b + "\r\n"@);
    lemma_encoded(sps);
    lemma_encoded(pps);
    let n = a.len() as int;
    assert forall|k: int| 0 <= k < n implies rest[k] != ',' by {
        assert(rest[k] == a[k]);
    }
    lemma_find_first(rest, ',', 0, n);
    assert(rest.take(n) =~= a);
    let tail = rest.skip(n + 1);
    assert(tail =~= b + "\r\n"@);
    let m = b.len() as int;
    assert(tail.skip(m).take(2) =~= "\r\n"@);
    assert forall|k: int| 0 <= k < m implies !has_prefix(#[trigger] tail.skip(k), "\r\n"@) by {
        assert(tail.skip(k).take(2)[0] == b[k]);
        assert("\r\n"@[0] == '\r');
    }
    lemma_text_from(tail, "\r\n"@, 0, m);
    assert(tail.take(m) =~= b);
    decoding_undoes_encoding(sps);
    decoding_undoes_encoding(pps);
}

/// A stream whose two sets are not both known names none.
pub proof fn unknown_sets_are_not_named(p: ParamSets, q: ParamSets)
    requires
        p.sps is None || p.pps is None,
        q.sps is None || q.pps is None,
        profile_level(p) == profile_level(q),
    ensures
        sdp(p) == sdp(q),
{
}

#[verifier::rlimit(60)]
#[verifier::spinoff_prover]
proof fn lemma_head_names_one_profile()
    ensures
        !has_pair(sdp_head().take(sdp_head().len() - 17), 'p', 'r', 0),
        sdp_head().len() > 20,
        sdp_head()[sdp_head().len() - 18] == ' ',
        sdp_head().skip(sdp_head().len() - 17) == "profile-level-id="@,
{
    reveal_strlit(
        "v=0\r\no=- 0 0 IN IP4 0.0.0.0\r\ns=MiBee Eye Stream\r\nt=0 0\r\nm=video 0 RTP/AVP 96\r\na=control:streamid=0\r\na=rtpmap:96 H264/90000\r\na=fmtp:96 profile-level-id=",
    );
    reveal_strlit("profile-level-id=");
    reveal_with_fuel(has_pair, 51);
    let l = sdp_head().take(sdp_head().len() - 17);
    assert(!has_pair(l, 'p', 'r', 100));
    assert(!has_pair(l, 'p', 'r', 50));
    assert(sdp_head().skip(sdp_head().len() - 17) =~= "profile-level-id="@);
}

/// A client reads the profile and the level back out of a description: the six
/// digits behind `profile-level-id=` are the three bytes behind the first of
/// the sequence parameter set, in hexadecimal.
#[verifier::spinoff_prover]
pub proof fn profiles_are_read_back(p: ParamSets)
    requires
        p.sps is Some,
        p.sps->0.len() >= 4,
    ensures
        ({
            let sps = p.sps->0;
            let at = find_text(sdp(p), "profile-level-id="@);
            let digits = sdp(p).subrange(at + 17, at + 23);
            &&& at < sdp(p).len()
            &&& hex_value(digits) == sps[1] * 0x1_0000 + sps[2] * 0x100 + sps[3]
        }),
{
    let sps = p.sps->0;
    let d = sdp(p);
    let l = sdp_head();
    let word = "profile-level-id="@;
    let at = l.len() - 17;
    let digits = profile_level(p);
    lemma_head_names_one_profile();
    reveal_strlit("profile-level-id=");
    assert(d.skip(at).take(17) =~= word) by {
        assert(l.skip(at) == word);
        assert(d.skip(at).take(17) =~= l.skip(at));
    }
    assert forall|k: int| 0 <= k < at implies !has_prefix(#[trigger] d.skip(k), word) by {
        if has_prefix(d.skip(k), word) {
            assert(d.skip(k).take(17)[0] == 'p');
            assert(d.skip(k).take(17)[1] == 'r');
            assert(d[k] == l[k] && d[k + 1] == l[k + 1]);
            if k + 1 < at {
                lemma_no_pair(l.take(at), 'p', 'r', 0, k);
            }
        }
    }
    lemma_text_from(d, word, 0, at);
    assert(d.subrange(at + 17, at + 23) =~= digits);
    reveal_with_fuel(hex_value, 7);
    assert(digits.drop_last().drop_last().drop_last().drop_last().drop_last().drop_last().len()
        == 0);
}

/// The description offers one video stream of H.264 on the payload type 96, with
/// a clock of 90 kHz, in packets of single and of fragmented units.
#[verifier::rlimit(40)]
#[verifier::spinoff_prover]
pub proof fn descriptions_offer_one_video_stream(p: ParamSets)
    ensures
        contains_text(sdp(p), "\r\nm=video 0 RTP/AVP 96\r\n"@),
        contains_text(sdp(p), "\r\na=control:streamid=0\r\n"@),
        contains_text(sdp(p), "\r\na=rtpmap:96 H264/90000\r\n"@),
        contains_text(sdp(p), "\r\na=fmtp:96 profile-level-id="@ + profile_level(p)
            + "; packetization-mode=1"@),
{
    reveal_strlit(
        "v=0\r\no=- 0 0 IN IP4 0.0.0.0\r\ns=MiBee Eye Stream\r\nt=0 0\r\nm=video 0 RTP/AVP 96\r\na=control:streamid=0\r\na=rtpmap:96 H264/90000\r\na=fmtp:96 profile-level-id=",
    );
    reveal_strlit("\r\nm=video 0 RTP/AVP 96\r\n");
    reveal_strlit("\r\na=control:streamid=0\r\n");
    reveal_strlit("\r\na=rtpmap:96 H264/90000\r\n");
    reveal_strlit("\r\na=fmtp:96 profile-level-id=");
    let d = sdp(p);
    let media = "\r\nm=video 0 RTP/AVP 96\r\n"@;
    let control = "\r\na=control:streamid=0\r\n"@;
    let map = "\r\na=rtpmap:96 H264/90000\r\n"@;
    let format = "\r\na=fmtp:96 profile-level-id="@ + profile_level(p) + "; packetization-mode=1"@;
    assert(d.skip(54).take(media.len() as int) =~= media);
    assert(has_prefix(d.skip(54), media));
    assert(d.skip(76).take(control.len() as int) =~= control);
    assert(has_prefix(d.skip(76), control));
    assert(d.skip(98).take(map.len() as int) =~= map);
    assert(has_prefix(d.skip(98), map));
    assert(d.skip(122).take(format.len() as int) =~= format);
    assert(has_prefix(d.skip(122), format));
}

/// Where one of the parameter sets is not known yet, the description names none
/// at all; and without a usable one it offers the baseline profile.
pub proof fn descriptions_without_sets_name_none(p: ParamSets)
    ensures
        p.sps is None || p.pps is None ==> !contains_text(sdp(p), "sprop-parameter-sets="@),
        p.sps is None || p.sps->0.len() < 4 ==> profile_level(p) == "42e01f"@,
{
    if p.sps is None || p.pps is None {
        reveal_strlit("sprop-parameter-sets=");
        reveal_strlit("42e01f");
        reveal_strlit("; packetization-mode=1");
        reveal_strlit("\r\n");
        lemma_head_names_no_sets();
        let head = sdp_head();
        let n = head.len() as int;
        let prof = profile_level(p);
        let d = sdp(p);
        let tail = "; packetization-mode=1"@ + "\r\n"@;
        assert(d =~= head + prof + tail);
        assert forall|k: int| 0 <= k < prof.len() implies #[trigger] prof[k] != 's' by {}
        assert forall|k: int| 0 <= k < tail.len() implies #[trigger] tail[k] != 's' by {}
        assert forall|i: int| 0 <= i <= d.len() implies !has_prefix(
            #[trigger] d.skip(i),
            "sprop-parameter-sets="@,
        ) by {
            let s = d.skip(i);
            if has_prefix(s, "sprop-parameter-sets="@) {
                assert(s.take(21)[0] == 's' && s.take(21)[1] == 'p');
                assert(d[i] == 's' && d[i + 1] == 'p');
                if i < n - 1 {
                    lemma_no_pair(head, 's', 'p', 0, i);
                    assert(d[i] == head[i] && d[i + 1] == head[i + 1]);
                } else if i == n - 1 {
                    assert(d[i] == head.last());
                } else if i < n + prof.len() {
                    assert(d[i] == prof[i - n]);
                } else {
                    assert(d[i] == tail[i - n - prof.len()]);
                }
            }
        }
    }
}

} // verus!
