//! What the two sides of a dialogue make of each other's messages: requests and
//! answers are read back as they were written.

use vstd::prelude::*;
use vstd::utf8::encode_utf8;
use crate::text::{
    contains_text, decimal, decimals_are_read_back, find, first_lines_are_split_off,
    first_pieces_are_split_off, has_prefix, is_white, joined_by, joined_pieces_are_split_again,
    lemma_find_first, lemma_find_from, lines, same_ignoring_case, split, trim, trim_start,
};
use super::reply::{
    challenge, header_lines, plain, response, unauthorized, with_header, with_session,
};
use super::request::{
    channels_of, client_port_of, cseq_of, mount_of, parsed_request, path_of, read_headers,
    request_path, StreamMount,
};
use super::rtsp::{plan_of, transport_reply, SetupPlan};

verus! {

/// Whether a text can be the name of a header.
pub open spec fn is_header_name(name: Seq<char>) -> bool {
    &&& name.len() > 0
    &&& forall|i: int|
        0 <= i < name.len() ==> !is_white(#[trigger] name[i]) && name[i] != ':' && name[i] != '\n'
}

/// Whether a text can be the value of a header.
pub open spec fn is_header_value(value: Seq<char>) -> bool {
    &&& value.len() > 0
    &&& !is_white(value[0])
    &&& !is_white(value.last())
    &&& !value.contains('\n')
}

/// Whether these can be headers.
pub open spec fn are_headers(hs: Seq<(Seq<char>, Seq<char>)>) -> bool {
    forall|i: int|
        0 <= i < hs.len() ==> is_header_name((#[trigger] hs[i]).0) && is_header_value(hs[i].1)
}

/// Headers by their names, later ones in place of earlier ones.
pub open spec fn by_name(
    hs: Seq<(Seq<char>, Seq<char>)>,
    known: Map<Seq<char>, Seq<char>>,
) -> Map<Seq<char>, Seq<char>>
    decreases hs.len(),
{
    if hs.len() == 0 {
        known
    } else {
        by_name(hs.skip(1), known.insert(hs[0].0, hs[0].1))
    }
}

/// The number in the last header that is called `CSeq`, in any case.
pub open spec fn number_in(hs: Seq<(Seq<char>, Seq<char>)>, known: u32) -> u32
    decreases hs.len(),
{
    if hs.len() == 0 {
        known
    } else {
        number_in(
            hs.skip(1),
            if same_ignoring_case(hs[0].0, "CSeq"@) {
                cseq_of(hs[0].1)
            } else {
                known
            },
        )
    }
}

proof fn lemma_first_header(hs: Seq<(Seq<char>, Seq<char>)>)
    requires
        hs.len() > 0,
    ensures
        header_lines(hs) == hs[0].0 + ": "@ + hs[0].1 + "\r\n"@ + header_lines(hs.skip(1)),
    decreases hs.len(),
{
    let first = hs[0].0 + ": "@ + hs[0].1 + "\r\n"@;
    if hs.len() == 1 {
        assert(hs.drop_last() =~= seq![]);
        assert(hs.skip(1) =~= seq![]);
        assert(header_lines(hs) =~= first + header_lines(hs.skip(1)));
    } else {
        lemma_first_header(hs.drop_last());
        assert(hs.drop_last().skip(1) =~= hs.skip(1).drop_last());
        assert(hs.skip(1).last() == hs.last());
        assert(hs.drop_last()[0] == hs[0]);
        let l = hs.last().0 + ": "@ + hs.last().1 + "\r\n"@;
        assert(header_lines(hs) =~= header_lines(hs.drop_last()) + l);
        assert(header_lines(hs.skip(1)) =~= header_lines(hs.skip(1).drop_last()) + l);
        assert(header_lines(hs) =~= first + header_lines(hs.skip(1)));
    }
}

proof fn lemma_header_line(name: Seq<char>, value: Seq<char>)
    requires
        is_header_name(name),
        is_header_value(value),
    ensures
        ({
            let line = name + ": "@ + value;
            &&& trim(line) == line
            &&& find(line, ':') == name.len()
            &&& trim(line.take(name.len() as int)) == name
            &&& trim(line.skip(name.len() as int + 1)) == value
            &&& !line.contains('\n')
        }),
{
    reveal_strlit(": ");
    let line = name + ": "@ + value;
    let n = name.len() as int;
    assert(line[0] == name[0]);
    assert(line.last() == value.last());
    assert(line[n] == ": "@[0]);
    lemma_find_first(line, ':', 0, n);
    assert(line.take(n) =~= name);
    assert(!is_white(name[name.len() - 1]));
    assert(trim(name) == name);
    let rest = line.skip(n + 1);
    assert(rest =~= seq![' '] + value);
    assert(rest.skip(1) =~= value);
    assert(trim_start(value) == value);
    assert(trim_start(rest) == value);
    assert forall|k: int| 0 <= k < line.len() implies line[k] != '\n' by {
        if k < n {
            assert(line[k] == name[k]);
        } else if k < n + 2 {
            assert(line[k] == ": "@[k - n]);
        } else {
            assert(line[k] == value[k - n - 2]);
            assert(value.contains(value[k - n - 2]));
        }
    }
}

/// Headers that are written are read back, up to the blank line behind them,
/// whatever follows it.
pub proof fn headers_are_read_back(
    hs: Seq<(Seq<char>, Seq<char>)>,
    rest: Seq<char>,
    known: Map<Seq<char>, Seq<char>>,
    number: u32,
)
    requires
        are_headers(hs),
    ensures
        read_headers(lines(header_lines(hs) + "\r\n"@ + rest), known, number) == (
            by_name(hs, known),
            number_in(hs, number),
        ),
    decreases hs.len(),
{
    let text = header_lines(hs) + "\r\n"@ + rest;
    if hs.len() == 0 {
        assert(text =~= seq![] + "\r\n"@ + rest);
        first_lines_are_split_off(seq![], rest);
        let ls = lines(text);
        assert(ls[0] =~= seq![]);
        assert(trim(ls[0]).len() == 0);
    } else {
        let (name, value) = hs[0];
        let line = name + ": "@ + value;
        let tail = hs.skip(1);
        let more = header_lines(tail) + "\r\n"@ + rest;
        assert(is_header_name(hs[0].0));
        lemma_first_header(hs);
        lemma_header_line(name, value);
        assert(text =~= line + "\r\n"@ + more);
        first_lines_are_split_off(line, more);
        let ls = lines(text);
        assert(ls[0] == line);
        assert(ls.skip(1) =~= lines(more));
        assert forall|i: int| 0 <= i < tail.len() implies is_header_name((#[trigger] tail[i]).0)
            && is_header_value(tail[i].1) by {
            assert(tail[i] == hs[i + 1]);
        }
        headers_are_read_back(
            tail,
            rest,
            known.insert(name, value),
            if same_ignoring_case(name, "CSeq"@) {
                cseq_of(value)
            } else {
                number
            },
        );
    }
}

/// A request that is written is read back: its method, its address, its headers
/// and its number.
pub proof fn requests_are_read_back(
    method: Seq<char>,
    address: Seq<char>,
    hs: Seq<(Seq<char>, Seq<char>)>,
    rest: Seq<char>,
)
    requires
        !method.contains(' ') && !method.contains('\n'),
        !address.contains(' ') && !address.contains('\n'),
        are_headers(hs),
    ensures
        ({
            let text = method + " "@ + address + " RTSP/1.0"@ + "\r\n"@ + header_lines(hs)
                + "\r\n"@ + rest;
            let r = parsed_request(text);
            &&& r is Some
            &&& r->0.method == method
            &&& r->0.address == address
            &&& r->0.url == request_path(address)
            &&& r->0.headers == by_name(hs, Map::empty())
            &&& r->0.cseq == number_in(hs, 0)
        }),
{
    reveal_strlit(" ");
    reveal_strlit(" RTSP/1.0");
    let line = method + " "@ + address + " RTSP/1.0"@;
    let more = header_lines(hs) + "\r\n"@ + rest;
    let text = method + " "@ + address + " RTSP/1.0"@ + "\r\n"@ + header_lines(hs) + "\r\n"@
        + rest;
    assert(text =~= line + "\r\n"@ + more);
    let (m, a) = (method.len() as int, address.len() as int);
    assert forall|k: int| 0 <= k < line.len() implies line[k] != '\n' by {
        if k < m {
            assert(method.contains(method[k]));
        } else if k < m + 1 {
            assert(line[k] == " "@[0]);
        } else if k < m + 1 + a {
            assert(address.contains(address[k - m - 1]));
        } else {
            assert(line[k] == " RTSP/1.0"@[k - m - 1 - a]);
        }
    }
    first_lines_are_split_off(line, more);
    let ls = lines(text);
    assert(ls[0] == line);
    assert(ls.skip(1) =~= lines(more));
    assert forall|k: int| 0 <= k < m implies line[k] != ' ' by {
        assert(method.contains(method[k]));
    }
    assert(line[m] == " "@[0]);
    lemma_find_first(line, ' ', 0, m);
    assert(line.take(m) =~= method);
    let tail = line.skip(m + 1);
    assert(tail =~= address + " RTSP/1.0"@);
    assert forall|k: int| 0 <= k < a implies tail[k] != ' ' by {
        assert(address.contains(address[k]));
    }
    assert(tail[a] == " RTSP/1.0"@[0]);
    lemma_find_first(tail, ' ', 0, a);
    assert(tail.take(a) =~= address);
    headers_are_read_back(hs, rest, Map::empty(), 0);
}

/// The path of an address is what follows its host; an address without a host
/// is a path itself.
pub proof fn paths_follow_the_host(host: Seq<char>, path: Seq<char>)
    requires
        !host.contains('/'),
        path.len() > 0 ==> path[0] == '/',
    ensures
        request_path("rtsp://"@ + host + path) == (if path.len() > 0 {
            path
        } else {
            "/"@
        }),
        request_path(path) == path,
{
    reveal_strlit("rtsp://");
    let url = "rtsp://"@ + host + path;
    assert(url.take(7) =~= "rtsp://"@);
    let rest = url.skip(7);
    assert(rest =~= host + path);
    let n = host.len() as int;
    assert forall|k: int| 0 <= k < n implies rest[k] != '/' by {
        assert(host.contains(host[k]));
    }
    if path.len() > 0 {
        lemma_find_first(rest, '/', 0, n);
        assert(rest.skip(n) =~= path);
        assert(path.take(7)[0] != "rtsp://"@[0] || path.len() < 7);
    } else {
        lemma_find_from(rest, '/', 0);
    }
}

proof fn lemma_number(cseq: u32)
    ensures
        cseq_of(decimal(cseq as nat)) == cseq,
        is_header_value(decimal(cseq as nat)),
{
    let d = decimal(cseq as nat);
    decimals_are_read_back(cseq as nat, u32::MAX as nat);
    assert('0' <= d[0] <= '9');
    assert('0' <= d[d.len() - 1] <= '9');
}

proof fn lemma_cseq_name()
    ensures
        is_header_name("CSeq"@),
        same_ignoring_case("CSeq"@, "CSeq"@),
{
    reveal_strlit("CSeq");
}

proof fn lemma_response(
    status: Seq<char>,
    reason: Seq<char>,
    hs: Seq<(Seq<char>, Seq<char>)>,
    body: Seq<char>,
)
    requires
        !status.contains('\n'),
        !reason.contains('\n'),
        are_headers(hs),
    ensures
        ({
            let text = response(status, reason, hs, body);
            let all = if body.len() == 0 {
                hs
            } else {
                hs.push(("Content-Length"@, decimal(encode_utf8(body).len())))
            };
            &&& lines(text).len() > 0
            &&& lines(text)[0] == "RTSP/1.0 "@ + status + " "@ + reason
            &&& read_headers(lines(text).skip(1), Map::empty(), 0) == (
                by_name(all, Map::empty()),
                number_in(all, 0),
            )
            &&& text.skip(text.len() - body.len()) == body
        }),
{
    reveal_strlit("RTSP/1.0 ");
    reveal_strlit(" ");
    reveal_strlit("Content-Length");
    reveal_strlit("Content-Length: ");
    reveal_strlit(": ");
    let text = response(status, reason, hs, body);
    let size = decimal(encode_utf8(body).len());
    let extra = ("Content-Length"@, size);
    let all = if body.len() == 0 {
        hs
    } else {
        hs.push(extra)
    };
    let line = "RTSP/1.0 "@ + status + " "@ + reason;
    if body.len() == 0 {
        assert(text =~= line + "\r\n"@ + (header_lines(all) + "\r\n"@ + body));
    } else {
        assert(all.drop_last() =~= hs);
        assert("Content-Length: "@ =~= "Content-Length"@ + ": "@);
        assert(header_lines(all) =~= header_lines(hs) + "Content-Length: "@ + size + "\r\n"@);
        assert(text =~= line + "\r\n"@ + (header_lines(all) + "\r\n"@ + body));
        decimals_are_read_back(encode_utf8(body).len(), 0);
        assert('0' <= size[0] <= '9');
        assert('0' <= size[size.len() - 1] <= '9');
    }
    assert(are_headers(all));
    let s = status.len() as int;
    assert forall|k: int| 0 <= k < line.len() implies line[k] != '\n' by {
        if k < 9 {
            assert(line[k] == "RTSP/1.0 "@[k]);
        } else if k < 9 + s {
            assert(status.contains(status[k - 9]));
        } else if k < 10 + s {
            assert(line[k] == " "@[0]);
        } else {
            assert(reason.contains(reason[k - 10 - s]));
        }
    }
    let more = header_lines(all) + "\r\n"@ + body;
    first_lines_are_split_off(line, more);
    assert(lines(text).skip(1) =~= lines(more));
    headers_are_read_back(all, body, Map::empty(), 0);
    assert(text.skip(text.len() - body.len()) =~= body);
}

/// Whether a text is an answer with this status and reason to the request with
/// this number, as a client reads it.
pub open spec fn answers(
    text: Seq<char>,
    status: Seq<char>,
    reason: Seq<char>,
    cseq: u32,
) -> bool {
    &&& lines(text).len() > 0
    &&& lines(text)[0] == "RTSP/1.0 "@ + status + " "@ + reason
    &&& read_headers(lines(text).skip(1), Map::empty(), 0).1 == cseq
}

/// The headers of an answer, as a client reads them.
pub open spec fn answer_headers(text: Seq<char>) -> Map<Seq<char>, Seq<char>> {
    read_headers(lines(text).skip(1), Map::empty(), 0).0
}

/// Whether a header is none of those that answers have anyway.
pub open spec fn is_other_name(name: Seq<char>) -> bool {
    &&& is_header_name(name)
    &&& !same_ignoring_case(name, "CSeq"@)
    &&& name != "Content-Length"@
    &&& name != "Session"@
}

proof fn lemma_names_differ()
    ensures
        "CSeq"@ != "Session"@,
        "CSeq"@ != "Content-Length"@,
        "Session"@ != "Content-Length"@,
        !same_ignoring_case("Session"@, "CSeq"@),
        !same_ignoring_case("Content-Length"@, "CSeq"@),
        is_header_name("Session"@),
{
    reveal_strlit("CSeq");
    reveal_strlit("Session");
    reveal_strlit("Content-Length");
    assert("CSeq"@.len() == 4);
    assert("Session"@.len() == 7);
    assert("Content-Length"@.len() == 14);
}

/// An answer without more names its request.
pub proof fn plain_answers_are_read_back(status: Seq<char>, reason: Seq<char>, cseq: u32)
    requires
        !status.contains('\n'),
        !reason.contains('\n'),
    ensures
        answers(plain(status, reason, cseq), status, reason, cseq),
{
    let hs = seq![("CSeq"@, decimal(cseq as nat))];
    lemma_number(cseq);
    lemma_cseq_name();
    lemma_response(status, reason, hs, Seq::empty());
    reveal_with_fuel(number_in, 2);
    assert(hs.skip(1) =~= seq![]);
}

/// An answer with a header and a body names its request, and a client finds the
/// header and the body in it, with the body's length in bytes.
pub proof fn answers_are_read_back(
    status: Seq<char>,
    reason: Seq<char>,
    cseq: u32,
    name: Seq<char>,
    value: Seq<char>,
    body: Seq<char>,
)
    requires
        !status.contains('\n'),
        !reason.contains('\n'),
        is_other_name(name) || name == "Session"@,
        is_header_value(value),
    ensures
        ({
            let text = with_header(status, reason, cseq, name, value, body);
            &&& answers(text, status, reason, cseq)
            &&& answer_headers(text).dom().contains(name)
            &&& answer_headers(text)[name] == value
            &&& body.len() > 0 ==> answer_headers(text).dom().contains("Content-Length"@)
                && answer_headers(text)["Content-Length"@] == decimal(encode_utf8(body).len())
            &&& text.skip(text.len() - body.len()) == body
        }),
{
    let hs = seq![("CSeq"@, decimal(cseq as nat)), (name, value)];
    lemma_number(cseq);
    lemma_cseq_name();
    lemma_names_differ();
    assert(are_headers(hs));
    lemma_response(status, reason, hs, body);
    reveal_with_fuel(number_in, 4);
    reveal_with_fuel(by_name, 4);
    assert(hs.skip(1) =~= seq![(name, value)]);
    assert(hs.skip(1).skip(1) =~= seq![]);
    let extra = ("Content-Length"@, decimal(encode_utf8(body).len()));
    let all = hs.push(extra);
    assert(all.skip(1) =~= seq![(name, value), extra]);
    assert(all.skip(1).skip(1) =~= seq![extra]);
    assert(all.skip(1).skip(1).skip(1) =~= seq![]);
}

/// An answer in a session names its request and its session, and a client finds
/// the header in it.
pub proof fn session_answers_are_read_back(
    cseq: u32,
    session: Seq<char>,
    name: Seq<char>,
    value: Seq<char>,
)
    requires
        is_header_value(session),
        is_other_name(name),
        is_header_value(value),
    ensures
        ({
            let text = with_session(cseq, session, name, value);
            &&& answers(text, "200"@, "OK"@, cseq)
            &&& answer_headers(text).dom().contains("Session"@)
            &&& answer_headers(text)["Session"@] == session
            &&& answer_headers(text).dom().contains(name)
            &&& answer_headers(text)[name] == value
        }),
{
    reveal_strlit("200");
    reveal_strlit("OK");
    let hs = seq![("CSeq"@, decimal(cseq as nat)), ("Session"@, session), (name, value)];
    lemma_number(cseq);
    lemma_cseq_name();
    lemma_names_differ();
    assert(are_headers(hs));
    lemma_response("200"@, "OK"@, hs, Seq::empty());
    reveal_with_fuel(number_in, 4);
    reveal_with_fuel(by_name, 4);
    assert(hs.skip(1) =~= seq![("Session"@, session), (name, value)]);
    assert(hs.skip(1).skip(1) =~= seq![(name, value)]);
    assert(hs.skip(1).skip(1).skip(1) =~= seq![]);
}

/// A client that is refused finds the realm and the nonce that it is to answer
/// in the challenge: each stands between quotes behind its name.
pub proof fn challenges_are_read_back(cseq: u32, realm: Seq<char>, nonce: Seq<char>)
    requires
        !realm.contains('\n'),
        !nonce.contains('\n'),
    ensures
        answers(unauthorized(cseq, realm, nonce), "401"@, "Unauthorized"@, cseq),
        answer_headers(unauthorized(cseq, realm, nonce)).dom().contains("WWW-Authenticate"@),
        answer_headers(unauthorized(cseq, realm, nonce))["WWW-Authenticate"@] == challenge(
            realm,
            nonce,
        ),
        contains_text(challenge(realm, nonce), "Digest realm=\""@ + realm + "\""@),
        contains_text(challenge(realm, nonce), "Basic realm=\""@ + realm + "\""@),
        contains_text(challenge(realm, nonce), "nonce=\""@ + nonce + "\""@),
{
    reveal_strlit("401");
    reveal_strlit("Unauthorized");
    reveal_strlit("WWW-Authenticate");
    reveal_strlit("CSeq");
    reveal_strlit("Content-Length");
    reveal_strlit("Session");
    reveal_strlit("Basic realm=\"");
    reveal_strlit("\", Digest realm=\"");
    reveal_strlit("Digest realm=\"");
    reveal_strlit("\", nonce=\"");
    reveal_strlit("nonce=\"");
    reveal_strlit("\"");
    reveal_strlit("\", algorithm=MD5");
    let c = challenge(realm, nonce);
    let (r, n) = (realm.len() as int, nonce.len() as int);
    assert forall|k: int| 0 <= k < c.len() implies c[k] != '\n' by {
        if 13 <= k < 13 + r {
            assert(realm.contains(realm[k - 13]));
        } else if 13 + r + 17 <= k < 13 + 2 * r + 17 {
            assert(realm.contains(realm[k - 30 - r]));
        } else if 13 + 2 * r + 17 + 10 <= k < 40 + 2 * r + n {
            assert(nonce.contains(nonce[k - 40 - 2 * r]));
        }
    }
    answers_are_read_back("401"@, "Unauthorized"@, cseq, "WWW-Authenticate"@, c, Seq::empty());
    let a = "Basic realm=\""@ + realm + "\""@;
    assert(c.skip(0).take(a.len() as int) =~= a);
    let b = "Digest realm=\""@ + realm + "\""@;
    assert(c.skip(13 + r + 3).take(b.len() as int) =~= b);
    let d = "nonce=\""@ + nonce + "\""@;
    assert(c.skip(30 + 2 * r + 3).take(d.len() as int) =~= d);
    assert(has_prefix(c.skip(0), a));
    assert(has_prefix(c.skip(13 + r + 3), b));
    assert(has_prefix(c.skip(30 + 2 * r + 3), d));
}

/// The names and the folders of a path.
pub open spec fn are_segments(segments: Seq<Seq<char>>) -> bool {
    &&& segments.len() > 0
    &&& forall|i: int|
        0 <= i < segments.len() ==> !(#[trigger] segments[i]).contains('/')
            && !segments[i].contains('?')
}

proof fn lemma_joined_lacks(parts: Seq<Seq<char>>, sep: char, c: char)
    requires
        c != sep,
        forall|i: int| 0 <= i < parts.len() ==> !(#[trigger] parts[i]).contains(c),
    ensures
        !joined_by(parts, sep).contains(c),
    decreases parts.len(),
{
    let s = joined_by(parts, sep);
    if parts.len() > 1 {
        let tail = parts.skip(1);
        assert forall|i: int| 0 <= i < tail.len() implies !(#[trigger] tail[i]).contains(c) by {
            assert(tail[i] == parts[i + 1]);
        }
        lemma_joined_lacks(tail, sep, c);
        let t = joined_by(tail, sep);
        let n = parts[0].len() as int;
        assert forall|k: int| 0 <= k < s.len() implies s[k] != c by {
            if k < n {
                assert(s[k] == parts[0][k]);
                assert(parts[0].contains(parts[0][k]));
            } else if k > n {
                assert(s[k] == t[k - n - 1]);
                assert(t.contains(t[k - n - 1]));
            }
        }
    } else if parts.len() == 1 {
        assert(!parts[0].contains(c));
    }
}

/// The substream is asked for by a folder or name `sub` of the path, in any
/// case, wherever it stands there; neither the host nor the query counts.
pub proof fn the_path_names_the_stream(
    host: Seq<char>,
    segments: Seq<Seq<char>>,
    query: Seq<char>,
)
    requires
        !host.contains('/') && !host.contains('?'),
        are_segments(segments),
    ensures
        ({
            let url = "rtsp://"@ + host + "/"@ + joined_by(segments, '/');
            let named = exists|i: int|
                0 <= i < segments.len() && same_ignoring_case(#[trigger] segments[i], "sub"@);
            &&& (mount_of(url) == StreamMount::Sub <==> named)
            &&& (mount_of(url + "?"@ + query) == StreamMount::Sub <==> named)
        }),
{
    reveal_strlit("rtsp://");
    reveal_strlit("/");
    reveal_strlit("?");
    reveal_strlit("sub");
    let names = joined_by(segments, '/');
    let path = "/"@ + names;
    let url = "rtsp://"@ + host + "/"@ + names;
    assert(url =~= "rtsp://"@ + host + path);
    lemma_joined_lacks(segments, '/', '?');
    let n = url.len() as int;
    assert forall|k: int| 0 <= k < n implies url[k] != '?' by {
        let h = host.len() as int;
        if k < 7 {
            assert(url[k] == "rtsp://"@[k]);
        } else if k < 7 + h {
            assert(host.contains(host[k - 7]));
        } else if k == 7 + h {
            assert(url[k] == "/"@[0]);
        } else {
            assert(names.contains(names[k - 8 - h]));
        }
    }
    let asked = url + "?"@ + query;
    assert(asked[n] == "?"@[0]);
    assert forall|k: int| 0 <= k < n implies asked[k] != '?' by {
        assert(asked[k] == url[k]);
    }
    lemma_find_first(asked, '?', 0, n);
    assert(asked.take(n) =~= url);
    lemma_find_from(url, '?', 0);
    assert(url.take(n) =~= url);
    paths_follow_the_host(host, path);
    assert(path_of(url) == path);
    assert(path_of(asked) == path);
    assert(path =~= Seq::<char>::empty() + seq!['/'] + names);
    first_pieces_are_split_off(Seq::empty(), names, '/');
    joined_pieces_are_split_again(segments, '/');
    let all = split(path, '/');
    assert(all =~= seq![Seq::<char>::empty()] + segments);
    assert(!same_ignoring_case(all[0], "sub"@));
    assert forall|i: int| 0 <= i < segments.len() implies all[i + 1] == #[trigger] segments[i] by {}
    if exists|i: int| 0 <= i < segments.len() && same_ignoring_case(#[trigger] segments[i], "sub"@) {
        let i = choose|i: int|
            0 <= i < segments.len() && same_ignoring_case(#[trigger] segments[i], "sub"@);
        assert(same_ignoring_case(all[i + 1], "sub"@));
    }
    if exists|j: int| 0 <= j < all.len() && same_ignoring_case(#[trigger] all[j], "sub"@) {
        let j = choose|j: int|
            0 <= j < all.len() && same_ignoring_case(#[trigger] all[j], "sub"@);
        assert(same_ignoring_case(segments[j - 1], "sub"@));
    }
}

proof fn lemma_range(name: Seq<char>, a: nat, b: nat)
    requires
        name.len() > 0,
        !is_white(name[0]),
        !name.contains(';'),
    ensures
        ({
            let part = name + decimal(a) + "-"@ + decimal(b);
            let range = part.skip(name.len() as int);
            &&& !part.contains(';')
            &&& trim(part) == part
            &&& has_prefix(part, name)
            &&& find(range, '-') == decimal(a).len()
            &&& find(range, '-') < range.len()
            &&& range.take(find(range, '-')) == decimal(a)
            &&& range.skip(find(range, '-') + 1) == decimal(b)
        }),
{
    reveal_strlit("-");
    let (x, y) = (decimal(a), decimal(b));
    decimals_are_read_back(a, 0);
    decimals_are_read_back(b, 0);
    let part = name + x + "-"@ + y;
    let n = name.len() as int;
    let m = x.len() as int;
    let range = part.skip(n);
    assert(range =~= x + "-"@ + y);
    assert forall|k: int| 0 <= k < part.len() implies part[k] != ';' by {
        if k < n {
            assert(name.contains(name[k]));
        } else if k < n + m {
            assert(part[k] == x[k - n]);
        } else if k > n + m {
            assert(part[k] == y[k - n - m - 1]);
        } else {
            assert(part[k] == "-"@[0]);
        }
    }
    assert(part[0] == name[0]);
    assert(part.last() == y[y.len() - 1]);
    assert(part.take(n) =~= name);
    assert(range[m] == "-"@[0]);
    assert forall|k: int| 0 <= k < m implies range[k] != '-' by {
        assert(range[k] == x[k]);
    }
    lemma_find_first(range, '-', 0, m);
    assert(range.take(m) =~= x);
    assert(range.skip(m + 1) =~= y);
}

/// The channels that a client asks for are the ones that it gets, and the
/// answer says so: it is read as asking for the same.
pub proof fn channels_are_read_back(rtp: u8, rtcp: u8, server_port: u16)
    ensures
        plan_of(
            "RTP/AVP/TCP;unicast;interleaved="@ + decimal(rtp as nat) + "-"@ + decimal(rtcp as nat),
        ) == (SetupPlan::Tcp { rtp, rtcp }),
        plan_of(transport_reply(SetupPlan::Tcp { rtp, rtcp }, server_port)) == (SetupPlan::Tcp {
            rtp,
            rtcp,
        }),
{
    reveal_strlit("RTP/AVP/TCP;unicast;interleaved=");
    reveal_strlit("RTP/AVP/TCP");
    reveal_strlit("unicast");
    reveal_strlit("interleaved=");
    reveal_strlit("TCP");
    let part = "interleaved="@ + decimal(rtp as nat) + "-"@ + decimal(rtcp as nat);
    let t = "RTP/AVP/TCP;unicast;interleaved="@ + decimal(rtp as nat) + "-"@ + decimal(
        rtcp as nat,
    );
    let rest = "unicast"@ + seq![';'] + part;
    assert(t =~= "RTP/AVP/TCP"@ + seq![';'] + rest);
    assert(t.skip(8).take(3) =~= "TCP"@);
    assert(has_prefix(t.skip(8), "TCP"@));
    lemma_range("interleaved="@, rtp as nat, rtcp as nat);
    first_pieces_are_split_off("RTP/AVP/TCP"@, rest, ';');
    first_pieces_are_split_off("unicast"@, part, ';');
    first_pieces_are_split_off(part, Seq::empty(), ';');
    let all = split(t, ';');
    assert(all =~= seq!["RTP/AVP/TCP"@, "unicast"@, part]);
    lemma_trimmed("RTP/AVP/TCP"@);
    lemma_trimmed("unicast"@);
    assert("RTP/AVP/TCP"@[0] == 'R');
    assert("unicast"@[0] == 'u');
    assert(!has_prefix("RTP/AVP/TCP"@, "interleaved="@));
    assert(!has_prefix("unicast"@, "interleaved="@));
    assert(all.skip(1).skip(1)[0] == part);
    reveal_with_fuel(channels_of, 4);
    decimals_are_read_back(rtp as nat, 255);
    decimals_are_read_back(rtcp as nat, 255);
}

proof fn lemma_trimmed(s: Seq<char>)
    requires
        s.len() > 0,
        !is_white(s[0]),
        !is_white(s[s.len() - 1]),
    ensures
        trim(s) == s,
{
}

/// Whether the letters of a text rule out that it asks for the connection
/// itself: no `T` before a `C`, and no `i` before an `n`.
spec fn lacks_pairs(s: Seq<char>) -> bool {
    forall|k: int|
        0 <= k < s.len() - 1 ==> !(#[trigger] s[k] == 'T' && s[k + 1] == 'C') && !(s[k] == 'i'
            && s[k + 1] == 'n')
}

proof fn lemma_no_connection(t: Seq<char>)
    requires
        lacks_pairs(t),
    ensures
        !contains_text(t, "TCP"@),
        !contains_text(t, "interleaved="@),
{
    reveal_strlit("TCP");
    reveal_strlit("interleaved=");
    assert forall|i: int| 0 <= i <= t.len() implies !has_prefix(#[trigger] t.skip(i), "TCP"@)
        && !has_prefix(t.skip(i), "interleaved="@) by {
        let s = t.skip(i);
        if has_prefix(s, "TCP"@) {
            assert(s.take(3)[0] == 'T' && s.take(3)[1] == 'C');
            assert(t[i] == s[0] && t[i + 1] == s[1]);
        }
        if has_prefix(s, "interleaved="@) {
            assert(s.take(12)[0] == 'i' && s.take(12)[1] == 'n');
            assert(t[i] == s[0] && t[i + 1] == s[1]);
        }
    }
}

proof fn lemma_no_pairs_behind(t: Seq<char>, n: int)
    requires
        0 < n <= t.len(),
        lacks_pairs(t.take(n)),
        t[n - 1] != 'T' && t[n - 1] != 'i',
        forall|k: int| n <= k < t.len() ==> '-' <= #[trigger] t[k] <= '9',
    ensures
        lacks_pairs(t),
{
    assert forall|k: int| 0 <= k < t.len() - 1 implies !(#[trigger] t[k] == 'T' && t[k + 1] == 'C')
        && !(t[k] == 'i' && t[k + 1] == 'n') by {
        if k < n - 1 {
            assert(t.take(n)[k] == t[k]);
            assert(t.take(n)[k + 1] == t[k + 1]);
        }
    }
}

proof fn lemma_digits_behind(t: Seq<char>, n: int, a: nat, b: nat)
    requires
        0 <= n <= t.len(),
        t.skip(n) == decimal(a) + "-"@ + decimal(b),
    ensures
        forall|k: int| n <= k < t.len() ==> '-' <= #[trigger] t[k] <= '9',
{
    reveal_strlit("-");
    decimals_are_read_back(a, 0);
    decimals_are_read_back(b, 0);
    let m = decimal(a).len() as int;
    let r = t.skip(n);
    assert(r.len() == m + 1 + decimal(b).len());
    assert forall|k: int| n <= k < t.len() implies '-' <= #[trigger] t[k] <= '9' by {
        assert(t[k] == r[k - n]);
        if k - n < m {
            assert(t[k] == decimal(a)[k - n]);
        } else if k - n > m {
            assert(t[k] == decimal(b)[k - n - m - 1]);
        } else {
            assert(t[k] == "-"@[0]);
        }
    }
}

proof fn lemma_datagram_head()
    ensures
        ({
            let head = "RTP/AVP;unicast;client_port="@;
            &&& head == "RTP/AVP"@ + seq![';'] + "unicast"@ + seq![';'] + "client_port="@
            &&& head.len() == 28
            &&& lacks_pairs(head)
            &&& head[27] == '='
        }),
        !"RTP/AVP"@.contains(';'),
        !"unicast"@.contains(';'),
        !"client_port="@.contains(';'),
        trim("RTP/AVP"@) == "RTP/AVP"@,
        trim("unicast"@) == "unicast"@,
        !has_prefix("RTP/AVP"@, "client_port="@),
        !has_prefix("unicast"@, "client_port="@),
        "client_port="@.len() > 0,
        !is_white("client_port="@[0]),
{
    reveal_strlit("RTP/AVP;unicast;client_port=");
    reveal_strlit("RTP/AVP");
    reveal_strlit("unicast");
    reveal_strlit("client_port=");
    lemma_trimmed("RTP/AVP"@);
    lemma_trimmed("unicast"@);
    assert("RTP/AVP;unicast;client_port="@ =~= "RTP/AVP"@ + seq![';'] + "unicast"@ + seq![';']
        + "client_port="@);
}

/// The port that a client asks for is the one that its datagrams go to, and
/// where it is the last one there is none for the control packets.
pub proof fn client_ports_are_read_back(port: u16)
    ensures
        plan_of(
            "RTP/AVP;unicast;client_port="@ + decimal(port as nat) + "-"@ + decimal(
                (port + 1) as nat,
            ),
        ) == (if port == 65535 {
            SetupPlan::LastPort
        } else {
            SetupPlan::Udp { client_port: port }
        }),
{
    let (a, b) = (port as nat, (port + 1) as nat);
    let head = "RTP/AVP;unicast;client_port="@;
    let part = "client_port="@ + decimal(a) + "-"@ + decimal(b);
    let t = head + decimal(a) + "-"@ + decimal(b);
    let rest = "unicast"@ + seq![';'] + part;
    lemma_datagram_head();
    assert(t =~= "RTP/AVP"@ + seq![';'] + rest);
    assert(t.take(28) =~= head);
    assert(t.skip(28) =~= decimal(a) + "-"@ + decimal(b));
    assert(t[27] == head[27]);
    lemma_digits_behind(t, 28, a, b);
    lemma_no_pairs_behind(t, 28);
    lemma_no_connection(t);
    lemma_range("client_port="@, a, b);
    first_pieces_are_split_off("RTP/AVP"@, rest, ';');
    first_pieces_are_split_off("unicast"@, part, ';');
    first_pieces_are_split_off(part, Seq::empty(), ';');
    let all = split(t, ';');
    assert(all =~= seq!["RTP/AVP"@, "unicast"@, part]);
    assert(all.skip(1).skip(1)[0] == part);
    reveal_with_fuel(client_port_of, 4);
    decimals_are_read_back(a, 65535);
}

proof fn lemma_server_name()
    ensures
        ";server_port="@ == seq![';'] + "server_port="@,
        !"server_port="@.contains(';'),
        "server_port="@.len() > 0,
        !is_white("server_port="@[0]),
{
    reveal_strlit(";server_port=");
    reveal_strlit("server_port=");
    assert(";server_port="@ =~= seq![';'] + "server_port="@);
}

/// The answer names the ports of both sides: the client's and the server's,
/// each with the one after it.
pub proof fn ports_are_answered(client_port: u16, server_port: u16)
    requires
        client_port < 65535,
        server_port < 65535,
    ensures
        split(transport_reply(SetupPlan::Udp { client_port }, server_port), ';') == seq![
            "RTP/AVP"@,
            "unicast"@,
            "client_port="@ + decimal(client_port as nat) + "-"@ + decimal((client_port + 1) as nat),
            "server_port="@ + decimal(server_port as nat) + "-"@ + decimal((server_port + 1) as nat),
        ],
{
    lemma_datagram_head();
    lemma_server_name();
    let p = "client_port="@ + decimal(client_port as nat) + "-"@ + decimal(
        (client_port + 1) as nat,
    );
    let q = "server_port="@ + decimal(server_port as nat) + "-"@ + decimal(
        (server_port + 1) as nat,
    );
    let t = transport_reply(SetupPlan::Udp { client_port }, server_port);
    let ports = p + seq![';'] + q;
    let rest = "unicast"@ + seq![';'] + ports;
    assert(t =~= "RTP/AVP"@ + seq![';'] + rest);
    lemma_range("client_port="@, client_port as nat, (client_port + 1) as nat);
    lemma_range("server_port="@, server_port as nat, (server_port + 1) as nat);
    first_pieces_are_split_off("RTP/AVP"@, rest, ';');
    first_pieces_are_split_off("unicast"@, ports, ';');
    first_pieces_are_split_off(p, q, ';');
    first_pieces_are_split_off(q, Seq::empty(), ';');
    assert(split(t, ';') =~= seq!["RTP/AVP"@, "unicast"@, p, q]);
}

} // verus!
