//! RTSP requests and the header values that steer a stream.

use vstd::prelude::*;
use vstd::slice::slice_subrange;
use crate::text::{
    after_prefix, chars_of, decimal, decimals_are_read_back, eq_ignoring_case, find, find_char,
    has_prefix, is_white,
    lemma_find_first, lemma_find_from, lines, lines_of, parse_unsigned, read_unsigned,
    same_ignoring_case, split, split_chars, text_of, trim, trim_end, trim_start, trimmed,
    trimmed_start,
};
use crate::text_map::{texts, TextMap};

verus! {

/// Which mounted stream a request or session is for.
#[derive(Debug, Clone, Copy, PartialEq, Eq, Structural)]
pub enum StreamMount {
    Main,
    Sub,
}

impl Default for StreamMount {
    fn default() -> (m: Self)
        ensures
            m == StreamMount::Main,
    {
        StreamMount::Main
    }
}

/// The path of a URL, without its host and its query.
pub open spec fn path_of(url: Seq<char>) -> Seq<char> {
    request_path(url.take(find(url, '?')))
}

/// Whether the path of a URL has a segment `sub`, in any case.
pub open spec fn names_sub(url: Seq<char>) -> bool {
    exists|i: int|
        0 <= i < split(path_of(url), '/').len() && same_ignoring_case(
            #[trigger] split(path_of(url), '/')[i],
            "sub"@,
        )
}

/// The mount a URL resolves to.
pub open spec fn mount_of(url: Seq<char>) -> StreamMount {
    if names_sub(url) {
        StreamMount::Sub
    } else {
        StreamMount::Main
    }
}

impl StreamMount {
    /// Resolves the mount from a request URL: a `sub` path segment selects the
    /// substream, anything else the main stream.
    pub fn from_url(url: &str) -> (m: Self)
        ensures
            m == mount_of(url@),
    {
        let u = chars_of(url);
        let q: usize = find_char(u.as_slice(), '?');
        let address = slice_subrange(u.as_slice(), 0, q);
        proof {
            assert(address@ =~= url@.take(q as int));
        }
        let path = path_component(address);
        let path = chars_of(path.as_str());
        let segments = split_chars(path.as_slice(), '/');
        let mut i: usize = 0;
        while i < segments.len()
            invariant
                i <= segments.len(),
                segments@.len() == split(path_of(url@), '/').len(),
                forall|k: int|
                    0 <= k < segments@.len() ==> #[trigger] segments@[k]@ == split(
                        path_of(url@),
                        '/',
                    )[k],
                forall|k: int|
                    0 <= k < i ==> !same_ignoring_case(
                        #[trigger] split(path_of(url@), '/')[k],
                        "sub"@,
                    ),
            decreases segments.len() - i,
        {
            let ghost s = segments@[i as int]@;
            if eq_ignoring_case(segments[i].as_slice(), "sub") {
                proof {
                    assert(same_ignoring_case(split(path_of(url@), '/')[i as int], "sub"@));
                }
                return StreamMount::Sub;
            }
            proof {
                assert(s == split(path_of(url@), '/')[i as int]);
            }
            i = i + 1;
        }
        StreamMount::Main
    }
}

// ---------------------------------------------------------------------------
// Requests
// ---------------------------------------------------------------------------

/// A parsed RTSP request.
pub struct RtspRequest {
    pub method: String,
    /// The path of the address.
    pub url: String,
    /// The address as it was sent.
    pub address: String,
    pub cseq: u32,
    pub headers: TextMap<String>,
}

/// What a request says.
pub struct RequestText {
    pub method: Seq<char>,
    pub url: Seq<char>,
    pub address: Seq<char>,
    pub cseq: u32,
    pub headers: Map<Seq<char>, Seq<char>>,
}

impl View for RtspRequest {
    type V = RequestText;

    open spec fn view(&self) -> RequestText {
        RequestText {
            method: self.method@,
            url: self.url@,
            address: self.address@,
            cseq: self.cseq,
            headers: texts(self.headers@),
        }
    }
}

/// The path component of a request URL: what follows the host of an
/// `rtsp://` URL, or `/` where nothing does.
pub open spec fn request_path(url: Seq<char>) -> Seq<char> {
    if has_prefix(url, "rtsp://"@) {
        let rest = url.skip("rtsp://"@.len() as int);
        let i = find(rest, '/');
        if i < rest.len() {
            rest.skip(i)
        } else {
            "/"@
        }
    } else {
        url
    }
}

/// A sequence number, or zero where the text is none.
pub open spec fn cseq_of(value: Seq<char>) -> u32 {
    match parse_unsigned(value, u32::MAX as nat) {
        Some(n) => n as u32,
        None => 0,
    }
}

/// Reads header lines, on top of what is known, up to the first blank one. A
/// line without a colon is passed over.
pub open spec fn read_headers(
    ls: Seq<Seq<char>>,
    headers: Map<Seq<char>, Seq<char>>,
    cseq: u32,
) -> (Map<Seq<char>, Seq<char>>, u32)
    decreases ls.len(),
{
    if ls.len() == 0 {
        (headers, cseq)
    } else {
        let line = trim(ls[0]);
        let i = find(line, ':');
        if line.len() == 0 {
            (headers, cseq)
        } else if i >= line.len() {
            read_headers(ls.skip(1), headers, cseq)
        } else {
            let key = trim(line.take(i));
            let value = trim(line.skip(i + 1));
            read_headers(
                ls.skip(1),
                headers.insert(key, value),
                if same_ignoring_case(key, "CSeq"@) {
                    cseq_of(value)
                } else {
                    cseq
                },
            )
        }
    }
}

/// The request that a text makes: a first line of method, URL and version,
/// separated by single spaces, then headers.
pub open spec fn parsed_request(data: Seq<char>) -> Option<RequestText> {
    let ls = lines(data);
    if ls.len() == 0 {
        None
    } else {
        let i = find(ls[0], ' ');
        let rest = ls[0].skip(i + 1);
        let j = find(rest, ' ');
        if i >= ls[0].len() || j >= rest.len() {
            None
        } else {
            let (headers, cseq) = read_headers(ls.skip(1), Map::empty(), 0);
            Some(
                RequestText {
                    method: ls[0].take(i),
                    url: request_path(rest.take(j)),
                    address: rest.take(j),
                    cseq,
                    headers,
                },
            )
        }
    }
}

fn path_component(url: &[char]) -> (path: String)
    ensures
        path@ == request_path(url@),
{
    match after_prefix(url, "rtsp://") {
        Some(rest) => {
            let i: usize = find_char(rest, '/');
            if i < rest.len() {
                let p = slice_subrange(rest, i, rest.len());
                proof {
                    assert(p@ =~= rest@.skip(i as int));
                }
                text_of(p)
            } else {
                "/".to_owned()
            }
        },
        None => text_of(url),
    }
}

/// Parses an RTSP request: its headers, up to the blank line.
pub fn parse_rtsp_request(data: &str) -> (req: Option<RtspRequest>)
    ensures
        req is Some <==> parsed_request(data@) is Some,
        req matches Some(r) ==> parsed_request(data@) == Some(r@),
{
    let text = chars_of(data);
    let ls = lines_of(text.as_slice());
    if ls.len() == 0 {
        return None;
    }
    let first = ls[0].as_slice();
    let i: usize = find_char(first, ' ');
    if i >= first.len() {
        return None;
    }
    let rest = slice_subrange(first, i + 1, first.len());
    let ghost all = lines(data@);
    proof {
        assert(first@ == all[0]);
        assert(rest@ =~= all[0].skip(i + 1));
    }
    let j: usize = find_char(rest, ' ');
    if j >= rest.len() {
        return None;
    }
    let method = slice_subrange(first, 0, i);
    let target = slice_subrange(rest, 0, j);
    proof {
        assert(method@ =~= all[0].take(i as int));
        assert(target@ =~= rest@.take(j as int));
    }
    let mut headers: TextMap<String> = TextMap::new();
    let mut cseq: u32 = 0;
    let mut n: usize = 1;
    let ghost want = read_headers(all.skip(1), Map::empty(), 0);
    proof {
        assert(texts(headers@) =~= Map::<Seq<char>, Seq<char>>::empty());
    }
    while n < ls.len()
        invariant_except_break
            n <= ls.len(),
            ls@.len() == all.len(),
            forall|k: int| 0 <= k < ls@.len() ==> #[trigger] ls@[k]@ == all[k],
            want == read_headers(all.skip(n as int), texts(headers@), cseq),
        ensures
            want == (texts(headers@), cseq),
        decreases ls.len() - n,
    {
        let line = trimmed(ls[n].as_slice());
        proof {
            assert(all.skip(n as int)[0] == ls@[n as int]@);
            assert(all.skip(n as int).skip(1) =~= all.skip(n + 1));
        }
        if line.len() == 0 {
            break;
        }
        let colon: usize = find_char(line, ':');
        if colon < line.len() {
            let left = slice_subrange(line, 0, colon);
            let right = slice_subrange(line, colon + 1, line.len());
            proof {
                assert(left@ =~= line@.take(colon as int));
                assert(right@ =~= line@.skip(colon + 1));
            }
            let key = trimmed(left);
            let value = trimmed(right);
            if eq_ignoring_case(key, "CSeq") {
                cseq = match read_unsigned(value, 0xffff_ffff) {
                    Some(v) => v as u32,
                    None => 0,
                };
            }
            let ghost before = headers@;
            let value_text = text_of(value);
            headers.insert(text_of(key), value_text);
            proof {
                assert(texts(headers@) =~= texts(before).insert(key@, value@));
            }
        }
        n = n + 1;
    }
    Some(
        RtspRequest {
            method: text_of(method),
            url: path_component(target),
            address: text_of(target),
            cseq,
            headers,
        },
    )
}

// ---------------------------------------------------------------------------
// Transport header
// ---------------------------------------------------------------------------

/// The client's RTP port from the parts of a Transport header.
pub open spec fn client_port_of(parts: Seq<Seq<char>>) -> Option<nat>
    decreases parts.len(),
{
    if parts.len() == 0 {
        None
    } else {
        let part = trim(parts[0]);
        if has_prefix(part, "client_port="@) {
            let range = part.skip("client_port="@.len() as int);
            parse_unsigned(range.take(find(range, '-')), 65535)
        } else {
            client_port_of(parts.skip(1))
        }
    }
}

/// Parses the client RTP port of a Transport header, as in
/// `client_port=50000-50001`.
pub fn parse_client_port(transport: &str) -> (port: Option<u16>)
    ensures
        port is Some <==> client_port_of(split(transport@, ';')) is Some,
        port matches Some(p) ==> client_port_of(split(transport@, ';')) == Some(p as nat),
{
    let text = chars_of(transport);
    let parts = split_chars(text.as_slice(), ';');
    let ghost all = split(transport@, ';');
    let mut i: usize = 0;
    proof {
        assert(all.skip(0) =~= all);
    }
    while i < parts.len()
        invariant
            i <= parts.len(),
            parts@.len() == all.len(),
            all == split(transport@, ';'),
            forall|k: int| 0 <= k < parts@.len() ==> #[trigger] parts@[k]@ == all[k],
            client_port_of(all) == client_port_of(all.skip(i as int)),
        decreases parts.len() - i,
    {
        proof {
            assert(all.skip(i as int)[0] == parts@[i as int]@);
            assert(all.skip(i as int).skip(1) =~= all.skip(i + 1));
        }
        match after_prefix(trimmed(parts[i].as_slice()), "client_port=") {
            Some(range) => {
                let dash: usize = find_char(range, '-');
                let port = slice_subrange(range, 0, dash);
                proof {
                    assert(port@ =~= range@.take(dash as int));
                }
                return match read_unsigned(port, 65535) {
                    Some(p) => Some(p as u16),
                    None => None,
                };
            },
            None => {},
        }
        i = i + 1;
    }
    None
}

/// A channel number, or a default where the text is none.
pub open spec fn channel_of(s: Seq<char>, default: u8) -> u8 {
    match parse_unsigned(s, 255) {
        Some(n) => n as u8,
        None => default,
    }
}

/// The interleaved channels from the parts of a Transport header.
pub open spec fn channels_of(parts: Seq<Seq<char>>) -> (u8, u8)
    decreases parts.len(),
{
    if parts.len() == 0 {
        (0, 1)
    } else {
        let part = trim(parts[0]);
        let range = part.skip("interleaved="@.len() as int);
        let i = find(range, '-');
        if has_prefix(part, "interleaved="@) && i < range.len() {
            (channel_of(range.take(i), 0), channel_of(range.skip(i + 1), 1))
        } else {
            channels_of(parts.skip(1))
        }
    }
}

fn read_channel(s: &[char], default: u8) -> (c: u8)
    ensures
        c == channel_of(s@, default),
{
    match read_unsigned(s, 255) {
        Some(n) => n as u8,
        None => default,
    }
}

/// Parses the interleaved channels of a Transport header; 0 and 1 where it
/// names none.
pub fn parse_transport_interleaved(transport: &str) -> (channels: (u8, u8))
    ensures
        channels == channels_of(split(transport@, ';')),
{
    let text = chars_of(transport);
    let parts = split_chars(text.as_slice(), ';');
    let ghost all = split(transport@, ';');
    let mut i: usize = 0;
    proof {
        assert(all.skip(0) =~= all);
    }
    while i < parts.len()
        invariant
            i <= parts.len(),
            parts@.len() == all.len(),
            all == split(transport@, ';'),
            forall|k: int| 0 <= k < parts@.len() ==> #[trigger] parts@[k]@ == all[k],
            channels_of(all) == channels_of(all.skip(i as int)),
        decreases parts.len() - i,
    {
        proof {
            assert(all.skip(i as int)[0] == parts@[i as int]@);
            assert(all.skip(i as int).skip(1) =~= all.skip(i + 1));
        }
        match after_prefix(trimmed(parts[i].as_slice()), "interleaved=") {
            Some(range) => {
                let dash: usize = find_char(range, '-');
                if dash < range.len() {
                    let left = slice_subrange(range, 0, dash);
                    let right = slice_subrange(range, dash + 1, range.len());
                    proof {
                        assert(left@ =~= range@.take(dash as int));
                        assert(right@ =~= range@.skip(dash + 1));
                    }
                    return (read_channel(left, 0), read_channel(right, 1));
                }
            },
            None => {},
        }
        i = i + 1;
    }
    (0, 1)
}

// ---------------------------------------------------------------------------
// Digest parameters
// ---------------------------------------------------------------------------

pub proof fn lemma_trim_start_len(s: Seq<char>)
    ensures
        trim_start(s).len() <= s.len(),
    decreases s.len(),
{
    if s.len() > 0 && is_white(s[0]) {
        lemma_trim_start_len(s.skip(1));
    }
}

pub proof fn lemma_trim_len(s: Seq<char>)
    ensures
        trim(s).len() <= s.len(),
{
    lemma_trim_start_len(s);
    lemma_trim_end_len(trim_start(s));
}

pub proof fn lemma_trim_end_len(s: Seq<char>)
    ensures
        trim_end(s).len() <= s.len(),
    decreases s.len(),
{
    if s.len() > 0 && is_white(s.last()) {
        lemma_trim_end_len(s.drop_last());
    }
}

/// The value at the start of a text and what follows it: a quoted string up
/// to its closing quote or the end, else what stands before a comma.
pub open spec fn digest_value(v: Seq<char>) -> (Seq<char>, Seq<char>) {
    if v[0] == '"' {
        let open = v.skip(1);
        let e = find(open, '"');
        if e < open.len() {
            (open.take(e), trim_start(open.skip(e + 1)))
        } else {
            (open, seq![])
        }
    } else {
        let e = find(v, ',');
        (trim(v.take(e)), if e < v.len() {
            v.skip(e + 1)
        } else {
            seq![]
        })
    }
}

/// A parameter list without surrounding white space and one leading comma.
pub open spec fn next_param(rest: Seq<char>) -> Seq<char> {
    let r = trim(rest);
    if r.len() > 0 && r[0] == ',' {
        trim(r.skip(1))
    } else {
        r
    }
}

/// Reads parameters, on top of what is known, up to the first that has no
/// equals sign or no value.
pub open spec fn read_params(rest: Seq<char>, known: Map<Seq<char>, Seq<char>>) -> Map<
    Seq<char>,
    Seq<char>,
>
    decreases rest.len(),
    via read_params_decreases
{
    let r = next_param(rest);
    let i = find(r, '=');
    let v = trim(r.skip(i + 1));
    if r.len() == 0 || i >= r.len() || v.len() == 0 {
        known
    } else {
        let (value, more) = digest_value(v);
        read_params(more, known.insert(trim(r.take(i)), value))
    }
}

#[via_fn]
proof fn read_params_decreases(rest: Seq<char>, known: Map<Seq<char>, Seq<char>>) {
    let r0 = trim(rest);
    let r = next_param(rest);
    let i = find(r, '=');
    lemma_trim_len(rest);
    if r0.len() > 0 {
        lemma_trim_len(r0.skip(1));
    }
    lemma_find_from(r, '=', 0);
    if i < r.len() {
        let v = trim(r.skip(i + 1));
        lemma_trim_len(r.skip(i + 1));
        if v.len() > 0 {
            let open = v.skip(1);
            lemma_find_from(open, '"', 0);
            lemma_find_from(v, ',', 0);
            if find(open, '"') < open.len() {
                lemma_trim_start_len(open.skip(find(open, '"') + 1));
            }
        }
    }
}

/// The parameters of a Digest Authorization header; none for another scheme.
pub open spec fn digest_params(header: Seq<char>) -> Map<Seq<char>, Seq<char>> {
    if has_prefix(header, "Digest "@) {
        read_params(trim(header.skip("Digest "@.len() as int)), Map::empty())
    } else {
        Map::empty()
    }
}

/// A parameter as clients write it.
pub open spec fn quoted_param(name: Seq<char>, value: Seq<char>) -> Seq<char> {
    name + "=\""@ + value + "\""@
}

proof fn lemma_reads_param(
    name: Seq<char>,
    value: Seq<char>,
    tail: Seq<char>,
    known: Map<Seq<char>, Seq<char>>,
)
    requires
        name.len() > 0,
        forall|k: int|
            0 <= k < name.len() ==> !is_white(#[trigger] name[k]) && name[k] != '=' && name[k]
                != ',',
        forall|k: int| 0 <= k < value.len() ==> value[k] != '"',
        tail.len() > 0 ==> !is_white(tail[0]) && !is_white(tail.last()),
    ensures
        read_params(quoted_param(name, value) + tail, known) == read_params(
            tail,
            known.insert(name, value),
        ),
        read_params(", "@ + quoted_param(name, value) + tail, known) == read_params(
            tail,
            known.insert(name, value),
        ),
{
    reveal_strlit("=\"");
    reveal_strlit("\"");
    reveal_strlit(", ");
    let n = name.len() as int;
    let r = quoted_param(name, value) + tail;
    let later = ", "@ + quoted_param(name, value) + tail;
    assert(r[0] == name[0]);
    assert(!is_white(r.last())) by {
        if tail.len() == 0 {
            assert(r.last() == '"');
        } else {
            assert(r.last() == tail.last());
        }
    }
    assert(next_param(r) == r);
    assert(later.skip(1)[0] == ' ');
    assert(later.skip(1).skip(1) =~= r);
    assert(later.last() == r.last());
    assert(trim_start(later.skip(1)) == r) by {
        assert(trim_start(r) == r);
    }
    assert(next_param(later) == r);
    lemma_find_first(r, '=', 0, n);
    let v = r.skip(n + 1);
    assert(v =~= seq!['"'] + value + seq!['"'] + tail);
    assert(v.last() == r.last());
    assert(trim(v) == v);
    assert(r.take(n) =~= name);
    assert(trim(name) == name);
    let open = v.skip(1);
    let e = value.len() as int;
    assert(open =~= value + seq!['"'] + tail);
    lemma_find_first(open, '"', 0, e);
    assert(open.take(e) =~= value);
    assert(open.skip(e + 1) =~= tail);
    assert(trim_start(tail) == tail);
}

/// A Digest Authorization header as clients write it.
pub open spec fn digest_header(
    username: Seq<char>,
    realm: Seq<char>,
    nonce: Seq<char>,
    uri: Seq<char>,
    response: Seq<char>,
) -> Seq<char> {
    "Digest "@ + quoted_param("username"@, username) + ", "@ + quoted_param("realm"@, realm)
        + ", "@ + quoted_param("nonce"@, nonce) + ", "@ + quoted_param("uri"@, uri) + ", "@
        + quoted_param("response"@, response)
}

/// Whether a text can stand between quotes.
pub open spec fn is_quotable(t: Seq<char>) -> bool {
    forall|k: int| 0 <= k < t.len() ==> t[k] != '"'
}

/// What a client puts into a Digest Authorization header is read out of it, as
/// long as none of it holds a quote.
pub proof fn digest_headers_are_read_back(
    username: Seq<char>,
    realm: Seq<char>,
    nonce: Seq<char>,
    uri: Seq<char>,
    response: Seq<char>,
)
    requires
        is_quotable(username),
        is_quotable(realm),
        is_quotable(nonce),
        is_quotable(uri),
        is_quotable(response),
    ensures
        digest_params(digest_header(username, realm, nonce, uri, response)) == map![
            "username"@ => username,
            "realm"@ => realm,
            "nonce"@ => nonce,
            "uri"@ => uri,
            "response"@ => response,
        ],
{
    reveal_strlit("Digest ");
    reveal_strlit("username");
    reveal_strlit("realm");
    reveal_strlit("nonce");
    reveal_strlit("uri");
    reveal_strlit("response");
    reveal_strlit(", ");
    reveal_strlit("\"");
    let header = digest_header(username, realm, nonce, uri, response);
    let none = Seq::<char>::empty();
    let t4 = ", "@ + quoted_param("response"@, response) + none;
    let t3 = ", "@ + quoted_param("uri"@, uri) + t4;
    let t2 = ", "@ + quoted_param("nonce"@, nonce) + t3;
    let t1 = ", "@ + quoted_param("realm"@, realm) + t2;
    let body = quoted_param("username"@, username) + t1;
    assert(t4.last() == '"');
    assert(t3.last() == t4.last());
    assert(t2.last() == t3.last());
    assert(t1.last() == t2.last());
    assert(body.last() == t1.last());
    assert(header.take("Digest "@.len() as int) =~= "Digest "@);
    assert(header.skip("Digest "@.len() as int) =~= body);
    assert(body[0] == 'u');
    assert(trim(body) == body);
    let k0 = Map::<Seq<char>, Seq<char>>::empty();
    let k1 = k0.insert("username"@, username);
    let k2 = k1.insert("realm"@, realm);
    let k3 = k2.insert("nonce"@, nonce);
    let k4 = k3.insert("uri"@, uri);
    let k5 = k4.insert("response"@, response);
    lemma_reads_param("username"@, username, t1, k0);
    lemma_reads_param("realm"@, realm, t2, k1);
    lemma_reads_param("nonce"@, nonce, t3, k2);
    lemma_reads_param("uri"@, uri, t4, k3);
    lemma_reads_param("response"@, response, none, k4);
    assert(read_params(none, k5) == k5);
}

fn take_digest_value<'a>(v: &'a [char]) -> (r: (&'a [char], &'a [char]))
    requires
        v@.len() > 0,
    ensures
        (r.0@, r.1@) == digest_value(v@),
        r.1@.len() < v@.len(),
{
    if v[0] == '"' {
        let open = slice_subrange(v, 1, v.len());
        proof {
            assert(open@ =~= v@.skip(1));
        }
        let e: usize = find_char(open, '"');
        if e < open.len() {
            let value = slice_subrange(open, 0, e);
            let after = slice_subrange(open, e + 1, open.len());
            proof {
                assert(value@ =~= open@.take(e as int));
                assert(after@ =~= open@.skip(e + 1));
            }
            (value, trimmed_start(after))
        } else {
            let none = slice_subrange(open, open.len(), open.len());
            proof {
                assert(none@ =~= seq![]);
            }
            (open, none)
        }
    } else {
        let e: usize = find_char(v, ',');
        let value = slice_subrange(v, 0, e);
        proof {
            assert(value@ =~= v@.take(e as int));
        }
        if e < v.len() {
            let after = slice_subrange(v, e + 1, v.len());
            proof {
                assert(after@ =~= v@.skip(e + 1));
            }
            (trimmed(value), after)
        } else {
            let none = slice_subrange(v, v.len(), v.len());
            proof {
                assert(none@ =~= seq![]);
            }
            (trimmed(value), none)
        }
    }
}

fn skip_to_param<'a>(rest: &'a [char]) -> (r: &'a [char])
    ensures
        r@ == next_param(rest@),
        r@.len() <= rest@.len(),
{
    let r = trimmed(rest);
    if r.len() > 0 && r[0] == ',' {
        let after = slice_subrange(r, 1, r.len());
        proof {
            assert(after@ =~= r@.skip(1));
        }
        trimmed(after)
    } else {
        r
    }
}

/// Parses the parameters of a Digest Authorization header.
pub fn parse_digest_params(header: &str) -> (params: TextMap<String>)
    ensures
        texts(params@) == digest_params(header@),
{
    let mut params: TextMap<String> = TextMap::new();
    proof {
        assert(texts(params@) =~= Map::<Seq<char>, Seq<char>>::empty());
    }
    let text = chars_of(header);
    let body = match after_prefix(text.as_slice(), "Digest ") {
        Some(b) => trimmed(b),
        None => {
            return params;
        },
    };
    let mut rest = body;
    let ghost want = digest_params(header@);
    loop
        invariant
            want == read_params(rest@, texts(params@)),
            want == digest_params(header@),
        decreases rest@.len(),
    {
        let r = skip_to_param(rest);
        if r.len() == 0 {
            return params;
        }
        let i: usize = find_char(r, '=');
        if i >= r.len() {
            return params;
        }
        let left = slice_subrange(r, 0, i);
        let right = slice_subrange(r, i + 1, r.len());
        proof {
            assert(left@ =~= r@.take(i as int));
            assert(right@ =~= r@.skip(i + 1));
        }
        let v = trimmed(right);
        if v.len() == 0 {
            return params;
        }
        let key = trimmed(left);
        let (value, more) = take_digest_value(v);
        let ghost before = params@;
        let value_text = text_of(value);
        params.insert(text_of(key), value_text);
        proof {
            assert(texts(params@) =~= texts(before).insert(key@, value@));
        }
        rest = more;
    }
}

/// A parameter without quotes is read up to the comma behind it, and so is the
/// last one up to the end.
pub proof fn bare_params_are_read_back(
    name: Seq<char>,
    value: Seq<char>,
    tail: Seq<char>,
    known: Map<Seq<char>, Seq<char>>,
)
    requires
        name.len() > 0,
        forall|k: int|
            0 <= k < name.len() ==> !is_white(#[trigger] name[k]) && name[k] != '=' && name[k]
                != ',',
        value.len() > 0,
        !is_white(value[0]) && value[0] != '"',
        !is_white(value[value.len() - 1]),
        !value.contains(','),
        tail.len() > 0 && !is_white(tail[tail.len() - 1]),
    ensures
        read_params(name + seq!['='] + value + seq![','] + tail, known) == read_params(
            tail,
            known.insert(name, value),
        ),
        read_params(name + seq!['='] + value, known) == known.insert(name, value),
{
    let n = name.len() as int;
    let e = value.len() as int;
    let last = name + seq!['='] + value;
    let r = last + seq![','] + tail;
    assert(r =~= name + seq!['='] + value + seq![','] + tail);
    assert(r[0] == name[0] && last[0] == name[0]);
    assert(r.last() == tail[tail.len() - 1]);
    assert(last.last() == value[e - 1]);
    assert(next_param(r) == r);
    assert(next_param(last) == last);
    assert(r[n] == '=' && last[n] == '=');
    assert forall|k: int| 0 <= k < n implies r[k] != '=' && last[k] != '=' by {
        assert(r[k] == name[k] && last[k] == name[k]);
    }
    lemma_find_first(r, '=', 0, n);
    lemma_find_first(last, '=', 0, n);
    assert(r.take(n) =~= name);
    assert(last.take(n) =~= name);
    assert(trim(name) == name) by {
        assert(!is_white(name[0]) && !is_white(name[n - 1]));
    }
    let v = r.skip(n + 1);
    assert(v =~= value + seq![','] + tail);
    assert(v[0] == value[0]);
    assert(v.last() == r.last());
    assert(trim(v) == v);
    assert(v[e] == ',');
    assert forall|k: int| 0 <= k < e implies v[k] != ',' by {
        assert(v[k] == value[k]);
        assert(value.contains(value[k]));
    }
    lemma_find_first(v, ',', 0, e);
    assert(v.take(e) =~= value);
    assert(v.skip(e + 1) =~= tail);
    assert(trim(value) == value);
    let w = last.skip(n + 1);
    assert(w =~= value);
    lemma_find_from(value, ',', 0);
    if find(value, ',') < e {
        assert(value.contains(value[find(value, ',')]));
    }
    assert(value.take(e) =~= value);
    let none: Seq<char> = seq![];
    assert(trim(none) == none);
    assert(read_params(none, known.insert(name, value)) == known.insert(name, value));
}

/// The first part of a Transport header that names channels counts; without one
/// they are 0 and 1.
pub proof fn the_first_named_channels_count(parts: Seq<Seq<char>>, i: int, a: u8, b: u8)
    requires
        0 <= i <= parts.len(),
        forall|k: int|
            0 <= k < i ==> !has_prefix(trim(#[trigger] parts[k]), "interleaved="@),
    ensures
        i == parts.len() ==> channels_of(parts) == (0u8, 1u8),
        i < parts.len() && parts[i] == "interleaved="@ + decimal(a as nat) + seq!['-'] + decimal(
            b as nat,
        ) ==> channels_of(parts) == (a, b),
    decreases parts.len(),
{
    if i > 0 {
        let tail = parts.skip(1);
        assert(!has_prefix(trim(parts[0]), "interleaved="@));
        assert forall|k: int| 0 <= k < i - 1 implies !has_prefix(
            trim(#[trigger] tail[k]),
            "interleaved="@,
        ) by {
            assert(tail[k] == parts[k + 1]);
        }
        the_first_named_channels_count(tail, i - 1, a, b);
        if i < parts.len() {
            assert(tail[i - 1] == parts[i]);
        }
    } else if i < parts.len() && parts[0] == "interleaved="@ + decimal(a as nat) + seq!['-']
        + decimal(b as nat) {
        reveal_strlit("interleaved=");
        decimals_are_read_back(a as nat, 255);
        decimals_are_read_back(b as nat, 255);
        lemma_named_range("interleaved="@, a as nat, b as nat);
    }
}

proof fn lemma_named_range(name: Seq<char>, a: nat, b: nat)
    requires
        name.len() > 0,
        !is_white(name[0]),
    ensures
        ({
            let part = name + decimal(a) + seq!['-'] + decimal(b);
            let range = part.skip(name.len() as int);
            &&& trim(part) == part
            &&& has_prefix(part, name)
            &&& find(range, '-') == decimal(a).len()
            &&& find(range, '-') < range.len()
            &&& range.take(find(range, '-')) == decimal(a)
            &&& range.skip(find(range, '-') + 1) == decimal(b)
        }),
{
    let (x, y) = (decimal(a), decimal(b));
    decimals_are_read_back(a, 0);
    decimals_are_read_back(b, 0);
    let part = name + x + seq!['-'] + y;
    let n = name.len() as int;
    let m = x.len() as int;
    let range = part.skip(n);
    assert(range =~= x + seq!['-'] + y);
    assert(part[0] == name[0]);
    assert(part.last() == y[y.len() - 1]);
    assert(part.take(n) =~= name);
    assert(range[m] == '-');
    assert forall|k: int| 0 <= k < m implies range[k] != '-' by {
        assert(range[k] == x[k]);
    }
    lemma_find_first(range, '-', 0, m);
    assert(range.take(m) =~= x);
    assert(range.skip(m + 1) =~= y);
}

/// The first part of a Transport header that names a port of the client counts;
/// without one there is none.
pub proof fn the_first_named_port_counts(parts: Seq<Seq<char>>, i: int, port: u16, next: nat)
    requires
        0 <= i <= parts.len(),
        forall|k: int|
            0 <= k < i ==> !has_prefix(trim(#[trigger] parts[k]), "client_port="@),
    ensures
        i == parts.len() ==> client_port_of(parts) is None,
        i < parts.len() && parts[i] == "client_port="@ + decimal(port as nat) + seq!['-'] + decimal(
            next,
        ) ==> client_port_of(parts) == Some(port as nat),
    decreases parts.len(),
{
    if i > 0 {
        let tail = parts.skip(1);
        assert(!has_prefix(trim(parts[0]), "client_port="@));
        assert forall|k: int| 0 <= k < i - 1 implies !has_prefix(
            trim(#[trigger] tail[k]),
            "client_port="@,
        ) by {
            assert(tail[k] == parts[k + 1]);
        }
        the_first_named_port_counts(tail, i - 1, port, next);
        if i < parts.len() {
            assert(tail[i - 1] == parts[i]);
        }
    } else if i < parts.len() && parts[0] == "client_port="@ + decimal(port as nat) + seq!['-']
        + decimal(next) {
        reveal_strlit("client_port=");
        decimals_are_read_back(port as nat, 65535);
        lemma_named_range("client_port="@, port as nat, next);
    }
}

} // verus!
