//! Basic and Digest authentication.

use vstd::prelude::*;
use vstd::slice::slice_subrange;
use vstd::string::*;
use vstd::utf8::{
    decode_utf8, encode_utf8, encode_utf8_decode_utf8, encode_utf8_valid_utf8, valid_utf8,
};
use crate::text::{
    after_prefix, chars_of, find, find_char, has_prefix, hex_text, is_hex, is_white, lemma_find_first,
    lemma_hex_text, same_chars, text_of, trim, trimmed, utf8_text,
};
use crate::text_map::{texts, TextMap};
use super::base64::{
    decode_base64, decoded, decoding_undoes_encoding, encoded, lemma_encoded,
};
use super::request::{
    digest_header, digest_headers_are_read_back, digest_params, is_quotable, parse_digest_params,
};

verus! {

/// RTSP server settings.
#[derive(Debug, Clone)]
pub struct RtspConfig {
    /// TCP port to listen on.
    pub port: u16,
    /// User name; where empty, nobody has to authenticate.
    pub username: String,
    pub password: String,
    /// Realm of the authentication.
    pub realm: String,
}

/// What an [`RtspConfig`] says.
pub struct RtspAccess {
    pub port: u16,
    pub username: Seq<char>,
    pub password: Seq<char>,
    pub realm: Seq<char>,
}

impl View for RtspConfig {
    type V = RtspAccess;

    open spec fn view(&self) -> RtspAccess {
        RtspAccess {
            port: self.port,
            username: self.username@,
            password: self.password@,
            realm: self.realm@,
        }
    }
}

impl Default for RtspConfig {
    fn default() -> (c: Self)
        ensures
            c@ == (RtspAccess {
                port: 8554,
                username: Seq::empty(),
                password: Seq::empty(),
                realm: "MiBee Eye RTSP"@,
            }),
    {
        RtspConfig {
            port: 8554,
            username: String::new(),
            password: String::new(),
            realm: "MiBee Eye RTSP".to_owned(),
        }
    }
}

impl RtspConfig {
    /// The settings with the usual realm in place of an empty one.
    pub fn with_realm(self) -> (c: Self)
        ensures
            c@ == (RtspAccess {
                realm: if self.realm@.len() == 0 {
                    "MiBee Eye RTSP"@
                } else {
                    self.realm@
                },
                ..self@
            }),
    {
        if self.realm.as_str().is_empty() {
            RtspConfig { realm: "MiBee Eye RTSP".to_owned(), ..self }
        } else {
            self
        }
    }
}

/// Whether clients have to authenticate.
pub fn is_auth_configured(config: &RtspConfig) -> (yes: bool)
    ensures
        yes == (config@.username.len() > 0),
{
    !config.username.as_str().is_empty()
}

// ---------------------------------------------------------------------------
// Basic
// ---------------------------------------------------------------------------

/// Whether a text is a user name and a password joined by a colon, the user
/// name ending at the first one.
pub open spec fn is_login(t: Seq<char>, username: Seq<char>, password: Seq<char>) -> bool {
    let i = find(t, ':');
    i < t.len() && t.take(i) == username && t.skip(i + 1) == password
}

/// Whether a Basic Authorization header carries the right user name and
/// password.
pub open spec fn basic_accepts(
    header: Seq<char>,
    username: Seq<char>,
    password: Seq<char>,
) -> bool {
    &&& has_prefix(header, "Basic "@)
    &&& decoded(trim(header.skip("Basic "@.len() as int))) matches Some(bytes) && valid_utf8(bytes)
        && is_login(decode_utf8(bytes), username, password)
}

/// Verifies a Basic Authorization header.
pub fn check_basic_auth(header_value: &str, config: &RtspConfig) -> (accepted: bool)
    ensures
        accepted == basic_accepts(header_value@, config@.username, config@.password),
{
    let header = chars_of(header_value);
    let rest = match after_prefix(header.as_slice(), "Basic ") {
        Some(r) => trimmed(r),
        None => {
            return false;
        },
    };
    let code = text_of(rest);
    let bytes = match decode_base64(code.as_str()) {
        Some(b) => b,
        None => {
            return false;
        },
    };
    let login = match utf8_text(bytes.as_slice()) {
        Some(t) => t,
        None => {
            return false;
        },
    };
    proof {
        encode_utf8_decode_utf8(login@);
    }
    let t = chars_of(login.as_str());
    let i: usize = find_char(t.as_slice(), ':');
    if i >= t.len() {
        return false;
    }
    let user = slice_subrange(t.as_slice(), 0, i);
    let pass = slice_subrange(t.as_slice(), i + 1, t.len());
    proof {
        assert(user@ =~= t@.take(i as int));
        assert(pass@ =~= t@.skip(i + 1));
    }
    let username = chars_of(config.username.as_str());
    let password = chars_of(config.password.as_str());
    same_chars(user, username.as_slice()) && same_chars(pass, password.as_slice())
}

/// The header that a client makes of the right user name and password is
/// accepted, for every user name without a colon and any password.
pub proof fn right_credentials_are_accepted(username: Seq<char>, password: Seq<char>)
    requires
        forall|i: int| 0 <= i < username.len() ==> username[i] != ':',
    ensures
        basic_accepts(
            "Basic "@ + encoded(encode_utf8(username + seq![':'] + password)),
            username,
            password,
        ),
{
    let login = username + seq![':'] + password;
    let bytes = encode_utf8(login);
    let code = encoded(bytes);
    let header = "Basic "@ + code;
    let n = "Basic "@.len() as int;
    assert(header.take(n) =~= "Basic "@);
    assert(header.skip(n) =~= code);
    lemma_encoded(bytes);
    decoding_undoes_encoding(bytes);
    if code.len() > 0 {
        assert(!is_white(code[0]));
        assert(!is_white(code.last()));
    }
    assert(trim(code) == code);
    encode_utf8_decode_utf8(login);
    encode_utf8_valid_utf8(login);
    let u = username.len() as int;
    assert(login[u] == ':');
    assert forall|k: int| 0 <= k < u implies login[k] != ':' by {
        assert(login[k] == username[k]);
    }
    lemma_find_first(login, ':', 0, u);
    assert(login.take(u) =~= username);
    assert(login.skip(u + 1) =~= password);
}

// ---------------------------------------------------------------------------
// Digest
// ---------------------------------------------------------------------------

/// The MD5 digest of some bytes.
pub uninterp spec fn md5_of(data: Seq<u8>) -> Seq<u8>;

/// `md5::Md5::digest`: the sixteen bytes of the MD5 digest, which the bytes
/// alone decide.
#[verifier::external_body]
fn md5_digest(data: &[u8]) -> (digest: Vec<u8>)
    ensures
        digest@ == md5_of(data@),
        digest@.len() == 16,
{
    <md5::Md5 as md5::Digest>::digest(data).to_vec()
}

/// `hex::encode`: each byte as two lower-case hexadecimal digits.
#[verifier::external_body]
pub(crate) fn hex_encode(data: &[u8]) -> (text: String)
    ensures
        text@ == hex_text(data@),
{
    hex::encode(data)
}

/// The MD5 digest of a text in hexadecimal.
pub open spec fn md5_text(text: Seq<char>) -> Seq<char> {
    hex_text(md5_of(encode_utf8(text)))
}

/// Computes the MD5 digest of a text in hexadecimal.
pub fn md5_hex(text: &str) -> (digest: String)
    ensures
        digest@ == md5_text(text@),
{
    hex_encode(md5_digest(text.as_bytes()).as_slice())
}

/// A parameter, or nothing where it is missing.
pub open spec fn param_or_empty(p: Map<Seq<char>, Seq<char>>, name: Seq<char>) -> Seq<char> {
    if p.dom().contains(name) {
        p[name]
    } else {
        Seq::empty()
    }
}

/// Three texts joined by colons.
pub open spec fn colon3(a: Seq<char>, b: Seq<char>, c: Seq<char>) -> Seq<char> {
    a + ":"@ + b + ":"@ + c
}

/// The text whose digest is the answer to a challenge, given the digests of
/// the credentials and of the request: with the client's counter and nonce
/// where it names a quality of protection.
pub open spec fn answer_source(
    ha1: Seq<char>,
    ha2: Seq<char>,
    nonce: Seq<char>,
    p: Map<Seq<char>, Seq<char>>,
) -> Seq<char> {
    let qop = param_or_empty(p, "qop"@);
    if qop.len() == 0 {
        colon3(ha1, nonce, ha2)
    } else {
        colon3(
            colon3(ha1, nonce, param_or_empty(p, "nc"@)),
            param_or_empty(p, "cnonce"@),
            colon2(qop, ha2),
        )
    }
}

/// Two texts joined by a colon.
pub open spec fn colon2(a: Seq<char>, b: Seq<char>) -> Seq<char> {
    a + ":"@ + b
}

/// Whether a Digest Authorization header answers a challenge rightly.
pub open spec fn digest_accepts(
    header: Seq<char>,
    method: Seq<char>,
    uri: Seq<char>,
    nonce: Seq<char>,
    access: RtspAccess,
) -> bool {
    let p = digest_params(header);
    let ha1 = md5_text(colon3(access.username, access.realm, access.password));
    let ha2 = md5_text(colon2(method, uri));
    &&& p.dom().contains("response"@)
    &&& p.dom().contains("username"@)
    &&& p["username"@] == access.username
    &&& p["response"@] == md5_text(answer_source(ha1, ha2, nonce, p))
}

/// Joins two texts by a colon.
fn join2(a: &str, b: &str) -> (t: String)
    ensures
        t@ == colon2(a@, b@),
{
    a.to_owned().concat(":").concat(b)
}

/// Joins three texts by colons.
fn join3(a: &str, b: &str, c: &str) -> (t: String)
    ensures
        t@ == colon3(a@, b@, c@),
{
    a.to_owned().concat(":").concat(b).concat(":").concat(c)
}

fn param<'a>(params: &'a TextMap<String>, name: &str) -> (v: &'a str)
    ensures
        v@ == param_or_empty(texts(params@), name@),
{
    match params.get(name) {
        Some(v) => v.as_str(),
        None => {
            proof {
                reveal_strlit("");
                assert(""@ =~= Seq::<char>::empty());
            }
            ""
        },
    }
}

/// Writes the text whose digest is the answer to a challenge.
fn answer_text(ha1: &str, ha2: &str, nonce: &str, params: &TextMap<String>) -> (t: String)
    ensures
        t@ == answer_source(ha1@, ha2@, nonce@, texts(params@)),
{
    let qop = param(params, "qop");
    if qop.is_empty() {
        join3(ha1, nonce, ha2)
    } else {
        let head = join3(ha1, nonce, param(params, "nc"));
        let tail = join2(qop, ha2);
        join3(head.as_str(), param(params, "cnonce"), tail.as_str())
    }
}

proof fn lemma_or_zero(acc: u8, a: u8, b: u8)
    ensures
        (acc | (a ^ b)) == 0 <==> acc == 0 && a == b,
{
    assert((acc | (a ^ b)) == 0 <==> acc == 0 && a == b) by (bit_vector);
}

/// Compares two texts without stopping at the first difference.
fn same_secret(a: &str, b: &str) -> (same: bool)
    ensures
        same == (a@ == b@),
{
    let x = a.as_bytes();
    let y = b.as_bytes();
    proof {
        encode_utf8_decode_utf8(a@);
        encode_utf8_decode_utf8(b@);
    }
    if x.len() != y.len() {
        return false;
    }
    let mut acc: u8 = 0;
    let mut i: usize = 0;
    while i < x.len()
        invariant
            i <= x.len(),
            x.len() == y.len(),
            acc == 0 <==> forall|k: int| 0 <= k < i ==> x@[k] == y@[k],
        decreases x.len() - i,
    {
        proof {
            lemma_or_zero(acc, x@[i as int], y@[i as int]);
        }
        acc = acc | (x[i] ^ y[i]);
        i = i + 1;
    }
    proof {
        if acc == 0 {
            assert(x@ =~= y@);
        }
    }
    acc == 0
}

/// Verifies a Digest Authorization header.
pub fn check_digest_auth(
    header_value: &str,
    method: &str,
    uri: &str,
    nonce: &str,
    config: &RtspConfig,
) -> (accepted: bool)
    ensures
        accepted == digest_accepts(header_value@, method@, uri@, nonce@, config@),
{
    let params = parse_digest_params(header_value);
    let response = match params.get("response") {
        Some(r) => r,
        None => {
            return false;
        },
    };
    let username = match params.get("username") {
        Some(u) => u,
        None => {
            return false;
        },
    };
    if !crate::text::same_text(username.as_str(), config.username.as_str()) {
        return false;
    }
    let a1 = join3(username.as_str(), config.realm.as_str(), config.password.as_str());
    let a2 = join2(method, uri);
    let ha1 = md5_hex(a1.as_str());
    let ha2 = md5_hex(a2.as_str());
    let source = answer_text(ha1.as_str(), ha2.as_str(), nonce, &params);
    let expected = md5_hex(source.as_str());
    same_secret(expected.as_str(), response.as_str())
}

// ---------------------------------------------------------------------------
// Challenges
// ---------------------------------------------------------------------------

/// `rand::thread_rng` with `rand::Rng::gen`: sixteen random bytes, of which
/// nothing is known.
#[verifier::external_body]
fn random_bytes() -> (bytes: [u8; 16]) {
    rand::Rng::gen(&mut rand::thread_rng())
}

/// Whether a text has the form of a nonce.
pub open spec fn is_nonce(n: Seq<char>) -> bool {
    n.len() == 32 && is_hex(n)
}

/// The nonce that some bytes make.
pub fn nonce_from(bytes: &[u8; 16]) -> (nonce: String)
    ensures
        nonce@ == hex_text(bytes@),
        is_nonce(nonce@),
{
    proof {
        lemma_hex_text(bytes@);
    }
    hex_encode(bytes.as_slice())
}

/// Makes a random nonce.
pub fn generate_nonce() -> (nonce: String)
    ensures
        is_nonce(nonce@),
{
    nonce_from(&random_bytes())
}

/// Whether a header that a request brought along lets it in: with the
/// credentials themselves, or with the answer to the challenge that had this
/// nonce, for the address that the request gives or for its path. Before the
/// first challenge there is nothing to answer, and the nonce is empty.
pub open spec fn header_accepted(
    nonce: Seq<char>,
    headers: Map<Seq<char>, Seq<char>>,
    method: Seq<char>,
    address: Seq<char>,
    path: Seq<char>,
    access: RtspAccess,
) -> bool {
    let header = headers["Authorization"@];
    &&& headers.dom().contains("Authorization"@)
    &&& {
        ||| basic_accepts(header, access.username, access.password)
        ||| nonce.len() > 0 && digest_accepts(header, method, address, nonce, access)
        ||| nonce.len() > 0 && digest_accepts(header, method, path, nonce, access)
    }
}

/// Whether a connection counts as authenticated after a request.
pub open spec fn auth_after(
    has_auth: bool,
    nonce: Seq<char>,
    headers: Map<Seq<char>, Seq<char>>,
    method: Seq<char>,
    address: Seq<char>,
    path: Seq<char>,
    access: RtspAccess,
) -> bool {
    has_auth || (access.username.len() > 0 && header_accepted(
        nonce,
        headers,
        method,
        address,
        path,
        access,
    ))
}

/// Whether a request is let through.
pub open spec fn is_allowed(has_auth: bool, access: RtspAccess) -> bool {
    access.username.len() == 0 || has_auth
}

/// Who was let in stays in: no later request on the connection, whatever it
/// carries, takes that back.
pub proof fn who_is_in_stays_in(
    nonce: Seq<char>,
    headers: Map<Seq<char>, Seq<char>>,
    method: Seq<char>,
    address: Seq<char>,
    path: Seq<char>,
    access: RtspAccess,
)
    ensures
        auth_after(true, nonce, headers, method, address, path, access),
        is_allowed(auth_after(true, nonce, headers, method, address, path, access), access),
{
}

/// Where a user name is set, a request without credentials on a connection
/// that has shown none is refused.
pub proof fn strangers_are_refused(
    nonce: Seq<char>,
    headers: Map<Seq<char>, Seq<char>>,
    method: Seq<char>,
    address: Seq<char>,
    path: Seq<char>,
    access: RtspAccess,
)
    requires
        access.username.len() > 0,
        !headers.dom().contains("Authorization"@),
    ensures
        !is_allowed(auth_after(false, nonce, headers, method, address, path, access), access),
{
}

/// Nothing but an answer to the last challenge on the connection, or the
/// credentials themselves, lets a client in: before the first challenge no
/// answer does, and after it the answers to other nonces do not.
pub proof fn other_answers_are_refused(
    nonce: Seq<char>,
    headers: Map<Seq<char>, Seq<char>>,
    method: Seq<char>,
    address: Seq<char>,
    path: Seq<char>,
    access: RtspAccess,
)
    requires
        access.username.len() > 0,
        !basic_accepts(headers["Authorization"@], access.username, access.password),
        nonce.len() == 0 || (!digest_accepts(
            headers["Authorization"@],
            method,
            address,
            nonce,
            access,
        ) && !digest_accepts(headers["Authorization"@], method, path, nonce, access)),
    ensures
        !is_allowed(auth_after(false, nonce, headers, method, address, path, access), access),
{
}

/// The answer to a challenge of a client that knows the credentials.
pub open spec fn right_answer(
    method: Seq<char>,
    uri: Seq<char>,
    nonce: Seq<char>,
    access: RtspAccess,
) -> Seq<char> {
    md5_text(
        colon3(
            md5_text(colon3(access.username, access.realm, access.password)),
            nonce,
            md5_text(colon2(method, uri)),
        ),
    )
}

/// A client that answers the last challenge on its connection with the right
/// user name and password, for the address that it asks for or for its path,
/// is let through, as long as neither the user name nor the realm nor the
/// address holds a quote.
pub proof fn answered_challenges_let_in(
    has_auth: bool,
    nonce: Seq<char>,
    headers: Map<Seq<char>, Seq<char>>,
    method: Seq<char>,
    address: Seq<char>,
    path: Seq<char>,
    access: RtspAccess,
    uri: Seq<char>,
)
    requires
        is_nonce(nonce),
        is_quotable(access.username),
        is_quotable(access.realm),
        is_quotable(uri),
        uri == address || uri == path,
        headers.dom().contains("Authorization"@),
        headers["Authorization"@] == digest_header(
            access.username,
            access.realm,
            nonce,
            uri,
            right_answer(method, uri, nonce, access),
        ),
    ensures
        is_allowed(auth_after(has_auth, nonce, headers, method, address, path, access), access),
{
    let answer = right_answer(method, uri, nonce, access);
    lemma_hex_text(
        md5_of(
            encode_utf8(
                colon3(
                    md5_text(colon3(access.username, access.realm, access.password)),
                    nonce,
                    md5_text(colon2(method, uri)),
                ),
            ),
        ),
    );
    digest_headers_are_read_back(access.username, access.realm, nonce, uri, answer);
    reveal_strlit("username");
    reveal_strlit("realm");
    reveal_strlit("nonce");
    reveal_strlit("uri");
    reveal_strlit("response");
    reveal_strlit("qop");
    assert("uri"@[0] == 'u' && "qop"@[0] == 'q');
    assert("username"@[0] == 'u' && "response"@[0] == 'r');
}

/// Takes in the credentials of a request, and tells whether it is let through.
/// `nonce` is that of the last challenge on the connection.
pub fn authorize(
    has_auth: &mut bool,
    nonce: &str,
    headers: &TextMap<String>,
    method: &str,
    address: &str,
    path: &str,
    config: &RtspConfig,
) -> (allowed: bool)
    ensures
        *final(has_auth) == auth_after(
            *old(has_auth),
            nonce@,
            texts(headers@),
            method@,
            address@,
            path@,
            config@,
        ),
        allowed == is_allowed(*final(has_auth), config@),
{
    if !is_auth_configured(config) {
        return true;
    }
    if !*has_auth {
        if let Some(header) = headers.get("Authorization") {
            let header = header.as_str();
            if check_basic_auth(header, config) || (!nonce.is_empty() && (check_digest_auth(
                header,
                method,
                address,
                nonce,
                config,
            ) || check_digest_auth(header, method, path, nonce, config))) {
                *has_auth = true;
            }
        }
    }
    *has_auth
}

/// Texts that are joined for a digest have a colon between them.
pub proof fn colons_join(a: Seq<char>, b: Seq<char>, c: Seq<char>)
    ensures
        colon2(a, b) == a + seq![':'] + b,
        colon3(a, b, c) == a + seq![':'] + b + seq![':'] + c,
{
    reveal_strlit(":");
    assert(":"@ =~= seq![':']);
}

/// The MD5 digest of a text, in hexadecimal.
pub open spec fn digest_of(text: Seq<char>) -> Seq<char> {
    hex_text(md5_of(encode_utf8(text)))
}

/// An answer to a challenge is right where it names the user and gives the
/// digest of the digest of user, realm and password, the nonce, and the digest
/// of method and address, with colons between them; where the client names a
/// quality of protection, its counter, its own nonce and the quality stand
/// behind the nonce.
pub proof fn right_answers_follow_the_scheme(
    header: Seq<char>,
    method: Seq<char>,
    uri: Seq<char>,
    nonce: Seq<char>,
    access: RtspAccess,
)
    requires
        digest_params(header).dom().contains("username"@),
        digest_params(header).dom().contains("response"@),
    ensures
        ({
            let p = digest_params(header);
            let c = seq![':'];
            let who = digest_of(access.username + c + access.realm + c + access.password);
            let what = digest_of(method + c + uri);
            let asked = p.dom().contains("qop"@) && p["qop"@].len() > 0;
            let right = p["username"@] == access.username;
            &&& !asked ==> (digest_accepts(header, method, uri, nonce, access) <==> right
                && p["response"@] == digest_of(who + c + nonce + c + what))
            &&& asked && p.dom().contains("nc"@) && p.dom().contains("cnonce"@) ==> (
            digest_accepts(header, method, uri, nonce, access) <==> right && p["response"@]
                == digest_of(
                who + c + nonce + c + p["nc"@] + c + p["cnonce"@] + c + p["qop"@] + c + what,
            ))
        }),
{
    let p = digest_params(header);
    let c = seq![':'];
    let (u, r, w) = (access.username, access.realm, access.password);
    colons_join(u, r, w);
    colons_join(method, uri, uri);
    let who = digest_of(u + c + r + c + w);
    let what = digest_of(method + c + uri);
    colons_join(who, nonce, what);
    assert(md5_text(colon3(u, r, w)) == who);
    assert(md5_text(colon2(method, uri)) == what);
    if p.dom().contains("qop"@) && p["qop"@].len() > 0 && p.dom().contains("nc"@)
        && p.dom().contains("cnonce"@) {
        let (q, n, m) = (p["qop"@], p["nc"@], p["cnonce"@]);
        colons_join(who, nonce, n);
        colons_join(q, what, what);
        colons_join(colon3(who, nonce, n), m, colon2(q, what));
        assert(answer_source(who, what, nonce, p) =~= who + c + nonce + c + n + c + m + c + q + c
            + what);
    } else if !(p.dom().contains("qop"@) && p["qop"@].len() > 0) {
        assert(answer_source(who, what, nonce, p) == colon3(who, nonce, what));
    }
}

/// Nothing but the right user name and password is accepted: a header that a
/// client makes of others is not.
pub proof fn other_credentials_are_refused(
    user: Seq<char>,
    pass: Seq<char>,
    username: Seq<char>,
    password: Seq<char>,
)
    requires
        forall|i: int| 0 <= i < user.len() ==> user[i] != ':',
        basic_accepts(
            "Basic "@ + encoded(encode_utf8(user + seq![':'] + pass)),
            username,
            password,
        ),
    ensures
        user == username,
        pass == password,
{
    let login = user + seq![':'] + pass;
    let bytes = encode_utf8(login);
    let code = encoded(bytes);
    let header = "Basic "@ + code;
    let n = "Basic "@.len() as int;
    assert(header.skip(n) =~= code);
    lemma_encoded(bytes);
    decoding_undoes_encoding(bytes);
    if code.len() > 0 {
        assert(!is_white(code[0]));
        assert(!is_white(code.last()));
    }
    assert(trim(code) == code);
    encode_utf8_decode_utf8(login);
    let u = user.len() as int;
    assert(login[u] == ':');
    assert forall|k: int| 0 <= k < u implies login[k] != ':' by {
        assert(login[k] == user[k]);
    }
    lemma_find_first(login, ':', 0, u);
    assert(login.take(u) =~= user);
    assert(login.skip(u + 1) =~= pass);
}

/// Where no user name is set everyone is let through; where one is, whoever
/// brings the right credentials along is.
pub proof fn the_right_ones_are_let_through(
    nonce: Seq<char>,
    headers: Map<Seq<char>, Seq<char>>,
    method: Seq<char>,
    address: Seq<char>,
    path: Seq<char>,
    access: RtspAccess,
)
    requires
        forall|i: int| 0 <= i < access.username.len() ==> access.username[i] != ':',
    ensures
        access.username.len() == 0 ==> is_allowed(
            auth_after(false, nonce, headers, method, address, path, access),
            access,
        ),
        is_allowed(
            auth_after(
                false,
                nonce,
                headers.insert(
                    "Authorization"@,
                    "Basic "@ + encoded(
                        encode_utf8(access.username + seq![':'] + access.password),
                    ),
                ),
                method,
                address,
                path,
                access,
            ),
            access,
        ),
{
    right_credentials_are_accepted(access.username, access.password);
}

} // verus!
