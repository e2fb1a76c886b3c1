//! The RTSP server's decisions: what each request does to a connection and
//! the shared state, and what is done with each access unit.
//!
//! Sockets, timers and the tasks between them belong to the program around
//! this; it hands in what arrived and carries out what comes back.

use vstd::prelude::*;
use vstd::slice::slice_subrange;
use vstd::string::*;
use vstd::utf8::{decode_utf8, encode_utf8_decode_utf8, valid_utf8};

use crate::text::{chars_of, contains_text, decimal, decimal_text, has_text, hex_text, is_hex,
    lemma_hex_text, same_text, split, utf8_text};

use super::auth::{
    auth_after, authorize, generate_nonce, hex_encode, is_allowed, is_nonce, RtspAccess, RtspConfig,
};
use super::reply::{generate_sdp, methods, plain, plain_text, sdp, unauthorized, unauthorized_text,
    with_header, with_header_text, with_session, with_session_text};
use super::request::{channels_of, client_port_of, mount_of, parse_client_port, parse_rtsp_request,
    parse_transport_interleaved, parsed_request, RequestText, RtspRequest, StreamMount};
use super::rtp::{be32, lemma_be32, long_at, push_be32};
use super::session::{Inner, Session};

verus! {

/// Why a stream cannot go on.
#[derive(Debug)]
pub enum RtspError {
    /// The socket failed.
    Io(String),
    /// The client is not let in.
    Auth(String),
    /// The client does not keep to the protocol.
    Protocol(String),
    /// There is no such session.
    SessionNotFound(String),
}

/// What an error says.
pub open spec fn rtsp_error_text(e: RtspError) -> Seq<char> {
    match e {
        RtspError::Io(t) => "I/O error: "@ + t@,
        RtspError::Auth(t) => "auth error: "@ + t@,
        RtspError::Protocol(t) => "protocol error: "@ + t@,
        RtspError::SessionNotFound(t) => "session not found: "@ + t@,
    }
}

impl RtspError {
    /// The error in words.
    pub fn to_string(&self) -> (text: String)
        ensures
            text@ == rtsp_error_text(*self),
    {
        match self {
            RtspError::Io(t) => "I/O error: ".to_owned().concat(t.as_str()),
            RtspError::Auth(t) => "auth error: ".to_owned().concat(t.as_str()),
            RtspError::Protocol(t) => "protocol error: ".to_owned().concat(t.as_str()),
            RtspError::SessionNotFound(t) => "session not found: ".to_owned().concat(t.as_str()),
        }
    }
}

/// What one client's connection remembers.
#[derive(Debug)]
pub struct Connection {
    /// The session of this connection.
    pub session_id: Option<String>,
    /// Whether the client has authenticated.
    pub has_auth: bool,
    /// The nonce of the last challenge; empty before the first.
    pub nonce: String,
    /// Whether access units are being delivered.
    pub bridged: bool,
    /// Key frames in a row that could not be written in time.
    pub stall_count: u32,
    /// Whether a frame was dropped since the last key frame that went out.
    pub pframe_dropped: bool,
    /// Whether a key frame has been sent.
    pub sent_keyframe: bool,
}

/// What a [`Connection`] holds.
pub struct ConnState {
    pub session_id: Option<Seq<char>>,
    pub has_auth: bool,
    pub nonce: Seq<char>,
    pub bridged: bool,
    pub stall_count: u32,
    pub pframe_dropped: bool,
    pub sent_keyframe: bool,
}

/// An optional text.
pub open spec fn text_option(t: Option<String>) -> Option<Seq<char>> {
    match t {
        Some(s) => Some(s@),
        None => None,
    }
}

impl View for Connection {
    type V = ConnState;

    open spec fn view(&self) -> ConnState {
        ConnState {
            session_id: text_option(self.session_id),
            has_auth: self.has_auth,
            nonce: self.nonce@,
            bridged: self.bridged,
            stall_count: self.stall_count,
            pframe_dropped: self.pframe_dropped,
            sent_keyframe: self.sent_keyframe,
        }
    }
}

impl Connection {
    /// A connection that has just been accepted.
    pub fn new() -> (c: Self)
        ensures
            c@ == (ConnState {
                session_id: None,
                has_auth: false,
                nonce: Seq::empty(),
                bridged: false,
                stall_count: 0,
                pframe_dropped: false,
                sent_keyframe: false,
            }),
    {
        Connection {
            session_id: None,
            has_auth: false,
            nonce: String::new(),
            bridged: false,
            stall_count: 0,
            pframe_dropped: false,
            sent_keyframe: false,
        }
    }
}

// ---------------------------------------------------------------------------
// Incoming bytes
// ---------------------------------------------------------------------------

/// What some received bytes are.
pub enum Incoming {
    /// Nothing to act on: data of an interleaved channel, or a request whose
    /// end has not arrived.
    Ignore,
    /// Something that is no request, with the answer to it.
    BadRequest(String),
    /// A request.
    Request(RtspRequest),
}

/// Whether received bytes are one whole interleaved frame or more.
pub open spec fn is_interleaved(data: Seq<u8>) -> bool {
    data.len() >= 4 && data[0] == 0x24 && data.len() >= 4 + data[2] as int * 256 + data[3] as int
}

/// Whether a blank line starts at `i`.
pub open spec fn blank_line_at(data: Seq<u8>, i: int) -> bool {
    0 <= i && i + 4 <= data.len() && data[i] == 13 && data[i + 1] == 10 && data[i + 2] == 13
        && data[i + 3] == 10
}

/// The first blank line at or after `i`.
pub open spec fn blank_line_from(data: Seq<u8>, i: int) -> Option<int>
    decreases data.len() - i,
{
    if i < 0 || i + 4 > data.len() {
        None
    } else if blank_line_at(data, i) {
        Some(i)
    } else {
        blank_line_from(data, i + 1)
    }
}

/// The request that received bytes hold: up to the first blank line, if that
/// much is text.
pub open spec fn request_in(data: Seq<u8>) -> Option<RequestText> {
    match blank_line_from(data, 0) {
        Some(i) => if valid_utf8(data.take(i + 4)) {
            parsed_request(decode_utf8(data.take(i + 4)))
        } else {
            None
        },
        None => None,
    }
}

fn find_blank_line(data: &[u8]) -> (at: Option<usize>)
    ensures
        at is Some <==> blank_line_from(data@, 0) is Some,
        at matches Some(i) ==> blank_line_from(data@, 0) == Some(i as int) && i + 4 <= data@.len(),
{
    let len: usize = data.len();
    let mut i: usize = 0;
    while i < len && len - i >= 4
        invariant
            i <= len,
            len == data@.len(),
            blank_line_from(data@, 0) == blank_line_from(data@, i as int),
        decreases len - i,
    {
        if data[i] == 13 && data[i + 1] == 10 && data[i + 2] == 13 && data[i + 3] == 10 {
            return Some(i);
        }
        i = i + 1;
    }
    None
}

/// Tells what some received bytes are. Those that are text without a blank
/// line wait for more.
pub fn classify(data: &[u8]) -> (incoming: Incoming)
    ensures
        (incoming is Ignore) == (is_interleaved(data@) || (blank_line_from(data@, 0) is None
            && valid_utf8(data@))),
        incoming matches Incoming::Request(r) ==> !is_interleaved(data@) && request_in(data@)
            == Some(r@),
        incoming matches Incoming::BadRequest(t) ==> t@ == plain("400"@, "Bad Request"@, 0)
            && request_in(data@) is None,
        !is_interleaved(data@) && request_in(data@) is Some ==> incoming is Request,
{
    if data.len() >= 4 && data[0] == 0x24 {
        let total: usize = 4 + data[2] as usize * 256 + data[3] as usize;
        if data.len() >= total {
            return Incoming::Ignore;
        }
    }
    match find_blank_line(data) {
        Some(i) => {
            let head = slice_subrange(data, 0, i + 4);
            proof {
                assert(head@ =~= data@.take(i + 4));
            }
            if let Some(text) = utf8_text(head) {
                proof {
                    encode_utf8_decode_utf8(text@);
                }
                if let Some(req) = parse_rtsp_request(text.as_str()) {
                    return Incoming::Request(req);
                }
            }
        },
        None => {
            if utf8_text(data).is_some() {
                return Incoming::Ignore;
            }
        },
    }
    Incoming::BadRequest(plain_text("400", "Bad Request", 0))
}

// ---------------------------------------------------------------------------
// Requests
// ---------------------------------------------------------------------------

/// Answers a request that is not let through, with a challenge that has a
/// fresh nonce, and remembers the nonce.
pub fn refuse(cseq: u32, conn: &mut Connection, config: &RtspConfig) -> (text: String)
    ensures
        is_nonce(final(conn)@.nonce),
        text@ == unauthorized(cseq, config@.realm, final(conn)@.nonce),
        final(conn)@ == (ConnState { nonce: final(conn)@.nonce, ..old(conn)@ }),
{
    conn.nonce = generate_nonce();
    unauthorized_text(cseq, config.realm.as_str(), conn.nonce.as_str())
}

/// Whether a connection counts as authenticated after a request.
pub open spec fn lets_in(
    c: ConnState,
    req: RequestText,
    method: Seq<char>,
    access: RtspAccess,
) -> bool {
    auth_after(c.has_auth, c.nonce, req.headers, method, req.address, req.url, access)
}

/// Whether `after` is a connection on which a request was asked for
/// credentials: it keeps the nonce of a new challenge where the request is not
/// let through, and the old one where it is.
pub open spec fn was_asked(before: ConnState, after: ConnState, allowed: bool) -> bool {
    &&& allowed ==> after.nonce == before.nonce
    &&& !allowed ==> is_nonce(after.nonce)
    &&& after == ConnState { has_auth: after.has_auth, nonce: after.nonce, ..before }
}

/// Answers an OPTIONS request.
pub fn handle_options(cseq: u32) -> (text: String)
    ensures
        text@ == with_header("200"@, "OK"@, cseq, "Public"@, methods(), Seq::empty()),
{
    proof {
        reveal_strlit("");
        assert(""@ =~= Seq::<char>::empty());
    }
    with_header_text("200", "OK", cseq, "Public", "OPTIONS, DESCRIBE, SETUP, PLAY, TEARDOWN ", "")
}

/// Answers a DESCRIBE request: with the description of the mount that its URL
/// names.
pub fn handle_describe(
    req: &RtspRequest,
    cseq: u32,
    conn: &mut Connection,
    inner: &Inner,
    config: &RtspConfig,
) -> (text: String)
    ensures
        final(conn).has_auth == lets_in(old(conn)@, req@, "DESCRIBE"@, config@),
        was_asked(old(conn)@, final(conn)@, is_allowed(final(conn).has_auth, config@)),
        is_allowed(final(conn).has_auth, config@) ==> text@ == with_header(
            "200"@,
            "OK"@,
            cseq,
            "Content-Type"@,
            "application/sdp"@,
            sdp(inner.params(mount_of(req@.url))),
        ),
        !is_allowed(final(conn).has_auth, config@) ==> text@ == unauthorized(
            cseq,
            config@.realm,
            final(conn)@.nonce,
        ),
{
    if !authorize(
        &mut conn.has_auth,
        conn.nonce.as_str(),
        &req.headers,
        "DESCRIBE",
        req.address.as_str(),
        req.url.as_str(),
        config,
    ) {
        return refuse(cseq, conn, config);
    }
    let description = generate_sdp(inner, StreamMount::from_url(req.url.as_str()));
    with_header_text(
        "200",
        "OK",
        cseq,
        "Content-Type",
        "application/sdp",
        description.as_str(),
    )
}

/// How a stream is to be transported.
#[derive(Debug, Clone, Copy, PartialEq, Eq, Structural)]
pub enum SetupPlan {
    /// Interleaved on the connection, on these channels.
    Tcp { rtp: u8, rtcp: u8 },
    /// As datagrams to this port of the client and the one after it.
    Udp { client_port: u16 },
    /// As datagrams to the very last port, which has none after it.
    LastPort,
}

/// The Transport header of a request, empty where it has none.
pub open spec fn transport_of(headers: Map<Seq<char>, Seq<char>>) -> Seq<char> {
    if headers.dom().contains("Transport"@) {
        headers["Transport"@]
    } else {
        Seq::empty()
    }
}

/// The transport that a Transport header asks for: interleaved where it names
/// TCP or channels, else datagrams to its client port, or to 5000.
pub open spec fn plan_of(transport: Seq<char>) -> SetupPlan {
    if contains_text(transport, "TCP"@) || contains_text(transport, "interleaved="@) {
        let (rtp, rtcp) = channels_of(split(transport, ';'));
        SetupPlan::Tcp { rtp, rtcp }
    } else {
        match client_port_of(split(transport, ';')) {
            Some(port) => if port == 65535 {
                SetupPlan::LastPort
            } else {
                SetupPlan::Udp { client_port: port as u16 }
            },
            None => SetupPlan::Udp { client_port: 5000 },
        }
    }
}

/// Chooses the transport of a stream from a Transport header.
pub fn choose_transport(transport: &str) -> (plan: SetupPlan)
    ensures
        plan == plan_of(transport@),
{
    let chars = chars_of(transport);
    if has_text(chars.as_slice(), "TCP") || has_text(chars.as_slice(), "interleaved=") {
        let (rtp, rtcp) = parse_transport_interleaved(transport);
        SetupPlan::Tcp { rtp, rtcp }
    } else {
        match parse_client_port(transport) {
            Some(port) => if port == 65535 {
                SetupPlan::LastPort
            } else {
                SetupPlan::Udp { client_port: port }
            },
            None => SetupPlan::Udp { client_port: 5000 },
        }
    }
}

/// The Transport header of an answer.
pub open spec fn transport_reply(plan: SetupPlan, server_port: u16) -> Seq<char> {
    match plan {
        SetupPlan::Tcp { rtp, rtcp } => "RTP/AVP/TCP;unicast;interleaved="@ + decimal(rtp as nat)
            + "-"@ + decimal(rtcp as nat),
        SetupPlan::Udp { client_port } => "RTP/AVP;unicast;client_port="@ + decimal(
            client_port as nat,
        ) + "-"@ + decimal((client_port + 1) as nat) + ";server_port="@ + decimal(
            server_port as nat,
        ) + "-"@ + decimal((server_port + 1) as nat),
        SetupPlan::LastPort => Seq::empty(),
    }
}

/// Whether a session is one just set up.
pub open spec fn is_new_session(
    s: Session,
    id: Seq<char>,
    plan: SetupPlan,
    mount: StreamMount,
    ssrc: u32,
    seq: u16,
) -> bool {
    &&& s.id@ == id
    &&& s.rtp_channel == (if plan is Tcp { plan->rtp } else { 0 })
    &&& s.rtcp_channel == (if plan is Tcp { plan->rtcp } else { 0 })
    &&& !s.is_playing
    &&& s.mount == mount
    &&& s.ssrc == ssrc
    &&& s.seq == seq
    &&& s.last_ts == 0
    &&& s.is_udp == (plan !is Tcp)
    &&& s.client_port == (if plan is Udp { Some(plan->client_port) } else { None })
}

/// What makes a session unlike any other.
pub struct SessionKey {
    pub id: String,
    pub ssrc: u32,
    pub seq: u16,
}

/// Sets up a session with a given key, and answers the SETUP request. For
/// datagrams, `server_port` is the port that they leave from.
pub fn create_session(
    req: &RtspRequest,
    plan: SetupPlan,
    server_port: u16,
    key: SessionKey,
    cseq: u32,
    conn: &mut Connection,
    inner: &mut Inner,
) -> (text: String)
    requires
        plan is Udp ==> plan->client_port < 65535 && server_port < 65535,
    ensures
        text@ == with_session(
            cseq,
            key.id@,
            "Transport"@,
            transport_reply(plan, server_port),
        ),
        final(conn)@ == (ConnState { session_id: Some(key.id@), ..old(conn)@ }),
        final(inner).sessions@.dom() == old(inner).sessions@.dom().insert(key.id@),
        is_new_session(
            final(inner).sessions@[key.id@],
            key.id@,
            plan,
            mount_of(req@.url),
            key.ssrc,
            key.seq,
        ),
        final(inner).sessions@.remove(key.id@) == old(inner).sessions@.remove(key.id@),
        forall|m: StreamMount| #[trigger] final(inner).params(m) == old(inner).params(m),
{
    let mut transport = String::new();
    let (rtp, rtcp): (u8, u8) = match plan {
        SetupPlan::Tcp { rtp, rtcp } => {
            transport.append("RTP/AVP/TCP;unicast;interleaved=");
            transport.append(decimal_text(rtp as u64).as_str());
            transport.append("-");
            transport.append(decimal_text(rtcp as u64).as_str());
            (rtp, rtcp)
        },
        SetupPlan::Udp { client_port } => {
            transport.append("RTP/AVP;unicast;client_port=");
            transport.append(decimal_text(client_port as u64).as_str());
            transport.append("-");
            transport.append(decimal_text(client_port as u64 + 1).as_str());
            transport.append(";server_port=");
            transport.append(decimal_text(server_port as u64).as_str());
            transport.append("-");
            transport.append(decimal_text(server_port as u64 + 1).as_str());
            (0, 0)
        },
        SetupPlan::LastPort => (0, 0),
    };
    proof {
        assert(transport@ =~= transport_reply(plan, server_port));
    }
    let session = Session {
        id: key.id.clone(),
        rtp_channel: rtp,
        rtcp_channel: rtcp,
        is_playing: false,
        mount: StreamMount::from_url(req.url.as_str()),
        ssrc: key.ssrc,
        seq: key.seq,
        last_ts: 0,
        is_udp: match plan {
            SetupPlan::Tcp { .. } => false,
            _ => true,
        },
        client_port: match plan {
            SetupPlan::Udp { client_port } => Some(client_port),
            _ => None,
        },
    };
    let ghost before = inner.sessions@;
    inner.sessions.insert(key.id.clone(), session);
    proof {
        assert(inner.sessions@.remove(key.id@) =~= before.remove(key.id@));
    }
    conn.session_id = Some(key.id.clone());
    with_session_text(cseq, key.id.as_str(), "Transport", transport.as_str())
}

/// `rand::thread_rng` with `rand::Rng::gen`: a random number, of which nothing
/// is known.
#[verifier::external_body]
fn random_number() -> (n: u64) {
    rand::Rng::gen(&mut rand::thread_rng())
}

/// Whether a text has the form of a session identifier.
pub open spec fn is_session_id(id: Seq<char>) -> bool {
    id.len() == 16 && is_hex(id)
}

/// A 64-bit number, most significant byte first.
pub open spec fn be64(n: u64) -> Seq<u8> {
    be32(n as int / 0x1_0000_0000) + be32(n as int % 0x1_0000_0000)
}

/// The session identifier of a number: its sixteen hexadecimal digits.
pub fn session_id_from(n: u64) -> (id: String)
    ensures
        id@ == hex_text(be64(n)),
        is_session_id(id@),
{
    let mut bytes: Vec<u8> = Vec::new();
    push_be32(&mut bytes, (n / 0x1_0000_0000) as u32);
    push_be32(&mut bytes, (n % 0x1_0000_0000) as u32);
    proof {
        assert(bytes@ =~= be64(n));
        lemma_hex_text(bytes@);
    }
    hex_encode(bytes.as_slice())
}

/// Makes a random session identifier.
pub fn generate_session_id() -> (id: String)
    ensures
        is_session_id(id@),
{
    session_id_from(random_number())
}

/// Makes a random key for a session.
pub fn generate_session_key() -> (key: SessionKey)
    ensures
        is_session_id(key.id@),
{
    SessionKey {
        id: generate_session_id(),
        ssrc: (random_number() % 0x1_0000_0000) as u32,
        seq: (random_number() % 0x1_0000) as u16,
    }
}

/// What a request asks of the program around the server.
pub enum RequestAction {
    /// To send an answer.
    Reply(String),
    /// To prepare a transport and then set up a session on it.
    Setup(SetupPlan),
    /// To subscribe to the access units of a mount, and to send an answer.
    Play(StreamMount, String),
}

/// Whether an action is to send a text.
pub open spec fn replies(action: RequestAction, text: Seq<char>) -> bool {
    action matches RequestAction::Reply(t) && t@ == text
}


/// Whether an action is to subscribe to a mount and to send a text.
pub open spec fn starts_play(action: RequestAction, mount: StreamMount, text: Seq<char>) -> bool {
    action matches RequestAction::Play(m, t) && m == mount && t@ == text
}

/// Decides a SETUP request: which transport to prepare, or the refusal.
pub fn handle_setup(
    req: &RtspRequest,
    cseq: u32,
    conn: &mut Connection,
    config: &RtspConfig,
) -> (action: RequestAction)
    ensures
        final(conn).has_auth == lets_in(old(conn)@, req@, "SETUP"@, config@),
        was_asked(old(conn)@, final(conn)@, is_allowed(final(conn).has_auth, config@)),
        is_allowed(final(conn).has_auth, config@) ==> action == RequestAction::Setup(
            plan_of(transport_of(req@.headers)),
        ),
        !is_allowed(final(conn).has_auth, config@) ==> replies(
            action,
            unauthorized(cseq, config@.realm, final(conn)@.nonce),
        ),
{
    if !authorize(
        &mut conn.has_auth,
        conn.nonce.as_str(),
        &req.headers,
        "SETUP",
        req.address.as_str(),
        req.url.as_str(),
        config,
    ) {
        return RequestAction::Reply(refuse(cseq, conn, config));
    }
    match req.headers.get("Transport") {
        Some(t) => RequestAction::Setup(choose_transport(t.as_str())),
        None => {
            proof {
                reveal_strlit("");
                assert(""@ =~= Seq::<char>::empty());
            }
            RequestAction::Setup(choose_transport(""))
        },
    }
}

/// Sets up a session under a random key, on a transport that is ready.
pub fn complete_setup(
    req: &RtspRequest,
    plan: SetupPlan,
    server_port: u16,
    cseq: u32,
    conn: &mut Connection,
    inner: &mut Inner,
) -> (text: String)
    requires
        plan is Udp ==> plan->client_port < 65535 && server_port < 65535,
    ensures
        final(conn)@.session_id matches Some(id) && is_session_id(id) && text@ == with_session(
            cseq,
            id,
            "Transport"@,
            transport_reply(plan, server_port),
        ) && final(inner).sessions@.dom() == old(inner).sessions@.dom().insert(id)
            && is_new_session(
            final(inner).sessions@[id],
            id,
            plan,
            mount_of(req@.url),
            final(inner).sessions@[id].ssrc,
            final(inner).sessions@[id].seq,
        ) && final(inner).sessions@.remove(id) == old(inner).sessions@.remove(id),
        final(conn)@ == (ConnState { session_id: final(conn)@.session_id, ..old(conn)@ }),
        forall|m: StreamMount| #[trigger] final(inner).params(m) == old(inner).params(m),
{
    create_session(req, plan, server_port, generate_session_key(), cseq, conn, inner)
}

/// The session that a PLAY request means: the one it names, else that of the
/// connection, else none.
pub open spec fn played_session(
    headers: Map<Seq<char>, Seq<char>>,
    session_id: Option<Seq<char>>,
) -> Seq<char> {
    if headers.dom().contains("Session"@) {
        headers["Session"@]
    } else {
        match session_id {
            Some(id) => id,
            None => Seq::empty(),
        }
    }
}

/// Decides a PLAY request: subscribes a known session to its mount.
pub fn handle_play(
    req: &RtspRequest,
    cseq: u32,
    conn: &mut Connection,
    inner: &mut Inner,
    config: &RtspConfig,
) -> (action: RequestAction)
    ensures
        final(conn).has_auth == lets_in(old(conn)@, req@, "PLAY"@, config@),
        forall|m: StreamMount| #[trigger] final(inner).params(m) == old(inner).params(m),
        ({
            let allowed = is_allowed(final(conn).has_auth, config@);
            let sid = played_session(req@.headers, old(conn)@.session_id);
            let known = sid.len() > 0 && old(inner).sessions@.dom().contains(sid);
            let s = old(inner).sessions@[sid];
            &&& !allowed ==> replies(
                action,
                unauthorized(cseq, config@.realm, final(conn)@.nonce),
            )
            &&& allowed && !known ==> replies(action, plain(
                "454"@,
                "Session Not Found"@,
                cseq,
            ))
            &&& allowed && known ==> starts_play(
                action,
                s.mount,
                with_session(cseq, sid, "Range"@, "npt=0.000-"@),
            )
            &&& final(inner).sessions@ == (if allowed && known {
                old(inner).sessions@.insert(sid, Session { is_playing: true, ..s })
            } else {
                old(inner).sessions@
            })
            &&& if allowed && known {
                final(conn)@ == ConnState {
                    has_auth: final(conn).has_auth,
                    session_id: Some(sid),
                    bridged: true,
                    ..old(conn)@
                }
            } else {
                was_asked(old(conn)@, final(conn)@, allowed)
            }
        }),
{
    if !authorize(
        &mut conn.has_auth,
        conn.nonce.as_str(),
        &req.headers,
        "PLAY",
        req.address.as_str(),
        req.url.as_str(),
        config,
    ) {
        return RequestAction::Reply(refuse(cseq, conn, config));
    }
    let sid = match req.headers.get("Session") {
        Some(s) => s.clone(),
        None => match &conn.session_id {
            Some(s) => s.clone(),
            None => String::new(),
        },
    };
    proof {
        assert(sid@ =~= played_session(req@.headers, old(conn)@.session_id));
    }
    if sid.as_str().is_empty() {
        return RequestAction::Reply(plain_text("454", "Session Not Found", cseq));
    }
    let ghost before = inner.sessions@;
    match inner.sessions.remove(sid.as_str()) {
        None => {
            proof {
                assert(inner.sessions@ =~= before);
            }
            RequestAction::Reply(plain_text("454", "Session Not Found", cseq))
        },
        Some(session) => {
            let mount = session.mount;
            let playing = Session { is_playing: true, ..session };
            inner.sessions.insert(sid.clone(), playing);
            proof {
                assert(inner.sessions@ =~= before.insert(sid@, playing));
            }
            conn.session_id = Some(sid.clone());
            conn.bridged = true;
            RequestAction::Play(
                mount,
                with_session_text(cseq, sid.as_str(), "Range", "npt=0.000-"),
            )
        },
    }
}

/// Ends the session of a connection, and answers the TEARDOWN request.
pub fn handle_teardown(cseq: u32, conn: &mut Connection, inner: &mut Inner) -> (text: String)
    ensures
        forall|m: StreamMount| #[trigger] final(inner).params(m) == old(inner).params(m),
        match old(conn)@.session_id {
            Some(sid) => {
                &&& text@ == with_header("200"@, "OK"@, cseq, "Session"@, sid, Seq::empty())
                &&& final(inner).sessions@ == old(inner).sessions@.remove(sid)
                &&& final(conn)@ == (ConnState { session_id: None, bridged: false, ..old(conn)@ })
            },
            None => {
                &&& text@ == plain("454"@, "Session Not Found"@, cseq)
                &&& final(inner).sessions@ == old(inner).sessions@
                &&& final(conn)@ == old(conn)@
            },
        },
{
    let sid = conn.session_id.take();
    match sid {
        Some(sid) => {
            inner.sessions.remove(sid.as_str());
            conn.bridged = false;
            proof {
                reveal_strlit("");
                assert(""@ =~= Seq::<char>::empty());
            }
            with_header_text("200", "OK", cseq, "Session", sid.as_str(), "")
        },
        None => plain_text("454", "Session Not Found", cseq),
    }
}

/// Ending a session undoes setting it up: with the identifier that SETUP took
/// removed, the sessions are those from before, provided that the identifier
/// was free.
pub proof fn teardown_undoes_setup(
    before: Map<Seq<char>, Session>,
    after: Map<Seq<char>, Session>,
    id: Seq<char>,
)
    requires
        !before.dom().contains(id),
        after.remove(id) == before.remove(id),
    ensures
        after.remove(id) == before,
{
    assert(before.remove(id) =~= before);
}

/// The methods that do something.
pub enum Method {
    Parameter,
    Options,
    Describe,
    Setup,
    Play,
    Teardown,
    Other,
}

/// The method of a request.
pub open spec fn method_of(m: Seq<char>) -> Method {
    if m == "GET_PARAMETER"@ || m == "SET_PARAMETER"@ {
        Method::Parameter
    } else if m == "OPTIONS"@ {
        Method::Options
    } else if m == "DESCRIBE"@ {
        Method::Describe
    } else if m == "SETUP"@ {
        Method::Setup
    } else if m == "PLAY"@ {
        Method::Play
    } else if m == "TEARDOWN"@ {
        Method::Teardown
    } else {
        Method::Other
    }
}

/// Recognises the method of a request.
pub fn recognise(m: &str) -> (method: Method)
    ensures
        method == method_of(m@),
{
    if same_text(m, "GET_PARAMETER") || same_text(m, "SET_PARAMETER") {
        Method::Parameter
    } else if same_text(m, "OPTIONS") {
        Method::Options
    } else if same_text(m, "DESCRIBE") {
        Method::Describe
    } else if same_text(m, "SETUP") {
        Method::Setup
    } else if same_text(m, "PLAY") {
        Method::Play
    } else if same_text(m, "TEARDOWN") {
        Method::Teardown
    } else {
        Method::Other
    }
}

/// Whether a method needs a client that was let in.
pub open spec fn is_guarded(m: Method) -> bool {
    m is Describe || m is Setup || m is Play
}

/// Handles a request.
pub fn handle_rtsp_request(
    req: &RtspRequest,
    conn: &mut Connection,
    inner: &mut Inner,
    config: &RtspConfig,
) -> (action: RequestAction)
    ensures
        final(conn).has_auth == (if is_guarded(method_of(req@.method)) {
            lets_in(old(conn)@, req@, req@.method, config@)
        } else {
            old(conn).has_auth
        }),
        forall|m: StreamMount| #[trigger] final(inner).params(m) == old(inner).params(m),
        ({
            let method = method_of(req@.method);
            let cseq = req@.cseq;
            let allowed = is_allowed(final(conn).has_auth, config@);
            let sid = played_session(req@.headers, old(conn)@.session_id);
            let known = sid.len() > 0 && old(inner).sessions@.dom().contains(sid);
            let s = old(inner).sessions@[sid];
            let plays = method is Play && allowed && known;
            let own = old(conn)@.session_id;
            let ends = method is Teardown && own is Some;
            &&& is_guarded(method) && !allowed ==> replies(
                action,
                unauthorized(cseq, config@.realm, final(conn)@.nonce),
            )
            &&& method is Parameter ==> replies(action, plain(
                "200"@,
                "OK"@,
                cseq,
            ))
            &&& method is Options ==> replies(action, with_header(
                "200"@,
                "OK"@,
                cseq,
                "Public"@,
                methods(),
                Seq::empty(),
            ))
            &&& method is Other ==> replies(action, with_header(
                "405"@,
                "Method Not Allowed"@,
                cseq,
                "Public"@,
                methods(),
                Seq::empty(),
            ))
            &&& method is Describe && allowed ==> replies(action, with_header(
                "200"@,
                "OK"@,
                cseq,
                "Content-Type"@,
                "application/sdp"@,
                sdp(old(inner).params(mount_of(req@.url))),
            ))
            &&& method is Setup && allowed ==> action == RequestAction::Setup(
                plan_of(transport_of(req@.headers)),
            )
            &&& method is Play && allowed && !known ==> replies(
                action,
                plain("454"@, "Session Not Found"@, cseq),
            )
            &&& plays ==> starts_play(
                action,
                s.mount,
                with_session(cseq, sid, "Range"@, "npt=0.000-"@),
            )
            &&& ends ==> replies(action, with_header(
                "200"@,
                "OK"@,
                cseq,
                "Session"@,
                own->0,
                Seq::empty(),
            ))
            &&& method is Teardown && own is None ==> replies(
                action,
                plain("454"@, "Session Not Found"@, cseq),
            )
            &&& final(inner).sessions@ == (if plays {
                old(inner).sessions@.insert(sid, Session { is_playing: true, ..s })
            } else if ends {
                old(inner).sessions@.remove(own->0)
            } else {
                old(inner).sessions@
            })
            &&& if plays {
                final(conn)@ == ConnState {
                    has_auth: final(conn).has_auth,
                    session_id: Some(sid),
                    bridged: true,
                    ..old(conn)@
                }
            } else if ends {
                final(conn)@ == ConnState { session_id: None, bridged: false, ..old(conn)@ }
            } else {
                was_asked(old(conn)@, final(conn)@, !is_guarded(method) || allowed)
            }
        }),
{
    let cseq: u32 = req.cseq;
    match recognise(req.method.as_str()) {
        Method::Parameter => RequestAction::Reply(plain_text("200", "OK", cseq)),
        Method::Options => RequestAction::Reply(handle_options(cseq)),
        Method::Describe => RequestAction::Reply(
            handle_describe(req, cseq, conn, inner, config),
        ),
        Method::Setup => handle_setup(req, cseq, conn, config),
        Method::Play => handle_play(req, cseq, conn, inner, config),
        Method::Teardown => RequestAction::Reply(handle_teardown(cseq, conn, inner)),
        Method::Other => {
            proof {
                reveal_strlit("");
                assert(""@ =~= Seq::<char>::empty());
            }
            RequestAction::Reply(
                with_header_text(
                    "405",
                    "Method Not Allowed",
                    cseq,
                    "Public",
                    "OPTIONS, DESCRIBE, SETUP, PLAY, TEARDOWN ",
                    "",
                ),
            )
        },
    }
}

/// A session that was just set up has what the client asked for: the channels
/// of an interleaved stream, or the port that datagrams go to. It does not play
/// yet, and its clock is at the start.
pub proof fn new_sessions_are_as_asked_for(
    s: Session,
    id: Seq<char>,
    plan: SetupPlan,
    mount: StreamMount,
    ssrc: u32,
    seq: u16,
    a: u8,
    b: u8,
    port: u16,
)
    requires
        is_new_session(s, id, plan, mount, ssrc, seq),
    ensures
        plan == (SetupPlan::Tcp { rtp: a, rtcp: b }) ==> !s.is_udp && s.rtp_channel == a
            && s.rtcp_channel == b && s.client_port is None,
        plan == (SetupPlan::Udp { client_port: port }) ==> s.is_udp && s.client_port == Some(port),
        plan == SetupPlan::LastPort ==> s.is_udp && s.client_port is None,
        s.id@ == id,
        s.mount == mount,
        (s.ssrc, s.seq, s.last_ts) == (ssrc, seq, 0u32),
        !s.is_playing,
{
}

/// Describing, setting up and playing a stream needs a client that was let in;
/// nothing else does.
pub proof fn streams_are_guarded(m: Seq<char>)
    ensures
        is_guarded(method_of(m)) <==> m == "DESCRIBE"@ || m == "SETUP"@ || m == "PLAY"@,
        method_of(m) is Other <==> !seq![
            "GET_PARAMETER"@,
            "SET_PARAMETER"@,
            "OPTIONS"@,
            "DESCRIBE"@,
            "SETUP"@,
            "PLAY"@,
            "TEARDOWN"@,
        ].contains(m),
        method_of("GET_PARAMETER"@) is Parameter,
        method_of("SET_PARAMETER"@) is Parameter,
        method_of("OPTIONS"@) is Options,
        method_of("DESCRIBE"@) is Describe,
        method_of("SETUP"@) is Setup,
        method_of("PLAY"@) is Play,
        method_of("TEARDOWN"@) is Teardown,
{
    reveal_strlit("GET_PARAMETER");
    reveal_strlit("SET_PARAMETER");
    reveal_strlit("OPTIONS");
    reveal_strlit("DESCRIBE");
    reveal_strlit("SETUP");
    reveal_strlit("PLAY");
    reveal_strlit("TEARDOWN");
    let all = seq![
        "GET_PARAMETER"@,
        "SET_PARAMETER"@,
        "OPTIONS"@,
        "DESCRIBE"@,
        "SETUP"@,
        "PLAY"@,
        "TEARDOWN"@,
    ];
    assert(all[0] == "GET_PARAMETER"@ && all[1] == "SET_PARAMETER"@ && all[2] == "OPTIONS"@
        && all[3] == "DESCRIBE"@ && all[4] == "SETUP"@ && all[5] == "PLAY"@ && all[6]
        == "TEARDOWN"@);
    assert("OPTIONS"@.len() == 7 && "DESCRIBE"@.len() == 8 && "SETUP"@.len() == 5 && "PLAY"@.len()
        == 4 && "TEARDOWN"@.len() == 8 && "GET_PARAMETER"@.len() == 13 && "SET_PARAMETER"@.len()
        == 13);
    assert("DESCRIBE"@[0] == 'D' && "TEARDOWN"@[0] == 'T');
}

/// Bytes that start a frame of an interleaved channel are no request once the
/// frame is whole.
pub proof fn interleaved_frames_are_recognised(channel: u8, payload: Seq<u8>, rest: Seq<u8>)
    requires
        payload.len() < 0x1_0000,
    ensures
        is_interleaved(
            seq![
                0x24u8,
                channel,
                (payload.len() / 256) as u8,
                (payload.len() % 256) as u8,
            ] + payload + rest,
        ),
{
}

/// A request ends with its first blank line: nothing in front of it is one, and
/// the bytes behind it do not count.
pub proof fn the_first_blank_line_ends_a_request(data: Seq<u8>, from: int)
    requires
        0 <= from,
    ensures
        blank_line_from(data, from) matches Some(i) ==> from <= i && i + 4 <= data.len()
            && data.subrange(i, i + 4) == seq![13u8, 10u8, 13u8, 10u8],
        forall|j: int|
            from <= j <= data.len() - 4 && (blank_line_from(data, from) matches Some(i) ==> j < i)
                ==> #[trigger] data.subrange(j, j + 4) != seq![13u8, 10u8, 13u8, 10u8],
    decreases data.len() - from,
{
    let end = seq![13u8, 10u8, 13u8, 10u8];
    if from + 4 <= data.len() {
        let part = data.subrange(from, from + 4);
        assert(part[0] == data[from] && part[1] == data[from + 1] && part[2] == data[from + 2]
            && part[3] == data[from + 3]);
        if blank_line_at(data, from) {
            assert(part =~= end);
        } else {
            assert(part != end) by {
                assert(end[0] == 13 && end[1] == 10 && end[2] == 13 && end[3] == 10);
            }
            the_first_blank_line_ends_a_request(data, from + 1);
        }
    }
}

/// The session of a PLAY request is the one that it names, and else that of the
/// connection.
pub proof fn the_named_session_is_played(
    headers: Map<Seq<char>, Seq<char>>,
    own: Seq<char>,
    named: Seq<char>,
)
    requires
        !headers.dom().contains("Session"@),
    ensures
        played_session(headers.insert("Session"@, named), Some(own)) == named,
        played_session(headers.insert("Session"@, named), None) == named,
        played_session(headers, Some(own)) == own,
        played_session(headers, None).len() == 0,
{
}

/// An error says of what kind it is, in front of the detail.
pub proof fn errors_say_their_kind(t: String)
    ensures
        rtsp_error_text(RtspError::Io(t)) == "I/O error: "@ + t@,
        rtsp_error_text(RtspError::Auth(t)) == "auth error: "@ + t@,
        rtsp_error_text(RtspError::Protocol(t)) == "protocol error: "@ + t@,
        rtsp_error_text(RtspError::SessionNotFound(t)) == "session not found: "@ + t@,
{
}

/// The bytes of a session's number are read back, the greater ones first.
pub proof fn session_numbers_are_read_back(n: u64)
    ensures
        be64(n).len() == 8,
        long_at(be64(n), 0) * 0x1_0000_0000 + long_at(be64(n), 4) == n,
{
    let (a, b) = ((n / 0x1_0000_0000) as u32, (n % 0x1_0000_0000) as u32);
    lemma_be32(a);
    lemma_be32(b);
    let bytes = be64(n);
    assert(bytes =~= be32(a as int) + be32(b as int));
    assert(a == a / 16777216 * 16777216 + a / 65536 % 256 * 65536 + a / 256 % 256 * 256 + a % 256);
    assert(b == b / 16777216 * 16777216 + b / 65536 % 256 * 65536 + b / 256 % 256 * 256 + b % 256);
    assert(long_at(bytes, 0) == a);
    assert(long_at(bytes, 4) == b);
}

} // verus!
