//! RTSP: description, authentication, dialogue and delivery.

use md5::{Digest, Md5};
use mibee_eye::h264::{AccessUnit, Nalu};
use mibee_eye::streaming::auth::{
    check_basic_auth, check_digest_auth, generate_nonce, md5_hex, nonce_from, RtspConfig,
};
use mibee_eye::streaming::base64::base64_encode;
use mibee_eye::streaming::delivery::{deliver, finish_write, Delivery, WriteOutcome};
use mibee_eye::streaming::reply::generate_sdp;
use mibee_eye::streaming::request::StreamMount;
use mibee_eye::streaming::rtsp::{
    choose_transport, classify, complete_setup, create_session, generate_session_id,
    handle_rtsp_request, session_id_from, Connection, Incoming, RequestAction, RtspError,
    SessionKey, SetupPlan,
};
use mibee_eye::streaming::session::{access_unit_to_frames, Inner, Session};

#[test]
fn test_sdp_generation_contains_required_fields() {
    let inner = Inner::new();

    let sdp = generate_sdp(&inner, StreamMount::Main);

    assert!(sdp.contains("v=0"), "SDP should contain v=0");
    assert!(sdp.contains("o=-"), "SDP should contain o=");
    assert!(
        sdp.contains("s=MiBee Eye Stream"),
        "SDP should contain session name"
    );
    assert!(sdp.contains("t=0 0"), "SDP should contain t=0 0");
    assert!(sdp.contains("m=video"), "SDP should contain m=video");
    assert!(sdp.contains("RTP/AVP"), "SDP should contain RTP/AVP");
    assert!(sdp.contains("H264"), "SDP should contain H264 codec");
    assert!(
        sdp.contains("profile-level-id"),
        "SDP should contain profile-level-id"
    );
    assert!(
        sdp.contains("packetization-mode=1"),
        "SDP should contain packetization-mode=1"
    );
    assert!(sdp.contains("90000"), "SDP should contain 90kHz clock rate");
}

#[test]
fn test_sdp_with_sps_pps_includes_sprop() {
    let mut inner_state = Inner::new();
    inner_state.sps = Some(vec![0x67, 0x42, 0x00, 0x1e]);
    inner_state.pps = Some(vec![0x68, 0xce, 0x38, 0x80]);
    let inner = inner_state;

    let sdp = generate_sdp(&inner, StreamMount::Main);

    assert!(
        sdp.contains("sprop-parameter-sets"),
        "SDP should contain sprop-parameter-sets"
    );
    assert!(
        sdp.contains("profile-level-id=42001e"),
        "SDP should have correct profile-level-id"
    );
}

#[test]
fn test_sdp_default_profile_level_id() {
    let inner = Inner::new();

    let sdp = generate_sdp(&inner, StreamMount::Main);

    assert!(
        sdp.contains("profile-level-id=42e01f"),
        "SDP should use default profile-level-id"
    );
}

#[test]
fn test_sdp_param_sets_are_per_mount() {
    let mut state = Inner::new();
    state.sps = Some(vec![0x67, 0x42, 0x00, 0x1e]);
    state.pps = Some(vec![0x68, 0x01]);
    state.sub_sps = Some(vec![0x67, 0x4D, 0x00, 0x0c]);
    state.sub_pps = Some(vec![0x68, 0x02]);
    let inner = state;

    let main_sdp = generate_sdp(&inner, StreamMount::Main);
    let sub_sdp = generate_sdp(&inner, StreamMount::Sub);
    assert!(
        main_sdp.contains("profile-level-id=42001e"),
        "main SDP must use the main SPS, got: {main_sdp}"
    );
    assert!(
        sub_sdp.contains("profile-level-id=4d000c"),
        "sub SDP must use the sub SPS, got: {sub_sdp}"
    );
    // Each SDP carries its own mount's sprop pair only (different PPS
    // bytes disambiguate).
    assert!(main_sdp.contains(&base64_encode(&[0x68, 0x01])));
    assert!(!main_sdp.contains(&base64_encode(&[0x68, 0x02])));
    assert!(sub_sdp.contains(&base64_encode(&[0x68, 0x02])));
}

#[test]
fn test_access_unit_caches_param_sets_per_mount() {
    let mut inner = Inner::new();
    let mut session = Session {
        id: "sub-sess".to_string(),
        rtp_channel: 0,
        rtcp_channel: 1,
        is_playing: true,
        mount: StreamMount::Sub,
        ssrc: 1,
        seq: 1,
        last_ts: 0,
        is_udp: false,
        client_port: None,
    };
    let au = AccessUnit {
        nalus: vec![
            Nalu {
                nalu_type: 7,
                data: vec![0x67, 0x4D, 0x00, 0x0c],
                is_idr: false,
                is_sps: true,
                is_pps: false,
                is_aud: false,
            },
            Nalu {
                nalu_type: 8,
                data: vec![0x68, 0x02],
                is_idr: false,
                is_sps: false,
                is_pps: true,
                is_aud: false,
            },
            Nalu {
                nalu_type: 5,
                data: vec![0x65, 0x11],
                is_idr: true,
                is_sps: false,
                is_pps: false,
                is_aud: false,
            },
        ],
        is_key_frame: true,
    };
    let _ = access_unit_to_frames(&au, &mut session, &mut inner, 0);
    assert!(inner.sps.is_none(), "sub traffic must not touch main SPS");
    assert!(inner.pps.is_none(), "sub traffic must not touch main PPS");
    assert_eq!(
        inner.sub_sps.as_deref(),
        Some(&[0x67u8, 0x4D, 0x00, 0x0c][..])
    );
    assert_eq!(inner.sub_pps.as_deref(), Some(&[0x68u8, 0x02][..]));
}

#[test]
fn test_access_unit_to_frames_basic() {
    let mut inner_state = Inner::new();
    inner_state.sps = Some(vec![0x67, 0x42, 0x00, 0x1e]);
    inner_state.pps = Some(vec![0x68, 0xce, 0x38, 0x80]);
    let mut inner = inner_state;

    let mut session = Session {
        id: "test".to_string(),
        rtp_channel: 0,
        rtcp_channel: 1,
        is_playing: true,
        mount: StreamMount::Main,
        ssrc: 0xDEAD_BEEF,
        seq: 100,
        last_ts: 0,
        is_udp: false,
        client_port: None,
    };

    let au = AccessUnit {
        nalus: vec![Nalu {
            nalu_type: 5,
            data: vec![0x65, 0x88, 0x84, 0x00, 0x10],
            is_idr: true,
            is_sps: false,
            is_pps: false,
            is_aud: false,
        }],
        is_key_frame: true,
    };

    let frames = access_unit_to_frames(&au, &mut session, &mut inner, 0);

    assert!(!frames.is_empty(), "Should produce at least one frame");

    // Each frame should start with the interleaved magic byte.
    for frame in &frames {
        assert_eq!(frame[0], 0x24, "Frame should start with $ marker");
    }

    // Key frame without SPS/PPS should inject stored SPS/PPS.
    // So we expect SPS NALU → PPS NALU → IDR NALU.
    // Actually with the injected SPS/PPS, we have 3 NALUs.
    // Let's just verify we get the right structure.
    assert!(
        frames.len() >= 3,
        "Key frame should inject SPS+PPS+IDR, got {} frames",
        frames.len()
    );
}

#[test]
fn test_basic_auth_valid() {
    let config = RtspConfig {
        username: "admin".to_string(),
        password: "secret".to_string(),
        ..Default::default()
    };

    // Base64 of "admin:secret" is "YWRtaW46c2VjcmV0".
    let header = "Basic YWRtaW46c2VjcmV0";
    assert!(
        check_basic_auth(header, &config),
        "Valid credentials should pass"
    );
}

#[test]
fn test_basic_auth_invalid() {
    let config = RtspConfig {
        username: "admin".to_string(),
        password: "secret".to_string(),
        ..Default::default()
    };

    // Wrong password.
    let header = "Basic YWRtaW46d3Jvbmc=";
    assert!(
        !check_basic_auth(header, &config),
        "Wrong password should fail"
    );

    // Wrong username.
    let header = "Basic Z3Vlc3Q6c2VjcmV0";
    assert!(
        !check_basic_auth(header, &config),
        "Wrong username should fail"
    );

    // Missing prefix.
    let header = "YWRtaW46c2VjcmV0";
    assert!(
        !check_basic_auth(header, &config),
        "Missing Basic prefix should fail"
    );
}

#[test]
fn test_basic_auth_no_auth_config() {
    let config = RtspConfig::default(); // empty username/password
    let header = "Basic YWRtaW46c2VjcmV0";
    assert!(
        !check_basic_auth(header, &config),
        "Auth should fail when no credentials configured"
    );
}

#[test]
fn test_digest_auth_nonce_verification() {
    let config = RtspConfig {
        username: "admin".to_string(),
        password: "secret".to_string(),
        realm: "MiBee Eye RTSP".to_string(),
        ..Default::default()
    };

    let nonce = "abc123";
    let method = "DESCRIBE";
    let uri = "/streamid=0";

    let ha1 = {
        let mut hasher = Md5::new();
        hasher.update(b"admin:MiBee Eye RTSP:secret");
        format!("{:x}", hasher.finalize())
    };

    let ha2 = {
        let mut hasher = Md5::new();
        hasher.update(b"DESCRIBE:/streamid=0");
        format!("{:x}", hasher.finalize())
    };

    let expected = {
        let mut hasher = Md5::new();
        hasher.update(format!("{ha1}:{nonce}:{ha2}"));
        format!("{:x}", hasher.finalize())
    };

    let auth_header = format!(
        "Digest username=\"admin\", realm=\"MiBee Eye RTSP\", \
         nonce=\"{nonce}\", uri=\"{uri}\", response=\"{expected}\""
    );

    assert!(
        check_digest_auth(&auth_header, method, uri, nonce, &config),
        "Correct digest response should pass"
    );
}

#[test]
fn test_digest_auth_wrong_password() {
    let config = RtspConfig {
        username: "admin".to_string(),
        password: "secret".to_string(),
        realm: "MiBee Eye RTSP".to_string(),
        ..Default::default()
    };

    let nonce = "abc123";
    let method = "DESCRIBE";
    let uri = "/streamid=0";

    let ha1 = {
        let mut hasher = Md5::new();
        hasher.update(b"admin:MiBee Eye RTSP:wrongpass");
        format!("{:x}", hasher.finalize())
    };

    let ha2 = {
        let mut hasher = Md5::new();
        hasher.update(b"DESCRIBE:/streamid=0");
        format!("{:x}", hasher.finalize())
    };

    let expected = {
        let mut hasher = Md5::new();
        hasher.update(format!("{ha1}:{nonce}:{ha2}"));
        format!("{:x}", hasher.finalize())
    };

    let auth_header = format!(
        "Digest username=\"admin\", realm=\"MiBee Eye RTSP\", \
         nonce=\"{nonce}\", uri=\"{uri}\", response=\"{expected}\""
    );

    assert!(
        !check_digest_auth(&auth_header, method, uri, nonce, &config),
        "Wrong password should fail digest auth"
    );
}

#[test]
fn test_digest_auth_missing_params() {
    let config = RtspConfig {
        username: "admin".to_string(),
        password: "secret".to_string(),
        realm: "MiBee Eye RTSP".to_string(),
        ..Default::default()
    };

    // Missing response.
    let header = "Digest username=\"admin\", realm=\"Test\"";
    assert!(
        !check_digest_auth(header, "DESCRIBE", "/", "nonce", &config),
        "Missing response should fail"
    );

    // Missing username.
    let header = "Digest realm=\"Test\", response=\"abc\"";
    assert!(
        !check_digest_auth(header, "DESCRIBE", "/", "nonce", &config),
        "Missing username should fail"
    );
}

#[test]
fn test_digest_auth_wrong_username() {
    let config = RtspConfig {
        username: "admin".to_string(),
        password: "secret".to_string(),
        realm: "MiBee Eye RTSP".to_string(),
        ..Default::default()
    };

    let ha1 = {
        let mut hasher = Md5::new();
        hasher.update(b"hacker:MiBee Eye RTSP:secret");
        format!("{:x}", hasher.finalize())
    };

    let ha2 = {
        let mut hasher = Md5::new();
        hasher.update(b"DESCRIBE:/");
        format!("{:x}", hasher.finalize())
    };

    let expected = {
        let mut hasher = Md5::new();
        hasher.update(format!("{ha1}:nonce:{ha2}"));
        format!("{:x}", hasher.finalize())
    };

    let header = format!(
        "Digest username=\"hacker\", realm=\"MiBee Eye RTSP\", \
         nonce=\"nonce\", uri=\"/\", response=\"{expected}\""
    );

    assert!(
        !check_digest_auth(&header, "DESCRIBE", "/", "nonce", &config),
        "Wrong username should fail"
    );
}

#[test]
fn test_generate_nonce_not_empty() {
    let nonce = generate_nonce();
    assert!(!nonce.is_empty(), "Nonce should not be empty");
    assert_eq!(
        nonce.len(),
        32,
        "Nonce should be 32 hex characters (16 bytes)"
    );
}

#[test]
fn test_generate_nonce_unique() {
    let n1 = generate_nonce();
    let n2 = generate_nonce();
    assert_ne!(n1, n2, "Nonces should be unique");
}

#[test]
fn test_generate_session_id_not_empty() {
    let sid = generate_session_id();
    assert!(!sid.is_empty(), "Session ID should not be empty");
    assert_eq!(sid.len(), 16, "Session ID should be 16 hex characters");
}

#[test]
fn test_generate_session_id_unique() {
    let s1 = generate_session_id();
    let s2 = generate_session_id();
    assert_ne!(s1, s2, "Session IDs should be unique");
}

fn test_nalu(nalu_type: u8, data: Vec<u8>) -> Nalu {
    Nalu {
        nalu_type,
        is_idr: nalu_type == 5,
        is_sps: nalu_type == 7,
        is_pps: nalu_type == 8,
        is_aud: nalu_type == 9,
        data,
    }
}

fn key_au() -> AccessUnit {
    AccessUnit {
        nalus: vec![
            test_nalu(7, vec![0x67, 0x42, 0x00, 0x1e]),
            test_nalu(8, vec![0x68, 0xce, 0x38, 0x80]),
            test_nalu(5, vec![0x65, 0x88, 0x84, 0x00, 0x10, 0x3f]),
        ],
        is_key_frame: true,
    }
}

fn p_au() -> AccessUnit {
    AccessUnit { nalus: vec![test_nalu(1, vec![0x41, 0x9a, 0x02, 0x05])], is_key_frame: false }
}

/// A server with one client.
struct Dialogue {
    conn: Connection,
    inner: Inner,
    config: RtspConfig,
}

impl Dialogue {
    fn new(config: RtspConfig) -> Self {
        Dialogue { conn: Connection::new(), inner: Inner::new(), config }
    }

    /// Sends bytes and gives the answer.
    fn send(&mut self, bytes: &[u8]) -> Option<String> {
        let req = match classify(bytes) {
            Incoming::Ignore => return None,
            Incoming::BadRequest(text) => return Some(text),
            Incoming::Request(req) => req,
        };
        match handle_rtsp_request(&req, &mut self.conn, &mut self.inner, &self.config) {
            RequestAction::Reply(text) => Some(text),
            RequestAction::Play(_, text) => Some(text),
            RequestAction::Setup(plan) => Some(complete_setup(
                &req,
                plan,
                6970,
                req.cseq,
                &mut self.conn,
                &mut self.inner,
            )),
        }
    }

    /// Sends a request and gives the answer.
    fn ask(&mut self, request: &str) -> String {
        self.send(request.as_bytes()).expect("an answer")
    }

    /// Offers an access unit.
    fn offer(&mut self, au: &AccessUnit) -> Delivery {
        deliver(au, 0, &mut self.conn, &mut self.inner)
    }

    /// Offers an access unit and writes it.
    fn write(&mut self, au: &AccessUnit, outcome: WriteOutcome) -> (Vec<u8>, bool) {
        match self.offer(au) {
            Delivery::Write(job) => {
                let close = finish_write(&job, outcome, &mut self.conn, &mut self.inner);
                (job.bytes, close)
            }
            _ => panic!("nothing to write"),
        }
    }

    /// Sets up and plays an interleaved session.
    fn play(&mut self) {
        self.ask(
            "SETUP rtsp://127.0.0.1/stream/streamid=0 RTSP/1.0\r\nCSeq: 3\r\n\
             Transport: RTP/AVP/TCP;unicast;interleaved=0-1\r\n\r\n",
        );
        let text = self.ask("PLAY rtsp://127.0.0.1/stream RTSP/1.0\r\nCSeq: 4\r\n\r\n");
        assert!(text.starts_with("RTSP/1.0 200"), "{text}");
    }
}

/// The interleaved packets in written bytes: channel and packet.
fn interleaved(mut bytes: &[u8]) -> Vec<(u8, Vec<u8>)> {
    let mut packets = Vec::new();
    while !bytes.is_empty() {
        assert_eq!(bytes[0], 0x24, "expected interleaved frame marker");
        let len = ((bytes[2] as usize) << 8) | bytes[3] as usize;
        packets.push((bytes[1], bytes[4..4 + len].to_vec()));
        bytes = &bytes[4 + len..];
    }
    packets
}

fn session_header(text: &str) -> String {
    text.lines()
        .find_map(|l| l.strip_prefix("Session: ").map(|s| s.trim().to_string()))
        .expect("session id header")
}

#[test]
fn test_full_interleaved_session_flow() {
    let mut d = Dialogue::new(RtspConfig { port: 0, ..RtspConfig::default() });
    let hdrs = d.ask("OPTIONS rtsp://127.0.0.1/stream RTSP/1.0\r\nCSeq: 1\r\n\r\n");
    assert!(hdrs.starts_with("RTSP/1.0 200"), "OPTIONS must return 200: {hdrs}");
    assert!(hdrs.contains("Public: OPTIONS, DESCRIBE"));

    let text = d.ask("DESCRIBE rtsp://127.0.0.1/stream RTSP/1.0\r\nCSeq: 2\r\n\r\n");
    assert!(text.starts_with("RTSP/1.0 200"), "DESCRIBE must return 200: {text}");
    assert!(text.contains("Content-Type: application/sdp"));
    let (_, sdp) = text.split_once("\r\n\r\n").expect("DESCRIBE must carry the SDP body");
    assert!(sdp.contains("m=video"));
    assert!(text.contains(&format!("Content-Length: {}\r\n", sdp.len())));

    let hdrs = d.ask(
        "SETUP rtsp://127.0.0.1/stream/streamid=0 RTSP/1.0\r\nCSeq: 3\r\n\
         Transport: RTP/AVP/TCP;unicast;interleaved=0-1\r\n\r\n",
    );
    assert!(hdrs.starts_with("RTSP/1.0 200"), "SETUP must return 200: {hdrs}");
    assert!(hdrs.contains("Session: "), "SETUP must allocate a session");
    assert!(hdrs.contains("interleaved=0-1"));
    let sid = session_header(&hdrs);

    let hdrs = d.ask(&format!(
        "PLAY rtsp://127.0.0.1/stream RTSP/1.0\r\nCSeq: 4\r\nSession: {sid}\r\n\r\n"
    ));
    assert!(hdrs.starts_with("RTSP/1.0 200"), "PLAY must return 200: {hdrs}");
    assert!(hdrs.contains("Range: npt=0.000-"));

    // A key frame: SPS, PPS and IDR each ride their own RTP packet.
    let (bytes, close) = d.write(&key_au(), WriteOutcome::Done);
    assert!(!close);
    let packets = interleaved(&bytes);
    assert_eq!(packets.len(), 3);
    let (ch, pkt) = &packets[0];
    assert_eq!(*ch, 0, "RTP rides channel 0");
    assert_eq!(pkt[0] >> 6, 0b10, "RTP version 2");
    assert_eq!(pkt[1] & 0x7f, 96, "dynamic payload type 96");

    // A P-frame after the key frame flows through.
    let (bytes, _) = d.write(&p_au(), WriteOutcome::Done);
    assert_eq!(&interleaved(&bytes)[0].1[12..13], &[0x41], "P-frame NALU header");

    let hdrs = d.ask(&format!(
        "TEARDOWN rtsp://127.0.0.1/stream RTSP/1.0\r\nCSeq: 5\r\nSession: {sid}\r\n\r\n"
    ));
    assert!(hdrs.starts_with("RTSP/1.0 200"), "TEARDOWN must return 200: {hdrs}");
    assert!(d.inner.sessions.is_empty());
    assert!(matches!(d.offer(&key_au()), Delivery::Unsubscribe));
}

#[test]
fn test_auth_challenge_then_basic_success() {
    let mut d = Dialogue::new(RtspConfig {
        port: 0,
        username: "admin".into(),
        password: "secret".into(),
        ..RtspConfig::default()
    });

    // No credentials → 401 with a Digest challenge.
    let hdrs = d.ask("DESCRIBE rtsp://127.0.0.1/stream RTSP/1.0\r\nCSeq: 1\r\n\r\n");
    assert!(hdrs.starts_with("RTSP/1.0 401"), "auth required: {hdrs}");
    assert!(hdrs.contains("WWW-Authenticate"));
    assert!(hdrs.contains("nonce="));

    // Wrong password → still 401.
    let bad = base64_encode(b"admin:wrong");
    let hdrs = d.ask(&format!(
        "DESCRIBE rtsp://127.0.0.1/stream RTSP/1.0\r\nCSeq: 2\r\n\
         Authorization: Basic {bad}\r\n\r\n"
    ));
    assert!(hdrs.starts_with("RTSP/1.0 401"), "wrong password rejected: {hdrs}");

    // Correct credentials → 200 and the connection stays authenticated.
    let good = base64_encode(b"admin:secret");
    let text = d.ask(&format!(
        "DESCRIBE rtsp://127.0.0.1/stream RTSP/1.0\r\nCSeq: 3\r\n\
         Authorization: Basic {good}\r\n\r\n"
    ));
    assert!(text.starts_with("RTSP/1.0 200"), "correct password accepted: {text}");
    assert!(text.contains("m=video"));

    // Follow-up request on the same connection needs no Authorization.
    let hdrs = d.ask(
        "SETUP rtsp://127.0.0.1/stream/streamid=0 RTSP/1.0\r\nCSeq: 4\r\n\
         Transport: RTP/AVP/TCP;unicast;interleaved=0-1\r\n\r\n",
    );
    assert!(hdrs.starts_with("RTSP/1.0 200"), "auth is remembered per connection: {hdrs}");
}

#[test]
fn test_play_without_session_is_454() {
    let mut d = Dialogue::new(RtspConfig { port: 0, ..RtspConfig::default() });
    let hdrs = d.ask("PLAY rtsp://127.0.0.1/stream RTSP/1.0\r\nCSeq: 1\r\n\r\n");
    assert!(hdrs.starts_with("RTSP/1.0 454"), "PLAY without session: {hdrs}");

    // PLAY for an unknown session id.
    let hdrs = d.ask(
        "PLAY rtsp://127.0.0.1/stream RTSP/1.0\r\nCSeq: 2\r\nSession: deadbeef\r\n\r\n",
    );
    assert!(hdrs.starts_with("RTSP/1.0 454"), "unknown session rejected: {hdrs}");

    // TEARDOWN without a session also answers 454.
    let hdrs = d.ask("TEARDOWN rtsp://127.0.0.1/stream RTSP/1.0\r\nCSeq: 3\r\n\r\n");
    assert!(hdrs.starts_with("RTSP/1.0 454"), "TEARDOWN without session: {hdrs}");
}

#[test]
fn test_unknown_method_405_and_get_parameter_200() {
    let mut d = Dialogue::new(RtspConfig { port: 0, ..RtspConfig::default() });
    let hdrs = d.ask("RECORD rtsp://127.0.0.1/stream RTSP/1.0\r\nCSeq: 1\r\n\r\n");
    assert!(hdrs.starts_with("RTSP/1.0 405"), "unknown method: {hdrs}");
    let hdrs = d.ask("GET_PARAMETER rtsp://127.0.0.1/stream RTSP/1.0\r\nCSeq: 2\r\n\r\n");
    assert!(hdrs.starts_with("RTSP/1.0 200"), "GET_PARAMETER keep-alive: {hdrs}");
}

#[test]
fn test_malformed_requests_answer_400() {
    let mut d = Dialogue::new(RtspConfig { port: 0, ..RtspConfig::default() });

    // Valid UTF-8 but a broken request line.
    let hdrs = d.ask("NOT-RTSP\r\n\r\n");
    assert!(hdrs.starts_with("RTSP/1.0 400"), "broken request line: {hdrs}");

    // Non-UTF-8 payload with a complete header block.
    let hdrs = d
        .send(&[
            0xff, 0xfe, b' ', b'x', b' ', b'R', b'T', b'S', b'P', b'/', b'1', b'.', b'0', b'\r',
            b'\n', b'\r', b'\n',
        ])
        .expect("400 for non-UTF8");
    assert!(hdrs.starts_with("RTSP/1.0 400"), "non-UTF-8 request: {hdrs}");
}

#[test]
fn test_udp_setup_and_play_delivers_rtp() {
    let mut d = Dialogue::new(RtspConfig { port: 0, ..RtspConfig::default() });
    let hdrs = d.ask(
        "SETUP rtsp://127.0.0.1/stream RTSP/1.0\r\nCSeq: 1\r\n\
         Transport: RTP/AVP;unicast;client_port=5000-5001\r\n\r\n",
    );
    assert!(hdrs.starts_with("RTSP/1.0 200"), "UDP SETUP: {hdrs}");
    assert!(hdrs.contains("client_port=5000-5001;server_port=6970-6971"), "{hdrs}");
    let sid = session_header(&hdrs);
    let hdrs = d.ask(&format!(
        "PLAY rtsp://127.0.0.1/stream RTSP/1.0\r\nCSeq: 2\r\nSession: {sid}\r\n\r\n"
    ));
    assert!(hdrs.starts_with("RTSP/1.0 200"), "UDP PLAY: {hdrs}");

    match d.offer(&key_au()) {
        Delivery::Datagrams(packets) => {
            assert_eq!(packets.len(), 3);
            let buf = &packets[0];
            assert!(buf.len() >= 12, "RTP header present");
            assert_eq!(buf[0] >> 6, 0b10, "RTP version 2");
            assert_eq!(buf[1] & 0x7f, 96, "payload type 96");
            assert_ne!(buf[0], 0x24, "no interleaving marker over UDP");
        }
        _ => panic!("datagrams expected"),
    }
}

#[test]
fn test_write_access_unit_streams_interleaved_frames() {
    let mut session = Session {
        id: "session".into(),
        rtp_channel: 0,
        rtcp_channel: 1,
        is_playing: true,
        mount: StreamMount::Main,
        ssrc: 0x1122_3344,
        seq: 7,
        last_ts: 0,
        is_udp: false,
        client_port: None,
    };
    let mut inner = Inner::new();
    let frames = access_unit_to_frames(&key_au(), &mut session, &mut inner, 0);
    // SPS + PPS + IDR → three interleaved packets.
    assert_eq!(frames.len(), 3, "one packet per NALU");
    let packets = interleaved(&frames.concat());
    assert_eq!(packets[0].0, 0);
    assert_eq!(packets[0].1[1] & 0x7f, 96);
    // Numbered from where the session stood, with one clock for the picture.
    for (i, (_, pkt)) in packets.iter().enumerate() {
        assert_eq!(u16::from_be_bytes([pkt[2], pkt[3]]), 7 + i as u16);
        assert_eq!(u32::from_be_bytes([pkt[4], pkt[5], pkt[6], pkt[7]]), 3000);
        assert_eq!(pkt[8..12], [0x11, 0x22, 0x33, 0x44]);
    }
    // The marker is on the last packet alone.
    assert_eq!(packets.iter().map(|p| p.1[1] >> 7).collect::<Vec<_>>(), [0, 0, 1]);
    assert_eq!(session.seq, 10);
    assert_eq!(session.last_ts, 3000);
}

#[test]
fn clocks_of_a_session_rise() {
    let mut d = Dialogue::new(RtspConfig::default());
    d.play();
    let sid = d.conn.session_id.clone().unwrap();
    let mut last = 0;
    for computed in [0, 90_000, 1_000, 93_000] {
        match deliver(&key_au(), computed, &mut d.conn, &mut d.inner) {
            Delivery::Write(_) => {}
            _ => panic!("nothing to write"),
        }
        let now = d.inner.sessions.get(&sid).unwrap().last_ts;
        assert!(now >= last + 3000);
        last = now;
    }
}

#[test]
fn nothing_goes_out_before_a_key_frame() {
    let mut d = Dialogue::new(RtspConfig::default());
    d.play();
    assert!(matches!(d.offer(&p_au()), Delivery::Skip));
    d.write(&key_au(), WriteOutcome::Done);
    assert!(matches!(d.offer(&p_au()), Delivery::Write(_)));
}

#[test]
fn a_dropped_frame_is_made_up_for_by_a_key_frame() {
    let mut d = Dialogue::new(RtspConfig::default());
    d.play();
    d.write(&key_au(), WriteOutcome::Done);
    let (_, close) = d.write(&p_au(), WriteOutcome::TimedOut);
    assert!(!close);
    assert!(matches!(d.offer(&p_au()), Delivery::Skip));
    d.write(&key_au(), WriteOutcome::Done);
    assert!(matches!(d.offer(&p_au()), Delivery::Write(_)));
}

#[test]
fn a_client_that_stalls_five_times_is_given_up() {
    let mut d = Dialogue::new(RtspConfig::default());
    d.play();
    for _ in 0..4 {
        assert!(!d.write(&key_au(), WriteOutcome::TimedOut).1);
    }
    assert!(d.write(&key_au(), WriteOutcome::TimedOut).1);
    let mut d = Dialogue::new(RtspConfig::default());
    d.play();
    assert!(d.write(&key_au(), WriteOutcome::Failed).1);
}

#[test]
fn a_write_that_did_not_happen_takes_no_numbers() {
    let mut d = Dialogue::new(RtspConfig::default());
    d.play();
    let sid = d.conn.session_id.clone().unwrap();
    let before = d.inner.sessions.get(&sid).unwrap().seq;
    d.write(&key_au(), WriteOutcome::TimedOut);
    assert_eq!(d.inner.sessions.get(&sid).unwrap().seq, before);
    d.write(&key_au(), WriteOutcome::Done);
    assert_eq!(d.inner.sessions.get(&sid).unwrap().seq, before.wrapping_add(3));
}

#[test]
fn numbers_go_on_from_unit_to_unit() {
    let mut d = Dialogue::new(RtspConfig::default());
    d.play();
    let sid = d.conn.session_id.clone().unwrap();
    let first = d.inner.sessions.get(&sid).unwrap().seq;
    let mut numbers = Vec::new();
    for (au, outcome) in [
        (key_au(), WriteOutcome::Done),
        (p_au(), WriteOutcome::Done),
        (key_au(), WriteOutcome::TimedOut),
        (key_au(), WriteOutcome::Done),
    ] {
        let (bytes, _) = d.write(&au, outcome);
        if outcome == WriteOutcome::Done {
            for (_, packet) in interleaved(&bytes) {
                numbers.push(u16::from_be_bytes([packet[2], packet[3]]));
            }
        }
    }
    let expected: Vec<u16> = (0..7).map(|k| first.wrapping_add(k)).collect();
    assert_eq!(numbers, expected);
}

#[test]
fn a_session_whose_clock_has_run_out_is_not_served() {
    let mut d = Dialogue::new(RtspConfig::default());
    d.play();
    match deliver(&key_au(), u32::MAX, &mut d.conn, &mut d.inner) {
        Delivery::Write(_) => {}
        _ => panic!("nothing to write"),
    }
    assert!(matches!(d.offer(&key_au()), Delivery::Exhausted));
}

#[test]
fn client_data_and_unfinished_requests_wait() {
    let mut d = Dialogue::new(RtspConfig::default());
    assert_eq!(d.send(&[0x24, 1, 0, 2, 9, 9]), None);
    assert_eq!(d.send(b"OPTIONS * RTSP/1.0\r\nCSeq: 1\r\n"), None);
    // Part of an interleaved frame that is no text.
    let text = d.send(&[0x24, 1, 0, 9, 0xff]).expect("an answer");
    assert_eq!(text, "RTSP/1.0 400 Bad Request\r\nCSeq: 0\r\n\r\n");
}

#[test]
fn transports_are_chosen_from_the_header() {
    assert!(matches!(
        choose_transport("RTP/AVP/TCP;unicast;interleaved=2-3"),
        SetupPlan::Tcp { rtp: 2, rtcp: 3 }
    ));
    assert!(matches!(
        choose_transport("RTP/AVP;unicast;client_port=5000-5001"),
        SetupPlan::Udp { client_port: 5000 }
    ));
    assert!(matches!(
        choose_transport("RTP/AVP;unicast;client_port=65535-65536"),
        SetupPlan::LastPort
    ));
    assert!(matches!(choose_transport("RTP/AVP/TCP"), SetupPlan::Tcp { rtp: 0, rtcp: 1 }));
    assert!(matches!(choose_transport(""), SetupPlan::Udp { client_port: 5000 }));
}

#[test]
fn a_session_is_what_its_setup_said() {
    let mut d = Dialogue::new(RtspConfig::default());
    let req = match classify(b"SETUP rtsp://h/sub RTSP/1.0\r\nCSeq: 7\r\n\r\n") {
        Incoming::Request(req) => req,
        _ => panic!("no request"),
    };
    let key = SessionKey { id: "abc".to_string(), ssrc: 5, seq: 6 };
    let plan = SetupPlan::Tcp { rtp: 4, rtcp: 5 };
    let text = create_session(&req, plan, 0, key, 7, &mut d.conn, &mut d.inner);
    assert_eq!(
        text,
        "RTSP/1.0 200 OK\r\nCSeq: 7\r\nSession: abc\r\n\
         Transport: RTP/AVP/TCP;unicast;interleaved=4-5\r\n\r\n"
    );
    let s = d.inner.sessions.get("abc").unwrap();
    assert_eq!((s.rtp_channel, s.rtcp_channel, s.ssrc, s.seq), (4, 5, 5, 6));
    assert_eq!(s.mount, StreamMount::Sub);
    assert!(!s.is_playing);
}

#[test]
fn digests_are_those_of_md5() {
    assert_eq!(md5_hex(""), "d41d8cd98f00b204e9800998ecf8427e");
    assert_eq!(md5_hex("abc"), "900150983cd24fb0d6963f7d28e17f72");
    let bytes = [0, 1, 2, 3, 4, 5, 6, 7, 8, 9, 10, 11, 12, 13, 14, 255];
    assert_eq!(nonce_from(&bytes), "000102030405060708090a0b0c0d0eff");
    assert_eq!(session_id_from(0x0123_4567_89ab_cdef), "0123456789abcdef");
}

#[test]
fn right_credentials_are_accepted_whatever_they_are() {
    for (user, pass) in [("admin", "secret"), ("a", "b:c"), ("前门", "后院"), ("x", "")] {
        let config = RtspConfig {
            username: user.to_string(),
            password: pass.to_string(),
            ..RtspConfig::default()
        };
        let header = format!("Basic {}", base64_encode(format!("{user}:{pass}").as_bytes()));
        assert!(check_basic_auth(&header, &config), "{user}:{pass}");
    }
}

#[test]
fn streaming_errors_say_what_they_are() {
    assert_eq!(RtspError::Io("x".to_string()).to_string(), "I/O error: x");
    assert_eq!(RtspError::Auth("x".to_string()).to_string(), "auth error: x");
    assert_eq!(RtspError::Protocol("x".to_string()).to_string(), "protocol error: x");
    assert_eq!(RtspError::SessionNotFound("x".to_string()).to_string(), "session not found: x");
}

/// The Authorization header of a client that knows the password.
fn digest_answer(method: &str, uri: &str, nonce: &str, password: &str) -> String {
    let ha1 = md5_hex(&format!("admin:MiBee Eye RTSP:{password}"));
    let ha2 = md5_hex(&format!("{method}:{uri}"));
    let response = md5_hex(&format!("{ha1}:{nonce}:{ha2}"));
    format!(
        "Digest username=\"admin\", realm=\"MiBee Eye RTSP\", nonce=\"{nonce}\", \
         uri=\"{uri}\", response=\"{response}\""
    )
}

fn guarded() -> Dialogue {
    Dialogue::new(RtspConfig {
        port: 0,
        username: "admin".into(),
        password: "secret".into(),
        realm: "MiBee Eye RTSP".into(),
    })
}

fn describe_with(d: &mut Dialogue, header: &str) -> String {
    d.ask(&format!(
        "DESCRIBE rtsp://127.0.0.1/stream RTSP/1.0\r\nCSeq: 7\r\nAuthorization: {header}\r\n\r\n"
    ))
}

#[test]
fn answered_challenges_are_accepted() {
    let uri = "rtsp://127.0.0.1/stream";
    let mut d = guarded();
    let text = d.ask("DESCRIBE rtsp://127.0.0.1/stream RTSP/1.0\r\nCSeq: 1\r\n\r\n");
    assert!(text.starts_with("RTSP/1.0 401"), "{text}");
    let nonce = d.conn.nonce.clone();
    assert_eq!(nonce.len(), 32);
    assert!(text.contains(&format!("nonce=\"{nonce}\"")), "{text}");

    // The wrong password and the wrong method are refused, with a new nonce.
    let text = describe_with(&mut d, &digest_answer("DESCRIBE", uri, &nonce, "wrong"));
    assert!(text.starts_with("RTSP/1.0 401"), "{text}");
    assert_ne!(d.conn.nonce, nonce);
    let nonce = d.conn.nonce.clone();
    let text = describe_with(&mut d, &digest_answer("PLAY", uri, &nonce, "secret"));
    assert!(text.starts_with("RTSP/1.0 401"), "{text}");

    // An answer to an earlier challenge is refused.
    let text = describe_with(&mut d, &digest_answer("DESCRIBE", uri, &nonce, "secret"));
    assert!(text.starts_with("RTSP/1.0 401"), "{text}");

    let nonce = d.conn.nonce.clone();
    let text = describe_with(&mut d, &digest_answer("DESCRIBE", uri, &nonce, "secret"));
    assert!(text.starts_with("RTSP/1.0 200"), "{text}");
    assert!(d.conn.has_auth);
    assert_eq!(d.conn.nonce, nonce);
}

#[test]
fn answers_to_no_challenge_are_refused() {
    let mut d = guarded();
    // Before the first challenge, and after it.
    for uri in ["/stream", "rtsp://127.0.0.1/stream", "/stream"] {
        let header = digest_answer("DESCRIBE", uri, "", "secret");
        let text = describe_with(&mut d, &header);
        assert!(text.starts_with("RTSP/1.0 401"), "{text}");
        assert!(!d.conn.has_auth);
    }
    // The path of the address can be answered for as well.
    let header = digest_answer("DESCRIBE", "/stream", &d.conn.nonce.clone(), "secret");
    let text = describe_with(&mut d, &header);
    assert!(text.starts_with("RTSP/1.0 200"), "{text}");
}

#[test]
fn hosts_and_queries_are_no_path_segments() {
    assert_eq!(StreamMount::from_url("rtsp://sub/stream"), StreamMount::Main);
    assert_eq!(StreamMount::from_url("rtsp://sub"), StreamMount::Main);
    assert_eq!(StreamMount::from_url("rtsp://host?next=/sub"), StreamMount::Main);
    assert_eq!(StreamMount::from_url("rtsp://sub/sub"), StreamMount::Sub);
    assert_eq!(StreamMount::from_url("/stream/sub"), StreamMount::Sub);
}
