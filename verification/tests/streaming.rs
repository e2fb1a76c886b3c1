//! RTSP streaming.

use mibee_eye::h264::Nalu;
use mibee_eye::streaming::request::StreamMount::{Main, Sub};
use mibee_eye::streaming::base64::{base64_encode, decode_base64};
use mibee_eye::streaming::request::{
    parse_client_port, parse_digest_params, parse_rtsp_request, parse_transport_interleaved,
    StreamMount,
};
use mibee_eye::streaming::rtp::{
    build_interleaved_rtp, build_rtp_header, packetize_nalu, RTP_MTU,
};

#[test]
fn test_stream_mount_from_url() {
    assert_eq!(StreamMount::from_url("rtsp://host:8554/stream"), Main);
    assert_eq!(StreamMount::from_url("rtsp://host:8554/"), Main);
    assert_eq!(StreamMount::from_url("rtsp://host:8554"), Main);
    assert_eq!(StreamMount::from_url("rtsp://host:8554/sub"), Sub);
    assert_eq!(StreamMount::from_url("rtsp://host:8554/sub/"), Sub);
    assert_eq!(StreamMount::from_url("rtsp://host:8554/SUB"), Sub);
    assert_eq!(
        StreamMount::from_url("rtsp://host:8554/sub?pkt_size=1316"),
        Sub
    );
    // Not an exact path segment — stays on the main mount.
    assert_eq!(StreamMount::from_url("rtsp://host:8554/substream"), Main);
    assert_eq!(StreamMount::from_url("rtsp://host:8554/stream/sub?x"), Sub);
    assert_eq!(StreamMount::from_url(""), Main);
}

#[test]
fn test_rtp_header_format() {
    let header = build_rtp_header(false, 1234, 3600, 0xDEAD_BEEF);

    assert_eq!(header[0], 0x80, "V=2, P=0, X=0, CC=0");
    assert_eq!(header[1], 96, "M=0, PT=96");
    assert_eq!(header[2], 0x04, "seq=1234 → high byte 0x04");
    assert_eq!(header[3], 0xD2, "seq=1234 → low byte 0xD2");
    assert_eq!(header[7], 0x10, "timestamp=3600 → low byte 0x10");
    assert_eq!(header[8], 0xDE, "SSRC byte 3");
    assert_eq!(header[9], 0xAD, "SSRC byte 2");
    assert_eq!(header[10], 0xBE, "SSRC byte 1");
    assert_eq!(header[11], 0xEF, "SSRC byte 0");
}

#[test]
fn test_rtp_header_marker() {
    let with_marker = build_rtp_header(true, 0, 0, 0);
    let without_marker = build_rtp_header(false, 0, 0, 0);

    assert_eq!(with_marker[1], 0x80 | 96, "Marker bit should be set");
    assert_eq!(without_marker[1], 96, "Marker bit should be clear");
}

#[test]
fn test_rtp_packetization_single_nalu() {
    let nalu = Nalu {
        nalu_type: 5,
        data: vec![0x65, 0x88, 0x84, 0x00, 0x10],
        is_idr: true,
        is_sps: false,
        is_pps: false,
        is_aud: false,
    };

    let packets = packetize_nalu(&nalu, RTP_MTU);

    assert_eq!(packets.len(), 1, "Small NALU should produce 1 packet");
    assert_eq!(
        packets[0],
        vec![0x65, 0x88, 0x84, 0x00, 0x10],
        "Single NALU payload should be raw NALU data"
    );
}

#[test]
fn test_rtp_packetization_empty_nalu() {
    let nalu = Nalu {
        nalu_type: 0,
        data: vec![],
        is_idr: false,
        is_sps: false,
        is_pps: false,
        is_aud: false,
    };

    let packets = packetize_nalu(&nalu, RTP_MTU);
    assert!(packets.is_empty(), "Empty NALU should produce no packets");
}

#[test]
fn test_rtp_fu_a_fragmentation() {
    // A large NALU that exceeds MTU.
    let mut data = vec![0xAB; RTP_MTU + 100];
    data.insert(0, 0x65); // IDR type 5

    let nalu = Nalu {
        nalu_type: 5,
        data,
        is_idr: true,
        is_sps: false,
        is_pps: false,
        is_aud: false,
    };

    let packets = packetize_nalu(&nalu, RTP_MTU);

    assert!(
        packets.len() > 1,
        "Large NALU should produce multiple FU-A fragments"
    );

    // First packet: FU-A start.
    assert_eq!(
        packets[0][0] & 0x1F,
        28,
        "FU-A indicator should have type=28"
    );
    assert_eq!(
        packets[0][1] & 0x80,
        0x80,
        "First FU-A header should have S=1"
    );
    assert_eq!(packets[0][1] & 0x40, 0, "First FU-A header should have E=0");

    // Last packet: FU-A end.
    let last = packets.last().unwrap();
    assert_eq!(last[1] & 0x40, 0x40, "Last FU-A header should have E=1");
    assert_eq!(last[1] & 0x80, 0, "Last FU-A header should have S=0");

    // Middle packets (if any): FU-A continuation.
    for p in &packets[1..packets.len() - 1] {
        assert_eq!(p[1] & 0xC0, 0, "Middle FU-A header should have S=0, E=0");
    }
}

#[test]
fn test_rtp_fu_a_reconstructs_original_type() {
    let mut data = vec![0xCD; RTP_MTU + 50];
    data.insert(0, 0x41); // non-IDR slice, type=1

    let nalu = Nalu {
        nalu_type: 1,
        data,
        is_idr: false,
        is_sps: false,
        is_pps: false,
        is_aud: false,
    };

    let packets = packetize_nalu(&nalu, RTP_MTU);

    for pkt in &packets {
        // FU header type should be the original NAL type (1).
        assert_eq!(
            pkt[1] & 0x1F,
            1,
            "FU header should preserve original NAL type"
        );
        // FU indicator should preserve NRI bits.
        assert_eq!(pkt[0] & 0x60, 0x40, "FU indicator should preserve NRI bits");
    }
}

#[test]
fn test_interleaved_format() {
    let rtp_data = [
        0x80u8, 0x60, 0x00, 0x01, 0x00, 0x00, 0x00, 0x01, 0x00, 0x00, 0x00, 0x01,
    ];
    let frame = build_interleaved_rtp(0, &rtp_data);

    assert_eq!(frame[0], 0x24, "Should start with $ magic byte");
    assert_eq!(frame[1], 0, "Channel should be 0");
    assert_eq!(
        (frame[2] as usize) << 8 | (frame[3] as usize),
        rtp_data.len(),
        "Length should match RTP packet size"
    );
    assert_eq!(&frame[4..], &rtp_data[..], "Payload should match RTP data");
}

#[test]
fn test_parse_digest_params() {
    let header = r#"Digest username="admin", realm="Test Realm", nonce="abc123", uri="/stream", response="deadbeef""#;
    let params = parse_digest_params(header);

    assert_eq!(params.get("username").map(|s| s.as_str()), Some("admin"));
    assert_eq!(params.get("realm").map(|s| s.as_str()), Some("Test Realm"));
    assert_eq!(params.get("nonce").map(|s| s.as_str()), Some("abc123"));
    assert_eq!(params.get("uri").map(|s| s.as_str()), Some("/stream"));
    assert_eq!(params.get("response").map(|s| s.as_str()), Some("deadbeef"));
}

#[test]
fn test_parse_transport_interleaved() {
    let (rtp, rtcp) = parse_transport_interleaved("RTP/AVP/TCP;unicast;interleaved=0-1");
    assert_eq!(rtp, 0);
    assert_eq!(rtcp, 1);
}

#[test]
fn test_parse_transport_interleaved_custom() {
    let (rtp, rtcp) = parse_transport_interleaved("RTP/AVP/TCP;unicast;interleaved=2-3");
    assert_eq!(rtp, 2);
    assert_eq!(rtcp, 3);
}

#[test]
fn test_parse_transport_interleaved_default() {
    let (rtp, rtcp) = parse_transport_interleaved("RTP/AVP/TCP;unicast");
    assert_eq!(rtp, 0, "Default RTP channel should be 0");
    assert_eq!(rtcp, 1, "Default RTCP channel should be 1");
}

#[test]
fn test_base64_roundtrip() {
    let original = b"admin:secret";
    let encoded = base64_encode(original);
    let decoded = decode_base64(&encoded).unwrap();
    assert_eq!(decoded, original, "Base64 roundtrip should preserve data");
}

#[test]
fn test_base64_encode_sprop() {
    let sps = vec![0x67, 0x42, 0x00, 0x1e];
    let encoded = base64_encode(&sps);
    assert!(!encoded.is_empty(), "Base64 output should not be empty");
    // Verify it decodes correctly.
    let decoded = decode_base64(&encoded).unwrap();
    assert_eq!(decoded, sps);
}

#[test]
fn test_parse_rtsp_request_describe() {
    let data = "DESCRIBE rtsp://localhost:8554/stream RTSP/1.0\r\nCSeq: 2\r\n\r\n";
    let req = parse_rtsp_request(data).unwrap();
    assert_eq!(req.method, "DESCRIBE");
    assert_eq!(req.url, "/stream");
    assert_eq!(req.cseq, 2);
}

#[test]
fn test_parse_rtsp_request_options() {
    let data = "OPTIONS * RTSP/1.0\r\nCSeq: 1\r\n\r\n";
    let req = parse_rtsp_request(data).unwrap();
    assert_eq!(req.method, "OPTIONS");
    assert_eq!(req.cseq, 1);
}

#[test]
fn test_parse_rtsp_request_setup() {
    let data = "SETUP rtsp://localhost:8554/stream/streamid=0 RTSP/1.0\r\n\
                 CSeq: 3\r\n\
                 Transport: RTP/AVP/TCP;unicast;interleaved=0-1\r\n\
                 \r\n";
    let req = parse_rtsp_request(data).unwrap();
    assert_eq!(req.method, "SETUP");
    assert_eq!(req.url, "/stream/streamid=0");
    assert_eq!(req.cseq, 3);
    assert_eq!(
        req.headers.get("Transport").map(|s| s.as_str()),
        Some("RTP/AVP/TCP;unicast;interleaved=0-1")
    );
}
