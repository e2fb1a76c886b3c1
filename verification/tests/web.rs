//! The browser stream, pictures, and what the interface answers.

use mibee_eye::config::number::Real;
use mibee_eye::config::types::{default_ai_model_path, Config, Position};
use mibee_eye::h264::{AccessUnit, Nalu};
use mibee_eye::web::api::{
    alarm_event, camera_get, cameras_list, capabilities_doc, check_config, config_applied_doc,
    config_reset_doc, decide_put, detection_event, detections_doc, error_code, finish_put,
    health_doc, is_persistent, model_name, not_a_config, ptz_move, ptz_status, recording_event, recording_set,
    recording_set_doc, recording_status, restart_doc, save_error, status_doc, PtzMoveRequest,
    PtzStatus, RecordingRequest, Reply, Running, SaveError,
};
use mibee_eye::web::json::{
    array, ask_document, mask_passwords, merge_json, number, object, string, Json,
};
use mibee_eye::web::models::{
    activated_doc, add_chunk, check_delete, check_upload, finish_delete, finish_form,
    loader_failed, map_activate_error, model_changed_event, model_file_name, model_rejected,
    models_doc, plan_activation, set_active_model, upload_failed, upload_field, upload_temp_name,
    uploaded_reply, uploaded_spec, ActivateError, Family, Listed, ModelSpec, UploadField,
    UploadLimits, UploadStep,
};
use mibee_eye::web::server::{
    content_length, is_traced, onvif_request, relay_fault, relay_reply, soap_body, startup,
    RelayStep, Startup, Traffic,
};
use mibee_eye::web::snapshot::{
    can_sample, can_sample_half, check_live, check_snapshot, live_part, live_picture,
    snapshot_picture, yuv420_samples, yuv420_samples_half, Picture,
};
use mibee_eye::web::upload::{begin_upload, upload_step, UploadAction, UploadEvent};
use mibee_eye::web::video_stream::{
    check_stream, check_sub_stream, extract_sps_pps, MseClock, MseStream, MseTimeline, RealignGate,
};

fn nalu(nalu_type: u8, data: Vec<u8>) -> Nalu {
    Nalu {
        nalu_type,
        is_idr: nalu_type == 5,
        is_sps: nalu_type == 7,
        is_pps: nalu_type == 8,
        is_aud: nalu_type == 9,
        data,
    }
}

fn au(key: bool) -> AccessUnit {
    let nalus = if key {
        vec![
            nalu(7, vec![0x67, 0x42, 0x00, 0x1e]),
            nalu(8, vec![0x68, 0xce, 0x38, 0x80]),
            nalu(5, vec![0x65, 0x88, 0x84, 0x00]),
        ]
    } else {
        vec![nalu(1, vec![0x41, 0x9a, 0x02])]
    };
    AccessUnit { nalus, is_key_frame: key }
}

const MS: u64 = 1_000_000;

#[test]
fn test_realign_gate_no_loss_passes_all() {
    let mut g = RealignGate::new(0);
    assert!(g.allow(true, 0, 0));
    assert!(g.allow(false, 0, 0));
    assert!(g.allow(false, 0, 0));
}

#[test]
fn test_realign_gate_hub_drop_blocks_until_key() {
    let mut g = RealignGate::new(2);
    assert!(g.allow(true, 0, 2), "no loss yet");
    assert!(!g.allow(false, 0, 3), "drop detected: non-key blocked");
    assert!(!g.allow(false, 0, 3), "stays blocked");
    assert!(g.allow(true, 0, 3), "key realigns");
    assert!(g.allow(false, 0, 3), "normal flow resumes");
}

#[test]
fn test_realign_gate_skipped_drain() {
    let mut g = RealignGate::new(0);
    // Drain landing on a key frame is a clean jump.
    assert!(g.allow(true, 3, 0));
    // Drain landing on a non-key frame leaves a hole.
    assert!(!g.allow(false, 2, 0), "skipped backlog on non-key blocked");
    assert!(!g.allow(false, 0, 0), "stays blocked until key");
    assert!(g.allow(true, 0, 0), "key realigns");
    assert!(g.allow(false, 0, 0));
}

#[test]
fn test_realign_gate_second_drop_while_waiting() {
    let mut g = RealignGate::new(0);
    assert!(!g.allow(false, 0, 1));
    assert!(!g.allow(false, 0, 2), "second drop keeps it shut");
    assert!(g.allow(true, 0, 2));
}

/// The timeline is handed from one connection to the next, so a client that
/// fetches again goes on where it was.
#[test]
fn test_mse_timeline_handoff_across_connections() {
    let mut clock = MseClock::new();
    let mut c1 = MseTimeline::new(&mut clock);
    let mut last = 0;
    for i in 0..5 {
        let (ts, _) = c1.next(i * 66 * MS, &mut clock);
        if i > 0 {
            assert!(ts > last, "connection 1 timestamps must increase");
        }
        last = ts;
    }
    let mut c2 = MseTimeline::new(&mut clock);
    let (first2, _) = c2.next(10_000 * MS, &mut clock);
    assert!(
        first2 > last,
        "second connection must seed past first's last timestamp: {first2} <= {last}"
    );
}

#[test]
fn test_mse_timeline_clamps_stall() {
    let mut clock = MseClock::new();
    let mut tl = MseTimeline::new(&mut clock);
    tl.next(0, &mut clock);
    let (_, d) = tl.next(5_000 * MS, &mut clock);
    assert_eq!(d, 18_000, "long stall must clamp to 200ms of media time");
    let (_, d) = tl.next(5_066 * MS, &mut clock);
    assert!(d >= 90, "normal frame duration must be ≥90 ticks");
    assert_eq!(d, 5_940);
    let (_, d) = tl.next(5_066 * MS, &mut clock);
    assert_eq!(d, 90, "at least a millisecond");
}

#[test]
fn test_stream_mse_timeline_continues_across_connections() {
    let mut clock = MseClock::new();
    let mut rounds: Vec<(u64, u64)> = Vec::new();
    for round in 0..2 {
        let mut s = MseStream::new(&mut clock);
        let mut stamps = Vec::new();
        for (i, key) in [true, false, false].into_iter().enumerate() {
            let now = (round * 1000 + i as u64 * 80) * MS;
            let segment = s.take_unit(&au(key), now, &mut clock).expect("a segment");
            stamps.push(segment.timestamp);
        }
        assert!(stamps[0] < stamps[1] && stamps[1] < stamps[2]);
        rounds.push((stamps[0], stamps[2]));
    }
    assert!(rounds[1].0 > rounds[0].1);
}

#[test]
fn test_stream_mse_yields_init_then_media_segments() {
    let mut clock = MseClock::new();
    let mut s = MseStream::new(&mut clock);
    // Non-key frame first: swallowed until a key frame initializes.
    assert!(s.take_unit(&au(false), 0, &mut clock).is_none());
    let first = s.take_unit(&au(true), 0, &mut clock).expect("a segment");
    assert_eq!(
        first.init,
        Some((vec![0x67, 0x42, 0x00, 0x1e], vec![0x68, 0xce, 0x38, 0x80]))
    );
    assert_eq!(first.sequence, 0);
    assert_eq!(first.duration, 6_000);
    let second = s.take_unit(&au(false), 100 * MS, &mut clock).expect("a segment");
    assert_eq!(second.init, None);
    assert_eq!(second.sequence, 1);
    assert_eq!(second.timestamp, first.timestamp + 9_000);
}

#[test]
fn a_key_frame_without_parameter_sets_starts_nothing() {
    let mut clock = MseClock::new();
    let mut s = MseStream::new(&mut clock);
    let bare = AccessUnit { nalus: vec![nalu(5, vec![0x65])], is_key_frame: true };
    assert!(s.take_unit(&bare, 0, &mut clock).is_none());
    assert_eq!(extract_sps_pps(&bare), (None, None));
    let (sps, pps) = extract_sps_pps(&au(true));
    assert_eq!(sps, Some(vec![0x67, 0x42, 0x00, 0x1e]));
    assert_eq!(pps, Some(vec![0x68, 0xce, 0x38, 0x80]));
}

#[test]
fn test_stream_mse_unknown_camera_is_404() {
    assert_eq!(check_stream("9", true), Some((404, "no such camera")));
}

#[test]
fn test_stream_sub_mse_404_when_not_enabled() {
    assert_eq!(check_sub_stream("0", false), Some((404, "substream not enabled")));
    assert_eq!(check_sub_stream("9", true), Some((404, "no such camera")));
}

#[test]
fn test_stream_sub_mse_serves_sub_hub_frames() {
    assert_eq!(check_sub_stream("0", true), None);
}

#[test]
fn test_stream_mse_without_hub_is_503() {
    assert_eq!(check_stream("0", false), Some((503, "streaming not available")));
    assert_eq!(check_stream("0", true), None);
}

// Pictures

#[test]
fn test_snapshot_returns_jpeg() {
    // 4x2 YUV420 planar: 8 Y + 2 U + 2 V.
    let yuv = vec![128u8; 12];
    assert_eq!(check_snapshot("0", true, true), None);
    assert!(can_sample(yuv.len(), 4, 2));
    let rgb: Vec<u8> = yuv420_samples(&yuv, 4, 2).iter().flat_map(|s| [s.0; 3]).collect();
    match snapshot_picture(rgb, 4, 2) {
        Picture::Jpeg(body) => {
            assert!(body.len() > 2, "JPEG body too short");
            assert_eq!(body[0], 0xFF, "missing JPEG SOI marker byte 0");
            assert_eq!(body[1], 0xD8, "missing JPEG SOI marker byte 1");
        }
        Picture::Failed(status, text) => panic!("{status} {text}"),
    }
}

#[test]
fn test_snapshot_wrong_camera_is_404() {
    assert_eq!(check_snapshot("5", true, true), Some((404, "no such camera")));
    assert_eq!(check_snapshot("0", false, true), Some((503, "camera not available")));
    assert_eq!(check_snapshot("0", true, false), Some((503, "no frame")));
    assert_eq!(check_live("5", true), Some((404, "no such camera")));
    assert_eq!(check_live("0", false), Some((503, "camera not available")));
    assert_eq!(check_live("0", true), None);
}

#[test]
fn pictures_that_cannot_be_made_are_refused() {
    assert!(matches!(snapshot_picture(vec![0; 11], 2, 2), Picture::Failed(500, "image error")));
    assert!(matches!(snapshot_picture(vec![], 0, 2), Picture::Failed(500, "jpeg error")));
    assert!(live_picture(vec![0; 11], 2, 2).is_none());
    assert!(live_picture(vec![], 0, 0).is_none());
}

#[test]
fn qualities_and_pixels_make_different_pictures() {
    let pixels: Vec<u8> = (0..16 * 16 * 3).map(|i| (i * 7 % 251) as u8).collect();
    let live = live_picture(pixels.clone(), 16, 16).unwrap();
    match snapshot_picture(pixels.clone(), 16, 16) {
        Picture::Jpeg(still) => assert_ne!(still, live),
        _ => panic!("no picture"),
    }
    assert_eq!(live_picture(pixels, 16, 16).unwrap(), live);
    assert_ne!(live_picture(vec![0; 768], 16, 16).unwrap(), live);
}

#[test]
fn samples_are_taken_pixel_by_pixel() {
    let yuv = vec![1, 2, 3, 4, 5, 6, 7, 8, 10, 11, 20, 21];
    assert_eq!(
        yuv420_samples(&yuv, 4, 2),
        [
            (1, 10, 20),
            (2, 10, 20),
            (3, 11, 21),
            (4, 11, 21),
            (5, 10, 20),
            (6, 10, 20),
            (7, 11, 21),
            (8, 11, 21),
        ]
    );
    assert!(can_sample_half(12, 4, 2));
    assert_eq!(yuv420_samples_half(&yuv, 4, 2), [(1, 10, 20), (3, 11, 21)]);
    assert!(!can_sample(11, 4, 2));
}

#[test]
fn test_live_returns_mjpeg() {
    let part = live_part(&vec![1, 2, 3]);
    assert_eq!(
        part,
        b"--frame\r\nContent-Type: image/jpeg\r\nContent-Length: 3\r\n\r\n\r\n\x01\x02\x03\r\n"
    );
}

// Documents

/// What a document has at a path.
fn at<'a>(j: &'a Json, path: &str) -> &'a Json {
    let mut j = j;
    for name in path.split('.') {
        j = match j {
            Json::Obj(fields) => {
                &fields.iter().find(|f| f.0 == name).unwrap_or_else(|| panic!("no {name}")).1
            }
            Json::Arr(items) => &items[name.parse::<usize>().unwrap()],
            _ => panic!("nothing under {name}"),
        };
    }
    j
}

fn is_str(j: &Json, path: &str, text: &str) -> bool {
    matches!(at(j, path), Json::Str(t) if t == text)
}

fn is_num(j: &Json, path: &str, text: &str) -> bool {
    matches!(at(j, path), Json::Num(t) if t == text)
}

fn is_bool(j: &Json, path: &str, b: bool) -> bool {
    matches!(at(j, path), Json::Bool(x) if *x == b)
}

fn items(j: &Json, path: &str) -> Vec<String> {
    match at(j, path) {
        Json::Arr(v) => v
            .iter()
            .map(|i| match i {
                Json::Str(t) => t.clone(),
                _ => panic!("not a text"),
            })
            .collect(),
        _ => panic!("not an array"),
    }
}

fn is_error(r: &Reply, status: u16, code: &str, message: &str) -> bool {
    r.status == status
        && is_bool(&r.body, "ok", false)
        && is_str(&r.body, "error", code)
        && is_str(&r.body, "message", message)
}

const OFF: Running = Running { ai_module: false, ai_loader: false, latest_yuv: false, au_hub: false };

const ON: Running = Running { ai_module: true, ai_loader: true, latest_yuv: true, au_hub: true };

#[test]
fn statuses_have_their_words() {
    let words: Vec<&str> =
        [400, 401, 403, 404, 409, 429, 501, 503, 500, 413].into_iter().map(error_code).collect();
    assert_eq!(
        words,
        [
            "bad_request",
            "unauthorized",
            "forbidden",
            "not_found",
            "conflict",
            "rate_limited",
            "not_implemented",
            "setup_required",
            "internal_error",
            "internal_error",
        ]
    );
}

#[test]
fn test_status_reports_spec_core_fields() {
    let mut cfg = Config::default();
    cfg.camera.rotation = 90;
    let j = status_doc(&cfg, "1.2.3", 77);
    assert!(is_bool(&j, "ok", true));
    assert!(is_str(&j, "data.device_name", "Pi Camera V1"));
    assert!(is_str(&j, "data.model", "OV5647"));
    assert!(is_str(&j, "data.vendor", "Raspberry Pi"));
    assert!(is_str(&j, "data.firmware", "1.2.3"));
    assert!(is_str(&j, "data.resolution", "720x1280"));
    assert!(is_num(&j, "data.fps", "15"));
    assert!(is_num(&j, "data.bitrate_bps", "2000000"));
    assert!(is_num(&j, "data.uptime", "77"));
    assert!(is_bool(&j, "data.recording", false));
    assert!(is_bool(&j, "data.gb28181", false));
}

#[test]
fn test_capabilities_superset_shape() {
    let j = capabilities_doc(&Config::default(), OFF);
    assert!(is_str(&j, "data.spec_version", "1"));
    assert!(is_str(&j, "data.auth.model", "session"));
    assert!(is_bool(&j, "data.multi_camera", false));
    assert!(is_bool(&j, "data.imaging", false));
    assert!(is_bool(&j, "data.ptz", true));
    assert!(is_bool(&j, "data.mse", false), "nothing runs");
    assert!(is_bool(&j, "data.mjpeg", false));
    assert_eq!(items(&j, "data.events"), ["ai_detection", "recording"]);
    let j = capabilities_doc(&Config::default(), ON);
    assert!(is_bool(&j, "data.mse", true));
    assert!(is_bool(&j, "data.mjpeg", true));
}

#[test]
fn test_capabilities_announce_ai_models_and_event() {
    let mut cfg = Config::default();
    let j = capabilities_doc(&cfg, ON);
    assert!(is_bool(&j, "data.ai_models", true));
    assert!(items(&j, "data.events").contains(&"ai_model_changed".to_string()));
    assert!(!items(&j, "data.events").contains(&"alarm".to_string()));

    // Flipping the AI switch on (GB28181 still off) must announce it.
    cfg.features.ai.enabled = true;
    let j = capabilities_doc(&cfg, ON);
    assert!(items(&j, "data.events").contains(&"alarm".to_string()));

    // Without hot-swap wiring the capability stays off.
    let j = capabilities_doc(&Config::default(), OFF);
    assert!(is_bool(&j, "data.ai_models", false));
    assert!(!items(&j, "data.events").contains(&"ai_model_changed".to_string()));
    assert!(!items(&j, "data.events").contains(&"alarm".to_string()));
}

#[test]
fn uploads_are_announced_where_they_are_allowed() {
    let mut cfg = Config::default();
    cfg.features.ai.allow_upload = true;
    assert!(is_bool(&capabilities_doc(&cfg, ON), "data.ai_upload", true));
    assert!(is_bool(&capabilities_doc(&cfg, OFF), "data.ai_upload", false));
    cfg.features.ai.allow_upload = false;
    assert!(is_bool(&capabilities_doc(&cfg, ON), "data.ai_upload", false));
}

#[test]
fn test_capabilities_announce_watermark() {
    let j = capabilities_doc(&Config::default(), OFF);
    assert!(is_bool(&j, "data.watermark", true));
    assert!(is_str(&j, "data.config_apply.sections.watermark", "restart"));
}

#[test]
fn test_capabilities_advertise_restart() {
    assert!(is_bool(&capabilities_doc(&Config::default(), OFF), "data.restart", true));
}

#[test]
fn test_system_restart_fires_action_and_responds() {
    assert!(is_str(&restart_doc(), "data.status", "restarting"));
}

#[test]
fn test_cameras_list_is_single_element() {
    let j = cameras_list(&Config::default(), OFF);
    match at(&j, "data") {
        Json::Arr(v) => assert_eq!(v.len(), 1),
        _ => panic!("not a list"),
    }
    assert!(is_str(&j, "data.0.id", "0"));
    assert!(is_str(&j, "data.0.resolution", "1280x720"));
    assert!(is_str(&j, "data.0.status", "offline"));
    assert!(is_str(&cameras_list(&Config::default(), ON), "data.0.status", "online"));
}

#[test]
fn test_camera_get_wrong_id_is_404() {
    let r = camera_get("9", &Config::default(), OFF);
    assert!(is_error(&r, 404, "not_found", "no such camera"));
    let r = camera_get("0", &Config::default(), OFF);
    assert_eq!(r.status, 200);
    assert!(is_str(&r.body, "data.camera_type", "csi"));
}

#[test]
fn test_recording_flow() {
    let mut cfg = Config::default();
    let r = recording_status("0", &cfg);
    assert!(is_bool(&r.body, "data.active", false));
    assert!(recording_set("0", RecordingRequest { active: true }, &mut cfg).is_none());
    assert!(is_bool(&recording_set_doc(true), "data.active", true));
    assert!(is_str(&recording_set_doc(true), "data.applies_at", "restart"));
    let r = recording_status("0", &cfg);
    assert!(is_bool(&r.body, "data.active", true));
    assert!(is_num(&r.body, "data.segment_secs", "600"));

    let r = recording_set("1", RecordingRequest { active: false }, &mut cfg).unwrap();
    assert!(is_error(&r, 404, "not_found", "no such camera"));
    assert!(cfg.recording.enabled, "unchanged");
    assert!(is_error(&recording_status("1", &cfg), 404, "not_found", "no such camera"));
}

#[test]
fn events_say_what_happened() {
    let j = recording_event(true);
    assert!(is_str(&j, "camera_id", "0") && is_bool(&j, "active", true));
    let j = alarm_event(3, 1234);
    assert!(is_str(&j, "source", "ai") && is_num(&j, "targets", "3"));
    assert!(is_num(&j, "timestamp", "1234"));
    let j = detection_event(array(), 9);
    assert!(matches!(at(&j, "detections"), Json::Arr(v) if v.is_empty()));
    assert!(is_num(&j, "frame_number", "9"));
}

#[test]
fn test_health_check_body() {
    let j = health_doc(5);
    assert!(is_bool(&j, "ok", true));
    assert!(is_str(&j, "data.status", "ok"));
    assert!(is_num(&j, "data.uptime", "5"));
}

// Configuration

#[test]
fn test_put_config_partial_merge_preserves_absent_sections() {
    let current = object()
        .field("web", object().field("password", string("pw-test-123")))
        .field("gb28181", object().field("enabled", Json::Bool(false)).field(
            "platform_sip_address",
            string("192.168.1.1"),
        ));
    let patch = object()
        .field("gb28181", object().field("platform_sip_address", string("192.168.1.41")));
    let merged = ask_document(current, patch);
    assert!(is_str(&merged, "web.password", "pw-test-123"));
    assert!(is_str(&merged, "gb28181.platform_sip_address", "192.168.1.41"));
    assert!(is_bool(&merged, "gb28181.enabled", false));
}

#[test]
fn merging_replaces_what_is_no_object() {
    let merged = merge_json(object().field("a", array().item(number(1))), object().field(
        "a",
        array().item(number(2)),
    ));
    assert!(is_num(&merged, "a.0", "2"));
    let merged = merge_json(number(1), object().field("b", Json::Null));
    assert!(matches!(at(&merged, "b"), Json::Null));
    let merged = merge_json(object().field("c", object()), object().field("c", number(3)));
    assert!(is_num(&merged, "c", "3"));
    let merged = merge_json(object().field("d", number(4)), object());
    assert!(is_num(&merged, "d", "4"));
}

#[test]
fn test_put_config_valid() {
    let mut cfg = Config::default();
    cfg.camera.device = "/dev/video1".to_string();
    cfg.camera.width = 640;
    cfg.camera.height = 480;
    cfg.camera.fps = 15;
    cfg.camera.codec = "h264".to_string();
    cfg.camera.bitrate = 1_000_000;
    assert!(check_config(&cfg).is_none());
    assert!(is_str(&config_applied_doc(), "data.applied", "restart"));
}

#[test]
fn changes_are_stored_once_they_are_valid_and_saved() {
    let stored = || Config::default();
    let asked = || {
        let mut cfg = Config::default();
        cfg.camera.fps = 20;
        cfg
    };
    let (decided, refusal) = decide_put(stored(), Ok(asked()));
    assert!(refusal.is_none());
    assert_eq!(decided.camera.fps, 20);
    let (config, r) = finish_put(stored(), decided, Ok(()));
    assert_eq!(config.camera.fps, 20);
    assert_eq!(r.status, 200);
    assert!(is_str(&r.body, "data.applied", "restart"));

    // A fault, no configuration at all, a file that cannot be written: what is
    // stored stays.
    let before = stored().camera.fps;
    assert_ne!(before, 20);
    let mut bad = asked();
    bad.camera.width = 0;
    let (config, refusal) = decide_put(stored(), Ok(bad));
    assert_eq!(refusal.unwrap().status, 400);
    assert_eq!(config.camera.fps, before);
    let (config, refusal) = decide_put(stored(), Err("not a map".to_string()));
    assert!(is_error(&refusal.unwrap(), 400, "bad_request", "invalid config: not a map"));
    assert_eq!(config.camera.fps, before);
    let full = Err(SaveError::Write("full".to_string()));
    let (config, r) = finish_put(stored(), asked(), full);
    assert!(is_error(&r, 500, "internal_error", "Failed to write config: full"));
    assert_eq!(config.camera.fps, before);
}

/// A configuration as a document.
fn stored_document() -> Json {
    object()
        .field("web", object().field("username", string("admin")).field(
            "password",
            string("pw-test-123"),
        ))
        .field("onvif", object().field("password", string("")).field("port", number(8080)))
}

#[test]
fn test_config_masks_passwords_and_roundtrips() {
    let masked = mask_passwords(stored_document());
    assert!(is_str(&masked, "web.password", "****"), "set password must be masked");
    assert!(is_str(&masked, "web.username", "admin"));
    assert!(is_str(&masked, "onvif.password", ""));

    // The masked document sent back: the masked secret is restored, not
    // overwritten.
    let asked = ask_document(stored_document(), masked);
    assert!(is_str(&asked, "web.password", "pw-test-123"), "stored secret survived");
    assert_eq!(format!("{asked:?}"), format!("{:?}", stored_document()));
}

#[test]
fn new_passwords_replace_stored_ones() {
    let patch = object().field("web", object().field("password", string("new")));
    let asked = ask_document(stored_document(), patch);
    assert!(is_str(&asked, "web.password", "new"));
    assert!(is_str(&asked, "web.username", "admin"));
    assert!(is_num(&asked, "onvif.port", "8080"));
    // Nothing is stored to restore, and a user name is no password.
    let patch = object().field("web", object().field("username", string("****"))).field(
        "rtsp",
        object().field("password", string("****")),
    );
    let asked = ask_document(stored_document(), patch);
    assert!(is_str(&asked, "web.username", "****"));
    assert!(is_str(&asked, "rtsp.password", "****"));
    assert!(is_str(&asked, "web.password", "pw-test-123"));
}

#[test]
fn documents_sent_back_change_nothing() {
    let document = || {
        object()
            .field("a", array().item(number(1)))
            .field("b", object().field("c", string("x")).field("d", Json::Null))
    };
    let merged = merge_json(document(), document());
    assert_eq!(format!("{merged:?}"), format!("{:?}", document()));
}

#[test]
fn test_put_config_invalid_returns_400() {
    let mut cfg = Config::default();
    cfg.camera.fps = 0;
    let r = check_config(&cfg).unwrap();
    assert!(is_error(&r, 400, "bad_request", "Validation error: camera.fps must be positive"));
}

#[test]
fn test_put_config_watermark_invalid_is_400() {
    let mut small = Config::default();
    small.watermark.font_size = 5;
    let mut empty = Config::default();
    empty.watermark.enabled = true;
    empty.watermark.show_timestamp = false;
    let mut short = Config::default();
    short.watermark.timestamp_format = "%y".to_string();
    for cfg in [small, empty, short] {
        assert_eq!(check_config(&cfg).unwrap().status, 400);
    }
    let r = not_a_config("unknown variant `middle`");
    assert!(is_error(&r, 400, "bad_request", "invalid config: unknown variant `middle`"));
}

#[test]
fn test_config_watermark_section_roundtrip() {
    let wm = Config::default().watermark;
    assert!(!wm.enabled && wm.show_timestamp);
    assert_eq!(wm.position, Position::TopLeft);
    assert_eq!(wm.font_size, 24);
    let stored = object().field(
        "watermark",
        object()
            .field("enabled", Json::Bool(true))
            .field("text", string("前门"))
            .field("position", string("bottom-right"))
            .field("font_size", number(32)),
    );
    // A partial write touches only the submitted key.
    let merged = merge_json(
        stored,
        object().field("watermark", object().field("text", string("后院"))),
    );
    assert!(is_bool(&merged, "watermark.enabled", true));
    assert!(is_str(&merged, "watermark.text", "后院"));
    assert!(is_str(&merged, "watermark.position", "bottom-right"));
    assert!(is_num(&merged, "watermark.font_size", "32"));
}

#[test]
fn saving_can_fail() {
    assert!(!is_persistent(""));
    assert!(is_persistent("/etc/x"));
    let r = save_error(&SaveError::Format("bad".to_string()));
    assert!(is_error(&r, 500, "internal_error", "TOML serialization failed: bad"));
    let r = save_error(&SaveError::Write("full".to_string()));
    assert!(is_error(&r, 500, "internal_error", "Failed to write config: full"));
    assert!(is_str(&config_reset_doc(), "data.message", "config reset"));
}

// Position

fn json_number(x: f64, text: &str) -> Option<Real> {
    Some(Real { bits: x.to_bits(), text: text.to_string() })
}

#[test]
fn test_ptz_status_returns_defaults() {
    let p = PtzStatus::default();
    let j = ptz_status(&p);
    assert!(is_num(&j, "data.pan", "0.5"));
    assert!(is_num(&j, "data.tilt", "0.5"));
    assert!(is_num(&j, "data.zoom", "1.0"));
    assert!((f64::from_bits(p.zoom.bits) - 1.0).abs() < 1e-9);
    assert!((f64::from_bits(p.pan.bits) - 0.5).abs() < 1e-9);
}

#[test]
fn test_ptz_move_updates_position() {
    let mut p = PtzStatus::default();
    let req = PtzMoveRequest {
        pan: json_number(0.8, "0.8"),
        tilt: json_number(0.2, "0.2"),
        zoom: json_number(2.0, "2.0"),
    };
    let j = ptz_move(&mut p, req);
    assert!(is_num(&j, "data.zoom", "2.0"));
    let j = ptz_status(&p);
    assert!(is_num(&j, "data.pan", "0.8"));
    assert!((f64::from_bits(p.pan.bits) - 0.8).abs() < 1e-9);
    assert!((f64::from_bits(p.zoom.bits) - 2.0).abs() < 1e-9);
    // What a request leaves out goes to its default.
    ptz_move(&mut p, PtzMoveRequest { pan: json_number(0.1, "0.1"), tilt: None, zoom: None });
    let j = ptz_status(&p);
    assert!(is_num(&j, "data.pan", "0.1"));
    assert!(is_num(&j, "data.tilt", "0.5"));
    assert!(is_num(&j, "data.zoom", "1.0"));
}

// Detection

#[test]
fn test_detections_report_active_detector_not_config_path() {
    let model = model_name(None, Some("mock-detector-v1".to_string()));
    let j = detections_doc(Some(array().item(string("person"))), &model, 10);
    assert_eq!(items(&j, "data.detections").len(), 1);
    assert!(is_str(&j, "data.model", "mock-detector-v1"));
    assert!(is_num(&j, "data.timestamp", "10"));
    let model = model_name(Some("running".to_string()), Some("mock-detector-v1".to_string()));
    assert_eq!(model, "running");
    assert_eq!(model_name(None, None), "unknown");
    assert!(is_bool(&detections_doc(None, &model, 10), "data.enabled", false));
}

fn spec(id: &str, family: &str, source: &str) -> ModelSpec {
    ModelSpec {
        id: id.to_string(),
        family: family.to_string(),
        input: 416,
        path: format!("/models/{id}.onnx"),
        source: source.to_string(),
    }
}

fn builtin() -> Vec<Listed> {
    ["nanodet-plus-m-320", "nanodet-plus-m-416", "yolox-nano-416"]
        .into_iter()
        .map(|id| Listed {
            spec: spec(id, if id.starts_with('y') { "yolox" } else { "nanodet" }, "builtin"),
            available: true,
        })
        .collect()
}

#[test]
fn test_ai_models_lists_registry_and_active() {
    let j = models_doc("nanodet-plus-m-320", &builtin(), &None, None);
    assert!(is_str(&j, "data.active", "nanodet-plus-m-320"));
    for (i, id) in ["nanodet-plus-m-320", "nanodet-plus-m-416", "yolox-nano-416"].iter().enumerate() {
        assert!(is_str(&j, &format!("data.models.{i}.id"), id));
        assert!(is_str(&j, &format!("data.models.{i}.source"), "builtin"));
        assert!(is_num(&j, &format!("data.models.{i}.input"), "416"));
        assert!(is_bool(&j, &format!("data.models.{i}.available"), true));
    }
    assert!(is_str(&j, "data.models.2.family", "yolox"));
    assert!(matches!(at(&j, "data"), Json::Obj(f) if f.len() == 2));
}

#[test]
fn test_ai_models_reports_custom_source_for_path_override() {
    let custom = Some(Listed { spec: spec("my-nanodet", "nanodet", "custom"), available: false });
    let limits = Some(UploadLimits { allowed: true, max_bytes: 100 });
    let j = models_doc("x", &builtin(), &custom, limits);
    assert!(is_str(&j, "data.models.3.id", "custom"));
    assert!(is_str(&j, "data.models.3.source", "custom"));
    assert!(is_bool(&j, "data.models.3.available", false));
    assert!(is_bool(&j, "data.upload.allowed", true));
    assert!(is_num(&j, "data.upload.max_bytes", "100"));
    let known = Some(Listed { spec: spec("a", "nanodet", "builtin"), available: true });
    let j = models_doc("x", &builtin(), &known, None);
    assert!(matches!(at(&j, "data.models"), Json::Arr(v) if v.len() == 3));
}

#[test]
fn test_activate_swaps_model_persists_and_reports_id() {
    let found = Some(spec("nanodet-plus-m-416", "nanodet", "builtin"));
    let load = plan_activation(true, true, "nanodet-plus-m-416", found).ok().unwrap();
    assert_eq!(load.path, "/models/nanodet-plus-m-416.onnx");
    assert_eq!(load.family, Family::NanoDet);
    let mut cfg = Config::default();
    cfg.features.ai.model_path = "/opt/custom.onnx".to_string();
    set_active_model(&mut cfg, "nanodet-plus-m-416");
    assert_eq!(cfg.features.ai.model, "nanodet-plus-m-416");
    assert_eq!(cfg.features.ai.model_path, "/var/lib/mibee-eye/models/nanodet-m.onnx");
    assert_eq!(cfg.features.ai.model_path, default_ai_model_path());
    let j = activated_doc("nanodet-plus-m-416");
    assert!(is_str(&j, "data.active", "nanodet-plus-m-416"));
    assert!(is_str(&j, "data.applied", "immediate"));
}

#[test]
fn families_decide_how_a_model_is_loaded() {
    let load = |family: &str| {
        plan_activation(true, true, "m", Some(spec("m", family, "builtin"))).ok().unwrap().family
    };
    assert_eq!(load("yolox"), Family::Yolox);
    assert_eq!(load("nanodet"), Family::NanoDet);
    assert_eq!(load("other"), Family::NanoDet);
    for f in [Family::NanoDet, Family::Yolox] {
        assert_eq!(Family::parse_family(f.as_str()), Some(f));
    }
    assert_eq!(Family::parse_family("YOLOX"), None);
}

#[test]
fn test_activate_unknown_model_is_404() {
    let r = plan_activation(true, true, "yolo-9000", None).err().unwrap();
    assert!(is_error(&r, 404, "not_found", "unknown model id: yolo-9000"));
}

#[test]
fn activation_needs_detection_and_a_loader() {
    let r = plan_activation(false, true, "m", None).err().unwrap();
    assert!(is_error(&r, 501, "not_implemented", "AI module not running"));
    let r = plan_activation(true, false, "m", None).err().unwrap();
    assert!(is_error(&r, 501, "not_implemented", "model hot-switch unavailable in this build"));
}

#[test]
fn test_activate_unavailable_model_is_409_and_keeps_old() {
    let r = map_activate_error(ActivateError::Unavailable("file missing".to_string()));
    assert!(is_error(&r, 409, "conflict", "file missing"));
}

#[test]
fn test_activate_load_failure_is_500_and_rolls_back() {
    let r = map_activate_error(ActivateError::LoadFailed("bad graph".to_string()));
    assert!(is_error(&r, 500, "internal_error", "bad graph"));
    assert!(is_error(
        &loader_failed("gone"),
        500,
        "internal_error",
        "model loader task failed: gone"
    ));
}

#[test]
fn test_activate_broadcasts_ai_model_changed_sse() {
    let j = model_changed_event("nanodet-plus-m-416");
    assert!(is_str(&j, "camera_id", "0"));
    assert!(is_str(&j, "model", "nanodet-plus-m-416"));
}

#[test]
fn test_upload_activate_delete_roundtrip() {
    assert!(check_upload(true, true, "my-uploaded-model", false, true).is_none());
    assert_eq!(upload_field("family"), UploadField::Family);
    assert_eq!(upload_field("file"), UploadField::File);
    assert_eq!(upload_field("note"), UploadField::Other);
    let mut file = Vec::new();
    assert!(add_chunk(&mut file, b"fake-", 9).is_none());
    assert!(add_chunk(&mut file, b"onnx", 9).is_none());
    let (family, bytes) = finish_form(Some("yolox".to_string()), Some(file)).ok().unwrap();
    assert_eq!(family, Family::Yolox);
    assert_eq!(bytes, b"fake-onnx");
    assert_eq!(upload_temp_name("my-uploaded-model"), ".upload-my-uploaded-model.tmp");
    assert_eq!(model_file_name("my-uploaded-model"), "my-uploaded-model.onnx");
    let m = uploaded_spec("my-uploaded-model", family, 416, "/d/my-uploaded-model.onnx");
    let r = uploaded_reply(&m);
    assert_eq!(r.status, 201, "upload must 201");
    assert!(is_str(&r.body, "data.id", "my-uploaded-model"));
    assert!(is_str(&r.body, "data.source", "uploaded"));
    assert!(is_str(&r.body, "data.family", "yolox"));
    assert!(is_bool(&r.body, "data.available", true));

    // Deleting the ACTIVE model is refused…
    let active = Some("my-uploaded-model".to_string());
    let r = check_delete(true, active, "my-uploaded-model").unwrap();
    let text = "cannot delete the active model; activate another first";
    assert!(is_error(&r, 409, "conflict", text));
    // …switch back, then delete succeeds.
    let active = Some("nanodet-plus-m-320".to_string());
    assert!(check_delete(true, active, "my-uploaded-model").is_none());
    assert!(check_delete(true, None, "my-uploaded-model").is_none());
    assert!(finish_delete(true, false, "my-uploaded-model").is_none());
}

#[test]
fn test_upload_rejects_duplicates_and_bad_ids() {
    let r = check_upload(true, true, "nanodet-plus-m-320", true, true).unwrap();
    assert!(is_error(&r, 409, "conflict", "model id already exists: nanodet-plus-m-320"));
    let r = check_upload(true, true, "Bad_ID!", false, true).unwrap();
    assert!(is_error(
        &r,
        400,
        "bad_request",
        "invalid model id \"Bad_ID!\" (want ^[a-z0-9][a-z0-9-]{0,63}$)"
    ));
    let r = check_upload(true, true, "a\nb", false, true).unwrap();
    assert!(is_error(
        &r,
        400,
        "bad_request",
        "invalid model id \"a\\nb\" (want ^[a-z0-9][a-z0-9-]{0,63}$)"
    ));
    let r = check_upload(true, true, "ok", false, false).unwrap();
    assert!(is_error(&r, 501, "not_implemented", "no models directory configured"));
    let r = check_upload(true, false, "ok", false, true).unwrap();
    assert!(is_error(&r, 501, "not_implemented", "model upload unavailable in this build"));
}

#[test]
fn test_upload_validation_failure_leaves_no_trace() {
    let mut disk = Disk::default();
    let corrupt = ActivateError::LoadFailed("corrupt graph".to_string());
    let refusal = disk.upload("broken-model", vec![
        UploadEvent::Done,
        UploadEvent::Done,
        UploadEvent::Rejected(corrupt),
        UploadEvent::Done,
    ]);
    let r = refusal.err().unwrap();
    assert!(is_error(&r, 400, "bad_request", "model failed validation: corrupt graph"));
    assert!(disk.files.is_empty(), "no files left");
    assert!(!disk.registered);
    let r = model_rejected(&ActivateError::Unavailable("no file".to_string()));
    assert!(is_error(&r, 400, "bad_request", "model failed validation: no file"));
}

/// A directory and a registry that do as uploads ask.
#[derive(Default)]
struct Disk {
    files: Vec<String>,
    registered: bool,
    removals: usize,
}

impl Disk {
    /// Carries out an upload whose actions have these outcomes.
    fn upload(&mut self, id: &str, outcomes: Vec<UploadEvent>) -> Result<u32, Reply> {
        let (temp, place) = (upload_temp_name(id), model_file_name(id));
        let (mut state, mut action) = begin_upload();
        for event in outcomes {
            let done = matches!(event, UploadEvent::Done);
            match action {
                // A write that fails leaves part of the file.
                UploadAction::WriteTemp => self.files.push(temp.clone()),
                UploadAction::Rename if done => {
                    self.files.retain(|f| *f != temp);
                    self.files.push(place.clone());
                }
                UploadAction::Register(_) => self.registered = done,
                UploadAction::RemoveTemp => {
                    self.removals += 1;
                    self.files.retain(|f| *f != temp || !done);
                }
                UploadAction::RemoveFinal => {
                    self.removals += 1;
                    self.files.retain(|f| *f != place || !done);
                }
                _ => {}
            }
            (state, action) = upload_step(state, event);
        }
        match action {
            UploadAction::Answer(answer) => answer,
            _ => panic!("no answer in {state:?}"),
        }
    }
}

fn failed(detail: &str) -> UploadEvent {
    UploadEvent::Failed(detail.to_string())
}

#[test]
fn accepted_uploads_leave_their_file() {
    let mut disk = Disk::default();
    let answer = disk.upload("m", vec![
        UploadEvent::Done,
        UploadEvent::Done,
        UploadEvent::Loaded(416),
        UploadEvent::Done,
        UploadEvent::Done,
    ]);
    assert_eq!(answer.ok(), Some(416));
    assert_eq!(disk.files, ["m.onnx"]);
    assert!(disk.registered);
    assert_eq!(disk.removals, 0);
}

#[test]
fn uploads_that_fail_anywhere_leave_no_trace() {
    let good = || vec![
        UploadEvent::Done,
        UploadEvent::Done,
        UploadEvent::Loaded(320),
        UploadEvent::Done,
        UploadEvent::Done,
    ];
    let texts = [
        "models dir: x",
        "write: x",
        "model validator task failed: x",
        "rename: x",
        "manifest write failed: x",
    ];
    for (n, text) in texts.into_iter().enumerate() {
        let mut outcomes: Vec<UploadEvent> = good().into_iter().take(n).collect();
        outcomes.push(failed("x"));
        if n > 0 {
            outcomes.push(UploadEvent::Done);
        }
        let mut disk = Disk::default();
        let r = disk.upload("m", outcomes).err().unwrap();
        assert!(is_error(&r, 500, "internal_error", text), "{text}");
        assert!(disk.files.is_empty(), "{text}");
        assert!(!disk.registered, "{text}");
    }
    // What cannot be removed stays, and the first failure is the one reported.
    let mut disk = Disk::default();
    let r = disk.upload("m", vec![UploadEvent::Done, failed("full"), failed("busy")]);
    assert!(is_error(&r.err().unwrap(), 500, "internal_error", "write: full"));
    assert_eq!(disk.files, [".upload-m.tmp"]);
}

#[test]
fn models_are_not_registered_without_a_trial() {
    let (state, _) = begin_upload();
    let (state, _) = upload_step(state, UploadEvent::Done);
    let (state, action) = upload_step(state, UploadEvent::Done);
    assert!(matches!(action, UploadAction::Validate));
    // What is no outcome of a trial does not stand for one.
    let (state, action) = upload_step(state, UploadEvent::Done);
    assert!(matches!(action, UploadAction::Validate));
    let (_, action) = upload_step(state, UploadEvent::Loaded(416));
    assert!(matches!(action, UploadAction::Rename));
}

#[test]
fn uploads_can_be_cut_short() {
    let text = |step, status, prefix: &str| {
        let r = upload_failed(step, "x");
        r.status == status && is_str(&r.body, "message", &format!("{prefix}: x"))
    };
    assert!(text(UploadStep::Multipart, 400, "invalid multipart"));
    assert!(text(UploadStep::Family, 400, "family field"));
    assert!(text(UploadStep::File, 400, "file field"));
    assert!(text(UploadStep::MakeDir, 500, "models dir"));
    assert!(text(UploadStep::Write, 500, "write"));
    assert!(text(UploadStep::Validate, 500, "model validator task failed"));
    assert!(text(UploadStep::Rename, 500, "rename"));
    assert!(text(UploadStep::Register, 500, "manifest write failed"));
}

#[test]
fn files_have_a_greatest_size() {
    let mut file = vec![1, 2, 3];
    let r = add_chunk(&mut file, &[4, 5], 4).unwrap();
    assert!(is_error(&r, 413, "internal_error", "model exceeds max_bytes (4)"));
    assert_eq!(file, [1, 2, 3]);
    assert!(add_chunk(&mut file, &[4], 4).is_none());
    assert_eq!(file, [1, 2, 3, 4]);
}

#[test]
fn forms_are_refused_for_what_they_lack() {
    let message = |family: Option<&str>, file: Option<Vec<u8>>| {
        let r = finish_form(family.map(|f| f.to_string()), file).err().unwrap();
        match at(&r.body, "message") {
            Json::Str(t) => (r.status, t.clone()),
            _ => panic!("no message"),
        }
    };
    assert_eq!(message(None, None), (400, "missing family field".to_string()));
    assert_eq!(message(Some("resnet"), None), (400, "family must be nanodet or yolox".to_string()));
    assert_eq!(message(Some("yolox"), None), (400, "missing file field".to_string()));
}

#[test]
fn test_upload_disabled_answers_501() {
    let r = check_upload(false, true, "whatever-model", false, true).unwrap();
    let text = "model upload disabled (features.ai.allow_upload)";
    assert!(is_error(&r, 501, "not_implemented", text));
    let r = check_delete(false, None, "whatever-model").unwrap();
    assert!(is_error(&r, 501, "not_implemented", text));
}

#[test]
fn test_delete_builtin_is_409_and_unknown_404() {
    let r = finish_delete(false, true, "nanodet-plus-m-320").unwrap();
    assert!(is_error(&r, 409, "conflict", "builtin models cannot be deleted"));
    let r = finish_delete(false, false, "no-such-model").unwrap();
    assert!(is_error(&r, 404, "not_found", "unknown model id: no-such-model"));
}

// Server

#[test]
fn servers_start_by_their_settings() {
    let mut web = Config::default().web;
    assert!(matches!(startup(&web), Startup::Setup));
    web.password = "x".to_string();
    assert!(matches!(startup(&web), Startup::Sessions(user) if user == "admin"));
    web.username = "me".to_string();
    assert!(matches!(startup(&web), Startup::Sessions(user) if user == "me"));
    web.enabled = false;
    assert!(matches!(startup(&web), Startup::Disabled));
}

#[test]
fn test_onvif_post_returns_soap_not_405() {
    let fault = relay_fault(RelayStep::Connect, "refused");
    assert!(fault.contains("Fault"));
    assert!(fault.contains("<s:Text xml:lang=\"en\">ONVIF server unavailable: refused</s:Text>"));
    assert!(fault.starts_with("<?xml version=\"1.0\" encoding=\"UTF-8\"?>\n<s:Envelope"));
    assert!(fault.ends_with("</s:Envelope>"));
    assert!(relay_fault(RelayStep::Write, "x").contains(">ONVIF proxy write error: x<"));
    assert!(relay_fault(RelayStep::Read, "x").contains(">ONVIF proxy read error: x<"));
}

#[test]
fn test_onvif_proxy_forwards_to_real_backend() {
    let request = onvif_request(8080, "<GetDeviceInformation/>");
    assert_eq!(
        request,
        "POST /onvif/device_service HTTP/1.1\r\n\
         Host: 127.0.0.1:8080\r\n\
         Content-Type: application/soap+xml; charset=utf-8\r\n\
         Content-Length: 23\r\n\
         Connection: close\r\n\
         \r\n\
         <GetDeviceInformation/>"
    );
    assert!(onvif_request(1, "前").contains("Content-Length: 3\r\n"));

    let soap_reply = "<SOAP-REPLY-MARKER/>";
    let response = format!(
        "HTTP/1.1 200 OK\r\nContent-Type: application/soap+xml\r\n\
         Content-Length: {}\r\nConnection: close\r\n\r\n{soap_reply}",
        soap_reply.len()
    );
    let text = relay_reply(response.as_bytes());
    assert!(text.contains("SOAP-REPLY-MARKER"), "the SOAP body is relayed: {text}");
    assert!(!text.contains("HTTP/1.1"), "HTTP headers must be stripped");
}

#[test]
fn replies_are_relayed_without_their_head() {
    assert_eq!(soap_body("no head"), "no head");
    assert_eq!(soap_body("head\r\n\r\n"), "");
    assert_eq!(soap_body("head\r\n\r\none\r\n\r\ntwo"), "one\r\n\r\ntwo");
    assert_eq!(soap_body("\r\n\r\n\r\n\r\nx"), "\r\n\r\nx");
    assert_eq!(relay_reply(b"h\r\n\r\n\xffx"), "\u{fffd}x");
}

#[test]
fn test_request_tracing_middleware() {
    assert!(is_traced("/api/health"));
    assert!(!is_traced("/api"));
    assert!(!is_traced("/metrics"));
    let mut t = Traffic::new();
    t.received(content_length(Some("7")));
    assert!(t.http_rx > 0);
    t.sent(content_length(None));
    t.handed_over(4);
    assert_eq!((t.http_rx, t.http_tx, t.gb28181_tx), (7, 0, 4));
    t.handed_over(u64::MAX);
    assert_eq!(t.gb28181_tx, 3);
}

#[test]
fn lengths_are_read_from_headers() {
    assert_eq!(content_length(Some("0")), 0);
    assert_eq!(content_length(Some("18446744073709551615")), u64::MAX);
    assert_eq!(content_length(Some("18446744073709551616")), 0);
    assert_eq!(content_length(Some("-1")), 0);
    assert_eq!(content_length(Some("")), 0);
    assert_eq!(content_length(None), 0);
}
