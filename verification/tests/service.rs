//! How the service is put together, and text.

use mibee_eye::camera::v4l2::{H264Level, H264Profile};
use mibee_eye::config::types::Config;
use mibee_eye::h264::{AccessUnit, Nalu};
use mibee_eye::service::{
    allow_no_auth, handed_bytes, has_position, media_profile, prepare_capture, pump,
    resolve_config_path, rtsp_config, ControlGlue, Retry,
};
use mibee_eye::text::{decimal_text, is_whitespace, lines_of, read_hex32, read_unsigned, trimmed};

fn args(list: &[&str]) -> Vec<String> {
    list.iter().map(|a| a.to_string()).collect()
}

#[test]
fn the_configuration_file_is_chosen_in_order() {
    let path = |list: &[&str], here| resolve_config_path(&args(list), here);
    assert_eq!(path(&["eye", "--config", "/a.toml"], true), "/a.toml");
    assert_eq!(path(&["eye", "--config=/b.toml", "--config", "/a.toml"], true), "/b.toml");
    assert_eq!(path(&["eye", "--config="], true), "");
    assert_eq!(path(&["eye", "--config"], true), "config.toml");
    assert_eq!(path(&["eye", "--configs=/c.toml"], false), "/etc/mibee-eye/config.toml");
    assert_eq!(path(&["eye"], true), "config.toml");
    assert_eq!(path(&[], false), "/etc/mibee-eye/config.toml");
}

/// Fails twice, then starts.
#[test]
fn retries_until_start_succeeds() {
    let mut retry = Retry::new(100, 1000);
    let waits: Vec<u64> = (0..2).map(|_| retry.failed()).collect();
    assert_eq!(waits, [100, 200]);
}

/// Backoff doubles per failure and is capped: 3 failures with base=100ms
/// cap=150ms sleep 100 + 150 + 150 = 400ms total.
#[test]
fn backoff_doubles_then_caps() {
    let mut retry = Retry::new(100, 150);
    let slept: u64 = (0..3).map(|_| retry.failed()).sum();
    assert_eq!(slept, 400);
}

#[test]
fn waits_never_overflow() {
    let mut retry = Retry::new(u64::MAX, u64::MAX);
    assert_eq!(retry.failed(), u64::MAX);
    assert_eq!(retry.failed(), u64::MAX);
    let mut retry = Retry::new(1000, 30_000);
    let waits: Vec<u64> = (0..7).map(|_| retry.failed()).collect();
    assert_eq!(waits, [1000, 2000, 4000, 8000, 16_000, 30_000, 30_000]);
}

#[test]
fn the_platform_steers_key_frames_and_recording() {
    let mut c = ControlGlue { idr_flag: false, rec_pause: false, recording_enabled: true };
    c.on_force_iframe();
    assert!(c.idr_flag);
    assert!(c.on_record(false));
    assert!(c.rec_pause);
    assert!(c.on_record(true));
    assert!(!c.rec_pause);
    c.recording_enabled = false;
    assert!(!c.on_record(false));
    assert!(!c.rec_pause);
}

#[test]
fn the_camera_is_set_up_from_the_configuration() {
    let mut cfg = Config::default();
    cfg.camera.rotation = 270;
    cfg.camera.hflip = true;
    cfg.camera.bitrate = 0x1_0000_0005;
    let (p, e) = prepare_capture(&cfg);
    assert_eq!(p.device_path(), "/dev/video0");
    assert_eq!(p.resolution(), (1280, 720));
    assert_eq!((e.width, e.height), (720, 1280));
    assert_eq!((e.fps, e.i_period, e.bitrate_bps), (15, 30, 5));
    assert_eq!(e.device_path, "/dev/video11");
    assert_eq!((e.profile, e.level), (H264Profile::High, H264Level::Level4_0));
    let m = media_profile(&cfg);
    assert_eq!((m.width, m.height, m.fps, m.bitrate), (720, 1280, 15, 5));
    assert_eq!((m.rtsp_port, m.snapshot_port), (8554, 8088));
}

#[test]
fn detection_gets_frames_more_often() {
    let mut cfg = Config::default();
    cfg.camera.width = 2;
    cfg.camera.height = 2;
    let shared = |cfg: &Config| {
        let (mut p, _) = prepare_capture(cfg);
        let mut n = 0;
        while p.latest_yuv().is_none() {
            p.finish_frame(2, 2, &vec![0; 6]);
            n += 1;
        }
        n
    };
    assert_eq!(shared(&cfg), 15);
    cfg.features.ai.enabled = true;
    assert_eq!(shared(&cfg), 3);
}

#[test]
fn servers_are_set_up_from_the_configuration() {
    let mut cfg = Config::default();
    cfg.rtsp.username = "u".to_string();
    cfg.rtsp.password = "p".to_string();
    let r = rtsp_config(&cfg);
    assert_eq!((r.port, r.username.as_str(), r.password.as_str()), (8554, "u", "p"));
    assert_eq!(r.realm, "MiBee Eye RTSP");
    assert!(allow_no_auth(&cfg));
    cfg.onvif.password = "x".to_string();
    assert!(!allow_no_auth(&cfg));
    assert!(!has_position(&cfg));
    cfg.gb28181.longitude = "1".to_string();
    assert!(!has_position(&cfg));
    cfg.gb28181.latitude = "2".to_string();
    assert!(has_position(&cfg));
}

fn unit(len: usize) -> Nalu {
    Nalu {
        nalu_type: 1,
        data: vec![0; len],
        is_idr: false,
        is_sps: false,
        is_pps: false,
        is_aud: false,
    }
}

#[test]
fn frames_are_noted_and_handed_on() {
    let mut count = 0;
    let p = pump(&mut count, true, false, vec![unit(3)]);
    assert!(p.log, "the first");
    let u = p.unit.unwrap();
    assert_eq!(u.nalus.len(), 1);
    assert!(!u.is_key_frame);
    let p = pump(&mut count, true, false, vec![]);
    assert!(!p.log && p.unit.is_none());
    let p = pump(&mut count, false, true, vec![unit(3)]);
    assert!(p.log && p.unit.is_none(), "a key frame is noted");
    count = 149;
    assert!(pump(&mut count, true, false, vec![]).log);
    assert_eq!(count, 150);
    assert!(pump(&mut count, true, true, vec![unit(1)]).unit.unwrap().is_key_frame);
}

#[test]
fn units_take_their_bytes_and_a_start_code() {
    let au = AccessUnit { nalus: vec![unit(3), unit(0), unit(10)], is_key_frame: false };
    assert_eq!(handed_bytes(&au), 25);
    assert_eq!(handed_bytes(&AccessUnit { nalus: vec![], is_key_frame: false }), 0);
}

#[test]
fn white_space_is_what_unicode_says() {
    for c in '\0'..=char::MAX {
        assert_eq!(is_whitespace(c), c.is_whitespace(), "{c:?}");
    }
}

#[test]
fn text_is_read_as_std_reads_it() {
    let chars = |s: &str| s.chars().collect::<Vec<char>>();
    for s in ["", "a", " a ", "\u{3000}a b\n", "\t\r\n", "x\u{a0}"] {
        assert_eq!(trimmed(&chars(s)).iter().collect::<String>(), s.trim(), "{s:?}");
    }
    for s in ["", "a", "a\n", "a\r\nb", "\n\n", "a\rb\n\r\n", "\r"] {
        let got: Vec<String> = lines_of(&chars(s)).iter().map(|l| l.iter().collect()).collect();
        assert_eq!(got, s.lines().collect::<Vec<_>>(), "{s:?}");
    }
    for s in ["", "+", "+1", "-1", "00", "65535", "65536", "1 ", "٣"] {
        let got = read_unsigned(&chars(s), 65535);
        assert_eq!(got, s.parse::<u16>().ok().map(|n| n as u64), "{s:?}");
    }
    for s in ["", "+", "ff", "+FF", "ffffffff", "100000000", "g", "0x1"] {
        assert_eq!(read_hex32(&chars(s)), u32::from_str_radix(s, 16).ok(), "{s:?}");
    }
    for n in [0, 9, 10, 12_345, u64::MAX] {
        assert_eq!(decimal_text(n), n.to_string());
    }
}
