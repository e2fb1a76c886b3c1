//! The configuration: defaults, validation, overrides and identity.

use mibee_eye::config::identity::{
    backfill_device_identity, default_device_config, detect_device_serial, normalize_machine_id,
    serial_from_cpuinfo, Probes,
};
use mibee_eye::config::number::Real;
use mibee_eye::config::overrides::apply_env_overrides;
use mibee_eye::config::types::{
    AiFeatureConfig, Config, DeviceConfig, Gb28181Config, Position, RecordingConfig, Transport,
    WatermarkConfig,
};
use mibee_eye::config::validation::ConfigError;
use mibee_eye::text_map::TextMap;

fn value(r: &Real) -> f64 {
    f64::from_bits(r.bits)
}

fn number(x: f64) -> Real {
    Real { bits: x.to_bits(), text: format!("{x}") }
}

fn pi_probes() -> Probes {
    Probes {
        cpuinfo: Some("Hardware\t: BCM2835\nSerial\t\t: 10000000a1b2c3d4\n".to_string()),
        machine_id: None,
        dbus_machine_id: None,
    }
}

/// The default configuration with some variables set.
fn overridden(vars: &[(&str, &str)]) -> Config {
    let mut cfg = Config::default();
    override_with(&mut cfg, vars);
    cfg
}

/// Sets variables as a process environment would, with the numbers that can be
/// read as such.
fn override_with(cfg: &mut Config, vars: &[(&str, &str)]) {
    let mut env = TextMap::new();
    let mut reals = TextMap::new();
    for (name, text) in vars {
        env.insert(name.to_string(), text.to_string());
        if let Ok(x) = text.parse::<f64>() {
            reals.insert(name.to_string(), number(x));
        }
    }
    apply_env_overrides(cfg, &env, &reals);
}

#[test]
fn serial_from_cpuinfo_parses_pi_serial() {
    let pi = "Hardware\t: BCM2835\nRevision\t: c03114\nSerial\t\t: 10000000a1b2c3d4\n";
    assert_eq!(serial_from_cpuinfo(pi), "10000000a1b2c3d4");
    assert_eq!(serial_from_cpuinfo("no serial here"), "");
    assert_eq!(serial_from_cpuinfo("Serial\t: \n"), "");
}

#[test]
fn normalize_machine_id_takes_first_long_token() {
    assert_eq!(
        normalize_machine_id("3f2b1c0d9e8a7b6c5d4e3f2a1b0c9d8e\n"),
        "3f2b1c0d9e8a7b6c5d4e3f2a1b0c9d8e"
    );
    assert_eq!(normalize_machine_id("\n"), "");
    assert_eq!(normalize_machine_id("short\n"), "");
}

#[test]
fn test_default_values() {
    let serial = detect_device_serial(&pi_probes());
    let cfg = Config::default().complete(&TextMap::new(), &TextMap::new(), &serial).unwrap();
    // camera
    assert_eq!(cfg.camera.device, "/dev/video0");
    assert_eq!(cfg.camera.mode, "mtxrpicam");
    assert_eq!(cfg.camera.encoder, "auto");
    assert_eq!(cfg.camera.encoder_device, "/dev/video11");
    assert_eq!(cfg.camera.rtsp_url, "");
    assert_eq!(cfg.camera.width, 1280);
    assert_eq!(cfg.camera.height, 720);
    assert_eq!(cfg.camera.fps, 15);
    assert_eq!(cfg.camera.codec, "h264");
    assert_eq!(cfg.camera.bitrate, 2_000_000);
    assert_eq!(cfg.camera.encoder, "auto");
    assert_eq!(cfg.camera.encoder_device, "/dev/video11");
    assert!((value(&cfg.camera.brightness) - 0.0).abs() < 1e-9);
    assert!((value(&cfg.camera.contrast) - 1.0).abs() < 1e-9);
    assert!((value(&cfg.camera.saturation) - 1.0).abs() < 1e-9);
    assert!((value(&cfg.camera.sharpness) - 1.0).abs() < 1e-9);
    assert!(!cfg.camera.hflip);
    assert!(!cfg.camera.vflip);
    // rtsp
    assert_eq!(cfg.rtsp.port, 8554);
    assert_eq!(cfg.rtsp.username, "");
    assert_eq!(cfg.rtsp.password, "");
    // onvif
    assert_eq!(cfg.onvif.port, 8080);
    assert_eq!(cfg.onvif.username, "admin");
    assert_eq!(cfg.onvif.password, "");
    // gb28181
    assert!(!cfg.gb28181.enabled);
    assert_eq!(cfg.gb28181.platform_sip_address, "192.168.1.1");
    assert_eq!(cfg.gb28181.platform_sip_port, 5060);
    assert_eq!(cfg.gb28181.device_id, "34020000001320000001");
    assert_eq!(cfg.gb28181.channel_id, "34020000001320000001");
    assert_eq!(cfg.gb28181.sip_domain, "3402000000");
    // There is no default SIP password: unset stays empty.
    assert_eq!(cfg.gb28181.password, "");
    assert_eq!(cfg.gb28181.local_sip_port, 5060);
    assert_eq!(cfg.gb28181.register_interval_secs, 60);
    assert_eq!(cfg.gb28181.heartbeat_interval_secs, 60);
    assert_eq!(cfg.gb28181.heartbeat_timeout_count, 3);

    // web
    assert!(cfg.web.enabled);
    assert_eq!(cfg.web.port, 8088);
    assert_eq!(cfg.web.username, "");
    assert_eq!(cfg.web.password, "");
    // device
    assert_eq!(cfg.device.name, "Pi Camera V1");
    assert_eq!(cfg.device.manufacturer, "Raspberry Pi");
    assert_eq!(cfg.device.model, "OV5647");
    assert_eq!(cfg.device.firmware, "1.0.0");
    assert_eq!(cfg.device.hardware_id, "OV5647");
    // Empty configured serial falls back to the device-level probe:
    // never empty on a probeable host.
    assert!(!cfg.device.serial_number.is_empty());
    assert_eq!(cfg.device.serial_number, detect_device_serial(&pi_probes()));
    // logging
    assert_eq!(cfg.logging.level, "info");
    // storage (optional section, defaults)
    assert!(!cfg.storage.enabled);
    assert_eq!(cfg.storage.local.path, "");
    assert_eq!(cfg.storage.local.retention_days, 30);
    // motion (optional section, defaults)
    assert!(!cfg.motion.enabled);
    assert!((value(&cfg.motion.sensitivity) - 0.5).abs() < 1e-9);
    assert_eq!(cfg.motion.min_area, 100);
    assert_eq!(cfg.motion.cooldown_ms, 1000);
    // rtmp (optional section, defaults)
    assert!(!cfg.rtmp.enabled);
    assert_eq!(cfg.rtmp.url, "");
    // features (optional section, all disabled)
    assert!(!cfg.features.ai.enabled);
    assert!(!cfg.features.multi_camera.enabled);
    assert!(!cfg.features.webrtc.enabled);
    assert!(!cfg.features.h265.enabled);
}

#[test]
fn config_features_disabled_by_default() {
    let cfg = Config::default();
    assert!(!cfg.features.ai.enabled, "AI should be disabled by default");
    assert!(
        !cfg.features.multi_camera.enabled,
        "Multi-camera should be disabled by default"
    );
    assert!(
        !cfg.features.webrtc.enabled,
        "WebRTC should be disabled by default"
    );
    assert!(
        !cfg.features.h265.enabled,
        "H265 should be disabled by default"
    );
}

#[test]
fn test_ai_feature_config_default() {
    let ai = AiFeatureConfig::default();

    assert!(!ai.enabled, "AI should be disabled by default");
    assert_eq!(ai.model, "nanodet-plus-m-320");
    assert_eq!(ai.model_path, "/var/lib/mibee-eye/models/nanodet-m.onnx");
    assert!((value(&ai.confidence_threshold) - 0.5).abs() < 1e-9);
    assert_eq!(ai.interval_frames, 5);
    assert_eq!(ai.max_memory_mb, 256);
    assert_eq!(ai.cpu_cores, vec![2, 3]);
}

#[test]
fn test_ai_config_malformed_model_id_rejected() {
    let mut cfg = Config::default();
    cfg.features.ai.model = "Bad_ID!".to_string();
    let err = cfg
        .validate()
        .expect_err("malformed ai.model must fail validation");
    assert!(err.to_string().contains("Bad_ID!"));
}

#[test]
fn test_ai_config_unknown_but_wellformed_id_allowed() {
    // Uploaded models only exist in the runtime registry; a well-formed
    // unknown id passes config validation (fail-open at boot).
    let mut cfg = Config::default();
    cfg.features.ai.model = "yolo-9000".to_string();
    cfg.validate().expect("well-formed unknown id must pass");
}

#[test]
fn test_ai_config_any_model_allowed_with_custom_path() {
    let mut cfg = Config::default();
    cfg.features.ai.model = "whatever!".to_string();
    cfg.features.ai.model_path = "/opt/custom.onnx".to_string();
    cfg.validate()
        .expect("custom model_path bypasses the id check");
}

#[test]
fn test_gb28181_config_default() {
    let gb = Gb28181Config::default();
    assert!(!gb.enabled);
    assert_eq!(gb.platform_sip_address, "192.168.1.1");
    assert_eq!(gb.platform_sip_port, 5060);
    assert_eq!(gb.device_id, "34020000001320000001");
    assert_eq!(gb.channel_id, "34020000001320000001");
    assert_eq!(gb.sip_domain, "3402000000");
    // Library default: no default password.
    assert_eq!(gb.password, "");
    assert_eq!(gb.local_sip_port, 5060);
    assert_eq!(gb.register_interval_secs, 60);
    assert_eq!(gb.heartbeat_interval_secs, 60);
    assert_eq!(gb.heartbeat_timeout_count, 3);
}

#[test]
fn test_recording_config_default() {
    let rec = RecordingConfig::default();
    assert!(!rec.enabled);
    assert_eq!(rec.storage_path, "recordings");
    assert_eq!(rec.segment_secs, 600);
    assert_eq!(rec.retention_days, 3);
    assert_eq!(rec.max_storage_mb, 8192);
}

#[test]
fn test_recording_validate_segment_secs_min() {
    let mut cfg = Config::default();
    cfg.recording.enabled = true;
    cfg.recording.segment_secs = 30;
    assert!(cfg.validate().is_err());
    cfg.recording.segment_secs = 60;
    assert!(cfg.validate().is_ok());
}

#[test]
fn test_watermark_config_default() {
    let wm = WatermarkConfig::default();
    assert!(!wm.enabled);
    assert_eq!(wm.text, "");
    assert!(wm.show_timestamp);
    assert_eq!(wm.timestamp_format, "%Y-%m-%d %H:%M:%S");
    assert_eq!(wm.position, Position::TopLeft);
    assert_eq!(wm.font_size, 24);
    assert_eq!(wm.font_path, "");
}

#[test]
fn test_watermark_validate_constraints() {
    let mut cfg = Config::default();
    assert!(cfg.validate().is_ok());

    cfg.watermark.font_size = 10;
    assert!(cfg.validate().is_err());
    cfg.watermark.font_size = 96;
    assert!(cfg.validate().is_ok());
    cfg.watermark.font_size = 97;
    assert!(cfg.validate().is_err());
    cfg.watermark.font_size = 24;

    // enabled with nothing to render is rejected
    cfg.watermark.enabled = true;
    cfg.watermark.show_timestamp = false;
    assert!(cfg.validate().is_err());
    cfg.watermark.text = "cam".to_string();
    assert!(cfg.validate().is_ok());

    // timestamp format whitelist
    cfg.watermark.timestamp_format = "%y".to_string();
    assert!(cfg.validate().is_err());
    cfg.watermark.timestamp_format = "%F %T".to_string();
    assert!(cfg.validate().is_ok());

    // text length cap counts chars, not bytes
    cfg.watermark.text = "米".repeat(129);
    assert!(cfg.validate().is_err());
    cfg.watermark.text = "米".repeat(128);
    assert!(cfg.validate().is_ok());
}

#[test]
fn test_transport_default_is_udp() {
    let gb = Gb28181Config::default();
    assert_eq!(gb.transport, Transport::Udp);
}

#[test]
fn test_new_equals_default() {
    let n = Config::new();
    let d = Config::default();
    assert_eq!(n.camera.device, d.camera.device);
    assert_eq!(n.camera.width, d.camera.width);
    assert_eq!(n.rtsp.port, d.rtsp.port);
    assert_eq!(n.web.enabled, d.web.enabled);
    assert_eq!(n.logging.level, d.logging.level);
}

#[test]
fn test_validate_ok() {
    let cfg = Config::default();
    assert!(cfg.validate().is_ok());
}

#[test]
fn test_validate_rotation_accepts_quarter_turns() {
    for rotation in [0, 90, 180, 270] {
        let mut cfg = Config::default();
        cfg.camera.rotation = rotation;
        assert!(
            cfg.validate().is_ok(),
            "rotation {rotation} should validate"
        );
    }
}

#[test]
fn test_validate_rotation_rejects_non_quarter_turn() {
    let mut cfg = Config::default();
    cfg.camera.rotation = 45;
    let err = cfg.validate().unwrap_err();
    assert!(matches!(err, ConfigError::Validation(_)));
    assert!(err.to_string().contains("camera.rotation"));
}

#[test]
fn test_validate_rotation_90_requires_even_dims() {
    let mut cfg = Config::default();
    cfg.camera.width = 1281;
    cfg.camera.height = 720;
    cfg.camera.rotation = 90;
    let err = cfg.validate().unwrap_err();
    assert!(matches!(err, ConfigError::Validation(_)));
    assert!(err.to_string().contains("even"));

    // 180° keeps the dimensions — odd capture dims stay acceptable
    // there exactly as they were before rotation existed.
    cfg.camera.rotation = 180;
    assert!(cfg.validate().is_ok());
}

#[test]
fn test_effective_dims_swap_only_for_90_270() {
    let mut cam = Config::default().camera;
    cam.width = 640;
    cam.height = 480;
    assert_eq!(cam.effective_dims(), (640, 480));
    cam.rotation = 180;
    assert_eq!(cam.effective_dims(), (640, 480));
    cam.rotation = 90;
    assert_eq!(cam.effective_dims(), (480, 640));
    cam.rotation = 270;
    assert_eq!(cam.effective_dims(), (480, 640));
}

#[test]
fn test_validate_rtsp_port_zero() {
    let mut cfg = Config::default();
    cfg.rtsp.port = 0;
    let err = cfg.validate().unwrap_err();
    assert!(matches!(err, ConfigError::Validation(_)));
    assert!(err.to_string().contains("rtsp.port"));
}

#[test]
fn test_validate_onvif_port_zero() {
    let mut cfg = Config::default();
    cfg.onvif.port = 0;
    let err = cfg.validate().unwrap_err();
    assert!(matches!(err, ConfigError::Validation(_)));
    assert!(err.to_string().contains("onvif.port"));
}

#[test]
fn test_validate_web_port_zero_when_enabled() {
    let mut cfg = Config::default();
    cfg.web.enabled = true;
    cfg.web.port = 0;
    let err = cfg.validate().unwrap_err();
    assert!(matches!(err, ConfigError::Validation(_)));
    assert!(err.to_string().contains("web.port"));
}

#[test]
fn test_validate_web_port_zero_when_disabled() {
    // When web is disabled, port zero is fine (server won't start).
    let mut cfg = Config::default();
    cfg.web.enabled = false;
    cfg.web.port = 0;
    assert!(cfg.validate().is_ok());
}

#[test]
fn test_validate_width_zero() {
    let mut cfg = Config::default();
    cfg.camera.width = 0;
    let err = cfg.validate().unwrap_err();
    assert!(err.to_string().contains("width"));
}

#[test]
fn test_validate_height_zero() {
    let mut cfg = Config::default();
    cfg.camera.height = 0;
    let err = cfg.validate().unwrap_err();
    assert!(err.to_string().contains("height"));
}

#[test]
fn test_validate_fps_zero() {
    let mut cfg = Config::default();
    cfg.camera.fps = 0;
    let err = cfg.validate().unwrap_err();
    assert!(err.to_string().contains("fps"));
}

#[test]
fn test_validate_bitrate_zero() {
    let mut cfg = Config::default();
    cfg.camera.bitrate = 0;
    let err = cfg.validate().unwrap_err();
    assert!(err.to_string().contains("bitrate"));
}

#[test]
fn test_validate_codec_invalid() {
    let mut cfg = Config::default();
    cfg.camera.codec = "vp9".to_string();
    let err = cfg.validate().unwrap_err();
    assert!(err.to_string().contains("codec"));
}

#[test]
fn test_validate_codec_h264() {
    let mut cfg = Config::default();
    cfg.camera.codec = "h264".to_string();
    assert!(cfg.validate().is_ok());
}

#[test]
fn test_validate_codec_h265() {
    let mut cfg = Config::default();
    cfg.camera.codec = "h265".to_string();
    assert!(cfg.validate().is_ok());
}

#[test]
fn test_validate_log_level_invalid() {
    let mut cfg = Config::default();
    cfg.logging.level = "trace".to_string();
    let err = cfg.validate().unwrap_err();
    assert!(err.to_string().contains("logging.level"));
}

#[test]
fn test_validate_log_level_valid_variants() {
    for level in &["debug", "info", "warn", "error"] {
        let mut cfg = Config::default();
        cfg.logging.level = level.to_string();
        assert!(cfg.validate().is_ok(), "level={level} should be valid");
    }
}

#[test]
fn test_validate_brightness_range() {
    let mut cfg = Config::default();
    cfg.camera.brightness = number(-1.5);
    assert!(cfg.validate().is_err());
    cfg.camera.brightness = number(1.5);
    assert!(cfg.validate().is_err());
    cfg.camera.brightness = number(-1.0);
    assert!(cfg.validate().is_ok());
    cfg.camera.brightness = number(1.0);
    assert!(cfg.validate().is_ok());
    cfg.camera.brightness = number(0.0);
    assert!(cfg.validate().is_ok());
}

#[test]
fn test_validate_contrast_range() {
    let mut cfg = Config::default();
    cfg.camera.contrast = number(-0.1);
    assert!(cfg.validate().is_err());
    cfg.camera.contrast = number(32.1);
    assert!(cfg.validate().is_err());
    cfg.camera.contrast = number(0.0);
    assert!(cfg.validate().is_ok());
    cfg.camera.contrast = number(32.0);
    assert!(cfg.validate().is_ok());
    cfg.camera.contrast = number(1.0);
    assert!(cfg.validate().is_ok());
}

#[test]
fn test_validate_saturation_range() {
    let mut cfg = Config::default();
    cfg.camera.saturation = number(-1.0);
    assert!(cfg.validate().is_err());
    cfg.camera.saturation = number(33.0);
    assert!(cfg.validate().is_err());
    cfg.camera.saturation = number(0.0);
    assert!(cfg.validate().is_ok());
    cfg.camera.saturation = number(32.0);
    assert!(cfg.validate().is_ok());
}

#[test]
fn test_validate_sharpness_range() {
    let mut cfg = Config::default();
    cfg.camera.sharpness = number(-1.0);
    assert!(cfg.validate().is_err());
    cfg.camera.sharpness = number(17.0);
    assert!(cfg.validate().is_err());
    cfg.camera.sharpness = number(0.0);
    assert!(cfg.validate().is_ok());
    cfg.camera.sharpness = number(16.0);
    assert!(cfg.validate().is_ok());
}

#[test]
fn test_invalid_encoder_rejected() {
    let mut cfg = Config::default();
    cfg.camera.encoder = "quantum".to_string();
    let err = cfg
        .validate()
        .expect_err("invalid encoder must fail validation");
    let msg = err.to_string();
    assert!(
        msg.contains("camera.encoder must be auto, hardware or software"),
        "got: {msg}"
    );
}

#[test]
fn test_empty_onvif_password_ok() {
    // Empty password should not be an error, just a warning
    let mut cfg = Config::default();
    cfg.onvif.password = String::new();
    assert!(cfg.validate().is_ok());
}

#[test]
fn test_config_error_display() {
    let err = ConfigError::Validation("test error".into());
    let msg = err.to_string();
    assert!(msg.contains("test error"));
}

#[test]
fn test_config_error_debug() {
    let err = ConfigError::Validation("debug me".into());
    let msg = format!("{err:?}");
    assert!(msg.contains("Validation"));
}

#[test]
fn test_config_clone() {
    let cfg = Config::default();
    let cloned = cfg.clone();
    assert_eq!(cfg.camera.device, cloned.camera.device);
}

#[test]
fn test_env_override_encoder() {
    let cfg = overridden(&[
        ("MIBEE_EYE_CAMERA_ENCODER", "software"),
        ("MIBEE_EYE_CAMERA_ENCODER_DEVICE", "/dev/video31"),
    ]);
    assert_eq!(cfg.camera.encoder, "software");
    assert_eq!(cfg.camera.encoder_device, "/dev/video31");
}

#[test]
fn test_env_override_string() {
    let cfg = overridden(&[("MIBEE_EYE_CAMERA_DEVICE", "/dev/video99")]);
    assert_eq!(cfg.camera.device, "/dev/video99");
}

#[test]
fn test_env_override_int() {
    let cfg = overridden(&[("MIBEE_EYE_RTSP_PORT", "9999")]);
    assert_eq!(cfg.rtsp.port, 9999);
}

#[test]
fn test_env_override_float() {
    let cfg = overridden(&[("MIBEE_EYE_CAMERA_BRIGHTNESS", "0.75")]);
    assert!((value(&cfg.camera.brightness) - 0.75).abs() < 1e-9);
}

#[test]
fn test_env_override_bool() {
    let cfg = overridden(&[("MIBEE_EYE_WEB_ENABLED", "false")]);
    assert!(!cfg.web.enabled);
}

#[test]
fn test_env_override_onvif_password() {
    let cfg = overridden(&[("MIBEE_EYE_ONVIF_PASSWORD", "super_secret")]);
    assert_eq!(cfg.onvif.password, "super_secret");
    assert_eq!(cfg.onvif_password(), "super_secret");
}

#[test]
fn test_env_override_invalid_int_ignored() {
    let cfg = overridden(&[("MIBEE_EYE_RTSP_PORT", "not_a_number")]);
    assert_eq!(cfg.rtsp.port, 8554); // unchanged
}

#[test]
fn test_env_override_unset_does_nothing() {
    let mut cfg = Config::default();
    cfg.rtsp.port = 42; // arbitrary
    override_with(&mut cfg, &[]);
    assert_eq!(cfg.rtsp.port, 42); // still arbitrary, not overridden
}

#[test]
fn overrides_beyond_a_type_are_passed_over() {
    let cfg = overridden(&[("MIBEE_EYE_RTSP_PORT", "65536")]);
    assert_eq!(cfg.rtsp.port, 8554);
    let cfg = overridden(&[("MIBEE_EYE_RTSP_PORT", "65535")]);
    assert_eq!(cfg.rtsp.port, 65535);
    let cfg = overridden(&[("MIBEE_EYE_CAMERA_BRIGHTNESS", "bright")]);
    assert_eq!(value(&cfg.camera.brightness), 0.0);
}

#[test]
fn overriding_again_changes_nothing() {
    let vars = [("MIBEE_EYE_RTSP_PORT", "9999"), ("MIBEE_EYE_CAMERA_DEVICE", "/dev/video99")];
    let mut cfg = overridden(&vars);
    override_with(&mut cfg, &vars);
    assert_eq!(cfg.rtsp.port, 9999);
    assert_eq!(cfg.camera.device, "/dev/video99");
}

/// Completes a configuration in an empty environment on a known board.
fn completed(cfg: Config) -> Result<Config, ConfigError> {
    cfg.complete(&TextMap::new(), &TextMap::new(), &detect_device_serial(&pi_probes()))
}

#[test]
fn test_load_from_file() {
    let mut read = Config::default();
    read.camera.device = "/dev/video0".to_string();
    read.camera.width = 640;
    read.camera.height = 480;
    read.camera.fps = 10;
    read.camera.codec = "h264".to_string();
    read.camera.bitrate = 1_000_000;
    read.rtsp.port = 8554;
    read.onvif.port = 8080;
    read.onvif.username = "admin".to_string();
    read.onvif.password = "test123".to_string();
    read.web.enabled = true;
    read.web.port = 8088;
    let cfg = completed(read).unwrap();
    assert_eq!(cfg.camera.device, "/dev/video0");
    assert_eq!(cfg.camera.width, 640);
    assert_eq!(cfg.camera.height, 480);
    assert_eq!(cfg.camera.fps, 10);
    assert_eq!(cfg.onvif.password, "test123");
    // unspecified fields have defaults
    assert_eq!(cfg.camera.codec, "h264");
    assert_eq!(cfg.rtsp.port, 8554);
    assert!(cfg.web.enabled);
}

/// A device section that says nothing gets the documented identity.
#[test]
fn test_load_device_identity_backfilled_to_documented_defaults() {
    let mut read = Config::default();
    read.camera.device = "/dev/video0".to_string();
    read.camera.width = 640;
    read.camera.height = 480;
    read.camera.fps = 10;
    read.device = DeviceConfig::default();
    let cfg = completed(read).unwrap();
    assert_eq!(cfg.device.name, "Pi Camera V1");
    assert_eq!(cfg.device.manufacturer, "Raspberry Pi");
    assert_eq!(cfg.device.model, "OV5647");
    assert_eq!(cfg.device.hardware_id, "OV5647");
    // What was filled in is what the ONVIF service accepts.
    let onvif = onvif_device_rs::DeviceConfig {
        name: cfg.device.name.clone(),
        manufacturer: cfg.device.manufacturer.clone(),
        model: cfg.device.model.clone(),
        firmware: cfg.device.firmware.clone(),
        hardware_id: cfg.device.hardware_id.clone(),
        serial_number: cfg.device.serial_number.clone(),
    };
    assert!(onvif.validate().is_ok());
}

/// Explicit identity survives the backfill untouched.
#[test]
fn test_load_device_identity_explicit_values_not_clobbered() {
    let mut read = Config::default();
    read.device = DeviceConfig::default();
    read.device.name = "Gate Cam".to_string();
    read.device.manufacturer = "Acme".to_string();
    read.device.model = "Cam-X".to_string();
    read.device.firmware = "9.9.9".to_string();
    read.device.hardware_id = "cam-x-1".to_string();
    let cfg = completed(read).unwrap();
    assert_eq!(cfg.device.name, "Gate Cam");
    assert_eq!(cfg.device.manufacturer, "Acme");
    assert_eq!(cfg.device.model, "Cam-X");
    assert_eq!(cfg.device.firmware, "9.9.9");
    assert_eq!(cfg.device.hardware_id, "cam-x-1");
}

#[test]
fn test_load_validation_failure() {
    let mut read = Config::default();
    read.camera.width = 0;
    read.camera.height = 0;
    read.rtsp.port = 0;
    read.onvif.port = 0;
    let err = completed(read).unwrap_err();
    assert!(matches!(err, ConfigError::Validation(_)));
}

#[test]
fn the_neutral_identity_is_a_placeholder() {
    // The defaults of the ONVIF service, before anything is filled in.
    let neutral = DeviceConfig::default();
    assert_eq!(neutral.name, "ONVIF Device");
    assert_eq!(neutral.manufacturer, "unknown");
    let mut device = default_device_config();
    assert_eq!(device.serial_number, "");
    backfill_device_identity(&mut device, "abc");
    assert_eq!(device.serial_number, "abc");
    backfill_device_identity(&mut device, "def");
    assert_eq!(device.serial_number, "abc", "filled in once");
}

#[test]
fn serial_numbers_are_probed_in_order() {
    let id = "3f2b1c0d9e8a7b6c5d4e3f2a1b0c9d8e".to_string();
    let mut probes = pi_probes();
    probes.machine_id = Some(id.clone());
    assert_eq!(detect_device_serial(&probes), "10000000a1b2c3d4");
    probes.cpuinfo = None;
    assert_eq!(detect_device_serial(&probes), id);
    probes.machine_id = Some("short".to_string());
    probes.dbus_machine_id = Some("0123456789abcdef\n".to_string());
    assert_eq!(detect_device_serial(&probes), "0123456789abcdef");
    probes.dbus_machine_id = None;
    assert_eq!(detect_device_serial(&probes), "");
}

#[test]
fn errors_say_what_they_are() {
    let text = |e: ConfigError| e.to_string();
    assert_eq!(text(ConfigError::Io("x".to_string())), "I/O error: x");
    assert_eq!(text(ConfigError::Parse("x".to_string())), "TOML parse error: x");
    assert_eq!(text(ConfigError::EnvVar("x".to_string())), "Environment variable error: x");
    assert_eq!(text(ConfigError::Validation("x".to_string())), "Validation error: x");
}
