//! Environment variables that override the configuration.

use vstd::prelude::*;
use crate::text::{chars_of, eq_ignoring_case, parse_unsigned, read_unsigned, same_ignoring_case, same_text};
use crate::text_map::{texts, TextMap};
use super::number::{Real, RealValue};
use super::types::{
    CameraConfig, CameraSettings, Config, DeviceConfig, DeviceSettings, Gb28181Config,
    Gb28181Settings, Gb35114Config, Gb35114Settings, LoggingConfig, LoggingSettings, ONVIFConfig,
    OnvifSettings, Position, RTSPConfig, RecordingConfig, RecordingSettings, RtspSettings, Settings,
    Transport, WatermarkConfig, WatermarkSettings, WebConfig, WebSettings,
};

verus! {

/// A text that a variable replaces, where it is set.
pub open spec fn text_over(env: Map<Seq<char>, Seq<char>>, name: Seq<char>, old: Seq<char>) -> Seq<
    char,
> {
    if env.dom().contains(name) {
        env[name]
    } else {
        old
    }
}

/// A number that a variable replaces, where it is set to one of at most `max`.
pub open spec fn number_over(
    env: Map<Seq<char>, Seq<char>>,
    name: Seq<char>,
    old: nat,
    max: nat,
) -> nat {
    if env.dom().contains(name) && parse_unsigned(env[name], max) is Some {
        parse_unsigned(env[name], max)->0
    } else {
        old
    }
}

/// A switch that a variable replaces, where it is `true` or `false`.
pub open spec fn bool_over(env: Map<Seq<char>, Seq<char>>, name: Seq<char>, old: bool) -> bool {
    if env.dom().contains(name) && (env[name] == "true"@ || env[name] == "false"@) {
        env[name] == "true"@
    } else {
        old
    }
}

/// A real number that a variable replaces, where it is set to one.
pub open spec fn real_over(
    reals: Map<Seq<char>, RealValue>,
    name: Seq<char>,
    old: RealValue,
) -> RealValue {
    if reals.dom().contains(name) {
        reals[name]
    } else {
        old
    }
}

/// A transport that a variable replaces, where it is set: by TCP for `tcp` in
/// any case, by UDP for anything else.
pub open spec fn transport_over(
    env: Map<Seq<char>, Seq<char>>,
    name: Seq<char>,
    old: Transport,
) -> Transport {
    if !env.dom().contains(name) {
        old
    } else if same_ignoring_case(env[name], "tcp"@) {
        Transport::Tcp
    } else {
        Transport::Udp
    }
}

/// A position that a variable replaces, where it is set: by the one it names,
/// or by the top left for anything else.
pub open spec fn position_over(
    env: Map<Seq<char>, Seq<char>>,
    name: Seq<char>,
    old: Position,
) -> Position {
    if !env.dom().contains(name) {
        old
    } else if env[name] == "top-right"@ {
        Position::TopRight
    } else if env[name] == "bottom-left"@ {
        Position::BottomLeft
    } else if env[name] == "bottom-right"@ {
        Position::BottomRight
    } else {
        Position::TopLeft
    }
}

/// The values of a map of real numbers.
pub open spec fn reals_of(m: Map<Seq<char>, Real>) -> Map<Seq<char>, RealValue> {
    m.map_values(|r: Real| r@)
}

fn override_str(env: &TextMap<String>, name: &str, dest: &mut String)
    ensures
        final(dest)@ == text_over(texts(env@), name@, old(dest)@),
{
    if let Some(v) = env.get(name) {
        *dest = v.clone();
    }
}

fn override_int(env: &TextMap<String>, name: &str, old: u64, max: u64) -> (n: u64)
    requires
        old <= max,
    ensures
        n == number_over(texts(env@), name@, old as nat, max as nat),
        n <= max,
{
    match env.get(name) {
        Some(v) => {
            let digits = chars_of(v.as_str());
            match read_unsigned(digits.as_slice(), max) {
                Some(n) => n,
                None => old,
            }
        },
        None => old,
    }
}

fn override_bool(env: &TextMap<String>, name: &str, dest: &mut bool)
    ensures
        *final(dest) == bool_over(texts(env@), name@, *old(dest)),
{
    if let Some(v) = env.get(name) {
        if same_text(v.as_str(), "true") {
            *dest = true;
        } else if same_text(v.as_str(), "false") {
            *dest = false;
        }
    }
}

fn override_float(reals: &TextMap<Real>, name: &str, dest: &mut Real)
    ensures
        final(dest)@ == real_over(reals_of(reals@), name@, old(dest)@),
{
    if let Some(v) = reals.get(name) {
        *dest = v.copied();
    }
}

fn override_transport(env: &TextMap<String>, name: &str, dest: &mut Transport)
    ensures
        *final(dest) == transport_over(texts(env@), name@, *old(dest)),
{
    if let Some(v) = env.get(name) {
        let c = chars_of(v.as_str());
        *dest = if eq_ignoring_case(c.as_slice(), "tcp") {
            Transport::Tcp
        } else {
            Transport::Udp
        };
    }
}

fn override_position(env: &TextMap<String>, name: &str, dest: &mut Position)
    ensures
        *final(dest) == position_over(texts(env@), name@, *old(dest)),
{
    if let Some(v) = env.get(name) {
        *dest = if same_text(v.as_str(), "top-right") {
            Position::TopRight
        } else if same_text(v.as_str(), "bottom-left") {
            Position::BottomLeft
        } else if same_text(v.as_str(), "bottom-right") {
            Position::BottomRight
        } else {
            Position::TopLeft
        };
    }
}

/// The camera section as the environment changes it.
pub open spec fn camera_overridden(c: CameraSettings, env: Map<Seq<char>, Seq<char>>, reals: Map<Seq<char>, RealValue>) -> CameraSettings {
    CameraSettings {
        device: text_over(env, "MIBEE_EYE_CAMERA_DEVICE"@, c.device),
        mode: text_over(env, "MIBEE_EYE_CAMERA_MODE"@, c.mode),
        encoder: text_over(env, "MIBEE_EYE_CAMERA_ENCODER"@, c.encoder),
        encoder_device: text_over(env, "MIBEE_EYE_CAMERA_ENCODER_DEVICE"@, c.encoder_device),
        rtsp_url: text_over(env, "MIBEE_EYE_CAMERA_RTSP_URL"@, c.rtsp_url),
        width: number_over(env, "MIBEE_EYE_CAMERA_WIDTH"@, c.width as nat, 0xffff_ffff) as u32,
        height: number_over(env, "MIBEE_EYE_CAMERA_HEIGHT"@, c.height as nat, 0xffff_ffff) as u32,
        fps: number_over(env, "MIBEE_EYE_CAMERA_FPS"@, c.fps as nat, 0xffff_ffff) as u32,
        codec: text_over(env, "MIBEE_EYE_CAMERA_CODEC"@, c.codec),
        bitrate: number_over(env, "MIBEE_EYE_CAMERA_BITRATE"@, c.bitrate as nat, 0xffff_ffff_ffff_ffff) as u64,
        brightness: real_over(reals, "MIBEE_EYE_CAMERA_BRIGHTNESS"@, c.brightness),
        contrast: real_over(reals, "MIBEE_EYE_CAMERA_CONTRAST"@, c.contrast),
        saturation: real_over(reals, "MIBEE_EYE_CAMERA_SATURATION"@, c.saturation),
        sharpness: real_over(reals, "MIBEE_EYE_CAMERA_SHARPNESS"@, c.sharpness),
        ..c
    }
}

fn override_camera(c: &mut CameraConfig, env: &TextMap<String>, reals: &TextMap<Real>)
    ensures
        final(c)@ == camera_overridden(old(c)@, texts(env@), reals_of(reals@)),
{
    override_str(env, "MIBEE_EYE_CAMERA_DEVICE", &mut c.device);
    override_str(env, "MIBEE_EYE_CAMERA_MODE", &mut c.mode);
    override_str(env, "MIBEE_EYE_CAMERA_ENCODER", &mut c.encoder);
    override_str(env, "MIBEE_EYE_CAMERA_ENCODER_DEVICE", &mut c.encoder_device);
    override_str(env, "MIBEE_EYE_CAMERA_RTSP_URL", &mut c.rtsp_url);
    c.width = override_int(env, "MIBEE_EYE_CAMERA_WIDTH", c.width as u64, 0xffff_ffff) as u32;
    c.height = override_int(env, "MIBEE_EYE_CAMERA_HEIGHT", c.height as u64, 0xffff_ffff) as u32;
    c.fps = override_int(env, "MIBEE_EYE_CAMERA_FPS", c.fps as u64, 0xffff_ffff) as u32;
    override_str(env, "MIBEE_EYE_CAMERA_CODEC", &mut c.codec);
    c.bitrate = override_int(env, "MIBEE_EYE_CAMERA_BITRATE", c.bitrate, 0xffff_ffff_ffff_ffff);
    override_float(reals, "MIBEE_EYE_CAMERA_BRIGHTNESS", &mut c.brightness);
    override_float(reals, "MIBEE_EYE_CAMERA_CONTRAST", &mut c.contrast);
    override_float(reals, "MIBEE_EYE_CAMERA_SATURATION", &mut c.saturation);
    override_float(reals, "MIBEE_EYE_CAMERA_SHARPNESS", &mut c.sharpness);
}

/// The rtsp section as the environment changes it.
pub open spec fn rtsp_overridden(c: RtspSettings, env: Map<Seq<char>, Seq<char>>) -> RtspSettings {
    RtspSettings {
        port: number_over(env, "MIBEE_EYE_RTSP_PORT"@, c.port as nat, 0xffff) as u16,
        username: text_over(env, "MIBEE_EYE_RTSP_USERNAME"@, c.username),
        password: text_over(env, "MIBEE_EYE_RTSP_PASSWORD"@, c.password),
    }
}

fn override_rtsp(c: &mut RTSPConfig, env: &TextMap<String>)
    ensures
        final(c)@ == rtsp_overridden(old(c)@, texts(env@)),
{
    c.port = override_int(env, "MIBEE_EYE_RTSP_PORT", c.port as u64, 0xffff) as u16;
    override_str(env, "MIBEE_EYE_RTSP_USERNAME", &mut c.username);
    override_str(env, "MIBEE_EYE_RTSP_PASSWORD", &mut c.password);
}

/// The onvif section as the environment changes it.
pub open spec fn onvif_overridden(c: OnvifSettings, env: Map<Seq<char>, Seq<char>>) -> OnvifSettings {
    OnvifSettings {
        port: number_over(env, "MIBEE_EYE_ONVIF_PORT"@, c.port as nat, 0xffff) as u16,
        username: text_over(env, "MIBEE_EYE_ONVIF_USERNAME"@, c.username),
        password: text_over(env, "MIBEE_EYE_ONVIF_PASSWORD"@, c.password),
        ..c
    }
}

fn override_onvif(c: &mut ONVIFConfig, env: &TextMap<String>)
    ensures
        final(c)@ == onvif_overridden(old(c)@, texts(env@)),
{
    c.port = override_int(env, "MIBEE_EYE_ONVIF_PORT", c.port as u64, 0xffff) as u16;
    override_str(env, "MIBEE_EYE_ONVIF_USERNAME", &mut c.username);
    override_str(env, "MIBEE_EYE_ONVIF_PASSWORD", &mut c.password);
}

/// The gb35114 section as the environment changes it.
pub open spec fn gb35114_overridden(c: Gb35114Settings, env: Map<Seq<char>, Seq<char>>) -> Gb35114Settings {
    Gb35114Settings {
        enabled: bool_over(env, "MIBEE_EYE_GB28181_GB35114_ENABLED"@, c.enabled),
        device_cert_file: text_over(env, "MIBEE_EYE_GB28181_GB35114_DEVICE_CERT_FILE"@, c.device_cert_file),
        device_key_file: text_over(env, "MIBEE_EYE_GB28181_GB35114_DEVICE_KEY_FILE"@, c.device_key_file),
        platform_cert_file: text_over(env, "MIBEE_EYE_GB28181_GB35114_PLATFORM_CERT_FILE"@, c.platform_cert_file),
        server_id: text_over(env, "MIBEE_EYE_GB28181_GB35114_SERVER_ID"@, c.server_id),
    }
}

fn override_gb35114(c: &mut Gb35114Config, env: &TextMap<String>)
    ensures
        final(c)@ == gb35114_overridden(old(c)@, texts(env@)),
{
    override_bool(env, "MIBEE_EYE_GB28181_GB35114_ENABLED", &mut c.enabled);
    override_str(env, "MIBEE_EYE_GB28181_GB35114_DEVICE_CERT_FILE", &mut c.device_cert_file);
    override_str(env, "MIBEE_EYE_GB28181_GB35114_DEVICE_KEY_FILE", &mut c.device_key_file);
    override_str(env, "MIBEE_EYE_GB28181_GB35114_PLATFORM_CERT_FILE", &mut c.platform_cert_file);
    override_str(env, "MIBEE_EYE_GB28181_GB35114_SERVER_ID", &mut c.server_id);
}

/// The gb28181 section as the environment changes it.
pub open spec fn gb28181_overridden(c: Gb28181Settings, env: Map<Seq<char>, Seq<char>>) -> Gb28181Settings {
    Gb28181Settings {
        enabled: bool_over(env, "MIBEE_EYE_GB28181_ENABLED"@, c.enabled),
        platform_sip_address: text_over(env, "MIBEE_EYE_GB28181_PLATFORM_SIP_ADDRESS"@, c.platform_sip_address),
        platform_sip_port: number_over(env, "MIBEE_EYE_GB28181_PLATFORM_SIP_PORT"@, c.platform_sip_port as nat, 0xffff) as u16,
        device_id: text_over(env, "MIBEE_EYE_GB28181_DEVICE_ID"@, c.device_id),
        channel_id: text_over(env, "MIBEE_EYE_GB28181_CHANNEL_ID"@, c.channel_id),
        sip_domain: text_over(env, "MIBEE_EYE_GB28181_SIP_DOMAIN"@, c.sip_domain),
        password: text_over(env, "MIBEE_EYE_GB28181_PASSWORD"@, c.password),
        gb35114: gb35114_overridden(c.gb35114, env),
        local_sip_port: number_over(env, "MIBEE_EYE_GB28181_LOCAL_SIP_PORT"@, c.local_sip_port as nat, 0xffff) as u16,
        register_interval_secs: number_over(env, "MIBEE_EYE_GB28181_REGISTER_INTERVAL_SECS"@, c.register_interval_secs as nat, 0xffff_ffff_ffff_ffff) as u64,
        heartbeat_interval_secs: number_over(env, "MIBEE_EYE_GB28181_HEARTBEAT_INTERVAL_SECS"@, c.heartbeat_interval_secs as nat, 0xffff_ffff_ffff_ffff) as u64,
        heartbeat_timeout_count: number_over(env, "MIBEE_EYE_GB28181_HEARTBEAT_TIMEOUT_COUNT"@, c.heartbeat_timeout_count as nat, 0xffff_ffff) as u32,
        transport: transport_over(env, "MIBEE_EYE_GB28181_TRANSPORT"@, c.transport),
        ..c
    }
}

fn override_gb28181(c: &mut Gb28181Config, env: &TextMap<String>)
    ensures
        final(c)@ == gb28181_overridden(old(c)@, texts(env@)),
{
    override_bool(env, "MIBEE_EYE_GB28181_ENABLED", &mut c.enabled);
    override_str(env, "MIBEE_EYE_GB28181_PLATFORM_SIP_ADDRESS", &mut c.platform_sip_address);
    c.platform_sip_port = override_int(env, "MIBEE_EYE_GB28181_PLATFORM_SIP_PORT", c.platform_sip_port as u64, 0xffff) as u16;
    override_str(env, "MIBEE_EYE_GB28181_DEVICE_ID", &mut c.device_id);
    override_str(env, "MIBEE_EYE_GB28181_CHANNEL_ID", &mut c.channel_id);
    override_str(env, "MIBEE_EYE_GB28181_SIP_DOMAIN", &mut c.sip_domain);
    override_str(env, "MIBEE_EYE_GB28181_PASSWORD", &mut c.password);
    override_gb35114(&mut c.gb35114, env);
    c.local_sip_port = override_int(env, "MIBEE_EYE_GB28181_LOCAL_SIP_PORT", c.local_sip_port as u64, 0xffff) as u16;
    c.register_interval_secs = override_int(env, "MIBEE_EYE_GB28181_REGISTER_INTERVAL_SECS", c.register_interval_secs, 0xffff_ffff_ffff_ffff);
    c.heartbeat_interval_secs = override_int(env, "MIBEE_EYE_GB28181_HEARTBEAT_INTERVAL_SECS", c.heartbeat_interval_secs, 0xffff_ffff_ffff_ffff);
    c.heartbeat_timeout_count = override_int(env, "MIBEE_EYE_GB28181_HEARTBEAT_TIMEOUT_COUNT", c.heartbeat_timeout_count as u64, 0xffff_ffff) as u32;
    override_transport(env, "MIBEE_EYE_GB28181_TRANSPORT", &mut c.transport);
}

/// The recording section as the environment changes it.
pub open spec fn recording_overridden(c: RecordingSettings, env: Map<Seq<char>, Seq<char>>) -> RecordingSettings {
    RecordingSettings {
        enabled: bool_over(env, "MIBEE_EYE_RECORDING_ENABLED"@, c.enabled),
        storage_path: text_over(env, "MIBEE_EYE_RECORDING_STORAGE_PATH"@, c.storage_path),
        segment_secs: number_over(env, "MIBEE_EYE_RECORDING_SEGMENT_SECS"@, c.segment_secs as nat, 0xffff_ffff_ffff_ffff) as u64,
        retention_days: number_over(env, "MIBEE_EYE_RECORDING_RETENTION_DAYS"@, c.retention_days as nat, 0xffff_ffff) as u32,
        max_storage_mb: number_over(env, "MIBEE_EYE_RECORDING_MAX_STORAGE_MB"@, c.max_storage_mb as nat, 0xffff_ffff_ffff_ffff) as u64,
    }
}

fn override_recording(c: &mut RecordingConfig, env: &TextMap<String>)
    ensures
        final(c)@ == recording_overridden(old(c)@, texts(env@)),
{
    override_bool(env, "MIBEE_EYE_RECORDING_ENABLED", &mut c.enabled);
    override_str(env, "MIBEE_EYE_RECORDING_STORAGE_PATH", &mut c.storage_path);
    c.segment_secs = override_int(env, "MIBEE_EYE_RECORDING_SEGMENT_SECS", c.segment_secs, 0xffff_ffff_ffff_ffff);
    c.retention_days = override_int(env, "MIBEE_EYE_RECORDING_RETENTION_DAYS", c.retention_days as u64, 0xffff_ffff) as u32;
    c.max_storage_mb = override_int(env, "MIBEE_EYE_RECORDING_MAX_STORAGE_MB", c.max_storage_mb, 0xffff_ffff_ffff_ffff);
}

/// The watermark section as the environment changes it.
pub open spec fn watermark_overridden(c: WatermarkSettings, env: Map<Seq<char>, Seq<char>>) -> WatermarkSettings {
    WatermarkSettings {
        enabled: bool_over(env, "MIBEE_EYE_WATERMARK_ENABLED"@, c.enabled),
        text: text_over(env, "MIBEE_EYE_WATERMARK_TEXT"@, c.text),
        show_timestamp: bool_over(env, "MIBEE_EYE_WATERMARK_SHOW_TIMESTAMP"@, c.show_timestamp),
        timestamp_format: text_over(env, "MIBEE_EYE_WATERMARK_TIMESTAMP_FORMAT"@, c.timestamp_format),
        font_size: number_over(env, "MIBEE_EYE_WATERMARK_FONT_SIZE"@, c.font_size as nat, 0xffff_ffff) as u32,
        font_path: text_over(env, "MIBEE_EYE_WATERMARK_FONT_PATH"@, c.font_path),
        position: position_over(env, "MIBEE_EYE_WATERMARK_POSITION"@, c.position),
    }
}

fn override_watermark(c: &mut WatermarkConfig, env: &TextMap<String>)
    ensures
        final(c)@ == watermark_overridden(old(c)@, texts(env@)),
{
    override_bool(env, "MIBEE_EYE_WATERMARK_ENABLED", &mut c.enabled);
    override_str(env, "MIBEE_EYE_WATERMARK_TEXT", &mut c.text);
    override_bool(env, "MIBEE_EYE_WATERMARK_SHOW_TIMESTAMP", &mut c.show_timestamp);
    override_str(env, "MIBEE_EYE_WATERMARK_TIMESTAMP_FORMAT", &mut c.timestamp_format);
    c.font_size = override_int(env, "MIBEE_EYE_WATERMARK_FONT_SIZE", c.font_size as u64, 0xffff_ffff) as u32;
    override_str(env, "MIBEE_EYE_WATERMARK_FONT_PATH", &mut c.font_path);
    override_position(env, "MIBEE_EYE_WATERMARK_POSITION", &mut c.position);
}

/// The web section as the environment changes it.
pub open spec fn web_overridden(c: WebSettings, env: Map<Seq<char>, Seq<char>>) -> WebSettings {
    WebSettings {
        enabled: bool_over(env, "MIBEE_EYE_WEB_ENABLED"@, c.enabled),
        port: number_over(env, "MIBEE_EYE_WEB_PORT"@, c.port as nat, 0xffff) as u16,
        username: text_over(env, "MIBEE_EYE_WEB_USERNAME"@, c.username),
        password: text_over(env, "MIBEE_EYE_WEB_PASSWORD"@, c.password),
        tls_enabled: bool_over(env, "MIBEE_EYE_WEB_TLS_ENABLED"@, c.tls_enabled),
    }
}

fn override_web(c: &mut WebConfig, env: &TextMap<String>)
    ensures
        final(c)@ == web_overridden(old(c)@, texts(env@)),
{
    override_bool(env, "MIBEE_EYE_WEB_ENABLED", &mut c.enabled);
    c.port = override_int(env, "MIBEE_EYE_WEB_PORT", c.port as u64, 0xffff) as u16;
    override_str(env, "MIBEE_EYE_WEB_USERNAME", &mut c.username);
    override_str(env, "MIBEE_EYE_WEB_PASSWORD", &mut c.password);
    override_bool(env, "MIBEE_EYE_WEB_TLS_ENABLED", &mut c.tls_enabled);
}

/// The device section as the environment changes it.
pub open spec fn device_overridden(c: DeviceSettings, env: Map<Seq<char>, Seq<char>>) -> DeviceSettings {
    DeviceSettings {
        name: text_over(env, "MIBEE_EYE_DEVICE_NAME"@, c.name),
        manufacturer: text_over(env, "MIBEE_EYE_DEVICE_MANUFACTURER"@, c.manufacturer),
        model: text_over(env, "MIBEE_EYE_DEVICE_MODEL"@, c.model),
        firmware: text_over(env, "MIBEE_EYE_DEVICE_FIRMWARE"@, c.firmware),
        hardware_id: text_over(env, "MIBEE_EYE_DEVICE_HARDWAREID"@, c.hardware_id),
        serial_number: text_over(env, "MIBEE_EYE_DEVICE_SERIALNUMBER"@, c.serial_number),
    }
}

fn override_device(c: &mut DeviceConfig, env: &TextMap<String>)
    ensures
        final(c)@ == device_overridden(old(c)@, texts(env@)),
{
    override_str(env, "MIBEE_EYE_DEVICE_NAME", &mut c.name);
    override_str(env, "MIBEE_EYE_DEVICE_MANUFACTURER", &mut c.manufacturer);
    override_str(env, "MIBEE_EYE_DEVICE_MODEL", &mut c.model);
    override_str(env, "MIBEE_EYE_DEVICE_FIRMWARE", &mut c.firmware);
    override_str(env, "MIBEE_EYE_DEVICE_HARDWAREID", &mut c.hardware_id);
    override_str(env, "MIBEE_EYE_DEVICE_SERIALNUMBER", &mut c.serial_number);
}

/// The logging section as the environment changes it.
pub open spec fn logging_overridden(c: LoggingSettings, env: Map<Seq<char>, Seq<char>>) -> LoggingSettings {
    LoggingSettings {
        level: text_over(env, "MIBEE_EYE_LOGGING_LEVEL"@, c.level),
    }
}

fn override_logging(c: &mut LoggingConfig, env: &TextMap<String>)
    ensures
        final(c)@ == logging_overridden(old(c)@, texts(env@)),
{
    override_str(env, "MIBEE_EYE_LOGGING_LEVEL", &mut c.level);
}

/// The configuration as the environment changes it. Real numbers come read:
/// those that are set to one.
pub open spec fn overridden(
    c: Settings,
    env: Map<Seq<char>, Seq<char>>,
    reals: Map<Seq<char>, RealValue>,
) -> Settings {
    Settings {
        camera: camera_overridden(c.camera, env, reals),
        rtsp: rtsp_overridden(c.rtsp, env),
        onvif: onvif_overridden(c.onvif, env),
        gb28181: gb28181_overridden(c.gb28181, env),
        recording: recording_overridden(c.recording, env),
        watermark: watermark_overridden(c.watermark, env),
        web: web_overridden(c.web, env),
        device: device_overridden(c.device, env),
        logging: logging_overridden(c.logging, env),
        ..c
    }
}

/// Applies the environment to the configuration. `reals` holds the variables
/// whose values are real numbers.
pub fn apply_env_overrides(config: &mut Config, env: &TextMap<String>, reals: &TextMap<Real>)
    ensures
        final(config)@ == overridden(old(config)@, texts(env@), reals_of(reals@)),
{
    override_camera(&mut config.camera, env, reals);
    override_rtsp(&mut config.rtsp, env);
    override_onvif(&mut config.onvif, env);
    override_gb28181(&mut config.gb28181, env);
    override_recording(&mut config.recording, env);
    override_watermark(&mut config.watermark, env);
    override_web(&mut config.web, env);
    override_device(&mut config.device, env);
    override_logging(&mut config.logging, env);
}

/// Without variables nothing changes.
pub proof fn nothing_set_changes_nothing(c: Settings)
    ensures
        overridden(c, Map::empty(), Map::empty()) == c,
{
}

proof fn lemma_camera_twice(
    c: CameraSettings,
    env: Map<Seq<char>, Seq<char>>,
    reals: Map<Seq<char>, RealValue>,
)
    ensures
        camera_overridden(camera_overridden(c, env, reals), env, reals) == camera_overridden(c, env, reals),
{
}

proof fn lemma_rtsp_twice(
    c: RtspSettings,
    env: Map<Seq<char>, Seq<char>>,
)
    ensures
        rtsp_overridden(rtsp_overridden(c, env), env) == rtsp_overridden(c, env),
{
}

proof fn lemma_onvif_twice(
    c: OnvifSettings,
    env: Map<Seq<char>, Seq<char>>,
)
    ensures
        onvif_overridden(onvif_overridden(c, env), env) == onvif_overridden(c, env),
{
}

proof fn lemma_gb28181_twice(
    c: Gb28181Settings,
    env: Map<Seq<char>, Seq<char>>,
)
    ensures
        gb28181_overridden(gb28181_overridden(c, env), env) == gb28181_overridden(c, env),
{
}

proof fn lemma_recording_twice(
    c: RecordingSettings,
    env: Map<Seq<char>, Seq<char>>,
)
    ensures
        recording_overridden(recording_overridden(c, env), env) == recording_overridden(c, env),
{
}

proof fn lemma_watermark_twice(
    c: WatermarkSettings,
    env: Map<Seq<char>, Seq<char>>,
)
    ensures
        watermark_overridden(watermark_overridden(c, env), env) == watermark_overridden(c, env),
{
}

proof fn lemma_web_twice(
    c: WebSettings,
    env: Map<Seq<char>, Seq<char>>,
)
    ensures
        web_overridden(web_overridden(c, env), env) == web_overridden(c, env),
{
}

proof fn lemma_device_twice(
    c: DeviceSettings,
    env: Map<Seq<char>, Seq<char>>,
)
    ensures
        device_overridden(device_overridden(c, env), env) == device_overridden(c, env),
{
}

/// Applying the same environment twice is applying it once.
pub proof fn overriding_twice_is_overriding_once(
    c: Settings,
    env: Map<Seq<char>, Seq<char>>,
    reals: Map<Seq<char>, RealValue>,
)
    ensures
        overridden(overridden(c, env, reals), env, reals) == overridden(c, env, reals),
{
    lemma_camera_twice(c.camera, env, reals);
    lemma_rtsp_twice(c.rtsp, env);
    lemma_onvif_twice(c.onvif, env);
    lemma_gb28181_twice(c.gb28181, env);
    lemma_recording_twice(c.recording, env);
    lemma_watermark_twice(c.watermark, env);
    lemma_web_twice(c.web, env);
    lemma_device_twice(c.device, env);
}

/// A value that is no number leaves the number as it was, and one that is no
/// switch the switch.
pub proof fn unreadable_values_are_passed_over(
    env: Map<Seq<char>, Seq<char>>,
    name: Seq<char>,
    number: nat,
    max: nat,
    switch: bool,
)
    requires
        env.dom().contains(name),
    ensures
        parse_unsigned(env[name], max) is None ==> number_over(env, name, number, max) == number,
        env[name] != "true"@ && env[name] != "false"@ ==> bool_over(env, name, switch) == switch,
{
}

} // verus!
