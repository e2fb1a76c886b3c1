//! What each variable of the environment is for: it reaches its own setting,
//! and no other.

use vstd::prelude::*;
use crate::text::{parse_unsigned, same_ignoring_case};
use super::number::RealValue;
use super::overrides::{
    camera_overridden, device_overridden, gb28181_overridden, gb35114_overridden,
    logging_overridden, onvif_overridden, overridden, recording_overridden, rtsp_overridden,
    watermark_overridden, web_overridden,
};
use super::types::{
    CameraSettings, DeviceSettings, Gb28181Settings, Gb35114Settings, LoggingSettings,
    OnvifSettings, Position, RecordingSettings, RtspSettings, Settings, Transport,
    WatermarkSettings, WebSettings,
};

verus! {


/// Length and two characters of a text, by which the variables of a section
/// differ.
spec fn mark(s: Seq<char>) -> (nat, char, char) {
    (s.len(), s[s.len() - 10], s[s.len() - 4])
}

/// The two characters by which the sections of variables differ.
spec fn section(s: Seq<char>) -> (char, char) {
    (s[10], s[11])
}

proof fn lemma_camera_marks()
    ensures
        section("MIBEE_EYE_CAMERA_DEVICE"@) == ('C', 'A'),
        mark("MIBEE_EYE_CAMERA_DEVICE"@) == (23nat, 'E', 'V'),
        section("MIBEE_EYE_CAMERA_MODE"@) == ('C', 'A'),
        mark("MIBEE_EYE_CAMERA_MODE"@) == (21nat, 'A', 'M'),
        section("MIBEE_EYE_CAMERA_ENCODER"@) == ('C', 'A'),
        mark("MIBEE_EYE_CAMERA_ENCODER"@) == (24nat, 'R', 'O'),
        section("MIBEE_EYE_CAMERA_ENCODER_DEVICE"@) == ('C', 'A'),
        mark("MIBEE_EYE_CAMERA_ENCODER_DEVICE"@) == (31nat, 'D', 'V'),
        section("MIBEE_EYE_CAMERA_RTSP_URL"@) == ('C', 'A'),
        mark("MIBEE_EYE_CAMERA_RTSP_URL"@) == (25nat, 'A', '_'),
        section("MIBEE_EYE_CAMERA_WIDTH"@) == ('C', 'A'),
        mark("MIBEE_EYE_CAMERA_WIDTH"@) == (22nat, 'M', 'I'),
        section("MIBEE_EYE_CAMERA_HEIGHT"@) == ('C', 'A'),
        mark("MIBEE_EYE_CAMERA_HEIGHT"@) == (23nat, 'E', 'I'),
        section("MIBEE_EYE_CAMERA_FPS"@) == ('C', 'A'),
        mark("MIBEE_EYE_CAMERA_FPS"@) == (20nat, 'C', '_'),
        section("MIBEE_EYE_CAMERA_CODEC"@) == ('C', 'A'),
        mark("MIBEE_EYE_CAMERA_CODEC"@) == (22nat, 'M', 'O'),
        section("MIBEE_EYE_CAMERA_BITRATE"@) == ('C', 'A'),
        mark("MIBEE_EYE_CAMERA_BITRATE"@) == (24nat, 'R', 'R'),
        section("MIBEE_EYE_CAMERA_BRIGHTNESS"@) == ('C', 'A'),
        mark("MIBEE_EYE_CAMERA_BRIGHTNESS"@) == (27nat, 'B', 'N'),
        section("MIBEE_EYE_CAMERA_CONTRAST"@) == ('C', 'A'),
        mark("MIBEE_EYE_CAMERA_CONTRAST"@) == (25nat, 'A', 'R'),
        section("MIBEE_EYE_CAMERA_SATURATION"@) == ('C', 'A'),
        mark("MIBEE_EYE_CAMERA_SATURATION"@) == (27nat, 'S', 'T'),
        section("MIBEE_EYE_CAMERA_SHARPNESS"@) == ('C', 'A'),
        mark("MIBEE_EYE_CAMERA_SHARPNESS"@) == (26nat, '_', 'N'),
{
    reveal_strlit("MIBEE_EYE_CAMERA_DEVICE");
    reveal_strlit("MIBEE_EYE_CAMERA_MODE");
    reveal_strlit("MIBEE_EYE_CAMERA_ENCODER");
    reveal_strlit("MIBEE_EYE_CAMERA_ENCODER_DEVICE");
    reveal_strlit("MIBEE_EYE_CAMERA_RTSP_URL");
    reveal_strlit("MIBEE_EYE_CAMERA_WIDTH");
    reveal_strlit("MIBEE_EYE_CAMERA_HEIGHT");
    reveal_strlit("MIBEE_EYE_CAMERA_FPS");
    reveal_strlit("MIBEE_EYE_CAMERA_CODEC");
    reveal_strlit("MIBEE_EYE_CAMERA_BITRATE");
    reveal_strlit("MIBEE_EYE_CAMERA_BRIGHTNESS");
    reveal_strlit("MIBEE_EYE_CAMERA_CONTRAST");
    reveal_strlit("MIBEE_EYE_CAMERA_SATURATION");
    reveal_strlit("MIBEE_EYE_CAMERA_SHARPNESS");
}

proof fn lemma_rtsp_marks()
    ensures
        section("MIBEE_EYE_RTSP_PORT"@) == ('R', 'T'),
        mark("MIBEE_EYE_RTSP_PORT"@) == (19nat, '_', 'P'),
        section("MIBEE_EYE_RTSP_USERNAME"@) == ('R', 'T'),
        mark("MIBEE_EYE_RTSP_USERNAME"@) == (23nat, 'P', 'N'),
        section("MIBEE_EYE_RTSP_PASSWORD"@) == ('R', 'T'),
        mark("MIBEE_EYE_RTSP_PASSWORD"@) == (23nat, 'P', 'W'),
{
    reveal_strlit("MIBEE_EYE_RTSP_PORT");
    reveal_strlit("MIBEE_EYE_RTSP_USERNAME");
    reveal_strlit("MIBEE_EYE_RTSP_PASSWORD");
}

proof fn lemma_onvif_marks()
    ensures
        section("MIBEE_EYE_ONVIF_PORT"@) == ('O', 'N'),
        mark("MIBEE_EYE_ONVIF_PORT"@) == (20nat, 'O', 'P'),
        section("MIBEE_EYE_ONVIF_USERNAME"@) == ('O', 'N'),
        mark("MIBEE_EYE_ONVIF_USERNAME"@) == (24nat, 'F', 'N'),
        section("MIBEE_EYE_ONVIF_PASSWORD"@) == ('O', 'N'),
        mark("MIBEE_EYE_ONVIF_PASSWORD"@) == (24nat, 'F', 'W'),
{
    reveal_strlit("MIBEE_EYE_ONVIF_PORT");
    reveal_strlit("MIBEE_EYE_ONVIF_USERNAME");
    reveal_strlit("MIBEE_EYE_ONVIF_PASSWORD");
}

proof fn lemma_gb35114_marks()
    ensures
        section("MIBEE_EYE_GB28181_GB35114_ENABLED"@) == ('G', 'B'),
        mark("MIBEE_EYE_GB28181_GB35114_ENABLED"@) == (33nat, '1', 'B'),
        section("MIBEE_EYE_GB28181_GB35114_DEVICE_CERT_FILE"@) == ('G', 'B'),
        mark("MIBEE_EYE_GB28181_GB35114_DEVICE_CERT_FILE"@) == (42nat, '_', 'F'),
        section("MIBEE_EYE_GB28181_GB35114_DEVICE_KEY_FILE"@) == ('G', 'B'),
        mark("MIBEE_EYE_GB28181_GB35114_DEVICE_KEY_FILE"@) == (41nat, 'E', 'F'),
        section("MIBEE_EYE_GB28181_GB35114_PLATFORM_CERT_FILE"@) == ('G', 'B'),
        mark("MIBEE_EYE_GB28181_GB35114_PLATFORM_CERT_FILE"@) == (44nat, '_', 'F'),
        section("MIBEE_EYE_GB28181_GB35114_SERVER_ID"@) == ('G', 'B'),
        mark("MIBEE_EYE_GB28181_GB35114_SERVER_ID"@) == (35nat, '_', 'R'),
{
    reveal_strlit("MIBEE_EYE_GB28181_GB35114_ENABLED");
    reveal_strlit("MIBEE_EYE_GB28181_GB35114_DEVICE_CERT_FILE");
    reveal_strlit("MIBEE_EYE_GB28181_GB35114_DEVICE_KEY_FILE");
    reveal_strlit("MIBEE_EYE_GB28181_GB35114_PLATFORM_CERT_FILE");
    reveal_strlit("MIBEE_EYE_GB28181_GB35114_SERVER_ID");
}

proof fn lemma_gb28181_marks()
    ensures
        section("MIBEE_EYE_GB28181_ENABLED"@) == ('G', 'B'),
        mark("MIBEE_EYE_GB28181_ENABLED"@) == (25nat, '8', 'B'),
        section("MIBEE_EYE_GB28181_PLATFORM_SIP_ADDRESS"@) == ('G', 'B'),
        mark("MIBEE_EYE_GB28181_PLATFORM_SIP_ADDRESS"@) == (38nat, 'I', 'R'),
        section("MIBEE_EYE_GB28181_PLATFORM_SIP_PORT"@) == ('G', 'B'),
        mark("MIBEE_EYE_GB28181_PLATFORM_SIP_PORT"@) == (35nat, 'M', 'P'),
        section("MIBEE_EYE_GB28181_DEVICE_ID"@) == ('G', 'B'),
        mark("MIBEE_EYE_GB28181_DEVICE_ID"@) == (27nat, '_', 'E'),
        section("MIBEE_EYE_GB28181_CHANNEL_ID"@) == ('G', 'B'),
        mark("MIBEE_EYE_GB28181_CHANNEL_ID"@) == (28nat, 'C', 'L'),
        section("MIBEE_EYE_GB28181_SIP_DOMAIN"@) == ('G', 'B'),
        mark("MIBEE_EYE_GB28181_SIP_DOMAIN"@) == (28nat, 'S', 'M'),
        section("MIBEE_EYE_GB28181_PASSWORD"@) == ('G', 'B'),
        mark("MIBEE_EYE_GB28181_PASSWORD"@) == (26nat, '1', 'W'),
        section("MIBEE_EYE_GB28181_LOCAL_SIP_PORT"@) == ('G', 'B'),
        mark("MIBEE_EYE_GB28181_LOCAL_SIP_PORT"@) == (32nat, 'L', 'P'),
        section("MIBEE_EYE_GB28181_REGISTER_INTERVAL_SECS"@) == ('G', 'B'),
        mark("MIBEE_EYE_GB28181_REGISTER_INTERVAL_SECS"@) == (40nat, 'E', 'S'),
        section("MIBEE_EYE_GB28181_HEARTBEAT_INTERVAL_SECS"@) == ('G', 'B'),
        mark("MIBEE_EYE_GB28181_HEARTBEAT_INTERVAL_SECS"@) == (41nat, 'E', 'S'),
        section("MIBEE_EYE_GB28181_HEARTBEAT_TIMEOUT_COUNT"@) == ('G', 'B'),
        mark("MIBEE_EYE_GB28181_HEARTBEAT_TIMEOUT_COUNT"@) == (41nat, 'E', 'O'),
        section("MIBEE_EYE_GB28181_TRANSPORT"@) == ('G', 'B'),
        mark("MIBEE_EYE_GB28181_TRANSPORT"@) == (27nat, '_', 'P'),
{
    reveal_strlit("MIBEE_EYE_GB28181_ENABLED");
    reveal_strlit("MIBEE_EYE_GB28181_PLATFORM_SIP_ADDRESS");
    reveal_strlit("MIBEE_EYE_GB28181_PLATFORM_SIP_PORT");
    reveal_strlit("MIBEE_EYE_GB28181_DEVICE_ID");
    reveal_strlit("MIBEE_EYE_GB28181_CHANNEL_ID");
    reveal_strlit("MIBEE_EYE_GB28181_SIP_DOMAIN");
    reveal_strlit("MIBEE_EYE_GB28181_PASSWORD");
    reveal_strlit("MIBEE_EYE_GB28181_LOCAL_SIP_PORT");
    reveal_strlit("MIBEE_EYE_GB28181_REGISTER_INTERVAL_SECS");
    reveal_strlit("MIBEE_EYE_GB28181_HEARTBEAT_INTERVAL_SECS");
    reveal_strlit("MIBEE_EYE_GB28181_HEARTBEAT_TIMEOUT_COUNT");
    reveal_strlit("MIBEE_EYE_GB28181_TRANSPORT");
}

proof fn lemma_recording_marks()
    ensures
        section("MIBEE_EYE_RECORDING_ENABLED"@) == ('R', 'E'),
        mark("MIBEE_EYE_RECORDING_ENABLED"@) == (27nat, 'N', 'B'),
        section("MIBEE_EYE_RECORDING_STORAGE_PATH"@) == ('R', 'E'),
        mark("MIBEE_EYE_RECORDING_STORAGE_PATH"@) == (32nat, 'O', 'P'),
        section("MIBEE_EYE_RECORDING_SEGMENT_SECS"@) == ('R', 'E'),
        mark("MIBEE_EYE_RECORDING_SEGMENT_SECS"@) == (32nat, 'G', 'S'),
        section("MIBEE_EYE_RECORDING_RETENTION_DAYS"@) == ('R', 'E'),
        mark("MIBEE_EYE_RECORDING_RETENTION_DAYS"@) == (34nat, 'N', 'D'),
        section("MIBEE_EYE_RECORDING_MAX_STORAGE_MB"@) == ('R', 'E'),
        mark("MIBEE_EYE_RECORDING_MAX_STORAGE_MB"@) == (34nat, 'S', 'E'),
{
    reveal_strlit("MIBEE_EYE_RECORDING_ENABLED");
    reveal_strlit("MIBEE_EYE_RECORDING_STORAGE_PATH");
    reveal_strlit("MIBEE_EYE_RECORDING_SEGMENT_SECS");
    reveal_strlit("MIBEE_EYE_RECORDING_RETENTION_DAYS");
    reveal_strlit("MIBEE_EYE_RECORDING_MAX_STORAGE_MB");
}

proof fn lemma_watermark_marks()
    ensures
        section("MIBEE_EYE_WATERMARK_ENABLED"@) == ('W', 'A'),
        mark("MIBEE_EYE_WATERMARK_ENABLED"@) == (27nat, 'R', 'B'),
        section("MIBEE_EYE_WATERMARK_TEXT"@) == ('W', 'A'),
        mark("MIBEE_EYE_WATERMARK_TEXT"@) == (24nat, 'R', 'T'),
        section("MIBEE_EYE_WATERMARK_SHOW_TIMESTAMP"@) == ('W', 'A'),
        mark("MIBEE_EYE_WATERMARK_SHOW_TIMESTAMP"@) == (34nat, '_', 'T'),
        section("MIBEE_EYE_WATERMARK_TIMESTAMP_FORMAT"@) == ('W', 'A'),
        mark("MIBEE_EYE_WATERMARK_TIMESTAMP_FORMAT"@) == (36nat, 'A', 'R'),
        section("MIBEE_EYE_WATERMARK_FONT_SIZE"@) == ('W', 'A'),
        mark("MIBEE_EYE_WATERMARK_FONT_SIZE"@) == (29nat, '_', 'S'),
        section("MIBEE_EYE_WATERMARK_FONT_PATH"@) == ('W', 'A'),
        mark("MIBEE_EYE_WATERMARK_FONT_PATH"@) == (29nat, '_', 'P'),
        section("MIBEE_EYE_WATERMARK_POSITION"@) == ('W', 'A'),
        mark("MIBEE_EYE_WATERMARK_POSITION"@) == (28nat, 'K', 'T'),
{
    reveal_strlit("MIBEE_EYE_WATERMARK_ENABLED");
    reveal_strlit("MIBEE_EYE_WATERMARK_TEXT");
    reveal_strlit("MIBEE_EYE_WATERMARK_SHOW_TIMESTAMP");
    reveal_strlit("MIBEE_EYE_WATERMARK_TIMESTAMP_FORMAT");
    reveal_strlit("MIBEE_EYE_WATERMARK_FONT_SIZE");
    reveal_strlit("MIBEE_EYE_WATERMARK_FONT_PATH");
    reveal_strlit("MIBEE_EYE_WATERMARK_POSITION");
}

proof fn lemma_web_marks()
    ensures
        section("MIBEE_EYE_WEB_ENABLED"@) == ('W', 'E'),
        mark("MIBEE_EYE_WEB_ENABLED"@) == (21nat, 'E', 'B'),
        section("MIBEE_EYE_WEB_PORT"@) == ('W', 'E'),
        mark("MIBEE_EYE_WEB_PORT"@) == (18nat, 'E', 'P'),
        section("MIBEE_EYE_WEB_USERNAME"@) == ('W', 'E'),
        mark("MIBEE_EYE_WEB_USERNAME"@) == (22nat, 'B', 'N'),
        section("MIBEE_EYE_WEB_PASSWORD"@) == ('W', 'E'),
        mark("MIBEE_EYE_WEB_PASSWORD"@) == (22nat, 'B', 'W'),
        section("MIBEE_EYE_WEB_TLS_ENABLED"@) == ('W', 'E'),
        mark("MIBEE_EYE_WEB_TLS_ENABLED"@) == (25nat, 'L', 'B'),
{
    reveal_strlit("MIBEE_EYE_WEB_ENABLED");
    reveal_strlit("MIBEE_EYE_WEB_PORT");
    reveal_strlit("MIBEE_EYE_WEB_USERNAME");
    reveal_strlit("MIBEE_EYE_WEB_PASSWORD");
    reveal_strlit("MIBEE_EYE_WEB_TLS_ENABLED");
}

proof fn lemma_device_marks()
    ensures
        section("MIBEE_EYE_DEVICE_NAME"@) == ('D', 'E'),
        mark("MIBEE_EYE_DEVICE_NAME"@) == (21nat, 'E', 'N'),
        section("MIBEE_EYE_DEVICE_MANUFACTURER"@) == ('D', 'E'),
        mark("MIBEE_EYE_DEVICE_MANUFACTURER"@) == (29nat, 'N', 'U'),
        section("MIBEE_EYE_DEVICE_MODEL"@) == ('D', 'E'),
        mark("MIBEE_EYE_DEVICE_MODEL"@) == (22nat, 'V', 'O'),
        section("MIBEE_EYE_DEVICE_FIRMWARE"@) == ('D', 'E'),
        mark("MIBEE_EYE_DEVICE_FIRMWARE"@) == (25nat, 'E', 'W'),
        section("MIBEE_EYE_DEVICE_HARDWAREID"@) == ('D', 'E'),
        mark("MIBEE_EYE_DEVICE_HARDWAREID"@) == (27nat, 'H', 'R'),
        section("MIBEE_EYE_DEVICE_SERIALNUMBER"@) == ('D', 'E'),
        mark("MIBEE_EYE_DEVICE_SERIALNUMBER"@) == (29nat, 'R', 'M'),
{
    reveal_strlit("MIBEE_EYE_DEVICE_NAME");
    reveal_strlit("MIBEE_EYE_DEVICE_MANUFACTURER");
    reveal_strlit("MIBEE_EYE_DEVICE_MODEL");
    reveal_strlit("MIBEE_EYE_DEVICE_FIRMWARE");
    reveal_strlit("MIBEE_EYE_DEVICE_HARDWAREID");
    reveal_strlit("MIBEE_EYE_DEVICE_SERIALNUMBER");
}

proof fn lemma_logging_marks()
    ensures
        section("MIBEE_EYE_LOGGING_LEVEL"@) == ('L', 'O'),
        mark("MIBEE_EYE_LOGGING_LEVEL"@) == (23nat, 'G', 'E'),
{
    reveal_strlit("MIBEE_EYE_LOGGING_LEVEL");
}

proof fn lemma_camera_frame(
    c: CameraSettings,
    env: Map<Seq<char>, Seq<char>>,
    reals: Map<Seq<char>, RealValue>,
    name: Seq<char>,
    v: Seq<char>,
)
    requires
        section(name) != ('C', 'A'),
    ensures
        camera_overridden(c, env.insert(name, v), reals) == camera_overridden(c, env, reals),
{
    lemma_camera_marks();
}

proof fn lemma_rtsp_frame(
    c: RtspSettings,
    env: Map<Seq<char>, Seq<char>>,
    name: Seq<char>,
    v: Seq<char>,
)
    requires
        section(name) != ('R', 'T'),
    ensures
        rtsp_overridden(c, env.insert(name, v)) == rtsp_overridden(c, env),
{
    lemma_rtsp_marks();
}

proof fn lemma_onvif_frame(
    c: OnvifSettings,
    env: Map<Seq<char>, Seq<char>>,
    name: Seq<char>,
    v: Seq<char>,
)
    requires
        section(name) != ('O', 'N'),
    ensures
        onvif_overridden(c, env.insert(name, v)) == onvif_overridden(c, env),
{
    lemma_onvif_marks();
}

proof fn lemma_gb28181_frame(
    c: Gb28181Settings,
    env: Map<Seq<char>, Seq<char>>,
    name: Seq<char>,
    v: Seq<char>,
)
    requires
        section(name) != ('G', 'B'),
    ensures
        gb28181_overridden(c, env.insert(name, v)) == gb28181_overridden(c, env),
{
    lemma_gb28181_marks();
    lemma_gb35114_marks();
}

proof fn lemma_recording_frame(
    c: RecordingSettings,
    env: Map<Seq<char>, Seq<char>>,
    name: Seq<char>,
    v: Seq<char>,
)
    requires
        section(name) != ('R', 'E'),
    ensures
        recording_overridden(c, env.insert(name, v)) == recording_overridden(c, env),
{
    lemma_recording_marks();
}

proof fn lemma_watermark_frame(
    c: WatermarkSettings,
    env: Map<Seq<char>, Seq<char>>,
    name: Seq<char>,
    v: Seq<char>,
)
    requires
        section(name) != ('W', 'A'),
    ensures
        watermark_overridden(c, env.insert(name, v)) == watermark_overridden(c, env),
{
    lemma_watermark_marks();
}

proof fn lemma_web_frame(
    c: WebSettings,
    env: Map<Seq<char>, Seq<char>>,
    name: Seq<char>,
    v: Seq<char>,
)
    requires
        section(name) != ('W', 'E'),
    ensures
        web_overridden(c, env.insert(name, v)) == web_overridden(c, env),
{
    lemma_web_marks();
}

proof fn lemma_device_frame(
    c: DeviceSettings,
    env: Map<Seq<char>, Seq<char>>,
    name: Seq<char>,
    v: Seq<char>,
)
    requires
        section(name) != ('D', 'E'),
    ensures
        device_overridden(c, env.insert(name, v)) == device_overridden(c, env),
{
    lemma_device_marks();
}

proof fn lemma_logging_frame(
    c: LoggingSettings,
    env: Map<Seq<char>, Seq<char>>,
    name: Seq<char>,
    v: Seq<char>,
)
    requires
        section(name) != ('L', 'O'),
    ensures
        logging_overridden(c, env.insert(name, v)) == logging_overridden(c, env),
{
    lemma_logging_marks();
}

proof fn lemma_camera_alone(
    c: Settings,
    env: Map<Seq<char>, Seq<char>>,
    reals: Map<Seq<char>, RealValue>,
    name: Seq<char>,
    v: Seq<char>,
)
    requires
        section(name) == ('C', 'A'),
    ensures
        overridden(c, env.insert(name, v), reals) == (Settings {
            camera: camera_overridden(c.camera, env.insert(name, v), reals),
            ..overridden(c, env, reals)
        }),
{
    lemma_rtsp_frame(c.rtsp, env, name, v);
    lemma_onvif_frame(c.onvif, env, name, v);
    lemma_gb28181_frame(c.gb28181, env, name, v);
    lemma_recording_frame(c.recording, env, name, v);
    lemma_watermark_frame(c.watermark, env, name, v);
    lemma_web_frame(c.web, env, name, v);
    lemma_device_frame(c.device, env, name, v);
    lemma_logging_frame(c.logging, env, name, v);
}

proof fn lemma_rtsp_alone(
    c: Settings,
    env: Map<Seq<char>, Seq<char>>,
    reals: Map<Seq<char>, RealValue>,
    name: Seq<char>,
    v: Seq<char>,
)
    requires
        section(name) == ('R', 'T'),
    ensures
        overridden(c, env.insert(name, v), reals) == (Settings {
            rtsp: rtsp_overridden(c.rtsp, env.insert(name, v)),
            ..overridden(c, env, reals)
        }),
{
    lemma_camera_frame(c.camera, env, reals, name, v);
    lemma_onvif_frame(c.onvif, env, name, v);
    lemma_gb28181_frame(c.gb28181, env, name, v);
    lemma_recording_frame(c.recording, env, name, v);
    lemma_watermark_frame(c.watermark, env, name, v);
    lemma_web_frame(c.web, env, name, v);
    lemma_device_frame(c.device, env, name, v);
    lemma_logging_frame(c.logging, env, name, v);
}

proof fn lemma_onvif_alone(
    c: Settings,
    env: Map<Seq<char>, Seq<char>>,
    reals: Map<Seq<char>, RealValue>,
    name: Seq<char>,
    v: Seq<char>,
)
    requires
        section(name) == ('O', 'N'),
    ensures
        overridden(c, env.insert(name, v), reals) == (Settings {
            onvif: onvif_overridden(c.onvif, env.insert(name, v)),
            ..overridden(c, env, reals)
        }),
{
    lemma_camera_frame(c.camera, env, reals, name, v);
    lemma_rtsp_frame(c.rtsp, env, name, v);
    lemma_gb28181_frame(c.gb28181, env, name, v);
    lemma_recording_frame(c.recording, env, name, v);
    lemma_watermark_frame(c.watermark, env, name, v);
    lemma_web_frame(c.web, env, name, v);
    lemma_device_frame(c.device, env, name, v);
    lemma_logging_frame(c.logging, env, name, v);
}

proof fn lemma_gb28181_alone(
    c: Settings,
    env: Map<Seq<char>, Seq<char>>,
    reals: Map<Seq<char>, RealValue>,
    name: Seq<char>,
    v: Seq<char>,
)
    requires
        section(name) == ('G', 'B'),
    ensures
        overridden(c, env.insert(name, v), reals) == (Settings {
            gb28181: gb28181_overridden(c.gb28181, env.insert(name, v)),
            ..overridden(c, env, reals)
        }),
{
    lemma_camera_frame(c.camera, env, reals, name, v);
    lemma_rtsp_frame(c.rtsp, env, name, v);
    lemma_onvif_frame(c.onvif, env, name, v);
    lemma_recording_frame(c.recording, env, name, v);
    lemma_watermark_frame(c.watermark, env, name, v);
    lemma_web_frame(c.web, env, name, v);
    lemma_device_frame(c.device, env, name, v);
    lemma_logging_frame(c.logging, env, name, v);
}

proof fn lemma_recording_alone(
    c: Settings,
    env: Map<Seq<char>, Seq<char>>,
    reals: Map<Seq<char>, RealValue>,
    name: Seq<char>,
    v: Seq<char>,
)
    requires
        section(name) == ('R', 'E'),
    ensures
        overridden(c, env.insert(name, v), reals) == (Settings {
            recording: recording_overridden(c.recording, env.insert(name, v)),
            ..overridden(c, env, reals)
        }),
{
    lemma_camera_frame(c.camera, env, reals, name, v);
    lemma_rtsp_frame(c.rtsp, env, name, v);
    lemma_onvif_frame(c.onvif, env, name, v);
    lemma_gb28181_frame(c.gb28181, env, name, v);
    lemma_watermark_frame(c.watermark, env, name, v);
    lemma_web_frame(c.web, env, name, v);
    lemma_device_frame(c.device, env, name, v);
    lemma_logging_frame(c.logging, env, name, v);
}

proof fn lemma_watermark_alone(
    c: Settings,
    env: Map<Seq<char>, Seq<char>>,
    reals: Map<Seq<char>, RealValue>,
    name: Seq<char>,
    v: Seq<char>,
)
    requires
        section(name) == ('W', 'A'),
    ensures
        overridden(c, env.insert(name, v), reals) == (Settings {
            watermark: watermark_overridden(c.watermark, env.insert(name, v)),
            ..overridden(c, env, reals)
        }),
{
    lemma_camera_frame(c.camera, env, reals, name, v);
    lemma_rtsp_frame(c.rtsp, env, name, v);
    lemma_onvif_frame(c.onvif, env, name, v);
    lemma_gb28181_frame(c.gb28181, env, name, v);
    lemma_recording_frame(c.recording, env, name, v);
    lemma_web_frame(c.web, env, name, v);
    lemma_device_frame(c.device, env, name, v);
    lemma_logging_frame(c.logging, env, name, v);
}

proof fn lemma_web_alone(
    c: Settings,
    env: Map<Seq<char>, Seq<char>>,
    reals: Map<Seq<char>, RealValue>,
    name: Seq<char>,
    v: Seq<char>,
)
    requires
        section(name) == ('W', 'E'),
    ensures
        overridden(c, env.insert(name, v), reals) == (Settings {
            web: web_overridden(c.web, env.insert(name, v)),
            ..overridden(c, env, reals)
        }),
{
    lemma_camera_frame(c.camera, env, reals, name, v);
    lemma_rtsp_frame(c.rtsp, env, name, v);
    lemma_onvif_frame(c.onvif, env, name, v);
    lemma_gb28181_frame(c.gb28181, env, name, v);
    lemma_recording_frame(c.recording, env, name, v);
    lemma_watermark_frame(c.watermark, env, name, v);
    lemma_device_frame(c.device, env, name, v);
    lemma_logging_frame(c.logging, env, name, v);
}

proof fn lemma_device_alone(
    c: Settings,
    env: Map<Seq<char>, Seq<char>>,
    reals: Map<Seq<char>, RealValue>,
    name: Seq<char>,
    v: Seq<char>,
)
    requires
        section(name) == ('D', 'E'),
    ensures
        overridden(c, env.insert(name, v), reals) == (Settings {
            device: device_overridden(c.device, env.insert(name, v)),
            ..overridden(c, env, reals)
        }),
{
    lemma_camera_frame(c.camera, env, reals, name, v);
    lemma_rtsp_frame(c.rtsp, env, name, v);
    lemma_onvif_frame(c.onvif, env, name, v);
    lemma_gb28181_frame(c.gb28181, env, name, v);
    lemma_recording_frame(c.recording, env, name, v);
    lemma_watermark_frame(c.watermark, env, name, v);
    lemma_web_frame(c.web, env, name, v);
    lemma_logging_frame(c.logging, env, name, v);
}

proof fn lemma_logging_alone(
    c: Settings,
    env: Map<Seq<char>, Seq<char>>,
    reals: Map<Seq<char>, RealValue>,
    name: Seq<char>,
    v: Seq<char>,
)
    requires
        section(name) == ('L', 'O'),
    ensures
        overridden(c, env.insert(name, v), reals) == (Settings {
            logging: logging_overridden(c.logging, env.insert(name, v)),
            ..overridden(c, env, reals)
        }),
{
    lemma_camera_frame(c.camera, env, reals, name, v);
    lemma_rtsp_frame(c.rtsp, env, name, v);
    lemma_onvif_frame(c.onvif, env, name, v);
    lemma_gb28181_frame(c.gb28181, env, name, v);
    lemma_recording_frame(c.recording, env, name, v);
    lemma_watermark_frame(c.watermark, env, name, v);
    lemma_web_frame(c.web, env, name, v);
    lemma_device_frame(c.device, env, name, v);
}

#[verifier::rlimit(40)]
#[verifier::spinoff_prover]
proof fn lemma_camera_settings(
    c: CameraSettings,
    env: Map<Seq<char>, Seq<char>>,
    reals: Map<Seq<char>, RealValue>,
    v: Seq<char>,
    x: RealValue,
)
    ensures
        camera_overridden(c, env.insert("MIBEE_EYE_CAMERA_DEVICE"@, v), reals) == (CameraSettings {
            device: v,
            ..camera_overridden(c, env, reals)
        }),
        camera_overridden(c, env.insert("MIBEE_EYE_CAMERA_MODE"@, v), reals) == (CameraSettings {
            mode: v,
            ..camera_overridden(c, env, reals)
        }),
        camera_overridden(c, env.insert("MIBEE_EYE_CAMERA_ENCODER"@, v), reals) == (CameraSettings {
            encoder: v,
            ..camera_overridden(c, env, reals)
        }),
        camera_overridden(c, env.insert("MIBEE_EYE_CAMERA_ENCODER_DEVICE"@, v), reals) == (CameraSettings {
            encoder_device: v,
            ..camera_overridden(c, env, reals)
        }),
        camera_overridden(c, env.insert("MIBEE_EYE_CAMERA_RTSP_URL"@, v), reals) == (CameraSettings {
            rtsp_url: v,
            ..camera_overridden(c, env, reals)
        }),
        camera_overridden(c, env.insert("MIBEE_EYE_CAMERA_WIDTH"@, v), reals) == (CameraSettings {
            width: match parse_unsigned(v, 0xffff_ffff) {
                Some(n) => n as u32,
                None => c.width,
            },
            ..camera_overridden(c, env, reals)
        }),
        camera_overridden(c, env.insert("MIBEE_EYE_CAMERA_HEIGHT"@, v), reals) == (CameraSettings {
            height: match parse_unsigned(v, 0xffff_ffff) {
                Some(n) => n as u32,
                None => c.height,
            },
            ..camera_overridden(c, env, reals)
        }),
        camera_overridden(c, env.insert("MIBEE_EYE_CAMERA_FPS"@, v), reals) == (CameraSettings {
            fps: match parse_unsigned(v, 0xffff_ffff) {
                Some(n) => n as u32,
                None => c.fps,
            },
            ..camera_overridden(c, env, reals)
        }),
        camera_overridden(c, env.insert("MIBEE_EYE_CAMERA_CODEC"@, v), reals) == (CameraSettings {
            codec: v,
            ..camera_overridden(c, env, reals)
        }),
        camera_overridden(c, env.insert("MIBEE_EYE_CAMERA_BITRATE"@, v), reals) == (CameraSettings {
            bitrate: match parse_unsigned(v, 0xffff_ffff_ffff_ffff) {
                Some(n) => n as u64,
                None => c.bitrate,
            },
            ..camera_overridden(c, env, reals)
        }),
        camera_overridden(c, env, reals.insert("MIBEE_EYE_CAMERA_BRIGHTNESS"@, x)) == (CameraSettings {
            brightness: x,
            ..camera_overridden(c, env, reals)
        }),
        camera_overridden(c, env, reals.insert("MIBEE_EYE_CAMERA_CONTRAST"@, x)) == (CameraSettings {
            contrast: x,
            ..camera_overridden(c, env, reals)
        }),
        camera_overridden(c, env, reals.insert("MIBEE_EYE_CAMERA_SATURATION"@, x)) == (CameraSettings {
            saturation: x,
            ..camera_overridden(c, env, reals)
        }),
        camera_overridden(c, env, reals.insert("MIBEE_EYE_CAMERA_SHARPNESS"@, x)) == (CameraSettings {
            sharpness: x,
            ..camera_overridden(c, env, reals)
        }),
{
    lemma_camera_marks();
}

#[verifier::rlimit(40)]
#[verifier::spinoff_prover]
proof fn lemma_rtsp_settings(
    c: RtspSettings,
    env: Map<Seq<char>, Seq<char>>,
    v: Seq<char>,
)
    ensures
        rtsp_overridden(c, env.insert("MIBEE_EYE_RTSP_PORT"@, v)) == (RtspSettings {
            port: match parse_unsigned(v, 0xffff) {
                Some(n) => n as u16,
                None => c.port,
            },
            ..rtsp_overridden(c, env)
        }),
        rtsp_overridden(c, env.insert("MIBEE_EYE_RTSP_USERNAME"@, v)) == (RtspSettings {
            username: v,
            ..rtsp_overridden(c, env)
        }),
        rtsp_overridden(c, env.insert("MIBEE_EYE_RTSP_PASSWORD"@, v)) == (RtspSettings {
            password: v,
            ..rtsp_overridden(c, env)
        }),
{
    lemma_rtsp_marks();
}

#[verifier::rlimit(40)]
#[verifier::spinoff_prover]
proof fn lemma_onvif_settings(
    c: OnvifSettings,
    env: Map<Seq<char>, Seq<char>>,
    v: Seq<char>,
)
    ensures
        onvif_overridden(c, env.insert("MIBEE_EYE_ONVIF_PORT"@, v)) == (OnvifSettings {
            port: match parse_unsigned(v, 0xffff) {
                Some(n) => n as u16,
                None => c.port,
            },
            ..onvif_overridden(c, env)
        }),
        onvif_overridden(c, env.insert("MIBEE_EYE_ONVIF_USERNAME"@, v)) == (OnvifSettings {
            username: v,
            ..onvif_overridden(c, env)
        }),
        onvif_overridden(c, env.insert("MIBEE_EYE_ONVIF_PASSWORD"@, v)) == (OnvifSettings {
            password: v,
            ..onvif_overridden(c, env)
        }),
{
    lemma_onvif_marks();
}

#[verifier::rlimit(40)]
#[verifier::spinoff_prover]
proof fn lemma_gb35114_settings(
    c: Gb35114Settings,
    env: Map<Seq<char>, Seq<char>>,
    v: Seq<char>,
)
    ensures
        gb35114_overridden(c, env.insert("MIBEE_EYE_GB28181_GB35114_ENABLED"@, v)) == (Gb35114Settings {
            enabled: if v == "true"@ {
                true
            } else if v == "false"@ {
                false
            } else {
                c.enabled
            },
            ..gb35114_overridden(c, env)
        }),
        gb35114_overridden(c, env.insert("MIBEE_EYE_GB28181_GB35114_DEVICE_CERT_FILE"@, v)) == (Gb35114Settings {
            device_cert_file: v,
            ..gb35114_overridden(c, env)
        }),
        gb35114_overridden(c, env.insert("MIBEE_EYE_GB28181_GB35114_DEVICE_KEY_FILE"@, v)) == (Gb35114Settings {
            device_key_file: v,
            ..gb35114_overridden(c, env)
        }),
        gb35114_overridden(c, env.insert("MIBEE_EYE_GB28181_GB35114_PLATFORM_CERT_FILE"@, v)) == (Gb35114Settings {
            platform_cert_file: v,
            ..gb35114_overridden(c, env)
        }),
        gb35114_overridden(c, env.insert("MIBEE_EYE_GB28181_GB35114_SERVER_ID"@, v)) == (Gb35114Settings {
            server_id: v,
            ..gb35114_overridden(c, env)
        }),
{
    lemma_gb35114_marks();
}

#[verifier::rlimit(40)]
#[verifier::spinoff_prover]
proof fn lemma_gb28181_settings(
    c: Gb28181Settings,
    env: Map<Seq<char>, Seq<char>>,
    v: Seq<char>,
)
    ensures
        gb28181_overridden(c, env.insert("MIBEE_EYE_GB28181_ENABLED"@, v)) == (Gb28181Settings {
            enabled: if v == "true"@ {
                true
            } else if v == "false"@ {
                false
            } else {
                c.enabled
            },
            ..gb28181_overridden(c, env)
        }),
        gb28181_overridden(c, env.insert("MIBEE_EYE_GB28181_PLATFORM_SIP_ADDRESS"@, v)) == (Gb28181Settings {
            platform_sip_address: v,
            ..gb28181_overridden(c, env)
        }),
        gb28181_overridden(c, env.insert("MIBEE_EYE_GB28181_PLATFORM_SIP_PORT"@, v)) == (Gb28181Settings {
            platform_sip_port: match parse_unsigned(v, 0xffff) {
                Some(n) => n as u16,
                None => c.platform_sip_port,
            },
            ..gb28181_overridden(c, env)
        }),
        gb28181_overridden(c, env.insert("MIBEE_EYE_GB28181_DEVICE_ID"@, v)) == (Gb28181Settings {
            device_id: v,
            ..gb28181_overridden(c, env)
        }),
        gb28181_overridden(c, env.insert("MIBEE_EYE_GB28181_CHANNEL_ID"@, v)) == (Gb28181Settings {
            channel_id: v,
            ..gb28181_overridden(c, env)
        }),
        gb28181_overridden(c, env.insert("MIBEE_EYE_GB28181_SIP_DOMAIN"@, v)) == (Gb28181Settings {
            sip_domain: v,
            ..gb28181_overridden(c, env)
        }),
        gb28181_overridden(c, env.insert("MIBEE_EYE_GB28181_PASSWORD"@, v)) == (Gb28181Settings {
            password: v,
            ..gb28181_overridden(c, env)
        }),
        gb28181_overridden(c, env.insert("MIBEE_EYE_GB28181_LOCAL_SIP_PORT"@, v)) == (Gb28181Settings {
            local_sip_port: match parse_unsigned(v, 0xffff) {
                Some(n) => n as u16,
                None => c.local_sip_port,
            },
            ..gb28181_overridden(c, env)
        }),
        gb28181_overridden(c, env.insert("MIBEE_EYE_GB28181_REGISTER_INTERVAL_SECS"@, v)) == (Gb28181Settings {
            register_interval_secs: match parse_unsigned(v, 0xffff_ffff_ffff_ffff) {
                Some(n) => n as u64,
                None => c.register_interval_secs,
            },
            ..gb28181_overridden(c, env)
        }),
        gb28181_overridden(c, env.insert("MIBEE_EYE_GB28181_HEARTBEAT_INTERVAL_SECS"@, v)) == (Gb28181Settings {
            heartbeat_interval_secs: match parse_unsigned(v, 0xffff_ffff_ffff_ffff) {
                Some(n) => n as u64,
                None => c.heartbeat_interval_secs,
            },
            ..gb28181_overridden(c, env)
        }),
        gb28181_overridden(c, env.insert("MIBEE_EYE_GB28181_HEARTBEAT_TIMEOUT_COUNT"@, v)) == (Gb28181Settings {
            heartbeat_timeout_count: match parse_unsigned(v, 0xffff_ffff) {
                Some(n) => n as u32,
                None => c.heartbeat_timeout_count,
            },
            ..gb28181_overridden(c, env)
        }),
        gb28181_overridden(c, env.insert("MIBEE_EYE_GB28181_TRANSPORT"@, v)) == (Gb28181Settings {
            transport: if same_ignoring_case(v, "tcp"@) {
                Transport::Tcp
            } else {
                Transport::Udp
            },
            ..gb28181_overridden(c, env)
        }),
{
    lemma_gb28181_marks();
    lemma_gb35114_marks();
}

#[verifier::rlimit(40)]
#[verifier::spinoff_prover]
proof fn lemma_recording_settings(
    c: RecordingSettings,
    env: Map<Seq<char>, Seq<char>>,
    v: Seq<char>,
)
    ensures
        recording_overridden(c, env.insert("MIBEE_EYE_RECORDING_ENABLED"@, v)) == (RecordingSettings {
            enabled: if v == "true"@ {
                true
            } else if v == "false"@ {
                false
            } else {
                c.enabled
            },
            ..recording_overridden(c, env)
        }),
        recording_overridden(c, env.insert("MIBEE_EYE_RECORDING_STORAGE_PATH"@, v)) == (RecordingSettings {
            storage_path: v,
            ..recording_overridden(c, env)
        }),
        recording_overridden(c, env.insert("MIBEE_EYE_RECORDING_SEGMENT_SECS"@, v)) == (RecordingSettings {
            segment_secs: match parse_unsigned(v, 0xffff_ffff_ffff_ffff) {
                Some(n) => n as u64,
                None => c.segment_secs,
            },
            ..recording_overridden(c, env)
        }),
        recording_overridden(c, env.insert("MIBEE_EYE_RECORDING_RETENTION_DAYS"@, v)) == (RecordingSettings {
            retention_days: match parse_unsigned(v, 0xffff_ffff) {
                Some(n) => n as u32,
                None => c.retention_days,
            },
            ..recording_overridden(c, env)
        }),
        recording_overridden(c, env.insert("MIBEE_EYE_RECORDING_MAX_STORAGE_MB"@, v)) == (RecordingSettings {
            max_storage_mb: match parse_unsigned(v, 0xffff_ffff_ffff_ffff) {
                Some(n) => n as u64,
                None => c.max_storage_mb,
            },
            ..recording_overridden(c, env)
        }),
{
    lemma_recording_marks();
}

#[verifier::rlimit(40)]
#[verifier::spinoff_prover]
proof fn lemma_watermark_settings(
    c: WatermarkSettings,
    env: Map<Seq<char>, Seq<char>>,
    v: Seq<char>,
)
    ensures
        watermark_overridden(c, env.insert("MIBEE_EYE_WATERMARK_ENABLED"@, v)) == (WatermarkSettings {
            enabled: if v == "true"@ {
                true
            } else if v == "false"@ {
                false
            } else {
                c.enabled
            },
            ..watermark_overridden(c, env)
        }),
        watermark_overridden(c, env.insert("MIBEE_EYE_WATERMARK_TEXT"@, v)) == (WatermarkSettings {
            text: v,
            ..watermark_overridden(c, env)
        }),
        watermark_overridden(c, env.insert("MIBEE_EYE_WATERMARK_SHOW_TIMESTAMP"@, v)) == (WatermarkSettings {
            show_timestamp: if v == "true"@ {
                true
            } else if v == "false"@ {
                false
            } else {
                c.show_timestamp
            },
            ..watermark_overridden(c, env)
        }),
        watermark_overridden(c, env.insert("MIBEE_EYE_WATERMARK_TIMESTAMP_FORMAT"@, v)) == (WatermarkSettings {
            timestamp_format: v,
            ..watermark_overridden(c, env)
        }),
        watermark_overridden(c, env.insert("MIBEE_EYE_WATERMARK_FONT_SIZE"@, v)) == (WatermarkSettings {
            font_size: match parse_unsigned(v, 0xffff_ffff) {
                Some(n) => n as u32,
                None => c.font_size,
            },
            ..watermark_overridden(c, env)
        }),
        watermark_overridden(c, env.insert("MIBEE_EYE_WATERMARK_FONT_PATH"@, v)) == (WatermarkSettings {
            font_path: v,
            ..watermark_overridden(c, env)
        }),
        watermark_overridden(c, env.insert("MIBEE_EYE_WATERMARK_POSITION"@, v)) == (WatermarkSettings {
            position: if v == "top-right"@ {
                Position::TopRight
            } else if v == "bottom-left"@ {
                Position::BottomLeft
            } else if v == "bottom-right"@ {
                Position::BottomRight
            } else {
                Position::TopLeft
            },
            ..watermark_overridden(c, env)
        }),
{
    lemma_watermark_marks();
}

#[verifier::rlimit(40)]
#[verifier::spinoff_prover]
proof fn lemma_web_settings(
    c: WebSettings,
    env: Map<Seq<char>, Seq<char>>,
    v: Seq<char>,
)
    ensures
        web_overridden(c, env.insert("MIBEE_EYE_WEB_ENABLED"@, v)) == (WebSettings {
            enabled: if v == "true"@ {
                true
            } else if v == "false"@ {
                false
            } else {
                c.enabled
            },
            ..web_overridden(c, env)
        }),
        web_overridden(c, env.insert("MIBEE_EYE_WEB_PORT"@, v)) == (WebSettings {
            port: match parse_unsigned(v, 0xffff) {
                Some(n) => n as u16,
                None => c.port,
            },
            ..web_overridden(c, env)
        }),
        web_overridden(c, env.insert("MIBEE_EYE_WEB_USERNAME"@, v)) == (WebSettings {
            username: v,
            ..web_overridden(c, env)
        }),
        web_overridden(c, env.insert("MIBEE_EYE_WEB_PASSWORD"@, v)) == (WebSettings {
            password: v,
            ..web_overridden(c, env)
        }),
        web_overridden(c, env.insert("MIBEE_EYE_WEB_TLS_ENABLED"@, v)) == (WebSettings {
            tls_enabled: if v == "true"@ {
                true
            } else if v == "false"@ {
                false
            } else {
                c.tls_enabled
            },
            ..web_overridden(c, env)
        }),
{
    lemma_web_marks();
}

#[verifier::rlimit(40)]
#[verifier::spinoff_prover]
proof fn lemma_device_settings(
    c: DeviceSettings,
    env: Map<Seq<char>, Seq<char>>,
    v: Seq<char>,
)
    ensures
        device_overridden(c, env.insert("MIBEE_EYE_DEVICE_NAME"@, v)) == (DeviceSettings {
            name: v,
            ..device_overridden(c, env)
        }),
        device_overridden(c, env.insert("MIBEE_EYE_DEVICE_MANUFACTURER"@, v)) == (DeviceSettings {
            manufacturer: v,
            ..device_overridden(c, env)
        }),
        device_overridden(c, env.insert("MIBEE_EYE_DEVICE_MODEL"@, v)) == (DeviceSettings {
            model: v,
            ..device_overridden(c, env)
        }),
        device_overridden(c, env.insert("MIBEE_EYE_DEVICE_FIRMWARE"@, v)) == (DeviceSettings {
            firmware: v,
            ..device_overridden(c, env)
        }),
        device_overridden(c, env.insert("MIBEE_EYE_DEVICE_HARDWAREID"@, v)) == (DeviceSettings {
            hardware_id: v,
            ..device_overridden(c, env)
        }),
        device_overridden(c, env.insert("MIBEE_EYE_DEVICE_SERIALNUMBER"@, v)) == (DeviceSettings {
            serial_number: v,
            ..device_overridden(c, env)
        }),
{
    lemma_device_marks();
}

#[verifier::rlimit(40)]
#[verifier::spinoff_prover]
proof fn lemma_logging_settings(
    c: LoggingSettings,
    env: Map<Seq<char>, Seq<char>>,
    v: Seq<char>,
)
    ensures
        logging_overridden(c, env.insert("MIBEE_EYE_LOGGING_LEVEL"@, v)) == (LoggingSettings {
            level: v,
        }),
{
    lemma_logging_marks();
}

/// Each camera variable sets its own setting to what it says, as far as
/// that can be read, and leaves all others as they would be without it.
#[verifier::rlimit(60)]
#[verifier::spinoff_prover]
pub proof fn camera_variables_reach_their_settings(
    c: Settings,
    env: Map<Seq<char>, Seq<char>>,
    reals: Map<Seq<char>, RealValue>,
    v: Seq<char>,
    x: RealValue,
)
    ensures
        ({
            let without = overridden(c, env, reals);
            overridden(c, env.insert("MIBEE_EYE_CAMERA_DEVICE"@, v), reals) == Settings {
            camera: CameraSettings {
                device: v,
                ..without.camera
            },
            ..without
            }
        }),
        ({
            let without = overridden(c, env, reals);
            overridden(c, env.insert("MIBEE_EYE_CAMERA_MODE"@, v), reals) == Settings {
            camera: CameraSettings {
                mode: v,
                ..without.camera
            },
            ..without
            }
        }),
        ({
            let without = overridden(c, env, reals);
            overridden(c, env.insert("MIBEE_EYE_CAMERA_ENCODER"@, v), reals) == Settings {
            camera: CameraSettings {
                encoder: v,
                ..without.camera
            },
            ..without
            }
        }),
        ({
            let without = overridden(c, env, reals);
            overridden(c, env.insert("MIBEE_EYE_CAMERA_ENCODER_DEVICE"@, v), reals) == Settings {
            camera: CameraSettings {
                encoder_device: v,
                ..without.camera
            },
            ..without
            }
        }),
        ({
            let without = overridden(c, env, reals);
            overridden(c, env.insert("MIBEE_EYE_CAMERA_RTSP_URL"@, v), reals) == Settings {
            camera: CameraSettings {
                rtsp_url: v,
                ..without.camera
            },
            ..without
            }
        }),
        ({
            let without = overridden(c, env, reals);
            overridden(c, env.insert("MIBEE_EYE_CAMERA_WIDTH"@, v), reals) == Settings {
            camera: CameraSettings {
                width: match parse_unsigned(v, 0xffff_ffff) {
                    Some(n) => n as u32,
                    None => c.camera.width,
                },
                ..without.camera
            },
            ..without
            }
        }),
        ({
            let without = overridden(c, env, reals);
            overridden(c, env.insert("MIBEE_EYE_CAMERA_HEIGHT"@, v), reals) == Settings {
            camera: CameraSettings {
                height: match parse_unsigned(v, 0xffff_ffff) {
                    Some(n) => n as u32,
                    None => c.camera.height,
                },
                ..without.camera
            },
            ..without
            }
        }),
        ({
            let without = overridden(c, env, reals);
            overridden(c, env.insert("MIBEE_EYE_CAMERA_FPS"@, v), reals) == Settings {
            camera: CameraSettings {
                fps: match parse_unsigned(v, 0xffff_ffff) {
                    Some(n) => n as u32,
                    None => c.camera.fps,
                },
                ..without.camera
            },
            ..without
            }
        }),
        ({
            let without = overridden(c, env, reals);
            overridden(c, env.insert("MIBEE_EYE_CAMERA_CODEC"@, v), reals) == Settings {
            camera: CameraSettings {
                codec: v,
                ..without.camera
            },
            ..without
            }
        }),
        ({
            let without = overridden(c, env, reals);
            overridden(c, env.insert("MIBEE_EYE_CAMERA_BITRATE"@, v), reals) == Settings {
            camera: CameraSettings {
                bitrate: match parse_unsigned(v, 0xffff_ffff_ffff_ffff) {
                    Some(n) => n as u64,
                    None => c.camera.bitrate,
                },
                ..without.camera
            },
            ..without
            }
        }),
        ({
            let without = overridden(c, env, reals);
            overridden(c, env, reals.insert("MIBEE_EYE_CAMERA_BRIGHTNESS"@, x)) == Settings {
            camera: CameraSettings {
                brightness: x,
                ..without.camera
            },
            ..without
            }
        }),
        ({
            let without = overridden(c, env, reals);
            overridden(c, env, reals.insert("MIBEE_EYE_CAMERA_CONTRAST"@, x)) == Settings {
            camera: CameraSettings {
                contrast: x,
                ..without.camera
            },
            ..without
            }
        }),
        ({
            let without = overridden(c, env, reals);
            overridden(c, env, reals.insert("MIBEE_EYE_CAMERA_SATURATION"@, x)) == Settings {
            camera: CameraSettings {
                saturation: x,
                ..without.camera
            },
            ..without
            }
        }),
        ({
            let without = overridden(c, env, reals);
            overridden(c, env, reals.insert("MIBEE_EYE_CAMERA_SHARPNESS"@, x)) == Settings {
            camera: CameraSettings {
                sharpness: x,
                ..without.camera
            },
            ..without
            }
        }),
{
    lemma_camera_marks();
    lemma_camera_settings(c.camera, env, reals, v, x);
    lemma_camera_alone(c, env, reals, "MIBEE_EYE_CAMERA_DEVICE"@, v);
    lemma_camera_alone(c, env, reals, "MIBEE_EYE_CAMERA_MODE"@, v);
    lemma_camera_alone(c, env, reals, "MIBEE_EYE_CAMERA_ENCODER"@, v);
    lemma_camera_alone(c, env, reals, "MIBEE_EYE_CAMERA_ENCODER_DEVICE"@, v);
    lemma_camera_alone(c, env, reals, "MIBEE_EYE_CAMERA_RTSP_URL"@, v);
    lemma_camera_alone(c, env, reals, "MIBEE_EYE_CAMERA_WIDTH"@, v);
    lemma_camera_alone(c, env, reals, "MIBEE_EYE_CAMERA_HEIGHT"@, v);
    lemma_camera_alone(c, env, reals, "MIBEE_EYE_CAMERA_FPS"@, v);
    lemma_camera_alone(c, env, reals, "MIBEE_EYE_CAMERA_CODEC"@, v);
    lemma_camera_alone(c, env, reals, "MIBEE_EYE_CAMERA_BITRATE"@, v);
}

/// Each RTSP variable sets its own setting to what it says, as far as
/// that can be read, and leaves all others as they would be without it.
#[verifier::rlimit(60)]
#[verifier::spinoff_prover]
pub proof fn rtsp_variables_reach_their_settings(
    c: Settings,
    env: Map<Seq<char>, Seq<char>>,
    reals: Map<Seq<char>, RealValue>,
    v: Seq<char>,
)
    ensures
        ({
            let without = overridden(c, env, reals);
            overridden(c, env.insert("MIBEE_EYE_RTSP_PORT"@, v), reals) == Settings {
            rtsp: RtspSettings {
                port: match parse_unsigned(v, 0xffff) {
                    Some(n) => n as u16,
                    None => c.rtsp.port,
                },
                ..without.rtsp
            },
            ..without
            }
        }),
        ({
            let without = overridden(c, env, reals);
            overridden(c, env.insert("MIBEE_EYE_RTSP_USERNAME"@, v), reals) == Settings {
            rtsp: RtspSettings {
                username: v,
                ..without.rtsp
            },
            ..without
            }
        }),
        ({
            let without = overridden(c, env, reals);
            overridden(c, env.insert("MIBEE_EYE_RTSP_PASSWORD"@, v), reals) == Settings {
            rtsp: RtspSettings {
                password: v,
                ..without.rtsp
            },
            ..without
            }
        }),
{
    lemma_rtsp_marks();
    lemma_rtsp_settings(c.rtsp, env, v);
    lemma_rtsp_alone(c, env, reals, "MIBEE_EYE_RTSP_PORT"@, v);
    lemma_rtsp_alone(c, env, reals, "MIBEE_EYE_RTSP_USERNAME"@, v);
    lemma_rtsp_alone(c, env, reals, "MIBEE_EYE_RTSP_PASSWORD"@, v);
}

/// Each ONVIF variable sets its own setting to what it says, as far as
/// that can be read, and leaves all others as they would be without it.
#[verifier::rlimit(60)]
#[verifier::spinoff_prover]
pub proof fn onvif_variables_reach_their_settings(
    c: Settings,
    env: Map<Seq<char>, Seq<char>>,
    reals: Map<Seq<char>, RealValue>,
    v: Seq<char>,
)
    ensures
        ({
            let without = overridden(c, env, reals);
            overridden(c, env.insert("MIBEE_EYE_ONVIF_PORT"@, v), reals) == Settings {
            onvif: OnvifSettings {
                port: match parse_unsigned(v, 0xffff) {
                    Some(n) => n as u16,
                    None => c.onvif.port,
                },
                ..without.onvif
            },
            ..without
            }
        }),
        ({
            let without = overridden(c, env, reals);
            overridden(c, env.insert("MIBEE_EYE_ONVIF_USERNAME"@, v), reals) == Settings {
            onvif: OnvifSettings {
                username: v,
                ..without.onvif
            },
            ..without
            }
        }),
        ({
            let without = overridden(c, env, reals);
            overridden(c, env.insert("MIBEE_EYE_ONVIF_PASSWORD"@, v), reals) == Settings {
            onvif: OnvifSettings {
                password: v,
                ..without.onvif
            },
            ..without
            }
        }),
{
    lemma_onvif_marks();
    lemma_onvif_settings(c.onvif, env, v);
    lemma_onvif_alone(c, env, reals, "MIBEE_EYE_ONVIF_PORT"@, v);
    lemma_onvif_alone(c, env, reals, "MIBEE_EYE_ONVIF_USERNAME"@, v);
    lemma_onvif_alone(c, env, reals, "MIBEE_EYE_ONVIF_PASSWORD"@, v);
}

/// Each platform certificate variable sets its own setting to what it says, as far as
/// that can be read, and leaves all others as they would be without it.
#[verifier::rlimit(60)]
#[verifier::spinoff_prover]
pub proof fn gb35114_variables_reach_their_settings(
    c: Settings,
    env: Map<Seq<char>, Seq<char>>,
    reals: Map<Seq<char>, RealValue>,
    v: Seq<char>,
)
    ensures
        ({
            let without = overridden(c, env, reals);
            overridden(c, env.insert("MIBEE_EYE_GB28181_GB35114_ENABLED"@, v), reals) == Settings {
            gb28181: Gb28181Settings {
                gb35114: Gb35114Settings {
                    enabled: if v == "true"@ {
                    true
                } else if v == "false"@ {
                    false
                } else {
                    c.gb28181.gb35114.enabled
                },
                    ..without.gb28181.gb35114
                },
                ..without.gb28181
            },
            ..without
            }
        }),
        ({
            let without = overridden(c, env, reals);
            overridden(c, env.insert("MIBEE_EYE_GB28181_GB35114_DEVICE_CERT_FILE"@, v), reals) == Settings {
            gb28181: Gb28181Settings {
                gb35114: Gb35114Settings {
                    device_cert_file: v,
                    ..without.gb28181.gb35114
                },
                ..without.gb28181
            },
            ..without
            }
        }),
        ({
            let without = overridden(c, env, reals);
            overridden(c, env.insert("MIBEE_EYE_GB28181_GB35114_DEVICE_KEY_FILE"@, v), reals) == Settings {
            gb28181: Gb28181Settings {
                gb35114: Gb35114Settings {
                    device_key_file: v,
                    ..without.gb28181.gb35114
                },
                ..without.gb28181
            },
            ..without
            }
        }),
        ({
            let without = overridden(c, env, reals);
            overridden(c, env.insert("MIBEE_EYE_GB28181_GB35114_PLATFORM_CERT_FILE"@, v), reals) == Settings {
            gb28181: Gb28181Settings {
                gb35114: Gb35114Settings {
                    platform_cert_file: v,
                    ..without.gb28181.gb35114
                },
                ..without.gb28181
            },
            ..without
            }
        }),
        ({
            let without = overridden(c, env, reals);
            overridden(c, env.insert("MIBEE_EYE_GB28181_GB35114_SERVER_ID"@, v), reals) == Settings {
            gb28181: Gb28181Settings {
                gb35114: Gb35114Settings {
                    server_id: v,
                    ..without.gb28181.gb35114
                },
                ..without.gb28181
            },
            ..without
            }
        }),
{
    lemma_gb35114_marks();
    lemma_gb35114_settings(c.gb28181.gb35114, env, v);
    lemma_gb28181_alone(c, env, reals, "MIBEE_EYE_GB28181_GB35114_ENABLED"@, v);
    lemma_gb28181_alone(c, env, reals, "MIBEE_EYE_GB28181_GB35114_DEVICE_CERT_FILE"@, v);
    lemma_gb28181_alone(c, env, reals, "MIBEE_EYE_GB28181_GB35114_DEVICE_KEY_FILE"@, v);
    lemma_gb28181_alone(c, env, reals, "MIBEE_EYE_GB28181_GB35114_PLATFORM_CERT_FILE"@, v);
    lemma_gb28181_alone(c, env, reals, "MIBEE_EYE_GB28181_GB35114_SERVER_ID"@, v);
    lemma_gb28181_marks();
}

/// Each platform variable sets its own setting to what it says, as far as
/// that can be read, and leaves all others as they would be without it.
#[verifier::rlimit(60)]
#[verifier::spinoff_prover]
pub proof fn gb28181_variables_reach_their_settings(
    c: Settings,
    env: Map<Seq<char>, Seq<char>>,
    reals: Map<Seq<char>, RealValue>,
    v: Seq<char>,
)
    ensures
        ({
            let without = overridden(c, env, reals);
            overridden(c, env.insert("MIBEE_EYE_GB28181_ENABLED"@, v), reals) == Settings {
            gb28181: Gb28181Settings {
                enabled: if v == "true"@ {
                    true
                } else if v == "false"@ {
                    false
                } else {
                    c.gb28181.enabled
                },
                ..without.gb28181
            },
            ..without
            }
        }),
        ({
            let without = overridden(c, env, reals);
            overridden(c, env.insert("MIBEE_EYE_GB28181_PLATFORM_SIP_ADDRESS"@, v), reals) == Settings {
            gb28181: Gb28181Settings {
                platform_sip_address: v,
                ..without.gb28181
            },
            ..without
            }
        }),
        ({
            let without = overridden(c, env, reals);
            overridden(c, env.insert("MIBEE_EYE_GB28181_PLATFORM_SIP_PORT"@, v), reals) == Settings {
            gb28181: Gb28181Settings {
                platform_sip_port: match parse_unsigned(v, 0xffff) {
                    Some(n) => n as u16,
                    None => c.gb28181.platform_sip_port,
                },
                ..without.gb28181
            },
            ..without
            }
        }),
        ({
            let without = overridden(c, env, reals);
            overridden(c, env.insert("MIBEE_EYE_GB28181_DEVICE_ID"@, v), reals) == Settings {
            gb28181: Gb28181Settings {
                device_id: v,
                ..without.gb28181
            },
            ..without
            }
        }),
        ({
            let without = overridden(c, env, reals);
            overridden(c, env.insert("MIBEE_EYE_GB28181_CHANNEL_ID"@, v), reals) == Settings {
            gb28181: Gb28181Settings {
                channel_id: v,
                ..without.gb28181
            },
            ..without
            }
        }),
        ({
            let without = overridden(c, env, reals);
            overridden(c, env.insert("MIBEE_EYE_GB28181_SIP_DOMAIN"@, v), reals) == Settings {
            gb28181: Gb28181Settings {
                sip_domain: v,
                ..without.gb28181
            },
            ..without
            }
        }),
        ({
            let without = overridden(c, env, reals);
            overridden(c, env.insert("MIBEE_EYE_GB28181_PASSWORD"@, v), reals) == Settings {
            gb28181: Gb28181Settings {
                password: v,
                ..without.gb28181
            },
            ..without
            }
        }),
        ({
            let without = overridden(c, env, reals);
            overridden(c, env.insert("MIBEE_EYE_GB28181_LOCAL_SIP_PORT"@, v), reals) == Settings {
            gb28181: Gb28181Settings {
                local_sip_port: match parse_unsigned(v, 0xffff) {
                    Some(n) => n as u16,
                    None => c.gb28181.local_sip_port,
                },
                ..without.gb28181
            },
            ..without
            }
        }),
        ({
            let without = overridden(c, env, reals);
            overridden(c, env.insert("MIBEE_EYE_GB28181_REGISTER_INTERVAL_SECS"@, v), reals) == Settings {
            gb28181: Gb28181Settings {
                register_interval_secs: match parse_unsigned(v, 0xffff_ffff_ffff_ffff) {
                    Some(n) => n as u64,
                    None => c.gb28181.register_interval_secs,
                },
                ..without.gb28181
            },
            ..without
            }
        }),
        ({
            let without = overridden(c, env, reals);
            overridden(c, env.insert("MIBEE_EYE_GB28181_HEARTBEAT_INTERVAL_SECS"@, v), reals) == Settings {
            gb28181: Gb28181Settings {
                heartbeat_interval_secs: match parse_unsigned(v, 0xffff_ffff_ffff_ffff) {
                    Some(n) => n as u64,
                    None => c.gb28181.heartbeat_interval_secs,
                },
                ..without.gb28181
            },
            ..without
            }
        }),
        ({
            let without = overridden(c, env, reals);
            overridden(c, env.insert("MIBEE_EYE_GB28181_HEARTBEAT_TIMEOUT_COUNT"@, v), reals) == Settings {
            gb28181: Gb28181Settings {
                heartbeat_timeout_count: match parse_unsigned(v, 0xffff_ffff) {
                    Some(n) => n as u32,
                    None => c.gb28181.heartbeat_timeout_count,
                },
                ..without.gb28181
            },
            ..without
            }
        }),
        ({
            let without = overridden(c, env, reals);
            overridden(c, env.insert("MIBEE_EYE_GB28181_TRANSPORT"@, v), reals) == Settings {
            gb28181: Gb28181Settings {
                transport: if same_ignoring_case(v, "tcp"@) {
                    Transport::Tcp
                } else {
                    Transport::Udp
                },
                ..without.gb28181
            },
            ..without
            }
        }),
{
    lemma_gb28181_marks();
    lemma_gb28181_settings(c.gb28181, env, v);
    lemma_gb28181_alone(c, env, reals, "MIBEE_EYE_GB28181_ENABLED"@, v);
    lemma_gb28181_alone(c, env, reals, "MIBEE_EYE_GB28181_PLATFORM_SIP_ADDRESS"@, v);
    lemma_gb28181_alone(c, env, reals, "MIBEE_EYE_GB28181_PLATFORM_SIP_PORT"@, v);
    lemma_gb28181_alone(c, env, reals, "MIBEE_EYE_GB28181_DEVICE_ID"@, v);
    lemma_gb28181_alone(c, env, reals, "MIBEE_EYE_GB28181_CHANNEL_ID"@, v);
    lemma_gb28181_alone(c, env, reals, "MIBEE_EYE_GB28181_SIP_DOMAIN"@, v);
    lemma_gb28181_alone(c, env, reals, "MIBEE_EYE_GB28181_PASSWORD"@, v);
    lemma_gb28181_alone(c, env, reals, "MIBEE_EYE_GB28181_LOCAL_SIP_PORT"@, v);
    lemma_gb28181_alone(c, env, reals, "MIBEE_EYE_GB28181_REGISTER_INTERVAL_SECS"@, v);
    lemma_gb28181_alone(c, env, reals, "MIBEE_EYE_GB28181_HEARTBEAT_INTERVAL_SECS"@, v);
    lemma_gb28181_alone(c, env, reals, "MIBEE_EYE_GB28181_HEARTBEAT_TIMEOUT_COUNT"@, v);
    lemma_gb28181_alone(c, env, reals, "MIBEE_EYE_GB28181_TRANSPORT"@, v);
}

/// Each recording variable sets its own setting to what it says, as far as
/// that can be read, and leaves all others as they would be without it.
#[verifier::rlimit(60)]
#[verifier::spinoff_prover]
pub proof fn recording_variables_reach_their_settings(
    c: Settings,
    env: Map<Seq<char>, Seq<char>>,
    reals: Map<Seq<char>, RealValue>,
    v: Seq<char>,
)
    ensures
        ({
            let without = overridden(c, env, reals);
            overridden(c, env.insert("MIBEE_EYE_RECORDING_ENABLED"@, v), reals) == Settings {
            recording: RecordingSettings {
                enabled: if v == "true"@ {
                    true
                } else if v == "false"@ {
                    false
                } else {
                    c.recording.enabled
                },
                ..without.recording
            },
            ..without
            }
        }),
        ({
            let without = overridden(c, env, reals);
            overridden(c, env.insert("MIBEE_EYE_RECORDING_STORAGE_PATH"@, v), reals) == Settings {
            recording: RecordingSettings {
                storage_path: v,
                ..without.recording
            },
            ..without
            }
        }),
        ({
            let without = overridden(c, env, reals);
            overridden(c, env.insert("MIBEE_EYE_RECORDING_SEGMENT_SECS"@, v), reals) == Settings {
            recording: RecordingSettings {
                segment_secs: match parse_unsigned(v, 0xffff_ffff_ffff_ffff) {
                    Some(n) => n as u64,
                    None => c.recording.segment_secs,
                },
                ..without.recording
            },
            ..without
            }
        }),
        ({
            let without = overridden(c, env, reals);
            overridden(c, env.insert("MIBEE_EYE_RECORDING_RETENTION_DAYS"@, v), reals) == Settings {
            recording: RecordingSettings {
                retention_days: match parse_unsigned(v, 0xffff_ffff) {
                    Some(n) => n as u32,
                    None => c.recording.retention_days,
                },
                ..without.recording
            },
            ..without
            }
        }),
        ({
            let without = overridden(c, env, reals);
            overridden(c, env.insert("MIBEE_EYE_RECORDING_MAX_STORAGE_MB"@, v), reals) == Settings {
            recording: RecordingSettings {
                max_storage_mb: match parse_unsigned(v, 0xffff_ffff_ffff_ffff) {
                    Some(n) => n as u64,
                    None => c.recording.max_storage_mb,
                },
                ..without.recording
            },
            ..without
            }
        }),
{
    lemma_recording_marks();
    lemma_recording_settings(c.recording, env, v);
    lemma_recording_alone(c, env, reals, "MIBEE_EYE_RECORDING_ENABLED"@, v);
    lemma_recording_alone(c, env, reals, "MIBEE_EYE_RECORDING_STORAGE_PATH"@, v);
    lemma_recording_alone(c, env, reals, "MIBEE_EYE_RECORDING_SEGMENT_SECS"@, v);
    lemma_recording_alone(c, env, reals, "MIBEE_EYE_RECORDING_RETENTION_DAYS"@, v);
    lemma_recording_alone(c, env, reals, "MIBEE_EYE_RECORDING_MAX_STORAGE_MB"@, v);
}

/// Each watermark variable sets its own setting to what it says, as far as
/// that can be read, and leaves all others as they would be without it.
#[verifier::rlimit(60)]
#[verifier::spinoff_prover]
pub proof fn watermark_variables_reach_their_settings(
    c: Settings,
    env: Map<Seq<char>, Seq<char>>,
    reals: Map<Seq<char>, RealValue>,
    v: Seq<char>,
)
    ensures
        ({
            let without = overridden(c, env, reals);
            overridden(c, env.insert("MIBEE_EYE_WATERMARK_ENABLED"@, v), reals) == Settings {
            watermark: WatermarkSettings {
                enabled: if v == "true"@ {
                    true
                } else if v == "false"@ {
                    false
                } else {
                    c.watermark.enabled
                },
                ..without.watermark
            },
            ..without
            }
        }),
        ({
            let without = overridden(c, env, reals);
            overridden(c, env.insert("MIBEE_EYE_WATERMARK_TEXT"@, v), reals) == Settings {
            watermark: WatermarkSettings {
                text: v,
                ..without.watermark
            },
            ..without
            }
        }),
        ({
            let without = overridden(c, env, reals);
            overridden(c, env.insert("MIBEE_EYE_WATERMARK_SHOW_TIMESTAMP"@, v), reals) == Settings {
            watermark: WatermarkSettings {
                show_timestamp: if v == "true"@ {
                    true
                } else if v == "false"@ {
                    false
                } else {
                    c.watermark.show_timestamp
                },
                ..without.watermark
            },
            ..without
            }
        }),
        ({
            let without = overridden(c, env, reals);
            overridden(c, env.insert("MIBEE_EYE_WATERMARK_TIMESTAMP_FORMAT"@, v), reals) == Settings {
            watermark: WatermarkSettings {
                timestamp_format: v,
                ..without.watermark
            },
            ..without
            }
        }),
        ({
            let without = overridden(c, env, reals);
            overridden(c, env.insert("MIBEE_EYE_WATERMARK_FONT_SIZE"@, v), reals) == Settings {
            watermark: WatermarkSettings {
                font_size: match parse_unsigned(v, 0xffff_ffff) {
                    Some(n) => n as u32,
                    None => c.watermark.font_size,
                },
                ..without.watermark
            },
            ..without
            }
        }),
        ({
            let without = overridden(c, env, reals);
            overridden(c, env.insert("MIBEE_EYE_WATERMARK_FONT_PATH"@, v), reals) == Settings {
            watermark: WatermarkSettings {
                font_path: v,
                ..without.watermark
            },
            ..without
            }
        }),
        ({
            let without = overridden(c, env, reals);
            overridden(c, env.insert("MIBEE_EYE_WATERMARK_POSITION"@, v), reals) == Settings {
            watermark: WatermarkSettings {
                position: if v == "top-right"@ {
                    Position::TopRight
                } else if v == "bottom-left"@ {
                    Position::BottomLeft
                } else if v == "bottom-right"@ {
                    Position::BottomRight
                } else {
                    Position::TopLeft
                },
                ..without.watermark
            },
            ..without
            }
        }),
{
    lemma_watermark_marks();
    lemma_watermark_settings(c.watermark, env, v);
    lemma_watermark_alone(c, env, reals, "MIBEE_EYE_WATERMARK_ENABLED"@, v);
    lemma_watermark_alone(c, env, reals, "MIBEE_EYE_WATERMARK_TEXT"@, v);
    lemma_watermark_alone(c, env, reals, "MIBEE_EYE_WATERMARK_SHOW_TIMESTAMP"@, v);
    lemma_watermark_alone(c, env, reals, "MIBEE_EYE_WATERMARK_TIMESTAMP_FORMAT"@, v);
    lemma_watermark_alone(c, env, reals, "MIBEE_EYE_WATERMARK_FONT_SIZE"@, v);
    lemma_watermark_alone(c, env, reals, "MIBEE_EYE_WATERMARK_FONT_PATH"@, v);
    lemma_watermark_alone(c, env, reals, "MIBEE_EYE_WATERMARK_POSITION"@, v);
}

/// Each web variable sets its own setting to what it says, as far as
/// that can be read, and leaves all others as they would be without it.
#[verifier::rlimit(60)]
#[verifier::spinoff_prover]
pub proof fn web_variables_reach_their_settings(
    c: Settings,
    env: Map<Seq<char>, Seq<char>>,
    reals: Map<Seq<char>, RealValue>,
    v: Seq<char>,
)
    ensures
        ({
            let without = overridden(c, env, reals);
            overridden(c, env.insert("MIBEE_EYE_WEB_ENABLED"@, v), reals) == Settings {
            web: WebSettings {
                enabled: if v == "true"@ {
                    true
                } else if v == "false"@ {
                    false
                } else {
                    c.web.enabled
                },
                ..without.web
            },
            ..without
            }
        }),
        ({
            let without = overridden(c, env, reals);
            overridden(c, env.insert("MIBEE_EYE_WEB_PORT"@, v), reals) == Settings {
            web: WebSettings {
                port: match parse_unsigned(v, 0xffff) {
                    Some(n) => n as u16,
                    None => c.web.port,
                },
                ..without.web
            },
            ..without
            }
        }),
        ({
            let without = overridden(c, env, reals);
            overridden(c, env.insert("MIBEE_EYE_WEB_USERNAME"@, v), reals) == Settings {
            web: WebSettings {
                username: v,
                ..without.web
            },
            ..without
            }
        }),
        ({
            let without = overridden(c, env, reals);
            overridden(c, env.insert("MIBEE_EYE_WEB_PASSWORD"@, v), reals) == Settings {
            web: WebSettings {
                password: v,
                ..without.web
            },
            ..without
            }
        }),
        ({
            let without = overridden(c, env, reals);
            overridden(c, env.insert("MIBEE_EYE_WEB_TLS_ENABLED"@, v), reals) == Settings {
            web: WebSettings {
                tls_enabled: if v == "true"@ {
                    true
                } else if v == "false"@ {
                    false
                } else {
                    c.web.tls_enabled
                },
                ..without.web
            },
            ..without
            }
        }),
{
    lemma_web_marks();
    lemma_web_settings(c.web, env, v);
    lemma_web_alone(c, env, reals, "MIBEE_EYE_WEB_ENABLED"@, v);
    lemma_web_alone(c, env, reals, "MIBEE_EYE_WEB_PORT"@, v);
    lemma_web_alone(c, env, reals, "MIBEE_EYE_WEB_USERNAME"@, v);
    lemma_web_alone(c, env, reals, "MIBEE_EYE_WEB_PASSWORD"@, v);
    lemma_web_alone(c, env, reals, "MIBEE_EYE_WEB_TLS_ENABLED"@, v);
}

/// Each device variable sets its own setting to what it says, as far as
/// that can be read, and leaves all others as they would be without it.
#[verifier::rlimit(60)]
#[verifier::spinoff_prover]
pub proof fn device_variables_reach_their_settings(
    c: Settings,
    env: Map<Seq<char>, Seq<char>>,
    reals: Map<Seq<char>, RealValue>,
    v: Seq<char>,
)
    ensures
        ({
            let without = overridden(c, env, reals);
            overridden(c, env.insert("MIBEE_EYE_DEVICE_NAME"@, v), reals) == Settings {
            device: DeviceSettings {
                name: v,
                ..without.device
            },
            ..without
            }
        }),
        ({
            let without = overridden(c, env, reals);
            overridden(c, env.insert("MIBEE_EYE_DEVICE_MANUFACTURER"@, v), reals) == Settings {
            device: DeviceSettings {
                manufacturer: v,
                ..without.device
            },
            ..without
            }
        }),
        ({
            let without = overridden(c, env, reals);
            overridden(c, env.insert("MIBEE_EYE_DEVICE_MODEL"@, v), reals) == Settings {
            device: DeviceSettings {
                model: v,
                ..without.device
            },
            ..without
            }
        }),
        ({
            let without = overridden(c, env, reals);
            overridden(c, env.insert("MIBEE_EYE_DEVICE_FIRMWARE"@, v), reals) == Settings {
            device: DeviceSettings {
                firmware: v,
                ..without.device
            },
            ..without
            }
        }),
        ({
            let without = overridden(c, env, reals);
            overridden(c, env.insert("MIBEE_EYE_DEVICE_HARDWAREID"@, v), reals) == Settings {
            device: DeviceSettings {
                hardware_id: v,
                ..without.device
            },
            ..without
            }
        }),
        ({
            let without = overridden(c, env, reals);
            overridden(c, env.insert("MIBEE_EYE_DEVICE_SERIALNUMBER"@, v), reals) == Settings {
            device: DeviceSettings {
                serial_number: v,
                ..without.device
            },
            ..without
            }
        }),
{
    lemma_device_marks();
    lemma_device_settings(c.device, env, v);
    lemma_device_alone(c, env, reals, "MIBEE_EYE_DEVICE_NAME"@, v);
    lemma_device_alone(c, env, reals, "MIBEE_EYE_DEVICE_MANUFACTURER"@, v);
    lemma_device_alone(c, env, reals, "MIBEE_EYE_DEVICE_MODEL"@, v);
    lemma_device_alone(c, env, reals, "MIBEE_EYE_DEVICE_FIRMWARE"@, v);
    lemma_device_alone(c, env, reals, "MIBEE_EYE_DEVICE_HARDWAREID"@, v);
    lemma_device_alone(c, env, reals, "MIBEE_EYE_DEVICE_SERIALNUMBER"@, v);
}

/// Each logging variable sets its own setting to what it says, as far as
/// that can be read, and leaves all others as they would be without it.
#[verifier::rlimit(60)]
#[verifier::spinoff_prover]
pub proof fn logging_variables_reach_their_settings(
    c: Settings,
    env: Map<Seq<char>, Seq<char>>,
    reals: Map<Seq<char>, RealValue>,
    v: Seq<char>,
)
    ensures
        ({
            let without = overridden(c, env, reals);
            overridden(c, env.insert("MIBEE_EYE_LOGGING_LEVEL"@, v), reals) == Settings {
            logging: LoggingSettings {
                level: v,
            },
            ..without
            }
        }),
{
    lemma_logging_marks();
    lemma_logging_settings(c.logging, env, v);
    lemma_logging_alone(c, env, reals, "MIBEE_EYE_LOGGING_LEVEL"@, v);
}

} // verus!
