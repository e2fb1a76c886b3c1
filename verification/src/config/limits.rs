//! The limits of the configuration, and what is said where one is broken.

use vstd::prelude::*;
use crate::ai::is_model_id;
use crate::text::decimal;
use crate::watermark::is_time_format;
use super::number::RealValue;
use super::types::{
    AiSettings, CameraSettings, FeatureSettings, LoggingSettings, OnvifSettings,
    RecordingSettings, RtspSettings, Settings, WatermarkSettings, WebSettings,
};
use super::validation::fault;

verus! {

/// Whether the bits of a double precision number are those of one from -1 to 1:
/// of the positive ones up to 1, or the same with the sign bit.
pub open spec fn is_at_most_one(bits: u64) -> bool {
    bits <= 0x3ff0_0000_0000_0000 || 0x8000_0000_0000_0000 <= bits <= 0xbff0_0000_0000_0000
}

/// Whether the bits of a double precision number are those of one from 0 to the
/// number with the bits `top`: of zero with either sign, or positive.
pub open spec fn is_from_nothing_to(bits: u64, top: u64) -> bool {
    bits <= top || bits == 0x8000_0000_0000_0000
}

/// Whether the camera section keeps its limits.
pub open spec fn keeps_camera_limits(c: CameraSettings) -> bool {
    &&& c.width >= 1
    &&& c.height >= 1
    &&& c.fps >= 1
    &&& c.bitrate >= 1
    &&& is_at_most_one(c.brightness.bits)
    &&& is_from_nothing_to(c.contrast.bits, 0x4040_0000_0000_0000)
    &&& is_from_nothing_to(c.saturation.bits, 0x4040_0000_0000_0000)
    &&& is_from_nothing_to(c.sharpness.bits, 0x4030_0000_0000_0000)
    &&& seq!["h264"@, "h265"@].contains(c.codec)
    &&& seq!["auto"@, "hardware"@, "software"@].contains(c.encoder)
    &&& c.rotation % 90 == 0 && c.rotation < 360
    &&& (c.rotation / 90) % 2 == 1 ==> c.width % 2 == 0 && c.height % 2 == 0
}

/// Whether the watermark section keeps its limits.
pub open spec fn keeps_watermark_limits(w: WatermarkSettings) -> bool {
    &&& 12 <= w.font_size <= 96
    &&& w.text.len() <= 128
    &&& w.enabled ==> w.text.len() > 0 || w.show_timestamp
    &&& is_time_format(w.timestamp_format)
}

/// A configuration is valid exactly where every value keeps its limits.
pub proof fn validity_is_keeping_the_limits(c: Settings)
    ensures
        fault(c) is None <==> {
            &&& keeps_camera_limits(c.camera)
            &&& c.rtsp.port >= 1
            &&& c.onvif.port >= 1
            &&& c.web.enabled ==> c.web.port >= 1
            &&& c.features.ai.model_path == "/var/lib/mibee-eye/models/nanodet-m.onnx"@
                ==> is_model_id(c.features.ai.model)
            &&& seq!["debug"@, "info"@, "warn"@, "error"@].contains(c.logging.level)
            &&& c.recording.enabled ==> c.recording.segment_secs >= 60
            &&& keeps_watermark_limits(c.watermark)
        },
{
    let codecs = seq!["h264"@, "h265"@];
    assert(codecs[0] == "h264"@ && codecs[1] == "h265"@);
    let encoders = seq!["auto"@, "hardware"@, "software"@];
    assert(encoders[0] == "auto"@ && encoders[1] == "hardware"@ && encoders[2] == "software"@);
    let levels = seq!["debug"@, "info"@, "warn"@, "error"@];
    assert(levels[0] == "debug"@ && levels[1] == "info"@ && levels[2] == "warn"@ && levels[3]
        == "error"@);
    let b = c.camera.brightness.bits;
    assert((b as int % 0x8000_0000_0000_0000 <= 0x3ff0_0000_0000_0000) == is_at_most_one(b));
}

/// A valid configuration in which one size or rate of the picture is made zero
/// is refused for just that.
pub proof fn bad_pictures_are_told(c: Settings)
    requires
        fault(c) is None,
    ensures
        fault(Settings { camera: CameraSettings { fps: 0, ..c.camera }, ..c }) == Some(
            "camera.fps must be positive"@,
        ),
        fault(Settings { camera: CameraSettings { width: 0, ..c.camera }, ..c }) == Some(
            "camera.width must be positive"@,
        ),
        fault(Settings { camera: CameraSettings { height: 0, ..c.camera }, ..c }) == Some(
            "camera.height must be positive"@,
        ),
        fault(Settings { camera: CameraSettings { bitrate: 0, ..c.camera }, ..c }) == Some(
            "camera.bitrate must be positive"@,
        ),
{
}

/// A valid configuration in which one control of the image is moved out of its
/// range is refused for just that, with the value.
pub proof fn bad_image_controls_are_told(c: Settings, r: RealValue)
    requires
        fault(c) is None,
    ensures
        !is_at_most_one(r.bits) ==> fault(
            Settings { camera: CameraSettings { brightness: r, ..c.camera }, ..c },
        ) == Some("camera.brightness out of range [-1.0, 1.0]: "@ + r.text),
        !is_from_nothing_to(r.bits, 0x4040_0000_0000_0000) ==> fault(
            Settings { camera: CameraSettings { contrast: r, ..c.camera }, ..c },
        ) == Some("camera.contrast out of range [0.0, 32.0]: "@ + r.text),
        !is_from_nothing_to(r.bits, 0x4040_0000_0000_0000) ==> fault(
            Settings { camera: CameraSettings { saturation: r, ..c.camera }, ..c },
        ) == Some("camera.saturation out of range [0.0, 32.0]: "@ + r.text),
        !is_from_nothing_to(r.bits, 0x4030_0000_0000_0000) ==> fault(
            Settings { camera: CameraSettings { sharpness: r, ..c.camera }, ..c },
        ) == Some("camera.sharpness out of range [0.0, 16.0]: "@ + r.text),
{
    let b = r.bits;
    assert((b as int % 0x8000_0000_0000_0000 <= 0x3ff0_0000_0000_0000) == is_at_most_one(b));
}

/// A valid configuration in which one choice of the camera is made another than
/// those that there are is refused for just that, with the choice.
pub proof fn bad_choices_are_told(c: Settings, t: Seq<char>, n: u32)
    requires
        fault(c) is None,
    ensures
        !seq!["h264"@, "h265"@].contains(t) ==> fault(
            Settings { camera: CameraSettings { codec: t, ..c.camera }, ..c },
        ) == Some("camera.codec must be h264 or h265, got: "@ + t),
        !seq!["auto"@, "hardware"@, "software"@].contains(t) ==> fault(
            Settings { camera: CameraSettings { encoder: t, ..c.camera }, ..c },
        ) == Some("camera.encoder must be auto, hardware or software, got: "@ + t),
        n % 90 != 0 || n >= 360 ==> fault(
            Settings { camera: CameraSettings { rotation: n, ..c.camera }, ..c },
        ) == Some(
            "camera.rotation must be 0, 90, 180 or 270 (degrees clockwise), got: "@ + decimal(
                n as nat,
            ),
        ),
        (n == 90 || n == 270) && (c.camera.width % 2 == 1 || c.camera.height % 2 == 1) ==> fault(
            Settings { camera: CameraSettings { rotation: n, ..c.camera }, ..c },
        ) == Some("camera.width and camera.height must be even when camera.rotation is 90 or 270"@),
        !seq!["debug"@, "info"@, "warn"@, "error"@].contains(t) ==> fault(
            Settings { logging: LoggingSettings { level: t, ..c.logging }, ..c },
        ) == Some("logging.level must be debug, info, warn, or error, got: "@ + t),
{
    let codecs = seq!["h264"@, "h265"@];
    assert(codecs[0] == "h264"@ && codecs[1] == "h265"@);
    let encoders = seq!["auto"@, "hardware"@, "software"@];
    assert(encoders[0] == "auto"@ && encoders[1] == "hardware"@ && encoders[2] == "software"@);
    let levels = seq!["debug"@, "info"@, "warn"@, "error"@];
    assert(levels[0] == "debug"@ && levels[1] == "info"@ && levels[2] == "warn"@ && levels[3]
        == "error"@);
}

/// A valid configuration in which one port is made zero is refused for just
/// that; that of the web server counts only where the server is on.
pub proof fn bad_ports_are_told(c: Settings)
    requires
        fault(c) is None,
    ensures
        fault(Settings { rtsp: RtspSettings { port: 0, ..c.rtsp }, ..c }) == Some(
            "rtsp.port must be positive"@,
        ),
        fault(Settings { onvif: OnvifSettings { port: 0, ..c.onvif }, ..c }) == Some(
            "onvif.port must be positive"@,
        ),
        fault(Settings { web: WebSettings { port: 0, enabled: true, ..c.web }, ..c }) == Some(
            "web.port must be positive when web is enabled"@,
        ),
        fault(Settings { web: WebSettings { port: 0, enabled: false, ..c.web }, ..c }) is None,
{
}

/// A valid configuration in which the model, the length of a recording or the
/// watermark is made a bad one is refused for just that.
pub proof fn bad_features_are_told(c: Settings, t: Seq<char>, secs: u64, size: u32)
    requires
        fault(c) is None,
    ensures
        !is_model_id(t) ==> fault(
            Settings {
                features: FeatureSettings {
                    ai: AiSettings {
                        model: t,
                        model_path: "/var/lib/mibee-eye/models/nanodet-m.onnx"@,
                        ..c.features.ai
                    },
                    ..c.features
                },
                ..c
            },
        ) == Some("features.ai.model must match ^[a-z0-9][a-z0-9-]{0,63}$, got '"@ + t + "'"@),
        secs < 60 ==> fault(
            Settings {
                recording: RecordingSettings { enabled: true, segment_secs: secs, ..c.recording },
                ..c
            },
        ) == Some("recording.segment_secs must be >= 60, got: "@ + decimal(secs as nat)),
        size < 12 || size > 96 ==> fault(
            Settings { watermark: WatermarkSettings { font_size: size, ..c.watermark }, ..c },
        ) == Some("watermark.font_size must be in 12..=96, got: "@ + decimal(size as nat)),
        t.len() > 128 ==> fault(
            Settings { watermark: WatermarkSettings { text: t, ..c.watermark }, ..c },
        ) == Some("watermark.text must be at most 128 characters"@),
        fault(
            Settings {
                watermark: WatermarkSettings {
                    enabled: true,
                    text: Seq::empty(),
                    show_timestamp: false,
                    ..c.watermark
                },
                ..c
            },
        ) == Some("watermark.enabled requires text or show_timestamp"@),
        !is_time_format(t) ==> fault(
            Settings { watermark: WatermarkSettings { timestamp_format: t, ..c.watermark }, ..c },
        ) == Some(
            "watermark.timestamp_format only allows %Y %m %d %H %M %S %F %T %% and literals, got: "@
                + t,
        ),
{
}

/// The identifier of a model starts with a small letter or a digit, goes on
/// with more of these and hyphens, and is not too long.
pub proof fn model_ids_are_short_and_plain(id: Seq<char>, c: char)
    ensures
        is_model_id(seq![c]) <==> 'a' <= c <= 'z' || '0' <= c <= '9',
        is_model_id(id) && id.len() < 64 ==> (is_model_id(id.push(c)) <==> 'a' <= c <= 'z'
            || '0' <= c <= '9' || c == '-'),
        is_model_id(id) ==> id.len() <= 64,
        !is_model_id(Seq::empty()),
{
    let one = seq![c];
    assert(one[0] == c);
    let more = id.push(c);
    if is_model_id(id) {
        assert(more[id.len() as int] == c);
        assert(more[0] == id[0]);
        assert forall|i: int| 0 <= i < id.len() implies more[i] == #[trigger] id[i] by {}
        if 'a' <= c <= 'z' || '0' <= c <= '9' || c == '-' {
            assert forall|i: int| 0 <= i < more.len() implies crate::ai::is_model_char(
                #[trigger] more[i],
            ) || more[i] == '-' by {
                if i < id.len() {
                    assert(more[i] == id[i]);
                }
            }
        }
    }
}

/// A format of the time is made of characters that stand for themselves and of
/// fields: a percent sign and the letter of one.
pub proof fn time_formats_are_made_of_fields(c: char, rest: Seq<char>)
    ensures
        is_time_format(Seq::empty()),
        c != '%' ==> (is_time_format(seq![c] + rest) <==> is_time_format(rest)),
        is_time_format(seq!['%', c] + rest) <==> "YmdHMSFT%"@.contains(c) && is_time_format(rest),
        !is_time_format(seq!['%']),
{
    reveal_strlit("YmdHMSFT%");
    assert((seq![c] + rest).skip(1) =~= rest);
    let f = seq!['%', c] + rest;
    assert(f[0] == '%' && f[1] == c);
    assert(f.skip(2) =~= rest);
    let letters = "YmdHMSFT%"@;
    assert(letters[0] == 'Y' && letters[1] == 'm' && letters[2] == 'd' && letters[3] == 'H'
        && letters[4] == 'M' && letters[5] == 'S' && letters[6] == 'F' && letters[7] == 'T'
        && letters[8] == '%');
}

} // verus!
