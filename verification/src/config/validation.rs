//! What may stand in the configuration.

use vstd::prelude::*;
use vstd::string::*;
use crate::ai::{is_model_char, is_model_id, valid_model_id};
use crate::text::{decimal, decimal_text, same_text};
use crate::watermark::{is_time_format, valid_timestamp_format};
use super::number::{from_zero_to, within_unit, SIXTEEN_BITS, THIRTY_TWO_BITS};
use super::types::{
    default_ai_model_path, default_settings, CameraConfig, CameraSettings, Config, Settings,
    WatermarkConfig, WatermarkSettings,
};

verus! {

/// Why a configuration is no good.
#[derive(Debug)]
pub enum ConfigError {
    /// The file could not be read.
    Io(String),
    /// The file is not in the right form.
    Parse(String),
    /// A value is not allowed.
    Validation(String),
    /// An environment variable is not usable.
    EnvVar(String),
}

/// What an error says.
pub open spec fn error_text(e: ConfigError) -> Seq<char> {
    match e {
        ConfigError::Io(t) => "I/O error: "@ + t@,
        ConfigError::Parse(t) => "TOML parse error: "@ + t@,
        ConfigError::Validation(t) => "Validation error: "@ + t@,
        ConfigError::EnvVar(t) => "Environment variable error: "@ + t@,
    }
}

impl ConfigError {
    /// The error in words.
    pub fn to_string(&self) -> (text: String)
        ensures
            text@ == error_text(*self),
    {
        match self {
            ConfigError::Io(t) => "I/O error: ".to_owned().concat(t.as_str()),
            ConfigError::Parse(t) => "TOML parse error: ".to_owned().concat(t.as_str()),
            ConfigError::Validation(t) => "Validation error: ".to_owned().concat(t.as_str()),
            ConfigError::EnvVar(t) => "Environment variable error: ".to_owned().concat(t.as_str()),
        }
    }
}

/// The first thing wrong with the camera section.
pub open spec fn camera_fault(c: CameraSettings) -> Option<Seq<char>> {
    if c.fps == 0 {
        Some("camera.fps must be positive"@)
    } else if c.width == 0 {
        Some("camera.width must be positive"@)
    } else if c.height == 0 {
        Some("camera.height must be positive"@)
    } else if c.bitrate == 0 {
        Some("camera.bitrate must be positive"@)
    } else if !within_unit(c.brightness.bits) {
        Some("camera.brightness out of range [-1.0, 1.0]: "@ + c.brightness.text)
    } else if !from_zero_to(c.contrast.bits, THIRTY_TWO_BITS) {
        Some("camera.contrast out of range [0.0, 32.0]: "@ + c.contrast.text)
    } else if !from_zero_to(c.saturation.bits, THIRTY_TWO_BITS) {
        Some("camera.saturation out of range [0.0, 32.0]: "@ + c.saturation.text)
    } else if !from_zero_to(c.sharpness.bits, SIXTEEN_BITS) {
        Some("camera.sharpness out of range [0.0, 16.0]: "@ + c.sharpness.text)
    } else if c.codec != "h264"@ && c.codec != "h265"@ {
        Some("camera.codec must be h264 or h265, got: "@ + c.codec)
    } else if c.encoder != "auto"@ && c.encoder != "hardware"@ && c.encoder != "software"@ {
        Some("camera.encoder must be auto, hardware or software, got: "@ + c.encoder)
    } else if c.rotation != 0 && c.rotation != 90 && c.rotation != 180 && c.rotation != 270 {
        Some(
            "camera.rotation must be 0, 90, 180 or 270 (degrees clockwise), got: "@ + decimal(
                c.rotation as nat,
            ),
        )
    } else if (c.rotation == 90 || c.rotation == 270) && (c.width % 2 != 0 || c.height % 2 != 0) {
        Some("camera.width and camera.height must be even when camera.rotation is 90 or 270"@)
    } else {
        None
    }
}

/// The first thing wrong with the watermark section.
pub open spec fn watermark_fault(w: WatermarkSettings) -> Option<Seq<char>> {
    if w.font_size < 12 || w.font_size > 96 {
        Some("watermark.font_size must be in 12..=96, got: "@ + decimal(w.font_size as nat))
    } else if w.text.len() > 128 {
        Some("watermark.text must be at most 128 characters"@)
    } else if w.enabled && w.text.len() == 0 && !w.show_timestamp {
        Some("watermark.enabled requires text or show_timestamp"@)
    } else if !is_time_format(w.timestamp_format) {
        Some(
            "watermark.timestamp_format only allows %Y %m %d %H %M %S %F %T %% and literals, got: "@
                + w.timestamp_format,
        )
    } else {
        None
    }
}

/// The first thing wrong with a configuration.
pub open spec fn fault(c: Settings) -> Option<Seq<char>> {
    if camera_fault(c.camera) is Some {
        camera_fault(c.camera)
    } else if c.rtsp.port == 0 {
        Some("rtsp.port must be positive"@)
    } else if c.onvif.port == 0 {
        Some("onvif.port must be positive"@)
    } else if c.web.enabled && c.web.port == 0 {
        Some("web.port must be positive when web is enabled"@)
    } else if c.features.ai.model_path == "/var/lib/mibee-eye/models/nanodet-m.onnx"@
        && !is_model_id(c.features.ai.model) {
        Some(
            "features.ai.model must match ^[a-z0-9][a-z0-9-]{0,63}$, got '"@ + c.features.ai.model
                + "'"@,
        )
    } else if c.logging.level != "debug"@ && c.logging.level != "info"@ && c.logging.level
        != "warn"@ && c.logging.level != "error"@ {
        Some("logging.level must be debug, info, warn, or error, got: "@ + c.logging.level)
    } else if c.recording.enabled && c.recording.segment_secs < 60 {
        Some(
            "recording.segment_secs must be >= 60, got: "@ + decimal(
                c.recording.segment_secs as nat,
            ),
        )
    } else {
        watermark_fault(c.watermark)
    }
}

/// Whether a result is the verdict of a validation that found a fault, or none.
pub open spec fn is_verdict(r: Result<(), ConfigError>, fault: Option<Seq<char>>) -> bool {
    match fault {
        None => r is Ok,
        Some(text) => r matches Err(ConfigError::Validation(t)) && t@ == text,
    }
}

fn refuse(what: &str) -> (r: Result<(), ConfigError>)
    ensures
        is_verdict(r, Some(what@)),
{
    Err(ConfigError::Validation(what.to_owned()))
}

fn refuse_value(what: &str, value: &str) -> (r: Result<(), ConfigError>)
    ensures
        is_verdict(r, Some(what@ + value@)),
{
    Err(ConfigError::Validation(what.to_owned().concat(value)))
}

fn validate_camera(c: &CameraConfig) -> (r: Result<(), ConfigError>)
    ensures
        is_verdict(r, camera_fault(c@)),
{
    if c.fps == 0 {
        return refuse("camera.fps must be positive");
    }
    if c.width == 0 {
        return refuse("camera.width must be positive");
    }
    if c.height == 0 {
        return refuse("camera.height must be positive");
    }
    if c.bitrate == 0 {
        return refuse("camera.bitrate must be positive");
    }
    if !c.brightness.is_within_unit() {
        return refuse_value(
            "camera.brightness out of range [-1.0, 1.0]: ",
            c.brightness.text.as_str(),
        );
    }
    if !c.contrast.is_from_zero_to(THIRTY_TWO_BITS) {
        return refuse_value(
            "camera.contrast out of range [0.0, 32.0]: ",
            c.contrast.text.as_str(),
        );
    }
    if !c.saturation.is_from_zero_to(THIRTY_TWO_BITS) {
        return refuse_value(
            "camera.saturation out of range [0.0, 32.0]: ",
            c.saturation.text.as_str(),
        );
    }
    if !c.sharpness.is_from_zero_to(SIXTEEN_BITS) {
        return refuse_value(
            "camera.sharpness out of range [0.0, 16.0]: ",
            c.sharpness.text.as_str(),
        );
    }
    let codec = c.codec.as_str();
    if !same_text(codec, "h264") && !same_text(codec, "h265") {
        return refuse_value("camera.codec must be h264 or h265, got: ", codec);
    }
    let encoder = c.encoder.as_str();
    if !same_text(encoder, "auto") && !same_text(encoder, "hardware") && !same_text(
        encoder,
        "software",
    ) {
        return refuse_value(
            "camera.encoder must be auto, hardware or software, got: ",
            encoder,
        );
    }
    if c.rotation != 0 && c.rotation != 90 && c.rotation != 180 && c.rotation != 270 {
        return refuse_value(
            "camera.rotation must be 0, 90, 180 or 270 (degrees clockwise), got: ",
            decimal_text(c.rotation as u64).as_str(),
        );
    }
    if (c.rotation == 90 || c.rotation == 270) && (c.width % 2 != 0 || c.height % 2 != 0) {
        return refuse(
            "camera.width and camera.height must be even when camera.rotation is 90 or 270",
        );
    }
    Ok(())
}

fn validate_watermark(w: &WatermarkConfig) -> (r: Result<(), ConfigError>)
    ensures
        is_verdict(r, watermark_fault(w@)),
{
    if w.font_size < 12 || w.font_size > 96 {
        return refuse_value(
            "watermark.font_size must be in 12..=96, got: ",
            decimal_text(w.font_size as u64).as_str(),
        );
    }
    if w.text.as_str().unicode_len() > 128 {
        return refuse("watermark.text must be at most 128 characters");
    }
    if w.enabled && w.text.as_str().is_empty() && !w.show_timestamp {
        return refuse("watermark.enabled requires text or show_timestamp");
    }
    if !valid_timestamp_format(w.timestamp_format.as_str()) {
        return refuse_value(
            "watermark.timestamp_format only allows %Y %m %d %H %M %S %F %T %% and literals, got: ",
            w.timestamp_format.as_str(),
        );
    }
    Ok(())
}

impl Config {
    /// Tests every value; the first that is not allowed is the error.
    pub fn validate(&self) -> (r: Result<(), ConfigError>)
        ensures
            is_verdict(r, fault(self@)),
    {
        let camera = validate_camera(&self.camera);
        if camera.is_err() {
            return camera;
        }
        if self.rtsp.port == 0 {
            return refuse("rtsp.port must be positive");
        }
        if self.onvif.port == 0 {
            return refuse("onvif.port must be positive");
        }
        if self.web.enabled && self.web.port == 0 {
            return refuse("web.port must be positive when web is enabled");
        }
        let ai = &self.features.ai;
        let usual = default_ai_model_path();
        if same_text(ai.model_path.as_str(), usual.as_str()) && !valid_model_id(
            ai.model.as_str(),
        ) {
            let quoted = ai.model.clone().concat("'");
            proof {
                assert("features.ai.model must match ^[a-z0-9][a-z0-9-]{0,63}$, got '"@ + (
                ai.model@ + "'"@) =~= "features.ai.model must match ^[a-z0-9][a-z0-9-]{0,63}$, got '"@
                    + ai.model@ + "'"@);
            }
            return refuse_value(
                "features.ai.model must match ^[a-z0-9][a-z0-9-]{0,63}$, got '",
                quoted.as_str(),
            );
        }
        let level = self.logging.level.as_str();
        if !same_text(level, "debug") && !same_text(level, "info") && !same_text(level, "warn")
            && !same_text(level, "error") {
            return refuse_value(
                "logging.level must be debug, info, warn, or error, got: ",
                level,
            );
        }
        if self.recording.enabled && self.recording.segment_secs < 60 {
            return refuse_value(
                "recording.segment_secs must be >= 60, got: ",
                decimal_text(self.recording.segment_secs).as_str(),
            );
        }
        validate_watermark(&self.watermark)
    }
}

proof fn lemma_default_model()
    ensures
        is_model_id("nanodet-plus-m-320"@),
{
    reveal_strlit("nanodet-plus-m-320");
    let id = "nanodet-plus-m-320"@;
    assert forall|i: int| 0 <= i < id.len() implies is_model_char(#[trigger] id[i]) || id[i]
        == '-' by {}
}

proof fn lemma_default_time_format()
    ensures
        is_time_format("%Y-%m-%d %H:%M:%S"@),
{
    reveal_strlit("%Y-%m-%d %H:%M:%S");
    let f = "%Y-%m-%d %H:%M:%S"@;
    reveal_with_fuel(is_time_format, 18);
    assert(f.skip(2).skip(1).skip(2).skip(1).skip(2).skip(1).skip(2).skip(1).skip(2).skip(1).skip(
        2,
    ).len() == 0);
}

/// The default configuration is a valid one.
pub proof fn the_default_is_valid()
    ensures
        fault(default_settings()) is None,
{
    lemma_default_model();
    lemma_default_time_format();
}

/// A configuration without a fault has what the capture pipeline relies on.
pub proof fn valid_settings_fit_the_pipeline(c: Settings)
    requires
        fault(c) is None,
    ensures
        0 < c.camera.fps,
        0 < c.camera.width,
        0 < c.camera.height,
        c.camera.rotation == 0 || c.camera.rotation == 90 || c.camera.rotation == 180
            || c.camera.rotation == 270,
        c.camera.rotation == 90 || c.camera.rotation == 270 ==> c.camera.width % 2 == 0
            && c.camera.height % 2 == 0,
        0 < c.rtsp.port,
        0 < c.onvif.port,
{
}

/// An error says of what kind it is, in front of the detail.
pub proof fn errors_say_their_kind(t: String)
    ensures
        error_text(ConfigError::Io(t)) == "I/O error: "@ + t@,
        error_text(ConfigError::Parse(t)) == "TOML parse error: "@ + t@,
        error_text(ConfigError::Validation(t)) == "Validation error: "@ + t@,
        error_text(ConfigError::EnvVar(t)) == "Environment variable error: "@ + t@,
{
}

} // verus!
