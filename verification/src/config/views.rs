//! The settings say what the fields of the configuration hold.

use vstd::prelude::*;
use super::types::{
    AiFeatureConfig, CameraConfig, Config, DeviceConfig, FeaturesConfig, Gb28181Config,
    Gb35114Config, LocalStorageConfig, LoggingConfig, MotionConfig, ONVIFConfig, RTSPConfig,
    RecordingConfig, RtmpConfig, StorageConfig, WatermarkConfig, WebConfig,
};

verus! {

/// The settings of the camera are what its fields hold, each under its name.
pub proof fn camera_config_is_viewed(c: CameraConfig)
    ensures
        c@.device == c.device@,
        c@.mode == c.mode@,
        c@.encoder == c.encoder@,
        c@.encoder_device == c.encoder_device@,
        c@.rtsp_url == c.rtsp_url@,
        c@.width == c.width,
        c@.height == c.height,
        c@.fps == c.fps,
        c@.codec == c.codec@,
        c@.bitrate == c.bitrate,
        c@.brightness == c.brightness@,
        c@.contrast == c.contrast@,
        c@.saturation == c.saturation@,
        c@.sharpness == c.sharpness@,
        c@.rotation == c.rotation,
        c@.hflip == c.hflip,
        c@.vflip == c.vflip,
{
}

/// The settings of the RTSP server are what its fields hold, each under its name.
pub proof fn rtsp_config_is_viewed(c: RTSPConfig)
    ensures
        c@.port == c.port,
        c@.username == c.username@,
        c@.password == c.password@,
{
}

/// The settings of the ONVIF server are what its fields hold, each under its name.
pub proof fn onvif_config_is_viewed(c: ONVIFConfig)
    ensures
        c@.port == c.port,
        c@.username == c.username@,
        c@.password == c.password@,
        c@.events_enabled == c.events_enabled,
{
}

/// The settings of the certificate-based registration are what its fields
/// hold, each under its name.
pub proof fn gb35114_config_is_viewed(c: Gb35114Config)
    ensures
        c@.enabled == c.enabled,
        c@.device_cert_file == c.device_cert_file@,
        c@.device_key_file == c.device_key_file@,
        c@.platform_cert_file == c.platform_cert_file@,
        c@.server_id == c.server_id@,
{
}

/// The settings of the platform are what its fields hold, each under its name.
pub proof fn gb28181_config_is_viewed(c: Gb28181Config)
    ensures
        c@.enabled == c.enabled,
        c@.platform_sip_address == c.platform_sip_address@,
        c@.platform_sip_port == c.platform_sip_port,
        c@.device_id == c.device_id@,
        c@.channel_id == c.channel_id@,
        c@.sip_domain == c.sip_domain@,
        c@.password == c.password@,
        c@.local_sip_port == c.local_sip_port,
        c@.register_interval_secs == c.register_interval_secs,
        c@.heartbeat_interval_secs == c.heartbeat_interval_secs,
        c@.heartbeat_timeout_count == c.heartbeat_timeout_count,
        c@.transport == c.transport,
        c@.gb35114 == c.gb35114@,
        c@.alarm_notify_enabled == c.alarm_notify_enabled,
        c@.alarm_cooldown_secs == c.alarm_cooldown_secs,
        c@.longitude == c.longitude@,
        c@.latitude == c.latitude@,
{
}

/// The settings of the web server are what its fields hold, each under its name.
pub proof fn web_config_is_viewed(c: WebConfig)
    ensures
        c@.enabled == c.enabled,
        c@.port == c.port,
        c@.username == c.username@,
        c@.password == c.password@,
        c@.tls_enabled == c.tls_enabled,
{
}

/// The settings of the device are what its fields hold, each under its name.
pub proof fn device_config_is_viewed(c: DeviceConfig)
    ensures
        c@.name == c.name@,
        c@.manufacturer == c.manufacturer@,
        c@.model == c.model@,
        c@.firmware == c.firmware@,
        c@.hardware_id == c.hardware_id@,
        c@.serial_number == c.serial_number@,
{
}

/// The settings of the logging are what its fields hold, each under its name.
pub proof fn logging_config_is_viewed(c: LoggingConfig)
    ensures
        c@.level == c.level@,
{
}

/// The settings of the local storage are what its fields hold, each under its name.
pub proof fn local_storage_config_is_viewed(c: LocalStorageConfig)
    ensures
        c@.path == c.path@,
        c@.retention_days == c.retention_days,
{
}

/// The settings of the storage are what its fields hold, each under its name.
pub proof fn storage_config_is_viewed(c: StorageConfig)
    ensures
        c@.enabled == c.enabled,
        c@.local == c.local@,
{
}

/// The settings of the recording are what its fields hold, each under its name.
pub proof fn recording_config_is_viewed(c: RecordingConfig)
    ensures
        c@.enabled == c.enabled,
        c@.storage_path == c.storage_path@,
        c@.segment_secs == c.segment_secs,
        c@.retention_days == c.retention_days,
        c@.max_storage_mb == c.max_storage_mb,
{
}

/// The settings of the watermark are what its fields hold, each under its name.
pub proof fn watermark_config_is_viewed(c: WatermarkConfig)
    ensures
        c@.enabled == c.enabled,
        c@.text == c.text@,
        c@.show_timestamp == c.show_timestamp,
        c@.timestamp_format == c.timestamp_format@,
        c@.position == c.position,
        c@.font_size == c.font_size,
        c@.font_path == c.font_path@,
{
}

/// The settings of the motion are what its fields hold, each under its name.
pub proof fn motion_config_is_viewed(c: MotionConfig)
    ensures
        c@.enabled == c.enabled,
        c@.sensitivity == c.sensitivity@,
        c@.min_area == c.min_area,
        c@.cooldown_ms == c.cooldown_ms,
{
}

/// The settings of the RTMP are what its fields hold, each under its name.
pub proof fn rtmp_config_is_viewed(c: RtmpConfig)
    ensures
        c@.enabled == c.enabled,
        c@.url == c.url@,
{
}

/// The settings of the detection are what its fields hold, each under its name.
pub proof fn ai_feature_config_is_viewed(c: AiFeatureConfig)
    ensures
        c@.enabled == c.enabled,
        c@.model == c.model@,
        c@.allow_upload == c.allow_upload,
        c@.model_path == c.model_path@,
        c@.confidence_threshold == c.confidence_threshold@,
        c@.interval_frames == c.interval_frames,
        c@.max_memory_mb == c.max_memory_mb,
        c@.cpu_cores == c.cpu_cores@,
{
}

/// The settings of the features are what its fields hold, each under its name.
pub proof fn features_config_is_viewed(c: FeaturesConfig)
    ensures
        c@.ai == c.ai@,
        c@.multi_camera == c.multi_camera,
        c@.webrtc == c.webrtc,
        c@.h265 == c.h265,
{
}

/// The settings of the whole configuration are what its fields hold, each under its name.
pub proof fn config_is_viewed(c: Config)
    ensures
        c@.camera == c.camera@,
        c@.rtsp == c.rtsp@,
        c@.onvif == c.onvif@,
        c@.gb28181 == c.gb28181@,
        c@.web == c.web@,
        c@.device == c.device@,
        c@.logging == c.logging@,
        c@.storage == c.storage@,
        c@.recording == c.recording@,
        c@.watermark == c.watermark@,
        c@.motion == c.motion@,
        c@.rtmp == c.rtmp@,
        c@.features == c.features@,
{
}

} // verus!
