//! The sections of the configuration and their defaults.

use vstd::prelude::*;
use crate::gb28181_alarm::DEFAULT_ALARM_COOLDOWN_SECS;
use super::identity::{default_device_config, identified};
use super::number::{real_half, real_one, real_zero, Real, RealValue};

verus! {

/// How the surveillance platform is reached.
#[derive(Debug, Clone, Copy, PartialEq, Eq, Structural)]
pub enum Transport {
    Udp,
    /// The platform connects.
    Tcp,
    /// The device connects.
    TcpOut,
    /// The device connects, with TLS.
    Tls,
    /// The platform connects, with TLS.
    TlsListen,
}

/// Where the watermark stands.
#[derive(Debug, Clone, Copy, PartialEq, Eq, Structural)]
pub enum Position {
    TopLeft,
    TopRight,
    BottomLeft,
    BottomRight,
}

/// The model file that is used unless another is named.
pub fn default_ai_model_path() -> (path: String)
    ensures
        path@ == "/var/lib/mibee-eye/models/nanodet-m.onnx"@,
{
    "/var/lib/mibee-eye/models/nanodet-m.onnx".to_owned()
}

/// Camera capture settings.
#[derive(Debug, Clone)]
pub struct CameraConfig {
    /// Capture device.
    pub device: String,
    /// Capture mode.
    pub mode: String,
    /// Which H.264 encoder: `auto`, `hardware` or `software`.
    pub encoder: String,
    /// Device of the hardware encoder.
    pub encoder_device: String,
    /// Stream to read instead of a device.
    pub rtsp_url: String,
    pub width: u32,
    pub height: u32,
    pub fps: u32,
    pub codec: String,
    /// Bits per second.
    pub bitrate: u64,
    /// From -1 to 1.
    pub brightness: Real,
    /// From 0 to 32.
    pub contrast: Real,
    /// From 0 to 32.
    pub saturation: Real,
    /// From 0 to 16.
    pub sharpness: Real,
    /// Degrees clockwise, baked into every frame before the flips.
    pub rotation: u32,
    /// Left-right mirroring of every frame.
    pub hflip: bool,
    /// Top-bottom mirroring of every frame.
    pub vflip: bool,
}

/// What a [`CameraConfig`] says.
pub struct CameraSettings {
    pub device: Seq<char>,
    pub mode: Seq<char>,
    pub encoder: Seq<char>,
    pub encoder_device: Seq<char>,
    pub rtsp_url: Seq<char>,
    pub width: u32,
    pub height: u32,
    pub fps: u32,
    pub codec: Seq<char>,
    pub bitrate: u64,
    pub brightness: RealValue,
    pub contrast: RealValue,
    pub saturation: RealValue,
    pub sharpness: RealValue,
    pub rotation: u32,
    pub hflip: bool,
    pub vflip: bool,
}

impl View for CameraConfig {
    type V = CameraSettings;

    open spec fn view(&self) -> CameraSettings {
        CameraSettings {
            device: self.device@,
            mode: self.mode@,
            encoder: self.encoder@,
            encoder_device: self.encoder_device@,
            rtsp_url: self.rtsp_url@,
            width: self.width,
            height: self.height,
            fps: self.fps,
            codec: self.codec@,
            bitrate: self.bitrate,
            brightness: self.brightness@,
            contrast: self.contrast@,
            saturation: self.saturation@,
            sharpness: self.sharpness@,
            rotation: self.rotation,
            hflip: self.hflip,
            vflip: self.vflip,
        }
    }
}

/// What the default CameraConfig says.
pub open spec fn default_camera_config() -> CameraSettings {
    CameraSettings {
        device: "/dev/video0"@,
        mode: "mtxrpicam"@,
        encoder: "auto"@,
        encoder_device: "/dev/video11"@,
        rtsp_url: Seq::<char>::empty(),
        width: 1280u32,
        height: 720u32,
        fps: 15u32,
        codec: "h264"@,
        bitrate: 2_000_000u64,
        brightness: real_zero(),
        contrast: real_one(),
        saturation: real_one(),
        sharpness: real_one(),
        rotation: 0u32,
        hflip: false,
        vflip: false,
    }
}

impl Default for CameraConfig {
    fn default() -> (c: Self)
        ensures
            c@ == default_camera_config(),
    {
        CameraConfig {
            device: "/dev/video0".to_owned(),
            mode: "mtxrpicam".to_owned(),
            encoder: "auto".to_owned(),
            encoder_device: "/dev/video11".to_owned(),
            rtsp_url: String::new(),
            width: 1280,
            height: 720,
            fps: 15,
            codec: "h264".to_owned(),
            bitrate: 2_000_000,
            brightness: Real::zero(),
            contrast: Real::one(),
            saturation: Real::one(),
            sharpness: Real::one(),
            rotation: 0,
            hflip: false,
            vflip: false,
        }
    }
}

/// RTSP server settings.
#[derive(Debug, Clone)]
pub struct RTSPConfig {
    pub port: u16,
    pub username: String,
    pub password: String,
}

/// What a [`RTSPConfig`] says.
pub struct RtspSettings {
    pub port: u16,
    pub username: Seq<char>,
    pub password: Seq<char>,
}

impl View for RTSPConfig {
    type V = RtspSettings;

    open spec fn view(&self) -> RtspSettings {
        RtspSettings {
            port: self.port,
            username: self.username@,
            password: self.password@,
        }
    }
}

/// What the default RTSPConfig says.
pub open spec fn default_rtsp_config() -> RtspSettings {
    RtspSettings {
        port: 8554u16,
        username: Seq::<char>::empty(),
        password: Seq::<char>::empty(),
    }
}

impl Default for RTSPConfig {
    fn default() -> (c: Self)
        ensures
            c@ == default_rtsp_config(),
    {
        RTSPConfig {
            port: 8554,
            username: String::new(),
            password: String::new(),
        }
    }
}

/// ONVIF server settings.
#[derive(Debug, Clone)]
pub struct ONVIFConfig {
    pub port: u16,
    pub username: String,
    pub password: String,
    /// Whether motion alarms are published as events.
    pub events_enabled: bool,
}

/// What a [`ONVIFConfig`] says.
pub struct OnvifSettings {
    pub port: u16,
    pub username: Seq<char>,
    pub password: Seq<char>,
    pub events_enabled: bool,
}

impl View for ONVIFConfig {
    type V = OnvifSettings;

    open spec fn view(&self) -> OnvifSettings {
        OnvifSettings {
            port: self.port,
            username: self.username@,
            password: self.password@,
            events_enabled: self.events_enabled,
        }
    }
}

/// What the default ONVIFConfig says.
pub open spec fn default_onvif_config() -> OnvifSettings {
    OnvifSettings {
        port: 8080u16,
        username: "admin"@,
        password: Seq::<char>::empty(),
        events_enabled: true,
    }
}

impl Default for ONVIFConfig {
    fn default() -> (c: Self)
        ensures
            c@ == default_onvif_config(),
    {
        ONVIFConfig {
            port: 8080,
            username: "admin".to_owned(),
            password: String::new(),
            events_enabled: true,
        }
    }
}

/// Certificate-based registration.
#[derive(Debug, Clone)]
pub struct Gb35114Config {
    pub enabled: bool,
    /// Certificate of the device.
    pub device_cert_file: String,
    /// Private key of the device.
    pub device_key_file: String,
    /// Certificate of the platform.
    pub platform_cert_file: String,
    /// Identifier of the server that is registered with.
    pub server_id: String,
}

/// What a [`Gb35114Config`] says.
pub struct Gb35114Settings {
    pub enabled: bool,
    pub device_cert_file: Seq<char>,
    pub device_key_file: Seq<char>,
    pub platform_cert_file: Seq<char>,
    pub server_id: Seq<char>,
}

impl View for Gb35114Config {
    type V = Gb35114Settings;

    open spec fn view(&self) -> Gb35114Settings {
        Gb35114Settings {
            enabled: self.enabled,
            device_cert_file: self.device_cert_file@,
            device_key_file: self.device_key_file@,
            platform_cert_file: self.platform_cert_file@,
            server_id: self.server_id@,
        }
    }
}

/// What the default Gb35114Config says.
pub open spec fn default_gb35114_config() -> Gb35114Settings {
    Gb35114Settings {
        enabled: false,
        device_cert_file: Seq::<char>::empty(),
        device_key_file: Seq::<char>::empty(),
        platform_cert_file: Seq::<char>::empty(),
        server_id: Seq::<char>::empty(),
    }
}

impl Default for Gb35114Config {
    fn default() -> (c: Self)
        ensures
            c@ == default_gb35114_config(),
    {
        Gb35114Config {
            enabled: false,
            device_cert_file: String::new(),
            device_key_file: String::new(),
            platform_cert_file: String::new(),
            server_id: String::new(),
        }
    }
}

/// Settings of the surveillance platform connection.
#[derive(Debug, Clone)]
pub struct Gb28181Config {
    pub enabled: bool,
    pub platform_sip_address: String,
    pub platform_sip_port: u16,
    pub device_id: String,
    pub channel_id: String,
    pub sip_domain: String,
    pub password: String,
    pub local_sip_port: u16,
    pub register_interval_secs: u64,
    pub heartbeat_interval_secs: u64,
    pub heartbeat_timeout_count: u32,
    pub transport: Transport,
    /// Certificate-based registration.
    pub gb35114: Gb35114Config,
    /// Whether detections become alarms until the platform decides.
    pub alarm_notify_enabled: bool,
    /// Least seconds between two alarms.
    pub alarm_cooldown_secs: u64,
    /// Surveyed position, reported as it stands.
    pub longitude: String,
    /// Surveyed position, reported as it stands.
    pub latitude: String,
}

/// What a [`Gb28181Config`] says.
pub struct Gb28181Settings {
    pub enabled: bool,
    pub platform_sip_address: Seq<char>,
    pub platform_sip_port: u16,
    pub device_id: Seq<char>,
    pub channel_id: Seq<char>,
    pub sip_domain: Seq<char>,
    pub password: Seq<char>,
    pub local_sip_port: u16,
    pub register_interval_secs: u64,
    pub heartbeat_interval_secs: u64,
    pub heartbeat_timeout_count: u32,
    pub transport: Transport,
    pub gb35114: Gb35114Settings,
    pub alarm_notify_enabled: bool,
    pub alarm_cooldown_secs: u64,
    pub longitude: Seq<char>,
    pub latitude: Seq<char>,
}

impl View for Gb28181Config {
    type V = Gb28181Settings;

    open spec fn view(&self) -> Gb28181Settings {
        Gb28181Settings {
            enabled: self.enabled,
            platform_sip_address: self.platform_sip_address@,
            platform_sip_port: self.platform_sip_port,
            device_id: self.device_id@,
            channel_id: self.channel_id@,
            sip_domain: self.sip_domain@,
            password: self.password@,
            local_sip_port: self.local_sip_port,
            register_interval_secs: self.register_interval_secs,
            heartbeat_interval_secs: self.heartbeat_interval_secs,
            heartbeat_timeout_count: self.heartbeat_timeout_count,
            transport: self.transport,
            gb35114: self.gb35114@,
            alarm_notify_enabled: self.alarm_notify_enabled,
            alarm_cooldown_secs: self.alarm_cooldown_secs,
            longitude: self.longitude@,
            latitude: self.latitude@,
        }
    }
}

/// What the default Gb28181Config says.
pub open spec fn default_gb28181_config() -> Gb28181Settings {
    Gb28181Settings {
        enabled: false,
        platform_sip_address: "192.168.1.1"@,
        platform_sip_port: 5060u16,
        device_id: "34020000001320000001"@,
        channel_id: "34020000001320000001"@,
        sip_domain: "3402000000"@,
        password: Seq::<char>::empty(),
        local_sip_port: 5060u16,
        register_interval_secs: 60u64,
        heartbeat_interval_secs: 60u64,
        heartbeat_timeout_count: 3u32,
        transport: Transport::Udp,
        gb35114: default_gb35114_config(),
        alarm_notify_enabled: true,
        alarm_cooldown_secs: DEFAULT_ALARM_COOLDOWN_SECS,
        longitude: Seq::<char>::empty(),
        latitude: Seq::<char>::empty(),
    }
}

/// The platform settings that the protocol library has defaults for.
struct PlatformDefaults {
    enabled: bool,
    platform_sip_address: String,
    platform_sip_port: u16,
    device_id: String,
    channel_id: String,
    sip_domain: String,
    password: String,
    local_sip_port: u16,
    register_interval_secs: u64,
    heartbeat_interval_secs: u64,
    heartbeat_timeout_count: u32,
    over_udp: bool,
}

/// `gb28181_rs::config::Gb28181Config::default`: the protocol library's own
/// defaults, as its source has them.
#[verifier::external_body]
fn platform_defaults() -> (p: PlatformDefaults)
    ensures
        !p.enabled,
        p.platform_sip_address@ == "192.168.1.1"@,
        p.platform_sip_port == 5060,
        p.device_id@ == "34020000001320000001"@,
        p.channel_id@ == "34020000001320000001"@,
        p.sip_domain@ == "3402000000"@,
        p.password@ == Seq::<char>::empty(),
        p.local_sip_port == 5060,
        p.register_interval_secs == 60,
        p.heartbeat_interval_secs == 60,
        p.heartbeat_timeout_count == 3,
        p.over_udp,
{
    let d = gb28181_rs::config::Gb28181Config::default();
    PlatformDefaults { enabled: d.enabled, platform_sip_address: d.platform_sip_address,
        platform_sip_port: d.platform_sip_port, device_id: d.device_id,
        channel_id: d.channel_id, sip_domain: d.sip_domain, password: d.password,
        local_sip_port: d.local_sip_port, register_interval_secs: d.register_interval_secs,
        heartbeat_interval_secs: d.heartbeat_interval_secs,
        heartbeat_timeout_count: d.heartbeat_timeout_count,
        over_udp: matches!(d.transport, gb28181_rs::config::Transport::Udp) }
}

impl Default for Gb28181Config {
    fn default() -> (c: Self)
        ensures
            c@ == default_gb28181_config(),
    {
        let p = platform_defaults();
        Gb28181Config {
            enabled: p.enabled,
            platform_sip_address: p.platform_sip_address,
            platform_sip_port: p.platform_sip_port,
            device_id: p.device_id,
            channel_id: p.channel_id,
            sip_domain: p.sip_domain,
            password: p.password,
            local_sip_port: p.local_sip_port,
            register_interval_secs: p.register_interval_secs,
            heartbeat_interval_secs: p.heartbeat_interval_secs,
            heartbeat_timeout_count: p.heartbeat_timeout_count,
            transport: if p.over_udp {
                Transport::Udp
            } else {
                Transport::Tcp
            },
            gb35114: Gb35114Config::default(),
            alarm_notify_enabled: true,
            alarm_cooldown_secs: DEFAULT_ALARM_COOLDOWN_SECS,
            longitude: String::new(),
            latitude: String::new(),
        }
    }
}

/// Web interface settings.
#[derive(Debug, Clone)]
pub struct WebConfig {
    pub enabled: bool,
    pub port: u16,
    /// Where empty, that of ONVIF counts.
    pub username: String,
    /// Where empty, that of ONVIF counts.
    pub password: String,
    pub tls_enabled: bool,
}

/// What a [`WebConfig`] says.
pub struct WebSettings {
    pub enabled: bool,
    pub port: u16,
    pub username: Seq<char>,
    pub password: Seq<char>,
    pub tls_enabled: bool,
}

impl View for WebConfig {
    type V = WebSettings;

    open spec fn view(&self) -> WebSettings {
        WebSettings {
            enabled: self.enabled,
            port: self.port,
            username: self.username@,
            password: self.password@,
            tls_enabled: self.tls_enabled,
        }
    }
}

/// What the default WebConfig says.
pub open spec fn default_web_config() -> WebSettings {
    WebSettings {
        enabled: true,
        port: 8088u16,
        username: Seq::<char>::empty(),
        password: Seq::<char>::empty(),
        tls_enabled: false,
    }
}

impl Default for WebConfig {
    fn default() -> (c: Self)
        ensures
            c@ == default_web_config(),
    {
        WebConfig {
            enabled: true,
            port: 8088,
            username: String::new(),
            password: String::new(),
            tls_enabled: false,
        }
    }
}

/// What the device says it is.
#[derive(Debug, Clone)]
pub struct DeviceConfig {
    pub name: String,
    pub manufacturer: String,
    pub model: String,
    pub firmware: String,
    pub hardware_id: String,
    pub serial_number: String,
}

/// What a [`DeviceConfig`] says.
pub struct DeviceSettings {
    pub name: Seq<char>,
    pub manufacturer: Seq<char>,
    pub model: Seq<char>,
    pub firmware: Seq<char>,
    pub hardware_id: Seq<char>,
    pub serial_number: Seq<char>,
}

impl View for DeviceConfig {
    type V = DeviceSettings;

    open spec fn view(&self) -> DeviceSettings {
        DeviceSettings {
            name: self.name@,
            manufacturer: self.manufacturer@,
            model: self.model@,
            firmware: self.firmware@,
            hardware_id: self.hardware_id@,
            serial_number: self.serial_number@,
        }
    }
}

/// What the default DeviceConfig says.
pub open spec fn default_device_settings() -> DeviceSettings {
    DeviceSettings {
        name: "ONVIF Device"@,
        manufacturer: "unknown"@,
        model: "unknown"@,
        firmware: "1.0.0"@,
        hardware_id: "unknown"@,
        serial_number: Seq::<char>::empty(),
    }
}

/// `onvif_device_rs::DeviceConfig::default`: the neutral identity of the ONVIF
/// library, as its source has it.
#[verifier::external_body]
fn neutral_identity() -> (c: DeviceConfig)
    ensures
        c@ == default_device_settings(),
{
    let d = onvif_device_rs::DeviceConfig::default();
    DeviceConfig {
        name: d.name,
        manufacturer: d.manufacturer,
        model: d.model,
        firmware: d.firmware,
        hardware_id: d.hardware_id,
        serial_number: d.serial_number,
    }
}

impl Default for DeviceConfig {
    fn default() -> (c: Self)
        ensures
            c@ == default_device_settings(),
    {
        neutral_identity()
    }
}

/// Logging settings.
#[derive(Debug, Clone)]
pub struct LoggingConfig {
    pub level: String,
}

/// What a [`LoggingConfig`] says.
pub struct LoggingSettings {
    pub level: Seq<char>,
}

impl View for LoggingConfig {
    type V = LoggingSettings;

    open spec fn view(&self) -> LoggingSettings {
        LoggingSettings {
            level: self.level@,
        }
    }
}

/// What the default LoggingConfig says.
pub open spec fn default_logging_config() -> LoggingSettings {
    LoggingSettings {
        level: "info"@,
    }
}

impl Default for LoggingConfig {
    fn default() -> (c: Self)
        ensures
            c@ == default_logging_config(),
    {
        LoggingConfig {
            level: "info".to_owned(),
        }
    }
}

/// Where recordings are kept.
#[derive(Debug, Clone)]
pub struct LocalStorageConfig {
    pub path: String,
    pub retention_days: u32,
}

/// What a [`LocalStorageConfig`] says.
pub struct LocalStorageSettings {
    pub path: Seq<char>,
    pub retention_days: u32,
}

impl View for LocalStorageConfig {
    type V = LocalStorageSettings;

    open spec fn view(&self) -> LocalStorageSettings {
        LocalStorageSettings {
            path: self.path@,
            retention_days: self.retention_days,
        }
    }
}

/// What the default LocalStorageConfig says.
pub open spec fn default_local_storage_config() -> LocalStorageSettings {
    LocalStorageSettings {
        path: Seq::<char>::empty(),
        retention_days: 30u32,
    }
}

impl Default for LocalStorageConfig {
    fn default() -> (c: Self)
        ensures
            c@ == default_local_storage_config(),
    {
        LocalStorageConfig {
            path: String::new(),
            retention_days: 30,
        }
    }
}

/// Storage settings.
#[derive(Debug, Clone)]
pub struct StorageConfig {
    pub enabled: bool,
    pub local: LocalStorageConfig,
}

/// What a [`StorageConfig`] says.
pub struct StorageSettings {
    pub enabled: bool,
    pub local: LocalStorageSettings,
}

impl View for StorageConfig {
    type V = StorageSettings;

    open spec fn view(&self) -> StorageSettings {
        StorageSettings {
            enabled: self.enabled,
            local: self.local@,
        }
    }
}

/// What the default StorageConfig says.
pub open spec fn default_storage_config() -> StorageSettings {
    StorageSettings {
        enabled: false,
        local: default_local_storage_config(),
    }
}

impl Default for StorageConfig {
    fn default() -> (c: Self)
        ensures
            c@ == default_storage_config(),
    {
        StorageConfig {
            enabled: false,
            local: LocalStorageConfig::default(),
        }
    }
}

/// Local recording settings.
#[derive(Debug, Clone)]
pub struct RecordingConfig {
    pub enabled: bool,
    pub storage_path: String,
    pub segment_secs: u64,
    pub retention_days: u32,
    pub max_storage_mb: u64,
}

/// What a [`RecordingConfig`] says.
pub struct RecordingSettings {
    pub enabled: bool,
    pub storage_path: Seq<char>,
    pub segment_secs: u64,
    pub retention_days: u32,
    pub max_storage_mb: u64,
}

impl View for RecordingConfig {
    type V = RecordingSettings;

    open spec fn view(&self) -> RecordingSettings {
        RecordingSettings {
            enabled: self.enabled,
            storage_path: self.storage_path@,
            segment_secs: self.segment_secs,
            retention_days: self.retention_days,
            max_storage_mb: self.max_storage_mb,
        }
    }
}

/// What the default RecordingConfig says.
pub open spec fn default_recording_config() -> RecordingSettings {
    RecordingSettings {
        enabled: false,
        storage_path: "recordings"@,
        segment_secs: 600u64,
        retention_days: 3u32,
        max_storage_mb: 8192u64,
    }
}

impl Default for RecordingConfig {
    fn default() -> (c: Self)
        ensures
            c@ == default_recording_config(),
    {
        RecordingConfig {
            enabled: false,
            storage_path: "recordings".to_owned(),
            segment_secs: 600,
            retention_days: 3,
            max_storage_mb: 8192,
        }
    }
}

/// Text burned into every frame.
#[derive(Debug, Clone)]
pub struct WatermarkConfig {
    pub enabled: bool,
    /// At most 128 characters.
    pub text: String,
    pub show_timestamp: bool,
    /// Year to second and literals.
    pub timestamp_format: String,
    pub position: Position,
    /// Pixel height, 12 to 96.
    pub font_size: u32,
    /// Font file; the built-in one where empty.
    pub font_path: String,
}

/// What a [`WatermarkConfig`] says.
pub struct WatermarkSettings {
    pub enabled: bool,
    pub text: Seq<char>,
    pub show_timestamp: bool,
    pub timestamp_format: Seq<char>,
    pub position: Position,
    pub font_size: u32,
    pub font_path: Seq<char>,
}

impl View for WatermarkConfig {
    type V = WatermarkSettings;

    open spec fn view(&self) -> WatermarkSettings {
        WatermarkSettings {
            enabled: self.enabled,
            text: self.text@,
            show_timestamp: self.show_timestamp,
            timestamp_format: self.timestamp_format@,
            position: self.position,
            font_size: self.font_size,
            font_path: self.font_path@,
        }
    }
}

/// What the default WatermarkConfig says.
pub open spec fn default_watermark_config() -> WatermarkSettings {
    WatermarkSettings {
        enabled: false,
        text: Seq::<char>::empty(),
        show_timestamp: true,
        timestamp_format: "%Y-%m-%d %H:%M:%S"@,
        position: Position::TopLeft,
        font_size: 24u32,
        font_path: Seq::<char>::empty(),
    }
}

impl Default for WatermarkConfig {
    fn default() -> (c: Self)
        ensures
            c@ == default_watermark_config(),
    {
        WatermarkConfig {
            enabled: false,
            text: String::new(),
            show_timestamp: true,
            timestamp_format: "%Y-%m-%d %H:%M:%S".to_owned(),
            position: Position::TopLeft,
            font_size: 24,
            font_path: String::new(),
        }
    }
}

/// Motion detection settings.
#[derive(Debug, Clone)]
pub struct MotionConfig {
    pub enabled: bool,
    pub sensitivity: Real,
    pub min_area: u32,
    pub cooldown_ms: u64,
}

/// What a [`MotionConfig`] says.
pub struct MotionSettings {
    pub enabled: bool,
    pub sensitivity: RealValue,
    pub min_area: u32,
    pub cooldown_ms: u64,
}

impl View for MotionConfig {
    type V = MotionSettings;

    open spec fn view(&self) -> MotionSettings {
        MotionSettings {
            enabled: self.enabled,
            sensitivity: self.sensitivity@,
            min_area: self.min_area,
            cooldown_ms: self.cooldown_ms,
        }
    }
}

/// What the default MotionConfig says.
pub open spec fn default_motion_config() -> MotionSettings {
    MotionSettings {
        enabled: false,
        sensitivity: real_half(),
        min_area: 100u32,
        cooldown_ms: 1000u64,
    }
}

impl Default for MotionConfig {
    fn default() -> (c: Self)
        ensures
            c@ == default_motion_config(),
    {
        MotionConfig {
            enabled: false,
            sensitivity: Real::half(),
            min_area: 100,
            cooldown_ms: 1000,
        }
    }
}

/// RTMP push settings.
#[derive(Debug, Clone)]
pub struct RtmpConfig {
    pub enabled: bool,
    pub url: String,
}

/// What a [`RtmpConfig`] says.
pub struct RtmpSettings {
    pub enabled: bool,
    pub url: Seq<char>,
}

impl View for RtmpConfig {
    type V = RtmpSettings;

    open spec fn view(&self) -> RtmpSettings {
        RtmpSettings {
            enabled: self.enabled,
            url: self.url@,
        }
    }
}

/// What the default RtmpConfig says.
pub open spec fn default_rtmp_config() -> RtmpSettings {
    RtmpSettings {
        enabled: false,
        url: Seq::<char>::empty(),
    }
}

impl Default for RtmpConfig {
    fn default() -> (c: Self)
        ensures
            c@ == default_rtmp_config(),
    {
        RtmpConfig {
            enabled: false,
            url: String::new(),
        }
    }
}

/// Detection settings.
#[derive(Debug, Clone)]
pub struct AiFeatureConfig {
    pub enabled: bool,
    /// Which model to load, unless `model_path` names a file.
    pub model: String,
    /// Whether models may be uploaded at runtime.
    pub allow_upload: bool,
    pub model_path: String,
    pub confidence_threshold: Real,
    pub interval_frames: u32,
    pub max_memory_mb: u32,
    pub cpu_cores: Vec<u32>,
}

/// What a [`AiFeatureConfig`] says.
pub struct AiSettings {
    pub enabled: bool,
    pub model: Seq<char>,
    pub allow_upload: bool,
    pub model_path: Seq<char>,
    pub confidence_threshold: RealValue,
    pub interval_frames: u32,
    pub max_memory_mb: u32,
    pub cpu_cores: Seq<u32>,
}

impl View for AiFeatureConfig {
    type V = AiSettings;

    open spec fn view(&self) -> AiSettings {
        AiSettings {
            enabled: self.enabled,
            model: self.model@,
            allow_upload: self.allow_upload,
            model_path: self.model_path@,
            confidence_threshold: self.confidence_threshold@,
            interval_frames: self.interval_frames,
            max_memory_mb: self.max_memory_mb,
            cpu_cores: self.cpu_cores@,
        }
    }
}

/// What the default AiFeatureConfig says.
pub open spec fn default_ai_feature_config() -> AiSettings {
    AiSettings {
        enabled: false,
        model: "nanodet-plus-m-320"@,
        allow_upload: false,
        model_path: "/var/lib/mibee-eye/models/nanodet-m.onnx"@,
        confidence_threshold: real_half(),
        interval_frames: 5u32,
        max_memory_mb: 256u32,
        cpu_cores: seq![2u32, 3u32],
    }
}

impl Default for AiFeatureConfig {
    fn default() -> (c: Self)
        ensures
            c@ == default_ai_feature_config(),
    {
        let cpu_cores: Vec<u32> = vec![2, 3];
        proof {
            assert(cpu_cores@ =~= seq![2u32, 3u32]);
        }
        AiFeatureConfig {
            enabled: false,
            model: "nanodet-plus-m-320".to_owned(),
            allow_upload: false,
            model_path: default_ai_model_path(),
            confidence_threshold: Real::half(),
            interval_frames: 5,
            max_memory_mb: 256,
            cpu_cores,
        }
    }
}

/// Several cameras at once.
#[derive(Debug, Clone)]
pub struct MultiCameraFeatureConfig {
    pub enabled: bool,
}

impl Default for MultiCameraFeatureConfig {
    fn default() -> (c: Self)
        ensures
            !c.enabled,
    {
        MultiCameraFeatureConfig {
            enabled: false,
        }
    }
}

/// Streaming over WebRTC.
#[derive(Debug, Clone)]
pub struct WebRtcFeatureConfig {
    pub enabled: bool,
}

impl Default for WebRtcFeatureConfig {
    fn default() -> (c: Self)
        ensures
            !c.enabled,
    {
        WebRtcFeatureConfig {
            enabled: false,
        }
    }
}

/// H.265 encoding.
#[derive(Debug, Clone)]
pub struct H265FeatureConfig {
    pub enabled: bool,
}

impl Default for H265FeatureConfig {
    fn default() -> (c: Self)
        ensures
            !c.enabled,
    {
        H265FeatureConfig {
            enabled: false,
        }
    }
}

/// Optional features, all off by default.
#[derive(Debug, Clone)]
pub struct FeaturesConfig {
    pub ai: AiFeatureConfig,
    pub multi_camera: MultiCameraFeatureConfig,
    pub webrtc: WebRtcFeatureConfig,
    pub h265: H265FeatureConfig,
}

/// What a [`FeaturesConfig`] says.
pub struct FeatureSettings {
    pub ai: AiSettings,
    pub multi_camera: MultiCameraFeatureConfig,
    pub webrtc: WebRtcFeatureConfig,
    pub h265: H265FeatureConfig,
}

impl View for FeaturesConfig {
    type V = FeatureSettings;

    open spec fn view(&self) -> FeatureSettings {
        FeatureSettings {
            ai: self.ai@,
            multi_camera: self.multi_camera,
            webrtc: self.webrtc,
            h265: self.h265,
        }
    }
}

/// What the default FeaturesConfig says.
pub open spec fn default_features_config() -> FeatureSettings {
    FeatureSettings {
        ai: default_ai_feature_config(),
        multi_camera: MultiCameraFeatureConfig { enabled: false },
        webrtc: WebRtcFeatureConfig { enabled: false },
        h265: H265FeatureConfig { enabled: false },
    }
}

impl Default for FeaturesConfig {
    fn default() -> (c: Self)
        ensures
            c@ == default_features_config(),
    {
        FeaturesConfig {
            ai: AiFeatureConfig::default(),
            multi_camera: MultiCameraFeatureConfig::default(),
            webrtc: WebRtcFeatureConfig::default(),
            h265: H265FeatureConfig::default(),
        }
    }
}

/// The whole configuration.
#[derive(Debug, Clone)]
pub struct Config {
    pub camera: CameraConfig,
    pub rtsp: RTSPConfig,
    pub onvif: ONVIFConfig,
    pub gb28181: Gb28181Config,
    pub web: WebConfig,
    pub device: DeviceConfig,
    pub logging: LoggingConfig,
    pub storage: StorageConfig,
    pub recording: RecordingConfig,
    pub watermark: WatermarkConfig,
    pub motion: MotionConfig,
    pub rtmp: RtmpConfig,
    pub features: FeaturesConfig,
}

/// What the whole configuration says.
pub struct Settings {
    pub camera: CameraSettings,
    pub rtsp: RtspSettings,
    pub onvif: OnvifSettings,
    pub gb28181: Gb28181Settings,
    pub web: WebSettings,
    pub device: DeviceSettings,
    pub logging: LoggingSettings,
    pub storage: StorageSettings,
    pub recording: RecordingSettings,
    pub watermark: WatermarkSettings,
    pub motion: MotionSettings,
    pub rtmp: RtmpSettings,
    pub features: FeatureSettings,
}

impl View for Config {
    type V = Settings;

    open spec fn view(&self) -> Settings {
        Settings {
            camera: self.camera@,
            rtsp: self.rtsp@,
            onvif: self.onvif@,
            gb28181: self.gb28181@,
            web: self.web@,
            device: self.device@,
            logging: self.logging@,
            storage: self.storage@,
            recording: self.recording@,
            watermark: self.watermark@,
            motion: self.motion@,
            rtmp: self.rtmp@,
            features: self.features@,
        }
    }
}

/// What the default Config says.
pub open spec fn default_settings() -> Settings {
    Settings {
        camera: default_camera_config(),
        rtsp: default_rtsp_config(),
        onvif: default_onvif_config(),
        gb28181: default_gb28181_config(),
        web: default_web_config(),
        device: identified(default_device_settings(), Seq::empty()),
        logging: default_logging_config(),
        storage: default_storage_config(),
        recording: default_recording_config(),
        watermark: default_watermark_config(),
        motion: default_motion_config(),
        rtmp: default_rtmp_config(),
        features: default_features_config(),
    }
}

impl Default for Config {
    fn default() -> (c: Self)
        ensures
            c@ == default_settings(),
    {
        Config {
            camera: CameraConfig::default(),
            rtsp: RTSPConfig::default(),
            onvif: ONVIFConfig::default(),
            gb28181: Gb28181Config::default(),
            web: WebConfig::default(),
            device: default_device_config(),
            logging: LoggingConfig::default(),
            storage: StorageConfig::default(),
            recording: RecordingConfig::default(),
            watermark: WatermarkConfig::default(),
            motion: MotionConfig::default(),
            rtmp: RtmpConfig::default(),
            features: FeaturesConfig::default(),
        }
    }
}

} // verus!
