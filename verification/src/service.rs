//! How the service is put together: where its configuration is, how its camera
//! is set up, and what passes from the camera to its clients.

use vstd::arithmetic::power2::{lemma2_to64, lemma_pow2_unfold, pow2};
use vstd::prelude::*;
use vstd::string::*;
use crate::camera::raise_idr_request;
use crate::camera::v4l2::{EncoderRequest, H264Level, H264Profile};
use crate::camera::v4l2_capture::{
    rotated, CaptureState, V4l2CaptureProducer, DEFAULT_SHARE_INTERVAL,
};
use crate::config::types::{Config, Settings};
use crate::h264::{AccessUnit, Nalu};
use crate::streaming::auth::{RtspAccess, RtspConfig};
use crate::text::{after_prefix, chars_of, has_prefix, same_text, text_of};

verus! {

// ---------------------------------------------------------------------------
// Configuration
// ---------------------------------------------------------------------------

/// The configuration file that the arguments from `i` on name: the one after
/// `--config`, or the rest of an argument that begins with `--config=`.
pub open spec fn named_config(args: Seq<String>, i: int) -> Option<Seq<char>>
    decreases args.len() - i,
{
    if i < 0 || i >= args.len() {
        None
    } else if args[i]@ == "--config"@ && i + 1 < args.len() {
        Some(args[i + 1]@)
    } else if args[i]@ != "--config"@ && has_prefix(args[i]@, "--config="@) {
        Some(args[i]@.skip("--config="@.len() as int))
    } else {
        named_config(args, i + 1)
    }
}

/// Chooses the configuration file: the one that the arguments name, else the
/// one in the working directory where there is one (`here`), else the one that
/// is installed.
pub fn resolve_config_path(args: &Vec<String>, here: bool) -> (path: String)
    ensures
        path@ == (match named_config(args@, 0) {
            Some(p) => p,
            None => if here {
                "config.toml"@
            } else {
                "/etc/mibee-eye/config.toml"@
            },
        }),
{
    let mut i: usize = 0;
    while i < args.len()
        invariant
            i <= args.len(),
            named_config(args@, 0) == named_config(args@, i as int),
        decreases args.len() - i,
    {
        if same_text(args[i].as_str(), "--config") {
            if i + 1 < args.len() {
                return args[i + 1].clone();
            }
        } else {
            let c = chars_of(args[i].as_str());
            if let Some(p) = after_prefix(c.as_slice(), "--config=") {
                return text_of(p);
            }
        }
        i = i + 1;
    }
    if here {
        "config.toml".to_owned()
    } else {
        "/etc/mibee-eye/config.toml".to_owned()
    }
}

/// The settings of the RTSP server.
pub fn rtsp_config(config: &Config) -> (c: RtspConfig)
    ensures
        c@ == (RtspAccess {
            port: config@.rtsp.port,
            username: config@.rtsp.username,
            password: config@.rtsp.password,
            realm: "MiBee Eye RTSP"@,
        }),
{
    RtspConfig {
        port: config.rtsp.port,
        username: config.rtsp.username.clone(),
        password: config.rtsp.password.clone(),
        realm: "MiBee Eye RTSP".to_owned(),
    }
}

/// Tells whether the ONVIF service does without authentication: where it has no
/// password.
pub fn allow_no_auth(config: &Config) -> (yes: bool)
    ensures
        yes == (config@.onvif.password.len() == 0),
{
    config.onvif.password.as_str().is_empty()
}

/// Tells whether the position of the device is known.
pub fn has_position(config: &Config) -> (yes: bool)
    ensures
        yes == (config@.gb28181.longitude.len() > 0 && config@.gb28181.latitude.len() > 0),
{
    !(config.gb28181.longitude.as_str().is_empty() || config.gb28181.latitude.as_str().is_empty())
}

/// The stream as ONVIF clients are told of it.
#[derive(Debug, Clone, Copy, PartialEq, Eq, Structural)]
pub struct MediaProfile {
    pub width: u32,
    pub height: u32,
    pub fps: u32,
    pub bitrate: u32,
    pub rtsp_port: u16,
    pub snapshot_port: u16,
}

/// Describes the stream to ONVIF clients, with the dimensions that it has once
/// turned.
pub fn media_profile(config: &Config) -> (m: MediaProfile)
    ensures
        (m.width, m.height) == rotated(
            config@.camera.width,
            config@.camera.height,
            config@.camera.rotation,
        ),
        m.fps == config@.camera.fps,
        m.bitrate == config@.camera.bitrate as u32,
        m.rtsp_port == config@.rtsp.port,
        m.snapshot_port == config@.web.port,
{
    let (width, height) = config.camera.effective_dims();
    MediaProfile {
        width,
        height,
        fps: config.camera.fps,
        bitrate: #[verifier::truncate] (config.camera.bitrate as u32),
        rtsp_port: config.rtsp.port,
        snapshot_port: config.web.port,
    }
}

// ---------------------------------------------------------------------------
// Camera
// ---------------------------------------------------------------------------

/// What the camera captures with the settings.
pub open spec fn capture_of(c: Settings) -> CaptureState {
    CaptureState {
        device_path: c.camera.device,
        width: c.camera.width,
        height: c.camera.height,
        fps: c.camera.fps,
        latest: None,
        share_interval: if c.features.ai.enabled {
            3
        } else {
            DEFAULT_SHARE_INTERVAL
        },
        frames: 0,
        flips: (c.camera.hflip, c.camera.vflip),
        rotation: if c.camera.rotation == 90 || c.camera.rotation == 180 || c.camera.rotation
            == 270 {
            c.camera.rotation
        } else {
            0
        },
    }
}

/// Whether an encoder is asked for what the settings say: frames as they are
/// once turned, and a key frame every two seconds.
pub open spec fn encodes(e: EncoderRequest, c: Settings) -> bool {
    &&& (e.width, e.height) == rotated(c.camera.width, c.camera.height, c.camera.rotation)
    &&& e.fps == c.camera.fps
    &&& e.bitrate_bps == c.camera.bitrate as u32
    &&& e.device_path@ == c.camera.encoder_device
    &&& e.profile == H264Profile::High
    &&& e.level == H264Level::Level4_0
    &&& e.i_period == c.camera.fps * 2
}

/// Sets the camera and its encoder up. Where detection runs, it gets frames
/// more often.
pub fn prepare_capture(config: &Config) -> (r: (V4l2CaptureProducer, EncoderRequest))
    requires
        config@.camera.fps * 2 <= u32::MAX,
    ensures
        r.0@ == capture_of(config@),
        encodes(r.1, config@),
{
    let camera = &config.camera;
    let mut producer = V4l2CaptureProducer::new(
        camera.device.as_str(),
        camera.width,
        camera.height,
        camera.fps,
    );
    producer.set_rotation(camera.rotation);
    producer.set_flips(camera.hflip, camera.vflip);
    if config.features.ai.enabled {
        producer.set_yuv_share_interval(3);
    }
    let (width, height) = camera.effective_dims();
    let request = EncoderRequest {
        width,
        height,
        fps: camera.fps,
        bitrate_bps: #[verifier::truncate] (camera.bitrate as u32),
        device_path: camera.encoder_device.clone(),
        profile: H264Profile::High,
        level: H264Level::Level4_0,
        i_period: camera.fps * 2,
    };
    (producer, request)
}

/// Frames that leave the capture have the dimensions that the encoder was asked
/// for.
pub proof fn the_encoder_gets_what_it_was_asked_for(e: EncoderRequest, c: Settings)
    requires
        encodes(e, c),
    ensures
        (e.width, e.height) == rotated(
            capture_of(c).width,
            capture_of(c).height,
            capture_of(c).rotation,
        ),
{
}

/// What becomes of a frame from the encoder.
pub struct Pumped {
    /// Whether it is noted in the log.
    pub log: bool,
    /// What is handed to the clients.
    pub unit: Option<AccessUnit>,
}

/// Takes the next frame from the encoder: the first, every 150th and each key
/// frame is noted, and one with units in it is handed on. `is_annex_b` says
/// whether the frame is H.264 at all, `nalus` are its units.
pub fn pump(frame_count: &mut u64, is_annex_b: bool, is_key_frame: bool, nalus: Vec<Nalu>) -> (p:
    Pumped)
    requires
        *old(frame_count) < u64::MAX,
    ensures
        *final(frame_count) == *old(frame_count) + 1,
        p.log == (*final(frame_count) == 1 || *final(frame_count) % 150 == 0 || is_key_frame),
        p.unit is Some <==> is_annex_b && nalus@.len() > 0,
        p.unit matches Some(u) ==> u.nalus@ == nalus@ && u.is_key_frame == is_key_frame,
{
    *frame_count = *frame_count + 1;
    let log = *frame_count == 1 || *frame_count % 150 == 0 || is_key_frame;
    if !is_annex_b || nalus.len() == 0 {
        return Pumped { log, unit: None };
    }
    Pumped { log, unit: Some(AccessUnit { nalus, is_key_frame }) }
}

// ---------------------------------------------------------------------------
// Platform
// ---------------------------------------------------------------------------

/// What units take on their way to the platform: their bytes and a start code
/// each.
pub open spec fn framed_bytes(nalus: Seq<Nalu>) -> nat
    decreases nalus.len(),
{
    if nalus.len() == 0 {
        0
    } else {
        framed_bytes(nalus.drop_last()) + nalus.last().data@.len() + 4
    }
}

proof fn lemma_framed_bytes_grow(nalus: Seq<Nalu>, n: int)
    requires
        0 <= n <= nalus.len(),
    ensures
        framed_bytes(nalus.take(n)) <= framed_bytes(nalus),
    decreases nalus.len() - n,
{
    if n == nalus.len() {
        assert(nalus.take(n) =~= nalus);
    } else {
        lemma_framed_bytes_grow(nalus, n + 1);
        assert(nalus.take(n + 1).drop_last() =~= nalus.take(n));
    }
}

/// Counts the bytes that a unit takes on its way to the platform.
pub fn handed_bytes(au: &AccessUnit) -> (n: u64)
    requires
        framed_bytes(au.nalus@) <= usize::MAX,
    ensures
        n == framed_bytes(au.nalus@),
{
    let mut n: u64 = 0;
    let mut i: usize = 0;
    proof {
        assert(au.nalus@.take(0).len() == 0);
    }
    while i < au.nalus.len()
        invariant
            i <= au.nalus.len(),
            n == framed_bytes(au.nalus@.take(i as int)),
            framed_bytes(au.nalus@) <= usize::MAX,
        decreases au.nalus.len() - i,
    {
        proof {
            assert(au.nalus@.take(i + 1).drop_last() =~= au.nalus@.take(i as int));
            lemma_framed_bytes_grow(au.nalus@, i + 1);
        }
        n = n + au.nalus[i].data.len() as u64 + 4;
        i = i + 1;
    }
    proof {
        assert(au.nalus@.take(au.nalus@.len() as int) =~= au.nalus@);
    }
    n
}

/// What the platform controls: key frames on demand, and recording.
#[derive(Debug, Clone, Copy, PartialEq, Eq, Structural)]
pub struct ControlGlue {
    /// Whether the encoder is to make the next frame a key frame.
    pub idr_flag: bool,
    /// Whether recording pauses.
    pub rec_pause: bool,
    /// Whether there is a recording to pause.
    pub recording_enabled: bool,
}

impl ControlGlue {
    /// Asks for a key frame.
    pub fn on_force_iframe(&mut self)
        ensures
            *final(self) == (ControlGlue { idr_flag: true, ..*old(self) }),
    {
        raise_idr_request(&mut self.idr_flag);
    }

    /// Resumes or pauses recording, and tells whether there was one to steer.
    pub fn on_record(&mut self, start: bool) -> (steered: bool)
        ensures
            steered == old(self).recording_enabled,
            *final(self) == (if old(self).recording_enabled {
                ControlGlue { rec_pause: !start, ..*old(self) }
            } else {
                *old(self)
            }),
    {
        if !self.recording_enabled {
            return false;
        }
        self.rec_pause = !start;
        true
    }
}

/// The time between attempts to start something, in milliseconds.
#[derive(Debug, Clone, Copy, PartialEq, Eq, Structural)]
pub struct Retry {
    pub delay: u64,
    pub cap: u64,
}

impl Retry {
    /// Before the first attempt.
    pub fn new(base: u64, cap: u64) -> (r: Self)
        ensures
            r == (Retry { delay: base, cap }),
    {
        Retry { delay: base, cap }
    }

    /// An attempt has failed: gives the time to wait, and doubles the next up
    /// to the cap.
    pub fn failed(&mut self) -> (wait: u64)
        ensures
            wait == old(self).delay,
            final(self).cap == old(self).cap,
            final(self).delay == doubled(old(self).delay as int, old(self).cap as int),
    {
        let wait: u64 = self.delay;
        self.delay = if self.delay > self.cap / 2 {
            self.cap
        } else {
            self.delay * 2
        };
        wait
    }
}

/// Twice a time, up to a cap.
pub open spec fn doubled(delay: int, cap: int) -> int {
    if delay * 2 < cap {
        delay * 2
    } else {
        cap
    }
}

/// The time to wait after failure number `n`, counted from none.
pub open spec fn wait_after(base: nat, cap: nat, n: nat) -> int
    decreases n,
{
    if n == 0 {
        base as int
    } else {
        doubled(wait_after(base, cap, (n - 1) as nat), cap as int)
    }
}

/// Waiting times double from one failure to the next, and stay at the cap once
/// they reach it.
pub proof fn waits_double_then_stay(base: nat, cap: nat, n: nat)
    requires
        n > 0,
    ensures
        wait_after(base, cap, n) == (if base * pow2(n) < cap {
            (base * pow2(n)) as int
        } else {
            cap as int
        }),
    decreases n,
{
    lemma_pow2_unfold(n);
    let half = pow2((n - 1) as nat);
    assert(base * (2 * half) == 2 * (base * half)) by (nonlinear_arith);
    assert(base * pow2(n) == 2 * (base * half));
    if n == 1 {
        lemma2_to64();
        assert(half == 1);
        assert(base * half == base) by (nonlinear_arith)
            requires
                half == 1,
        ;
        assert(wait_after(base, cap, 0) == base);
    } else {
        waits_double_then_stay(base, cap, (n - 1) as nat);
    }
}

/// The first argument that names a configuration file counts: as the one after
/// it, or by what it holds behind the equals sign.
pub proof fn the_first_named_file_counts(args: Seq<String>, from: int, i: int, path: Seq<char>)
    requires
        0 <= from <= i <= args.len(),
        forall|j: int|
            from <= j < i ==> (#[trigger] args[j])@ != "--config"@ && !has_prefix(
                args[j]@,
                "--config="@,
            ),
    ensures
        i == args.len() ==> named_config(args, from) is None,
        i + 1 < args.len() && args[i]@ == "--config"@ && args[i + 1]@ == path ==> named_config(
            args,
            from,
        ) == Some(path),
        i < args.len() && args[i]@ == "--config="@ + path ==> named_config(args, from) == Some(
            path,
        ),
    decreases i - from,
{
    reveal_strlit("--config");
    reveal_strlit("--config=");
    if from < i {
        assert(args[from]@ != "--config"@);
        the_first_named_file_counts(args, from + 1, i, path);
    } else if i < args.len() && args[i]@ == "--config="@ + path {
        let n = "--config="@.len() as int;
        assert(args[i]@.take(n) =~= "--config="@);
        assert(args[i]@.skip(n) =~= path);
        assert(args[i]@.len() > "--config"@.len());
    }
}

/// The camera captures what the settings say, turned by no more than they say.
pub proof fn the_capture_follows_the_settings(c: Settings)
    ensures
        capture_of(c).device_path == c.camera.device,
        (capture_of(c).width, capture_of(c).height) == (c.camera.width, c.camera.height),
        capture_of(c).fps == c.camera.fps,
        capture_of(c).flips == (c.camera.hflip, c.camera.vflip),
        c.camera.rotation % 90 == 0 && c.camera.rotation < 360 ==> capture_of(c).rotation
            == c.camera.rotation,
        c.camera.rotation % 90 != 0 || c.camera.rotation >= 360 ==> capture_of(c).rotation == 0,
        capture_of(c).latest is None && capture_of(c).frames == 0,
        capture_of(c).share_interval == (if c.features.ai.enabled {
            3u32
        } else {
            15u32
        }),
{
}

/// An encoder that is asked for what the settings say has their rates and their
/// device, and a key frame every two seconds.
pub proof fn the_encoder_follows_the_settings(e: EncoderRequest, c: Settings)
    requires
        encodes(e, c),
        c.camera.bitrate <= u32::MAX,
    ensures
        c.camera.rotation == 90 || c.camera.rotation == 270 ==> e.width == c.camera.height
            && e.height == c.camera.width,
        c.camera.rotation == 0 || c.camera.rotation == 180 ==> e.width == c.camera.width
            && e.height == c.camera.height,
        e.fps == c.camera.fps,
        e.bitrate_bps == c.camera.bitrate,
        e.device_path@ == c.camera.encoder_device,
        e.i_period == 2 * e.fps,
{
}

/// What units take on their way to the platform is the sum of what each takes:
/// its bytes and four more.
pub proof fn framed_bytes_add_up(nalus: Seq<Nalu>, n: Nalu)
    ensures
        framed_bytes(nalus.push(n)) == framed_bytes(nalus) + n.data@.len() + 4,
        framed_bytes(Seq::empty()) == 0,
{
    assert(nalus.push(n).drop_last() =~= nalus);
}

} // verus!
