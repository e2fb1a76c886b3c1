//! Producers of frames, the substream and the encoding loop.

use mibee_eye::camera::source::{CameraError, FrameProducer};
use mibee_eye::camera::substream::{
    tapped_copy, SubFrameProducer, TappingFrameProducer, TAP_CAPACITY,
};
use mibee_eye::camera::v4l2::{
    can_fill, check_start, encoder_info, fill_padded_i420, is_throttled, BackoffConfig, EncodeStep,
    EncoderLoop,
};
use mibee_eye::camera::v4l2_capture::{
    buffer_length, check_buffer_count, check_dequeued, check_poll, ioc, Dequeued,
    V4l2CaptureProducer,
};
use mibee_eye::config::number::Real;
use std::sync::mpsc::sync_channel;

struct ListProducer {
    frames: Vec<Vec<u8>>,
    i: usize,
}
impl FrameProducer for ListProducer {
    fn next_yuv_frame(&mut self) -> Result<Vec<u8>, CameraError> {
        match self.frames.get(self.i) {
            Some(f) => {
                self.i += 1;
                Ok(f.clone())
            }
            None => Err(CameraError::Disconnected("depleted".to_string())),
        }
    }
    fn resolution(&self) -> (u32, u32) {
        (8, 2)
    }
    fn fps(&self) -> u32 {
        10
    }
}

fn frame_8x2(tag: u8) -> Vec<u8> {
    let mut v = vec![tag; 16];
    v.extend(vec![tag; 4]);
    v.extend(vec![tag; 4]);
    v
}

#[test]
fn tapping_producer_forwards_and_taps() {
    let (tx, rx) = sync_channel::<Vec<u8>>(TAP_CAPACITY);
    let mut p = TappingFrameProducer::new(
        ListProducer {
            frames: vec![frame_8x2(1), frame_8x2(2)],
            i: 0,
        },
        Some(tx),
    );
    assert_eq!(p.next_yuv_frame().unwrap(), frame_8x2(1));
    assert_eq!(p.next_yuv_frame().unwrap(), frame_8x2(2));
    assert_eq!(rx.recv().unwrap(), frame_8x2(1));
    assert_eq!(rx.recv().unwrap(), frame_8x2(2));
    assert_eq!(p.resolution(), (8, 2));
    assert_eq!(p.fps(), 10);
}

#[test]
fn tapping_producer_without_tap_is_passthrough() {
    let mut p = TappingFrameProducer::new(
        ListProducer {
            frames: vec![frame_8x2(9)],
            i: 0,
        },
        None,
    );
    assert_eq!(p.next_yuv_frame().unwrap(), frame_8x2(9));
}

#[test]
fn tap_drop_on_full_never_breaks_main() {
    let (tx, _rx) = sync_channel::<Vec<u8>>(1);
    let _ = tx.send(frame_8x2(0)); // fill the single slot
    let mut p = TappingFrameProducer::new(
        ListProducer {
            frames: vec![frame_8x2(1), frame_8x2(2)],
            i: 0,
        },
        Some(tx),
    );
    // Both frames still flow to the main consumer despite the full tap.
    assert_eq!(p.next_yuv_frame().unwrap(), frame_8x2(1));
    assert_eq!(p.next_yuv_frame().unwrap(), frame_8x2(2));
}

#[test]
fn sub_producer_downscales_and_decimates() {
    let (tx, rx) = sync_channel::<Vec<u8>>(8);
    for tag in 1..=4u8 {
        tx.send(frame_8x2(tag)).unwrap();
    }
    drop(tx);
    // main_fps 10, sub_fps 5 → fps_div 2 → keep tags 2 and 4.
    let mut sub = SubFrameProducer::new(rx, 8, 2, 4, 2, 10, 5);
    let f1 = sub.next_yuv_frame().unwrap();
    assert_eq!(f1.len(), 4 * 2 * 3 / 2);
    assert_eq!(f1[0], 2, "first emitted frame is tag 2");
    let f2 = sub.next_yuv_frame().unwrap();
    assert_eq!(f2[0], 4);
    // Channel drained + sender dropped → Disconnected.
    let err = sub.next_yuv_frame().unwrap_err();
    assert!(matches!(err, CameraError::Disconnected(_)), "{err:?}");
}

#[test]
fn sub_producer_full_rate_when_sub_fps_unconfigured() {
    let (tx, rx) = sync_channel::<Vec<u8>>(4);
    tx.send(frame_8x2(7)).unwrap();
    drop(tx);
    let mut sub = SubFrameProducer::new(rx, 8, 2, 4, 2, 15, 0);
    assert_eq!(
        sub.next_yuv_frame().unwrap()[0],
        7,
        "fps=0 keeps every frame"
    );
}

#[test]
fn sub_producer_metadata_reflects_sub_geometry() {
    let (_tx, rx) = sync_channel::<Vec<u8>>(1);
    let sub = SubFrameProducer::new(rx, 8, 2, 4, 2, 10, 5);
    assert_eq!(sub.resolution(), (4, 2));
}

struct MockFrameProducer {
    frames: Vec<Vec<u8>>,
    index: usize,
    width: u32,
    height: u32,
    fps: u32,
}

impl MockFrameProducer {
    fn new(frames: Vec<Vec<u8>>) -> Self {
        let frame_size = if frames.is_empty() {
            0
        } else {
            frames[0].len()
        };
        // Default to 640x480 if frame_size matches, else compute.
        let (w, h) = if frame_size > 0 {
            // YUV420 size = w * h * 3/2
            // Guess from size: width = sqrt(size * 2 / 3)
            let area = (frame_size as f64 * 2.0 / 3.0).sqrt() as u32;
            // Round to multiple of 16 for encoder alignment
            let w = (area / 16) * 16;
            let h = (area / 16) * 16;
            if w == 0 || h == 0 {
                (640, 480)
            } else {
                (w.max(16), h.max(16))
            }
        } else {
            (640, 480)
        };

        Self {
            frames,
            index: 0,
            width: w,
            height: h,
            fps: 30,
        }
    }
}

impl FrameProducer for MockFrameProducer {
    fn next_yuv_frame(&mut self) -> Result<Vec<u8>, CameraError> {
        if self.index >= self.frames.len() {
            return Err(CameraError::Disconnected("no more frames".to_string()));
        }
        let frame = self.frames[self.index].clone();
        self.index += 1;
        Ok(frame)
    }

    fn resolution(&self) -> (u32, u32) {
        (self.width, self.height)
    }

    fn fps(&self) -> u32 {
        self.fps
    }
}

#[test]
fn test_v4l2_source_new() {
    let info = encoder_info("/dev/video11");
    assert_eq!(info.driver, "bcm2835-codec");
    assert_eq!(info.device_path, "/dev/video11");
    assert!(info.capabilities.contains(&"H264_ENCODER".to_string()));
}

#[test]
fn test_v4l2_source_with_backoff() {
    let backoff = BackoffConfig {
        initial: 100,
        max: 5000,
        multiplier: Real { bits: (1.5f64).to_bits(), text: "1.5".to_string() },
    };
    assert_eq!(backoff.initial, 100);
    assert_eq!(backoff.limited(150), 150);
    assert_eq!(backoff.limited(5000), 5000);
    assert_eq!(backoff.limited(7000), 5000);
}

#[test]
fn test_v4l2_source_device_info() {
    let info = encoder_info("/dev/video11");
    assert_eq!(info.device_path, "/dev/video11");
    assert_eq!(info.card, "bcm2835-codec-encode");
    assert!(info.capabilities.contains(&"VIDEO_M2M".to_string()));
}

#[test]
fn test_backoff_config_default() {
    let b = BackoffConfig::default();
    assert_eq!(b.initial, 1000);
    assert_eq!(b.max, 30_000);
    assert!((f64::from_bits(b.multiplier.bits) - 2.0).abs() < 1e-9);
}

#[test]
fn test_mock_producer_yields_frames() {
    let mut producer =
        MockFrameProducer::new(vec![vec![0u8; 100], vec![1u8; 100], vec![2u8; 100]]);
    assert_eq!(producer.next_yuv_frame().unwrap(), vec![0u8; 100]);
    assert_eq!(producer.next_yuv_frame().unwrap(), vec![1u8; 100]);
    assert_eq!(producer.next_yuv_frame().unwrap(), vec![2u8; 100]);
    assert!(producer.next_yuv_frame().is_err());
}

#[test]
fn test_mock_producer_empty() {
    let mut producer = MockFrameProducer::new(vec![]);
    assert!(producer.next_yuv_frame().is_err());
}

#[test]
fn test_mock_producer_resolution() {
    let frame = vec![0u8; 640 * 480 * 3 / 2];
    let producer = MockFrameProducer::new(vec![frame]);
    let (w, h) = producer.resolution();
    assert!(w > 0);
    assert!(h > 0);
    assert_eq!(producer.fps(), 30);
}

fn contiguous_frame_4x2() -> Vec<u8> {
    vec![
        1, 2, 3, 4, // Y row 0
        5, 6, 7, 8, // Y row 1
        0x10, 0x11, // U
        0x20, 0x21, // V
    ]
}

#[test]
fn fill_padded_i420_pads_rows() {
    // stride 6: Y rows @6, U at offset 12 stride 3, V at 15, total 18.
    let want = vec![
        1, 2, 3, 4, 0, 0, //
        5, 6, 7, 8, 0, 0, //
        0x10, 0x11, 0, //
        0x20, 0x21, 0,
    ];
    let mut dst = vec![0u8; want.len()];
    let n = fill_padded_i420(&mut dst, &contiguous_frame_4x2(), 4, 2, 6).unwrap();
    assert_eq!(n, want.len());
    assert_eq!(dst, want);
}

#[test]
fn fill_padded_i420_unpadded_stride_is_verbatim_copy() {
    let src = contiguous_frame_4x2();
    let mut dst = vec![0u8; src.len()];
    let n = fill_padded_i420(&mut dst, &src, 4, 2, 4).unwrap();
    assert_eq!(n, src.len());
    assert_eq!(dst, src);
}

#[test]
fn fill_padded_i420_rejects_short_buffer() {
    let mut dst = vec![0u8; 6 * 2 * 3 / 2 - 1];
    assert!(fill_padded_i420(&mut dst, &contiguous_frame_4x2(), 4, 2, 6).is_none());
}

#[test]
fn only_frames_are_copied_into_a_tap() {
    let frame = Ok(vec![1, 2, 3]);
    assert_eq!(tapped_copy(&frame, true), Some(vec![1, 2, 3]));
    assert_eq!(tapped_copy(&frame, false), None);
    let gone = Err(CameraError::Disconnected("gone".to_string()));
    assert_eq!(tapped_copy(&gone, true), None);
}

#[test]
fn one_tapped_frame_of_three_is_kept() {
    let (_tx, rx) = sync_channel::<Vec<u8>>(1);
    let mut sub = SubFrameProducer::new(rx, 8, 2, 4, 2, 30, 10);
    assert_eq!(sub.fps(), 10);
    let kept: Vec<bool> = (1..=9u8).map(|t| sub.take_frame(&frame_8x2(t)).is_some()).collect();
    assert_eq!(kept, [false, false, true, false, false, true, false, false, true]);
}

#[test]
fn a_camera_starts_once() {
    assert!(check_start(false, true).is_ok());
    match check_start(true, true) {
        Err(CameraError::Config(t)) => assert_eq!(t, "camera already started"),
        other => panic!("{other:?}"),
    }
    match check_start(false, false) {
        Err(CameraError::Config(t)) => assert_eq!(t, "producer already moved"),
        other => panic!("{other:?}"),
    }
}

#[test]
fn throttling_is_read_from_the_firmware_and_else_from_the_clock() {
    assert!(is_throttled(Some("0x1\n"), None));
    assert!(is_throttled(Some("0x50004"), None));
    assert!(!is_throttled(Some("0x50000"), Some("600000")));
    assert!(is_throttled(None, Some("600000\n")));
    assert!(is_throttled(Some("nonsense"), Some("600000")));
    assert!(!is_throttled(None, Some("1000000")));
    assert!(!is_throttled(None, Some("fast")));
    assert!(!is_throttled(None, None));
}

#[test]
fn key_frames_come_by_period_and_on_request() {
    let mut l = EncoderLoop::new();
    let mut asked = false;
    let forced: Vec<bool> = (0..7).map(|_| l.begin_frame(3, &mut asked)).collect();
    assert_eq!(forced, [true, false, false, true, false, false, true]);
    asked = true;
    assert!(l.begin_frame(3, &mut asked));
    assert!(!asked, "used up");
    assert!(!l.begin_frame(3, &mut asked));
    asked = true;
    assert!(l.begin_frame(3, &mut asked));
    assert!(asked, "a frame that was due leaves the request");
}

#[test]
fn a_throttled_processor_encodes_every_other_frame() {
    let l = EncoderLoop { frame_counter: 1 };
    assert!(matches!(l.take_frame(Ok(vec![7]), true), EncodeStep::Skip));
    match l.take_frame(Ok(vec![7]), false) {
        EncodeStep::Encode(f) => assert_eq!(f, [7]),
        _ => panic!("frame lost"),
    }
    let l = EncoderLoop { frame_counter: 2 };
    assert!(matches!(l.take_frame(Ok(vec![7]), true), EncodeStep::Encode(_)));
    let gone = Err(CameraError::Disconnected("gone".to_string()));
    assert!(matches!(l.take_frame(gone, false), EncodeStep::Stop(CameraError::Disconnected(_))));
    let late = Err(CameraError::Io("late".to_string()));
    assert!(matches!(l.take_frame(late, false), EncodeStep::Report(CameraError::Io(_))));
}

fn frame_4x2() -> Vec<u8> {
    vec![1, 2, 3, 4, 5, 6, 7, 8, 0x10, 0x11, 0x20, 0x21]
}

#[test]
fn a_capture_turns_and_mirrors_its_frames() {
    let mut p = V4l2CaptureProducer::new("/dev/video0", 4, 2, 30);
    assert_eq!(p.device_path(), "/dev/video0");
    assert_eq!(p.resolution(), (4, 2));
    assert_eq!(p.fps(), 30);
    let mut f = frame_4x2();
    assert_eq!(p.transform(&mut f), (4, 2));
    assert_eq!(f, frame_4x2());
    p.set_rotation(90);
    assert_eq!(p.transform(&mut f), (2, 4));
    assert_eq!(f[..8], [5, 1, 6, 2, 7, 3, 8, 4]);
    let mut g = frame_4x2();
    p.set_rotation(180);
    assert_eq!(p.transform(&mut g), (4, 2));
    assert_eq!(g[..8], [8, 7, 6, 5, 4, 3, 2, 1]);
    let mut h = frame_4x2();
    p.set_rotation(45);
    p.set_flips(true, false);
    assert_eq!(p.transform(&mut h), (4, 2));
    assert_eq!(h[..8], [4, 3, 2, 1, 8, 7, 6, 5]);
}

#[test]
fn a_capture_shares_every_nth_frame() {
    let mut p = V4l2CaptureProducer::new("/dev/video0", 4, 2, 30);
    p.set_yuv_share_interval(2);
    assert!(p.latest_yuv().is_none());
    assert!(!p.finish_frame(4, 2, &vec![1; 12]));
    assert!(p.latest_yuv().is_none());
    assert!(p.finish_frame(4, 2, &vec![2; 12]));
    assert_eq!(p.latest_yuv(), Some((4, 2, &vec![2; 12])));
    assert!(!p.finish_frame(2, 4, &vec![3; 12]));
    assert_eq!(p.latest_yuv(), Some((4, 2, &vec![2; 12])));
    p.set_yuv_share_interval(0);
    assert!(!p.finish_frame(2, 4, &vec![4; 12]));
    assert_eq!(p.latest_yuv(), Some((4, 2, &vec![2; 12])));
    p.set_dims(6, 8);
    assert_eq!(p.resolution(), (6, 8));
}

#[test]
fn answers_of_the_device_are_checked() {
    assert!(check_buffer_count(2).is_ok());
    match check_buffer_count(1) {
        Err(CameraError::Config(t)) => {
            assert_eq!(t, "device allocated only 1 buffers (need ≥ 2)");
        }
        other => panic!("{other:?}"),
    }
    assert_eq!(buffer_length(100, 4, 2), 100);
    assert_eq!(buffer_length(0, 4, 2), 12);
    assert!(check_poll(Ok(1)).is_ok());
    assert!(matches!(check_poll(Ok(0)), Err(CameraError::Disconnected(t)) if t == "capture poll timeout"));
    assert!(matches!(check_poll(Err("broken".to_string())), Err(CameraError::Io(t)) if t == "broken"));
}

#[test]
fn a_filled_buffer_is_read_as_far_as_it_counts() {
    let lengths = vec![100, 200];
    let filled = |index, bytesused| check_dequeued(Dequeued::Filled { index, bytesused }, &lengths);
    assert!(matches!(filled(1, 50), Ok(Some((1, 50)))));
    assert!(matches!(filled(1, 0), Ok(Some((1, 200)))));
    assert!(matches!(filled(0, 150), Ok(Some((0, 100)))));
    assert!(matches!(filled(2, 50), Err(CameraError::Disconnected(t)) if t == "buffer index 2 out of range"));
    assert!(matches!(check_dequeued(Dequeued::Again, &lengths), Ok(None)));
    let failed = Dequeued::Failed("bad".to_string());
    assert!(matches!(check_dequeued(failed, &lengths), Err(CameraError::Io(t)) if t == "bad"));
}

#[test]
fn device_requests_have_their_numbers() {
    assert_eq!(ioc(2, 0x56, 0, 104), 0x8068_5600);
    assert_eq!(ioc(1, 0x56, 18, 4), 0x4004_5612);
}

#[test]
fn narrow_rows_must_end_inside_the_buffer() {
    assert!(can_fill(0, 0, 4, 2, 4));
    assert!(can_fill(1, 100, 4, 2, 8), "too short a buffer is found out");
    // Rows of two bytes for a frame four wide: the last row ends behind them.
    assert!(!can_fill(6, 12, 4, 2, 2));
    assert!(can_fill(7, 12, 4, 2, 2));
    assert!(can_fill(6, 11, 4, 2, 2), "too short a frame is found out");
}

#[test]
fn every_third_frame_of_nine_is_emitted() {
    let (tx, rx) = sync_channel::<Vec<u8>>(9);
    for tag in 1..=9u8 {
        tx.send(frame_8x2(tag)).unwrap();
    }
    drop(tx);
    let mut sub = SubFrameProducer::new(rx, 8, 2, 4, 2, 30, 10);
    for n in 1..=3u8 {
        assert_eq!(sub.next_yuv_frame().unwrap()[0], 3 * n);
    }
    assert!(sub.next_yuv_frame().is_err());
}
