//! Alarms and clock drift.

use mibee_eye::camera::v4l2_capture::Flips;
use mibee_eye::gb28181_alarm::{
    alarm_at, build_alarm, mirror_mode_to_flips, AlarmBridge, DeviceConfigGlue,
    DEFAULT_ALARM_COOLDOWN_SECS,
};
use mibee_eye::gb28181_date::{
    evaluate_date_drift, update_latch, DateDriftOutcome, DATE_OBSERVER_INTERVAL,
};
use mibee_eye::onvif_alarm::motion_alarm_event;

#[test]
fn within_threshold_is_quiet() {
    assert_eq!(
        evaluate_date_drift(1_000, 1_000, None),
        DateDriftOutcome::Stable
    );
    assert_eq!(
        evaluate_date_drift(1_000, 1_005, None),
        DateDriftOutcome::Stable
    );
}

#[test]
fn first_excursion_warns() {
    assert_eq!(
        evaluate_date_drift(1_000, 1_007, None),
        DateDriftOutcome::Warn(7)
    );
    // Sign preserved: platform ahead of local.
    assert_eq!(
        evaluate_date_drift(1_012, 1_000, None),
        DateDriftOutcome::Warn(-12)
    );
}

#[test]
fn stable_drift_does_not_rewarn() {
    // Already warned at 7s; the same drift (or a 1s wiggle) stays quiet.
    assert_eq!(
        evaluate_date_drift(1_000, 1_007, Some(7)),
        DateDriftOutcome::Stable
    );
    assert_eq!(
        evaluate_date_drift(1_000, 1_009, Some(7)),
        DateDriftOutcome::Stable
    );
    // Moved another threshold → warn again.
    assert_eq!(
        evaluate_date_drift(1_000, 1_013, Some(7)),
        DateDriftOutcome::Warn(13)
    );
}

#[test]
fn recovery_clears_the_latch() {
    assert_eq!(
        evaluate_date_drift(1_000, 1_003, Some(7)),
        DateDriftOutcome::Recovered
    );
    assert_eq!(
        evaluate_date_drift(1_000, 1_000, None),
        DateDriftOutcome::Stable
    );
    assert_eq!(
        evaluate_date_drift(1_000, 1_006, None),
        DateDriftOutcome::Warn(6)
    );
}

#[test]
fn rising_edge_only_is_accepted() {
    let mut b = AlarmBridge::new(true, 30_000);
    assert!(b.take_edge(1_000, true), "first appearance");
    assert!(!b.take_edge(2_000, true), "sustained presence");
    assert!(!b.take_edge(3_000, false), "falling edge never alarms");
    // Re-appearance inside the 30s cooldown window is suppressed.
    assert!(!b.take_edge(4_000, true), "re-appearance within cooldown");
    assert!(!b.take_edge(35_000, false));
    assert!(b.take_edge(36_000, true), "re-appearance after cooldown");
}

#[test]
fn cooldown_suppresses_rapid_re_rise() {
    let mut b = AlarmBridge::new(true, 30_000);
    assert!(b.take_edge(10_000, true));
    assert!(!b.take_edge(11_000, false), "target lost (never alarms)");
    // Rising again 1s after the last alarm: inside the window.
    assert!(!b.take_edge(12_000, true));
    // Still inside at +29.999s.
    assert!(!b.take_edge(30_000, false));
    assert!(!b.take_edge(39_999, true));
    // Outside at +30s (falling first so the next true is a rise).
    assert!(!b.take_edge(40_000, false));
    assert!(b.take_edge(40_000, true));
}

#[test]
fn motion_gate_blocks_and_reenables() {
    let mut b = AlarmBridge::new(false, 30_000);
    assert!(!b.take_edge(1_000, true), "gate off at boot");
    b.set_motion_reporting(true);
    assert!(!b.take_edge(2_000, true), "prev already true — no edge");
    assert!(!b.take_edge(3_000, false));
    assert!(b.take_edge(4_000, true), "gate on: edge accepted");
    b.set_motion_reporting(false);
    assert!(!b.take_edge(5_000, false));
    assert!(!b.take_edge(6_000, true), "gate off again");
}

#[test]
fn first_alarm_has_no_cooldown_floor() {
    // last_sent starts negative — the very first edge must pass.
    let mut b = AlarmBridge::new(true, 30_000);
    assert!(b.take_edge(0, true));
}

#[test]
fn accepted_edge_fires_sse_sink_without_notifier() {
    let mut b = AlarmBridge::new(true, 30_000);
    // Rising edge accepted (gate on) — listeners hear of it even though no
    // platform is attached.
    let d = b.on_detections(1_000, 2, false);
    assert!(d.alarm.is_none());
    assert_eq!(d.edge, Some((1_000, 2)));
    // Cooldown-suppressed edge must not re-fire.
    let d = b.on_detections(2_000, 3, false);
    assert!(d.alarm.is_none());
    assert!(d.edge.is_none());
}

#[test]
fn on_detections_without_notifier_is_a_safe_skip() {
    let mut b = AlarmBridge::new(true, 30_000);
    assert!(b.on_detections(1_000, 3, false).alarm.is_none());
    assert!(b.on_detections(2_000, 0, false).alarm.is_none());
}

#[test]
fn attached_platform_gets_the_alarm() {
    let mut b = AlarmBridge::new(true, DEFAULT_ALARM_COOLDOWN_SECS * 1000);
    let (priority, method, kind, time, desc) = b.on_detections(1_000, 3, true).alarm.unwrap();
    assert_eq!((priority, method, kind), ("4", "5", "2"));
    assert_eq!(time.len(), 19);
    assert_eq!(&time[10..11], "T");
    assert_eq!(desc, "AI moving-target detection: 3 target(s)");
}

#[test]
fn alarm_carries_the_time_it_is_given() {
    let (_, _, _, time, desc) = alarm_at("2024-01-02T03:04:05".to_string(), 12);
    assert_eq!(time, "2024-01-02T03:04:05");
    assert_eq!(desc, "AI moving-target detection: 12 target(s)");
}

#[test]
fn clock_set_back_counts_as_no_time_passed() {
    let mut b = AlarmBridge::new(true, 30_000);
    assert!(b.take_edge(100_000, true));
    assert!(!b.take_edge(100_001, false));
    assert!(!b.take_edge(50_000, true));
}

#[test]
fn platform_switches_reporting_and_mirroring() {
    let mut g = DeviceConfigGlue {
        alarm: AlarmBridge::new(false, 0),
        flips: Flips::default(),
    };
    assert!(!g.alarm.take_edge(1, true));
    g.on_alarm_report(1, 0);
    assert!(!g.alarm.take_edge(2, false));
    assert!(g.alarm.take_edge(3, true));
    g.on_alarm_report(2, 1);
    assert!(!g.alarm.take_edge(4, false));
    assert!(!g.alarm.take_edge(5, true));
    g.on_frame_mirror(3);
    assert_eq!(g.flips.load(), (true, true));
    g.on_frame_mirror(7);
    assert_eq!(g.flips.load(), (false, false));
}

#[test]
fn latch_follows_the_outcome() {
    assert_eq!(DATE_OBSERVER_INTERVAL, 60);
    assert_eq!(update_latch(DateDriftOutcome::Warn(-12), None), Some(12));
    assert_eq!(update_latch(DateDriftOutcome::Warn(i64::MIN), None), Some(1 << 63));
    assert_eq!(update_latch(DateDriftOutcome::Stable, Some(7)), Some(7));
    assert_eq!(update_latch(DateDriftOutcome::Recovered, Some(7)), None);
    // An unmoved drift is warned of once.
    let first = evaluate_date_drift(1_000, 1_007, None);
    let latch = update_latch(first, None);
    assert_eq!(evaluate_date_drift(1_000, 1_007, latch), DateDriftOutcome::Stable);
}

#[test]
fn mirror_mode_maps_to_flips() {
    assert_eq!(mirror_mode_to_flips(0), (false, false));
    assert_eq!(mirror_mode_to_flips(1), (true, false));
    assert_eq!(mirror_mode_to_flips(2), (false, true));
    assert_eq!(mirror_mode_to_flips(3), (true, true));
    assert_eq!(mirror_mode_to_flips(9), (false, false), "defensive");
}

#[test]
fn alarm_values_are_standard_pinned() {
    let (priority, method, alarm_type, time, desc) = build_alarm(1_000, 2);
    assert_eq!(priority, "4"); // 四级警情
    assert_eq!(method, "5"); // 视频报警
    assert_eq!(alarm_type, "2"); // 运动目标检测报警
    assert!(time.contains('T'), "GB time format: {time}");
    assert!(desc.contains("2 target"), "{desc}");
}

#[test]
fn motion_alarm_event_shape() {
    let ev = motion_alarm_event(3);
    assert_eq!(ev.topic, "tns1:VideoSource/MotionAlarm");
    assert_eq!(ev.property_operation, "", "defaults to Changed at publish");
    let source = &ev.source;
    assert_eq!(source.len(), 1);
    assert_eq!(
        (source[0].name.as_str(), source[0].value.as_str()),
        ("Source", "0")
    );
    let data = &ev.data;
    assert_eq!(data.len(), 2);
    assert_eq!(
        (data[0].name.as_str(), data[0].value.as_str()),
        ("State", "true")
    );
    assert_eq!(
        (data[1].name.as_str(), data[1].value.as_str()),
        ("Targets", "3")
    );
    assert!(ev.key.is_empty());
}

#[test]
fn alarms_show_their_moment() {
    for ms in [0, 1_000, 1_700_000_000_000] {
        assert_eq!(build_alarm(ms, 1).3, gb28181_rs::client::format_gb_time_ms(ms));
    }
    assert_ne!(build_alarm(1_700_000_000_000, 1).3, build_alarm(1_700_000_060_000, 1).3);
}
