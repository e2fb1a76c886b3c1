//! Alarms from moving-target detection.
//!
//! An alarm goes out on the rising edge of "targets present", no more often
//! than a cooldown allows, and only while the platform has motion reporting
//! switched on.

use vstd::prelude::*;
use vstd::string::*;
use crate::camera::v4l2_capture::Flips;
use crate::text::{decimal, decimal_text, is_digit};

verus! {

/// Least seconds between two alarms.
pub const DEFAULT_ALARM_COOLDOWN_SECS: u64 = 30;

/// Turns detections into alarms.
#[derive(Debug)]
pub struct AlarmBridge {
    motion_reporting: bool,
    prev_target: bool,
    last_sent_ms: Option<u64>,
    cooldown_ms: u64,
}

/// The state of an alarm bridge.
pub struct AlarmState {
    /// Whether motion is reported.
    pub reporting: bool,
    /// Whether the last batch had targets.
    pub present: bool,
    /// When the last alarm was accepted, in milliseconds.
    pub last: Option<u64>,
    /// Least milliseconds between alarms.
    pub cooldown: u64,
}

impl View for AlarmBridge {
    type V = AlarmState;

    closed spec fn view(&self) -> AlarmState {
        AlarmState {
            reporting: self.motion_reporting,
            present: self.prev_target,
            last: self.last_sent_ms,
            cooldown: self.cooldown_ms,
        }
    }
}

/// Whether a batch of detections is an accepted rising edge.
pub open spec fn is_edge(s: AlarmState, now_ms: u64, has_target: bool) -> bool {
    &&& has_target
    &&& !s.present
    &&& s.reporting
    &&& s.last matches Some(last) ==> s.cooldown <= if now_ms < last {
        0
    } else {
        now_ms - last
    }
}

/// The state after a batch of detections. A moment beyond the signed range is
/// not remembered.
pub open spec fn after_batch(s: AlarmState, now_ms: u64, has_target: bool) -> AlarmState {
    AlarmState {
        present: has_target,
        last: if !is_edge(s, now_ms, has_target) {
            s.last
        } else if now_ms <= i64::MAX {
            Some(now_ms)
        } else {
            None
        },
        ..s
    }
}

/// An alarm as the platform expects it: priority, method, type, time and
/// description.
pub type Alarm = (&'static str, &'static str, &'static str, String, String);

/// What a batch of detections sets off.
pub struct Detection {
    /// The edge for listeners: its moment and the number of targets.
    pub edge: Option<(u64, usize)>,
    /// The alarm for the platform.
    pub alarm: Option<Alarm>,
}

/// What the description of an alarm says.
pub open spec fn alarm_description(target_count: nat) -> Seq<char> {
    "AI moving-target detection: "@ + decimal(target_count) + " target(s)"@
}

/// Whether an alarm has the standard's values for video analytics and says
/// how many targets there were.
pub open spec fn is_alarm(a: Alarm, time: Seq<char>, target_count: nat) -> bool {
    &&& a.0@ == "4"@
    &&& a.1@ == "5"@
    &&& a.2@ == "2"@
    &&& a.3@ == time
    &&& a.4@ == alarm_description(target_count)
}

/// Whether a text has the form of a platform time: a date of at least four
/// digits for the year, `T`, and a time of day, all two digits each.
pub open spec fn is_gb_time(t: Seq<char>) -> bool {
    let n = t.len();
    &&& n >= 19
    &&& t[n - 15] == '-'
    &&& t[n - 12] == '-'
    &&& t[n - 9] == 'T'
    &&& t[n - 6] == ':'
    &&& t[n - 3] == ':'
    &&& forall|i: int|
        0 <= i < n && i != n - 15 && i != n - 12 && i != n - 9 && i != n - 6 && i != n - 3
            ==> is_digit(#[trigger] t[i])
}

/// A moment in the platform's form, for a clock that is this many seconds ahead
/// of universal time.
pub uninterp spec fn gb_time_of(ms: u64, offset: i64) -> Seq<char>;

/// Whether a text shows a moment in some time zone.
pub open spec fn shows_moment(time: Seq<char>, ms: u64) -> bool {
    exists|offset: i64| time == #[trigger] gb_time_of(ms, offset)
}

/// `gb28181_rs::client::format_gb_time_ms`: a moment in the device's local
/// time, in the platform's form. The moment and the offset of the time zone
/// alone decide it; the offset is the device's, and is not stated.
#[verifier::external_body]
fn gb_time(now_ms: u64) -> (time: String)
    ensures
        is_gb_time(time@),
        exists|offset: i64| time@ == #[trigger] gb_time_of(now_ms, offset),
{
    gb28181_rs::client::format_gb_time_ms(now_ms)
}

/// The alarm for a number of targets at a time already in the platform's form.
pub fn alarm_at(time: String, target_count: usize) -> (alarm: Alarm)
    ensures
        is_alarm(alarm, time@, target_count as nat),
{
    let mut desc = "AI moving-target detection: ".to_owned();
    desc.append(decimal_text(target_count as u64).as_str());
    desc.append(" target(s)");
    ("4", "5", "2", time, desc)
}

/// The alarm for a number of targets at a moment.
pub fn build_alarm(now_ms: u64, target_count: usize) -> (alarm: Alarm)
    ensures
        is_alarm(alarm, alarm.3@, target_count as nat),
        is_gb_time(alarm.3@),
        shows_moment(alarm.3@, now_ms),
{
    alarm_at(gb_time(now_ms), target_count)
}

impl AlarmBridge {
    /// A bridge that has seen nothing. `enabled` says whether motion is
    /// reported until the platform decides.
    pub fn new(enabled: bool, cooldown_ms: u64) -> (b: Self)
        ensures
            b@ == (AlarmState {
                reporting: enabled,
                present: false,
                last: None,
                cooldown: cooldown_ms,
            }),
    {
        AlarmBridge {
            motion_reporting: enabled,
            prev_target: false,
            last_sent_ms: None,
            cooldown_ms,
        }
    }

    /// Switches motion reporting.
    pub fn set_motion_reporting(&mut self, on: bool)
        ensures
            final(self)@ == (AlarmState { reporting: on, ..old(self)@ }),
    {
        self.motion_reporting = on;
    }

    /// Takes in whether targets are present, and tells whether that is an
    /// accepted rising edge.
    pub fn take_edge(&mut self, now_ms: u64, has_target: bool) -> (accepted: bool)
        ensures
            accepted == is_edge(old(self)@, now_ms, has_target),
            final(self)@ == after_batch(old(self)@, now_ms, has_target),
    {
        let prev = self.prev_target;
        self.prev_target = has_target;
        if !has_target || prev || !self.motion_reporting {
            return false;
        }
        if let Some(last) = self.last_sent_ms {
            let since: u64 = if now_ms < last {
                0
            } else {
                now_ms - last
            };
            if since < self.cooldown_ms {
                return false;
            }
        }
        self.last_sent_ms = if now_ms <= 0x7fff_ffff_ffff_ffff {
            Some(now_ms)
        } else {
            None
        };
        true
    }

    /// Takes in one batch of detections. Listeners hear of every accepted
    /// edge; an alarm is made only where a platform is there to notify. One
    /// that cannot be sent is not tried again.
    pub fn on_detections(
        &mut self,
        now_ms: u64,
        target_count: usize,
        platform_attached: bool,
    ) -> (d: Detection)
        ensures
            final(self)@ == after_batch(old(self)@, now_ms, target_count > 0),
            d.edge == (if is_edge(old(self)@, now_ms, target_count > 0) {
                Some((now_ms, target_count))
            } else {
                None
            }),
            d.alarm is Some <==> is_edge(old(self)@, now_ms, target_count > 0)
                && platform_attached,
            d.alarm matches Some(a) ==> is_alarm(a, a.3@, target_count as nat) && is_gb_time(a.3@)
                && shows_moment(a.3@, now_ms),
    {
        if !self.take_edge(now_ms, target_count > 0) {
            return Detection { edge: None, alarm: None };
        }
        let alarm = if platform_attached {
            Some(build_alarm(now_ms, target_count))
        } else {
            None
        };
        Detection { edge: Some((now_ms, target_count)), alarm }
    }
}

/// Presence that lasts sets off one alarm: after a batch with targets no batch
/// is an edge until one without them.
pub proof fn lasting_presence_is_one_edge(s: AlarmState, now_ms: u64, later_ms: u64, any: bool)
    ensures
        !is_edge(after_batch(s, now_ms, true), later_ms, any),
        !is_edge(s, now_ms, false),
{
}

/// Within the cooldown after an accepted edge nothing is accepted, whatever
/// batches come in between.
pub proof fn cooldown_holds_edges_back(
    s: AlarmState,
    now_ms: u64,
    batches: Seq<(u64, bool)>,
    later_ms: u64,
    has_target: bool,
)
    requires
        is_edge(s, now_ms, true),
        now_ms <= later_ms < now_ms + s.cooldown,
        now_ms <= i64::MAX,
        forall|i: int|
            0 <= i < batches.len() ==> now_ms <= (#[trigger] batches[i]).0 < now_ms + s.cooldown,
    ensures
        !is_edge(after_batches(after_batch(s, now_ms, true), batches), later_ms, has_target),
{
    lemma_last_kept(after_batch(s, now_ms, true), now_ms, batches);
}

/// The state after several batches.
pub open spec fn after_batches(s: AlarmState, batches: Seq<(u64, bool)>) -> AlarmState
    decreases batches.len(),
{
    if batches.len() == 0 {
        s
    } else {
        let b = batches.last();
        after_batch(after_batches(s, batches.drop_last()), b.0, b.1)
    }
}

proof fn lemma_last_kept(s: AlarmState, now_ms: u64, batches: Seq<(u64, bool)>)
    requires
        s.last == Some(now_ms),
        forall|i: int|
            0 <= i < batches.len() ==> now_ms <= (#[trigger] batches[i]).0 < now_ms + s.cooldown,
    ensures
        after_batches(s, batches).last == Some(now_ms),
        after_batches(s, batches).cooldown == s.cooldown,
    decreases batches.len(),
{
    if batches.len() > 0 {
        assert forall|i: int| 0 <= i < batches.drop_last().len() implies now_ms <= (
        #[trigger] batches.drop_last()[i]).0 < now_ms + s.cooldown by {
            assert(batches.drop_last()[i] == batches[i]);
        }
        lemma_last_kept(s, now_ms, batches.drop_last());
        assert(batches.last() == batches[batches.len() - 1]);
    }
}

// ---------------------------------------------------------------------------
// Device configuration from the platform
// ---------------------------------------------------------------------------

/// The flips of a frame mirror mode: 1 left to right, 2 top to bottom, 3 both,
/// anything else none.
pub open spec fn mirror_flips(mode: u32) -> (bool, bool) {
    (mode == 1 || mode == 3, mode == 2 || mode == 3)
}

/// Maps a frame mirror mode to horizontal and vertical flips.
pub fn mirror_mode_to_flips(mode: u32) -> (flips: (bool, bool))
    ensures
        flips == mirror_flips(mode),
{
    match mode {
        1 => (true, false),
        2 => (false, true),
        3 => (true, true),
        _ => (false, false),
    }
}

/// What the platform may configure at runtime: motion reporting, and how
/// frames are mirrored.
#[derive(Debug)]
pub struct DeviceConfigGlue {
    pub alarm: AlarmBridge,
    pub flips: Flips,
}

impl DeviceConfigGlue {
    /// The alarm report switches: motion is reported for 1. Field detection
    /// has no source here.
    pub fn on_alarm_report(&mut self, motion_detection: u32, field_detection: u32)
        ensures
            final(self).alarm@ == (AlarmState {
                reporting: motion_detection == 1,
                ..old(self).alarm@
            }),
            final(self).flips == old(self).flips,
    {
        self.alarm.set_motion_reporting(motion_detection == 1);
    }

    /// The frame mirror mode.
    pub fn on_frame_mirror(&mut self, mode: u32)
        ensures
            final(self).flips@ == mirror_flips(mode),
            final(self).alarm == old(self).alarm,
    {
        let (hflip, vflip) = mirror_mode_to_flips(mode);
        self.flips.set(hflip, vflip);
    }
}

/// Targets that turn up while motion is reported set off an alarm, unless the
/// last one was accepted less than the cooldown ago; a clock that was set back
/// counts as no time gone by. Without reporting nothing does.
pub proof fn targets_that_turn_up_are_reported(s: AlarmState, now_ms: u64, last: u64)
    requires
        !s.present,
    ensures
        s.reporting && s.last is None ==> is_edge(s, now_ms, true),
        s.reporting && s.last == Some(last) && now_ms >= last + s.cooldown ==> is_edge(
            s,
            now_ms,
            true,
        ),
        s.last == Some(last) && now_ms < last + s.cooldown && s.cooldown > 0 ==> !is_edge(
            s,
            now_ms,
            true,
        ),
        s.reporting && s.cooldown == 0 ==> is_edge(s, now_ms, true),
        !s.reporting ==> !is_edge(s, now_ms, true),
{
}

/// A batch is remembered: whether it had targets, and its moment where it set
/// off an alarm. The switch and the cooldown stay.
pub proof fn batches_are_remembered(s: AlarmState, now_ms: u64, has_target: bool)
    ensures
        after_batch(s, now_ms, has_target).present == has_target,
        after_batch(s, now_ms, has_target).reporting == s.reporting,
        after_batch(s, now_ms, has_target).cooldown == s.cooldown,
        is_edge(s, now_ms, has_target) && now_ms <= i64::MAX ==> after_batch(
            s,
            now_ms,
            has_target,
        ).last == Some(now_ms),
        !is_edge(s, now_ms, has_target) ==> after_batch(s, now_ms, has_target).last == s.last,
{
}

/// The two low bits of a mirror mode are the flip to the side and the one
/// upside down; a mode with higher bits is none.
pub proof fn mirror_modes_are_two_bits(mode: u32)
    ensures
        mode < 4 ==> mirror_flips(mode) == (mode % 2 == 1, mode / 2 == 1),
        mode >= 4 ==> mirror_flips(mode) == (false, false),
{
}

/// An alarm has the priority, the method and the type that stand for moving
/// targets in a video, and says how many there were and when.
pub proof fn alarms_say_how_many(a: Alarm, time: Seq<char>, target_count: nat)
    requires
        is_alarm(a, time, target_count),
    ensures
        (a.0@, a.1@, a.2@) == ("4"@, "5"@, "2"@),
        a.3@ == time,
        a.4@ == "AI moving-target detection: "@ + decimal(target_count) + " target(s)"@,
{
}

} // verus!
