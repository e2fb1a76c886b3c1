//! Streaming to the browser: the media clock that connections share, when a
//! stream may start, and what goes out after frames were lost.

use vstd::prelude::*;
use vstd::slice::slice_to_vec;
use crate::h264::{AccessUnit, Nalu};
use crate::streaming::session::bytes_of;
use crate::text::same_text;

verus! {

/// The furthest point of the media clock that any connection has reached, in
/// ticks of a 90 kHz clock.
#[derive(Debug, Clone, Copy, PartialEq, Eq, Structural)]
pub struct MseClock {
    pub floor: u64,
}

impl MseClock {
    /// A clock that nothing has run on.
    pub fn new() -> (c: Self)
        ensures
            c.floor == 0,
    {
        MseClock { floor: 0 }
    }

    /// Moves the clock a little past everything so far, and gives where it
    /// stands.
    pub fn seed_mse_clock(&mut self) -> (ticks: u64)
        requires
            old(self).floor + 90 <= u64::MAX,
        ensures
            ticks == old(self).floor + 90,
            final(self).floor == ticks,
    {
        self.floor = self.floor + 90;
        self.floor
    }

    /// Moves the clock to where a connection has come, unless it is further.
    pub fn publish_mse_clock(&mut self, ticks: u64)
        ensures
            final(self).floor == (if ticks > old(self).floor {
                ticks
            } else {
                old(self).floor
            }),
    {
        if ticks > self.floor {
            self.floor = ticks;
        }
    }
}

/// The media clock of one connection.
#[derive(Debug, Clone, Copy, PartialEq, Eq, Structural)]
pub struct MseTimeline {
    /// When the last frame came, in nanoseconds.
    pub prev: Option<u64>,
    /// Timestamp of the last frame.
    pub clock: u64,
}

/// The duration of a frame: the time since the one before, from a millisecond
/// to 200; a fifteenth of a second for the first.
pub open spec fn frame_ticks(prev: Option<u64>, now_ns: u64) -> int {
    match prev {
        Some(p) => {
            let us = if now_ns < p { 0 } else { (now_ns - p) / 1000 };
            let ticks = us * 90 / 1000;
            if ticks < 90 {
                90
            } else if ticks > 18_000 {
                18_000
            } else {
                ticks
            }
        },
        None => 6_000,
    }
}

impl MseTimeline {
    /// A timeline that goes on past every earlier connection's.
    pub fn new(clock: &mut MseClock) -> (t: Self)
        requires
            old(clock).floor + 90 <= u64::MAX,
        ensures
            t == (MseTimeline { prev: None, clock: final(clock).floor }),
            final(clock).floor == old(clock).floor + 90,
    {
        MseTimeline { prev: None, clock: clock.seed_mse_clock() }
    }

    /// Stamps a frame: its timestamp and duration.
    pub fn next(&mut self, now_ns: u64, clock: &mut MseClock) -> (stamp: (u64, u32))
        requires
            old(self).clock + 18_000 <= u64::MAX,
        ensures
            stamp.0 == old(self).clock + frame_ticks(old(self).prev, now_ns),
            stamp.1 == frame_ticks(old(self).prev, now_ns),
            *final(self) == (MseTimeline { prev: Some(now_ns), clock: stamp.0 }),
            final(clock).floor == (if stamp.0 > old(clock).floor {
                stamp.0
            } else {
                old(clock).floor
            }),
    {
        let ticks: u64 = match self.prev {
            Some(p) => {
                let us: u64 = if now_ns < p {
                    0
                } else {
                    (now_ns - p) / 1000
                };
                let t: u64 = us * 90 / 1000;
                if t < 90 {
                    90
                } else if t > 18_000 {
                    18_000
                } else {
                    t
                }
            },
            None => 6_000,
        };
        self.prev = Some(now_ns);
        self.clock = self.clock + ticks;
        clock.publish_mse_clock(self.clock);
        (self.clock, ticks as u32)
    }
}

/// The timestamps of a connection rise by at least a millisecond, and the
/// shared clock is never behind one that was given out.
pub proof fn timestamps_of_a_connection_rise(t: MseTimeline, now_ns: u64, floor: u64)
    requires
        t.clock + 18_000 <= u64::MAX,
    ensures
        t.clock + 90 <= t.clock + frame_ticks(t.prev, now_ns) <= t.clock + 18_000,
        ({
            let stamp = t.clock + frame_ticks(t.prev, now_ns);
            (if stamp > floor {
                stamp
            } else {
                floor as int
            }) >= stamp
        }),
{
}

/// A connection that starts later goes on past every timestamp given out
/// before: wherever the shared clock is not behind a timestamp, each one that
/// a new timeline gives is after it.
pub proof fn later_connections_go_on(floor: u64, given: u64, now_ns: u64)
    requires
        given <= floor,
    ensures
        (floor + 90) + frame_ticks(None, now_ns) > given,
        floor + 90 >= given,
{
}

/// Lets frames through after loss only from a key frame on.
#[derive(Debug, Clone, Copy, PartialEq, Eq, Structural)]
pub struct RealignGate {
    pub need_key: bool,
    pub seen_drops: u64,
}

/// Whether frames were lost before one: the subscriber's count of drops moved,
/// or frames were skipped to get to one that is no key frame.
pub open spec fn is_loss(g: RealignGate, is_key: bool, skipped: usize, dropped: u64) -> bool {
    dropped != g.seen_drops || (skipped > 0 && !is_key)
}

impl RealignGate {
    /// A gate that is open.
    pub fn new(seen_drops: u64) -> (g: Self)
        ensures
            g == (RealignGate { need_key: false, seen_drops }),
    {
        RealignGate { need_key: false, seen_drops }
    }

    /// Decides about a frame: a key frame always passes, another only where
    /// nothing was lost since the last one that passed.
    pub fn allow(&mut self, latest_is_key: bool, skipped: usize, dropped: u64) -> (pass: bool)
        ensures
            pass == (latest_is_key || !(old(self).need_key || is_loss(
                *old(self),
                latest_is_key,
                skipped,
                dropped,
            ))),
            *final(self) == (RealignGate { need_key: !pass, seen_drops: dropped }),
    {
        if dropped != self.seen_drops {
            self.seen_drops = dropped;
            self.need_key = true;
        }
        if skipped > 0 && !latest_is_key {
            self.need_key = true;
        }
        if self.need_key && !latest_is_key {
            return false;
        }
        self.need_key = false;
        true
    }
}

/// A frame to decide about: whether it is a key frame, how many were skipped
/// before it, and the count of drops.
pub type GateInput = (bool, usize, u64);

/// A gate after some frames.
pub open spec fn gate_after(g: RealignGate, frames: Seq<GateInput>) -> RealignGate
    decreases frames.len(),
{
    if frames.len() == 0 {
        g
    } else {
        let h = gate_after(g, frames.drop_last());
        let f = frames.last();
        RealignGate {
            need_key: !(f.0 || !(h.need_key || is_loss(h, f.0, f.1, f.2))),
            seen_drops: f.2,
        }
    }
}

/// After a loss nothing passes until a key frame does, however many frames
/// come and whatever else is lost meanwhile.
pub proof fn gate_stays_shut_until_a_key_frame(g: RealignGate, frames: Seq<GateInput>)
    requires
        g.need_key,
        forall|i: int| 0 <= i < frames.len() ==> !(#[trigger] frames[i]).0,
    ensures
        gate_after(g, frames).need_key,
    decreases frames.len(),
{
    if frames.len() > 0 {
        assert forall|i: int| 0 <= i < frames.drop_last().len() implies !(
        #[trigger] frames.drop_last()[i]).0 by {
            assert(frames.drop_last()[i] == frames[i]);
        }
        gate_stays_shut_until_a_key_frame(g, frames.drop_last());
        assert(frames.last() == frames[frames.len() - 1]);
    }
}

/// The data of the first unit with a property.
pub open spec fn first_unit(nalus: Seq<Nalu>, sps: bool) -> Option<Seq<u8>>
    decreases nalus.len(),
{
    if nalus.len() == 0 {
        None
    } else if (sps && nalus[0].is_sps) || (!sps && nalus[0].is_pps) {
        Some(nalus[0].data@)
    } else {
        first_unit(nalus.skip(1), sps)
    }
}

/// Finds the first parameter set of each kind in an access unit.
pub fn extract_sps_pps(au: &AccessUnit) -> (r: (Option<Vec<u8>>, Option<Vec<u8>>))
    ensures
        bytes_of(r.0) == first_unit(au.nalus@, true),
        bytes_of(r.1) == first_unit(au.nalus@, false),
{
    let mut sps: Option<Vec<u8>> = None;
    let mut pps: Option<Vec<u8>> = None;
    let ghost all = au.nalus@;
    let mut i: usize = 0;
    proof {
        assert(all.skip(0) =~= all);
    }
    while i < au.nalus.len()
        invariant
            i <= all.len(),
            all == au.nalus@,
            first_unit(all, true) == (if sps is Some {
                bytes_of(sps)
            } else {
                first_unit(all.skip(i as int), true)
            }),
            first_unit(all, false) == (if pps is Some {
                bytes_of(pps)
            } else {
                first_unit(all.skip(i as int), false)
            }),
        decreases all.len() - i,
    {
        let nalu = &au.nalus[i];
        proof {
            assert(all.skip(i as int)[0] == nalu);
            assert(all.skip(i as int).skip(1) =~= all.skip(i + 1));
        }
        if nalu.is_sps && sps.is_none() {
            sps = Some(slice_to_vec(nalu.data.as_slice()));
        }
        if nalu.is_pps && pps.is_none() {
            pps = Some(slice_to_vec(nalu.data.as_slice()));
        }
        i = i + 1;
    }
    (sps, pps)
}

/// One client's stream of segments.
#[derive(Debug, Clone, Copy, PartialEq, Eq, Structural)]
pub struct MseStream {
    /// Whether the segment that describes the stream has been sent.
    pub initialized: bool,
    /// Number of the next media segment.
    pub sequence: u32,
    pub timeline: MseTimeline,
}

/// A media segment to build, after the segment that describes the stream where
/// that is due.
pub struct Segment {
    /// The parameter sets to describe the stream with.
    pub init: Option<(Vec<u8>, Vec<u8>)>,
    pub sequence: u32,
    pub timestamp: u64,
    pub duration: u32,
}

/// Whether an access unit goes out: any once the stream is described, before
/// that a key frame that brings both parameter sets.
pub open spec fn goes_out(initialized: bool, au: AccessUnit) -> bool {
    initialized || (au.is_key_frame && first_unit(au.nalus@, true) is Some && first_unit(
        au.nalus@,
        false,
    ) is Some)
}

/// A segment number, one on.
pub open spec fn next_sequence(n: u32) -> u32 {
    if n == u32::MAX {
        0
    } else {
        (n + 1) as u32
    }
}

impl MseStream {
    /// A stream that has sent nothing.
    pub fn new(clock: &mut MseClock) -> (s: Self)
        requires
            old(clock).floor + 90 <= u64::MAX,
        ensures
            !s.initialized,
            s.sequence == 0,
            s.timeline == (MseTimeline { prev: None, clock: final(clock).floor }),
            final(clock).floor == old(clock).floor + 90,
    {
        MseStream { initialized: false, sequence: 0, timeline: MseTimeline::new(clock) }
    }

    /// Takes in an access unit, and gives the segment it makes.
    pub fn take_unit(&mut self, au: &AccessUnit, now_ns: u64, clock: &mut MseClock) -> (segment:
        Option<Segment>)
        requires
            old(self).timeline.clock + 18_000 <= u64::MAX,
        ensures
            segment is Some <==> goes_out(old(self).initialized, *au),
            segment is None ==> *final(self) == *old(self) && *final(clock) == *old(clock),
            segment matches Some(s) ==> {
                let ticks = frame_ticks(old(self).timeline.prev, now_ns);
                &&& s.init is Some <==> !old(self).initialized
                &&& s.init matches Some((sps, pps)) ==> Some(sps@) == first_unit(au.nalus@, true)
                    && Some(pps@) == first_unit(au.nalus@, false)
                &&& s.sequence == old(self).sequence
                &&& s.timestamp == old(self).timeline.clock + ticks
                &&& s.duration == ticks
                &&& *final(self) == (MseStream {
                    initialized: true,
                    sequence: next_sequence(old(self).sequence),
                    timeline: MseTimeline { prev: Some(now_ns), clock: s.timestamp },
                })
                &&& final(clock).floor == (if s.timestamp > old(clock).floor {
                    s.timestamp
                } else {
                    old(clock).floor
                })
            },
    {
        let mut init: Option<(Vec<u8>, Vec<u8>)> = None;
        if !self.initialized {
            if !au.is_key_frame {
                return None;
            }
            match extract_sps_pps(au) {
                (Some(sps), Some(pps)) => {
                    init = Some((sps, pps));
                    self.initialized = true;
                },
                _ => {
                    return None;
                },
            }
        }
        let (timestamp, duration) = self.timeline.next(now_ns, clock);
        let sequence: u32 = self.sequence;
        self.sequence = if sequence == u32::MAX {
            0
        } else {
            sequence + 1
        };
        Some(Segment { init, sequence, timestamp, duration })
    }
}

/// Why a stream cannot be had: a status and a text.
pub type Refusal = (u16, &'static str);

/// Whether a refusal is this one.
pub open spec fn is_refusal(r: Option<Refusal>, status: u16, text: Seq<char>) -> bool {
    r matches Some((s, t)) && s == status && t@ == text
}

/// Tests whether the main stream can be had: there is one camera, and its
/// stream may not be running.
pub fn check_stream(id: &str, running: bool) -> (refusal: Option<Refusal>)
    ensures
        refusal is None <==> id@ == "0"@ && running,
        id@ != "0"@ ==> is_refusal(refusal, 404, "no such camera"@),
        id@ == "0"@ && !running ==> is_refusal(refusal, 503, "streaming not available"@),
{
    if !same_text(id, "0") {
        return Some((404, "no such camera"));
    }
    if !running {
        return Some((503, "streaming not available"));
    }
    None
}

/// Tests whether the substream can be had.
pub fn check_sub_stream(id: &str, running: bool) -> (refusal: Option<Refusal>)
    ensures
        refusal is None <==> id@ == "0"@ && running,
        id@ != "0"@ ==> is_refusal(refusal, 404, "no such camera"@),
        id@ == "0"@ && !running ==> is_refusal(refusal, 404, "substream not enabled"@),
{
    if !same_text(id, "0") {
        return Some((404, "no such camera"));
    }
    if !running {
        return Some((404, "substream not enabled"));
    }
    None
}

/// The duration of a frame is the time since the one before, counted in ticks of
/// a 90 kHz clock and rounded down to whole microseconds and ticks; it is held
/// between a millisecond and a fifth of a second. The first frame gets a
/// fifteenth of a second.
pub proof fn durations_are_the_time_gone_by(prev: u64, now_ns: u64)
    ensures
        frame_ticks(None, now_ns) * 15 == 90_000,
        now_ns < prev + 1_000_000 ==> frame_ticks(Some(prev), now_ns) == 90,
        now_ns >= prev + 200_000_000 ==> frame_ticks(Some(prev), now_ns) == 18_000,
        prev + 1_000_000 <= now_ns < prev + 200_000_000 ==> {
            let d = now_ns - prev;
            let t = frame_ticks(Some(prev), now_ns);
            t * 100_000 <= d * 9 < t * 100_000 + 109_000
        },
{
    if now_ns >= prev {
        let d = now_ns - prev;
        let us = d / 1000;
        assert(us * 1000 <= d < us * 1000 + 1000);
        let ticks = us * 90 / 1000;
        assert(ticks * 1000 <= us * 90 < ticks * 1000 + 1000);
    }
}

/// Frames count as lost where the count of drops has moved, and where some were
/// skipped in front of one that is no key frame; otherwise not.
pub proof fn losses_are_noticed(g: RealignGate, key: bool, skipped: usize, dropped: u64)
    ensures
        dropped != g.seen_drops ==> is_loss(g, key, skipped, dropped),
        skipped >= 1 ==> is_loss(g, false, skipped, dropped),
        !is_loss(g, key, 0, g.seen_drops),
        !is_loss(g, true, skipped, g.seen_drops),
{
}

/// After a key frame none is needed, and none is needed either after a frame
/// that follows it without loss.
pub proof fn key_frames_let_others_pass(
    g: RealignGate,
    frames: Seq<GateInput>,
    key: GateInput,
    next: GateInput,
)
    requires
        key.0,
        next.1 == 0,
        next.2 == key.2,
    ensures
        !gate_after(g, frames.push(key)).need_key,
        !gate_after(g, frames.push(key).push(next)).need_key,
{
    assert(frames.push(key).drop_last() =~= frames);
    assert(frames.push(key).push(next).drop_last() =~= frames.push(key));
}

/// The first unit of a kind in an access unit is the one that is taken.
pub proof fn the_first_set_is_taken(nalus: Seq<Nalu>, i: int)
    requires
        0 <= i <= nalus.len(),
    ensures
        i < nalus.len() && nalus[i].is_sps && (forall|j: int|
            0 <= j < i ==> !(#[trigger] nalus[j]).is_sps) ==> first_unit(nalus, true) == Some(
            nalus[i].data@,
        ),
        i < nalus.len() && nalus[i].is_pps && (forall|j: int|
            0 <= j < i ==> !(#[trigger] nalus[j]).is_pps) ==> first_unit(nalus, false) == Some(
            nalus[i].data@,
        ),
        (forall|j: int| 0 <= j < nalus.len() ==> !(#[trigger] nalus[j]).is_sps) ==> first_unit(
            nalus,
            true,
        ) is None,
        (forall|j: int| 0 <= j < nalus.len() ==> !(#[trigger] nalus[j]).is_pps) ==> first_unit(
            nalus,
            false,
        ) is None,
    decreases nalus.len(),
{
    if nalus.len() > 0 {
        let tail = nalus.skip(1);
        assert forall|j: int| 0 <= j < tail.len() implies #[trigger] tail[j] == nalus[j + 1] by {}
        the_first_set_is_taken(
            tail,
            if i > 0 {
                i - 1
            } else {
                0
            },
        );
        if i > 0 && i < nalus.len() {
            assert(tail[i - 1] == nalus[i]);
        }
        assert(nalus[0] == nalus[0]);
    }
}

/// A stream starts with a key frame that brings both parameter sets, and then
/// everything goes out; segments are numbered on.
pub proof fn streams_start_with_a_described_key_frame(au: AccessUnit, n: u32)
    ensures
        goes_out(true, au),
        goes_out(false, au) ==> au.is_key_frame && first_unit(au.nalus@, true) is Some
            && first_unit(au.nalus@, false) is Some,
        au.is_key_frame && first_unit(au.nalus@, true) is Some && first_unit(au.nalus@, false)
            is Some ==> goes_out(false, au),
        n < u32::MAX ==> next_sequence(n) == n + 1,
        next_sequence(u32::MAX) == 0,
{
}

} // verus!
