//! The substream: frames of the main capture, copied on their way to the main
//! encoder, thinned out and downscaled for a second one.

use std::sync::mpsc::{Receiver, SyncSender};

use vstd::arithmetic::div_mod::{
    lemma_fundamental_div_mod, lemma_mod_bound, lemma_mod_multiples_basic,
    lemma_mod_multiples_vanish, lemma_small_mod,
};
use vstd::prelude::*;
use vstd::slice::slice_to_vec;
use super::downscale::{downscale_yu420, downscaled};
use super::source::{CameraError, FrameProducer};

verus! {

/// Frames that may wait for the sub encoder. When that many do, further ones
/// are dropped.
pub const TAP_CAPACITY: usize = 2;

/// `std::sync::mpsc::SyncSender`, the sending end of a bounded channel.
#[verifier::external_type_specification]
#[verifier::external_body]
#[verifier::reject_recursive_types(T)]
pub struct ExSyncSender<T>(SyncSender<T>);

/// `std::sync::mpsc::Receiver`, the receiving end of a channel.
#[verifier::external_type_specification]
#[verifier::external_body]
#[verifier::reject_recursive_types(T)]
pub struct ExReceiver<T>(Receiver<T>);

/// `SyncSender::try_send`: hands a frame over without waiting, unless the
/// channel is full or nobody receives. Whether it does depends on the other
/// end, and nothing is stated of it.
#[verifier::external_body]
fn offer(tap: &SyncSender<Vec<u8>>, frame: Vec<u8>) -> (taken: bool) {
    tap.try_send(frame).is_ok()
}

/// `Receiver::recv`: waits for a frame; none where the sender is gone. Which
/// frame comes is up to the other end, and nothing is stated of it.
#[verifier::external_body]
fn receive(rx: &Receiver<Vec<u8>>) -> (frame: Option<Vec<u8>>) {
    rx.recv().ok()
}

/// Whether a copy of a frame was offered to a tap. What became of the offer is
/// up to the other end.
pub closed spec fn was_offered(tap: SyncSender<Vec<u8>>, frame: Seq<u8>) -> bool {
    exists|copy: Vec<u8>, taken: bool|
        copy@ == frame && #[trigger] call_ensures(offer, (&tap, copy), taken)
}

/// Whether a channel gave a frame.
pub closed spec fn was_received(rx: Receiver<Vec<u8>>, frame: Seq<u8>) -> bool {
    exists|f: Vec<u8>| f@ == frame && #[trigger] call_ensures(receive, (&rx,), Some(f))
}

/// Whether a channel said that no frame will come.
pub closed spec fn has_ended(rx: Receiver<Vec<u8>>) -> bool {
    call_ensures(receive, (&rx,), None::<Vec<u8>>)
}

/// Forwards the frames of a producer and copies each into a bounded channel,
/// if there is one. A copy that cannot be handed over is dropped: the main
/// stream never waits for the substream.
pub struct TappingFrameProducer<P: FrameProducer> {
    inner: P,
    tap: Option<SyncSender<Vec<u8>>>,
}

impl<P: FrameProducer> TappingFrameProducer<P> {
    /// The producer whose frames are forwarded.
    pub closed spec fn producer(&self) -> P {
        self.inner
    }

    /// The channel that takes the copies.
    pub closed spec fn tap(&self) -> Option<SyncSender<Vec<u8>>> {
        self.tap
    }

    /// Wraps a producer, with a channel for the copies or without.
    pub fn new(producer: P, tap: Option<SyncSender<Vec<u8>>>) -> (t: Self)
        ensures
            t.producer() == producer,
            t.tap() == tap,
    {
        TappingFrameProducer { inner: producer, tap }
    }
}

/// The copy that a producer's answer leaves in the tap: of a frame, where a
/// tap is installed; of an error there is none.
pub fn tapped_copy(answer: &Result<Vec<u8>, CameraError>, installed: bool) -> (copy: Option<
    Vec<u8>,
>)
    ensures
        copy is Some <==> installed && answer is Ok,
        copy matches Some(c) ==> c@ == answer->Ok_0@,
{
    match answer {
        Ok(frame) => if installed {
            Some(slice_to_vec(frame.as_slice()))
        } else {
            None
        },
        Err(_) => None,
    }
}

impl<P: FrameProducer> FrameProducer for TappingFrameProducer<P> {
    /// Asks the wrapped producer for its next frame, offers a copy of it to the
    /// tap, and passes on the producer's answer as it is.
    fn next_yuv_frame(&mut self) -> (answer: Result<Vec<u8>, CameraError>)
        ensures
            final(self).tap() == old(self).tap(),
            exists|inner: &mut P|
                *inner == old(self).producer() && *final(inner) == final(self).producer()
                    && #[trigger] call_ensures(P::next_yuv_frame, (inner,), answer),
            answer is Ok && old(self).tap() is Some ==> was_offered(
                old(self).tap()->0,
                answer->Ok_0@,
            ),
    {
        let answer = self.inner.next_yuv_frame();
        match tapped_copy(&answer, self.tap.is_some()) {
            Some(copy) => match &self.tap {
                Some(tap) => {
                    offer(tap, copy);
                },
                None => {},
            },
            None => {},
        }
        answer
    }

    fn resolution(&self) -> (dims: (u32, u32))
        ensures
            call_ensures(P::resolution, (&self.producer(),), dims),
    {
        self.inner.resolution()
    }

    fn fps(&self) -> (fps: u32)
        ensures
            call_ensures(P::fps, (&self.producer(),), fps),
    {
        self.inner.fps()
    }
}

/// How the substream is made from the main frames.
pub struct SubPlan {
    pub src_w: u32,
    pub src_h: u32,
    pub dst_w: u32,
    pub dst_h: u32,
    /// One frame of this many is kept.
    pub fps_div: u32,
    /// Frames per second that remain.
    pub fps: u32,
    /// Frames seen, as a 32-bit count that wraps.
    pub counter: u32,
}

/// One frame of how many is kept to get from one rate to another.
pub open spec fn divisor(main_fps: u32, sub_fps: u32) -> u32 {
    if sub_fps == 0 || main_fps == 0 || main_fps < sub_fps {
        1
    } else {
        (main_fps / sub_fps) as u32
    }
}

/// A frame counter, one on.
pub open spec fn next_count(counter: u32) -> u32 {
    if counter == u32::MAX {
        0
    } else {
        (counter + 1) as u32
    }
}

/// Whether the frame that makes a count is kept.
pub open spec fn is_kept(counter: u32, fps_div: u32) -> bool {
    fps_div <= 1 || counter as int % fps_div as int == 0
}

/// Receives the frames of a tap and emits some of them, downscaled.
pub struct SubFrameProducer {
    rx: Receiver<Vec<u8>>,
    src_w: u32,
    src_h: u32,
    dst_w: u32,
    dst_h: u32,
    fps_div: u32,
    fps: u32,
    counter: u32,
}

impl View for SubFrameProducer {
    type V = SubPlan;

    closed spec fn view(&self) -> SubPlan {
        SubPlan {
            src_w: self.src_w,
            src_h: self.src_h,
            dst_w: self.dst_w,
            dst_h: self.dst_h,
            fps_div: self.fps_div,
            fps: self.fps,
            counter: self.counter,
        }
    }
}

impl SubFrameProducer {
    /// The channel that the frames come from.
    pub closed spec fn source(&self) -> Receiver<Vec<u8>> {
        self.rx
    }

    /// A producer on the receiving end of a tap. The two rates decide how many
    /// frames are dropped.
    pub fn new(
        rx: Receiver<Vec<u8>>,
        src_w: u32,
        src_h: u32,
        dst_w: u32,
        dst_h: u32,
        main_fps: u32,
        sub_fps: u32,
    ) -> (p: Self)
        ensures
            p.source() == rx,
            p@ == (SubPlan {
                src_w,
                src_h,
                dst_w,
                dst_h,
                fps_div: divisor(main_fps, sub_fps),
                fps: (main_fps / divisor(main_fps, sub_fps)) as u32,
                counter: 0,
            }),
    {
        let fps_div: u32 = if sub_fps == 0 || main_fps == 0 || main_fps < sub_fps {
            1
        } else {
            main_fps / sub_fps
        };
        proof {
            if sub_fps != 0 && main_fps >= sub_fps {
                assert(main_fps / sub_fps >= 1) by (nonlinear_arith)
                    requires
                        0 < sub_fps <= main_fps,
                ;
            }
        }
        SubFrameProducer {
            rx,
            src_w,
            src_h,
            dst_w,
            dst_h,
            fps_div,
            fps: main_fps / fps_div,
            counter: 0,
        }
    }

    /// Takes in one tapped frame and gives what is emitted for it.
    pub fn take_frame(&mut self, frame: &[u8]) -> (out: Option<Vec<u8>>)
        ensures
            final(self).source() == old(self).source(),
            final(self)@ == (SubPlan { counter: next_count(old(self)@.counter), ..old(self)@ }),
            out is Some <==> is_kept(next_count(old(self)@.counter), old(self)@.fps_div),
            out matches Some(o) ==> o@ == downscaled(
                frame@,
                old(self)@.src_w as int,
                old(self)@.src_h as int,
                old(self)@.dst_w as int,
                old(self)@.dst_h as int,
            ),
    {
        self.counter = if self.counter == u32::MAX {
            0
        } else {
            self.counter + 1
        };
        if self.fps_div > 1 && self.counter % self.fps_div != 0 {
            return None;
        }
        Some(downscale_yu420(frame, self.src_w, self.src_h, self.dst_w, self.dst_h))
    }
}

/// Frames until the next one is kept, for a divisor above one.
spec fn frames_to_go(counter: u32, fps_div: u32) -> int {
    fps_div - counter as int % fps_div as int
}

proof fn lemma_comes_closer(counter: u32, fps_div: u32)
    requires
        !is_kept(next_count(counter), fps_div),
    ensures
        0 < frames_to_go(next_count(counter), fps_div) < frames_to_go(counter, fps_div),
{
    let (c, d) = (counter as int, fps_div as int);
    if counter == u32::MAX {
        assert(0int % d == 0) by (nonlinear_arith)
            requires
                d > 0,
        ;
    } else {
        assert((c + 1) % d != 0 ==> (c + 1) % d == c % d + 1) by (nonlinear_arith)
            requires
                d > 1,
                c >= 0,
        ;
    }
}

/// A frame as the plan scales it.
pub open spec fn scaled(frame: Seq<u8>, plan: SubPlan) -> Seq<u8> {
    downscaled(
        frame,
        plan.src_w as int,
        plan.src_h as int,
        plan.dst_w as int,
        plan.dst_h as int,
    )
}

/// Whether `out` is a frame that the channel gave, as the plan scales it.
pub open spec fn is_emitted(out: Seq<u8>, rx: Receiver<Vec<u8>>, plan: SubPlan) -> bool {
    exists|frame: Seq<u8>| was_received(rx, frame) && out == #[trigger] scaled(frame, plan)
}

/// Whether `to` is the first count after `from` whose frame is kept. The count
/// that wraps is one.
pub open spec fn first_kept(from: u32, to: u32, fps_div: u32) -> bool {
    &&& is_kept(to, fps_div)
    &&& to == 0 || to > from
    &&& forall|c: u32| from < c && (to == 0 || c < to) ==> !#[trigger] is_kept(c, fps_div)
}

/// Whether no frame is kept from the count after `from` to `to`.
pub open spec fn none_kept(from: u32, to: u32, fps_div: u32) -> bool {
    from <= to && forall|c: u32| from < c <= to ==> !#[trigger] is_kept(c, fps_div)
}

impl FrameProducer for SubFrameProducer {
    /// Receives frames up to the first whose count is kept, and emits that one,
    /// scaled; fails once the channel has ended.
    fn next_yuv_frame(&mut self) -> (answer: Result<Vec<u8>, CameraError>)
        ensures
            final(self).source() == old(self).source(),
            final(self)@ == (SubPlan { counter: final(self)@.counter, ..old(self)@ }),
            match answer {
                Ok(out) => {
                    &&& first_kept(
                        old(self)@.counter,
                        final(self)@.counter,
                        old(self)@.fps_div,
                    )
                    &&& is_emitted(out@, old(self).source(), old(self)@)
                },
                Err(CameraError::Disconnected(why)) => {
                    &&& none_kept(old(self)@.counter, final(self)@.counter, old(self)@.fps_div)
                    &&& has_ended(old(self).source())
                    &&& why@ == "substream tap closed (main pipeline stopped)"@
                },
                Err(_) => false,
            },
    {
        loop
            invariant
                self.source() == old(self).source(),
                self@ == (SubPlan { counter: self@.counter, ..old(self)@ }),
                none_kept(old(self)@.counter, self@.counter, old(self)@.fps_div),
            decreases frames_to_go(self@.counter, self@.fps_div),
        {
            let frame = match receive(&self.rx) {
                Some(f) => f,
                None => {
                    return Err(
                        CameraError::Disconnected(
                            "substream tap closed (main pipeline stopped)".to_owned(),
                        ),
                    );
                },
            };
            let ghost before = self@.counter;
            proof {
                assert(was_received(self.source(), frame@));
                lemma_zero_is_kept(self@.fps_div);
            }
            match self.take_frame(frame.as_slice()) {
                Some(out) => {
                    proof {
                        assert(out@ == scaled(frame@, old(self)@));
                    }
                    return Ok(out);
                },
                None => {
                    proof {
                        lemma_comes_closer(before, self@.fps_div);
                    }
                },
            }
        }
    }

    fn resolution(&self) -> (dims: (u32, u32))
        ensures
            dims == (self@.dst_w, self@.dst_h),
    {
        (self.dst_w, self.dst_h)
    }

    fn fps(&self) -> (fps: u32)
        ensures
            fps == self@.fps,
    {
        self.fps
    }
}

proof fn lemma_zero_is_kept(fps_div: u32)
    ensures
        is_kept(0, fps_div),
{
    let d = fps_div as int;
    if d > 1 {
        assert(0int % d == 0) by (nonlinear_arith)
            requires
                d > 1,
        ;
    }
}

/// The counts that calls leave are the multiples of the divisor, one after the
/// other: call number `n` leaves `n` times the divisor, as long as that fits
/// the count.
pub proof fn calls_keep_every_nth_frame(counts: Seq<u32>, fps_div: u32, n: int)
    requires
        fps_div > 0,
        0 <= n < counts.len(),
        n * fps_div <= u32::MAX,
        counts[0] == 0,
        forall|i: int|
            0 <= i < counts.len() - 1 ==> first_kept(#[trigger] counts[i], counts[i + 1], fps_div),
    ensures
        counts[n] == n * fps_div,
    decreases n,
{
    if n > 0 {
        let d = fps_div as int;
        assert((n - 1) * d == n * d - d) by (nonlinear_arith);
        assert(0 <= (n - 1) * d) by (nonlinear_arith)
            requires
                n > 0,
                d > 0,
        ;
        calls_keep_every_nth_frame(counts, fps_div, n - 1);
        let (from, to) = (counts[n - 1], counts[n]);
        assert(first_kept(from, to, fps_div));
        let want = (n * d) as u32;
        lemma_mod_multiples_basic(n, d);
        assert(want as int == n * d && want as int == from + d);
        assert(is_kept(want, fps_div));
        assert(!(to == 0 || want < to));
        if to < want {
            // Nothing between two multiples is kept.
            let r = to - from;
            lemma_mod_multiples_vanish(n - 1, r, d);
            lemma_small_mod(r as nat, d as nat);
            assert(to as int == d * (n - 1) + r) by (nonlinear_arith)
                requires
                    to as int == from + r,
                    from as int == (n - 1) * d,
            ;
        }
    } else {
        assert(n * fps_div == 0) by (nonlinear_arith)
            requires
                n == 0,
        ;
    }
}

/// A plan once a number of frames have been taken in.
pub open spec fn counted(plan: SubPlan, n: nat) -> SubPlan
    decreases n,
{
    if n == 0 {
        plan
    } else {
        let before = counted(plan, (n - 1) as nat);
        SubPlan { counter: next_count(before.counter), ..before }
    }
}

proof fn lemma_counted(plan: SubPlan, n: nat)
    requires
        plan.counter == 0,
        n <= u32::MAX,
    ensures
        counted(plan, n).counter == n,
    decreases n,
{
    if n > 0 {
        lemma_counted(plan, (n - 1) as nat);
    }
}

/// The frames that are emitted for some frames of the tap.
pub open spec fn emitted(plan: SubPlan, frames: Seq<Seq<u8>>) -> Seq<Seq<u8>>
    decreases frames.len(),
{
    if frames.len() == 0 {
        seq![]
    } else {
        let before = emitted(plan, frames.drop_last());
        if is_kept(counted(plan, frames.len()).counter, plan.fps_div) {
            before.push(scaled(frames.last(), plan))
        } else {
            before
        }
    }
}

/// Of the frames of a tap, from a fresh count, the first that is emitted is
/// number `fps_div`, the next is number twice that, and so on; nothing else is.
pub proof fn every_nth_frame_is_emitted(plan: SubPlan, frames: Seq<Seq<u8>>)
    requires
        plan.counter == 0,
        plan.fps_div > 0,
        frames.len() <= u32::MAX,
    ensures
        emitted(plan, frames).len() == frames.len() / plan.fps_div as nat,
        forall|n: int|
            #![trigger emitted(plan, frames)[n]]
            0 <= n < emitted(plan, frames).len() ==> emitted(plan, frames)[n] == scaled(
                frames[(n + 1) * plan.fps_div - 1],
                plan,
            ),
    decreases frames.len(),
{
    let d = plan.fps_div as int;
    let m = frames.len() as int;
    if m == 0 {
        assert(0int / d == 0) by (nonlinear_arith)
            requires
                d > 0,
        ;
    } else {
        let rest = frames.drop_last();
        every_nth_frame_is_emitted(plan, rest);
        lemma_counted(plan, frames.len());
        assert(d == 1 ==> m % d == 0) by (nonlinear_arith)
            requires
                d > 0,
        ;
        assert(m % d == 0 ==> m / d == (m - 1) / d + 1 && (m / d) * d == m) by (nonlinear_arith)
            requires
                d > 0,
                m > 0,
        ;
        assert(m % d != 0 ==> m / d == (m - 1) / d) by (nonlinear_arith)
            requires
                d > 0,
                m > 0,
        ;
        let q = (m - 1) / d;
        assert forall|n: int|
            #![trigger emitted(plan, frames)[n]]
            0 <= n < emitted(plan, frames).len() implies emitted(plan, frames)[n] == scaled(
            frames[(n + 1) * d - 1],
            plan,
        ) by {
            if n < q {
                assert(0 < (n + 1) * d <= m - 1) by (nonlinear_arith)
                    requires
                        0 <= n < (m - 1) / d,
                        d > 0,
                        m > 0,
                ;
                assert(emitted(plan, rest)[n] == scaled(rest[(n + 1) * d - 1], plan));
                assert(rest[(n + 1) * d - 1] == frames[(n + 1) * d - 1]);
            }
        }
    }
}

/// Of any `fps_div` frames in a row, as long as the count does not wrap,
/// exactly one is kept: the one whose count the divisor divides.
pub proof fn one_frame_of_each_run_is_kept(start: u32, fps_div: u32)
    requires
        fps_div > 0,
        start + fps_div <= u32::MAX,
    ensures
        exists|i: int|
            #![trigger is_kept((start + i) as u32, fps_div)]
            1 <= i <= fps_div && is_kept((start + i) as u32, fps_div),
        forall|i: int, j: int|
            #![trigger is_kept((start + i) as u32, fps_div), is_kept((start + j) as u32, fps_div)]
            1 <= i <= fps_div && 1 <= j <= fps_div && is_kept((start + i) as u32, fps_div)
                && is_kept((start + j) as u32, fps_div) ==> i == j,
{
    let (c, d) = (start as int, fps_div as int);
    let i = d - c % d;
    lemma_mod_bound(c, d);
    lemma_fundamental_div_mod(c, d);
    lemma_mod_multiples_basic(c / d + 1, d);
    assert(c + i == (c / d + 1) * d) by (nonlinear_arith)
        requires
            c == d * (c / d) + c % d,
            i == d - c % d,
    ;
    assert(is_kept((start + i) as u32, fps_div));
    assert forall|i: int, j: int|
        #![trigger is_kept((start + i) as u32, fps_div), is_kept((start + j) as u32, fps_div)]
        1 <= i <= fps_div && 1 <= j <= fps_div && is_kept((start + i) as u32, fps_div) && is_kept(
            (start + j) as u32,
            fps_div,
        ) implies i == j by {
        if d > 1 {
            let (a, b) = (c + i, c + j);
            assert(a == b) by (nonlinear_arith)
                requires
                    d > 1,
                    a % d == 0,
                    b % d == 0,
                    -d < a - b < d,
            ;
        }
    }
}

/// One frame of so many is kept that the rate which remains is the largest that
/// a divisor gives without getting below the one asked for.
pub proof fn rates_are_divided(main_fps: u32, sub_fps: u32)
    ensures
        0 < sub_fps <= main_fps ==> divisor(main_fps, sub_fps) * sub_fps <= main_fps < (divisor(
            main_fps,
            sub_fps,
        ) + 1) * sub_fps,
        sub_fps == 0 || main_fps < sub_fps ==> divisor(main_fps, sub_fps) == 1,
{
    if 0 < sub_fps <= main_fps {
        let (m, s) = (main_fps as int, sub_fps as int);
        assert((m / s) * s <= m < (m / s + 1) * s) by (nonlinear_arith)
            requires
                0 < s <= m,
        ;
    }
}

} // verus!
