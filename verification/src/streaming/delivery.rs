//! Delivery of access units to a client: which are sent, how, and what
//! follows from a write that fails or takes too long.

use vstd::prelude::*;
use vstd::slice::slice_subrange;
use vstd::slice::slice_to_vec;
use crate::h264::AccessUnit;
use super::request::StreamMount;
use super::rtp::{be16, contents, push_bytes, rtp_frame, rtp_header};
use super::rtsp::{ConnState, Connection};
use super::session::{
    access_unit_to_frames, au_frames, params_after, picture_payloads, sent_units, session_after,
    wrap16, Inner, ParamSets, Session,
};

verus! {

/// Key frames in a row that may stall before the connection is given up.
pub const MAX_STALLS: u32 = 5;

/// Bytes to write to a client, as one piece.
pub struct WriteJob {
    pub bytes: Vec<u8>,
    /// Milliseconds after which the write is given up.
    pub timeout_ms: u64,
    /// The session's sequence number before these bytes.
    pub seq_before: u16,
    pub is_key_frame: bool,
}

/// What to do about an access unit.
pub enum Delivery {
    /// The session is gone: stop delivering.
    Unsubscribe,
    /// Nothing is sent.
    Skip,
    /// The session's clock has run out.
    Exhausted,
    /// Send these packets as datagrams.
    Datagrams(Vec<Vec<u8>>),
    /// Write these bytes.
    Write(WriteJob),
}

/// The kinds of delivery.
pub enum DeliveryKind {
    Unsubscribe,
    Wait,
    Exhausted,
    Datagrams,
    Advance,
    Write,
}

/// What is to be done about an access unit: nothing before the first key
/// frame, and on a connection where a frame was dropped nothing but a key
/// frame, though the numbering goes on.
pub open spec fn delivery_kind(c: ConnState, session: Option<Session>, key: bool) -> DeliveryKind {
    match session {
        None => DeliveryKind::Unsubscribe,
        Some(s) => if !c.sent_keyframe && !key {
            DeliveryKind::Wait
        } else if s.last_ts + 3000 > u32::MAX {
            DeliveryKind::Exhausted
        } else if s.is_udp {
            DeliveryKind::Datagrams
        } else if !key && c.pframe_dropped {
            DeliveryKind::Advance
        } else {
            DeliveryKind::Write
        },
    }
}

/// The session of a connection.
pub open spec fn session_of(c: ConnState, sessions: Map<Seq<char>, Session>) -> Option<Session> {
    let sid = match c.session_id {
        Some(id) => id,
        None => Seq::empty(),
    };
    if sessions.dom().contains(sid) {
        Some(sessions[sid])
    } else {
        None
    }
}

/// The key of the session of a connection.
pub open spec fn session_key_of(c: ConnState) -> Seq<char> {
    match c.session_id {
        Some(id) => id,
        None => Seq::empty(),
    }
}

/// Frames one after another.
pub open spec fn joined_frames(frames: Seq<Seq<u8>>) -> Seq<u8>
    decreases frames.len(),
{
    if frames.len() == 0 {
        seq![]
    } else {
        joined_frames(frames.drop_last()) + frames.last()
    }
}

/// Frames without the four bytes that interleave them.
pub open spec fn bare_packets(frames: Seq<Seq<u8>>) -> Seq<Seq<u8>> {
    frames.map_values(|f: Seq<u8>| f.skip(4))
}

fn join_frames(frames: &Vec<Vec<u8>>) -> (bytes: Vec<u8>)
    ensures
        bytes@ == joined_frames(contents(frames@)),
{
    let mut bytes: Vec<u8> = Vec::new();
    let ghost all = contents(frames@);
    let mut i: usize = 0;
    proof {
        assert(bytes@ =~= joined_frames(all.take(0)));
    }
    while i < frames.len()
        invariant
            i <= frames.len(),
            all == contents(frames@),
            bytes@ == joined_frames(all.take(i as int)),
        decreases frames.len() - i,
    {
        proof {
            assert(all.take(i + 1).drop_last() =~= all.take(i as int));
            assert(all.take(i + 1).last() == frames@[i as int]@);
        }
        push_bytes(&mut bytes, frames[i].as_slice());
        i = i + 1;
    }
    proof {
        assert(all.take(all.len() as int) =~= all);
    }
    bytes
}

fn strip_frames(frames: &Vec<Vec<u8>>) -> (packets: Vec<Vec<u8>>)
    requires
        forall|i: int| 0 <= i < frames@.len() ==> (#[trigger] frames@[i])@.len() >= 4,
    ensures
        contents(packets@) == bare_packets(contents(frames@)),
{
    let mut packets: Vec<Vec<u8>> = Vec::new();
    let ghost want = bare_packets(contents(frames@));
    let mut i: usize = 0;
    proof {
        assert(contents(packets@) =~= want.take(0));
    }
    while i < frames.len()
        invariant
            i <= frames.len(),
            want == bare_packets(contents(frames@)),
            want.len() == frames@.len(),
            forall|k: int| 0 <= k < frames@.len() ==> (#[trigger] frames@[k])@.len() >= 4,
            contents(packets@) == want.take(i as int),
        decreases frames.len() - i,
    {
        let frame = frames[i].as_slice();
        assert(frames@[i as int]@.len() >= 4);
        let bare = slice_to_vec(slice_subrange(frame, 4, frame.len()));
        let ghost before = packets@;
        proof {
            assert(bare@ =~= frames@[i as int]@.skip(4));
            assert(want[i as int] == bare@);
            assert(want.take(i + 1) =~= want.take(i as int).push(bare@));
        }
        packets.push(bare);
        proof {
            assert(contents(packets@) =~= contents(before).push(bare@));
        }
        i = i + 1;
    }
    proof {
        assert(want.take(want.len() as int) =~= want);
    }
    packets
}

/// A connection once an access unit got past the wait for a key frame.
pub open spec fn after_unit(c: ConnState, key: bool) -> ConnState {
    ConnState { sent_keyframe: c.sent_keyframe || key, ..c }
}

/// Turns an access unit into the frames of a session that is there, and moves
/// the session on. Gives its sequence number before that too.
fn advance_session(au: &AccessUnit, computed: u32, sid: String, inner: &mut Inner) -> (r: (
    Vec<Vec<u8>>,
    u16,
))
    requires
        old(inner).sessions@.dom().contains(sid@),
        old(inner).sessions@[sid@].last_ts + 3000 <= u32::MAX,
    ensures
        ({
            let s = old(inner).sessions@[sid@];
            let p = old(inner).params(s.mount);
            &&& contents(r.0@) == au_frames(*au, s, p, computed)
            &&& forall|i: int| 0 <= i < r.0@.len() ==> (#[trigger] r.0@[i])@.len() >= 4
            &&& r.1 == s.seq
            &&& final(inner).sessions@ == old(inner).sessions@.insert(
                sid@,
                session_after(*au, s, p, computed),
            )
            &&& forall|m: StreamMount| #[trigger]
                final(inner).params(m) == (if m == s.mount {
                    params_after(p, au.nalus@)
                } else {
                    old(inner).params(m)
                })
        }),
{
    let ghost before = inner.sessions@;
    let mut session = inner.sessions.remove(sid.as_str()).unwrap();
    let seq_before: u16 = session.seq;
    let ghost s0 = session;
    let ghost p0 = inner.params(s0.mount);
    let ghost i0 = *old(inner);
    let frames = access_unit_to_frames(au, &mut session, inner, computed);
    let ghost mid = *inner;
    inner.sessions.insert(sid, session);
    proof {
        assert(p0 == i0.params(s0.mount));
        assert forall|m: StreamMount| #[trigger] inner.params(m) == (if m == s0.mount {
            params_after(p0, au.nalus@)
        } else {
            i0.params(m)
        }) by {
            assert(inner.params(m) == mid.params(m));
        }
        assert(inner.sessions@ =~= before.insert(sid@, session_after(*au, s0, p0, computed)));
        assert forall|i: int| 0 <= i < frames@.len() implies (#[trigger] frames@[i])@.len()
            >= 4 by {
            assert(contents(frames@)[i] == frames@[i]@);
            lemma_frame_starts(*au, s0, p0, computed, i);
        }
    }
    (frames, seq_before)
}

/// Decides what to do about an access unit. `computed` is where the session's
/// 90 kHz clock stands.
pub fn deliver(
    au: &AccessUnit,
    computed: u32,
    conn: &mut Connection,
    inner: &mut Inner,
) -> (delivery: Delivery)
    ensures
        ({
            let c = old(conn)@;
            let found = session_of(c, old(inner).sessions@);
            let s = found->0;
            let p = old(inner).params(s.mount);
            let frames = au_frames(*au, s, p, computed);
            let kind = delivery_kind(c, found, au.is_key_frame);
            let sends = kind is Datagrams || kind is Advance || kind is Write;
            &&& kind is Unsubscribe ==> delivery is Unsubscribe
            &&& kind is Wait || kind is Advance ==> delivery is Skip
            &&& kind is Exhausted ==> delivery is Exhausted
            &&& kind is Datagrams ==> delivers_datagrams(delivery, bare_packets(frames))
            &&& kind is Write ==> delivers_bytes(
                delivery,
                joined_frames(frames),
                s.seq,
                au.is_key_frame,
            )
            &&& final(conn)@ == (if kind is Unsubscribe {
                ConnState { bridged: false, ..c }
            } else if sends {
                after_unit(c, au.is_key_frame)
            } else {
                c
            })
            &&& final(inner).sessions@ == (if sends {
                old(inner).sessions@.insert(
                    session_key_of(c),
                    session_after(*au, s, p, computed),
                )
            } else {
                old(inner).sessions@
            })
            &&& forall|m: StreamMount| #[trigger]
                final(inner).params(m) == (if sends && m == s.mount {
                    params_after(p, au.nalus@)
                } else {
                    old(inner).params(m)
                })
        }),
{
    let sid = match &conn.session_id {
        Some(id) => id.clone(),
        None => String::new(),
    };
    proof {
        assert(sid@ =~= session_key_of(conn@));
    }
    let (is_udp, last_ts): (bool, u32) = match inner.sessions.get(sid.as_str()) {
        None => {
            conn.bridged = false;
            return Delivery::Unsubscribe;
        },
        Some(s) => (s.is_udp, s.last_ts),
    };
    if !conn.sent_keyframe && !au.is_key_frame {
        return Delivery::Skip;
    }
    if last_ts > 0xffff_ffff - 3000 {
        return Delivery::Exhausted;
    }
    if au.is_key_frame {
        conn.sent_keyframe = true;
    }
    let (frames, seq_before) = advance_session(au, computed, sid, inner);
    if is_udp {
        return Delivery::Datagrams(strip_frames(&frames));
    }
    if !au.is_key_frame && conn.pframe_dropped {
        return Delivery::Skip;
    }
    Delivery::Write(
        WriteJob {
            bytes: join_frames(&frames),
            timeout_ms: if au.is_key_frame {
                5000
            } else {
                2000
            },
            seq_before,
            is_key_frame: au.is_key_frame,
        },
    )
}

/// Whether a delivery is of these datagrams.
pub open spec fn delivers_datagrams(d: Delivery, packets: Seq<Seq<u8>>) -> bool {
    d matches Delivery::Datagrams(p) && contents(p@) == packets
}

/// Whether a delivery is a write of these bytes, for five seconds at most for
/// a key frame and for two otherwise.
pub open spec fn delivers_bytes(
    d: Delivery,
    bytes: Seq<u8>,
    seq_before: u16,
    is_key_frame: bool,
) -> bool {
    d matches Delivery::Write(job) && job.bytes@ == bytes && job.timeout_ms == (if is_key_frame {
        5000u64
    } else {
        2000u64
    }) && job.seq_before == seq_before && job.is_key_frame == is_key_frame
}

proof fn lemma_frame_starts(au: AccessUnit, s: Session, p: ParamSets, computed: u32, k: int)
    requires
        0 <= k < au_frames(au, s, p, computed).len(),
    ensures
        au_frames(au, s, p, computed)[k].len() >= 16,
        au_frames(au, s, p, computed)[k][6] as int * 256 + au_frames(au, s, p, computed)[k][7] as int
            == wrap16(s.seq + k),
{
    let t = picture_payloads(sent_units(au, p));
    let ts = session_after(au, s, p, computed).last_ts;
    let h = rtp_header(t[k].1, wrap16(s.seq + k), ts, s.ssrc);
    let f = au_frames(au, s, p, computed)[k];
    assert(f == rtp_frame(s.rtp_channel, t[k].1, wrap16(s.seq + k), ts, s.ssrc, t[k].0));
    assert(h.len() == 12);
    assert(h[2] == be16(wrap16(s.seq + k) as int)[0]);
    assert(h[3] == be16(wrap16(s.seq + k) as int)[1]);
    assert(f[6] == h[2]);
    assert(f[7] == h[3]);
}

// ---------------------------------------------------------------------------
// After a write
// ---------------------------------------------------------------------------

/// How a write ended.
#[derive(Debug, Clone, Copy, PartialEq, Eq, Structural)]
pub enum WriteOutcome {
    Done,
    Failed,
    TimedOut,
}

/// Whether the connection ends after a write: when it failed, and when as many
/// key frames in a row as may stall have.
pub open spec fn closes(c: ConnState, outcome: WriteOutcome, key: bool) -> bool {
    outcome is Failed || (outcome is TimedOut && key && c.stall_count + 1 >= MAX_STALLS)
}

/// The sequence number after a write: the one after the last packet, or the
/// one before the first where the write did not get through.
pub open spec fn seq_after(outcome: WriteOutcome, seq_behind: u16, seq_before: u16) -> u16 {
    if outcome is Done {
        seq_behind
    } else {
        seq_before
    }
}

/// A connection after a write that does not end it.
pub open spec fn after_write(c: ConnState, outcome: WriteOutcome, key: bool) -> ConnState {
    ConnState {
        stall_count: match outcome {
            WriteOutcome::Done => 0,
            WriteOutcome::TimedOut => if key {
                (c.stall_count + 1) as u32
            } else {
                c.stall_count
            },
            WriteOutcome::Failed => c.stall_count,
        },
        pframe_dropped: match outcome {
            WriteOutcome::Done => c.pframe_dropped && !key,
            WriteOutcome::TimedOut => c.pframe_dropped || !key,
            WriteOutcome::Failed => c.pframe_dropped,
        },
        ..c
    }
}

/// Takes in how a write ended, and tells whether the connection ends. If not,
/// the numbering of the session goes on after what was written, and goes back
/// to where it was where the write did not get through.
pub fn finish_write(
    job: &WriteJob,
    outcome: WriteOutcome,
    conn: &mut Connection,
    inner: &mut Inner,
) -> (close: bool)
    ensures
        close == closes(old(conn)@, outcome, job.is_key_frame),
        final(conn)@ == (if close {
            old(conn)@
        } else {
            after_write(old(conn)@, outcome, job.is_key_frame)
        }),
        final(inner).sessions@ == (match session_of(old(conn)@, old(inner).sessions@) {
            Some(s) if !close => old(inner).sessions@.insert(
                session_key_of(old(conn)@),
                Session { seq: seq_after(outcome, s.seq, job.seq_before), ..s },
            ),
            _ => old(inner).sessions@,
        }),
        forall|m: StreamMount| #[trigger] final(inner).params(m) == old(inner).params(m),
{
    match outcome {
        WriteOutcome::Failed => {
            return true;
        },
        WriteOutcome::TimedOut => {
            if job.is_key_frame {
                if conn.stall_count >= 4 {
                    return true;
                }
                conn.stall_count = conn.stall_count + 1;
            } else {
                conn.pframe_dropped = true;
            }
        },
        WriteOutcome::Done => {
            conn.stall_count = 0;
            if job.is_key_frame {
                conn.pframe_dropped = false;
            }
        },
    }
    let ghost before = inner.sessions@;
    let sid = match &conn.session_id {
        Some(id) => id.clone(),
        None => String::new(),
    };
    proof {
        assert(sid@ =~= session_key_of(old(conn)@));
    }
    match inner.sessions.remove(sid.as_str()) {
        Some(session) => {
            let seq: u16 = match outcome {
                WriteOutcome::Done => session.seq,
                _ => job.seq_before,
            };
            inner.sessions.insert(sid, Session { seq, ..session });
            proof {
                assert(inner.sessions@ =~= before.insert(
                    session_key_of(old(conn)@),
                    Session { seq, ..session },
                ));
            }
        },
        None => {
            proof {
                assert(inner.sessions@ =~= before);
            }
        },
    }
    false
}

/// A session once an access unit has been taken up and its write has ended,
/// without ending the connection.
pub open spec fn session_written(
    au: AccessUnit,
    s: Session,
    p: ParamSets,
    computed: u32,
    outcome: WriteOutcome,
) -> Session {
    let after = session_after(au, s, p, computed);
    Session { seq: seq_after(outcome, after.seq, s.seq), ..after }
}

/// The sequence number in an interleaved frame.
pub open spec fn frame_number(frame: Seq<u8>) -> int {
    frame[6] as int * 256 + frame[7] as int
}

/// Of access units that are written one after the other, no packet number is
/// skipped and none is repeated: the packets of the second unit are numbered
/// on from the last of the first where that one went out, and take its numbers
/// where it did not. Units that a connection passes over after a dropped frame
/// take their numbers without being written.
pub proof fn numbers_are_neither_skipped_nor_repeated(
    first: AccessUnit,
    second: AccessUnit,
    s: Session,
    p: ParamSets,
    q: ParamSets,
    computed: u32,
    later: u32,
    outcome: WriteOutcome,
    k: int,
)
    ensures
        ({
            let n = au_frames(first, s, p, computed).len();
            let next = session_written(first, s, p, computed, outcome);
            let taken = if outcome is Done {
                n
            } else {
                0
            };
            &&& next.seq == wrap16(s.seq + taken)
            &&& 0 <= k < n ==> frame_number(au_frames(first, s, p, computed)[k]) == wrap16(
                s.seq + k,
            )
            &&& 0 <= k < au_frames(second, next, q, later).len() ==> frame_number(
                au_frames(second, next, q, later)[k],
            ) == wrap16(s.seq + taken + k)
        }),
{
    let next = session_written(first, s, p, computed, outcome);
    if 0 <= k < au_frames(first, s, p, computed).len() {
        lemma_frame_starts(first, s, p, computed, k);
    }
    if 0 <= k < au_frames(second, next, q, later).len() {
        lemma_frame_starts(second, next, q, later, k);
    }
}

/// Until a key frame comes, a fresh connection is sent nothing, whatever
/// access units arrive.
pub proof fn nothing_before_the_first_key_frame(c: ConnState, session: Option<Session>)
    requires
        !c.sent_keyframe,
    ensures
        delivery_kind(c, session, false) is Unsubscribe || delivery_kind(c, session, false) is Wait,
{
}

/// After a dropped frame a TCP client is written nothing but key frames, until
/// one of them has gone out.
pub proof fn dropped_frames_need_a_key_frame(c: ConnState, s: Session, key: bool)
    requires
        !s.is_udp,
        c.pframe_dropped,
    ensures
        delivery_kind(c, Some(s), false) !is Write,
        after_write(c, WriteOutcome::TimedOut, key).pframe_dropped,
        after_write(c, WriteOutcome::Done, false).pframe_dropped,
        !after_write(c, WriteOutcome::Done, true).pframe_dropped,
{
}

/// A playing client gets every access unit once it has had a key frame, in the
/// way that it asked for, as long as its session is there, its clock has not run
/// out and nothing was dropped.
pub proof fn playing_clients_get_every_unit(c: ConnState, s: Session, key: bool)
    requires
        c.sent_keyframe || key,
        s.last_ts <= u32::MAX - 3000,
    ensures
        s.is_udp ==> delivery_kind(c, Some(s), key) is Datagrams,
        !s.is_udp && (key || !c.pframe_dropped) ==> delivery_kind(c, Some(s), key) is Write,
        !s.is_udp && !key && c.pframe_dropped ==> delivery_kind(c, Some(s), key) is Advance,
        delivery_kind(c, None, key) is Unsubscribe,
        after_unit(c, key).sent_keyframe,
        after_unit(c, key) == (ConnState { sent_keyframe: true, ..c }),
{
}

/// A client whose clock has run out is told so.
pub proof fn clocks_run_out(c: ConnState, s: Session, key: bool)
    requires
        c.sent_keyframe || key,
        s.last_ts > u32::MAX - 3000,
    ensures
        delivery_kind(c, Some(s), key) is Exhausted,
{
}

/// What is written of some frames and then of others is what is written of them
/// all, and of one frame the frame.
pub proof fn frames_are_written_in_order(a: Seq<Seq<u8>>, b: Seq<Seq<u8>>)
    ensures
        joined_frames(a + b) == joined_frames(a) + joined_frames(b),
        a.len() == 1 ==> joined_frames(a) == a[0],
        joined_frames(Seq::empty()) == Seq::<u8>::empty(),
    decreases b.len(),
{
    if b.len() > 0 {
        frames_are_written_in_order(a, b.drop_last());
        assert((a + b).drop_last() =~= a + b.drop_last());
        assert(joined_frames(a + b) =~= joined_frames(a) + joined_frames(b));
    } else {
        assert(a + b =~= a);
        assert(joined_frames(a + b) =~= joined_frames(a) + joined_frames(b));
    }
    if a.len() == 1 {
        assert(joined_frames(a.drop_last()) =~= Seq::<u8>::empty());
        assert(joined_frames(a) =~= a[0]);
    }
}

/// A datagram is its frame without the four bytes in front, and every frame has
/// one.
pub proof fn datagrams_are_the_packets(frames: Seq<Seq<u8>>, k: int, i: int)
    requires
        0 <= k < frames.len(),
        frames[k].len() >= 4,
    ensures
        bare_packets(frames).len() == frames.len(),
        bare_packets(frames)[k].len() + 4 == frames[k].len(),
        0 <= i < bare_packets(frames)[k].len() ==> bare_packets(frames)[k][i] == frames[k][i + 4],
{
}

/// A write may take five seconds for a key frame and two for another.
pub proof fn writes_have_their_time(
    d: Delivery,
    bytes: Seq<u8>,
    seq_before: u16,
    is_key_frame: bool,
)
    requires
        delivers_bytes(d, bytes, seq_before, is_key_frame),
    ensures
        d is Write,
        d->Write_0.bytes@ == bytes,
        is_key_frame ==> d->Write_0.timeout_ms == 5_000,
        !is_key_frame ==> d->Write_0.timeout_ms == 2_000,
        d->Write_0.seq_before == seq_before,
        d->Write_0.is_key_frame == is_key_frame,
{
}

/// A client that misses five key frames in a row is let go with the fifth; one
/// that gets a frame starts anew. Other frames that it misses do not count, and
/// a write that fails ends the connection at once.
pub proof fn stalled_clients_are_let_go(c: ConnState, missed: u32, key: bool)
    requires
        c.stall_count == missed,
        missed < 5,
    ensures
        closes(c, WriteOutcome::TimedOut, true) <==> missed + 1 == 5,
        after_write(c, WriteOutcome::TimedOut, true).stall_count == missed + 1,
        !closes(c, WriteOutcome::TimedOut, false),
        after_write(c, WriteOutcome::TimedOut, false).stall_count == missed,
        !closes(c, WriteOutcome::Done, key),
        after_write(c, WriteOutcome::Done, key).stall_count == 0,
        closes(c, WriteOutcome::Failed, key),
{
}

/// A frame that did not get through is remembered until a key frame has; how a
/// write ends changes nothing else of the connection but the count.
pub proof fn missed_frames_are_remembered(c: ConnState, outcome: WriteOutcome, key: bool)
    ensures
        after_write(c, WriteOutcome::TimedOut, false).pframe_dropped,
        after_write(c, WriteOutcome::TimedOut, true).pframe_dropped == c.pframe_dropped,
        after_write(c, WriteOutcome::Done, false).pframe_dropped == c.pframe_dropped,
        !after_write(c, WriteOutcome::Done, true).pframe_dropped,
        ({
            let a = after_write(c, outcome, key);
            a == ConnState { stall_count: a.stall_count, pframe_dropped: a.pframe_dropped, ..c }
        }),
{
}

/// The session of a connection is the one that goes by its identifier.
pub proof fn sessions_go_by_their_identifier(
    c: ConnState,
    sessions: Map<Seq<char>, Session>,
    id: Seq<char>,
)
    requires
        c.session_id == Some(id),
    ensures
        session_key_of(c) == id,
        sessions.dom().contains(id) ==> session_of(c, sessions) == Some(sessions[id]),
        !sessions.dom().contains(id) ==> session_of(c, sessions) is None,
{
}

} // verus!
