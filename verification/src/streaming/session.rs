//! Sessions, the parameter sets of each mount, and the RTP frames of an access
//! unit.

use vstd::prelude::*;
use vstd::slice::slice_to_vec;
use crate::h264::{AccessUnit, Nalu};
use crate::text_map::TextMap;
use super::request::StreamMount;
use super::rtp::{
    build_rtp_packet, contents, frames_are_read_back, is_unit, long_at, packetize_nalu, payloads_of,
    received_units, rtp_frame, units_are_received, units_that_fit_go_as_they_are, word_at, RTP_MTU,
};

verus! {

/// One client's stream.
#[derive(Debug)]
pub struct Session {
    pub id: String,
    pub rtp_channel: u8,
    pub rtcp_channel: u8,
    pub is_playing: bool,
    /// The mount that the SETUP request named; it stays for the session.
    pub mount: StreamMount,
    pub ssrc: u32,
    /// Sequence number of the next packet.
    pub seq: u16,
    /// Timestamp of the last access unit, in ticks of a 90 kHz clock.
    pub last_ts: u32,
    pub is_udp: bool,
    /// The client's RTP port, for UDP.
    pub client_port: Option<u16>,
}

/// What the connections share: the sessions, and the parameter sets last seen
/// on each mount.
pub struct Inner {
    pub sessions: TextMap<Session>,
    pub sps: Option<Vec<u8>>,
    pub pps: Option<Vec<u8>>,
    pub sub_sps: Option<Vec<u8>>,
    pub sub_pps: Option<Vec<u8>>,
}

/// The bytes of an optional vector.
pub open spec fn bytes_of(v: Option<Vec<u8>>) -> Option<Seq<u8>> {
    match v {
        Some(b) => Some(b@),
        None => None,
    }
}

/// The two parameter sets of a mount.
pub struct ParamSets {
    pub sps: Option<Seq<u8>>,
    pub pps: Option<Seq<u8>>,
}

impl Inner {
    /// No session, and nothing seen yet.
    pub fn new() -> (inner: Self)
        ensures
            inner.sessions@ == Map::<Seq<char>, Session>::empty(),
            forall|m: StreamMount| #[trigger]
                inner.params(m) == (ParamSets { sps: None, pps: None }),
    {
        Inner { sessions: TextMap::new(), sps: None, pps: None, sub_sps: None, sub_pps: None }
    }

    /// The parameter sets of a mount.
    pub open spec fn params(&self, mount: StreamMount) -> ParamSets {
        match mount {
            StreamMount::Main => ParamSets { sps: bytes_of(self.sps), pps: bytes_of(self.pps) },
            StreamMount::Sub => ParamSets {
                sps: bytes_of(self.sub_sps),
                pps: bytes_of(self.sub_pps),
            },
        }
    }

    /// The sequence parameter set of a mount.
    pub fn sps_for(&self, mount: StreamMount) -> (sps: Option<&Vec<u8>>)
        ensures
            (match sps {
                Some(b) => Some(b@),
                None => None,
            }) == self.params(mount).sps,
    {
        match mount {
            StreamMount::Main => match &self.sps {
                Some(b) => Some(b),
                None => None,
            },
            StreamMount::Sub => match &self.sub_sps {
                Some(b) => Some(b),
                None => None,
            },
        }
    }

    /// The picture parameter set of a mount.
    pub fn pps_for(&self, mount: StreamMount) -> (pps: Option<&Vec<u8>>)
        ensures
            (match pps {
                Some(b) => Some(b@),
                None => None,
            }) == self.params(mount).pps,
    {
        match mount {
            StreamMount::Main => match &self.pps {
                Some(b) => Some(b),
                None => None,
            },
            StreamMount::Sub => match &self.sub_pps {
                Some(b) => Some(b),
                None => None,
            },
        }
    }

    /// Keeps a sequence parameter set for a mount.
    pub fn store_sps(&mut self, mount: StreamMount, data: Vec<u8>)
        ensures
            final(self).sessions == old(self).sessions,
            final(self).params(mount) == (ParamSets {
                sps: Some(data@),
                ..old(self).params(mount)
            }),
            forall|m: StreamMount|
                m != mount ==> #[trigger] final(self).params(m) == old(self).params(m),
    {
        match mount {
            StreamMount::Main => {
                self.sps = Some(data);
            },
            StreamMount::Sub => {
                self.sub_sps = Some(data);
            },
        }
    }

    /// Keeps a picture parameter set for a mount.
    pub fn store_pps(&mut self, mount: StreamMount, data: Vec<u8>)
        ensures
            final(self).sessions == old(self).sessions,
            final(self).params(mount) == (ParamSets {
                pps: Some(data@),
                ..old(self).params(mount)
            }),
            forall|m: StreamMount|
                m != mount ==> #[trigger] final(self).params(m) == old(self).params(m),
    {
        match mount {
            StreamMount::Main => {
                self.pps = Some(data);
            },
            StreamMount::Sub => {
                self.sub_pps = Some(data);
            },
        }
    }
}

// ---------------------------------------------------------------------------
// What an access unit sends
// ---------------------------------------------------------------------------

/// Whether some unit is a sequence parameter set.
pub open spec fn has_sps(nalus: Seq<Nalu>) -> bool {
    exists|i: int| 0 <= i < nalus.len() && (#[trigger] nalus[i]).is_sps
}

/// Whether some unit is a picture parameter set.
pub open spec fn has_pps(nalus: Seq<Nalu>) -> bool {
    exists|i: int| 0 <= i < nalus.len() && (#[trigger] nalus[i]).is_pps
}

/// The parameter sets of a mount after some units went through it: the last
/// of each kind.
pub open spec fn params_after(p: ParamSets, nalus: Seq<Nalu>) -> ParamSets
    decreases nalus.len(),
{
    if nalus.len() == 0 {
        p
    } else {
        let q = params_after(p, nalus.drop_last());
        let n = nalus.last();
        ParamSets {
            sps: if n.is_sps { Some(n.data@) } else { q.sps },
            pps: if n.is_pps { Some(n.data@) } else { q.pps },
        }
    }
}

/// The known parameter sets that a key frame lacks, in front of it.
pub open spec fn injected(is_key_frame: bool, nalus: Seq<Nalu>, p: ParamSets) -> Seq<Seq<u8>> {
    (if is_key_frame && !has_sps(nalus) && p.sps is Some {
        seq![p.sps->0]
    } else {
        seq![]
    }) + (if is_key_frame && !has_pps(nalus) && p.pps is Some {
        seq![p.pps->0]
    } else {
        seq![]
    })
}

/// The contents of some units.
pub open spec fn unit_data(nalus: Seq<Nalu>) -> Seq<Seq<u8>> {
    nalus.map_values(|n: Nalu| n.data@)
}

/// The payloads of some units, each with no mark.
pub open spec fn unmarked(units: Seq<Seq<u8>>) -> Seq<(Seq<u8>, bool)>
    decreases units.len(),
{
    if units.len() == 0 {
        seq![]
    } else {
        unmarked(units.drop_last()) + marked(units.last(), false)
    }
}

/// The payloads of one unit, the last of them marked or not.
pub open spec fn marked(unit: Seq<u8>, mark: bool) -> Seq<(Seq<u8>, bool)> {
    tagged(payloads_of(unit, RTP_MTU as int), mark)
}

/// Some payloads, the last of them marked or not.
pub open spec fn tagged(p: Seq<Seq<u8>>, mark: bool) -> Seq<(Seq<u8>, bool)> {
    Seq::new(p.len(), |j: int| (p[j], mark && j == p.len() - 1))
}

/// The payloads of the units of a picture: the very last is marked, if the
/// last unit has any.
pub open spec fn picture_payloads(units: Seq<Seq<u8>>) -> Seq<(Seq<u8>, bool)> {
    if units.len() == 0 {
        seq![]
    } else {
        unmarked(units.drop_last()) + marked(units.last(), true)
    }
}

/// A 16-bit number that wraps.
pub open spec fn wrap16(n: int) -> u16 {
    (n % 65536) as u16
}

/// The frames of some payloads, numbered from `seq`.
pub open spec fn framed(
    payloads: Seq<(Seq<u8>, bool)>,
    channel: u8,
    seq: u16,
    timestamp: u32,
    ssrc: u32,
) -> Seq<Seq<u8>> {
    Seq::new(
        payloads.len(),
        |k: int|
            rtp_frame(
                channel,
                payloads[k].1,
                wrap16(seq + k),
                timestamp,
                ssrc,
                payloads[k].0,
            ),
    )
}

/// The timestamp of an access unit: where the clock stands, but at least a
/// thirtieth of a second after the one before.
pub open spec fn next_timestamp(prev: u32, computed: u32) -> int {
    if prev + 3000 > computed {
        prev + 3000
    } else {
        computed as int
    }
}

/// The units that an access unit sends, with what a key frame lacks.
pub open spec fn sent_units(au: AccessUnit, p: ParamSets) -> Seq<Seq<u8>> {
    injected(au.is_key_frame, au.nalus@, p) + unit_data(au.nalus@)
}

/// The frames that an access unit sends on a session.
pub open spec fn au_frames(au: AccessUnit, s: Session, p: ParamSets, computed: u32) -> Seq<
    Seq<u8>,
> {
    framed(
        picture_payloads(sent_units(au, p)),
        s.rtp_channel,
        s.seq,
        next_timestamp(s.last_ts, computed) as u32,
        s.ssrc,
    )
}

/// A session after an access unit: numbered on by one per frame.
pub open spec fn session_after(au: AccessUnit, s: Session, p: ParamSets, computed: u32) -> Session {
    Session {
        seq: wrap16(s.seq + picture_payloads(sent_units(au, p)).len()),
        last_ts: next_timestamp(s.last_ts, computed) as u32,
        ..s
    }
}

proof fn lemma_framed_split(
    a: Seq<(Seq<u8>, bool)>,
    b: Seq<(Seq<u8>, bool)>,
    channel: u8,
    seq: u16,
    timestamp: u32,
    ssrc: u32,
)
    ensures
        framed(a + b, channel, seq, timestamp, ssrc) == framed(a, channel, seq, timestamp, ssrc)
            + framed(b, channel, wrap16(seq + a.len()), timestamp, ssrc),
{
    let whole = framed(a + b, channel, seq, timestamp, ssrc);
    let left = framed(a, channel, seq, timestamp, ssrc);
    let right = framed(b, channel, wrap16(seq + a.len()), timestamp, ssrc);
    assert forall|k: int| 0 <= k < whole.len() implies whole[k] == (left + right)[k] by {
        if k >= a.len() {
            let j = k - a.len();
            assert(wrap16(wrap16(seq + a.len()) + j) == wrap16(seq + k));
        }
    }
    assert(whole =~= left + right);
}

/// Appends the frames of some payloads and gives the next sequence number.
#[verifier::spinoff_prover]
#[verifier::rlimit(40)]
fn push_packets(
    frames: &mut Vec<Vec<u8>>,
    packets: &Vec<Vec<u8>>,
    mark: bool,
    channel: u8,
    seq: u16,
    timestamp: u32,
    ssrc: u32,
) -> (next: u16)
    ensures
        contents(final(frames)@) == contents(old(frames)@) + framed(
            tagged(contents(packets@), mark),
            channel,
            seq,
            timestamp,
            ssrc,
        ),
        next == wrap16(seq + packets@.len()),
{
    let ghost all = tagged(contents(packets@), mark);
    let ghost want = framed(all, channel, seq, timestamp, ssrc);
    let ghost start = contents(frames@);
    let mut number: u16 = seq;
    let mut j: usize = 0;
    proof {
        assert(start =~= start + want.take(0));
    }
    while j < packets.len()
        invariant
            j <= packets.len(),
            packets@.len() == want.len(),
            all == tagged(contents(packets@), mark),
            want == framed(all, channel, seq, timestamp, ssrc),
            number == wrap16(seq + j),
            contents(frames@) == start + want.take(j as int),
        decreases packets.len() - j,
    {
        let last = mark && j == packets.len() - 1;
        let ghost before = frames@;
        let frame = build_rtp_packet(
            channel,
            last,
            number,
            timestamp,
            ssrc,
            packets[j].as_slice(),
        );
        proof {
            assert(all[j as int] == (packets@[j as int]@, last));
            assert(want[j as int] == frame@);
        }
        frames.push(frame);
        proof {
            assert(contents(frames@) =~= contents(before).push(frame@));
            assert(want.take(j + 1) =~= want.take(j as int).push(want[j as int]));
            assert(contents(frames@) =~= start + want.take(j + 1));
        }
        number = if number == 65535 {
            0
        } else {
            number + 1
        };
        j = j + 1;
    }
    proof {
        assert(want.take(want.len() as int) =~= want);
    }
    number
}

/// Appends the frames of one unit and gives the next sequence number.
fn push_unit(
    frames: &mut Vec<Vec<u8>>,
    nalu: &Nalu,
    mark: bool,
    channel: u8,
    seq: u16,
    timestamp: u32,
    ssrc: u32,
) -> (next: u16)
    ensures
        contents(final(frames)@) == contents(old(frames)@) + framed(
            marked(nalu.data@, mark),
            channel,
            seq,
            timestamp,
            ssrc,
        ),
        next == wrap16(seq + marked(nalu.data@, mark).len()),
{
    let packets = packetize_nalu(nalu, RTP_MTU);
    push_packets(frames, &packets, mark, channel, seq, timestamp, ssrc)
}

fn parameter_unit(nalu_type: u8, data: &Vec<u8>) -> (n: Nalu)
    ensures
        n.data@ == data@,
{
    Nalu {
        nalu_type,
        data: slice_to_vec(data.as_slice()),
        is_idr: false,
        is_sps: nalu_type == 7,
        is_pps: nalu_type == 8,
        is_aud: false,
    }
}

fn find_params(nalus: &Vec<Nalu>) -> (found: (bool, bool))
    ensures
        found.0 == has_sps(nalus@),
        found.1 == has_pps(nalus@),
{
    let mut sps = false;
    let mut pps = false;
    let mut i: usize = 0;
    while i < nalus.len()
        invariant
            i <= nalus.len(),
            sps == exists|k: int| 0 <= k < i && (#[trigger] nalus@[k]).is_sps,
            pps == exists|k: int| 0 <= k < i && (#[trigger] nalus@[k]).is_pps,
        decreases nalus.len() - i,
    {
        if nalus[i].is_sps {
            sps = true;
        }
        if nalus[i].is_pps {
            pps = true;
        }
        i = i + 1;
    }
    (sps, pps)
}

/// The units that go in front of an access unit.
fn missing_params(au: &AccessUnit, mount: StreamMount, inner: &Inner) -> (units: Vec<Nalu>)
    ensures
        unit_data(units@) == injected(au.is_key_frame, au.nalus@, inner.params(mount)),
{
    let mut units: Vec<Nalu> = Vec::new();
    if au.is_key_frame {
        let (sps_there, pps_there) = find_params(&au.nalus);
        if !sps_there {
            if let Some(sps) = inner.sps_for(mount) {
                units.push(parameter_unit(7, sps));
            }
        }
        if !pps_there {
            if let Some(pps) = inner.pps_for(mount) {
                units.push(parameter_unit(8, pps));
            }
        }
    }
    proof {
        assert(unit_data(units@) =~= injected(au.is_key_frame, au.nalus@, inner.params(mount)));
    }
    units
}

/// Appends the frames of some units of a picture, numbered from `seq`, and
/// gives the next sequence number. `last` says whether they end the picture.
fn push_units(
    frames: &mut Vec<Vec<u8>>,
    units: &Vec<Nalu>,
    last: bool,
    channel: u8,
    seq: u16,
    timestamp: u32,
    ssrc: u32,
) -> (next: u16)
    ensures
        contents(final(frames)@) == contents(old(frames)@) + framed(
            if last {
                picture_payloads(unit_data(units@))
            } else {
                unmarked(unit_data(units@))
            },
            channel,
            seq,
            timestamp,
            ssrc,
        ),
        next == wrap16(
            seq + (if last {
                picture_payloads(unit_data(units@))
            } else {
                unmarked(unit_data(units@))
            }).len(),
        ),
{
    let ghost data = unit_data(units@);
    let ghost start = contents(frames@);
    let ghost mut done: Seq<(Seq<u8>, bool)> = seq![];
    let mut number: u16 = seq;
    let mut i: usize = 0;
    proof {
        assert(unmarked(data.take(0)) =~= seq![]);
        assert(framed(done, channel, seq, timestamp, ssrc) =~= seq![]);
        assert(contents(frames@) =~= start + framed(done, channel, seq, timestamp, ssrc));
    }
    while i < units.len()
        invariant
            i <= units.len(),
            data == unit_data(units@),
            data.len() == units@.len(),
            contents(frames@) == start + framed(done, channel, seq, timestamp, ssrc),
            number == wrap16(seq + done.len()),
            last && i == units@.len() && i > 0 ==> done == picture_payloads(data),
            !(last && i == units@.len() && i > 0) ==> done == unmarked(data.take(i as int)),
        decreases units.len() - i,
    {
        let mark = last && i == units.len() - 1;
        let ghost more = marked(units@[i as int].data@, mark);
        proof {
            assert(data[i as int] == units@[i as int].data@);
            assert(data.take(i + 1).drop_last() =~= data.take(i as int));
            assert(data.take(i + 1).last() == data[i as int]);
            if mark {
                assert(data.take(i as int) =~= data.drop_last());
                assert(data.last() == data[i as int]);
            }
            lemma_framed_split(done, more, channel, seq, timestamp, ssrc);
        }
        let ghost before = contents(frames@);
        number = push_unit(frames, &units[i], mark, channel, number, timestamp, ssrc);
        proof {
            assert(wrap16(wrap16(seq + done.len()) + more.len()) == wrap16(
                seq + done.len() + more.len(),
            ));
            assert(contents(frames@) =~= start + framed(
                done + more,
                channel,
                seq,
                timestamp,
                ssrc,
            ));
            done = done + more;
        }
        i = i + 1;
    }
    proof {
        if units@.len() == 0 {
            assert(data.len() == 0);
        } else {
            assert(data.take(data.len() as int) =~= data);
        }
    }
    number
}

proof fn lemma_unmarked_split(a: Seq<Seq<u8>>, b: Seq<Seq<u8>>)
    ensures
        unmarked(a + b) == unmarked(a) + unmarked(b),
    decreases b.len(),
{
    if b.len() == 0 {
        assert(a + b =~= a);
        assert(unmarked(a) + unmarked(b) =~= unmarked(a));
    } else {
        assert((a + b).drop_last() =~= a + b.drop_last());
        lemma_unmarked_split(a, b.drop_last());
        assert(unmarked(a + b) =~= unmarked(a) + unmarked(b));
    }
}

proof fn lemma_picture_split(a: Seq<Seq<u8>>, b: Seq<Seq<u8>>)
    ensures
        picture_payloads(a + b) == if b.len() == 0 {
            picture_payloads(a)
        } else {
            unmarked(a) + picture_payloads(b)
        },
{
    if b.len() == 0 {
        assert(a + b =~= a);
    } else {
        assert((a + b).drop_last() =~= a + b.drop_last());
        lemma_unmarked_split(a, b.drop_last());
        assert(picture_payloads(a + b) =~= unmarked(a) + picture_payloads(b));
    }
}

/// Keeps the parameter sets that an access unit brings for a mount.
fn keep_params(au: &AccessUnit, mount: StreamMount, inner: &mut Inner)
    ensures
        final(inner).sessions == old(inner).sessions,
        final(inner).params(mount) == params_after(old(inner).params(mount), au.nalus@),
        forall|m: StreamMount|
            m != mount ==> #[trigger] final(inner).params(m) == old(inner).params(m),
{
    let ghost start = *inner;
    let ghost p0 = inner.params(mount);
    let mut i: usize = 0;
    proof {
        assert(au.nalus@.take(0) =~= seq![]);
    }
    while i < au.nalus.len()
        invariant
            i <= au.nalus.len(),
            inner.sessions == start.sessions,
            p0 == start.params(mount),
            inner.params(mount) == params_after(p0, au.nalus@.take(i as int)),
            forall|m: StreamMount| m != mount ==> #[trigger] inner.params(m) == start.params(m),
        decreases au.nalus.len() - i,
    {
        let nalu = &au.nalus[i];
        proof {
            assert(au.nalus@.take(i + 1).drop_last() =~= au.nalus@.take(i as int));
            assert(au.nalus@.take(i + 1).last() == nalu);
        }
        if nalu.is_sps {
            inner.store_sps(mount, slice_to_vec(nalu.data.as_slice()));
        }
        if nalu.is_pps {
            inner.store_pps(mount, slice_to_vec(nalu.data.as_slice()));
        }
        i = i + 1;
    }
    proof {
        assert(au.nalus@.take(au.nalus@.len() as int) =~= au.nalus@);
    }
}

/// The frames of a picture whose units come in two parts, and the next
/// sequence number.
fn picture_frames(
    front: &Vec<Nalu>,
    nalus: &Vec<Nalu>,
    channel: u8,
    seq: u16,
    timestamp: u32,
    ssrc: u32,
) -> (r: (Vec<Vec<u8>>, u16))
    ensures
        contents(r.0@) == framed(
            picture_payloads(unit_data(front@) + unit_data(nalus@)),
            channel,
            seq,
            timestamp,
            ssrc,
        ),
        r.1 == wrap16(seq + picture_payloads(unit_data(front@) + unit_data(nalus@)).len()),
{
    let mut frames: Vec<Vec<u8>> = Vec::new();
    let alone = nalus.len() == 0;
    let ghost a = unit_data(front@);
    let ghost b = unit_data(nalus@);
    let ghost first = if alone {
        picture_payloads(a)
    } else {
        unmarked(a)
    };
    let ghost second = picture_payloads(b);
    let ghost none = contents(frames@);
    proof {
        assert(none =~= seq![]);
        lemma_picture_split(a, b);
        lemma_framed_split(first, second, channel, seq, timestamp, ssrc);
        if alone {
            assert(b.len() == 0);
            assert(first + second =~= first);
        }
    }
    let middle: u16 = push_units(&mut frames, front, alone, channel, seq, timestamp, ssrc);
    let next: u16 = push_units(&mut frames, nalus, true, channel, middle, timestamp, ssrc);
    proof {
        let (n, m) = (first.len(), second.len());
        assert(wrap16(wrap16(seq + n) + m) == wrap16(seq + n + m));
        let (f, g) = (
            framed(first, channel, seq, timestamp, ssrc),
            framed(second, channel, middle, timestamp, ssrc),
        );
        assert(none + f + g =~= f + g);
    }
    (frames, next)
}

/// Converts an access unit to interleaved RTP frames. `computed` is where the
/// session's 90 kHz clock stands.
///
/// A key frame gets the parameter sets that its mount has and it lacks; those
/// that the access unit brings are kept for its mount.
pub fn access_unit_to_frames(
    au: &AccessUnit,
    session: &mut Session,
    inner: &mut Inner,
    computed: u32,
) -> (frames: Vec<Vec<u8>>)
    requires
        old(session).last_ts + 3000 <= u32::MAX,
    ensures
        contents(frames@) == au_frames(
            *au,
            *old(session),
            old(inner).params(old(session).mount),
            computed,
        ),
        *final(session) == session_after(
            *au,
            *old(session),
            old(inner).params(old(session).mount),
            computed,
        ),
        final(inner).sessions == old(inner).sessions,
        final(inner).params(old(session).mount) == params_after(
            old(inner).params(old(session).mount),
            au.nalus@,
        ),
        forall|m: StreamMount|
            m != old(session).mount ==> #[trigger] final(inner).params(m) == old(inner).params(m),
{
    let mount = session.mount;
    let floor: u32 = session.last_ts + 3000;
    let timestamp: u32 = if floor > computed {
        floor
    } else {
        computed
    };
    let front = missing_params(au, mount, inner);
    keep_params(au, mount, inner);
    let (frames, next) = picture_frames(
        &front,
        &au.nalus,
        session.rtp_channel,
        session.seq,
        timestamp,
        session.ssrc,
    );
    session.seq = next;
    session.last_ts = timestamp;
    frames
}

/// The timestamps of a session rise by a thirtieth of a second at least, and
/// never fall behind the clock.
pub proof fn timestamps_rise(au: AccessUnit, s: Session, p: ParamSets, computed: u32)
    requires
        s.last_ts + 3000 <= u32::MAX,
    ensures
        session_after(au, s, p, computed).last_ts >= s.last_ts + 3000,
        session_after(au, s, p, computed).last_ts >= computed,
{
}

/// The frames of an access unit are numbered without gaps, from the session's
/// next number to just before the one it then has; and only the very last of
/// them can carry the marker.
pub proof fn frames_are_numbered_without_gaps(
    au: AccessUnit,
    s: Session,
    p: ParamSets,
    computed: u32,
    k: int,
)
    requires
        s.last_ts + 3000 <= u32::MAX,
        0 <= k < au_frames(au, s, p, computed).len(),
    ensures
        au_frames(au, s, p, computed)[k] == rtp_frame(
            s.rtp_channel,
            picture_payloads(sent_units(au, p))[k].1,
            wrap16(s.seq + k),
            session_after(au, s, p, computed).last_ts,
            s.ssrc,
            picture_payloads(sent_units(au, p))[k].0,
        ),
        session_after(au, s, p, computed).seq == wrap16(
            s.seq + au_frames(au, s, p, computed).len(),
        ),
        picture_payloads(sent_units(au, p))[k].1 ==> k == au_frames(au, s, p, computed).len() - 1,
{
    let units = sent_units(au, p);
    let before = unmarked(units.drop_last());
    lemma_unmarked_has_no_mark(units.drop_last());
    if k < before.len() {
        assert(picture_payloads(units)[k] == before[k]);
    }
}

proof fn lemma_unmarked_has_no_mark(units: Seq<Seq<u8>>)
    ensures
        forall|k: int| 0 <= k < unmarked(units).len() ==> !(#[trigger] unmarked(units)[k]).1,
    decreases units.len(),
{
    if units.len() > 0 {
        lemma_unmarked_has_no_mark(units.drop_last());
        let before = unmarked(units.drop_last());
        assert forall|k: int| 0 <= k < unmarked(units).len() implies !(
        #[trigger] unmarked(units)[k]).1 by {
            if k < before.len() {
                assert(unmarked(units)[k] == before[k]);
            } else {
                assert(unmarked(units)[k] == marked(units.last(), false)[k - before.len()]);
            }
        }
    }
}

/// A key frame never goes out without parameter sets that its mount knows or
/// that it brings itself: some unit it sends holds the former.
pub proof fn key_frames_carry_known_params(au: AccessUnit, p: ParamSets)
    requires
        au.is_key_frame,
    ensures
        p.sps is Some && !has_sps(au.nalus@) ==> sent_units(au, p).contains(p.sps->0),
        p.pps is Some && !has_pps(au.nalus@) ==> sent_units(au, p).contains(p.pps->0),
{
    let i = injected(true, au.nalus@, p);
    if p.sps is Some && !has_sps(au.nalus@) {
        assert(sent_units(au, p)[0] == p.sps->0);
    }
    if p.pps is Some && !has_pps(au.nalus@) {
        assert(sent_units(au, p)[i.len() - 1] == p.pps->0);
    }
}

/// The clock of a session stands where the camera's does, or a thirtieth of a
/// second after the unit before where the camera's has not got that far.
pub proof fn timestamps_follow_the_clock(au: AccessUnit, s: Session, p: ParamSets, computed: u32)
    requires
        s.last_ts + 3000 <= u32::MAX,
    ensures
        computed >= s.last_ts + 3000 ==> session_after(au, s, p, computed).last_ts == computed,
        computed < s.last_ts + 3000 ==> session_after(au, s, p, computed).last_ts == s.last_ts
            + 3000,
{
}

/// What a session says stands in every frame that it sends: its channel, its
/// clock and its source; and the frames of a unit are numbered one by one.
pub proof fn frames_carry_the_session(
    au: AccessUnit,
    s: Session,
    p: ParamSets,
    computed: u32,
    k: int,
)
    requires
        s.last_ts + 3000 <= u32::MAX,
        0 <= k < au_frames(au, s, p, computed).len(),
    ensures
        ({
            let f = au_frames(au, s, p, computed)[k];
            &&& 16 < f.len() <= 16 + 1400
            &&& f[0] == 0x24
            &&& f[1] == s.rtp_channel
            &&& word_at(f, 2) == f.len() - 4
            &&& f[4] == 128
            &&& f[5] % 128 == 96
            &&& word_at(f, 6) == (s.seq + k) % 65536
            &&& long_at(f, 8) == session_after(au, s, p, computed).last_ts
            &&& long_at(f, 12) == s.ssrc
        }),
{
    let t = picture_payloads(sent_units(au, p));
    lemma_payload_sizes(sent_units(au, p), k);
    frames_are_read_back(
        s.rtp_channel,
        t[k].1,
        wrap16(s.seq + k),
        session_after(au, s, p, computed).last_ts,
        s.ssrc,
        t[k].0,
    );
}

proof fn lemma_unmarked_sizes(units: Seq<Seq<u8>>)
    ensures
        forall|k: int|
            0 <= k < unmarked(units).len() ==> 0 < (#[trigger] unmarked(units)[k]).0.len() <= 1400,
    decreases units.len(),
{
    if units.len() > 0 {
        lemma_unmarked_sizes(units.drop_last());
        units_that_fit_go_as_they_are(units.last(), RTP_MTU as int);
        let before = unmarked(units.drop_last());
        let own = payloads_of(units.last(), RTP_MTU as int);
        assert forall|k: int| 0 <= k < unmarked(units).len() implies 0 < (
        #[trigger] unmarked(units)[k]).0.len() <= 1400 by {
            if k < before.len() {
                assert(unmarked(units)[k] == before[k]);
            } else {
                assert(unmarked(units)[k].0 == own[k - before.len()]);
            }
        }
    }
}

proof fn lemma_payload_sizes(units: Seq<Seq<u8>>, k: int)
    requires
        0 <= k < picture_payloads(units).len(),
    ensures
        0 < picture_payloads(units)[k].0.len() <= 1400,
{
    let before = unmarked(units.drop_last());
    lemma_unmarked_sizes(units.drop_last());
    units_that_fit_go_as_they_are(units.last(), RTP_MTU as int);
    if k < before.len() {
        assert(picture_payloads(units)[k] == before[k]);
    } else {
        assert(picture_payloads(units)[k].0 == payloads_of(units.last(), RTP_MTU as int)[k
            - before.len()]);
    }
}

/// The payloads of some marked ones.
pub open spec fn without_marks(t: Seq<(Seq<u8>, bool)>) -> Seq<Seq<u8>> {
    t.map_values(|x: (Seq<u8>, bool)| x.0)
}

proof fn lemma_units_received(units: Seq<Seq<u8>>)
    requires
        forall|i: int| 0 <= i < units.len() ==> is_unit(#[trigger] units[i]),
    ensures
        received_units(without_marks(unmarked(units))) == units,
    decreases units.len(),
{
    if units.len() == 0 {
        assert(without_marks(unmarked(units)) =~= seq![]);
        assert(received_units(seq![]) =~= units);
    } else {
        let rest = units.drop_last();
        assert forall|i: int| 0 <= i < rest.len() implies is_unit(#[trigger] rest[i]) by {
            assert(rest[i] == units[i]);
        }
        lemma_units_received(rest);
        let own = payloads_of(units.last(), RTP_MTU as int);
        units_are_received(without_marks(unmarked(rest)), units.last(), RTP_MTU as int);
        assert(without_marks(unmarked(units)) =~= without_marks(unmarked(rest)) + own);
        assert(rest.push(units.last()) =~= units);
    }
}

/// The payloads of some frames.
pub open spec fn frame_payloads(frames: Seq<Seq<u8>>) -> Seq<Seq<u8>> {
    frames.map_values(|f: Seq<u8>| f.skip(16))
}

/// A client that receives the frames of an access unit has its units, in their
/// order, behind the parameter sets that were put in front; and the last frame
/// alone carries the marker.
#[verifier::spinoff_prover]
pub proof fn clients_receive_the_access_unit(
    au: AccessUnit,
    s: Session,
    p: ParamSets,
    computed: u32,
)
    requires
        s.last_ts + 3000 <= u32::MAX,
        forall|i: int| 0 <= i < sent_units(au, p).len() ==> is_unit(#[trigger] sent_units(au, p)[i]),
    ensures
        ({
            let frames = au_frames(au, s, p, computed);
            let got = received_units(frame_payloads(frames));
            let n = au.nalus@.len();
            &&& got.len() >= n
            &&& !au.is_key_frame ==> got.len() == n
            &&& forall|i: int|
                0 <= i < n ==> #[trigger] got[got.len() - n + i] == au.nalus@[i].data@
            &&& n > 0 ==> forall|k: int|
                0 <= k < frames.len() ==> ((#[trigger] frames[k])[5] / 128 == 1 <==> k
                    == frames.len() - 1)
        }),
{
    let units = sent_units(au, p);
    let frames = au_frames(au, s, p, computed);
    let t = picture_payloads(units);
    assert forall|k: int| 0 <= k < frames.len() implies (#[trigger] frames[k]).skip(16) == t[k].0
        && (frames[k][5] / 128 == 1 <==> t[k].1) by {
        lemma_payload_sizes(units, k);
        frames_are_read_back(
            s.rtp_channel,
            t[k].1,
            wrap16(s.seq + k),
            session_after(au, s, p, computed).last_ts,
            s.ssrc,
            t[k].0,
        );
    }
    assert(frame_payloads(frames) =~= without_marks(t));
    if units.len() > 0 {
        let rest = units.drop_last();
        let own = payloads_of(units.last(), RTP_MTU as int);
        assert(is_unit(units[units.len() - 1]));
        assert forall|i: int| 0 <= i < rest.len() implies is_unit(#[trigger] rest[i]) by {
            assert(rest[i] == units[i]);
        }
        lemma_units_received(rest);
        units_are_received(without_marks(unmarked(rest)), units.last(), RTP_MTU as int);
        assert(without_marks(t) =~= without_marks(unmarked(rest)) + own);
        assert(rest.push(units.last()) =~= units);
        lemma_unmarked_has_no_mark(rest);
        assert(own.len() > 0) by {
            if own.len() == 0 {
                assert(without_marks(unmarked(rest)) + own =~= without_marks(unmarked(rest)));
                assert(received_units(without_marks(unmarked(rest))).len() == rest.len());
            }
        }
        let before = unmarked(rest);
        assert forall|k: int| 0 <= k < frames.len() implies ((#[trigger] frames[k])[5] / 128 == 1
            <==> k == frames.len() - 1) by {
            if k < before.len() {
                assert(t[k] == before[k]);
            } else {
                assert(t[k].1 == (k - before.len() == own.len() - 1));
            }
        }
    } else {
        assert(without_marks(t) =~= seq![]);
    }
    let got = received_units(frame_payloads(frames));
    assert(got =~= units);
    let i0 = injected(au.is_key_frame, au.nalus@, p);
    assert forall|i: int| 0 <= i < au.nalus@.len() implies #[trigger] got[got.len()
        - au.nalus@.len() + i] == au.nalus@[i].data@ by {
        assert(units[i0.len() + i] == unit_data(au.nalus@)[i]);
    }
}

/// A key frame that brings no sequence parameter set goes out behind the one
/// that its mount knows, and one that brings no picture parameter set with the
/// known one right before its own units.
pub proof fn known_sets_go_in_front(au: AccessUnit, p: ParamSets)
    requires
        au.is_key_frame,
    ensures
        ({
            let n = au.nalus@.len();
            let all = sent_units(au, p);
            &&& p.sps is Some && !has_sps(au.nalus@) ==> all.len() > n && all[0] == p.sps->0
            &&& p.pps is Some && !has_pps(au.nalus@) ==> all.len() > n && all[all.len() - n - 1]
                == p.pps->0
            &&& has_sps(au.nalus@) && has_pps(au.nalus@) ==> all.len() == n
        }),
{
}

/// Of the parameter sets that go through a mount the last is kept; where none
/// of a kind does, the known one stays.
pub proof fn the_last_set_is_kept(p: ParamSets, nalus: Seq<Nalu>, i: int)
    requires
        0 <= i < nalus.len(),
    ensures
        nalus[i].is_sps && (forall|j: int| i < j < nalus.len() ==> !(#[trigger] nalus[j]).is_sps)
            ==> params_after(p, nalus).sps == Some(nalus[i].data@),
        nalus[i].is_pps && (forall|j: int| i < j < nalus.len() ==> !(#[trigger] nalus[j]).is_pps)
            ==> params_after(p, nalus).pps == Some(nalus[i].data@),
        !has_sps(nalus) ==> params_after(p, nalus).sps == p.sps,
        !has_pps(nalus) ==> params_after(p, nalus).pps == p.pps,
    decreases nalus.len(),
{
    let rest = nalus.drop_last();
    let n = nalus.len() - 1;
    assert(nalus[n] == nalus.last());
    assert(forall|j: int| 0 <= j < rest.len() ==> #[trigger] rest[j] == nalus[j]);
    if rest.len() > 0 {
        the_last_set_is_kept(p, rest, if i < n { i } else { 0 });
    }
}

/// Every parameter set that is put in front of a key frame is put there once,
/// and nothing is put in front of other access units.
pub proof fn sets_are_put_in_front_once(au: AccessUnit, p: ParamSets)
    ensures
        ({
            let sps = p.sps is Some && au.is_key_frame && forall|i: int|
                0 <= i < au.nalus@.len() ==> !(#[trigger] au.nalus@[i]).is_sps;
            let pps = p.pps is Some && au.is_key_frame && forall|i: int|
                0 <= i < au.nalus@.len() ==> !(#[trigger] au.nalus@[i]).is_pps;
            sent_units(au, p).len() == au.nalus@.len() + (if sps {
                1int
            } else {
                0
            }) + (if pps {
                1int
            } else {
                0
            })
        }),
{
}

/// An access unit moves a session's numbering and its clock on, and changes
/// nothing else of it.
pub proof fn units_move_a_session_on(au: AccessUnit, s: Session, p: ParamSets, computed: u32)
    ensures
        ({
            let after = session_after(au, s, p, computed);
            &&& after.seq == (s.seq + au_frames(au, s, p, computed).len()) % 65536
            &&& after == Session { seq: after.seq, last_ts: after.last_ts, ..s }
        }),
{
}

/// Each mount has its own parameter sets.
pub proof fn mounts_have_their_own_sets(inner: Inner)
    ensures
        inner.params(StreamMount::Main).sps == bytes_of(inner.sps),
        inner.params(StreamMount::Main).pps == bytes_of(inner.pps),
        inner.params(StreamMount::Sub).sps == bytes_of(inner.sub_sps),
        inner.params(StreamMount::Sub).pps == bytes_of(inner.sub_pps),
{
}

} // verus!
