//! RTP packets for H.264: single units and FU-A fragments, framed for
//! interleaving with RTSP on one TCP connection.

use vstd::prelude::*;
use vstd::slice::slice_subrange;
use crate::h264::Nalu;

verus! {

/// Largest RTP payload in bytes.
pub const RTP_MTU: usize = 1400;

/// Bytes of an RTP header.
pub const RTP_HEADER_LEN: usize = 12;

/// A 16-bit number, most significant byte first.
pub open spec fn be16(n: int) -> Seq<u8> {
    seq![(n / 256 % 256) as u8, (n % 256) as u8]
}

/// A 32-bit number, most significant byte first.
pub open spec fn be32(n: int) -> Seq<u8> {
    be16(n / 65536) + be16(n % 65536)
}

/// An RTP header: version 2, payload type 96.
pub open spec fn rtp_header(marker: bool, seq: u16, timestamp: u32, ssrc: u32) -> Seq<u8> {
    seq![0x80u8, if marker { 0xe0u8 } else { 0x60u8 }] + be16(seq as int) + be32(timestamp as int)
        + be32(ssrc as int)
}

/// A packet behind `$`, its channel and its length.
pub open spec fn interleaved(channel: u8, packet: Seq<u8>) -> Seq<u8> {
    seq![0x24u8, channel] + be16(packet.len() as int) + packet
}

/// A whole interleaved frame.
pub open spec fn rtp_frame(
    channel: u8,
    marker: bool,
    seq: u16,
    timestamp: u32,
    ssrc: u32,
    payload: Seq<u8>,
) -> Seq<u8> {
    interleaved(channel, rtp_header(marker, seq, timestamp, ssrc) + payload)
}

/// The FU-A fragments that `n` bytes in pieces of `f` make.
pub open spec fn fragment_count(n: int, f: int) -> int {
    (n + f - 1) / f
}

/// Fragment `i` of a unit cut into pieces of `f` bytes: indicator and header
/// stand for the unit's own first byte.
pub open spec fn fragment(data: Seq<u8>, f: int, i: int) -> Seq<u8> {
    let first = data[0] as int;
    let from = 1 + i * f;
    let to = if from + f < data.len() { from + f } else { data.len() as int };
    let start = if i == 0 { 128int } else { 0 };
    let end = if to == data.len() { 64int } else { 0 };
    seq![(first / 32 * 32 + 28) as u8, (start + end + first % 32) as u8] + data.subrange(from, to)
}

/// The payloads that carry a unit: none for an empty one, itself where it
/// fits, else fragments.
pub open spec fn payloads_of(data: Seq<u8>, mtu: int) -> Seq<Seq<u8>> {
    if data.len() == 0 {
        seq![]
    } else if data.len() <= mtu {
        seq![data]
    } else {
        Seq::new(
            fragment_count(data.len() - 1, mtu - 2) as nat,
            |i: int| fragment(data, mtu - 2, i),
        )
    }
}

/// The contents of a list of byte vectors.
pub open spec fn contents(v: Seq<Vec<u8>>) -> Seq<Seq<u8>> {
    v.map_values(|b: Vec<u8>| b@)
}

/// Appends bytes.
pub fn push_bytes(out: &mut Vec<u8>, bytes: &[u8])
    ensures
        final(out)@ == old(out)@ + bytes@,
{
    out.extend_from_slice(bytes);
}

fn push_be16(out: &mut Vec<u8>, n: u16)
    ensures
        final(out)@ == old(out)@ + be16(n as int),
{
    out.push((n / 256) as u8);
    out.push((n % 256) as u8);
    proof {
        assert(out@ =~= old(out)@ + be16(n as int));
    }
}

#[verifier::spinoff_prover]
pub proof fn lemma_be32(n: u32)
    ensures
        be32(n as int) == seq![
            (n / 16777216) as u8,
            (n / 65536 % 256) as u8,
            (n / 256 % 256) as u8,
            (n % 256) as u8,
        ],
{
    let k = n as int;
    assert(k / 65536 / 256 % 256 == k / 16777216);
    assert(k % 65536 / 256 % 256 == k / 256 % 256);
    assert(k % 65536 % 256 == k % 256);
    let b = be32(k);
    assert(b[0] == (k / 65536 / 256 % 256) as u8);
    assert(b[1] == (k / 65536 % 256) as u8);
    assert(b[2] == (k % 65536 / 256 % 256) as u8);
    assert(b[3] == (k % 65536 % 256) as u8);
    assert(b =~= seq![
        (n / 16777216) as u8,
        (n / 65536 % 256) as u8,
        (n / 256 % 256) as u8,
        (n % 256) as u8,
    ]);
}

/// Appends a 32-bit number, most significant byte first.
pub fn push_be32(out: &mut Vec<u8>, n: u32)
    ensures
        final(out)@ == old(out)@ + be32(n as int),
{
    push_be16(out, (n / 65536) as u16);
    push_be16(out, (n % 65536) as u16);
    proof {
        assert(out@ =~= old(out)@ + be32(n as int));
    }
}

/// Builds the twelve bytes of an RTP header.
pub fn build_rtp_header(marker: bool, seq: u16, timestamp: u32, ssrc: u32) -> (header: [u8; 12])
    ensures
        header@ == rtp_header(marker, seq, timestamp, ssrc),
{
    let header: [u8; 12] = [
        0x80,
        if marker {
            0xe0
        } else {
            0x60
        },
        (seq / 256) as u8,
        (seq % 256) as u8,
        (timestamp / 16777216) as u8,
        (timestamp / 65536 % 256) as u8,
        (timestamp / 256 % 256) as u8,
        (timestamp % 256) as u8,
        (ssrc / 16777216) as u8,
        (ssrc / 65536 % 256) as u8,
        (ssrc / 256 % 256) as u8,
        (ssrc % 256) as u8,
    ];
    proof {
        lemma_be32(timestamp);
        lemma_be32(ssrc);
        let (t, r) = (be32(timestamp as int), be32(ssrc as int));
        assert(be16(seq as int) =~= seq![header[2], header[3]]);
        assert(t =~= seq![header[4], header[5], header[6], header[7]]);
        assert(r =~= seq![header[8], header[9], header[10], header[11]]);
        assert(header@ =~= seq![header[0], header[1]] + be16(seq as int) + t + r);
    }
    header
}

/// Frames an RTP packet for interleaving.
pub fn build_interleaved_rtp(channel: u8, rtp_packet: &[u8]) -> (frame: Vec<u8>)
    ensures
        frame@ == interleaved(channel, rtp_packet@),
{
    let len: usize = rtp_packet.len();
    let mut frame: Vec<u8> = Vec::new();
    frame.push(0x24);
    frame.push(channel);
    push_be16(&mut frame, (len % 65536) as u16);
    push_bytes(&mut frame, rtp_packet);
    proof {
        assert(be16(len as int) =~= be16(len as int % 65536));
        assert(frame@ =~= interleaved(channel, rtp_packet@));
    }
    frame
}

/// Builds an interleaved RTP packet.
pub fn build_rtp_packet(
    channel: u8,
    marker: bool,
    seq: u16,
    timestamp: u32,
    ssrc: u32,
    payload: &[u8],
) -> (frame: Vec<u8>)
    ensures
        frame@ == rtp_frame(channel, marker, seq, timestamp, ssrc, payload@),
{
    let header = build_rtp_header(marker, seq, timestamp, ssrc);
    let mut rtp: Vec<u8> = Vec::new();
    push_bytes(&mut rtp, header.as_slice());
    push_bytes(&mut rtp, payload);
    proof {
        assert(rtp@ =~= rtp_header(marker, seq, timestamp, ssrc) + payload@);
    }
    build_interleaved_rtp(channel, rtp.as_slice())
}

proof fn lemma_fragment_bounds(n: int, f: int, i: int)
    requires
        0 < n,
        0 < f,
    ensures
        fragment_count(n, f) > 0,
        i < fragment_count(n, f) <==> i * f < n,
        i == fragment_count(n, f) - 1 ==> n <= (i + 1) * f,
{
    let c = (n + f - 1) / f;
    assert(c * f >= n && (c - 1) * f < n && c > 0) by (nonlinear_arith)
        requires
            c == (n + f - 1) / f,
            0 < n,
            0 < f,
    ;
    if i < c {
        assert(i * f <= (c - 1) * f) by (nonlinear_arith)
            requires
                i <= c - 1,
                0 < f,
        ;
    } else {
        assert(c * f <= i * f) by (nonlinear_arith)
            requires
                c <= i,
                0 < f,
        ;
    }
}

/// Cuts a unit into RTP payloads.
pub fn packetize_nalu(nalu: &Nalu, mtu: usize) -> (packets: Vec<Vec<u8>>)
    requires
        mtu > 2 || nalu.data@.len() <= mtu,
    ensures
        contents(packets@) == payloads_of(nalu.data@, mtu as int),
{
    let data = &nalu.data;
    let mut packets: Vec<Vec<u8>> = Vec::new();
    if data.len() == 0 {
        proof {
            assert(contents(packets@) =~= seq![]);
        }
        return packets;
    }
    if data.len() <= mtu {
        let mut whole: Vec<u8> = Vec::new();
        push_bytes(&mut whole, data.as_slice());
        proof {
            assert(whole@ =~= data@);
        }
        packets.push(whole);
        proof {
            assert(contents(packets@) =~= seq![data@]);
        }
        return packets;
    }
    let first: u8 = data[0];
    let f: usize = mtu - 2;
    let ghost n = data@.len() - 1;
    let ghost want = payloads_of(data@, mtu as int);
    let ghost mut i: int = 0;
    let mut from: usize = 1;
    proof {
        lemma_fragment_bounds(n, f as int, 0);
        assert(0 * f == 0) by (nonlinear_arith);
        assert(contents(packets@) =~= want.take(0));
    }
    while from < data.len()
        invariant
            mtu > 2,
            f == mtu - 2,
            data@ == nalu.data@,
            data@.len() > mtu,
            first == data@[0],
            n == data@.len() - 1,
            want == payloads_of(data@, mtu as int),
            0 <= i <= want.len(),
            from <= data@.len(),
            from < data@.len() ==> from == 1 + i * f,
            from == data@.len() ==> i == want.len(),
            contents(packets@) == want.take(i),
        decreases data@.len() - from,
    {
        let left: usize = data.len() - from;
        let to: usize = if f < left {
            from + f
        } else {
            data.len()
        };
        let start: u8 = if from == 1 {
            128
        } else {
            0
        };
        let end: u8 = if to == data.len() {
            64
        } else {
            0
        };
        let mut piece: Vec<u8> = Vec::new();
        piece.push(first / 32 * 32 + 28);
        piece.push(start + end + first % 32);
        push_bytes(&mut piece, slice_subrange(data.as_slice(), from, to));
        let ghost before = packets@;
        proof {
            lemma_fragment_bounds(n, f as int, i);
            lemma_fragment_bounds(n, f as int, i + 1);
            assert((i + 1) * f == i * f + f) by (nonlinear_arith);
            assert(i != 0 ==> i * f > 0) by (nonlinear_arith)
                requires
                    i >= 0,
                    f > 0,
            ;
            assert(i == 0 ==> i * f == 0) by (nonlinear_arith);
            assert(piece@ =~= fragment(data@, f as int, i));
            assert(want[i] == fragment(data@, f as int, i));
            assert(want.take(i + 1) =~= want.take(i).push(want[i]));
        }
        packets.push(piece);
        proof {
            assert(contents(packets@) =~= contents(before).push(piece@));
            i = i + 1;
        }
        from = to;
    }
    proof {
        assert(want.take(want.len() as int) =~= want);
    }
    packets
}

/// The bytes behind the two leading ones of each fragment, in order.
pub open spec fn joined(fragments: Seq<Seq<u8>>) -> Seq<u8>
    decreases fragments.len(),
{
    if fragments.len() == 0 {
        seq![]
    } else {
        joined(fragments.drop_last()) + fragments.last().skip(2)
    }
}

proof fn lemma_joined(data: Seq<u8>, mtu: int, k: int)
    requires
        2 < mtu < data.len(),
        0 <= k <= payloads_of(data, mtu).len(),
    ensures
        joined(payloads_of(data, mtu).take(k)) == data.subrange(
            1,
            if 1 + k * (mtu - 2) < data.len() {
                1 + k * (mtu - 2)
            } else {
                data.len() as int
            },
        ),
    decreases k,
{
    let f = mtu - 2;
    let all = payloads_of(data, mtu);
    let n = data.len() - 1;
    if k == 0 {
        assert(0 * f == 0) by (nonlinear_arith);
        assert(joined(all.take(0)) =~= data.subrange(1, 1));
    } else {
        lemma_joined(data, mtu, k - 1);
        lemma_fragment_bounds(n, f, k - 1);
        lemma_fragment_bounds(n, f, k);
        assert(k * f == (k - 1) * f + f) by (nonlinear_arith);
        assert((k - 1) * f >= 0) by (nonlinear_arith)
            requires
                k >= 1,
                f > 0,
        ;
        assert(all.take(k).drop_last() =~= all.take(k - 1));
        let last = all.take(k).last();
        assert(last == fragment(data, f, k - 1));
        let from = 1 + (k - 1) * f;
        let to = if from + f < data.len() {
            from + f
        } else {
            data.len() as int
        };
        assert(last.skip(2) =~= data.subrange(from, to));
        assert(data.subrange(1, from) + data.subrange(from, to) =~= data.subrange(1, to));
    }
}

/// The fragments of a unit give it back: what they carry, joined, is the unit
/// behind its first byte, and each fragment holds that byte, the upper three
/// bits in its indicator and the type in its header. The start bit stands on
/// the first fragment alone and the end bit on the last alone.
pub proof fn fragments_give_the_unit_back(data: Seq<u8>, mtu: int)
    requires
        2 < mtu < data.len(),
    ensures
        joined(payloads_of(data, mtu)) == data.skip(1),
        forall|i: int|
            #![trigger payloads_of(data, mtu)[i]]
            0 <= i < payloads_of(data, mtu).len() ==> {
                let p = payloads_of(data, mtu)[i];
                &&& 2 < p.len() <= mtu
                &&& p[0] as int / 32 * 32 + p[1] as int % 32 == data[0]
                &&& p[0] as int % 32 == 28
                &&& (p[1] as int / 128 == 1 <==> i == 0)
                &&& (p[1] as int / 64 % 2 == 1 <==> i == payloads_of(data, mtu).len() - 1)
            },
{
    let f = mtu - 2;
    let all = payloads_of(data, mtu);
    let n = data.len() - 1;
    lemma_joined(data, mtu, all.len() as int);
    lemma_fragment_bounds(n, f, all.len() as int);
    lemma_fragment_bounds(n, f, all.len() - 1);
    assert(all.take(all.len() as int) =~= all);
    assert(data.subrange(1, data.len() as int) =~= data.skip(1));
    assert forall|i: int|
        #![trigger payloads_of(data, mtu)[i]]
        0 <= i < all.len() implies {
        let p = payloads_of(data, mtu)[i];
        &&& 2 < p.len() <= mtu
        &&& p[0] as int / 32 * 32 + p[1] as int % 32 == data[0]
        &&& p[0] as int % 32 == 28
        &&& (p[1] as int / 128 == 1 <==> i == 0)
        &&& (p[1] as int / 64 % 2 == 1 <==> i == all.len() - 1)
    } by {
        lemma_fragment_bounds(n, f, i);
        lemma_fragment_bounds(n, f, i + 1);
        assert((i + 1) * f == i * f + f) by (nonlinear_arith);
        assert(i * f >= 0) by (nonlinear_arith)
            requires
                i >= 0,
                f > 0,
        ;
        assert(all[i] == fragment(data, f, i));
    }
}

/// Two bytes of a packet, read as a number.
pub open spec fn word_at(bytes: Seq<u8>, at: int) -> int {
    bytes[at] * 256 + bytes[at + 1]
}

/// Four bytes of a packet, read as a number.
pub open spec fn long_at(bytes: Seq<u8>, at: int) -> int {
    bytes[at] * 0x100_0000 + bytes[at + 1] * 0x1_0000 + bytes[at + 2] * 0x100 + bytes[at + 3]
}

/// What goes into a header is read out of it: version 2 without padding,
/// extension or contributing sources, the marker and the dynamic payload type
/// 96, the number, the timestamp and the source.
pub proof fn headers_are_read_back(marker: bool, seq: u16, timestamp: u32, ssrc: u32)
    ensures
        rtp_header(marker, seq, timestamp, ssrc).len() == 12,
        rtp_header(marker, seq, timestamp, ssrc)[0] == 2 * 64,
        rtp_header(marker, seq, timestamp, ssrc)[1] / 128 == 1 <==> marker,
        rtp_header(marker, seq, timestamp, ssrc)[1] % 128 == 96,
        word_at(rtp_header(marker, seq, timestamp, ssrc), 2) == seq,
        long_at(rtp_header(marker, seq, timestamp, ssrc), 4) == timestamp,
        long_at(rtp_header(marker, seq, timestamp, ssrc), 8) == ssrc,
{
    lemma_be32(timestamp);
    lemma_be32(ssrc);
    let h = rtp_header(marker, seq, timestamp, ssrc);
    let (t, r) = (be32(timestamp as int), be32(ssrc as int));
    assert(h[4] == t[0] && h[5] == t[1] && h[6] == t[2] && h[7] == t[3]);
    assert(h[8] == r[0] && h[9] == r[1] && h[10] == r[2] && h[11] == r[3]);
}

/// What goes into an interleaved frame is read out of it: behind a dollar sign
/// its channel and the length of the packet, then the header and the payload.
pub proof fn frames_are_read_back(
    channel: u8,
    marker: bool,
    seq: u16,
    timestamp: u32,
    ssrc: u32,
    payload: Seq<u8>,
)
    requires
        payload.len() + 12 <= 0xffff,
    ensures
        ({
            let f = rtp_frame(channel, marker, seq, timestamp, ssrc, payload);
            &&& f.len() == 16 + payload.len()
            &&& f[0] == 0x24
            &&& f[1] == channel
            &&& word_at(f, 2) == f.len() - 4
            &&& f[4] == 2 * 64
            &&& (f[5] / 128 == 1 <==> marker)
            &&& f[5] % 128 == 96
            &&& word_at(f, 6) == seq
            &&& long_at(f, 8) == timestamp
            &&& long_at(f, 12) == ssrc
            &&& f.skip(16) == payload
        }),
{
    headers_are_read_back(marker, seq, timestamp, ssrc);
    let h = rtp_header(marker, seq, timestamp, ssrc);
    let f = rtp_frame(channel, marker, seq, timestamp, ssrc, payload);
    assert(forall|k: int| 0 <= k < 12 ==> f[4 + k] == #[trigger] h[k]);
    assert(f[4] == h[0] && f[5] == h[1]);
    assert(f[6] == h[2] && f[7] == h[3]);
    assert(f[8] == h[4] && f[9] == h[5] && f[10] == h[6] && f[11] == h[7]);
    assert(f[12] == h[8] && f[13] == h[9] && f[14] == h[10] && f[15] == h[11]);
    assert(f.skip(16) =~= payload);
}

/// A unit is carried as it is where it fits, and no payload is longer than is
/// allowed.
pub proof fn units_that_fit_go_as_they_are(data: Seq<u8>, mtu: int)
    requires
        2 < mtu,
    ensures
        0 < data.len() <= mtu ==> payloads_of(data, mtu) == seq![data],
        data.len() == 0 ==> payloads_of(data, mtu).len() == 0,
        forall|i: int|
            0 <= i < payloads_of(data, mtu).len() ==> 0 < (#[trigger] payloads_of(
                data,
                mtu,
            )[i]).len() <= mtu,
{
    if data.len() > mtu {
        fragments_give_the_unit_back(data, mtu);
    }
}

/// The units that a client makes of the payloads that it receives: a payload of
/// another type than 28 is a unit itself; one of type 28 begins a unit where it
/// has the start bit, and else goes on with the last.
pub open spec fn received_units(payloads: Seq<Seq<u8>>) -> Seq<Seq<u8>>
    decreases payloads.len(),
{
    if payloads.len() == 0 {
        seq![]
    } else {
        let before = received_units(payloads.drop_last());
        let p = payloads.last();
        if p[0] % 32 != 28 {
            before.push(p)
        } else if p[1] / 128 == 1 {
            before.push(seq![(p[0] / 32 * 32 + p[1] % 32) as u8] + p.skip(2))
        } else {
            before.update(before.len() - 1, before.last() + p.skip(2))
        }
    }
}

proof fn lemma_fragments_received(before: Seq<Seq<u8>>, data: Seq<u8>, mtu: int, k: int)
    requires
        2 < mtu < data.len(),
        1 <= k <= payloads_of(data, mtu).len(),
    ensures
        received_units(before + payloads_of(data, mtu).take(k)) == received_units(before).push(
            data.subrange(
                0,
                if 1 + k * (mtu - 2) < data.len() {
                    1 + k * (mtu - 2)
                } else {
                    data.len() as int
                },
            ),
        ),
    decreases k,
{
    let f = mtu - 2;
    let all = payloads_of(data, mtu);
    let n = data.len() - 1;
    let whole = before + all.take(k);
    lemma_fragment_bounds(n, f, k - 1);
    lemma_fragment_bounds(n, f, k);
    assert(k * f == (k - 1) * f + f) by (nonlinear_arith);
    assert((k - 1) * f >= 0) by (nonlinear_arith)
        requires
            k >= 1,
            f > 0,
    ;
    assert(whole.drop_last() =~= before + all.take(k - 1));
    let last = whole.last();
    assert(last == all[k - 1]);
    assert(last == fragment(data, f, k - 1));
    fragments_give_the_unit_back(data, mtu);
    let from = 1 + (k - 1) * f;
    let to = if from + f < data.len() {
        from + f
    } else {
        data.len() as int
    };
    assert(last.skip(2) =~= data.subrange(from, to));
    let done = received_units(before);
    if k == 1 {
        assert((k - 1) * f == 0) by (nonlinear_arith)
            requires
                k == 1,
        ;
        assert(before + all.take(0) =~= before);
        assert(seq![data[0]] + data.subrange(1, to) =~= data.subrange(0, to));
        assert((last[0] / 32 * 32 + last[1] % 32) as u8 == data[0]);
    } else {
        lemma_fragments_received(before, data, mtu, k - 1);
        let part = data.subrange(0, from);
        assert(received_units(before + all.take(k - 1)) == done.push(part));
        assert(part + data.subrange(from, to) =~= data.subrange(0, to));
        assert(done.push(part).update(done.len() as int, data.subrange(0, to)) =~= done.push(
            data.subrange(0, to),
        ));
    }
}

/// Whether a unit can be told from a fragment: it has a type, and not that of
/// fragments.
pub open spec fn is_unit(data: Seq<u8>) -> bool {
    data.len() > 0 && data[0] % 32 != 28
}

/// A client that receives the payloads of a unit, after others, has the unit
/// after the others.
pub proof fn units_are_received(before: Seq<Seq<u8>>, data: Seq<u8>, mtu: int)
    requires
        2 < mtu,
        is_unit(data),
    ensures
        received_units(before + payloads_of(data, mtu)) == received_units(before).push(data),
{
    let all = payloads_of(data, mtu);
    if data.len() <= mtu {
        assert((before + all).drop_last() =~= before);
    } else {
        let n = data.len() - 1;
        lemma_fragment_bounds(n, mtu - 2, all.len() as int);
        lemma_fragment_bounds(n, mtu - 2, all.len() - 1);
        lemma_fragments_received(before, data, mtu, all.len() as int);
        assert(all.take(all.len() as int) =~= all);
        assert(data.subrange(0, data.len() as int) =~= data);
    }
}

} // verus!
