//! Capture of YU12 frames: how a frame is turned and mirrored before anyone
//! sees it, and what a capture device's answers mean.

use vstd::prelude::*;
use vstd::arithmetic::div_mod::lemma_fundamental_div_mod_converse;
use vstd::slice::{slice_subrange, slice_to_vec};
use vstd::string::*;
use crate::text::{decimal, decimal_text};
use super::source::CameraError;

verus! {

// ---------------------------------------------------------------------------
// Planes
// ---------------------------------------------------------------------------

/// Where byte `k` of a mirrored plane of width `w` and height `h` comes from.
pub open spec fn flip_source(k: int, w: int, h: int, hflip: bool, vflip: bool) -> int {
    let (x, y) = (k % w, k / w);
    (if vflip { h - 1 - y } else { y }) * w + (if hflip { w - 1 - x } else { x })
}

/// A plane mirrored left to right, top to bottom, or both.
pub open spec fn flipped_plane(p: Seq<u8>, w: int, h: int, hflip: bool, vflip: bool) -> Seq<u8> {
    Seq::new(p.len(), |k: int| p[flip_source(k, w, h, hflip, vflip)])
}

/// Where byte `k` of a plane turned by a quarter comes from. The plane was
/// `w` by `h` and becomes `h` by `w`.
pub open spec fn turn_source(k: int, w: int, h: int, clockwise: bool) -> int {
    let (x, y) = (k % h, k / h);
    if clockwise {
        (h - 1 - x) * w + y
    } else {
        x * w + (w - 1 - y)
    }
}

/// A plane turned by a quarter.
pub open spec fn turned_plane(p: Seq<u8>, w: int, h: int, clockwise: bool) -> Seq<u8> {
    Seq::new(p.len(), |k: int| p[turn_source(k, w, h, clockwise)])
}

proof fn lemma_cell(k: int, w: int, h: int)
    requires
        0 <= k < w * h,
        0 < w,
    ensures
        0 <= k / w < h,
        0 <= k % w < w,
        k == k / w * w + k % w,
{
    assert(0 <= k / w < h && 0 <= k % w < w && k == k / w * w + k % w) by (nonlinear_arith)
        requires
            0 <= k < w * h,
            0 < w,
    ;
}

pub proof fn lemma_cell_index(x: int, y: int, w: int, h: int)
    requires
        0 <= x < w,
        0 <= y < h,
    ensures
        0 <= y * w + x < w * h,
        (y * w + x) / w == y,
        (y * w + x) % w == x,
{
    assert(0 <= y * w + x < w * h) by (nonlinear_arith)
        requires
            0 <= x < w,
            0 <= y < h,
    ;
    lemma_fundamental_div_mod_converse(y * w + x, w, y, x);
}

proof fn lemma_flip_source(k: int, w: int, h: int, hflip: bool, vflip: bool)
    requires
        0 <= k < w * h,
        0 < w,
    ensures
        0 <= flip_source(k, w, h, hflip, vflip) < w * h,
        flip_source(flip_source(k, w, h, hflip, vflip), w, h, hflip, vflip) == k,
{
    lemma_cell(k, w, h);
    let (x, y) = (k % w, k / w);
    lemma_cell_index(
        if hflip {
            w - 1 - x
        } else {
            x
        },
        if vflip {
            h - 1 - y
        } else {
            y
        },
        w,
        h,
    );
}

proof fn lemma_turn_source(k: int, w: int, h: int, clockwise: bool)
    requires
        0 <= k < w * h,
        0 < h,
    ensures
        0 <= turn_source(k, w, h, clockwise) < w * h,
{
    assert(w * h == h * w) by (nonlinear_arith);
    lemma_cell(k, h, w);
    let (x, y) = (k % h, k / h);
    if clockwise {
        lemma_cell_index(y, h - 1 - x, w, h);
    } else {
        lemma_cell_index(w - 1 - y, x, w, h);
    }
}

/// Mirroring a plane twice gives it back.
pub proof fn flipping_a_plane_twice(p: Seq<u8>, w: int, h: int, hflip: bool, vflip: bool)
    requires
        0 < w,
        p.len() == w * h,
    ensures
        flipped_plane(flipped_plane(p, w, h, hflip, vflip), w, h, hflip, vflip) == p,
{
    let q = flipped_plane(flipped_plane(p, w, h, hflip, vflip), w, h, hflip, vflip);
    assert forall|k: int| 0 <= k < p.len() implies q[k] == p[k] by {
        lemma_flip_source(k, w, h, hflip, vflip);
    }
    assert(q =~= p);
}

/// A quarter turn and the opposite quarter turn cancel.
pub proof fn opposite_turns_cancel(p: Seq<u8>, w: int, h: int, clockwise: bool)
    requires
        0 < w,
        0 < h,
        p.len() == w * h,
    ensures
        turned_plane(turned_plane(p, w, h, clockwise), h, w, !clockwise) == p,
{
    let t = turned_plane(p, w, h, clockwise);
    let q = turned_plane(t, h, w, !clockwise);
    assert(w * h == h * w) by (nonlinear_arith);
    assert forall|k: int| 0 <= k < p.len() implies q[k] == p[k] by {
        lemma_cell(k, w, h);
        lemma_turn_source(k, h, w, !clockwise);
        let (x, y) = (k % w, k / w);
        if clockwise {
            lemma_cell_index(h - 1 - y, x, h, w);
            assert(turn_source(k, h, w, false) == x * h + (h - 1 - y));
        } else {
            lemma_cell_index(y, w - 1 - x, h, w);
            assert(turn_source(k, h, w, true) == (w - 1 - x) * h + y);
        }
    }
    assert(q =~= p);
}

/// Two quarter turns the same way are a mirroring on both axes.
pub proof fn half_turn_is_both_flips(p: Seq<u8>, w: int, h: int, clockwise: bool)
    requires
        0 < w,
        0 < h,
        p.len() == w * h,
    ensures
        turned_plane(turned_plane(p, w, h, clockwise), h, w, clockwise) == flipped_plane(
            p,
            w,
            h,
            true,
            true,
        ),
{
    let t = turned_plane(p, w, h, clockwise);
    let q = turned_plane(t, h, w, clockwise);
    let f = flipped_plane(p, w, h, true, true);
    assert(w * h == h * w) by (nonlinear_arith);
    assert forall|k: int| 0 <= k < p.len() implies q[k] == f[k] by {
        lemma_cell(k, w, h);
        lemma_turn_source(k, h, w, clockwise);
        let (x, y) = (k % w, k / w);
        if clockwise {
            lemma_cell_index(y, w - 1 - x, h, w);
            assert(turn_source(k, h, w, true) == (w - 1 - x) * h + y);
        } else {
            lemma_cell_index(h - 1 - y, x, h, w);
            assert(turn_source(k, h, w, false) == x * h + (h - 1 - y));
        }
    }
    assert(q =~= f);
}

// ---------------------------------------------------------------------------
// Frames
// ---------------------------------------------------------------------------

/// The bytes from `from` to `to`.
pub open spec fn part(f: Seq<u8>, from: int, to: int) -> Seq<u8> {
    f.subrange(from, to)
}

/// A frame of a luma plane and two chroma planes of `c` bytes, with each plane
/// changed on its own and the bytes behind them kept.
pub open spec fn flipped_frame(f: Seq<u8>, w: int, h: int, hflip: bool, vflip: bool) -> Seq<u8> {
    let (y, cw, ch) = (w * h, w / 2, h / 2);
    let c = cw * ch;
    if (hflip || vflip) && 0 < w && 0 < h && y + 2 * c <= f.len() {
        flipped_plane(part(f, 0, y), w, h, hflip, vflip) + flipped_plane(
            part(f, y, y + c),
            cw,
            ch,
            hflip,
            vflip,
        ) + flipped_plane(part(f, y + c, y + 2 * c), cw, ch, hflip, vflip) + f.skip(y + 2 * c)
    } else {
        f
    }
}

/// Half of a length, rounded up.
pub open spec fn half_up(n: int) -> int {
    (n + 1) / 2
}

/// Bytes of the planes of a frame to be turned.
pub open spec fn turn_size(w: int, h: int) -> int {
    w * h + 2 * (half_up(w) * half_up(h))
}

/// Whether a turn changes a frame at all.
pub open spec fn is_turned(len: int, w: int, h: int, rotation: u32) -> bool {
    (rotation == 90 || rotation == 270) && 0 < w && 0 < h && turn_size(w, h) <= len
}

/// A frame turned by a quarter, with each plane turned on its own and zeros
/// for the bytes behind them.
pub open spec fn turned_frame(f: Seq<u8>, w: int, h: int, rotation: u32) -> Seq<u8> {
    let y = w * h;
    let c = half_up(w) * half_up(h);
    if is_turned(f.len() as int, w, h, rotation) {
        turned_plane(part(f, 0, y), w, h, rotation == 90) + turned_plane(
            part(f, y, y + c),
            half_up(w),
            half_up(h),
            rotation == 90,
        ) + turned_plane(part(f, y + c, y + 2 * c), half_up(w), half_up(h), rotation == 90)
            + Seq::new((f.len() - (y + 2 * c)) as nat, |i: int| 0u8)
    } else {
        f
    }
}

/// Turning a frame by 90 and then by 270 degrees, or the other way round,
/// gives it back, for a frame without bytes behind its planes.
pub proof fn turning_back_gives_the_frame_back(f: Seq<u8>, w: int, h: int, rotation: u32)
    requires
        rotation == 90 || rotation == 270,
        0 < w,
        0 < h,
        f.len() == turn_size(w, h),
    ensures
        turned_frame(turned_frame(f, w, h, rotation), h, w, (360 - rotation) as u32) == f,
{
    let (cw, ch) = (half_up(w), half_up(h));
    let y = w * h;
    let c = cw * ch;
    let clockwise = rotation == 90;
    assert(w * h == h * w && cw * ch == ch * cw) by (nonlinear_arith);
    assert(0 <= w * h && 0 <= cw * ch) by (nonlinear_arith)
        requires
            0 < w,
            0 < h,
            0 < cw,
            0 < ch,
    ;
    let t = turned_frame(f, w, h, rotation);
    let (p0, p1, p2) = (part(f, 0, y), part(f, y, y + c), part(f, y + c, y + 2 * c));
    opposite_turns_cancel(p0, w, h, clockwise);
    opposite_turns_cancel(p1, cw, ch, clockwise);
    opposite_turns_cancel(p2, cw, ch, clockwise);
    assert(part(t, 0, y) =~= turned_plane(p0, w, h, clockwise));
    assert(part(t, y, y + c) =~= turned_plane(p1, cw, ch, clockwise));
    assert(part(t, y + c, y + 2 * c) =~= turned_plane(p2, cw, ch, clockwise));
    assert(turned_frame(t, h, w, (360 - rotation) as u32) =~= p0 + p1 + p2);
    assert(p0 + p1 + p2 =~= f);
}

/// Two quarter turns of a frame of even dimensions are both flips.
pub proof fn half_turn_of_a_frame_is_both_flips(f: Seq<u8>, w: int, h: int, rotation: u32)
    requires
        rotation == 90 || rotation == 270,
        0 < w,
        0 < h,
        w % 2 == 0,
        h % 2 == 0,
        f.len() == turn_size(w, h),
    ensures
        turned_frame(turned_frame(f, w, h, rotation), h, w, rotation) == flipped_frame(
            f,
            w,
            h,
            true,
            true,
        ),
{
    let (cw, ch) = (half_up(w), half_up(h));
    let y = w * h;
    let c = cw * ch;
    let clockwise = rotation == 90;
    assert(cw == w / 2 && ch == h / 2);
    assert(w * h == h * w && cw * ch == ch * cw) by (nonlinear_arith);
    assert(0 <= w * h && 0 <= cw * ch) by (nonlinear_arith)
        requires
            0 < w,
            0 < h,
            0 < cw,
            0 < ch,
    ;
    let t = turned_frame(f, w, h, rotation);
    let (p0, p1, p2) = (part(f, 0, y), part(f, y, y + c), part(f, y + c, y + 2 * c));
    half_turn_is_both_flips(p0, w, h, clockwise);
    half_turn_is_both_flips(p1, cw, ch, clockwise);
    half_turn_is_both_flips(p2, cw, ch, clockwise);
    assert(part(t, 0, y) =~= turned_plane(p0, w, h, clockwise));
    assert(part(t, y, y + c) =~= turned_plane(p1, cw, ch, clockwise));
    assert(part(t, y + c, y + 2 * c) =~= turned_plane(p2, cw, ch, clockwise));
    assert(turned_frame(t, h, w, rotation) =~= flipped_frame(f, w, h, true, true));
}

/// Mirroring a frame twice the same way gives it back.
pub proof fn flipping_a_frame_twice(f: Seq<u8>, w: int, h: int, hflip: bool, vflip: bool)
    requires
        1 < w,
        1 < h,
    ensures
        flipped_frame(flipped_frame(f, w, h, hflip, vflip), w, h, hflip, vflip) == f,
{
    let (y, cw, ch) = (w * h, w / 2, h / 2);
    let c = cw * ch;
    if (hflip || vflip) && y + 2 * c <= f.len() {
        assert(0 <= w * h && 0 <= cw * ch) by (nonlinear_arith)
            requires
                0 < w,
                0 < h,
                0 < cw,
                0 < ch,
        ;
        let t = flipped_frame(f, w, h, hflip, vflip);
        let (p0, p1, p2) = (part(f, 0, y), part(f, y, y + c), part(f, y + c, y + 2 * c));
        flipping_a_plane_twice(p0, w, h, hflip, vflip);
        flipping_a_plane_twice(p1, cw, ch, hflip, vflip);
        flipping_a_plane_twice(p2, cw, ch, hflip, vflip);
        assert(part(t, 0, y) =~= flipped_plane(p0, w, h, hflip, vflip));
        assert(part(t, y, y + c) =~= flipped_plane(p1, cw, ch, hflip, vflip));
        assert(part(t, y + c, y + 2 * c) =~= flipped_plane(p2, cw, ch, hflip, vflip));
        assert(t.skip(y + 2 * c) =~= f.skip(y + 2 * c));
        assert(flipped_frame(t, w, h, hflip, vflip) =~= p0 + p1 + p2 + f.skip(y + 2 * c));
        assert(p0 + p1 + p2 + f.skip(y + 2 * c) =~= f);
    }
}

/// Mirrors the plane of `w` by `h` bytes at `off`, in place.
fn flip_plane_in_place(buf: &mut [u8], off: usize, w: usize, h: usize, hflip: bool, vflip: bool)
    requires
        off + w * h <= old(buf)@.len(),
    ensures
        final(buf)@.len() == old(buf)@.len(),
        forall|k: int|
            0 <= k < old(buf)@.len() && !(off <= k < off + w * h) ==> #[trigger] final(buf)@[k]
                == old(buf)@[k],
        forall|k: int|
            0 <= k < w * h ==> #[trigger] final(buf)@[off + k] == old(buf)@[off + flip_source(
                k,
                w as int,
                h as int,
                hflip,
                vflip,
            )],
{
    if w == 0 || h == 0 {
        proof {
            assert(w * h == 0) by (nonlinear_arith)
                requires
                    w == 0 || h == 0,
            ;
        }
        return;
    }
    let len: usize = buf.len();
    let n: usize = w * h;
    let ghost start = buf@;
    let mut k: usize = 0;
    proof {
        assert forall|j: int| 0 <= j < n implies flip_source(
            j,
            w as int,
            h as int,
            hflip,
            vflip,
        ) >= 0 by {
            lemma_flip_source(j, w as int, h as int, hflip, vflip);
        }
    }
    while k < n
        invariant
            0 < w,
            0 < h,
            n == w * h,
            k <= n,
            off + n <= buf@.len(),
            buf@.len() == start.len(),
            start.len() == len,
            forall|j: int|
                0 <= j < start.len() && !(off <= j < off + n) ==> #[trigger] buf@[j] == start[j],
            forall|j: int|
                #![trigger buf@[off + j]]
                0 <= j < n ==> {
                    let s = flip_source(j, w as int, h as int, hflip, vflip);
                    buf@[off + j] == if j < k || s < k {
                        start[off + s]
                    } else {
                        start[off + j]
                    }
                },
        decreases n - k,
    {
        let ghost (iw, ih) = (w as int, h as int);
        proof {
            lemma_cell(k as int, iw, ih);
            lemma_flip_source(k as int, iw, ih, hflip, vflip);
        }
        let x: usize = k % w;
        let y: usize = k / w;
        let sx: usize = if hflip {
            w - 1 - x
        } else {
            x
        };
        let sy: usize = if vflip {
            h - 1 - y
        } else {
            y
        };
        proof {
            lemma_cell_index(sx as int, sy as int, iw, ih);
        }
        let s: usize = sy * w + sx;
        let ghost before = buf@;
        if k < s {
            let a = buf[off + k];
            let b = buf[off + s];
            buf[off + k] = b;
            buf[off + s] = a;
        }
        proof {
            assert forall|j: int|
                #![trigger buf@[off + j]]
                0 <= j < n implies {
                let t = flip_source(j, iw, ih, hflip, vflip);
                buf@[off + j] == if j < k + 1 || t < k + 1 {
                    start[off + t]
                } else {
                    start[off + j]
                }
            } by {
                lemma_flip_source(j, iw, ih, hflip, vflip);
                assert(before[off + j] == before[off + j]);
                assert(before[off + k] == before[off + k]);
                assert(before[off + s] == before[off + s]);
            }
        }
        k = k + 1;
    }
}

/// Mirrors a YU12 frame in place, left to right, top to bottom or both. A
/// buffer too short for its dimensions is left as it is.
#[verifier::spinoff_prover]
#[verifier::rlimit(60)]
pub fn flip_yu12_in_place(buf: &mut [u8], width: usize, height: usize, hflip: bool, vflip: bool)
    ensures
        final(buf)@ == flipped_frame(old(buf)@, width as int, height as int, hflip, vflip),
{
    let ghost f = buf@;
    let ghost (w, h) = (width as int, height as int);
    if (!hflip && !vflip) || width == 0 || height == 0 {
        return;
    }
    let len: usize = buf.len();
    let y_size: usize = match width.checked_mul(height) {
        Some(y) => y,
        None => {
            proof {
                assert(0 <= (w / 2) * (h / 2)) by (nonlinear_arith)
                    requires
                        0 < w,
                        0 < h,
                ;
            }
            return;
        },
    };
    let c_w: usize = width / 2;
    let c_h: usize = height / 2;
    proof {
        assert(0 <= c_w * c_h <= width * height) by (nonlinear_arith)
            requires
                c_w <= width,
                c_h <= height,
        ;
    }
    let c: usize = c_w * c_h;
    if len < y_size || (len - y_size) / 2 < c {
        return;
    }
    flip_plane_in_place(buf, 0, width, height, hflip, vflip);
    let ghost f1 = buf@;
    flip_plane_in_place(buf, y_size, c_w, c_h, hflip, vflip);
    let ghost f2 = buf@;
    flip_plane_in_place(buf, y_size + c, c_w, c_h, hflip, vflip);
    proof {
        let (y, cw, ch) = (w * h, w / 2, h / 2);
        let cc = cw * ch;
        let want = flipped_frame(f, w, h, hflip, vflip);
        assert(want.len() == f.len());
        assert forall|k: int| 0 <= k < f.len() implies buf@[k] == want[k] by {
            if k < y {
                lemma_flip_source(k, w, h, hflip, vflip);
                assert(f1[0 + k] == f[0 + flip_source(k, w, h, hflip, vflip)]);
            } else if k < y + cc {
                let j = k - y;
                if cw == 0 {
                    assert(cw * ch == 0) by (nonlinear_arith)
                        requires
                            cw == 0,
                    ;
                }
                lemma_flip_source(j, cw, ch, hflip, vflip);
                assert(f2[y_size + j] == f1[y_size + flip_source(j, cw, ch, hflip, vflip)]);
            } else if k < y + 2 * cc {
                let j = k - y - cc;
                if cw == 0 {
                    assert(cw * ch == 0) by (nonlinear_arith)
                        requires
                            cw == 0,
                    ;
                }
                lemma_flip_source(j, cw, ch, hflip, vflip);
                assert(buf@[y_size + c + j] == f2[y_size + c + flip_source(
                    j,
                    cw,
                    ch,
                    hflip,
                    vflip,
                )]);
            }
        }
        assert(buf@ =~= want);
    }
}

/// The dimensions of a frame after a rotation: 90 and 270 degrees swap them.
pub open spec fn rotated(width: u32, height: u32, rotation: u32) -> (u32, u32) {
    if rotation == 90 || rotation == 270 {
        (height, width)
    } else {
        (width, height)
    }
}

/// The dimensions of a frame after a rotation.
pub fn rotated_dims(width: u32, height: u32, rotation: u32) -> (dims: (u32, u32))
    ensures
        dims == rotated(width, height, rotation),
{
    if rotation == 90 || rotation == 270 {
        (height, width)
    } else {
        (width, height)
    }
}

/// A rotation followed by flips, as a quarter turn at most followed by flips:
/// 180 degrees are both flips, and an unknown rotation is none.
pub open spec fn composed(rotation: u32, hflip: bool, vflip: bool) -> (u32, bool, bool) {
    if rotation == 180 {
        (0, !hflip, !vflip)
    } else if rotation == 90 || rotation == 270 {
        (rotation, hflip, vflip)
    } else {
        (0, hflip, vflip)
    }
}

/// Folds a rotation by 180 degrees into the flips.
pub fn compose_rotation_flips(rotation: u32, hflip: bool, vflip: bool) -> (r: (u32, bool, bool))
    ensures
        r == composed(rotation, hflip, vflip),
{
    if rotation == 180 {
        (0, !hflip, !vflip)
    } else if rotation == 90 || rotation == 270 {
        (rotation, hflip, vflip)
    } else {
        (0, hflip, vflip)
    }
}

/// Appends a plane of `w` by `h` bytes, turned by a quarter.
fn transpose_plane(src: &[u8], dst: &mut Vec<u8>, w: usize, h: usize, clockwise: bool)
    requires
        0 < w,
        0 < h,
        src@.len() == w * h,
    ensures
        final(dst)@ == old(dst)@ + turned_plane(src@, w as int, h as int, clockwise),
{
    let ghost (iw, ih) = (w as int, h as int);
    let ghost want = turned_plane(src@, iw, ih, clockwise);
    let len: usize = src.len();
    let mut y: usize = 0;
    proof {
        assert(w * h == h * w) by (nonlinear_arith);
        assert(0 * ih == 0) by (nonlinear_arith);
        assert(dst@ =~= old(dst)@ + want.take(0));
    }
    while y < w
        invariant
            0 < w,
            0 < h,
            iw == w,
            ih == h,
            w * h == h * w,
            src@.len() == w * h,
            len == w * h,
            want == turned_plane(src@, iw, ih, clockwise),
            y <= w,
            0 <= y * ih <= want.len(),
            dst@ == old(dst)@ + want.take(y * ih),
        decreases w - y,
    {
        let mut x: usize = 0;
        while x < h
            invariant
                0 < w,
                0 < h,
                iw == w,
                ih == h,
                w * h == h * w,
                src@.len() == w * h,
                len == w * h,
                want == turned_plane(src@, iw, ih, clockwise),
                y < w,
                x <= h,
                0 <= y * ih + x <= want.len(),
                dst@ == old(dst)@ + want.take(y * ih + x),
            decreases h - x,
        {
            let ghost k = y * ih + x;
            proof {
                lemma_cell_index(x as int, y as int, ih, iw);
                lemma_turn_source(k, iw, ih, clockwise);
                assert(want[k] == src@[turn_source(k, iw, ih, clockwise)]);
                assert(want.take(k + 1) =~= want.take(k).push(want[k]));
                if clockwise {
                    lemma_cell_index(y as int, h - 1 - x, iw, ih);
                } else {
                    lemma_cell_index(w - 1 - y, x as int, iw, ih);
                }
            }
            proof {
                assert((h - 1 - x) * w >= 0 && x * w >= 0) by (nonlinear_arith)
                    requires
                        x < h,
                        0 < w,
                ;
            }
            let s: usize = if clockwise {
                (h - 1 - x) * w + y
            } else {
                x * w + (w - 1 - y)
            };
            dst.push(src[s]);
            proof {
                assert(dst@ =~= old(dst)@ + want.take(k + 1));
            }
            x = x + 1;
        }
        proof {
            assert((y + 1) * ih == y * ih + ih) by (nonlinear_arith);
        }
        y = y + 1;
    }
    proof {
        assert(w * ih == w * h);
        assert(want.take(want.len() as int) =~= want);
    }
}

/// Turns a YU12 frame by 90 degrees clockwise or by 270. The turned frame is
/// written to `scratch`, which then changes places with `buf`. A buffer too
/// short for its dimensions is left as it is, and so is any frame for another
/// rotation. Gives the dimensions after the turn.
pub fn rotate_yu12(
    buf: &mut Vec<u8>,
    scratch: &mut Vec<u8>,
    width: usize,
    height: usize,
    rotation: u32,
) -> (dims: (usize, usize))
    ensures
        final(buf)@ == turned_frame(old(buf)@, width as int, height as int, rotation),
        final(scratch)@ == (if is_turned(
            old(buf)@.len() as int,
            width as int,
            height as int,
            rotation,
        ) {
            old(buf)@
        } else {
            old(scratch)@
        }),
        dims == (if rotation == 90 || rotation == 270 {
            (height, width)
        } else {
            (width, height)
        }),
{
    if rotation != 90 && rotation != 270 {
        return (width, height);
    }
    if width == 0 || height == 0 {
        return (height, width);
    }
    let ghost (w, h) = (width as int, height as int);
    let clockwise = rotation == 90;
    let len: usize = buf.len();
    let y_size: usize = match width.checked_mul(height) {
        Some(y) => y,
        None => {
            proof {
                let (cw, ch) = (half_up(w), half_up(h));
                assert(0 <= cw * ch) by (nonlinear_arith)
                    requires
                        0 <= cw,
                        0 <= ch,
                ;
            }
            return (height, width);
        },
    };
    let c_w: usize = width / 2 + width % 2;
    let c_h: usize = height / 2 + height % 2;
    proof {
        assert(0 < c_w * c_h <= width * height && 0 < width * height) by (nonlinear_arith)
            requires
                0 < c_w <= width,
                0 < c_h <= height,
        ;
        assert(c_w == half_up(w) && c_h == half_up(h));
    }
    let c: usize = c_w * c_h;
    if len < y_size || (len - y_size) / 2 < c {
        return (height, width);
    }
    let ghost f = buf@;
    let all = buf.as_slice();
    let mut turned: Vec<u8> = Vec::new();
    let p0 = slice_subrange(all, 0, y_size);
    let p1 = slice_subrange(all, y_size, y_size + c);
    let p2 = slice_subrange(all, y_size + c, y_size + 2 * c);
    transpose_plane(p0, &mut turned, width, height, clockwise);
    transpose_plane(p1, &mut turned, c_w, c_h, clockwise);
    transpose_plane(p2, &mut turned, c_w, c_h, clockwise);
    let ghost planes = turned@;
    while turned.len() < buf.len()
        invariant
            f == buf@,
            planes.len() == turn_size(w, h),
            planes.len() <= turned@.len() <= f.len(),
            turned@ == planes + Seq::new((turned@.len() - planes.len()) as nat, |i: int| 0u8),
        decreases buf.len() - turned.len(),
    {
        turned.push(0);
    }
    proof {
        assert(turned@ =~= turned_frame(f, w, h, rotation));
    }
    std::mem::swap(buf, scratch);
    *buf = turned;
    (height, width)
}

// ---------------------------------------------------------------------------
// Runtime flips
// ---------------------------------------------------------------------------

/// Device-level flip flags, which control commands may change at runtime.
#[derive(Debug, Clone, Copy, PartialEq, Eq, Structural)]
pub struct Flips {
    hflip: bool,
    vflip: bool,
}

impl View for Flips {
    type V = (bool, bool);

    closed spec fn view(&self) -> (bool, bool) {
        (self.hflip, self.vflip)
    }
}

impl Default for Flips {
    fn default() -> (f: Self)
        ensures
            f@ == (false, false),
    {
        Flips { hflip: false, vflip: false }
    }
}

impl Flips {
    /// Sets both flags.
    pub fn set(&mut self, hflip: bool, vflip: bool)
        ensures
            final(self)@ == (hflip, vflip),
    {
        self.hflip = hflip;
        self.vflip = vflip;
    }

    /// Reads both flags.
    pub fn load(&self) -> (flags: (bool, bool))
        ensures
            flags == self@,
    {
        (self.hflip, self.vflip)
    }
}

// ---------------------------------------------------------------------------
// Producer
// ---------------------------------------------------------------------------

/// Frames between two that are shared, unless set otherwise.
pub const DEFAULT_SHARE_INTERVAL: u32 = 15;

/// The state of a capture apart from its device: what every frame goes
/// through on its way to the encoder, and the frame last shared.
pub struct V4l2CaptureProducer {
    device_path: String,
    width: u32,
    height: u32,
    fps: u32,
    latest_yuv: Option<(u32, u32, Vec<u8>)>,
    yuv_share_interval: u32,
    frame_counter: u64,
    flips: Flips,
    rotation: u32,
    rotate_scratch: Vec<u8>,
}

/// A shared frame: its dimensions and bytes.
pub struct SharedFrame {
    pub width: u32,
    pub height: u32,
    pub data: Seq<u8>,
}

/// What a capture does with frames.
pub struct CaptureState {
    pub device_path: Seq<char>,
    pub width: u32,
    pub height: u32,
    pub fps: u32,
    pub latest: Option<SharedFrame>,
    pub share_interval: u32,
    pub frames: u64,
    pub flips: (bool, bool),
    pub rotation: u32,
}

impl View for V4l2CaptureProducer {
    type V = CaptureState;

    closed spec fn view(&self) -> CaptureState {
        CaptureState {
            device_path: self.device_path@,
            width: self.width,
            height: self.height,
            fps: self.fps,
            latest: match self.latest_yuv {
                Some((w, h, d)) => Some(SharedFrame { width: w, height: h, data: d@ }),
                None => None,
            },
            share_interval: self.yuv_share_interval,
            frames: self.frame_counter,
            flips: self.flips@,
            rotation: self.rotation,
        }
    }
}

/// A frame as everyone sees it: turned, then mirrored.
pub open spec fn transformed(f: Seq<u8>, s: CaptureState) -> Seq<u8> {
    let (r, hflip, vflip) = composed(s.rotation, s.flips.0, s.flips.1);
    let (w, h) = rotated(s.width, s.height, r);
    flipped_frame(
        turned_frame(f, s.width as int, s.height as int, r),
        w as int,
        h as int,
        hflip,
        vflip,
    )
}

/// Whether the frame that makes a count is shared.
pub open spec fn is_shared(frames: u64, interval: u32) -> bool {
    interval > 0 && frames as int % interval as int == 0
}

impl V4l2CaptureProducer {
    /// A capture that has not been opened, without rotation or flips.
    pub fn new(device_path: &str, width: u32, height: u32, fps: u32) -> (p: Self)
        ensures
            p@ == (CaptureState {
                device_path: device_path@,
                width,
                height,
                fps,
                latest: None,
                share_interval: DEFAULT_SHARE_INTERVAL,
                frames: 0,
                flips: (false, false),
                rotation: 0,
            }),
    {
        V4l2CaptureProducer {
            device_path: device_path.to_owned(),
            width,
            height,
            fps,
            latest_yuv: None,
            yuv_share_interval: DEFAULT_SHARE_INTERVAL,
            frame_counter: 0,
            flips: Flips::default(),
            rotation: 0,
            rotate_scratch: Vec::new(),
        }
    }

    /// Sets the flips of every frame from here on.
    pub fn set_flips(&mut self, hflip: bool, vflip: bool)
        ensures
            final(self)@ == (CaptureState { flips: (hflip, vflip), ..old(self)@ }),
    {
        self.flips.set(hflip, vflip);
    }

    /// Sets the rotation of every frame from here on; anything but a quarter,
    /// a half or three quarters is none.
    pub fn set_rotation(&mut self, degrees: u32)
        ensures
            final(self)@ == (CaptureState {
                rotation: if degrees == 90 || degrees == 180 || degrees == 270 {
                    degrees
                } else {
                    0
                },
                ..old(self)@
            }),
    {
        self.rotation = if degrees == 90 || degrees == 180 || degrees == 270 {
            degrees
        } else {
            0
        };
    }

    /// Sets how many frames lie between two that are shared.
    pub fn set_yuv_share_interval(&mut self, n: u32)
        ensures
            final(self)@ == (CaptureState { share_interval: n, ..old(self)@ }),
    {
        self.yuv_share_interval = n;
    }

    /// Takes on the dimensions that the device chose.
    pub fn set_dims(&mut self, width: u32, height: u32)
        ensures
            final(self)@ == (CaptureState { width, height, ..old(self)@ }),
    {
        self.width = width;
        self.height = height;
    }

    /// The device.
    pub fn device_path(&self) -> (path: &str)
        ensures
            path@ == self@.device_path,
    {
        self.device_path.as_str()
    }

    /// Width and height of what is captured.
    pub fn resolution(&self) -> (dims: (u32, u32))
        ensures
            dims == (self@.width, self@.height),
    {
        (self.width, self.height)
    }

    /// Frames per second.
    pub fn fps(&self) -> (fps: u32)
        ensures
            fps == self@.fps,
    {
        self.fps
    }

    /// The frame last shared.
    pub fn latest_yuv(&self) -> (latest: Option<(u32, u32, &Vec<u8>)>)
        ensures
            self@.latest == (match latest {
                Some((w, h, d)) => Some(SharedFrame { width: w, height: h, data: d@ }),
                None => None,
            }),
    {
        match &self.latest_yuv {
            Some((w, h, d)) => Some((*w, *h, d)),
            None => None,
        }
    }

    /// Turns and mirrors a captured frame, and gives its dimensions.
    pub fn transform(&mut self, data: &mut Vec<u8>) -> (dims: (u32, u32))
        ensures
            final(self)@ == old(self)@,
            final(data)@ == transformed(old(data)@, old(self)@),
            dims == rotated(
                old(self)@.width,
                old(self)@.height,
                composed(old(self)@.rotation, false, false).0,
            ),
    {
        let (flip_h, flip_v) = self.flips.load();
        let (rotation, hflip, vflip) = compose_rotation_flips(self.rotation, flip_h, flip_v);
        let (out_w, out_h) = rotated_dims(self.width, self.height, rotation);
        if rotation == 90 || rotation == 270 {
            let mut scratch: Vec<u8> = Vec::new();
            std::mem::swap(&mut scratch, &mut self.rotate_scratch);
            rotate_yu12(
                data,
                &mut scratch,
                self.width as usize,
                self.height as usize,
                rotation,
            );
            self.rotate_scratch = scratch;
        }
        if hflip || vflip {
            flip_yu12_in_place(
                data.as_mut_slice(),
                out_w as usize,
                out_h as usize,
                hflip,
                vflip,
            );
        }
        (out_w, out_h)
    }

    /// Counts a finished frame, shares it when it is due, and tells whether it
    /// was.
    pub fn finish_frame(&mut self, width: u32, height: u32, data: &Vec<u8>) -> (shared: bool)
        requires
            old(self)@.frames < u64::MAX,
        ensures
            shared == is_shared((old(self)@.frames + 1) as u64, old(self)@.share_interval),
            final(self)@ == (CaptureState {
                frames: (old(self)@.frames + 1) as u64,
                latest: if is_shared((old(self)@.frames + 1) as u64, old(self)@.share_interval) {
                    Some(SharedFrame { width, height, data: data@ })
                } else {
                    old(self)@.latest
                },
                ..old(self)@
            }),
    {
        self.frame_counter = self.frame_counter + 1;
        let due = self.yuv_share_interval > 0 && self.frame_counter
            % self.yuv_share_interval as u64 == 0;
        if due {
            self.latest_yuv = Some((width, height, slice_to_vec(data.as_slice())));
        }
        due
    }
}

/// Turned and mirrored, a frame is as long as before.
pub proof fn transforming_keeps_the_size(f: Seq<u8>, s: CaptureState)
    ensures
        transformed(f, s).len() == f.len(),
{
    let (r, hflip, vflip) = composed(s.rotation, s.flips.0, s.flips.1);
    let (w, h) = (s.width as int, s.height as int);
    let (cw, ch) = (half_up(w), half_up(h));
    assert(0 <= w * h && 0 <= cw * ch) by (nonlinear_arith)
        requires
            0 <= w,
            0 <= h,
            0 <= cw,
            0 <= ch,
    ;
    let t = turned_frame(f, w, h, r);
    assert(t.len() == f.len());
    let (ow, oh) = rotated(s.width, s.height, r);
    let (x, y) = (ow as int, oh as int);
    assert(0 <= x * y && 0 <= (x / 2) * (y / 2)) by (nonlinear_arith)
        requires
            0 <= x,
            0 <= y,
    ;
}

// ---------------------------------------------------------------------------
// Answers of the device
// ---------------------------------------------------------------------------

/// Buffers to ask the device for.
pub const NUM_BUFFERS: u32 = 4;

/// Tests how many buffers the device has given.
pub fn check_buffer_count(count: u32) -> (r: Result<(), CameraError>)
    ensures
        r is Ok <==> count >= 2,
        r matches Err(e) ==> (e matches CameraError::Config(t) && t@ == "device allocated only "@
            + decimal(count as nat) + " buffers (need ≥ 2)"@),
{
    if count < 2 {
        let mut text = "device allocated only ".to_owned();
        text.append(decimal_text(count as u64).as_str());
        text.append(" buffers (need ≥ 2)");
        return Err(CameraError::Config(text));
    }
    Ok(())
}

/// Bytes of a buffer: as the device says, or a frame's worth where it says
/// nothing.
pub fn buffer_length(reported: u32, width: u32, height: u32) -> (length: u32)
    ensures
        length == (if reported > 0 {
            reported as int
        } else {
            width * height * 3 / 2 % 0x1_0000_0000
        }),
{
    if reported > 0 {
        reported
    } else {
        assert(0 <= width * height <= 0xffff_ffff * 0xffff_ffff) by (nonlinear_arith)
            requires
                width <= 0xffff_ffff,
                height <= 0xffff_ffff,
        ;
        let size: u128 = width as u128 * height as u128 * 3 / 2;
        (size % 0x1_0000_0000) as u32
    }
}

/// How the wait for a frame ended: an error of the system, in words, or the
/// number of ready devices.
pub fn check_poll(ready: Result<u32, String>) -> (r: Result<(), CameraError>)
    ensures
        r is Ok <==> (ready matches Ok(n) && n > 0),
        match ready {
            Err(t) => r matches Err(CameraError::Io(u)) && u@ == t@,
            Ok(n) => n == 0 ==> (r matches Err(CameraError::Disconnected(u)) && u@
                == "capture poll timeout"@),
        },
{
    match ready {
        Err(t) => Err(CameraError::Io(t)),
        Ok(n) => if n == 0 {
            Err(CameraError::Disconnected("capture poll timeout".to_owned()))
        } else {
            Ok(())
        },
    }
}

/// What the device gave when asked for a filled buffer.
pub enum Dequeued {
    /// A buffer, and the bytes in it that count.
    Filled { index: u32, bytesused: u32 },
    /// Nothing yet.
    Again,
    /// An error of the system, in words.
    Failed(String),
}

/// The bytes of a filled buffer that count: as many as the device says, if
/// they fit, else all.
pub open spec fn counted(bytesused: u32, length: u32) -> u32 {
    if 0 < bytesused <= length {
        bytesused
    } else {
        length
    }
}

/// Decides about a dequeued buffer: which to read and how much of it, or to
/// ask again.
pub fn check_dequeued(d: Dequeued, lengths: &Vec<u32>) -> (r: Result<
    Option<(usize, usize)>,
    CameraError,
>)
    ensures
        match d {
            Dequeued::Again => r matches Ok(None),
            Dequeued::Failed(t) => r matches Err(CameraError::Io(u)) && u@ == t@,
            Dequeued::Filled { index, bytesused } => if index < lengths@.len() {
                r == Ok::<_, CameraError>(
                    Some((index as usize, counted(bytesused, lengths@[index as int]) as usize)),
                )
            } else {
                r matches Err(CameraError::Disconnected(u)) && u@ == "buffer index "@ + decimal(
                    index as nat,
                ) + " out of range"@
            },
        },
{
    match d {
        Dequeued::Again => Ok(None),
        Dequeued::Failed(t) => Err(CameraError::Io(t)),
        Dequeued::Filled { index, bytesused } => {
            let at: usize = index as usize;
            if at >= lengths.len() {
                let mut text = "buffer index ".to_owned();
                text.append(decimal_text(index as u64).as_str());
                text.append(" out of range");
                return Err(CameraError::Disconnected(text));
            }
            let length: u32 = lengths[at];
            let used: u32 = if 0 < bytesused && bytesused <= length {
                bytesused
            } else {
                length
            };
            Ok(Some((at, used as usize)))
        },
    }
}

/// The number of a device request: direction, argument size, type and number
/// in their bits.
pub fn ioc(dir: u32, typ: u32, nr: u32, size: u32) -> (code: u32)
    requires
        dir < 4,
        typ < 256,
        nr < 256,
        size < 0x4000,
    ensures
        code == dir * 0x4000_0000 + size * 0x1_0000 + typ * 0x100 + nr,
{
    dir * 0x4000_0000 + size * 0x1_0000 + typ * 0x100 + nr
}

/// Frames are shared at every interval and not in between; at none without an
/// interval.
pub proof fn shared_frames_are_an_interval_apart(frames: u64, interval: u32, d: u32)
    requires
        frames + interval <= u64::MAX,
        0 < d < interval,
        is_shared(frames, interval),
    ensures
        is_shared(0, interval),
        is_shared((frames + interval) as u64, interval),
        !is_shared((frames + d) as u64, interval),
        !is_shared(frames, 0),
{
    let (c, p) = (frames as int, interval as int);
    assert(0int % p == 0) by (nonlinear_arith)
        requires
            0 < p,
    ;
    vstd::arithmetic::div_mod::lemma_mod_add_multiples_vanish(c, p);
    let k = c / p;
    vstd::arithmetic::div_mod::lemma_fundamental_div_mod(c, p);
    assert(p * k == k * p) by (nonlinear_arith);
    lemma_fundamental_div_mod_converse(c + d, p, k, d as int);
}

/// What counts of a buffer is never more than the buffer, and what the device
/// says where that is something and fits.
pub proof fn counted_bytes_fit(bytesused: u32, length: u32)
    ensures
        counted(bytesused, length) <= length,
        1 <= bytesused <= length ==> counted(bytesused, length) == bytesused,
        bytesused == 0 || bytesused > length ==> counted(bytesused, length) == length,
{
}

} // verus!
