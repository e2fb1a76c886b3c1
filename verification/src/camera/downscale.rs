//! Nearest-neighbour I420 (YU12) downscaler for the bandwidth-saving
//! substream.
//!
//! A contiguous I420 frame holds the luma plane, then the two chroma planes,
//! each halved on both axes.

use vstd::prelude::*;
use vstd::slice::slice_to_vec;
use vstd::arithmetic::div_mod::lemma_fundamental_div_mod_converse;

verus! {

/// Bytes of the luma plane.
pub open spec fn luma_size(w: int, h: int) -> int {
    w * h
}

/// Bytes of one chroma plane: halved per axis, not of the product.
pub open spec fn chroma_size(w: int, h: int) -> int {
    (w / 2) * (h / 2)
}

/// Bytes a frame must hold to be scaled. A frame one sample wide or high has
/// no chroma plane of its own and must hold the nominal three halves.
pub open spec fn required_size(w: int, h: int) -> int {
    if chroma_size(w, h) == 0 {
        luma_size(w, h) * 3 / 2
    } else {
        luma_size(w, h) + 2 * chroma_size(w, h)
    }
}

/// The source index that destination index `d` samples on an axis of `dst`
/// samples laid over one of `src`.
pub open spec fn axis_source(d: int, dst: int, src: int) -> int {
    d * src / dst
}

/// Length of one axis of a destination chroma plane, at least one.
pub open spec fn chroma_axis(n: int) -> int {
    if n / 2 >= 1 {
        n / 2
    } else {
        1
    }
}

/// The source chroma index of destination chroma index `d`: that of luma
/// index `2 * d`, halved.
pub open spec fn chroma_source(d: int, dst: int, src: int) -> int {
    axis_source(if 2 * d <= dst - 1 { 2 * d } else { dst - 1 }, dst, src) / 2
}

/// Whether a frame is scaled at all, rather than copied.
pub open spec fn is_scaled(len: int, sw: int, sh: int, dw: int, dh: int) -> bool {
    &&& 0 < dw <= sw
    &&& 0 < dh <= sh
    &&& !(dw == sw && dh == sh)
    &&& required_size(sw, sh) <= len
}

/// The source byte behind byte `k` of the scaled frame.
pub open spec fn source_index(k: int, sw: int, sh: int, dw: int, dh: int) -> int {
    let y = dw * dh;
    let cw = chroma_axis(dw);
    let c = chroma_axis(dh) * cw;
    if k < y {
        axis_source(k / dw, dh, sh) * sw + axis_source(k % dw, dw, sw)
    } else {
        let p = if k < y + c { k - y } else { k - y - c };
        let plane = if k < y + c { luma_size(sw, sh) } else {
            luma_size(sw, sh) + chroma_size(sw, sh)
        };
        plane + chroma_source(p / cw, dh, sh) * (sw / 2) + chroma_source(p % cw, dw, sw)
    }
}

/// Bytes of the scaled frame.
pub open spec fn scaled_size(dw: int, dh: int) -> int {
    dw * dh + 2 * (chroma_axis(dh) * chroma_axis(dw))
}

/// The frame scaled to `dw` by `dh`.
pub open spec fn downscaled(src: Seq<u8>, sw: int, sh: int, dw: int, dh: int) -> Seq<u8> {
    if is_scaled(src.len() as int, sw, sh, dw, dh) {
        Seq::new(
            scaled_size(dw, dh) as nat,
            |k: int| src[source_index(k, sw, sh, dw, dh)],
        )
    } else {
        src
    }
}

proof fn lemma_axis_in_range(d: int, dst: int, src: int)
    requires
        0 <= d < dst,
        0 < src,
    ensures
        0 <= axis_source(d, dst, src) < src,
{
    assert(0 <= d * src / dst < src) by (nonlinear_arith)
        requires
            0 <= d < dst,
            0 < src,
    ;
}

proof fn lemma_chroma_in_range(d: int, dst: int, src: int)
    requires
        0 < dst <= src,
        0 <= d < chroma_axis(dst),
    ensures
        0 <= chroma_source(d, dst, src) < chroma_axis(src),
{
    if dst == 1 {
        assert(0 * src / 1 == 0) by (nonlinear_arith);
    } else {
        let col = 2 * d;
        assert(0 <= col <= dst - 2);
        assert(0 <= col * src / dst <= src - 2) by (nonlinear_arith)
            requires
                0 <= col <= dst - 2,
                0 < dst <= src,
        ;
    }
}

/// Every byte of a scaled frame comes from inside the source frame.
pub proof fn scaled_bytes_come_from_the_source(
    len: int,
    sw: int,
    sh: int,
    dw: int,
    dh: int,
    k: int,
)
    requires
        is_scaled(len, sw, sh, dw, dh),
        0 <= k < scaled_size(dw, dh),
    ensures
        0 <= source_index(k, sw, sh, dw, dh) < len,
{
    let y = dw * dh;
    let cw = chroma_axis(dw);
    let ch = chroma_axis(dh);
    let c = ch * cw;
    if k < y {
        assert(0 <= k / dw < dh && 0 <= k % dw < dw) by (nonlinear_arith)
            requires
                0 <= k < dw * dh,
                0 < dw,
        ;
        lemma_axis_in_range(k / dw, dh, sh);
        lemma_axis_in_range(k % dw, dw, sw);
        let r = axis_source(k / dw, dh, sh);
        let x = axis_source(k % dw, dw, sw);
        assert(0 <= r * sw + x < sw * sh) by (nonlinear_arith)
            requires
                0 <= r < sh,
                0 <= x < sw,
        ;
        assert((sw / 2) * (sh / 2) >= 0) by (nonlinear_arith)
            requires
                0 < sw,
                0 < sh,
        ;
    } else {
        let p = if k < y + c {
            k - y
        } else {
            k - y - c
        };
        assert(0 <= p / cw < ch && 0 <= p % cw < cw) by (nonlinear_arith)
            requires
                0 <= p < ch * cw,
                0 < cw,
        ;
        lemma_chroma_in_range(p / cw, dh, sh);
        lemma_chroma_in_range(p % cw, dw, sw);
        let r = chroma_source(p / cw, dh, sh);
        let x = chroma_source(p % cw, dw, sw);
        let cws = sw / 2;
        let chs = sh / 2;
        if sw >= 2 && sh >= 2 {
            assert(0 <= r * cws + x < cws * chs) by (nonlinear_arith)
                requires
                    0 <= r < chs,
                    0 <= x < cws,
            ;
            assert(cws * chs > 0) by (nonlinear_arith)
                requires
                    cws >= 1,
                    chs >= 1,
            ;
        } else if sw == 1 {
            assert(cws * chs == 0 && r * cws == 0) by (nonlinear_arith)
                requires
                    cws == 0,
            ;
            assert(x == 0);
            assert(sw * sh == sh) by (nonlinear_arith)
                requires
                    sw == 1,
            ;
            assert(sh >= 2);
        } else {
            assert(cws * chs == 0) by (nonlinear_arith)
                requires
                    chs == 0,
            ;
            assert(r == 0);
            assert(r * cws == 0) by (nonlinear_arith)
                requires
                    r == 0,
            ;
            assert(sw * sh == sw) by (nonlinear_arith)
                requires
                    sh == 1,
            ;
            assert(sw >= 2);
        }
        assert(0 <= sw * sh) by (nonlinear_arith)
            requires
                0 < sw,
                0 < sh,
        ;
    }
}

/// Scaling to the frame's own size, or to a larger one on either axis, gives
/// the frame back.
pub proof fn identity_and_upscale_copy(src: Seq<u8>, sw: int, sh: int, dw: int, dh: int)
    requires
        dw >= sw,
        dh >= sh || dw > sw,
    ensures
        downscaled(src, sw, sh, dw, dh) == src,
        downscaled(src, sh, sw, dh, dw) == src,
{
}

/// Plane sizes of an I420 frame: the luma bytes and the bytes of one chroma
/// plane, or nothing where the luma plane is beyond the address space.
pub fn plane_sizes(w: u32, h: u32) -> (sizes: Option<(usize, usize)>)
    ensures
        sizes is Some <==> w * h <= usize::MAX,
        sizes matches Some((y, c)) ==> y == luma_size(w as int, h as int) && c == chroma_size(
            w as int,
            h as int,
        ),
{
    let wide: usize = w as usize;
    let high: usize = h as usize;
    match wide.checked_mul(high) {
        None => None,
        Some(y) => {
            assert((wide / 2) * (high / 2) <= wide * high) by (nonlinear_arith);
            Some((y, (wide / 2) * (high / 2)))
        },
    }
}

/// The table of source indices for one axis.
pub fn map_axis(dst: u32, src: u32) -> (table: Vec<usize>)
    ensures
        table.len() == dst,
        forall|d: int|
            0 <= d < dst ==> #[trigger] table[d] == axis_source(d, dst as int, src as int),
        0 < src ==> forall|d: int| 0 <= d < dst ==> #[trigger] table[d] < src,
{
    let mut table: Vec<usize> = Vec::new();
    let mut d: u32 = 0;
    while d < dst
        invariant
            d <= dst,
            table.len() == d,
            forall|i: int|
                0 <= i < d ==> #[trigger] table[i] == axis_source(i, dst as int, src as int),
            0 < src ==> forall|i: int| 0 <= i < d ==> #[trigger] table[i] < src,
        decreases dst - d,
    {
        assert(d as u64 * src as u64 <= 0xffff_ffffu64 * 0xffff_ffffu64) by (nonlinear_arith)
            requires
                d <= 0xffff_ffff,
                src <= 0xffff_ffff,
        ;
        proof {
            if 0 < src {
                lemma_axis_in_range(d as int, dst as int, src as int);
            } else {
                assert(d * 0 / dst as int == 0) by (nonlinear_arith)
                    requires
                        dst > 0,
                ;
            }
        }
        let s: u64 = d as u64 * src as u64 / dst as u64;
        table.push(s as usize);
        d = d + 1;
    }
    table
}

/// Appends `width` samples of one row: sample `x` of the row lies at
/// `start + table[x]` of `src`.
fn push_row(out: &mut Vec<u8>, src: &[u8], start: usize, table: &Vec<usize>)
    requires
        forall|x: int| 0 <= x < table.len() ==> start + #[trigger] table[x] < src.len(),
    ensures
        final(out)@ == old(out)@ + Seq::new(
            table.len() as nat,
            |x: int| src@[start + table[x]],
        ),
{
    let mut x: usize = 0;
    while x < table.len()
        invariant
            x <= table.len(),
            forall|i: int| 0 <= i < table.len() ==> start + #[trigger] table[i] < src.len(),
            out@ == old(out)@ + Seq::new(x as nat, |i: int| src@[start + table[i]]),
        decreases table.len() - x,
    {
        out.push(src[start + table[x]]);
        proof {
            assert(Seq::new((x + 1) as nat, |i: int| src@[start + table[i]]) =~= Seq::new(
                x as nat,
                |i: int| src@[start + table[i]],
            ).push(src@[start + table[x as int]]));
        }
        x = x + 1;
    }
}

/// Appends one plane of `rows.len()` rows by `cols.len()` samples read from
/// `src` at `base`, with `stride` bytes from row to row.
fn push_plane(
    out: &mut Vec<u8>,
    src: &[u8],
    base: usize,
    stride: usize,
    rows: &Vec<usize>,
    cols: &Vec<usize>,
)
    requires
        cols.len() > 0,
        forall|r: int, x: int|
            0 <= r < rows.len() && 0 <= x < cols.len() ==> base + #[trigger] rows[r] * stride
                + #[trigger] cols[x] < src.len(),
    ensures
        final(out)@ == old(out)@ + Seq::new(
            (rows.len() * cols.len()) as nat,
            |k: int|
                src@[base + rows[k / cols.len() as int] * stride + cols[k % cols.len() as int]],
        ),
{
    let ghost w = cols.len() as int;
    let ghost at = |k: int| src@[base + rows[k / w] * stride + cols[k % w]];
    let mut r: usize = 0;
    proof {
        assert(0 * w == 0);
    }
    while r < rows.len()
        invariant
            r <= rows.len(),
            cols.len() > 0,
            w == cols.len(),
            at == (|k: int| src@[base + rows[k / w] * stride + cols[k % w]]),
            forall|i: int, x: int|
                0 <= i < rows.len() && 0 <= x < cols.len() ==> base + #[trigger] rows[i] * stride
                    + #[trigger] cols[x] < src.len(),
            0 <= r * w,
            out@ == old(out)@ + Seq::new((r * w) as nat, at),
        decreases rows.len() - r,
    {
        proof {
            assert(base + rows[r as int] * stride + cols[0int] < src.len());
            assert(0 <= rows[r as int] * stride) by (nonlinear_arith)
                requires
                    0 <= rows[r as int],
                    0 <= stride,
            ;
        }
        let start: usize = base + rows[r] * stride;
        let ghost before = out@;
        push_row(out, src, start, cols);
        proof {
            assert((r + 1) * w == r * w + w) by (nonlinear_arith);
            let row = Seq::new(cols.len() as nat, |x: int| src@[start + cols[x]]);
            let whole = Seq::new(((r + 1) * w) as nat, at);
            assert forall|k: int| r * w <= k < (r + 1) * w implies whole[k] == #[trigger] row[k - r
                * w] by {
                let x = k - r * w;
                lemma_fundamental_div_mod_converse(k, w, r as int, x);
            }
            assert(whole =~= Seq::new((r * w) as nat, at) + row);
            assert(out@ =~= old(out)@ + whole);
        }
        r = r + 1;
    }
}

/// The chroma table of one axis, from its luma table.
fn chroma_table(luma: &Vec<usize>, dst: u32, src: u32) -> (table: Vec<usize>)
    requires
        0 < dst <= src,
        luma.len() == dst,
        forall|d: int|
            0 <= d < dst ==> #[trigger] luma[d] == axis_source(d, dst as int, src as int),
    ensures
        table.len() == chroma_axis(dst as int),
        forall|d: int|
            0 <= d < table.len() ==> #[trigger] table[d] == chroma_source(
                d,
                dst as int,
                src as int,
            ),
        forall|d: int|
            0 <= d < table.len() ==> #[trigger] table[d] < chroma_axis(src as int),
{
    let len: usize = if dst / 2 >= 1 {
        (dst / 2) as usize
    } else {
        1
    };
    let last: usize = luma.len() - 1;
    let mut table: Vec<usize> = Vec::new();
    let mut d: usize = 0;
    while d < len
        invariant
            d <= len,
            len == chroma_axis(dst as int),
            0 < dst <= src,
            last == dst - 1,
            luma.len() == dst,
            forall|i: int|
                0 <= i < dst ==> #[trigger] luma[i] == axis_source(i, dst as int, src as int),
            table.len() == d,
            forall|i: int|
                0 <= i < d ==> #[trigger] table[i] == chroma_source(i, dst as int, src as int),
            forall|i: int| 0 <= i < d ==> #[trigger] table[i] < chroma_axis(src as int),
        decreases len - d,
    {
        let col: usize = if d * 2 <= last {
            d * 2
        } else {
            last
        };
        proof {
            lemma_chroma_in_range(d as int, dst as int, src as int);
        }
        table.push(luma[col] / 2);
        d = d + 1;
    }
    table
}

/// Downscales a contiguous I420 frame to `dst_w` by `dst_h`.
///
/// The frame comes back unchanged where there is nothing to scale: equal or
/// larger destination dimensions, a zero dimension, or a frame shorter than
/// its dimensions call for.
pub fn downscale_yu420(src: &[u8], src_w: u32, src_h: u32, dst_w: u32, dst_h: u32) -> (out: Vec<
    u8,
>)
    ensures
        out@ == downscaled(src@, src_w as int, src_h as int, dst_w as int, dst_h as int),
{
    if dst_w == 0 || dst_h == 0 || dst_w > src_w || dst_h > src_h || (dst_w == src_w && dst_h
        == src_h) {
        return slice_to_vec(src);
    }
    let ghost (sw, sh, dw, dh) = (src_w as int, src_h as int, dst_w as int, dst_h as int);
    proof {
        assert(0 <= sw * sh && 0 <= (sw / 2) * (sh / 2)) by (nonlinear_arith)
            requires
                0 < sw,
                0 < sh,
        ;
    }
    let len: usize = src.len();
    let (src_y, src_c): (usize, usize) = match plane_sizes(src_w, src_h) {
        None => { return slice_to_vec(src); },
        Some(sizes) => sizes,
    };
    if len < src_y {
        return slice_to_vec(src);
    }
    let spare: usize = len - src_y;
    if (src_c == 0 && spare < src_y / 2) || (src_c > 0 && spare / 2 < src_c) {
        return slice_to_vec(src);
    }
    let xmap = map_axis(dst_w, src_w);
    let ymap = map_axis(dst_h, src_h);
    let cxmap = chroma_table(&xmap, dst_w, src_w);
    let cymap = chroma_table(&ymap, dst_h, src_h);
    let src_cw: usize = (src_w / 2) as usize;
    let ghost cw = chroma_axis(dw);
    let ghost ch = chroma_axis(dh);
    let mut out: Vec<u8> = Vec::new();
    proof {
        assert(0 < dw * dh && 0 < ch * cw) by (nonlinear_arith)
            requires
                0 < dw,
                0 < dh,
                0 < cw,
                0 < ch,
        ;
        assert(dw * dh == dh * dw) by (nonlinear_arith);
        assert forall|r: int, x: int| 0 <= r < ymap.len() && 0 <= x < xmap.len() implies 0
            + #[trigger] ymap[r] * src_w + #[trigger] xmap[x] < src.len() by {
            lemma_axis_in_range(r, dh, sh);
            lemma_axis_in_range(x, dw, sw);
            let (a, b) = (ymap[r] as int, xmap[x] as int);
            assert(a * sw + b < sw * sh) by (nonlinear_arith)
                requires
                    0 <= a < sh,
                    0 <= b < sw,
            ;
        }
        assert forall|r: int, x: int| 0 <= r < cymap.len() && 0 <= x < cxmap.len() implies src_y
            + src_c + #[trigger] cymap[r] * src_cw + #[trigger] cxmap[x] < src.len() by {
            let k = dw * dh + ch * cw + r * cw + x;
            assert(0 <= r * cw + x < ch * cw) by (nonlinear_arith)
                requires
                    0 <= r < ch,
                    0 <= x < cw,
            ;
            lemma_fundamental_div_mod_converse(r * cw + x, cw, r, x);
            scaled_bytes_come_from_the_source(src.len() as int, sw, sh, dw, dh, k);
        }
    }
    push_plane(&mut out, src, 0, src_w as usize, &ymap, &xmap);
    push_plane(&mut out, src, src_y, src_cw, &cymap, &cxmap);
    push_plane(&mut out, src, src_y + src_c, src_cw, &cymap, &cxmap);
    proof {
        let want = downscaled(src@, sw, sh, dw, dh);
        assert(out.len() == want.len());
        assert forall|k: int| 0 <= k < want.len() implies out@[k] == want[k] by {
            if k < dw * dh {
                assert(0 <= k / dw < dh && 0 <= k % dw < dw) by (nonlinear_arith)
                    requires
                        0 <= k < dw * dh,
                        0 < dw,
                ;
            } else {
                let p = if k < dw * dh + ch * cw {
                    k - dw * dh
                } else {
                    k - dw * dh - ch * cw
                };
                assert(0 <= p / cw < ch && 0 <= p % cw < cw) by (nonlinear_arith)
                    requires
                        0 <= p < ch * cw,
                        0 < cw,
                ;
            }
        }
        assert(out@ =~= want);
    }
    out
}

} // verus!
