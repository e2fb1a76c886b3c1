//! Where the samples of a picture go when a frame is turned, mirrored or scaled.

use vstd::prelude::*;
use vstd::arithmetic::div_mod::lemma_fundamental_div_mod_converse;
use super::downscale::{downscaled, is_scaled};
use super::substream::{scaled, SubPlan};
use super::v4l2::{can_lay_out, every_sample_arrives, laid_out};
use super::v4l2_capture::{
    flipped_frame, lemma_cell_index, transformed, turned_frame, CaptureState,
};

verus! {

/// The luma sample in column `x` and row `y` of a frame `w` wide.
pub open spec fn luma(f: Seq<u8>, w: int, x: int, y: int) -> u8 {
    f[y * w + x]
}

/// A chroma sample in column `x` and row `y` of a plane of `cw` by `ch`, in the
/// first or the second of two such planes behind `size` luma samples.
pub open spec fn chroma(
    f: Seq<u8>,
    size: int,
    cw: int,
    ch: int,
    second: bool,
    x: int,
    y: int,
) -> u8 {
    f[size + (if second {
        cw * ch
    } else {
        0
    }) + y * cw + x]
}

proof fn lemma_sizes(w: int, h: int)
    requires
        0 <= w,
        0 <= h,
    ensures
        0 <= w * h,
        w * h == h * w,
{
    assert(0 <= w * h && w * h == h * w) by (nonlinear_arith)
        requires
            0 <= w,
            0 <= h,
    ;
}

/// A quarter turn clockwise brings the left column to the top, one the other
/// way brings it to the bottom; this holds of the luma samples and, on their
/// own scale, of the chroma samples. The frame keeps its length.
pub proof fn turned_samples_are_found(
    f: Seq<u8>,
    w: int,
    h: int,
    rotation: u32,
    second: bool,
    x: int,
    y: int,
)
    requires
        0 < w,
        0 < h,
        rotation == 90 || rotation == 270,
        w * h + 2 * (((w + 1) / 2) * ((h + 1) / 2)) <= f.len(),
    ensures
        turned_frame(f, w, h, rotation).len() == f.len(),
        0 <= x < w && 0 <= y < h ==> luma(f, w, x, y) == (if rotation == 90 {
            luma(turned_frame(f, w, h, rotation), h, h - 1 - y, x)
        } else {
            luma(turned_frame(f, w, h, rotation), h, y, w - 1 - x)
        }),
        0 <= x < (w + 1) / 2 && 0 <= y < (h + 1) / 2 ==> ({
            let (cw, ch) = ((w + 1) / 2, (h + 1) / 2);
            let t = turned_frame(f, w, h, rotation);
            chroma(f, w * h, cw, ch, second, x, y) == (if rotation == 90 {
                chroma(t, w * h, ch, cw, second, ch - 1 - y, x)
            } else {
                chroma(t, w * h, ch, cw, second, y, cw - 1 - x)
            })
        }),
{
    let (cw, ch) = ((w + 1) / 2, (h + 1) / 2);
    let t = turned_frame(f, w, h, rotation);
    lemma_sizes(w, h);
    lemma_sizes(cw, ch);
    if 0 <= x < w && 0 <= y < h {
        lemma_cell_index(x, y, w, h);
        if rotation == 90 {
            lemma_cell_index(h - 1 - y, x, h, w);
        } else {
            lemma_cell_index(y, w - 1 - x, h, w);
        }
    }
    if 0 <= x < cw && 0 <= y < ch {
        lemma_cell_index(x, y, cw, ch);
        if rotation == 90 {
            lemma_cell_index(ch - 1 - y, x, ch, cw);
        } else {
            lemma_cell_index(y, cw - 1 - x, ch, cw);
        }
    }
}

/// A flip to the side brings the first column to the last, and one upside down
/// the first row to the last; this holds of the luma samples and, on their own
/// scale, of the chroma samples. The frame keeps its length and what lies
/// behind the planes.
pub proof fn flipped_samples_are_found(
    f: Seq<u8>,
    w: int,
    h: int,
    hflip: bool,
    vflip: bool,
    second: bool,
    x: int,
    y: int,
)
    requires
        0 < w,
        0 < h,
        w * h + 2 * ((w / 2) * (h / 2)) <= f.len(),
    ensures
        flipped_frame(f, w, h, hflip, vflip).len() == f.len(),
        0 <= x < w && 0 <= y < h ==> luma(f, w, x, y) == luma(
            flipped_frame(f, w, h, hflip, vflip),
            w,
            if hflip {
                w - 1 - x
            } else {
                x
            },
            if vflip {
                h - 1 - y
            } else {
                y
            },
        ),
        0 <= x < w / 2 && 0 <= y < h / 2 ==> chroma(f, w * h, w / 2, h / 2, second, x, y)
            == chroma(
            flipped_frame(f, w, h, hflip, vflip),
            w * h,
            w / 2,
            h / 2,
            second,
            if hflip {
                w / 2 - 1 - x
            } else {
                x
            },
            if vflip {
                h / 2 - 1 - y
            } else {
                y
            },
        ),
        flipped_frame(f, w, h, hflip, vflip).skip(w * h + 2 * ((w / 2) * (h / 2))) == f.skip(
            w * h + 2 * ((w / 2) * (h / 2)),
        ),
{
    let (cw, ch) = (w / 2, h / 2);
    let t = flipped_frame(f, w, h, hflip, vflip);
    lemma_sizes(w, h);
    lemma_sizes(cw, ch);
    if 0 <= x < w && 0 <= y < h {
        lemma_cell_index(x, y, w, h);
        lemma_cell_index(
            if hflip {
                w - 1 - x
            } else {
                x
            },
            if vflip {
                h - 1 - y
            } else {
                y
            },
            w,
            h,
        );
    }
    if 0 <= x < cw && 0 <= y < ch {
        lemma_cell_index(x, y, cw, ch);
        lemma_cell_index(
            if hflip {
                cw - 1 - x
            } else {
                x
            },
            if vflip {
                ch - 1 - y
            } else {
                y
            },
            cw,
            ch,
        );
    }
    assert(t.skip(w * h + 2 * (cw * ch)) =~= f.skip(w * h + 2 * (cw * ch)));
}

/// Where a sample in column `x` and row `y` of a plane of `w` by `h` goes when
/// the plane is turned clockwise by so many degrees: its column and row.
pub open spec fn place_turned(x: int, y: int, w: int, h: int, degrees: u32) -> (int, int) {
    if degrees == 90 {
        (h - 1 - y, x)
    } else if degrees == 180 {
        (w - 1 - x, h - 1 - y)
    } else if degrees == 270 {
        (y, w - 1 - x)
    } else {
        (x, y)
    }
}

/// Every sample of a captured frame is shown where the rotation and then the
/// flips bring it, in a picture that is as wide as the frame is high after an
/// odd number of quarter turns.
pub proof fn captured_samples_are_shown(f: Seq<u8>, s: CaptureState, second: bool, x: int, y: int)
    requires
        0 < s.width && s.width % 2 == 0,
        0 < s.height && s.height % 2 == 0,
        s.rotation == 0 || s.rotation == 90 || s.rotation == 180 || s.rotation == 270,
        s.width * s.height + 2 * ((s.width / 2) * (s.height / 2)) <= f.len(),
    ensures
        ({
            let (w, h) = (s.width as int, s.height as int);
            let odd = s.rotation == 90 || s.rotation == 270;
            let (tw, th) = if odd {
                (h, w)
            } else {
                (w, h)
            };
            let t = transformed(f, s);
            let (px, py) = place_turned(x, y, w, h, s.rotation);
            let (qx, qy) = place_turned(x, y, w / 2, h / 2, s.rotation);
            let (hflip, vflip) = s.flips;
            &&& t.len() == f.len()
            &&& 0 <= x < w && 0 <= y < h ==> luma(f, w, x, y) == luma(
                t,
                tw,
                if hflip {
                    tw - 1 - px
                } else {
                    px
                },
                if vflip {
                    th - 1 - py
                } else {
                    py
                },
            )
            &&& 0 <= x < w / 2 && 0 <= y < h / 2 ==> chroma(f, w * h, w / 2, h / 2, second, x, y)
                == chroma(
                t,
                w * h,
                tw / 2,
                th / 2,
                second,
                if hflip {
                    tw / 2 - 1 - qx
                } else {
                    qx
                },
                if vflip {
                    th / 2 - 1 - qy
                } else {
                    qy
                },
            )
        }),
{
    let (w, h) = (s.width as int, s.height as int);
    let (hflip, vflip) = s.flips;
    lemma_sizes(w, h);
    lemma_sizes(w / 2, h / 2);
    let (px, py) = place_turned(x, y, w, h, s.rotation);
    let (qx, qy) = place_turned(x, y, w / 2, h / 2, s.rotation);
    if s.rotation == 90 || s.rotation == 270 {
        turned_samples_are_found(f, w, h, s.rotation, second, x, y);
        let t = turned_frame(f, w, h, s.rotation);
        flipped_samples_are_found(t, h, w, hflip, vflip, second, px, py);
        flipped_samples_are_found(t, h, w, hflip, vflip, second, qx, qy);
    } else if s.rotation == 180 {
        flipped_samples_are_found(f, w, h, !hflip, !vflip, second, x, y);
    } else {
        flipped_samples_are_found(f, w, h, hflip, vflip, second, x, y);
    }
}

/// A sample of a scaled frame is that of the source at the same share of the
/// width and the height, rounded down; the chroma planes follow the luma
/// samples that they belong to.
pub proof fn scaled_samples_are_the_nearest(
    src: Seq<u8>,
    sw: int,
    sh: int,
    dw: int,
    dh: int,
    second: bool,
    x: int,
    y: int,
    sx: int,
    sy: int,
)
    requires
        is_scaled(src.len() as int, sw, sh, dw, dh),
        dw >= 2,
        dh >= 2,
    ensures
        downscaled(src, sw, sh, dw, dh).len() == dw * dh + 2 * ((dw / 2) * (dh / 2)),
        0 <= x < dw && 0 <= y < dh && sx * dw <= x * sw < (sx + 1) * dw && sy * dh <= y * sh < (sy
            + 1) * dh ==> luma(downscaled(src, sw, sh, dw, dh), dw, x, y) == luma(src, sw, sx, sy),
        0 <= x < dw / 2 && 0 <= y < dh / 2 && sx * dw <= 2 * x * sw < (sx + 1) * dw && sy * dh <= 2
            * y * sh < (sy + 1) * dh ==> chroma(
            downscaled(src, sw, sh, dw, dh),
            dw * dh,
            dw / 2,
            dh / 2,
            second,
            x,
            y,
        ) == chroma(src, sw * sh, sw / 2, sh / 2, second, sx / 2, sy / 2),
{
    let (cw, ch) = (dw / 2, dh / 2);
    lemma_sizes(dw, dh);
    lemma_sizes(cw, ch);
    if 0 <= x < dw && 0 <= y < dh && sx * dw <= x * sw < (sx + 1) * dw && sy * dh <= y * sh < (sy
        + 1) * dh {
        lemma_cell_index(x, y, dw, dh);
        lemma_share(x, sx, sw, dw);
        lemma_share(y, sy, sh, dh);
    }
    if 0 <= x < cw && 0 <= y < ch && sx * dw <= 2 * x * sw < (sx + 1) * dw && sy * dh <= 2 * y * sh
        < (sy + 1) * dh {
        lemma_cell_index(x, y, cw, ch);
        lemma_share(2 * x, sx, sw, dw);
        lemma_share(2 * y, sy, sh, dh);
    }
}

proof fn lemma_share(d: int, s: int, src: int, dst: int)
    requires
        0 < dst,
        s * dst <= d * src < (s + 1) * dst,
    ensures
        d * src / dst == s,
{
    assert((s + 1) * dst == s * dst + dst) by (nonlinear_arith);
    lemma_fundamental_div_mod_converse(d * src, dst, s, d * src - s * dst);
}

/// A frame that is laid out in wider rows keeps its samples in their columns and
/// rows, in every plane; it needs room for all of the wider rows.
pub proof fn padded_samples_are_found(
    buf: Seq<u8>,
    data: Seq<u8>,
    w: int,
    h: int,
    stride: int,
    second: bool,
    x: int,
    y: int,
)
    requires
        0 <= w < stride,
        0 <= h,
        stride * h + 2 * ((stride / 2) * (h / 2)) <= buf.len(),
        w * h * 3 / 2 <= data.len(),
    ensures
        can_lay_out(buf.len() as int, data.len() as int, w, h, stride),
        0 <= x < w && 0 <= y < h ==> luma(laid_out(buf, data, w, h, stride), stride, x, y) == luma(
            data,
            w,
            x,
            y,
        ),
        0 <= x < w / 2 && 0 <= y < h / 2 ==> chroma(
            laid_out(buf, data, w, h, stride),
            stride * h,
            stride / 2,
            h / 2,
            second,
            x,
            y,
        ) == chroma(data, w * h, w / 2, h / 2, second, x, y),
{
    every_sample_arrives(buf, data, w, h, stride, x, y);
}

/// A frame is not laid out where the buffer has no room for it or it is too
/// short itself.
pub proof fn short_buffers_are_refused(len: int, data_len: int, w: int, h: int, stride: int)
    ensures
        stride == w ==> (can_lay_out(len, data_len, w, h, stride) <==> len >= data_len),
        stride != w && len < stride * h + 2 * ((stride / 2) * (h / 2)) ==> !can_lay_out(
            len,
            data_len,
            w,
            h,
            stride,
        ),
        stride != w && data_len < w * h * 3 / 2 ==> !can_lay_out(len, data_len, w, h, stride),
{
}

/// The substream shows the picture of the main stream at its own size: each
/// sample is that of the main frame at the same share of the width and the
/// height.
pub proof fn the_substream_shows_the_same_picture(
    frame: Seq<u8>,
    plan: SubPlan,
    second: bool,
    x: int,
    y: int,
    sx: int,
    sy: int,
)
    requires
        2 <= plan.dst_w <= plan.src_w,
        2 <= plan.dst_h < plan.src_h,
        plan.src_w * plan.src_h + 2 * ((plan.src_w / 2) * (plan.src_h / 2)) <= frame.len(),
    ensures
        ({
            let (sw, sh) = (plan.src_w as int, plan.src_h as int);
            let (dw, dh) = (plan.dst_w as int, plan.dst_h as int);
            let out = scaled(frame, plan);
            &&& out.len() == dw * dh + 2 * ((dw / 2) * (dh / 2))
            &&& 0 <= x < dw && 0 <= y < dh && sx * dw <= x * sw < (sx + 1) * dw && sy * dh <= y * sh
                < (sy + 1) * dh ==> luma(out, dw, x, y) == luma(frame, sw, sx, sy)
            &&& 0 <= x < dw / 2 && 0 <= y < dh / 2 && sx * dw <= 2 * x * sw < (sx + 1) * dw && sy
                * dh <= 2 * y * sh < (sy + 1) * dh ==> chroma(
                out,
                dw * dh,
                dw / 2,
                dh / 2,
                second,
                x,
                y,
            ) == chroma(frame, sw * sh, sw / 2, sh / 2, second, sx / 2, sy / 2)
        }),
{
    let (sw, sh) = (plan.src_w as int, plan.src_h as int);
    let (cw, ch) = (sw / 2, sh / 2);
    assert(0 < cw * ch) by (nonlinear_arith)
        requires
            cw >= 1,
            ch >= 1,
    ;
    scaled_samples_are_the_nearest(
        frame,
        sw,
        sh,
        plan.dst_w as int,
        plan.dst_h as int,
        second,
        x,
        y,
        sx,
        sy,
    );
}

} // verus!
