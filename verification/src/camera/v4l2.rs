//! Hardware H.264 encoding: how frames are laid out for the encoder, and what
//! the encoding loop decides frame by frame.

use vstd::prelude::*;

use vstd::string::*;
use crate::config::number::{Real, RealValue};
use crate::text::{
    after_prefix, chars_of, decimal, decimals_are_read_back, has_prefix, hex_digit_value, hex_value,
    is_hex_digit, is_white, parse_hex32, parse_unsigned, read_hex32, read_unsigned, trim, trim_end,
    trim_start, trimmed,
};
use super::consume_idr_request;
use super::source::CameraError;

verus! {

// ---------------------------------------------------------------------------
// Frame layout
// ---------------------------------------------------------------------------

/// A buffer with some bytes written over it.
pub open spec fn spliced(buf: Seq<u8>, at: int, bytes: Seq<u8>) -> Seq<u8> {
    buf.take(at) + bytes + buf.skip(at + bytes.len())
}

/// A buffer with the first `n` rows of a plane written over it: rows of `w`
/// bytes, one after another in `data` from `from`, go `stride` apart from `to`.
pub open spec fn rows_written(
    buf: Seq<u8>,
    data: Seq<u8>,
    n: int,
    to: int,
    stride: int,
    from: int,
    w: int,
) -> Seq<u8>
    decreases n,
{
    if n <= 0 {
        buf
    } else {
        spliced(
            rows_written(buf, data, n - 1, to, stride, from, w),
            to + (n - 1) * stride,
            data.subrange(from + (n - 1) * w, from + n * w),
        )
    }
}

/// Where the planes of a frame of height `h` lie in rows of `stride` bytes:
/// the second plane, the third and the end.
pub open spec fn plane_offsets(h: int, stride: int) -> (int, int, int) {
    let c = (stride / 2) * (h / 2);
    (stride * h, stride * h + c, stride * h + 2 * c)
}

/// A buffer with a frame of `w` by `h` laid out in it in rows of `stride`
/// bytes.
pub open spec fn laid_out(buf: Seq<u8>, data: Seq<u8>, w: int, h: int, stride: int) -> Seq<u8> {
    let (u, v, end) = plane_offsets(h, stride);
    let (cw, ch) = (w / 2, h / 2);
    let y = rows_written(buf, data, h, 0, stride, 0, w);
    let yu = rows_written(y, data, ch, u, stride / 2, w * h, cw);
    rows_written(yu, data, ch, v, stride / 2, w * h + cw * ch, cw)
}

/// Whether a frame can be laid out: the buffer and the data are long enough.
pub open spec fn can_lay_out(len: int, data_len: int, w: int, h: int, stride: int) -> bool {
    if stride == w {
        data_len <= len
    } else {
        plane_offsets(h, stride).2 <= len && w * h * 3 / 2 <= data_len
    }
}

/// Whether the rows of a frame stay inside the buffer, which rows narrower
/// than the frame might not.
pub open spec fn rows_fit(len: int, w: int, h: int, stride: int) -> bool {
    &&& h > 0 ==> (h - 1) * stride + w <= len
    &&& h / 2 > 0 ==> plane_offsets(h, stride).1 + (h / 2 - 1) * (stride / 2) + w / 2 <= len
}

fn copy_row(buf: &mut [u8], at: usize, data: &[u8], from: usize, n: usize)
    requires
        at + n <= old(buf)@.len(),
        from + n <= data@.len(),
    ensures
        final(buf)@ == spliced(
            old(buf)@,
            at as int,
            data@.subrange(from as int, from + n),
        ),
        final(buf)@.len() == old(buf)@.len(),
{
    let len: usize = buf.len();
    let size: usize = data.len();
    let ghost start = buf@;
    let mut x: usize = 0;
    proof {
        assert(spliced(start, at as int, data@.subrange(from as int, from as int)) =~= start);
    }
    while x < n
        invariant
            x <= n,
            at + n <= len,
            from + n <= size,
            len == start.len(),
            size == data@.len(),
            buf@ == spliced(start, at as int, data@.subrange(from as int, from + x)),
            buf@.len() == start.len(),
        decreases n - x,
    {
        let ghost before = buf@;
        buf[at + x] = data[from + x];
        proof {
            let row = data@.subrange(from as int, from + x + 1);
            assert(buf@ =~= spliced(start, at as int, row));
        }
        x = x + 1;
    }
}

fn copy_rows(
    buf: &mut [u8],
    data: &[u8],
    n: usize,
    to: usize,
    stride: usize,
    from: usize,
    w: usize,
)
    requires
        n > 0 ==> to + (n - 1) * stride + w <= old(buf)@.len(),
        from + n * w <= data@.len(),
    ensures
        final(buf)@ == rows_written(
            old(buf)@,
            data@,
            n as int,
            to as int,
            stride as int,
            from as int,
            w as int,
        ),
        final(buf)@.len() == old(buf)@.len(),
{
    let len: usize = buf.len();
    let size: usize = data.len();
    let ghost start = buf@;
    let mut r: usize = 0;
    while r < n
        invariant
            r <= n,
            n > 0 ==> to + (n - 1) * stride + w <= len,
            from + n * w <= size,
            len == start.len(),
            size == data@.len(),
            buf@.len() == start.len(),
            buf@ == rows_written(
                start,
                data@,
                r as int,
                to as int,
                stride as int,
                from as int,
                w as int,
            ),
        decreases n - r,
    {
        proof {
            assert(0 <= r * stride <= (n - 1) * stride) by (nonlinear_arith)
                requires
                    0 <= r <= n - 1,
                    0 <= stride,
            ;
            assert(0 <= r * w && r * w + w <= n * w && (r + 1) * w == r * w + w)
                by (nonlinear_arith)
                requires
                    0 <= r <= n - 1,
                    0 <= w,
            ;
        }
        copy_row(buf, to + r * stride, data, from + r * w, w);
        r = r + 1;
    }
}

/// Lays a contiguous frame out in rows of `stride` bytes, as the encoder wants
/// it, and gives the bytes it takes up; nothing where the buffer or the frame
/// is too short.
#[verifier::rlimit(30)]
pub fn fill_padded_i420(buf: &mut [u8], data: &[u8], w: u32, h: u32, stride: u32) -> (written:
    Option<usize>)
    requires
        is_fillable(
            old(buf)@.len() as int,
            data@.len() as int,
            w as int,
            h as int,
            stride as int,
        ),
    ensures
        written is Some <==> can_lay_out(
            old(buf)@.len() as int,
            data@.len() as int,
            w as int,
            h as int,
            stride as int,
        ),
        written matches Some(n) ==> n == (if stride == w {
            data@.len() as int
        } else {
            plane_offsets(h as int, stride as int).2
        }),
        final(buf)@ == (if written is None {
            old(buf)@
        } else if stride == w {
            spliced(old(buf)@, 0, data@)
        } else {
            laid_out(old(buf)@, data@, w as int, h as int, stride as int)
        }),
{
    let len: usize = buf.len();
    let size: usize = data.len();
    if stride == w {
        if len < size {
            return None;
        }
        copy_row(buf, 0, data, 0, size);
        proof {
            assert(data@.subrange(0, size as int) =~= data@);
        }
        return Some(size);
    }
    let ghost (iw, ih, is) = (w as int, h as int, stride as int);
    let ghost (iu, iv, iend) = plane_offsets(ih, is);
    proof {
        assert(0 <= is * ih <= 0xffff_ffff * 0xffff_ffff && 0 <= iw * ih <= 0xffff_ffff
            * 0xffff_ffff) by (nonlinear_arith)
            requires
                0 <= is <= 0xffff_ffff,
                0 <= ih <= 0xffff_ffff,
                0 <= iw <= 0xffff_ffff,
        ;
        assert(0 <= (is / 2) * (ih / 2) <= is * ih && 0 <= (iw / 2) * (ih / 2)
            && 4 * ((iw / 2) * (ih / 2)) <= iw * ih) by (nonlinear_arith)
            requires
                0 <= is,
                0 <= ih,
                0 <= iw,
        ;
    }
    let wide_total: u128 = stride as u128 * h as u128 + 2 * ((stride / 2) as u128 * (h / 2) as u128);
    let wide_need: u128 = w as u128 * h as u128 * 3 / 2;
    if (len as u128) < wide_total || (size as u128) < wide_need {
        return None;
    }
    let (rows, half_rows): (usize, usize) = (h as usize, (h / 2) as usize);
    let (width, half_width): (usize, usize) = (w as usize, (w / 2) as usize);
    let (step, half_step): (usize, usize) = (stride as usize, (stride / 2) as usize);
    let u_off: usize = step * rows;
    let v_off: usize = u_off + half_step * half_rows;
    let total: usize = v_off + half_step * half_rows;
    let src_u: usize = width * rows;
    let src_v: usize = src_u + half_width * half_rows;
    proof {
        assert(rows * width == width * rows && half_rows * half_width == half_width * half_rows)
            by (nonlinear_arith);
        if is > iw {
            if ih > 0 {
                assert((ih - 1) * is + iw <= is * ih) by (nonlinear_arith)
                    requires
                        is > iw,
                        ih > 0,
                ;
            }
            if ih / 2 > 0 {
                let (cs, ch, cw) = (is / 2, ih / 2, iw / 2);
                assert((ch - 1) * cs + cw <= cs * ch) by (nonlinear_arith)
                    requires
                        cs >= cw,
                        ch > 0,
                ;
            }
            assert(rows_fit(len as int, iw, ih, is));
        }
        assert(half_rows > 0 ==> u_off + (half_rows - 1) * half_step + half_width <= v_off + (
        half_rows - 1) * half_step + half_width);
    }
    copy_rows(buf, data, rows, 0, step, 0, width);
    copy_rows(buf, data, half_rows, u_off, half_step, src_u, half_width);
    copy_rows(buf, data, half_rows, v_off, half_step, src_v, half_width);
    Some(total)
}

/// Whether a frame can be handed to [`fill_padded_i420`]: rows narrower than
/// the frame, where it would be laid out at all, must stay inside the buffer.
pub open spec fn is_fillable(len: int, data_len: int, w: int, h: int, stride: int) -> bool {
    stride < w && can_lay_out(len, data_len, w, h, stride) ==> rows_fit(len, w, h, stride)
}

proof fn lemma_wide_product(a: u32, b: u32)
    ensures
        0 <= a * b <= 0xffff_fffe_0000_0001,
{
    assert(0 <= a * b <= 0xffff_fffe_0000_0001) by (nonlinear_arith)
        requires
            0 <= a <= 0xffff_ffff,
            0 <= b <= 0xffff_ffff,
    ;
}

/// Tells whether a frame of `data_len` bytes can be handed to
/// [`fill_padded_i420`] with a buffer of `len` bytes.
pub fn can_fill(len: usize, data_len: usize, w: u32, h: u32, stride: u32) -> (yes: bool)
    ensures
        yes == is_fillable(
            len as int,
            data_len as int,
            w as int,
            h as int,
            stride as int,
        ),
{
    if stride >= w {
        return true;
    }
    let (half_h, half_stride): (u32, u32) = (h / 2, stride / 2);
    proof {
        lemma_wide_product(stride, h);
        lemma_wide_product(half_stride, half_h);
        lemma_wide_product(w, h);
    }
    let luma: u128 = stride as u128 * h as u128;
    let chroma: u128 = half_stride as u128 * half_h as u128;
    if (len as u128) < luma + 2 * chroma || (data_len as u128) < w as u128 * h as u128 * 3 / 2 {
        return true;
    }
    if h > 0 {
        proof {
            lemma_wide_product((h - 1) as u32, stride);
        }
        if (len as u128) < (h - 1) as u128 * stride as u128 + w as u128 {
            return false;
        }
    }
    if half_h > 0 {
        proof {
            lemma_wide_product((half_h - 1) as u32, half_stride);
        }
        let last: u128 = (half_h - 1) as u128 * half_stride as u128;
        if (len as u128) < luma + chroma + last + (w / 2) as u128 {
            return false;
        }
    }
    true
}

proof fn lemma_rows_len(
    buf: Seq<u8>,
    data: Seq<u8>,
    n: int,
    to: int,
    stride: int,
    from: int,
    w: int,
)
    requires
        n > 0 ==> 0 <= to && to + (n - 1) * stride + w <= buf.len(),
        0 <= w <= stride,
        0 <= from,
        from + n * w <= data.len(),
    ensures
        rows_written(buf, data, n, to, stride, from, w).len() == buf.len(),
    decreases n,
{
    if n > 0 {
        assert(n * w == (n - 1) * w + w) by (nonlinear_arith);
        assert((n - 1) * w >= 0) by (nonlinear_arith)
            requires
                n > 0,
                w >= 0,
        ;
        assert(n > 1 ==> (n - 1) * stride == (n - 2) * stride + stride) by (nonlinear_arith);
        assert((n - 1) * stride >= 0) by (nonlinear_arith)
            requires
                n > 0,
                stride >= 0,
        ;
        lemma_rows_len(buf, data, n - 1, to, stride, from, w);
    }
}

/// Rows that do not overlap all arrive: byte `x` of row `r` stands where it
/// belongs, and no byte outside the rows changes.
pub proof fn rows_arrive(
    buf: Seq<u8>,
    data: Seq<u8>,
    n: int,
    to: int,
    stride: int,
    from: int,
    w: int,
)
    requires
        0 <= n,
        0 <= to,
        n > 0 ==> to + (n - 1) * stride + w <= buf.len(),
        0 <= w <= stride,
        0 <= from,
        from + n * w <= data.len(),
    ensures
        rows_written(buf, data, n, to, stride, from, w).len() == buf.len(),
        forall|r: int, x: int|
            #![trigger rows_written(buf, data, n, to, stride, from, w)[to + r * stride + x]]
            0 <= r < n && 0 <= x < w ==> rows_written(buf, data, n, to, stride, from, w)[to + r
                * stride + x] == data[from + r * w + x],
        forall|i: int|
            #![trigger rows_written(buf, data, n, to, stride, from, w)[i]]
            0 <= i < buf.len() && (i < to || i >= to + n * stride) ==> rows_written(
                buf,
                data,
                n,
                to,
                stride,
                from,
                w,
            )[i] == buf[i],
    decreases n,
{
    lemma_rows_len(buf, data, n, to, stride, from, w);
    if n > 0 {
        assert(n * w == (n - 1) * w + w && n * stride == (n - 1) * stride + stride)
            by (nonlinear_arith);
        assert((n - 1) * w >= 0 && (n - 1) * stride >= 0) by (nonlinear_arith)
            requires
                n > 0,
                w >= 0,
                stride >= 0,
        ;
        assert(n > 1 ==> (n - 1) * stride == (n - 2) * stride + stride) by (nonlinear_arith);
        rows_arrive(buf, data, n - 1, to, stride, from, w);
        let before = rows_written(buf, data, n - 1, to, stride, from, w);
        let after = rows_written(buf, data, n, to, stride, from, w);
        let at = to + (n - 1) * stride;
        assert forall|r: int, x: int|
            #![trigger after[to + r * stride + x]]
            0 <= r < n && 0 <= x < w implies after[to + r * stride + x] == data[from + r * w
            + x] by {
            if r < n - 1 {
                assert(r * stride + stride <= (n - 1) * stride && 0 <= r * stride)
                    by (nonlinear_arith)
                    requires
                        0 <= r < n - 1,
                        stride >= 0,
                ;
                assert(after[to + r * stride + x] == before[to + r * stride + x]);
            } else {
                assert(after[at + x] == data.subrange(from + (n - 1) * w, from + n * w)[x]);
            }
        }
    }
}

/// A frame laid out in rows at least as wide as it is arrives whole: each of
/// its samples stands where the encoder looks for it, in every plane.
pub proof fn every_sample_arrives(
    buf: Seq<u8>,
    data: Seq<u8>,
    w: int,
    h: int,
    stride: int,
    x: int,
    y: int,
)
    requires
        0 <= w < stride,
        0 <= h,
        can_lay_out(buf.len() as int, data.len() as int, w, h, stride),
    ensures
        0 <= x < w && 0 <= y < h ==> laid_out(buf, data, w, h, stride)[y * stride + x] == data[y * w
            + x],
        0 <= x < w / 2 && 0 <= y < h / 2 ==> laid_out(buf, data, w, h, stride)[plane_offsets(
            h,
            stride,
        ).0 + y * (stride / 2) + x] == data[w * h + y * (w / 2) + x],
        0 <= x < w / 2 && 0 <= y < h / 2 ==> laid_out(buf, data, w, h, stride)[plane_offsets(
            h,
            stride,
        ).1 + y * (stride / 2) + x] == data[w * h + (w / 2) * (h / 2) + y * (w / 2) + x],
{
    let (u, v, end) = plane_offsets(h, stride);
    let (cw, ch, cs) = (w / 2, h / 2, stride / 2);
    assert(0 <= stride * h && 0 <= cs * ch && 0 <= w * h && 0 <= cw * ch && 4 * (cw * ch) <= w * h
        && h * w == w * h && ch * cw == cw * ch && h * stride == stride * h && ch * cs == cs * ch)
        by (nonlinear_arith)
        requires
            0 <= stride,
            0 <= h,
            0 <= w,
            cs == stride / 2,
            ch == h / 2,
            cw == w / 2,
    ;
    if h > 0 {
        assert((h - 1) * stride + w <= stride * h) by (nonlinear_arith)
            requires
                w <= stride,
                h > 0,
        ;
    }
    if ch > 0 {
        assert((ch - 1) * cs + cw <= cs * ch) by (nonlinear_arith)
            requires
                cs >= cw,
                ch > 0,
        ;
    }
    let a = rows_written(buf, data, h, 0, stride, 0, w);
    let b = rows_written(a, data, ch, u, cs, w * h, cw);
    let c = rows_written(b, data, ch, v, cs, w * h + cw * ch, cw);
    rows_arrive(buf, data, h, 0, stride, 0, w);
    rows_arrive(a, data, ch, u, cs, w * h, cw);
    rows_arrive(b, data, ch, v, cs, w * h + cw * ch, cw);
    if 0 <= x < w && 0 <= y < h {
        assert(y * stride + x < stride * h && 0 <= y * stride) by (nonlinear_arith)
            requires
                0 <= x < w,
                w <= stride,
                0 <= y < h,
        ;
        let i = 0 + y * stride + x;
        assert(a[0 + y * stride + x] == data[0 + y * w + x]);
        assert(b[i] == a[i]);
        assert(c[i] == b[i]);
    }
    if 0 <= x < cw && 0 <= y < ch {
        assert(y * cs + x < cs * ch && 0 <= y * cs) by (nonlinear_arith)
            requires
                0 <= x < cw,
                cw <= cs,
                0 <= y < ch,
        ;
        let i = u + y * cs + x;
        assert(b[u + y * cs + x] == data[w * h + y * cw + x]);
        assert(c[i] == b[i]);
        assert(c[v + y * cs + x] == data[w * h + cw * ch + y * cw + x]);
    }
}

// ---------------------------------------------------------------------------
// Encoder settings
// ---------------------------------------------------------------------------

/// H.264 profiles.
#[derive(Debug, Clone, Copy, PartialEq, Eq, Structural)]
pub enum H264Profile {
    Baseline,
    ConstrainedBaseline,
    Main,
    High,
}

/// H.264 levels.
#[derive(Debug, Clone, Copy, PartialEq, Eq, Structural)]
pub enum H264Level {
    Level3_0,
    Level3_1,
    Level3_2,
    Level4_0,
    Level4_1,
    Level4_2,
    Level5_0,
    Level5_1,
}

/// What is asked of the encoder.
#[derive(Debug)]
pub struct EncoderRequest {
    pub width: u32,
    pub height: u32,
    pub fps: u32,
    pub bitrate_bps: u32,
    pub device_path: String,
    pub profile: H264Profile,
    pub level: H264Level,
    /// Frames from one key frame to the next.
    pub i_period: u32,
}

/// What the camera says it is.
#[derive(Debug)]
pub struct DeviceInfo {
    pub device_path: String,
    pub driver: String,
    pub card: String,
    pub capabilities: Vec<String>,
}

/// Describes the hardware encoder at a path.
pub fn encoder_info(device_path: &str) -> (info: DeviceInfo)
    ensures
        info.device_path@ == device_path@,
        info.driver@ == "bcm2835-codec"@,
        info.card@ == "bcm2835-codec-encode"@,
        info.capabilities@.len() == 2,
        info.capabilities@[0]@ == "VIDEO_M2M"@,
        info.capabilities@[1]@ == "H264_ENCODER"@,
{
    DeviceInfo {
        device_path: device_path.to_owned(),
        driver: "bcm2835-codec".to_owned(),
        card: "bcm2835-codec-encode".to_owned(),
        capabilities: vec!["VIDEO_M2M".to_owned(), "H264_ENCODER".to_owned()],
    }
}

/// How long to wait between attempts to open the encoder, in milliseconds. The
/// wait grows by a factor after each attempt, up to a limit.
#[derive(Debug, Clone)]
pub struct BackoffConfig {
    pub initial: u64,
    pub max: u64,
    pub multiplier: Real,
}

impl Default for BackoffConfig {
    fn default() -> (b: Self)
        ensures
            b.initial == 1000,
            b.max == 30_000,
            b.multiplier@ == (RealValue { bits: 0x4000_0000_0000_0000, text: "2"@ }),
    {
        BackoffConfig {
            initial: 1000,
            max: 30_000,
            multiplier: Real { bits: 0x4000_0000_0000_0000, text: "2".to_owned() },
        }
    }
}

impl BackoffConfig {
    /// The next wait: the last one grown, up to the limit.
    pub fn limited(&self, grown: u64) -> (wait: u64)
        ensures
            wait == (if grown < self.max {
                grown
            } else {
                self.max
            }),
    {
        if grown < self.max {
            grown
        } else {
            self.max
        }
    }
}

/// Tests whether a camera may be started: it is not running, and its source of
/// frames is still there.
pub fn check_start(running: bool, has_producer: bool) -> (r: Result<(), CameraError>)
    ensures
        r is Ok <==> !running && has_producer,
        running ==> (r matches Err(CameraError::Config(t)) && t@ == "camera already started"@),
        !running && !has_producer ==> (r matches Err(CameraError::Config(t)) && t@
            == "producer already moved"@),
{
    if running {
        return Err(CameraError::Config("camera already started".to_owned()));
    }
    if !has_producer {
        return Err(CameraError::Config("producer already moved".to_owned()));
    }
    Ok(())
}

// ---------------------------------------------------------------------------
// Encoding loop
// ---------------------------------------------------------------------------

/// Whether the firmware's report says that the processor is throttled: under
/// voltage, or slowed down, right now. Nothing where there is no such report.
pub open spec fn firmware_throttled(report: Option<Seq<char>>) -> Option<bool> {
    match report {
        Some(t) => if has_prefix(trim(t), "0x"@) {
            match parse_hex32(trim(t).skip("0x"@.len() as int)) {
                Some(n) => Some(n % 2 == 1 || n / 4 % 2 == 1),
                None => None,
            }
        } else {
            None
        },
        None => None,
    }
}

/// Whether a clock frequency in kilohertz is one of a throttled processor.
pub open spec fn slow_clock(report: Option<Seq<char>>) -> bool {
    match report {
        Some(t) => match parse_unsigned(trim(t), u64::MAX as nat) {
            Some(khz) => khz < 1_000_000,
            None => false,
        },
        None => false,
    }
}

/// Whether the processor is throttled: by the firmware's report, or by its
/// clock where there is none.
pub open spec fn throttled(firmware: Option<Seq<char>>, clock: Option<Seq<char>>) -> bool {
    match firmware_throttled(firmware) {
        Some(t) => t,
        None => slow_clock(clock),
    }
}

/// An optional text.
pub open spec fn report_text(t: Option<&str>) -> Option<Seq<char>> {
    match t {
        Some(s) => Some(s@),
        None => None,
    }
}

fn read_firmware(report: Option<&str>) -> (t: Option<bool>)
    ensures
        t == firmware_throttled(report_text(report)),
{
    match report {
        Some(text) => {
            let chars = chars_of(text);
            match after_prefix(trimmed(chars.as_slice()), "0x") {
                Some(digits) => match read_hex32(digits) {
                    Some(n) => Some(n % 2 == 1 || n / 4 % 2 == 1),
                    None => None,
                },
                None => None,
            }
        },
        None => None,
    }
}

/// Tells from the system's reports whether the processor is throttled.
pub fn is_throttled(firmware: Option<&str>, clock: Option<&str>) -> (yes: bool)
    ensures
        yes == throttled(report_text(firmware), report_text(clock)),
{
    match read_firmware(firmware) {
        Some(t) => t,
        None => match clock {
            Some(text) => {
                let chars = chars_of(text);
                match read_unsigned(trimmed(chars.as_slice()), 0xffff_ffff_ffff_ffff) {
                    Some(khz) => khz < 1_000_000,
                    None => false,
                }
            },
            None => false,
        },
    }
}

/// What the encoding loop remembers from frame to frame.
#[derive(Debug, Clone, Copy, PartialEq, Eq, Structural)]
pub struct EncoderLoop {
    /// Frames begun, as a 32-bit count that wraps.
    pub frame_counter: u32,
}

/// What to do with a frame, or with the failure to get one.
pub enum EncodeStep {
    /// Encode it.
    Encode(Vec<u8>),
    /// Drop it.
    Skip,
    /// Report an error and go on.
    Report(CameraError),
    /// Report an error and end.
    Stop(CameraError),
}

/// Whether a frame is due to be a key frame: the first, and every one that the
/// period divides.
pub open spec fn key_frame_due(counter: u32, i_period: u32) -> bool {
    counter == 0 || (i_period > 0 && counter as int % i_period as int == 0)
}

impl EncoderLoop {
    /// A loop that has begun no frame.
    pub fn new() -> (l: Self)
        ensures
            l.frame_counter == 0,
    {
        EncoderLoop { frame_counter: 0 }
    }

    /// Begins a frame, and tells whether it must be a key frame: when one is
    /// due, or was asked for. A request is used up only where none was due.
    pub fn begin_frame(&mut self, i_period: u32, idr_request: &mut bool) -> (force: bool)
        ensures
            force == (key_frame_due(old(self).frame_counter, i_period) || *old(idr_request)),
            *final(idr_request) == (key_frame_due(old(self).frame_counter, i_period)
                && *old(idr_request)),
            final(self).frame_counter == (if old(self).frame_counter == u32::MAX {
                0
            } else {
                old(self).frame_counter + 1
            }),
    {
        let due = self.frame_counter == 0 || (i_period > 0 && self.frame_counter % i_period == 0);
        let force = due || consume_idr_request(idr_request);
        self.frame_counter = if self.frame_counter == u32::MAX {
            0
        } else {
            self.frame_counter + 1
        };
        force
    }

    /// Decides what to do with what the producer gave. A throttled processor
    /// encodes every other frame only.
    pub fn take_frame(
        &self,
        produced: Result<Vec<u8>, CameraError>,
        throttled: bool,
    ) -> (step: EncodeStep)
        ensures
            step == (match produced {
                Ok(frame) => if throttled && self.frame_counter % 2 == 1 {
                    EncodeStep::Skip
                } else {
                    EncodeStep::Encode(frame)
                },
                Err(e) => if e is Disconnected {
                    EncodeStep::Stop(e)
                } else {
                    EncodeStep::Report(e)
                },
            }),
    {
        match produced {
            Ok(frame) => if throttled && self.frame_counter % 2 == 1 {
                EncodeStep::Skip
            } else {
                EncodeStep::Encode(frame)
            },
            Err(e) => match e {
                CameraError::Disconnected(t) => EncodeStep::Stop(CameraError::Disconnected(t)),
                e => EncodeStep::Report(e),
            },
        }
    }
}

/// Key frames are due at the start and then once a period, with none in
/// between; without a period only at the start.
pub proof fn key_frames_are_a_period_apart(counter: u32, i_period: u32, d: u32)
    requires
        counter + i_period <= u32::MAX,
        0 < d < i_period,
        key_frame_due(counter, i_period),
    ensures
        key_frame_due(0, i_period),
        key_frame_due((counter + i_period) as u32, i_period),
        !key_frame_due((counter + d) as u32, i_period),
        !key_frame_due(d, 0),
{
    let (c, p) = (counter as int, i_period as int);
    if c == 0 {
        assert(0int % p == 0) by (nonlinear_arith)
            requires
                0 < p,
        ;
    }
    vstd::arithmetic::div_mod::lemma_mod_add_multiples_vanish(c, p);
    let k = c / p;
    vstd::arithmetic::div_mod::lemma_fundamental_div_mod(c, p);
    assert(p * k == k * p) by (nonlinear_arith);
    vstd::arithmetic::div_mod::lemma_fundamental_div_mod_converse(c + d, p, k, d as int);
}

proof fn lemma_trimmed_line(s: Seq<char>)
    requires
        s.len() > 0,
        !is_white(s[0]),
        !is_white(s[s.len() - 1]),
    ensures
        trim(s.push('\n')) == s,
        trim(s) == s,
{
    let t = s.push('\n');
    assert(t[0] == s[0]);
    assert(t.drop_last() =~= s);
    assert(trim_start(t) == t);
    assert(trim_end(s) == s);
}

/// The firmware's report is a hexadecimal number; its last digit says that the
/// processor is throttled by the bit of one or that of four. The clock is not
/// asked then.
pub proof fn the_last_digit_of_the_report_counts(digits: Seq<char>, clock: Option<Seq<char>>)
    requires
        parse_hex32(digits) is Some,
        digits.len() > 0 && digits[0] != '+',
    ensures
        ({
            let v = hex_digit_value(digits.last());
            let yes = v % 2 == 1 || v / 4 % 2 == 1;
            &&& throttled(Some("0x"@ + digits), clock) == yes
            &&& throttled(Some("0x"@ + digits + "\n"@), clock) == yes
        }),
{
    reveal_strlit("0x");
    reveal_strlit("\n");
    let t = "0x"@ + digits;
    assert(digits.last() == digits[digits.len() - 1]);
    assert(is_hex_digit(digits.last()));
    assert(t.last() == digits.last());
    lemma_trimmed_line(t);
    assert("0x"@ + digits + "\n"@ =~= t.push('\n'));
    assert(t.take(2) =~= "0x"@);
    assert(t.skip(2) =~= digits);
    let rest = hex_value(digits.drop_last());
    assert(hex_value(digits) == rest * 16 + hex_digit_value(digits.last()));
}

/// Without a report of the firmware a processor counts as throttled where its
/// clock runs below a million kilohertz.
pub proof fn slow_clocks_are_throttled(khz: u64)
    ensures
        throttled(None, Some(decimal(khz as nat) + "\n"@)) == (khz < 1_000_000),
        throttled(None, Some(decimal(khz as nat))) == (khz < 1_000_000),
        !throttled(None, None),
{
    reveal_strlit("\n");
    let d = decimal(khz as nat);
    decimals_are_read_back(khz as nat, u64::MAX as nat);
    assert('0' <= d[0] <= '9');
    assert('0' <= d[d.len() - 1] <= '9');
    lemma_trimmed_line(d);
    assert(d + "\n"@ =~= d.push('\n'));
}

} // verus!
