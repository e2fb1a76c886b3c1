//! Still pictures: which samples of a frame make a pixel, and what a request
//! for a picture is answered.

use vstd::prelude::*;
use vstd::arithmetic::div_mod::lemma_fundamental_div_mod_converse;
use vstd::string::*;
use vstd::utf8::encode_utf8;
use crate::streaming::rtp::push_bytes;
use crate::camera::pictures::{chroma, luma};
use crate::text::{contains_text, decimal, decimal_text, has_prefix, same_text};
use super::video_stream::{is_refusal, Refusal};

verus! {

// ---------------------------------------------------------------------------
// Samples
// ---------------------------------------------------------------------------

/// Where the luma sample of pixel `(i, j)` of a picture lies, with every
/// `step`-th pixel of the frame in the picture.
pub open spec fn luma_at(w: int, step: int, i: int, j: int) -> int {
    j * step * w + i * step
}

/// Where the chroma samples of a pixel lie in their planes.
pub open spec fn chroma_at(w: int, step: int, i: int, j: int) -> int {
    j * step / 2 * (w / 2) + i * step / 2
}

/// Where the second chroma plane starts.
pub open spec fn second_chroma(w: int, h: int) -> int {
    w * h + w * h / 4
}

/// The three samples of pixel `k` of a picture `dw` wide.
pub open spec fn pixel_samples(data: Seq<u8>, w: int, h: int, step: int, dw: int, k: int) -> (
    u8,
    u8,
    u8,
) {
    let (i, j) = (k % dw, k / dw);
    (
        data[luma_at(w, step, i, j)],
        data[w * h + chroma_at(w, step, i, j)],
        data[second_chroma(w, h) + chroma_at(w, step, i, j)],
    )
}

/// Whether a frame has every sample of a picture of `dw` by `dh` pixels.
pub open spec fn has_samples(len: int, w: int, h: int, step: int, dw: int, dh: int) -> bool {
    dw > 0 && dh > 0 ==> luma_at(w, step, dw - 1, dh - 1) < len && second_chroma(w, h) + chroma_at(
        w,
        step,
        dw - 1,
        dh - 1,
    ) < len
}

proof fn lemma_samples_in_range(
    len: int,
    w: int,
    h: int,
    step: int,
    dw: int,
    dh: int,
    i: int,
    j: int,
)
    requires
        has_samples(len, w, h, step, dw, dh),
        0 <= w,
        0 <= h,
        1 <= step <= 2,
        0 <= i < dw,
        0 <= j < dh,
    ensures
        0 <= luma_at(w, step, i, j) < len,
        0 <= chroma_at(w, step, i, j),
        w * h + chroma_at(w, step, i, j) < len,
        second_chroma(w, h) + chroma_at(w, step, i, j) < len,
        0 <= w * h,
{
    let (a, b) = (dw - 1, dh - 1);
    assert(0 <= j * step <= b * step && 0 <= i * step <= a * step) by (nonlinear_arith)
        requires
            0 <= i <= a,
            0 <= j <= b,
            1 <= step <= 2,
    ;
    let (p, q) = (j * step, b * step);
    assert(0 <= p * w <= q * w && 0 <= w * h) by (nonlinear_arith)
        requires
            0 <= p <= q,
            0 <= w,
            0 <= h,
    ;
    let (c, d, hw) = (p / 2, q / 2, w / 2);
    assert(0 <= c * hw <= d * hw) by (nonlinear_arith)
        requires
            0 <= c <= d,
            0 <= hw,
    ;
}

/// The samples of a picture of `dw` by `dh` pixels, row by row, with every
/// `step`-th pixel of the frame in the picture.
fn picture_samples(data: &[u8], w: u32, h: u32, step: u32, dw: u32, dh: u32) -> (samples: Vec<
    (u8, u8, u8),
>)
    requires
        1 <= step <= 2,
        has_samples(data@.len() as int, w as int, h as int, step as int, dw as int, dh as int),
    ensures
        samples@ == Seq::new(
            (dw * dh) as nat,
            |k: int| pixel_samples(data@, w as int, h as int, step as int, dw as int, k),
        ),
{
    let mut samples: Vec<(u8, u8, u8)> = Vec::new();
    let ghost (iw, ih, is, idw, idh) = (w as int, h as int, step as int, dw as int, dh as int);
    let ghost want = Seq::new(
        (dw * dh) as nat,
        |k: int| pixel_samples(data@, iw, ih, is, idw, k),
    );
    let len: usize = data.len();
    proof {
        assert(0 <= idw * idh) by (nonlinear_arith)
            requires
                0 <= idw,
                0 <= idh,
        ;
    }
    if dw == 0 || dh == 0 {
        proof {
            assert(idw * idh == 0) by (nonlinear_arith)
                requires
                    idw == 0 || idh == 0,
            ;
            assert(samples@ =~= want);
        }
        return samples;
    }
    proof {
        lemma_samples_in_range(len as int, iw, ih, is, idw, idh, 0, 0);
        assert(0 * idw == 0) by (nonlinear_arith);
        assert(samples@ =~= want.take(0));
    }
    let luma: usize = w as usize * h as usize;
    let second: usize = luma + luma / 4;
    let wide: usize = w as usize;
    let half: usize = (w / 2) as usize;
    let s: usize = step as usize;
    let mut j: u32 = 0;
    while j < dh
        invariant
            1 <= step <= 2,
            s == step,
            wide == w,
            half == w / 2,
            iw == w,
            ih == h,
            is == step,
            idw == dw,
            idh == dh,
            dw > 0,
            len == data@.len(),
            luma == iw * ih,
            second == second_chroma(iw, ih),
            has_samples(len as int, iw, ih, is, idw, idh),
            want == Seq::new(
                (dw * dh) as nat,
                |k: int| pixel_samples(data@, iw, ih, is, idw, k),
            ),
            want.len() == idw * idh,
            j <= dh,
            0 <= j * idw <= want.len(),
            samples@ == want.take(j * idw),
        decreases dh - j,
    {
        let mut i: u32 = 0;
        while i < dw
            invariant
                1 <= step <= 2,
                s == step,
                wide == w,
                half == w / 2,
                iw == w,
                ih == h,
                is == step,
                idw == dw,
                idh == dh,
                dw > 0,
                len == data@.len(),
                luma == iw * ih,
                second == second_chroma(iw, ih),
                has_samples(len as int, iw, ih, is, idw, idh),
                want == Seq::new(
                    (dw * dh) as nat,
                    |k: int| pixel_samples(data@, iw, ih, is, idw, k),
                ),
                want.len() == idw * idh,
                j < dh,
                i <= dw,
                0 <= j * idw + i <= want.len(),
                samples@ == want.take(j * idw + i),
            decreases dw - i,
        {
            let ghost k = j * idw + i;
            proof {
                lemma_samples_in_range(len as int, iw, ih, is, idw, idh, i as int, j as int);
                lemma_fundamental_div_mod_converse(k, idw, j as int, i as int);
                assert(k < idw * idh) by (nonlinear_arith)
                    requires
                        k == j * idw + i,
                        0 <= i < idw,
                        0 <= j < idh,
                ;
                assert(0 <= j * is && 0 <= i * is) by (nonlinear_arith)
                    requires
                        0 <= i,
                        0 <= j,
                        1 <= is,
                ;
                let p = j * is;
                assert(0 <= p * iw && 0 <= p / 2 * (iw / 2)) by (nonlinear_arith)
                    requires
                        0 <= p,
                        0 <= iw,
                ;
                assert(p * iw >= p || iw == 0) by (nonlinear_arith)
                    requires
                        0 <= p,
                        0 <= iw,
                ;
                assert(p <= 2 * j && i * is <= 2 * i) by (nonlinear_arith)
                    requires
                        p == j * is,
                        0 <= i,
                        0 <= j,
                        is <= 2,
                ;
            }
            let row: u64 = j as u64 * step as u64;
            let col: u64 = i as u64 * step as u64;
            let luma_index: u64 = row * w as u64 + col;
            let chroma_index: u64 = row / 2 * (w / 2) as u64 + col / 2;
            let y: u8 = data[luma_index as usize];
            let u: u8 = data[luma + chroma_index as usize];
            let v: u8 = data[second + chroma_index as usize];
            samples.push((y, u, v));
            proof {
                assert(want[k] == (y, u, v));
                assert(want.take(k + 1) =~= want.take(k).push(want[k]));
            }
            i = i + 1;
        }
        proof {
            assert((j + 1) * idw == j * idw + idw) by (nonlinear_arith);
        }
        j = j + 1;
    }
    proof {
        assert(j * idw == idw * idh) by (nonlinear_arith)
            requires
                j == idh,
        ;
        assert(want.take(want.len() as int) =~= want);
    }
    samples
}

/// Whether a frame has every sample of its picture.
pub fn can_sample(len: usize, w: u32, h: u32) -> (yes: bool)
    ensures
        yes == has_samples(len as int, w as int, h as int, 1, w as int, h as int),
{
    samples_there(len, w, h, 1, w, h)
}

/// Whether a frame has every sample of its picture at half the size.
pub fn can_sample_half(len: usize, w: u32, h: u32) -> (yes: bool)
    ensures
        yes == has_samples(
            len as int,
            w as int,
            h as int,
            2,
            (w / 2) as int,
            (h / 2) as int,
        ),
{
    samples_there(len, w, h, 2, w / 2, h / 2)
}

fn samples_there(len: usize, w: u32, h: u32, step: u32, dw: u32, dh: u32) -> (yes: bool)
    requires
        1 <= step <= 2,
        dw * step <= w,
        dh * step <= h,
    ensures
        yes == has_samples(
            len as int,
            w as int,
            h as int,
            step as int,
            dw as int,
            dh as int,
        ),
{
    if dw == 0 || dh == 0 {
        return true;
    }
    let ghost (p, q) = ((dh - 1) * step, (dw - 1) * step);
    proof {
        assert(0 <= p < h && 0 <= q < w) by (nonlinear_arith)
            requires
                p == (dh - 1) * step,
                q == (dw - 1) * step,
                0 < dh,
                0 < dw,
                1 <= step,
                dw * step <= w,
                dh * step <= h,
        ;
        assert(0 <= w * h <= 0xffff_ffff * 0xffff_ffff && 0 <= p * w <= 0xffff_ffff * 0xffff_ffff)
            by (nonlinear_arith)
            requires
                0 <= w <= 0xffff_ffff,
                0 <= h <= 0xffff_ffff,
                0 <= p <= 0xffff_ffff,
        ;
        let (c, hw) = (p / 2, w as int / 2);
        assert(0 <= c * hw <= 0xffff_ffff * 0xffff_ffff) by (nonlinear_arith)
            requires
                0 <= c <= 0xffff_ffff,
                0 <= hw <= 0xffff_ffff,
        ;
    }
    let row: u128 = (dh - 1) as u128 * step as u128;
    let col: u128 = (dw - 1) as u128 * step as u128;
    let luma: u128 = row * w as u128 + col;
    let area: u128 = w as u128 * h as u128;
    let chroma: u128 = row / 2 * (w / 2) as u128 + col / 2;
    luma < len as u128 && area + area / 4 + chroma < len as u128
}

/// The samples of a frame's picture: luma and both chroma of each pixel, row
/// by row.
pub fn yuv420_samples(data: &[u8], w: u32, h: u32) -> (samples: Vec<(u8, u8, u8)>)
    requires
        has_samples(data@.len() as int, w as int, h as int, 1, w as int, h as int),
    ensures
        samples@ == Seq::new(
            (w * h) as nat,
            |k: int| pixel_samples(data@, w as int, h as int, 1, w as int, k),
        ),
{
    picture_samples(data, w, h, 1, w, h)
}

/// The samples of a frame's picture at half the size: every other pixel of
/// every other row.
pub fn yuv420_samples_half(data: &[u8], w: u32, h: u32) -> (samples: Vec<(u8, u8, u8)>)
    requires
        has_samples(data@.len() as int, w as int, h as int, 2, (w / 2) as int, (h / 2) as int),
    ensures
        samples@ == Seq::new(
            ((w / 2) * (h / 2)) as nat,
            |k: int| pixel_samples(data@, w as int, h as int, 2, (w / 2) as int, k),
        ),
{
    picture_samples(data, w, h, 2, w / 2, h / 2)
}

/// A frame of even dimensions that is as long as they call for has every
/// sample of its picture, at full and at half size.
pub proof fn whole_frames_have_their_samples(w: int, h: int)
    requires
        0 <= w,
        0 <= h,
        w % 2 == 0,
        h % 2 == 0,
    ensures
        has_samples(w * h * 3 / 2, w, h, 1, w, h),
        has_samples(w * h * 3 / 2, w, h, 2, w / 2, h / 2),
{
    if w > 0 && h > 0 {
        let (a, b) = (w / 2, h / 2);
        assert(w * h == 4 * (a * b)) by (nonlinear_arith)
            requires
                w == 2 * a,
                h == 2 * b,
        ;
        assert((h - 1) * 1 * w + (w - 1) * 1 < w * h) by (nonlinear_arith)
            requires
                w > 0,
                h > 0,
        ;
        let c = (h - 1) * 1 / 2;
        assert(c == b - 1 && (w - 1) * 1 / 2 == a - 1);
        assert((b - 1) * a + (a - 1) < a * b && 0 < a * b) by (nonlinear_arith)
            requires
                a > 0,
                b > 0,
        ;
        assert((b - 1) * 2 * w + (a - 1) * 2 < w * h) by (nonlinear_arith)
            requires
                w == 2 * a,
                h == 2 * b,
                a > 0,
                b > 0,
        ;
        assert((b - 1) * 2 / 2 == b - 1 && (a - 1) * 2 / 2 == a - 1);
    }
}

// ---------------------------------------------------------------------------
// Pictures
// ---------------------------------------------------------------------------

/// Quality of a still picture.
pub const SNAPSHOT_QUALITY: u8 = 40;

/// Quality of the pictures of a live view.
pub const LIVE_QUALITY: u8 = 35;

/// Whether a picture of a size can be encoded.
pub open spec fn is_encodable(w: u32, h: u32) -> bool {
    1 <= w <= 65535 && 1 <= h <= 65535
}

/// The JPEG picture of some pixels, three bytes each, at a quality.
pub uninterp spec fn jpeg_of(rgb: Seq<u8>, w: u32, h: u32, quality: u8) -> Seq<u8>;

/// `image::codecs::jpeg::JpegEncoder::encode_image` on an
/// `image::ImageBuffer::from_raw`: encodes a picture of one to 65535 pixels on
/// either side and refuses any other. The pixels, the size and the quality
/// alone decide the bytes.
#[verifier::external_body]
fn encode_jpeg(rgb: Vec<u8>, w: u32, h: u32, quality: u8) -> (jpeg: Option<Vec<u8>>)
    requires
        w * h * 3 <= rgb@.len(),
    ensures
        jpeg is Some <==> is_encodable(w, h),
        jpeg matches Some(b) ==> b@ == jpeg_of(rgb@, w, h, quality),
{
    let img = image::ImageBuffer::<image::Rgb<u8>, Vec<u8>>::from_raw(w, h, rgb)?;
    let mut buf = Vec::new();
    let mut enc = image::codecs::jpeg::JpegEncoder::new_with_quality(&mut buf, quality);
    enc.encode_image(&image::DynamicImage::ImageRgb8(img)).ok()?;
    Some(buf)
}

/// What a request for a picture is answered.
pub enum Picture {
    /// A picture.
    Jpeg(Vec<u8>),
    /// A status and a text.
    Failed(u16, &'static str),
}

/// Whether an answer is a failure with this status and text.
pub open spec fn is_failure(p: Picture, status: u16, text: Seq<char>) -> bool {
    p matches Picture::Failed(s, t) && s == status && t@ == text
}

/// What a JPEG picture, where there is one, is answered with.
pub fn picture_reply(jpeg: Option<Vec<u8>>) -> (p: Picture)
    ensures
        jpeg is None ==> is_failure(p, 500, "jpeg error"@),
        jpeg matches Some(b) ==> p == Picture::Jpeg(b),
{
    match jpeg {
        Some(b) => Picture::Jpeg(b),
        None => Picture::Failed(500, "jpeg error"),
    }
}

/// Makes a still picture of some pixels.
pub fn snapshot_picture(rgb: Vec<u8>, w: u32, h: u32) -> (p: Picture)
    ensures
        rgb@.len() < w * h * 3 ==> is_failure(p, 500, "image error"@),
        rgb@.len() >= w * h * 3 && !is_encodable(w, h) ==> is_failure(
            p,
            500,
            "jpeg error"@,
        ),
        rgb@.len() >= w * h * 3 && is_encodable(w, h) ==> (
        p matches Picture::Jpeg(b) && b@ == jpeg_of(rgb@, w, h, SNAPSHOT_QUALITY)),
{
    if !holds_picture(&rgb, w, h) {
        return Picture::Failed(500, "image error");
    }
    picture_reply(encode_jpeg(rgb, w, h, SNAPSHOT_QUALITY))
}

/// Makes a picture of a live view; none where the pixels make no picture.
pub fn live_picture(rgb: Vec<u8>, w: u32, h: u32) -> (jpeg: Option<Vec<u8>>)
    ensures
        jpeg is Some <==> rgb@.len() >= w * h * 3 && is_encodable(w, h),
        jpeg matches Some(b) ==> b@ == jpeg_of(rgb@, w, h, LIVE_QUALITY),
{
    if !holds_picture(&rgb, w, h) {
        return None;
    }
    encode_jpeg(rgb, w, h, LIVE_QUALITY)
}

fn holds_picture(rgb: &Vec<u8>, w: u32, h: u32) -> (yes: bool)
    ensures
        yes == (w * h * 3 <= rgb@.len()),
{
    proof {
        assert(0 <= w * h <= 0xffff_ffff * 0xffff_ffff) by (nonlinear_arith)
            requires
                w <= 0xffff_ffff,
                h <= 0xffff_ffff,
        ;
    }
    w as u128 * h as u128 * 3 <= rgb.len() as u128
}

/// Tests whether a picture can be taken: of the only camera, which has to be
/// running and to have shared a frame.
pub fn check_snapshot(id: &str, running: bool, has_frame: bool) -> (refusal: Option<Refusal>)
    ensures
        refusal is None <==> id@ == "0"@ && running && has_frame,
        id@ != "0"@ ==> is_refusal(refusal, 404, "no such camera"@),
        id@ == "0"@ && !running ==> is_refusal(refusal, 503, "camera not available"@),
        id@ == "0"@ && running && !has_frame ==> is_refusal(refusal, 503, "no frame"@),
{
    if !same_text(id, "0") {
        return Some((404, "no such camera"));
    }
    if !running {
        return Some((503, "camera not available"));
    }
    if !has_frame {
        return Some((503, "no frame"));
    }
    None
}

/// Tests whether a live view can be had.
pub fn check_live(id: &str, running: bool) -> (refusal: Option<Refusal>)
    ensures
        refusal is None <==> id@ == "0"@ && running,
        id@ != "0"@ ==> is_refusal(refusal, 404, "no such camera"@),
        id@ == "0"@ && !running ==> is_refusal(refusal, 503, "camera not available"@),
{
    if !same_text(id, "0") {
        return Some((404, "no such camera"));
    }
    if !running {
        return Some((503, "camera not available"));
    }
    None
}

/// One part of a live view: a boundary and headers, a blank line, the picture
/// and a line end.
pub open spec fn live_part_bytes(jpeg: Seq<u8>) -> Seq<u8> {
    encode_utf8(
        "--frame\r\nContent-Type: image/jpeg\r\nContent-Length: "@ + decimal(jpeg.len())
            + "\r\n\r\n"@,
    ) + seq![13u8, 10u8] + jpeg + seq![13u8, 10u8]
}

/// Frames a picture as one part of a live view.
pub fn live_part(jpeg: &Vec<u8>) -> (part: Vec<u8>)
    ensures
        part@ == live_part_bytes(jpeg@),
{
    let mut head = "--frame\r\nContent-Type: image/jpeg\r\nContent-Length: ".to_owned();
    head.append(decimal_text(jpeg.len() as u64).as_str());
    head.append("\r\n\r\n");
    let mut part: Vec<u8> = Vec::new();
    push_bytes(&mut part, head.as_str().as_bytes());
    part.push(13);
    part.push(10);
    push_bytes(&mut part, jpeg.as_slice());
    part.push(13);
    part.push(10);
    proof {
        assert(part@ =~= live_part_bytes(jpeg@));
    }
    part
}

/// A pixel of a picture is made of the samples of the frame at its place: the
/// luma sample there, and the two chroma samples of the square of four pixels
/// that it belongs to.
pub proof fn pixels_have_their_samples(
    data: Seq<u8>,
    w: int,
    h: int,
    step: int,
    dw: int,
    i: int,
    j: int,
)
    requires
        0 <= w && w % 2 == 0,
        0 <= h && h % 2 == 0,
        0 <= i < dw,
        0 <= j,
    ensures
        ({
            let (x, y) = (i * step, j * step);
            pixel_samples(data, w, h, step, dw, j * dw + i) == (
                luma(data, w, x, y),
                chroma(data, w * h, w / 2, h / 2, false, x / 2, y / 2),
                chroma(data, w * h, w / 2, h / 2, true, x / 2, y / 2),
            )
        }),
{
    lemma_fundamental_div_mod_converse(j * dw + i, dw, j, i);
    let (a, b) = (w / 2, h / 2);
    assert(w * h == 4 * (a * b)) by (nonlinear_arith)
        requires
            w == 2 * a,
            h == 2 * b,
    ;
}

/// A part of a live view carries the whole picture, between a head that gives
/// its length in bytes and the end of a line.
pub proof fn live_parts_carry_the_picture(jpeg: Seq<u8>)
    ensures
        ({
            let p = live_part_bytes(jpeg);
            let n = p.len() as int;
            &&& p.subrange(n - 2 - jpeg.len(), n - 2) == jpeg
            &&& p.skip(n - 2) == seq![13u8, 10u8]
            &&& exists|head: Seq<char>|
                {
                    &&& #[trigger] encode_utf8(head) == p.take(encode_utf8(head).len() as int)
                    &&& has_prefix(head, "--frame\r\n"@)
                    &&& contains_text(head, "\r\nContent-Length: "@ + decimal(jpeg.len()) + "\r\n"@)
                }
        }),
{
    reveal_strlit("--frame\r\nContent-Type: image/jpeg\r\nContent-Length: ");
    reveal_strlit("--frame\r\n");
    reveal_strlit("\r\nContent-Length: ");
    reveal_strlit("\r\n\r\n");
    reveal_strlit("\r\n");
    let p = live_part_bytes(jpeg);
    let n = p.len() as int;
    assert(p.subrange(n - 2 - jpeg.len(), n - 2) =~= jpeg);
    assert(p.skip(n - 2) =~= seq![13u8, 10u8]);
    let start = "--frame\r\nContent-Type: image/jpeg\r\nContent-Length: "@;
    let head = start + decimal(jpeg.len()) + "\r\n\r\n"@;
    assert(p.take(encode_utf8(head).len() as int) =~= encode_utf8(head));
    assert(head.take(9) =~= "--frame\r\n"@);
    let line = "\r\nContent-Length: "@ + decimal(jpeg.len()) + "\r\n"@;
    let at = start.len() - "\r\nContent-Length: "@.len();
    assert(head.skip(at).take(line.len() as int) =~= line);
    assert(has_prefix(head.skip(at), line));
}

} // verus!
