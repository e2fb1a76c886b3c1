//! Frame geometry.

use mibee_eye::camera::downscale::{downscale_yu420, map_axis};
use mibee_eye::camera::v4l2_capture::{
    compose_rotation_flips, flip_yu12_in_place, rotate_yu12, rotated_dims, Flips,
};
use mibee_eye::camera::{consume_idr_request, raise_idr_request};

/// 8×4 I420 frame with distinct bytes per plane:
/// Y = 1..=32 (8×4), U = 0x10..0x17 (4×2), V = 0x20..0x27 (4×2).
fn frame_8x4() -> Vec<u8> {
    let mut v: Vec<u8> = (1..=32u8).collect();
    v.extend_from_slice(&[0x10, 0x11, 0x12, 0x13, 0x14, 0x15, 0x16, 0x17]);
    v.extend_from_slice(&[0x20, 0x21, 0x22, 0x23, 0x24, 0x25, 0x26, 0x27]);
    v
}

#[test]
fn half_scale_8x4_to_4x2_picks_every_other_sample() {
    let out = downscale_yu420(&frame_8x4(), 8, 4, 4, 2);
    // Luma rows 0,2 × cols 0,2,4,6 (row 2 starts at byte 17: 16..=24).
    assert_eq!(&out[..8], &[1, 3, 5, 7, 17, 19, 21, 23]);
    // Chroma: src 4×2 → dst 2×1; nearest picks cols 0,2 of row 0.
    assert_eq!(&out[8..10], &[0x10, 0x12]);
    assert_eq!(&out[10..12], &[0x20, 0x22]);
    assert_eq!(out.len(), 4 * 2 * 3 / 2);
}

#[test]
fn exact_2to1_4x4_to_2x2_golden() {
    // Y 4x4: row-major 1..16; U/V 2x2.
    let mut v: Vec<u8> = (1..=16u8).collect();
    v.extend_from_slice(&[0xA1, 0xA2, 0xA3, 0xA4]);
    v.extend_from_slice(&[0xB1, 0xB2, 0xB3, 0xB4]);
    let out = downscale_yu420(&v, 4, 4, 2, 2);
    // Luma picks (0,0),(0,2),(2,0),(2,2) → 1,3,9,11.
    assert_eq!(&out[..4], &[1, 3, 9, 11]);
    // Chroma 2x2 → 1x1: (0,0) of each plane.
    assert_eq!(out[4], 0xA1);
    assert_eq!(out[5], 0xB1);
    assert_eq!(out.len(), 2 * 2 * 3 / 2);
}

#[test]
fn non_integer_ratio_maps_into_range() {
    // 3×2 source, byte-tagged: Y = [1,2,3 / 4,5,6], U = 0xAA, V = 0xBB.
    let mut src = vec![1u8, 2, 3, 4, 5, 6];
    src.push(0xAA);
    src.push(0xBB);
    let out = downscale_yu420(&src, 3, 2, 2, 2);
    // xmap(2 of 3) = [0,1], ymap(2 of 2) = [0,1] → both source rows
    // sampled at their first two columns.
    assert_eq!(&out[..4], &[1, 2, 4, 5]);
    // Chroma 1×1 → source chroma 1×1 samples.
    assert_eq!(out[4], 0xAA);
    assert_eq!(out[5], 0xBB);
}

#[test]
fn identity_returns_copy() {
    let src = frame_8x4();
    let out = downscale_yu420(&src, 8, 4, 8, 4);
    assert_eq!(out, src);
}

#[test]
fn upscale_is_documented_noop() {
    let src = frame_8x4();
    let out = downscale_yu420(&src, 8, 4, 16, 8);
    assert_eq!(out, src, "upscale must not attempt interpolation");
}

#[test]
fn short_input_returned_unchanged() {
    let short = vec![1u8, 2, 3];
    let out = downscale_yu420(&short, 8, 2, 4, 1);
    assert_eq!(out, short);
}

#[test]
fn zero_dims_returned_unchanged() {
    let src = frame_8x4();
    assert_eq!(downscale_yu420(&src, 0, 4, 1, 1), src);
    assert_eq!(downscale_yu420(&src, 8, 4, 0, 1), src);
    assert_eq!(downscale_yu420(&src, 8, 0, 1, 1), src);
    assert_eq!(downscale_yu420(&src, 8, 4, 1, 0), src);
}

#[test]
fn map_axis_never_exceeds_source_range() {
    assert_eq!(map_axis(2, 4), vec![0, 2]);
    // floor(1*4/3)=1, floor(2*4/3)=2.
    assert_eq!(map_axis(3, 4), vec![0, 1, 2]);
    assert_eq!(map_axis(4, 4), vec![0, 1, 2, 3]);
    let m = map_axis(359, 720);
    assert!(m.iter().all(|&x| x < 720));
}

#[test]
fn odd_sub_dimensions_still_produce_contiguous_i420() {
    // 720p → 641x361 (odd): chroma planes use floor halves; output
    // stays contiguous with 641*361 luma bytes.
    let src = vec![7u8; 1280 * 720 * 3 / 2];
    let out = downscale_yu420(&src, 1280, 720, 640, 360);
    assert_eq!(out.len(), 640 * 360 * 3 / 2);
    assert!(out.iter().all(|&b| b == 7));
}

/// Build a 4×4 YU12 frame with distinct values per plane:
/// Y = 0..16, U = 20..24 (2×2), V = 30..34 (2×2).
fn frame() -> Vec<u8> {
    let mut buf = Vec::with_capacity(24);
    buf.extend(0..16);
    buf.extend(20..24);
    buf.extend(30..34);
    buf
}

#[test]
fn no_flip_is_noop() {
    let mut buf = frame();
    let before = buf.clone();
    flip_yu12_in_place(&mut buf, 4, 4, false, false);
    assert_eq!(buf, before);
}

#[test]
fn vflip_reverses_row_order_per_plane() {
    let mut buf = frame();
    flip_yu12_in_place(&mut buf, 4, 4, false, true);
    // Y rows [0,1,2,3] reversed → [12..15, 8..11, 4..7, 0..3]
    assert_eq!(
        &buf[0..16],
        &(12..16)
            .chain(8..12)
            .chain(4..8)
            .chain(0..4)
            .collect::<Vec<_>>()
    );
    // U 2×2 rows [20,21],[22,23] → [22,23,20,21]
    assert_eq!(&buf[16..20], &[22, 23, 20, 21]);
    // V likewise
    assert_eq!(&buf[20..24], &[32, 33, 30, 31]);
}

#[test]
fn hflip_mirrors_each_row_per_plane() {
    let mut buf = frame();
    flip_yu12_in_place(&mut buf, 4, 4, true, false);
    // Every 4-byte Y row and every 2-byte chroma row is reversed.
    for r in 0..4 {
        let row = &buf[r * 4..r * 4 + 4];
        assert_eq!(
            row,
            &[
                (r * 4 + 3) as u8,
                (r * 4 + 2) as u8,
                (r * 4 + 1) as u8,
                (r * 4) as u8
            ]
        );
    }
    assert_eq!(&buf[16..20], &[21, 20, 23, 22]);
    assert_eq!(&buf[20..24], &[31, 30, 33, 32]);
}

#[test]
fn both_flips_is_180_rotation() {
    let mut buf = frame();
    flip_yu12_in_place(&mut buf, 4, 4, true, true);
    // Y plane fully reversed (180°).
    assert_eq!(&buf[0..16], &(0..16).rev().collect::<Vec<_>>());
    // Chroma planes fully reversed too.
    assert_eq!(&buf[16..20], &[23, 22, 21, 20]);
    assert_eq!(&buf[20..24], &[33, 32, 31, 30]);
}

#[test]
fn odd_height_middle_row_is_mirrored_only() {
    // 4×3 frame: Y = 12 bytes, chroma 2×2 (height 3 → c_h = 1, no swap).
    let mut buf: Vec<u8> = (0..12).chain(20..24).chain(30..34).collect();
    flip_yu12_in_place(&mut buf, 4, 3, true, true);
    // Y: top↔bottom rows swapped+mirrored, middle row mirrored.
    assert_eq!(&buf[0..4], &[11, 10, 9, 8]);
    assert_eq!(&buf[4..8], &[7, 6, 5, 4]);
    assert_eq!(&buf[8..12], &[3, 2, 1, 0]);
    // Single chroma row: only mirrored.
    assert_eq!(&buf[12..16], &[21, 20, 23, 22]);
}

#[test]
fn too_short_buffer_left_untouched() {
    let mut buf = vec![7u8; 10];
    flip_yu12_in_place(&mut buf, 4, 4, true, true);
    assert!(buf.iter().all(|&b| b == 7));
}

/// 3×2 YU12 frame: Y = 1..6, U = 7..9 (2×1), V = 9..11 (2×1).
/// Plane sizes: y=6, chroma w=ceil(3/2)=2 × ceil(2/2)=1 → u=6..8, v=8..10.
fn frame_3x2() -> Vec<u8> {
    vec![1, 2, 3, 4, 5, 6, 7, 8, 9, 10]
}

#[test]
fn rotated_dims_swap_only_for_90_270() {
    assert_eq!(rotated_dims(640, 480, 0), (640, 480));
    assert_eq!(rotated_dims(640, 480, 180), (640, 480));
    assert_eq!(rotated_dims(640, 480, 90), (480, 640));
    assert_eq!(rotated_dims(640, 480, 270), (480, 640));
    // Out-of-enum values behave as 0 (validation rejects them upstream).
    assert_eq!(rotated_dims(640, 480, 45), (640, 480));
}

#[test]
fn rotate90_cw_transposes_planes() {
    // Y [[1,2,3],[4,5,6]] --cw--> [[4,1],[5,2],[6,3]]
    // U row [7,8] --> column [7;8]; V row [9,10] --> column [9;10].
    let mut buf = frame_3x2();
    let mut scratch = Vec::new();
    let (w, h) = rotate_yu12(&mut buf, &mut scratch, 3, 2, 90);
    assert_eq!((w, h), (2, 3));
    assert_eq!(buf[0..6], [4, 1, 5, 2, 6, 3]);
    assert_eq!(buf[6..8], [7, 8]);
    assert_eq!(buf[8..10], [9, 10]);
}

#[test]
fn rotate270_ccw_transposes_planes() {
    // Y [[1,2,3],[4,5,6]] --ccw--> [[3,6],[2,5],[1,4]]
    // U row [7,8] --> column [8;7]; V row [9,10] --> column [10;9].
    let mut buf = frame_3x2();
    let mut scratch = Vec::new();
    let (w, h) = rotate_yu12(&mut buf, &mut scratch, 3, 2, 270);
    assert_eq!((w, h), (2, 3));
    assert_eq!(buf[0..6], [3, 6, 2, 5, 1, 4]);
    assert_eq!(buf[6..8], [8, 7]);
    assert_eq!(buf[8..10], [10, 9]);
}

#[test]
fn rotate270_is_inverse_of_rotate90() {
    let original = frame_3x2();
    let mut buf = original.clone();
    let mut scratch = Vec::new();
    let (w, h) = rotate_yu12(&mut buf, &mut scratch, 3, 2, 90);
    let (w2, h2) = rotate_yu12(&mut buf, &mut scratch, w, h, 270);
    assert_eq!((w2, h2), (3, 2));
    assert_eq!(buf, original);
}

#[test]
fn rotate_0_and_180_are_noops_here() {
    let mut buf = frame_3x2();
    let mut scratch = Vec::new();
    let (w, h) = rotate_yu12(&mut buf, &mut scratch, 3, 2, 0);
    assert_eq!((w, h), (3, 2));
    assert_eq!(buf, frame_3x2());
    let (w, h) = rotate_yu12(&mut buf, &mut scratch, 3, 2, 180);
    assert_eq!((w, h), (3, 2));
    assert_eq!(buf, frame_3x2());
}

#[test]
fn rotate_short_buffer_left_untouched() {
    let mut buf = vec![7u8; 4];
    let mut scratch = Vec::new();
    let (w, h) = rotate_yu12(&mut buf, &mut scratch, 3, 2, 90);
    assert_eq!((w, h), (2, 3));
    assert!(buf.iter().all(|&b| b == 7));
}

#[test]
fn compose_folds_180_into_flips() {
    // 180° = hflip+vflip element: XOR with the runtime flags.
    assert_eq!(compose_rotation_flips(180, false, false), (0, true, true));
    assert_eq!(compose_rotation_flips(180, true, false), (0, false, true));
    assert_eq!(compose_rotation_flips(180, false, true), (0, true, false));
    assert_eq!(compose_rotation_flips(180, true, true), (0, false, false));
    // 90°/270° pass through; flips act on the rotated axes (#19 order).
    assert_eq!(compose_rotation_flips(90, true, false), (90, true, false));
    assert_eq!(compose_rotation_flips(270, false, true), (270, false, true));
    // Unknown values normalize to 0.
    assert_eq!(compose_rotation_flips(45, true, true), (0, true, true));
}

#[test]
fn idr_request_is_one_shot() {
    let mut flag = false;
    assert!(!consume_idr_request(&mut flag));
    raise_idr_request(&mut flag);
    assert!(consume_idr_request(&mut flag));
    assert!(!consume_idr_request(&mut flag), "one-shot: cleared on read");
}

#[test]
fn flips_hold_what_was_set() {
    let mut f = Flips::default();
    assert_eq!(f.load(), (false, false));
    f.set(true, false);
    assert_eq!(f.load(), (true, false));
    f.set(false, true);
    assert_eq!(f.load(), (false, true));
}

#[test]
fn two_quarter_turns_are_both_flips() {
    let original: Vec<u8> = (0..16).chain(20..24).chain(30..34).collect();
    let mut turned = original.clone();
    let mut scratch = Vec::new();
    rotate_yu12(&mut turned, &mut scratch, 4, 4, 90);
    rotate_yu12(&mut turned, &mut scratch, 4, 4, 90);
    let mut flipped = original.clone();
    flip_yu12_in_place(&mut flipped, 4, 4, true, true);
    assert_eq!(turned, flipped);
}

#[test]
fn flipping_twice_gives_the_frame_back() {
    let original: Vec<u8> = (0..12).chain(20..24).chain(30..34).collect();
    for (h, v) in [(true, false), (false, true), (true, true)] {
        let mut buf = original.clone();
        flip_yu12_in_place(&mut buf, 4, 3, h, v);
        flip_yu12_in_place(&mut buf, 4, 3, h, v);
        assert_eq!(buf, original);
    }
}

#[test]
fn turned_frame_has_zeros_behind_its_planes() {
    let mut buf = vec![1, 2, 3, 4, 5, 6, 7, 8, 9, 10, 77, 78];
    let mut scratch = Vec::new();
    rotate_yu12(&mut buf, &mut scratch, 3, 2, 90);
    assert_eq!(buf, vec![4, 1, 5, 2, 6, 3, 7, 8, 9, 10, 0, 0]);
    assert_eq!(scratch[10..12], [77, 78]);
}

#[test]
fn single_column_frame_is_flipped_without_chroma() {
    let mut buf = vec![1u8, 2, 3];
    flip_yu12_in_place(&mut buf, 1, 3, true, true);
    assert_eq!(buf, vec![3, 2, 1]);
    let mut row = vec![1u8, 2, 3];
    flip_yu12_in_place(&mut row, 3, 1, true, true);
    assert_eq!(row, vec![3, 2, 1]);
}

#[test]
fn single_row_frame_needs_its_nominal_size() {
    let short = vec![1u8, 2, 3, 4, 5];
    assert_eq!(downscale_yu420(&short, 4, 1, 2, 1), short);
    let long = vec![1u8, 2, 3, 4, 5, 6];
    assert_eq!(downscale_yu420(&long, 4, 1, 2, 1), vec![1, 3, 5, 5]);
}
