use kawaii_raw::ai_mask::{ai_mask_from_luma, decode_data_url_base64, find_base64_marker, generate_ai_png_mask};
use kawaii_raw::bitmap::{apply_submask_bitmap, crop_mask_region, selection_level, Region};
use kawaii_raw::blur::box_blur_u8;
use kawaii_raw::modes::{circle_op, BrushTool, CircleOp, SubMaskMode, ToneMapper};
use kawaii_raw::strokes::stroke_order;

use base64::Engine;

fn float_box_blur(src: &[u8], w: usize, h: usize, r: usize) -> Vec<u8> {
    if r == 0 || w == 0 || h == 0 {
        return src.to_vec();
    }
    let denom = (2 * r + 1) as f32;
    let mut tmp = vec![0u8; w * h];
    for y in 0..h {
        for x in 0..w {
            let mut sum: i32 = 0;
            for k in -(r as i64)..=(r as i64) {
                let xx = (x as i64 + k).clamp(0, w as i64 - 1) as usize;
                sum += src[y * w + xx] as i32;
            }
            tmp[y * w + x] = (sum as f32 / denom).round().clamp(0.0, 255.0) as u8;
        }
    }
    let mut dst = vec![0u8; w * h];
    for y in 0..h {
        for x in 0..w {
            let mut sum: i32 = 0;
            for k in -(r as i64)..=(r as i64) {
                let yy = (y as i64 + k).clamp(0, h as i64 - 1) as usize;
                sum += tmp[yy * w + x] as i32;
            }
            dst[y * w + x] = (sum as f32 / denom).round().clamp(0.0, 255.0) as u8;
        }
    }
    dst
}

fn pattern(w: usize, h: usize, seed: u32) -> Vec<u8> {
    let mut state = seed;
    (0..w * h)
        .map(|_| {
            state = state.wrapping_mul(1_103_515_245).wrapping_add(12_345);
            (state >> 16) as u8
        })
        .collect()
}

#[test]
fn box_blur_spike_spreads_evenly() {
    let out = box_blur_u8(&[0, 255, 0], 3, 1, 1);
    assert_eq!(out, vec![85, 85, 85]);
}

#[test]
fn box_blur_zero_radius_is_identity() {
    let src = pattern(5, 4, 7);
    assert_eq!(box_blur_u8(&src, 5, 4, 0), src);
}

#[test]
fn box_blur_empty_plane() {
    assert_eq!(box_blur_u8(&[], 0, 3, 2), Vec::<u8>::new());
}

#[test]
fn box_blur_rounds_to_nearest() {
    // centre pixel: (0 + 0 + 2) / 3 = 0.67 rounds to 1; (0 + 0 + 1) / 3 = 0.33 rounds to 0
    assert_eq!(box_blur_u8(&[0, 0, 2], 3, 1, 1), vec![0, 1, 1]);
    assert_eq!(box_blur_u8(&[0, 0, 1], 3, 1, 1), vec![0, 0, 1]);
}

#[test]
fn box_blur_matches_float_reference() {
    for (w, h, r, seed) in [(7, 5, 1, 1), (16, 9, 3, 2), (4, 11, 10, 3), (1, 1, 4, 4), (3, 2, 40, 5)] {
        let src = pattern(w, h, seed);
        assert_eq!(box_blur_u8(&src, w, h, r), float_box_blur(&src, w, h, r), "w={w} h={h} r={r}");
    }
}

#[test]
fn box_blur_constant_plane_is_unchanged() {
    let src = vec![77u8; 6 * 6];
    assert_eq!(box_blur_u8(&src, 6, 6, 2), src);
}

#[test]
fn additive_submask_takes_maximum() {
    let mut target = vec![10, 200, 0, 255];
    apply_submask_bitmap(&mut target, &[20, 100, 0, 3], SubMaskMode::Additive);
    assert_eq!(target, vec![20, 200, 0, 255]);
}

#[test]
fn subtractive_submask_scales_by_complement() {
    let mut target = vec![200, 255, 255, 0, 100];
    apply_submask_bitmap(&mut target, &[128, 255, 0, 200, 51], SubMaskMode::Subtractive);
    // 200·(127/255) = 99.6 -> 100; 100·(204/255) = 80
    assert_eq!(target, vec![100, 0, 255, 0, 80]);
}

#[test]
fn subtractive_submask_matches_float_formula() {
    for d in 0..=255u8 {
        for s in (0..=255u8).step_by(3) {
            let mut target = vec![d];
            apply_submask_bitmap(&mut target, &[s], SubMaskMode::Subtractive);
            let current = d as f32 / 255.0;
            let intensity = s as f32 / 255.0;
            let expected = ((current * (1.0 - intensity)).clamp(0.0, 1.0) * 255.0).round() as u8;
            assert_eq!(target[0], expected, "d={d} s={s}");
        }
    }
}

#[test]
fn submask_of_other_size_is_ignored() {
    let mut target = vec![1, 2, 3];
    apply_submask_bitmap(&mut target, &[255, 255], SubMaskMode::Additive);
    assert_eq!(target, vec![1, 2, 3]);
}

#[test]
fn crop_inside_mask() {
    let full: Vec<u8> = (0..16).collect();
    assert_eq!(crop_mask_region(&full, 4, 4, 1, 1, 2, 2), vec![5, 6, 9, 10]);
}

#[test]
fn crop_past_mask_edge_is_zero() {
    let full: Vec<u8> = (0..16).collect();
    assert_eq!(crop_mask_region(&full, 4, 4, 3, 3, 2, 2), vec![15, 0, 0, 0]);
    assert_eq!(crop_mask_region(&full, 4, 4, 9, 0, 2, 1), vec![0, 0]);
}

#[test]
fn crop_whole_mask_is_copy() {
    let full: Vec<u8> = (0..12).collect();
    assert_eq!(crop_mask_region(&full, 4, 3, 0, 0, 4, 3), full);
}

#[test]
fn selection_without_bitmap_is_full() {
    let region = Region { origin_x: 0, origin_y: 0, width: 2, height: 2 };
    assert_eq!(selection_level(&None, &region, false, 7, 9), 255);
    assert_eq!(selection_level(&None, &region, true, 7, 9), 0);
}

#[test]
fn selection_reads_bitmap_in_region() {
    let region = Region { origin_x: 10, origin_y: 20, width: 2, height: 2 };
    let bitmap = Some(vec![1, 2, 3, 4]);
    assert_eq!(selection_level(&bitmap, &region, false, 11, 21), 4);
    assert_eq!(selection_level(&bitmap, &region, false, 10, 21), 3);
    assert_eq!(selection_level(&bitmap, &region, false, 12, 21), 0);
    assert_eq!(selection_level(&bitmap, &region, false, 9, 20), 0);
}

#[test]
fn inverted_selection_is_complement() {
    let region = Region { origin_x: 0, origin_y: 0, width: 3, height: 1 };
    let bitmap = Some(vec![0, 100, 255]);
    for x in 0..5 {
        let plain = selection_level(&bitmap, &region, false, x, 0) as u32;
        let inverted = selection_level(&bitmap, &region, true, x, 0) as u32;
        assert_eq!(plain + inverted, 255);
    }
}

#[test]
fn region_index_of() {
    let region = Region { origin_x: 4, origin_y: 2, width: 3, height: 2 };
    assert_eq!(region.index_of(5, 3), Some(4));
    assert_eq!(region.index_of(7, 3), None);
    assert_eq!(region.index_of(3, 3), None);
}

#[test]
fn brush_eraser_truth_table() {
    assert_eq!(circle_op(SubMaskMode::Additive, BrushTool::Brush), CircleOp::Add);
    assert_eq!(circle_op(SubMaskMode::Additive, BrushTool::Eraser), CircleOp::Sub);
    assert_eq!(circle_op(SubMaskMode::Subtractive, BrushTool::Brush), CircleOp::Sub);
    assert_eq!(circle_op(SubMaskMode::Subtractive, BrushTool::Eraser), CircleOp::Add);
}

#[test]
fn only_basic_uses_default_processing() {
    assert!(ToneMapper::Basic.uses_default_raw_processing());
    assert!(!ToneMapper::Agx.uses_default_raw_processing());
}

#[test]
fn strokes_sorted_by_key_then_definition() {
    assert_eq!(stroke_order(&[3, 1, 3, 0, 1]), vec![3, 1, 4, 0, 2]);
    assert_eq!(stroke_order(&[]), Vec::<usize>::new());
    assert_eq!(stroke_order(&[0, 0, 0]), vec![0, 1, 2]);
}

#[test]
fn data_url_payload_is_decoded() {
    assert_eq!(decode_data_url_base64(b"data:image/png;base64,aGVsbG8="), Some(b"hello".to_vec()));
    assert_eq!(find_base64_marker(b"xxbase64,"), Some(2));
}

#[test]
fn data_url_without_marker_or_bad_payload() {
    assert_eq!(decode_data_url_base64(b"data:image/png,aGVsbG8="), None);
    assert_eq!(decode_data_url_base64(b"data:image/png;base64,@@@"), None);
    assert_eq!(find_base64_marker(b"base64"), None);
}

fn png_data_url(w: u32, h: u32, pixels: Vec<u8>) -> Vec<u8> {
    let img = image::GrayImage::from_raw(w, h, pixels).unwrap();
    let mut png = Vec::new();
    image::DynamicImage::ImageLuma8(img)
        .write_to(&mut std::io::Cursor::new(&mut png), image::ImageFormat::Png)
        .unwrap();
    let text = base64::engine::general_purpose::STANDARD.encode(&png);
    format!("data:image/png;base64,{text}").into_bytes()
}

#[test]
fn ai_mask_keeps_luma_at_render_size() {
    let pixels: Vec<u8> = (0..16).map(|v| v * 16).collect();
    let url = png_data_url(4, 4, pixels.clone());
    assert_eq!(generate_ai_png_mask(&url, 0, 4, 4), Some(pixels));
}

#[test]
fn ai_mask_is_resized_and_blurred() {
    let url = png_data_url(2, 2, vec![0, 255, 255, 0]);
    let mask = generate_ai_png_mask(&url, 1, 6, 4).unwrap();
    assert_eq!(mask.len(), 24);
    let luma = [0u8, 255, 255, 0];
    assert_eq!(ai_mask_from_luma(&luma, 2, 2, 1, 6, 4), mask);
}

#[test]
fn ai_mask_resize_changes_size() {
    let luma = [10u8, 20, 30, 40];
    let out = ai_mask_from_luma(&luma, 2, 2, 0, 4, 4);
    assert_eq!(out.len(), 16);
    let same = ai_mask_from_luma(&luma, 2, 2, 0, 2, 2);
    assert_eq!(same, luma.to_vec());
}

#[test]
fn ai_mask_needs_decodable_image() {
    assert_eq!(generate_ai_png_mask(b"no payload here", 2, 4, 4), None);
    assert_eq!(generate_ai_png_mask(b"data:image/png;base64,aGVsbG8=", 2, 4, 4), None);
}
