use kawaii_raw::bitmap::Region;
use kawaii_raw::buffers::{alloc_rgb_buffer, encode_output, rgb_buffer_len, try_alloc_vec, RenderError};
use kawaii_raw::geometry::{combine_orientation, crop_rect_pixels, roi_rect_pixels, CropRect, ExifOrientation, OrientState, VirtualTransform};
use kawaii_raw::preview::{zoom_dimension, PreviewCache, PreviewKind, SessionRegistry};
use kawaii_raw::tiles::{detail_padding, detail_radius, detail_region, export_tile_request, padded_fetch, tile_edge, tile_grid};

const ALL_EXIF: [ExifOrientation; 9] = [
    ExifOrientation::Normal,
    ExifOrientation::Rotate90,
    ExifOrientation::Rotate180,
    ExifOrientation::Rotate270,
    ExifOrientation::HorizontalFlip,
    ExifOrientation::VerticalFlip,
    ExifOrientation::Transpose,
    ExifOrientation::Transverse,
    ExifOrientation::Unknown,
];

#[test]
fn rotate90_source_swaps_dimensions() {
    let t = VirtualTransform::from_exif(100, 50, ExifOrientation::Rotate90, 0, false, false, None);
    assert_eq!((t.output_w, t.output_h), (50, 100));
    // output (0, 0) shows source (0, 99) read as (row, column): x 99, y 0
    assert_eq!(t.map_pixel(0, 0), Some((99, 0)));
    assert_eq!(t.map_pixel(49, 0), Some((99, 49)));
    assert_eq!(t.map_pixel(0, 99), Some((0, 0)));
    assert_eq!(t.map_pixel(50, 0), None);
}

#[test]
fn identity_transform_maps_pixels_to_themselves() {
    let t = VirtualTransform::from_exif(8, 6, ExifOrientation::Normal, 0, false, false, None);
    assert_eq!((t.output_w, t.output_h), (8, 6));
    for y in 0..6 {
        for x in 0..8 {
            assert_eq!(t.map_pixel(x, y), Some((x, y)));
        }
    }
}

#[test]
fn flips_and_half_turn() {
    let flip = VirtualTransform::from_exif(4, 3, ExifOrientation::Normal, 0, true, false, None);
    assert_eq!(flip.map_pixel(0, 0), Some((3, 0)));
    let half = VirtualTransform::from_exif(4, 3, ExifOrientation::Rotate180, 0, false, false, None);
    assert_eq!(half.map_pixel(0, 0), Some((3, 2)));
    let cancel = VirtualTransform::from_exif(4, 3, ExifOrientation::HorizontalFlip, 0, true, false, None);
    assert_eq!(cancel.map_pixel(1, 2), Some((1, 2)));
}

#[test]
fn exif_orientation_equals_user_transform() {
    for o in ALL_EXIF {
        let s = o.base_state();
        let tagged = VirtualTransform::from_exif(7, 5, o, 0, false, false, None);
        let user = VirtualTransform::from_exif(7, 5, ExifOrientation::Normal, s.steps, s.flip_h, s.flip_v, None);
        assert_eq!(tagged, user);
        for y in 0..tagged.output_h {
            for x in 0..tagged.output_w {
                assert_eq!(tagged.map_pixel(x, y), user.map_pixel(x, y));
            }
        }
    }
}

#[test]
fn uncropped_output_covers_source_once() {
    for o in ALL_EXIF {
        let t = VirtualTransform::from_exif(5, 3, o, 1, false, true, None);
        let mut seen = vec![false; 15];
        for y in 0..t.output_h {
            for x in 0..t.output_w {
                let (sx, sy) = t.map_pixel(x, y).unwrap();
                let i = (sy * 5 + sx) as usize;
                assert!(!seen[i]);
                seen[i] = true;
            }
        }
        assert!(seen.iter().all(|s| *s));
    }
}

#[test]
fn user_steps_add_modulo_four() {
    let base = ExifOrientation::Rotate270.base_state();
    assert_eq!(combine_orientation(base, 3, false, false), OrientState { steps: 2, flip_h: false, flip_v: false });
    assert_eq!(combine_orientation(base, 6, true, true), OrientState { steps: 1, flip_h: true, flip_v: true });
    let t = ExifOrientation::Transpose.base_state();
    assert_eq!(combine_orientation(t, 0, true, false), OrientState { steps: 1, flip_h: false, flip_v: false });
}

#[test]
fn output_dims_follow_crop() {
    let crop = crop_rect_pixels(50, 100, 10, 20, 30, 40);
    assert_eq!(crop, CropRect { x: 10, y: 20, width: 30, height: 40 });
    let t = VirtualTransform::from_exif(100, 50, ExifOrientation::Rotate90, 0, false, false, Some(crop));
    assert_eq!((t.output_w, t.output_h), (30, 40));
    // output (0, 0) is oriented (10, 20), which is source (79, 10)
    assert_eq!(t.map_pixel(0, 0), Some((79, 10)));
}

#[test]
fn crop_rect_is_clamped_into_image() {
    assert_eq!(crop_rect_pixels(10, 8, -5, 3, 100, 0), CropRect { x: 0, y: 3, width: 10, height: 1 });
    assert_eq!(crop_rect_pixels(10, 8, 50, 50, 4, 4), CropRect { x: 9, y: 7, width: 1, height: 1 });
    assert_eq!(crop_rect_pixels(0, 8, 1, 1, 4, 4), CropRect { x: 0, y: 0, width: 0, height: 0 });
}

#[test]
fn tile_edge_is_clamped() {
    assert_eq!(tile_edge(256, 1024, 1024), 256);
    assert_eq!(tile_edge(10, 1024, 300), 64);
    assert_eq!(tile_edge(10, 30, 20), 30);
    assert_eq!(tile_edge(4096, 500, 700), 700);
    assert_eq!(export_tile_request(true), 128);
    assert_eq!(export_tile_request(false), 256);
}

#[test]
fn tile_grid_is_row_major() {
    let tiles = tile_grid(130, 70, 64);
    assert_eq!(tiles.len(), 6);
    assert_eq!(tiles[0], Region { origin_x: 0, origin_y: 0, width: 64, height: 64 });
    assert_eq!(tiles[2], Region { origin_x: 128, origin_y: 0, width: 2, height: 64 });
    assert_eq!(tiles[5], Region { origin_x: 128, origin_y: 64, width: 2, height: 6 });
}

#[test]
fn tiles_partition_the_image() {
    for (w, h, t) in [(1024u32, 1024u32, 128u32), (1024, 1024, 256), (1024, 1024, 512), (300, 77, 64)] {
        let tiles = tile_grid(w, h, t);
        let mut count = vec![0u8; (w * h) as usize];
        for tile in &tiles {
            for y in tile.origin_y..tile.origin_y + tile.height {
                for x in tile.origin_x..tile.origin_x + tile.width {
                    count[(y * w + x) as usize] += 1;
                }
            }
        }
        assert!(count.iter().all(|c| *c == 1));
    }
}

#[test]
fn detail_padding_follows_largest_radius() {
    assert_eq!(detail_padding(false, false, false), 0);
    assert_eq!(detail_padding(true, false, false), 12);
    assert_eq!(detail_padding(true, true, false), 18);
    assert_eq!(detail_padding(false, false, true), 50);
    assert_eq!(detail_radius(true, true, true), 40);
}

#[test]
fn fetch_rect_holds_the_halo() {
    let tile = Region { origin_x: 128, origin_y: 0, width: 128, height: 128 };
    let f = padded_fetch(tile, 50, 300, 200);
    assert_eq!(f, Region { origin_x: 78, origin_y: 0, width: 222, height: 178 });
    let inner = Region { origin_x: 0, origin_y: 0, width: 300, height: 200 };
    assert_eq!(padded_fetch(inner, 50, 300, 200), inner);
}

#[test]
fn detail_region_grows_and_clips() {
    let r = Region { origin_x: 5, origin_y: 10, width: 10, height: 10 };
    assert_eq!(detail_region(40, 30, r, 8), Region { origin_x: 0, origin_y: 2, width: 23, height: 26 });
}

#[test]
fn buffer_length_errors() {
    assert_eq!(rgb_buffer_len(0, 5), Err(RenderError::InvalidPayload));
    assert_eq!(rgb_buffer_len(5, 0), Err(RenderError::InvalidPayload));
    assert_eq!(rgb_buffer_len(4, 2), Ok(24));
    if usize::BITS == 64 {
        assert_eq!(rgb_buffer_len(u32::MAX, u32::MAX), Err(RenderError::Allocation));
    }
}

#[test]
fn oversized_render_is_allocation_error() {
    if usize::BITS == 64 {
        assert_eq!(alloc_rgb_buffer(u32::MAX, u32::MAX), Err(RenderError::Allocation));
    }
    assert_eq!(alloc_rgb_buffer(0, 3), Err(RenderError::InvalidPayload));
    assert_eq!(alloc_rgb_buffer(4, 2), Ok(vec![0u8; 24]));
    assert_eq!(try_alloc_vec(3, 7u16), Ok(vec![7u16, 7, 7]));
}

#[test]
fn jpeg_output_is_framed() {
    let rgb = vec![128u8; 8 * 8 * 3];
    let precise = encode_output(&rgb, 8, 8, false).unwrap();
    let fast = encode_output(&rgb, 8, 8, true).unwrap();
    for bytes in [&precise, &fast] {
        assert_eq!(&bytes[..2], &[0xFF, 0xD8]);
        assert_eq!(&bytes[bytes.len() - 2..], &[0xFF, 0xD9]);
    }
    assert_ne!(precise, rgb);
    let again = encode_output(&rgb, 8, 8, false).unwrap();
    assert_eq!(precise, again);
}

#[test]
fn jpeg_output_rejects_wrong_length() {
    assert_eq!(encode_output(&[0u8; 10], 2, 2, true), Err(RenderError::InvalidPayload));
}

#[test]
fn preview_ceilings() {
    assert_eq!(PreviewKind::SuperLow.max_dims(), (64, 64));
    assert_eq!(PreviewKind::Low.max_dims(), (256, 256));
    assert_eq!(PreviewKind::Preview.max_dims(), (1280, 720));
    assert_eq!(PreviewKind::Zoom.max_dims(), (2304, 2304));
}

#[test]
fn zoom_ladder() {
    assert_eq!(zoom_dimension(PreviewKind::Preview, Some(2000)), 1920);
    assert_eq!(zoom_dimension(PreviewKind::Preview, Some(100)), 1280);
    assert_eq!(zoom_dimension(PreviewKind::Zoom, Some(5000)), 2304);
    assert_eq!(zoom_dimension(PreviewKind::Zoom, None), 2304);
    assert_eq!(zoom_dimension(PreviewKind::Low, Some(100)), 64);
    assert_eq!(zoom_dimension(PreviewKind::Low, Some(1000)), 256);
    assert_eq!(zoom_dimension(PreviewKind::SuperLow, None), 64);
}

#[test]
fn preview_cache_slots() {
    let mut cache: PreviewCache<u32> = PreviewCache::new();
    assert_eq!(cache.get(PreviewKind::Low), None);
    cache.put(PreviewKind::Low, 7);
    assert_eq!(cache.get(PreviewKind::Low), Some(&7));
    assert_eq!(cache.get(PreviewKind::Low), Some(&7));
    assert_eq!(cache.get(PreviewKind::Preview), None);
    cache.put_zoom(1920, 1920, 9);
    assert_eq!(cache.get_zoom(1920, 1920), Some(&9));
    assert_eq!(cache.get_zoom(2304, 2304), None);
    cache.put_zoom(2304, 2304, 10);
    assert_eq!(cache.get_zoom(1920, 1920), None);
    cache.clear();
    assert_eq!(cache.get(PreviewKind::Low), None);
    assert_eq!(cache.get_zoom(2304, 2304), None);
}

#[test]
fn session_handles_are_not_reused() {
    let mut reg: SessionRegistry<&str> = SessionRegistry::new();
    assert_eq!(reg.insert("a"), Some(1));
    assert_eq!(reg.insert("b"), Some(2));
    assert_eq!(reg.remove(1), Some("a"));
    assert_eq!(reg.insert("c"), Some(3));
    assert_eq!(reg.get(1), None);
    assert_eq!(reg.get(3), Some(&"c"));
    assert_eq!(reg.get(0), None);
    assert_eq!(reg.get(-2), None);
    assert_eq!(reg.remove(-2), None);
}

#[test]
fn empty_roi_is_invalid_payload() {
    assert_eq!(roi_rect_pixels(10, 8, 2, 2, 0, 4), Err(RenderError::InvalidPayload));
    assert_eq!(roi_rect_pixels(10, 8, 2, 2, 4, -1), Err(RenderError::InvalidPayload));
    assert_eq!(roi_rect_pixels(0, 8, 2, 2, 4, 4), Err(RenderError::InvalidPayload));
    assert_eq!(roi_rect_pixels(10, 8, 8, 2, 4, 4), Ok(CropRect { x: 8, y: 2, width: 2, height: 4 }));
}
