use media_engine::crop::{detect_alpha_crop, CropResult};
use media_engine::frame::extract_frame;

fn buffer(w: usize, h: usize, alpha: u8) -> Vec<u8> {
    let mut v = vec![0u8; w * h * 4];
    for px in 0..w * h {
        v[px * 4 + 3] = alpha;
    }
    v
}

#[test]
fn fully_opaque_is_full_frame() {
    let w = 100;
    let h = 100;
    let buf = buffer(w, h, 255);
    assert_eq!(detect_alpha_crop(&buf, w, h, w * 4), CropResult::FullFrame);
}

#[test]
fn fully_transparent_is_empty() {
    let w = 100;
    let h = 100;
    let buf = buffer(w, h, 0);
    assert_eq!(detect_alpha_crop(&buf, w, h, w * 4), CropResult::Empty);
}

#[test]
fn single_pixel_gives_unit_box() {
    let w = 100;
    let h = 100;
    let mut buf = buffer(w, h, 0);
    buf[(17 * w + 42) * 4 + 3] = 200;
    assert_eq!(detect_alpha_crop(&buf, w, h, w * 4), CropResult::Cropped(42, 17, 1, 1));
}

#[test]
fn unit_box_rounds_to_no_frame() {
    let w = 100;
    let h = 100;
    let mut buf = buffer(w, h, 0);
    buf[(17 * w + 42) * 4 + 3] = 200;
    let crop = detect_alpha_crop(&buf, w, h, w * 4);
    assert!(extract_frame(&buf, w * 4, w, h, crop, true).is_none());
}

#[test]
fn zero_size_is_empty() {
    let buf = Vec::new();
    assert_eq!(detect_alpha_crop(&buf, 0, 10, 0), CropResult::Empty);
    assert_eq!(detect_alpha_crop(&buf, 10, 0, 40), CropResult::Empty);
}

#[test]
fn window_region_is_cropped_to_bounding_box() {
    let w = 20;
    let h = 10;
    let mut buf = buffer(w, h, 0);
    // An opaque 4x3 window at (5, 2).
    for y in 2..5 {
        for x in 5..9 {
            buf[(y * w + x) * 4 + 3] = 255;
        }
    }
    assert_eq!(detect_alpha_crop(&buf, w, h, w * 4), CropResult::Cropped(5, 2, 4, 3));
}

#[test]
fn box_covering_frame_is_full_frame() {
    let w = 6;
    let h = 4;
    let mut buf = buffer(w, h, 0);
    // Opaque pixels touch all four edges but not all corners.
    buf[(0 * w + 3) * 4 + 3] = 255; // top edge
    buf[((h - 1) * w + 2) * 4 + 3] = 255; // bottom edge
    buf[(1 * w + 0) * 4 + 3] = 255; // left edge
    buf[(2 * w + (w - 1)) * 4 + 3] = 255; // right edge
    assert_eq!(detect_alpha_crop(&buf, w, h, w * 4), CropResult::FullFrame);
}

#[test]
fn extract_respects_stride_and_offset() {
    // 4x2 content inside rows of stride 24 (6 pixels per row).
    let stride = 24;
    let w = 4;
    let h = 2;
    let mut raw = vec![0u8; stride * h];
    for y in 0..h {
        for x in 0..w {
            let off = y * stride + x * 4;
            raw[off] = (y * 16 + x) as u8;
            raw[off + 1] = 1;
            raw[off + 2] = 2;
            raw[off + 3] = 255;
        }
    }
    let f = extract_frame(&raw, stride, w, h, CropResult::FullFrame, true).unwrap();
    assert_eq!(f.width, 4);
    assert_eq!(f.height, 2);
    assert_eq!(f.data.len(), w * h * 4);
    for y in 0..h {
        for x in 0..w {
            assert_eq!(f.data[(y * w + x) * 4], (y * 16 + x) as u8);
        }
    }
}

#[test]
fn extract_crop_rounds_down_to_even() {
    let stride = 40;
    let w = 10;
    let h = 8;
    let mut raw = vec![0u8; stride * h];
    for i in 0..raw.len() {
        raw[i] = (i % 251) as u8;
    }
    // A 5x3 selection becomes a 4x2 frame anchored at the same corner.
    let f = extract_frame(&raw, stride, w, h, CropResult::Cropped(1, 2, 5, 3), false).unwrap();
    assert_eq!((f.width, f.height), (4, 2));
    assert!(!f.is_bgra);
    for row in 0..2usize {
        for j in 0..16usize {
            assert_eq!(f.data[row * 16 + j], raw[(2 + row) * stride + 4 + j]);
        }
    }
}

#[test]
fn extract_zero_fills_short_rows() {
    // The buffer ends mid-row: the second row cannot be copied whole.
    let stride = 8;
    let w = 2;
    let h = 2;
    let raw = vec![7u8; stride + 4];
    let f = extract_frame(&raw, stride, w, h, CropResult::FullFrame, true).unwrap();
    assert_eq!(&f.data[0..8], &[7u8; 8]);
    assert_eq!(&f.data[8..16], &[0u8; 8]);
}
