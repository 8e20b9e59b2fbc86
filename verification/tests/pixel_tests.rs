use media_engine::pixel::{bgra_to_i420, rgba_to_i420, bgra_to_nv12, rgba_to_nv12};

fn solid_bgra(b: u8, g: u8, r: u8, a: u8, w: usize, h: usize) -> Vec<u8> {
    let mut v = Vec::new();
    for _ in 0..w * h {
        v.extend_from_slice(&[b, g, r, a]);
    }
    v
}

#[test]
fn grey_bgra_i420_hits_bt601_fixpoints() {
    let w = 4;
    let h = 4;
    let buf = solid_bgra(128, 128, 128, 255, w, h);
    let yuv = bgra_to_i420(&buf, w, h);
    assert_eq!(yuv.len(), w * h + 2 * ((w / 2) * (h / 2)));
    for i in 0..w * h {
        assert_eq!(yuv[i], 126, "luma at {i}");
    }
    for i in w * h..yuv.len() {
        assert_eq!(yuv[i], 128, "chroma at {i}");
    }
}

#[test]
fn grey_rgba_i420_matches_bgra() {
    let w = 4;
    let h = 2;
    let buf = solid_bgra(128, 128, 128, 255, w, h);
    assert_eq!(rgba_to_i420(&buf, w, h), bgra_to_i420(&buf, w, h));
}

#[test]
fn red_bgra_i420_exact_values() {
    // Solid red in BGRA byte order: B=0, G=0, R=255.
    let w = 2;
    let h = 2;
    let buf = solid_bgra(0, 0, 255, 255, w, h);
    let yuv = bgra_to_i420(&buf, w, h);
    // Y = ((66*255 + 128) >> 8) + 16 = 82
    assert_eq!(&yuv[0..4], &[82, 82, 82, 82]);
    // U = ((-38*255 + 128) >> 8) + 128 = 90 (flooring shift)
    assert_eq!(yuv[4], 90);
    // V = ((112*255 + 128) >> 8) + 128 = 240
    assert_eq!(yuv[5], 240);
}

#[test]
fn red_rgba_i420_swaps_channels() {
    // The same red pixel in RGBA byte order: R=255, G=0, B=0.
    let w = 2;
    let h = 2;
    let mut buf = Vec::new();
    for _ in 0..w * h {
        buf.extend_from_slice(&[255, 0, 0, 255]);
    }
    let yuv = rgba_to_i420(&buf, w, h);
    assert_eq!(&yuv[0..4], &[82, 82, 82, 82]);
    assert_eq!(yuv[4], 90);
    assert_eq!(yuv[5], 240);
}

#[test]
fn nv12_interleaves_uv() {
    let w = 4;
    let h = 2;
    let buf = solid_bgra(0, 0, 255, 255, w, h);
    let i420 = bgra_to_i420(&buf, w, h);
    let nv12 = bgra_to_nv12(&buf, w, h);
    assert_eq!(nv12.len(), i420.len());
    // Same luma plane.
    assert_eq!(&nv12[0..w * h], &i420[0..w * h]);
    // I420 keeps U then V planes; NV12 interleaves them pairwise.
    let uv_cells = (w / 2) * (h / 2);
    for c in 0..uv_cells {
        assert_eq!(nv12[w * h + 2 * c], i420[w * h + c], "U of cell {c}");
        assert_eq!(nv12[w * h + 2 * c + 1], i420[w * h + uv_cells + c], "V of cell {c}");
    }
}

#[test]
fn rgba_nv12_matches_rgba_i420() {
    let w = 2;
    let h = 2;
    let mut buf = Vec::new();
    for px in 0..w * h {
        let v = (px * 37 % 251) as u8;
        buf.extend_from_slice(&[v, v.wrapping_add(10), v.wrapping_add(99), 255]);
    }
    let i420 = rgba_to_i420(&buf, w, h);
    let nv12 = rgba_to_nv12(&buf, w, h);
    assert_eq!(&nv12[0..w * h], &i420[0..w * h]);
    assert_eq!(nv12[w * h], i420[w * h]);
    assert_eq!(nv12[w * h + 1], i420[w * h + 1]);
}
