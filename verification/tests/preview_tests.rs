use media_engine::mjpeg::{mjpeg_frame_chunk, mjpeg_response_header};
use media_engine::preview::{downscale_rgb, make_preview_jpeg, preview_dims};
use media_engine::clipboard::{clipboard_png_base64, is_image_extension};
use base64::Engine;

#[test]
fn response_header_bytes_are_exact() {
    let h = mjpeg_response_header();
    let expected = "HTTP/1.1 200 OK\r\nContent-Type: multipart/x-mixed-replace; boundary=frame\r\nCache-Control: no-cache, no-store\r\nConnection: close\r\nAccess-Control-Allow-Origin: *\r\n\r\n";
    assert_eq!(h, expected.as_bytes().to_vec());
}

#[test]
fn frame_chunk_frames_the_jpeg() {
    let jpeg = b"JPEG".to_vec();
    let chunk = mjpeg_frame_chunk(&jpeg);
    let expected =
        b"--frame\r\nContent-Type: image/jpeg\r\nContent-Length: 4\r\n\r\nJPEG\r\n".to_vec();
    assert_eq!(chunk, expected);
}

#[test]
fn frame_chunk_content_length_is_decimal() {
    let jpeg = vec![0u8; 12345];
    let chunk = mjpeg_frame_chunk(&jpeg);
    let text = String::from_utf8_lossy(&chunk[0..60]).to_string();
    assert!(text.contains("Content-Length: 12345\r\n"), "{text}");
    assert!(chunk.starts_with(b"--frame\r\n"));
    assert!(chunk.ends_with(b"\r\n"));
    assert_eq!(chunk.len(), 51 + 5 + 4 + 12345 + 2);
}

#[test]
fn distinct_jpegs_give_distinct_ordered_chunks() {
    // The MJPEG stream writes one chunk per update, in publication order;
    // each chunk is fully determined by its JPEG.
    let a = mjpeg_frame_chunk(&b"first".to_vec());
    let b = mjpeg_frame_chunk(&b"second".to_vec());
    assert_ne!(a, b);
    assert!(a.ends_with(b"first\r\n"));
    assert!(b.ends_with(b"second\r\n"));
}

#[test]
fn preview_dims_cap_width_at_480() {
    assert_eq!(preview_dims(1920, 1080), (480, 270));
    assert_eq!(preview_dims(640, 480), (480, 360));
    assert_eq!(preview_dims(320, 200), (320, 200));
    assert_eq!(preview_dims(321, 201), (320, 200));
}

#[test]
fn downscale_identity_keeps_pixels_and_swaps_bgra() {
    // One red and one blue pixel, BGRA order, downscaled 1:1 to RGB.
    let data = vec![
        0, 0, 255, 255, // red in BGRA
        255, 0, 0, 255, // blue in BGRA
    ];
    let rgb = downscale_rgb(&data, true, 2, 1, 2, 1);
    assert_eq!(rgb, vec![255, 0, 0, 0, 0, 255]);
    // The same bytes read as RGBA keep their channel order.
    let rgb2 = downscale_rgb(&data, false, 2, 1, 2, 1);
    assert_eq!(rgb2, vec![0, 0, 255, 255, 0, 0]);
}

#[test]
fn downscale_picks_nearest_source_pixel() {
    // A 4x2 frame of distinct red values, shrunk to 2x2... keep it 2x1.
    let mut data = Vec::new();
    for px in 0..8 {
        data.extend_from_slice(&[0, 0, 10 * px as u8, 255]);
    }
    let rgb = downscale_rgb(&data, true, 4, 2, 2, 1);
    // Cell (0,0) samples source (0,0); cell (0,1) samples source (0,2).
    assert_eq!(rgb[0], 0);
    assert_eq!(rgb[3], 20);
}

#[test]
fn preview_jpeg_is_real_jpeg() {
    let mut data = Vec::new();
    for px in 0..16 * 8 {
        data.extend_from_slice(&[(px % 256) as u8, 40, 200, 255]);
    }
    let jpeg = make_preview_jpeg(&data, 16, 8, true).unwrap();
    // A JPEG stream starts with the SOI marker and is not the raw input.
    assert_eq!(&jpeg[0..2], &[0xff, 0xd8]);
    assert_ne!(jpeg, data);
}

#[test]
fn preview_of_degenerate_frame_is_none() {
    assert!(make_preview_jpeg(&Vec::new(), 0, 0, true).is_none());
    let one_col = vec![0u8; 4];
    assert!(make_preview_jpeg(&one_col, 1, 1, true).is_none());
}

#[test]
fn clipboard_png_round_trips_through_base64() {
    // A 2x1 image: one opaque red pixel, one half-transparent green.
    let rgba = vec![255, 0, 0, 255, 0, 255, 0, 128];
    let b64 = clipboard_png_base64(&rgba, 2, 1).unwrap();
    let png = base64::engine::general_purpose::STANDARD
        .decode(b64.as_bytes())
        .expect("the result must be valid base64");
    // PNG magic number; so neither wrapper handed its input back.
    assert_eq!(&png[0..8], &[0x89, 0x50, 0x4e, 0x47, 0x0d, 0x0a, 0x1a, 0x0a]);
    assert_ne!(png, rgba);
}

#[test]
fn clipboard_empty_image_is_none() {
    assert!(clipboard_png_base64(&Vec::new(), 0, 0).is_none());
}

#[test]
fn image_extensions_are_recognised() {
    for good in ["png", "jpg", "jpeg", "gif", "webp", "bmp"] {
        assert!(is_image_extension(&good.to_string()), "{good}");
    }
    for bad in ["txt", "PNG", "svg", "", "pn"] {
        assert!(!is_image_extension(&bad.to_string()), "{bad}");
    }
}
