use std::io::Cursor;

use string_art::errors::ArtError;
use string_art::session::{process_image, ArtSession};
use string_art::viewport::ViewParams;

fn unit_view() -> ViewParams {
    ViewParams {
        zoom_num: 1,
        zoom_den: 1,
        offset_x: 0,
        offset_y: 0,
    }
}

/// A `w` by `h` PNG filled with the gray value `v`.
fn gray_png(w: u32, h: u32, v: u8) -> Vec<u8> {
    let buf = image::RgbImage::from_pixel(w, h, image::Rgb([v, v, v]));
    let mut bytes = Vec::new();
    image::DynamicImage::ImageRgb8(buf)
        .write_to(&mut Cursor::new(&mut bytes), image::ImageFormat::Png)
        .unwrap();
    bytes
}

#[test]
fn decode_error_on_unrecognized_bytes() {
    let mut s = ArtSession::new();
    let r = process_image(&mut s, b"not an image", 4, 4, unit_view());
    assert_eq!(r.unwrap_err(), ArtError::DecodeError);
}

#[test]
fn invalid_zoom_is_rejected() {
    let mut s = ArtSession::new();
    let view = ViewParams {
        zoom_num: 0,
        zoom_den: 1,
        offset_x: 0,
        offset_y: 0,
    };
    let r = process_image(&mut s, &gray_png(4, 4, 0), 4, 4, view);
    assert_eq!(r.unwrap_err(), ArtError::InvalidArgument);
}

#[test]
fn zero_canvas_is_a_geometry_error() {
    let mut s = ArtSession::new();
    let r = process_image(&mut s, &gray_png(4, 4, 0), 0, 4, unit_view());
    assert_eq!(r.unwrap_err(), ArtError::GeometryError);
}

#[test]
fn failed_processing_caches_no_source() {
    // a degenerate canvas fails before anything is decoded or cached,
    // so the next call still sees a fresh session and judges its bytes
    let mut s = ArtSession::new();
    let r = process_image(&mut s, &gray_png(4, 4, 0), 0, 4, unit_view());
    assert_eq!(r.unwrap_err(), ArtError::GeometryError);
    let r2 = process_image(&mut s, b"still not an image", 4, 4, unit_view());
    assert_eq!(r2.unwrap_err(), ArtError::DecodeError);
}

#[test]
fn process_fills_a_canvas_sized_luma_grid() {
    let mut s = ArtSession::new();
    process_image(&mut s, &gray_png(4, 4, 100), 3, 3, unit_view()).unwrap();
    for y in 0..3 {
        for x in 0..3 {
            assert_eq!(s.grid_pixel(x, y), Some(100));
        }
    }
    assert_eq!(s.grid_pixel(3, 0), None);
    assert_eq!(s.grid_pixel(0, 3), None);
}

#[test]
fn decode_is_memoized_and_later_bytes_are_ignored() {
    let mut s = ArtSession::new();
    process_image(&mut s, &gray_png(4, 4, 77), 2, 2, unit_view()).unwrap();
    // the second payload is garbage, but the cached source is reused
    process_image(&mut s, b"garbage", 2, 2, unit_view()).unwrap();
    assert_eq!(s.grid_pixel(0, 0), Some(77));
}

#[test]
fn failed_processing_leaves_the_grid_untouched() {
    let mut s = ArtSession::new();
    process_image(&mut s, &gray_png(4, 4, 42), 2, 2, unit_view()).unwrap();
    let r = process_image(&mut s, b"ignored", 0, 2, unit_view());
    assert_eq!(r.unwrap_err(), ArtError::GeometryError);
    assert_eq!(s.grid_pixel(0, 0), Some(42));
    assert_eq!(s.grid_pixel(1, 1), Some(42));
}

#[test]
fn zoomed_view_crops_before_resampling() {
    // left half dark, right half bright; zooming in twice with no offset
    // keeps only the left half on the canvas
    let mut img = image::RgbImage::new(4, 4);
    for y in 0..4 {
        for x in 0..4 {
            let v = if x < 2 { 10u8 } else { 250u8 };
            img.put_pixel(x, y, image::Rgb([v, v, v]));
        }
    }
    let mut bytes = Vec::new();
    image::DynamicImage::ImageRgb8(img)
        .write_to(&mut Cursor::new(&mut bytes), image::ImageFormat::Png)
        .unwrap();
    let mut s = ArtSession::new();
    let view = ViewParams {
        zoom_num: 2,
        zoom_den: 1,
        offset_x: 0,
        offset_y: 0,
    };
    process_image(&mut s, &bytes, 2, 2, view).unwrap();
    for y in 0..2 {
        for x in 0..2 {
            assert_eq!(s.grid_pixel(x, y), Some(10));
        }
    }
}
