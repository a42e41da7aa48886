use realtor_listings::errors::Error;
use realtor_listings::transcode::{fit_dimensions, transcode};

fn png_bytes(w: u32, h: u32) -> Vec<u8> {
    let img = image::DynamicImage::ImageRgba8(image::ImageBuffer::new(w, h));
    let mut buf = std::io::Cursor::new(Vec::new());
    img.write_to(&mut buf, image::ImageFormat::Png).unwrap();
    buf.into_inner()
}

fn dims_of(bytes: &[u8]) -> (u32, u32) {
    let img = image::load_from_memory(bytes).unwrap();
    (img.width(), img.height())
}

#[test]
fn fit_keeps_small_image() {
    assert_eq!(fit_dimensions(100, 50, 200, 200), (100, 50));
}

#[test]
fn fit_scales_wide_image() {
    assert_eq!(fit_dimensions(800, 600, 200, 200), (200, 150));
}

#[test]
fn fit_scales_tall_image() {
    assert_eq!(fit_dimensions(600, 800, 200, 200), (150, 200));
}

#[test]
fn fit_clamps_degenerate_side_to_one() {
    assert_eq!(fit_dimensions(1_000_000, 1, 3, 3), (3, 1));
}

#[test]
fn transcode_bounds_large_image() {
    let original = png_bytes(800, 600);
    let thumb = transcode(&original, 200, 200).unwrap();
    assert_eq!(dims_of(&thumb), (200, 150));
    assert_ne!(thumb, original);
}

#[test]
fn transcode_keeps_fitting_image_dimensions() {
    let original = png_bytes(100, 50);
    let thumb = transcode(&original, 200, 200).unwrap();
    assert_eq!(dims_of(&thumb), (100, 50));
}

#[test]
fn transcode_accepts_jpeg() {
    let img = image::DynamicImage::ImageRgb8(image::ImageBuffer::new(400, 300));
    let mut buf = std::io::Cursor::new(Vec::new());
    img.write_to(&mut buf, image::ImageFormat::Jpeg).unwrap();
    let thumb = transcode(&buf.into_inner(), 200, 200).unwrap();
    assert_eq!(dims_of(&thumb), (200, 150));
}

#[test]
fn transcode_rejects_undecodable_bytes() {
    let garbage = vec![1u8, 2, 3, 4, 5, 6, 7, 8];
    assert_eq!(transcode(&garbage, 200, 200).unwrap_err(), Error::InvalidImageData);
}

#[test]
fn transcode_output_is_png() {
    let original = png_bytes(300, 300);
    let thumb = transcode(&original, 200, 200).unwrap();
    assert_eq!(image::guess_format(&thumb).unwrap(), image::ImageFormat::Png);
}
