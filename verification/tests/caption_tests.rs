use qrbrand::canvas::Canvas;
use qrbrand::caption::{band_height, build_caption_canvas};
use qrbrand::color::Rgba;

fn white() -> Rgba {
    Rgba::new(255, 255, 255, 255)
}

fn black() -> Rgba {
    Rgba::new(0, 0, 0, 255)
}

#[test]
fn test_band_height_above_floor() {
    // round(1024 * 0.18) = 184, above the 120 pixel floor.
    assert_eq!(band_height(1024), 184);
}

#[test]
fn test_band_height_floor() {
    // round(400 * 0.18) = 72, so the 120 pixel floor applies.
    assert_eq!(band_height(400), 120);
}

#[test]
fn test_caption_band_extends_canvas() {
    let mut qr = Canvas::new_filled(100, 100, white());
    qr.put_pixel(3, 4, black());

    let c = build_caption_canvas(&qr);

    // Width is preserved exactly and the height strictly grows.
    assert_eq!(c.width, qr.width);
    assert_eq!(c.height, 100 + 120);
    assert!(c.height > qr.height);

    // The QR content is copied unscaled into the top.
    assert_eq!(c.get_pixel(3, 4), black());
    assert_eq!(c.get_pixel(4, 3), white());

    // The band below starts out white.
    assert_eq!(c.get_pixel(0, 100), white());
    assert_eq!(c.get_pixel(99, 219), white());
}

#[test]
fn test_caption_band_large_canvas() {
    let qr = Canvas::new_filled(1024, 1024, white());
    let c = build_caption_canvas(&qr);
    assert_eq!(c.width, 1024);
    assert_eq!(c.height, 1024 + 184);
}
