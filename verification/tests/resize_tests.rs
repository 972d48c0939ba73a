use qrbrand::canvas::Canvas;
use qrbrand::color::Rgba;
use qrbrand::resize::fit;

fn gradient_canvas(w: u32, h: u32) -> Canvas {
    let mut img = Canvas::new_filled(w, h, Rgba::new(0, 0, 0, 255));
    let mut y: u32 = 0;
    while y < h {
        let mut x: u32 = 0;
        while x < w {
            img.put_pixel(x, y, Rgba::new(x as u8, y as u8, 128, 255));
            x += 1;
        }
        y += 1;
    }
    img
}

#[test]
fn test_resize_fit() {
    // Create a small test image
    let dynamic_img = gradient_canvas(100, 200);

    // Test fitting within larger bounds (should not resize)
    let resized = fit(&dynamic_img, 200, 400);
    assert_eq!(resized.width, 100);
    assert_eq!(resized.height, 200);

    // Test fitting within smaller bounds (should resize)
    let resized = fit(&dynamic_img, 50, 50);
    assert!(resized.width <= 50);
    assert!(resized.height <= 50);
    assert!(resized.width > 0);
    assert!(resized.height > 0);
}

#[test]
fn test_fit_exact_dimensions_when_shrinking() {
    // scale = min(50/100, 50/200) = 1/4, so 100x200 becomes 25x50.
    let img = gradient_canvas(100, 200);
    let resized = fit(&img, 50, 50);
    assert_eq!(resized.width, 25);
    assert_eq!(resized.height, 50);
    assert_eq!(resized.data.len(), 4 * 25 * 50);
}

#[test]
fn test_fit_passthrough_keeps_pixels() {
    let img = gradient_canvas(10, 20);
    let resized = fit(&img, 10, 20);
    assert_eq!(resized.width, 10);
    assert_eq!(resized.height, 20);
    assert_eq!(resized.data, img.data);
}

#[test]
fn test_fit_is_idempotent_on_dimensions() {
    let img = gradient_canvas(123, 77);
    let once = fit(&img, 60, 60);
    let twice = fit(&once, 60, 60);
    assert_eq!(once.width, twice.width);
    assert_eq!(once.height, twice.height);
    assert_eq!(once.data, twice.data);
}

#[test]
fn test_fit_rounds_to_nearest_pixel() {
    // scale = 7/10, so 10x9 becomes 7x round(6.3) = 7x6.
    let img = gradient_canvas(10, 9);
    let resized = fit(&img, 7, 100);
    assert_eq!(resized.width, 7);
    assert_eq!(resized.height, 6);
}
