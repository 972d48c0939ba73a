use qrbrand::canvas::Canvas;
use qrbrand::color::Rgba;

#[test]
fn test_draw_rect() {
    let black = Rgba::new(0, 0, 0, 255);
    let white = Rgba::new(255, 255, 255, 255);
    let mut img = Canvas::new_filled(10, 10, black);

    img.draw_rect(2, 2, 3, 3, white);

    // Check that the rectangle was drawn
    assert_eq!(img.get_pixel(2, 2), white);
    assert_eq!(img.get_pixel(4, 4), white);
    // Check that pixels outside rectangle are still black
    assert_eq!(img.get_pixel(0, 0), black);
    assert_eq!(img.get_pixel(9, 9), black);
}

#[test]
fn test_draw_rect_clips_to_canvas() {
    let black = Rgba::new(0, 0, 0, 255);
    let white = Rgba::new(255, 255, 255, 255);
    let mut img = Canvas::new_filled(8, 8, black);

    // A rectangle that extends past the right and bottom edges.
    img.draw_rect(6, 6, 100, 100, white);

    assert_eq!(img.get_pixel(6, 6), white);
    assert_eq!(img.get_pixel(7, 7), white);
    assert_eq!(img.get_pixel(5, 5), black);
    assert_eq!(img.get_pixel(5, 7), black);
}

#[test]
fn test_new_filled_dimensions_and_fill() {
    let teal = Rgba::new(0, 128, 128, 255);
    let img = Canvas::new_filled(5, 3, teal);
    assert_eq!(img.width, 5);
    assert_eq!(img.height, 3);
    assert_eq!(img.data.len(), 4 * 5 * 3);
    assert_eq!(img.get_pixel(0, 0), teal);
    assert_eq!(img.get_pixel(4, 2), teal);
}

#[test]
fn test_from_raw_rejects_wrong_length() {
    let buf = vec![0u8; 10];
    assert!(Canvas::from_raw(2, 2, buf).is_none());
    let buf = vec![0u8; 16];
    assert!(Canvas::from_raw(2, 2, buf).is_some());
}

#[test]
fn test_put_and_get_pixel() {
    let white = Rgba::new(255, 255, 255, 255);
    let red = Rgba::new(255, 0, 0, 255);
    let mut img = Canvas::new_filled(4, 4, white);
    img.put_pixel(1, 2, red);
    assert_eq!(img.get_pixel(1, 2), red);
    assert_eq!(img.get_pixel(2, 1), white);
}
