use qrbrand::canvas::Canvas;
use qrbrand::color::Rgba;
use qrbrand::error::RenderError;
use qrbrand::logo::overlay_logo;

fn black() -> Rgba {
    Rgba::new(0, 0, 0, 255)
}

fn white() -> Rgba {
    Rgba::new(255, 255, 255, 255)
}

fn red() -> Rgba {
    Rgba::new(255, 0, 0, 255)
}

#[test]
fn test_logo_scale_validation() {
    let logo = Canvas::new_filled(10, 10, red());

    // 0.04 is too small.
    let mut canvas = Canvas::new_filled(100, 100, white());
    let r = overlay_logo(&mut canvas, &logo, 40, true, 180);
    assert_eq!(r.err(), Some(RenderError::InvalidLogoScale { scale_per_mille: 40 }));

    // 0.40 is too large.
    let mut canvas = Canvas::new_filled(100, 100, white());
    let r = overlay_logo(&mut canvas, &logo, 400, true, 180);
    assert_eq!(r.err(), Some(RenderError::InvalidLogoScale { scale_per_mille: 400 }));

    // 0.20 is accepted.
    let mut canvas = Canvas::new_filled(100, 100, white());
    let r = overlay_logo(&mut canvas, &logo, 200, true, 180);
    assert!(r.is_ok());
}

#[test]
fn test_rejected_scale_leaves_canvas_unchanged() {
    let logo = Canvas::new_filled(10, 10, red());
    let mut canvas = Canvas::new_filled(50, 50, black());
    let before = canvas.data.clone();
    let r = overlay_logo(&mut canvas, &logo, 400, true, 180);
    assert!(r.is_err());
    assert_eq!(canvas.data, before);
}

#[test]
fn test_overlay_changes_only_central_region() {
    // 200x200 black canvas, 50x50 opaque red logo at scale 0.20 with a
    // plate padded by 0.18: target box 40, fitted logo 40x40 at (80,80),
    // plate 54x54 at (73,73).
    let logo = Canvas::new_filled(50, 50, red());
    let mut canvas = Canvas::new_filled(200, 200, black());
    overlay_logo(&mut canvas, &logo, 200, true, 180).unwrap();

    // Outside the plate: untouched.
    assert_eq!(canvas.get_pixel(0, 0), black());
    assert_eq!(canvas.get_pixel(72, 100), black());
    assert_eq!(canvas.get_pixel(100, 72), black());
    assert_eq!(canvas.get_pixel(127, 100), black());
    assert_eq!(canvas.get_pixel(100, 127), black());

    // On the plate but outside the logo: white.
    assert_eq!(canvas.get_pixel(73, 100), white());
    assert_eq!(canvas.get_pixel(100, 73), white());
    assert_eq!(canvas.get_pixel(126, 100), white());

    // Inside the opaque logo: the logo's colour.
    assert_eq!(canvas.get_pixel(80, 80), red());
    assert_eq!(canvas.get_pixel(100, 100), red());
    assert_eq!(canvas.get_pixel(119, 119), red());
}

#[test]
fn test_overlay_without_plate_blends_with_background() {
    // A half-transparent red logo without a plate blends with the black
    // canvas beneath it.
    let logo = Canvas::new_filled(50, 50, Rgba::new(255, 0, 0, 128));
    let mut canvas = Canvas::new_filled(200, 200, black());
    overlay_logo(&mut canvas, &logo, 200, false, 0).unwrap();

    // Outside the logo: untouched black.
    assert_eq!(canvas.get_pixel(79, 100), black());
    assert_eq!(canvas.get_pixel(120, 100), black());

    // Inside: red over black at coverage 128 gives (128, 0, 0).
    assert_eq!(canvas.get_pixel(100, 100), Rgba::new(128, 0, 0, 255));
}
