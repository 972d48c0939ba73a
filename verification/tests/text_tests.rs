use qrbrand::canvas::Canvas;
use qrbrand::color::Rgba;
use qrbrand::text::{
    blit_mask, choose_font_size, glyph_positions, layout_caption, measure_text_width, GlyphMask,
    TextMetrics,
};

fn metrics(advances: Vec<i32>, kernings: Vec<i32>, ascent: i32, descent: i32) -> TextMetrics {
    TextMetrics::new(advances, kernings, ascent, descent).unwrap()
}

#[test]
fn test_metrics_validation() {
    // One kerning entry per advance is required.
    assert!(TextMetrics::new(vec![10, 10], vec![0], 80, -20).is_none());
    // The font height must be positive.
    assert!(TextMetrics::new(vec![10], vec![0], -20, 80).is_none());
    assert!(TextMetrics::new(vec![10], vec![0], 80, -20).is_some());
}

#[test]
fn test_measure_width_sums_advances_and_kerning() {
    // Height 100 font units; at a size of 1000 milli-pixels every unit
    // scales by 10: two advances of 100 each and a kerning of -20.
    let m = metrics(vec![10, 10], vec![0, -2], 80, -20);
    assert_eq!(measure_text_width(&m, 1000), 100 - 20 + 100);
}

#[test]
fn test_measure_width_empty_line() {
    let m = metrics(Vec::new(), Vec::new(), 80, -20);
    assert_eq!(measure_text_width(&m, 20000), 0);
}

#[test]
fn test_choose_font_size_keeps_initial_when_fitting() {
    // Band 1000 px: initial size is max(round(350), 18) = 350 px. A tiny
    // line fits at once.
    let m = metrics(vec![10], vec![0], 80, -20);
    assert_eq!(choose_font_size(&m, 1000, 10_000_000), 350_000);
}

#[test]
fn test_choose_font_size_shrinks_to_floor() {
    // A line that can never fit shrinks by 0.92 steps until the 14 px
    // floor is passed.
    let m = metrics(vec![1_000_000], vec![0], 100, 0);
    let s = choose_font_size(&m, 1000, 0);
    assert!(s <= 14_000);
    assert!(s >= 12_881);
}

#[test]
fn test_glyph_positions_advance_and_kern() {
    let m = metrics(vec![10, 10, 10], vec![0, -2, 4], 80, -20);
    // At size 1000 the scale is 10 per unit.
    let pos = glyph_positions(&m, 1000, 5000);
    assert_eq!(pos, vec![5000, 5000 + 100 - 20, 5000 + 100 - 20 + 100 + 40]);
}

#[test]
fn test_layout_caption_exact() {
    // Canvas 1000 px wide, band of 1000 px starting at row 100.
    // Margin = max(round(60), 24) = 60 px; the line fits at the initial
    // 350 px size. Width = 100 units * 350000 / 100 units = 350000.
    let m = metrics(vec![100], vec![0], 80, -20);
    let line = layout_caption(1000, 100, 1000, &m);
    assert_eq!(line.font_size_mpx, 350_000);
    assert_eq!(line.width_mpx, 350_000);
    // Centered: (1000000 - 350000) / 2 = 325000, above the margin.
    assert_eq!(line.start_x_mpx, 325_000);
    // ascent 280000, descent -70000, text height 350000 (whole pixels);
    // baseline = 100000 + 500000 + 175000 + 70000.
    assert_eq!(line.baseline_y_mpx, 845_000);
}

#[test]
fn test_layout_caption_long_line_starts_at_margin() {
    // A line wider than the canvas is centered no further left than the
    // margin.
    let m = metrics(vec![1_000_000; 40], vec![0; 40], 100, 0);
    let line = layout_caption(1000, 0, 1000, &m);
    assert_eq!(line.start_x_mpx, 60_000);
}

#[test]
fn test_blit_mask_blends_coverage() {
    let white = Rgba::new(255, 255, 255, 255);
    let black = Rgba::new(0, 0, 0, 255);
    let mut canvas = Canvas::new_filled(10, 10, white);

    let mask = GlyphMask::new(1, 1, 2, 2, vec![255, 0, 0, 255]).unwrap();
    blit_mask(&mut canvas, &mask, black);

    assert_eq!(canvas.get_pixel(1, 1), black);
    assert_eq!(canvas.get_pixel(2, 1), white);
    assert_eq!(canvas.get_pixel(1, 2), white);
    assert_eq!(canvas.get_pixel(2, 2), black);
    assert_eq!(canvas.get_pixel(3, 3), white);
    assert_eq!(canvas.get_pixel(0, 0), white);
}

#[test]
fn test_blit_mask_clips_outside_canvas() {
    let white = Rgba::new(255, 255, 255, 255);
    let black = Rgba::new(0, 0, 0, 255);
    let mut canvas = Canvas::new_filled(4, 4, white);

    // Mask partially above and left of the canvas.
    let mask = GlyphMask::new(-1, -1, 2, 2, vec![255, 255, 255, 255]).unwrap();
    blit_mask(&mut canvas, &mask, black);

    assert_eq!(canvas.get_pixel(0, 0), black);
    assert_eq!(canvas.get_pixel(1, 0), white);
    assert_eq!(canvas.get_pixel(0, 1), white);
}

#[test]
fn test_glyph_mask_validation() {
    assert!(GlyphMask::new(0, 0, 2, 2, vec![0; 3]).is_none());
    assert!(GlyphMask::new(0, 0, 2, 2, vec![0; 4]).is_some());
}
