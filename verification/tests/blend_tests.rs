use qrbrand::color::{blend_over, Rgba};

#[test]
fn test_blend_over() {
    let white = Rgba::new(255, 255, 255, 255);
    let black = Rgba::new(0, 0, 0, 255);
    let red = Rgba::new(255, 0, 0, 255);

    // Test blending black over white with full opacity
    let result = blend_over(white, black, 255);
    assert_eq!(result, black);

    // Test blending red over white with half opacity
    let result = blend_over(white, red, 128);
    assert_eq!(result.r, 255); // Red component
    assert!(result.g < 255); // Green component reduced
    assert!(result.b < 255); // Blue component reduced
}

#[test]
fn test_blend_half_red_exact() {
    let white = Rgba::new(255, 255, 255, 255);
    let red = Rgba::new(255, 0, 0, 255);

    // (255*128 + 255*127)/255 = 255, (0*128 + 255*127)/255 = 127
    let result = blend_over(white, red, 128);
    assert_eq!(result, Rgba::new(255, 127, 127, 255));
}

#[test]
fn test_blend_zero_coverage_keeps_destination() {
    let dst = Rgba::new(10, 20, 30, 255);
    let src = Rgba::new(200, 100, 50, 255);
    let result = blend_over(dst, src, 0);
    assert_eq!(result, Rgba::new(10, 20, 30, 255));
}

#[test]
fn test_blend_result_is_opaque() {
    let dst = Rgba::new(10, 20, 30, 0);
    let src = Rgba::new(200, 100, 50, 7);
    let result = blend_over(dst, src, 77);
    assert_eq!(result.a, 255);
}
