use qrbrand::canvas::Canvas;
use qrbrand::color::Rgba;
use qrbrand::error::RenderError;
use qrbrand::grid::ModuleGrid;
use qrbrand::raster::{rasterize, render_qr};

fn white() -> Rgba {
    Rgba::new(255, 255, 255, 255)
}

fn black() -> Rgba {
    Rgba::new(0, 0, 0, 255)
}

#[test]
fn test_size_too_small_rejected() {
    // 33 modules plus a quiet zone of 4 on each side gives 41 in total;
    // 80 pixels leave only one pixel per module.
    let grid = ModuleGrid::new(33, vec![false; 33 * 33]).unwrap();
    let r = rasterize(&grid, 80, 4);
    assert_eq!(r.err(), Some(RenderError::SizeTooSmall { size: 80, total_modules: 41 }));
}

#[test]
fn test_empty_grid_rejected() {
    let grid = ModuleGrid::new(0, Vec::new()).unwrap();
    let r = rasterize(&grid, 1024, 4);
    assert_eq!(r.err(), Some(RenderError::EmptyGrid));
}

#[test]
fn test_rasterize_pixels() {
    // A 2x2 grid with dark modules on the diagonal, quiet zone 1,
    // size 16: 4 total modules at 4 pixels each.
    let grid = ModuleGrid::new(2, vec![true, false, false, true]).unwrap();
    let c: Canvas = rasterize(&grid, 16, 1).unwrap();

    assert_eq!(c.width, 16);
    assert_eq!(c.height, 16);

    // Quiet zone stays white.
    assert_eq!(c.get_pixel(0, 0), white());
    assert_eq!(c.get_pixel(15, 15), white());
    assert_eq!(c.get_pixel(3, 8), white());

    // Dark module (0,0) fills pixels [4,8) x [4,8).
    assert_eq!(c.get_pixel(4, 4), black());
    assert_eq!(c.get_pixel(7, 7), black());
    // Light module (1,0) stays white.
    assert_eq!(c.get_pixel(8, 4), white());
    // Dark module (1,1) fills pixels [8,12) x [8,12).
    assert_eq!(c.get_pixel(8, 8), black());
    assert_eq!(c.get_pixel(11, 11), black());
    // Light module (0,1).
    assert_eq!(c.get_pixel(4, 8), white());
}

#[test]
fn test_rasterize_width_multiple_of_total_modules() {
    let grid = ModuleGrid::new(3, vec![true; 9]).unwrap();
    // total = 3 + 2*2 = 7; 100 / 7 = 14; output side 98.
    let c = rasterize(&grid, 100, 2).unwrap();
    assert_eq!(c.width, 98);
    assert_eq!(c.height, 98);
    assert_eq!(c.width % 7, 0);
    assert!(c.width <= 100);
}

#[test]
fn test_render_qr_square() {
    let c = render_qr("https://example.com".as_bytes(), 1024, 4).unwrap();
    assert_eq!(c.width, c.height);
    assert!(c.width > 0);
    assert!(c.width <= 1024);

    // A real symbol has at least one dark pixel and a white quiet zone.
    assert_eq!(c.get_pixel(0, 0), white());
    let mut found_dark = false;
    let mut y: u32 = 0;
    while y < c.height && !found_dark {
        let mut x: u32 = 0;
        while x < c.width && !found_dark {
            if c.get_pixel(x, y) == black() {
                found_dark = true;
            }
            x += 1;
        }
        y += 1;
    }
    assert!(found_dark);
}

#[test]
fn test_render_qr_size_too_small() {
    // A real symbol has at least 21 modules, so with a quiet zone of 4 a
    // 40-pixel canvas leaves at most one pixel per module.
    let r = render_qr("https://example.com".as_bytes(), 40, 4);
    match r.err() {
        Some(RenderError::SizeTooSmall { size, total_modules }) => {
            assert_eq!(size, 40);
            assert!(total_modules >= 29);
        },
        other => panic!("unexpected result: {:?}", other),
    }
}

#[test]
fn test_render_qr_payload_too_long() {
    // No QR version holds this payload at the highest error correction.
    let data = vec![b'a'; 8000];
    let r = render_qr(&data, 4096, 4);
    assert_eq!(r.err(), Some(RenderError::EncodeFailure));
}

#[test]
fn test_module_grid_rejects_wrong_cell_count() {
    assert!(ModuleGrid::new(3, vec![false; 8]).is_none());
    assert!(ModuleGrid::new(3, vec![false; 9]).is_some());
}
