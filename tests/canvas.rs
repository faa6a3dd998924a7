use salmon_rs::software_canvas::{CanvasError, SoftwareCanvas};
use salmon_rs::vec4::Vec4;

const BLACK: u32 = 0xFF00_0000;
const RED: u32 = 0xFFFF_0000;
const GREEN: u32 = 0xFF00_FF00;
const YELLOW: u32 = 0xFFFF_FF00;
const WHITE: u32 = 0xFFFF_FFFF;

/// The pixel at physical column `col` and row `row_up`, counted from the bottom.
fn at(c: &SoftwareCanvas, col: u32, row_up: u32) -> u32 {
    let w = c.surface_width();
    let h = c.surface_height();
    c.pixels()[((h - 1 - row_up) * w + col) as usize]
}

fn ready(w: u32, h: u32, pw: u32, ph: u32) -> SoftwareCanvas {
    let mut c = SoftwareCanvas::new(w, h);
    assert_eq!(c.initialize_graphics(pw, ph), Ok(true));
    c
}

/// The logical points whose blocks hold `color`, on a canvas at 1:1 scale.
fn lit(c: &SoftwareCanvas, color: u32) -> Vec<(u32, u32)> {
    let mut out = Vec::new();
    for y in 0..c.height() {
        for x in 0..c.width() {
            if at(c, x, y) == color {
                out.push((x, y));
            }
        }
    }
    out
}

#[test]
fn new_canvas_has_no_buffer() {
    let c = SoftwareCanvas::new(64, 48);
    assert_eq!(c.width(), 64);
    assert_eq!(c.height(), 48);
    assert_eq!(c.surface_width(), 0);
    assert_eq!(c.surface_height(), 0);
    assert!(c.pixels().is_empty());
    assert!(!c.force_resize());
}

#[test]
fn drawing_before_initialization_does_nothing() {
    let mut c = SoftwareCanvas::new(64, 64);
    c.clear(Vec4::white());
    c.set_pixel(1, 1, Vec4::red());
    c.draw_line(0, 0, 10, 10, Vec4::red());
    assert!(c.pixels().is_empty());
    assert_eq!(c.ensure_surface_size(640, 640), Ok(false));
    assert!(c.pixels().is_empty());
}

#[test]
fn initialization_sizes_buffer_when_window_has_a_size() {
    let c = ready(64, 64, 640, 480);
    assert_eq!(c.surface_width(), 640);
    assert_eq!(c.surface_height(), 480);
    assert_eq!(c.pixels().len(), 640 * 480);
    let mut z = SoftwareCanvas::new(64, 64);
    assert_eq!(z.initialize_graphics(0, 480), Ok(false));
    assert!(z.pixels().is_empty());
    assert_eq!(z.ensure_surface_size(320, 240), Ok(true));
    assert_eq!(z.pixels().len(), 320 * 240);
}

#[test]
fn clear_fills_every_pixel() {
    let mut c = ready(4, 4, 5, 3);
    c.clear(Vec4::white());
    assert!(c.pixels().iter().all(|&p| p == WHITE));
    c.clear(Vec4::black());
    assert!(c.pixels().iter().all(|&p| p == BLACK));
}

#[test]
fn set_pixel_fills_a_flipped_block() {
    let mut c = ready(64, 64, 640, 640);
    c.clear(Vec4::black());
    c.set_pixel(7, 3, Vec4::red());
    let mut count = 0;
    for row in 0..640 {
        for col in 0..640 {
            let inside = (70..80).contains(&col) && (30..40).contains(&row);
            let expect = if inside { RED } else { BLACK };
            assert_eq!(at(&c, col, row), expect, "col {} row {}", col, row);
            if inside {
                count += 1;
            }
        }
    }
    assert_eq!(count, 100);
    // row 30 from the bottom is buffer row 609
    assert_eq!(c.pixels()[609 * 640 + 70], RED);
    assert_eq!(c.pixels()[610 * 640 + 70], BLACK);
}

#[test]
fn set_pixel_with_uneven_scale_uses_floor_bounds() {
    // 3 logical columns on 7 physical ones: 0..2, 2..4, 4..7
    // 2 logical rows on 5 physical ones: 0..2, 2..5
    let mut c = ready(3, 2, 7, 5);
    c.clear(Vec4::black());
    c.set_pixel(2, 1, Vec4::green());
    for row in 0..5 {
        for col in 0..7 {
            let inside = (4..7).contains(&col) && (2..5).contains(&row);
            assert_eq!(at(&c, col, row), if inside { GREEN } else { BLACK });
        }
    }
    c.clear(Vec4::black());
    c.set_pixel(1, 0, Vec4::green());
    for row in 0..5 {
        for col in 0..7 {
            let inside = (2..4).contains(&col) && (0..2).contains(&row);
            assert_eq!(at(&c, col, row), if inside { GREEN } else { BLACK });
        }
    }
}

#[test]
fn set_pixel_blocks_are_never_empty_when_magnified() {
    let mut c = ready(5, 4, 6, 9);
    for y in 0..4 {
        for x in 0..5 {
            c.clear(Vec4::black());
            c.set_pixel(x, y, Vec4::red());
            assert!(c.pixels().iter().any(|&p| p == RED), "({}, {})", x, y);
        }
    }
}

#[test]
fn set_pixel_out_of_range_changes_nothing() {
    let mut c = ready(64, 64, 640, 640);
    c.clear(Vec4::black());
    let before = c.pixels().clone();
    c.set_pixel(64, 0, Vec4::red());
    c.set_pixel(0, 64, Vec4::red());
    c.set_pixel(u32::MAX, u32::MAX, Vec4::red());
    assert_eq!(c.pixels(), &before);
}

#[test]
fn degenerate_line_sets_one_block() {
    let mut c = ready(16, 16, 16, 16);
    c.clear(Vec4::black());
    c.draw_line(5, 9, 5, 9, Vec4::red());
    assert_eq!(lit(&c, RED), vec![(5, 9)]);
}

#[test]
fn shallow_line_rounds_the_minor_axis() {
    let mut c = ready(16, 16, 16, 16);
    c.clear(Vec4::black());
    c.draw_line(0, 0, 4, 1, Vec4::red());
    // y = round(k / 4): 0, 0.25, 0.5, 0.75, 1 -> 0, 0, 1, 1, 1
    assert_eq!(lit(&c, RED), vec![(0, 0), (1, 0), (2, 1), (3, 1), (4, 1)]);
}

#[test]
fn falling_line_rounds_halves_up() {
    let mut c = ready(16, 16, 16, 16);
    c.clear(Vec4::black());
    c.draw_line(0, 1, 4, 0, Vec4::red());
    // y = round(1 - k / 4): 1, 0.75, 0.5, 0.25, 0 -> 1, 1, 1, 0, 0
    assert_eq!(lit(&c, RED), vec![(3, 0), (4, 0), (0, 1), (1, 1), (2, 1)]);
}

#[test]
fn steep_line_steps_along_y() {
    let mut c = ready(16, 16, 16, 16);
    c.clear(Vec4::black());
    c.draw_line(2, 1, 0, 5, Vec4::red());
    // x = round(0 + 2 * (y - 1) / 4) stepping y from 1 to 5, ends swapped
    assert_eq!(lit(&c, RED), vec![(2, 1), (2, 2), (1, 3), (1, 4), (0, 5)]);
}

#[test]
fn line_points_do_not_depend_on_endpoint_order() {
    let pairs = [((0, 0), (15, 4)), ((3, 14), (9, 1)), ((12, 2), (1, 2)), ((4, 4), (10, 10)), ((0, 7), (6, 0))];
    for ((x1, y1), (x2, y2)) in pairs {
        let mut a = ready(16, 16, 16, 16);
        let mut b = ready(16, 16, 16, 16);
        a.clear(Vec4::black());
        b.clear(Vec4::black());
        a.draw_line(x1, y1, x2, y2, Vec4::red());
        b.draw_line(x2, y2, x1, y1, Vec4::red());
        assert_eq!(a.pixels(), b.pixels());
        let n = lit(&a, RED).len() as i64;
        let span = ((x1 as i64 - x2 as i64).abs()).max((y1 as i64 - y2 as i64).abs()) + 1;
        assert_eq!(n, span);
    }
}

#[test]
fn line_leaving_the_grid_is_clipped() {
    let mut c = ready(4, 4, 4, 4);
    c.clear(Vec4::black());
    c.draw_line(2, 2, 6, 2, Vec4::red());
    assert_eq!(lit(&c, RED), vec![(2, 2), (3, 2)]);
}

#[test]
fn same_size_check_twice_reallocates_once() {
    let mut c = ready(64, 64, 640, 640);
    assert_eq!(c.ensure_surface_size(800, 600), Ok(true));
    c.clear(Vec4::white());
    assert_eq!(c.ensure_surface_size(800, 600), Ok(false));
    assert!(c.pixels().iter().all(|&p| p == WHITE));
    assert_eq!(c.pixels().len(), 800 * 600);
}

#[test]
fn resize_gives_a_fresh_buffer() {
    let mut c = ready(8, 8, 16, 16);
    c.clear(Vec4::white());
    assert_eq!(c.ensure_surface_size(24, 8), Ok(true));
    assert_eq!(c.surface_width(), 24);
    assert_eq!(c.surface_height(), 8);
    assert!(c.pixels().iter().all(|&p| p == 0));
}

#[test]
fn zero_sized_window_is_ignored() {
    let mut c = ready(64, 64, 640, 640);
    c.clear(Vec4::white());
    assert_eq!(c.ensure_surface_size(0, 480), Ok(false));
    assert_eq!(c.ensure_surface_size(640, 0), Ok(false));
    assert_eq!(c.surface_width(), 640);
    assert!(c.pixels().iter().all(|&p| p == WHITE));
}

#[test]
fn force_resize_reallocates_every_time() {
    let mut c = ready(64, 64, 640, 640);
    c.set_force_resize(true);
    assert!(c.force_resize());
    assert_eq!(c.ensure_surface_size(640, 640), Ok(true));
    assert_eq!(c.ensure_surface_size(640, 640), Ok(true));
    assert_eq!(c.ensure_surface_size(0, 640), Ok(false));
}

#[test]
fn error_kinds_are_distinct() {
    assert_ne!(CanvasError::GraphicsInit, CanvasError::SurfaceResize);
    assert_ne!(CanvasError::SurfaceResize, CanvasError::Present);
}

#[test]
fn render_frame_on_magnified_canvas() {
    let mut c = ready(64, 64, 640, 640);
    c.render_frame();
    let block = |c: &SoftwareCanvas, x: u32, y: u32| -> Vec<u32> {
        let mut v = Vec::new();
        for row in y * 10..y * 10 + 10 {
            for col in x * 10..x * 10 + 10 {
                v.push(at(c, col, row));
            }
        }
        v
    };
    assert!(block(&c, 7, 3).iter().all(|&p| p == RED));
    assert!(block(&c, 12, 37).iter().all(|&p| p == GREEN));
    assert!(block(&c, 62, 53).iter().all(|&p| p == YELLOW));
    assert!(block(&c, 0, 63).iter().all(|&p| p == BLACK));
    assert!(block(&c, 40, 5).iter().all(|&p| p == BLACK));
    assert!(block(&c, 63, 0).iter().all(|&p| p == BLACK));
    assert!(c.pixels().iter().all(|&p| [BLACK, RED, GREEN, YELLOW, 0xFF00_00FF].contains(&p)));
    assert!(c.pixels().iter().filter(|&&p| p == BLACK).count() > 640 * 640 / 2);
}
