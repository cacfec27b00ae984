//! Tests of the framebuffer drawing routines and the ASCII renderer.

use nbody2d::body::Body;
use nbody2d::draw::{draw_entity, draw_line, get_entity_color, render_ascii, world_to_screen};
use nbody2d::fixed::SCALE;
use nbody2d::vec2::Vec2;

fn pixel(buf: &[u8], w: u32, x: u32, y: u32) -> [u8; 4] {
    let idx = (y as usize * w as usize + x as usize) * 4;
    [buf[idx], buf[idx + 1], buf[idx + 2], buf[idx + 3]]
}

#[test]
fn palette_colors() {
    assert_eq!(get_entity_color(0), [255, 255, 0, 255]);
    assert_eq!(get_entity_color(3), [0, 0, 255, 255]);
    assert_eq!(get_entity_color(8), [0, 0, 128, 255]);
    assert_eq!(get_entity_color(9), [255, 255, 255, 255]);
    assert_eq!(get_entity_color(1000), [255, 255, 255, 255]);
}

#[test]
fn entity_disc_paints_plus_shape() {
    let mut buf = vec![0u8; 4 * 4 * 4];
    draw_entity(&mut buf, 4, 4, 1, 1, 1, [1, 2, 3, 4]);
    assert_eq!(buf.len(), 64);
    // the disc of radius 1 around (1, 1) is a plus shape
    for (x, y) in [(1u32, 1u32), (0, 1), (2, 1), (1, 0), (1, 2)] {
        assert_eq!(pixel(&buf, 4, x, y), [1, 2, 3, 4], "pixel {},{}", x, y);
    }
    for (x, y) in [(0u32, 0u32), (2, 0), (0, 2), (2, 2), (3, 1), (1, 3), (3, 3)] {
        assert_eq!(pixel(&buf, 4, x, y), [0, 0, 0, 0], "pixel {},{}", x, y);
    }
}

#[test]
fn entity_clipped_at_screen_edge() {
    let mut buf = vec![9u8; 2 * 2 * 4];
    draw_entity(&mut buf, 2, 2, 0, 0, 1, [7, 7, 7, 7]);
    assert_eq!(pixel(&buf, 2, 0, 0), [7, 7, 7, 7]);
    assert_eq!(pixel(&buf, 2, 1, 0), [7, 7, 7, 7]);
    assert_eq!(pixel(&buf, 2, 0, 1), [7, 7, 7, 7]);
    // the diagonal neighbour is outside the disc
    assert_eq!(pixel(&buf, 2, 1, 1), [9, 9, 9, 9]);
}

#[test]
fn entity_offscreen_leaves_buffer_untouched() {
    let mut buf = vec![5u8; 3 * 3 * 4];
    draw_entity(&mut buf, 3, 3, -10, -10, 2, [1, 1, 1, 1]);
    assert!(buf.iter().all(|&b| b == 5));
    draw_entity(&mut buf, 3, 3, 1, 1, -1, [1, 1, 1, 1]);
    assert!(buf.iter().all(|&b| b == 5));
}

#[test]
fn line_horizontal_paints_row() {
    let mut buf = vec![0u8; 5 * 2 * 4];
    draw_line(&mut buf, 5, 2, 0, 0, 4, 0, [8, 8, 8, 8]);
    for x in 0..5u32 {
        assert_eq!(pixel(&buf, 5, x, 0), [8, 8, 8, 8], "pixel {},0", x);
    }
    for x in 0..5u32 {
        assert_eq!(pixel(&buf, 5, x, 1), [0, 0, 0, 0], "pixel {},1", x);
    }
}

#[test]
fn line_diagonal_hits_endpoints() {
    let mut buf = vec![0u8; 4 * 4 * 4];
    draw_line(&mut buf, 4, 4, 0, 0, 3, 3, [6, 6, 6, 6]);
    assert_eq!(pixel(&buf, 4, 0, 0), [6, 6, 6, 6]);
    assert_eq!(pixel(&buf, 4, 3, 3), [6, 6, 6, 6]);
    // a diagonal of slope one paints exactly the diagonal
    for d in 0..4u32 {
        assert_eq!(pixel(&buf, 4, d, d), [6, 6, 6, 6]);
    }
    assert_eq!(pixel(&buf, 4, 3, 0), [0, 0, 0, 0]);
}

#[test]
fn line_clipped_offscreen_is_safe() {
    let mut buf = vec![0u8; 2 * 2 * 4];
    draw_line(&mut buf, 2, 2, -3, -3, 5, 5, [1, 2, 3, 4]);
    assert_eq!(buf.len(), 16);
    assert_eq!(pixel(&buf, 2, 0, 0), [1, 2, 3, 4]);
    assert_eq!(pixel(&buf, 2, 1, 1), [1, 2, 3, 4]);
}

#[test]
fn world_to_screen_centers() {
    let r = world_to_screen(Vec2::zero(), Vec2::zero(), SCALE, 800, 600);
    assert_eq!(r, (400, 300));
    // one world unit right of center at scale 2 lands two pixels right
    let r = world_to_screen(Vec2::new(SCALE, 0), Vec2::zero(), 2 * SCALE, 800, 600);
    assert_eq!(r, (402, 300));
    // camera center shifts the origin
    let r = world_to_screen(Vec2::zero(), Vec2::new(SCALE, 0), SCALE, 800, 600);
    assert_eq!(r, (399, 300));
}

#[test]
fn ascii_grid_places_glyphs() {
    let a = Body::new(SCALE, [1 * SCALE, 1 * SCALE], 0);
    let b = Body::new(SCALE, [2 * SCALE, 3 * SCALE], 0);
    let c = Body::new(SCALE, [9 * SCALE, 4 * SCALE], 0);
    let bodies = vec![a, b, c];
    let grid = render_ascii(&bodies, 10, 5, SCALE);
    assert_eq!(grid.len(), 5);
    for row in &grid {
        assert_eq!(row.len(), 10);
    }
    // row 0 is the top: y is flipped
    assert_eq!(grid[5 - 1 - 1][1], 'A');
    assert_eq!(grid[5 - 1 - 3][2], 'B');
    assert_eq!(grid[5 - 1 - 4][9], 'C');
    let dots: usize = grid
        .iter()
        .map(|row| row.iter().filter(|&&ch| ch == '.').count())
        .sum();
    assert_eq!(dots, 50 - 3);
}

#[test]
fn ascii_grid_offgrid_bodies_ignored() {
    let far = Body::new(SCALE, [100 * SCALE, -50 * SCALE], 0);
    let grid = render_ascii(&vec![far], 4, 4, SCALE);
    let dots: usize = grid
        .iter()
        .map(|row| row.iter().filter(|&&ch| ch == '.').count())
        .sum();
    assert_eq!(dots, 16);
}
