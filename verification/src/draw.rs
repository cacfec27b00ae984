//! Rasterization into an RGBA framebuffer, and the ASCII grid renderer.
//!
//! The framebuffer is a byte vector of 4-byte RGBA pixels in row-major
//! order. Every drawing routine writes only pixels that lie on the screen
//! and inside the buffer, and leaves every other byte untouched.

use crate::body::Body;
use crate::fixed::{fx_add, fx_div, fx_mul, fx_round, fx_sub, iabs, sp_add, sp_div, sp_mul,
    sp_round, sp_sub};
use crate::vec2::Vec2;
use vstd::prelude::*;

verus! {

/// The RGBA color assigned to the body at `index`.
pub open spec fn color_of(index: int) -> (u8, u8, u8, u8) {
    if index == 0 {
        (255u8, 255u8, 0u8, 255u8)
    } else if index == 1 {
        (200u8, 200u8, 200u8, 255u8)
    } else if index == 2 {
        (255u8, 165u8, 0u8, 255u8)
    } else if index == 3 {
        (0u8, 0u8, 255u8, 255u8)
    } else if index == 4 {
        (255u8, 0u8, 0u8, 255u8)
    } else if index == 5 {
        (255u8, 215u8, 0u8, 255u8)
    } else if index == 6 {
        (210u8, 180u8, 140u8, 255u8)
    } else if index == 7 {
        (0u8, 255u8, 255u8, 255u8)
    } else if index == 8 {
        (0u8, 0u8, 128u8, 255u8)
    } else {
        (255u8, 255u8, 255u8, 255u8)
    }
}

/// A fixed palette over the body index: the first nine bodies get
/// distinct colors, the rest white.
pub fn get_entity_color(index: usize) -> (col: [u8; 4])
    ensures
        (col[0], col[1], col[2], col[3]) == color_of(index as int),
{
    match index {
        0 => [255, 255, 0, 255],
        1 => [200, 200, 200, 255],
        2 => [255, 165, 0, 255],
        3 => [0, 0, 255, 255],
        4 => [255, 0, 0, 255],
        5 => [255, 215, 0, 255],
        6 => [210, 180, 140, 255],
        7 => [0, 255, 255, 255],
        8 => [0, 0, 128, 255],
        _ => [255, 255, 255, 255],
    }
}

/// Clamp a mathematical integer into the `i32` range.
pub open spec fn clamp_i32(v: int) -> i32 {
    if v > i32::MAX {
        i32::MAX
    } else if v < i32::MIN {
        i32::MIN
    } else {
        v as i32
    }
}

/// The screen x coordinate of a world position under a camera: the offset
/// from the camera center, scaled, shifted by half the screen, rounded
/// and clamped.
pub open spec fn screen_coord(p: i64, c: i64, scale: i64, span: u32) -> i32 {
    clamp_i32(sp_round(sp_add(sp_mul(sp_sub(p, c), scale), (span as i64 * 5_000_000) as i64)))
}

/// Map a world position to screen pixel coordinates under a camera with
/// the given center and zoom scale.
pub fn world_to_screen(pos: Vec2, center: Vec2, scale: i64, width: u32, height: u32) -> (r: (
    i32,
    i32,
))
    ensures
        r.0 == screen_coord(pos.x, center.x, scale, width),
        r.1 == screen_coord(pos.y, center.y, scale, height),
{
    let hw: i64 = width as i64 * 5_000_000;
    let hh: i64 = height as i64 * 5_000_000;
    let rx: i64 = fx_round(fx_add(fx_mul(fx_sub(pos.x, center.x), scale), hw));
    let ry: i64 = fx_round(fx_add(fx_mul(fx_sub(pos.y, center.y), scale), hh));
    let sx: i32 = if rx > i32::MAX as i64 {
        i32::MAX
    } else if rx < i32::MIN as i64 {
        i32::MIN
    } else {
        rx as i32
    };
    let sy: i32 = if ry > i32::MAX as i64 {
        i32::MAX
    } else if ry < i32::MIN as i64 {
        i32::MIN
    } else {
        ry as i32
    };
    (sx, sy)
}

/// The buffer with the 4 bytes of pixel `(px, py)` set to `col`, when the
/// pixel is on the `w` by `h` screen and its bytes lie in the buffer;
/// the buffer unchanged otherwise.
pub open spec fn put_pixel_spec(
    buf: Seq<u8>,
    w: u32,
    h: u32,
    px: int,
    py: int,
    col: [u8; 4],
) -> Seq<u8> {
    let idx = (py * w + px) * 4;
    if 0 <= px < w && 0 <= py < h && idx + 3 < buf.len() {
        buf.update(idx, col[0]).update(idx + 1, col[1]).update(idx + 2, col[2]).update(
            idx + 3,
            col[3],
        )
    } else {
        buf
    }
}

/// Write one pixel, if it is on screen and inside the buffer.
fn paint_pixel(f_buf: &mut Vec<u8>, w: u32, h: u32, px: i64, py: i64, col: [u8; 4])
    ensures
        final(f_buf)@ == put_pixel_spec(old(f_buf)@, w, h, px as int, py as int, col),
{
    if px >= 0 && py >= 0 && px < w as i64 && py < h as i64 {
        proof {
            assert((py as u128) * (w as u128) < 0x1_0000_0000_0000_0000) by (nonlinear_arith)
                requires
                    0 <= (py as u128) < 0x1_0000_0000,
                    (w as u128) <= 0x1_0000_0000,
            ;
        }
        let idx128: u128 = ((py as u128) * (w as u128) + (px as u128)) * 4;
        if idx128 + 3 < f_buf.len() as u128 {
            let idx: usize = idx128 as usize;
            f_buf.set(idx, col[0]);
            f_buf.set(idx + 1, col[1]);
            f_buf.set(idx + 2, col[2]);
            f_buf.set(idx + 3, col[3]);
        }
    }
}

/// The x coordinate of the pixel that byte `k` belongs to.
pub open spec fn px_of(w: u32, k: int) -> int {
    (k / 4) % (w as int)
}

/// The y coordinate of the pixel that byte `k` belongs to.
pub open spec fn py_of(w: u32, k: int) -> int {
    (k / 4) / (w as int)
}

/// The pixel `(px, py)` lies in the disc of radius `rad` around `(x, y)`.
pub open spec fn in_disc(x: int, y: int, rad: int, px: int, py: int) -> bool {
    (px - x) * (px - x) + (py - y) * (py - y) <= rad * rad
}

/// Byte `k` of the buffer belongs to a pixel that `draw_entity` paints:
/// one on the screen, with all four bytes inside the buffer, inside the
/// disc of radius `rad` around `(x, y)`.
pub open spec fn entity_covers(w: u32, h: u32, x: int, y: int, rad: int, len: int, k: int) -> bool {
    &&& w > 0
    &&& rad >= 0
    &&& 0 <= k < len
    &&& (k / 4) * 4 + 3 < len
    &&& py_of(w, k) < h
    &&& in_disc(x, y, rad, px_of(w, k), py_of(w, k))
}

/// Byte `k` covered, and its pixel already visited when the scan is about
/// to process offset `(dy, dx)` (rows top to bottom, each row left to
/// right).
pub open spec fn covers_before(
    w: u32,
    h: u32,
    x: int,
    y: int,
    rad: int,
    len: int,
    k: int,
    dy: int,
    dx: int,
) -> bool {
    &&& entity_covers(w, h, x, y, rad, len, k)
    &&& (py_of(w, k) - y < dy || (py_of(w, k) - y == dy && px_of(w, k) - x < dx))
}

/// A pixel in the disc is within `rad` of the center on both axes.
proof fn lemma_disc_bounds(x: int, y: int, rad: int, px: int, py: int)
    by (nonlinear_arith)
    requires
        (px - x) * (px - x) + (py - y) * (py - y) <= rad * rad,
        rad >= 0,
    ensures
        -rad <= px - x <= rad,
        -rad <= py - y <= rad,
{
}

proof fn lemma_disc_test_bounds(dx: int, dy: int, r: int)
    by (nonlinear_arith)
    requires
        -0x1_0000_0000 <= dx <= 0x1_0000_0000,
        -0x1_0000_0000 <= dy <= 0x1_0000_0000,
        0 <= r <= 0x1_0000_0000,
    ensures
        0 <= dx * dx <= 0x1_0000_0000_0000_0000,
        0 <= dy * dy <= 0x1_0000_0000_0000_0000,
        0 <= r * r <= 0x1_0000_0000_0000_0000,
{
}

/// The bytes of pixel `(px, py)` map back to it.
proof fn lemma_bytes_of_pixel(w: u32, px: int, py: int, k: int)
    requires
        w > 0,
        0 <= px < w,
        0 <= py,
        (py * (w as int) + px) * 4 <= k < (py * (w as int) + px) * 4 + 4,
    ensures
        px_of(w, k) == px,
        py_of(w, k) == py,
        k % 4 == k - (py * (w as int) + px) * 4,
{
    let p = py * (w as int) + px;
    vstd::arithmetic::div_mod::lemma_fundamental_div_mod_converse(k, 4, p, k - 4 * p);
    vstd::arithmetic::div_mod::lemma_fundamental_div_mod_converse(p, w as int, py, px);
}

/// Every nonnegative byte index belongs to exactly the byte range of its
/// pixel.
proof fn lemma_pixel_of_byte(w: u32, k: int)
    requires
        w > 0,
        0 <= k,
    ensures
        0 <= px_of(w, k) < w,
        0 <= py_of(w, k),
        (py_of(w, k) * (w as int) + px_of(w, k)) * 4 <= k < (py_of(w, k) * (w as int) + px_of(
            w,
            k,
        )) * 4 + 4,
{
    vstd::arithmetic::div_mod::lemma_fundamental_div_mod(k, 4);
    vstd::arithmetic::div_mod::lemma_mod_bound(k, 4);
    let p = k / 4;
    vstd::arithmetic::div_mod::lemma_div_pos_is_pos(k, 4);
    vstd::arithmetic::div_mod::lemma_fundamental_div_mod(p, w as int);
    vstd::arithmetic::div_mod::lemma_mod_bound(p, w as int);
    vstd::arithmetic::div_mod::lemma_div_pos_is_pos(p, w as int);
    vstd::arithmetic::mul::lemma_mul_is_commutative(w as int, py_of(w, k));
    vstd::arithmetic::mul::lemma_mul_is_commutative(4, p);
    vstd::arithmetic::mul::lemma_mul_is_commutative(
        4,
        py_of(w, k) * (w as int) + px_of(w, k),
    );
}

/// The value of byte `k` after `draw_entity`.
pub open spec fn entity_byte(
    buf: Seq<u8>,
    w: u32,
    h: u32,
    x: int,
    y: int,
    rad: int,
    col: [u8; 4],
    k: int,
) -> u8 {
    if entity_covers(w, h, x, y, rad, buf.len() as int, k) {
        col[k % 4]
    } else {
        buf[k]
    }
}

/// Draw a filled disc of radius `rad` (in pixels) centered at `(x, y)`
/// into the framebuffer: every byte of every on-screen, in-buffer pixel
/// inside the disc is set to the corresponding component of `col`, and
/// every other byte is untouched.
pub fn draw_entity(
    f_buf: &mut Vec<u8>,
    width: u32,
    height: u32,
    x: i32,
    y: i32,
    rad: i32,
    col: [u8; 4],
)
    ensures
        final(f_buf)@.len() == old(f_buf)@.len(),
        forall|k: int|
            0 <= k < old(f_buf)@.len() ==> final(f_buf)@[k] == entity_byte(
                old(f_buf)@,
                width,
                height,
                x as int,
                y as int,
                rad as int,
                col,
                k,
            ),
{
    if rad < 0 {
        return ;
    }
    let ghost buf0: Seq<u8> = f_buf@;
    let ghost len: int = buf0.len() as int;
    let rad64: i64 = rad as i64;
    let x64: i64 = x as i64;
    let y64: i64 = y as i64;
    let mut dy: i64 = -rad64;
    proof {
        assert forall|k: int| 0 <= k < len implies !(#[trigger] covers_before(
            width,
            height,
            x as int,
            y as int,
            rad as int,
            len,
            k,
            -rad as int,
            -rad as int,
        )) by {
            if covers_before(width, height, x as int, y as int, rad as int, len, k, -rad as int,
                -rad as int) {
                lemma_disc_bounds(x as int, y as int, rad as int, px_of(width, k), py_of(width, k));
            }
        }
    }
    while dy <= rad64
        invariant
            rad64 == rad as i64,
            x64 == x as i64,
            y64 == y as i64,
            rad >= 0,
            -rad64 <= dy <= rad64 + 1,
            f_buf@.len() == len,
            buf0.len() == len,
            forall|k: int|
                0 <= k < len ==> #[trigger] f_buf@[k] == (if covers_before(
                    width,
                    height,
                    x as int,
                    y as int,
                    rad as int,
                    len,
                    k,
                    dy as int,
                    -rad as int,
                ) {
                    col[k % 4]
                } else {
                    buf0[k]
                }),
        decreases rad64 + 1 - dy,
    {
        let mut dx: i64 = -rad64;
        while dx <= rad64
            invariant
                rad64 == rad as i64,
                x64 == x as i64,
                y64 == y as i64,
                rad >= 0,
                -rad64 <= dy <= rad64,
                -rad64 <= dx <= rad64 + 1,
                f_buf@.len() == len,
                buf0.len() == len,
                forall|k: int|
                    0 <= k < len ==> #[trigger] f_buf@[k] == (if covers_before(
                        width,
                        height,
                        x as int,
                        y as int,
                        rad as int,
                        len,
                        k,
                        dy as int,
                        dx as int,
                    ) {
                        col[k % 4]
                    } else {
                        buf0[k]
                    }),
            decreases rad64 + 1 - dx,
        {
            let ghost prev: Seq<u8> = f_buf@;
            proof {
                lemma_disc_test_bounds(dx as int, dy as int, rad64 as int);
            }
            let inside: bool = (dx as i128) * (dx as i128) + (dy as i128) * (dy as i128) <= (
            rad64 as i128) * (rad64 as i128);
            if inside {
                paint_pixel(f_buf, width, height, x64 + dx, y64 + dy, col);
            }
            proof {
                let px = x + dx as int;
                let py = y + dy as int;
                let painted = inside && 0 <= px < width && 0 <= py < height && (py * (
                width as int) + px) * 4 + 3 < len;
                let idx = (py * (width as int) + px) * 4;
                assert forall|k: int| 0 <= k < len implies #[trigger] f_buf@[k] == (if covers_before(
                    width,
                    height,
                    x as int,
                    y as int,
                    rad as int,
                    len,
                    k,
                    dy as int,
                    dx as int + 1,
                ) {
                    col[k % 4]
                } else {
                    buf0[k]
                }) by {
                    if width > 0 {
                        lemma_pixel_of_byte(width, k);
                    }
                    if painted && idx <= k < idx + 4 {
                        lemma_bytes_of_pixel(width, px, py, k);
                    }
                    if covers_before(width, height, x as int, y as int, rad as int, len, k,
                        dy as int, dx as int + 1) && !covers_before(width, height, x as int,
                        y as int, rad as int, len, k, dy as int, dx as int) {
                        assert(px_of(width, k) == px && py_of(width, k) == py);
                    }
                }
            }
            dx = dx + 1;
        }
        proof {
            assert forall|k: int| 0 <= k < len implies #[trigger] covers_before(
                width,
                height,
                x as int,
                y as int,
                rad as int,
                len,
                k,
                dy as int,
                rad as int + 1,
            ) == covers_before(
                width,
                height,
                x as int,
                y as int,
                rad as int,
                len,
                k,
                dy as int + 1,
                -rad as int,
            ) by {
                if entity_covers(width, height, x as int, y as int, rad as int, len, k) {
                    lemma_disc_bounds(x as int, y as int, rad as int, px_of(width, k), py_of(width, k));
                }
            }
        }
        dy = dy + 1;
    }
    proof {
        assert forall|k: int| 0 <= k < len implies #[trigger] covers_before(
            width,
            height,
            x as int,
            y as int,
            rad as int,
            len,
            k,
            rad as int + 1,
            -rad as int,
        ) == entity_covers(width, height, x as int, y as int, rad as int, len, k) by {
            if entity_covers(width, height, x as int, y as int, rad as int, len, k) {
                lemma_disc_bounds(x as int, y as int, rad as int, px_of(width, k), py_of(width, k));
            }
        }
    }
}

/// The buffer after the Bresenham walk from `(x, y)` toward `(x1, y1)`
/// with error term `err`: paint the current pixel, stop at the endpoint
/// (or when the step budget runs out), otherwise advance by the classic
/// error-doubling rule.
pub open spec fn line_fold(
    buf: Seq<u8>,
    w: u32,
    h: u32,
    col: [u8; 4],
    x: int,
    y: int,
    x1: int,
    y1: int,
    dxx: int,
    dyy: int,
    sx: int,
    sy: int,
    err: int,
    fuel: nat,
) -> Seq<u8>
    decreases fuel,
{
    let b1 = put_pixel_spec(buf, w, h, x, y, col);
    if (x == x1 && y == y1) || fuel == 0 {
        b1
    } else {
        let e2 = 2 * err;
        let x2 = if e2 >= dyy {
            x + sx
        } else {
            x
        };
        let err2 = if e2 >= dyy {
            err + dyy
        } else {
            err
        };
        let y2 = if e2 <= dxx {
            y + sy
        } else {
            y
        };
        let err3 = if e2 <= dxx {
            err2 + dxx
        } else {
            err2
        };
        line_fold(b1, w, h, col, x2, y2, x1, y1, dxx, dyy, sx, sy, err3, (fuel - 1) as nat)
    }
}

/// The buffer after drawing the line from `(x0, y0)` to `(x1, y1)`.
pub open spec fn draw_line_spec(
    buf: Seq<u8>,
    w: u32,
    h: u32,
    x0: int,
    y0: int,
    x1: int,
    y1: int,
    col: [u8; 4],
) -> Seq<u8> {
    let dxx = iabs(x1 - x0);
    let dyy = -iabs(y1 - y0);
    let sx: int = if x0 < x1 {
        1
    } else {
        -1
    };
    let sy: int = if y0 < y1 {
        1
    } else {
        -1
    };
    line_fold(buf, w, h, col, x0, y0, x1, y1, dxx, dyy, sx, sy, dxx + dyy, (dxx - dyy + 1) as nat)
}

/// Draw the straight line from `(x0, y0)` to `(x1, y1)` by Bresenham's
/// walk, writing only pixels that are on screen and inside the buffer.
pub fn draw_line(
    f_buf: &mut Vec<u8>,
    screen_w: u32,
    screen_h: u32,
    x0: i32,
    y0: i32,
    x1: i32,
    y1: i32,
    color: [u8; 4],
)
    ensures
        final(f_buf)@ == draw_line_spec(
            old(f_buf)@,
            screen_w,
            screen_h,
            x0 as int,
            y0 as int,
            x1 as int,
            y1 as int,
            color,
        ),
        final(f_buf)@.len() == old(f_buf)@.len(),
{
    let ghost buf0: Seq<u8> = f_buf@;
    let ghost len: int = buf0.len() as int;
    let dx64: i64 = x1 as i64 - x0 as i64;
    let dy64: i64 = y1 as i64 - y0 as i64;
    let dxx: i64 = if dx64 < 0 {
        -dx64
    } else {
        dx64
    };
    let dyy: i64 = if dy64 < 0 {
        dy64
    } else {
        -dy64
    };
    let sx: i64 = if x0 < x1 {
        1
    } else {
        -1
    };
    let sy: i64 = if y0 < y1 {
        1
    } else {
        -1
    };
    let mut err: i64 = dxx + dyy;
    let mut x: i64 = x0 as i64;
    let mut y: i64 = y0 as i64;
    let mut fuel: i64 = dxx - dyy + 1;
    let ghost f0: int = fuel as int;
    let x1t: i64 = x1 as i64;
    let y1t: i64 = y1 as i64;
    loop
        invariant_except_break
            f_buf@.len() == len,
            buf0.len() == len,
            0 <= dxx <= 0x1_0000_0000,
            -0x1_0000_0000 <= dyy <= 0,
            sx == 1 || sx == -1,
            sy == 1 || sy == -1,
            x1t == x1 as i64,
            y1t == y1 as i64,
            f0 == dxx - dyy + 1,
            0 <= fuel <= f0,
            2 * dyy <= err <= 2 * dxx,
            iabs(x as int) <= 0x8000_0000 + (f0 - fuel),
            iabs(y as int) <= 0x8000_0000 + (f0 - fuel),
            line_fold(
                f_buf@,
                screen_w,
                screen_h,
                color,
                x as int,
                y as int,
                x1 as int,
                y1 as int,
                dxx as int,
                dyy as int,
                sx as int,
                sy as int,
                err as int,
                fuel as nat,
            ) == draw_line_spec(
                buf0,
                screen_w,
                screen_h,
                x0 as int,
                y0 as int,
                x1 as int,
                y1 as int,
                color,
            ),
        ensures
            f_buf@ == draw_line_spec(
                buf0,
                screen_w,
                screen_h,
                x0 as int,
                y0 as int,
                x1 as int,
                y1 as int,
                color,
            ),
            f_buf@.len() == len,
        decreases fuel,
    {
        paint_pixel(f_buf, screen_w, screen_h, x, y, color);
        if (x == x1t && y == y1t) || fuel == 0 {
            break ;
        }
        let e2: i64 = 2 * err;
        if e2 >= dyy {
            x = x + sx;
            err = err + dyy;
        }
        if e2 <= dxx {
            y = y + sy;
            err = err + dxx;
        }
        fuel = fuel - 1;
    }
}

/// The glyph of the body at `index` in the ASCII rendering.
pub open spec fn symbol_of(index: int) -> char {
    if index == 0 {
        'A'
    } else if index == 1 {
        'B'
    } else if index == 2 {
        'C'
    } else {
        '*'
    }
}

/// The grid cell a body maps to: its position divided by `cell_scale`,
/// rounded to the nearest whole cell.
pub open spec fn cell_of(b: Body, cell_scale: i64) -> (int, int) {
    (sp_round(sp_div(b.position.x, cell_scale)), sp_round(sp_div(b.position.y, cell_scale)))
}

/// The character of grid cell `(gx, gy)` after placing the first `n`
/// bodies: the glyph of the last body mapping there (the y axis points
/// up, so row 0 is the top), or a dot.
pub open spec fn grid_char(
    s: Seq<Body>,
    cell_scale: i64,
    width: int,
    height: int,
    gx: int,
    gy: int,
    n: int,
) -> char
    decreases n,
{
    if n <= 0 {
        '.'
    } else {
        let c = cell_of(s[n - 1], cell_scale);
        if 0 <= c.0 < width && 0 <= c.1 < height && gx == c.0 && gy == height - 1 - c.1 {
            symbol_of(n - 1)
        } else {
            grid_char(s, cell_scale, width, height, gx, gy, n - 1)
        }
    }
}

proof fn lemma_flat_bound(w: int, h: int, gy: int, gx: int)
    by (nonlinear_arith)
    requires
        0 <= gx < w,
        0 <= gy < h,
    ensures
        0 <= gy * w + gx < h * w,
        h * w == w * h,
{
}

/// Render the bodies onto a character grid: each body is rounded to a
/// cell and drawn as its glyph (later bodies over earlier ones), every
/// other cell is a dot. Rows are returned top to bottom.
pub fn render_ascii(bodies: &Vec<Body>, width: usize, height: usize, cell_scale: i64) -> (grid:
    Vec<Vec<char>>)
    requires
        (width as int) * (height as int) <= usize::MAX as int,
    ensures
        grid@.len() == height,
        forall|gy: int| 0 <= gy < height ==> (#[trigger] grid@[gy])@.len() == width,
        forall|gy: int, gx: int|
            0 <= gy < height && 0 <= gx < width ==> (#[trigger] grid@[gy]@[gx]) == grid_char(
                bodies@,
                cell_scale,
                width as int,
                height as int,
                gx,
                gy,
                bodies@.len() as int,
            ),
{
    let ghost s = bodies@;
    let n = bodies.len();
    let mut flat: Vec<char> = Vec::new();
    let mut filled: usize = 0;
    proof {
        vstd::arithmetic::mul::lemma_mul_nonnegative(width as int, height as int);
    }
    let total: usize = width * height;
    while filled < total
        invariant
            filled <= total,
            flat@.len() == filled,
            forall|k: int| 0 <= k < filled ==> flat@[k] == '.',
        decreases total - filled,
    {
        flat.push('.');
        filled = filled + 1;
    }
    proof {
        assert forall|gy2: int, gx2: int| 0 <= gy2 < height && 0 <= gx2 < width implies (
        #[trigger] flat@[gy2 * (width as int) + gx2]) == grid_char(
            s,
            cell_scale,
            width as int,
            height as int,
            gx2,
            gy2,
            0,
        ) by {
            lemma_flat_bound(width as int, height as int, gy2, gx2);
        }
    }
    let mut i: usize = 0;
    while i < n
        invariant
            i <= n,
            bodies@ == s,
            s.len() == n,
            flat@.len() == total,
            total == (width as int) * (height as int),
            (width as int) * (height as int) <= usize::MAX as int,
            forall|gy: int, gx: int|
                0 <= gy < height && 0 <= gx < width ==> (#[trigger] flat@[gy * (width as int)
                    + gx]) == grid_char(
                    s,
                    cell_scale,
                    width as int,
                    height as int,
                    gx,
                    gy,
                    i as int,
                ),
        decreases n - i,
    {
        let cx: i64 = fx_round(fx_div(bodies[i].position.x, cell_scale));
        let cy: i64 = fx_round(fx_div(bodies[i].position.y, cell_scale));
        let on = cx >= 0 && cy >= 0 && (cx as u128) < (width as u128) && (cy as u128) < (
        height as u128);
        if on {
            let gx: usize = cx as usize;
            let gy: usize = height - 1 - (cy as usize);
            proof {
                lemma_flat_bound(width as int, height as int, gy as int, gx as int);
            }
            let idx: usize = gy * width + gx;
            let c: char = if i == 0 {
                'A'
            } else if i == 1 {
                'B'
            } else if i == 2 {
                'C'
            } else {
                '*'
            };
            let ghost prev = flat@;
            flat.set(idx, c);
            proof {
                assert forall|gy2: int, gx2: int|
                    0 <= gy2 < height && 0 <= gx2 < width implies (#[trigger] flat@[gy2 * (
                width as int) + gx2]) == grid_char(
                    s,
                    cell_scale,
                    width as int,
                    height as int,
                    gx2,
                    gy2,
                    i as int + 1,
                ) by {
                    lemma_flat_bound(width as int, height as int, gy2, gx2);
                    lemma_flat_bound(width as int, height as int, gy as int, gx as int);
                    if gy2 * (width as int) + gx2 == gy * (width as int) + gx {
                        vstd::arithmetic::div_mod::lemma_fundamental_div_mod_converse(
                            gy2 * (width as int) + gx2,
                            width as int,
                            gy2,
                            gx2,
                        );
                        vstd::arithmetic::div_mod::lemma_fundamental_div_mod_converse(
                            gy * (width as int) + gx,
                            width as int,
                            gy as int,
                            gx as int,
                        );
                        assert(gy2 == gy as int && gx2 == gx as int);
                    }
                }
            }
        } else {
            proof {
                assert forall|gy2: int, gx2: int|
                    0 <= gy2 < height && 0 <= gx2 < width implies (#[trigger] flat@[gy2 * (
                width as int) + gx2]) == grid_char(
                    s,
                    cell_scale,
                    width as int,
                    height as int,
                    gx2,
                    gy2,
                    i as int + 1,
                ) by {
                    lemma_flat_bound(width as int, height as int, gy2, gx2);
                }
            }
        }
        i = i + 1;
    }
    let mut grid: Vec<Vec<char>> = Vec::new();
    let mut gy: usize = 0;
    while gy < height
        invariant
            gy <= height,
            flat@.len() == total,
            total == (width as int) * (height as int),
            grid@.len() == gy,
            forall|m: int| 0 <= m < gy ==> (#[trigger] grid@[m])@.len() == width,
            forall|m: int, gx: int|
                0 <= m < gy && 0 <= gx < width ==> (#[trigger] grid@[m]@[gx]) == flat@[m * (
                width as int) + gx],
        decreases height - gy,
    {
        let mut row: Vec<char> = Vec::new();
        let mut gx: usize = 0;
        while gx < width
            invariant
                gx <= width,
                gy < height,
                flat@.len() == total,
                total == (width as int) * (height as int),
                row@.len() == gx,
                forall|m: int|
                    0 <= m < gx ==> (#[trigger] row@[m]) == flat@[(gy as int) * (width as int) + m],
            decreases width - gx,
        {
            proof {
                lemma_flat_bound(width as int, height as int, gy as int, gx as int);
            }
            row.push(flat[gy * width + gx]);
            gx = gx + 1;
        }
        grid.push(row);
        gy = gy + 1;
    }
    grid
}

} // verus!
