use vstd::prelude::*;

verus! {

/// Number of pixel columns in the framebuffer.
pub const SCREEN_WIDTH: usize = 64;
/// Number of pixel rows in the framebuffer.
pub const SCREEN_HEIGHT: usize = 32;
/// Total number of pixels in the framebuffer.
pub const SCREEN_PIXELS: usize = 2048;

/// How many columns pixel column `px` lies to the right of the origin column
/// `x0`, walking rightward and wrapping at the right edge of the grid.
pub open spec fn col_offset(x0: int, px: int) -> int {
    if px >= x0 {
        px - x0
    } else {
        px + 64 - x0
    }
}

/// How many rows pixel row `py` lies below the origin row `y0`, walking
/// downward and wrapping at the bottom edge of the grid.
pub open spec fn row_offset(y0: int, py: int) -> int {
    if py >= y0 {
        py - y0
    } else {
        py + 32 - y0
    }
}

/// The bit of sprite row byte `row` that lands `dc` columns right of the
/// sprite origin; bit 7 is the leftmost pixel of the row.
pub open spec fn sprite_row_bit(row: u8, dc: int) -> bool {
    (row >> ((7 - dc) as u8)) & 1 == 1
}

/// Whether a draw of `n` sprite rows at origin (x0, y0) writes pixel
/// (px, py). Each drawn pixel wraps on its own axis, so the written pixels
/// are exactly those at column offset below 8 and row offset below `n`.
pub open spec fn covers(x0: int, y0: int, n: int, px: int, py: int) -> bool {
    col_offset(x0, px) < 8 && row_offset(y0, py) < n
}

/// The sprite bit that a draw of `rows` at (x0, y0) XORs into pixel
/// (px, py); meaningful only where the draw covers that pixel.
pub open spec fn sprite_bit_at(rows: Seq<u8>, x0: int, y0: int, px: int, py: int) -> bool {
    sprite_row_bit(rows[row_offset(y0, py)], col_offset(x0, px))
}

/// Pixel (px, py) after XOR-compositing `rows` at origin (x0, y0) onto `fb`
/// (row-major, index py * 64 + px).
pub open spec fn drawn_pixel(fb: Seq<bool>, rows: Seq<u8>, x0: int, y0: int, px: int, py: int) -> bool {
    if covers(x0, y0, rows.len() as int, px, py) {
        fb[py * 64 + px] != sprite_bit_at(rows, x0, y0, px, py)
    } else {
        fb[py * 64 + px]
    }
}

/// The whole framebuffer after XOR-compositing `rows` at origin (x0, y0).
pub open spec fn draw_seq(fb: Seq<bool>, rows: Seq<u8>, x0: int, y0: int) -> Seq<bool> {
    Seq::new(fb.len(), |q: int| drawn_pixel(fb, rows, x0, y0, q % 64, q / 64))
}

/// Whether XOR-compositing `rows` at (x0, y0) turns some previously set
/// pixel off, i.e. whether the draw reports a collision.
pub open spec fn draw_collides(fb: Seq<bool>, rows: Seq<u8>, x0: int, y0: int) -> bool {
    exists|px: int, py: int|
        0 <= px < 64 && 0 <= py < 32 && #[trigger] covers(x0, y0, rows.len() as int, px, py)
            && fb[py * 64 + px] && sprite_bit_at(rows, x0, y0, px, py)
}

/// Coverage after the first `done` sprite pixels, counted row-major: pixel
/// (px, py) has been written once its row offset dr and column offset dc
/// satisfy dr * 8 + dc < done.
spec fn covers_partial(x0: int, y0: int, done: int, px: int, py: int) -> bool {
    col_offset(x0, px) < 8 && row_offset(y0, py) * 8 + col_offset(x0, px) < done
}

/// Pixel (px, py) after the first `done` sprite pixels have been composited.
spec fn partial_pixel(
    fb: Seq<bool>,
    rows: Seq<u8>,
    x0: int,
    y0: int,
    done: int,
    px: int,
    py: int,
) -> bool {
    if covers_partial(x0, y0, done, px, py) {
        fb[py * 64 + px] != sprite_bit_at(rows, x0, y0, px, py)
    } else {
        fb[py * 64 + px]
    }
}

/// Whether one of the first `done` sprite pixels collided.
spec fn partial_collides(fb: Seq<bool>, rows: Seq<u8>, x0: int, y0: int, done: int) -> bool {
    exists|px: int, py: int|
        0 <= px < 64 && 0 <= py < 32 && #[trigger] covers_partial(x0, y0, done, px, py)
            && fb[py * 64 + px] && sprite_bit_at(rows, x0, y0, px, py)
}

/// A monochrome framebuffer of SCREEN_WIDTH x SCREEN_HEIGHT single-bit
/// pixels, stored row-major. Coordinates wrap modulo the width and height,
/// and sprites are composited by XOR with collision reporting.
pub struct Display {
    pixels: Vec<bool>,
}

impl View for Display {
    type V = Seq<bool>;

    closed spec fn view(&self) -> Seq<bool> {
        self.pixels@
    }
}

fn blank_pixels() -> (p: Vec<bool>)
    ensures
        p@.len() == 2048,
        forall|q: int| 0 <= q < 2048 ==> !p@[q],
{
    let mut p: Vec<bool> = Vec::new();
    while p.len() < 2048
        invariant
            p@.len() <= 2048,
            forall|q: int| 0 <= q < p@.len() ==> !p@[q],
        decreases 2048 - p@.len(),
    {
        p.push(false);
    }
    p
}

impl Display {
    /// The pixel store holds exactly one bit per grid cell.
    pub open spec fn wf(&self) -> bool {
        self@.len() == 2048
    }

    /// A display with every pixel off.
    pub fn new() -> (d: Display)
        ensures
            d.wf(),
            forall|q: int| 0 <= q < 2048 ==> !d@[q],
    {
        Display { pixels: blank_pixels() }
    }

    /// Reset every pixel to off.
    pub fn clear(&mut self)
        ensures
            final(self).wf(),
            forall|q: int| 0 <= q < 2048 ==> !final(self)@[q],
    {
        self.pixels = blank_pixels();
    }

    /// Read one pixel.
    pub fn pixel(&self, x: usize, y: usize) -> (on: bool)
        requires
            self.wf(),
            x < 64,
            y < 32,
        ensures
            on == self@[y as int * 64 + x as int],
    {
        self.pixels[y * 64 + x]
    }

    /// XOR-composite the sprite `rows` (one byte per row, bit 7 leftmost)
    /// onto the grid at origin (x0, y0), each pixel wrapping on its own
    /// axis; report whether any previously set pixel was turned off.
    pub fn draw(&mut self, x0: usize, y0: usize, rows: &Vec<u8>) -> (collision: bool)
        requires
            old(self).wf(),
            x0 < 64,
            y0 < 32,
            rows@.len() <= 15,
        ensures
            final(self).wf(),
            final(self)@ == draw_seq(old(self)@, rows@, x0 as int, y0 as int),
            collision == draw_collides(old(self)@, rows@, x0 as int, y0 as int),
    {
        let ghost orig: Seq<bool> = self@;
        let ghost gx0: int = x0 as int;
        let ghost gy0: int = y0 as int;
        let n: usize = rows.len();
        let mut collision: bool = false;
        let mut r: usize = 0;
        while r < n
            invariant
                self@.len() == 2048,
                orig.len() == 2048,
                rows@.len() == n,
                n <= 15,
                x0 < 64,
                y0 < 32,
                gx0 == x0 as int,
                gy0 == y0 as int,
                0 <= r <= n,
                forall|px: int, py: int|
                    0 <= px < 64 && 0 <= py < 32 ==> self@[py * 64 + px] == #[trigger] partial_pixel(
                        orig, rows@, gx0, gy0, 8 * r, px, py),
                collision == partial_collides(orig, rows@, gx0, gy0, 8 * r),
            decreases n - r,
        {
            let row: u8 = rows[r];
            let mut c: usize = 0;
            while c < 8
                invariant
                    self@.len() == 2048,
                    orig.len() == 2048,
                    rows@.len() == n,
                    n <= 15,
                    x0 < 64,
                    y0 < 32,
                    gx0 == x0 as int,
                    gy0 == y0 as int,
                    r < n,
                    row == rows@[r as int],
                    0 <= c <= 8,
                    forall|px: int, py: int|
                        0 <= px < 64 && 0 <= py < 32 ==> self@[py * 64 + px]
                            == #[trigger] partial_pixel(
                            orig, rows@, gx0, gy0, 8 * r + c, px, py),
                    collision == partial_collides(orig, rows@, gx0, gy0, 8 * r + c),
                decreases 8 - c,
            {
                let ghost done: int = 8 * r + c;
                let sx: usize = if x0 + c < 64 {
                    x0 + c
                } else {
                    x0 + c - 64
                };
                let sy: usize = if y0 + r < 32 {
                    y0 + r
                } else {
                    y0 + r - 32
                };
                let sh: u8 = (7 - c) as u8;
                let bit: bool = ((row >> sh) & 1) == 1;
                let idx: usize = sy * 64 + sx;
                let oldpix: bool = self.pixels[idx];
                proof {
                    assert(col_offset(gx0, sx as int) == c as int);
                    assert(row_offset(gy0, sy as int) == r as int);
                    assert(sprite_bit_at(rows@, gx0, gy0, sx as int, sy as int) == bit);
                    assert(partial_pixel(orig, rows@, gx0, gy0, done, sx as int, sy as int)
                        == orig[idx as int]);
                    assert(oldpix == orig[idx as int]);
                }
                if oldpix && bit {
                    collision = true;
                }
                self.pixels.set(idx, oldpix != bit);
                proof {
                    assert forall|px: int, py: int| 0 <= px < 64 && 0 <= py < 32 implies self@[py
                        * 64 + px] == #[trigger] partial_pixel(
                        orig, rows@, gx0, gy0, done + 1, px, py) by {
                        let dc = col_offset(gx0, px);
                        let dr = row_offset(gy0, py);
                        assert(0 <= dc < 64 && 0 <= dr < 32);
                        if py * 64 + px == idx as int {
                            // a row-major index decomposes uniquely
                            assert(px == sx as int && py == sy as int);
                            assert(self@[py * 64 + px] == (oldpix != bit));
                            assert(covers_partial(gx0, gy0, done + 1, px, py));
                            assert(partial_pixel(orig, rows@, gx0, gy0, done + 1, px, py) == (orig[
                                idx as int] != bit));
                        } else {
                            assert(self@[py * 64 + px] == partial_pixel(
                                orig, rows@, gx0, gy0, done, px, py));
                            // coverage can differ only at the pixel just written
                            if dc < 8 && dr * 8 + dc == done {
                                assert(dc == c as int && dr == r as int);
                                assert(px == sx as int);
                                assert(py == sy as int);
                                assert(false);
                            }
                            assert(partial_pixel(orig, rows@, gx0, gy0, done + 1, px, py)
                                == partial_pixel(orig, rows@, gx0, gy0, done, px, py));
                        }
                    }
                    if oldpix && bit {
                        assert(covers_partial(gx0, gy0, done + 1, sx as int, sy as int));
                        assert(partial_collides(orig, rows@, gx0, gy0, done + 1));
                    } else {
                        if partial_collides(orig, rows@, gx0, gy0, done + 1) {
                            let (px, py) = choose|px: int, py: int|
                                0 <= px < 64 && 0 <= py < 32 && #[trigger] covers_partial(
                                    gx0, gy0, done + 1, px, py) && orig[py * 64 + px]
                                    && sprite_bit_at(rows@, gx0, gy0, px, py);
                            if !covers_partial(gx0, gy0, done, px, py) {
                                assert(col_offset(gx0, px) == c as int);
                                assert(row_offset(gy0, py) == r as int);
                                assert(px == sx as int);
                                assert(py == sy as int);
                                assert(false);
                            }
                            assert(partial_collides(orig, rows@, gx0, gy0, done));
                        }
                        if partial_collides(orig, rows@, gx0, gy0, done) {
                            let (px, py) = choose|px: int, py: int|
                                0 <= px < 64 && 0 <= py < 32 && #[trigger] covers_partial(
                                    gx0, gy0, done, px, py) && orig[py * 64 + px]
                                    && sprite_bit_at(rows@, gx0, gy0, px, py);
                            assert(covers_partial(gx0, gy0, done + 1, px, py));
                            assert(partial_collides(orig, rows@, gx0, gy0, done + 1));
                        }
                    }
                }
                c += 1;
            }
            r += 1;
        }
        proof {
            assert forall|q: int| 0 <= q < 2048 implies self@[q] == drawn_pixel(
                orig, rows@, gx0, gy0, q % 64, q / 64) by {
                let px = q % 64;
                let py = q / 64;
                assert(0 <= px < 64);
                assert(0 <= py < 32 && q == py * 64 + px) by (nonlinear_arith)
                    requires
                        0 <= q < 2048,
                        px == q % 64,
                        py == q / 64,
                ;
                assert(self@[py * 64 + px] == partial_pixel(orig, rows@, gx0, gy0, 8 * n, px, py));
                assert(covers_partial(gx0, gy0, 8 * (n as int), px, py) == covers(
                    gx0, gy0, n as int, px, py));
            }
            assert(self@ =~= draw_seq(orig, rows@, gx0, gy0));
            if collision {
                let (px, py) = choose|px: int, py: int|
                    0 <= px < 64 && 0 <= py < 32 && #[trigger] covers_partial(
                        gx0, gy0, 8 * (n as int), px, py) && orig[py * 64 + px] && sprite_bit_at(
                        rows@, gx0, gy0, px, py);
                assert(covers(gx0, gy0, n as int, px, py));
                assert(draw_collides(orig, rows@, gx0, gy0));
            }
            if draw_collides(orig, rows@, gx0, gy0) {
                let (px, py) = choose|px: int, py: int|
                    0 <= px < 64 && 0 <= py < 32 && #[trigger] covers(gx0, gy0, n as int, px, py)
                        && orig[py * 64 + px] && sprite_bit_at(rows@, gx0, gy0, px, py);
                assert(covers_partial(gx0, gy0, 8 * (n as int), px, py));
                assert(partial_collides(orig, rows@, gx0, gy0, 8 * (n as int)));
            }
        }
        collision
    }
}

} // verus!
