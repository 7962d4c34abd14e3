//! The pixel-level drawing model.
//!
//! A sprite is `n` consecutive memory bytes, each one row of eight pixels,
//! the most significant bit leftmost.  Drawing XOR-toggles the framebuffer
//! pixels the set sprite bits land on; coordinates wrap around both screen
//! edges.  Because eight consecutive columns are distinct modulo 64 and at
//! most fifteen consecutive rows are distinct modulo 32, every sprite bit
//! lands on its own pixel, so the whole draw can be stated pointwise.

use vstd::prelude::*;
use vstd::arithmetic::div_mod::{
    lemma_fundamental_div_mod, lemma_fundamental_div_mod_converse, lemma_mod_multiples_vanish,
    lemma_small_mod,
};
use crate::model::NUM_PIXELS;

verus! {

/// True when column `c` (0 is leftmost) of sprite row byte `b` is set.
pub open spec fn sprite_row_bit(b: u8, c: int) -> bool
    recommends
        0 <= c < 8,
{
    b & (0x80u8 >> (c as u8)) != 0
}

/// True when drawing the `n`-row sprite at memory address `ip` with origin
/// `(x0 mod 64, y0 mod 32)` toggles the pixel at `(px, py)`.
///
/// The sprite column that lands on `px` is `(px - x0) mod 64` and the sprite
/// row that lands on `py` is `(py - y0) mod 32`; the pixel is toggled exactly
/// when that column and row exist and the corresponding sprite bit is set.
pub open spec fn sprite_hits(mem: Seq<u8>, ip: int, x0: int, y0: int, n: int, px: int, py: int) -> bool
    recommends
        0 <= px < 64,
        0 <= py < 32,
{
    let c = (px - x0) % 64;
    let r = (py - y0) % 32;
    c < 8 && r < n && sprite_row_bit(mem[ip + r], c)
}

/// Like [`sprite_hits`], restricted to the sprite cells before row `rows`,
/// plus the cells of row `rows` before column `cols`.  This is the part of
/// the sprite a row-major draw has processed so far.
pub open spec fn sprite_hits_upto(
    mem: Seq<u8>, ip: int, x0: int, y0: int, n: int, rows: int, cols: int, px: int, py: int,
) -> bool
    recommends
        0 <= px < 64,
        0 <= py < 32,
{
    let c = (px - x0) % 64;
    let r = (py - y0) % 32;
    c < 8 && r < n && (r < rows || (r == rows && c < cols)) && sprite_row_bit(mem[ip + r], c)
}

/// The framebuffer after drawing the sprite: each hit pixel is toggled,
/// every other pixel keeps its value.
pub open spec fn draw_screen(screen: Seq<bool>, mem: Seq<u8>, ip: int, x0: int, y0: int, n: int) -> Seq<bool>
    recommends
        screen.len() == NUM_PIXELS,
{
    Seq::new(
        NUM_PIXELS as nat,
        |p: int| if sprite_hits(mem, ip, x0, y0, n, p % 64, p / 64) {
            !screen[p]
        } else {
            screen[p]
        },
    )
}

/// True when the draw toggles at least one pixel that was on, i.e. turns a
/// pixel from on to off.  This is the collision the flag register reports.
pub open spec fn draw_collision(screen: Seq<bool>, mem: Seq<u8>, ip: int, x0: int, y0: int, n: int) -> bool
    recommends
        screen.len() == NUM_PIXELS,
{
    exists|px: int, py: int|
        0 <= px < 64 && 0 <= py < 32 && #[trigger] sprite_hits(mem, ip, x0, y0, n, px, py)
            && screen[py * 64 + px]
}

/// Like [`draw_collision`], over the part of the sprite processed so far.
pub open spec fn draw_collision_upto(
    screen: Seq<bool>, mem: Seq<u8>, ip: int, x0: int, y0: int, n: int, rows: int, cols: int,
) -> bool
    recommends
        screen.len() == NUM_PIXELS,
{
    exists|px: int, py: int|
        0 <= px < 64 && 0 <= py < 32
            && #[trigger] sprite_hits_upto(mem, ip, x0, y0, n, rows, cols, px, py)
            && screen[py * 64 + px]
}

/// Two draw prefixes that toggle the same pixels report the same collision.
pub proof fn lemma_collision_congruence(
    screen: Seq<bool>, mem: Seq<u8>, ip: int, x0: int, y0: int, n: int,
    r1: int, c1: int, r2: int, c2: int,
)
    requires
        forall|px: int, py: int|
            0 <= px < 64 && 0 <= py < 32 ==> #[trigger] sprite_hits_upto(
                mem, ip, x0, y0, n, r1, c1, px, py,
            ) == sprite_hits_upto(mem, ip, x0, y0, n, r2, c2, px, py),
    ensures
        draw_collision_upto(screen, mem, ip, x0, y0, n, r1, c1) == draw_collision_upto(
            screen, mem, ip, x0, y0, n, r2, c2,
        ),
{
    if draw_collision_upto(screen, mem, ip, x0, y0, n, r1, c1) {
        let (px, py) = choose|px: int, py: int|
            0 <= px < 64 && 0 <= py < 32 && #[trigger] sprite_hits_upto(
                mem, ip, x0, y0, n, r1, c1, px, py,
            ) && screen[py * 64 + px];
        assert(sprite_hits_upto(mem, ip, x0, y0, n, r2, c2, px, py));
    }
    if draw_collision_upto(screen, mem, ip, x0, y0, n, r2, c2) {
        let (px, py) = choose|px: int, py: int|
            0 <= px < 64 && 0 <= py < 32 && #[trigger] sprite_hits_upto(
                mem, ip, x0, y0, n, r2, c2, px, py,
            ) && screen[py * 64 + px];
        assert(sprite_hits_upto(mem, ip, x0, y0, n, r1, c1, px, py));
    }
}

/// Row-major linearization splits back into the coordinates it came from.
pub proof fn lemma_pixel_index(px: int, py: int)
    requires
        0 <= px < 64,
        0 <= py < 32,
    ensures
        (py * 64 + px) % 64 == px,
        (py * 64 + px) / 64 == py,
        0 <= py * 64 + px < NUM_PIXELS,
{
    lemma_fundamental_div_mod_converse(py * 64 + px, 64, py, px);
}

/// The sprite cell `(r, c)` lands on the pixel `((x0 + c) mod 64, (y0 + r) mod 32)`,
/// and that pixel's recovered cell is `(r, c)` again: the landing position
/// determines the sprite cell, so distinct cells land on distinct pixels.
pub proof fn lemma_sprite_target(x0: int, y0: int, r: int, c: int)
    requires
        0 <= x0,
        0 <= y0,
        0 <= c < 64,
        0 <= r < 32,
    ensures
        0 <= (x0 + c) % 64 < 64,
        0 <= (y0 + r) % 32 < 32,
        ((x0 + c) % 64 - x0) % 64 == c,
        ((y0 + r) % 32 - y0) % 32 == r,
{
    let px = (x0 + c) % 64;
    let py = (y0 + r) % 32;
    lemma_fundamental_div_mod(x0 + c, 64);
    let q64 = (x0 + c) / 64;
    assert(px - x0 == 64 * (-q64) + c) by {
        assert(x0 + c == 64 * q64 + px);
    }
    lemma_mod_multiples_vanish(-q64, c, 64);
    lemma_small_mod(c as nat, 64);
    lemma_fundamental_div_mod(y0 + r, 32);
    let q32 = (y0 + r) / 32;
    assert(py - y0 == 32 * (-q32) + r) by {
        assert(y0 + r == 32 * q32 + py);
    }
    lemma_mod_multiples_vanish(-q32, r, 32);
    lemma_small_mod(r as nat, 32);
}

/// A pixel whose recovered cell is `(r, c)` is exactly the pixel cell
/// `(r, c)` lands on.
pub proof fn lemma_sprite_source(x0: int, y0: int, px: int, py: int)
    requires
        0 <= x0,
        0 <= y0,
        0 <= px < 64,
        0 <= py < 32,
    ensures
        (x0 + (px - x0) % 64) % 64 == px,
        (y0 + (py - y0) % 32) % 32 == py,
{
    lemma_fundamental_div_mod(px - x0, 64);
    let q64 = (px - x0) / 64;
    assert(x0 + (px - x0) % 64 == 64 * (-q64) + px) by {
        assert(px - x0 == 64 * q64 + (px - x0) % 64);
    }
    lemma_mod_multiples_vanish(-q64, px, 64);
    lemma_small_mod(px as nat, 64);
    lemma_fundamental_div_mod(py - y0, 32);
    let q32 = (py - y0) / 32;
    assert(y0 + (py - y0) % 32 == 32 * (-q32) + py) by {
        assert(py - y0 == 32 * q32 + (py - y0) % 32);
    }
    lemma_mod_multiples_vanish(-q32, py, 32);
    lemma_small_mod(py as nat, 32);
}

} // verus!
