//! Sprite drawing on the memory-mapped framebuffer.
//!
//! The framebuffer is 32 rows of 8 bytes starting at `FRAMEBUFFER_START`; bit 7
//! of a byte is its leftmost pixel. A sprite row is one byte, drawn by XOR at a
//! pixel column that need not be byte-aligned, so it may cover two bytes.
use vstd::prelude::*;

verus! {

/// First address of the framebuffer region.
pub const FRAMEBUFFER_START: usize = 0xF00;

/// Address of byte `col` (0..8) of pixel row `row` (0..32).
pub open spec fn fb_addr(row: int, col: int) -> int {
    FRAMEBUFFER_START + row * 8 + col
}

/// `mem` with the byte at `a` XORed with `bits`.
pub open spec fn xor_at(mem: Seq<u8>, a: int, bits: u8) -> Seq<u8> {
    mem.update(a, mem[a] ^ bits)
}

/// Whether XORing `bits` into the byte at `a` turns a set pixel off.
pub open spec fn clears_at(mem: Seq<u8>, a: int, bits: u8) -> bool {
    mem[a] & bits != 0
}

/// The pixels of a sprite row that land in its first byte, for a shift of `sh`.
pub open spec fn head_bits(sprite: u8, sh: u8) -> u8 {
    sprite >> sh
}

/// The pixels of a sprite row that spill into the next byte, for a shift of `sh` (1..8).
pub open spec fn tail_bits(sprite: u8, sh: u8) -> u8 {
    sprite << ((8 - sh) as u8)
}

/// Whether a row drawn at pixel column `x` spills into a second byte that is
/// still on screen (there is no horizontal wrap-around).
pub open spec fn spills(x: int) -> bool {
    x % 8 != 0 && x / 8 + 1 < 8
}

/// Draws one sprite row at pixel column `x` (0..64) of pixel row `out_y` (0..32):
/// the new memory and whether a set pixel was turned off. A zero row writes nothing.
pub open spec fn draw_row(mem: Seq<u8>, sprite: u8, x: int, out_y: int) -> (Seq<u8>, bool) {
    if sprite == 0 {
        (mem, false)
    } else {
        let a = fb_addr(out_y, x / 8);
        let sh = (x % 8) as u8;
        let m1 = if spills(x) { xor_at(mem, a + 1, tail_bits(sprite, sh)) } else { mem };
        let c1 = spills(x) && clears_at(mem, a + 1, tail_bits(sprite, sh));
        (xor_at(m1, a, head_bits(sprite, sh)), c1 || clears_at(m1, a, head_bits(sprite, sh)))
    }
}

/// Draws sprite rows `row..=n`, read from `mem[i + row]`, at `(x, y + row)`,
/// stopping at the bottom edge of the screen; `hit` accumulates collisions.
pub open spec fn draw_rows(mem: Seq<u8>, i: int, x: int, y: int, n: int, row: int, hit: bool) -> (
    Seq<u8>,
    bool,
)
    decreases n + 1 - row,
{
    if row > n || y + row >= 32 || row < 0 {
        (mem, hit)
    } else {
        let (m, c) = draw_row(mem, mem[i + row], x, y + row);
        draw_rows(m, i, x, y, n, row + 1, hit || c)
    }
}

/// The index of the last sprite row drawn for a sprite of `n + 1` rows at pixel row `y`.
pub open spec fn last_row(y: int, n: int) -> int {
    if y + n < 32 { n } else { 31 - y }
}

} // verus!
