//! Text rendering of the framebuffer: two characters wide per pixel in a
//! terminal, one line per pixel row.
use vstd::prelude::*;

verus! {

/// Relies on `String::push`: it appends the one character given.
pub assume_specification[ String::push ](s: &mut String, ch: char)
    ensures
        final(s)@ == old(s)@.push(ch),
;

/// A lit pixel (white large square).
pub const PIXEL_ON: char = '\u{2B1C}';

/// An unlit pixel (black large square).
pub const PIXEL_OFF: char = '\u{2B1B}';

/// Whether pixel `k` (0..8, from the left) of byte `b` is lit.
pub open spec fn pixel_on(b: u8, k: int) -> bool {
    b & (0x80u8 >> (k as u8)) != 0
}

/// The character for a pixel.
pub open spec fn pixel_char(on: bool) -> char {
    if on {
        PIXEL_ON
    } else {
        PIXEL_OFF
    }
}

/// The text of pixel row `row` of framebuffer `fb`: 64 pixel characters,
/// then a line feed and a carriage return.
pub open spec fn row_text(fb: Seq<u8>, row: int) -> Seq<char> {
    Seq::new(64, |c: int| pixel_char(pixel_on(fb[row * 8 + c / 8], c % 8))) + seq!['\n', '\r']
}

/// The text of the first `n` pixel rows of `fb`.
pub open spec fn rows_text(fb: Seq<u8>, n: int) -> Seq<char>
    decreases n,
{
    if n <= 0 {
        Seq::empty()
    } else {
        rows_text(fb, n - 1) + row_text(fb, n - 1)
    }
}

/// The text of a whole 32-row framebuffer.
pub open spec fn screen_text(fb: Seq<u8>) -> Seq<char> {
    rows_text(fb, 32)
}

} // verus!
