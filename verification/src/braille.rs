//! Braille rendering core: the braille character of a cell of eight dots and
//! the brightness test that decides whether a dot is raised.

use vstd::prelude::*;
use crate::text::{bits_value, pow2_nat, lemma_pow2_le, lemma_bits_value_bit, lemma_bits_value_bound, lemma_bits_value_injective};
use crate::video::Luma;

verus! {

/// The braille character whose dots are `pixels` (dot `i` raised when
/// `pixels[i]` holds).
pub open spec fn braille_char(pixels: Seq<bool>) -> char {
    (0x2800 + bits_value(pixels)) as char
}

/// Finds the braille character for a cell of eight dots.
pub fn find_codepoint(pixels: [bool; 8]) -> (c: char)
    ensures
        c == braille_char(pixels@),
        c as int == 0x2800 + bits_value(pixels@),
        0x2800 <= c as int <= 0x28FF,
{
    let mut bits: u8 = 0u8;
    let mut idx: usize = 8;
    assert(pixels@.subrange(8, 8).len() == 0);
    while idx > 0
        invariant
            idx <= 8,
            bits as nat == bits_value(pixels@.subrange(idx as int, 8)),
            bits < pow2_nat((8 - idx) as nat),
        decreases idx,
    {
        idx = idx - 1;
        assert(pixels@.subrange(idx as int, 8).drop_first() =~= pixels@.subrange(idx + 1, 8));
        proof {
            lemma_pow2_le((7 - idx) as nat, 7);
            reveal_with_fuel(pow2_nat, 8);
        }
        let on: u8 = if pixels[idx] { 1 } else { 0 };
        bits = bits * 2 + on;
    }
    assert(pixels@.subrange(0, 8) =~= pixels@);
    assert(pow2_nat(8) == 256) by {
        reveal_with_fuel(pow2_nat, 9);
    }
    core::char::from_u32(0x2800 + bits as u32).expect("braille cells are valid code points")
}

/// Law: the braille character of a cell gives its dots back: bit `i` of the
/// character's offset from U+2800 is dot `i`.
pub proof fn lemma_braille_char_decodes(pixels: Seq<bool>, i: nat)
    requires
        pixels.len() == 8,
        i < 8,
    ensures
        ((braille_char(pixels) as int - 0x2800) / pow2_nat(i) as int) % 2 == (if pixels[i as int] { 1int } else { 0int }),
{
    lemma_bits_value_bound(pixels);
    assert(pow2_nat(8) == 256) by {
        reveal_with_fuel(pow2_nat, 9);
    }
    lemma_bits_value_bit(pixels, i);
}

/// Law: different cells of eight dots get different braille characters.
pub proof fn lemma_braille_char_injective(a: Seq<bool>, b: Seq<bool>)
    requires
        a.len() == 8,
        b.len() == 8,
        braille_char(a) == braille_char(b),
    ensures
        a == b,
{
    lemma_bits_value_bound(a);
    lemma_bits_value_bound(b);
    assert(pow2_nat(8) == 256) by {
        reveal_with_fuel(pow2_nat, 9);
    }
    assert(braille_char(a) as int == bits_value(a) + 0x2800);
    assert(braille_char(b) as int == bits_value(b) + 0x2800);
    lemma_bits_value_injective(a, b);
}

/// A dot is raised when its brightness exceeds the threshold.
pub fn pixel_on(brightness: u8, threshold: u8) -> (on: bool)
    ensures
        on == (brightness > threshold),
{
    brightness > threshold
}

/// Whether the dot over pixel `(y, x)` is raised: the pixel lies inside the
/// map and is brighter than the threshold (pixels outside count as black).
pub open spec fn dot(luma: Luma, y: int, x: int, threshold: u8) -> bool {
    0 <= y < luma.rows && 0 <= x < luma.cols && luma.cell(y, x) > threshold
}

/// The eight dots of the cell whose top-left pixel is `(y, x)`: the four
/// pixels of row `y`, then the last two pixels of row `y + 1`; the two
/// remaining dots stay lowered.
pub open spec fn cell_dots(luma: Luma, y: int, x: int, threshold: u8) -> Seq<bool> {
    seq![
        dot(luma, y, x, threshold),
        dot(luma, y, x + 1, threshold),
        dot(luma, y, x + 2, threshold),
        dot(luma, y, x + 3, threshold),
        dot(luma, y + 1, x + 2, threshold),
        dot(luma, y + 1, x + 3, threshold),
        false,
        false,
    ]
}

/// Number of cells that cover `n` pixels, `per` pixels to a cell.
pub open spec fn cells_covering(n: int, per: int) -> int {
    (n + per - 1) / per
}

/// `ceil(n / per)` without overflow.
pub fn count_cells(n: usize, per: usize) -> (c: usize)
    requires
        per > 0,
    ensures
        c as int == cells_covering(n as int, per as int),
        c * per >= n,
{
    assert(n % per != 0 ==> n / per < n) by (nonlinear_arith)
        requires
            per > 0,
    ;
    let c = n / per + if n % per != 0 { 1 } else { 0 };
    assert(c * per >= n) by (nonlinear_arith)
        requires
            per > 0,
            c == n / per + if n % per != 0 { 1int } else { 0int },
    ;
    assert(c as int == cells_covering(n as int, per as int)) by (nonlinear_arith)
        requires
            per > 0,
            c == n / per + if n % per != 0 { 1int } else { 0int },
    ;
    c
}

/// The dot over pixel `(y + dy, x + dx)` (see [`dot`]).
pub fn dot_at(luma: &Luma, y: usize, dy: usize, x: usize, dx: usize, threshold: u8) -> (on: bool)
    requires
        luma.wf(),
        y < luma.rows,
        x < luma.cols,
    ensures
        on == dot(*luma, y + dy, x + dx, threshold),
{
    if dy < luma.rows - y && dx < luma.cols - x {
        pixel_on(luma.at(y + dy, x + dx), threshold)
    } else {
        false
    }
}

/// The dots of the cell whose top-left pixel is `(y, x)` (see [`cell_dots`]).
pub fn read_cell_dots(luma: &Luma, y: usize, x: usize, threshold: u8) -> (dots: [bool; 8])
    requires
        luma.wf(),
        y < luma.rows,
        x < luma.cols,
    ensures
        dots@ == cell_dots(*luma, y as int, x as int, threshold),
{
    let dots = [
        dot_at(luma, y, 0, x, 0, threshold),
        dot_at(luma, y, 0, x, 1, threshold),
        dot_at(luma, y, 0, x, 2, threshold),
        dot_at(luma, y, 0, x, 3, threshold),
        dot_at(luma, y, 1, x, 2, threshold),
        dot_at(luma, y, 1, x, 3, threshold),
        false,
        false,
    ];
    assert(dots@ =~= cell_dots(*luma, y as int, x as int, threshold));
    dots
}

} // verus!
