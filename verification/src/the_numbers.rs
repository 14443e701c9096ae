//! Renders every pixel as a digit that grades its brightness: `1` for the
//! brightest pixels down to `9`, and `0` for the darkest.

use vstd::prelude::*;
use crate::video::Luma;

verus! {

/// The digit renderer.
pub struct GodDamnItItsTheNumbers;

/// The digit that grades a brightness.
pub open spec fn brightness_digit(b: u8) -> char {
    if b >= 232 {
        '1'
    } else if b >= 216 {
        '2'
    } else if b >= 192 {
        '3'
    } else if b >= 144 {
        '4'
    } else if b >= 128 {
        '5'
    } else if b >= 80 {
        '6'
    } else if b >= 48 {
        '7'
    } else if b >= 32 {
        '8'
    } else if b >= 16 {
        '9'
    } else {
        '0'
    }
}

/// The digits of the first `n` pixels of row `row`.
pub open spec fn numbers_row(luma: Luma, row: int, n: nat) -> Seq<char>
    decreases n,
{
    if n == 0 {
        seq![]
    } else {
        numbers_row(luma, row, (n - 1) as nat).push(brightness_digit(luma.cell(row, n - 1)))
    }
}

/// The first `n` rows, each followed by a newline.
pub open spec fn numbers_text(luma: Luma, n: nat) -> Seq<char>
    decreases n,
{
    if n == 0 {
        seq![]
    } else {
        (numbers_text(luma, (n - 1) as nat) + numbers_row(luma, n - 1, luma.cols as nat)).push('\n')
    }
}

/// Law: the text that `draw` produces has one line per row of the map, each
/// `cols` digits long and ending in a newline, and the digit of a pixel grades
/// its brightness: 232 and above is `1`, 216 to 231 is `2`, 192 to 215 is `3`,
/// 144 to 191 is `4`, 128 to 143 is `5`, 80 to 127 is `6`, 48 to 79 is `7`,
/// 32 to 47 is `8`, 16 to 31 is `9`, and below 16 is `0`.
pub proof fn lemma_numbers_grades(luma: Luma, r: int, c: int)
    requires
        0 <= r < luma.rows,
        0 <= c < luma.cols,
    ensures
        numbers_text(luma, luma.rows as nat).len() == luma.rows * (luma.cols + 1),
        numbers_text(luma, luma.rows as nat)[r * (luma.cols + 1) + luma.cols] == '\n',
        ({
            let ch = numbers_text(luma, luma.rows as nat)[r * (luma.cols + 1) + c];
            let b = luma.cell(r, c);
            &&& 232 <= b ==> ch == '1'
            &&& 216 <= b < 232 ==> ch == '2'
            &&& 192 <= b < 216 ==> ch == '3'
            &&& 144 <= b < 192 ==> ch == '4'
            &&& 128 <= b < 144 ==> ch == '5'
            &&& 80 <= b < 128 ==> ch == '6'
            &&& 48 <= b < 80 ==> ch == '7'
            &&& 32 <= b < 48 ==> ch == '8'
            &&& 16 <= b < 32 ==> ch == '9'
            &&& b < 16 ==> ch == '0'
        }),
{
    lemma_numbers_text_layout(luma, luma.rows as nat, r, c);
}

/// The first `n` digits of a row are those of its first `n` pixels.
proof fn lemma_numbers_row_layout(luma: Luma, row: int, n: nat, c: int)
    requires
        0 <= c < n,
    ensures
        numbers_row(luma, row, n).len() == n,
        numbers_row(luma, row, n)[c] == brightness_digit(luma.cell(row, c)),
    decreases n,
{
    if c < n - 1 {
        lemma_numbers_row_layout(luma, row, (n - 1) as nat, c);
    } else {
        lemma_numbers_row_length(luma, row, (n - 1) as nat);
    }
}

proof fn lemma_numbers_row_length(luma: Luma, row: int, n: nat)
    ensures
        numbers_row(luma, row, n).len() == n,
    decreases n,
{
    if n > 0 {
        lemma_numbers_row_length(luma, row, (n - 1) as nat);
    }
}

/// The first `n` lines are `cols + 1` characters each: the row's digits and
/// a newline.
proof fn lemma_numbers_text_layout(luma: Luma, n: nat, r: int, c: int)
    requires
        0 <= r < n,
        0 <= c < luma.cols,
    ensures
        numbers_text(luma, n).len() == n * (luma.cols + 1),
        numbers_text(luma, n)[r * (luma.cols + 1) + luma.cols] == '\n',
        numbers_text(luma, n)[r * (luma.cols + 1) + c] == brightness_digit(luma.cell(r, c)),
    decreases n,
{
    let w = luma.cols + 1;
    let prev = numbers_text(luma, (n - 1) as nat);
    let line = numbers_row(luma, n - 1, luma.cols as nat);
    lemma_numbers_row_length(luma, n - 1, luma.cols as nat);
    if n == 1 {
        assert(prev.len() == 0);
    } else {
        lemma_numbers_text_layout(luma, (n - 1) as nat, 0, c);
    }
    assert(prev.len() == (n - 1) * w) by (nonlinear_arith)
        requires
            n >= 1,
            n == 1 ==> prev.len() == 0,
            n > 1 ==> prev.len() == (n - 1) * (luma.cols + 1),
            w == luma.cols + 1,
    ;
    assert(n * w == (n - 1) * w + w) by (nonlinear_arith);
    if r < n - 1 {
        lemma_numbers_text_layout(luma, (n - 1) as nat, r, c);
        assert(r * w + luma.cols < (n - 1) * w) by (nonlinear_arith)
            requires
                r < n - 1,
                w == luma.cols + 1,
                0 <= r,
        ;
    } else {
        lemma_numbers_row_layout(luma, n - 1, luma.cols as nat, c);
        assert(r * w == (n - 1) * w);
    }
}

/// The digit that grades a brightness.
fn grade(b: u8) -> (c: char)
    ensures
        c == brightness_digit(b),
{
    if b >= 232 {
        '1'
    } else if b >= 216 {
        '2'
    } else if b >= 192 {
        '3'
    } else if b >= 144 {
        '4'
    } else if b >= 128 {
        '5'
    } else if b >= 80 {
        '6'
    } else if b >= 48 {
        '7'
    } else if b >= 32 {
        '8'
    } else if b >= 16 {
        '9'
    } else {
        '0'
    }
}

impl GodDamnItItsTheNumbers {
    /// The whole brightness map, one digit per pixel and one line per row.
    pub fn draw(&self, luma: &Luma) -> (o: String)
        requires
            luma.wf(),
        ensures
            o@ == numbers_text(*luma, luma.rows as nat),
    {
        let mut o = String::new();
        let mut x: usize = 0;
        while x < luma.rows
            invariant
                luma.wf(),
                x <= luma.rows,
                o@ == numbers_text(*luma, x as nat),
            decreases luma.rows - x,
        {
            let ghost line_start = o@;
            let mut y: usize = 0;
            while y < luma.cols
                invariant
                    luma.wf(),
                    x < luma.rows,
                    y <= luma.cols,
                    o@ == line_start + numbers_row(*luma, x as int, y as nat),
                decreases luma.cols - y,
            {
                let num: char = grade(luma.at(x, y));
                o.push(num);
                y = y + 1;
            }
            o.push('\n');
            x = x + 1;
        }
        o
    }
}

} // verus!
