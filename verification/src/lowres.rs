//! Renders with one character per pixel, coloured by a true-colour
//! background: the `ch` character (normally a space) drawn over the pixel's
//! colour.

use vstd::prelude::*;
use crate::text::{colour_escape, push_colour_escape};
use crate::video::{Bgr, Frame};

verus! {

/// The low-resolution renderer.
pub struct LowRes {
    pub ch: char,
}

/// One pixel: a background escape with the pixel's red, green and blue, then
/// the character.
pub open spec fn lowres_cell(p: Bgr, ch: char) -> Seq<char> {
    colour_escape('4', p.2 as nat, p.1 as nat, p.0 as nat).push(ch)
}

/// The first `n` pixels of row `row`.
pub open spec fn lowres_row(frame: Frame, ch: char, row: int, n: nat) -> Seq<char>
    decreases n,
{
    if n == 0 {
        seq![]
    } else {
        lowres_row(frame, ch, row, (n - 1) as nat) + lowres_cell(
            frame.cell(row, n - 1),
            ch,
        )
    }
}

/// The first `n` rows, separated by newlines (no newline after the last).
pub open spec fn lowres_text(frame: Frame, ch: char, n: nat) -> Seq<char>
    decreases n,
{
    if n == 0 {
        seq![]
    } else {
        (if n == 1 {
            seq![]
        } else {
            lowres_text(frame, ch, (n - 1) as nat).push('\n')
        }) + lowres_row(frame, ch, n - 1, frame.cols as nat)
    }
}

/// Law: a frame with at least one pixel ends with the character of its last
/// pixel, not with a newline (which would make the picture jump a line).
pub proof fn lemma_lowres_ends_with_last_pixel(frame: Frame, ch: char)
    requires
        frame.rows > 0,
        frame.cols > 0,
    ensures
        lowres_text(frame, ch, frame.rows as nat).len() > 0,
        lowres_text(frame, ch, frame.rows as nat).last() == ch,
{
    let n = frame.rows as nat;
    let row = lowres_row(frame, ch, n - 1, frame.cols as nat);
    let prefix = if n == 1 {
        Seq::<char>::empty()
    } else {
        lowres_text(frame, ch, (n - 1) as nat).push('\n')
    };
    assert(lowres_text(frame, ch, n) == prefix + row);
    assert(row.len() > 0 && row.last() == ch);
}

impl LowRes {
    /// The whole frame, one line per pixel row.
    pub fn draw(&self, frame: &Frame) -> (text: String)
        requires
            frame.wf(),
        ensures
            text@ == lowres_text(*frame, self.ch, frame.rows as nat),
    {
        let mut frame_str = String::new();
        let mut row: usize = 0;
        while row < frame.rows
            invariant
                frame.wf(),
                row <= frame.rows,
                frame_str@ == lowres_text(*frame, self.ch, row as nat),
            decreases frame.rows - row,
        {
            if row > 0 {
                frame_str.push('\n');
            }
            let ghost line_start = frame_str@;
            let mut col: usize = 0;
            while col < frame.cols
                invariant
                    frame.wf(),
                    row < frame.rows,
                    col <= frame.cols,
                    frame_str@ == line_start + lowres_row(*frame, self.ch, row as int, col as nat),
                decreases frame.cols - col,
            {
                let pixel = frame.at(row, col);
                push_colour_escape(&mut frame_str, '4', pixel.2 as usize, pixel.1 as usize, pixel.0 as usize);
                frame_str.push(self.ch);
                col = col + 1;
                assert(frame_str@ =~= line_start + lowres_row(*frame, self.ch, row as int, col as nat));
            }
            row = row + 1;
            assert(frame_str@ =~= lowres_text(*frame, self.ch, row as nat));
        }
        frame_str
    }
}

} // verus!
