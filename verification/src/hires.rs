//! Renders two pixel rows per text row: the upper pixel as the foreground
//! colour and the lower as the background colour of the `ch` character
//! (normally an upper half block, `▀`).

use vstd::prelude::*;
use crate::text::{colour_escape, push_colour_escape};
use crate::video::{Bgr, Frame};

verus! {

/// The high-resolution renderer.
pub struct HighRes {
    pub ch: char,
}

/// One column of a band: the lower pixel's colour as background, the upper
/// pixel's as foreground, then the character.
pub open spec fn hires_cell(upper: Bgr, lower: Bgr, ch: char) -> Seq<char> {
    (colour_escape('4', lower.2 as nat, lower.1 as nat, lower.0 as nat) + colour_escape(
        '3',
        upper.2 as nat,
        upper.1 as nat,
        upper.0 as nat,
    )).push(ch)
}

/// The first `n` columns of band `band` (pixel rows `2 * band` and
/// `2 * band + 1`).
pub open spec fn hires_band(frame: Frame, ch: char, band: int, n: nat) -> Seq<char>
    decreases n,
{
    if n == 0 {
        seq![]
    } else {
        hires_band(frame, ch, band, (n - 1) as nat) + hires_cell(
            frame.cell(2 * band, n - 1),
            frame.cell(2 * band + 1, n - 1),
            ch,
        )
    }
}

/// The first `n` bands, separated by newlines (no newline after the last).
pub open spec fn hires_text(frame: Frame, ch: char, n: nat) -> Seq<char>
    decreases n,
{
    if n == 0 {
        seq![]
    } else {
        (if n == 1 {
            seq![]
        } else {
            hires_text(frame, ch, (n - 1) as nat).push('\n')
        }) + hires_band(frame, ch, n - 1, frame.cols as nat)
    }
}

/// Law: a frame with at least two pixel rows and one column ends with the
/// character of its last band, not with a newline (which would make the
/// picture jump a line).
pub proof fn lemma_hires_ends_with_last_band(frame: Frame, ch: char)
    requires
        frame.rows >= 2,
        frame.cols > 0,
    ensures
        hires_text(frame, ch, (frame.rows / 2) as nat).len() > 0,
        hires_text(frame, ch, (frame.rows / 2) as nat).last() == ch,
{
    let n = (frame.rows / 2) as nat;
    let band = hires_band(frame, ch, n - 1, frame.cols as nat);
    let prefix = if n == 1 {
        Seq::<char>::empty()
    } else {
        hires_text(frame, ch, (n - 1) as nat).push('\n')
    };
    assert(hires_text(frame, ch, n) == prefix + band);
    assert(band.len() > 0 && band.last() == ch);
}

impl HighRes {
    /// The whole frame: one text line per pair of pixel rows; a last unpaired
    /// pixel row is left out.
    pub fn draw(&self, frame: &Frame) -> (text: String)
        requires
            frame.wf(),
        ensures
            text@ == hires_text(*frame, self.ch, (frame.rows / 2) as nat),
    {
        let mut frame_str = String::new();
        let bands = frame.rows / 2;
        let mut band: usize = 0;
        while band < bands
            invariant
                frame.wf(),
                bands == frame.rows / 2,
                band <= bands,
                frame_str@ == hires_text(*frame, self.ch, band as nat),
            decreases bands - band,
        {
            if band > 0 {
                frame_str.push('\n');
            }
            let row0 = 2 * band;
            let row1 = row0 + 1;
            let ghost line_start = frame_str@;
            let mut col: usize = 0;
            while col < frame.cols
                invariant
                    frame.wf(),
                    band < bands,
                    bands == frame.rows / 2,
                    row0 == 2 * band,
                    row1 == row0 + 1,
                    col <= frame.cols,
                    frame_str@ == line_start + hires_band(*frame, self.ch, band as int, col as nat),
                decreases frame.cols - col,
            {
                let pixel0 = frame.at(row0, col);
                let pixel1 = frame.at(row1, col);
                push_colour_escape(&mut frame_str, '4', pixel1.2 as usize, pixel1.1 as usize, pixel1.0 as usize);
                push_colour_escape(&mut frame_str, '3', pixel0.2 as usize, pixel0.1 as usize, pixel0.0 as usize);
                frame_str.push(self.ch);
                col = col + 1;
                assert(frame_str@ =~= line_start + hires_band(*frame, self.ch, band as int, col as nat));
            }
            band = band + 1;
            assert(frame_str@ =~= hires_text(*frame, self.ch, band as nat));
        }
        frame_str
    }
}

} // verus!
