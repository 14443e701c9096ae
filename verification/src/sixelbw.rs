//! Black-and-white SIXEL rendering with a fixed brightness threshold: every
//! band of six pixel rows becomes one line of sixel characters.

use vstd::prelude::*;
use crate::braille::{cells_covering, count_cells};
use crate::sixel::{
    BEGIN_SIXEL_BW, END_SIXEL, calculate_sixel_cols, colour_switch_text, column_dots,
    draw_sixel_colour, push_sixel_band, read_sixel_column, sixel_band, sixel_char,
};
use crate::video::Luma;

verus! {

/// The fixed-threshold black-and-white SIXEL renderer.
pub struct SixelMono {
    pub threshold: u8,
}

/// The first `n` bands, each followed by `-` (SIXEL's next-band command).
pub open spec fn sixel_bands(luma: Luma, threshold: u8, n: nat) -> Seq<char>
    decreases n,
{
    if n == 0 {
        seq![]
    } else {
        (sixel_bands(luma, threshold, (n - 1) as nat) + sixel_band(
            luma,
            threshold,
            n - 1,
            luma.cols as nat,
        )).push('-')
    }
}

impl SixelMono {
    /// The whole brightness map as a black-and-white SIXEL image.
    pub fn draw(&self, luma: &Luma) -> (output: String)
        requires
            luma.wf(),
        ensures
            output@ == BEGIN_SIXEL_BW@ + sixel_bands(*luma, self.threshold, cells_covering(
                luma.rows as int,
                6,
            ) as nat) + END_SIXEL@,
    {
        let mut output = String::new();
        output.append(BEGIN_SIXEL_BW);
        let bands = count_cells(luma.rows, 6);
        let mut band: usize = 0;
        while band < bands
            invariant
                luma.wf(),
                bands as int == cells_covering(luma.rows as int, 6),
                bands * 6 >= luma.rows,
                band <= bands,
                output@ == BEGIN_SIXEL_BW@ + sixel_bands(*luma, self.threshold, band as nat),
            decreases bands - band,
        {
            push_sixel_band(luma, 6 * band, self.threshold, &mut output);
            output.push('-');
            band = band + 1;
        }
        output.append(END_SIXEL);
        output
    }
}

/// One column as the stand-alone renderer prints it: register 1 defined as
/// white and selected, then the sixel character.
pub open spec fn standalone_column(luma: Luma, threshold: u8, y: int, x: int) -> Seq<char> {
    colour_switch_text((255u8, 255u8, 255u8), 1) + seq![sixel_char(column_dots(luma, y, x, threshold))]
}

/// The first `n` columns of band `band` as the stand-alone renderer prints
/// them.
pub open spec fn standalone_band(luma: Luma, threshold: u8, band: int, n: nat) -> Seq<char>
    decreases n,
{
    if n == 0 {
        seq![]
    } else {
        standalone_band(luma, threshold, band, (n - 1) as nat) + standalone_column(
            luma,
            threshold,
            6 * band,
            n - 1,
        )
    }
}

/// The first `n` bands as the stand-alone renderer prints them, each
/// followed by `-`.
pub open spec fn standalone_bands(luma: Luma, threshold: u8, n: nat) -> Seq<char>
    decreases n,
{
    if n == 0 {
        seq![]
    } else {
        (standalone_bands(luma, threshold, (n - 1) as nat) + standalone_band(
            luma,
            threshold,
            n - 1,
            luma.cols as nat,
        )).push('-')
    }
}

/// Everything the stand-alone renderer prints: cursor home, SIXEL mode, the
/// bands, the end of SIXEL mode.
pub open spec fn standalone_text(luma: Luma, threshold: u8) -> Seq<char> {
    seq!['\x1b', '[', 'H', '\x1B', 'P', 'q'] + standalone_bands(
        luma,
        threshold,
        cells_covering(luma.rows as int, 6) as nat,
    ) + seq!['\x1b', '\\']
}

/// The text that the stand-alone black-and-white renderer prints for an
/// already resized frame: each column redefines register 1 as white before
/// its sixel character.
pub fn render_output(luma: &Luma, threshold: u8) -> (output: String)
    requires
        luma.wf(),
    ensures
        output@ == standalone_text(*luma, threshold),
{
    let mut output = String::new();
    output.push('\x1b');
    output.push('[');
    output.push('H');
    output.push('\x1B');
    output.push('P');
    output.push('q');
    let bands = count_cells(luma.rows, 6);
    let mut band: usize = 0;
    while band < bands
        invariant
            luma.wf(),
            bands as int == cells_covering(luma.rows as int, 6),
            bands * 6 >= luma.rows,
            band <= bands,
            output@ == seq!['\x1b', '[', 'H', '\x1B', 'P', 'q'] + standalone_bands(*luma, threshold, band as nat),
        decreases bands - band,
    {
        let y_start = 6 * band;
        let ghost line_start = output@;
        let mut x: usize = 0;
        while x < luma.cols
            invariant
                luma.wf(),
                band < bands,
                y_start == 6 * band,
                y_start < luma.rows,
                x <= luma.cols,
                output@ == line_start + standalone_band(*luma, threshold, band as int, x as nat),
            decreases luma.cols - x,
        {
            let pixels = read_sixel_column(luma, y_start, x, threshold);
            let colour = draw_sixel_colour((255, 255, 255), 1);
            output.append(colour.as_str());
            output.push(calculate_sixel_cols(pixels));
            x = x + 1;
            assert(output@ =~= line_start + standalone_band(*luma, threshold, band as int, x as nat));
        }
        output.push('-');
        band = band + 1;
        assert(output@ =~= seq!['\x1b', '[', 'H', '\x1B', 'P', 'q'] + standalone_bands(*luma, threshold, band as nat));
    }
    output.push('\x1b');
    output.push('\\');
    assert(output@ =~= standalone_text(*luma, threshold));
    output
}

} // verus!
