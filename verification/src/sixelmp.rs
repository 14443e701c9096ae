//! Multi-pass colour SIXEL rendering: one full SIXEL image per palette
//! colour, each lighting exactly the pixels whose nearest palette colour is
//! that one.

use vstd::prelude::*;
use crate::braille::{cells_covering, count_cells};
use crate::sixel::{
    BEGIN_SIXEL_BW, END_SIXEL, calculate_sixel_cols, closest_colour_index_rgb, closest_index,
    determine_start_string, perceptual_weights, sixel_char, start_definitions, write_usize_noalloc,
};
use crate::text::decimal;
use crate::video::{Frame, Rgb, get_px};

verus! {

/// The multi-pass SIXEL renderer.
pub struct SixelMultipass {
    pub colours: Vec<Rgb>,
    start_string: String,
}

/// Whether the pixel at `(y, x)` belongs to palette colour `idx`: it lies in
/// the frame and its channels, taken in stored order, are perceptually
/// nearest to that colour.
pub open spec fn pass_dot(frame: Frame, colours: Seq<Rgb>, idx: int, y: int, x: int) -> bool {
    y < frame.rows && closest_index(colours, frame.cell(y, x), perceptual_weights())->0 == idx
}

/// The six pixels of column `x` from row `y` down, for the pass of colour
/// `idx`.
pub open spec fn pass_column(frame: Frame, colours: Seq<Rgb>, idx: int, y: int, x: int) -> Seq<bool> {
    Seq::new(6, |i: int| pass_dot(frame, colours, idx, y + i, x))
}

/// The first `n` columns of band `band` in the pass of colour `idx`.
pub open spec fn pass_band(frame: Frame, colours: Seq<Rgb>, idx: int, band: int, n: nat) -> Seq<char>
    decreases n,
{
    if n == 0 {
        seq![]
    } else {
        pass_band(frame, colours, idx, band, (n - 1) as nat).push(
            sixel_char(pass_column(frame, colours, idx, 6 * band, n - 1)),
        )
    }
}

/// The first `n` bands of the pass of colour `idx`, each followed by `-`.
pub open spec fn pass_bands(frame: Frame, colours: Seq<Rgb>, idx: int, n: nat) -> Seq<char>
    decreases n,
{
    if n == 0 {
        seq![]
    } else {
        (pass_bands(frame, colours, idx, (n - 1) as nat) + pass_band(
            frame,
            colours,
            idx,
            n - 1,
            frame.cols as nat,
        )).push('-')
    }
}

/// The pass of colour `idx`: select its register, then a whole SIXEL image.
pub open spec fn pass_text(frame: Frame, colours: Seq<Rgb>, start: Seq<char>, idx: int) -> Seq<char> {
    seq!['#'] + decimal(idx as nat) + BEGIN_SIXEL_BW@ + start + pass_bands(
        frame,
        colours,
        idx,
        cells_covering(frame.rows as int, 6) as nat,
    ) + END_SIXEL@
}

/// The passes of the first `n` palette colours, one after the other.
pub open spec fn passes(frame: Frame, colours: Seq<Rgb>, start: Seq<char>, n: nat) -> Seq<char>
    decreases n,
{
    if n == 0 {
        seq![]
    } else {
        passes(frame, colours, start, (n - 1) as nat) + pass_text(frame, colours, start, n - 1)
    }
}

impl SixelMultipass {
    /// The register definitions computed when the renderer was made.
    pub closed spec fn start_text(&self) -> Seq<char> {
        self.start_string@
    }

    /// The palette.
    pub closed spec fn palette(&self) -> Seq<Rgb> {
        self.colours@
    }

    /// A renderer for the given palette; register `i` is defined as
    /// `colours[i]`.
    pub fn new(colours: Vec<Rgb>) -> (renderer: Self)
        ensures
            renderer.palette() == colours@,
            renderer.start_text() == start_definitions(colours@, 0, colours@.len()),
    {
        let renderer: SixelMultipass = Self {
            start_string: determine_start_string(&colours),
            colours: colours,
        };
        renderer
    }

    /// Appends the black-and-white preamble and the register definitions.
    fn start_sixel(&self, output: &mut String)
        ensures
            final(output)@ == old(output)@ + BEGIN_SIXEL_BW@ + self.start_text(),
    {
        output.append(BEGIN_SIXEL_BW);
        output.append(self.start_string.as_str());
    }

    /// Appends the end of SIXEL mode.
    fn stop_sixel(&self, output: &mut String)
        ensures
            final(output)@ == old(output)@ + END_SIXEL@,
    {
        output.append(END_SIXEL);
    }

    /// The six pixels of column `x` from row `y` down, for the pass of colour
    /// `idx`.
    fn read_column(&self, frame: &Frame, idx: usize, y: usize, x: usize) -> (pixels: [bool; 6])
        requires
            frame.wf(),
            y < frame.rows,
            x < frame.cols,
            idx < self.colours@.len(),
        ensures
            pixels@ == pass_column(*frame, self.colours@, idx as int, y as int, x as int),
    {
        let mut pixels: [bool; 6] = [false; 6];
        let mut dy: usize = 0;
        while dy < 6
            invariant
                frame.wf(),
                y < frame.rows,
                x < frame.cols,
                idx < self.colours@.len(),
                dy <= 6,
                pixels@.len() == 6,
                forall|j: int|
                    0 <= j < dy ==> pixels@[j] == pass_column(*frame, self.colours@, idx as int, y as int, x as int)[j],
                forall|j: int| dy <= j < 6 ==> !pixels@[j],
            decreases 6 - dy,
        {
            if dy < frame.rows - y {
                let pixel = get_px(frame, x, y + dy);
                let on: bool = closest_colour_index_rgb((pixel.2, pixel.1, pixel.0), self.colours.as_slice()).unwrap() == idx;
                pixels[dy] = on;
            }
            dy = dy + 1;
        }
        assert(pixels@ =~= pass_column(*frame, self.colours@, idx as int, y as int, x as int));
        pixels
    }

    /// All passes, palette colour by palette colour.
    pub fn draw(&self, frame: &Frame) -> (output: String)
        requires
            frame.wf(),
        ensures
            output@ == passes(*frame, self.palette(), self.start_text(), self.palette().len()),
    {
        let mut output = String::new();
        let bands = count_cells(frame.rows, 6);
        let mut idx: usize = 0;
        while idx < self.colours.len()
            invariant
                frame.wf(),
                bands as int == cells_covering(frame.rows as int, 6),
                bands * 6 >= frame.rows,
                idx <= self.colours@.len(),
                output@ == passes(*frame, self.colours@, self.start_string@, idx as nat),
            decreases self.colours@.len() - idx,
        {
            let ghost pass_start = output@;
            output.push('#');
            write_usize_noalloc(idx, &mut output);
            self.start_sixel(&mut output);
            let ghost bands_start = output@;
            let mut band: usize = 0;
            while band < bands
                invariant
                    frame.wf(),
                    bands as int == cells_covering(frame.rows as int, 6),
                    bands * 6 >= frame.rows,
                    band <= bands,
                    idx < self.colours@.len(),
                    output@ == bands_start + pass_bands(*frame, self.colours@, idx as int, band as nat),
                decreases bands - band,
            {
                let y_start = 6 * band;
                let ghost line_start = output@;
                let mut x: usize = 0;
                while x < frame.cols
                    invariant
                        frame.wf(),
                        band < bands,
                        y_start == 6 * band,
                        y_start < frame.rows,
                        x <= frame.cols,
                        idx < self.colours@.len(),
                        output@ == line_start + pass_band(*frame, self.colours@, idx as int, band as int, x as nat),
                    decreases frame.cols - x,
                {
                    let pixels = self.read_column(frame, idx, y_start, x);
                    output.push(calculate_sixel_cols(pixels));
                    x = x + 1;
                }
                output.push('-');
                band = band + 1;
                assert(output@ =~= bands_start + pass_bands(*frame, self.colours@, idx as int, band as nat));
            }
            self.stop_sixel(&mut output);
            idx = idx + 1;
            assert(output@ =~= passes(*frame, self.colours@, self.start_string@, idx as nat));
        }
        output
    }
}

} // verus!
