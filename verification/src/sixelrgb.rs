//! Colour SIXEL rendering: the frame's adjusted mean brightness decides which
//! pixels of a column are lit, and the column is drawn in the palette colour
//! nearest to the mean colour of its lit pixels.

use vstd::prelude::*;
use crate::braille::{cells_covering, count_cells};
use crate::braillergb::channel;
use crate::sixel::{
    BEGIN_SIXEL_BW, END_SIXEL, calculate_sixel_cols, closest_colour_index_rgb, closest_index,
    column_dots, determine_start_string, perceptual_weights, read_sixel_column, sixel_char,
    start_definitions, write_usize_noalloc,
};
use crate::sixelbw2::{averageable, frame_threshold, threshold_of};
use crate::text::decimal;
use crate::video::{Frame, Luma, Rgb};

verus! {

/// The colour SIXEL renderer.
pub struct SixelColour {
    pub colours: Vec<Rgb>,
    pub adjust: i8,
    start_string: String,
}

/// Sum of channel `c` over the lit pixels among the first `n` of the column
/// at `x` that starts at row `y`.
pub open spec fn lit_sum(frame: Frame, luma: Luma, threshold: u8, y: int, x: int, c: int, n: nat) -> int
    decreases n,
{
    if n == 0 {
        0
    } else {
        lit_sum(frame, luma, threshold, y, x, c, (n - 1) as nat) + if y + n - 1 < luma.rows && luma.cell(
            y + n - 1,
            x,
        ) > threshold {
            channel(frame.cell(y + n - 1, x), c)
        } else {
            0
        }
    }
}

/// The colour that a column is matched against: each channel sum of its lit
/// pixels divided by six.
pub open spec fn column_colour(frame: Frame, luma: Luma, threshold: u8, y: int, x: int) -> Rgb {
    (
        (lit_sum(frame, luma, threshold, y, x, 0, 6) / 6) as u8,
        (lit_sum(frame, luma, threshold, y, x, 1, 6) / 6) as u8,
        (lit_sum(frame, luma, threshold, y, x, 2, 6) / 6) as u8,
    )
}

/// One column: select the register of the nearest palette colour, then the
/// sixel character.
pub open spec fn colour_column(frame: Frame, luma: Luma, colours: Seq<Rgb>, threshold: u8, y: int, x: int) -> Seq<char> {
    seq!['#'] + decimal(
        closest_index(colours, column_colour(frame, luma, threshold, y, x), perceptual_weights())->0 as nat,
    ) + seq![sixel_char(column_dots(luma, y, x, threshold))]
}

/// The first `n` columns of band `band`.
pub open spec fn colour_band(frame: Frame, luma: Luma, colours: Seq<Rgb>, threshold: u8, band: int, n: nat) -> Seq<char>
    decreases n,
{
    if n == 0 {
        seq![]
    } else {
        colour_band(frame, luma, colours, threshold, band, (n - 1) as nat) + colour_column(
            frame,
            luma,
            colours,
            threshold,
            6 * band,
            n - 1,
        )
    }
}

/// The first `n` bands, each followed by `-`.
pub open spec fn colour_bands(frame: Frame, luma: Luma, colours: Seq<Rgb>, threshold: u8, n: nat) -> Seq<char>
    decreases n,
{
    if n == 0 {
        seq![]
    } else {
        (colour_bands(frame, luma, colours, threshold, (n - 1) as nat) + colour_band(
            frame,
            luma,
            colours,
            threshold,
            n - 1,
            luma.cols as nat,
        )).push('-')
    }
}

impl SixelColour {
    /// The register definitions computed when the renderer was made.
    pub closed spec fn start_text(&self) -> Seq<char> {
        self.start_string@
    }

    /// The palette.
    pub closed spec fn palette(&self) -> Seq<Rgb> {
        self.colours@
    }

    /// The amount added to the mean brightness.
    pub closed spec fn adjustment(&self) -> i8 {
        self.adjust
    }

    /// A renderer for the given palette; register `i` is defined as
    /// `colours[i]`.
    pub fn new(colours: Vec<Rgb>, adjust: i8) -> (renderer: Self)
        ensures
            renderer.palette() == colours@,
            renderer.adjustment() == adjust,
            renderer.start_text() == start_definitions(colours@, 0, colours@.len()),
    {
        let renderer: SixelColour = Self {
            start_string: determine_start_string(&colours),
            adjust: adjust,
            colours: colours,
        };
        renderer
    }

    /// Appends the text of the column at `x` of the band starting at row `y`.
    fn draw_column(&self, frame: &Frame, luma: &Luma, threshold: u8, y: usize, x: usize, output: &mut String)
        requires
            frame.wf(),
            luma.wf(),
            frame.rows == luma.rows,
            frame.cols == luma.cols,
            y < luma.rows,
            x < luma.cols,
            self.colours@.len() > 0,
        ensures
            final(output)@ == old(output)@ + colour_column(*frame, *luma, self.colours@, threshold, y as int, x as int),
    {
        let ghost fr = *frame;
        let ghost lu = *luma;
        let mut avg_colour: (i32, i32, i32) = (0, 0, 0);
        let mut i: usize = 0;
        while i < 6
            invariant
                frame.wf(),
                luma.wf(),
                frame.rows == luma.rows,
                frame.cols == luma.cols,
                y < luma.rows,
                x < luma.cols,
                fr == *frame,
                lu == *luma,
                i <= 6,
                avg_colour.0 == lit_sum(fr, lu, threshold, y as int, x as int, 0, i as nat),
                avg_colour.1 == lit_sum(fr, lu, threshold, y as int, x as int, 1, i as nat),
                avg_colour.2 == lit_sum(fr, lu, threshold, y as int, x as int, 2, i as nat),
                0 <= avg_colour.0 <= 255 * i,
                0 <= avg_colour.1 <= 255 * i,
                0 <= avg_colour.2 <= 255 * i,
            decreases 6 - i,
        {
            if i < luma.rows - y {
                let pixel_val = frame.at(y + i, x);
                let on: bool = luma.at(y + i, x) > threshold;
                if on {
                    avg_colour.2 = avg_colour.2 + pixel_val.2 as i32;
                    avg_colour.1 = avg_colour.1 + pixel_val.1 as i32;
                    avg_colour.0 = avg_colour.0 + pixel_val.0 as i32;
                }
            }
            i = i + 1;
        }
        avg_colour.2 = avg_colour.2 / 6;
        avg_colour.1 = avg_colour.1 / 6;
        avg_colour.0 = avg_colour.0 / 6;
        let index = closest_colour_index_rgb(
            (avg_colour.0 as u8, avg_colour.1 as u8, avg_colour.2 as u8),
            self.colours.as_slice(),
        ).unwrap();
        let pixels = read_sixel_column(luma, y, x, threshold);
        let ghost before = output@;
        output.push('#');
        write_usize_noalloc(index, output);
        output.push(calculate_sixel_cols(pixels));
        assert(output@ =~= before + colour_column(fr, lu, self.colours@, threshold, y as int, x as int));
    }

    /// The whole frame as a colour SIXEL image: `luma` holds the brightness
    /// of every pixel of `frame`.
    pub fn draw(&self, frame: &Frame, luma: &Luma) -> (output: String)
        requires
            frame.wf(),
            averageable(*luma),
            frame.rows == luma.rows,
            frame.cols == luma.cols,
            self.palette().len() > 0,
        ensures
            output@ == BEGIN_SIXEL_BW@ + self.start_text() + colour_bands(
                *frame,
                *luma,
                self.palette(),
                frame_threshold(*luma, self.adjustment()),
                cells_covering(luma.rows as int, 6) as nat,
            ) + END_SIXEL@,
    {
        let mut output = String::new();
        output.append(BEGIN_SIXEL_BW);
        output.append(self.start_string.as_str());
        let avg_brightness: u8 = threshold_of(luma, self.adjust);
        let ghost prefix = BEGIN_SIXEL_BW@ + self.start_text();
        let bands = count_cells(luma.rows, 6);
        let mut band: usize = 0;
        while band < bands
            invariant
                frame.wf(),
                luma.wf(),
                frame.rows == luma.rows,
                frame.cols == luma.cols,
                self.colours@.len() > 0,
                bands as int == cells_covering(luma.rows as int, 6),
                bands * 6 >= luma.rows,
                band <= bands,
                avg_brightness == frame_threshold(*luma, self.adjust),
                output@ == prefix + colour_bands(*frame, *luma, self.colours@, avg_brightness, band as nat),
            decreases bands - band,
        {
            let y_start = 6 * band;
            let ghost line_start = output@;
            let mut x: usize = 0;
            while x < luma.cols
                invariant
                    frame.wf(),
                    luma.wf(),
                    frame.rows == luma.rows,
                    frame.cols == luma.cols,
                    self.colours@.len() > 0,
                    band < bands,
                    y_start == 6 * band,
                    y_start < luma.rows,
                    x <= luma.cols,
                    output@ == line_start + colour_band(*frame, *luma, self.colours@, avg_brightness, band as int, x as nat),
                decreases luma.cols - x,
            {
                self.draw_column(frame, luma, avg_brightness, y_start, x, &mut output);
                x = x + 1;
            }
            output.push('-');
            band = band + 1;
        }
        output.append(END_SIXEL);
        output
    }
}

} // verus!
