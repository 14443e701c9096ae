//! Colour braille rendering: every cell becomes a braille character whose
//! raised dots mark the bright pixels; the character is drawn in the mean
//! colour of the bright pixels over the mean colour of the dark ones.

use vstd::prelude::*;
use crate::braille::{braille_char, cell_dots, cells_covering, count_cells, dot, find_codepoint, read_cell_dots, pixel_on};
use crate::text::{colour_escape, push_colour_escape};
use crate::video::{Bgr, Frame, Luma};

verus! {

/// The colour braille renderer.
pub struct BrailleRGB {
    pub threshold: u8,
}

/// Pixel number `k` (0..8) of the cell whose top-left pixel is `(y, x)`,
/// in reading order: column `x + k / 2`, row `y + k % 2`; outside the frame
/// it is black.
pub open spec fn position_pixel(frame: Frame, y: int, x: int, k: int) -> Bgr {
    if 0 <= y + k % 2 < frame.rows && 0 <= x + k / 2 < frame.cols {
        frame.cell(y + k % 2, x + k / 2)
    } else {
        (0, 0, 0)
    }
}

/// Whether pixel number `k` of the cell is bright.
pub open spec fn position_on(luma: Luma, y: int, x: int, k: int, threshold: u8) -> bool {
    dot(luma, y + k % 2, x + k / 2, threshold)
}

/// Channel `c` (0, 1 or 2) of a pixel.
pub open spec fn channel(p: Bgr, c: int) -> int {
    if c == 0 {
        p.0 as int
    } else if c == 1 {
        p.1 as int
    } else {
        p.2 as int
    }
}

/// Sum of channel `c` over the first `n` pixels of the cell whose brightness
/// test gives `lit`.
pub open spec fn layer_sum(
    frame: Frame,
    luma: Luma,
    y: int,
    x: int,
    threshold: u8,
    lit: bool,
    c: int,
    n: nat,
) -> int
    decreases n,
{
    if n == 0 {
        0
    } else {
        layer_sum(frame, luma, y, x, threshold, lit, c, (n - 1) as nat) + if position_on(
            luma,
            y,
            x,
            n - 1,
            threshold,
        ) == lit {
            channel(position_pixel(frame, y, x, n - 1), c)
        } else {
            0
        }
    }
}

/// Number of the first `n` pixels of the cell whose brightness test gives
/// `lit`.
pub open spec fn layer_count(luma: Luma, y: int, x: int, threshold: u8, lit: bool, n: nat) -> int
    decreases n,
{
    if n == 0 {
        0
    } else {
        layer_count(luma, y, x, threshold, lit, (n - 1) as nat) + if position_on(
            luma,
            y,
            x,
            n - 1,
            threshold,
        ) == lit {
            1int
        } else {
            0
        }
    }
}

/// Channel `c` of the colour drawn for the pixels whose brightness test
/// gives `lit`: their channel sum divided by one more than their number.
pub open spec fn layer_mean(frame: Frame, luma: Luma, y: int, x: int, threshold: u8, lit: bool, c: int) -> nat {
    (layer_sum(frame, luma, y, x, threshold, lit, c, 8) / (1 + layer_count(
        luma,
        y,
        x,
        threshold,
        lit,
        8,
    ))) as nat
}

/// The text of the cell whose top-left pixel is `(y, x)`.
pub open spec fn braillergb_cell(frame: Frame, luma: Luma, y: int, x: int, threshold: u8) -> Seq<char> {
    (colour_escape(
        '4',
        layer_mean(frame, luma, y, x, threshold, false, 0),
        layer_mean(frame, luma, y, x, threshold, false, 1),
        layer_mean(frame, luma, y, x, threshold, false, 2),
    ) + colour_escape(
        '3',
        layer_mean(frame, luma, y, x, threshold, true, 0),
        layer_mean(frame, luma, y, x, threshold, true, 1),
        layer_mean(frame, luma, y, x, threshold, true, 2),
    )).push(braille_char(cell_dots(luma, y, x, threshold)))
}

/// The first `n` cells of band `band`.
pub open spec fn braillergb_band(frame: Frame, luma: Luma, threshold: u8, band: int, n: nat) -> Seq<char>
    decreases n,
{
    if n == 0 {
        seq![]
    } else {
        braillergb_band(frame, luma, threshold, band, (n - 1) as nat) + braillergb_cell(
            frame,
            luma,
            2 * band,
            4 * (n - 1),
            threshold,
        )
    }
}

/// The first `n` bands, each followed by a newline.
pub open spec fn braillergb_text(frame: Frame, luma: Luma, threshold: u8, n: nat) -> Seq<char>
    decreases n,
{
    if n == 0 {
        seq![]
    } else {
        (braillergb_text(frame, luma, threshold, (n - 1) as nat) + braillergb_band(
            frame,
            luma,
            threshold,
            n - 1,
            cells_covering(luma.cols as int, 4) as nat,
        )).push('\n')
    }
}

/// Adds the channels of `b` to the sums in `a`.
fn add_colours(a: &mut [u32; 3], b: Bgr)
    requires
        old(a)@[0] + b.0 <= u32::MAX,
        old(a)@[1] + b.1 <= u32::MAX,
        old(a)@[2] + b.2 <= u32::MAX,
    ensures
        final(a)@[0] == old(a)@[0] + b.0,
        final(a)@[1] == old(a)@[1] + b.1,
        final(a)@[2] == old(a)@[2] + b.2,
{
    let s0 = a[0] + b.0 as u32;
    let s1 = a[1] + b.1 as u32;
    let s2 = a[2] + b.2 as u32;
    a[0] = s0;
    a[1] = s1;
    a[2] = s2;
}

impl BrailleRGB {
    /// The text of the cell whose top-left pixel is `(y, x)`, appended to
    /// `output`.
    fn draw_cell(&self, frame: &Frame, luma: &Luma, y: usize, x: usize, output: &mut String)
        requires
            frame.wf(),
            luma.wf(),
            frame.rows == luma.rows,
            frame.cols == luma.cols,
            y < luma.rows,
            x < luma.cols,
        ensures
            final(output)@ == old(output)@ + braillergb_cell(*frame, *luma, y as int, x as int, self.threshold),
    {
        let ghost fr = *frame;
        let ghost lu = *luma;
        let ghost th = self.threshold;
        let mut colour_fg: [u32; 3] = [0, 0, 0];
        let mut colours_fg: u32 = 1u32;
        let mut colour_bg: [u32; 3] = [0, 0, 0];
        let mut colours_bg: u32 = 1u32;
        let mut k: usize = 0;
        while k < 8
            invariant
                frame.wf(),
                luma.wf(),
                frame.rows == luma.rows,
                frame.cols == luma.cols,
                y < luma.rows,
                x < luma.cols,
                fr == *frame,
                lu == *luma,
                th == self.threshold,
                k <= 8,
                forall|c: int|
                    0 <= c < 3 ==> #[trigger] colour_fg@[c] == layer_sum(fr, lu, y as int, x as int, th, true, c, k as nat),
                forall|c: int|
                    0 <= c < 3 ==> #[trigger] colour_bg@[c] == layer_sum(fr, lu, y as int, x as int, th, false, c, k as nat),
                forall|c: int| 0 <= c < 3 ==> #[trigger] colour_fg@[c] <= 255 * k,
                forall|c: int| 0 <= c < 3 ==> #[trigger] colour_bg@[c] <= 255 * k,
                colours_fg == 1 + layer_count(lu, y as int, x as int, th, true, k as nat),
                colours_bg == 1 + layer_count(lu, y as int, x as int, th, false, k as nat),
                1 <= colours_fg <= 1 + k,
                1 <= colours_bg <= 1 + k,
            decreases 8 - k,
        {
            let dy = k % 2;
            let dx = k / 2;
            let inside = dy < luma.rows - y && dx < luma.cols - x;
            let pixel: Bgr = if inside { frame.at(y + dy, x + dx) } else { (0, 0, 0) };
            let on: bool = if inside { pixel_on(luma.at(y + dy, x + dx), self.threshold) } else { false };
            assert(pixel == position_pixel(fr, y as int, x as int, k as int));
            assert(on == position_on(lu, y as int, x as int, k as int, th));
            if on {
                add_colours(&mut colour_fg, pixel);
                colours_fg = colours_fg + 1;
            } else {
                add_colours(&mut colour_bg, pixel);
                colours_bg = colours_bg + 1;
            }
            k = k + 1;
            assert forall|c: int| 0 <= c < 3 implies #[trigger] colour_fg@[c] == layer_sum(fr, lu, y as int, x as int, th, true, c, k as nat) by {}
            assert forall|c: int| 0 <= c < 3 implies #[trigger] colour_bg@[c] == layer_sum(fr, lu, y as int, x as int, th, false, c, k as nat) by {}
        }
        let dots = read_cell_dots(luma, y, x, self.threshold);
        let ch: char = find_codepoint(dots);
        let ghost before = output@;
        push_colour_escape(
            output,
            '4',
            (colour_bg[0] / colours_bg) as usize,
            (colour_bg[1] / colours_bg) as usize,
            (colour_bg[2] / colours_bg) as usize,
        );
        push_colour_escape(
            output,
            '3',
            (colour_fg[0] / colours_fg) as usize,
            (colour_fg[1] / colours_fg) as usize,
            (colour_fg[2] / colours_fg) as usize,
        );
        output.push(ch);
        assert(output@ =~= before + braillergb_cell(fr, lu, y as int, x as int, th));
    }

    /// The whole frame as colour braille text; `luma` holds the brightness of
    /// every pixel of `frame`.
    pub fn draw(&self, frame: &Frame, luma: &Luma) -> (output: String)
        requires
            frame.wf(),
            luma.wf(),
            frame.rows == luma.rows,
            frame.cols == luma.cols,
        ensures
            output@ == braillergb_text(*frame, *luma, self.threshold, cells_covering(luma.rows as int, 2) as nat),
    {
        let mut output = String::new();
        let bands = count_cells(luma.rows, 2);
        let cells = count_cells(luma.cols, 4);
        let mut band: usize = 0;
        while band < bands
            invariant
                frame.wf(),
                luma.wf(),
                frame.rows == luma.rows,
                frame.cols == luma.cols,
                bands as int == cells_covering(luma.rows as int, 2),
                cells as int == cells_covering(luma.cols as int, 4),
                bands * 2 >= luma.rows,
                cells * 4 >= luma.cols,
                band <= bands,
                output@ == braillergb_text(*frame, *luma, self.threshold, band as nat),
            decreases bands - band,
        {
            let row_start = 2 * band;
            let ghost line_start = output@;
            let mut cell: usize = 0;
            while cell < cells
                invariant
                    frame.wf(),
                    luma.wf(),
                    frame.rows == luma.rows,
                    frame.cols == luma.cols,
                    band < bands,
                    row_start == 2 * band,
                    row_start < luma.rows,
                    cells as int == cells_covering(luma.cols as int, 4),
                    cells * 4 >= luma.cols,
                    cell <= cells,
                    output@ == line_start + braillergb_band(*frame, *luma, self.threshold, band as int, cell as nat),
                decreases cells - cell,
            {
                let col_start = 4 * cell;
                self.draw_cell(frame, luma, row_start, col_start, &mut output);
                cell = cell + 1;
            }
            output.push('\n');
            band = band + 1;
        }
        output
    }
}

} // verus!
