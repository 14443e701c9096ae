//! Black-and-white braille rendering: every cell of pixels becomes one
//! braille character whose dots mark the pixels brighter than a threshold.

use vstd::prelude::*;
use crate::braille::{braille_char, cell_dots, cells_covering, count_cells, find_codepoint, read_cell_dots};
use crate::video::Luma;

verus! {

/// The black-and-white braille renderer.
pub struct Braillebw {
    pub threshold: u8,
}

/// The first `n` characters of band `band` (pixel rows `2 * band` and
/// `2 * band + 1`; each character covers four pixel columns).
pub open spec fn braillebw_band(luma: Luma, threshold: u8, band: int, n: nat) -> Seq<char>
    decreases n,
{
    if n == 0 {
        seq![]
    } else {
        braillebw_band(luma, threshold, band, (n - 1) as nat).push(
            braille_char(cell_dots(luma, 2 * band, 4 * (n - 1), threshold)),
        )
    }
}

/// The first `n` bands, each followed by a newline.
pub open spec fn braillebw_text(luma: Luma, threshold: u8, n: nat) -> Seq<char>
    decreases n,
{
    if n == 0 {
        seq![]
    } else {
        (braillebw_text(luma, threshold, (n - 1) as nat) + braillebw_band(
            luma,
            threshold,
            n - 1,
            cells_covering(luma.cols as int, 4) as nat,
        )).push('\n')
    }
}

impl Braillebw {
    /// The whole brightness map as braille text.
    pub fn draw(&self, luma: &Luma) -> (output: String)
        requires
            luma.wf(),
        ensures
            output@ == braillebw_text(*luma, self.threshold, cells_covering(luma.rows as int, 2) as nat),
    {
        let mut output = String::new();
        let bands = count_cells(luma.rows, 2);
        let cells = count_cells(luma.cols, 4);
        let mut band: usize = 0;
        while band < bands
            invariant
                luma.wf(),
                bands as int == cells_covering(luma.rows as int, 2),
                cells as int == cells_covering(luma.cols as int, 4),
                bands * 2 >= luma.rows,
                cells * 4 >= luma.cols,
                band <= bands,
                output@ == braillebw_text(*luma, self.threshold, band as nat),
            decreases bands - band,
        {
            let row_start = 2 * band;
            let ghost line_start = output@;
            let mut cell: usize = 0;
            while cell < cells
                invariant
                    luma.wf(),
                    band < bands,
                    row_start == 2 * band,
                    row_start < luma.rows,
                    cells as int == cells_covering(luma.cols as int, 4),
                    cell <= cells,
                    output@ == line_start + braillebw_band(*luma, self.threshold, band as int, cell as nat),
                decreases cells - cell,
            {
                let col_start = 4 * cell;
                let dots = read_cell_dots(luma, row_start, col_start, self.threshold);
                let ch: char = find_codepoint(dots);
                output.push(ch);
                cell = cell + 1;
            }
            output.push('\n');
            band = band + 1;
        }
        output
    }
}

} // verus!
