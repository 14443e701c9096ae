//! The frame model that every renderer reads: a grid of pixels in the
//! blue-green-red channel order of the capture library, and a grid of the
//! same shape for per-pixel brightness; plus the palette lookup table.

use vstd::prelude::*;
use crate::sixel::{closest_colour_index_rgb, closest_index, perceptual_weights};

verus! {

/// A pixel as the capture library stores it: `(blue, green, red)`.
pub type Bgr = (u8, u8, u8);

/// A colour as palettes list it: `(red, green, blue)`.
pub type Rgb = (u8, u8, u8);

/// A rectangular grid stored row by row: the cell at `(row, col)` is
/// `cells[row * cols + col]`.
pub struct Grid<T> {
    pub rows: usize,
    pub cols: usize,
    pub cells: Vec<T>,
}

/// A video frame: one BGR pixel per cell.
pub type Frame = Grid<Bgr>;

/// A brightness map: one brightness (0..=255) per cell.
pub type Luma = Grid<u8>;

/// Lemma: `(row, col)` inside a `rows` by `cols` grid lands inside its cell
/// vector.
pub proof fn lemma_cell_index(rows: int, cols: int, row: int, col: int)
    requires
        0 <= row < rows,
        0 <= col < cols,
    ensures
        0 <= row * cols + col < rows * cols,
{
    assert(0 <= row * cols + col < rows * cols) by (nonlinear_arith)
        requires
            0 <= row < rows,
            0 <= col < cols,
    ;
}

impl<T> Grid<T> {
    /// The cell vector holds exactly `rows * cols` cells.
    pub open spec fn wf(&self) -> bool {
        self.cells@.len() == self.rows * self.cols
    }

    /// The cell at `(row, col)`.
    pub open spec fn cell(&self, row: int, col: int) -> T {
        self.cells@[row * self.cols + col]
    }

    /// A grid of `rows` by `cols` cells given row by row; `None` when the
    /// number of cells does not match.
    pub fn from_cells(rows: usize, cols: usize, cells: Vec<T>) -> (res: Option<Self>)
        ensures
            res is Some <==> cells@.len() == rows * cols,
            res matches Some(g) ==> g.rows == rows && g.cols == cols && g.cells@ == cells@ && g.wf(),
    {
        let len = cells.len();
        match rows.checked_mul(cols) {
            Some(n) => {
                if n == len {
                    Some(Grid { rows, cols, cells })
                } else {
                    None
                }
            },
            None => None,
        }
    }
}

impl<T: Copy> Grid<T> {
    /// The cell at `(row, col)`.
    pub fn at(&self, row: usize, col: usize) -> (v: T)
        requires
            self.wf(),
            row < self.rows,
            col < self.cols,
        ensures
            v == self.cell(row as int, col as int),
    {
        proof {
            // the cell vector's length, and so the index below, fits in usize
            assert(self.cells.len() == self.cells@.len());
            lemma_cell_index(self.rows as int, self.cols as int, row as int, col as int);
        }
        self.cells[row * self.cols + col]
    }
}

/// The pixel at column `x` of row `y`, with its channels in the order
/// `(red, green, blue)`.
pub fn get_px(frame: &Frame, x: usize, y: usize) -> (px: Rgb)
    requires
        frame.wf(),
        x < frame.cols,
        y < frame.rows,
    ensures
        px == (frame.cell(y as int, x as int).2, frame.cell(y as int, x as int).1, frame.cell(
            y as int,
            x as int,
        ).0),
{
    let p = frame.at(y, x);
    (p.2, p.1, p.0)
}

/// An index into a palette.
pub type PaletteIndex = u8;

/// Number of entries of a palette lookup table: one per 24-bit colour.
pub const LUT_RGB_SIZE: usize = 256 * 256 * 256;

/// The colour that entry `i` of a lookup table stands for:
/// `(i / 65536, i / 256 % 256, i % 256)`.
pub open spec fn lut_colour(i: int) -> Rgb {
    ((i / 65536 % 256) as u8, (i / 256 % 256) as u8, (i % 256) as u8)
}

/// The index of the entry that a lookup of the three channels `c` reads:
/// `c[2]` is the most significant byte and `c[0]` the least.
pub open spec fn lut_index(c: Seq<u8>) -> int {
    c[2] * 65536 + c[1] * 256 + c[0]
}

/// The entry that a palette search puts at index `i`: the (low byte of
/// the) index of the perceptually nearest palette colour.
pub open spec fn nearest_entry(palette: Seq<Rgb>, i: int) -> PaletteIndex {
    (closest_index(palette, lut_colour(i), perceptual_weights())->0) as u8
}

/// A table from every 24-bit colour to a palette index.
pub struct RgbPaletteLUT {
    lut: Vec<u8>,
}

impl RgbPaletteLUT {
    /// The table has one entry per 24-bit colour.
    #[verifier::type_invariant]
    spec fn full(&self) -> bool {
        self.lut@.len() == LUT_RGB_SIZE
    }

    /// The entries of the table.
    pub closed spec fn table(&self) -> Seq<u8> {
        self.lut@
    }

    /// The table of the given entries; `None` unless there is exactly one
    /// entry per 24-bit colour.
    pub fn from_table(table: Vec<u8>) -> (res: Option<Self>)
        ensures
            res is Some <==> table@.len() == LUT_RGB_SIZE,
            res matches Some(t) ==> t.table() == table@,
    {
        if table.len() == LUT_RGB_SIZE {
            Some(RgbPaletteLUT { lut: table })
        } else {
            None
        }
    }

    /// The table that maps every colour to its perceptually nearest palette
    /// colour (the first of several equally near ones).
    pub fn generate(palette: &Vec<Rgb>) -> (lut: Self)
        requires
            palette@.len() > 0,
        ensures
            lut.table().len() == LUT_RGB_SIZE,
            forall|i: int| 0 <= i < LUT_RGB_SIZE ==> #[trigger] lut.table()[i] == nearest_entry(palette@, i),
    {
        let mut lut: Vec<u8> = Vec::new();
        let mut i: usize = 0;
        while i < LUT_RGB_SIZE
            invariant
                palette@.len() > 0,
                i <= LUT_RGB_SIZE,
                lut@.len() == i,
                forall|j: int| 0 <= j < i ==> #[trigger] lut@[j] == nearest_entry(palette@, j),
            decreases LUT_RGB_SIZE - i,
        {
            let r = (i / 65536) as u8;
            let g = (i / 256 % 256) as u8;
            let b = (i % 256) as u8;
            assert((r, g, b) == lut_colour(i as int));
            let out = closest_colour_index_rgb((r, g, b), palette.as_slice()).expect(
                "failed to generate LUT",
            ) as u8;
            lut.push(out);
            i = i + 1;
        }
        RgbPaletteLUT { lut }
    }

    /// The palette index stored for the colour whose channels are `colour[0..3]`,
    /// read as `colour[2]` most significant and `colour[0]` least.
    pub fn get_bgr(&self, colour: &[u8]) -> (idx: PaletteIndex)
        requires
            colour@.len() >= 3,
        ensures
            0 <= lut_index(colour@) < LUT_RGB_SIZE,
            idx == self.table()[lut_index(colour@)],
    {
        proof {
            use_type_invariant(self);
        }
        let idx = (colour[2] as usize) * 65536 + (colour[1] as usize) * 256 + (colour[0] as usize);
        self.lut[idx]
    }
}

/// A lookup in a generated table gives the perceptually nearest palette
/// colour to the colour that the lookup's channels spell, most significant
/// first.
pub proof fn lemma_generated_lookup(palette: Seq<Rgb>, c: Seq<u8>)
    requires
        c.len() >= 3,
    ensures
        0 <= lut_index(c) < LUT_RGB_SIZE,
        nearest_entry(palette, lut_index(c)) == (closest_index(
            palette,
            (c[2], c[1], c[0]),
            perceptual_weights(),
        )->0) as u8,
{
    let i = lut_index(c);
    assert(i / 65536 % 256 == c[2] && i / 256 % 256 == c[1] && i % 256 == c[0]) by (nonlinear_arith)
        requires
            i == c[2] * 65536 + c[1] * 256 + c[0],
            0 <= c[0] < 256,
            0 <= c[1] < 256,
            0 <= c[2] < 256,
    ;
    assert(lut_colour(i) == (c[2], c[1], c[0]));
}

} // verus!
