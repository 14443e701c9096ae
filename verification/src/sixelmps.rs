//! High-quality multi-pass colour SIXEL rendering: every pixel is mapped to a
//! palette index through a lookup table, then one SIXEL image per palette
//! colour lights the pixels mapped to it.

use vstd::prelude::*;
use crate::braille::{cells_covering, count_cells};
use crate::sixel::{
    BEGIN_SIXEL_COLOUR, END_SIXEL, calculate_sixel_cols, determine_start_string_with_offset,
    is_first_closest, lemma_first_closest, perceptual_weights, sixel_char, start_definitions,
    write_u8_to_str_noalloc,
};
use crate::text::decimal;
use crate::video::{
    Frame, LUT_RGB_SIZE, PaletteIndex, Rgb, RgbPaletteLUT, get_px, lemma_generated_lookup, lut_index,
    nearest_entry,
};

verus! {

/// The high-quality multi-pass SIXEL renderer.
pub struct SixelMultipassHQ {
    pub colours: Vec<Rgb>,
    palette_lut: RgbPaletteLUT,
    start_string: String,
}

/// Whether the entry for column `x`, row `y` of the index grid `v` (indexed
/// column first) exists and is `colour`.
pub open spec fn grid_dot(v: Seq<Seq<u8>>, colour: u8, x: int, y: int) -> bool {
    0 <= x < v.len() && 0 <= y < v[x].len() && v[x][y] == colour
}

/// The six entries of column `x` from row `y` down.
pub open spec fn grid_column(v: Seq<Seq<u8>>, colour: u8, x: int, y: int) -> Seq<bool> {
    Seq::new(6, |i: int| grid_dot(v, colour, x, y + i))
}

/// The first `n` columns of band `band`.
pub open spec fn grid_band(v: Seq<Seq<u8>>, colour: u8, band: int, n: nat) -> Seq<char>
    decreases n,
{
    if n == 0 {
        seq![]
    } else {
        grid_band(v, colour, band, (n - 1) as nat).push(sixel_char(grid_column(v, colour, n - 1, 6 * band)))
    }
}

/// The first `n` bands, each `wid` columns wide and followed by `-`.
pub open spec fn grid_bands(v: Seq<Seq<u8>>, colour: u8, wid: nat, n: nat) -> Seq<char>
    decreases n,
{
    if n == 0 {
        seq![]
    } else {
        (grid_bands(v, colour, wid, (n - 1) as nat) + grid_band(v, colour, n - 1, wid)).push('-')
    }
}

/// The preamble of every pass: cursor home, colour SIXEL mode, the register
/// definitions.
pub open spec fn hq_preamble(start: Seq<char>) -> Seq<char> {
    seq!['\x1B', '[', 'H'] + BEGIN_SIXEL_COLOUR@ + start
}

/// The pass of palette index `colour` over a `wid` by `hei` index grid.
pub open spec fn hq_pass(start: Seq<char>, v: Seq<Seq<u8>>, wid: nat, hei: nat, colour: u8) -> Seq<char> {
    hq_preamble(start) + seq!['#'] + decimal(colour as nat) + grid_bands(
        v,
        colour,
        wid,
        cells_covering(hei as int, 6) as nat,
    ) + END_SIXEL@
}

/// The palette index that the lookup table gives the pixel at `(y, x)`: its
/// stored channels, the first most significant.
pub open spec fn hq_entry(frame: Frame, table: Seq<u8>, x: int, y: int) -> u8 {
    let p = frame.cell(y, x);
    table[lut_index(seq![p.2, p.1, p.0])]
}

/// The index grid of a frame, column first.
pub open spec fn hq_grid(frame: Frame, table: Seq<u8>) -> Seq<Seq<u8>> {
    Seq::new(frame.cols as nat, |x: int| Seq::new(frame.rows as nat, |y: int| hq_entry(frame, table, x, y)))
}

/// The passes of the first `n` palette colours, one after the other.
pub open spec fn hq_passes(start: Seq<char>, v: Seq<Seq<u8>>, wid: nat, hei: nat, n: nat) -> Seq<char>
    decreases n,
{
    if n == 0 {
        seq![]
    } else {
        hq_passes(start, v, wid, hei, (n - 1) as nat) + hq_pass(start, v, wid, hei, ((n - 1) as usize) as u8)
    }
}

/// Law: the index grid has one column per frame column and one entry per
/// frame row, and the entry of the pixel stored as `(blue, green, red)` is
/// the table entry at `blue * 65536 + green * 256 + red`.
pub proof fn lemma_index_grid_channels(frame: Frame, table: Seq<u8>, x: int, y: int)
    requires
        0 <= x < frame.cols,
        0 <= y < frame.rows,
    ensures
        hq_grid(frame, table).len() == frame.cols,
        hq_grid(frame, table)[x].len() == frame.rows,
        hq_grid(frame, table)[x][y] == table[frame.cell(y, x).0 * 65536 + frame.cell(y, x).1 * 256
            + frame.cell(y, x).2],
{
}

/// Law: with a table generated from a palette of at most 256 colours, the
/// index-grid entry of a pixel is the first palette colour perceptually
/// nearest to the pixel's stored channel triple `(blue, green, red)`.
pub proof fn lemma_index_grid_nearest(frame: Frame, palette: Seq<Rgb>, table: Seq<u8>, x: int, y: int)
    requires
        0 <= x < frame.cols,
        0 <= y < frame.rows,
        0 < palette.len() <= 256,
        table.len() == LUT_RGB_SIZE,
        forall|i: int| 0 <= i < LUT_RGB_SIZE ==> #[trigger] table[i] == nearest_entry(palette, i),
    ensures
        hq_grid(frame, table)[x][y] < palette.len(),
        is_first_closest(palette, frame.cell(y, x), perceptual_weights(), hq_grid(frame, table)[x][y] as int),
{
    let p = frame.cell(y, x);
    let c = seq![p.2, p.1, p.0];
    lemma_generated_lookup(palette, c);
    assert((c[2], c[1], c[0]) == p);
    let n = palette.len();
    lemma_first_closest(palette, p, perceptual_weights(), n);
    assert(palette.take(n as int) =~= palette);
}

impl SixelMultipassHQ {
    /// The register definitions computed when the renderer was made.
    pub closed spec fn start_text(&self) -> Seq<char> {
        self.start_string@
    }

    /// The palette.
    pub closed spec fn palette(&self) -> Seq<Rgb> {
        self.colours@
    }

    /// The entries of the lookup table.
    pub closed spec fn table(&self) -> Seq<u8> {
        self.palette_lut.table()
    }

    /// A renderer for the given palette and the lookup table that maps every
    /// colour to an index into it; register `i` is defined as `colours[i]`.
    pub fn new(colours: Vec<Rgb>, palette_lut: RgbPaletteLUT) -> (renderer: Self)
        ensures
            renderer.palette() == colours@,
            renderer.table() == palette_lut.table(),
            renderer.start_text() == start_definitions(colours@, 0, colours@.len()),
    {
        proof {
            // a vector's length fits in usize, so the registers from 0 do too
            assert(colours.len() == colours@.len());
        }
        let renderer = Self {
            start_string: determine_start_string_with_offset(&colours, 0),
            palette_lut: palette_lut,
            colours: colours,
        };
        renderer
    }

    /// Appends the preamble of a pass.
    fn start_sixel(&self, output: &mut String)
        ensures
            final(output)@ == old(output)@ + hq_preamble(self.start_text()),
    {
        output.push('\x1B');
        output.push('[');
        output.push('H');
        output.append(BEGIN_SIXEL_COLOUR);
        output.append(self.start_string.as_str());
        assert(final(output)@ =~= old(output)@ + hq_preamble(self.start_text()));
    }

    /// Appends the end of SIXEL mode.
    fn stop_sixel(&self, output: &mut String)
        ensures
            final(output)@ == old(output)@ + END_SIXEL@,
    {
        output.append(END_SIXEL);
    }

    /// The entries of column `x` from row `y` down that equal `colour`.
    fn grid_column_dots(v: &Vec<Vec<PaletteIndex>>, colour: PaletteIndex, x: usize, y: usize) -> (sixels: [bool; 6])
        ensures
            sixels@ == grid_column(v.deep_view(), colour, x as int, y as int),
    {
        let mut sixels: [bool; 6] = [false; 6];
        let mut dy: usize = 0;
        while dy < 6
            invariant
                dy <= 6,
                sixels@.len() == 6,
                forall|j: int| 0 <= j < dy ==> sixels@[j] == grid_column(v.deep_view(), colour, x as int, y as int)[j],
                forall|j: int| dy <= j < 6 ==> !sixels@[j],
            decreases 6 - dy,
        {
            if x < v.len() {
                let inner_v: &Vec<PaletteIndex> = &v[x];
                assert(v.deep_view()[x as int] == inner_v@);
                if y < inner_v.len() && dy < inner_v.len() - y {
                    if inner_v[y + dy] == colour {
                        sixels[dy] = true;
                    }
                }
            }
            dy = dy + 1;
        }
        assert(sixels@ =~= grid_column(v.deep_view(), colour, x as int, y as int));
        sixels
    }

    /// One pass: the SIXEL image that lights the entries of the index grid
    /// `v` (column first) equal to `colour`, over `wid` columns and `hei` rows.
    pub fn do_sixel_pass(&self, wid: usize, hei: usize, colour: PaletteIndex, v: &Vec<Vec<PaletteIndex>>) -> (buff: String)
        ensures
            buff@ == hq_pass(self.start_text(), v.deep_view(), wid as nat, hei as nat, colour),
    {
        let mut buff = String::new();
        self.start_sixel(&mut buff);
        buff.push('#');
        write_u8_to_str_noalloc(colour, &mut buff);
        let ghost bands_start = buff@;
        let bands = count_cells(hei, 6);
        let mut band: usize = 0;
        while band < bands
            invariant
                bands as int == cells_covering(hei as int, 6),
                bands * 6 >= hei,
                band <= bands,
                buff@ == bands_start + grid_bands(v.deep_view(), colour, wid as nat, band as nat),
            decreases bands - band,
        {
            let y_start = 6 * band;
            let ghost line_start = buff@;
            let mut x: usize = 0;
            while x < wid
                invariant
                    band < bands,
                    y_start == 6 * band,
                    x <= wid,
                    buff@ == line_start + grid_band(v.deep_view(), colour, band as int, x as nat),
                decreases wid - x,
            {
                let sixels = Self::grid_column_dots(v, colour, x, y_start);
                buff.push(calculate_sixel_cols(sixels));
                x = x + 1;
            }
            buff.push('-');
            band = band + 1;
            assert(buff@ =~= bands_start + grid_bands(v.deep_view(), colour, wid as nat, band as nat));
        }
        self.stop_sixel(&mut buff);
        assert(buff@ =~= hq_pass(self.start_text(), v.deep_view(), wid as nat, hei as nat, colour));
        buff
    }

    /// The index grid of a frame: for every column, the palette index of
    /// every pixel of it.
    pub fn index_grid(&self, frame: &Frame) -> (v: Vec<Vec<PaletteIndex>>)
        requires
            frame.wf(),
        ensures
            v.deep_view() == hq_grid(*frame, self.table()),
            v@.len() == frame.cols,
            forall|x: int, y: int|
                0 <= x < frame.cols && 0 <= y < frame.rows ==> #[trigger] v.deep_view()[x][y] == self.table()[frame.cell(
                    y,
                    x,
                ).0 * 65536 + frame.cell(y, x).1 * 256 + frame.cell(y, x).2],
    {
        let mut v: Vec<Vec<PaletteIndex>> = Vec::new();
        let mut x: usize = 0;
        while x < frame.cols
            invariant
                frame.wf(),
                x <= frame.cols,
                v@.len() == x,
                forall|i: int| 0 <= i < x ==> (#[trigger] v@[i])@ == hq_grid(*frame, self.table())[i],
            decreases frame.cols - x,
        {
            let mut inner_v: Vec<PaletteIndex> = Vec::new();
            let mut y: usize = 0;
            while y < frame.rows
                invariant
                    frame.wf(),
                    x < frame.cols,
                    y <= frame.rows,
                    inner_v@.len() == y,
                    forall|j: int| 0 <= j < y ==> #[trigger] inner_v@[j] == hq_entry(*frame, self.table(), x as int, j),
                decreases frame.rows - y,
            {
                let px = get_px(frame, x, y);
                let channels: [u8; 3] = [px.0, px.1, px.2];
                let entry = self.palette_lut.get_bgr(channels.as_slice());
                assert(channels@ =~= seq![px.0, px.1, px.2]);
                inner_v.push(entry);
                y = y + 1;
            }
            assert(inner_v@ =~= hq_grid(*frame, self.table())[x as int]);
            v.push(inner_v);
            x = x + 1;
        }
        assert(v.deep_view() =~~= hq_grid(*frame, self.table()));
        assert forall|x: int, y: int| 0 <= x < frame.cols && 0 <= y < frame.rows implies #[trigger] v.deep_view()[x][y]
            == self.table()[frame.cell(y, x).0 * 65536 + frame.cell(y, x).1 * 256 + frame.cell(y, x).2] by {
            lemma_index_grid_channels(*frame, self.table(), x, y);
        }
        v
    }

    /// All passes, palette colour by palette colour.
    pub fn draw(&self, frame: &Frame) -> (output: String)
        requires
            frame.wf(),
        ensures
            output@ == hq_passes(
                self.start_text(),
                hq_grid(*frame, self.table()),
                frame.cols as nat,
                frame.rows as nat,
                self.palette().len(),
            ),
    {
        let hei = frame.rows;
        let wid = frame.cols;
        let v = self.index_grid(frame);
        let mut output = String::new();
        let mut i: usize = 0;
        while i < self.colours.len()
            invariant
                i <= self.colours@.len(),
                hei == frame.rows,
                wid == frame.cols,
                v.deep_view() == hq_grid(*frame, self.table()),
                output@ == hq_passes(self.start_text(), v.deep_view(), wid as nat, hei as nat, i as nat),
            decreases self.colours@.len() - i,
        {
            let pass = self.do_sixel_pass(wid, hei, i as u8, &v);
            output.append(pass.as_str());
            i = i + 1;
        }
        output
    }
}

} // verus!
