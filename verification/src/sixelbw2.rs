//! Black-and-white SIXEL rendering whose threshold follows the picture: the
//! mean brightness of the frame, moved by `adjust`, decides which pixels are
//! lit.

use vstd::prelude::*;
use crate::braille::{cells_covering, count_cells};
use crate::sixel::{BEGIN_SIXEL_BW, END_SIXEL, push_sixel_band, sixel_band};
use crate::sixelbw::{render_output as render_with_threshold, standalone_text};
use crate::video::Luma;

verus! {

/// Sum of the brightness of the first `h` pixels of column `x`.
pub open spec fn column_sum(luma: Luma, x: int, h: nat) -> int
    decreases h,
{
    if h == 0 {
        0
    } else {
        column_sum(luma, x, (h - 1) as nat) + luma.cell(h - 1, x) as int
    }
}

/// Sum of the brightness over the top-left `w` by `h` pixels.
pub open spec fn region_sum(luma: Luma, w: nat, h: nat) -> int
    decreases w,
{
    if w == 0 {
        0
    } else {
        region_sum(luma, (w - 1) as nat, h) + column_sum(luma, w - 1, h)
    }
}

/// The low eight bits of `v`, as a cast to `u8` keeps them.
pub open spec fn low_byte(v: int) -> u8 {
    (v % 256) as u8
}

/// Lemma: sums of brightness are non-negative and at most 255 per pixel.
pub proof fn lemma_region_sum_bounds(luma: Luma, w: nat, h: nat)
    requires
        luma.wf(),
        w <= luma.cols,
        h <= luma.rows,
    ensures
        0 <= region_sum(luma, w, h) <= 255 * w * h,
    decreases w,
{
    if w > 0 {
        lemma_region_sum_bounds(luma, (w - 1) as nat, h);
        lemma_column_sum_bounds(luma, w - 1, h);
        assert(255 * (w - 1) * h + 255 * h == 255 * w * h) by (nonlinear_arith);
    }
}

/// Lemma: a column sum is non-negative and at most 255 per pixel.
pub proof fn lemma_column_sum_bounds(luma: Luma, x: int, h: nat)
    requires
        luma.wf(),
        0 <= x < luma.cols,
        h <= luma.rows,
    ensures
        0 <= column_sum(luma, x, h) <= 255 * h,
    decreases h,
{
    if h > 0 {
        lemma_column_sum_bounds(luma, x, (h - 1) as nat);
    }
}

/// The mean brightness of the top-left `width` by `height` pixels (rounded
/// down), plus `adjust`.
pub fn calc_avg_brightness(frame: &Luma, width: usize, height: usize, adjust: i8) -> (avg: i32)
    requires
        frame.wf(),
        width <= frame.cols,
        height <= frame.rows,
        0 < width * height <= i32::MAX,
        region_sum(*frame, width as nat, height as nat) <= i32::MAX,
    ensures
        avg == region_sum(*frame, width as nat, height as nat) / (width * height) as int + adjust as int,
{
    let total_px: i32 = (width * height) as i32;
    let mut avg_brightness_acc: i32 = 0;
    let mut x: usize = 0;
    while x < width
        invariant
            frame.wf(),
            width <= frame.cols,
            height <= frame.rows,
            x <= width,
            region_sum(*frame, width as nat, height as nat) <= i32::MAX,
            avg_brightness_acc == region_sum(*frame, x as nat, height as nat),
        decreases width - x,
    {
        let ghost before = avg_brightness_acc;
        let mut y: usize = 0;
        while y < height
            invariant
                frame.wf(),
                width <= frame.cols,
                height <= frame.rows,
                x < width,
                y <= height,
                region_sum(*frame, width as nat, height as nat) <= i32::MAX,
                before == region_sum(*frame, x as nat, height as nat),
                avg_brightness_acc == before + column_sum(*frame, x as int, y as nat),
            decreases height - y,
        {
            proof {
                lemma_region_sum_bounds(*frame, (x + 1) as nat, height as nat);
                lemma_region_sum_monotone(*frame, (x + 1) as nat, width as nat, height as nat);
                lemma_column_sum_monotone(*frame, x as int, (y + 1) as nat, height as nat);
                lemma_column_sum_bounds(*frame, x as int, height as nat);
            }
            let brightness: u8 = frame.at(y, x);
            avg_brightness_acc = avg_brightness_acc + brightness as i32;
            y = y + 1;
        }
        x = x + 1;
    }
    proof {
        lemma_region_sum_bounds(*frame, width as nat, height as nat);
        assert(0 <= avg_brightness_acc / total_px <= 255) by (nonlinear_arith)
            requires
                0 <= avg_brightness_acc <= 255 * width * height,
                total_px == width * height,
                total_px > 0,
        ;
    }
    avg_brightness_acc = avg_brightness_acc / total_px;
    avg_brightness_acc = avg_brightness_acc + adjust as i32;
    avg_brightness_acc
}

/// Lemma: the sum over more columns is not smaller.
pub proof fn lemma_region_sum_monotone(luma: Luma, w1: nat, w2: nat, h: nat)
    requires
        luma.wf(),
        w1 <= w2 <= luma.cols,
        h <= luma.rows,
    ensures
        region_sum(luma, w1, h) <= region_sum(luma, w2, h),
    decreases w2,
{
    if w1 < w2 {
        lemma_region_sum_monotone(luma, w1, (w2 - 1) as nat, h);
        lemma_column_sum_bounds(luma, w2 - 1, h);
    }
}

/// Lemma: the sum over more pixels of a column is not smaller.
pub proof fn lemma_column_sum_monotone(luma: Luma, x: int, h1: nat, h2: nat)
    requires
        luma.wf(),
        0 <= x < luma.cols,
        h1 <= h2 <= luma.rows,
    ensures
        column_sum(luma, x, h1) <= column_sum(luma, x, h2),
    decreases h2,
{
    if h1 < h2 {
        lemma_column_sum_monotone(luma, x, h1, (h2 - 1) as nat);
    }
}

/// The threshold that a frame is drawn with: the low byte of its adjusted
/// mean brightness.
pub open spec fn frame_threshold(luma: Luma, adjust: i8) -> u8 {
    low_byte(
        region_sum(luma, luma.cols as nat, luma.rows as nat) / (luma.cols * luma.rows) as int
            + adjust as int,
    )
}

/// What the renderers that follow the picture need of a frame: a pixel at
/// least, at most `i32::MAX` pixels, and a brightness sum within `i32`.
pub open spec fn averageable(luma: Luma) -> bool {
    &&& luma.wf()
    &&& 0 < luma.cols * luma.rows <= i32::MAX
    &&& region_sum(luma, luma.cols as nat, luma.rows as nat) <= i32::MAX
}

/// Whether a brightness map can be averaged in `i32` arithmetic (see
/// [`averageable`]).
pub fn can_average(luma: &Luma) -> (ok: bool)
    requires
        luma.wf(),
    ensures
        ok == averageable(*luma),
{
    let px = match luma.cols.checked_mul(luma.rows) {
        Some(px) => px,
        None => {
            return false;
        },
    };
    if px == 0 || px > i32::MAX as usize {
        return false;
    }
    assert(luma.rows <= i32::MAX) by (nonlinear_arith)
        requires
            0 < luma.cols * luma.rows <= i32::MAX,
    ;
    let mut sum: u64 = 0;
    let mut x: usize = 0;
    while x < luma.cols
        invariant
            luma.wf(),
            0 < luma.cols * luma.rows <= i32::MAX,
            luma.rows <= i32::MAX,
            x <= luma.cols,
            sum == region_sum(*luma, x as nat, luma.rows as nat),
            sum <= i32::MAX,
        decreases luma.cols - x,
    {
        let mut y: usize = 0;
        let ghost before = sum;
        while y < luma.rows
            invariant
                luma.wf(),
                0 < luma.cols * luma.rows <= i32::MAX,
                x < luma.cols,
                luma.rows <= i32::MAX,
                y <= luma.rows,
                before == region_sum(*luma, x as nat, luma.rows as nat),
                before <= i32::MAX,
                sum == before + column_sum(*luma, x as int, y as nat),
                sum <= i32::MAX + 255 * y,
            decreases luma.rows - y,
        {
            sum = sum + luma.at(y, x) as u64;
            y = y + 1;
        }
        if sum > i32::MAX as u64 {
            proof {
                lemma_region_sum_monotone(*luma, (x + 1) as nat, luma.cols as nat, luma.rows as nat);
            }
            return false;
        }
        x = x + 1;
    }
    true
}

/// The threshold that a frame is drawn with (see [`frame_threshold`]).
pub fn threshold_of(luma: &Luma, adjust: i8) -> (t: u8)
    requires
        averageable(*luma),
    ensures
        t == frame_threshold(*luma, adjust),
{
    let average_brightness: i32 = calc_avg_brightness(luma, luma.cols, luma.rows, adjust);
    proof {
        lemma_region_sum_bounds(*luma, luma.cols as nat, luma.rows as nat);
        assert(0 <= region_sum(*luma, luma.cols as nat, luma.rows as nat) / (luma.cols * luma.rows) as int <= 255) by (nonlinear_arith)
            requires
                0 <= region_sum(*luma, luma.cols as nat, luma.rows as nat) <= 255 * luma.cols * luma.rows,
                luma.cols * luma.rows > 0,
        ;
    }
    if average_brightness >= 0 {
        (average_brightness % 256) as u8
    } else {
        (average_brightness + 256) as u8
    }
}

/// The first `n` bands of sixel characters, separated by `-`.
pub open spec fn joined_bands(luma: Luma, threshold: u8, n: nat) -> Seq<char>
    decreases n,
{
    if n == 0 {
        seq![]
    } else {
        (if n == 1 {
            seq![]
        } else {
            joined_bands(luma, threshold, (n - 1) as nat).push('-')
        }) + sixel_band(luma, threshold, n - 1, luma.cols as nat)
    }
}

/// The picture-following black-and-white SIXEL renderer.
pub struct SixelMono2 {
    pub adjust: i8,
}

impl SixelMono2 {
    /// The sixel characters of the band that starts at pixel row `y_start`.
    pub fn chunk(luma: &Luma, y_start: usize, threshold: u8) -> (chunk: String)
        requires
            luma.wf(),
            y_start < luma.rows,
            y_start % 6 == 0,
        ensures
            chunk@ == sixel_band(*luma, threshold, (y_start / 6) as int, luma.cols as nat),
    {
        let mut chunk = String::new();
        push_sixel_band(luma, y_start, threshold, &mut chunk);
        chunk
    }

    /// The SIXEL image made of the given bands: the black-and-white preamble,
    /// the bands separated by `-`, the end of SIXEL mode.
    pub fn assemble(chunks: &Vec<String>) -> (text: String)
        ensures
            text@ == BEGIN_SIXEL_BW@ + joined(chunks@.map_values(|c: String| c@), chunks@.len()) + END_SIXEL@,
    {
        let mut text = String::new();
        text.append(BEGIN_SIXEL_BW);
        let ghost views = chunks@.map_values(|c: String| c@);
        let mut i: usize = 0;
        while i < chunks.len()
            invariant
                i <= chunks@.len(),
                views == chunks@.map_values(|c: String| c@),
                text@ == BEGIN_SIXEL_BW@ + joined(views, i as nat),
            decreases chunks.len() - i,
        {
            if i > 0 {
                text.push('-');
            }
            text.append(chunks[i].as_str());
            i = i + 1;
            assert(text@ =~= BEGIN_SIXEL_BW@ + joined(views, i as nat));
        }
        text.append(END_SIXEL);
        text
    }

    /// The whole brightness map as a black-and-white SIXEL image whose
    /// threshold is the frame's adjusted mean brightness.
    pub fn draw(&self, frame: &Luma) -> (text: String)
        requires
            averageable(*frame),
        ensures
            text@ == BEGIN_SIXEL_BW@ + joined_bands(*frame, frame_threshold(*frame, self.adjust), cells_covering(
                frame.rows as int,
                6,
            ) as nat) + END_SIXEL@,
    {
        let average_brightness: u8 = threshold_of(frame, self.adjust);
        let ghost t = frame_threshold(*frame, self.adjust);
        let bands = count_cells(frame.rows, 6);
        let mut chunks: Vec<String> = Vec::new();
        let mut band: usize = 0;
        while band < bands
            invariant
                frame.wf(),
                bands as int == cells_covering(frame.rows as int, 6),
                bands * 6 >= frame.rows,
                band <= bands,
                average_brightness == t,
                chunks@.len() == band,
                forall|k: int|
                    0 <= k < band ==> (#[trigger] chunks@[k])@ == sixel_band(*frame, t, k, frame.cols as nat),
            decreases bands - band,
        {
            let chunk = Self::chunk(frame, 6 * band, average_brightness);
            chunks.push(chunk);
            band = band + 1;
        }
        let text = Self::assemble(&chunks);
        proof {
            let views = chunks@.map_values(|c: String| c@);
            lemma_joined_bands(*frame, t, views, bands as nat);
        }
        text
    }
}

/// The first `n` strings of `parts`, separated by `-`.
pub open spec fn joined(parts: Seq<Seq<char>>, n: nat) -> Seq<char>
    decreases n,
{
    if n == 0 {
        seq![]
    } else {
        (if n == 1 {
            seq![]
        } else {
            joined(parts, (n - 1) as nat).push('-')
        }) + parts[n - 1]
    }
}

/// Lemma: joining the bands one by one gives the joined bands.
pub proof fn lemma_joined_bands(luma: Luma, threshold: u8, parts: Seq<Seq<char>>, n: nat)
    requires
        n <= parts.len(),
        forall|k: int| 0 <= k < n ==> #[trigger] parts[k] == sixel_band(luma, threshold, k, luma.cols as nat),
    ensures
        joined(parts, n) == joined_bands(luma, threshold, n),
    decreases n,
{
    if n > 0 {
        lemma_joined_bands(luma, threshold, parts, (n - 1) as nat);
    }
}

/// The text that the stand-alone picture-following renderer prints for an
/// already resized frame (see [`crate::sixelbw::render_output`]), with the
/// frame's adjusted mean brightness as threshold.
pub fn render_output(luma: &Luma, adjust: i8) -> (output: String)
    requires
        averageable(*luma),
    ensures
        output@ == standalone_text(*luma, frame_threshold(*luma, adjust)),
{
    let threshold = threshold_of(luma, adjust);
    render_with_threshold(luma, threshold)
}

} // verus!
