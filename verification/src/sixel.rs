//! SIXEL rendering core: control strings, colour registers, the sixel
//! character of a six-pixel column, palette matching and decimal output.

use vstd::prelude::*;
use crate::text::{decimal, bits_value, pow2_nat, lemma_pow2_le, lemma_bits_value_bit, lemma_bits_value_bound, lemma_bits_value_injective, lemma_decimal_one_digit, lemma_decimal_step};
use crate::video::{Bgr, Rgb, Luma};

verus! {

/// Initialises SIXEL for black-and-white drawing: moves the cursor home,
/// enters SIXEL mode, defines colour register 1 as pure white and selects it.
pub const BEGIN_SIXEL_BW: &'static str = "\x1b[H\x1BPq#1;2;100;100;100#1";

/// Enters colour SIXEL mode without defining any colour register or moving
/// the cursor.
pub const BEGIN_SIXEL_COLOUR: &'static str = "\x1BP1;0q";

/// Leaves SIXEL mode.
pub const END_SIXEL: &'static str = "\x1B\\";

/// The SIXEL percentage (0..=100) nearest to the channel value `c` (0..=255).
pub open spec fn sixel_percent(c: int) -> int {
    (100 * c + 127) / 255
}

/// Converts a colour channel from 0..=255 to DEC's percentage scale, rounding
/// to the nearest percent.
pub fn rgb_to_sixel_percent(c: u8) -> (p: u8)
    ensures
        p as int == sixel_percent(c as int),
        p <= 100,
        -127 <= 255 * (p as int) - 100 * (c as int) <= 127,
{
    ((c as u16 * 100 + 127) / 255) as u8
}

/// The text that defines colour register `register` as `(r, g, b)` given in
/// percent: `#register;2;r;g;b`.
pub open spec fn register_definition(register: nat, r: int, g: int, b: int) -> Seq<char> {
    seq!['#'] + decimal(register) + seq![';', '2', ';'] + decimal(r as nat) + seq![';']
        + decimal(g as nat) + seq![';'] + decimal(b as nat)
}

/// The definition of register `register` as the colour of a pixel given in
/// BGR order, followed by the selection of that register.
pub open spec fn colour_switch_text(colour: Bgr, register: u8) -> Seq<char> {
    register_definition(
        register as nat,
        sixel_percent(colour.2 as int),
        sixel_percent(colour.1 as int),
        sixel_percent(colour.0 as int),
    ) + seq!['#'] + decimal(register as nat)
}

/// Appends `#n;2;r;g;b` to `s`.
fn push_register_definition(s: &mut String, register: usize, r: u8, g: u8, b: u8)
    ensures
        final(s)@ == old(s)@ + register_definition(register as nat, r as int, g as int, b as int),
{
    s.push('#');
    write_usize_noalloc(register, s);
    s.push(';');
    s.push('2');
    s.push(';');
    write_u8_to_str_noalloc(r, s);
    s.push(';');
    write_u8_to_str_noalloc(g, s);
    s.push(';');
    write_u8_to_str_noalloc(b, s);
    assert(final(s)@ =~= old(s)@ + register_definition(register as nat, r as int, g as int, b as int));
}

/// Defines colour register `register` as `colour` (a BGR pixel) and switches to
/// it.
pub fn draw_sixel_colour(colour: Bgr, register: u8) -> (output: String)
    ensures
        output@ == colour_switch_text(colour, register),
{
    let r: u8 = rgb_to_sixel_percent(colour.2);
    let g: u8 = rgb_to_sixel_percent(colour.1);
    let b: u8 = rgb_to_sixel_percent(colour.0);
    let mut output = String::new();
    push_register_definition(&mut output, register as usize, r, g, b);
    output.push('#');
    write_u8_to_str_noalloc(register, &mut output);
    assert(output@ =~= colour_switch_text(colour, register));
    output
}

/// The SIXEL character that shows the six pixels of a column, top pixel first.
pub open spec fn sixel_char(pixels: Seq<bool>) -> char {
    (bits_value(pixels) + 63) as char
}

/// Calculates the character to display for a column of six pixels.
pub fn calculate_sixel_cols(pixels: [bool; 6]) -> (c: char)
    ensures
        c == sixel_char(pixels@),
        '?' <= c <= '~',
{
    let mut bits: u8 = 0u8;
    let mut idx: usize = 6;
    assert(pixels@.subrange(6, 6).len() == 0);
    while idx > 0
        invariant
            idx <= 6,
            bits as nat == bits_value(pixels@.subrange(idx as int, 6)),
            bits < pow2_nat((6 - idx) as nat),
        decreases idx,
    {
        idx = idx - 1;
        assert(pixels@.subrange(idx as int, 6).drop_first() =~= pixels@.subrange(idx + 1, 6));
        proof {
            lemma_pow2_le((5 - idx) as nat, 5);
            reveal_with_fuel(pow2_nat, 6);
        }
        let on: u8 = if pixels[idx] { 1 } else { 0 };
        bits = bits * 2 + on;
    }
    assert(pixels@.subrange(0, 6) =~= pixels@);
    assert(pow2_nat(6) == 64) by {
        reveal_with_fuel(pow2_nat, 7);
    }
    ((bits + 63) as u8) as char
}

/// Law: the sixel character of a column gives its pixels back: bit `i` of
/// the character's code less 63 is pixel `i`.
pub proof fn lemma_sixel_char_decodes(pixels: Seq<bool>, i: nat)
    requires
        pixels.len() == 6,
        i < 6,
    ensures
        ((sixel_char(pixels) as int - 63) / pow2_nat(i) as int) % 2 == (if pixels[i as int] { 1int } else { 0int }),
{
    lemma_bits_value_bound(pixels);
    assert(pow2_nat(6) == 64) by {
        reveal_with_fuel(pow2_nat, 7);
    }
    lemma_bits_value_bit(pixels, i);
}

/// Law: different columns of six pixels get different sixel characters.
pub proof fn lemma_sixel_char_injective(a: Seq<bool>, b: Seq<bool>)
    requires
        a.len() == 6,
        b.len() == 6,
        sixel_char(a) == sixel_char(b),
    ensures
        a == b,
{
    lemma_bits_value_bound(a);
    lemma_bits_value_bound(b);
    assert(pow2_nat(6) == 64) by {
        reveal_with_fuel(pow2_nat, 7);
    }
    assert(sixel_char(a) as int == bits_value(a) + 63);
    assert(sixel_char(b) as int == bits_value(b) + 63);
    lemma_bits_value_injective(a, b);
}

/// Law: the percentage scale keeps the order of channel values.
pub proof fn lemma_sixel_percent_monotone(a: int, b: int)
    requires
        0 <= a <= b <= 255,
    ensures
        sixel_percent(a) <= sixel_percent(b),
{
    assert((100 * a + 127) / 255 <= (100 * b + 127) / 255) by (nonlinear_arith)
        requires
            a <= b,
    ;
}

/// The register definitions of the first `n` palette colours, numbered from
/// `offset`; each colour is written from its last component to its first.
pub open spec fn start_definitions(colours: Seq<Rgb>, offset: nat, n: nat) -> Seq<char>
    decreases n,
{
    if n == 0 {
        seq![]
    } else {
        let c = colours[n - 1];
        start_definitions(colours, offset, (n - 1) as nat) + register_definition(
            (n - 1 + offset) as nat,
            sixel_percent(c.2 as int),
            sixel_percent(c.1 as int),
            sixel_percent(c.0 as int),
        )
    }
}

/// The text that defines one colour register per palette colour, registers
/// numbered from 0.
pub fn determine_start_string(colours: &Vec<Rgb>) -> (output: String)
    ensures
        output@ == start_definitions(colours@, 0, colours@.len()),
{
    let n = colours.len();
    assert(n == colours@.len());
    determine_start_string_with_offset(colours, 0)
}

/// The text that defines one colour register per palette colour, registers
/// numbered from `off`.
pub fn determine_start_string_with_offset(colours: &Vec<Rgb>, off: usize) -> (output: String)
    requires
        off + colours@.len() <= usize::MAX + 1,
    ensures
        output@ == start_definitions(colours@, off as nat, colours@.len()),
{
    let mut output = String::new();
    let n = colours.len();
    let mut idx: usize = 0;
    while idx < n
        invariant
            n == colours@.len(),
            idx <= n,
            off + n <= usize::MAX + 1,
            output@ == start_definitions(colours@, off as nat, idx as nat),
        decreases n - idx,
    {
        let colour = colours[idx];
        let r = rgb_to_sixel_percent(colour.2);
        let g = rgb_to_sixel_percent(colour.1);
        let b = rgb_to_sixel_percent(colour.0);
        push_register_definition(&mut output, idx + off, r, g, b);
        idx = idx + 1;
    }
    output
}

/// The squared difference of two channels, each weighted: the colour
/// distance that palette matching minimises.
pub open spec fn weighted_distance(target: Rgb, c: Rgb, w: (int, int, int)) -> int {
    (c.0 - target.0) * (c.0 - target.0) * w.0 + (c.1 - target.1) * (c.1 - target.1) * w.1 + (c.2
        - target.2) * (c.2 - target.2) * w.2
}

/// Weights of the plain squared euclidean distance.
pub open spec fn plain_weights() -> (int, int, int) {
    (1, 1, 1)
}

/// Weights of the perceptual distance.
pub open spec fn perceptual_weights() -> (int, int, int) {
    (30, 11, 59)
}

/// The index of the first colour among the first `n` that is nearest to
/// `target` (meant for `n >= 1`).
pub open spec fn first_closest(colours: Seq<Rgb>, target: Rgb, w: (int, int, int), n: nat) -> nat
    decreases n,
{
    if n <= 1 {
        0
    } else {
        let best = first_closest(colours, target, w, (n - 1) as nat);
        if weighted_distance(target, colours[n - 1], w) < weighted_distance(
            target,
            colours[best as int],
            w,
        ) {
            (n - 1) as nat
        } else {
            best
        }
    }
}

/// `i` is the first index whose colour is nearest to `target`.
pub open spec fn is_first_closest(colours: Seq<Rgb>, target: Rgb, w: (int, int, int), i: int) -> bool {
    &&& 0 <= i < colours.len()
    &&& forall|j: int|
        0 <= j < colours.len() ==> weighted_distance(target, colours[i], w) <= weighted_distance(
            target,
            #[trigger] colours[j],
            w,
        )
    &&& forall|j: int|
        0 <= j < i ==> weighted_distance(target, colours[i], w) < weighted_distance(
            target,
            #[trigger] colours[j],
            w,
        )
}

/// What a palette search returns: nothing for an empty palette, else the
/// first nearest colour.
pub open spec fn closest_index(colours: Seq<Rgb>, target: Rgb, w: (int, int, int)) -> Option<usize> {
    if colours.len() == 0 {
        None
    } else {
        Some(first_closest(colours, target, w, colours.len()) as usize)
    }
}

/// Lemma: `first_closest` over the first `n` colours is the first nearest
/// among them.
pub proof fn lemma_first_closest(colours: Seq<Rgb>, target: Rgb, w: (int, int, int), n: nat)
    requires
        1 <= n <= colours.len(),
    ensures
        is_first_closest(colours.take(n as int), target, w, first_closest(colours, target, w, n) as int),
    decreases n,
{
    if n > 1 {
        lemma_first_closest(colours, target, w, (n - 1) as nat);
        let prev = colours.take(n - 1);
        let cur = colours.take(n as int);
        assert forall|j: int| 0 <= j < n - 1 implies #[trigger] cur[j] == prev[j] by {}
    }
}

/// Law: with positive weights, a colour that is in the palette is matched
/// to its first occurrence there.
pub proof fn lemma_closest_finds_exact(colours: Seq<Rgb>, target: Rgb, w: (int, int, int), j: int)
    requires
        w.0 > 0,
        w.1 > 0,
        w.2 > 0,
        0 <= j < colours.len() <= usize::MAX,
        colours[j] == target,
    ensures
        closest_index(colours, target, w) matches Some(i) && colours[i as int] == target && forall|k: int|
            0 <= k < i ==> #[trigger] colours[k] != target,
{
    let n = colours.len();
    lemma_first_closest(colours, target, w, n);
    assert(colours.take(n as int) =~= colours);
    let i = first_closest(colours, target, w, n) as int;
    let c = colours[i];
    let z0 = colours[j].0 - target.0;
    let z1 = colours[j].1 - target.1;
    let z2 = colours[j].2 - target.2;
    assert(z0 == 0 && z1 == 0 && z2 == 0);
    assert(z0 * z0 * w.0 + z1 * z1 * w.1 + z2 * z2 * w.2 == 0) by (nonlinear_arith)
        requires
            z0 == 0,
            z1 == 0,
            z2 == 0,
    ;
    assert(weighted_distance(target, colours[j], w) == 0);
    let d0 = c.0 - target.0;
    let d1 = c.1 - target.1;
    let d2 = c.2 - target.2;
    assert(d0 * d0 * w.0 + d1 * d1 * w.1 + d2 * d2 * w.2 <= 0 ==> d0 == 0 && d1 == 0 && d2 == 0) by (nonlinear_arith)
        requires
            w.0 > 0,
            w.1 > 0,
            w.2 > 0,
    ;
    assert(c == target);
    assert forall|k: int| 0 <= k < i implies #[trigger] colours[k] != target by {
        assert(weighted_distance(target, colours[k], w) > weighted_distance(target, colours[i], w));
    }
    assert(0 <= i < n);
    assert(closest_index(colours, target, w) == Some(i as usize));
    assert((i as usize) as int == i);
}

/// Weighted squared distance between two colours, in machine integers.
fn distance(target: Rgb, c: Rgb, w0: i32, w1: i32, w2: i32) -> (d: i32)
    requires
        0 <= w0 <= 100,
        0 <= w1 <= 100,
        0 <= w2 <= 100,
    ensures
        d as int == weighted_distance(target, c, (w0 as int, w1 as int, w2 as int)),
{
    let dr: i32 = c.0 as i32 - target.0 as i32;
    let dg: i32 = c.1 as i32 - target.1 as i32;
    let db: i32 = c.2 as i32 - target.2 as i32;
    assert(0 <= dr * dr <= 65025) by (nonlinear_arith)
        requires
            -255 <= dr <= 255,
    ;
    assert(0 <= dg * dg <= 65025) by (nonlinear_arith)
        requires
            -255 <= dg <= 255,
    ;
    assert(0 <= db * db <= 65025) by (nonlinear_arith)
        requires
            -255 <= db <= 255,
    ;
    assert(0 <= dr * dr * w0 <= 6502500) by (nonlinear_arith)
        requires
            0 <= dr * dr <= 65025,
            0 <= w0 <= 100,
    ;
    assert(0 <= dg * dg * w1 <= 6502500) by (nonlinear_arith)
        requires
            0 <= dg * dg <= 65025,
            0 <= w1 <= 100,
    ;
    assert(0 <= db * db * w2 <= 6502500) by (nonlinear_arith)
        requires
            0 <= db * db <= 65025,
            0 <= w2 <= 100,
    ;
    dr * dr * w0 + dg * dg * w1 + db * db * w2
}

/// Searches the palette for the colour nearest to `target` under the given
/// channel weights; the first of several equally near colours wins.
fn closest_by(target: Rgb, colours: &[Rgb], w0: i32, w1: i32, w2: i32) -> (res: Option<usize>)
    requires
        0 <= w0 <= 100,
        0 <= w1 <= 100,
        0 <= w2 <= 100,
    ensures
        res == closest_index(colours@, target, (w0 as int, w1 as int, w2 as int)),
        res is None <==> colours@.len() == 0,
        res matches Some(i) ==> is_first_closest(colours@, target, (w0 as int, w1 as int, w2 as int), i as int),
{
    let n = colours.len();
    if n == 0 {
        return None;
    }
    let ghost w = (w0 as int, w1 as int, w2 as int);
    let mut best: usize = 0;
    let mut best_distance: i32 = distance(target, colours[0], w0, w1, w2);
    let mut i: usize = 1;
    while i < n
        invariant
            n == colours@.len(),
            1 <= i <= n,
            0 <= w0 <= 100,
            0 <= w1 <= 100,
            0 <= w2 <= 100,
            w == (w0 as int, w1 as int, w2 as int),
            best as nat == first_closest(colours@, target, w, i as nat),
            best < i,
            best_distance as int == weighted_distance(target, colours@[best as int], w),
        decreases n - i,
    {
        let d = distance(target, colours[i], w0, w1, w2);
        if d < best_distance {
            best = i;
            best_distance = d;
        }
        i = i + 1;
    }
    proof {
        lemma_first_closest(colours@, target, w, n as nat);
        assert(colours@.take(n as int) =~= colours@);
    }
    Some(best)
}

/// The index of the palette colour with the smallest squared euclidean
/// distance to `target`, the first one on a tie; `None` for an empty palette.
pub fn closest_colour_index_rgb_real(target: Rgb, colours: &[Rgb]) -> (res: Option<usize>)
    ensures
        res == closest_index(colours@, target, plain_weights()),
        res is None <==> colours@.len() == 0,
        res matches Some(i) ==> is_first_closest(colours@, target, plain_weights(), i as int),
{
    closest_by(target, colours, 1, 1, 1)
}

/// The index of the palette colour with the smallest perceptually weighted
/// squared distance to `target` (weights 30, 11 and 59 for the three
/// components), the first one on a tie; `None` for an empty palette.
pub fn closest_colour_index_rgb(target: Rgb, colours: &[Rgb]) -> (res: Option<usize>)
    ensures
        res == closest_index(colours@, target, perceptual_weights()),
        res is None <==> colours@.len() == 0,
        res matches Some(i) ==> is_first_closest(colours@, target, perceptual_weights(), i as int),
{
    closest_by(target, colours, 30, 11, 59)
}

/// The six pixels of column `x` from row `y` down, each lit when it lies in
/// the map and is brighter than `threshold`.
pub open spec fn column_dots(luma: Luma, y: int, x: int, threshold: u8) -> Seq<bool> {
    Seq::new(6, |i: int| y + i < luma.rows && luma.cell(y + i, x) > threshold)
}

/// Reads the six pixels of column `x` from row `y` down (see [`column_dots`]).
pub fn read_sixel_column(luma: &Luma, y: usize, x: usize, threshold: u8) -> (pixels: [bool; 6])
    requires
        luma.wf(),
        y < luma.rows,
        x < luma.cols,
    ensures
        pixels@ == column_dots(*luma, y as int, x as int, threshold),
{
    let mut pixels: [bool; 6] = [false; 6];
    let mut i: usize = 0;
    while i < 6
        invariant
            luma.wf(),
            y < luma.rows,
            x < luma.cols,
            i <= 6,
            pixels@.len() == 6,
            forall|j: int| 0 <= j < i ==> pixels@[j] == column_dots(*luma, y as int, x as int, threshold)[j],
            forall|j: int| i <= j < 6 ==> !pixels@[j],
        decreases 6 - i,
    {
        if i < luma.rows - y {
            pixels[i] = luma.at(y + i, x) > threshold;
        }
        i = i + 1;
    }
    assert(pixels@ =~= column_dots(*luma, y as int, x as int, threshold));
    pixels
}

/// The sixel characters of the first `n` columns of band `band` (pixel rows
/// `6 * band` to `6 * band + 5`).
pub open spec fn sixel_band(luma: Luma, threshold: u8, band: int, n: nat) -> Seq<char>
    decreases n,
{
    if n == 0 {
        seq![]
    } else {
        sixel_band(luma, threshold, band, (n - 1) as nat).push(
            sixel_char(column_dots(luma, 6 * band, n - 1, threshold)),
        )
    }
}

/// Appends the sixel characters of the band that starts at pixel row `y`.
pub fn push_sixel_band(luma: &Luma, y: usize, threshold: u8, output: &mut String)
    requires
        luma.wf(),
        y < luma.rows,
        y % 6 == 0,
    ensures
        final(output)@ == old(output)@ + sixel_band(*luma, threshold, (y / 6) as int, luma.cols as nat),
{
    let ghost start = output@;
    let mut x: usize = 0;
    while x < luma.cols
        invariant
            luma.wf(),
            y < luma.rows,
            y % 6 == 0,
            x <= luma.cols,
            output@ == start + sixel_band(*luma, threshold, (y / 6) as int, x as nat),
        decreases luma.cols - x,
    {
        let pixels = read_sixel_column(luma, y, x, threshold);
        output.push(calculate_sixel_cols(pixels));
        x = x + 1;
    }
}

/// Writes the decimal spelling of `x` at the end of `s`.
pub fn write_u8_to_str_noalloc(x: u8, s: &mut String)
    ensures
        final(s)@ == old(s)@ + decimal(x as nat),
    decreases x,
{
    if x < 10 {
        let c = (x + 48u8) as char;
        s.push(c);
        proof {
            lemma_decimal_one_digit(x as nat);
        }
    } else if x < 100 {
        let tens_digit = (x / 10) % 10;
        let ones_digit = x % 10;
        write_u8_to_str_noalloc(tens_digit, s);
        write_u8_to_str_noalloc(ones_digit, s);
        proof {
            lemma_decimal_step(x as nat);
            lemma_decimal_one_digit((x / 10) as nat);
            lemma_decimal_one_digit((x % 10) as nat);
        }
        assert(final(s)@ =~= old(s)@ + decimal(x as nat));
    } else {
        let hundreds_digit = x / 100;
        let tens_digit = (x / 10) % 10;
        let ones_digit = x % 10;
        write_u8_to_str_noalloc(hundreds_digit, s);
        write_u8_to_str_noalloc(tens_digit, s);
        write_u8_to_str_noalloc(ones_digit, s);
        proof {
            lemma_decimal_step(x as nat);
            lemma_decimal_step((x / 10) as nat);
            lemma_decimal_one_digit((x / 100) as nat);
            lemma_decimal_one_digit(((x / 10) % 10) as nat);
            lemma_decimal_one_digit((x % 10) as nat);
            assert((x / 10) as nat / 10 == (x / 100) as nat);
        }
        assert(final(s)@ =~= old(s)@ + decimal(x as nat));
    }
}

/// Writes the decimal spelling of `x` at the end of `s`.
pub fn write_usize_noalloc(x: usize, s: &mut String)
    ensures
        final(s)@ == old(s)@ + decimal(x as nat),
    decreases x,
{
    if x >= 10 {
        write_usize_noalloc(x / 10, s);
    }
    let ones_digit = (x % 10) as u8;
    s.push((ones_digit + 48u8) as char);
    proof {
        if x >= 10 {
            lemma_decimal_step(x as nat);
        } else {
            lemma_decimal_one_digit(x as nat);
        }
    }
    assert(final(s)@ =~= old(s)@ + decimal(x as nat));
}

} // verus!
