//! Colour palettes, each a list of `(red, green, blue)` colours.

use vstd::prelude::*;
use crate::video::Rgb;

verus! {

/// The colour that a `0xRRGGBB` hex code spells.
pub open spec fn hex_rgb(hex: int) -> Rgb {
    ((hex / 65536 % 256) as u8, (hex / 256 % 256) as u8, (hex % 256) as u8)
}

/// The colour that a `0xRRGGBB` hex code spells (bits above the lowest 24
/// are ignored).
pub fn rgb_from_hex(hex: u32) -> (c: Rgb)
    ensures
        c == hex_rgb(hex as int),
{
    assert((hex >> 16) & 0xFF == hex / 65536 % 256) by (bit_vector);
    assert((hex >> 8) & 0xFF == hex / 256 % 256) by (bit_vector);
    assert(hex & 0xFF == hex % 256) by (bit_vector);
    (((hex >> 16) & 0xFF) as u8, ((hex >> 8) & 0xFF) as u8, (hex & 0xFF) as u8)
}

/// Law: a 24-bit hex code is put back together from the colour it spells.
pub proof fn lemma_hex_rgb_roundtrip(hex: int)
    requires
        0 <= hex < 0x1000000,
    ensures
        hex_rgb(hex).0 as int * 65536 + hex_rgb(hex).1 as int * 256 + hex_rgb(hex).2 as int == hex,
{
    assert((hex / 65536 % 256) * 65536 + (hex / 256 % 256) * 256 + hex % 256 == hex) by (nonlinear_arith)
        requires
            0 <= hex < 0x1000000,
    ;
}

/// The Microsoft VGA 16-colour palette: black first, white last, the dark
/// and bright primaries and their pairwise mixes, and two grays between.
pub fn sixteen_dated() -> (palette: Vec<Rgb>)
    ensures
        palette.len() == 16,
        palette@ == seq![
            (0u8, 0u8, 0u8),
            (127u8, 0u8, 0u8),
            (255u8, 0u8, 0u8),
            (0u8, 127u8, 0u8),
            (0u8, 255u8, 0u8),
            (0u8, 0u8, 127u8),
            (0u8, 0u8, 255u8),
            (127u8, 0u8, 127u8),
            (255u8, 0u8, 255u8),
            (127u8, 127u8, 0u8),
            (255u8, 255u8, 0u8),
            (0u8, 127u8, 127u8),
            (0u8, 255u8, 255u8),
            (128u8, 128u8, 128u8),
            (192u8, 192u8, 192u8),
            (255u8, 255u8, 255u8),
        ],
{
    vec![
        (0, 0, 0),  // black
        (127, 0, 0),  // dark red
        (255, 0, 0),  // bright red
        (0, 127, 0),  // dark green
        (0, 255, 0),  // bright green
        (0, 0, 127),  // dark blue
        (0, 0, 255),  // bright blue
        (127, 0, 127),  // dark purple
        (255, 0, 255),  // light purple
        (127, 127, 0),  // dark orange
        (255, 255, 0),  // bright orange
        (0, 127, 127),  // cyan
        (0, 255, 255),  // cyan
        (128, 128, 128),  // medium gray
        (192, 192, 192),  // light gray
        (255, 255, 255),  // white
    ]
}

/// The hex codes of the standard 16-colour terminal palette.
pub open spec fn sixteen_codes() -> Seq<int> {
    seq![
        0x000000int,
        0x800000,
        0x008000,
        0x808000,
        0x000080,
        0x800080,
        0x008080,
        0xc0c0c0,
        0x808080,
        0xff0000,
        0x00ff00,
        0xffff00,
        0x0000ff,
        0xff00ff,
        0x00ffff,
        0xffffff,
    ]
}

/// Law: the standard 16-colour palette spelled out: black, the eight dark
/// colours (maroon, green, olive, navy, purple, teal, silver, gray), then the
/// bright red, lime, yellow, blue, fuchsia, aqua and white; no colour occurs
/// twice.
pub proof fn lemma_sixteen_palette()
    ensures
        Seq::new(16, |i: int| hex_rgb(sixteen_codes()[i])) == seq![
            (0u8, 0u8, 0u8),
            (128u8, 0u8, 0u8),
            (0u8, 128u8, 0u8),
            (128u8, 128u8, 0u8),
            (0u8, 0u8, 128u8),
            (128u8, 0u8, 128u8),
            (0u8, 128u8, 128u8),
            (192u8, 192u8, 192u8),
            (128u8, 128u8, 128u8),
            (255u8, 0u8, 0u8),
            (0u8, 255u8, 0u8),
            (255u8, 255u8, 0u8),
            (0u8, 0u8, 255u8),
            (255u8, 0u8, 255u8),
            (0u8, 255u8, 255u8),
            (255u8, 255u8, 255u8),
        ],
        forall|i: int, j: int|
            0 <= i < j < 16 ==> #[trigger] hex_rgb(sixteen_codes()[i]) != #[trigger] hex_rgb(sixteen_codes()[j]),
{
    let colours = Seq::new(16, |i: int| hex_rgb(sixteen_codes()[i]));
    assert(colours =~= seq![
            (0u8, 0u8, 0u8),
            (128u8, 0u8, 0u8),
            (0u8, 128u8, 0u8),
            (128u8, 128u8, 0u8),
            (0u8, 0u8, 128u8),
            (128u8, 0u8, 128u8),
            (0u8, 128u8, 128u8),
            (192u8, 192u8, 192u8),
            (128u8, 128u8, 128u8),
            (255u8, 0u8, 0u8),
            (0u8, 255u8, 0u8),
            (255u8, 255u8, 0u8),
            (0u8, 0u8, 255u8),
            (255u8, 0u8, 255u8),
            (0u8, 255u8, 255u8),
            (255u8, 255u8, 255u8),
        ]);
    assert forall|i: int, j: int| 0 <= i < j < 16 implies #[trigger] hex_rgb(sixteen_codes()[i]) != #[trigger] hex_rgb(
        sixteen_codes()[j],
    ) by {
        assert(colours[i] == hex_rgb(sixteen_codes()[i]));
        assert(colours[j] == hex_rgb(sixteen_codes()[j]));
    }
}

/// The standard 16-colour terminal palette.
pub fn sixteen() -> (palette: Vec<Rgb>)
    ensures
        palette@.len() == 16,
        forall|i: int| 0 <= i < 16 ==> #[trigger] palette@[i] == hex_rgb(sixteen_codes()[i]),
        palette@ == seq![
            (0u8, 0u8, 0u8),
            (128u8, 0u8, 0u8),
            (0u8, 128u8, 0u8),
            (128u8, 128u8, 0u8),
            (0u8, 0u8, 128u8),
            (128u8, 0u8, 128u8),
            (0u8, 128u8, 128u8),
            (192u8, 192u8, 192u8),
            (128u8, 128u8, 128u8),
            (255u8, 0u8, 0u8),
            (0u8, 255u8, 0u8),
            (255u8, 255u8, 0u8),
            (0u8, 0u8, 255u8),
            (255u8, 0u8, 255u8),
            (0u8, 255u8, 255u8),
            (255u8, 255u8, 255u8),
        ],
        forall|i: int, j: int| 0 <= i < j < 16 ==> #[trigger] palette@[i] != #[trigger] palette@[j],
{
    let palette = vec![
        rgb_from_hex(0x000000),
        rgb_from_hex(0x800000),
        rgb_from_hex(0x008000),
        rgb_from_hex(0x808000),
        rgb_from_hex(0x000080),
        rgb_from_hex(0x800080),
        rgb_from_hex(0x008080),
        rgb_from_hex(0xc0c0c0),
        rgb_from_hex(0x808080),
        rgb_from_hex(0xff0000),
        rgb_from_hex(0x00ff00),
        rgb_from_hex(0xffff00),
        rgb_from_hex(0x0000ff),
        rgb_from_hex(0xff00ff),
        rgb_from_hex(0x00ffff),
        rgb_from_hex(0xffffff),
    ];
    proof {
        lemma_sixteen_palette();
        assert(palette@ =~= Seq::new(16, |i: int| hex_rgb(sixteen_codes()[i])));
    }
    palette
}

/// Colour `i` of the 6x6x6 cube: red, green and blue from the steps 0, 51,
/// ..., 255, red varying slowest.
pub open spec fn cube_colour(i: int) -> Rgb {
    ((51 * (i / 36)) as u8, (51 * (i / 6 % 6)) as u8, (51 * (i % 6)) as u8)
}

/// The 216 colours of the 6x6x6 RGB cube.
pub fn p_6x6x6_rgb_cube() -> (palette: Vec<Rgb>)
    ensures
        palette@.len() == 216,
        forall|i: int| 0 <= i < 216 ==> #[trigger] palette@[i] == cube_colour(i),
{
    let mut palette: Vec<Rgb> = Vec::new();
    let steps: [u8; 6] = [0, 51, 102, 153, 204, 255];
    let mut r: usize = 0;
    while r < 6
        invariant
            r <= 6,
            steps@ == seq![0u8, 51u8, 102u8, 153u8, 204u8, 255u8],
            palette@.len() == 36 * r,
            forall|i: int| 0 <= i < 36 * r ==> #[trigger] palette@[i] == cube_colour(i),
        decreases 6 - r,
    {
        let mut g: usize = 0;
        while g < 6
            invariant
                r < 6,
                g <= 6,
                steps@ == seq![0u8, 51u8, 102u8, 153u8, 204u8, 255u8],
                palette@.len() == 36 * r + 6 * g,
                forall|i: int| 0 <= i < 36 * r + 6 * g ==> #[trigger] palette@[i] == cube_colour(i),
            decreases 6 - g,
        {
            let mut b: usize = 0;
            while b < 6
                invariant
                    r < 6,
                    g < 6,
                    b <= 6,
                    steps@ == seq![0u8, 51u8, 102u8, 153u8, 204u8, 255u8],
                    palette@.len() == 36 * r + 6 * g + b,
                    forall|i: int| 0 <= i < 36 * r + 6 * g + b ==> #[trigger] palette@[i] == cube_colour(i),
                decreases 6 - b,
            {
                let ghost n = palette@.len() as int;
                assert(n / 36 == r && n / 6 % 6 == g && n % 6 == b);
                palette.push((steps[r], steps[g], steps[b]));
                b = b + 1;
            }
            g = g + 1;
        }
        r = r + 1;
    }
    palette
}

/// Colour `i` of the 4x4x4 cube: red, green and blue from the steps 0, 85,
/// 170, 255, red varying slowest.
pub open spec fn sixtyfour_colour(i: int) -> Rgb {
    ((85 * (i / 16)) as u8, (85 * (i / 4 % 4)) as u8, (85 * (i % 4)) as u8)
}

/// The 64 colours of the 4x4x4 RGB cube.
pub fn sixtyfour() -> (palette: Vec<Rgb>)
    ensures
        palette@.len() == 64,
        forall|i: int| 0 <= i < 64 ==> #[trigger] palette@[i] == sixtyfour_colour(i),
{
    let mut palette: Vec<Rgb> = Vec::new();
    let steps: [u8; 4] = [0, 85, 170, 255];
    let mut r: usize = 0;
    while r < 4
        invariant
            r <= 4,
            steps@ == seq![0u8, 85u8, 170u8, 255u8],
            palette@.len() == 16 * r,
            forall|i: int| 0 <= i < 16 * r ==> #[trigger] palette@[i] == sixtyfour_colour(i),
        decreases 4 - r,
    {
        let mut g: usize = 0;
        while g < 4
            invariant
                r < 4,
                g <= 4,
                steps@ == seq![0u8, 85u8, 170u8, 255u8],
                palette@.len() == 16 * r + 4 * g,
                forall|i: int| 0 <= i < 16 * r + 4 * g ==> #[trigger] palette@[i] == sixtyfour_colour(i),
            decreases 4 - g,
        {
            let mut b: usize = 0;
            while b < 4
                invariant
                    r < 4,
                    g < 4,
                    b <= 4,
                    steps@ == seq![0u8, 85u8, 170u8, 255u8],
                    palette@.len() == 16 * r + 4 * g + b,
                    forall|i: int| 0 <= i < 16 * r + 4 * g + b ==> #[trigger] palette@[i] == sixtyfour_colour(i),
                decreases 4 - b,
            {
                let ghost n = palette@.len() as int;
                assert(n / 16 == r && n / 4 % 4 == g && n % 4 == b);
                palette.push((steps[r], steps[g], steps[b]));
                b = b + 1;
            }
            g = g + 1;
        }
        r = r + 1;
    }
    palette
}

/// A palette of dark, medium and pure shades of the primary and secondary
/// colours, a few oranges and grays: it covers many colours and gives
/// washed-out pictures.
pub fn manyshades() -> (palette: Vec<Rgb>)
    ensures
        palette@ == seq![
            (0u8, 0u8, 0u8),
            (255u8, 255u8, 255u8),
            (64u8, 0u8, 0u8),
            (128u8, 0u8, 0u8),
            (255u8, 0u8, 0u8),
            (0u8, 64u8, 0u8),
            (0u8, 128u8, 0u8),
            (0u8, 255u8, 0u8),
            (0u8, 0u8, 64u8),
            (0u8, 0u8, 128u8),
            (0u8, 0u8, 255u8),
            (0u8, 64u8, 64u8),
            (0u8, 128u8, 128u8),
            (0u8, 255u8, 255u8),
            (64u8, 0u8, 64u8),
            (128u8, 0u8, 128u8),
            (255u8, 0u8, 255u8),
            (64u8, 64u8, 0u8),
            (128u8, 128u8, 0u8),
            (255u8, 255u8, 0u8),
            (255u8, 140u8, 0u8),
            (236u8, 172u8, 118u8),
            (255u8, 128u8, 0u8),
            (64u8, 64u8, 64u8),
            (128u8, 128u8, 128u8),
            (192u8, 192u8, 192u8),
        ],
{
    vec![
        // basic colours
        (0, 0, 0),  // pure black
        (255, 255, 255),  // pure white
        // primary axis
        (64, 0, 0),  // dark red
        (128, 0, 0),  // medium red
        (255, 0, 0),  // pure red
        (0, 64, 0),  // dark green
        (0, 128, 0),  // medium green
        (0, 255, 0),  // pure green
        (0, 0, 64),  // dark blue
        (0, 0, 128),  // medium blue
        (0, 0, 255),  // pure blue
        // secondary axis
        (0, 64, 64),  // dark cyan
        (0, 128, 128),  // medium cyan
        (0, 255, 255),  // pure cyan
        (64, 0, 64),  // dark magenta
        (128, 0, 128),  // medium magenta
        (255, 0, 255),  // pure magenta
        (64, 64, 0),  // dark yellow
        (128, 128, 0),  // medium yellow
        (255, 255, 0),  // pure yellow
        (255, 140, 0),  // dark orange
        (236, 172, 118),  // mid orange
        (255, 128, 0),  // pure orange
        // neutrals
        (64, 64, 64),  // dark gray
        (128, 128, 128),  // medium gray
        (192, 192, 192),  // light gray
    ]
}

/// A general-purpose palette of fourteen colours.
pub fn general() -> (palette: Vec<Rgb>)
    ensures
        palette@ == seq![
            (0u8, 0u8, 0u8),
            (255u8, 255u8, 255u8),
            (128u8, 0u8, 0u8),
            (255u8, 0u8, 0u8),
            (0u8, 128u8, 0u8),
            (0u8, 255u8, 0u8),
            (128u8, 192u8, 255u8),
            (0u8, 255u8, 0u8),
            (255u8, 128u8, 0u8),
            (0u8, 192u8, 192u8),
            (127u8, 0u8, 127u8),
            (127u8, 64u8, 0u8),
            (255u8, 0u8, 255u8),
            (255u8, 255u8, 0u8),
        ],
{
    vec![
        (0, 0, 0),  // black
        (255, 255, 255),  // white
        (128, 0, 0),  // red
        (255, 0, 0),  // red again
        (0, 128, 0),  // green
        (0, 255, 0),  // green again
        (128, 192, 255),  // blue but lighter
        (0, 255, 0),  // blue again
        (255, 128, 0),  // orange
        (0, 192, 192),  // teal
        (127, 0, 127),  // purple
        (127, 64, 0),  // brown
        (255, 0, 255),  // magenta
        (255, 255, 0),  // yellow
    ]
}

} // verus!
