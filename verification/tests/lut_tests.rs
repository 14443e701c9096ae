use absolute_cinema::sixelmp::SixelMultipass;
use absolute_cinema::sixelmps::SixelMultipassHQ;
use absolute_cinema::sixel::{closest_colour_index_rgb, determine_start_string, BEGIN_SIXEL_BW, BEGIN_SIXEL_COLOUR, END_SIXEL};
use absolute_cinema::video::{Frame, RgbPaletteLUT, LUT_RGB_SIZE};

fn frame(rows: usize, cols: usize, f: impl Fn(usize, usize) -> (u8, u8, u8)) -> Frame {
    let mut cells = Vec::new();
    for r in 0..rows {
        for c in 0..cols {
            cells.push(f(r, c));
        }
    }
    Frame::from_cells(rows, cols, cells).unwrap()
}

#[test]
fn generated_table_holds_the_nearest_colour() {
    let palette = vec![(0, 0, 0), (255, 255, 255), (255, 0, 0)];
    let lut = RgbPaletteLUT::generate(&palette);
    // the channels are read most significant last
    assert_eq!(lut.get_bgr(&[0, 0, 250]), 2);
    assert_eq!(lut.get_bgr(&[250, 0, 0]), 1);
    assert_eq!(lut.get_bgr(&[250, 250, 250]), 1);
    assert_eq!(lut.get_bgr(&[10, 10, 10]), 0);
    for c in [[1u8, 2, 3], [200, 100, 50], [17, 240, 9]] {
        let expected = closest_colour_index_rgb((c[2], c[1], c[0]), &palette).unwrap() as u8;
        assert_eq!(lut.get_bgr(&c), expected);
    }
}

#[test]
fn tables_must_cover_every_colour() {
    assert!(RgbPaletteLUT::from_table(vec![0; 10]).is_none());
    let table: Vec<u8> = (0..LUT_RGB_SIZE).map(|i| (i % 7) as u8).collect();
    let lut = RgbPaletteLUT::from_table(table).unwrap();
    assert_eq!(lut.get_bgr(&[3, 0, 0]), 3);
    assert_eq!(lut.get_bgr(&[0, 1, 0]), (256 % 7) as u8);
    assert_eq!(lut.get_bgr(&[0, 0, 1]), (65536 % 7) as u8);
}

#[test]
fn multipass_draws_one_image_per_colour() {
    let colours = vec![(0, 0, 0), (255, 255, 255)];
    // pixels are (blue, green, red); they are matched in that order
    let f = frame(2, 2, |r, c| if r == c { (250, 250, 250) } else { (5, 5, 5) });
    let renderer = SixelMultipass::new(colours.clone());
    let start = determine_start_string(&colours);
    let expected = format!(
        "#0{b}{s}A@-{e}#1{b}{s}@A-{e}",
        b = BEGIN_SIXEL_BW,
        s = start,
        e = END_SIXEL
    );
    assert_eq!(renderer.draw(&f), expected);
    assert_eq!(SixelMultipass::new(Vec::new()).draw(&f), "");
}

#[test]
fn multipass_hq_uses_the_lookup_table() {
    let colours = vec![(0, 0, 0), (255, 255, 255), (9, 9, 9)];
    // entry = low byte of the colour value modulo 3
    let table: Vec<u8> = (0..LUT_RGB_SIZE).map(|i| (i % 3) as u8).collect();
    let lut = RgbPaletteLUT::from_table(table).unwrap();
    let renderer = SixelMultipassHQ::new(colours.clone(), lut);
    // (blue, green, red) = (0, 0, k): entry index = 65536 * 0 + 256 * 0 + k
    let f = frame(7, 2, |r, c| (0, 0, (r * 2 + c) as u8));
    let v = renderer.index_grid(&f);
    assert_eq!(v.len(), 2);
    assert_eq!(v[1][3], 7 % 3);
    let start = determine_start_string(&colours);
    let mut expected = String::new();
    for colour in 0..3u8 {
        expected.push_str(&format!("\x1B[H{}{}#{}", BEGIN_SIXEL_COLOUR, start, colour));
        for y_start in [0usize, 6] {
            for x in 0..2 {
                let mut bits = 0u8;
                for dy in 0..6 {
                    let y = y_start + dy;
                    if y < 7 && ((y * 2 + x) % 3) as u8 == colour {
                        bits |= 1 << dy;
                    }
                }
                expected.push((bits + 63) as char);
            }
            expected.push('-');
        }
        expected.push_str(END_SIXEL);
    }
    assert_eq!(renderer.draw(&f), expected);
    assert_eq!(renderer.do_sixel_pass(2, 7, 1, &v), expected[expected.len() / 3..2 * expected.len() / 3]);
}
