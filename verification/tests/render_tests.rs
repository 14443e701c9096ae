use absolute_cinema::braille::find_codepoint;
use absolute_cinema::braillebw::Braillebw;
use absolute_cinema::braillergb::BrailleRGB;
use absolute_cinema::hires::HighRes;
use absolute_cinema::lowres::LowRes;
use absolute_cinema::sixel::{closest_colour_index_rgb, BEGIN_SIXEL_BW, END_SIXEL};
use absolute_cinema::sixelbw::{render_output, SixelMono};
use absolute_cinema::sixelbw2::{calc_avg_brightness, can_average, SixelMono2};
use absolute_cinema::sixelrgb::SixelColour;
use absolute_cinema::the_numbers::GodDamnItItsTheNumbers;
use absolute_cinema::video::{get_px, Frame, Luma};
use regex::Regex;

fn frame(rows: usize, cols: usize, f: impl Fn(usize, usize) -> (u8, u8, u8)) -> Frame {
    let mut cells = Vec::new();
    for r in 0..rows {
        for c in 0..cols {
            cells.push(f(r, c));
        }
    }
    Frame::from_cells(rows, cols, cells).unwrap()
}

fn luma(rows: usize, cols: usize, f: impl Fn(usize, usize) -> u8) -> Luma {
    let mut cells = Vec::new();
    for r in 0..rows {
        for c in 0..cols {
            cells.push(f(r, c));
        }
    }
    Luma::from_cells(rows, cols, cells).unwrap()
}

fn noise(r: usize, c: usize, k: usize) -> u8 {
    ((r * 37 + c * 101 + k * 53 + r * c * 7) % 256) as u8
}

fn test_frame(rows: usize, cols: usize) -> Frame {
    frame(rows, cols, |r, c| (noise(r, c, 1), noise(r, c, 2), noise(r, c, 3)))
}

fn test_luma(rows: usize, cols: usize) -> Luma {
    luma(rows, cols, |r, c| noise(r, c, 4))
}

#[test]
fn tests_test_render_frame() {
    const ROWS: usize = 3;
    const COLS: usize = 3;
    const CHAR: char = '▀';
    let frame: Frame = frame(ROWS, COLS, |_, _| (0, 0, 0));

    let text: String = HighRes { ch: CHAR }.draw(&frame);
    let re = Regex::new(r"\x1B\[48;2;(\d+);(\d+);(\d+)m\x1B\[38;2;(\d+);(\d+);(\d+)m(.)")
        .expect("regex fialed to build");

    let mut seen = 0;
    for caps in re.captures_iter(&text) {
        let bg = (
            caps[1].parse::<u8>().unwrap(),
            caps[2].parse::<u8>().unwrap(),
            caps[3].parse::<u8>().unwrap(),
        );
        let fg = (
            caps[4].parse::<u8>().unwrap(),
            caps[5].parse::<u8>().unwrap(),
            caps[6].parse::<u8>().unwrap(),
        );
        let ch = caps[7].chars().next().unwrap();
        assert_eq!(bg, (0, 0, 0));
        assert_eq!(fg, (0, 0, 0));
        assert_eq!(ch, CHAR);
        seen += 1;
    }
    assert_eq!(seen, 3);
}

#[test]
fn lowres_tests_test_render_frame() {
    const ROWS: usize = 3;
    const COLS: usize = 3;
    let frame: Frame = frame(ROWS, COLS, |_, _| (0, 0, 0));

    let text: String = LowRes { ch: ' ' }.draw(&frame);
    let re = Regex::new(r"\x1B\[48;2;(\d+);(\d+);(\d+)m ").expect("regex fialed to build");

    let mut seen = 0;
    for caps in re.captures_iter(&text) {
        let bg = (
            caps[1].parse::<u8>().unwrap(),
            caps[2].parse::<u8>().unwrap(),
            caps[3].parse::<u8>().unwrap(),
        );
        assert_eq!(bg, (0, 0, 0));
        seen += 1;
    }
    assert_eq!(seen, 9);
}

#[test]
fn lowres_writes_red_green_blue_and_no_final_newline() {
    let f = frame(2, 2, |r, c| {
        let k = (r * 2 + c) as u8 * 3;
        (k + 1, k + 2, k + 3)
    });
    assert_eq!(
        LowRes { ch: ' ' }.draw(&f),
        "\x1B[48;2;3;2;1m \x1B[48;2;6;5;4m \n\x1B[48;2;9;8;7m \x1B[48;2;12;11;10m "
    );
    assert_eq!(LowRes { ch: ' ' }.draw(&frame(0, 0, |_, _| (0, 0, 0))), "");
    assert_eq!(LowRes { ch: ' ' }.draw(&frame(3, 0, |_, _| (0, 0, 0))), "\n\n");
}

#[test]
fn hires_pairs_rows_and_drops_an_odd_last_row() {
    let f = frame(3, 1, |r, _| {
        let k = r as u8 * 3;
        (k + 1, k + 2, k + 3)
    });
    assert_eq!(HighRes { ch: '▄' }.draw(&f), "\x1B[48;2;6;5;4m\x1B[38;2;3;2;1m▄");
    assert_eq!(HighRes { ch: '▀' }.draw(&frame(1, 4, |_, _| (9, 9, 9))), "");
}

/// The renderer as the original program wrote it, for comparison.
fn reference_braille(luma: &Luma, threshold: u8) -> String {
    let mut output = String::new();
    let rows = luma.rows;
    let cols = luma.cols;
    for row_start in (0..rows).step_by(2) {
        for col_start in (0..cols).step_by(4) {
            let mut pixels = [false; 8];
            for dx in 0..4 {
                for dy in 0..2 {
                    let y = row_start + dy;
                    let x = col_start + dx;
                    let b = if y < rows && x < cols { luma.cells[y * cols + x] } else { 0 };
                    pixels[dy * 2 + dx] = b > threshold;
                }
            }
            let mut bits = 0u8;
            for (idx, on) in pixels.iter().enumerate() {
                if *on {
                    bits |= 1 << idx;
                }
            }
            output.push(char::from_u32(0x2800 + bits as u32).unwrap());
        }
        output.push('\n');
    }
    output
}

#[test]
fn braillebw_matches_reference() {
    for (rows, cols) in [(0, 0), (1, 1), (2, 4), (3, 5), (7, 9), (8, 16)] {
        let l = test_luma(rows, cols);
        for t in [0u8, 100, 127, 200] {
            assert_eq!(Braillebw { threshold: t }.draw(&l), reference_braille(&l, t));
        }
    }
}

#[test]
fn braillebw_cell_uses_the_second_row_only_in_its_last_two_columns() {
    let l = luma(2, 4, |r, c| if (r, c) == (0, 0) || (r, c) == (0, 2) || r == 1 && c >= 2 { 200 } else { 0 });
    assert_eq!(Braillebw { threshold: 127 }.draw(&l), "\u{2835}\n");
    let l = luma(2, 4, |r, c| if r == 1 && c < 2 { 255 } else { 0 });
    assert_eq!(Braillebw { threshold: 127 }.draw(&l), "\u{2800}\n");
}

#[test]
fn braille_codepoints() {
    assert_eq!(find_codepoint([false; 8]), '\u{2800}');
    assert_eq!(find_codepoint([true; 8]), '\u{28FF}');
    assert_eq!(find_codepoint([false, true, false, false, false, false, false, true]), '\u{2882}');
}

fn reference_braillergb(frame: &Frame, luma: &Luma, threshold: u8) -> String {
    let rows = frame.rows;
    let cols = frame.cols;
    let mut output = String::new();
    for row_start in (0..rows).step_by(2) {
        for col_start in (0..cols).step_by(4) {
            let mut fg = [0u32; 3];
            let mut nf = 1u32;
            let mut bg = [0u32; 3];
            let mut nb = 1u32;
            let mut pixels = [false; 8];
            for dx in 0..4 {
                for dy in 0..2 {
                    let y = row_start + dy;
                    let x = col_start + dx;
                    let (p, b) = if y < rows && x < cols {
                        (frame.cells[y * cols + x], luma.cells[y * cols + x])
                    } else {
                        ((0, 0, 0), 0)
                    };
                    let on = b > threshold;
                    pixels[dy * 2 + dx] = on;
                    let a = if on { &mut fg } else { &mut bg };
                    a[0] += p.0 as u32;
                    a[1] += p.1 as u32;
                    a[2] += p.2 as u32;
                    if on {
                        nf += 1;
                    } else {
                        nb += 1;
                    }
                }
            }
            let mut bits = 0u8;
            for (idx, on) in pixels.iter().enumerate() {
                if *on {
                    bits |= 1 << idx;
                }
            }
            let ch = char::from_u32(0x2800 + bits as u32).unwrap();
            output.push_str(&format!(
                "\x1B[48;2;{};{};{}m\x1B[38;2;{};{};{}m{}",
                bg[0] / nb,
                bg[1] / nb,
                bg[2] / nb,
                fg[0] / nf,
                fg[1] / nf,
                fg[2] / nf,
                ch
            ));
        }
        output.push('\n');
    }
    output
}

#[test]
fn braillergb_matches_reference() {
    for (rows, cols) in [(0, 0), (1, 1), (2, 4), (3, 5), (6, 9)] {
        let f = test_frame(rows, cols);
        let l = test_luma(rows, cols);
        for t in [0u8, 127, 255] {
            assert_eq!(BrailleRGB { threshold: t }.draw(&f, &l), reference_braillergb(&f, &l, t));
        }
    }
}

#[test]
fn braillergb_single_cell() {
    // one bright pixel of colour (9, 18, 27): foreground is its sum over 2,
    // background is black over 8
    let f = frame(1, 1, |_, _| (9, 18, 27));
    let l = luma(1, 1, |_, _| 255);
    assert_eq!(
        BrailleRGB { threshold: 0 }.draw(&f, &l),
        "\x1B[48;2;0;0;0m\x1B[38;2;4;9;13m\u{2801}\n"
    );
}

#[test]
fn numbers_grade_brightness() {
    let l = luma(2, 5, |r, c| [255u8, 216, 150, 40, 0, 231, 128, 79, 16, 15][r * 5 + c]);
    assert_eq!(GodDamnItItsTheNumbers.draw(&l), "12480\n25790\n");
}

fn reference_sixel_bands(luma: &Luma, threshold: u8) -> Vec<String> {
    let mut chunks = Vec::new();
    for y_start in (0..luma.rows).step_by(6) {
        let mut chunk = String::new();
        for x in 0..luma.cols {
            let mut bits = 0u8;
            for i in 0..6 {
                let y = y_start + i;
                if y < luma.rows && luma.cells[y * luma.cols + x] > threshold {
                    bits |= 1 << i;
                }
            }
            chunk.push((bits + 63) as char);
        }
        chunks.push(chunk);
    }
    chunks
}

#[test]
fn sixel_mono_matches_reference() {
    for (rows, cols) in [(0, 0), (1, 3), (6, 2), (7, 4), (13, 5)] {
        let l = test_luma(rows, cols);
        for t in [0u8, 127, 250] {
            let mut expected = String::from(BEGIN_SIXEL_BW);
            for chunk in reference_sixel_bands(&l, t) {
                expected.push_str(&chunk);
                expected.push('-');
            }
            expected.push_str(END_SIXEL);
            assert_eq!(SixelMono { threshold: t }.draw(&l), expected);
        }
    }
}

#[test]
fn standalone_sixel_output() {
    let l = luma(2, 2, |r, c| if r == c { 255 } else { 0 });
    let col = "#1;2;100;100;100#1";
    assert_eq!(
        render_output(&l, 127),
        format!("\x1b[H\x1bPq{}@{}A-\x1b\\", col, col)
    );
}

#[test]
fn average_brightness() {
    let l = luma(2, 3, |r, c| (r * 3 + c) as u8 * 10);
    // 0 + 10 + 20 + 30 + 40 + 50 = 150 over 6 pixels
    assert_eq!(calc_avg_brightness(&l, 3, 2, 0), 25);
    assert_eq!(calc_avg_brightness(&l, 3, 2, -30), -5);
    // the top-left two by one pixels: 0 and 10
    assert_eq!(calc_avg_brightness(&l, 2, 1, 1), 6);
}

#[test]
fn sixel_mono2_thresholds_at_the_mean() {
    for (rows, cols) in [(1, 1), (6, 2), (7, 4), (13, 5)] {
        let l = test_luma(rows, cols);
        for adjust in [-128i8, -10, 0, 10, 127] {
            let avg = calc_avg_brightness(&l, cols, rows, adjust);
            let t = avg as u8;
            let expected = format!("{}{}{}", BEGIN_SIXEL_BW, reference_sixel_bands(&l, t).join("-"), END_SIXEL);
            assert_eq!(SixelMono2 { adjust }.draw(&l), expected);
        }
    }
}

#[test]
fn sixel_mono2_pieces_assemble_to_the_image() {
    let l = test_luma(13, 4);
    let t = 100;
    let chunks: Vec<String> = (0..13).step_by(6).map(|y| SixelMono2::chunk(&l, y, t)).collect();
    assert_eq!(
        SixelMono2::assemble(&chunks),
        format!("{}{}{}", BEGIN_SIXEL_BW, reference_sixel_bands(&l, t).join("-"), END_SIXEL)
    );
}

#[test]
fn sixel_colour_matches_reference() {
    let colours = vec![(0, 0, 0), (255, 0, 0), (0, 255, 0), (0, 0, 255), (255, 255, 255)];
    for (rows, cols) in [(1, 1), (6, 2), (7, 3)] {
        let f = test_frame(rows, cols);
        let l = test_luma(rows, cols);
        let renderer = SixelColour::new(colours.clone(), 5);
        let t = calc_avg_brightness(&l, cols, rows, 5) as u8;
        let mut expected = String::from(BEGIN_SIXEL_BW);
        expected.push_str(&absolute_cinema::sixel::determine_start_string(&colours));
        for y_start in (0..rows).step_by(6) {
            for x in 0..cols {
                let mut sum = (0i32, 0i32, 0i32);
                let mut bits = 0u8;
                for i in 0..6 {
                    let y = y_start + i;
                    if y < rows {
                        let p = f.cells[y * cols + x];
                        if l.cells[y * cols + x] > t {
                            bits |= 1 << i;
                            sum.0 += p.0 as i32;
                            sum.1 += p.1 as i32;
                            sum.2 += p.2 as i32;
                        }
                    }
                }
                let target = ((sum.0 / 6) as u8, (sum.1 / 6) as u8, (sum.2 / 6) as u8);
                let idx = closest_colour_index_rgb(target, &colours).unwrap();
                expected.push_str(&format!("#{}", idx));
                expected.push((bits + 63) as char);
            }
            expected.push('-');
        }
        expected.push_str(END_SIXEL);
        assert_eq!(renderer.draw(&f, &l), expected);
    }
}

#[test]
fn get_px_gives_red_green_blue() {
    let f = frame(2, 3, |r, c| (r as u8, c as u8, 7));
    assert_eq!(get_px(&f, 2, 1), (7, 2, 1));
}

#[test]
fn averaging_needs_pixels_and_room() {
    assert!(can_average(&test_luma(3, 3)));
    assert!(!can_average(&test_luma(0, 3)));
    assert!(!can_average(&test_luma(3, 0)));
}
