use absolute_cinema::sixel::{
    calculate_sixel_cols, closest_colour_index_rgb, closest_colour_index_rgb_real,
    determine_start_string, determine_start_string_with_offset, draw_sixel_colour,
    rgb_to_sixel_percent, write_u8_to_str_noalloc, write_usize_noalloc, BEGIN_SIXEL_BW,
    BEGIN_SIXEL_COLOUR, END_SIXEL,
};

#[test]
fn test_rgb_to_sixel_percent() {
    let a: u8 = rgb_to_sixel_percent(0);
    let b: u8 = rgb_to_sixel_percent(127);
    let c: u8 = rgb_to_sixel_percent(255);
    assert!(a == 0);
    assert!(b == 50);
    assert!(c == 100);
}

#[test]
fn test_calculate_sixel_cols() {
    let sixel: char = calculate_sixel_cols([true, false, true, false, true, false]);
    assert!(sixel == 'T');

    let sixel: char = calculate_sixel_cols([false, true, false, true, false, true]);
    assert!(sixel == 'i');
}

#[test]
fn test_draw_sixel_colour() {
    let scenarios = [
        ((255, 255, 255), 1, "#1;2;100;100;100#1"),
        ((0, 0, 0), 1, "#1;2;0;0;0#1"),
        ((127, 127, 127), 69, "#69;2;50;50;50#69"),
        ((0, 0, 0), 69, "#69;2;0;0;0#69"),
        ((255, 255, 255), 0, "#0;2;100;100;100#0"),
        ((127, 127, 127), 0, "#0;2;50;50;50#0"),
    ];
    for scenario in scenarios {
        let output: String = draw_sixel_colour(scenario.0, scenario.1);
        assert!(output == scenario.2);
    }
}

#[test]
fn percent_matches_float_rounding_for_every_channel_value() {
    for c in 0..=255u8 {
        let expected = ((c as f32 / 255.0) * 100.0).round() as u8;
        assert_eq!(rgb_to_sixel_percent(c), expected, "channel {}", c);
    }
}

#[test]
fn draw_sixel_colour_reverses_the_channels() {
    // (blue, green, red) = (0, 127, 255) is defined as red 100, green 50, blue 0
    assert_eq!(draw_sixel_colour((0, 127, 255), 7), "#7;2;100;50;0#7");
}

#[test]
fn sixel_characters_span_question_mark_to_tilde() {
    assert_eq!(calculate_sixel_cols([false; 6]), '?');
    assert_eq!(calculate_sixel_cols([true; 6]), '~');
    assert_eq!(calculate_sixel_cols([true, false, false, false, false, false]), '@');
    assert_eq!(calculate_sixel_cols([false, false, false, false, false, true]), '_');
}

#[test]
fn sixel_characters_decode_to_their_pixels() {
    for bits in 0..64u32 {
        let pixels = [
            bits & 1 != 0,
            bits & 2 != 0,
            bits & 4 != 0,
            bits & 8 != 0,
            bits & 16 != 0,
            bits & 32 != 0,
        ];
        let c = calculate_sixel_cols(pixels) as u32;
        assert_eq!(c - 63, bits);
    }
}

#[test]
fn u8_is_written_in_decimal() {
    for x in 0..=255u8 {
        let mut s = String::from("x=");
        write_u8_to_str_noalloc(x, &mut s);
        assert_eq!(s, format!("x={}", x));
    }
}

#[test]
fn usize_is_written_in_decimal() {
    for x in [0usize, 7, 10, 99, 100, 12345, 4294967295, usize::MAX] {
        let mut s = String::new();
        write_usize_noalloc(x, &mut s);
        assert_eq!(s, x.to_string());
    }
}

#[test]
fn start_string_defines_one_register_per_colour() {
    let colours = vec![(255, 0, 0), (0, 0, 255)];
    assert_eq!(determine_start_string(&colours), "#0;2;0;0;100#1;2;100;0;0");
    assert_eq!(
        determine_start_string_with_offset(&colours, 10),
        "#10;2;0;0;100#11;2;100;0;0"
    );
    assert_eq!(determine_start_string(&Vec::new()), "");
}

#[test]
fn closest_colour_prefers_the_first_of_equal_distances() {
    let colours = [(0, 0, 0), (10, 10, 10), (20, 20, 20), (10, 10, 10)];
    assert_eq!(closest_colour_index_rgb((9, 9, 9), &colours), Some(1));
    assert_eq!(closest_colour_index_rgb_real((15, 15, 15), &colours), Some(1));
    assert_eq!(closest_colour_index_rgb((250, 250, 250), &colours), Some(2));
    assert_eq!(closest_colour_index_rgb((1, 2, 3), &[]), None);
    assert_eq!(closest_colour_index_rgb_real((1, 2, 3), &[]), None);
}

#[test]
fn perceptual_and_plain_distances_can_disagree() {
    // plain: both at squared distance 100; perceptual weighs the third channel most
    let colours = [(0, 0, 10), (10, 0, 0)];
    assert_eq!(closest_colour_index_rgb_real((0, 0, 0), &colours), Some(0));
    assert_eq!(closest_colour_index_rgb((0, 0, 0), &colours), Some(1));
}

#[test]
fn an_exact_palette_colour_is_found() {
    let colours = [(1, 2, 3), (4, 5, 6), (7, 8, 9), (4, 5, 6)];
    assert_eq!(closest_colour_index_rgb((4, 5, 6), &colours), Some(1));
    assert_eq!(closest_colour_index_rgb_real((7, 8, 9), &colours), Some(2));
}

#[test]
fn sixel_control_strings() {
    assert_eq!(BEGIN_SIXEL_BW, "\x1b[H\x1bPq#1;2;100;100;100#1");
    assert_eq!(BEGIN_SIXEL_COLOUR, "\x1bP1;0q");
    assert_eq!(END_SIXEL, "\x1b\\");
}
