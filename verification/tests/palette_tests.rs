use absolute_cinema::palette::{general, manyshades, p_6x6x6_rgb_cube, rgb_from_hex, sixteen, sixteen_dated, sixtyfour};

#[test]
fn hex_codes_become_colours() {
    assert_eq!(rgb_from_hex(0x123456), (0x12, 0x34, 0x56));
    assert_eq!(rgb_from_hex(0xffffff), (255, 255, 255));
    assert_eq!(rgb_from_hex(0xab000000), (0, 0, 0));
}

#[test]
fn sixteen_colour_palettes() {
    let p = sixteen();
    assert_eq!(p.len(), 16);
    assert_eq!(p[0], (0, 0, 0));
    assert_eq!(p[1], (128, 0, 0));
    assert_eq!(p[7], (192, 192, 192));
    assert_eq!(p[12], (0, 0, 255));
    assert_eq!(p[15], (255, 255, 255));
    let d = sixteen_dated();
    assert_eq!(d.len(), 16);
    assert_eq!(d[0], (0, 0, 0));
    assert_eq!(d[13], (128, 128, 128));
    assert_eq!(d[15], (255, 255, 255));
    assert!(!d.contains(&(64, 64, 64)));
}

#[test]
fn colour_cubes() {
    let cube = p_6x6x6_rgb_cube();
    assert_eq!(cube.len(), 216);
    assert_eq!(cube[0], (0, 0, 0));
    assert_eq!(cube[1], (0, 0, 51));
    assert_eq!(cube[6], (0, 51, 0));
    assert_eq!(cube[36], (51, 0, 0));
    assert_eq!(cube[215], (255, 255, 255));
    let small = sixtyfour();
    assert_eq!(small.len(), 64);
    assert_eq!(small[1], (0, 0, 85));
    assert_eq!(small[4], (0, 85, 0));
    assert_eq!(small[16], (85, 0, 0));
    assert_eq!(small[63], (255, 255, 255));
}

#[test]
fn listed_palettes() {
    assert_eq!(manyshades().len(), 26);
    assert_eq!(manyshades()[21], (236, 172, 118));
    assert_eq!(general().len(), 14);
    assert_eq!(general()[6], (128, 192, 255));
}
