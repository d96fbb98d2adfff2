use stunts_native::color::{hex_to_rgb, parse_hex_color, theme_color, theme_rgb, theme_rgba8, Rgba8};

#[test]
fn hex_to_rgb_reads_channels() {
    assert_eq!(hex_to_rgb("#FF0000"), [255, 0, 0, 255]);
    assert_eq!(hex_to_rgb("#1e88e5"), [30, 136, 229, 255]);
}

#[test]
fn hex_to_rgb_skips_every_leading_hash() {
    assert_eq!(hex_to_rgb("##ff8000"), [255, 128, 0, 255]);
    assert_eq!(hex_to_rgb("ff8000"), [255, 128, 0, 255]);
}

#[test]
fn hex_to_rgb_falls_back_to_grey_on_wrong_length() {
    assert_eq!(hex_to_rgb("#12"), [128, 128, 128, 255]);
    assert_eq!(hex_to_rgb(""), [128, 128, 128, 255]);
    assert_eq!(hex_to_rgb("#1234567"), [128, 128, 128, 255]);
}

#[test]
fn hex_to_rgb_zero_for_unparsable_pair() {
    assert_eq!(hex_to_rgb("#GG00ZZ"), [0, 0, 0, 255]);
}

#[test]
fn signs_are_read_like_from_str_radix() {
    assert_eq!(hex_to_rgb("#-10000"), [-1, 0, 0, 255]);
    assert_eq!(hex_to_rgb("#+f+e+d"), [15, 14, 13, 255]);
    let c = parse_hex_color("#-1+f00");
    assert_eq!(c, Rgba8 { r: 0, g: 15, b: 0, a: 255 });
}

#[test]
fn multibyte_text_on_boundaries() {
    // "é" is two bytes, so the pieces fall on character boundaries.
    assert_eq!(hex_to_rgb("#é1234"), [0, 18, 52, 255]);
}

#[test]
fn parse_hex_color_reads_channels() {
    assert_eq!(parse_hex_color("#FFE4E1"), Rgba8 { r: 255, g: 228, b: 225, a: 255 });
    assert_eq!(parse_hex_color("nope"), Rgba8 { r: 128, g: 128, b: 128, a: 255 });
}

#[test]
fn palette_entries() {
    assert_eq!(theme_color(0, 0), "#FFE4E1");
    assert_eq!(theme_color(4, 2), "#1E88E5");
    assert_eq!(theme_color(9, 4), "#212121");
    assert_eq!(theme_rgb(4, 2), [0x1E, 0x88, 0xE5, 255]);
    assert_eq!(theme_rgba8(3, 4), Rgba8 { r: 0x0A, g: 0x3D, b: 0x0A, a: 255 });
}

#[test]
fn palette_readers_agree_everywhere() {
    for row in 0..10 {
        for column in 0..5 {
            let a = theme_rgb(row, column);
            let b = theme_rgba8(row, column);
            assert_eq!(a, [b.r as i32, b.g as i32, b.b as i32, b.a as i32]);
            assert_eq!(a, hex_to_rgb(theme_color(row, column)));
        }
    }
}
