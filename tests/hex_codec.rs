use ciede2000::{hex_to_rgb, rgb_to_hex, HexError};

fn doubled(v: u8) -> bool {
    v / 16 == v % 16
}

#[test]
fn short_form_blue_parses() {
    assert_eq!(hex_to_rgb("#00f"), Ok((0, 0, 255)));
}

#[test]
fn long_form_slate_blue_parses() {
    assert_eq!(hex_to_rgb("#483D8B"), Ok((72, 61, 139)));
}

#[test]
fn lower_case_digits_parse() {
    assert_eq!(hex_to_rgb("#483d8b"), Ok((72, 61, 139)));
    assert_eq!(hex_to_rgb("#aBc"), Ok((0xAA, 0xBB, 0xCC)));
}

#[test]
fn short_form_doubles_each_digit() {
    assert_eq!(hex_to_rgb("#FFF"), Ok((255, 255, 255)));
    assert_eq!(hex_to_rgb("#123"), Ok((0x11, 0x22, 0x33)));
}

#[test]
fn black_and_white_long_form() {
    assert_eq!(hex_to_rgb("#000000"), Ok((0, 0, 0)));
    assert_eq!(hex_to_rgb("#FFFFFF"), Ok((255, 255, 255)));
}

#[test]
fn wrong_length_is_rejected() {
    assert_eq!(hex_to_rgb(""), Err(HexError::BadLength));
    assert_eq!(hex_to_rgb("#"), Err(HexError::BadLength));
    assert_eq!(hex_to_rgb("#12"), Err(HexError::BadLength));
    assert_eq!(hex_to_rgb("#12345"), Err(HexError::BadLength));
    assert_eq!(hex_to_rgb("#12345678"), Err(HexError::BadLength));
}

#[test]
fn missing_hash_is_rejected() {
    assert_eq!(hex_to_rgb("1234567"), Err(HexError::MissingHash));
    assert_eq!(hex_to_rgb("F00F"), Err(HexError::MissingHash));
}

#[test]
fn non_hex_digit_is_rejected() {
    assert_eq!(hex_to_rgb("#12g"), Err(HexError::BadDigit));
    assert_eq!(hex_to_rgb("#12345G"), Err(HexError::BadDigit));
    assert_eq!(hex_to_rgb("#+12345"), Err(HexError::BadDigit));
    assert_eq!(hex_to_rgb("# 12345"), Err(HexError::BadDigit));
}

#[test]
fn non_ascii_characters_are_rejected() {
    assert_eq!(hex_to_rgb("#ééé"), Err(HexError::BadDigit));
    assert_eq!(hex_to_rgb("#é"), Err(HexError::BadLength));
}

#[test]
fn doubled_nibbles_give_short_form() {
    assert_eq!(rgb_to_hex(0xAA, 0x33, 0xFF), "#A3F");
    assert_eq!(rgb_to_hex(0, 0, 255), "#00F");
    assert_eq!(rgb_to_hex(255, 255, 255), "#FFF");
}

#[test]
fn other_bytes_give_long_upper_case_form() {
    assert_eq!(rgb_to_hex(72, 61, 139), "#483D8B");
    assert_eq!(rgb_to_hex(0xAA, 0x33, 0xFE), "#AA33FE");
    assert_eq!(rgb_to_hex(1, 2, 3), "#010203");
    assert_eq!(rgb_to_hex(0xAB, 0xCD, 0xEF), "#ABCDEF");
}

#[test]
fn round_trip_every_byte_in_each_channel() {
    for v in 0..=255u8 {
        for w in [0u8, 0x11, 0x7F, 0xFF] {
            for (r, g, b) in [(v, w, w), (w, v, w), (w, w, v)] {
                let s = rgb_to_hex(r, g, b);
                assert_eq!(hex_to_rgb(&s), Ok((r, g, b)));
                let short = doubled(r) && doubled(g) && doubled(b);
                assert_eq!(s.len(), if short { 4 } else { 7 });
            }
        }
    }
}

#[test]
fn round_trip_on_a_grid() {
    for r in (0..=255u8).step_by(3) {
        for g in (0..=255u8).step_by(5) {
            for b in (0..=255u8).step_by(7) {
                let s = rgb_to_hex(r, g, b);
                assert_eq!(hex_to_rgb(&s), Ok((r, g, b)));
                let short = doubled(r) && doubled(g) && doubled(b);
                assert_eq!(s.len() == 4, short);
            }
        }
    }
}

#[test]
fn every_short_form_round_trips() {
    for r in 0..16u8 {
        for g in 0..16u8 {
            for b in 0..16u8 {
                let s = rgb_to_hex(r * 17, g * 17, b * 17);
                assert_eq!(s.len(), 4);
                assert_eq!(hex_to_rgb(&s), Ok((r * 17, g * 17, b * 17)));
            }
        }
    }
}
