use crosshair::color::{color_text_splittable, parse_hex_color, DEFAULT_COLOR, NEAR_BLACK};

#[test]
fn cyan_is_parsed_into_bgr_layout() {
    assert_eq!(parse_hex_color("#00ffff"), 0x00FF_FF00);
}

#[test]
fn red_lands_in_the_low_byte() {
    assert_eq!(parse_hex_color("#ff0000"), 0x0000_00FF);
    assert_eq!(parse_hex_color("#0000ff"), 0x00FF_0000);
}

#[test]
fn channels_are_packed_as_bbggrr() {
    assert_eq!(parse_hex_color("#123456"), 0x0056_3412);
}

#[test]
fn upper_case_digits_are_accepted() {
    assert_eq!(parse_hex_color("#FFffFF"), 0x00FF_FFFF);
    assert_eq!(parse_hex_color("#AbCdEf"), 0x00EF_CDAB);
}

#[test]
fn hash_is_optional_and_may_repeat() {
    assert_eq!(parse_hex_color("ff8800"), 0x0000_88FF);
    assert_eq!(parse_hex_color("##ff8800"), 0x0000_88FF);
}

#[test]
fn pure_black_becomes_near_black() {
    assert_eq!(parse_hex_color("#000000"), NEAR_BLACK);
    assert_eq!(NEAR_BLACK, 0x0001_0101);
}

#[test]
fn wrong_length_gives_cyan() {
    assert_eq!(parse_hex_color("#12345"), DEFAULT_COLOR);
    assert_eq!(parse_hex_color("#1234567"), DEFAULT_COLOR);
    assert_eq!(parse_hex_color(""), DEFAULT_COLOR);
    assert_eq!(parse_hex_color("###"), DEFAULT_COLOR);
}

#[test]
fn bad_fields_take_their_fallbacks() {
    // red falls back to 0, green and blue to 255
    assert_eq!(parse_hex_color("#zz1020"), 0x0020_1000);
    assert_eq!(parse_hex_color("#10zz20"), 0x0020_FF10);
    assert_eq!(parse_hex_color("#1020zz"), 0x00FF_2010);
    // a failed red with zero green and blue is black, hence near black
    assert_eq!(parse_hex_color("#gg0000"), NEAR_BLACK);
}

#[test]
fn sign_prefixed_fields_follow_radix_parsing() {
    assert_eq!(parse_hex_color("#+f+f+f"), 0x000F_0F0F);
    assert_eq!(parse_hex_color("#-f0000"), NEAR_BLACK);
}

#[test]
fn non_ascii_text_of_the_right_shape() {
    // "é" is two bytes: the three fields are "é", "é", "é", none of them hex
    assert!(color_text_splittable("#ééé"));
    assert_eq!(parse_hex_color("#ééé"), 0x00FF_FF00);
}

#[test]
fn text_that_cannot_be_cut_is_reported() {
    assert!(!color_text_splittable("#aé345"));
    assert!(color_text_splittable("#00ffff"));
    assert!(color_text_splittable("#abc"));
}

#[test]
fn parsed_colour_is_never_the_transparency_key() {
    for text in ["#000000", "#gggggg", "000000", "#+0+0+0", "#010000"] {
        let c = parse_hex_color(text);
        assert_ne!(c, 0);
        assert!(c <= 0x00FF_FFFF);
    }
}

#[test]
fn every_byte_round_trips_through_colour_text() {
    for v in 0u32..256 {
        let text = format!("#{:02x}{:02x}{:02x}", v, 255 - v, v / 2);
        let expected = if v == 0 && 255 - v == 0 && v / 2 == 0 { NEAR_BLACK } else { v | ((255 - v) << 8) | ((v / 2) << 16) };
        assert_eq!(parse_hex_color(&text), expected);
    }
}
