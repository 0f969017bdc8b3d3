use crosshair::settings::{
    default_draw_line, get_hotkey_modifiers, loaded_or_default, parse_virtual_key, virtual_key_code, Settings,
    DEFAULT_VIRTUAL_KEY, MOD_ALT, MOD_CONTROL, MOD_SHIFT, MOD_WIN,
};

#[test]
fn factory_settings() {
    let s = Settings::default();
    assert!(s.enabled);
    assert_eq!(s.color, "#00ffff");
    assert_eq!(s.line_width, 2);
    assert_eq!(s.line_length, 8);
    assert_eq!(s.gap, 4);
    assert!(!s.dot_enabled);
    assert_eq!(s.dot_size, 3);
    assert!(s.hotkey_ctrl && s.hotkey_alt && !s.hotkey_shift && !s.hotkey_win);
    assert_eq!(s.hotkey_key, "C");
    assert!(!s.autostart);
    assert_eq!((s.offset_x, s.offset_y), (0, 0));
    assert!(!s.outline_enabled);
    assert!(s.draw_left && s.draw_right && s.draw_top && s.draw_bottom);
}

#[test]
fn arms_are_drawn_unless_stored_otherwise() {
    assert!(default_draw_line());
}

#[test]
fn stored_settings_win_over_defaults() {
    let mut stored = Settings::default();
    stored.gap = 9;
    stored.color = "#123456".to_string();
    let s = loaded_or_default(Some(stored));
    assert_eq!(s.gap, 9);
    assert_eq!(s.color, "#123456");
    let d = loaded_or_default(None);
    assert_eq!(d.gap, 4);
    assert_eq!(d.color, "#00ffff");
}

#[test]
fn default_hotkey_is_ctrl_alt() {
    let s = Settings::default();
    assert_eq!(get_hotkey_modifiers(&s), MOD_ALT | MOD_CONTROL);
    assert_eq!(get_hotkey_modifiers(&s), 0x3);
}

#[test]
fn every_modifier_has_its_bit() {
    let mut s = Settings::default();
    s.hotkey_ctrl = false;
    s.hotkey_alt = false;
    assert_eq!(get_hotkey_modifiers(&s), 0);
    s.hotkey_shift = true;
    assert_eq!(get_hotkey_modifiers(&s), MOD_SHIFT);
    s.hotkey_win = true;
    assert_eq!(get_hotkey_modifiers(&s), MOD_SHIFT | MOD_WIN);
    s.hotkey_alt = true;
    s.hotkey_ctrl = true;
    assert_eq!(get_hotkey_modifiers(&s), 0xF);
}

#[test]
fn named_keys() {
    assert_eq!(parse_virtual_key("SPACE"), 0x20);
    assert_eq!(parse_virtual_key("Insert"), 0x2D);
    assert_eq!(parse_virtual_key("delete"), 0x2E);
    assert_eq!(parse_virtual_key("home"), 0x24);
    assert_eq!(parse_virtual_key("End"), 0x23);
    assert_eq!(parse_virtual_key("PageUp"), 0x21);
    assert_eq!(parse_virtual_key("pagedown"), 0x22);
}

#[test]
fn function_keys() {
    let expected = [0x70, 0x71, 0x72, 0x73, 0x74, 0x75, 0x76, 0x77, 0x78, 0x79, 0x7A, 0x7B];
    for (i, code) in expected.iter().enumerate() {
        assert_eq!(parse_virtual_key(&format!("f{}", i + 1)), *code);
        assert_eq!(parse_virtual_key(&format!("F{}", i + 1)), *code);
    }
    assert_eq!(parse_virtual_key("F13"), DEFAULT_VIRTUAL_KEY);
}

#[test]
fn letters_and_digits_are_their_own_codes() {
    assert_eq!(parse_virtual_key("a"), 0x41);
    assert_eq!(parse_virtual_key("Z"), 0x5A);
    assert_eq!(parse_virtual_key("0"), 0x30);
    assert_eq!(parse_virtual_key("9"), 0x39);
}

#[test]
fn anything_else_is_c() {
    assert_eq!(parse_virtual_key(""), 0x43);
    assert_eq!(parse_virtual_key("!"), 0x43);
    assert_eq!(parse_virtual_key("ab"), 0x43);
    assert_eq!(parse_virtual_key(" space"), 0x43);
    assert_eq!(parse_virtual_key("é"), 0x43);
}

#[test]
fn unicode_case_mapping_is_applied_first() {
    // dotless i upper-cases to ASCII I; long s upper-cases to ASCII S
    assert_eq!(parse_virtual_key("ı"), 0x49);
    assert_eq!(parse_virtual_key("ſpace"), 0x20);
}

#[test]
fn upper_case_names_map_directly() {
    assert_eq!(virtual_key_code(&vec!['Q']), 0x51);
    assert_eq!(virtual_key_code(&"HOME".chars().collect()), 0x24);
    assert_eq!(virtual_key_code(&"home".chars().collect()), 0x43);
    assert_eq!(virtual_key_code(&vec![]), 0x43);
}

#[test]
fn key_code_is_never_zero() {
    for name in ["", "x", "?", "SPACE", "ß", "\u{0}", "F0"] {
        assert_ne!(parse_virtual_key(name), 0);
    }
}
