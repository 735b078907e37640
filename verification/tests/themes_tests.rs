use lunch_tray::themes::{
    color_channels, color_sliceable, default_themes_json, find_custom_theme, parse_entry, parse_hex_color, rgb, theme_font_family,
    theme_palette, themes_from_entries,
};

#[test]
fn hex_colors_read_as_bgr_values() {
    assert_eq!(parse_hex_color("#1a1a2e"), Some(0x2e1a1a));
    assert_eq!(parse_hex_color("##FFFFFF"), Some(0xffffff));
    assert_eq!(parse_hex_color("+f+f+f"), Some(0x0f0f0f));
    assert_eq!(parse_hex_color("#12345"), None);
    assert_eq!(parse_hex_color("#12345g"), None);
    assert_eq!(parse_hex_color("#äöäö"), None);
}

#[test]
fn default_theme_parses_and_is_found_ignoring_case() {
    let entries = default_themes_json();
    let theme = parse_entry(&entries[0]).expect("default theme");
    assert_eq!(theme.name, "Custom1");
    assert_eq!(theme.heading_color, 0x6045e9);
    let themes = themes_from_entries(&entries);
    assert_eq!(themes.len(), 1);
    assert!(find_custom_theme(&themes, "custom1").is_some());
    assert!(find_custom_theme(&themes, "other").is_none());
    let mut broken = default_themes_json();
    broken[0].divider_color = "nope".to_string();
    assert!(parse_entry(&broken[0]).is_none());
    assert!(themes_from_entries(&broken).is_empty());
}

#[test]
fn built_in_palettes_follow_the_theme_name() {
    assert_eq!(theme_palette("light").bg_color, 0x00FFFFFF);
    assert_eq!(theme_palette("blue").header_bg_color, 0x00733809);
    assert_eq!(theme_palette("green").favorite_highlight_color, 0x0000FFFF);
    assert_eq!(theme_palette("teletext1").heading_color, 0x00FFFF00);
    assert_eq!(theme_palette("teletext2").header_title_color, 0x00FF6000);
    assert_eq!(theme_palette("dark"), theme_palette("anything else"));
    assert_eq!(theme_palette("dark").selection_bg_color, 0x00303030);
    assert_eq!(theme_font_family("teletext2"), "Consolas");
    assert_eq!(theme_font_family("light"), "Segoe UI");
}

#[test]
fn colors_split_into_channels_and_back() {
    assert_eq!(rgb(0x01, 0x24, 0x56), 0x00562401);
    assert_eq!(color_channels(0x00562401), (0x01, 0x24, 0x56));
    for &(r, g, b) in &[(0u8, 0u8, 0u8), (255, 255, 255), (12, 200, 7)] {
        assert_eq!(color_channels(rgb(r, g, b)), (r, g, b));
    }
}

#[test]
fn theme_key_lowercases_and_pads_the_first_sixteen_bytes() {
    let mut dark = [0u8; 16];
    dark[..4].copy_from_slice(b"dark");
    assert_eq!(lunch_tray::themes::theme_key("DarK"), dark);
    assert_eq!(lunch_tray::themes::theme_key("Teletext-Classic-Extra"), *b"teletext-classic");
    let mut accented = [0u8; 16];
    accented[..3].copy_from_slice(&[0xC3, 0x84, b'b']);
    assert_eq!(lunch_tray::themes::theme_key("\u{C4}B"), accented);
}

#[test]
fn color_sliceable_checks_the_byte_cuts_of_six_byte_colors() {
    assert!(color_sliceable("#1e1e1e"));
    assert!(color_sliceable("##abcdef"));
    assert!(color_sliceable("short"));
    assert!(color_sliceable("\u{E4}\u{E4}\u{E4}"));
    assert!(!color_sliceable("a\u{E4}bcd"));
    assert!(!color_sliceable("#abc\u{E4}d"));
}

#[test]
fn font_heights_follow_the_screen_dpi() {
    assert_eq!(lunch_tray::themes::font_heights(96), (-16, -13));
    assert_eq!(lunch_tray::themes::font_heights(120), (-20, -16));
    assert_eq!(lunch_tray::themes::mul_div(-7, 10, 3), -23);
    assert_eq!(lunch_tray::themes::mul_div(7, 10, 3), 23);
}
