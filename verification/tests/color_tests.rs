use ils::color::ColorValue;
use ils::config::{
    default_case_sensitive_search, default_cursor_fg, default_exit_after_edit,
    default_jump_amount, default_path_bg, default_path_fg, default_preview_scroll_amount,
    default_preview_split_percent, default_show_dir_slash, default_show_hidden,
    default_show_tilde_for_home, ColorConfig, Keybindings, Settings,
};

fn parse(s: &str) -> Option<ColorValue> {
    ColorConfig::parse_color_string(&s.as_bytes().to_vec())
}

#[test]
fn named_colors_parse() {
    assert_eq!(parse("white"), Some(ColorValue::White));
    assert_eq!(parse("cyan"), Some(ColorValue::Cyan));
    assert_eq!(parse("darkgrey"), Some(ColorValue::DarkGrey));
    assert_eq!(parse("darkgray"), Some(ColorValue::DarkGrey));
    assert_eq!(parse("gray"), Some(ColorValue::Grey));
}

#[test]
fn parsing_trims_and_folds_case() {
    assert_eq!(parse("  White "), Some(ColorValue::White));
    assert_eq!(parse("CYAN"), Some(ColorValue::Cyan));
}

#[test]
fn hex_colors_parse_in_both_forms() {
    assert_eq!(parse("#333333"), Some(ColorValue::Rgb { r: 0x33, g: 0x33, b: 0x33 }));
    assert_eq!(parse("#ffff00"), Some(ColorValue::Rgb { r: 255, g: 255, b: 0 }));
    assert_eq!(parse("#FFF"), Some(ColorValue::Rgb { r: 255, g: 255, b: 255 }));
    assert_eq!(parse("#1a2"), Some(ColorValue::Rgb { r: 17, g: 170, b: 34 }));
}

#[test]
fn opt_outs_and_noise_give_no_color() {
    assert_eq!(parse("none"), None);
    assert_eq!(parse("reverse"), None);
    assert_eq!(parse("bogus"), None);
    assert_eq!(parse("#12"), None);
    assert_eq!(parse("#12345g"), None);
}

#[test]
fn color_defaults_match_their_documentation() {
    assert_eq!(default_path_fg(), "white");
    assert_eq!(default_path_bg(), "#333333");
    assert_eq!(default_cursor_fg(), "green");
    let c = ColorConfig::default();
    assert_eq!(c.parse_fg_color(), Some(ColorValue::White));
    assert_eq!(c.parse_directory_fg(), Some(ColorValue::Cyan));
    assert_eq!(c.parse_selected_fg(), None);
    assert_eq!(
        c.parse_fuzzy_highlight_fg(),
        Some(ColorValue::Rgb { r: 255, g: 255, b: 0 })
    );
}

#[test]
fn setting_defaults_match_their_documentation() {
    assert_eq!(default_exit_after_edit(), false);
    assert_eq!(default_jump_amount(), 5);
    assert_eq!(default_preview_scroll_amount(), 10);
    assert_eq!(default_show_hidden(), false);
    assert_eq!(default_show_tilde_for_home(), true);
    assert_eq!(default_case_sensitive_search(), false);
    assert_eq!(default_show_dir_slash(), true);
    assert_eq!(default_preview_split_percent(), 50);
    let s = Settings::default();
    assert_eq!(s.jump_amount, 5);
    assert_eq!(s.preview_split_percent, 50);
}

#[test]
fn default_bindings_answer_contains() {
    let kb = Keybindings::default();
    assert!(kb.contains(&kb.up, 'w'));
    assert!(kb.contains(&kb.back, 'j'));
    assert!(kb.contains(&kb.back, 'b'));
    assert!(!kb.contains(&kb.up, 'q'));
    assert!(kb.contains(&kb.quit_then_open_in_finder, 'Q'));
}
