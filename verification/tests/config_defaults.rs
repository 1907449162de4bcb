use stryde_index::config::{hex_to_rgb, BehaviorConfig, KeybindsConfig, TextConfig, WindowConfig};

#[test]
fn stock_window_size() {
    let window = WindowConfig::default();
    assert_eq!(window.width, 774);
    assert_eq!(window.height, 500);
}

#[test]
fn stock_text_settings() {
    let text = TextConfig::default();
    assert_eq!(text.font_name, " ");
    assert_eq!(text.list_text_size, 16);
    assert_eq!(text.input_text_size, 18);
    assert_eq!(text.placeholder, "Type commands, search...");
}

#[test]
fn stock_behavior() {
    let behavior = BehaviorConfig::default();
    assert!(behavior.show_apps);
    assert!(behavior.close_on_launch);
    assert!(!behavior.highlight_style_text);
    assert_eq!(behavior.default_terminal, "kitty");
}

#[test]
fn stock_keybinds() {
    let keybinds = KeybindsConfig::default();
    assert_eq!(keybinds.close, "escape");
    assert_eq!(keybinds.open_key, "enter");
    assert_eq!(keybinds.navigation, vec!["arrowup", "arrowdown"]);
}

#[test]
fn parses_six_hex_digits() {
    assert_eq!(hex_to_rgb("#89b4fa"), Some((137, 180, 250)));
    assert_eq!(hex_to_rgb("89b4fa"), Some((137, 180, 250)));
    assert_eq!(hex_to_rgb("#89B4FA"), Some((137, 180, 250)));
    assert_eq!(hex_to_rgb("##000000"), Some((0, 0, 0)));
    assert_eq!(hex_to_rgb("#ffffff"), Some((255, 255, 255)));
}

#[test]
fn rejects_anything_but_six_hex_digits() {
    assert_eq!(hex_to_rgb("#123"), None);
    assert_eq!(hex_to_rgb("#1234567"), None);
    assert_eq!(hex_to_rgb("#gggggg"), None);
    assert_eq!(hex_to_rgb(""), None);
    assert_eq!(hex_to_rgb("#"), None);
}
