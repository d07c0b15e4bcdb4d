use nfm::config::{config_identity, config_path_in, get_config_path, Config};
use nfm::tabs::Tab;
use nfm::theme::{parse_color, try_parse_color, Color, ThemeConfig};

#[test]
fn parse_color_names_ignore_case() {
    assert_eq!(parse_color("Red"), Color::Red);
    assert_eq!(parse_color("DARKGRAY"), Color::DarkGray);
    assert_eq!(parse_color("lightMagenta"), Color::LightMagenta);
    assert_eq!(parse_color("reset"), Color::Reset);
    assert_eq!(parse_color("White"), Color::White);
    assert_eq!(parse_color("purple"), Color::Reset);
    assert_eq!(parse_color(""), Color::Reset);
}

#[test]
fn parse_color_uses_unicode_lowercase() {
    // The Kelvin sign lowercases to an ASCII 'k'.
    assert_eq!(parse_color("blac\u{212A}"), Color::Black);
}

#[test]
fn parse_color_hex() {
    assert_eq!(parse_color("#ff0080"), Color::Rgb(255, 0, 128));
    assert_eq!(parse_color("#FF00aa"), Color::Rgb(255, 0, 170));
    assert_eq!(parse_color("#102030"), Color::Rgb(16, 32, 48));
    // A pair that is not hexadecimal falls back to 255.
    assert_eq!(parse_color("#zz0080"), Color::Rgb(255, 0, 128));
    // `from_str_radix` takes a leading plus sign.
    assert_eq!(parse_color("#+f+f+f"), Color::Rgb(15, 15, 15));
    // Two-byte characters that keep every slice on a character boundary.
    assert_eq!(parse_color("#\u{e9}\u{e9}\u{e9}"), Color::Rgb(255, 255, 255));
    // Wrong length: no colour.
    assert_eq!(parse_color("#fff"), Color::Reset);
    assert_eq!(parse_color("#ff00800"), Color::Reset);
    assert_eq!(parse_color("ff008000"), Color::Reset);
}

#[test]
fn default_theme_names() {
    let t = ThemeConfig::default();
    assert_eq!(t.bg, "Reset");
    assert_eq!(t.primary, "Cyan");
    assert_eq!(t.secondary, "DarkGray");
    assert_eq!(t.highlight_bg, "Blue");
    assert_eq!(t.highlight_fg, "White");
    assert_eq!(t.error, "Red");
    assert_eq!(t.symlink_color, "Magenta");
    assert_eq!(parse_color(&t.primary), Color::Cyan);
}

#[test]
fn default_config_values() {
    let c = Config::default();
    assert_eq!(c.editor.tab_size, 4);
    assert!(c.editor.show_line_numbers);
    assert!(c.editor.syntax_highlighting);
    assert!(!c.file_browser.show_hidden);
    assert!(c.file_browser.confirm_delete);
    assert_eq!(c.theme.dir_color, "Cyan");
}

#[test]
fn config_path_names_the_settings_file() {
    let p = get_config_path();
    assert!(p == "config.toml" || p.ends_with("/config.toml"), "{}", p);
}

#[test]
fn tab_titles() {
    assert_eq!(Tab::new_browser("/home/user".to_string()).get_title(), "📁 user");
    assert_eq!(Tab::new_browser("/".to_string()).get_title(), "📁 /");
    assert_eq!(Tab::new_editor(None).get_title(), "📝 New File");
    assert_eq!(Tab::new_editor(Some("/tmp/notes.txt".to_string())).get_title(), "📝 notes.txt");
    assert_eq!(Tab::new_editor(Some("/".to_string())).get_title(), "📝 New File");
}

#[test]
fn try_parse_color_refuses_cut_characters() {
    assert_eq!(try_parse_color("Red"), Some(Color::Red));
    assert_eq!(try_parse_color("#0a0b0c"), Some(Color::Rgb(10, 11, 12)));
    assert_eq!(try_parse_color("#\u{e9}\u{e9}\u{e9}"), Some(Color::Rgb(255, 255, 255)));
    // The first pair would end inside the two-byte character.
    assert_eq!(try_parse_color("#a\u{e9}xyz"), None);
    assert_eq!(try_parse_color("#abc"), Some(Color::Reset));
}

#[test]
fn config_path_in_the_given_directory() {
    assert_eq!(config_identity(), ("com", "NeoFM", "nfm"));
    assert_eq!(config_path_in(None), "config.toml");
    assert_eq!(config_path_in(Some("/home/u/.config/nfm".to_string())), "/home/u/.config/nfm/config.toml");
}
