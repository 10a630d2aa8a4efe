use codex_tui::colors::hex_text_splits_cleanly;
use codex_tui::colors::parse_hex_rgb;
use codex_tui::colors::HexColor;
use codex_tui::colors::UiThemeSeeds;
use codex_tui::colors::UiThemeVariant;

fn seeds() -> UiThemeSeeds {
    UiThemeSeeds {
        neutral: "#0a0e0a".to_string(),
        ink: Some("#e0e0e0".to_string()),
        primary: "#2eff6a".to_string(),
        accent: None,
        success: "62ff94".to_string(),
        warning: "#e6ff57".to_string(),
        error: "#ff4b4b".to_string(),
        info: "#30b3ff".to_string(),
        interactive: Some("#30b3ff80".to_string()),
        diff_add: Some("not a colour".to_string()),
        diff_delete: None,
    }
}

#[test]
fn six_digit_colours_are_opaque() {
    assert_eq!(parse_hex_rgb("#1a2B3c"), Some(HexColor::Opaque(0x1a, 0x2b, 0x3c)));
    assert_eq!(parse_hex_rgb("  ff0000  "), Some(HexColor::Opaque(255, 0, 0)));
    assert_eq!(parse_hex_rgb("+f+f+f"), Some(HexColor::Opaque(15, 15, 15)));
}

#[test]
fn eight_digit_colours_carry_alpha() {
    assert_eq!(
        parse_hex_rgb("#11223380"),
        Some(HexColor::Translucent(0x11, 0x22, 0x33, 0x80))
    );
}

#[test]
fn malformed_colours_name_none() {
    assert_eq!(parse_hex_rgb("#123"), None);
    assert_eq!(parse_hex_rgb("#gg0000"), None);
    assert_eq!(parse_hex_rgb("##112233"), None);
    assert_eq!(parse_hex_rgb("-10000"), None);
    assert_eq!(parse_hex_rgb("#1122334"), None);
    assert_eq!(parse_hex_rgb(""), None);
}

#[test]
fn non_ascii_digits_name_none_or_cannot_be_read() {
    assert!(hex_text_splits_cleanly("#\u{e9}1234"));
    assert_eq!(parse_hex_rgb("#\u{e9}1234"), None);
    assert!(hex_text_splits_cleanly("12\u{e9}34"));
    assert_eq!(parse_hex_rgb("12\u{e9}34"), None);
    assert!(hex_text_splits_cleanly("zz3\u{e9}5"));
    assert!(!hex_text_splits_cleanly("123\u{e9}5"));
    assert!(!hex_text_splits_cleanly("\u{65e5}\u{672c}"));
    assert!(hex_text_splits_cleanly("#112233"));
    assert!(hex_text_splits_cleanly("\u{65e5}"));
}

#[test]
fn seed_colours() {
    let s = seeds();
    assert_eq!(s.neutral_rgb(), Some(HexColor::Opaque(0x0a, 0x0e, 0x0a)));
    assert_eq!(s.ink_rgb(), Some(HexColor::Opaque(0xe0, 0xe0, 0xe0)));
    assert_eq!(s.primary_rgb(), Some(HexColor::Opaque(0x2e, 0xff, 0x6a)));
    assert_eq!(s.accent_rgb(), None);
    assert_eq!(s.success_rgb(), Some(HexColor::Opaque(0x62, 0xff, 0x94)));
    assert_eq!(s.warning_rgb(), Some(HexColor::Opaque(0xe6, 0xff, 0x57)));
    assert_eq!(s.error_rgb(), Some(HexColor::Opaque(0xff, 0x4b, 0x4b)));
    assert_eq!(s.info_rgb(), Some(HexColor::Opaque(0x30, 0xb3, 0xff)));
    assert_eq!(s.interactive_rgb(), Some(HexColor::Translucent(0x30, 0xb3, 0xff, 0x80)));
    assert_eq!(s.diff_add_rgb(), None);
    assert_eq!(s.diff_delete_rgb(), None);
}

#[test]
fn overrides_are_looked_up_by_role() {
    let variant = UiThemeVariant {
        palette: seeds(),
        overrides: vec![
            ("background-base".to_string(), "#101010".to_string()),
            ("text-weak".to_string(), "oops".to_string()),
        ],
    };
    assert_eq!(variant.override_rgb("background-base"), Some(HexColor::Opaque(16, 16, 16)));
    assert_eq!(variant.override_rgb("text-weak"), None);
    assert_eq!(variant.override_rgb("border"), None);
}
