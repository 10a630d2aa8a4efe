use codex_tui::colors::HexColor;
use codex_tui::colors::UiThemeSeeds;
use codex_tui::colors::UiThemeVariant;
use codex_tui::palette::palette_inputs_are_readable;
use codex_tui::palette::palette_sources;
use codex_tui::palette::syntax_inputs_are_readable;
use codex_tui::palette::syntax_palette_sources;
use codex_tui::palette::ColorSource;
use codex_tui::palette::PaletteRole;
use codex_tui::palette::SyntaxRole;

fn variant(overrides: &[(&str, &str)]) -> UiThemeVariant {
    UiThemeVariant {
        palette: UiThemeSeeds {
            neutral: "#0a0e0a".to_string(),
            ink: None,
            primary: "#2eff6a".to_string(),
            accent: None,
            success: "#62ff94".to_string(),
            warning: "#e6ff57".to_string(),
            error: "bad".to_string(),
            info: "#30b3ff".to_string(),
            interactive: Some("#30b3ff80".to_string()),
            diff_add: Some("#00ff00".to_string()),
            diff_delete: None,
        },
        overrides: overrides
            .iter()
            .map(|(k, v)| (k.to_string(), v.to_string()))
            .collect(),
    }
}

#[test]
fn ui_palette_prefers_written_colours() {
    let v = variant(&[("background-base", "#101010"), ("text-base", "#eeeeee80")]);
    assert!(palette_inputs_are_readable(&v));
    let p = palette_sources(&v, true);
    assert_eq!(p.background, ColorSource::Written(HexColor::Opaque(16, 16, 16), None));
    assert_eq!(
        p.text,
        ColorSource::Written(
            HexColor::Translucent(0xee, 0xee, 0xee, 0x80),
            Some(PaletteRole::Background)
        )
    );
    assert_eq!(
        p.secondary,
        ColorSource::Written(
            HexColor::Translucent(0x30, 0xb3, 0xff, 0x80),
            Some(PaletteRole::Background)
        )
    );
    assert_eq!(p.markdown_text, ColorSource::SameAs(PaletteRole::Text));
}

#[test]
fn ui_palette_falls_back_to_built_in_colours_and_blends() {
    let v = variant(&[]);
    let dark = palette_sources(&v, true);
    let light = palette_sources(&v, false);
    assert_eq!(dark.background, ColorSource::Written(HexColor::Opaque(10, 14, 10), None));
    assert_eq!(dark.accent, ColorSource::Fixed(199, 112, 255));
    assert_eq!(dark.error, ColorSource::Fixed(255, 75, 75));
    assert_eq!(dark.text, ColorSource::SameAs(PaletteRole::Primary));
    assert_eq!(
        dark.text_muted,
        ColorSource::Mix(PaletteRole::Background, PaletteRole::Text, 480)
    );
    assert_eq!(
        light.text_muted,
        ColorSource::Mix(PaletteRole::Background, PaletteRole::Text, 560)
    );
    assert_eq!(
        dark.code_block_background,
        ColorSource::SameAs(PaletteRole::BackgroundSecondary)
    );
    assert_eq!(
        dark.diff_add,
        ColorSource::Written(HexColor::Opaque(0, 255, 0), Some(PaletteRole::Background))
    );
    assert_eq!(dark.diff_delete, ColorSource::SameAs(PaletteRole::Error));
    assert_eq!(
        light.user_message_background,
        ColorSource::Mix(PaletteRole::BackgroundSecondary, PaletteRole::Secondary, 50)
    );
}

#[test]
fn diff_overrides_blend_over_the_code_block_background() {
    let v = variant(&[("diff-added-bg", "#00ff0040")]);
    let p = palette_sources(&v, true);
    assert_eq!(
        p.diff_add,
        ColorSource::Written(
            HexColor::Translucent(0, 255, 0, 0x40),
            Some(PaletteRole::CodeBlockBackground)
        )
    );
}

#[test]
fn syntax_palette_keeps_text_readable() {
    let v = variant(&[("syntax-keyword", "#ff00ff")]);
    assert!(syntax_inputs_are_readable(&v));
    let p = syntax_palette_sources(&v, true);
    assert_eq!(
        p.code_block_background,
        ColorSource::Mix(SyntaxRole::Background, SyntaxRole::Primary, 60)
    );
    assert_eq!(
        p.safe_text,
        ColorSource::Readable(
            SyntaxRole::Text,
            SyntaxRole::CodeBlockBackground,
            SyntaxRole::SafeCodeBlockText,
            480
        )
    );
    assert_eq!(
        p.syntax_keyword,
        ColorSource::Written(HexColor::Opaque(255, 0, 255), Some(SyntaxRole::Background))
    );
    assert_eq!(
        p.safe_syntax_variable,
        ColorSource::Readable(
            SyntaxRole::SyntaxVariable,
            SyntaxRole::CodeBlockBackground,
            SyntaxRole::SafeText,
            450
        )
    );
    assert_eq!(
        p.safe_diff_add,
        ColorSource::DistinctSurface(
            SyntaxRole::DiffAdd,
            SyntaxRole::CodeBlockBackground,
            SyntaxRole::Success
        )
    );
    let light = syntax_palette_sources(&v, false);
    assert_eq!(
        light.background_secondary,
        ColorSource::Mix(SyntaxRole::CodeBlockBackground, SyntaxRole::SafeText, 50)
    );
}

#[test]
fn unreadable_colour_texts_are_reported() {
    let v = variant(&[("border", "123\u{e9}5")]);
    assert!(!palette_inputs_are_readable(&v));
    assert!(syntax_inputs_are_readable(&v));
    let lazy = variant(&[("markdown-text", "#ffffff"), ("text-base", "123\u{e9}5")]);
    assert!(palette_inputs_are_readable(&lazy));
    let eager = variant(&[("text-base", "123\u{e9}5")]);
    assert!(!palette_inputs_are_readable(&eager));
}
