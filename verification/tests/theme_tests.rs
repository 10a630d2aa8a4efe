use codex_tui::theme::configured_theme_lock;
use codex_tui::theme::configured_theme_name;
use codex_tui::theme::current_theme_lock;
use codex_tui::theme::current_theme_name;
use codex_tui::theme::is_known_theme;
use codex_tui::theme::list_available_themes;
use codex_tui::theme::normalize_theme_name;
use codex_tui::theme::resolve_syntax_theme_alias;
use codex_tui::theme::restore_runtime_theme_from_config;
use codex_tui::theme::set_configured_theme_name;
use codex_tui::theme::set_runtime_theme_name;
use codex_tui::theme::set_theme_override;
use codex_tui::theme::syntax_theme_alias;
use codex_tui::theme::theme_name_at;
use codex_tui::theme::theme_source;
use codex_tui::theme::validate_theme_name;
use codex_tui::theme::UiThemeState;
use codex_tui::theme::DEFAULT_THEME_INDEX;
use codex_tui::theme::THEME_COUNT;

#[test]
fn theme_names_normalize_exactly() {
    assert_eq!(normalize_theme_name(Some("dracula")), Some("dracula"));
    assert_eq!(normalize_theme_name(Some("Dracula")), None);
    assert_eq!(normalize_theme_name(Some(" dracula")), None);
    assert_eq!(normalize_theme_name(None), None);
    assert!(is_known_theme("catppuccin-macchiato"));
    assert!(!is_known_theme("catppuccin-mocha"));
}

#[test]
fn theme_list_is_complete_and_ordered() {
    let themes = list_available_themes();
    assert_eq!(themes.len(), THEME_COUNT);
    assert_eq!(themes[0], "oc-2");
    assert_eq!(themes[THEME_COUNT - 1], "zenburn");
    assert_eq!(themes[DEFAULT_THEME_INDEX], "matrix");
    assert_eq!(theme_name_at(DEFAULT_THEME_INDEX), "matrix");
    for name in &themes {
        assert!(is_known_theme(name));
    }
    let mut sorted = themes.clone();
    sorted.sort();
    sorted.dedup();
    assert_eq!(sorted.len(), THEME_COUNT);
}

#[test]
fn syntax_theme_aliases_round_trip() {
    assert_eq!(syntax_theme_alias("nord"), Some("ui:nord".to_string()));
    assert_eq!(syntax_theme_alias("nope"), None);
    assert_eq!(resolve_syntax_theme_alias("ui:nord"), Some("nord"));
    assert_eq!(resolve_syntax_theme_alias("nord"), None);
    assert_eq!(resolve_syntax_theme_alias("ui:unknown"), None);
    assert_eq!(resolve_syntax_theme_alias("ui:"), None);
    for name in list_available_themes() {
        let alias = syntax_theme_alias(&name).unwrap();
        assert_eq!(resolve_syntax_theme_alias(&alias), Some(name.as_str()));
    }
}

#[test]
fn unknown_theme_names_get_a_warning() {
    assert_eq!(validate_theme_name(None), None);
    assert_eq!(validate_theme_name(Some("aura")), None);
    assert_eq!(
        validate_theme_name(Some("nope")),
        Some("UI theme \"nope\" not found. Using the default UI theme \"matrix\".".to_string())
    );
}

#[test]
fn theme_sources_fall_back_to_the_default() {
    assert_eq!(theme_source("nord"), "nord");
    assert_eq!(theme_source("not-a-theme"), "matrix");
}

#[test]
fn fresh_registry_uses_the_default_theme() {
    let mut state = UiThemeState::new();
    assert_eq!(configured_theme_lock(&state), &None);
    assert_eq!(configured_theme_name(&state), "matrix");
    assert_eq!(current_theme_name(&mut state), "matrix");
}

#[test]
fn active_theme_is_taken_from_the_configuration_when_first_read() {
    let mut state = UiThemeState::new();
    assert!(set_configured_theme_name(&mut state, Some("aura")));
    assert!(!set_configured_theme_name(&mut state, Some("aura")));
    assert_eq!(current_theme_lock(&mut state), "aura");
    assert!(set_configured_theme_name(&mut state, Some("nord")));
    assert_eq!(current_theme_name(&mut state), "aura");
    assert_eq!(configured_theme_name(&state), "nord");
}

#[test]
fn unknown_configured_theme_is_stored_as_none() {
    let mut state = UiThemeState::new();
    assert!(set_configured_theme_name(&mut state, Some("aura")));
    assert!(set_configured_theme_name(&mut state, Some("bogus")));
    assert_eq!(configured_theme_lock(&state), &None);
    assert_eq!(configured_theme_name(&state), "matrix");
}

#[test]
fn runtime_theme_reads_back_and_restore_undoes_it() {
    let mut state = UiThemeState::new();
    set_configured_theme_name(&mut state, Some("vesper"));
    assert!(set_runtime_theme_name(&mut state, "nord"));
    assert_eq!(current_theme_name(&mut state), "nord");
    assert_eq!(configured_theme_name(&state), "vesper");
    assert!(!set_runtime_theme_name(&mut state, "bogus"));
    assert_eq!(current_theme_name(&mut state), "nord");
    restore_runtime_theme_from_config(&mut state);
    assert_eq!(current_theme_name(&mut state), "vesper");
}

#[test]
fn theme_override_sets_configured_and_active_theme() {
    let mut state = UiThemeState::new();
    assert_eq!(set_theme_override(&mut state, Some("vesper".to_string())), None);
    assert_eq!(configured_theme_name(&state), "vesper");
    assert_eq!(current_theme_name(&mut state), "vesper");
    let warning = set_theme_override(&mut state, Some("bogus".to_string()));
    assert_eq!(
        warning,
        Some("UI theme \"bogus\" not found. Using the default UI theme \"matrix\".".to_string())
    );
    assert_eq!(configured_theme_lock(&state), &None);
    assert_eq!(current_theme_name(&mut state), "matrix");
    assert_eq!(set_theme_override(&mut state, None), None);
    assert_eq!(current_theme_name(&mut state), "matrix");
}
