use procs::config::{ArgThemeMode, ConfigTheme};
use procs::theme::{merged_theme, probe_timeout_ms, theme_from_probe, theme_plan, TerminalTheme,
    ThemePlan};

#[test]
fn the_override_beats_the_configured_theme() {
    assert_eq!(merged_theme(Some(ArgThemeMode::Light), &ConfigTheme::Dark), ConfigTheme::Light);
    assert_eq!(merged_theme(Some(ArgThemeMode::Dark), &ConfigTheme::Light), ConfigTheme::Dark);
    assert_eq!(merged_theme(Some(ArgThemeMode::Auto), &ConfigTheme::Dark), ConfigTheme::Auto);
    assert_eq!(merged_theme(None, &ConfigTheme::Light), ConfigTheme::Light);
}

#[test]
fn auto_without_a_terminal_resolves_to_dark_without_probing() {
    assert_eq!(theme_plan(ConfigTheme::Auto, false), ThemePlan::Use(ConfigTheme::Dark));
}

#[test]
fn auto_with_a_terminal_asks_for_the_probe() {
    assert_eq!(theme_plan(ConfigTheme::Auto, true), ThemePlan::Probe);
}

#[test]
fn settled_themes_skip_the_probe_entirely() {
    assert_eq!(theme_plan(ConfigTheme::Dark, true), ThemePlan::Use(ConfigTheme::Dark));
    assert_eq!(theme_plan(ConfigTheme::Light, false), ThemePlan::Use(ConfigTheme::Light));
}

#[test]
fn the_probe_timeout_doubles_the_latency_with_a_floor() {
    assert_eq!(probe_timeout_ms(0), 100);
    assert_eq!(probe_timeout_ms(10), 100);
    assert_eq!(probe_timeout_ms(50), 100);
    assert_eq!(probe_timeout_ms(60), 120);
    assert_eq!(probe_timeout_ms(1000), 2000);
}

#[test]
fn probe_outcomes_map_to_themes_with_dark_as_the_fallback() {
    assert_eq!(theme_from_probe(Some(TerminalTheme::Light)), ConfigTheme::Light);
    assert_eq!(theme_from_probe(Some(TerminalTheme::Dark)), ConfigTheme::Dark);
    assert_eq!(theme_from_probe(None), ConfigTheme::Dark);
}
