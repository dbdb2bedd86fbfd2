//! Theme resolution: an explicit override beats the configured theme, and
//! `Auto` falls back to a terminal probe only in a fully interactive
//! context, resolving to `Dark` in every failure case.
use vstd::prelude::*;
use crate::config::{ArgThemeMode, ConfigTheme, spec_theme_from_arg};

verus! {

/// A terminal background reported by a successful probe.
#[derive(Copy, Clone, Debug, PartialEq, Eq, Structural)]
pub enum TerminalTheme {
    Dark,
    Light,
}

/// What theme resolution does next: use a settled theme, or run the probe.
#[derive(Copy, Clone, Debug, PartialEq, Eq, Structural)]
pub enum ThemePlan {
    Use(ConfigTheme),
    Probe,
}

/// What `merged_theme` returns: the command-line override when present,
/// the configured theme otherwise.
pub open spec fn spec_merged_theme(cli: Option<ArgThemeMode>, config: ConfigTheme) -> ConfigTheme {
    match cli {
        Option::Some(x) => spec_theme_from_arg(x),
        Option::None => config,
    }
}

/// Merge the command-line theme override with the configured theme: the
/// override wins wherever it is given.
pub fn merged_theme(cli: Option<ArgThemeMode>, config: &ConfigTheme) -> (r: ConfigTheme)
    ensures
        r == spec_merged_theme(cli, *config),
{
    match cli {
        Some(x) => ConfigTheme::from(x),
        None => *config,
    }
}

/// Decide the next step of theme resolution. A theme that is already
/// settled is used as it stands. `Auto` in a non-interactive context
/// resolves to `Dark` without ever invoking the probe; `Auto` with all
/// standard streams attached to a terminal asks for the probe.
pub fn theme_plan(theme: ConfigTheme, interactive: bool) -> (r: ThemePlan)
    ensures
        theme != ConfigTheme::Auto ==> r == ThemePlan::Use(theme),
        theme == ConfigTheme::Auto && !interactive ==> r == ThemePlan::Use(ConfigTheme::Dark),
        theme == ConfigTheme::Auto && interactive ==> r == ThemePlan::Probe,
{
    match theme {
        ConfigTheme::Auto => {
            if interactive {
                ThemePlan::Probe
            } else {
                ThemePlan::Use(ConfigTheme::Dark)
            }
        },
        x => ThemePlan::Use(x),
    }
}

/// The probe timeout in milliseconds: twice the measured round-trip
/// latency, with a floor of 100 ms. The measurement itself is bounded by
/// the probe's fixed one-second ceiling.
pub fn probe_timeout_ms(latency_ms: u64) -> (r: u64)
    requires
        latency_ms <= 1000,
    ensures
        r == if 2 * latency_ms > 100 { (2 * latency_ms) as int } else { 100int },
{
    let doubled = 2 * latency_ms;
    if doubled > 100 {
        doubled
    } else {
        100
    }
}

/// Map a probe outcome to the final theme: a reported light background
/// gives `Light`; a dark background, a failed probe or no probe at all
/// give `Dark`. The result is never `Auto`.
pub fn theme_from_probe(outcome: Option<TerminalTheme>) -> (r: ConfigTheme)
    ensures
        r == (match outcome {
            Option::Some(TerminalTheme::Light) => ConfigTheme::Light,
            _ => ConfigTheme::Dark,
        }),
        r != ConfigTheme::Auto,
{
    match outcome {
        Some(TerminalTheme::Light) => ConfigTheme::Light,
        _ => ConfigTheme::Dark,
    }
}

} // verus!
