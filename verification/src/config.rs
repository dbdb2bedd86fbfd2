//! Configuration enums shared by the search engine, the renderer and the
//! theme resolver.
use vstd::prelude::*;

verus! {

/// Whether color output is forced on, forced off, or decided from the context.
#[derive(Copy, Clone, Debug, PartialEq, Eq, Structural)]
pub enum ArgColorMode {
    Auto,
    Always,
    Disable,
}

/// Theme requested on the command line.
#[derive(Copy, Clone, Debug, PartialEq, Eq, Structural)]
pub enum ArgThemeMode {
    Auto,
    Dark,
    Light,
}

/// Whether a pager is used always, never, or decided from the context.
#[derive(Copy, Clone, Debug, PartialEq, Eq, Structural)]
pub enum ArgPagerMode {
    Auto,
    Always,
    Disable,
}

/// Theme as it stands in the loaded configuration.
#[derive(Copy, Clone, Debug, PartialEq, Eq, Structural)]
pub enum ConfigTheme {
    Auto,
    Dark,
    Light,
}

/// Boolean combinator of a multi-keyword search.
#[derive(Copy, Clone, Debug, PartialEq, Eq, Structural)]
pub enum ConfigSearchLogic {
    And,
    Or,
    Nand,
    Nor,
}

/// Case-sensitivity negotiation of a search.
#[derive(Copy, Clone, Debug, PartialEq, Eq, Structural)]
pub enum ConfigSearchCase {
    Smart,
    Insensitive,
    Sensitive,
}

/// Alignment of a cell within its column.
#[derive(Copy, Clone, Debug, PartialEq, Eq, Structural)]
pub enum ConfigColumnAlign {
    Left,
    Right,
    Center,
}

/// What `ArgThemeMode::from` yields for each command-line theme choice.
pub open spec fn spec_theme_from_arg(item: ArgThemeMode) -> ConfigTheme {
    match item {
        ArgThemeMode::Auto => ConfigTheme::Auto,
        ArgThemeMode::Dark => ConfigTheme::Dark,
        ArgThemeMode::Light => ConfigTheme::Light,
    }
}

impl From<ArgThemeMode> for ConfigTheme {
    fn from(item: ArgThemeMode) -> (r: Self) {
        match item {
            ArgThemeMode::Auto => ConfigTheme::Auto,
            ArgThemeMode::Dark => ConfigTheme::Dark,
            ArgThemeMode::Light => ConfigTheme::Light,
        }
    }
}

impl vstd::std_specs::convert::FromSpecImpl<ArgThemeMode> for ConfigTheme {
    open spec fn obeys_from_spec() -> bool {
        true
    }

    open spec fn from_spec(item: ArgThemeMode) -> Self {
        spec_theme_from_arg(item)
    }
}

} // verus!
