//! Core of an interactive process-listing tool: per-process column storage
//! and search, width-aware text rendering, command-path abbreviation,
//! numeric formatting helpers, and theme resolution.

pub mod column;
pub mod config;
pub mod kind;
pub mod numfmt;
pub mod pathshort;
pub mod render;
pub mod search;
pub mod text;
pub mod theme;
pub mod width;
