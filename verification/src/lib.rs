//! Plugins for a desktop launcher: the line protocol, fuzzy resolution of
//! queries, and the per-plugin state machines, with machine-checked contracts.

pub mod commando;
pub mod config;
pub mod fuzzy;
pub mod kicad;
pub mod media;
pub mod notmuch;
pub mod plugin;
pub mod protocol;
pub mod rank;
pub mod results;
pub mod rustdocs;
pub mod text;
