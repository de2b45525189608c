//! Mirrors the regular files of several source trees into one destination
//! tree of symbolic links: paths are mapped, exclusion patterns applied,
//! destinations deduplicated across folders, and each destination's current
//! state turned into a plan of filesystem steps.

pub mod config;
pub mod dedup;
pub mod engine;
pub mod laws;
pub mod paths;
pub mod pattern;
pub mod resolve;
pub mod run;
pub mod text;
