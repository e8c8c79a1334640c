//! Verified core of the TuxMate companion: package identifiers, host
//! distribution facts, registry lookups, and the generation of the shell
//! command that installs the requested applications.

pub mod text;
pub mod package;
pub mod distro;
pub mod target_map;
pub mod registry;
pub mod probe;
pub mod generate;
pub mod tui;
