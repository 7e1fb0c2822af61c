//! Resolution of user-supplied project locators for Nilla projects.
//!
//! A locator string (a local path, a `git:`/`github:`/`gitlab:` reference,
//! or an archive URL) is classified, its parameters are extracted, and the
//! result is turned into a canonical [`project::Source`] from which later
//! commands read the fixed-name project manifest.  Everything that decides
//! or computes lives here; the thin shell that spawns the external Nix
//! engine and touches the terminal lives outside the library.

pub mod cli;
pub mod errors;
pub mod fsio;
pub mod jsontext;
pub mod locator;
pub mod nix;
pub mod plugin_metadata;
pub mod plugins;
pub mod project;
pub mod search;
pub mod strutil;
