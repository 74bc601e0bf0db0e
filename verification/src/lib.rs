//! Reclaims the disk space that stale outputs of cargo builds take up.
//!
//! A profile directory gathers, build after build, artifacts, fingerprints and
//! incremental-compilation sessions under names that end in a hash. This
//! library tells which of them the current build still needs, selects the
//! others for removal and keeps the account of a removal run. It touches no
//! file itself: listings go in, and what is to be removed comes out.

pub mod args;
pub mod beatrice;
pub mod config;
pub mod error;
pub mod gc;
pub mod incremental;
pub mod library;
pub mod outputs;
pub mod paths;
pub mod scan;
pub mod string_set;
pub mod text;
pub mod utils;
