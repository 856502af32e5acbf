//! First-run screens.

pub mod trust_directory;
