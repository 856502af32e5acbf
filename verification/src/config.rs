//! Configuration types.

pub mod theme;
