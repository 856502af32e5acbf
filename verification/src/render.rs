//! Helpers of rendering.

pub mod highlight;
