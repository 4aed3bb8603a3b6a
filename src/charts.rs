//! Per-chart geometry.

pub mod bar;
pub mod line;
pub mod pie;
