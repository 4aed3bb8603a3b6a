//! Geometry for bar, line and pie charts.
//!
//! Every quantity is a fixed-point integer: a world value or a view
//! coordinate `v` stands for `v / SCALE`, an angle is in thousandths of a
//! degree. The layout functions turn numeric series into line segments,
//! anchor points and slice angles that a renderer draws.

pub mod charts;
pub mod format;
pub mod grid;
pub mod scale;
pub mod types;
pub mod utils;

pub use crate::charts::bar::{bar_layout, BarChartProps, BarLayout};
pub use crate::charts::line::{line_layout, LineChartProps, LineLayout};
pub use crate::charts::pie::{pie_layout, LabelPosition, PieChartProps, PieLayout};
pub use crate::grid::{Axis, AxisBuilder, Direction, Grid};
pub use crate::types::{ChartError, Point, Rect, TextData};
