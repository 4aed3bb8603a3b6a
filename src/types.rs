//! Fixed-point view geometry: points, boxes and text anchors.

use vstd::prelude::*;

verus! {

/// Fixed-point denominator: the integer `v` stands for `v / SCALE`.
pub const SCALE: i64 = 1000;

/// Largest magnitude accepted for a world value (a series value, a bound or a
/// running stack total), in fixed-point units.
pub const VALUE_LIMIT: i64 = 1_000_000_000_000_000;

/// Largest magnitude of a view-box coordinate or length, in fixed-point units.
pub const VIEW_LIMIT: i128 = 4_000_000_000_000;

/// Largest magnitude of a coordinate that a world-to-view mapping can produce.
pub const COORD_LIMIT: i128 = 1_000_000_000_000_000_000_000_000_000_000_000;

/// The one error of this library: the input cannot be laid out.
#[derive(Clone, Copy, Debug, PartialEq, Eq, Structural)]
pub enum ChartError {
    InvalidInput,
}

/// A point of view space, in fixed-point units.
#[derive(Clone, Copy, Debug, PartialEq, Eq, Structural)]
pub struct Point {
    pub x: i128,
    pub y: i128,
}

impl Point {
    pub fn new(x: i128, y: i128) -> (r: Point)
        ensures
            r.x == x,
            r.y == y,
    {
        Point { x, y }
    }
}

/// Two corners of a box; a segment when one extent is zero.
#[derive(Clone, Copy, Debug, PartialEq, Eq, Structural)]
pub struct Rect {
    pub min: Point,
    pub max: Point,
}

pub open spec fn rect(x1: int, y1: int, x2: int, y2: int) -> Rect {
    Rect { min: Point { x: x1 as i128, y: y1 as i128 }, max: Point { x: x2 as i128, y: y2 as i128 } }
}

pub open spec fn in_view_range(v: int) -> bool {
    -VIEW_LIMIT <= v <= VIEW_LIMIT
}

impl Rect {
    pub fn new(x1: i128, y1: i128, x2: i128, y2: i128) -> (r: Rect)
        ensures
            r == rect(x1 as int, y1 as int, x2 as int, y2 as int),
    {
        Rect { min: Point::new(x1, y1), max: Point::new(x2, y2) }
    }

    /// The box lies within the range accepted for a view box.
    pub open spec fn wf(&self) -> bool {
        in_view_range(self.min.x as int) && in_view_range(self.min.y as int)
            && in_view_range(self.max.x as int) && in_view_range(self.max.y as int)
    }

    pub fn width(&self) -> (r: i128)
        requires
            self.wf(),
        ensures
            r == self.max.x - self.min.x,
    {
        self.max.x - self.min.x
    }

    pub fn height(&self) -> (r: i128)
        requires
            self.wf(),
        ensures
            r == self.max.y - self.min.y,
    {
        self.max.y - self.min.y
    }
}

/// Horizontal alignment of a text anchor.
#[derive(Clone, Copy, Debug, PartialEq, Eq, Structural)]
pub enum TextAnchor {
    Start,
    Middle,
    End,
}

/// Vertical alignment of a text anchor.
#[derive(Clone, Copy, Debug, PartialEq, Eq, Structural)]
pub enum Baseline {
    Hanging,
    Middle,
    TextBottom,
}

impl TextAnchor {
    /// The name of the alignment in SVG.
    pub fn as_str(&self) -> (r: &'static str)
        ensures
            r@ == match self {
                TextAnchor::Start => "start"@,
                TextAnchor::Middle => "middle"@,
                TextAnchor::End => "end"@,
            },
    {
        match self {
            TextAnchor::Start => "start",
            TextAnchor::Middle => "middle",
            TextAnchor::End => "end",
        }
    }
}

impl Baseline {
    /// The name of the alignment in SVG.
    pub fn as_str(&self) -> (r: &'static str)
        ensures
            r@ == match self {
                Baseline::Hanging => "hanging"@,
                Baseline::Middle => "middle"@,
                Baseline::TextBottom => "text-bottom"@,
            },
    {
        match self {
            Baseline::Hanging => "hanging",
            Baseline::Middle => "middle",
            Baseline::TextBottom => "text-bottom",
        }
    }
}

/// Where a text goes and how it is aligned there.
#[derive(Clone, Copy, Debug, PartialEq, Eq, Structural)]
pub struct TextData {
    pub x: i128,
    pub y: i128,
    pub anchor: TextAnchor,
    pub baseline: Baseline,
}

impl Default for TextData {
    fn default() -> (r: TextData)
        ensures
            r == (TextData { x: 0, y: 0, anchor: TextAnchor::Start, baseline: Baseline::TextBottom }),
    {
        TextData { x: 0, y: 0, anchor: TextAnchor::Start, baseline: Baseline::TextBottom }
    }
}

} // verus!
