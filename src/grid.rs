//! Axes and grids: value and category scales, and the geometry of ticks,
//! grid lines and labels.

use vstd::prelude::*;

use crate::types::{
    rect, Baseline, ChartError, Point, Rect, TextAnchor, TextData, COORD_LIMIT, SCALE,
    VALUE_LIMIT, VIEW_LIMIT,
};
use crate::scale::{
    nice_step, nice_step_of, rows_nonempty, rows_of, series_extremes, series_max, series_min,
    stack_end, stack_ok, stack_valid, stacked_highest, stacked_max, column_max_upto, values_in_range,
    values_ok,
};
use crate::format::{decimal_text, format_fixed};
use crate::utils::floor_div;

verus! {

/// Gap between an axis line and its labels.
pub const LABEL_OFFSET: i128 = 6000;

/// Length of a grid tick when only ticks are drawn.
pub const TICK_SIZE: i128 = 10000;

/// Largest number of ticks of an axis.
pub const STEP_LIMIT: i64 = 0x8000_0000;

/// Largest magnitude of an axis's start, span and step.
pub const WORLD_LIMIT: i64 = 100_000_000_000_000_000;

/// The screen direction that an axis maps its values along.
///
/// A `Vertical` axis has vertical grid lines and places values along the
/// view's width; a `Horizontal` axis has horizontal grid lines and places
/// values along the view's height, larger values higher up.
#[derive(Clone, Copy, Debug, PartialEq, Eq, Structural)]
pub enum Direction {
    Horizontal,
    Vertical,
}

/// One dimension of a chart: a scale from world values to view coordinates.
///
/// `steps` ticks divide the span `world` evenly; a continuous axis starts
/// at `world_start` and labels its ticks `step_len` apart. A categorical
/// axis counts in thousandths of a category.
#[derive(Clone, Copy, Debug, PartialEq, Eq, Structural)]
pub struct Axis {
    pub view: Rect,
    pub step_len: i64,
    pub steps: i64,
    pub world_start: i64,
    pub world: i64,
    pub grid_ticks: bool,
    pub label_size: i64,
    pub direction: Direction,
}

/// The world value of tick `i`.
pub open spec fn tick_world(a: Axis, i: int) -> int {
    if a.steps >= 2 {
        a.world * i / (a.steps - 1)
    } else {
        0
    }
}

/// The view coordinate of world value `v`.
pub open spec fn view_of(a: Axis, v: int, start_offset: int) -> int {
    if a.world > 0 {
        match a.direction {
            Direction::Vertical => v * (a.view.max.x - a.view.min.x) / (a.world as int)
                + a.view.min.x,
            Direction::Horizontal => a.view.max.y - (v - start_offset) * (a.view.max.y
                - a.view.min.y) / (a.world as int),
        }
    } else {
        0
    }
}

/// The view coordinate of tick `i`.
pub open spec fn tick_view(a: Axis, i: int) -> int {
    view_of(a, tick_world(a, i), 0)
}

/// The grid line of tick `i`.
pub open spec fn line_at(a: Axis, i: int) -> Rect {
    let v = tick_view(a, i);
    let short = a.grid_ticks && i != 0;
    match a.direction {
        Direction::Vertical => rect(
            v,
            a.view.max.y as int,
            v,
            if short { a.view.max.y - TICK_SIZE } else { a.view.min.y as int },
        ),
        Direction::Horizontal => rect(
            a.view.min.x as int,
            v,
            if short { a.view.min.x + TICK_SIZE } else { a.view.max.x as int },
            v,
        ),
    }
}

/// The number of bands between consecutive ticks.
pub open spec fn band_count(a: Axis) -> int {
    if a.steps >= 1 {
        a.steps - 1
    } else {
        0
    }
}

/// The middle of the band between ticks `j` and `j + 1`, on the axis line.
pub open spec fn band_center(a: Axis, j: int) -> Point {
    let c = (tick_view(a, j) + tick_view(a, j + 1)) / 2;
    match a.direction {
        Direction::Vertical => Point { x: c as i128, y: a.view.max.y },
        Direction::Horizontal => Point { x: a.view.min.x, y: c as i128 },
    }
}

/// The `k`-th entry of `tick_centers`: bands in order along a vertical axis,
/// in reverse order along a horizontal one.
pub open spec fn center_at(a: Axis, k: int) -> Point {
    match a.direction {
        Direction::Vertical => band_center(a, k),
        Direction::Horizontal => band_center(a, band_count(a) - 1 - k),
    }
}

/// The number of category label boxes for `n` labels.
pub open spec fn text_rect_count(a: Axis, n: int) -> int {
    let m = if a.steps < n + 1 { a.steps as int } else { n + 1 };
    if m >= 1 {
        m - 1
    } else {
        0
    }
}

/// The box of the label of band `k`, as position and size.
pub open spec fn text_rect_at(a: Axis, k: int) -> Rect {
    let v1 = tick_view(a, k);
    let v2 = tick_view(a, k + 1);
    match a.direction {
        Direction::Vertical => rect(v1, a.view.max.y + LABEL_OFFSET, v2 - v1, a.label_size as int),
        Direction::Horizontal => rect(
            a.view.min.x - LABEL_OFFSET - a.label_size,
            v2,
            a.label_size as int,
            v1 - v2,
        ),
    }
}

/// The number of tick label anchors for `n` labels.
pub open spec fn text_count(a: Axis, n: int) -> int {
    if a.steps < n {
        a.steps as int
    } else {
        n
    }
}

/// The anchor of the label of tick `i`.
pub open spec fn text_at(a: Axis, i: int) -> TextData {
    let v = tick_view(a, i);
    match a.direction {
        Direction::Vertical => TextData {
            x: v as i128,
            y: (a.view.max.y + LABEL_OFFSET) as i128,
            anchor: TextAnchor::Start,
            baseline: Baseline::Hanging,
        },
        Direction::Horizontal => TextData {
            x: (a.view.min.x - LABEL_OFFSET) as i128,
            y: v as i128,
            anchor: TextAnchor::End,
            baseline: Baseline::TextBottom,
        },
    }
}

/// The value of generated label `i`.
pub open spec fn label_value(a: Axis, i: int) -> int {
    a.world_start + i * a.step_len
}

pub open spec fn in_coord_range(v: int) -> bool {
    -COORD_LIMIT <= v <= COORD_LIMIT
}

proof fn lemma_div_bound(p: int, w: int, b: int)
    requires
        w >= 1,
        -b <= p <= b,
    ensures
        -b <= p / w <= b,
{
    assert(-b <= p / w <= b) by (nonlinear_arith)
        requires w >= 1, -b <= p <= b;
}

impl Axis {
    /// The ranges within which the axis's numbers stay.
    pub open spec fn wf(&self) -> bool {
        &&& self.view.wf()
        &&& 0 <= self.steps <= STEP_LIMIT
        &&& 0 <= self.world <= WORLD_LIMIT
        &&& -WORLD_LIMIT <= self.world_start <= WORLD_LIMIT
        &&& 0 <= self.step_len <= WORLD_LIMIT
        &&& -VIEW_LIMIT <= self.label_size <= VIEW_LIMIT
    }

    /// Maps world value `v` to a view coordinate; a horizontal axis first
    /// subtracts `start_offset`. An axis of zero span maps everything to 0.
    #[verifier::spinoff_prover]
    #[verifier::rlimit(40)]
    pub fn world_to_view(&self, v: i64, start_offset: i64) -> (r: i128)
        requires
            self.wf(),
        ensures
            r == view_of(*self, v as int, start_offset as int),
            in_coord_range(r as int),
    {
        if self.world > 0 {
            match self.direction {
                Direction::Vertical => {
                    let w = self.view.max.x - self.view.min.x;
                    assert(-0x8000_0000_0000_0000 * 0x800_0000_0000 <= v * w
                        <= 0x8000_0000_0000_0000 * 0x800_0000_0000) by (nonlinear_arith)
                        requires
                            -0x8000_0000_0000_0000 <= v <= 0x8000_0000_0000_0000,
                            -0x800_0000_0000 <= w <= 0x800_0000_0000;
                    let p = (v as i128) * w;
                    let q = floor_div(p, self.world as i128);
                    proof {
                        lemma_div_bound(p as int, self.world as int, (0x8000_0000_0000_0000 * 0x800_0000_0000) as int);
                    }
                    q + self.view.min.x
                },
                Direction::Horizontal => {
                    let h = self.view.max.y - self.view.min.y;
                    let d = (v as i128) - (start_offset as i128);
                    assert(-0x1_0000_0000_0000_0000 * 0x800_0000_0000 <= d * h
                        <= 0x1_0000_0000_0000_0000 * 0x800_0000_0000) by (nonlinear_arith)
                        requires
                            -0x1_0000_0000_0000_0000 <= d <= 0x1_0000_0000_0000_0000,
                            -0x800_0000_0000 <= h <= 0x800_0000_0000;
                    let p = d * h;
                    let q = floor_div(p, self.world as i128);
                    proof {
                        lemma_div_bound(p as int, self.world as int, (0x1_0000_0000_0000_0000 * 0x800_0000_0000) as int);
                    }
                    self.view.max.y - q
                },
            }
        } else {
            0
        }
    }

    /// The world value of tick `i`: the span divided evenly among the ticks.
    pub fn step_to_world(&self, i: i64) -> (r: i64)
        requires
            self.wf(),
            0 <= i <= self.steps,
        ensures
            r == tick_world(*self, i as int),
            0 <= r <= 2 * self.world,
    {
        if self.steps >= 2 {
            assert(0 <= self.world * i <= WORLD_LIMIT * STEP_LIMIT) by (nonlinear_arith)
                requires 0 <= self.world <= WORLD_LIMIT, 0 <= i <= STEP_LIMIT;
            let p = (self.world as i128) * (i as i128);
            let d = (self.steps - 1) as i128;
            let q = p / d;
            assert(0 <= q <= 2 * self.world) by (nonlinear_arith)
                requires
                    q == p / d,
                    p == self.world * i,
                    d == self.steps - 1,
                    d >= 1,
                    0 <= i <= self.steps,
                    self.world >= 0;
            q as i64
        } else {
            0
        }
    }

    /// The view coordinate of tick `i`.
    fn tick_to_view(&self, i: i64) -> (r: i128)
        requires
            self.wf(),
            0 <= i <= self.steps,
        ensures
            r == tick_view(*self, i as int),
            in_coord_range(r as int),
    {
        let w = self.step_to_world(i);
        self.world_to_view(w, 0)
    }

    /// One grid line per tick, across the whole view, or as a short tick
    /// mark for every tick but the first when only ticks are drawn.
    pub fn lines(&self) -> (r: Vec<Rect>)
        requires
            self.wf(),
        ensures
            r@.len() == self.steps,
            forall|i: int| 0 <= i < self.steps ==> #[trigger] r@[i] == line_at(*self, i),
    {
        let mut lines: Vec<Rect> = Vec::new();
        let mut i: i64 = 0;
        while i < self.steps
            invariant
                self.wf(),
                0 <= i <= self.steps,
                lines@.len() == i,
                forall|j: int| 0 <= j < i ==> #[trigger] lines@[j] == line_at(*self, j),
            decreases self.steps - i,
        {
            let v = self.tick_to_view(i);
            let short = self.grid_ticks && i != 0;
            let line = match self.direction {
                Direction::Vertical => {
                    let end = if short { self.view.max.y - TICK_SIZE } else { self.view.min.y };
                    Rect::new(v, self.view.max.y, v, end)
                },
                Direction::Horizontal => {
                    let end = if short { self.view.min.x + TICK_SIZE } else { self.view.max.x };
                    Rect::new(self.view.min.x, v, end, v)
                },
            };
            lines.push(line);
            i = i + 1;
        }
        lines
    }

    /// The middles of the bands between consecutive ticks, where bars and
    /// category points go; reversed along a horizontal axis so that the
    /// first category comes first from the top.
    #[verifier::spinoff_prover]
    #[verifier::rlimit(40)]
    pub fn tick_centers(&self) -> (r: Vec<Point>)
        requires
            self.wf(),
        ensures
            r@.len() == band_count(*self),
            forall|k: int| 0 <= k < band_count(*self) ==> #[trigger] r@[k] == center_at(*self, k),
            forall|k: int|
                0 <= k < band_count(*self) ==> in_coord_range(#[trigger] r@[k].x as int)
                    && in_coord_range(r@[k].y as int),
    {
        let n: i64 = if self.steps >= 1 { self.steps - 1 } else { 0 };
        let mut points: Vec<Point> = Vec::new();
        let mut k: i64 = 0;
        while k < n
            invariant
                self.wf(),
                n == band_count(*self),
                0 <= k <= n,
                points@.len() == k,
                forall|j: int| 0 <= j < k ==> #[trigger] points@[j] == center_at(*self, j),
                forall|j: int|
                    0 <= j < k ==> in_coord_range(#[trigger] points@[j].x as int) && in_coord_range(
                        points@[j].y as int,
                    ),
            decreases n - k,
        {
            let j = match self.direction {
                Direction::Vertical => k,
                Direction::Horizontal => n - 1 - k,
            };
            let v1 = self.tick_to_view(j);
            let v2 = self.tick_to_view(j + 1);
            let c = floor_div(v1 + v2, 2);
            proof {
                lemma_div_bound((v1 + v2) as int, 2, 2 * COORD_LIMIT);
                assert(-COORD_LIMIT <= c <= COORD_LIMIT) by (nonlinear_arith)
                    requires c == (v1 + v2) / 2, -COORD_LIMIT <= v1 <= COORD_LIMIT, -COORD_LIMIT <= v2 <= COORD_LIMIT;
            }
            let p = match self.direction {
                Direction::Vertical => Point::new(c, self.view.max.y),
                Direction::Horizontal => Point::new(self.view.min.x, c),
            };
            points.push(p);
            k = k + 1;
        }
        points
    }

    /// The boxes of the first `n_labels` category labels, one per band,
    /// set off from the axis line; each holds its position in `min` and its
    /// size in `max`.
    pub fn centered_text_rects(&self, n_labels: usize) -> (r: Vec<Rect>)
        requires
            self.wf(),
        ensures
            r@.len() == text_rect_count(*self, n_labels as int),
            forall|k: int|
                0 <= k < text_rect_count(*self, n_labels as int) ==> #[trigger] r@[k]
                    == text_rect_at(*self, k),
    {
        let m: i64 = if (self.steps as u128) < (n_labels as u128) + 1 {
            self.steps
        } else {
            n_labels as i64 + 1
        };
        let n: i64 = if m >= 1 { m - 1 } else { 0 };
        let mut texts: Vec<Rect> = Vec::new();
        let mut k: i64 = 0;
        while k < n
            invariant
                self.wf(),
                n == text_rect_count(*self, n_labels as int),
                n < self.steps || n == 0,
                0 <= k <= n,
                texts@.len() == k,
                forall|j: int| 0 <= j < k ==> #[trigger] texts@[j] == text_rect_at(*self, j),
            decreases n - k,
        {
            let v1 = self.tick_to_view(k);
            let v2 = self.tick_to_view(k + 1);
            let size = self.label_size as i128;
            let t = match self.direction {
                Direction::Vertical => Rect::new(v1, self.view.max.y + LABEL_OFFSET, v2 - v1, size),
                Direction::Horizontal => Rect::new(
                    self.view.min.x - LABEL_OFFSET - size,
                    v2,
                    size,
                    v1 - v2,
                ),
            };
            texts.push(t);
            k = k + 1;
        }
        texts
    }

    /// The anchors of the first `n_labels` tick labels, one per tick.
    pub fn text_data(&self, n_labels: usize) -> (r: Vec<TextData>)
        requires
            self.wf(),
        ensures
            r@.len() == text_count(*self, n_labels as int),
            forall|i: int|
                0 <= i < text_count(*self, n_labels as int) ==> #[trigger] r@[i] == text_at(
                    *self,
                    i,
                ),
    {
        let n: i64 = if (self.steps as u128) < (n_labels as u128) {
            self.steps
        } else {
            n_labels as i64
        };
        let mut texts: Vec<TextData> = Vec::new();
        let mut i: i64 = 0;
        while i < n
            invariant
                self.wf(),
                n == text_count(*self, n_labels as int),
                n <= self.steps,
                0 <= i <= n,
                texts@.len() == i,
                forall|j: int| 0 <= j < i ==> #[trigger] texts@[j] == text_at(*self, j),
            decreases n - i,
        {
            let v = self.tick_to_view(i);
            let t = match self.direction {
                Direction::Vertical => TextData {
                    x: v,
                    y: self.view.max.y + LABEL_OFFSET,
                    anchor: TextAnchor::Start,
                    baseline: Baseline::Hanging,
                },
                Direction::Horizontal => TextData {
                    x: self.view.min.x - LABEL_OFFSET,
                    y: v,
                    anchor: TextAnchor::End,
                    baseline: Baseline::TextBottom,
                },
            };
            texts.push(t);
            i = i + 1;
        }
        texts
    }

    /// The values of the tick labels, `world_start + i * step_len` for `i`
    /// from 0 to `steps` inclusive.
    pub fn label_values(&self) -> (r: Vec<i128>)
        requires
            self.wf(),
        ensures
            r@.len() == self.steps + 1,
            forall|i: int| 0 <= i <= self.steps ==> #[trigger] r@[i] == label_value(*self, i),
    {
        let mut labels: Vec<i128> = Vec::new();
        let mut i: i64 = 0;
        while i <= self.steps
            invariant
                self.wf(),
                0 <= i <= self.steps + 1,
                labels@.len() == i,
                forall|j: int| 0 <= j < i ==> #[trigger] labels@[j] == label_value(*self, j),
            decreases self.steps + 1 - i,
        {
            assert(0 <= i * self.step_len <= 0x8000_0001 * WORLD_LIMIT) by (nonlinear_arith)
                requires 0 <= i <= 0x8000_0001, 0 <= self.step_len <= WORLD_LIMIT;
            let p = (i as i128) * (self.step_len as i128);
            labels.push(self.world_start as i128 + p);
            i = i + 1;
        }
        labels
    }

    /// The texts of the tick labels: each label value in shortest decimal.
    pub fn generated_labels(&self) -> (r: Vec<String>)
        requires
            self.wf(),
        ensures
            r@.len() == self.steps + 1,
            forall|i: int| 0 <= i <= self.steps ==> #[trigger] r@[i]@ == decimal_text(label_value(*self, i)),
    {
        let values = self.label_values();
        let mut labels: Vec<String> = Vec::new();
        let mut i: usize = 0;
        while i < values.len()
            invariant
                self.wf(),
                values@.len() == self.steps + 1,
                forall|j: int| 0 <= j <= self.steps ==> #[trigger] values@[j] == label_value(*self, j),
                0 <= i <= values@.len(),
                labels@.len() == i,
                forall|j: int| 0 <= j < i ==> #[trigger] labels@[j]@ == decimal_text(label_value(*self, j)),
            decreases values@.len() - i,
        {
            assert(-WORLD_LIMIT - 0x8000_0001 * WORLD_LIMIT <= values@[i as int]);
            labels.push(format_fixed(values[i]));
            i = i + 1;
        }
        labels
    }
}

/// Collects the settings of an axis; `build` turns them into an [`Axis`].
///
/// With a series the axis is a continuous value scale; otherwise, with a
/// label count, a categorical one; with neither, the empty default axis.
pub struct AxisBuilder<'a> {
    pub view: Rect,
    /// A fixed lowest value of a continuous axis.
    pub lowest: Option<i64>,
    /// A fixed highest value of a continuous axis.
    pub highest: Option<i64>,
    pub direction: Direction,
    /// Whether category labels sit between ticks rather than on them.
    pub labels_centered: bool,
    /// The size of a category label box, in fixed-point units.
    pub label_size: i64,
    pub grid_ticks: bool,
    /// The tick budget of a continuous axis; below three counts as three.
    pub max_ticks: i32,
    /// Whether the series is drawn as stacked bars.
    pub stacked_series: bool,
    pub series: Option<&'a Vec<Vec<i64>>>,
    /// The number of category labels.
    pub labels: Option<usize>,
}

/// The axis with no ticks.
pub open spec fn default_axis() -> Axis {
    Axis {
        view: rect(0, 0, 0, 0),
        step_len: 0,
        steps: 0,
        world_start: 0,
        world: 0,
        grid_ticks: false,
        label_size: (60 * SCALE) as i64,
        direction: Direction::Horizontal,
    }
}

impl Default for Axis {
    fn default() -> (r: Axis)
        ensures
            r == default_axis(),
    {
        Axis {
            view: Rect::new(0, 0, 0, 0),
            step_len: 0,
            steps: 0,
            world_start: 0,
            world: 0,
            grid_ticks: false,
            label_size: 60 * SCALE,
            direction: Direction::Horizontal,
        }
    }
}

/// The largest multiple of `step` at or below `v`.
pub open spec fn floor_to(v: int, step: int) -> int {
    (v / step) * step
}

/// The smallest multiple of `step` at or above `v`.
pub open spec fn ceil_to(v: int, step: int) -> int {
    -((-v) / step) * step
}

pub proof fn lemma_round_to(v: int, step: int)
    requires
        step > 0,
    ensures
        floor_to(v, step) <= v < floor_to(v, step) + step,
        ceil_to(v, step) - step < v <= ceil_to(v, step),
{
    vstd::arithmetic::div_mod::lemma_fundamental_div_mod(v, step);
    vstd::arithmetic::div_mod::lemma_fundamental_div_mod(-v, step);
    vstd::arithmetic::div_mod::lemma_mod_bound(v, step);
    vstd::arithmetic::div_mod::lemma_mod_bound(-v, step);
    assert((v / step) * step == step * (v / step)) by (nonlinear_arith);
    assert(-((-v) / step) * step == -(step * ((-v) / step))) by (nonlinear_arith);
}

/// The value range of a continuous axis, as (lowest, highest): the bounds
/// given, else the extremes of the data (the largest column total when
/// the bars are stacked).
pub open spec fn value_bounds(b: AxisBuilder, s: Seq<Seq<i64>>) -> (int, int) {
    let hi = match b.highest {
        Some(h) => h as int,
        None => if b.stacked_series {
            stacked_max(s)
        } else {
            series_max(s)
        },
    };
    let lo = match b.lowest {
        Some(l) => l as int,
        None => series_min(s),
    };
    (lo, hi)
}

/// The tick budget, at least three.
pub open spec fn tick_budget(b: AxisBuilder) -> int {
    if b.max_ticks < 3 {
        3
    } else {
        b.max_ticks as int
    }
}

/// Whether a continuous axis can be built on the series.
pub open spec fn continuous_ok(b: AxisBuilder, s: Seq<Seq<i64>>) -> bool {
    &&& rows_nonempty(s)
    &&& values_in_range(s)
    &&& b.stacked_series ==> stack_valid(s)
    &&& (match b.lowest {
        Some(l) => -VALUE_LIMIT <= l <= VALUE_LIMIT,
        None => true,
    })
    &&& (match b.highest {
        Some(h) => -VALUE_LIMIT <= h <= VALUE_LIMIT,
        None => true,
    })
    &&& value_bounds(b, s).0 < value_bounds(b, s).1
}

/// The nice step of the continuous axis on the series.
pub open spec fn axis_step(b: AxisBuilder, s: Seq<Seq<i64>>) -> int {
    let (lo, hi) = value_bounds(b, s);
    nice_step_of(hi - lo, tick_budget(b) - 2)
}

/// The continuous axis: the value range widened to multiples of the nice
/// step, except at a bound that was given; the tick count is the span in
/// steps, rounded half up, plus one. With exact arithmetic the widened
/// bounds always enclose the range, so no further step is ever added.
pub open spec fn continuous_axis(b: AxisBuilder, s: Seq<Seq<i64>>) -> Axis {
    let (lo, hi) = value_bounds(b, s);
    let step = axis_step(b, s);
    let max = if b.highest is Some {
        hi
    } else {
        ceil_to(hi, step)
    };
    let min = if b.lowest is Some {
        lo
    } else {
        floor_to(lo, step)
    };
    let range = max - min;
    Axis {
        view: b.view,
        step_len: step as i64,
        steps: ((2 * range + step) / (2 * step) + 1) as i64,
        world_start: min as i64,
        world: range as i64,
        grid_ticks: b.grid_ticks,
        label_size: b.label_size,
        direction: b.direction,
    }
}

/// The number of ticks of a categorical axis with `n` labels.
pub open spec fn category_steps(b: AxisBuilder, n: int) -> int {
    if b.labels_centered {
        n + 1
    } else {
        n
    }
}

/// The categorical axis: one tick per label, or one more when the labels
/// sit between ticks.
pub open spec fn categorical_axis(b: AxisBuilder, n: int) -> Axis {
    let steps = category_steps(b, n);
    Axis {
        view: b.view,
        step_len: (if steps >= 2 {
            steps * (SCALE as int) / (steps - 1)
        } else {
            0
        }) as i64,
        steps: steps as i64,
        world_start: 0,
        world: (steps * (SCALE as int)) as i64,
        grid_ticks: b.grid_ticks,
        label_size: b.label_size,
        direction: b.direction,
    }
}

/// What `build` returns.
pub open spec fn build_result(b: AxisBuilder) -> Result<Axis, ChartError> {
    if !b.view.wf() || !(-VIEW_LIMIT <= b.label_size <= VIEW_LIMIT) {
        Err(ChartError::InvalidInput)
    } else {
        match b.series {
            Some(series) => if continuous_ok(b, rows_of(series)) {
                Ok(continuous_axis(b, rows_of(series)))
            } else {
                Err(ChartError::InvalidInput)
            },
            None => match b.labels {
                Some(n) => if category_steps(b, n as int) <= STEP_LIMIT {
                    Ok(categorical_axis(b, n as int))
                } else {
                    Err(ChartError::InvalidInput)
                },
                None => Ok(default_axis()),
            },
        }
    }
}

pub proof fn lemma_column_max_in(s: Seq<Seq<i64>>, n: int)
    requires
        rows_nonempty(s),
        stack_valid(s),
        1 <= n <= s[0].len(),
    ensures
        exists|j: int| 0 <= j < n && column_max_upto(s, n) == #[trigger] stack_end(s, s.len() - 1, j),
        forall|j: int| 0 <= j < n ==> column_max_upto(s, n) >= #[trigger] stack_end(s, s.len() - 1, j),
    decreases n,
{
    if n > 1 {
        lemma_column_max_in(s, n - 1);
        let j0 = choose|j: int| 0 <= j < n - 1 && column_max_upto(s, n - 1) == #[trigger] stack_end(s, s.len() - 1, j);
        if column_max_upto(s, n) == stack_end(s, s.len() - 1, n - 1) {
            assert(0 <= n - 1 < n);
        } else {
            assert(column_max_upto(s, n) == stack_end(s, s.len() - 1, j0));
        }
    } else {
        assert(column_max_upto(s, n) == stack_end(s, s.len() - 1, 0));
    }
}

/// The ticks of a continuous axis cover the values. The step is positive
/// and there is at least one tick. A bound that was given is kept exactly.
/// Where the lowest bound was not given, the axis starts at or below every
/// value. Where the highest bound was not given, the span of the axis ends at
/// or above the highest value (for stacked bars, the highest column total).
/// Where neither was given, the span is a whole number of steps, so the last
/// tick also lies at or above the highest value; where only the lowest was
/// given, the last tick may fall short of it, as the tick count is rounded.
/// With a raw step of at least ten fixed-point units there are at least three
/// ticks, for a budget of at least four ticks when no bound was given and of
/// at least five otherwise; a budget of three can give two ticks.
#[verifier::spinoff_prover]
#[verifier::rlimit(40)]
pub proof fn lemma_continuous_axis_covers(b: AxisBuilder, series: &Vec<Vec<i64>>)
    requires
        b.series == Some(series),
        build_result(b) is Ok,
    ensures
        ({
            let a = build_result(b)->Ok_0;
            let s = rows_of(series);
            let lo = value_bounds(b, s).0;
            let hi = value_bounds(b, s).1;
            let last = a.world_start + a.step_len * (a.steps - 1);
            &&& a.step_len > 0
            &&& a.steps >= 1
            &&& (b.lowest matches Some(l) ==> a.world_start == l)
            &&& (b.highest matches Some(h) ==> a.world_start + a.world == h)
            &&& (b.lowest is None ==> a.world_start <= lo)
            &&& (b.lowest is None ==> forall|k: int, j: int|
                0 <= k < s.len() && 0 <= j < s[k].len() ==> a.world_start <= #[trigger] s[k][j])
            &&& (b.highest is None ==> a.world_start + a.world >= hi)
            &&& (tick_budget(b) >= 5 && hi - lo >= 10 * (tick_budget(b) - 2) ==> a.steps >= 3)
            &&& (b.lowest is None && b.highest is None ==> {
                &&& a.world == a.step_len * (a.steps - 1)
                &&& last >= hi
                &&& (!b.stacked_series ==> forall|k: int, j: int|
                    0 <= k < s.len() && 0 <= j < s[k].len() ==> #[trigger] s[k][j] <= last)
                &&& (b.stacked_series ==> forall|j: int|
                    0 <= j < s[0].len() ==> #[trigger] stack_end(s, s.len() - 1, j) <= last)
                &&& (tick_budget(b) >= 4 && hi - lo >= 10 * (tick_budget(b) - 2) ==> a.steps >= 3)
            })
        }),
{
    let s = rows_of(series);
    let lo = value_bounds(b, s).0;
    let hi = value_bounds(b, s).1;
    let d = tick_budget(b) - 2;
    let step = axis_step(b, s);
    crate::scale::lemma_nice_step(hi - lo, d);
    crate::scale::lemma_series_max_is_max(s);
    if b.stacked_series {
        lemma_column_max_in(s, s[0].len() as int);
    }
    lemma_round_to(hi, step);
    lemma_round_to(lo, step);
    let a = continuous_axis(b, s);
    let max = if b.highest is Some { hi } else { ceil_to(hi, step) };
    let min = if b.lowest is Some { lo } else { floor_to(lo, step) };
    let world = max - min;
    assert(world > 0);
    assert(world < hi - lo + 2 * step);
    assert(-VALUE_LIMIT <= lo && hi <= VALUE_LIMIT) by {
        let (k0, j0) = choose|k: int, j: int| 0 <= k < s.len() && 0 <= j < s[k].len() && s[k][j] == series_max(s);
        let (k1, j1) = choose|k: int, j: int| 0 <= k < s.len() && 0 <= j < s[k].len() && s[k][j] == series_min(s);
        assert(-VALUE_LIMIT <= s[k0][j0] <= VALUE_LIMIT);
        assert(-VALUE_LIMIT <= s[k1][j1] <= VALUE_LIMIT);
        if b.stacked_series && b.highest is None {
            let j2 = choose|j: int| 0 <= j < s[0].len() && column_max_upto(s, s[0].len() as int) == #[trigger] stack_end(s, s.len() - 1, j);
            assert(-VALUE_LIMIT <= stack_end(s, s.len() - 1, j2) <= VALUE_LIMIT);
        }
    }
    assert(world < 42 * VALUE_LIMIT + 200);
    assert((2 * world + step) / (2 * step) >= 0) by (nonlinear_arith)
        requires world > 0, step > 0;
    assert(world >= hi - lo);
    if tick_budget(b) >= 5 && hi - lo >= 10 * (tick_budget(b) - 2) {
        assert(world > 2 * step) by (nonlinear_arith)
            requires 3 * (hi - lo) > 2 * d * step, d >= 3, world >= hi - lo, step > 0;
        let q = (2 * world + step) / (2 * step);
        vstd::arithmetic::div_mod::lemma_fundamental_div_mod(2 * world + step, 2 * step);
        vstd::arithmetic::div_mod::lemma_mod_bound(2 * world + step, 2 * step);
        assert(q >= 2) by (nonlinear_arith)
            requires
                2 * world + step == (2 * step) * q + (2 * world + step) % (2 * step),
                (2 * world + step) % (2 * step) < 2 * step,
                world > 2 * step,
                step > 0;
        assert(q <= d + 2) by {
            assert(world < (d + 2) * step) by (nonlinear_arith)
                requires world < hi - lo + 2 * step, hi - lo <= step * d;
            assert(q <= d + 2) by (nonlinear_arith)
                requires
                    2 * world + step == (2 * step) * q + (2 * world + step) % (2 * step),
                    0 <= (2 * world + step) % (2 * step),
                    world < (d + 2) * step,
                    step > 0;
        }
        assert(a.steps == q + 1);
    }
    if b.lowest is None && b.highest is None {
        let k = -((-hi) / step) - lo / step;
        assert(world == k * step) by (nonlinear_arith)
            requires world == ceil_to(hi, step) - floor_to(lo, step), k == -((-hi) / step) - lo / step;
        assert(k >= 1) by (nonlinear_arith)
            requires world == k * step, world > 0, step > 0;
        assert(2 * world + step == k * (2 * step) + step) by (nonlinear_arith)
            requires world == k * step;
        vstd::arithmetic::div_mod::lemma_fundamental_div_mod_converse(2 * world + step, 2 * step, k, step);
        assert(hi - lo + 2 * step <= (hi - lo + 2) * step) by (nonlinear_arith)
            requires hi - lo > 0, step >= 1;
        assert(k < hi - lo + 2) by (nonlinear_arith)
            requires k * step < (hi - lo + 2) * step, step >= 1;
        assert(a.steps == k + 1);
        assert(a.world == world);
        assert(a.step_len == step);
        assert(a.world == a.step_len * (a.steps - 1)) by (nonlinear_arith)
            requires a.world == world, a.step_len == step, a.steps == k + 1, world == k * step;
        if tick_budget(b) >= 4 && hi - lo >= 10 * (tick_budget(b) - 2) {
            assert(world > step) by (nonlinear_arith)
                requires 3 * (hi - lo) > 2 * d * step, d >= 2, world >= hi - lo, step > 0;
            assert(k >= 2) by (nonlinear_arith)
                requires world == k * step, world > step, step > 0;
        }
    }
}

/// A categorical axis built from `n` labels that sit between ticks has
/// exactly `n` bands, so `tick_centers` gives exactly `n` points.
pub proof fn lemma_centered_band_count(b: AxisBuilder, n: usize)
    requires
        b.series is None,
        b.labels == Some(n),
        b.labels_centered,
        build_result(b) is Ok,
    ensures
        band_count(build_result(b)->Ok_0) == n,
{
}

impl<'a> AxisBuilder<'a> {
    /// The continuous or categorical axis that the settings describe, or
    /// `InvalidInput` when the view box or label size is out of range, the
    /// series is empty or has an empty row, a value, a bound or a running
    /// stack total is out of range, stacked rows differ in length, the value
    /// range is empty, or there are too many labels.
    pub fn build(self) -> (r: Result<Axis, ChartError>)
        ensures
            r == build_result(self),
            r matches Ok(a) ==> a.wf(),
    {
        if !(-VIEW_LIMIT <= self.view.min.x && self.view.min.x <= VIEW_LIMIT && -VIEW_LIMIT
            <= self.view.min.y && self.view.min.y <= VIEW_LIMIT && -VIEW_LIMIT <= self.view.max.x
            && self.view.max.x <= VIEW_LIMIT && -VIEW_LIMIT <= self.view.max.y && self.view.max.y
            <= VIEW_LIMIT) {
            return Err(ChartError::InvalidInput);
        }
        if !(-(VIEW_LIMIT as i64) <= self.label_size && self.label_size <= VIEW_LIMIT as i64) {
            return Err(ChartError::InvalidInput);
        }
        match self.series {
            Some(series) => self.build_continuous(series),
            None => match self.labels {
                Some(n) => {
                    let steps: u128 = if self.labels_centered {
                        n as u128 + 1
                    } else {
                        n as u128
                    };
                    if steps > STEP_LIMIT as u128 {
                        return Err(ChartError::InvalidInput);
                    }
                    let steps = steps as i64;
                    let step_len: i64 = if steps >= 2 {
                        assert(0 <= steps * SCALE / (steps - 1) <= 2 * SCALE) by (nonlinear_arith)
                            requires steps >= 2;
                        steps * SCALE / (steps - 1)
                    } else {
                        0
                    };
                    Ok(
                        Axis {
                            view: self.view,
                            step_len,
                            steps,
                            world_start: 0,
                            world: steps * SCALE,
                            grid_ticks: self.grid_ticks,
                            label_size: self.label_size,
                            direction: self.direction,
                        },
                    )
                },
                None => Ok(Axis::default()),
            },
        }
    }

    #[verifier::spinoff_prover]
    #[verifier::rlimit(40)]
    fn build_continuous(&self, series: &Vec<Vec<i64>>) -> (r: Result<Axis, ChartError>)
        requires
            self.view.wf(),
            -VIEW_LIMIT <= self.label_size <= VIEW_LIMIT,
            self.series == Some(series),
        ensures
            r == build_result(*self),
            r matches Ok(a) ==> a.wf(),
    {
        let ghost s = rows_of(series);
        if !values_ok(series) {
            return Err(ChartError::InvalidInput);
        }
        if self.stacked_series && !stack_ok(series) {
            return Err(ChartError::InvalidInput);
        }
        match self.lowest {
            Some(l) => if l < -VALUE_LIMIT || l > VALUE_LIMIT {
                return Err(ChartError::InvalidInput);
            },
            None => {},
        }
        match self.highest {
            Some(h) => if h < -VALUE_LIMIT || h > VALUE_LIMIT {
                return Err(ChartError::InvalidInput);
            },
            None => {},
        }
        let (mn, mx) = series_extremes(series);
        proof {
            crate::scale::lemma_series_max_is_max(s);
            if self.stacked_series {
                lemma_column_max_in(s, s[0].len() as int);
            }
        }
        let hi: i64 = match self.highest {
            Some(h) => h,
            None => if self.stacked_series {
                stacked_highest(series)
            } else {
                mx
            },
        };
        let lo: i64 = match self.lowest {
            Some(l) => l,
            None => mn,
        };
        assert(value_bounds(*self, s) == (lo as int, hi as int));
        if hi <= lo {
            return Err(ChartError::InvalidInput);
        }
        let t: i64 = if self.max_ticks < 3 {
            3
        } else {
            self.max_ticks as i64
        };
        let d = t - 2;
        let range = hi - lo;
        let step = nice_step(range, d);
        proof {
            lemma_round_to(hi as int, step as int);
            lemma_round_to(lo as int, step as int);
        }
        let max: i64 = match self.highest {
            Some(_) => hi,
            None => {
                let c = floor_div(-(hi as i128), step as i128);
                proof {
                    lemma_div_bound(-(hi as int), step as int, VALUE_LIMIT as int);
                }
                let nc: i128 = -c;
                assert(nc * step == ceil_to(hi as int, step as int));
                (nc * (step as i128)) as i64
            },
        };
        let min: i64 = match self.lowest {
            Some(_) => lo,
            None => {
                let c = floor_div(lo as i128, step as i128);
                (c * (step as i128)) as i64
            },
        };
        let world = max - min;
        assert(world < (d + 2) * step) by (nonlinear_arith)
            requires
                world == max - min,
                max < hi + step,
                min > lo - step,
                range == hi - lo,
                range <= step * d;
        let q = (2 * (world as i128) + step as i128) / (2 * step as i128);
        assert(0 <= q <= d + 2) by (nonlinear_arith)
            requires
                q == (2 * world + step) / (2 * step),
                0 < world < (d + 2) * step,
                step > 0;
        Ok(
            Axis {
                view: self.view,
                step_len: step,
                steps: (q + 1) as i64,
                world_start: min,
                world,
                grid_ticks: self.grid_ticks,
                label_size: self.label_size,
                direction: self.direction,
            },
        )
    }
}

impl<'a> Default for AxisBuilder<'a> {
    fn default() -> (r: AxisBuilder<'a>)
        ensures
            r == default_builder::<'a>(),
    {
        AxisBuilder {
            view: Rect::new(0, 0, 0, 0),
            lowest: None,
            highest: None,
            direction: Direction::Horizontal,
            labels_centered: false,
            label_size: 60 * SCALE,
            grid_ticks: false,
            max_ticks: 8,
            stacked_series: false,
            series: None,
            labels: None,
        }
    }
}

/// The settings before any is chosen.
pub open spec fn default_builder<'a>() -> AxisBuilder<'a> {
    AxisBuilder {
        view: rect(0, 0, 0, 0),
        lowest: None,
        highest: None,
        direction: Direction::Horizontal,
        labels_centered: false,
        label_size: (60 * SCALE) as i64,
        grid_ticks: false,
        max_ticks: 8,
        stacked_series: false,
        series: None,
        labels: None,
    }
}

impl Axis {
    /// A builder with the default settings.
    pub fn builder<'a>() -> (r: AxisBuilder<'a>)
        ensures
            r == default_builder::<'a>(),
    {
        AxisBuilder::default()
    }
}

impl<'a> AxisBuilder<'a> {
    /// The view box that the axis maps onto.
    pub fn with_view(self, view: Rect) -> (r: AxisBuilder<'a>)
        ensures
            r == (AxisBuilder { view: view, ..self }),
    {
        AxisBuilder { view: view, ..self }
    }

    /// A fixed lowest value, used as given.
    pub fn with_lowest(self, lowest: Option<i64>) -> (r: AxisBuilder<'a>)
        ensures
            r == (AxisBuilder { lowest: lowest, ..self }),
    {
        AxisBuilder { lowest: lowest, ..self }
    }

    /// A fixed highest value, used as given.
    pub fn with_highest(self, highest: Option<i64>) -> (r: AxisBuilder<'a>)
        ensures
            r == (AxisBuilder { highest: highest, ..self }),
    {
        AxisBuilder { highest: highest, ..self }
    }

    /// Whether the highest value is the largest column total.
    pub fn with_stacked_series(self, stacked: bool) -> (r: AxisBuilder<'a>)
        ensures
            r == (AxisBuilder { stacked_series: stacked, ..self }),
    {
        AxisBuilder { stacked_series: stacked, ..self }
    }

    /// The tick budget of a continuous axis.
    pub fn with_max_ticks(self, n_ticks: i32) -> (r: AxisBuilder<'a>)
        ensures
            r == (AxisBuilder { max_ticks: n_ticks, ..self }),
    {
        AxisBuilder { max_ticks: n_ticks, ..self }
    }

    /// Whether grid lines are drawn as short ticks.
    pub fn with_grid_ticks(self, show_ticks: bool) -> (r: AxisBuilder<'a>)
        ensures
            r == (AxisBuilder { grid_ticks: show_ticks, ..self }),
    {
        AxisBuilder { grid_ticks: show_ticks, ..self }
    }

    /// The screen direction of the axis.
    pub fn with_direction(self, direction: Direction) -> (r: AxisBuilder<'a>)
        ensures
            r == (AxisBuilder { direction: direction, ..self }),
    {
        AxisBuilder { direction: direction, ..self }
    }

    /// The series of a continuous axis.
    pub fn with_series(self, series: &'a Vec<Vec<i64>>) -> (r: AxisBuilder<'a>)
        ensures
            r == (AxisBuilder { series: Some(series), ..self }),
    {
        AxisBuilder { series: Some(series), ..self }
    }

    /// The labels of a categorical axis, one tick per label.
    pub fn with_labels(self, labels: Option<&Vec<String>>) -> (r: AxisBuilder<'a>)
        ensures
            r == (AxisBuilder {
                labels: match labels {
                    Some(l) => Some(l@.len() as usize),
                    None => None,
                },
                ..self
            }),
    {
        let n = match labels {
            Some(l) => Some(l.len()),
            None => None,
        };
        AxisBuilder { labels: n, ..self }
    }

    /// The labels of a categorical axis whose labels sit between ticks.
    pub fn with_centered_labels(self, labels: Option<&Vec<String>>) -> (r: AxisBuilder<'a>)
        ensures
            r == (AxisBuilder {
                labels: match labels {
                    Some(l) => Some(l@.len() as usize),
                    None => None,
                },
                labels_centered: true,
                ..self
            }),
    {
        let n = match labels {
            Some(l) => Some(l.len()),
            None => None,
        };
        AxisBuilder { labels: n, labels_centered: true, ..self }
    }

    /// The size of a category label box, in view units.
    pub fn with_label_size(self, size: i32) -> (r: AxisBuilder<'a>)
        ensures
            r == (AxisBuilder { label_size: (size * SCALE) as i64, ..self }),
    {
        AxisBuilder { label_size: size as i64 * SCALE, ..self }
    }
}

/// Two axes: `x` along the view's width, `y` along its height.
#[derive(Clone, Copy, Debug, PartialEq, Eq, Structural)]
pub struct Grid {
    pub x: Axis,
    pub y: Axis,
}

/// What `Grid::new` returns.
pub open spec fn grid_result(x: AxisBuilder, y: AxisBuilder) -> Result<Grid, ChartError> {
    let ax = build_result(AxisBuilder { direction: Direction::Vertical, ..x });
    let ay = build_result(AxisBuilder { direction: Direction::Horizontal, ..y });
    match ax {
        Ok(a) => match ay {
            Ok(b) => Ok(Grid { x: a, y: b }),
            Err(e) => Err(e),
        },
        Err(e) => Err(e),
    }
}

/// The view point of a data point: with `inverted`, `cx` is a world value
/// and `cy` a tick index; otherwise `cx` is a tick index and `cy` a world
/// value.
pub open spec fn grid_point(g: Grid, cx: int, cy: int, inverted: bool) -> Point {
    if inverted {
        Point {
            x: view_of(g.x, cx, g.x.world_start as int) as i128,
            y: view_of(g.y, tick_world(g.y, cy), 0) as i128,
        }
    } else {
        Point {
            x: view_of(g.x, tick_world(g.x, cx), 0) as i128,
            y: view_of(g.y, cy, g.y.world_start as int) as i128,
        }
    }
}

impl Grid {
    /// Builds `x` as the vertical-line axis and `y` as the horizontal-line
    /// axis.
    pub fn new<'a>(x: AxisBuilder<'a>, y: AxisBuilder<'a>) -> (r: Result<Grid, ChartError>)
        ensures
            r == grid_result(x, y),
            r matches Ok(g) ==> g.wf(),
    {
        let ax = x.with_direction(Direction::Vertical).build();
        let ay = y.with_direction(Direction::Horizontal).build();
        match ax {
            Ok(a) => match ay {
                Ok(b) => Ok(Grid { x: a, y: b }),
                Err(e) => Err(e),
            },
            Err(e) => Err(e),
        }
    }

    pub open spec fn wf(&self) -> bool {
        self.x.wf() && self.y.wf()
    }

    /// Maps a data point to the view.
    pub fn world_to_view(&self, cx: i64, cy: i64, inverted: bool) -> (r: Point)
        requires
            self.wf(),
            inverted ==> 0 <= cy <= self.y.steps,
            !inverted ==> 0 <= cx <= self.x.steps,
        ensures
            r == grid_point(*self, cx as int, cy as int, inverted),
            in_coord_range(r.x as int),
            in_coord_range(r.y as int),
    {
        if inverted {
            Point {
                x: self.x.world_to_view(cx, self.x.world_start),
                y: self.y.world_to_view(self.y.step_to_world(cy), 0),
            }
        } else {
            Point {
                x: self.x.world_to_view(self.x.step_to_world(cx), 0),
                y: self.y.world_to_view(cy, self.y.world_start),
            }
        }
    }

    /// The grid lines of `x` followed by those of `y`.
    pub fn lines(&self) -> (r: Vec<Rect>)
        requires
            self.wf(),
        ensures
            r@.len() == self.x.steps + self.y.steps,
            forall|i: int| 0 <= i < self.x.steps ==> #[trigger] r@[i] == line_at(self.x, i),
            forall|i: int|
                self.x.steps <= i < self.x.steps + self.y.steps ==> #[trigger] r@[i] == line_at(
                    self.y,
                    i - self.x.steps,
                ),
    {
        let mut a = self.x.lines();
        let mut b = self.y.lines();
        a.append(&mut b);
        a
    }

    /// The tick label anchors of `x` followed by those of `y`, for the
    /// given label counts (none when absent).
    pub fn text_data(&self, x_n_labels: Option<usize>, y_n_labels: Option<usize>) -> (r: Vec<TextData>)
        requires
            self.wf(),
        ensures
            ({
                let nx = text_count(self.x, match x_n_labels { Some(n) => n as int, None => 0 });
                let ny = text_count(self.y, match y_n_labels { Some(n) => n as int, None => 0 });
                &&& r@.len() == nx + ny
                &&& forall|i: int| 0 <= i < nx ==> #[trigger] r@[i] == text_at(self.x, i)
                &&& forall|i: int| nx <= i < nx + ny ==> #[trigger] r@[i] == text_at(self.y, i - nx)
            }),
    {
        let nx = match x_n_labels {
            Some(n) => n,
            None => 0,
        };
        let ny = match y_n_labels {
            Some(n) => n,
            None => 0,
        };
        let mut a = self.x.text_data(nx);
        let mut b = self.y.text_data(ny);
        a.append(&mut b);
        a
    }
}

} // verus!
