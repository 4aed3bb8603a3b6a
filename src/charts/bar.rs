//! Bars of bar charts, grouped or stacked, vertical or horizontal.

use vstd::prelude::*;

use crate::grid::{
    band_count, center_at, grid_result, label_value, line_at, text_at, text_count,
    text_rect_at, text_rect_count, view_of, Axis, AxisBuilder, Direction, Grid,
};
use crate::scale::{rows_of, stack_end, stack_valid};
use crate::types::{rect, Baseline, ChartError, Rect, TextAnchor, TextData, SCALE, VIEW_LIMIT};

verus! {

/// Gap between the end of a bar and its value label.
pub const BAR_LABEL_GAP: i128 = 5000;

/// The settings of a bar chart; lengths in fixed-point view units except
/// the view box, paddings and label size, which are whole view units.
#[derive(Clone, Debug)]
pub struct BarChartProps {
    /// One row of values per series, one value per category.
    pub series: Vec<Vec<i64>>,
    /// One label per category.
    pub labels: Option<Vec<String>>,
    pub viewbox_width: i32,
    pub viewbox_height: i32,
    pub padding_top: i32,
    pub padding_bottom: i32,
    pub padding_left: i32,
    pub padding_right: i32,
    pub lowest: Option<i64>,
    pub highest: Option<i64>,
    pub max_ticks: i32,
    pub show_grid_ticks: bool,
    pub label_size: i32,
    /// The distance between neighbouring grouped bars, in fixed-point units.
    pub bar_distance: i64,
    pub horizontal_bars: bool,
    pub stacked_bars: bool,
}

impl Default for BarChartProps {
    /// No values and no labels; a 600 by 400 view box without padding, up
    /// to eight ticks, labels 60 wide, grouped vertical bars 30 apart.
    fn default() -> (r: BarChartProps)
        ensures
            r.series@.len() == 0,
            r.labels is None,
            r.viewbox_width == 600,
            r.viewbox_height == 400,
            r.padding_top == 0,
            r.padding_bottom == 0,
            r.padding_left == 0,
            r.padding_right == 0,
            r.lowest is None,
            r.highest is None,
            r.max_ticks == 8,
            !r.show_grid_ticks,
            r.label_size == 60,
            r.bar_distance == 30 * SCALE,
            !r.horizontal_bars,
            !r.stacked_bars,
    {
        BarChartProps {
            series: Vec::new(),
            labels: None,
            viewbox_width: 600,
            viewbox_height: 400,
            padding_top: 0,
            padding_bottom: 0,
            padding_left: 0,
            padding_right: 0,
            lowest: None,
            highest: None,
            max_ticks: 8,
            show_grid_ticks: false,
            label_size: 60,
            bar_distance: 30 * SCALE,
            horizontal_bars: false,
            stacked_bars: false,
        }
    }
}

/// One bar: a segment from its base to its end, and where its value label
/// goes when bars are grouped.
#[derive(Clone, Copy, Debug, PartialEq, Eq, Structural)]
pub struct Bar {
    pub segment: Rect,
    pub label: Option<TextData>,
}

/// The drawable parts of a bar chart.
#[derive(Clone, Debug, PartialEq, Eq)]
pub struct BarLayout {
    pub grid: Grid,
    pub grid_lines: Vec<Rect>,
    /// Anchors of the value axis's labels.
    pub value_labels: Vec<TextData>,
    /// The values that those labels show.
    pub label_values: Vec<i128>,
    /// Boxes of the category labels.
    pub category_rects: Vec<Rect>,
    /// The bars of each series, one per category.
    pub bars: Vec<Vec<Bar>>,
}

impl BarLayout {
    /// The bars, as sequences.
    pub open spec fn bars_view(&self) -> Seq<Seq<Bar>> {
        self.bars@.map_values(|b: Vec<Bar>| b@)
    }
}

/// The plotting area: the view box less the paddings.
pub open spec fn bar_view(p: BarChartProps) -> Rect {
    rect(
        p.padding_left * SCALE,
        p.padding_top * SCALE,
        (p.viewbox_width - p.padding_right) * SCALE,
        (p.viewbox_height - p.padding_bottom) * SCALE,
    )
}

/// The number of labels, none when absent.
pub open spec fn label_count(labels: Option<Vec<String>>) -> Option<usize> {
    match labels {
        Some(l) => Some(l@.len() as usize),
        None => None,
    }
}

/// The settings of the category axis.
pub open spec fn category_builder<'a>(p: BarChartProps) -> AxisBuilder<'a> {
    AxisBuilder {
        view: bar_view(p),
        lowest: None,
        highest: None,
        direction: Direction::Horizontal,
        labels_centered: true,
        label_size: (p.label_size * SCALE) as i64,
        grid_ticks: p.show_grid_ticks,
        max_ticks: 8,
        stacked_series: false,
        series: None,
        labels: label_count(p.labels),
    }
}

/// The settings of the value axis: the lowest value is 0 unless given.
pub open spec fn value_builder<'a>(p: &'a BarChartProps) -> AxisBuilder<'a> {
    AxisBuilder {
        view: bar_view(*p),
        lowest: Some(
            match p.lowest {
                Some(l) => l,
                None => 0,
            },
        ),
        highest: p.highest,
        direction: Direction::Horizontal,
        labels_centered: false,
        label_size: (60 * SCALE) as i64,
        grid_ticks: p.show_grid_ticks,
        max_ticks: if p.max_ticks < 3 {
            3
        } else {
            p.max_ticks
        },
        stacked_series: p.stacked_bars,
        series: Some(&p.series),
        labels: None,
    }
}

/// The grid: categories along the width and values up the height, or the
/// other way round for horizontal bars.
pub open spec fn bar_grid_result(p: &BarChartProps) -> Result<Grid, ChartError> {
    if p.horizontal_bars {
        grid_result(value_builder(p), category_builder(*p))
    } else {
        grid_result(category_builder(*p), value_builder(p))
    }
}

pub open spec fn value_axis(p: BarChartProps, g: Grid) -> Axis {
    if p.horizontal_bars {
        g.x
    } else {
        g.y
    }
}

pub open spec fn category_axis(p: BarChartProps, g: Grid) -> Axis {
    if p.horizontal_bars {
        g.y
    } else {
        g.x
    }
}

/// Whether a bar chart can be laid out.
pub open spec fn bar_ok(p: &BarChartProps) -> bool {
    bar_grid_result(p) is Ok && -VIEW_LIMIT <= p.bar_distance <= VIEW_LIMIT
}

/// The number of bars of series `k`: one per category that it has a value
/// for.
pub open spec fn bar_count(p: BarChartProps, g: Grid, k: int) -> int {
    let n = band_count(category_axis(p, g));
    let len = rows_of(&p.series)[k].len() as int;
    if n < len {
        n
    } else {
        len
    }
}

/// The stacked bar of series `k` in category `j`: from the end of the bar
/// below (or the axis line for the first series) to the running total.
pub open spec fn stacked_bar(p: BarChartProps, g: Grid, k: int, j: int) -> Bar {
    let s = rows_of(&p.series);
    let va = value_axis(p, g);
    let c = center_at(category_axis(p, g), j);
    let end = view_of(va, stack_end(s, k, j), 0);
    let seg = if k == 0 {
        if p.horizontal_bars {
            rect(c.x as int, c.y as int, end, c.y as int)
        } else {
            rect(c.x as int, c.y as int, c.x as int, end)
        }
    } else {
        let base = view_of(va, stack_end(s, k - 1, j), 0);
        if p.horizontal_bars {
            rect(base, c.y as int, end, c.y as int)
        } else {
            rect(c.x as int, base, c.x as int, end)
        }
    };
    Bar { segment: seg, label: None }
}

/// How far series `k` of `n` sits from the middle of its category.
/// Halves are rounded toward the middle, so that the offsets of the group
/// are symmetric and sum to zero.
pub open spec fn group_offset(p: BarChartProps, k: int) -> int {
    let n = p.series@.len() as int;
    let d = (2 * k - (n - 1)) * p.bar_distance;
    if d >= 0 {
        d / 2
    } else {
        -((-d) / 2)
    }
}

/// The grouped bar of series `k` in category `j`, with its value label.
pub open spec fn grouped_bar(p: BarChartProps, g: Grid, k: int, j: int) -> Bar {
    let s = rows_of(&p.series);
    let c = center_at(category_axis(p, g), j);
    let end = view_of(value_axis(p, g), s[k][j] as int, 0);
    let off = group_offset(p, k);
    if p.horizontal_bars {
        Bar {
            segment: rect(c.x as int, c.y + off, end, c.y + off),
            label: Some(
                TextData {
                    x: (end + BAR_LABEL_GAP) as i128,
                    y: (c.y + off) as i128,
                    anchor: TextAnchor::Start,
                    baseline: Baseline::Middle,
                },
            ),
        }
    } else {
        Bar {
            segment: rect(c.x + off, c.y as int, c.x + off, end),
            label: Some(
                TextData {
                    x: (c.x + off) as i128,
                    y: (end - BAR_LABEL_GAP) as i128,
                    anchor: TextAnchor::Middle,
                    baseline: Baseline::TextBottom,
                },
            ),
        }
    }
}

pub open spec fn bar_at(p: BarChartProps, g: Grid, k: int, j: int) -> Bar {
    if p.stacked_bars {
        stacked_bar(p, g, k, j)
    } else {
        grouped_bar(p, g, k, j)
    }
}

/// `l` is the layout of the bar chart `p`.
pub open spec fn is_bar_layout(p: &BarChartProps, l: BarLayout) -> bool {
    let g = l.grid;
    let va = value_axis(*p, g);
    let ca = category_axis(*p, g);
    let nl = match label_count(p.labels) {
        Some(n) => n as int,
        None => 0,
    };
    &&& bar_grid_result(p) == Ok::<Grid, ChartError>(g)
    &&& l.grid_lines@.len() == g.x.steps + g.y.steps
    &&& forall|i: int| 0 <= i < g.x.steps ==> #[trigger] l.grid_lines@[i] == line_at(g.x, i)
    &&& forall|i: int|
        g.x.steps <= i < g.x.steps + g.y.steps ==> #[trigger] l.grid_lines@[i] == line_at(g.y, i - g.x.steps)
    &&& l.label_values@.len() == va.steps + 1
    &&& forall|i: int| 0 <= i <= va.steps ==> #[trigger] l.label_values@[i] == label_value(va, i)
    &&& l.value_labels@.len() == text_count(va, va.steps + 1)
    &&& forall|i: int| 0 <= i < text_count(va, va.steps + 1) ==> #[trigger] l.value_labels@[i] == text_at(va, i)
    &&& l.category_rects@.len() == text_rect_count(ca, nl)
    &&& forall|i: int| 0 <= i < text_rect_count(ca, nl) ==> #[trigger] l.category_rects@[i] == text_rect_at(ca, i)
    &&& l.bars@.len() == p.series@.len()
    &&& forall|k: int| 0 <= k < p.series@.len() ==> (#[trigger] l.bars@[k])@.len() == bar_count(*p, g, k)
    &&& forall|k: int, j: int|
        0 <= k < p.series@.len() && 0 <= j < bar_count(*p, g, k) ==> #[trigger] l.bars@[k]@[j] == bar_at(*p, g, k, j)
}

/// The bar chart of `p`, or `InvalidInput` when an axis cannot be built on
/// it (see `AxisBuilder::build`) or the bar distance is out of range.
#[verifier::spinoff_prover]
#[verifier::rlimit(40)]
pub fn bar_layout(p: &BarChartProps) -> (r: Result<BarLayout, ChartError>)
    ensures
        match r {
            Ok(l) => bar_ok(p) && is_bar_layout(p, l),
            Err(e) => !bar_ok(p) && e == ChartError::InvalidInput,
        },
{
    let view = Rect::new(
        p.padding_left as i128 * SCALE as i128,
        p.padding_top as i128 * SCALE as i128,
        (p.viewbox_width as i128 - p.padding_right as i128) * SCALE as i128,
        (p.viewbox_height as i128 - p.padding_bottom as i128) * SCALE as i128,
    );
    let lowest: i64 = match p.lowest {
        Some(l) => l,
        None => 0,
    };
    let max_ticks: i32 = if p.max_ticks < 3 {
        3
    } else {
        p.max_ticks
    };
    let labels = match &p.labels {
        Some(l) => Some(l),
        None => None,
    };
    let axis_c = AxisBuilder::default().with_view(view).with_grid_ticks(p.show_grid_ticks).with_label_size(
        p.label_size,
    ).with_centered_labels(labels);
    let axis_v = AxisBuilder::default().with_view(view).with_max_ticks(max_ticks).with_grid_ticks(
        p.show_grid_ticks,
    ).with_series(&p.series).with_stacked_series(p.stacked_bars).with_highest(p.highest).with_lowest(
        Some(lowest),
    );
    assert(axis_c == category_builder(*p));
    assert(axis_v == value_builder(p));
    let grid = if p.horizontal_bars {
        Grid::new(axis_v, axis_c)
    } else {
        Grid::new(axis_c, axis_v)
    };
    let grid = match grid {
        Ok(g) => g,
        Err(e) => return Err(e),
    };
    if p.bar_distance < -(VIEW_LIMIT as i64) || p.bar_distance > VIEW_LIMIT as i64 {
        return Err(ChartError::InvalidInput);
    }
    let (va, ca) = if p.horizontal_bars {
        (grid.x, grid.y)
    } else {
        (grid.y, grid.x)
    };
    let grid_lines = grid.lines();
    let label_values = va.label_values();
    let value_labels = va.text_data(label_values.len());
    let nl: usize = match &p.labels {
        Some(l) => l.len(),
        None => 0,
    };
    let category_rects = ca.centered_text_rects(nl);
    let bars = if p.stacked_bars {
        stacked_bars(p, &grid)
    } else {
        grouped_bars(p, &grid)
    };
    Ok(BarLayout { grid, grid_lines, value_labels, label_values, category_rects, bars })
}

#[verifier::spinoff_prover]
#[verifier::rlimit(40)]
fn stacked_bars(p: &BarChartProps, grid: &Grid) -> (r: Vec<Vec<Bar>>)
    requires
        p.stacked_bars,
        bar_grid_result(p) == Ok::<Grid, ChartError>(*grid),
        grid.wf(),
    ensures
        r@.len() == p.series@.len(),
        forall|k: int| 0 <= k < p.series@.len() ==> (#[trigger] r@[k])@.len() == bar_count(*p, *grid, k),
        forall|k: int, j: int|
            0 <= k < p.series@.len() && 0 <= j < bar_count(*p, *grid, k) ==> #[trigger] r@[k]@[j]
                == bar_at(*p, *grid, k, j),
{
    proof {
        lemma_value_axis_built(p, *grid);
    }
    let ghost s = rows_of(&p.series);
    let (va, ca) = if p.horizontal_bars {
        (grid.x, grid.y)
    } else {
        (grid.y, grid.x)
    };
    let centers = ca.tick_centers();
    let ncols = p.series[0].len();
    let mut ends: Vec<i64> = Vec::new();
    let mut all: Vec<Vec<Bar>> = Vec::new();
    let mut k: usize = 0;
    while k < p.series.len()
        invariant
            s == rows_of(&p.series),
            p.stacked_bars,
            crate::scale::rows_nonempty(s),
            stack_valid(s),
            ncols == s[0].len(),
            va == value_axis(*p, *grid),
            ca == category_axis(*p, *grid),
            va.wf(),
            ca.wf(),
            centers@.len() == band_count(ca),
            forall|j: int| 0 <= j < band_count(ca) ==> #[trigger] centers@[j] == center_at(ca, j),
            forall|j: int| 0 <= j < band_count(ca) ==> crate::grid::in_coord_range(#[trigger] centers@[j].x as int)
                && crate::grid::in_coord_range(centers@[j].y as int),
            0 <= k <= s.len(),
            k > 0 ==> ends@.len() == ncols,
            k > 0 ==> forall|j: int| 0 <= j < ncols ==> #[trigger] ends@[j] == stack_end(s, k - 1, j),
            all@.len() == k,
            forall|kk: int| 0 <= kk < k ==> (#[trigger] all@[kk])@.len() == bar_count(*p, *grid, kk),
            forall|kk: int, j: int|
                0 <= kk < k && 0 <= j < bar_count(*p, *grid, kk) ==> #[trigger] all@[kk]@[j] == bar_at(
                    *p,
                    *grid,
                    kk,
                    j,
                ),
        decreases s.len() - k,
    {
        let row = &p.series[k];
        assert(s[k as int] == row@);
        assert(row@.len() == ncols);
        let n: usize = if centers.len() < row.len() {
            centers.len()
        } else {
            row.len()
        };
        let mut rects: Vec<Bar> = Vec::new();
        let mut new_ends: Vec<i64> = Vec::new();
        let mut j: usize = 0;
        while j < ncols
            invariant
                s == rows_of(&p.series),
                p.stacked_bars,
                stack_valid(s),
                crate::scale::rows_nonempty(s),
                ncols == s[0].len(),
                0 <= k < s.len(),
                s[k as int] == row@,
                row@.len() == ncols,
                va == value_axis(*p, *grid),
                ca == category_axis(*p, *grid),
                va.wf(),
                ca.wf(),
                centers@.len() == band_count(ca),
                forall|jj: int| 0 <= jj < band_count(ca) ==> #[trigger] centers@[jj] == center_at(ca, jj),
                forall|jj: int| 0 <= jj < band_count(ca) ==> crate::grid::in_coord_range(#[trigger] centers@[jj].x as int)
                    && crate::grid::in_coord_range(centers@[jj].y as int),
                n == bar_count(*p, *grid, k as int),
                k > 0 ==> ends@.len() == ncols,
                k > 0 ==> forall|jj: int| 0 <= jj < ncols ==> #[trigger] ends@[jj] == stack_end(s, k - 1, jj),
                0 <= j <= ncols,
                new_ends@.len() == j,
                forall|jj: int| 0 <= jj < j ==> #[trigger] new_ends@[jj] == stack_end(s, k as int, jj),
                rects@.len() == if j < n { j as int } else { n as int },
                forall|jj: int| 0 <= jj < j && jj < n ==> #[trigger] rects@[jj] == bar_at(*p, *grid, k as int, jj),
            decreases ncols - j,
        {
            let v = row[j];
            let total: i64 = if k == 0 {
                v
            } else {
                assert(-crate::types::VALUE_LIMIT <= stack_end(s, k as int, j as int) <= crate::types::VALUE_LIMIT);
                ends[j] + v
            };
            assert(total == stack_end(s, k as int, j as int));
            if j < n {
                let c = centers[j];
                let end = va.world_to_view(total, 0);
                let seg = if k == 0 {
                    if p.horizontal_bars {
                        Rect::new(c.x, c.y, end, c.y)
                    } else {
                        Rect::new(c.x, c.y, c.x, end)
                    }
                } else {
                    let base = va.world_to_view(ends[j], 0);
                    if p.horizontal_bars {
                        Rect::new(base, c.y, end, c.y)
                    } else {
                        Rect::new(c.x, base, c.x, end)
                    }
                };
                rects.push(Bar { segment: seg, label: None });
            }
            new_ends.push(total);
            j = j + 1;
        }
        all.push(rects);
        ends = new_ends;
        k = k + 1;
    }
    all
}

#[verifier::spinoff_prover]
#[verifier::rlimit(40)]
fn grouped_bars(p: &BarChartProps, grid: &Grid) -> (r: Vec<Vec<Bar>>)
    requires
        !p.stacked_bars,
        bar_grid_result(p) == Ok::<Grid, ChartError>(*grid),
        grid.wf(),
        -VIEW_LIMIT <= p.bar_distance <= VIEW_LIMIT,
    ensures
        r@.len() == p.series@.len(),
        forall|k: int| 0 <= k < p.series@.len() ==> (#[trigger] r@[k])@.len() == bar_count(*p, *grid, k),
        forall|k: int, j: int|
            0 <= k < p.series@.len() && 0 <= j < bar_count(*p, *grid, k) ==> #[trigger] r@[k]@[j]
                == bar_at(*p, *grid, k, j),
{
    proof {
        lemma_value_axis_built(p, *grid);
    }
    let ghost s = rows_of(&p.series);
    let (va, ca) = if p.horizontal_bars {
        (grid.x, grid.y)
    } else {
        (grid.y, grid.x)
    };
    let centers = ca.tick_centers();
    let ns = p.series.len();
    let mut all: Vec<Vec<Bar>> = Vec::new();
    let mut k: usize = 0;
    while k < ns
        invariant
            s == rows_of(&p.series),
            !p.stacked_bars,
            ns == s.len(),
            -VIEW_LIMIT <= p.bar_distance <= VIEW_LIMIT,
            va == value_axis(*p, *grid),
            ca == category_axis(*p, *grid),
            va.wf(),
            ca.wf(),
            centers@.len() == band_count(ca),
            forall|j: int| 0 <= j < band_count(ca) ==> #[trigger] centers@[j] == center_at(ca, j),
            forall|j: int| 0 <= j < band_count(ca) ==> crate::grid::in_coord_range(#[trigger] centers@[j].x as int)
                && crate::grid::in_coord_range(centers@[j].y as int),
            0 <= k <= s.len(),
            all@.len() == k,
            forall|kk: int| 0 <= kk < k ==> (#[trigger] all@[kk])@.len() == bar_count(*p, *grid, kk),
            forall|kk: int, j: int|
                0 <= kk < k && 0 <= j < bar_count(*p, *grid, kk) ==> #[trigger] all@[kk]@[j] == bar_at(
                    *p,
                    *grid,
                    kk,
                    j,
                ),
        decreases s.len() - k,
    {
        let row = &p.series[k];
        assert(s[k as int] == row@);
        let n: usize = if centers.len() < row.len() {
            centers.len()
        } else {
            row.len()
        };
        let f = 2 * (k as i128) - (ns as i128 - 1);
        assert(-0x2_0000_0000_0000_0000 * VIEW_LIMIT <= f * p.bar_distance <= 0x2_0000_0000_0000_0000 * VIEW_LIMIT) by (nonlinear_arith)
            requires -0x2_0000_0000_0000_0000 <= f <= 0x2_0000_0000_0000_0000, -VIEW_LIMIT <= p.bar_distance <= VIEW_LIMIT;
        let d = f * (p.bar_distance as i128);
        let off: i128 = if d >= 0 {
            d / 2
        } else {
            -((-d) / 2)
        };
        assert(off == group_offset(*p, k as int));
        let mut rects: Vec<Bar> = Vec::new();
        let mut j: usize = 0;
        while j < n
            invariant
                s == rows_of(&p.series),
                !p.stacked_bars,
                0 <= k < s.len(),
                s[k as int] == row@,
                va == value_axis(*p, *grid),
                ca == category_axis(*p, *grid),
                va.wf(),
                ca.wf(),
                centers@.len() == band_count(ca),
                forall|jj: int| 0 <= jj < band_count(ca) ==> #[trigger] centers@[jj] == center_at(ca, jj),
                forall|jj: int| 0 <= jj < band_count(ca) ==> crate::grid::in_coord_range(#[trigger] centers@[jj].x as int)
                    && crate::grid::in_coord_range(centers@[jj].y as int),
                n == bar_count(*p, *grid, k as int),
                n <= row@.len(),
                n <= centers@.len(),
                off == group_offset(*p, k as int),
                -0x2_0000_0000_0000_0000 * VIEW_LIMIT <= off <= 0x2_0000_0000_0000_0000 * VIEW_LIMIT,
                0 <= j <= n,
                rects@.len() == j,
                forall|jj: int| 0 <= jj < j ==> #[trigger] rects@[jj] == bar_at(*p, *grid, k as int, jj),
            decreases n - j,
        {
            let c = centers[j];
            let end = va.world_to_view(row[j], 0);
            let bar = if p.horizontal_bars {
                Bar {
                    segment: Rect::new(c.x, c.y + off, end, c.y + off),
                    label: Some(
                        TextData {
                            x: end + BAR_LABEL_GAP,
                            y: c.y + off,
                            anchor: TextAnchor::Start,
                            baseline: Baseline::Middle,
                        },
                    ),
                }
            } else {
                Bar {
                    segment: Rect::new(c.x + off, c.y, c.x + off, end),
                    label: Some(
                        TextData {
                            x: c.x + off,
                            y: end - BAR_LABEL_GAP,
                            anchor: TextAnchor::Middle,
                            baseline: Baseline::TextBottom,
                        },
                    ),
                }
            };
            rects.push(bar);
            j = j + 1;
        }
        all.push(rects);
        k = k + 1;
    }
    all
}

/// What the built value axis tells of the series.
proof fn lemma_value_axis_built(p: &BarChartProps, g: Grid)
    requires
        bar_grid_result(p) == Ok::<Grid, ChartError>(g),
    ensures
        crate::grid::continuous_ok(
            AxisBuilder {
                direction: if p.horizontal_bars {
                    Direction::Vertical
                } else {
                    Direction::Horizontal
                },
                ..value_builder(p)
            },
            rows_of(&p.series),
        ),
        crate::scale::rows_nonempty(rows_of(&p.series)),
        p.stacked_bars ==> stack_valid(rows_of(&p.series)),
{
}

/// Grouped bars sit symmetrically about the middle of their category: series
/// `k` is as far to one side as series `n - 1 - k` is to the other.
pub proof fn lemma_group_offsets_symmetric(p: BarChartProps, k: int)
    requires
        0 <= k < p.series@.len(),
    ensures
        group_offset(p, k) == -group_offset(p, p.series@.len() - 1 - k),
{
    let n = p.series@.len() as int;
    let d1 = (2 * k - (n - 1)) * p.bar_distance;
    let d2 = (2 * (n - 1 - k) - (n - 1)) * p.bar_distance;
    assert(d2 == -d1) by (nonlinear_arith)
        requires d1 == (2 * k - (n - 1)) * p.bar_distance, d2 == (2 * (n - 1 - k) - (n - 1)) * p.bar_distance;
}

/// Laying out a bar chart twice on the same settings gives the same
/// result, down to every bar.
pub proof fn lemma_bar_layout_deterministic(p: &BarChartProps, l1: BarLayout, l2: BarLayout)
    requires
        is_bar_layout(p, l1),
        is_bar_layout(p, l2),
    ensures
        l1.grid == l2.grid,
        l1.grid_lines@ == l2.grid_lines@,
        l1.value_labels@ == l2.value_labels@,
        l1.label_values@ == l2.label_values@,
        l1.category_rects@ == l2.category_rects@,
        l1.bars_view() == l2.bars_view(),
{
    assert(l1.grid == l2.grid);
    assert(l1.grid_lines@ =~= l2.grid_lines@);
    assert(l1.value_labels@ =~= l2.value_labels@);
    assert(l1.label_values@ =~= l2.label_values@);
    assert(l1.category_rects@ =~= l2.category_rects@);
    assert forall|k: int| 0 <= k < l1.bars_view().len() implies #[trigger] l1.bars_view()[k] == l2.bars_view()[k] by {
        assert(l1.bars@[k]@ =~= l2.bars@[k]@);
    }
    assert(l1.bars_view() =~= l2.bars_view());
}

} // verus!
