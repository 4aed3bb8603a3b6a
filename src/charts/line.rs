//! Points, dots and labels of line charts.

use vstd::prelude::*;

use crate::grid::{
    grid_point, grid_result, in_coord_range, label_value, line_at, text_at, text_count, AxisBuilder,
    Direction, Grid,
};
use crate::format::{path_of, path_text};
use crate::scale::rows_of;
use crate::types::{rect, ChartError, Point, Rect, TextData, SCALE};

verus! {

/// Length of the segment that draws a dot.
pub const DOT_LENGTH: i128 = 100;

/// Gap between the last point of a line and its label.
pub const LINE_LABEL_GAP: i128 = 10_000;

/// The settings of a line chart; the view box, paddings and bounds as in
/// [`crate::charts::bar::BarChartProps`].
#[derive(Clone, Debug)]
pub struct LineChartProps {
    /// One row of values per line, one value per category.
    pub series: Vec<Vec<i64>>,
    /// One label per category.
    pub labels: Option<Vec<String>>,
    /// One label per line, shown after its last point.
    pub series_labels: Option<Vec<String>>,
    pub viewbox_width: i32,
    pub viewbox_height: i32,
    pub padding_top: i32,
    pub padding_bottom: i32,
    pub padding_left: i32,
    pub padding_right: i32,
    pub show_grid_ticks: bool,
    pub show_dots: bool,
    pub lowest: Option<i64>,
    pub highest: Option<i64>,
    pub max_ticks: i32,
}

impl Default for LineChartProps {
    /// No values and no labels; a 600 by 400 view box without padding,
    /// dots shown, up to eight ticks.
    fn default() -> (r: LineChartProps)
        ensures
            r.series@.len() == 0,
            r.labels is None,
            r.series_labels is None,
            r.viewbox_width == 600,
            r.viewbox_height == 400,
            r.padding_top == 0,
            r.padding_bottom == 0,
            r.padding_left == 0,
            r.padding_right == 0,
            !r.show_grid_ticks,
            r.show_dots,
            r.lowest is None,
            r.highest is None,
            r.max_ticks == 8,
    {
        LineChartProps {
            series: Vec::new(),
            labels: None,
            series_labels: None,
            viewbox_width: 600,
            viewbox_height: 400,
            padding_top: 0,
            padding_bottom: 0,
            padding_left: 0,
            padding_right: 0,
            show_grid_ticks: false,
            show_dots: true,
            lowest: None,
            highest: None,
            max_ticks: 8,
        }
    }
}

/// One line: its points in data order, a dot at each, and where its label
/// goes.
#[derive(Clone, Debug, PartialEq, Eq)]
pub struct LineSeries {
    pub points: Vec<Point>,
    /// The path text through the points.
    pub path: String,
    pub dots: Vec<Rect>,
    pub label_anchor: Option<Point>,
}

/// The drawable parts of a line chart.
#[derive(Clone, Debug, PartialEq, Eq)]
pub struct LineLayout {
    pub grid: Grid,
    pub grid_lines: Vec<Rect>,
    /// Anchors of the category labels (when labels are given) followed by
    /// those of the value labels.
    pub axis_labels: Vec<TextData>,
    /// The values that the value labels show.
    pub label_values: Vec<i128>,
    pub series: Vec<LineSeries>,
}

/// The length of the longest of the first `n` rows.
pub open spec fn longest_upto(s: Seq<Seq<i64>>, n: int) -> int
    decreases n,
{
    if n <= 0 {
        0
    } else {
        let m = longest_upto(s, n - 1);
        if s[n - 1].len() > m {
            s[n - 1].len() as int
        } else {
            m
        }
    }
}

/// The number of categories: one per label, or, without labels, one per
/// point of the longest series.
pub open spec fn line_categories(p: LineChartProps) -> usize {
    match p.labels {
        Some(l) => l@.len() as usize,
        None => longest_upto(rows_of(&p.series), p.series@.len() as int) as usize,
    }
}

pub open spec fn line_view(p: LineChartProps) -> Rect {
    rect(
        p.padding_left * SCALE,
        p.padding_top * SCALE,
        (p.viewbox_width - p.padding_right) * SCALE,
        (p.viewbox_height - p.padding_bottom) * SCALE,
    )
}

/// The settings of the category axis.
pub open spec fn line_category_builder<'a>(p: LineChartProps) -> AxisBuilder<'a> {
    AxisBuilder {
        view: line_view(p),
        lowest: None,
        highest: None,
        direction: Direction::Horizontal,
        labels_centered: false,
        label_size: (60 * SCALE) as i64,
        grid_ticks: p.show_grid_ticks,
        max_ticks: 8,
        stacked_series: false,
        series: None,
        labels: Some(line_categories(p)),
    }
}

/// The settings of the value axis.
pub open spec fn line_value_builder<'a>(p: &'a LineChartProps) -> AxisBuilder<'a> {
    AxisBuilder {
        view: line_view(*p),
        lowest: p.lowest,
        highest: p.highest,
        direction: Direction::Horizontal,
        labels_centered: false,
        label_size: (60 * SCALE) as i64,
        grid_ticks: p.show_grid_ticks,
        max_ticks: if p.max_ticks < 3 {
            3
        } else {
            p.max_ticks
        },
        stacked_series: false,
        series: Some(&p.series),
        labels: None,
    }
}

pub open spec fn line_grid_result(p: &LineChartProps) -> Result<Grid, ChartError> {
    grid_result(line_category_builder(*p), line_value_builder(p))
}

/// The number of points drawn of series `i`: those with a category.
pub open spec fn point_count(p: LineChartProps, g: Grid, i: int) -> int {
    let len = rows_of(&p.series)[i].len() as int;
    if len < g.x.steps {
        len
    } else {
        g.x.steps as int
    }
}

/// Point `k` of series `i`.
pub open spec fn line_point(p: LineChartProps, g: Grid, i: int, k: int) -> Point {
    grid_point(g, k, rows_of(&p.series)[i][k] as int, false)
}

/// Whether series `i` has a label that is not empty.
pub open spec fn has_label(p: LineChartProps, i: int) -> bool {
    match p.series_labels {
        Some(l) => i < l@.len() && l@[i]@.len() > 0,
        None => false,
    }
}

/// `s` is line `i` of chart `p`.
pub open spec fn is_line_series(p: LineChartProps, g: Grid, i: int, s: LineSeries) -> bool {
    let n = point_count(p, g, i);
    &&& s.points@.len() == n
    &&& forall|k: int| 0 <= k < n ==> #[trigger] s.points@[k] == line_point(p, g, i, k)
    &&& s.path@ == path_text(s.points@)
    &&& s.dots@.len() == if p.show_dots { n } else { 0 }
    &&& forall|k: int|
        0 <= k < s.dots@.len() ==> #[trigger] s.dots@[k] == rect(
            line_point(p, g, i, k).x as int,
            line_point(p, g, i, k).y as int,
            line_point(p, g, i, k).x + DOT_LENGTH,
            line_point(p, g, i, k).y as int,
        )
    &&& s.label_anchor == if has_label(p, i) && n > 0 {
        Some(
            Point {
                x: (line_point(p, g, i, n - 1).x + LINE_LABEL_GAP) as i128,
                y: line_point(p, g, i, n - 1).y,
            },
        )
    } else {
        None
    }
}

/// `l` is the layout of the line chart `p`.
pub open spec fn is_line_layout(p: &LineChartProps, l: LineLayout) -> bool {
    let g = l.grid;
    let nx = match p.labels {
        Some(lb) => text_count(g.x, lb@.len() as int),
        None => 0,
    };
    let ny = text_count(g.y, g.y.steps + 1);
    &&& line_grid_result(p) == Ok::<Grid, ChartError>(g)
    &&& l.grid_lines@.len() == g.x.steps + g.y.steps
    &&& forall|i: int| 0 <= i < g.x.steps ==> #[trigger] l.grid_lines@[i] == line_at(g.x, i)
    &&& forall|i: int|
        g.x.steps <= i < g.x.steps + g.y.steps ==> #[trigger] l.grid_lines@[i] == line_at(g.y, i - g.x.steps)
    &&& l.label_values@.len() == g.y.steps + 1
    &&& forall|i: int| 0 <= i <= g.y.steps ==> #[trigger] l.label_values@[i] == label_value(g.y, i)
    &&& l.axis_labels@.len() == nx + ny
    &&& forall|i: int| 0 <= i < nx ==> #[trigger] l.axis_labels@[i] == text_at(g.x, i)
    &&& forall|i: int| nx <= i < nx + ny ==> #[trigger] l.axis_labels@[i] == text_at(g.y, i - nx)
    &&& l.series@.len() == p.series@.len()
    &&& forall|i: int| 0 <= i < p.series@.len() ==> is_line_series(*p, g, i, #[trigger] l.series@[i])
}

/// The length of the longest row.
fn longest(series: &Vec<Vec<i64>>) -> (r: usize)
    ensures
        r == longest_upto(rows_of(series), series@.len() as int),
{
    let ghost s = rows_of(series);
    let mut m: usize = 0;
    let mut i: usize = 0;
    while i < series.len()
        invariant
            s == rows_of(series),
            0 <= i <= s.len(),
            m == longest_upto(s, i as int),
        decreases s.len() - i,
    {
        assert(s[i as int] == series@[i as int]@);
        if series[i].len() > m {
            m = series[i].len();
        }
        i = i + 1;
    }
    m
}

/// The line chart of `p`, or `InvalidInput` when an axis cannot be built on
/// it (see `AxisBuilder::build`).
#[verifier::spinoff_prover]
#[verifier::rlimit(40)]
pub fn line_layout(p: &LineChartProps) -> (r: Result<LineLayout, ChartError>)
    ensures
        match r {
            Ok(l) => line_grid_result(p) is Ok && is_line_layout(p, l),
            Err(e) => line_grid_result(p) is Err && e == ChartError::InvalidInput,
        },
{
    let view = Rect::new(
        p.padding_left as i128 * SCALE as i128,
        p.padding_top as i128 * SCALE as i128,
        (p.viewbox_width as i128 - p.padding_right as i128) * SCALE as i128,
        (p.viewbox_height as i128 - p.padding_bottom as i128) * SCALE as i128,
    );
    let max_ticks: i32 = if p.max_ticks < 3 {
        3
    } else {
        p.max_ticks
    };
    let categories: usize = match &p.labels {
        Some(l) => l.len(),
        None => longest(&p.series),
    };
    let axis_x = categories_builder(view, p.show_grid_ticks, categories);
    let axis_y = AxisBuilder::default().with_view(view).with_max_ticks(max_ticks).with_grid_ticks(
        p.show_grid_ticks,
    ).with_series(&p.series).with_highest(p.highest).with_lowest(p.lowest);
    assert(axis_x == line_category_builder(*p));
    assert(axis_y == line_value_builder(p));
    let grid = match Grid::new(axis_x, axis_y) {
        Ok(g) => g,
        Err(e) => return Err(e),
    };
    let grid_lines = grid.lines();
    let label_values = grid.y.label_values();
    let axis_labels = match &p.labels {
        Some(l) => grid.text_data(Some(l.len()), Some(label_values.len())),
        None => grid.text_data(None, Some(label_values.len())),
    };
    assert(text_count(grid.x, 0) == 0);
    let ghost s = rows_of(&p.series);
    let mut all: Vec<LineSeries> = Vec::new();
    let mut i: usize = 0;
    while i < p.series.len()
        invariant
            s == rows_of(&p.series),
            grid.wf(),
            line_grid_result(p) == Ok::<Grid, ChartError>(grid),
            0 <= i <= s.len(),
            all@.len() == i,
            forall|j: int| 0 <= j < i ==> is_line_series(*p, grid, j, #[trigger] all@[j]),
        decreases s.len() - i,
    {
        let row = &p.series[i];
        assert(s[i as int] == row@);
        let n: usize = if (row.len() as u128) < (grid.x.steps as u128) {
            row.len()
        } else {
            grid.x.steps as usize
        };
        let mut points: Vec<Point> = Vec::new();
        let mut dots: Vec<Rect> = Vec::new();
        let mut k: usize = 0;
        while k < n
            invariant
                s == rows_of(&p.series),
                grid.wf(),
                0 <= i < s.len(),
                s[i as int] == row@,
                n == point_count(*p, grid, i as int),
                n <= row@.len(),
                0 <= k <= n,
                points@.len() == k,
                forall|kk: int| 0 <= kk < k ==> #[trigger] points@[kk] == line_point(*p, grid, i as int, kk),
                forall|kk: int|
                    0 <= kk < k ==> in_coord_range(#[trigger] points@[kk].x as int) && in_coord_range(
                        points@[kk].y as int,
                    ),
                dots@.len() == if p.show_dots { k as int } else { 0 },
                forall|kk: int|
                    0 <= kk < dots@.len() ==> #[trigger] dots@[kk] == rect(
                        line_point(*p, grid, i as int, kk).x as int,
                        line_point(*p, grid, i as int, kk).y as int,
                        line_point(*p, grid, i as int, kk).x + DOT_LENGTH,
                        line_point(*p, grid, i as int, kk).y as int,
                    ),
            decreases n - k,
        {
            let pt = grid.world_to_view(k as i64, row[k], false);
            if p.show_dots {
                dots.push(Rect::new(pt.x, pt.y, pt.x + DOT_LENGTH, pt.y));
            }
            points.push(pt);
            k = k + 1;
        }
        let labelled: bool = match &p.series_labels {
            Some(l) => i < l.len() && !l[i].as_str().is_empty(),
            None => false,
        };
        let label_anchor = if labelled && n > 0 {
            let last = points[n - 1];
            Some(Point::new(last.x + LINE_LABEL_GAP, last.y))
        } else {
            None
        };
        let path = path_of(&points);
        all.push(LineSeries { points, path, dots, label_anchor });
        i = i + 1;
    }
    Ok(LineLayout { grid, grid_lines, axis_labels, label_values, series: all })
}

/// The settings of a categorical axis with `n` ticks, one per category.
fn categories_builder<'a>(view: Rect, grid_ticks: bool, n: usize) -> (r: AxisBuilder<'a>)
    ensures
        r == (AxisBuilder {
            view: view,
            grid_ticks: grid_ticks,
            labels: Some(n),
            ..crate::grid::default_builder::<'a>()
        }),
{
    let b = AxisBuilder::default().with_view(view).with_grid_ticks(grid_ticks);
    AxisBuilder { labels: Some(n), ..b }
}

/// Laying out a line chart twice on the same settings gives the same
/// result, down to every point.
pub proof fn lemma_line_layout_deterministic(p: &LineChartProps, l1: LineLayout, l2: LineLayout)
    requires
        is_line_layout(p, l1),
        is_line_layout(p, l2),
    ensures
        l1.grid == l2.grid,
        l1.grid_lines@ == l2.grid_lines@,
        l1.axis_labels@ == l2.axis_labels@,
        l1.label_values@ == l2.label_values@,
        l1.series@.len() == l2.series@.len(),
        forall|i: int|
            0 <= i < l1.series@.len() ==> (#[trigger] l1.series@[i]).points@ == l2.series@[i].points@
                && l1.series@[i].path@ == l2.series@[i].path@ && l1.series@[i].dots@ == l2.series@[i].dots@ && l1.series@[i].label_anchor
                == l2.series@[i].label_anchor,
{
    assert(l1.grid_lines@ =~= l2.grid_lines@);
    assert(l1.axis_labels@ =~= l2.axis_labels@);
    assert(l1.label_values@ =~= l2.label_values@);
    assert forall|i: int| 0 <= i < l1.series@.len() implies (#[trigger] l1.series@[i]).points@
        == l2.series@[i].points@ && l1.series@[i].path@ == l2.series@[i].path@ && l1.series@[i].dots@ == l2.series@[i].dots@
        && l1.series@[i].label_anchor == l2.series@[i].label_anchor by {
        assert(is_line_series(*p, l1.grid, i, l1.series@[i]));
        assert(is_line_series(*p, l2.grid, i, l2.series@[i]));
        assert(l1.series@[i].points@ =~= l2.series@[i].points@);
        assert(l1.series@[i].dots@ =~= l2.series@[i].dots@);
    }
}

} // verus!
