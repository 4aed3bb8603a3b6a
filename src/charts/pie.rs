//! Slices of pie, donut and gauge charts.

use vstd::prelude::*;

use crate::types::{ChartError, Point, SCALE, VALUE_LIMIT};
use crate::utils::{floor_div, max_of, normalize_series, normalized, seq_max};

verus! {

/// Angles are in thousandths of a degree.
pub const FULL_TURN: i128 = 360_000;

/// The largest sweep drawn, short of a full circle.
pub const MAX_SWEEP: i128 = 359_990;

/// The gap left before every slice but the first.
pub const SLICE_GAP: i128 = 400;

/// Denominator of a gauge ratio: 10000 stands for the whole.
pub const RATIO_SCALE: i64 = 10_000;

/// Most entries of a pie series.
pub const PIE_LIMIT: usize = 0xFFFF_FFFF;

/// Where the labels of a pie chart go.
#[derive(Clone, Copy, Debug, PartialEq, Eq, Structural)]
pub enum LabelPosition {
    /// Halfway between the center and the rim.
    Inside,
    /// On the rim.
    Outside,
    /// At the center, to be moved by the label offset.
    Center,
}

/// The settings of a pie chart; lengths in fixed-point view units, angles
/// in thousandths of a degree.
#[derive(Clone, Debug)]
pub struct PieChartProps {
    /// The values, in fixed-point units.
    pub series: Vec<i64>,
    /// The view box, in whole view units.
    pub viewbox_width: i32,
    pub viewbox_height: i32,
    pub label_position: LabelPosition,
    /// Added to the label radius, in fixed-point units.
    pub label_offset: i64,
    /// Where the first slice starts, in thousandths of a degree clockwise
    /// from the top.
    pub start_angle: i64,
    /// The value that a full turn stands for, in fixed-point units.
    pub total: Option<i64>,
    /// The share of a full turn that the values fill, in ten-thousandths.
    pub show_ratio: Option<i64>,
    /// Space kept free round the pie, in fixed-point units.
    pub padding: i64,
    pub donut: bool,
    /// The width of a donut ring, in fixed-point units.
    pub donut_width: i64,
}

impl Default for PieChartProps {
    /// No values; a 600 by 400 view box, labels inside, a donut width of 40.
    fn default() -> (r: PieChartProps)
        ensures
            r.series@.len() == 0,
            r.viewbox_width == 600,
            r.viewbox_height == 400,
            r.label_position == LabelPosition::Inside,
            r.label_offset == 0,
            r.start_angle == 0,
            r.total is None,
            r.show_ratio is None,
            r.padding == 0,
            !r.donut,
            r.donut_width == 40 * SCALE,
    {
        PieChartProps {
            series: Vec::new(),
            viewbox_width: 600,
            viewbox_height: 400,
            label_position: LabelPosition::Inside,
            label_offset: 0,
            start_angle: 0,
            total: None,
            show_ratio: None,
            padding: 0,
            donut: false,
            donut_width: 40 * SCALE,
        }
    }
}

/// One drawn slice.
#[derive(Clone, Copy, Debug, PartialEq, Eq, Structural)]
pub struct Slice {
    /// Position among the drawn slices, for colour and class.
    pub class_index: usize,
    /// Where the arc starts, after the gap to the previous slice.
    pub start_angle: i128,
    pub end_angle: i128,
    /// Whether the arc sweeps more than half a turn.
    pub large_arc: bool,
    /// The middle of the slice, where its label goes.
    pub label_angle: i128,
}

/// Where the slices and their labels go.
#[derive(Clone, Debug, PartialEq, Eq)]
pub struct PieLayout {
    pub center: Point,
    pub radius: i128,
    /// The radius of the hole of a donut.
    pub inner_radius: Option<i128>,
    pub label_radius: i128,
    /// One entry per series value: its slice, or none for a value of zero.
    pub slices: Vec<Option<Slice>>,
}

/// Whether a pie can be drawn: values present, none negative, not all zero,
/// within range, as are the total and the offsets.
pub open spec fn pie_ok(p: PieChartProps) -> bool {
    let s = p.series@;
    &&& 0 < s.len() <= PIE_LIMIT
    &&& forall|i: int| 0 <= i < s.len() ==> 0 <= #[trigger] s[i] <= VALUE_LIMIT
    &&& seq_max(s) > 0
    &&& (match p.total {
        Some(t) => -VALUE_LIMIT <= t <= VALUE_LIMIT,
        None => true,
    })
    &&& -VALUE_LIMIT <= p.label_offset <= VALUE_LIMIT
    &&& -VALUE_LIMIT <= p.padding <= VALUE_LIMIT
    &&& -VALUE_LIMIT <= p.donut_width <= VALUE_LIMIT
}

/// The sum of the first `n` values.
pub open spec fn sum_upto(s: Seq<i64>, n: int) -> int
    decreases n,
{
    if n <= 0 {
        0
    } else {
        sum_upto(s, n - 1) + s[n - 1]
    }
}

/// The sum of the first `n` normalized values.
pub open spec fn normalized_sum_upto(s: Seq<i64>, n: int) -> int
    decreases n,
{
    if n <= 0 {
        0
    } else {
        normalized_sum_upto(s, n - 1) + normalized(s, n - 1)
    }
}

/// The value that a full turn stands for: the sum of the normalized values,
/// divided by the gauge ratio (clamped to 0.0001..=1) or scaled to a given
/// total (never below the sum).
pub open spec fn values_total(p: PieChartProps) -> int {
    let s = p.series@;
    let sum = normalized_sum_upto(s, s.len() as int);
    match p.show_ratio {
        Some(r) => {
            let c = if r < 1 {
                1
            } else if r > RATIO_SCALE {
                RATIO_SCALE as int
            } else {
                r as int
            };
            sum * RATIO_SCALE / c
        },
        None => match p.total {
            Some(v) => {
                let raw = sum_upto(s, s.len() as int);
                if raw > 0 {
                    let scaled = sum * v / raw;
                    if scaled > sum {
                        scaled
                    } else {
                        sum
                    }
                } else {
                    sum
                }
            },
            None => sum,
        },
    }
}

/// Where the slice with class `c` starts once the gap is left.
pub open spec fn gap_start(a: int, c: int) -> int {
    if c != 0 {
        if a - SLICE_GAP > 0 {
            a - SLICE_GAP
        } else {
            0
        }
    } else {
        a
    }
}

/// Where a slice of normalized value `n` that starts at `a` ends.
pub open spec fn slice_end(a: int, c: int, n: int, total: int) -> int {
    let end = if total > 0 {
        a + n * FULL_TURN / total
    } else {
        0
    };
    let g = gap_start(a, c);
    if end - g >= MAX_SWEEP {
        g + MAX_SWEEP
    } else {
        end
    }
}

/// The running angle and the number of drawn slices before entry `k`.
pub open spec fn walk(s: Seq<i64>, start: int, total: int, k: int) -> (int, int)
    decreases k,
{
    if k <= 0 {
        (start, 0)
    } else {
        let (a, c) = walk(s, start, total, k - 1);
        let n = normalized(s, k - 1);
        if s[k - 1] != 0 {
            (slice_end(a, c, n, total), c + 1)
        } else {
            (a, c)
        }
    }
}

/// The slice of entry `k`, when its value is not zero.
pub open spec fn slice_at(s: Seq<i64>, start: int, total: int, k: int) -> Slice {
    let (a, c) = walk(s, start, total, k);
    let end = slice_end(a, c, normalized(s, k), total);
    Slice {
        class_index: c as usize,
        start_angle: gap_start(a, c) as i128,
        end_angle: end as i128,
        large_arc: end - a > FULL_TURN / 2,
        label_angle: (a + (end - a) / 2) as i128,
    }
}

/// The entry of `slices` for series value `k`.
pub open spec fn pie_entry(p: PieChartProps, k: int) -> Option<Slice> {
    if p.series@[k] != 0 {
        Some(slice_at(p.series@, p.start_angle as int, values_total(p), k))
    } else {
        None
    }
}

/// The center of the view box.
pub open spec fn pie_center(p: PieChartProps) -> Point {
    Point { x: (p.viewbox_width * SCALE / 2) as i128, y: (p.viewbox_height * SCALE / 2) as i128 }
}

/// The outer radius: the smaller half-side, less a margin of 30 and the
/// padding.
pub open spec fn pie_radius(p: PieChartProps) -> int {
    let c = pie_center(p);
    let m = if c.x < c.y {
        c.x as int
    } else {
        c.y as int
    };
    m - 30 * SCALE - p.padding
}

/// The radius of the hole of a donut.
pub open spec fn pie_inner_radius(p: PieChartProps) -> int {
    pie_radius(p) - p.donut_width
}

/// The distance of the labels from the center.
pub open spec fn pie_label_radius(p: PieChartProps) -> int {
    match p.label_position {
        LabelPosition::Inside => pie_radius(p) / 2 + p.label_offset,
        LabelPosition::Outside => pie_radius(p) + p.label_offset,
        LabelPosition::Center => p.label_offset as int,
    }
}

/// `l` is the layout of the pie chart `p`.
pub open spec fn is_pie_layout(p: PieChartProps, l: PieLayout) -> bool {
    &&& l.center == pie_center(p)
    &&& l.radius == pie_radius(p)
    &&& l.inner_radius == if p.donut {
        Some(pie_inner_radius(p) as i128)
    } else {
        None
    }
    &&& l.label_radius == pie_label_radius(p)
    &&& l.slices@.len() == p.series@.len()
    &&& forall|k: int| 0 <= k < p.series@.len() ==> #[trigger] l.slices@[k] == pie_entry(p, k)
}

proof fn lemma_term_within_sum(s: Seq<i64>, n: int, k: int)
    requires
        0 <= k < n <= s.len(),
        forall|j: int| 0 <= j < s.len() ==> 0 <= #[trigger] normalized(s, j),
    ensures
        normalized(s, k) <= normalized_sum_upto(s, n),
        0 <= normalized_sum_upto(s, n),
    decreases n,
{
    if n - 1 > k {
        lemma_term_within_sum(s, n - 1, k);
    } else {
        lemma_sum_nonneg(s, n - 1);
    }
}

proof fn lemma_sum_nonneg(s: Seq<i64>, n: int)
    requires
        0 <= n <= s.len(),
        forall|j: int| 0 <= j < s.len() ==> 0 <= #[trigger] normalized(s, j),
    ensures
        0 <= normalized_sum_upto(s, n),
    decreases n,
{
    if n > 0 {
        lemma_sum_nonneg(s, n - 1);
    }
}

/// Whether `p` can be laid out; see [`pie_ok`].
fn pie_input_ok(p: &PieChartProps) -> (r: bool)
    ensures
        r == pie_ok(*p),
{
    let ghost s = p.series@;
    let n = p.series.len();
    if n == 0 || n > PIE_LIMIT {
        return false;
    }
    let mut i: usize = 0;
    while i < n
        invariant
            s == p.series@,
            n == s.len(),
            0 <= i <= n,
            forall|j: int| 0 <= j < i ==> 0 <= #[trigger] s[j] <= VALUE_LIMIT,
        decreases n - i,
    {
        let v = p.series[i];
        if v < 0 || v > VALUE_LIMIT {
            return false;
        }
        i = i + 1;
    }
    let m = max_of(&p.series);
    if m <= 0 {
        return false;
    }
    match p.total {
        Some(t) => if t < -VALUE_LIMIT || t > VALUE_LIMIT {
            return false;
        },
        None => {},
    }
    if p.label_offset < -VALUE_LIMIT || p.label_offset > VALUE_LIMIT || p.padding < -VALUE_LIMIT
        || p.padding > VALUE_LIMIT || p.donut_width < -VALUE_LIMIT || p.donut_width > VALUE_LIMIT {
        return false;
    }
    proof {
        crate::utils::lemma_seq_max_is_max(s);
        assert(seq_max(s) > 0);
    }
    true
}

/// The sum of the normalized values and the value of a full turn.
#[verifier::spinoff_prover]
#[verifier::rlimit(40)]
fn pie_totals(p: &PieChartProps, normalized_series: &Vec<i128>) -> (r: (i128, i128))
    requires
        pie_ok(*p),
        normalized_series@.len() == p.series@.len(),
        forall|j: int| 0 <= j < p.series@.len() ==> #[trigger] normalized_series@[j] == normalized(p.series@, j),
    ensures
        r.0 == normalized_sum_upto(p.series@, p.series@.len() as int),
        r.1 == values_total(*p),
        0 <= r.0 <= r.1,
        r.1 <= 0x1_0000_0000 * 100_000 * 10_000 + 0x1_0000_0000 * 100_000 * VALUE_LIMIT,
        forall|j: int| 0 <= j < p.series@.len() ==> 0 <= #[trigger] normalized(p.series@, j) <= 100_000,
        forall|j: int| 0 <= j < p.series@.len() ==> #[trigger] normalized(p.series@, j) <= r.0,
{
    let ghost s = p.series@;
    let n = p.series.len();
    let m = max_of(&p.series);
    proof {
        crate::utils::lemma_seq_max_is_max(s);
    }
    // sums of the normalized and of the given values
    let mut sum: i128 = 0;
    let mut raw: i128 = 0;
    let mut i: usize = 0;
    while i < n
        invariant
            s == p.series@,
            n == s.len(),
            n <= PIE_LIMIT,
            m == seq_max(s),
            m > 0,
            forall|j: int| 0 <= j < n ==> 0 <= #[trigger] s[j] <= VALUE_LIMIT,
            forall|j: int| 0 <= j < n ==> 0 <= #[trigger] s[j] <= m,
            normalized_series@.len() == n,
            forall|j: int| 0 <= j < n ==> #[trigger] normalized_series@[j] == normalized(s, j),
            0 <= i <= n,
            sum == normalized_sum_upto(s, i as int),
            raw == sum_upto(s, i as int),
            0 <= sum <= i * 100_000,
            0 <= raw <= i * VALUE_LIMIT,
        decreases n - i,
    {
        let v = normalized_series[i];
        assert(0 <= v <= 100_000) by (nonlinear_arith)
            requires v as int == (s[i as int] as int) * 100_000 / (m as int), 0 <= s[i as int] <= m, m > 0;
        sum = sum + v as i128;
        raw = raw + p.series[i] as i128;
        i = i + 1;
    }
    let total: i128 = match p.show_ratio {
        Some(r) => {
            let c: i128 = if r < 1 {
                1
            } else if r > RATIO_SCALE {
                RATIO_SCALE as i128
            } else {
                r as i128
            };
            sum * (RATIO_SCALE as i128) / c
        },
        None => match p.total {
            Some(v) => {
                if raw > 0 {
                    assert(-0x1_0000_0000 * 100_000 * VALUE_LIMIT <= sum * v
                        <= 0x1_0000_0000 * 100_000 * VALUE_LIMIT) by (nonlinear_arith)
                        requires 0 <= sum <= 0x1_0000_0000 * 100_000, -VALUE_LIMIT <= v <= VALUE_LIMIT;
                    let scaled = floor_div(sum * (v as i128), raw);
                    if scaled > sum {
                        scaled
                    } else {
                        sum
                    }
                } else {
                    sum
                }
            },
            None => sum,
        },
    };
    assert(total == values_total(*p));
    assert(sum <= total) by {
        match p.show_ratio {
            Some(r) => {
                let c: int = if r < 1 { 1 } else if r > RATIO_SCALE { RATIO_SCALE as int } else { r as int };
                assert(sum <= sum * RATIO_SCALE / c) by (nonlinear_arith)
                    requires 1 <= c <= RATIO_SCALE, sum >= 0;
            },
            None => {},
        }
    }
    assert(total <= 0x1_0000_0000 * 100_000 * 10_000 + 0x1_0000_0000 * 100_000 * VALUE_LIMIT) by {
        match p.show_ratio {
            Some(r) => {
                let c: int = if r < 1 { 1 } else if r > RATIO_SCALE { RATIO_SCALE as int } else { r as int };
                assert(sum * RATIO_SCALE / c <= sum * RATIO_SCALE) by (nonlinear_arith)
                    requires 1 <= c, sum >= 0;
            },
            None => match p.total {
                Some(v) => {
                    if raw > 0 {
                        assert((sum as int) * (v as int) / (raw as int) <= 0x1_0000_0000 * 100_000 * VALUE_LIMIT) by (nonlinear_arith)
                            requires
                                0 <= sum <= 0x1_0000_0000 * 100_000,
                                -VALUE_LIMIT <= v <= VALUE_LIMIT,
                                raw >= 1;
                    }
                },
                None => {},
            },
        }
    }
    assert forall|j: int| 0 <= j < n implies 0 <= #[trigger] normalized(s, j) <= 100_000 by {
        assert(0 <= normalized(s, j) <= 100_000) by (nonlinear_arith)
            requires normalized(s, j) == (s[j] as int) * 100_000 / (m as int), 0 <= s[j] <= m, m > 0;
    }
    assert forall|j: int| 0 <= j < n implies #[trigger] normalized(s, j) <= sum by {
        lemma_term_within_sum(s, n as int, j);
    }

    (sum, total)
}

/// The entries of `slices`, walking round the circle from the start angle.
#[verifier::spinoff_prover]
#[verifier::rlimit(40)]
fn walk_slices(p: &PieChartProps, normalized_series: &Vec<i128>, sum: i128, total: i128) -> (r: Vec<Option<Slice>>)
    requires
        pie_ok(*p),
        normalized_series@.len() == p.series@.len(),
        forall|j: int| 0 <= j < p.series@.len() ==> #[trigger] normalized_series@[j] == normalized(p.series@, j),
        total == values_total(*p),
        0 <= sum <= total,
        total <= 0x1_0000_0000 * 100_000 * 10_000 + 0x1_0000_0000 * 100_000 * VALUE_LIMIT,
        forall|j: int| 0 <= j < p.series@.len() ==> 0 <= #[trigger] normalized(p.series@, j) <= 100_000,
        forall|j: int| 0 <= j < p.series@.len() ==> #[trigger] normalized(p.series@, j) <= sum,
    ensures
        r@.len() == p.series@.len(),
        forall|k: int| 0 <= k < p.series@.len() ==> #[trigger] r@[k] == pie_entry(*p, k),
{
    let ghost s = p.series@;
    let n = p.series.len();
    // the walk round the circle
    let start = p.start_angle as i128;
    let mut angle: i128 = start;
    let mut drawn: usize = 0;
    let mut slices: Vec<Option<Slice>> = Vec::new();
    let mut k: usize = 0;
    while k < n
        invariant
            s == p.series@,
            n == s.len(),
            n <= PIE_LIMIT,
            normalized_series@.len() == n,
            forall|j: int| 0 <= j < n ==> #[trigger] normalized_series@[j] == normalized(s, j),
            forall|j: int| 0 <= j < n ==> 0 <= #[trigger] normalized(s, j) <= 100_000,
            forall|j: int| 0 <= j < n ==> #[trigger] normalized(s, j) <= sum,
            total == values_total(*p),
            0 <= sum <= total,
            total <= 0x1_0000_0000 * 100_000 * 10_000 + 0x1_0000_0000 * 100_000 * VALUE_LIMIT,
            start == p.start_angle,
            0 <= k <= n,
            (angle as int, drawn as int) == walk(s, start as int, total as int, k as int),
            drawn <= k,
            -0x8000_0000_0000_0000 - 1000 <= angle <= 0x8000_0000_0000_0000 + k * 400_000,
            slices@.len() == k,
            forall|j: int| 0 <= j < k ==> #[trigger] slices@[j] == pie_entry(*p, j),
        decreases n - k,
    {
        let v = normalized_series[k];
        if p.series[k] != 0 {
            let mut end: i128 = if total > 0 {
                assert(0 <= (v as int) * (FULL_TURN as int) / (total as int) <= FULL_TURN) by (nonlinear_arith)
                    requires 0 <= v <= total, total > 0;
                angle + v * FULL_TURN / total
            } else {
                0
            };
            let g: i128 = if drawn != 0 {
                if angle - SLICE_GAP > 0 {
                    angle - SLICE_GAP
                } else {
                    0
                }
            } else {
                angle
            };
            if end - g >= MAX_SWEEP {
                end = g + MAX_SWEEP;
            }
            let slice = Slice {
                class_index: drawn,
                start_angle: g,
                end_angle: end,
                large_arc: end - angle > FULL_TURN / 2,
                label_angle: angle + floor_div(end - angle, 2),
            };
            assert(slice == slice_at(s, start as int, total as int, k as int));
            slices.push(Some(slice));
            angle = end;
            drawn = drawn + 1;
        } else {
            slices.push(None);
        }
        k = k + 1;
    }
    slices
}

/// The pie, donut or gauge chart of `p`, or `InvalidInput` when the series
/// is empty or too long, a value is negative or out of range, all values
/// are zero, or the total or an offset is out of range.
#[verifier::spinoff_prover]
#[verifier::rlimit(40)]
pub fn pie_layout(p: &PieChartProps) -> (r: Result<PieLayout, ChartError>)
    ensures
        match r {
            Ok(l) => pie_ok(*p) && is_pie_layout(*p, l),
            Err(e) => !pie_ok(*p) && e == ChartError::InvalidInput,
        },
{
    if !pie_input_ok(p) {
        return Err(ChartError::InvalidInput);
    }
    proof {
        crate::utils::lemma_seq_max_is_max(p.series@);
    }
    let normalized_series = normalize_series(&p.series);
    let (sum, total) = pie_totals(p, &normalized_series);
    let slices = walk_slices(p, &normalized_series, sum, total);
    let w: i128 = p.viewbox_width as i128;
    let h: i128 = p.viewbox_height as i128;
    assert(-0x8000_0000 * 1000 <= w * 1000 <= 0x8000_0000 * 1000);
    assert(-0x8000_0000 * 1000 <= h * 1000 <= 0x8000_0000 * 1000);
    let cx: i128 = w * 1000 / 2;
    let cy: i128 = h * 1000 / 2;
    let center = Point::new(cx, cy);
    let min_side: i128 = if cx < cy {
        cx
    } else {
        cy
    };
    let radius: i128 = min_side - 30 * (SCALE as i128) - p.padding as i128;
    let label_radius: i128 = match p.label_position {
        LabelPosition::Inside => floor_div(radius, 2) + p.label_offset as i128,
        LabelPosition::Outside => radius + p.label_offset as i128,
        LabelPosition::Center => p.label_offset as i128,
    };
    let inner_radius = if p.donut {
        Some(radius - p.donut_width as i128)
    } else {
        None
    };
    Ok(PieLayout { center, radius, inner_radius, label_radius, slices })
}

/// Laying out a pie chart twice on the same settings gives the same
/// result, down to every slice.
pub proof fn lemma_pie_layout_deterministic(p: PieChartProps, l1: PieLayout, l2: PieLayout)
    requires
        is_pie_layout(p, l1),
        is_pie_layout(p, l2),
    ensures
        l1.center == l2.center,
        l1.radius == l2.radius,
        l1.inner_radius == l2.inner_radius,
        l1.label_radius == l2.label_radius,
        l1.slices@ == l2.slices@,
{
    assert(l1.slices@ =~= l2.slices@);
}

/// The hole of a donut is smaller than the pie: for a positive width less
/// than the outer radius, the inner radius lies strictly between zero and
/// the outer radius.
pub proof fn lemma_donut_inner_within_outer(p: PieChartProps)
    requires
        0 < p.donut_width < pie_radius(p),
    ensures
        0 < pie_inner_radius(p) < pie_radius(p),
{
}

} // verus!
