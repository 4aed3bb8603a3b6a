//! Statistics of a numeric series and the nice step of a value scale.

use vstd::prelude::*;

use crate::types::VALUE_LIMIT;
use crate::utils::{lemma_magnitude_bounds, magnitude, magnitude_of, max_of, min_of, seq_max, seq_min};

verus! {

/// The rows of a series, as sequences.
pub open spec fn rows_of(s: &Vec<Vec<i64>>) -> Seq<Seq<i64>> {
    s@.map_values(|r: Vec<i64>| r@)
}

/// At least one row, and no row empty.
pub open spec fn rows_nonempty(s: Seq<Seq<i64>>) -> bool {
    s.len() > 0 && forall|k: int| 0 <= k < s.len() ==> #[trigger] s[k].len() > 0
}

/// Every value within the accepted magnitude.
pub open spec fn values_in_range(s: Seq<Seq<i64>>) -> bool {
    forall|k: int, j: int|
        0 <= k < s.len() && 0 <= j < s[k].len() ==> -VALUE_LIMIT <= #[trigger] s[k][j] <= VALUE_LIMIT
}

/// The largest value of all rows.
pub open spec fn series_max(s: Seq<Seq<i64>>) -> int
    decreases s.len(),
{
    if s.len() <= 1 {
        seq_max(s[0])
    } else {
        let m = series_max(s.drop_last());
        let l = seq_max(s.last());
        if l > m {
            l
        } else {
            m
        }
    }
}

/// The smallest value of all rows.
pub open spec fn series_min(s: Seq<Seq<i64>>) -> int
    decreases s.len(),
{
    if s.len() <= 1 {
        seq_min(s[0])
    } else {
        let m = series_min(s.drop_last());
        let l = seq_min(s.last());
        if l < m {
            l
        } else {
            m
        }
    }
}

/// The end of the stacked bar of row `k` in column `j`: the sum of the
/// values of rows `0..=k` in that column.
pub open spec fn stack_end(s: Seq<Seq<i64>>, k: int, j: int) -> int
    decreases k,
{
    if k <= 0 {
        s[0][j] as int
    } else {
        stack_end(s, k - 1, j) + s[k][j]
    }
}

/// Rows of one length, and every running column total within range.
pub open spec fn stack_valid(s: Seq<Seq<i64>>) -> bool {
    &&& forall|k: int| 0 <= k < s.len() ==> #[trigger] s[k].len() == s[0].len()
    &&& forall|k: int, j: int|
        0 <= k < s.len() && 0 <= j < s[0].len() ==> -VALUE_LIMIT <= #[trigger] stack_end(s, k, j)
            <= VALUE_LIMIT
}

/// The largest column total among the first `n` columns.
pub open spec fn column_max_upto(s: Seq<Seq<i64>>, n: int) -> int
    decreases n,
{
    let last = s.len() - 1;
    if n <= 1 {
        stack_end(s, last, 0)
    } else {
        let m = column_max_upto(s, n - 1);
        let c = stack_end(s, last, n - 1);
        if c > m {
            c
        } else {
            m
        }
    }
}

/// The largest column total: the highest point of the stacked bars.
pub open spec fn stacked_max(s: Seq<Seq<i64>>) -> int {
    column_max_upto(s, s[0].len() as int)
}

pub proof fn lemma_series_max_is_max(s: Seq<Seq<i64>>)
    requires
        rows_nonempty(s),
    ensures
        forall|k: int, j: int| 0 <= k < s.len() && 0 <= j < s[k].len() ==> #[trigger] s[k][j] <= series_max(s),
        exists|k: int, j: int| 0 <= k < s.len() && 0 <= j < s[k].len() && s[k][j] == series_max(s),
        forall|k: int, j: int| 0 <= k < s.len() && 0 <= j < s[k].len() ==> #[trigger] s[k][j] >= series_min(s),
        exists|k: int, j: int| 0 <= k < s.len() && 0 <= j < s[k].len() && s[k][j] == series_min(s),
    decreases s.len(),
{
    crate::utils::lemma_seq_max_is_max(s.last());
    crate::utils::lemma_seq_min_is_min(s.last());
    if s.len() > 1 {
        let t = s.drop_last();
        assert forall|k: int| 0 <= k < t.len() implies #[trigger] t[k].len() > 0 by {
            assert(t[k] == s[k]);
        }
        lemma_series_max_is_max(t);
        let (k0, j0) = choose|k: int, j: int| 0 <= k < t.len() && 0 <= j < t[k].len() && t[k][j] == series_max(t);
        assert(s[k0] == t[k0]);
        let (k1, j1) = choose|k: int, j: int| 0 <= k < t.len() && 0 <= j < t[k].len() && t[k][j] == series_min(t);
        assert(s[k1] == t[k1]);
        let jm = choose|i: int| 0 <= i < s.last().len() && s.last()[i] == seq_max(s.last());
        let jn = choose|i: int| 0 <= i < s.last().len() && s.last()[i] == seq_min(s.last());
        assert(s[s.len() - 1][jm] == seq_max(s.last()));
        assert(s[s.len() - 1][jn] == seq_min(s.last()));
        assert forall|k: int, j: int| 0 <= k < s.len() && 0 <= j < s[k].len() implies #[trigger] s[k][j]
            <= series_max(s) && s[k][j] >= series_min(s) by {
            if k < s.len() - 1 {
                assert(s[k] == t[k]);
            }
        }
    } else {
        let jm = choose|i: int| 0 <= i < s[0].len() && s[0][i] == seq_max(s[0]);
        let jn = choose|i: int| 0 <= i < s[0].len() && s[0][i] == seq_min(s[0]);
        assert(s[0][jm] == series_max(s));
        assert(s[0][jn] == series_min(s));
    }
}

/// The largest and the smallest value of a series whose rows are not empty.
pub fn series_extremes(series: &Vec<Vec<i64>>) -> (r: (i64, i64))
    requires
        rows_nonempty(rows_of(series)),
    ensures
        r.0 == series_min(rows_of(series)),
        r.1 == series_max(rows_of(series)),
{
    let ghost s = rows_of(series);
    assert(s[0] == series@[0]@);
    let mut lo = min_of(&series[0]);
    let mut hi = max_of(&series[0]);
    let mut i: usize = 1;
    while i < series.len()
        invariant
            s == rows_of(series),
            rows_nonempty(s),
            1 <= i <= s.len(),
            lo == series_min(s.subrange(0, i as int)),
            hi == series_max(s.subrange(0, i as int)),
        decreases s.len() - i,
    {
        assert(s.subrange(0, i as int + 1).drop_last() =~= s.subrange(0, i as int));
        assert(s[i as int] == series@[i as int]@);
        assert(s[i as int].len() > 0);
        let l = min_of(&series[i]);
        let h = max_of(&series[i]);
        if l < lo {
            lo = l;
        }
        if h > hi {
            hi = h;
        }
        i = i + 1;
    }
    assert(s.subrange(0, s.len() as int) =~= s);
    (lo, hi)
}

/// Whether the rows are not empty and all values lie within range.
pub fn values_ok(series: &Vec<Vec<i64>>) -> (r: bool)
    ensures
        r == (rows_nonempty(rows_of(series)) && values_in_range(rows_of(series))),
{
    let ghost s = rows_of(series);
    if series.len() == 0 {
        return false;
    }
    let mut k: usize = 0;
    while k < series.len()
        invariant
            s == rows_of(series),
            s.len() > 0,
            0 <= k <= s.len(),
            forall|kk: int| 0 <= kk < k ==> #[trigger] s[kk].len() > 0,
            forall|kk: int, j: int|
                0 <= kk < k && 0 <= j < s[kk].len() ==> -VALUE_LIMIT <= #[trigger] s[kk][j] <= VALUE_LIMIT,
        decreases s.len() - k,
    {
        let row = &series[k];
        assert(s[k as int] == row@);
        if row.len() == 0 {
            return false;
        }
        let mut j: usize = 0;
        while j < row.len()
            invariant
                s == rows_of(series),
                0 <= k < s.len(),
                s[k as int] == row@,
                0 <= j <= row@.len(),
                forall|jj: int| 0 <= jj < j ==> -VALUE_LIMIT <= #[trigger] s[k as int][jj] <= VALUE_LIMIT,
            decreases row@.len() - j,
        {
            let v = row[j];
            if v < -VALUE_LIMIT || v > VALUE_LIMIT {
                assert(s[k as int][j as int] == v);
                return false;
            }
            j = j + 1;
        }
        k = k + 1;
    }
    true
}

/// Whether the rows have one length and every running column total lies
/// within range.
#[verifier::spinoff_prover]
#[verifier::rlimit(40)]
pub fn stack_ok(series: &Vec<Vec<i64>>) -> (r: bool)
    requires
        rows_nonempty(rows_of(series)),
        values_in_range(rows_of(series)),
    ensures
        r == stack_valid(rows_of(series)),
{
    let ghost s = rows_of(series);
    let n = series[0].len();
    assert(s[0] == series@[0]@);
    let mut k: usize = 0;
    while k < series.len()
        invariant
            s == rows_of(series),
            n == s[0].len(),
            0 <= k <= s.len(),
            forall|kk: int| 0 <= kk < k ==> #[trigger] s[kk].len() == n,
        decreases s.len() - k,
    {
        assert(s[k as int] == series@[k as int]@);
        if series[k].len() != n {
            return false;
        }
        k = k + 1;
    }
    let mut j: usize = 0;
    while j < n
        invariant
            s == rows_of(series),
            rows_nonempty(s),
            values_in_range(s),
            n == s[0].len(),
            forall|kk: int| 0 <= kk < s.len() ==> #[trigger] s[kk].len() == n,
            0 <= j <= n,
            forall|kk: int, jj: int|
                0 <= kk < s.len() && 0 <= jj < j ==> -VALUE_LIMIT <= #[trigger] stack_end(s, kk, jj)
                    <= VALUE_LIMIT,
        decreases n - j,
    {
        let mut acc: i128 = 0;
        let mut k: usize = 0;
        while k < series.len()
            invariant
                s == rows_of(series),
                rows_nonempty(s),
                values_in_range(s),
                n == s[0].len(),
                forall|kk: int| 0 <= kk < s.len() ==> #[trigger] s[kk].len() == n,
                0 <= j < n,
                0 <= k <= s.len(),
                k == 0 ==> acc == 0,
                k > 0 ==> acc == stack_end(s, k - 1, j as int),
                -VALUE_LIMIT <= acc <= VALUE_LIMIT,
                forall|kk: int| 0 <= kk < k ==> -VALUE_LIMIT <= #[trigger] stack_end(s, kk, j as int) <= VALUE_LIMIT,
            decreases s.len() - k,
        {
            assert(s[k as int] == series@[k as int]@);
            assert(s[k as int].len() == n);
            let v = series[k][j];
            assert(v == s[k as int][j as int]);
            acc = acc + v as i128;
            assert(acc == stack_end(s, k as int, j as int));
            if acc < -(VALUE_LIMIT as i128) || acc > VALUE_LIMIT as i128 {
                return false;
            }
            k = k + 1;
        }
        j = j + 1;
    }
    true
}

/// The total of column `j` over all rows.
fn column_total(series: &Vec<Vec<i64>>, j: usize) -> (r: i64)
    requires
        rows_nonempty(rows_of(series)),
        stack_valid(rows_of(series)),
        j < rows_of(series)[0].len(),
    ensures
        r == stack_end(rows_of(series), rows_of(series).len() - 1, j as int),
{
    let ghost s = rows_of(series);
    let mut acc: i64 = 0;
    let mut k: usize = 0;
    while k < series.len()
        invariant
            s == rows_of(series),
            rows_nonempty(s),
            stack_valid(s),
            j < s[0].len(),
            0 <= k <= s.len(),
            k == 0 ==> acc == 0,
            k > 0 ==> acc == stack_end(s, k - 1, j as int),
        decreases s.len() - k,
    {
        assert(s[k as int] == series@[k as int]@);
        assert(s[k as int].len() == s[0].len());
        assert(-VALUE_LIMIT <= stack_end(s, k as int, j as int) <= VALUE_LIMIT);
        acc = acc + series[k][j];
        k = k + 1;
    }
    acc
}

/// The largest column total of a stacked series.
pub fn stacked_highest(series: &Vec<Vec<i64>>) -> (r: i64)
    requires
        rows_nonempty(rows_of(series)),
        stack_valid(rows_of(series)),
    ensures
        r == stacked_max(rows_of(series)),
{
    let ghost s = rows_of(series);
    assert(s[0] == series@[0]@);
    let n = series[0].len();
    let mut m = column_total(series, 0);
    let mut j: usize = 1;
    while j < n
        invariant
            s == rows_of(series),
            rows_nonempty(s),
            stack_valid(s),
            n == s[0].len(),
            1 <= j <= n,
            m == column_max_upto(s, j as int),
        decreases n - j,
    {
        let c = column_total(series, j);
        if c > m {
            m = c;
        }
        j = j + 1;
    }
    m
}

/// The multiplier, in tenths, that snaps `range / dm` up to a nice value.
pub open spec fn nice_tenths(range: int, dm: int) -> int {
    if 10 * range > 90 * dm {
        100
    } else if 10 * range > 80 * dm {
        90
    } else if 10 * range > 70 * dm {
        80
    } else if 10 * range > 60 * dm {
        70
    } else if 10 * range > 50 * dm {
        60
    } else if 10 * range > 40 * dm {
        50
    } else if 10 * range > 30 * dm {
        40
    } else if 10 * range > 25 * dm {
        30
    } else if 10 * range > 20 * dm {
        25
    } else if 10 * range > 15 * dm {
        20
    } else if 10 * range > 10 * dm {
        15
    } else {
        10
    }
}

/// The magnitude of the raw step `range / intervals`, never below one
/// fixed-point unit.
pub open spec fn step_magnitude(range: int, intervals: int) -> int {
    let raw = range / intervals;
    if raw < 1 {
        1
    } else {
        magnitude_of(raw)
    }
}

/// The nice step for `range` split into `intervals`: the raw step snapped up
/// to 1, 1.5, 2, 2.5, 3, 4, 5, 6, 7, 8, 9 or 10 times its magnitude. Where the
/// magnitude is a single fixed-point unit, 1.5 and 2.5 units cannot be held,
/// and the step is rounded up to 2 and 3 units.
pub open spec fn nice_step_of(range: int, intervals: int) -> int {
    let m = step_magnitude(range, intervals);
    let t = nice_tenths(range, intervals * m);
    if m >= 10 {
        t * m / 10
    } else {
        (t + 9) / 10
    }
}

#[verifier::spinoff_prover]
#[verifier::rlimit(40)]
pub proof fn lemma_nice_step(range: int, intervals: int)
    requires
        0 < range,
        1 <= intervals,
    ensures
        nice_step_of(range, intervals) >= 1,
        nice_step_of(range, intervals) <= 10 * range + 100,
        range <= nice_step_of(range, intervals) * intervals,
        range >= 10 * intervals ==> 3 * range > 2 * intervals * nice_step_of(range, intervals),
{
    let raw = range / intervals;
    let m = step_magnitude(range, intervals);
    let t = nice_tenths(range, intervals * m);
    let step = nice_step_of(range, intervals);
    assert(raw * intervals <= range < (raw + 1) * intervals) by (nonlinear_arith)
        requires raw == range / intervals, intervals >= 1;
    assert(raw >= 0) by (nonlinear_arith)
        requires raw == range / intervals, intervals >= 1, range > 0;
    if raw >= 1 {
        lemma_magnitude_bounds(raw);
        if raw >= 10 {
            assert(magnitude_of(raw) == 10 * magnitude_of(raw / 10));
            lemma_magnitude_bounds(raw / 10);
        }
        assert(raw <= range) by (nonlinear_arith)
            requires raw == range / intervals, intervals >= 1, range >= 0;
    }
    assert(m == 1 || (m >= 10 && m % 10 == 0));
    assert(m <= range || m == 1);
    assert(raw < 10 * m);
    assert(range < 10 * m * intervals) by (nonlinear_arith)
        requires range < (raw + 1) * intervals, raw < 10 * m, intervals >= 1, raw >= 0;
    assert(10 <= t <= 100);
    if t == 100 {
        assert(10 * range <= t * (intervals * m)) by (nonlinear_arith)
            requires range < 10 * m * intervals, t == 100;
    } else {
        assert(10 * range <= t * (intervals * m));
    }
    if m >= 10 {
        let q = m / 10;
        assert(m == 10 * q);
        assert(t * m == (t * q) * 10) by (nonlinear_arith)
            requires m == 10 * q;
        vstd::arithmetic::div_mod::lemma_div_by_multiple(t * q, 10);
        assert(step == t * q);
        assert(step >= 10) by (nonlinear_arith)
            requires step * 10 == t * m, t >= 10, m >= 10;
        assert(step <= 10 * m) by (nonlinear_arith)
            requires step * 10 == t * m, t <= 100, m >= 10;
    } else {
        assert(t <= step * 10 <= t + 9) by (nonlinear_arith)
            requires step == (t + 9) / 10, t >= 0;
    }
    assert(step * 10 >= t * m);
    assert(range <= step * intervals) by (nonlinear_arith)
        requires 10 * range <= t * (intervals * m), step * 10 >= t * m, intervals >= 1, t >= 0, m >= 0;
    if range >= 10 * intervals {
        assert(raw >= 10) by (nonlinear_arith)
            requires raw == range / intervals, range >= 10 * intervals, intervals >= 1;
        assert(m <= raw);
        assert(intervals * m <= range) by (nonlinear_arith)
            requires m <= raw, raw * intervals <= range, intervals >= 1;
        assert(m >= 10);
        assert(step * 10 == t * m);
        if t == 10 {
            assert(range == intervals * m);
            assert(3 * range > 2 * intervals * step) by (nonlinear_arith)
                requires range == intervals * m, step * 10 == 10 * m, intervals >= 1, m >= 10;
        } else {
            // the multiplier chosen is at most one and a half times the
            // threshold that the raw step passed
            let th: int = if t == 15 {
                10
            } else if t == 20 {
                15
            } else if t == 25 {
                20
            } else if t == 30 {
                25
            } else if t == 40 {
                30
            } else if t == 50 {
                40
            } else if t == 60 {
                50
            } else if t == 70 {
                60
            } else if t == 80 {
                70
            } else if t == 90 {
                80
            } else {
                90
            };
            assert(10 * range > th * (intervals * m));
            assert(2 * t <= 3 * th);
            assert(3 * range > 2 * intervals * step) by (nonlinear_arith)
                requires
                    step * 10 == t * m,
                    2 * t <= 3 * th,
                    10 * range > th * (intervals * m),
                    intervals >= 1,
                    m >= 1,
                    th >= 1;
        }
    }
}

/// The nice step for `range` split into `intervals`.
#[verifier::spinoff_prover]
#[verifier::rlimit(40)]
pub fn nice_step(range: i64, intervals: i64) -> (r: i64)
    requires
        0 < range <= 2 * VALUE_LIMIT,
        1 <= intervals <= 0x8000_0000,
    ensures
        r == nice_step_of(range as int, intervals as int),
        1 <= r <= 10 * range + 100,
        range <= r * intervals,
{
    let raw = range / intervals;
    let m: i64 = if raw < 1 {
        1
    } else {
        magnitude(raw)
    };
    proof {
        lemma_nice_step(range as int, intervals as int);
        if raw >= 1 {
            lemma_magnitude_bounds(raw as int);
            assert(raw <= range) by (nonlinear_arith)
                requires raw == range / intervals, intervals >= 1, range >= 0;
        }
    }
    assert(0 <= intervals * m <= 0x8000_0000 * (2 * VALUE_LIMIT)) by (nonlinear_arith)
        requires 1 <= intervals <= 0x8000_0000, 0 <= m <= 2 * VALUE_LIMIT;
    let dm: i128 = (intervals as i128) * (m as i128);
    let r10: i128 = 10 * (range as i128);
    let t: i128 = if r10 > 90 * dm {
        100
    } else if r10 > 80 * dm {
        90
    } else if r10 > 70 * dm {
        80
    } else if r10 > 60 * dm {
        70
    } else if r10 > 50 * dm {
        60
    } else if r10 > 40 * dm {
        50
    } else if r10 > 30 * dm {
        40
    } else if r10 > 25 * dm {
        30
    } else if r10 > 20 * dm {
        25
    } else if r10 > 15 * dm {
        20
    } else if r10 > 10 * dm {
        15
    } else {
        10
    };
    assert(t == nice_tenths(range as int, intervals * m));
    assert(0 <= t * m <= 200 * VALUE_LIMIT) by (nonlinear_arith)
        requires 10 <= t <= 100, 0 <= m <= 2 * VALUE_LIMIT;
    let step = if m >= 10 {
        (t * (m as i128)) / 10
    } else {
        (t + 9) / 10
    };
    step as i64
}

} // verus!
