//! Numeric helpers: rounding division, orders of magnitude, extremes,
//! normalization and series colours.

use vstd::prelude::*;

use crate::types::{SCALE, VALUE_LIMIT};

verus! {

/// `a / b` rounded toward negative infinity.
pub fn floor_div(a: i128, b: i128) -> (r: i128)
    requires
        b > 0,
        a > i128::MIN,
    ensures
        r == a / b,
{
    if a >= 0 {
        let q = (a as u128) / (b as u128);
        proof {
            assert(q as int == a / b);
        }
        q as i128
    } else {
        let na = (-a - 1) as u128;
        let q = na / (b as u128);
        proof {
            let ai = a as int;
            let bi = b as int;
            let qi = q as int;
            assert(qi == (-ai - 1) / bi);
            assert(-ai - 1 == qi * bi + (-ai - 1) % bi) by (nonlinear_arith)
                requires bi > 0, qi == (-ai - 1) / bi;
            assert(ai == (-qi - 1) * bi + (bi - 1 - (-ai - 1) % bi)) by (nonlinear_arith)
                requires -ai - 1 == qi * bi + (-ai - 1) % bi;
            assert(0 <= (-ai - 1) % bi < bi);
            vstd::arithmetic::div_mod::lemma_fundamental_div_mod_converse(
                ai, bi, -qi - 1, bi - 1 - (-ai - 1) % bi);
        }
        -(q as i128) - 1
    }
}

/// The largest power of ten that is at most `x`, for `x >= 1`.
pub open spec fn magnitude_of(x: int) -> int
    decreases x,
{
    if x < 10 {
        1
    } else {
        10 * magnitude_of(x / 10)
    }
}

pub proof fn lemma_magnitude_bounds(x: int)
    requires
        x >= 1,
    ensures
        1 <= magnitude_of(x) <= x < 10 * magnitude_of(x),
        x >= 10 ==> magnitude_of(x) % 10 == 0,
    decreases x,
{
    if x >= 10 {
        lemma_magnitude_bounds(x / 10);
        let m = magnitude_of(x / 10);
        assert(10 * m <= x < 100 * m) by (nonlinear_arith)
            requires m <= x / 10 < 10 * m, x >= 10;
    }
}

/// The power of ten of the leading digit of `value`: ten to the power
/// `floor(log10(|value|))`, in the same fixed-point units; 0 for 0.
pub fn magnitude(value: i64) -> (r: i64)
    ensures
        r == if value == 0 { 0 } else { magnitude_of(if value < 0 { -value } else { value as int }) },
{
    if value == 0 {
        return 0;
    }
    let a: u64 = if value < 0 { (-(value as i128)) as u64 } else { value as u64 };
    let mut m: u64 = 1;
    let mut rest: u64 = a;
    while rest >= 10
        invariant
            1 <= rest <= a,
            a <= 0x8000_0000_0000_0000,
            m * magnitude_of(rest as int) == magnitude_of(a as int),
            m * rest <= a,
            m == 1 || m % 10 == 0,
        decreases rest,
    {
        let ghost m0 = m as int;
        let ghost r0 = rest as int;
        assert(magnitude_of(r0) == 10 * magnitude_of(r0 / 10));
        assert(m0 * 10 * (r0 / 10) <= m0 * r0) by (nonlinear_arith)
            requires r0 >= 10, m0 >= 0;
        assert(m0 * 10 <= m0 * 10 * (r0 / 10)) by (nonlinear_arith)
            requires r0 >= 10, m0 >= 0;
        m = m * 10;
        rest = rest / 10;
        assert(m * magnitude_of(rest as int) == m0 * magnitude_of(r0)) by (nonlinear_arith)
            requires m == m0 * 10, magnitude_of(r0) == 10 * magnitude_of(rest as int);
    }
    assert(m <= a) by (nonlinear_arith)
        requires m * rest <= a, rest >= 1;
    assert(m != 0x8000_0000_0000_0000u64);
    m as i64
}

/// The largest entry of a non-empty sequence.
pub open spec fn seq_max(s: Seq<i64>) -> int
    decreases s.len(),
{
    if s.len() <= 1 {
        s[0] as int
    } else {
        let m = seq_max(s.drop_last());
        if s.last() > m {
            s.last() as int
        } else {
            m
        }
    }
}

pub proof fn lemma_seq_max_is_max(s: Seq<i64>)
    requires
        s.len() > 0,
    ensures
        forall|i: int| 0 <= i < s.len() ==> s[i] <= seq_max(s),
        exists|i: int| 0 <= i < s.len() && s[i] == seq_max(s),
    decreases s.len(),
{
    if s.len() > 1 {
        lemma_seq_max_is_max(s.drop_last());
        let i0 = choose|i: int| 0 <= i < s.len() - 1 && s.drop_last()[i] == seq_max(s.drop_last());
        assert(s[i0] == s.drop_last()[i0]);
        assert forall|i: int| 0 <= i < s.len() implies s[i] <= seq_max(s) by {
            if i < s.len() - 1 {
                assert(s[i] == s.drop_last()[i]);
            }
        }
    } else {
        assert(s[0] == seq_max(s));
    }
}

/// The smallest entry of a non-empty sequence.
pub open spec fn seq_min(s: Seq<i64>) -> int
    decreases s.len(),
{
    if s.len() <= 1 {
        s[0] as int
    } else {
        let m = seq_min(s.drop_last());
        if s.last() < m {
            s.last() as int
        } else {
            m
        }
    }
}

pub proof fn lemma_seq_min_is_min(s: Seq<i64>)
    requires
        s.len() > 0,
    ensures
        forall|i: int| 0 <= i < s.len() ==> s[i] >= seq_min(s),
        exists|i: int| 0 <= i < s.len() && s[i] == seq_min(s),
    decreases s.len(),
{
    if s.len() > 1 {
        lemma_seq_min_is_min(s.drop_last());
        let i0 = choose|i: int| 0 <= i < s.len() - 1 && s.drop_last()[i] == seq_min(s.drop_last());
        assert(s[i0] == s.drop_last()[i0]);
        assert forall|i: int| 0 <= i < s.len() implies s[i] >= seq_min(s) by {
            if i < s.len() - 1 {
                assert(s[i] == s.drop_last()[i]);
            }
        }
    } else {
        assert(s[0] == seq_min(s));
    }
}

/// The smallest entry of a non-empty vector.
pub fn min_of(v: &Vec<i64>) -> (r: i64)
    requires
        v@.len() > 0,
    ensures
        r == seq_min(v@),
{
    let mut m: i64 = v[0];
    let mut i: usize = 1;
    while i < v.len()
        invariant
            1 <= i <= v@.len(),
            m == seq_min(v@.subrange(0, i as int)),
        decreases v@.len() - i,
    {
        assert(v@.subrange(0, i as int + 1).drop_last() =~= v@.subrange(0, i as int));
        if v[i] < m {
            m = v[i];
        }
        i = i + 1;
    }
    assert(v@.subrange(0, v@.len() as int) =~= v@);
    m
}

/// The largest entry of a non-empty vector.
pub fn max_of(v: &Vec<i64>) -> (r: i64)
    requires
        v@.len() > 0,
    ensures
        r == seq_max(v@),
{
    let mut m: i64 = v[0];
    let mut i: usize = 1;
    while i < v.len()
        invariant
            1 <= i <= v@.len(),
            m == seq_max(v@.subrange(0, i as int)),
        decreases v@.len() - i,
    {
        assert(v@.subrange(0, i as int + 1).drop_last() =~= v@.subrange(0, i as int));
        if v[i] > m {
            m = v[i];
        }
        i = i + 1;
    }
    assert(v@.subrange(0, v@.len() as int) =~= v@);
    m
}

/// Each entry rescaled so that the largest becomes 100: `v * 100 / max`.
pub open spec fn normalized(s: Seq<i64>, i: int) -> int {
    s[i] * (100 * SCALE) / seq_max(s)
}

/// Rescales the entries so that the largest one becomes exactly 100 and the
/// others keep their ratio to it (rounded down to a fixed-point unit).
pub fn normalize_series(series: &Vec<i64>) -> (r: Vec<i128>)
    requires
        series@.len() > 0,
        seq_max(series@) > 0,
        forall|i: int| 0 <= i < series@.len() ==> -VALUE_LIMIT <= #[trigger] series@[i] <= VALUE_LIMIT,
    ensures
        r@.len() == series@.len(),
        forall|i: int| 0 <= i < r@.len() ==> r@[i] == normalized(series@, i),
{
    let m = max_of(series);
    let mut out: Vec<i128> = Vec::new();
    let mut i: usize = 0;
    while i < series.len()
        invariant
            i <= series@.len(),
            m == seq_max(series@),
            m > 0,
            forall|j: int| 0 <= j < series@.len() ==> -VALUE_LIMIT <= #[trigger] series@[j] <= VALUE_LIMIT,
            out@.len() == i,
            forall|j: int| 0 <= j < i ==> out@[j] == normalized(series@, j),
        decreases series@.len() - i,
    {
        let v = series[i] as i128;
        let q = floor_div(v * 100_000, m as i128);
        out.push(q);
        i = i + 1;
    }
    out
}

/// The colour channel of the series at `index`: `255 - 75 / (index + 1)`.
pub open spec fn color_of(index: int) -> int {
    255 * SCALE - (75 * SCALE) / (index + 1)
}

/// The varying colour channel of the series at `index`, in fixed-point
/// units; it darkens with the index towards 180.
pub fn series_color(index: usize) -> (r: i64)
    ensures
        r == color_of(index as int),
{
    let d = (75 * SCALE as i128) / (index as i128 + 1);
    assert(0 <= d <= 75 * SCALE) by (nonlinear_arith)
        requires d == (75 * SCALE) / (index + 1), index >= 0;
    (255 * SCALE as i128 - d) as i64
}

} // verus!
