//! Integer helpers for regular time grids.
use vstd::prelude::*;

verus! {

/// Quotient of an exact division: `a` is a multiple of `b`.
fn exact_div(a: i64, b: i64) -> (q: i64)
    requires
        b != 0,
        (a as int) % (b as int) == 0,
        !(a == i64::MIN && b == -1),
    ensures
        q * b == a,
{
    if b > 0 {
        let q = a / b;
        if a >= 0 {
            assert(q * b == a) by (nonlinear_arith)
                requires q == a / b, a % b == 0, b > 0, a >= 0;
        } else {
            assert(q * b == a) by (nonlinear_arith)
                requires q as int == -((-(a as int)) / (b as int)), a % b == 0, b > 0, a < 0;
        }
        q
    } else if b == i64::MIN {
        assert(a == 0 || a == i64::MIN) by (nonlinear_arith)
            requires (a as int) % (b as int) == 0, b == i64::MIN, i64::MIN <= a <= i64::MAX;
        if a == 0 { 0 } else { 1 }
    } else {
        let k = -b;
        assert((a as int) % (k as int) == 0) by (nonlinear_arith)
            requires (a as int) % (b as int) == 0, k == -b, k > 0;
        let p = a / k;
        if a >= 0 {
            assert(p * k == a) by (nonlinear_arith)
                requires p == a / k, a % k == 0, k > 0, a >= 0;
        } else {
            assert(p * k == a) by (nonlinear_arith)
                requires p as int == -((-(a as int)) / (k as int)), a % k == 0, k > 0, a < 0;
        }
        assert(p != i64::MIN) by (nonlinear_arith)
            requires p * k == a, k >= 2 || a != i64::MIN, k > 0, i64::MIN <= a <= i64::MAX;
        let q = -p;
        assert(q * b == a) by (nonlinear_arith) requires q == -p, p * k == a, k == -b;
        q
    }
}

/// Number of intervals of width `interval` from `range_start` up to and
/// including the interval that starts at `range_end`.
pub fn intervals(range_start: i64, range_end: i64, interval: i64) -> (n: i64)
    requires
        interval != 0,
        i64::MIN <= range_end - range_start <= i64::MAX,
        (range_end - range_start) % (interval as int) == 0,
        !(range_end - range_start == i64::MIN && interval == -1),
        range_end - range_start != i64::MAX * interval,
    ensures
        (n - 1) * interval == range_end - range_start,
{
    let q = exact_div(range_end - range_start, interval);
    assert(q != i64::MAX) by (nonlinear_arith)
        requires q * interval == range_end - range_start,
            range_end - range_start != i64::MAX * interval;
    q + 1
}

/// Index of the interval that starts at `value` on the grid that starts at
/// `range_start` with step `range_interval`.
pub fn index_into_range(range_start: i64, value: i64, range_interval: i64) -> (idx: i64)
    requires
        range_interval != 0,
        i64::MIN <= value - range_start <= i64::MAX,
        (value - range_start) % (range_interval as int) == 0,
        !(value - range_start == i64::MIN && range_interval == -1),
    ensures
        idx * range_interval == value - range_start,
{
    exact_div(value - range_start, range_interval)
}

/// The interval count of a grid is one more than the index of its last start.
pub proof fn lemma_intervals_is_last_index_plus_one(range_start: i64, range_end: i64, interval: i64, n: i64, idx: i64)
    requires
        interval != 0,
        (n - 1) * interval == range_end - range_start,
        idx * interval == range_end - range_start,
    ensures
        n == idx + 1,
{
    assert((n - 1 - idx) * interval == 0) by (nonlinear_arith)
        requires (n - 1) * interval == idx * interval;
    assert(n - 1 - idx == 0) by (nonlinear_arith)
        requires (n - 1 - idx) * interval == 0, interval != 0;
}

} // verus!
