//! Klines laid out on a regular time grid, with their gaps.
//!
//! Each column holds one value per grid slot (`None` where the exchange
//! had no kline). A series with too many gaps is cut so that it starts
//! just after its last gap; the remaining gaps are filled forward.
use vstd::prelude::*;
use crate::config::MAX_PCT_MISSING_KLINES_ALLOWED;
use crate::pair_interval::PairInterval;
use crate::bn_kline::{BNKline, AllValidKlines4Pair};
use crate::maths_utils::{intervals, index_into_range};

verus! {

/// Klines on a grid of `pair_interval.interval_ms` from
/// `first_kline_timestamp_ms`.
pub struct OhlcvTimeSeriesTemp<T> {
    pub pair_interval: PairInterval,
    pub first_kline_timestamp_ms: i64,
    pub open_prices: Vec<Option<T>>,
    pub high_prices: Vec<Option<T>>,
    pub low_prices: Vec<Option<T>>,
    pub close_prices: Vec<Option<T>>,
    pub base_asset_volumes: Vec<Option<T>>,
    pub quote_asset_volumes: Vec<Option<T>>,
}

/// The klines can be laid out on their grid: at least one kline, a
/// positive interval, and every open time on the grid between the first
/// and the last.
pub open spec fn on_grid<T>(klines: Seq<BNKline<T>>, interval_ms: i64) -> bool {
    &&& klines.len() > 0
    &&& interval_ms > 0
    &&& klines[klines.len() - 1].open_timestamp_ms - klines[0].open_timestamp_ms < i64::MAX
    &&& forall|k: int| 0 <= k < klines.len() ==> {
        let t = #[trigger] klines[k].open_timestamp_ms;
        &&& klines[0].open_timestamp_ms <= t <= klines[klines.len() - 1].open_timestamp_ms
        &&& (t - klines[0].open_timestamp_ms) % (interval_ms as int) == 0
    }
}

/// The grid slot of a kline.
pub open spec fn slot_of<T>(klines: Seq<BNKline<T>>, interval_ms: i64, k: int) -> int {
    (klines[k].open_timestamp_ms - klines[0].open_timestamp_ms) / (interval_ms as int)
}

/// The number of grid slots from the first to the last kline.
pub open spec fn slot_count<T>(klines: Seq<BNKline<T>>, interval_ms: i64) -> int {
    slot_of(klines, interval_ms, klines.len() - 1) + 1
}

/// The six columns of a kline series.
#[derive(Debug, Clone, Copy, PartialEq, Eq, Structural)]
pub enum Column {
    Open,
    High,
    Low,
    Close,
    BaseVolume,
    QuoteVolume,
}

/// A kline's value in a column.
pub open spec fn field_value<T>(k: BNKline<T>, c: Column) -> Option<T> {
    match c {
        Column::Open => k.open_price,
        Column::High => k.high_price,
        Column::Low => k.low_price,
        Column::Close => k.close_price,
        Column::BaseVolume => k.base_asset_volume,
        Column::QuoteVolume => k.quote_asset_volume,
    }
}

/// One column after laying out the first `n` klines: a later kline in the
/// same slot wins.
pub open spec fn placed<T>(klines: Seq<BNKline<T>>, interval_ms: i64, c: Column, n: int) -> Seq<Option<T>>
    decreases n,
{
    if n <= 0 {
        Seq::new(slot_count(klines, interval_ms) as nat, |i: int| None)
    } else {
        placed(klines, interval_ms, c, n - 1).update(slot_of(klines, interval_ms, n - 1), field_value(klines[n - 1], c))
    }
}

/// How many slots of a column are gaps.
pub open spec fn none_count<T>(s: Seq<Option<T>>) -> nat
    decreases s.len(),
{
    if s.len() == 0 {
        0
    } else {
        none_count(s.drop_last()) + if s.last() is None { 1nat } else { 0nat }
    }
}

/// The slot of the last gap of a column, 0 when it has none.
pub open spec fn last_none_index<T>(s: Seq<Option<T>>) -> int
    decreases s.len(),
{
    if s.len() == 0 {
        0
    } else if s.last() is None {
        s.len() - 1
    } else {
        last_none_index(s.drop_last())
    }
}

/// A column with each gap filled with the value before it (`default` for
/// a gap at the start).
pub open spec fn filled_forward<T>(s: Seq<Option<T>>, default: T) -> Seq<Option<T>>
    decreases s.len(),
{
    if s.len() == 0 {
        Seq::empty()
    } else {
        let f = filled_forward(s.drop_last(), default);
        let v = match s.last() {
            Some(x) => Some(x),
            None => if f.len() == 0 { Some(default) } else { f.last() },
        };
        f.push(v)
    }
}

proof fn lemma_filled_forward<T>(s: Seq<Option<T>>, default: T)
    ensures
        filled_forward(s, default).len() == s.len(),
        forall|i: int| 0 <= i < s.len() ==> (#[trigger] filled_forward(s, default)[i]) is Some,
        forall|i: int| 0 <= i < s.len() && s[i] is Some ==> #[trigger] filled_forward(s, default)[i] == s[i],
    decreases s.len(),
{
    if s.len() > 0 {
        lemma_filled_forward(s.drop_last(), default);
        let f = filled_forward(s.drop_last(), default);
        assert forall|i: int| 0 <= i < s.len() implies (#[trigger] filled_forward(s, default)[i]) is Some by {
            if i < s.len() - 1 {
                assert(filled_forward(s, default)[i] == f[i]);
            }
        }
        assert forall|i: int| 0 <= i < s.len() && s[i] is Some implies #[trigger] filled_forward(s, default)[i] == s[i] by {
            if i < s.len() - 1 {
                assert(filled_forward(s, default)[i] == f[i]);
                assert(s.drop_last()[i] == s[i]);
            }
        }
    }
}

/// Whether the klines can be laid out on their grid (see `on_grid`), with
/// a slot count that fits in `usize`.
pub fn fits_grid<T>(klines: &AllValidKlines4Pair<T>) -> (b: bool)
    ensures
        b == (on_grid(klines.klines@, klines.pair_interval.interval_ms)
            && slot_count(klines.klines@, klines.pair_interval.interval_ms) <= usize::MAX),
{
    let ks = &klines.klines;
    let iv = klines.pair_interval.interval_ms;
    if ks.len() == 0 || iv <= 0 {
        return false;
    }
    let first = ks[0].open_timestamp_ms as i128;
    let last = ks[ks.len() - 1].open_timestamp_ms as i128;
    if last - first >= i64::MAX as i128 {
        return false;
    }
    let mut k: usize = 0;
    while k < ks.len()
        invariant
            k <= ks@.len(),
            ks@ == klines.klines@,
            ks@.len() > 0,
            iv == klines.pair_interval.interval_ms,
            iv > 0,
            first == ks@[0].open_timestamp_ms,
            last == ks@[ks@.len() - 1].open_timestamp_ms,
            forall|j: int| 0 <= j < k ==> {
                let t = #[trigger] ks@[j].open_timestamp_ms;
                &&& first <= t <= last
                &&& (t - first) % (iv as int) == 0
            },
        decreases ks@.len() - k,
    {
        let t = ks[k].open_timestamp_ms as i128;
        if t < first || t > last || (t - first) % (iv as i128) != 0 {
            return false;
        }
        k = k + 1;
    }
    let slots: i128 = (last - first) / (iv as i128) + 1;
    assert(slot_count(ks@, iv) == slots);
    slots <= usize::MAX as i128
}

/// Whether a column has a gap.
pub fn has_any_none_elements<T>(v: &Vec<Option<T>>) -> (b: bool)
    ensures
        b == exists|i: int| 0 <= i < v@.len() && (#[trigger] v@[i]) is None,
{
    let mut i: usize = 0;
    while i < v.len()
        invariant
            i <= v@.len(),
            forall|j: int| 0 <= j < i ==> (#[trigger] v@[j]) is Some,
        decreases v@.len() - i,
    {
        if v[i].is_none() {
            return true;
        }
        i = i + 1;
    }
    false
}

/// How many slots of a column are gaps.
pub fn count_none_elements<T>(v: &Vec<Option<T>>) -> (c: usize)
    ensures
        c == none_count(v@),
        c <= v@.len(),
{
    let mut c: usize = 0;
    let mut i: usize = 0;
    while i < v.len()
        invariant
            i <= v@.len(),
            c == none_count(v@.take(i as int)),
            c <= i,
        decreases v@.len() - i,
    {
        proof {
            assert(v@.take(i + 1).drop_last() =~= v@.take(i as int));
        }
        if v[i].is_none() {
            c = c + 1;
        }
        i = i + 1;
    }
    assert(v@.take(i as int) =~= v@);
    c
}

proof fn lemma_last_none_index<T>(s: Seq<Option<T>>)
    ensures
        0 <= last_none_index(s) <= s.len(),
        s.len() > 0 ==> last_none_index(s) < s.len(),
        (exists|i: int| 0 <= i < s.len() && (#[trigger] s[i]) is None) ==> s[last_none_index(s)] is None,
        forall|i: int| last_none_index(s) < i < s.len() ==> (#[trigger] s[i]) is Some,
    decreases s.len(),
{
    if s.len() > 0 {
        lemma_last_none_index(s.drop_last());
        if s.last() is Some {
            if exists|i: int| 0 <= i < s.len() && (#[trigger] s[i]) is None {
                let i = choose|i: int| 0 <= i < s.len() && (#[trigger] s[i]) is None;
                assert(s.drop_last()[i] is None);
            }
            assert forall|i: int| last_none_index(s) < i < s.len() implies (#[trigger] s[i]) is Some by {
                if i < s.len() - 1 {
                    assert(s.drop_last()[i] == s[i]);
                }
            }
        }
    }
}

/// Filling forward keeps every known value, gives each gap the value of
/// the latest known slot before it (however many gaps come in between),
/// and gives the default only to gaps that no known slot precedes.
pub proof fn lemma_fill_forward_takes_latest_known<T>(s: Seq<Option<T>>, default: T)
    ensures
        filled_forward(s, default).len() == s.len(),
        forall|i: int| 0 <= i < s.len() && s[i] is Some ==> #[trigger] filled_forward(s, default)[i] == s[i],
        forall|i: int, j: int|
            0 <= j < i < s.len() && s[i] is None && s[j] is Some && (forall|k: int| j < k < i ==> s[k] is None)
                ==> #[trigger] filled_forward(s, default)[i] == #[trigger] s[j],
        forall|i: int| 0 <= i < s.len() && (forall|k: int| 0 <= k <= i ==> s[k] is None)
            ==> #[trigger] filled_forward(s, default)[i] == Some(default),
    decreases s.len(),
{
    lemma_filled_forward(s, default);
    if s.len() > 0 {
        let t = s.drop_last();
        let f = filled_forward(t, default);
        let g = filled_forward(s, default);
        let n = s.len() - 1;
        lemma_fill_forward_takes_latest_known(t, default);
        assert forall|i: int| 0 <= i < n implies g[i] == f[i] by {}
        assert forall|i: int| 0 <= i < n implies #[trigger] t[i] == s[i] by {}
        assert forall|i: int, j: int|
            0 <= j < i < s.len() && s[i] is None && s[j] is Some && (forall|k: int| j < k < i ==> s[k] is None)
                implies #[trigger] g[i] == #[trigger] s[j] by {
            if i < n {
                assert(t[i] == s[i] && t[j] == s[j]);
                assert forall|k: int| j < k < i implies t[k] is None by {
                    assert(t[k] == s[k]);
                }
                assert(f[i] == t[j]);
            } else {
                assert(g[i] == f.last());
                if j == n - 1 {
                    assert(t[j] == s[j]);
                    assert(f[n - 1] == t[n - 1]);
                } else {
                    assert(s[n - 1] is None);
                    assert(t[n - 1] == s[n - 1] && t[j] == s[j]);
                    assert forall|k: int| j < k < n - 1 implies t[k] is None by {
                        assert(t[k] == s[k]);
                    }
                    assert(f[n - 1] == t[j]);
                }
            }
        }
        assert forall|i: int| 0 <= i < s.len() && (forall|k: int| 0 <= k <= i ==> s[k] is None)
            implies #[trigger] g[i] == Some(default) by {
            if i < n {
                assert forall|k: int| 0 <= k <= i implies t[k] is None by {
                    assert(t[k] == s[k]);
                }
                assert(f[i] == Some(default));
            } else if n > 0 {
                assert forall|k: int| 0 <= k <= n - 1 implies t[k] is None by {
                    assert(t[k] == s[k]);
                }
                assert(f[n - 1] == Some(default));
                assert(s[n] is None);
            } else {
                assert(s[0] is None);
            }
        }
    }
}

/// Whether more than `limit_pct` percent of the `slots` of a grid have no
/// kline (never, for an empty grid).
pub fn exceeds_missing_limit(missing: usize, slots: usize, limit_pct: u64) -> (b: bool)
    ensures
        b == (missing * 100 > limit_pct * slots),
{
    let m: u128 = missing as u128;
    let l: u128 = limit_pct as u128;
    let n: u128 = slots as u128;
    assert(m * 100 <= u128::MAX && l * n <= u128::MAX) by (nonlinear_arith)
        requires m <= u64::MAX, l <= u64::MAX, n <= u64::MAX;
    m * 100 > l * n
}

/// Where a series is cut so that it keeps no gap: just after the last gap
/// of the column, or at its start when it has none.
pub open spec fn cut_point<T>(s: Seq<Option<T>>) -> int {
    if exists|i: int| 0 <= i < s.len() && (#[trigger] s[i]) is None {
        last_none_index(s) + 1
    } else {
        0
    }
}

/// The slot of the last gap of a column (0 when it has none).
pub fn find_last_none_index<T>(v: &Vec<Option<T>>) -> (idx: usize)
    ensures
        idx == last_none_index(v@),
        v@.len() > 0 ==> idx < v@.len(),
{
    proof {
        lemma_last_none_index(v@);
    }
    let mut i: usize = v.len();
    assert(v@.take(i as int) =~= v@);
    while i > 0
        invariant
            i <= v@.len(),
            last_none_index(v@) == last_none_index(v@.take(i as int)),
        decreases i,
    {
        proof {
            assert(v@.take(i as int).drop_last() =~= v@.take(i - 1));
        }
        if v[i - 1].is_none() {
            return i - 1;
        }
        i = i - 1;
    }
    0
}

/// Fills each gap of a column with the value before it (`default` for a
/// gap at the start); returns how many gaps it filled.
pub fn fill_forward_mut<T: Copy>(v: &mut Vec<Option<T>>, default: T) -> (filled: usize)
    ensures
        final(v)@ == filled_forward(old(v)@, default),
        filled == none_count(old(v)@),
        forall|i: int| 0 <= i < final(v)@.len() ==> (#[trigger] final(v)@[i]) is Some,
{
    let ghost original = v@;
    proof {
        lemma_filled_forward(original, default);
    }
    let mut filled: usize = 0;
    let mut i: usize = 0;
    while i < v.len()
        invariant
            i <= v@.len(),
            v@.len() == original.len(),
            forall|j: int| i <= j < v@.len() ==> #[trigger] v@[j] == original[j],
            v@.take(i as int) == filled_forward(original.take(i as int), default),
            filled == none_count(original.take(i as int)),
            filled <= i,
        decreases v@.len() - i,
    {
        proof {
            assert(original.take(i + 1).drop_last() =~= original.take(i as int));
            lemma_filled_forward(original.take(i as int), default);
        }
        let ghost before = v@;
        if v[i].is_none() {
            let value = if i == 0 {
                default
            } else {
                match v[i - 1] {
                    Some(x) => x,
                    None => default,
                }
            };
            v.set(i, Some(value));
            filled = filled + 1;
            proof {
                if i > 0 {
                    assert(v@[i - 1] == before.take(i as int)[i - 1]);
                }
            }
        }
        assert(v@.take(i + 1) =~= filled_forward(original.take(i + 1), default));
        i = i + 1;
    }
    assert(original.take(i as int) =~= original);
    assert(v@.take(i as int) =~= v@);
    filled
}

/// Whether all the counts are equal.
pub fn are_all_elements_same(v: &Vec<usize>) -> (b: bool)
    ensures
        b == forall|i: int, j: int| 0 <= i < v@.len() && 0 <= j < v@.len() ==> v@[i] == v@[j],
{
    if v.len() == 0 {
        return true;
    }
    let first = v[0];
    let mut i: usize = 1;
    while i < v.len()
        invariant
            1 <= i <= v@.len(),
            first == v@[0],
            forall|j: int| 0 <= j < i ==> #[trigger] v@[j] == first,
        decreases v@.len() - i,
    {
        if v[i] != first {
            return false;
        }
        i = i + 1;
    }
    true
}

/// The gap count of a column as the list entry it makes: one entry when
/// the column has gaps, none otherwise.
pub open spec fn gap_entry<T>(s: Seq<Option<T>>) -> Seq<usize> {
    if none_count(s) > 0 { seq![none_count(s) as usize] } else { Seq::empty() }
}

proof fn lemma_none_count_zero<T>(s: Seq<Option<T>>)
    ensures
        (none_count(s) == 0) <==> (forall|i: int| 0 <= i < s.len() ==> (#[trigger] s[i]) is Some),
    decreases s.len(),
{
    if s.len() > 0 {
        lemma_none_count_zero(s.drop_last());
        if none_count(s) == 0 {
            assert forall|i: int| 0 <= i < s.len() implies (#[trigger] s[i]) is Some by {
                if i < s.len() - 1 {
                    assert(s.drop_last()[i] == s[i]);
                }
            }
        } else if s.last() is Some {
            let i = choose|i: int| 0 <= i < s.len() - 1 && (#[trigger] s.drop_last()[i]) is None;
            assert(s[i] is None);
        }
    }
}

proof fn lemma_full_column_unchanged<T>(s: Seq<Option<T>>, default: T)
    requires
        forall|i: int| 0 <= i < s.len() ==> (#[trigger] s[i]) is Some,
    ensures
        filled_forward(s, default) == s,
{
    lemma_filled_forward(s, default);
    assert(filled_forward(s, default) =~= s);
}

/// Fills one column if it has gaps, noting how many it filled.
fn fill_column<T: Copy>(v: &mut Vec<Option<T>>, default: T, gaps: &mut Vec<usize>)
    ensures
        final(v)@ == filled_forward(old(v)@, default),
        forall|i: int| 0 <= i < final(v)@.len() ==> (#[trigger] final(v)@[i]) is Some,
        final(gaps)@ == old(gaps)@ + gap_entry(old(v)@),
{
    proof {
        lemma_none_count_zero(v@);
        lemma_filled_forward(v@, default);
    }
    if has_any_none_elements(v) {
        let n = fill_forward_mut(v, default);
        gaps.push(n);
        assert(gaps@ =~= old(gaps)@ + gap_entry(old(v)@));
    } else {
        proof {
            lemma_full_column_unchanged(v@, default);
        }
        assert(gaps@ =~= old(gaps)@ + gap_entry(old(v)@));
    }
}

/// A column of `n` gaps.
fn empty_column<T>(n: usize) -> (v: Vec<Option<T>>)
    ensures
        v@ == Seq::new(n as nat, |i: int| None::<T>),
{
    let mut v: Vec<Option<T>> = Vec::new();
    let mut i: usize = 0;
    while i < n
        invariant
            i <= n,
            v@ =~= Seq::new(i as nat, |j: int| None::<T>),
        decreases n - i,
    {
        v.push(None);
        i = i + 1;
    }
    v
}

impl<T: Copy> OhlcvTimeSeriesTemp<T> {
    /// The six columns have one entry per slot of the same grid.
    pub open spec fn columns_aligned(&self) -> bool {
        let n = self.open_prices@.len();
        &&& self.high_prices@.len() == n
        &&& self.low_prices@.len() == n
        &&& self.close_prices@.len() == n
        &&& self.base_asset_volumes@.len() == n
        &&& self.quote_asset_volumes@.len() == n
    }

    /// Lays the klines out on the grid that starts at the first kline and
    /// ends at the last; slots without a kline are gaps.
    pub fn from_klines(klines: AllValidKlines4Pair<T>) -> (s: Self)
        requires
            on_grid(klines.klines@, klines.pair_interval.interval_ms),
            slot_count(klines.klines@, klines.pair_interval.interval_ms) <= usize::MAX,
        ensures
            s.columns_aligned(),
            s.pair_interval == klines.pair_interval,
            s.first_kline_timestamp_ms == klines.klines@[0].open_timestamp_ms,
            s.open_prices@ == placed(klines.klines@, klines.pair_interval.interval_ms, Column::Open, klines.klines@.len() as int),
            s.high_prices@ == placed(klines.klines@, klines.pair_interval.interval_ms, Column::High, klines.klines@.len() as int),
            s.low_prices@ == placed(klines.klines@, klines.pair_interval.interval_ms, Column::Low, klines.klines@.len() as int),
            s.close_prices@ == placed(klines.klines@, klines.pair_interval.interval_ms, Column::Close, klines.klines@.len() as int),
            s.base_asset_volumes@ == placed(klines.klines@, klines.pair_interval.interval_ms, Column::BaseVolume, klines.klines@.len() as int),
            s.quote_asset_volumes@ == placed(klines.klines@, klines.pair_interval.interval_ms, Column::QuoteVolume, klines.klines@.len() as int),
    {
        let ghost ks = klines.klines@;
        let iv = klines.pair_interval.interval_ms;
        let first = klines.first_timestamp_ms();
        let last = klines.last_timestamp_ms();
        let ghost lastk = ks.len() - 1;
        assert(ks[lastk].open_timestamp_ms == last);
        assert(iv * i64::MAX >= i64::MAX) by (nonlinear_arith) requires iv >= 1;
        let needed_i64 = intervals(first, last, iv);
        assert(needed_i64 == slot_count(ks, iv)) by (nonlinear_arith)
            requires (needed_i64 - 1) * iv == last - first, iv > 0, slot_count(ks, iv) == (last - first) / (iv as int) + 1;
        let needed = needed_i64 as usize;
        let mut open_prices = empty_column(needed);
        let mut high_prices = empty_column(needed);
        let mut low_prices = empty_column(needed);
        let mut close_prices = empty_column(needed);
        let mut base_asset_volumes = empty_column(needed);
        let mut quote_asset_volumes = empty_column(needed);
        let mut k: usize = 0;
        while k < klines.klines.len()
            invariant
                ks == klines.klines@,
                on_grid(ks, iv),
                iv == klines.pair_interval.interval_ms,
                first == ks[0].open_timestamp_ms,
                needed == slot_count(ks, iv),
                k <= ks.len(),
                open_prices@ == placed(ks, iv, Column::Open, k as int),
                high_prices@ == placed(ks, iv, Column::High, k as int),
                low_prices@ == placed(ks, iv, Column::Low, k as int),
                close_prices@ == placed(ks, iv, Column::Close, k as int),
                base_asset_volumes@ == placed(ks, iv, Column::BaseVolume, k as int),
                quote_asset_volumes@ == placed(ks, iv, Column::QuoteVolume, k as int),
                open_prices@.len() == needed,
                high_prices@.len() == needed,
                low_prices@.len() == needed,
                close_prices@.len() == needed,
                base_asset_volumes@.len() == needed,
                quote_asset_volumes@.len() == needed,
            decreases ks.len() - k,
        {
            let kline = &klines.klines[k];
            let t = kline.open_timestamp_ms;
            assert(first <= t <= ks[ks.len() - 1].open_timestamp_ms);
            let idx_i64 = index_into_range(first, t, iv);
            proof {
                let d = t - first;
                let dl = ks[ks.len() - 1].open_timestamp_ms - first;
                assert(idx_i64 == d / (iv as int)) by (nonlinear_arith)
                    requires idx_i64 * iv == d, iv > 0;
                assert(0 <= d / (iv as int) <= dl / (iv as int)) by (nonlinear_arith)
                    requires 0 <= d <= dl, iv > 0;
                assert(slot_of(ks, iv, k as int) == idx_i64);
            }
            let idx = idx_i64 as usize;
            open_prices.set(idx, kline.open_price);
            high_prices.set(idx, kline.high_price);
            low_prices.set(idx, kline.low_price);
            close_prices.set(idx, kline.close_price);
            base_asset_volumes.set(idx, kline.base_asset_volume);
            quote_asset_volumes.set(idx, kline.quote_asset_volume);
            k = k + 1;
        }
        OhlcvTimeSeriesTemp {
            pair_interval: klines.pair_interval,
            first_kline_timestamp_ms: first,
            open_prices,
            high_prices,
            low_prices,
            close_prices,
            base_asset_volumes,
            quote_asset_volumes,
        }
    }

    /// Cuts every column just after the last gap of its open prices, so
    /// that no open price is missing and none has to be filled in; the
    /// first open time moves along. A series without a gap is kept whole.
    pub fn cut_before_last_gap(&mut self)
        requires
            old(self).columns_aligned(),
            old(self).pair_interval.interval_ms > 0,
            cut_point(old(self).open_prices@) * old(self).pair_interval.interval_ms <= i64::MAX,
            i64::MIN <= old(self).first_kline_timestamp_ms
                + cut_point(old(self).open_prices@) * old(self).pair_interval.interval_ms <= i64::MAX,
        ensures
            ({
                let cut = cut_point(old(self).open_prices@);
                let n = old(self).open_prices@.len() as int;
                &&& final(self).columns_aligned()
                &&& final(self).pair_interval == old(self).pair_interval
                &&& final(self).first_kline_timestamp_ms == old(self).first_kline_timestamp_ms + cut * old(self).pair_interval.interval_ms
                &&& final(self).open_prices@ == old(self).open_prices@.subrange(cut, n)
                &&& final(self).high_prices@ == old(self).high_prices@.subrange(cut, n)
                &&& final(self).low_prices@ == old(self).low_prices@.subrange(cut, n)
                &&& final(self).close_prices@ == old(self).close_prices@.subrange(cut, n)
                &&& final(self).base_asset_volumes@ == old(self).base_asset_volumes@.subrange(cut, n)
                &&& final(self).quote_asset_volumes@ == old(self).quote_asset_volumes@.subrange(cut, n)
                &&& forall|i: int| 0 <= i < final(self).open_prices@.len() ==> (#[trigger] final(self).open_prices@[i]) is Some
            }),
    {
        proof {
            lemma_last_none_index(self.open_prices@);
        }
        let cut: usize = if has_any_none_elements(&self.open_prices) {
            let n = self.open_prices.len();
            let last = find_last_none_index(&self.open_prices);
            assert(last < n);
            last + 1
        } else {
            0
        };
        let iv = self.pair_interval.interval_ms;
        assert(cut <= i64::MAX) by (nonlinear_arith)
            requires cut * iv <= i64::MAX, iv >= 1, cut >= 0;
        let open_rest = self.open_prices.split_off(cut);
        self.open_prices = open_rest;
        let high_rest = self.high_prices.split_off(cut);
        self.high_prices = high_rest;
        let low_rest = self.low_prices.split_off(cut);
        self.low_prices = low_rest;
        let close_rest = self.close_prices.split_off(cut);
        self.close_prices = close_rest;
        let base_rest = self.base_asset_volumes.split_off(cut);
        self.base_asset_volumes = base_rest;
        let quote_rest = self.quote_asset_volumes.split_off(cut);
        self.quote_asset_volumes = quote_rest;
        let removed = cut as i64;
        self.first_kline_timestamp_ms = self.first_kline_timestamp_ms + removed * iv;
        proof {
            assert forall|i: int| 0 <= i < self.open_prices@.len() implies (#[trigger] self.open_prices@[i]) is Some by {
                assert(self.open_prices@[i] == old(self).open_prices@[cut + i]);
            }
        }
    }

    /// Fills the gaps of every column forward, prices with
    /// `default_price` and volumes with `default_volume` where a column
    /// starts with a gap; returns, in column order, how many gaps each
    /// column that had any held.
    pub fn fill_gaps(&mut self, default_price: T, default_volume: T) -> (gaps: Vec<usize>)
        ensures
            final(self).pair_interval == old(self).pair_interval,
            final(self).first_kline_timestamp_ms == old(self).first_kline_timestamp_ms,
            final(self).open_prices@ == filled_forward(old(self).open_prices@, default_price),
            final(self).high_prices@ == filled_forward(old(self).high_prices@, default_price),
            final(self).low_prices@ == filled_forward(old(self).low_prices@, default_price),
            final(self).close_prices@ == filled_forward(old(self).close_prices@, default_price),
            final(self).base_asset_volumes@ == filled_forward(old(self).base_asset_volumes@, default_volume),
            final(self).quote_asset_volumes@ == filled_forward(old(self).quote_asset_volumes@, default_volume),
            gaps@ == gap_entry(old(self).open_prices@) + gap_entry(old(self).high_prices@)
                + gap_entry(old(self).low_prices@) + gap_entry(old(self).close_prices@)
                + gap_entry(old(self).base_asset_volumes@) + gap_entry(old(self).quote_asset_volumes@),
            forall|i: int| 0 <= i < final(self).open_prices@.len() ==> (#[trigger] final(self).open_prices@[i]) is Some,
            forall|i: int| 0 <= i < final(self).high_prices@.len() ==> (#[trigger] final(self).high_prices@[i]) is Some,
            forall|i: int| 0 <= i < final(self).low_prices@.len() ==> (#[trigger] final(self).low_prices@[i]) is Some,
            forall|i: int| 0 <= i < final(self).close_prices@.len() ==> (#[trigger] final(self).close_prices@[i]) is Some,
            forall|i: int| 0 <= i < final(self).base_asset_volumes@.len() ==> (#[trigger] final(self).base_asset_volumes@[i]) is Some,
            forall|i: int| 0 <= i < final(self).quote_asset_volumes@.len() ==> (#[trigger] final(self).quote_asset_volumes@[i]) is Some,
    {
        let mut gaps: Vec<usize> = Vec::new();
        fill_column(&mut self.open_prices, default_price, &mut gaps);
        fill_column(&mut self.high_prices, default_price, &mut gaps);
        fill_column(&mut self.low_prices, default_price, &mut gaps);
        fill_column(&mut self.close_prices, default_price, &mut gaps);
        fill_column(&mut self.base_asset_volumes, default_volume, &mut gaps);
        fill_column(&mut self.quote_asset_volumes, default_volume, &mut gaps);
        assert(gaps@ =~= Seq::<usize>::empty() + gap_entry(old(self).open_prices@) + gap_entry(old(self).high_prices@)
                + gap_entry(old(self).low_prices@) + gap_entry(old(self).close_prices@)
                + gap_entry(old(self).base_asset_volumes@) + gap_entry(old(self).quote_asset_volumes@));
        gaps
    }

    /// Prepares the grid for analysis: when more than the allowed share of
    /// its open prices is missing, it is cut just after the last gap; then
    /// every remaining gap is filled forward. Returns whether it was cut,
    /// and the gap counts of the columns that were filled.
    pub fn prepare_for_analysis(&mut self, default_price: T, default_volume: T) -> (r: (bool, Vec<usize>))
        requires
            old(self).columns_aligned(),
            too_many_missing(old(self).open_prices@) ==> {
                &&& old(self).pair_interval.interval_ms > 0
                &&& cut_point(old(self).open_prices@) * old(self).pair_interval.interval_ms <= i64::MAX
                &&& i64::MIN <= old(self).first_kline_timestamp_ms
                    + cut_point(old(self).open_prices@) * old(self).pair_interval.interval_ms <= i64::MAX
            },
        ensures
            ({
                let o = *old(self);
                let start = analysis_start(o.open_prices@);
                let n = o.open_prices@.len() as int;
                &&& r.0 == too_many_missing(o.open_prices@)
                &&& final(self).pair_interval == o.pair_interval
                &&& final(self).first_kline_timestamp_ms == o.first_kline_timestamp_ms + start * o.pair_interval.interval_ms
                &&& final(self).open_prices@ == filled_forward(o.open_prices@.subrange(start, n), default_price)
                &&& final(self).high_prices@ == filled_forward(o.high_prices@.subrange(start, n), default_price)
                &&& final(self).low_prices@ == filled_forward(o.low_prices@.subrange(start, n), default_price)
                &&& final(self).close_prices@ == filled_forward(o.close_prices@.subrange(start, n), default_price)
                &&& final(self).base_asset_volumes@ == filled_forward(o.base_asset_volumes@.subrange(start, n), default_volume)
                &&& final(self).quote_asset_volumes@ == filled_forward(o.quote_asset_volumes@.subrange(start, n), default_volume)
                &&& r.1@ == gap_entry(o.open_prices@.subrange(start, n)) + gap_entry(o.high_prices@.subrange(start, n))
                    + gap_entry(o.low_prices@.subrange(start, n)) + gap_entry(o.close_prices@.subrange(start, n))
                    + gap_entry(o.base_asset_volumes@.subrange(start, n)) + gap_entry(o.quote_asset_volumes@.subrange(start, n))
            }),
    {
        let missing = count_none_elements(&self.open_prices);
        let cut = exceeds_missing_limit(missing, self.open_prices.len(), MAX_PCT_MISSING_KLINES_ALLOWED);
        if cut {
            self.cut_before_last_gap();
        } else {
            let ghost n = self.open_prices@.len() as int;
            assert(self.open_prices@.subrange(0, n) =~= self.open_prices@);
            assert(self.high_prices@.subrange(0, n) =~= self.high_prices@);
            assert(self.low_prices@.subrange(0, n) =~= self.low_prices@);
            assert(self.close_prices@.subrange(0, n) =~= self.close_prices@);
            assert(self.base_asset_volumes@.subrange(0, n) =~= self.base_asset_volumes@);
            assert(self.quote_asset_volumes@.subrange(0, n) =~= self.quote_asset_volumes@);
        }
        let gaps = self.fill_gaps(default_price, default_volume);
        (cut, gaps)
    }
}

/// More than the allowed share of the open prices is missing.
pub open spec fn too_many_missing<T>(open: Seq<Option<T>>) -> bool {
    none_count(open) * 100 > MAX_PCT_MISSING_KLINES_ALLOWED * open.len()
}

/// Where the prepared series starts: after the last gap when too many open
/// prices are missing, at the first slot otherwise.
pub open spec fn analysis_start<T>(open: Seq<Option<T>>) -> int {
    if too_many_missing(open) { cut_point(open) } else { 0 }
}

} // verus!
