//! Selection of the candles whose prices are relevant to the current price.
//!
//! Which candle is relevant is decided by comparing its price range with a
//! band around the current price; this module takes that per-candle
//! decision as a sequence of flags and works out the (possibly
//! discontinuous) index ranges that the analysis then reads, and the
//! minimum-lookback extension of those ranges.
use vstd::prelude::*;
use crate::time_utils::trunc_div;

verus! {

/// Default minimum lookback period in days (one week).
pub const MIN_LOOKBACK_DAYS: usize = 7;

/// `r` is a run of relevant candles that cannot be extended on either side.
pub open spec fn is_maximal_run(flags: Seq<bool>, r: (usize, usize)) -> bool {
    &&& r.0 < r.1 <= flags.len()
    &&& forall|i: int| r.0 <= i < r.1 ==> #[trigger] flags[i]
    &&& (r.0 == 0 || !flags[r.0 - 1])
    &&& (r.1 == flags.len() || !flags[r.1 as int])
}

/// `ranges` lists, in order, exactly the maximal runs of relevant candles.
pub open spec fn are_relevant_ranges(flags: Seq<bool>, ranges: Seq<(usize, usize)>) -> bool {
    &&& forall|k: int| 0 <= k < ranges.len() ==> is_maximal_run(flags, #[trigger] ranges[k])
    &&& forall|k: int| 0 <= k < ranges.len() - 1 ==> (#[trigger] ranges[k]).1 < ranges[k + 1].0
    &&& forall|i: int| 0 <= i < flags.len() && #[trigger] flags[i] ==>
            exists|k: int| 0 <= k < ranges.len() && (#[trigger] ranges[k]).0 <= i < ranges[k].1
}

/// The half-open index ranges `[start, end)` of the maximal runs of
/// relevant candles, in order.
pub fn find_relevant_ranges(relevant: &Vec<bool>) -> (ranges: Vec<(usize, usize)>)
    ensures
        are_relevant_ranges(relevant@, ranges@),
{
    let total_candles = relevant.len();
    let mut ranges: Vec<(usize, usize)> = Vec::new();
    let mut range_start: Option<usize> = None;
    let mut i: usize = 0;
    while i < total_candles
        invariant
            total_candles == relevant@.len(),
            i <= total_candles,
            forall|k: int| 0 <= k < ranges@.len() ==> is_maximal_run(relevant@, #[trigger] ranges@[k]),
            forall|k: int| 0 <= k < ranges@.len() - 1 ==> (#[trigger] ranges@[k]).1 < ranges@[k + 1].0,
            forall|k: int| 0 <= k < ranges@.len() ==> (#[trigger] ranges@[k]).1 < i,
            range_start matches Some(s) ==> {
                &&& s < i
                &&& (s == 0 || !relevant@[s - 1])
                &&& forall|j: int| s <= j < i ==> #[trigger] relevant@[j]
                &&& forall|k: int| 0 <= k < ranges@.len() ==> (#[trigger] ranges@[k]).1 < s
            },
            range_start is None ==> (i == 0 || !relevant@[i - 1]),
            forall|j: int| 0 <= j < i && #[trigger] relevant@[j] ==>
                (exists|k: int| 0 <= k < ranges@.len() && (#[trigger] ranges@[k]).0 <= j < ranges@[k].1)
                || (range_start matches Some(s) && s <= j),
        decreases total_candles - i,
    {
        if relevant[i] {
            if range_start.is_none() {
                range_start = Some(i);
            }
        } else {
            if let Some(start) = range_start {
                let ghost old_ranges = ranges@;
                ranges.push((start, i));
                assert forall|j: int| 0 <= j < i + 1 && #[trigger] relevant@[j] implies
                    exists|k: int| 0 <= k < ranges@.len() && (#[trigger] ranges@[k]).0 <= j < ranges@[k].1 by {
                    if start <= j {
                        assert(ranges@[ranges@.len() - 1] == (start, i));
                    } else {
                        let k = choose|k: int| 0 <= k < old_ranges.len() && (#[trigger] old_ranges[k]).0 <= j < old_ranges[k].1;
                        assert(ranges@[k] == old_ranges[k]);
                    }
                }
                range_start = None;
            }
        }
        i = i + 1;
    }
    if let Some(start) = range_start {
        let ghost old_ranges = ranges@;
        ranges.push((start, total_candles));
        assert forall|j: int| 0 <= j < total_candles && #[trigger] relevant@[j] implies
            exists|k: int| 0 <= k < ranges@.len() && (#[trigger] ranges@[k]).0 <= j < ranges@[k].1 by {
            if start <= j {
                assert(ranges@[ranges@.len() - 1] == (start, total_candles));
            } else {
                let k = choose|k: int| 0 <= k < old_ranges.len() && (#[trigger] old_ranges[k]).0 <= j < old_ranges[k].1;
                assert(ranges@[k] == old_ranges[k]);
            }
        }
    }
    ranges
}


/// Every range starts no later than it ends.
pub open spec fn ranges_well_formed(ranges: Seq<(usize, usize)>) -> bool {
    forall|k: int| 0 <= k < ranges.len() ==> (#[trigger] ranges[k]).0 <= ranges[k].1
}

/// Number of candles that `ranges` cover, counting each range in full.
pub open spec fn ranges_total(ranges: Seq<(usize, usize)>) -> int
    decreases ranges.len(),
{
    if ranges.len() == 0 {
        0
    } else {
        ranges_total(ranges.drop_last()) + (ranges.last().1 - ranges.last().0)
    }
}

proof fn lemma_ranges_total_prefix(ranges: Seq<(usize, usize)>, i: int)
    requires
        ranges_well_formed(ranges),
        0 <= i <= ranges.len(),
    ensures
        0 <= ranges_total(ranges.take(i)) <= ranges_total(ranges),
    decreases ranges.len() - i,
{
    assert(ranges_well_formed(ranges.take(i)));
    lemma_ranges_total_nonneg(ranges.take(i));
    if i < ranges.len() {
        lemma_ranges_total_prefix(ranges, i + 1);
        assert(ranges.take(i + 1).drop_last() =~= ranges.take(i));
        assert(ranges.take(i + 1).last() == ranges[i]);
    } else {
        assert(ranges.take(i) =~= ranges);
    }
}

proof fn lemma_ranges_total_nonneg(ranges: Seq<(usize, usize)>)
    requires
        ranges_well_formed(ranges),
    ensures
        ranges_total(ranges) >= 0,
    decreases ranges.len(),
{
    if ranges.len() > 0 {
        assert(ranges_well_formed(ranges.drop_last()));
        lemma_ranges_total_nonneg(ranges.drop_last());
        assert(ranges.last() == ranges[ranges.len() - 1]);
    }
}

/// Sum of the lengths of `ranges`.
pub fn total_range_candles(ranges: &Vec<(usize, usize)>) -> (total: usize)
    requires
        ranges_well_formed(ranges@),
        ranges_total(ranges@) <= usize::MAX,
    ensures
        total == ranges_total(ranges@),
{
    let mut total: usize = 0;
    let mut i: usize = 0;
    while i < ranges.len()
        invariant
            i <= ranges@.len(),
            ranges_well_formed(ranges@),
            ranges_total(ranges@) <= usize::MAX,
            total == ranges_total(ranges@.take(i as int)),
        decreases ranges@.len() - i,
    {
        proof {
            lemma_ranges_total_prefix(ranges@, i + 1);
            assert(ranges@.take(i + 1).drop_last() =~= ranges@.take(i as int));
            assert(ranges@.take(i + 1).last() == ranges@[i as int]);
        }
        let (start, end) = ranges[i];
        total = total + (end - start);
        i = i + 1;
    }
    assert(ranges@.take(i as int) =~= ranges@);
    total
}

/// Candles that `min_lookback_days` days span at the given interval width,
/// counted in whole minutes; zero for intervals shorter than a minute.
pub open spec fn min_lookback_candles(interval_ms: int, min_lookback_days: int) -> int {
    let interval_minutes = trunc_div(interval_ms, 60000);
    if interval_minutes > 0 {
        (min_lookback_days * 1440) / interval_minutes
    } else {
        0
    }
}

/// `ranges` with its first range moved back (never below index 0) by the
/// number of candles missing to reach `needed`, when fewer are covered.
pub open spec fn extend_to_minimum(ranges: Seq<(usize, usize)>, needed: int) -> Seq<(usize, usize)> {
    let total = ranges_total(ranges);
    if ranges.len() == 0 || total >= needed {
        ranges
    } else {
        let deficit = needed - total;
        let first = ranges[0];
        let new_start = if first.0 >= deficit { (first.0 - deficit) as usize } else { 0usize };
        ranges.update(0, (new_start, first.1))
    }
}

pub(crate) fn extend_first_range(ranges: Vec<(usize, usize)>, total: usize, needed: usize) -> (extended: Vec<(usize, usize)>)
    requires
        total == ranges_total(ranges@),
    ensures
        extended@ == extend_to_minimum(ranges@, needed as int),
{
    if ranges.len() == 0 || total >= needed {
        return ranges;
    }
    let deficit = needed - total;
    let mut extended_ranges = ranges;
    let (start, end) = extended_ranges[0];
    let new_start = start.saturating_sub(deficit);
    extended_ranges.set(0, (new_start, end));
    extended_ranges
}

/// Extends the earliest range backward so that at least the minimum
/// lookback period is covered, as far as the start of the data allows.
pub fn apply_min_lookback_constraint(ranges: Vec<(usize, usize)>, interval_ms: i64, min_lookback_days: usize) -> (extended: Vec<(usize, usize)>)
    requires
        ranges_well_formed(ranges@),
        ranges_total(ranges@) <= usize::MAX,
        min_lookback_days * 1440 <= i64::MAX,
        min_lookback_days * 1440 <= usize::MAX,
    ensures
        extended@ == extend_to_minimum(ranges@, min_lookback_candles(interval_ms as int, min_lookback_days as int)),
{
    if ranges.len() == 0 {
        return ranges;
    }
    let total_relevant_candles = total_range_candles(&ranges);
    let interval_minutes = interval_ms / (1000 * 60);
    let min_lookback_minutes = min_lookback_days * 24 * 60;
    let min_lookback_candles = if interval_minutes > 0 {
        let q = (min_lookback_minutes as i64) / interval_minutes;
        assert(0 <= q <= min_lookback_minutes) by (nonlinear_arith)
            requires q == (min_lookback_minutes as int) / (interval_minutes as int), interval_minutes > 0, min_lookback_minutes >= 0;
        q as usize
    } else {
        0
    };
    extend_first_range(ranges, total_relevant_candles, min_lookback_candles)
}

/// Timestamp of the first candle that the selected ranges cover, or the
/// series' first timestamp when there is none.
pub fn calculate_relevant_start_timestamp(first_kline_timestamp_ms: i64, interval_ms: i64, ranges: &Vec<(usize, usize)>) -> (ts: i64)
    requires
        ranges@.len() > 0 ==> i64::MIN <= first_kline_timestamp_ms + ranges@[0].0 * interval_ms <= i64::MAX,
        ranges@.len() > 0 ==> ranges@[0].0 <= i64::MAX,
        ranges@.len() > 0 ==> i64::MIN <= ranges@[0].0 * interval_ms <= i64::MAX,
    ensures
        ranges@.len() > 0 ==> ts == first_kline_timestamp_ms + ranges@[0].0 * interval_ms,
        ranges@.len() == 0 ==> ts == first_kline_timestamp_ms,
{
    if ranges.len() > 0 {
        let start = ranges[0].0 as i64;
        let offset = start * interval_ms;
        first_kline_timestamp_ms + offset
    } else {
        first_kline_timestamp_ms
    }
}

/// The minimum-lookback extension never drops a candle: every range keeps
/// its end, later ranges are untouched, and the first range only grows.
pub proof fn lemma_extension_only_grows(ranges: Seq<(usize, usize)>, needed: int)
    requires
        ranges_well_formed(ranges),
    ensures
        extend_to_minimum(ranges, needed).len() == ranges.len(),
        forall|k: int| 0 <= k < ranges.len() ==> (#[trigger] extend_to_minimum(ranges, needed)[k]).1 == ranges[k].1,
        forall|k: int| 1 <= k < ranges.len() ==> #[trigger] extend_to_minimum(ranges, needed)[k] == ranges[k],
        ranges.len() > 0 ==> extend_to_minimum(ranges, needed)[0].0 <= ranges[0].0,
{
}

/// After the extension, the ranges cover at least the needed number of
/// candles, unless the first range already starts at the first candle.
pub proof fn lemma_extension_reaches_minimum(ranges: Seq<(usize, usize)>, needed: int)
    requires
        ranges_well_formed(ranges),
        ranges.len() > 0,
    ensures
        ranges_total(extend_to_minimum(ranges, needed)) >= needed
            || extend_to_minimum(ranges, needed)[0].0 == 0,
{
    let ext = extend_to_minimum(ranges, needed);
    let total = ranges_total(ranges);
    if total < needed && ranges[0].0 >= needed - total {
        lemma_total_after_first_update(ranges, (ext[0].0, ranges[0].1));
    }
}

proof fn lemma_total_after_first_update(ranges: Seq<(usize, usize)>, first: (usize, usize))
    requires
        ranges.len() > 0,
        first.1 == ranges[0].1,
    ensures
        ranges_total(ranges.update(0, first)) == ranges_total(ranges) + (ranges[0].0 - first.0),
    decreases ranges.len(),
{
    let upd = ranges.update(0, first);
    if ranges.len() > 1 {
        lemma_total_after_first_update(ranges.drop_last(), first);
        assert(upd.drop_last() =~= ranges.drop_last().update(0, first));
        assert(upd.last() == ranges.last());
    } else {
        assert(upd.drop_last() =~= Seq::<(usize, usize)>::empty());
        assert(ranges.drop_last() =~= Seq::<(usize, usize)>::empty());
        assert(upd.last() == first);
    }
}

} // verus!
