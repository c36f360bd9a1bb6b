//! The price horizon: the vertical band of prices around the current price
//! whose candles feed the analysis, and the minimum lookback applied to the
//! candle ranges it selects.
use vstd::prelude::*;
use crate::auto_duration::{ranges_well_formed, ranges_total, total_range_candles, extend_to_minimum, extend_first_range};

verus! {

/// Candles that `min_lookback_days` whole days span at the given interval
/// width; zero when the width is not positive.
pub open spec fn min_candles_needed(interval_ms: int, min_lookback_days: int) -> int {
    if interval_ms > 0 {
        (min_lookback_days * 86400000) / interval_ms
    } else {
        0
    }
}

/// Extends the earliest range backward so that at least the minimum
/// lookback period is covered, as far as the start of the data allows.
pub fn apply_min_lookback_constraint(ranges: Vec<(usize, usize)>, interval_ms: i64, min_lookback_days: usize) -> (extended: Vec<(usize, usize)>)
    requires
        ranges_well_formed(ranges@),
        ranges_total(ranges@) <= usize::MAX,
        interval_ms > 0 ==> (min_lookback_days * 86400000) / (interval_ms as int) <= usize::MAX,
    ensures
        interval_ms == 0 ==> extended@ == ranges@,
        interval_ms != 0 ==> extended@ == extend_to_minimum(ranges@, min_candles_needed(interval_ms as int, min_lookback_days as int)),
{
    if ranges.len() == 0 {
        return ranges;
    }
    let total_relevant_candles = total_range_candles(&ranges);
    if interval_ms == 0 {
        return ranges;
    }
    let ms_needed: u128 = min_lookback_days as u128 * 24 * 60 * 60 * 1000;
    let min_candles: usize = if interval_ms < 0 {
        0
    } else {
        let q = ms_needed / (interval_ms as u128);
        q as usize
    };
    extend_first_range(ranges, total_relevant_candles, min_candles)
}

/// Timestamp of the first candle that the selected ranges cover, or zero
/// when there is none.
pub fn calculate_relevant_start_timestamp(first_kline_timestamp_ms: i64, interval_ms: i64, ranges: &Vec<(usize, usize)>) -> (ts: i64)
    requires
        ranges@.len() > 0 ==> ranges@[0].0 <= i64::MAX,
        ranges@.len() > 0 ==> i64::MIN <= ranges@[0].0 * interval_ms <= i64::MAX,
        ranges@.len() > 0 ==> i64::MIN <= first_kline_timestamp_ms + ranges@[0].0 * interval_ms <= i64::MAX,
    ensures
        ranges@.len() > 0 ==> ts == first_kline_timestamp_ms + ranges@[0].0 * interval_ms,
        ranges@.len() == 0 ==> ts == 0,
{
    if ranges.len() > 0 {
        let start_offset = ranges[0].0 as i64 * interval_ms;
        first_kline_timestamp_ms + start_offset
    } else {
        0
    }
}

} // verus!
