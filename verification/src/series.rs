//! Index and time arithmetic of a candle series on its regular grid.
use vstd::prelude::*;
use crate::pair_interval::PairInterval;
use crate::text_utils::{decimal, signed_decimal, usize_to_decimal, i64_to_decimal, str_equal};
use crate::time_utils::trunc_div;

verus! {

/// The grid of a candle series: its pair interval, the open time of its
/// first candle and its number of candles.
pub struct SeriesGrid {
    pub pair_interval: PairInterval,
    pub first_kline_timestamp_ms: i64,
    pub candle_count: usize,
}

/// How many of the latest candles to take: a count, or a span of time in
/// milliseconds.
#[derive(Debug, Clone, Copy, PartialEq, Eq, Structural)]
pub enum MostRecentIntervals {
    Count(usize),
    Duration(i64),
}

/// Milliseconds in an hour.
pub const MS_PER_HOUR: i64 = 3_600_000;

impl SeriesGrid {
    /// The number of candles.
    pub fn klines(&self) -> (n: usize)
        ensures
            n == self.candle_count,
    {
        self.candle_count
    }

    /// The open time of the last candle.
    pub fn last_kline_timestamp_ms(&self) -> (t: i64)
        requires
            self.candle_count >= 1,
            self.candle_count - 1 <= i64::MAX,
            i64::MIN <= self.first_kline_timestamp_ms + (self.candle_count - 1) * self.pair_interval.interval_ms <= i64::MAX,
            i64::MIN <= (self.candle_count - 1) * self.pair_interval.interval_ms <= i64::MAX,
        ensures
            t == self.first_kline_timestamp_ms + (self.candle_count - 1) * self.pair_interval.interval_ms,
    {
        let n = self.candle_count - 1;
        self.first_kline_timestamp_ms + (n as i64) * self.pair_interval.interval_ms
    }

    /// Every candle: the range `[0, candle_count)`.
    pub fn get_all_indices(&self) -> (r: (usize, usize))
        ensures
            r == (0usize, self.candle_count),
    {
        (0, self.candle_count)
    }

    /// The hours the series covers: the candle count times the interval in
    /// whole hours.
    pub fn total_duration_hours(&self) -> (h: usize)
        requires
            self.candle_count <= i64::MAX,
            i64::MIN <= self.candle_count * trunc_div(self.pair_interval.interval_ms as int, MS_PER_HOUR as int) <= i64::MAX,
        ensures
            h == (self.candle_count * trunc_div(self.pair_interval.interval_ms as int, MS_PER_HOUR as int)) as usize,
    {
        let iv = self.pair_interval.interval_ms;
        let hours: i64 = iv / MS_PER_HOUR;
        let n = self.candle_count as i64;
        #[verifier::truncate]
        ((n * hours) as usize)
    }

    /// The range of the latest candles: the last `n` of them (all when
    /// there are fewer), where a span of time counts its whole intervals.
    pub fn get_indices_most_recent(&self, most_recent_intervals: MostRecentIntervals) -> (r: (usize, usize))
        requires
            most_recent_intervals is Duration ==> self.pair_interval.interval_ms > 0,
        ensures
            ({
                let wanted: usize = match most_recent_intervals {
                    MostRecentIntervals::Count(n) => n,
                    MostRecentIntervals::Duration(ms) => trunc_div(ms as int, self.pair_interval.interval_ms as int) as usize,
                };
                r == ((if self.candle_count >= wanted { (self.candle_count - wanted) as usize } else { 0usize }), self.candle_count)
            }),
    {
        let wanted: usize = match most_recent_intervals {
            MostRecentIntervals::Count(n) => n,
            MostRecentIntervals::Duration(ms) => {
                let iv = self.pair_interval.interval_ms;
                let q: i64 = if ms >= 0 { ms / iv } else { -((-(ms as i128)) / (iv as i128)) as i64 };
                #[verifier::truncate]
                (q as usize)
            },
        };
        (self.candle_count.saturating_sub(wanted), self.candle_count)
    }
}

/// The message of a series that is not there.
pub open spec fn no_series_text(pair_name: Seq<char>, interval_ms: int) -> Seq<char> {
    "No matching OHLCV data found for pair "@ + pair_name + " with interval "@ + signed_decimal(interval_ms) + " ms"@
}

/// The position of the series of `pair_name` at `interval_ms` among the
/// series' pair intervals: the first that matches.
pub fn find_matching_ohlcv(series: &Vec<PairInterval>, pair_name: &str, interval_ms: i64) -> (r: Result<usize, String>)
    ensures
        r matches Ok(i) ==> i < series@.len() && series@[i as int].name@ == pair_name@ && series@[i as int].interval_ms == interval_ms
            && forall|j: int| 0 <= j < i ==> !(#[trigger] series@[j].name@ == pair_name@ && series@[j].interval_ms == interval_ms),
        r matches Err(m) ==> m@ == no_series_text(pair_name@, interval_ms as int)
            && forall|j: int| 0 <= j < series@.len() ==> !(#[trigger] series@[j].name@ == pair_name@ && series@[j].interval_ms == interval_ms),
{
    let mut i: usize = 0;
    while i < series.len()
        invariant
            i <= series@.len(),
            forall|j: int| 0 <= j < i ==> !(#[trigger] series@[j].name@ == pair_name@ && series@[j].interval_ms == interval_ms),
        decreases series@.len() - i,
    {
        if str_equal(series[i].name.as_str(), pair_name) && series[i].interval_ms == interval_ms {
            return Ok(i);
        }
        i = i + 1;
    }
    let mut m = String::from_str("No matching OHLCV data found for pair ");
    m.append(pair_name);
    m.append(" with interval ");
    m.append(i64_to_decimal(interval_ms).as_str());
    m.append(" ms");
    Err(m)
}

/// The sum of the lengths of the ranges.
pub open spec fn ranges_len(ranges: Seq<(usize, usize)>) -> int
    decreases ranges.len(),
{
    if ranges.len() == 0 {
        0
    } else {
        ranges_len(ranges.drop_last()) + (ranges.last().1 - ranges.last().0)
    }
}

/// The candles and time span an analysis covers.
#[derive(Debug, Clone, Copy, PartialEq, Eq, Structural)]
pub struct AnalysisWindow {
    pub total_candles: usize,
    /// Open time of the first candle of the first range.
    pub start_timestamp_ms: i64,
    /// Open time of the candle just after the last range.
    pub end_timestamp_ms: i64,
}

/// Too few candles for an analysis.
#[derive(Debug, Clone, Copy, PartialEq, Eq, Structural)]
pub struct InsufficientData {
    pub total_candles: usize,
    pub minimum: usize,
}

/// The message of an analysis with too few candles.
pub open spec fn insufficient_text(pair_name: Seq<char>, e: InsufficientData) -> Seq<char> {
    "Insufficient data: "@ + pair_name + " has only "@ + decimal(e.total_candles as nat) + " candles (minimum: "@
        + decimal(e.minimum as nat) + ")."@
}

impl InsufficientData {
    /// The message for the pair.
    pub fn message(&self, pair_name: &str) -> (s: String)
        ensures
            s@ == insufficient_text(pair_name@, *self),
    {
        let mut s = String::from_str("Insufficient data: ");
        s.append(pair_name);
        s.append(" has only ");
        s.append(usize_to_decimal(self.total_candles).as_str());
        s.append(" candles (minimum: ");
        s.append(usize_to_decimal(self.minimum).as_str());
        s.append(").");
        s
    }
}

/// The window of an analysis over the slice ranges of a series that starts
/// at `first_kline_timestamp_ms`: refused with fewer than `minimum`
/// candles; otherwise its candles and the open times where its first range
/// starts and its last range ends.
pub fn analysis_window(first_kline_timestamp_ms: i64, interval_ms: i64, ranges: &Vec<(usize, usize)>, minimum: usize)
    -> (r: Result<AnalysisWindow, InsufficientData>)
    requires
        forall|k: int| 0 <= k < ranges@.len() ==> (#[trigger] ranges@[k]).0 <= ranges@[k].1,
        forall|k: int| 0 <= k < ranges@.len() ==> (#[trigger] ranges@[k]).1 <= i64::MAX,
        forall|k: int| 0 <= k < ranges@.len() ==> i64::MIN <= (#[trigger] ranges@[k]).1 * interval_ms <= i64::MAX,
        forall|k: int| 0 <= k < ranges@.len() ==> i64::MIN <= (#[trigger] ranges@[k]).0 * interval_ms <= i64::MAX,
        forall|k: int| 0 <= k < ranges@.len() ==> i64::MIN <= first_kline_timestamp_ms + (#[trigger] ranges@[k]).1 * interval_ms <= i64::MAX,
        forall|k: int| 0 <= k < ranges@.len() ==> i64::MIN <= first_kline_timestamp_ms + (#[trigger] ranges@[k]).0 * interval_ms <= i64::MAX,
        ranges_len(ranges@) <= usize::MAX,
    ensures
        ranges_len(ranges@) < minimum ==> r == Err::<AnalysisWindow, InsufficientData>(InsufficientData { total_candles: ranges_len(ranges@) as usize, minimum }),
        ranges_len(ranges@) >= minimum ==> (r matches Ok(w) && {
            &&& w.total_candles == ranges_len(ranges@)
            &&& ranges@.len() > 0 ==> w.start_timestamp_ms == first_kline_timestamp_ms + ranges@[0].0 * interval_ms
            &&& ranges@.len() > 0 ==> w.end_timestamp_ms == first_kline_timestamp_ms + ranges@[ranges@.len() - 1].1 * interval_ms
            &&& ranges@.len() == 0 ==> w.start_timestamp_ms == 0 && w.end_timestamp_ms == 0
        }),
{
    let mut total: usize = 0;
    let mut k: usize = 0;
    while k < ranges.len()
        invariant
            k <= ranges@.len(),
            forall|j: int| 0 <= j < ranges@.len() ==> (#[trigger] ranges@[j]).0 <= ranges@[j].1,
            ranges_len(ranges@) <= usize::MAX,
            total == ranges_len(ranges@.take(k as int)),
        decreases ranges@.len() - k,
    {
        proof {
            assert(ranges@.take(k + 1).drop_last() =~= ranges@.take(k as int));
            lemma_ranges_len_prefix(ranges@, k + 1);
        }
        let (s, e) = ranges[k];
        total = total + (e - s);
        k = k + 1;
    }
    assert(ranges@.take(k as int) =~= ranges@);
    if total < minimum {
        return Err(InsufficientData { total_candles: total, minimum });
    }
    if ranges.len() == 0 {
        return Ok(AnalysisWindow { total_candles: total, start_timestamp_ms: 0, end_timestamp_ms: 0 });
    }
    let first_start = ranges[0].0;
    let last_end = ranges[ranges.len() - 1].1;
    Ok(AnalysisWindow {
        total_candles: total,
        start_timestamp_ms: first_kline_timestamp_ms + (first_start as i64) * interval_ms,
        end_timestamp_ms: first_kline_timestamp_ms + (last_end as i64) * interval_ms,
    })
}

proof fn lemma_ranges_len_prefix(ranges: Seq<(usize, usize)>, k: int)
    requires
        0 <= k <= ranges.len(),
        forall|j: int| 0 <= j < ranges.len() ==> (#[trigger] ranges[j]).0 <= ranges[j].1,
    ensures
        0 <= ranges_len(ranges.take(k)) <= ranges_len(ranges),
    decreases ranges.len(),
{
    if ranges.len() > 0 {
        if k == ranges.len() {
            assert(ranges.take(k) =~= ranges);
            lemma_ranges_len_prefix(ranges.drop_last(), k - 1);
            assert(ranges.drop_last().take(k - 1) =~= ranges.drop_last());
        } else {
            assert(ranges.drop_last().take(k) =~= ranges.take(k));
            lemma_ranges_len_prefix(ranges.drop_last(), k);
        }
    } else {
        assert(ranges.take(k) =~= ranges);
    }
}

} // verus!
