//! Kline interval widths: the Binance interval codes and their widths in
//! milliseconds.
use vstd::prelude::*;
use crate::text_utils::{signed_decimal, i64_to_decimal};
use crate::time_utils::{interval_label, interval_label_of};

verus! {

/// The kline interval codes that Binance's REST API accepts.
#[derive(Debug, Clone, Copy, PartialEq, Eq, Structural)]
pub enum KlineInterval {
    Interval1s,
    Interval1m,
    Interval3m,
    Interval5m,
    Interval15m,
    Interval30m,
    Interval1h,
    Interval2h,
    Interval4h,
    Interval6h,
    Interval8h,
    Interval12h,
    Interval1d,
    Interval3d,
    Interval1w,
    Interval1M,
}

/// Width of an interval code in milliseconds.
pub open spec fn interval_width_ms(i: KlineInterval) -> int {
    match i {
        KlineInterval::Interval1s => 1000,
        KlineInterval::Interval1m => 60000,
        KlineInterval::Interval3m => 180000,
        KlineInterval::Interval5m => 300000,
        KlineInterval::Interval15m => 900000,
        KlineInterval::Interval30m => 1800000,
        KlineInterval::Interval1h => 3600000,
        KlineInterval::Interval2h => 7200000,
        KlineInterval::Interval4h => 14400000,
        KlineInterval::Interval6h => 21600000,
        KlineInterval::Interval8h => 28800000,
        KlineInterval::Interval12h => 43200000,
        KlineInterval::Interval1d => 86400000,
        KlineInterval::Interval3d => 259200000,
        KlineInterval::Interval1w => 604800000,
        KlineInterval::Interval1M => 2592000000,
    }
}

/// The interval code whose width is `ms`, if there is one.
pub open spec fn interval_of_width(ms: int) -> Option<KlineInterval> {
    if ms == 1000 {
        Some(KlineInterval::Interval1s)
    } else if ms == 60000 {
        Some(KlineInterval::Interval1m)
    } else if ms == 180000 {
        Some(KlineInterval::Interval3m)
    } else if ms == 300000 {
        Some(KlineInterval::Interval5m)
    } else if ms == 900000 {
        Some(KlineInterval::Interval15m)
    } else if ms == 1800000 {
        Some(KlineInterval::Interval30m)
    } else if ms == 3600000 {
        Some(KlineInterval::Interval1h)
    } else if ms == 7200000 {
        Some(KlineInterval::Interval2h)
    } else if ms == 14400000 {
        Some(KlineInterval::Interval4h)
    } else if ms == 21600000 {
        Some(KlineInterval::Interval6h)
    } else if ms == 28800000 {
        Some(KlineInterval::Interval8h)
    } else if ms == 43200000 {
        Some(KlineInterval::Interval12h)
    } else if ms == 86400000 {
        Some(KlineInterval::Interval1d)
    } else if ms == 259200000 {
        Some(KlineInterval::Interval3d)
    } else if ms == 604800000 {
        Some(KlineInterval::Interval1w)
    } else if ms == 2592000000 {
        Some(KlineInterval::Interval1M)
    } else {
        None
    }
}

/// Conversion of an interval code to its width in milliseconds.
pub trait IntervalToMs {
    fn to_ms(&self) -> i64;
}

impl IntervalToMs for KlineInterval {
    fn to_ms(&self) -> (ms: i64)
        ensures
            ms == interval_width_ms(*self),
    {
        match self {
            KlineInterval::Interval1s => 1000,
            KlineInterval::Interval1m => 60000,
            KlineInterval::Interval3m => 180000,
            KlineInterval::Interval5m => 300000,
            KlineInterval::Interval15m => 900000,
            KlineInterval::Interval30m => 1800000,
            KlineInterval::Interval1h => 3600000,
            KlineInterval::Interval2h => 7200000,
            KlineInterval::Interval4h => 14400000,
            KlineInterval::Interval6h => 21600000,
            KlineInterval::Interval8h => 28800000,
            KlineInterval::Interval12h => 43200000,
            KlineInterval::Interval1d => 86400000,
            KlineInterval::Interval3d => 259200000,
            KlineInterval::Interval1w => 604800000,
            KlineInterval::Interval1M => 2592000000,
        }
    }
}

/// The message that an unsupported width is refused with.
pub open spec fn unsupported_interval_message(ms: int) -> Seq<char> {
    "Unsupported interval: "@ + signed_decimal(ms) + "ms"@
}

/// The interval code of a width in milliseconds, or an error message when
/// Binance has no interval of that width.
pub fn try_interval_from_ms(ms: i64) -> (r: Result<KlineInterval, String>)
    ensures
        interval_of_width(ms as int) matches Some(i) ==> r == Ok::<KlineInterval, String>(i),
        interval_of_width(ms as int) is None ==> (r matches Err(msg) && msg@ == unsupported_interval_message(ms as int)),
{
    if ms == 1000 {
        Ok(KlineInterval::Interval1s)
    } else if ms == 60000 {
        Ok(KlineInterval::Interval1m)
    } else if ms == 180000 {
        Ok(KlineInterval::Interval3m)
    } else if ms == 300000 {
        Ok(KlineInterval::Interval5m)
    } else if ms == 900000 {
        Ok(KlineInterval::Interval15m)
    } else if ms == 1800000 {
        Ok(KlineInterval::Interval30m)
    } else if ms == 3600000 {
        Ok(KlineInterval::Interval1h)
    } else if ms == 7200000 {
        Ok(KlineInterval::Interval2h)
    } else if ms == 14400000 {
        Ok(KlineInterval::Interval4h)
    } else if ms == 21600000 {
        Ok(KlineInterval::Interval6h)
    } else if ms == 28800000 {
        Ok(KlineInterval::Interval8h)
    } else if ms == 43200000 {
        Ok(KlineInterval::Interval12h)
    } else if ms == 86400000 {
        Ok(KlineInterval::Interval1d)
    } else if ms == 259200000 {
        Ok(KlineInterval::Interval3d)
    } else if ms == 604800000 {
        Ok(KlineInterval::Interval1w)
    } else if ms == 2592000000 {
        Ok(KlineInterval::Interval1M)
    } else {
        let mut msg = String::from_str("Unsupported interval: ");
        let digits = i64_to_decimal(ms);
        msg.append(digits.as_str());
        msg.append("ms");
        Err(msg)
    }
}

/// Binance-style shorthand of an interval width (e.g. `30m`, `1h`);
/// `unknown` for a width that has none.
pub fn interval_ms_to_string(interval_ms: i64) -> (label: &'static str)
    ensures
        label@ == interval_label(interval_ms as int),
{
    interval_label_of(interval_ms)
}

/// Every interval code comes back from its width.
pub proof fn lemma_interval_width_round_trip(i: KlineInterval)
    ensures
        interval_of_width(interval_width_ms(i)) == Some(i),
{
}

/// A width that names an interval code is that code's width.
pub proof fn lemma_width_interval_round_trip(ms: int)
    ensures
        interval_of_width(ms) matches Some(i) ==> interval_width_ms(i) == ms,
{
}

/// A width has a known shorthand exactly when it names an interval code.
pub proof fn lemma_label_known_iff_interval(ms: int)
    ensures
        interval_of_width(ms) is Some <==> interval_label(ms) != "unknown"@,
{
    reveal_strlit("unknown");
    reveal_strlit("1s");
    reveal_strlit("1m");
    reveal_strlit("3m");
    reveal_strlit("5m");
    reveal_strlit("15m");
    reveal_strlit("30m");
    reveal_strlit("1h");
    reveal_strlit("2h");
    reveal_strlit("4h");
    reveal_strlit("6h");
    reveal_strlit("8h");
    reveal_strlit("12h");
    reveal_strlit("1d");
    reveal_strlit("3d");
    reveal_strlit("1w");
    reveal_strlit("1M");
    assert("unknown"@.len() == 7);
    assert(interval_of_width(ms) is Some ==> interval_label(ms).len() <= 3);
}

} // verus!
