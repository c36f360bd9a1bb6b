//! Time constants, interval labels and calendar rendering of timestamps.
use vstd::prelude::*;

verus! {

pub const MS_IN_S: i64 = 1000;
pub const MS_IN_MIN: i64 = MS_IN_S * 60;
pub const MS_IN_3_MIN: i64 = MS_IN_S * 60 * 3;
pub const MS_IN_5_MIN: i64 = MS_IN_S * 60 * 5;
pub const MS_IN_15_MIN: i64 = MS_IN_S * 60 * 15;
pub const MS_IN_30_MIN: i64 = MS_IN_S * 60 * 30;
pub const MS_IN_H: i64 = MS_IN_MIN * 60;
pub const MS_IN_2_H: i64 = MS_IN_MIN * 60 * 2;
pub const MS_IN_4_H: i64 = MS_IN_MIN * 60 * 4;
pub const MS_IN_6_H: i64 = MS_IN_MIN * 60 * 6;
pub const MS_IN_8_H: i64 = MS_IN_MIN * 60 * 8;
pub const MS_IN_12_H: i64 = MS_IN_MIN * 60 * 12;
pub const MS_IN_D: i64 = MS_IN_H * 24;
pub const MS_IN_3_D: i64 = MS_IN_H * 24 * 3;
pub const MS_IN_W: i64 = MS_IN_D * 7;
pub const MS_IN_1_M: i64 = MS_IN_D * 30;

/// Namespace for time constants and interval labels.
pub struct TimeUtils;

impl TimeUtils {
    pub const MS_IN_S: i64 = 1000;
    pub const MS_IN_MIN: i64 = 60000;
    pub const MS_IN_3_MIN: i64 = 180000;
    pub const MS_IN_5_MIN: i64 = 300000;
    pub const MS_IN_15_MIN: i64 = 900000;
    pub const MS_IN_30_MIN: i64 = 1800000;
    pub const MS_IN_H: i64 = 3600000;
    pub const MS_IN_2_H: i64 = 7200000;
    pub const MS_IN_4_H: i64 = 14400000;
    pub const MS_IN_6_H: i64 = 21600000;
    pub const MS_IN_8_H: i64 = 28800000;
    pub const MS_IN_12_H: i64 = 43200000;
    pub const MS_IN_D: i64 = 86400000;
    pub const MS_IN_3_D: i64 = 259200000;
    pub const MS_IN_W: i64 = 604800000;
    pub const MS_IN_1_M: i64 = 2592000000;
    pub const STANDARD_TIME_FORMAT: &'static str = "%Y-%m-%d";

    /// Binance-style shorthand of an interval width (e.g. `30m`, `1h`);
    /// `unknown` for a width that has none.
    pub fn interval_to_string(interval_ms: i64) -> (label: &'static str)
        ensures
            label@ == interval_label(interval_ms as int),
    {
        interval_label_of(interval_ms)
    }
}

/// Binance-style shorthand of an interval width in milliseconds.
pub open spec fn interval_label(ms: int) -> Seq<char> {
    if ms == 1000 {
        "1s"@
    } else if ms == 60000 {
        "1m"@
    } else if ms == 180000 {
        "3m"@
    } else if ms == 300000 {
        "5m"@
    } else if ms == 900000 {
        "15m"@
    } else if ms == 1800000 {
        "30m"@
    } else if ms == 3600000 {
        "1h"@
    } else if ms == 7200000 {
        "2h"@
    } else if ms == 14400000 {
        "4h"@
    } else if ms == 21600000 {
        "6h"@
    } else if ms == 28800000 {
        "8h"@
    } else if ms == 43200000 {
        "12h"@
    } else if ms == 86400000 {
        "1d"@
    } else if ms == 259200000 {
        "3d"@
    } else if ms == 604800000 {
        "1w"@
    } else if ms == 2592000000 {
        "1M"@
    } else {
        "unknown"@
    }
}

pub(crate) fn interval_label_of(interval_ms: i64) -> (label: &'static str)
    ensures
        label@ == interval_label(interval_ms as int),
{
    if interval_ms == MS_IN_S {
        "1s"
    } else if interval_ms == MS_IN_MIN {
        "1m"
    } else if interval_ms == MS_IN_3_MIN {
        "3m"
    } else if interval_ms == MS_IN_5_MIN {
        "5m"
    } else if interval_ms == MS_IN_15_MIN {
        "15m"
    } else if interval_ms == MS_IN_30_MIN {
        "30m"
    } else if interval_ms == MS_IN_H {
        "1h"
    } else if interval_ms == MS_IN_2_H {
        "2h"
    } else if interval_ms == MS_IN_4_H {
        "4h"
    } else if interval_ms == MS_IN_6_H {
        "6h"
    } else if interval_ms == MS_IN_8_H {
        "8h"
    } else if interval_ms == MS_IN_12_H {
        "12h"
    } else if interval_ms == MS_IN_D {
        "1d"
    } else if interval_ms == MS_IN_3_D {
        "3d"
    } else if interval_ms == MS_IN_W {
        "1w"
    } else if interval_ms == MS_IN_1_M {
        "1M"
    } else {
        "unknown"
    }
}

/// Truncating (round toward zero) integer division, as Rust's `/` does it.
pub open spec fn trunc_div(a: int, b: int) -> int {
    if a >= 0 {
        a / b
    } else {
        -((-a) / b)
    }
}

/// Seconds accepted by chrono's `DateTime::from_timestamp`: from
/// -262143-01-01T00:00:00Z to +262142-12-31T23:59:59Z.
pub open spec fn chrono_seconds_in_range(secs: int) -> bool {
    -8334601315200 <= secs <= 8210266876799
}

/// The conversions that a date format may use here: year, month, day,
/// hour, minute and second.
pub open spec fn is_date_time_conversion(c: char) -> bool {
    c == 'Y' || c == 'm' || c == 'd' || c == 'H' || c == 'M' || c == 'S'
}

/// A strftime format whose every `%` starts one of those conversions; the
/// other characters are copied as they are.
pub open spec fn is_simple_format(fmt: Seq<char>) -> bool {
    forall|i: int| 0 <= i < fmt.len() && #[trigger] fmt[i] == '%' ==> i + 1 < fmt.len() && is_date_time_conversion(fmt[i + 1])
}

/// The text that chrono's `format(fmt)` gives for the UTC instant
/// `epoch_sec` seconds after the Unix epoch.
pub uninterp spec fn chrono_format_utc(epoch_sec: int, fmt: Seq<char>) -> Seq<char>;

/// The calendar date of a UTC instant in the standard format.
pub open spec fn utc_date_text(epoch_sec: int) -> Seq<char> {
    chrono_format_utc(epoch_sec, "%Y-%m-%d"@)
}

/// Calls chrono's `DateTime::from_timestamp(epoch_sec, 0)` and renders the
/// result with `format(fmt)`. The contract claims that chrono gives a date
/// exactly on its documented range of seconds, and names the text. The
/// format is limited to `%Y`, `%m`, `%d`, `%H`, `%M`, `%S` and plain text,
/// which chrono renders for every such date without error (it fails, and
/// `to_string` panics, on formats it cannot render).
/// chrono defines `Utc.timestamp_opt(secs, 0)` as this same call (a single
/// result where `from_timestamp` gives one, none otherwise), so both
/// renderings of a UTC date go through this item.
#[verifier::external_body]
fn utc_date_of(epoch_sec: i64, fmt: &str) -> (date: Option<String>)
    requires
        is_simple_format(fmt@),
    ensures
        date is Some <==> chrono_seconds_in_range(epoch_sec as int),
        date matches Some(s) ==> s@ == chrono_format_utc(epoch_sec as int, fmt@),
{
    match chrono::DateTime::from_timestamp(epoch_sec, 0) {
        Some(dt) => Some(dt.format(fmt).to_string()),
        None => None,
    }
}

proof fn lemma_standard_format_is_simple()
    ensures
        is_simple_format("%Y-%m-%d"@),
{
    reveal_strlit("%Y-%m-%d");
    let f = "%Y-%m-%d"@;
    assert(f.len() == 8);
    assert forall|i: int| 0 <= i < f.len() && #[trigger] f[i] == '%' implies i + 1 < f.len() && is_date_time_conversion(f[i + 1]) by {
        assert(i == 0 || i == 3 || i == 6);
    }
}

#[verifier::external_type_specification]
#[verifier::external_body]
pub struct ExSystemTime(std::time::SystemTime);

/// std's `SystemTime::now()`: a reading of the system clock. Nothing is
/// stated of the reading.
#[verifier::external_body]
fn system_time_now() -> (t: std::time::SystemTime) {
    std::time::SystemTime::now()
}

/// std's `SystemTime::duration_since(UNIX_EPOCH)`, taken in whole
/// milliseconds: `None` when the instant is before the epoch (std returns
/// an error then) or its milliseconds do not fit in an `i64`. The contract
/// claims only that a reading it gives is not negative; which instant the
/// `SystemTime` holds is not visible here.
#[verifier::external_body]
fn millis_since_epoch(t: &std::time::SystemTime) -> (ms: Option<i64>)
    ensures
        ms matches Some(m) ==> m >= 0,
{
    match t.duration_since(std::time::UNIX_EPOCH) {
        Ok(d) => i64::try_from(d.as_millis()).ok(),
        Err(_) => None,
    }
}

/// Milliseconds since the Unix epoch by the system clock (the same count
/// whatever the local time zone); `None` when the clock reads before the
/// epoch or beyond what an `i64` holds.
pub fn local_now_as_timestamp_ms() -> (ms: Option<i64>)
    ensures
        ms matches Some(m) ==> m >= 0,
{
    let now = system_time_now();
    millis_since_epoch(&now)
}

/// UTC calendar date of a Unix timestamp in seconds; empty when chrono
/// cannot represent the instant.
pub fn epoch_sec_to_local(epoch_sec: i64) -> (s: String)
    ensures
        chrono_seconds_in_range(epoch_sec as int) ==> s@ == utc_date_text(epoch_sec as int),
        !chrono_seconds_in_range(epoch_sec as int) ==> s@ == Seq::<char>::empty(),
{
    proof {
        lemma_standard_format_is_simple();
    }
    match utc_date_of(epoch_sec, TimeUtils::STANDARD_TIME_FORMAT) {
        Some(s) => s,
        None => String::new(),
    }
}

/// UTC calendar date of a Unix timestamp in seconds.
pub fn epoch_sec_to_utc(epoch_sec: i64) -> (s: String)
    requires
        chrono_seconds_in_range(epoch_sec as int),
    ensures
        s@ == utc_date_text(epoch_sec as int),
{
    proof {
        lemma_standard_format_is_simple();
    }
    match utc_date_of(epoch_sec, TimeUtils::STANDARD_TIME_FORMAT) {
        Some(s) => s,
        None => String::new(),
    }
}

/// UTC calendar date of a Unix timestamp in milliseconds.
pub fn epoch_ms_to_utc(epoch_ms: i64) -> (s: String)
    requires
        chrono_seconds_in_range(trunc_div(epoch_ms as int, 1000)),
    ensures
        s@ == utc_date_text(trunc_div(epoch_ms as int, 1000)),
{
    epoch_sec_to_utc(epoch_ms / 1000)
}

/// Whole seconds from `past` to `now` (milliseconds), rounded toward zero.
pub open spec fn seconds_from(now: int, past: int) -> int {
    trunc_div(now - past, 1000)
}

/// Whole seconds from `past_timestamp_ms` to `now_timestamp_ms`, rounded
/// toward zero.
pub fn seconds_between(now_timestamp_ms: i64, past_timestamp_ms: i64) -> (secs: i64)
    requires
        i64::MIN <= now_timestamp_ms - past_timestamp_ms <= i64::MAX,
    ensures
        secs == trunc_div(now_timestamp_ms - past_timestamp_ms, 1000),
{
    (now_timestamp_ms - past_timestamp_ms) / 1000
}

/// The seconds from `past` to the reading `now_ms`, when there is a reading
/// and their distance fits in an `i64`.
pub open spec fn seconds_ago_result(now_ms: Option<i64>, past: i64) -> Option<i64> {
    match now_ms {
        Some(n) => if i64::MIN <= n - past <= i64::MAX { Some(seconds_from(n as int, past as int) as i64) } else { None },
        None => None,
    }
}

/// How many seconds before the clock reading `now_ms` the event at
/// `past_timestamp_ms` was, rounded toward zero: `None` when there is no
/// reading, or when the distance does not fit in an `i64`.
pub fn seconds_ago_from(now_ms: Option<i64>, past_timestamp_ms: i64) -> (secs: Option<i64>)
    ensures
        now_ms is None ==> secs is None,
        now_ms matches Some(n) ==> (secs is Some <==> i64::MIN <= n - past_timestamp_ms <= i64::MAX),
        now_ms matches Some(n) ==> (secs matches Some(v) ==> v == seconds_from(n as int, past_timestamp_ms as int)),
        secs == seconds_ago_result(now_ms, past_timestamp_ms),
{
    match now_ms {
        None => None,
        Some(now_timestamp_ms) => {
            let distance: i128 = now_timestamp_ms as i128 - past_timestamp_ms as i128;
            if distance < i64::MIN as i128 || distance > i64::MAX as i128 {
                None
            } else {
                Some(seconds_between(now_timestamp_ms, past_timestamp_ms))
            }
        },
    }
}

/// How many seconds ago the event at `past_timestamp_ms` was, by the
/// system clock: the reading handed to `seconds_ago_from`.
pub fn how_many_seconds_ago(past_timestamp_ms: i64) -> (secs: Option<i64>)
    ensures
        exists|reading: Option<i64>| (reading matches Some(m) ==> m >= 0)
            && secs == #[trigger] seconds_ago_result(reading, past_timestamp_ms),
        secs matches Some(s) ==> exists|now: int|
            0 <= now <= i64::MAX && i64::MIN <= now - past_timestamp_ms <= i64::MAX
            && s == #[trigger] seconds_from(now, past_timestamp_ms as int),
{
    let now_ms = local_now_as_timestamp_ms();
    let secs = seconds_ago_from(now_ms, past_timestamp_ms);
    proof {
        if secs is Some {
            let n = now_ms->0;
            assert(secs->0 == seconds_from(n as int, past_timestamp_ms as int));
        }
    }
    secs
}

/// Against one clock reading, an earlier event is at least as many seconds
/// ago as a later one.
pub proof fn lemma_earlier_is_longer_ago(now: int, earlier: int, later: int)
    requires
        earlier <= later,
    ensures
        seconds_from(now, earlier) >= seconds_from(now, later),
{
}

} // verus!
