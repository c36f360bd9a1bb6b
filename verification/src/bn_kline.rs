//! Klines as the exchange returns them, and the paging over them.
//!
//! The exchange returns klines newest page last; the loader pages backwards
//! in time, so each new page is prepended to what was read before. Prices
//! and volumes are of any type `T`: they are parsed by the caller.
use vstd::prelude::*;
use crate::pair_interval::PairInterval;

verus! {

/// One kline: its open time and its (optional) values.
pub struct BNKline<T> {
    pub open_timestamp_ms: i64,
    pub open_price: Option<T>,
    pub high_price: Option<T>,
    pub low_price: Option<T>,
    pub close_price: Option<T>,
    pub base_asset_volume: Option<T>,
    pub quote_asset_volume: Option<T>,
}

/// One field of a raw kline record: an integer, a text already parsed as a
/// number (`None` when it did not parse), or something else.
pub enum KlineItem<T> {
    Integer(i64),
    Text(Option<T>),
    Other,
}

/// Why a raw kline record could not be read.
#[derive(Debug, Clone, PartialEq, Eq)]
pub enum BNKlineError {
    InvalidLength,
    InvalidType(String),
    ConnectionFailed(String),
}

/// The text of an error.
pub open spec fn kline_error_text(e: BNKlineError) -> Seq<char> {
    match e {
        BNKlineError::InvalidLength => "Invalid length"@,
        BNKlineError::InvalidType(s) => "Invalid type: "@ + s@,
        BNKlineError::ConnectionFailed(m) => "Binance API connection failed: "@ + m@ + "."@,
    }
}

impl BNKlineError {
    /// The text of the error.
    pub fn message(&self) -> (s: String)
        ensures
            s@ == kline_error_text(*self),
    {
        match self {
            BNKlineError::InvalidLength => String::from_str("Invalid length"),
            BNKlineError::InvalidType(t) => {
                let mut s = String::from_str("Invalid type: ");
                s.append(t.as_str());
                s
            },
            BNKlineError::ConnectionFailed(m) => {
                let mut s = String::from_str("Binance API connection failed: ");
                s.append(m.as_str());
                s.append(".");
                s
            },
        }
    }
}

/// The number held by a field, if it is a parsed text.
pub open spec fn item_number<T>(item: Option<KlineItem<T>>) -> Option<T> {
    match item {
        Some(KlineItem::Text(v)) => v,
        _ => None,
    }
}

/// The field at `k`, if the record has one.
pub open spec fn item_at<T>(items: Seq<KlineItem<T>>, k: int) -> Option<KlineItem<T>> {
    if 0 <= k < items.len() { Some(items[k]) } else { None }
}

fn number_of<T: Copy>(item: Option<&KlineItem<T>>) -> (v: Option<T>)
    ensures
        v == item_number(match item { Some(i) => Some(*i), None => None }),
{
    match item {
        Some(KlineItem::Text(v)) => *v,
        _ => None,
    }
}

fn item_ref<T>(items: &Vec<KlineItem<T>>, k: usize) -> (r: Option<&KlineItem<T>>)
    ensures
        (match r { Some(i) => Some(*i), None => None }) == item_at(items@, k as int),
{
    if k < items.len() { Some(&items[k]) } else { None }
}

impl<T: Copy> BNKline<T> {
    /// Reads a raw kline record: the open time (an integer) first, then
    /// open, high, low, close and base volume, the close time (skipped),
    /// and the quote volume. A value that is missing or not a parsed
    /// number is `None`.
    pub fn from_items(items: &Vec<KlineItem<T>>) -> (r: Result<BNKline<T>, BNKlineError>)
        ensures
            items@.len() == 0 ==> r == Err::<BNKline<T>, BNKlineError>(BNKlineError::InvalidLength),
            items@.len() > 0 && !(items@[0] is Integer) ==> (r matches Err(BNKlineError::InvalidType(s)) && s@ == "open_time"@),
            items@.len() > 0 && items@[0] is Integer ==> (r matches Ok(k) && {
                &&& k.open_timestamp_ms == items@[0]->Integer_0
                &&& k.open_price == item_number(item_at(items@, 1))
                &&& k.high_price == item_number(item_at(items@, 2))
                &&& k.low_price == item_number(item_at(items@, 3))
                &&& k.close_price == item_number(item_at(items@, 4))
                &&& k.base_asset_volume == item_number(item_at(items@, 5))
                &&& k.quote_asset_volume == item_number(item_at(items@, 7))
            }),
    {
        if items.len() == 0 {
            return Err(BNKlineError::InvalidLength);
        }
        let open_timestamp_ms = match &items[0] {
            KlineItem::Integer(a) => *a,
            _ => return Err(BNKlineError::InvalidType(String::from_str("open_time"))),
        };
        Ok(BNKline {
            open_timestamp_ms,
            open_price: number_of(item_ref(items, 1)),
            high_price: number_of(item_ref(items, 2)),
            low_price: number_of(item_ref(items, 3)),
            close_price: number_of(item_ref(items, 4)),
            base_asset_volume: number_of(item_ref(items, 5)),
            quote_asset_volume: number_of(item_ref(items, 7)),
        })
    }
}

/// Every kline read for one pair interval, oldest first.
pub struct AllValidKlines4Pair<T> {
    pub klines: Vec<BNKline<T>>,
    pub pair_interval: PairInterval,
}

impl<T> AllValidKlines4Pair<T> {
    pub fn new(klines: Vec<BNKline<T>>, pair_interval: PairInterval) -> (r: Self)
        ensures
            r.klines@ == klines@,
            r.pair_interval == pair_interval,
    {
        AllValidKlines4Pair { pair_interval, klines }
    }

    /// Open time of the first kline.
    pub fn first_timestamp_ms(&self) -> (t: i64)
        requires
            self.klines@.len() > 0,
        ensures
            t == self.klines@[0].open_timestamp_ms,
    {
        self.klines[0].open_timestamp_ms
    }

    /// Open time of the last kline.
    pub fn last_timestamp_ms(&self) -> (t: i64)
        requires
            self.klines@.len() > 0,
        ensures
            t == self.klines@[self.klines@.len() - 1].open_timestamp_ms,
    {
        self.klines[self.klines.len() - 1].open_timestamp_ms
    }
}

/// Two klines of the list open at the same time.
pub open spec fn has_duplicate_open_time<T>(klines: Seq<BNKline<T>>) -> bool {
    exists|i: int, j: int| 0 <= i < j < klines.len() && klines[i].open_timestamp_ms == klines[j].open_timestamp_ms
}

/// Whether two klines open at the same time.
pub fn has_duplicate_kline_open_time<T>(klines: &Vec<BNKline<T>>) -> (b: bool)
    ensures
        b == has_duplicate_open_time(klines@),
{
    broadcast use vstd::std_specs::hash::group_hash_axioms;
    let mut seen_ids: std::collections::HashSet<i64> = std::collections::HashSet::new();
    let mut k: usize = 0;
    while k < klines.len()
        invariant
            k <= klines@.len(),
            vstd::std_specs::hash::obeys_key_model::<i64>(),
            forall|t: i64| seen_ids@.contains(t) <==> exists|i: int| 0 <= i < k && #[trigger] klines@[i].open_timestamp_ms == t,
            forall|i: int, j: int| 0 <= i < j < k ==> klines@[i].open_timestamp_ms != klines@[j].open_timestamp_ms,
        decreases klines@.len() - k,
    {
        let t = klines[k].open_timestamp_ms;
        if !seen_ids.insert(t) {
            let ghost i = choose|i: int| 0 <= i < k && #[trigger] klines@[i].open_timestamp_ms == t;
            assert(klines@[i].open_timestamp_ms == klines@[k as int].open_timestamp_ms);
            return true;
        }
        k = k + 1;
    }
    false
}

/// A page of klines that held no kline at all.
#[derive(Debug, Clone, Copy, PartialEq, Eq, Structural)]
pub enum KlineBatchError {
    EmptyBatch,
}

/// Takes in a page of klines read backwards from `end_time`: the page's
/// last kline repeats the first one already held (the exchange includes
/// the end time), so it is dropped, and the rest is prepended. Returns the
/// open time of the page's first kline, the end time of the next request,
/// and whether paging is over: the page was shorter than the `limit`
/// asked for, or held only the repeated kline.
pub fn process_new_klines<T>(bn_klines: Vec<BNKline<T>>, limit_klines_returned: i32, all_klines: &mut Vec<BNKline<T>>)
    -> (r: Result<(Option<i64>, bool), KlineBatchError>)
    ensures
        bn_klines@.len() == 0 <==> r is Err,
        bn_klines@.len() == 0 ==> final(all_klines)@ == old(all_klines)@,
        bn_klines@.len() > 0 ==> (r matches Ok((end_time, done)) && {
            &&& end_time == Some(bn_klines@[0].open_timestamp_ms)
            &&& done == (bn_klines@.len() == 1 || bn_klines@.len() < limit_klines_returned as usize)
            &&& final(all_klines)@ == bn_klines@.drop_last() + old(all_klines)@
        }),
{
    let mut bn_klines = bn_klines;
    if bn_klines.len() == 0 {
        return Err(KlineBatchError::EmptyBatch);
    }
    let read_all_klines = bn_klines.len() < limit_klines_returned as usize;
    let end_time = Some(bn_klines[0].open_timestamp_ms);
    let ghost page = bn_klines@;
    bn_klines.pop();
    if bn_klines.len() == 0 {
        assert(page.drop_last() + old(all_klines)@ =~= old(all_klines)@);
        return Ok((end_time, true));
    }
    let mut rest: Vec<BNKline<T>> = Vec::new();
    std::mem::swap(&mut rest, all_klines);
    bn_klines.append(&mut rest);
    *all_klines = bn_klines;
    Ok((end_time, read_all_klines))
}

/// A rate-limit reading of the exchange: its window (`interval_num`
/// units, and whether the unit is the minute) and the weight used in it.
#[derive(Debug, Clone, Copy, PartialEq, Eq, Structural)]
pub struct RateLimitReading {
    pub interval_num: u32,
    pub per_minute: bool,
    pub count: u32,
}

/// Whether a reading asks to wait for the next minute: it covers one
/// minute and its weight leaves less headroom than the weight of the calls
/// about to be made.
pub open spec fn must_pause(r: RateLimitReading, call_weight: u32, weight_limit_minute: u32) -> bool {
    r.interval_num == 1 && r.per_minute
        && r.count > (if weight_limit_minute >= call_weight { weight_limit_minute - call_weight } else { 0 })
}

impl RateLimitReading {
    /// Whether this reading asks to wait for the next minute.
    pub fn requires_pause(&self, call_weight: u32, weight_limit_minute: u32) -> (b: bool)
        ensures
            b == must_pause(*self, call_weight, weight_limit_minute),
    {
        self.interval_num == 1 && self.per_minute && self.count > weight_limit_minute.saturating_sub(call_weight)
    }
}

/// Seconds from `secs_since_epoch` to the start of the next minute (a whole
/// minute when it is the start of one).
pub fn seconds_to_next_minute(secs_since_epoch: u64) -> (s: u64)
    ensures
        1 <= s <= 60,
        (secs_since_epoch + s) % 60 == 0,
{
    let secs_into_min = secs_since_epoch % 60;
    if secs_into_min == 0 { 60 } else { 60 - secs_into_min }
}

} // verus!
