//! Trading pairs: names such as `BTCUSDT`, split into base and quote
//! assets, together with the kline interval they are sampled at.
use vstd::prelude::*;
use crate::text_utils::{is_suffix, ends_with, signed_decimal, i64_to_decimal};
use crate::time_utils::{interval_label, interval_label_of};

verus! {

/// A trading pair sampled at one kline interval.
#[derive(Debug, Clone, Hash, PartialEq, Eq)]
pub struct PairInterval {
    pub name: String,
    pub interval_ms: i64,
}

/// The first of the recognised quote assets (in the order `USDT`, `USDC`,
/// `FDUSD`, `BTC`, `ETH`) that ends `text`.
pub open spec fn quote_of(text: Seq<char>) -> Option<Seq<char>> {
    if is_suffix("USDT"@, text) {
        Some("USDT"@)
    } else if is_suffix("USDC"@, text) {
        Some("USDC"@)
    } else if is_suffix("FDUSD"@, text) {
        Some("FDUSD"@)
    } else if is_suffix("BTC"@, text) {
        Some("BTC"@)
    } else if is_suffix("ETH"@, text) {
        Some("ETH"@)
    } else {
        None
    }
}

/// What is left of `text` once its quote asset is taken off its end.
pub open spec fn base_of(text: Seq<char>) -> Option<Seq<char>> {
    match quote_of(text) {
        Some(q) => Some(text.subrange(0, text.len() - q.len())),
        None => None,
    }
}

/// Text of the description of a pair interval.
pub open spec fn pair_interval_text(name: Seq<char>, interval_ms: int) -> Seq<char> {
    let base = match base_of(name) {
        Some(b) => b,
        None => "UNKNOWN_BASE"@,
    };
    let quote = match quote_of(name) {
        Some(q) => q,
        None => "UNKNOWN_QUOTE"@,
    };
    "Base: "@ + base + ", Quote: "@ + quote + ", full: "@ + name + ", Interval: "@
        + signed_decimal(interval_ms) + "ms (or "@ + interval_label(interval_ms) + ") "@
}

impl PairInterval {
    /// The base asset of a pair name (e.g. `BTC` of `BTCUSDT`).
    pub fn get_base(text: &str) -> (base: Option<&str>)
        ensures
            base matches Some(b) ==> base_of(text@) == Some(b@),
            base is None ==> base_of(text@) is None,
    {
        let quote = Self::get_quote(text)?;
        let n = text.unicode_len();
        let m = quote.unicode_len();
        Some(text.substring_char(0, n - m))
    }

    /// The quote asset that ends a pair name (e.g. `USDT` of `BTCUSDT`).
    pub fn get_quote(text: &str) -> (quote: Option<&str>)
        ensures
            quote matches Some(q) ==> quote_of(text@) == Some(q@),
            quote is None ==> quote_of(text@) is None,
    {
        if ends_with(text, "USDT") {
            Some("USDT")
        } else if ends_with(text, "USDC") {
            Some("USDC")
        } else if ends_with(text, "FDUSD") {
            Some("FDUSD")
        } else if ends_with(text, "BTC") {
            Some("BTC")
        } else if ends_with(text, "ETH") {
            Some("ETH")
        } else {
            None
        }
    }

    /// Base and quote assets of a pair name.
    pub fn get_base_and_quote(text: &str) -> (parts: Option<(&str, &str)>)
        ensures
            parts matches Some((b, q)) ==> base_of(text@) == Some(b@) && quote_of(text@) == Some(q@),
            parts is None ==> quote_of(text@) is None,
    {
        let base = Self::get_base(text)?;
        let quote = Self::get_quote(text)?;
        Some((base, quote))
    }

    /// Base and quote assets of a pair name, or `("Invalid", "Name")` when
    /// the name ends with no recognised quote asset.
    pub fn split_pair_name(pair_name: &str) -> (parts: (&str, &str))
        ensures
            quote_of(pair_name@) matches Some(q) ==> parts.0@ == base_of(pair_name@).unwrap()
                && parts.1@ == q,
            quote_of(pair_name@) is None ==> parts.0@ == "Invalid"@ && parts.1@ == "Name"@,
    {
        match Self::get_base_and_quote(pair_name) {
            Some((base, quote)) => (base, quote),
            None => ("Invalid", "Name"),
        }
    }

    /// The name passed to the Binance API.
    pub fn bn_name(&self) -> (n: &str)
        ensures
            n@ == self.name@,
    {
        self.name.as_str()
    }

    /// The pair's name.
    pub fn name(&self) -> (n: &str)
        ensures
            n@ == self.name@,
    {
        self.name.as_str()
    }

    /// Human-readable description: base, quote, full name and interval.
    pub fn to_display_string(&self) -> (s: String)
        ensures
            s@ == pair_interval_text(self.name@, self.interval_ms as int),
    {
        let name = self.name.as_str();
        let base = match Self::get_base(name) {
            Some(b) => b,
            None => "UNKNOWN_BASE",
        };
        let quote = match Self::get_quote(name) {
            Some(q) => q,
            None => "UNKNOWN_QUOTE",
        };
        let mut s = String::from_str("Base: ");
        s.append(base);
        s.append(", Quote: ");
        s.append(quote);
        s.append(", full: ");
        s.append(name);
        s.append(", Interval: ");
        let ms = i64_to_decimal(self.interval_ms);
        s.append(ms.as_str());
        s.append("ms (or ");
        s.append(interval_label_of(self.interval_ms));
        s.append(") ");
        s
    }
}

/// Splitting a pair name loses nothing: base followed by quote gives the name back.
pub proof fn lemma_base_then_quote_is_name(text: Seq<char>)
    requires
        quote_of(text) is Some,
    ensures
        base_of(text).unwrap() + quote_of(text).unwrap() == text,
{
    let q = quote_of(text).unwrap();
    assert(is_suffix(q, text));
    assert(text.subrange(0, text.len() - q.len()) + text.subrange(text.len() - q.len(), text.len() as int) =~= text);
}

} // verus!
