//! Decisions of the live price stream: the URL of the combined stream,
//! which ticks are kept, the status of each symbol and the reconnection
//! back-off.
use vstd::prelude::*;
use crate::config::{COMBINED_STREAM_BASE_URL, INITIAL_RECONNECT_DELAY_SEC, MAX_RECONNECT_DELAY_SEC};
use crate::text_utils::{seq_join, str_equal};
use vstd::arithmetic::power2::pow2;

verus! {

/// The connection state of one symbol's stream.
#[derive(Debug, Clone, Copy, PartialEq, Eq, Structural)]
pub enum ConnectionStatus {
    Connected,
    Connecting,
    Disconnected,
}

/// The stream name of each symbol.
pub open spec fn stream_names(symbols: Seq<Seq<char>>) -> Seq<Seq<char>> {
    Seq::new(symbols.len(), |i: int| symbols[i] + "@miniTicker"@)
}

/// The combined-stream URL of the symbols: the base URL followed by the
/// symbols' `<symbol>@miniTicker` streams separated by `/`.
pub open spec fn combined_stream_url(symbols: Seq<Seq<char>>) -> Seq<char> {
    COMBINED_STREAM_BASE_URL@ + seq_join(stream_names(symbols), "/"@)
}

/// The combined-stream URL of the symbols.
pub fn build_combined_stream_url(symbols: &Vec<String>) -> (url: String)
    ensures
        url@ == combined_stream_url(symbols@.map_values(|s: String| s@)),
{
    let ghost syms = symbols@.map_values(|s: String| s@);
    let mut url = String::from_str(COMBINED_STREAM_BASE_URL);
    let mut i: usize = 0;
    while i < symbols.len()
        invariant
            i <= symbols@.len(),
            syms == symbols@.map_values(|s: String| s@),
            url@ == COMBINED_STREAM_BASE_URL@ + seq_join(stream_names(syms).take(i as int), "/"@),
        decreases symbols@.len() - i,
    {
        let ghost before = url@;
        if i > 0 {
            url.append("/");
        }
        url.append(symbols[i].as_str());
        url.append("@miniTicker");
        proof {
            let names = stream_names(syms);
            assert(names.take(i + 1).drop_last() =~= names.take(i as int));
            assert(names.take(i + 1).last() == syms[i as int] + "@miniTicker"@);
            if i > 0 {
                assert(url@ =~= COMBINED_STREAM_BASE_URL@ + (seq_join(names.take(i as int), "/"@) + "/"@ + (syms[i as int] + "@miniTicker"@)));
            } else {
                assert(names.take(0) =~= Seq::<Seq<char>>::empty());
                assert(url@ =~= COMBINED_STREAM_BASE_URL@ + (syms[i as int] + "@miniTicker"@));
            }
        }
        i = i + 1;
    }
    assert(stream_names(syms).take(i as int) =~= stream_names(syms));
    url
}

/// The string holds the name.
pub open spec fn names_match(s: String, name: Seq<char>) -> bool {
    s@ == name
}

/// Whether a tick for `symbol` (already lower-cased) is recorded: the
/// stream is not suspended and the symbol is one of those subscribed.
pub fn accepts_tick(suspended: bool, subscribed: &Vec<String>, symbol: &str) -> (b: bool)
    ensures
        b == (!suspended && exists|i: int| 0 <= i < subscribed@.len() && names_match(subscribed@[i], symbol@)),
{
    if suspended {
        return false;
    }
    let mut i: usize = 0;
    while i < subscribed.len()
        invariant
            i <= subscribed@.len(),
            !suspended,
            forall|j: int| 0 <= j < i ==> !names_match(#[trigger] subscribed@[j], symbol@),
        decreases subscribed@.len() - i,
    {
        if str_equal(subscribed[i].as_str(), symbol) {
            assert(names_match(subscribed@[i as int], symbol@));
            return true;
        }
        i = i + 1;
    }
    false
}

/// How many of the streams are connected.
pub open spec fn connected_count(statuses: Seq<ConnectionStatus>) -> nat
    decreases statuses.len(),
{
    if statuses.len() == 0 {
        0
    } else {
        connected_count(statuses.drop_last()) + if statuses.last() == ConnectionStatus::Connected { 1nat } else { 0nat }
    }
}

/// How many of the streams are connected.
pub fn count_connected(statuses: &Vec<ConnectionStatus>) -> (c: usize)
    ensures
        c == connected_count(statuses@),
        c <= statuses@.len(),
{
    let mut c: usize = 0;
    let mut i: usize = 0;
    while i < statuses.len()
        invariant
            i <= statuses@.len(),
            c == connected_count(statuses@.take(i as int)),
            c <= i,
        decreases statuses@.len() - i,
    {
        proof {
            assert(statuses@.take(i + 1).drop_last() =~= statuses@.take(i as int));
        }
        if statuses[i] == ConnectionStatus::Connected {
            c = c + 1;
        }
        i = i + 1;
    }
    assert(statuses@.take(i as int) =~= statuses@);
    c
}

/// The wait before the next reconnection attempt, in seconds.
pub struct ReconnectBackoff {
    pub delay_sec: u64,
}

/// The delay after a failed attempt: doubled, up to the maximum.
pub open spec fn doubled_delay(delay: u64) -> u64 {
    if 2 * delay <= MAX_RECONNECT_DELAY_SEC { (2 * delay) as u64 } else { MAX_RECONNECT_DELAY_SEC }
}

impl ReconnectBackoff {
    /// The delay lies between the initial and the maximal delay.
    pub open spec fn wf(&self) -> bool {
        INITIAL_RECONNECT_DELAY_SEC <= self.delay_sec <= MAX_RECONNECT_DELAY_SEC
    }

    /// The back-off before any attempt.
    pub fn new() -> (b: Self)
        ensures
            b.wf(),
            b.delay_sec == INITIAL_RECONNECT_DELAY_SEC,
    {
        ReconnectBackoff { delay_sec: INITIAL_RECONNECT_DELAY_SEC }
    }

    /// A connection closed after it had been established: the next wait
    /// starts over.
    pub fn on_closed(&mut self)
        ensures
            final(self).wf(),
            final(self).delay_sec == INITIAL_RECONNECT_DELAY_SEC,
    {
        self.delay_sec = INITIAL_RECONNECT_DELAY_SEC;
    }

    /// A connection attempt failed: returns how long to wait now, and
    /// doubles the next wait, up to the maximum.
    pub fn on_failed(&mut self) -> (wait_sec: u64)
        requires
            old(self).wf(),
        ensures
            final(self).wf(),
            wait_sec == old(self).delay_sec,
            final(self).delay_sec == doubled_delay(old(self).delay_sec),
    {
        let wait = self.delay_sec;
        let doubled = self.delay_sec * 2;
        self.delay_sec = if doubled < MAX_RECONNECT_DELAY_SEC { doubled } else { MAX_RECONNECT_DELAY_SEC };
        wait
    }
}

/// However many attempts fail in a row, the wait never exceeds the
/// maximum and never drops below the initial delay, and it never shrinks.
pub proof fn lemma_backoff_bounded(delay: u64)
    requires
        INITIAL_RECONNECT_DELAY_SEC <= delay <= MAX_RECONNECT_DELAY_SEC,
    ensures
        INITIAL_RECONNECT_DELAY_SEC <= doubled_delay(delay) <= MAX_RECONNECT_DELAY_SEC,
        delay <= doubled_delay(delay),
        delay == MAX_RECONNECT_DELAY_SEC ==> doubled_delay(delay) == MAX_RECONNECT_DELAY_SEC,
{
}

/// The wait after `k` failed attempts in a row from the initial delay.
pub open spec fn delay_after(k: nat) -> u64
    decreases k,
{
    if k == 0 { INITIAL_RECONNECT_DELAY_SEC } else { doubled_delay(delay_after((k - 1) as nat)) }
}

/// After `k` failed attempts in a row from the initial delay, the wait is
/// `min(2^k, max)` seconds.
pub proof fn lemma_backoff_after_failures(k: nat)
    ensures
        delay_after(k) == (if pow2(k) <= MAX_RECONNECT_DELAY_SEC { pow2(k) } else { MAX_RECONNECT_DELAY_SEC as nat }),
    decreases k,
{
    if k == 0 {
        assert(pow2(0) == 1) by {
            vstd::arithmetic::power2::lemma2_to64();
        }
    } else {
        lemma_backoff_after_failures((k - 1) as nat);
        vstd::arithmetic::power2::lemma_pow2_unfold(k);
    }
}

} // verus!
