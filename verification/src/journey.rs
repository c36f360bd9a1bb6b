//! How a historical price journey ends.
//!
//! A journey starts at a candle whose close matched the requested start
//! price and walks forward one candle per step, for at most the steps that
//! fit in the journey's time budget. At each step the stop-loss is checked
//! before the target; the first step that reaches either ends the journey.
//! Which prices reach what is the caller's comparison, handed in per step.
use vstd::prelude::*;

verus! {

/// How a journey ended, by step (step 1 is the candle after the start).
#[derive(Debug, Clone, Copy, PartialEq, Eq, Structural)]
pub enum JourneyEnd {
    /// The target was reached at this step.
    Success { step: usize },
    /// The stop-loss was hit at this step.
    StoppedOut { step: usize },
    /// Neither happened within the steps walked.
    TimedOut { steps_taken: usize },
}

/// `a / b` rounded up, for `b > 0`.
pub open spec fn ceil_div(a: int, b: int) -> int {
    if a % b == 0 { a / b } else { a / b + 1 }
}

/// The number of candle steps that a time budget of `window_ms` allows at
/// `interval_ms` per candle: the budget divided by the interval, rounded
/// up (and cut to the width of `usize`), and at least one step whenever
/// the budget is positive. A zero (or, read as unsigned, empty) interval
/// or budget allows none.
pub open spec fn max_steps_for(interval_ms: i64, window_ms: u128) -> usize {
    let iv = interval_ms as u64;
    let steps: usize = if iv == 0 || window_ms == 0 { 0 } else { ceil_div(window_ms as int, iv as int) as usize };
    if steps == 0 && window_ms > 0 { 1 } else { steps }
}

/// The number of steps a journey walks within its budget.
pub fn journey_max_steps(interval_ms: i64, window_ms: u128) -> (steps: usize)
    ensures
        steps == max_steps_for(interval_ms, window_ms),
{
    let iv: u64 = interval_ms as u64;
    let mut steps: usize = if iv == 0 || window_ms == 0 {
        0
    } else {
        let d: u128 = iv as u128;
        let q: u128 = window_ms / d;
        let c: u128 = if window_ms % d == 0 {
            q
        } else {
            assert(q < u128::MAX) by (nonlinear_arith)
                requires q == window_ms / d, d >= 1, window_ms % d != 0, window_ms <= u128::MAX;
            q + 1
        };
        #[verifier::truncate]
        (c as usize)
    };
    if steps == 0 && window_ms > 0 {
        steps = 1;
    }
    steps
}

/// The steps a journey that starts at candle `start_idx` can walk among
/// `candle_count` candles, given its budget of `max_steps` (none when the
/// start is not a candle).
pub open spec fn steps_available(start_idx: usize, candle_count: usize, max_steps: usize) -> usize {
    if start_idx >= candle_count {
        0
    } else if max_steps <= candle_count - 1 - start_idx {
        max_steps
    } else {
        (candle_count - 1 - start_idx) as usize
    }
}

/// The number of steps a journey can walk before the budget or the data
/// runs out.
pub fn journey_steps_available(start_idx: usize, candle_count: usize, max_steps: usize) -> (n: usize)
    ensures
        n == steps_available(start_idx, candle_count, max_steps),
        n <= max_steps,
        start_idx < candle_count ==> start_idx + n < candle_count,
{
    if start_idx >= candle_count {
        return 0;
    }
    let left = candle_count - 1 - start_idx;
    if max_steps <= left { max_steps } else { left }
}

/// Flag `k` of a step list, for step `k + 1`; missing flags are unset.
pub open spec fn flag_at(flags: Seq<bool>, k: int) -> bool {
    0 <= k < flags.len() && flags[k]
}

/// The first of the first `n` steps at which the stop-loss or the target
/// was reached (counted from 0).
pub open spec fn first_decisive(stop_hits: Seq<bool>, target_hits: Seq<bool>, n: int) -> Option<int>
    decreases n,
{
    if n <= 0 {
        None
    } else {
        match first_decisive(stop_hits, target_hits, n - 1) {
            Some(k) => Some(k),
            None => if flag_at(stop_hits, n - 1) || flag_at(target_hits, n - 1) { Some(n - 1) } else { None },
        }
    }
}

/// How a journey of `available` steps ends; the stop-loss wins over the
/// target within a step.
pub open spec fn journey_end(available: usize, stop_hits: Seq<bool>, target_hits: Seq<bool>) -> JourneyEnd {
    match first_decisive(stop_hits, target_hits, available as int) {
        Some(k) => if flag_at(stop_hits, k) {
            JourneyEnd::StoppedOut { step: (k + 1) as usize }
        } else {
            JourneyEnd::Success { step: (k + 1) as usize }
        },
        None => JourneyEnd::TimedOut { steps_taken: available },
    }
}

proof fn lemma_first_decisive(stop_hits: Seq<bool>, target_hits: Seq<bool>, n: int)
    requires
        0 <= n,
    ensures
        first_decisive(stop_hits, target_hits, n) matches Some(k) ==> {
            &&& 0 <= k < n
            &&& flag_at(stop_hits, k) || flag_at(target_hits, k)
            &&& forall|j: int| 0 <= j < k ==> !#[trigger] flag_at(stop_hits, j) && !flag_at(target_hits, j)
        },
        first_decisive(stop_hits, target_hits, n) is None ==>
            forall|j: int| 0 <= j < n ==> !#[trigger] flag_at(stop_hits, j) && !flag_at(target_hits, j),
    decreases n,
{
    if n > 0 {
        lemma_first_decisive(stop_hits, target_hits, n - 1);
    }
}

/// Walks the journey's steps: `stop_hits[k]` and `target_hits[k]` say
/// whether step `k + 1` reached the stop-loss or the target.
pub fn resolve_journey(available: usize, stop_hits: &Vec<bool>, target_hits: &Vec<bool>) -> (e: JourneyEnd)
    ensures
        e == journey_end(available, stop_hits@, target_hits@),
        e matches JourneyEnd::Success { step } ==> 1 <= step <= available,
        e matches JourneyEnd::StoppedOut { step } ==> 1 <= step <= available,
{
    let mut k: usize = 0;
    while k < available
        invariant
            k <= available,
            first_decisive(stop_hits@, target_hits@, k as int) is None,
        decreases available - k,
    {
        let stop = k < stop_hits.len() && stop_hits[k];
        let target = k < target_hits.len() && target_hits[k];
        if stop || target {
            proof {
                lemma_first_decisive(stop_hits@, target_hits@, available as int);
                assert(first_decisive(stop_hits@, target_hits@, k + 1) == Some(k as int));
                lemma_decisive_prefix(stop_hits@, target_hits@, k as int + 1, available as int);
            }
            if stop {
                return JourneyEnd::StoppedOut { step: k + 1 };
            } else {
                return JourneyEnd::Success { step: k + 1 };
            }
        }
        k = k + 1;
    }
    JourneyEnd::TimedOut { steps_taken: available }
}

proof fn lemma_decisive_prefix(stop_hits: Seq<bool>, target_hits: Seq<bool>, m: int, n: int)
    requires
        0 <= m <= n,
        first_decisive(stop_hits, target_hits, m) is Some,
    ensures
        first_decisive(stop_hits, target_hits, n) == first_decisive(stop_hits, target_hits, m),
    decreases n - m,
{
    if m < n {
        lemma_decisive_prefix(stop_hits, target_hits, m, n - 1);
    }
}

/// The step after which the journey's final close is read: the step it
/// timed out at, or 0 for the start candle itself.
pub open spec fn last_step(e: JourneyEnd) -> usize {
    match e {
        JourneyEnd::Success { step } => step,
        JourneyEnd::StoppedOut { step } => step,
        JourneyEnd::TimedOut { steps_taken } => steps_taken,
    }
}

/// Whether a journey reached its target.
pub open spec fn is_success(e: JourneyEnd) -> bool {
    e is Success
}

/// How many journeys reached their target.
pub open spec fn success_count(ends: Seq<JourneyEnd>) -> nat
    decreases ends.len(),
{
    if ends.len() == 0 {
        0
    } else {
        success_count(ends.drop_last()) + if is_success(ends.last()) { 1nat } else { 0nat }
    }
}

/// A journey never walks past its time budget nor past the last candle.
pub proof fn lemma_journey_stays_in_budget(start_idx: usize, candle_count: usize, max_steps: usize, stop_hits: Seq<bool>, target_hits: Seq<bool>)
    requires
        start_idx < candle_count,
    ensures
        ({
            let n = steps_available(start_idx, candle_count, max_steps);
            let e = journey_end(n, stop_hits, target_hits);
            &&& last_step(e) <= n <= max_steps
            &&& start_idx + last_step(e) < candle_count
        }),
{
    let n = steps_available(start_idx, candle_count, max_steps);
    lemma_first_decisive(stop_hits, target_hits, n as int);
}

impl JourneyEnd {
    /// Whether the journey reached its target.
    pub fn is_success(&self) -> (b: bool)
        ensures
            b == is_success(*self),
    {
        matches!(self, JourneyEnd::Success { .. })
    }
}

/// The numbers of journeys that reached their target and of those that did
/// not.
pub fn count_outcomes(ends: &Vec<JourneyEnd>) -> (r: (usize, usize))
    ensures
        r.0 == success_count(ends@),
        r.0 + r.1 == ends@.len(),
{
    let mut successes: usize = 0;
    let mut i: usize = 0;
    while i < ends.len()
        invariant
            i <= ends@.len(),
            successes == success_count(ends@.take(i as int)),
            successes <= i,
        decreases ends@.len() - i,
    {
        proof {
            assert(ends@.take(i + 1).drop_last() =~= ends@.take(i as int));
        }
        if ends[i].is_success() {
            successes = successes + 1;
        }
        i = i + 1;
    }
    assert(ends@.take(i as int) =~= ends@);
    (successes, ends.len() - successes)
}

} // verus!
