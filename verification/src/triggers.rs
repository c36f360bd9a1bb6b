//! When to recompute a pair's zone analysis, and when to rerun its journeys.
//!
//! A pair's analysis is anchored at the price it was last computed for. A
//! significant move away from that anchor makes the analysis stale; a stale
//! pair is scheduled when no run is in progress, and a move seen during a
//! run is kept as the follow-up for when the run completes.
//!
//! Prices are of any copyable type `P`: whether a move is significant is the
//! caller's judgement, handed in as a flag. Times are whole milliseconds on
//! the application's monotonic clock.
use vstd::prelude::*;

verus! {

/// Minimum time between two recalculations of one pair, in seconds.
pub const CVA_MIN_SECONDS_BETWEEN_RECALCS: u64 = 60;

/// The same debounce window, in milliseconds.
pub const CVA_MIN_MS_BETWEEN_RECALCS: u64 = 60_000;

/// What a pair trigger holds.
pub struct PairTriggerView<P> {
    pub anchor_price: Option<P>,
    pub pending_price: Option<P>,
    pub active_price: Option<P>,
    pub last_run_at: Option<u64>,
    pub is_stale: bool,
    pub in_progress: bool,
    pub stale_reason: Option<Seq<char>>,
}

/// The zone-analysis trigger of one pair.
pub struct PairTriggerState<P> {
    /// The price the current analysis was computed for.
    pub anchor_price: Option<P>,
    /// A price that asks for a (further) recalculation.
    pub pending_price: Option<P>,
    /// The price of the run in progress.
    pub active_price: Option<P>,
    /// When the last run ended.
    pub last_run_at: Option<u64>,
    pub is_stale: bool,
    pub in_progress: bool,
    pub stale_reason: Option<String>,
}

/// The view of an optional text.
pub open spec fn text_view(s: Option<String>) -> Option<Seq<char>> {
    match s {
        Some(t) => Some(t@),
        None => None,
    }
}

impl<P> View for PairTriggerState<P> {
    type V = PairTriggerView<P>;

    open spec fn view(&self) -> PairTriggerView<P> {
        PairTriggerView {
            anchor_price: self.anchor_price,
            pending_price: self.pending_price,
            active_price: self.active_price,
            last_run_at: self.last_run_at,
            is_stale: self.is_stale,
            in_progress: self.in_progress,
            stale_reason: text_view(self.stale_reason),
        }
    }
}

/// The trigger before any price was seen.
pub open spec fn idle_trigger<P>() -> PairTriggerView<P> {
    PairTriggerView {
        anchor_price: None,
        pending_price: None,
        active_price: None,
        last_run_at: None,
        is_stale: false,
        in_progress: false,
        stale_reason: None,
    }
}

/// Marks the analysis stale for `reason`, keeping `price` as the one to
/// recompute for when there is one.
pub open spec fn marked_stale<P>(t: PairTriggerView<P>, reason: Seq<char>, price: Option<P>) -> PairTriggerView<P> {
    PairTriggerView {
        is_stale: true,
        stale_reason: Some(reason),
        pending_price: if price is Some { price } else { t.pending_price },
        ..t
    }
}

/// The price a new one is compared with: during a run the run's own price
/// (or the anchor), otherwise the anchor.
pub open spec fn move_reference<P>(t: PairTriggerView<P>) -> Option<P> {
    if t.in_progress {
        if t.active_price is Some { t.active_price } else { t.anchor_price }
    } else {
        t.anchor_price
    }
}

/// The text of the stale reason of a pair's first price.
pub open spec fn initial_analysis_reason() -> Seq<char> {
    "initial analysis"@
}

/// The trigger after a new price, and whether it became stale.
/// `significant` says whether the move from `move_reference(t)` to
/// `new_price` reaches the recalculation threshold.
pub open spec fn after_price_move<P>(t: PairTriggerView<P>, new_price: P, significant: bool, move_reason: Seq<char>) -> (PairTriggerView<P>, bool) {
    if t.in_progress {
        if move_reference(t) is None || significant {
            (PairTriggerView { pending_price: Some(new_price), ..t }, false)
        } else {
            (t, false)
        }
    } else if t.anchor_price is None {
        (marked_stale(t, initial_analysis_reason(), Some(new_price)), true)
    } else if significant {
        (marked_stale(t, move_reason, Some(new_price)), true)
    } else {
        (t, false)
    }
}

/// The trigger once a run starts for `price`.
pub open spec fn scheduled<P>(t: PairTriggerView<P>, price: P) -> PairTriggerView<P> {
    PairTriggerView { in_progress: true, is_stale: false, active_price: Some(price), pending_price: None, ..t }
}

/// The trigger once a run completes at `now_ms`.
pub open spec fn succeeded<P>(t: PairTriggerView<P>, now_ms: u64) -> PairTriggerView<P> {
    PairTriggerView {
        anchor_price: if t.active_price is Some { t.active_price } else { t.anchor_price },
        active_price: None,
        pending_price: None,
        in_progress: false,
        last_run_at: Some(now_ms),
        stale_reason: None,
        ..t
    }
}

/// The trigger once a run fails at `now_ms`.
pub open spec fn failed<P>(t: PairTriggerView<P>, reason: Seq<char>, now_ms: u64) -> PairTriggerView<P> {
    PairTriggerView {
        in_progress: false,
        is_stale: false,
        active_price: None,
        pending_price: None,
        last_run_at: Some(now_ms),
        stale_reason: Some(reason),
        ..t
    }
}

/// A run ended less than the debounce window before `now_ms`.
pub open spec fn ran_recently<P>(t: PairTriggerView<P>, now_ms: u64) -> bool {
    match t.last_run_at {
        Some(ts) => (if now_ms >= ts { now_ms - ts } else { 0 }) < CVA_MIN_MS_BETWEEN_RECALCS,
        None => false,
    }
}

impl<P> Default for PairTriggerState<P> {
    fn default() -> (t: Self)
        ensures
            t@ == idle_trigger::<P>(),
    {
        PairTriggerState {
            anchor_price: None,
            pending_price: None,
            active_price: None,
            last_run_at: None,
            is_stale: false,
            in_progress: false,
            stale_reason: None,
        }
    }
}

impl<P: Copy> PairTriggerState<P> {
    /// Marks the analysis stale; a given price becomes the one to
    /// recompute for.
    pub fn mark_stale(&mut self, reason: &str, pending_price: Option<P>)
        ensures
            final(self)@ == marked_stale(old(self)@, reason@, pending_price),
    {
        self.is_stale = true;
        self.stale_reason = Some(String::from_str(reason));
        if let Some(price) = pending_price {
            self.pending_price = Some(price);
        }
    }

    /// The price a new one is to be compared with.
    pub fn move_reference(&self) -> (r: Option<P>)
        ensures
            r == move_reference(self@),
    {
        if self.in_progress {
            match self.active_price {
                Some(p) => Some(p),
                None => self.anchor_price,
            }
        } else {
            self.anchor_price
        }
    }

    /// Takes a new price into account; returns whether the analysis became
    /// stale. `significant` says whether the move from `move_reference()`
    /// reaches the recalculation threshold, and `move_reason` describes it.
    pub fn consider_price_move(&mut self, new_price: P, significant: bool, move_reason: &str) -> (staled: bool)
        ensures
            (final(self)@, staled) == after_price_move(old(self)@, new_price, significant, move_reason@),
    {
        if self.in_progress {
            if self.move_reference().is_none() || significant {
                self.pending_price = Some(new_price);
            }
            return false;
        }
        if self.anchor_price.is_none() {
            self.mark_stale("initial analysis", Some(new_price));
            return true;
        }
        if significant {
            self.mark_stale(move_reason, Some(new_price));
            return true;
        }
        false
    }

    /// A run can start: the analysis is stale and none is running.
    pub fn ready_to_schedule(&self) -> (b: bool)
        ensures
            b == (self@.is_stale && !self@.in_progress),
    {
        self.is_stale && !self.in_progress
    }

    /// A run starts for `price`.
    pub fn on_job_scheduled(&mut self, price: P)
        ensures
            final(self)@ == scheduled(old(self)@, price),
    {
        self.in_progress = true;
        self.is_stale = false;
        self.active_price = Some(price);
        self.pending_price = None;
    }

    /// The run completed at `now_ms`; returns the price seen meanwhile that
    /// asks for a follow-up run.
    pub fn on_job_success(&mut self, now_ms: u64) -> (follow_up: Option<P>)
        ensures
            follow_up == old(self)@.pending_price,
            final(self)@ == succeeded(old(self)@, now_ms),
    {
        let follow_up = self.pending_price;
        if let Some(price) = self.active_price {
            self.anchor_price = Some(price);
        }
        self.active_price = None;
        self.pending_price = None;
        self.in_progress = false;
        self.last_run_at = Some(now_ms);
        self.stale_reason = None;
        follow_up
    }

    /// The run failed at `now_ms` for `reason`.
    pub fn on_job_failure(&mut self, reason: &str, now_ms: u64)
        ensures
            final(self)@ == failed(old(self)@, reason@, now_ms),
    {
        self.in_progress = false;
        self.is_stale = false;
        self.active_price = None;
        self.pending_price = None;
        self.last_run_at = Some(now_ms);
        self.stale_reason = Some(String::from_str(reason));
    }

    /// A run ended less than the debounce window before `now_ms`.
    pub fn recent_run(&self, now_ms: u64) -> (b: bool)
        ensures
            b == ran_recently(self@, now_ms),
    {
        match self.last_run_at {
            Some(ts) => now_ms.saturating_sub(ts) < CVA_MIN_MS_BETWEEN_RECALCS,
            None => false,
        }
    }
}

/// What a journey trigger holds.
pub struct JourneyTriggerView {
    pub is_stale: bool,
    pub in_progress: bool,
    pub last_run_at: Option<u64>,
    pub stale_reason: Option<Seq<char>>,
}

/// The journey-analysis trigger of one pair.
pub struct JourneyTriggerState {
    pub is_stale: bool,
    pub in_progress: bool,
    /// When the last run ended.
    pub last_run_at: Option<u64>,
    pub stale_reason: Option<String>,
}

impl View for JourneyTriggerState {
    type V = JourneyTriggerView;

    open spec fn view(&self) -> JourneyTriggerView {
        JourneyTriggerView {
            is_stale: self.is_stale,
            in_progress: self.in_progress,
            last_run_at: self.last_run_at,
            stale_reason: text_view(self.stale_reason),
        }
    }
}

impl Default for JourneyTriggerState {
    fn default() -> (t: Self)
        ensures
            t@ == (JourneyTriggerView { is_stale: false, in_progress: false, last_run_at: None, stale_reason: None }),
    {
        JourneyTriggerState { is_stale: false, in_progress: false, last_run_at: None, stale_reason: None }
    }
}

impl JourneyTriggerState {
    /// The journeys need to run again, for `reason`.
    pub fn mark_stale(&mut self, reason: &str)
        ensures
            final(self)@ == (JourneyTriggerView { is_stale: true, stale_reason: Some(reason@), ..old(self)@ }),
    {
        self.is_stale = true;
        self.stale_reason = Some(String::from_str(reason));
    }

    /// Nothing to run until a fresh zone analysis arrives.
    pub fn reset_waiting_for_fresh_cva(&mut self, reason: &str)
        ensures
            final(self)@ == (JourneyTriggerView { is_stale: false, in_progress: false, last_run_at: None, stale_reason: Some(reason@) }),
    {
        self.is_stale = false;
        self.in_progress = false;
        self.stale_reason = Some(String::from_str(reason));
        self.last_run_at = None;
    }

    /// A run can start: the journeys are stale and none is running.
    pub fn ready_to_run(&self) -> (b: bool)
        ensures
            b == (self@.is_stale && !self@.in_progress),
    {
        self.is_stale && !self.in_progress
    }

    /// A run starts.
    pub fn on_run_started(&mut self)
        ensures
            final(self)@ == (JourneyTriggerView { in_progress: true, is_stale: false, ..old(self)@ }),
    {
        self.in_progress = true;
        self.is_stale = false;
    }

    /// The run ended at `now_ms`.
    pub fn on_run_finished(&mut self, now_ms: u64)
        ensures
            final(self)@ == (JourneyTriggerView { in_progress: false, last_run_at: Some(now_ms), stale_reason: None, ..old(self)@ }),
    {
        self.in_progress = false;
        self.last_run_at = Some(now_ms);
        self.stale_reason = None;
    }
}

/// A price seen while a run is in progress, if the run has no price of its
/// own to compare with or the move is significant, is handed back as the
/// follow-up when the run completes.
pub proof fn lemma_move_during_run_is_followed_up<P>(t: PairTriggerView<P>, new_price: P, significant: bool, reason: Seq<char>, now_ms: u64)
    requires
        t.in_progress,
        move_reference(t) is None || significant,
    ensures
        after_price_move(t, new_price, significant, reason).0.pending_price == Some(new_price),
        !after_price_move(t, new_price, significant, reason).1,
        succeeded(after_price_move(t, new_price, significant, reason).0, now_ms).pending_price is None,
{
}

/// A price move never makes the analysis stale while a run is in progress,
/// and never starts one.
pub proof fn lemma_no_stale_during_run<P>(t: PairTriggerView<P>, new_price: P, significant: bool, reason: Seq<char>)
    requires
        t.in_progress,
    ensures
        !after_price_move(t, new_price, significant, reason).1,
        after_price_move(t, new_price, significant, reason).0.in_progress,
        after_price_move(t, new_price, significant, reason).0.is_stale == t.is_stale,
{
}

/// The first price a pair sees makes its analysis stale and ready to run
/// for that price.
pub proof fn lemma_first_price_is_scheduled<P>(new_price: P, significant: bool, reason: Seq<char>)
    ensures
        after_price_move(idle_trigger::<P>(), new_price, significant, reason).1,
        after_price_move(idle_trigger::<P>(), new_price, significant, reason).0.is_stale,
        !after_price_move(idle_trigger::<P>(), new_price, significant, reason).0.in_progress,
        after_price_move(idle_trigger::<P>(), new_price, significant, reason).0.pending_price == Some(new_price),
        after_price_move(idle_trigger::<P>(), new_price, significant, reason).0.stale_reason == Some(initial_analysis_reason()),
{
}

/// Once a run starts it cannot be scheduled again until it ends; when it
/// completes, its price becomes the anchor that later moves are measured
/// from.
pub proof fn lemma_completed_run_anchors_its_price<P>(t: PairTriggerView<P>, price: P, now_ms: u64)
    ensures
        scheduled(t, price).in_progress && !scheduled(t, price).is_stale,
        succeeded(scheduled(t, price), now_ms).anchor_price == Some(price),
        move_reference(succeeded(scheduled(t, price), now_ms)) == Some(price),
        !succeeded(scheduled(t, price), now_ms).in_progress,
{
}

/// After a run ends, at `now_ms`, the pair counts as recently run for
/// exactly the debounce window.
pub proof fn lemma_debounce_window<P>(t: PairTriggerView<P>, reason: Seq<char>, now_ms: u64, later_ms: u64)
    requires
        now_ms <= later_ms,
    ensures
        ran_recently(succeeded(t, now_ms), later_ms) <==> later_ms - now_ms < CVA_MIN_MS_BETWEEN_RECALCS,
        ran_recently(failed(t, reason, now_ms), later_ms) <==> later_ms - now_ms < CVA_MIN_MS_BETWEEN_RECALCS,
{
}

/// A failed run leaves nothing scheduled: the pair is neither stale nor
/// running until something marks it stale again.
pub proof fn lemma_failure_rests<P>(t: PairTriggerView<P>, reason: Seq<char>, now_ms: u64)
    ensures
        !failed(t, reason, now_ms).is_stale,
        !failed(t, reason, now_ms).in_progress,
        failed(t, reason, now_ms).pending_price is None,
        marked_stale(failed(t, reason, now_ms), reason, None).is_stale,
{
}

} // verus!
