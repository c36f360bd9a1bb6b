//! How historical candles dwell in sticky zones and move between them.
//!
//! The candles are replayed in order. For each candle the caller says which
//! zones its body touched; the tracker keeps, per zone, the length of the run
//! of consecutive touching candles, closes runs when the price leaves, and
//! records where the price went next and after how many candles.
use vstd::prelude::*;

verus! {

/// A departure from a zone that still waits for the next zone the price
/// enters: the candles counted since the run ended.
#[derive(Debug, Clone, Copy, PartialEq, Eq, Structural)]
pub struct PendingTransition {
    pub gap_candles: usize,
}

/// One departure from a sticky zone: where the price went next (`None`
/// when the data ended first) and how many candles it took.
#[derive(Debug, Clone, Copy, PartialEq, Eq, Structural)]
pub struct TransitionRecord {
    pub from_zone_id: usize,
    pub to_zone_id: Option<usize>,
    pub gap_candles: usize,
}

/// The state of a replay.
pub struct RunModel {
    /// Per zone, the length of the run in progress (0 when none).
    pub active: Seq<usize>,
    /// Per zone, the departure that waits for its destination.
    pub pending: Seq<Option<PendingTransition>>,
    /// The lengths of the runs closed so far, in closing order.
    pub runs: Seq<usize>,
    /// The departures whose destination is known, in order.
    pub transitions: Seq<TransitionRecord>,
    /// Candles that touched at least one zone.
    pub candles_in_zones: nat,
    /// Candles replayed.
    pub total_candles: nat,
}

/// Whether the candle touched zone `z`; a row shorter than the zone list
/// leaves the remaining zones untouched.
pub open spec fn hit_at(row: Seq<bool>, z: int) -> bool {
    0 <= z < row.len() && row[z]
}

/// The run of zone `z` ends at this candle.
pub open spec fn run_ends(active: Seq<usize>, row: Seq<bool>, z: int) -> bool {
    !hit_at(row, z) && active[z] > 0
}

/// The lengths of the runs that end at this candle, among the first `n`
/// zones, in zone order.
pub open spec fn ended_runs(active: Seq<usize>, row: Seq<bool>, n: int) -> Seq<usize>
    decreases n,
{
    if n <= 0 {
        Seq::empty()
    } else {
        let earlier = ended_runs(active, row, n - 1);
        if run_ends(active, row, n - 1) {
            earlier.push(active[n - 1])
        } else {
            earlier
        }
    }
}

/// The first of the first `n` zones that the candle touched.
pub open spec fn first_hit(row: Seq<bool>, n: int) -> Option<usize>
    decreases n,
{
    if n <= 0 {
        None
    } else {
        match first_hit(row, n - 1) {
            Some(f) => Some(f),
            None => if hit_at(row, n - 1) { Some((n - 1) as usize) } else { None },
        }
    }
}

/// Run lengths after the candle: a touched zone extends its run, the others
/// have none.
pub open spec fn advanced_runs(active: Seq<usize>, row: Seq<bool>) -> Seq<usize> {
    Seq::new(active.len(), |z: int| if hit_at(row, z) { (active[z] + 1) as usize } else { 0usize })
}

/// Pending departures once the runs that end at this candle are marked.
pub open spec fn marked_pending(active: Seq<usize>, pending: Seq<Option<PendingTransition>>, row: Seq<bool>) -> Seq<Option<PendingTransition>> {
    Seq::new(active.len(), |z: int|
        if run_ends(active, row, z) { Some(PendingTransition { gap_candles: 0 }) } else { pending[z] })
}

/// The departures of the first `n` zones that complete at zone `to`.
pub open spec fn departures(ids: Seq<usize>, pending: Seq<Option<PendingTransition>>, to: usize, n: int) -> Seq<TransitionRecord>
    decreases n,
{
    if n <= 0 {
        Seq::empty()
    } else {
        let earlier = departures(ids, pending, to, n - 1);
        match pending[n - 1] {
            Some(p) => earlier.push(TransitionRecord { from_zone_id: ids[n - 1], to_zone_id: Some(to), gap_candles: p.gap_candles }),
            None => earlier,
        }
    }
}

/// Every waiting departure counts one more candle.
pub open spec fn aged(pending: Seq<Option<PendingTransition>>) -> Seq<Option<PendingTransition>> {
    Seq::new(pending.len(), |z: int|
        match pending[z] {
            Some(p) => Some(PendingTransition { gap_candles: (p.gap_candles + 1) as usize }),
            None => None,
        })
}

/// No departure waiting.
pub open spec fn none_pending(n: nat) -> Seq<Option<PendingTransition>> {
    Seq::new(n, |z: int| None)
}

/// The replay state after one more candle, given the zones it touched.
pub open spec fn step(ids: Seq<usize>, m: RunModel, row: Seq<bool>) -> RunModel {
    let n = ids.len() as int;
    let marked = marked_pending(m.active, m.pending, row);
    let fh = first_hit(row, n);
    RunModel {
        active: advanced_runs(m.active, row),
        pending: aged(if fh is Some { none_pending(m.active.len()) } else { marked }),
        runs: m.runs + ended_runs(m.active, row, n),
        transitions: match fh {
            Some(f) => m.transitions + departures(ids, marked, ids[f as int], n),
            None => m.transitions,
        },
        candles_in_zones: if fh is Some { m.candles_in_zones + 1 } else { m.candles_in_zones },
        total_candles: m.total_candles + 1,
    }
}

/// The state before any candle.
pub open spec fn start(n: nat) -> RunModel {
    RunModel {
        active: Seq::new(n, |z: int| 0usize),
        pending: none_pending(n),
        runs: Seq::empty(),
        transitions: Seq::empty(),
        candles_in_zones: 0,
        total_candles: 0,
    }
}

/// The state after replaying the candles of `history`, oldest first.
pub open spec fn replay(ids: Seq<usize>, history: Seq<Seq<bool>>) -> RunModel
    decreases history.len(),
{
    if history.len() == 0 {
        start(ids.len())
    } else {
        step(ids, replay(ids, history.drop_last()), history.last())
    }
}

/// The runs still in progress among the first `n` zones, in zone order.
pub open spec fn final_runs(active: Seq<usize>, n: int) -> Seq<usize>
    decreases n,
{
    if n <= 0 {
        Seq::empty()
    } else {
        let earlier = final_runs(active, n - 1);
        if active[n - 1] > 0 {
            earlier.push(active[n - 1])
        } else {
            earlier
        }
    }
}

/// Pending departures once the runs still in progress are closed.
pub open spec fn closed_pending(active: Seq<usize>, pending: Seq<Option<PendingTransition>>) -> Seq<Option<PendingTransition>> {
    Seq::new(active.len(), |z: int|
        if active[z] > 0 { Some(PendingTransition { gap_candles: 0 }) } else { pending[z] })
}

/// The departures of the first `n` zones that the data ended before.
pub open spec fn exits(ids: Seq<usize>, pending: Seq<Option<PendingTransition>>, n: int) -> Seq<TransitionRecord>
    decreases n,
{
    if n <= 0 {
        Seq::empty()
    } else {
        let earlier = exits(ids, pending, n - 1);
        match pending[n - 1] {
            Some(p) => earlier.push(TransitionRecord { from_zone_id: ids[n - 1], to_zone_id: None, gap_candles: p.gap_candles }),
            None => earlier,
        }
    }
}

/// Every run length once the replay is over, the open runs last.
pub open spec fn finished_runs(ids: Seq<usize>, m: RunModel) -> Seq<usize> {
    m.runs + final_runs(m.active, ids.len() as int)
}

/// Every departure once the replay is over, those without destination last.
pub open spec fn finished_transitions(ids: Seq<usize>, m: RunModel) -> Seq<TransitionRecord> {
    m.transitions + exits(ids, closed_pending(m.active, m.pending), ids.len() as int)
}

/// The views of the rows of a hit matrix.
pub open spec fn rows_of(matrix: Seq<Vec<bool>>) -> Seq<Seq<bool>> {
    Seq::new(matrix.len(), |i: int| matrix[i]@)
}

/// What a replay found.
pub struct ZoneRunSummary {
    /// Candles replayed.
    pub total_candles: usize,
    /// Candles that touched at least one zone.
    pub candles_in_zones: usize,
    /// Lengths of every run of consecutive candles in one zone.
    pub run_lengths: Vec<usize>,
    /// Every departure from a zone.
    pub transitions: Vec<TransitionRecord>,
}

/// Sum of a sequence of counts.
pub open spec fn seq_sum(s: Seq<usize>) -> nat
    decreases s.len(),
{
    if s.len() == 0 {
        0
    } else {
        seq_sum(s.drop_last()) + s.last() as nat
    }
}

/// How many of the first `n` zones the candle touched.
pub open spec fn hit_count(row: Seq<bool>, n: int) -> nat
    decreases n,
{
    if n <= 0 {
        0
    } else {
        hit_count(row, n - 1) + if hit_at(row, n - 1) { 1nat } else { 0nat }
    }
}

/// Zone touches over a whole history: each candle counts once per zone.
pub open spec fn total_hits(history: Seq<Seq<bool>>, n: int) -> nat
    decreases history.len(),
{
    if history.len() == 0 {
        0
    } else {
        total_hits(history.drop_last(), n) + hit_count(history.last(), n)
    }
}

/// The candle touched one of the first `n` zones.
pub open spec fn touches_any(row: Seq<bool>, n: int) -> bool {
    exists|z: int| 0 <= z < n && #[trigger] hit_at(row, z)
}

/// How many candles of the history touched one of the first `n` zones.
pub open spec fn candles_touching(history: Seq<Seq<bool>>, n: int) -> nat
    decreases history.len(),
{
    if history.len() == 0 {
        0
    } else {
        candles_touching(history.drop_last(), n) + if touches_any(history.last(), n) { 1nat } else { 0nat }
    }
}

/// How many of the latest candles in a row touched zone `z`.
pub open spec fn streak(history: Seq<Seq<bool>>, z: int) -> nat
    decreases history.len(),
{
    if history.len() == 0 {
        0
    } else if hit_at(history.last(), z) {
        streak(history.drop_last(), z) + 1
    } else {
        0
    }
}

proof fn lemma_sum_append(a: Seq<usize>, b: Seq<usize>)
    ensures
        seq_sum(a + b) == seq_sum(a) + seq_sum(b),
    decreases b.len(),
{
    if b.len() == 0 {
        assert(a + b =~= a);
    } else {
        lemma_sum_append(a, b.drop_last());
        assert((a + b).drop_last() =~= a + b.drop_last());
    }
}

proof fn lemma_sum_push(a: Seq<usize>, x: usize)
    ensures
        seq_sum(a.push(x)) == seq_sum(a) + x,
{
    assert(a.push(x).drop_last() =~= a);
}

proof fn lemma_sum_take_step(s: Seq<usize>, n: int)
    requires
        0 <= n < s.len(),
    ensures
        seq_sum(s.take(n + 1)) == seq_sum(s.take(n)) + s[n],
{
    assert(s.take(n + 1).drop_last() =~= s.take(n));
}

proof fn lemma_sum_zeros(n: nat)
    ensures
        seq_sum(Seq::new(n, |z: int| 0usize)) == 0,
    decreases n,
{
    if n > 0 {
        lemma_sum_zeros((n - 1) as nat);
        assert(Seq::new(n, |z: int| 0usize).drop_last() =~= Seq::new((n - 1) as nat, |z: int| 0usize));
    }
}

/// One candle moves each touched zone's count into the runs in progress,
/// and the runs it closes into the closed runs.
proof fn lemma_step_conserves(active: Seq<usize>, row: Seq<bool>, n: int)
    requires
        0 <= n <= active.len(),
        forall|z: int| 0 <= z < active.len() ==> #[trigger] active[z] < usize::MAX,
    ensures
        seq_sum(ended_runs(active, row, n)) + seq_sum(advanced_runs(active, row).take(n))
            == seq_sum(active.take(n)) + hit_count(row, n),
    decreases n,
{
    let adv = advanced_runs(active, row);
    if n == 0 {
        assert(adv.take(0) =~= Seq::<usize>::empty());
        assert(active.take(0) =~= Seq::<usize>::empty());
    } else {
        lemma_step_conserves(active, row, n - 1);
        lemma_sum_take_step(adv, n - 1);
        lemma_sum_take_step(active, n - 1);
        if run_ends(active, row, n - 1) {
            lemma_sum_push(ended_runs(active, row, n - 1), active[n - 1]);
        }
    }
}

proof fn lemma_first_hit(row: Seq<bool>, n: int)
    requires
        0 <= n <= usize::MAX,
    ensures
        first_hit(row, n) is Some <==> touches_any(row, n),
        first_hit(row, n) matches Some(f) ==> f < n && hit_at(row, f as int)
            && forall|z: int| 0 <= z < f ==> !#[trigger] hit_at(row, z),
    decreases n,
{
    if n > 0 {
        lemma_first_hit(row, n - 1);
        if touches_any(row, n - 1) {
            let w = choose|z: int| 0 <= z < n - 1 && #[trigger] hit_at(row, z);
            assert(0 <= w < n && hit_at(row, w));
        }
        if hit_at(row, n - 1) {
            assert(0 <= n - 1 < n && hit_at(row, n - 1));
        }
        if touches_any(row, n) {
            let w = choose|z: int| 0 <= z < n && #[trigger] hit_at(row, z);
            if w < n - 1 {
                assert(touches_any(row, n - 1));
            }
        }
    }
}

/// The shape of a replay: one entry per zone, one count per candle, and
/// runs no longer than the history.
proof fn lemma_replay_shape(ids: Seq<usize>, history: Seq<Seq<bool>>)
    requires
        history.len() <= usize::MAX,
    ensures
        ({
            let m = replay(ids, history);
            &&& m.active.len() == ids.len()
            &&& m.pending.len() == ids.len()
            &&& m.total_candles == history.len()
            &&& forall|z: int| 0 <= z < ids.len() ==> #[trigger] m.active[z] <= history.len()
        }),
    decreases history.len(),
{
    if history.len() > 0 {
        lemma_replay_shape(ids, history.drop_last());
    }
}

/// Every touch of a zone by a candle is counted once, either in a closed
/// run or in the run still in progress.
pub proof fn lemma_zone_hits_are_conserved(ids: Seq<usize>, history: Seq<Seq<bool>>)
    requires
        history.len() <= usize::MAX,
    ensures
        seq_sum(replay(ids, history).runs) + seq_sum(replay(ids, history).active)
            == total_hits(history, ids.len() as int),
    decreases history.len(),
{
    let n = ids.len() as int;
    let m = replay(ids, history);
    lemma_replay_shape(ids, history);
    if history.len() == 0 {
        lemma_sum_zeros(ids.len());
        assert(m.runs =~= Seq::<usize>::empty());
    } else {
        let h = history.drop_last();
        let prev = replay(ids, h);
        let row = history.last();
        lemma_zone_hits_are_conserved(ids, h);
        lemma_replay_shape(ids, h);
        lemma_step_conserves(prev.active, row, n);
        lemma_sum_append(prev.runs, ended_runs(prev.active, row, n));
        assert(advanced_runs(prev.active, row).take(n) =~= m.active);
        assert(prev.active.take(n) =~= prev.active);
    }
}

proof fn lemma_final_runs_sum(active: Seq<usize>, n: int)
    requires
        0 <= n <= active.len(),
    ensures
        seq_sum(final_runs(active, n)) == seq_sum(active.take(n)),
    decreases n,
{
    if n == 0 {
        assert(active.take(0) =~= Seq::<usize>::empty());
    } else {
        lemma_final_runs_sum(active, n - 1);
        lemma_sum_take_step(active, n - 1);
        if active[n - 1] > 0 {
            lemma_sum_push(final_runs(active, n - 1), active[n - 1]);
        }
    }
}

/// Once the replay is finished, the run lengths add up to the number of
/// times a candle touched a zone.
pub proof fn lemma_finished_runs_cover_hits(ids: Seq<usize>, history: Seq<Seq<bool>>)
    requires
        history.len() <= usize::MAX,
    ensures
        seq_sum(finished_runs(ids, replay(ids, history))) == total_hits(history, ids.len() as int),
{
    let m = replay(ids, history);
    lemma_replay_shape(ids, history);
    lemma_zone_hits_are_conserved(ids, history);
    lemma_final_runs_sum(m.active, ids.len() as int);
    assert(m.active.take(ids.len() as int) =~= m.active);
    lemma_sum_append(m.runs, final_runs(m.active, ids.len() as int));
}

/// The run in progress of a zone is the number of latest candles in a row
/// that touched it.
pub proof fn lemma_run_in_progress_is_streak(ids: Seq<usize>, history: Seq<Seq<bool>>, z: int)
    requires
        history.len() <= usize::MAX,
        0 <= z < ids.len(),
    ensures
        replay(ids, history).active[z] == streak(history, z),
    decreases history.len(),
{
    if history.len() > 0 {
        lemma_run_in_progress_is_streak(ids, history.drop_last(), z);
        lemma_replay_shape(ids, history.drop_last());
    }
}

/// The candles in zones are those that touched at least one zone, and
/// they are among the candles replayed.
pub proof fn lemma_candles_in_zones_counted(ids: Seq<usize>, history: Seq<Seq<bool>>)
    requires
        history.len() <= usize::MAX,
        ids.len() <= usize::MAX,
    ensures
        replay(ids, history).candles_in_zones == candles_touching(history, ids.len() as int),
        replay(ids, history).candles_in_zones <= replay(ids, history).total_candles,
    decreases history.len(),
{
    lemma_replay_shape(ids, history);
    if history.len() > 0 {
        lemma_candles_in_zones_counted(ids, history.drop_last());
        lemma_replay_shape(ids, history.drop_last());
        lemma_first_hit(history.last(), ids.len() as int);
    }
}

/// Replays candles against a list of sticky zones.
pub struct ZoneRunTracker {
    pub zone_ids: Vec<usize>,
    pub active_runs: Vec<usize>,
    pub pending_transitions: Vec<Option<PendingTransition>>,
    pub run_lengths: Vec<usize>,
    pub transitions: Vec<TransitionRecord>,
    pub candles_in_zones: usize,
    pub total_candles: usize,
}

impl View for ZoneRunTracker {
    type V = RunModel;

    open spec fn view(&self) -> RunModel {
        RunModel {
            active: self.active_runs@,
            pending: self.pending_transitions@,
            runs: self.run_lengths@,
            transitions: self.transitions@,
            candles_in_zones: self.candles_in_zones as nat,
            total_candles: self.total_candles as nat,
        }
    }
}

impl ZoneRunTracker {
    /// The per-zone vectors match the zone list, and every count is bounded
    /// by the number of candles replayed.
    pub open spec fn wf(&self) -> bool {
        &&& self.active_runs@.len() == self.zone_ids@.len()
        &&& self.pending_transitions@.len() == self.zone_ids@.len()
        &&& self.candles_in_zones <= self.total_candles
        &&& forall|z: int| 0 <= z < self.active_runs@.len() ==> #[trigger] self.active_runs@[z] <= self.total_candles
        &&& forall|z: int| 0 <= z < self.pending_transitions@.len() ==>
            (#[trigger] self.pending_transitions@[z] matches Some(p) ==> p.gap_candles <= self.total_candles)
    }

    /// A tracker for the given zones, before any candle.
    pub fn new(zone_ids: Vec<usize>) -> (t: Self)
        ensures
            t.wf(),
            t.zone_ids@ == zone_ids@,
            t@ == start(zone_ids@.len()),
    {
        let n = zone_ids.len();
        let mut active_runs: Vec<usize> = Vec::new();
        let mut pending_transitions: Vec<Option<PendingTransition>> = Vec::new();
        let mut i: usize = 0;
        while i < n
            invariant
                i <= n,
                active_runs@ =~= Seq::new(i as nat, |z: int| 0usize),
                pending_transitions@ =~= none_pending(i as nat),
            decreases n - i,
        {
            active_runs.push(0);
            pending_transitions.push(None);
            i = i + 1;
        }
        let t = ZoneRunTracker {
            zone_ids,
            active_runs,
            pending_transitions,
            run_lengths: Vec::new(),
            transitions: Vec::new(),
            candles_in_zones: 0,
            total_candles: 0,
        };
        assert(t@.runs =~= Seq::<usize>::empty());
        assert(t@.transitions =~= Seq::<TransitionRecord>::empty());
        t
    }

    /// Replays one candle; `hits[z]` says whether its body touched zone `z`.
    pub fn process_candle(&mut self, hits: &Vec<bool>)
        requires
            old(self).wf(),
            old(self).total_candles < usize::MAX,
        ensures
            final(self).wf(),
            final(self).zone_ids@ == old(self).zone_ids@,
            final(self)@ == step(old(self).zone_ids@, old(self)@, hits@),
    {
        let ghost m = self@;
        let ghost ids = self.zone_ids@;
        let ghost row = hits@;
        let n = self.zone_ids.len();
        self.total_candles = self.total_candles + 1;
        let mut candle_counted = false;
        let mut first: Option<usize> = None;
        let mut z: usize = 0;
        while z < n
            invariant
                n == ids.len(),
                row == hits@,
                z <= n,
                self.zone_ids@ == ids,
                self.total_candles == m.total_candles + 1,
                self.candles_in_zones == m.candles_in_zones,
                self.transitions@ == m.transitions,
                m.active.len() == n,
                m.pending.len() == n,
                self.active_runs@.len() == n,
                self.pending_transitions@.len() == n,
                forall|k: int| 0 <= k < n ==> #[trigger] m.active[k] < self.total_candles,
                forall|k: int| 0 <= k < n ==> (#[trigger] m.pending[k] matches Some(p) ==> p.gap_candles < self.total_candles),
                forall|k: int| 0 <= k < z ==> #[trigger] self.active_runs@[k] == advanced_runs(m.active, row)[k],
                forall|k: int| z <= k < n ==> #[trigger] self.active_runs@[k] == m.active[k],
                forall|k: int| 0 <= k < z ==> #[trigger] self.pending_transitions@[k] == marked_pending(m.active, m.pending, row)[k],
                forall|k: int| z <= k < n ==> #[trigger] self.pending_transitions@[k] == m.pending[k],
                self.run_lengths@ == m.runs + ended_runs(m.active, row, z as int),
                first == first_hit(row, z as int),
                candle_counted == first is Some,
                first matches Some(f) ==> f < z,
            decreases n - z,
        {
            let hit = z < hits.len() && hits[z];
            let a = self.active_runs[z];
            assert(a == m.active[z as int]);
            assert(hit == hit_at(row, z as int));
            if hit {
                candle_counted = true;
                self.active_runs.set(z, a + 1);
                if first.is_none() {
                    first = Some(z);
                }
            } else if a > 0 {
                self.run_lengths.push(a);
                self.active_runs.set(z, 0);
                self.pending_transitions.set(z, Some(PendingTransition { gap_candles: 0 }));
            }
            proof {
                assert(self.active_runs@[z as int] == advanced_runs(m.active, row)[z as int]);
                assert(self.pending_transitions@[z as int] == marked_pending(m.active, m.pending, row)[z as int]);
                assert(ended_runs(m.active, row, z + 1) == (if run_ends(m.active, row, z as int) {
                    ended_runs(m.active, row, z as int).push(m.active[z as int])
                } else {
                    ended_runs(m.active, row, z as int)
                }));
            }
            z = z + 1;
        }
        assert(self.active_runs@ =~= advanced_runs(m.active, row));
        let ghost marked = marked_pending(m.active, m.pending, row);
        assert(self.pending_transitions@ =~= marked);
        if candle_counted {
            self.candles_in_zones = self.candles_in_zones + 1;
        }
        if let Some(f) = first {
            let to_zone_id = self.zone_ids[f];
            let mut k: usize = 0;
            while k < n
                invariant
                    n == ids.len(),
                    k <= n,
                    f < n,
                    to_zone_id == ids[f as int],
                    first == Some(f),
                    self.zone_ids@ == ids,
                    self.total_candles == m.total_candles + 1,
                    self.active_runs@ == advanced_runs(m.active, row),
                    self.run_lengths@ == m.runs + ended_runs(m.active, row, n as int),
                    self.candles_in_zones == (if first is Some { m.candles_in_zones + 1 } else { m.candles_in_zones }),

                    marked.len() == n,
                    self.pending_transitions@.len() == n,
                    forall|j: int| 0 <= j < k ==> #[trigger] self.pending_transitions@[j] is None,
                    forall|j: int| k <= j < n ==> #[trigger] self.pending_transitions@[j] == marked[j],
                    self.transitions@ == m.transitions + departures(ids, marked, to_zone_id, k as int),
                decreases n - k,
            {
                let entry = self.pending_transitions[k];
                if let Some(p) = entry {
                    self.transitions.push(TransitionRecord {
                        from_zone_id: self.zone_ids[k],
                        to_zone_id: Some(to_zone_id),
                        gap_candles: p.gap_candles,
                    });
                    self.pending_transitions.set(k, None);
                }
                proof {
                    assert(departures(ids, marked, to_zone_id, k + 1) == (match marked[k as int] {
                        Some(p) => departures(ids, marked, to_zone_id, k as int).push(TransitionRecord { from_zone_id: ids[k as int], to_zone_id: Some(to_zone_id), gap_candles: p.gap_candles }),
                        None => departures(ids, marked, to_zone_id, k as int),
                    }));
                }
                k = k + 1;
            }
            assert(self.pending_transitions@ =~= none_pending(n as nat));
        }
        assert(first is Some ==> self.pending_transitions@ == none_pending(n as nat));
        assert(first is None ==> self.pending_transitions@ == marked);
        assert(first is None ==> self.transitions@ == m.transitions);
        let ghost before_aging = self.pending_transitions@;
        let mut k: usize = 0;
        while k < n
            invariant
                k <= n,
                first matches Some(f) ==> f < n,
                n == ids.len(),
                before_aging.len() == n,
                self.pending_transitions@.len() == n,
                self.zone_ids@ == ids,
                self.transitions@ == (match first {
                    Some(f) => m.transitions + departures(ids, marked, ids[f as int], n as int),
                    None => m.transitions,
                }),
                self.total_candles == m.total_candles + 1,
                self.active_runs@ == advanced_runs(m.active, row),
                self.run_lengths@ == m.runs + ended_runs(m.active, row, n as int),
                self.candles_in_zones == (if first is Some { m.candles_in_zones + 1 } else { m.candles_in_zones }),

                forall|j: int| 0 <= j < n ==> (#[trigger] before_aging[j] matches Some(p) ==> p.gap_candles < self.total_candles),
                forall|j: int| 0 <= j < k ==> #[trigger] self.pending_transitions@[j] == aged(before_aging)[j],
                forall|j: int| k <= j < n ==> #[trigger] self.pending_transitions@[j] == before_aging[j],
            decreases n - k,
        {
            let entry = self.pending_transitions[k];
            if let Some(p) = entry {
                self.pending_transitions.set(k, Some(PendingTransition { gap_candles: p.gap_candles + 1 }));
            }
            k = k + 1;
        }
        assert(self.pending_transitions@ =~= aged(before_aging));
        assert(self.run_lengths@ == m.runs + ended_runs(m.active, row, n as int));
    }

    /// Closes the runs still in progress and records the departures that
    /// found no destination.
    pub fn finish(self) -> (s: ZoneRunSummary)
        requires
            self.wf(),
        ensures
            s.total_candles == self.total_candles,
            s.candles_in_zones == self.candles_in_zones,
            s.run_lengths@ == finished_runs(self.zone_ids@, self@),
            s.transitions@ == finished_transitions(self.zone_ids@, self@),
    {
        let ghost m = self@;
        let ghost ids = self.zone_ids@;
        let ZoneRunTracker { zone_ids, active_runs, pending_transitions, run_lengths, transitions, candles_in_zones, total_candles } = self;
        let mut pending_transitions = pending_transitions;
        let mut run_lengths = run_lengths;
        let mut transitions = transitions;
        let n = zone_ids.len();
        let mut z: usize = 0;
        while z < n
            invariant
                n == ids.len(),
                z <= n,
                zone_ids@ == ids,
                active_runs@ == m.active,
                m.active.len() == n,
                m.pending.len() == n,
                pending_transitions@.len() == n,
                forall|k: int| 0 <= k < z ==> #[trigger] pending_transitions@[k] == closed_pending(m.active, m.pending)[k],
                forall|k: int| z <= k < n ==> #[trigger] pending_transitions@[k] == m.pending[k],
                run_lengths@ == m.runs + final_runs(m.active, z as int),
            decreases n - z,
        {
            let run = active_runs[z];
            if run > 0 {
                run_lengths.push(run);
                pending_transitions.set(z, Some(PendingTransition { gap_candles: 0 }));
            }
            proof {
                assert(pending_transitions@[z as int] == closed_pending(m.active, m.pending)[z as int]);
            }
            z = z + 1;
        }
        let ghost closed = closed_pending(m.active, m.pending);
        assert(pending_transitions@ =~= closed);
        let mut k: usize = 0;
        while k < n
            invariant
                n == ids.len(),
                k <= n,
                zone_ids@ == ids,
                pending_transitions@ == closed,
                closed.len() == n,
                transitions@ == m.transitions + exits(ids, closed, k as int),
            decreases n - k,
        {
            if let Some(p) = pending_transitions[k] {
                transitions.push(TransitionRecord { from_zone_id: zone_ids[k], to_zone_id: None, gap_candles: p.gap_candles });
            }
            k = k + 1;
        }
        ZoneRunSummary { total_candles, candles_in_zones, run_lengths, transitions }
    }
}

/// Replays the candles of `candle_hits` (row `i` says which zones candle
/// `i` touched) against the zones of `zone_ids`. Without zones or without
/// candles there is nothing to measure.
pub fn zone_run_summary(zone_ids: Vec<usize>, candle_hits: &Vec<Vec<bool>>) -> (r: Option<ZoneRunSummary>)
    ensures
        r is None <==> (zone_ids@.len() == 0 || candle_hits@.len() == 0),
        r matches Some(s) ==> {
            let m = replay(zone_ids@, rows_of(candle_hits@));
            &&& s.total_candles == m.total_candles
            &&& s.candles_in_zones == m.candles_in_zones
            &&& s.run_lengths@ == finished_runs(zone_ids@, m)
            &&& s.transitions@ == finished_transitions(zone_ids@, m)
        },
{
    if zone_ids.len() == 0 || candle_hits.len() == 0 {
        return None;
    }
    let ghost ids = zone_ids@;
    let ghost rows = rows_of(candle_hits@);
    let mut tracker = ZoneRunTracker::new(zone_ids);
    let mut i: usize = 0;
    while i < candle_hits.len()
        invariant
            i <= candle_hits@.len(),
            rows == rows_of(candle_hits@),
            tracker.wf(),
            tracker.zone_ids@ == ids,
            tracker.total_candles == i,
            tracker@ == replay(ids, rows.take(i as int)),
        decreases candle_hits@.len() - i,
    {
        tracker.process_candle(&candle_hits[i]);
        proof {
            assert(rows.take(i + 1).drop_last() =~= rows.take(i as int));
            assert(rows.take(i + 1).last() == candle_hits@[i as int]@);
        }
        i = i + 1;
    }
    assert(rows.take(i as int) =~= rows);
    Some(tracker.finish())
}

/// The indices `start, start + 1, ..., end - 1` (none when `end <= start`).
pub open spec fn range_indices(start: int, end: int) -> Seq<usize> {
    Seq::new(if end > start { (end - start) as nat } else { 0nat }, |k: int| (start + k) as usize)
}

/// The candles of the non-empty slice ranges, each range cut at the
/// number of candles available, in the order of the ranges.
pub open spec fn slice_indices(available: int, ranges: Seq<(usize, usize)>) -> Seq<usize>
    decreases ranges.len(),
{
    if ranges.len() == 0 {
        Seq::empty()
    } else {
        let earlier = slice_indices(available, ranges.drop_last());
        let r = ranges.last();
        if r.0 < r.1 {
            earlier + range_indices(r.0 as int, if r.1 < available { r.1 as int } else { available })
        } else {
            earlier
        }
    }
}

/// The candles inspected: every candle when there are no slice ranges,
/// otherwise those of the ranges.
pub open spec fn efficacy_indices(available: int, ranges: Seq<(usize, usize)>) -> Seq<usize> {
    if ranges.len() == 0 {
        range_indices(0, available)
    } else {
        slice_indices(available, ranges)
    }
}

/// The indices of the candles to inspect, in order.
pub fn candle_indices(available_candles: usize, slice_ranges: &Vec<(usize, usize)>) -> (v: Vec<usize>)
    ensures
        v@ == efficacy_indices(available_candles as int, slice_ranges@),
        forall|k: int| 0 <= k < v@.len() ==> #[trigger] v@[k] < available_candles,
{
    let mut v: Vec<usize> = Vec::new();
    if slice_ranges.len() == 0 {
        let mut idx: usize = 0;
        while idx < available_candles
            invariant
                idx <= available_candles,
                v@ =~= range_indices(0, idx as int),
            decreases available_candles - idx,
        {
            v.push(idx);
            idx = idx + 1;
        }
        return v;
    }
    let mut r: usize = 0;
    while r < slice_ranges.len()
        invariant
            r <= slice_ranges@.len(),
            v@ == slice_indices(available_candles as int, slice_ranges@.take(r as int)),
            forall|k: int| 0 <= k < v@.len() ==> #[trigger] v@[k] < available_candles,
        decreases slice_ranges@.len() - r,
    {
        let (start, end) = slice_ranges[r];
        let ghost before = v@;
        proof {
            assert(slice_ranges@.take(r + 1).drop_last() =~= slice_ranges@.take(r as int));
            assert(slice_ranges@.take(r + 1).last() == (start, end));
        }
        if start < end {
            let bounded_end = if end < available_candles { end } else { available_candles };
            let mut idx: usize = start;
            while idx < bounded_end
                invariant
                    start <= end,
                    bounded_end <= available_candles,
                    start <= idx || bounded_end <= start,
                    idx <= bounded_end || bounded_end <= start,
                    idx == start || start < bounded_end,
                    v@ =~= before + range_indices(start as int, if idx > start { idx as int } else { start as int }),
                    forall|k: int| 0 <= k < v@.len() ==> #[trigger] v@[k] < available_candles,
                decreases bounded_end - idx,
            {
                v.push(idx);
                idx = idx + 1;
            }
            assert(v@ =~= before + range_indices(start as int, bounded_end as int));
        }
        r = r + 1;
    }
    assert(slice_ranges@.take(r as int) =~= slice_ranges@);
    v
}

/// The departures that share an origin and a destination, with their gaps
/// in the order they were recorded.
pub struct TransitionGroup {
    pub from_zone_id: usize,
    pub to_zone_id: Option<usize>,
    pub gaps: Vec<usize>,
}

/// Where a departure started and ended.
pub open spec fn record_key(r: TransitionRecord) -> (usize, Option<usize>) {
    (r.from_zone_id, r.to_zone_id)
}

/// The key of a group.
pub open spec fn group_key(g: TransitionGroup) -> (usize, Option<usize>) {
    (g.from_zone_id, g.to_zone_id)
}

/// The order of destinations: no destination first, then by zone id.
pub open spec fn destination_less(a: Option<usize>, b: Option<usize>) -> bool {
    match (a, b) {
        (None, Some(_)) => true,
        (Some(x), Some(y)) => x < y,
        _ => false,
    }
}

/// The order of keys: by origin, then by destination.
pub open spec fn key_less(a: (usize, Option<usize>), b: (usize, Option<usize>)) -> bool {
    a.0 < b.0 || (a.0 == b.0 && destination_less(a.1, b.1))
}

/// The gaps of the departures with the given key, in order.
pub open spec fn gaps_for(records: Seq<TransitionRecord>, key: (usize, Option<usize>)) -> Seq<usize>
    decreases records.len(),
{
    if records.len() == 0 {
        Seq::empty()
    } else {
        let earlier = gaps_for(records.drop_last(), key);
        if record_key(records.last()) == key {
            earlier.push(records.last().gap_candles)
        } else {
            earlier
        }
    }
}

/// `groups` holds one group per key that occurs in `records`, in
/// increasing key order, each with the gaps of its departures.
pub open spec fn groups_summarize(groups: Seq<TransitionGroup>, records: Seq<TransitionRecord>) -> bool {
    &&& forall|i: int, j: int| 0 <= i < j < groups.len() ==> key_less(group_key(#[trigger] groups[i]), group_key(#[trigger] groups[j]))
    &&& forall|i: int| 0 <= i < groups.len() ==>
        (#[trigger] groups[i]).gaps@ == gaps_for(records, group_key(groups[i])) && groups[i].gaps@.len() > 0
    &&& forall|k: (usize, Option<usize>)| #[trigger] gaps_for(records, k).len() > 0 ==>
        exists|i: int| 0 <= i < groups.len() && group_key(#[trigger] groups[i]) == k
}

proof fn lemma_key_order(a: (usize, Option<usize>), b: (usize, Option<usize>), c: (usize, Option<usize>))
    ensures
        !key_less(a, a),
        key_less(a, b) && key_less(b, c) ==> key_less(a, c),
        a == b || key_less(a, b) || key_less(b, a),
{
}

proof fn lemma_gaps_for_step(records: Seq<TransitionRecord>, i: int, key: (usize, Option<usize>))
    requires
        0 <= i < records.len(),
    ensures
        gaps_for(records.take(i + 1), key) == if record_key(records[i]) == key {
            gaps_for(records.take(i), key).push(records[i].gap_candles)
        } else {
            gaps_for(records.take(i), key)
        },
{
    assert(records.take(i + 1).drop_last() =~= records.take(i));
}

/// Each departure occurs among the groups of its key.
pub proof fn lemma_every_record_grouped(groups: Seq<TransitionGroup>, records: Seq<TransitionRecord>, j: int)
    requires
        groups_summarize(groups, records),
        0 <= j < records.len(),
    ensures
        exists|i: int| 0 <= i < groups.len() && group_key(#[trigger] groups[i]) == record_key(records[j]),
    decreases records.len(),
{
    lemma_gaps_for_nonempty(records, j);
}

proof fn lemma_gaps_for_nonempty(records: Seq<TransitionRecord>, j: int)
    requires
        0 <= j < records.len(),
    ensures
        gaps_for(records, record_key(records[j])).len() > 0,
    decreases records.len(),
{
    if j < records.len() - 1 {
        lemma_gaps_for_nonempty(records.drop_last(), j);
        assert(records.drop_last()[j] == records[j]);
    }
}

/// Whether the key `(a_from, a_to)` comes before `(b_from, b_to)`.
fn key_precedes(a_from: usize, a_to: Option<usize>, b_from: usize, b_to: Option<usize>) -> (b: bool)
    ensures
        b == key_less((a_from, a_to), (b_from, b_to)),
{
    if a_from != b_from {
        return a_from < b_from;
    }
    match (a_to, b_to) {
        (None, Some(_)) => true,
        (Some(x), Some(y)) => x < y,
        _ => false,
    }
}

/// Groups the departures by origin and destination, in increasing key
/// order.
pub fn group_transitions(records: &Vec<TransitionRecord>) -> (groups: Vec<TransitionGroup>)
    ensures
        groups_summarize(groups@, records@),
{
    let mut groups: Vec<TransitionGroup> = Vec::new();
    let mut i: usize = 0;
    while i < records.len()
        invariant
            i <= records@.len(),
            groups_summarize(groups@, records@.take(i as int)),
        decreases records@.len() - i,
    {
        let r = records[i];
        let ghost rk = record_key(r);
        let ghost old_groups = groups@;
        let ghost prefix = records@.take(i as int);
        let ghost next = records@.take(i + 1);
        let mut p: usize = 0;
        while p < groups.len() && key_precedes(groups[p].from_zone_id, groups[p].to_zone_id, r.from_zone_id, r.to_zone_id)
            invariant
                p <= groups@.len(),
                rk == record_key(r),
                groups@ == old_groups,
                forall|q: int| 0 <= q < p ==> key_less(group_key(#[trigger] groups@[q]), rk),
            decreases groups@.len() - p,
        {
            p = p + 1;
        }
        if p < groups.len() && groups[p].from_zone_id == r.from_zone_id && groups[p].to_zone_id == r.to_zone_id {
            let mut g = groups.remove(p);
            g.gaps.push(r.gap_candles);
            groups.insert(p, g);
            proof {
                assert forall|q: int| 0 <= q < groups@.len() implies
                    (#[trigger] groups@[q]).gaps@ == gaps_for(next, group_key(groups@[q])) && groups@[q].gaps@.len() > 0 by {
                    lemma_gaps_for_step(records@, i as int, group_key(groups@[q]));
                    if q != p {
                        assert(groups@[q] == old_groups[q]);
                        if group_key(old_groups[q]) == rk {
                            assert(key_less(group_key(old_groups[q]), group_key(old_groups[p as int]))
                                || key_less(group_key(old_groups[p as int]), group_key(old_groups[q])));
                            lemma_key_order(rk, rk, rk);
                        }
                    }
                }
                assert forall|k: (usize, Option<usize>)| #[trigger] gaps_for(next, k).len() > 0 implies
                    exists|q: int| 0 <= q < groups@.len() && group_key(#[trigger] groups@[q]) == k by {
                    lemma_gaps_for_step(records@, i as int, k);
                    if k == rk {
                        assert(group_key(groups@[p as int]) == k);
                    } else {
                        let q = choose|q: int| 0 <= q < old_groups.len() && group_key(#[trigger] old_groups[q]) == k;
                        assert(group_key(groups@[q]) == k);
                    }
                }
            }
        } else {
            let mut gaps: Vec<usize> = Vec::new();
            gaps.push(r.gap_candles);
            groups.insert(p, TransitionGroup { from_zone_id: r.from_zone_id, to_zone_id: r.to_zone_id, gaps });
            proof {
                assert forall|q: int| 0 <= q < old_groups.len() implies group_key(#[trigger] old_groups[q]) != rk by {
                    if q >= p {
                        lemma_key_order(rk, group_key(old_groups[p as int]), group_key(old_groups[q]));
                    }
                }
                assert(gaps_for(prefix, rk).len() == 0);
                assert forall|a: int, b: int| 0 <= a < b < groups@.len() implies
                    key_less(group_key(#[trigger] groups@[a]), group_key(#[trigger] groups@[b])) by {
                    if p < groups@.len() - 1 {
                        lemma_key_order(rk, group_key(old_groups[p as int]), rk);
                    }
                    if a < p && b > p {
                        lemma_key_order(group_key(groups@[a]), rk, group_key(groups@[b]));
                        lemma_key_order(rk, group_key(old_groups[p as int]), group_key(groups@[b]));
                    }
                    if a == p as int && b > p + 1 {
                        lemma_key_order(rk, group_key(old_groups[p as int]), group_key(groups@[b]));
                    }
                }
                assert forall|q: int| 0 <= q < groups@.len() implies
                    (#[trigger] groups@[q]).gaps@ == gaps_for(next, group_key(groups@[q])) && groups@[q].gaps@.len() > 0 by {
                    lemma_gaps_for_step(records@, i as int, group_key(groups@[q]));
                    if q == p {
                        assert(gaps_for(prefix, rk) =~= Seq::<usize>::empty());
                    }
                }
                assert forall|k: (usize, Option<usize>)| #[trigger] gaps_for(next, k).len() > 0 implies
                    exists|q: int| 0 <= q < groups@.len() && group_key(#[trigger] groups@[q]) == k by {
                    lemma_gaps_for_step(records@, i as int, k);
                    if k == rk {
                        assert(group_key(groups@[p as int]) == k);
                    } else {
                        let q = choose|q: int| 0 <= q < old_groups.len() && group_key(#[trigger] old_groups[q]) == k;
                        if q < p {
                            assert(group_key(groups@[q]) == k);
                        } else {
                            assert(group_key(groups@[q + 1]) == k);
                        }
                    }
                }
            }
        }
        i = i + 1;
    }
    assert(records@.take(i as int) =~= records@);
    groups
}

/// The counts in increasing order.
pub open spec fn is_sorted(s: Seq<usize>) -> bool {
    forall|i: int, j: int| 0 <= i <= j < s.len() ==> s[i] <= s[j]
}

proof fn lemma_insert_multiset(s: Seq<usize>, p: int, x: usize)
    requires
        0 <= p <= s.len(),
    ensures
        s.insert(p, x).to_multiset() =~= s.to_multiset().insert(x),
{
    broadcast use vstd::seq_lib::group_to_multiset_ensures;
    let t = s.insert(p, x);
    assert(t.remove(p) =~= s);
    assert(t[p] == x);
    assert(t.contains(x));
}

/// The counts sorted in increasing order (a permutation of `v`).
pub fn sorted_counts(v: &Vec<usize>) -> (r: Vec<usize>)
    ensures
        is_sorted(r@),
        r@.to_multiset() =~= v@.to_multiset(),
{
    broadcast use vstd::seq_lib::group_to_multiset_ensures;
    let mut r: Vec<usize> = Vec::new();
    let mut i: usize = 0;
    while i < v.len()
        invariant
            i <= v@.len(),
            is_sorted(r@),
            r@.to_multiset() =~= v@.take(i as int).to_multiset(),
        decreases v@.len() - i,
    {
        let x = v[i];
        let mut p: usize = 0;
        while p < r.len() && r[p] <= x
            invariant
                p <= r@.len(),
                i < v@.len(),
                x == v@[i as int],
                is_sorted(r@),
                r@.to_multiset() =~= v@.take(i as int).to_multiset(),
                forall|q: int| 0 <= q < p ==> #[trigger] r@[q] <= x,
            decreases r@.len() - p,
        {
            p = p + 1;
        }
        let ghost before = r@;
        r.insert(p, x);
        proof {
            lemma_insert_multiset(before, p as int, x);
            assert(v@.take(i + 1) =~= v@.take(i as int).push(x));
            assert(before.to_multiset() =~= v@.take(i as int).to_multiset());
            vstd::seq_lib::to_multiset_build(v@.take(i as int), x);
            assert(r@.to_multiset() =~= v@.take(i + 1).to_multiset());
            assert forall|a: int, b: int| 0 <= a <= b < r@.len() implies r@[a] <= r@[b] by {
                if a < p && b > p {
                    assert(r@[a] == before[a]);
                    assert(r@[b] == before[b - 1]);
                    assert(before[a] <= before[b - 1]);
                } else if a == p && b > p {
                    assert(r@[b] == before[b - 1]);
                } else if a < p && b == p {
                    assert(r@[a] == before[a]);
                } else if a > p {
                    assert(r@[a] == before[a - 1] && r@[b] == before[b - 1]);
                }
            }
        }
        i = i + 1;
    }
    assert(v@.take(i as int) =~= v@);
    r
}

/// How many of the counts are at most `limit`.
pub open spec fn count_at_most(s: Seq<usize>, limit: usize) -> nat
    decreases s.len(),
{
    if s.len() == 0 {
        0
    } else {
        count_at_most(s.drop_last(), limit) + if s.last() <= limit { 1nat } else { 0nat }
    }
}

/// Longest run that still counts as short, in candles.
pub const SHORT_RUN_MAX_CANDLES: usize = 2;

/// How many runs are short.
pub fn count_short_runs(run_lengths: &Vec<usize>) -> (c: usize)
    ensures
        c == count_at_most(run_lengths@, SHORT_RUN_MAX_CANDLES),
        c <= run_lengths@.len(),
{
    let mut c: usize = 0;
    let mut i: usize = 0;
    while i < run_lengths.len()
        invariant
            i <= run_lengths@.len(),
            c == count_at_most(run_lengths@.take(i as int), SHORT_RUN_MAX_CANDLES),
            c <= i,
        decreases run_lengths@.len() - i,
    {
        proof {
            assert(run_lengths@.take(i + 1).drop_last() =~= run_lengths@.take(i as int));
        }
        if run_lengths[i] <= SHORT_RUN_MAX_CANDLES {
            c = c + 1;
        }
        i = i + 1;
    }
    assert(run_lengths@.take(i as int) =~= run_lengths@);
    c
}

/// The largest count, 0 for none.
pub fn max_count(counts: &Vec<usize>) -> (m: usize)
    ensures
        forall|k: int| 0 <= k < counts@.len() ==> #[trigger] counts@[k] <= m,
        counts@.len() == 0 ==> m == 0,
        counts@.len() > 0 ==> counts@.contains(m),
{
    let mut m: usize = 0;
    let mut i: usize = 0;
    while i < counts.len()
        invariant
            i <= counts@.len(),
            forall|k: int| 0 <= k < i ==> #[trigger] counts@[k] <= m,
            i == 0 ==> m == 0,
            i > 0 ==> counts@.take(i as int).contains(m),
        decreases counts@.len() - i,
    {
        if i == 0 || counts[i] > m {
            m = counts[i];
            assert(counts@.take(i + 1)[i as int] == m);
        } else {
            let ghost w = choose|w: int| 0 <= w < i && counts@.take(i as int)[w] == m;
            assert(counts@.take(i + 1)[w] == m);
        }
        i = i + 1;
    }
    if i > 0 {
        let ghost w = choose|w: int| 0 <= w < i && counts@.take(i as int)[w] == m;
        assert(counts@[w] == m);
    }
    m
}

} // verus!
