//! The engine's work queue: which pair is analysed next, and what the
//! status bar says about it.
use vstd::prelude::*;
use std::collections::VecDeque;
use crate::text_utils::{decimal, usize_to_decimal, str_equal};

verus! {

/// Pairs waiting for an analysis, first in line first.
pub struct JobQueue {
    pub queue: VecDeque<String>,
}

/// The names held by a list of strings.
pub open spec fn names(v: Seq<String>) -> Seq<Seq<char>> {
    v.map_values(|s: String| s@)
}

impl JobQueue {
    /// The names in line, first first.
    pub open spec fn waiting(&self) -> Seq<Seq<char>> {
        names(self.queue@)
    }

    /// An empty queue.
    pub fn new() -> (q: Self)
        ensures
            q.waiting() == Seq::<Seq<char>>::empty(),
    {
        let q = JobQueue { queue: VecDeque::new() };
        assert(q.waiting() =~= Seq::<Seq<char>>::empty());
        q
    }

    /// How many pairs wait.
    pub fn len(&self) -> (n: usize)
        ensures
            n == self.waiting().len(),
    {
        self.queue.len()
    }

    /// A pair whose price moved waits at the back.
    pub fn enqueue(&mut self, pair: &str)
        ensures
            final(self).waiting() == old(self).waiting().push(pair@),
    {
        self.queue.push_back(String::from_str(pair));
        assert(final(self).waiting() =~= old(self).waiting().push(pair@));
    }

    /// A pair the user picked goes first.
    pub fn force_recalc(&mut self, pair: &str)
        ensures
            final(self).waiting() == seq![pair@] + old(self).waiting(),
    {
        self.queue.push_front(String::from_str(pair));
        assert(final(self).waiting() =~= seq![pair@] + old(self).waiting());
    }

    /// A pair waits at the back unless it already waits.
    pub fn enqueue_if_absent(&mut self, pair: &str) -> (added: bool)
        ensures
            added == !old(self).waiting().contains(pair@),
            final(self).waiting() == (if added { old(self).waiting().push(pair@) } else { old(self).waiting() }),
    {
        let mut i: usize = 0;
        while i < self.queue.len()
            invariant
                i <= self.queue@.len(),
                forall|j: int| 0 <= j < i ==> (#[trigger] self.queue@[j])@ != pair@,
            decreases self.queue@.len() - i,
        {
            if str_equal(self.queue[i].as_str(), pair) {
                assert(self.waiting()[i as int] == pair@);
                return false;
            }
            i = i + 1;
        }
        assert forall|j: int| 0 <= j < self.waiting().len() implies #[trigger] self.waiting()[j] != pair@ by {
            assert((self.queue@[j])@ != pair@);
        }
        self.enqueue(pair);
        true
    }

    /// The next pair to dispatch: the first in line, unless it is still
    /// being analysed (then nothing is dispatched this time).
    pub fn next_dispatch(&mut self, front_is_calculating: bool) -> (next: Option<String>)
        ensures
            old(self).waiting().len() == 0 || front_is_calculating ==> next is None && final(self).waiting() == old(self).waiting(),
            old(self).waiting().len() > 0 && !front_is_calculating ==> (next matches Some(p) && p@ == old(self).waiting()[0]
                && final(self).waiting() == old(self).waiting().drop_first()),
    {
        if self.queue.len() == 0 || front_is_calculating {
            return None;
        }
        let next = self.queue.pop_front();
        assert(final(self).waiting() =~= old(self).waiting().drop_first());
        next
    }
}

/// Whether a pair is queued for analysis on a price tick: it is not being
/// analysed, and either it has never been analysed at a price or the price
/// moved by at least the threshold.
pub open spec fn queues_on_tick(is_calculating: bool, never_priced: bool, moved_enough: bool) -> bool {
    !is_calculating && (never_priced || moved_enough)
}

/// Whether a price tick queues the pair for analysis.
pub fn should_queue_on_tick(is_calculating: bool, never_priced: bool, moved_enough: bool) -> (b: bool)
    ensures
        b == queues_on_tick(is_calculating, never_priced, moved_enough),
{
    !is_calculating && (never_priced || moved_enough)
}

/// The status line of the worker: the pair being analysed, or the queue
/// length, or nothing when idle.
pub open spec fn worker_status_text(calculating: Option<Seq<char>>, queue_len: nat) -> Option<Seq<char>> {
    match calculating {
        Some(p) => Some("Processing "@ + p),
        None => if queue_len > 0 { Some("Queued: "@ + decimal(queue_len)) } else { None },
    }
}

/// The status line of the worker.
pub fn worker_status_message(calculating_pair: Option<&str>, queue_len: usize) -> (m: Option<String>)
    ensures
        (match m { Some(s) => Some(s@), None => None }) == worker_status_text(
            match calculating_pair { Some(p) => Some(p@), None => None }, queue_len as nat),
{
    match calculating_pair {
        Some(p) => {
            let mut s = String::from_str("Processing ");
            s.append(p);
            Some(s)
        },
        None => {
            if queue_len > 0 {
                let mut s = String::from_str("Queued: ");
                let n = usize_to_decimal(queue_len);
                s.append(n.as_str());
                Some(s)
            } else {
                None
            }
        },
    }
}

/// Exchanges the first element with element `i`.
fn swap_with_first<T>(v: &mut Vec<T>, i: usize)
    requires
        i < old(v)@.len(),
    ensures
        final(v)@ == old(v)@.update(0, old(v)@[i as int]).update(i as int, old(v)@[0]),
{
    if i == 0 {
        assert(v@ =~= old(v)@.update(0, old(v)@[0]).update(0, old(v)@[0]));
        return;
    }
    let a = v.remove(i);
    let b = v.remove(0);
    v.insert(0, a);
    v.insert(i, b);
    assert(v@ =~= old(v)@.update(0, old(v)@[i as int]).update(i as int, old(v)@[0]));
}

/// The pair picked by the user comes first among the pairs ready to run:
/// if it is ready it swaps places with the first; otherwise, when it may
/// run (`selected_eligible`), it is put in front and `true` is returned
/// (its trigger is then to be marked stale).
pub fn prioritize_selected(ready: &mut Vec<String>, selected: &str, selected_eligible: bool) -> (promoted: bool)
    ensures
        names(old(ready)@).contains(selected@) ==> !promoted && ({
            let i = choose|i: int| 0 <= i < old(ready)@.len() && (#[trigger] old(ready)@[i])@ == selected@
                && forall|j: int| 0 <= j < i ==> (#[trigger] old(ready)@[j])@ != selected@;
            names(final(ready)@) == names(old(ready)@).update(0, names(old(ready)@)[i]).update(i, names(old(ready)@)[0])
        }),
        !names(old(ready)@).contains(selected@) ==> promoted == selected_eligible
            && names(final(ready)@) == (if selected_eligible { seq![selected@] + names(old(ready)@) } else { names(old(ready)@) }),
{
    let ghost before = names(ready@);
    let mut i: usize = 0;
    while i < ready.len()
        invariant
            i <= ready@.len(),
            ready@ == old(ready)@,
            before == names(old(ready)@),
            forall|j: int| 0 <= j < i ==> (#[trigger] ready@[j])@ != selected@,
        decreases ready@.len() - i,
    {
        if str_equal(ready[i].as_str(), selected) {
            proof {
                assert(before[i as int] == selected@);
                let w = choose|w: int| 0 <= w < old(ready)@.len() && (#[trigger] old(ready)@[w])@ == selected@
                    && forall|j: int| 0 <= j < w ==> (#[trigger] old(ready)@[j])@ != selected@;
                assert(w == i as int) by {
                    if w < i { assert((old(ready)@[w])@ != selected@); }
                    if w > i { assert((old(ready)@[i as int])@ != selected@); }
                }
            }
            swap_with_first(ready, i);
            assert(names(ready@) =~= before.update(0, before[i as int]).update(i as int, before[0]));
            return false;
        }
        i = i + 1;
    }
    assert forall|j: int| 0 <= j < before.len() implies #[trigger] before[j] != selected@ by {
        assert((ready@[j])@ != selected@);
    }
    if selected_eligible {
        ready.insert(0, String::from_str(selected));
        assert(names(ready@) =~= seq![selected@] + before);
        true
    } else {
        false
    }
}

} // verus!
