//! Trading signals derived from the zones that the current price is in.
use vstd::prelude::*;
use crate::trading_view::ZoneType;
use crate::text_utils::{decimal, usize_to_decimal};

verus! {

/// Trading signals: currently the price being in a sticky superzone.
#[derive(Debug, Clone, Copy, PartialEq, Eq, Structural)]
pub enum TradingSignal {
    InStickyZone { superzone_id: usize },
}

/// Text that describes a signal.
pub open spec fn signal_description(s: TradingSignal) -> Seq<char> {
    match s {
        TradingSignal::InStickyZone { superzone_id } => "🔒 In sticky superzone "@ + decimal(superzone_id as nat),
    }
}

impl TradingSignal {
    /// Whether this signal is of interest; every known signal is.
    pub fn is_signal(&self) -> (b: bool)
        ensures
            b == (*self is InStickyZone),
    {
        matches!(self, TradingSignal::InStickyZone { .. })
    }

    /// Human-readable description of the signal.
    pub fn description(&self) -> (s: String)
        ensures
            s@ == signal_description(*self),
    {
        match self {
            TradingSignal::InStickyZone { superzone_id } => {
                let mut s = String::from_str("🔒 In sticky superzone ");
                let id = usize_to_decimal(*superzone_id);
                s.append(id.as_str());
                s
            },
        }
    }
}

/// The signals of a price that sits in the given zones: one per sticky
/// zone, in order.
pub open spec fn state_signals(zones: Seq<(usize, ZoneType)>) -> Seq<TradingSignal>
    decreases zones.len(),
{
    if zones.len() == 0 {
        Seq::empty()
    } else {
        let rest = state_signals(zones.drop_last());
        let z = zones.last();
        if z.1 == ZoneType::Sticky {
            rest.push(TradingSignal::InStickyZone { superzone_id: z.0 })
        } else {
            rest
        }
    }
}

/// The signal, if any, that one zone gives: a sticky zone gives an
/// in-sticky-zone signal with its id; other zones give none.
pub open spec fn zone_signal(z: (usize, ZoneType)) -> Option<TradingSignal> {
    if z.1 == ZoneType::Sticky { Some(TradingSignal::InStickyZone { superzone_id: z.0 }) } else { None }
}

/// The signals are exactly one in-sticky-zone signal per sticky zone, with
/// its id, in the order of the zones; support, resistance, wick and neutral
/// zones give none.
pub proof fn lemma_signals_are_the_sticky_zones(zones: Seq<(usize, ZoneType)>)
    ensures
        state_signals(zones) == zones.filter_map(|z: (usize, ZoneType)| zone_signal(z)),
    decreases zones.len(),
{
    if zones.len() > 0 {
        lemma_signals_are_the_sticky_zones(zones.drop_last());
        assert(state_signals(zones) =~= zones.filter_map(|z: (usize, ZoneType)| zone_signal(z)));
    }
}

/// Generates the signals for the zones the price is now in.
pub fn generate_state_signals(current_zones: &Vec<(usize, ZoneType)>) -> (signals: Vec<TradingSignal>)
    ensures
        signals@ == state_signals(current_zones@),
{
    let mut signals: Vec<TradingSignal> = Vec::new();
    let mut i: usize = 0;
    while i < current_zones.len()
        invariant
            i <= current_zones@.len(),
            signals@ == state_signals(current_zones@.take(i as int)),
        decreases current_zones@.len() - i,
    {
        assert(current_zones@.take(i + 1).drop_last() =~= current_zones@.take(i as int));
        let (superzone_id, zone_type) = current_zones[i];
        if zone_type == ZoneType::Sticky {
            signals.push(TradingSignal::InStickyZone { superzone_id });
        }
        i = i + 1;
    }
    assert(current_zones@.take(i as int) =~= current_zones@);
    signals
}

/// Whether a signal is of interest.
pub open spec fn of_interest(s: TradingSignal) -> bool {
    s is InStickyZone
}

/// Whether any of the signals is of interest.
pub fn has_signals(signals: &Vec<TradingSignal>) -> (b: bool)
    ensures
        b == exists|k: int| 0 <= k < signals@.len() && of_interest(#[trigger] signals@[k]),
        b == (signals@.len() > 0),
{
    let mut i: usize = 0;
    while i < signals.len()
        invariant
            i == 0,
        decreases signals@.len() - i,
    {
        if signals[i].is_signal() {
            assert(of_interest(signals@[0]));
            return true;
        }
        i = i + 1;
    }
    false
}

/// Whether a new set of zones differs from the current one.
pub fn zones_changed(new_zones: &Vec<(usize, ZoneType)>, current_zones: &Vec<(usize, ZoneType)>) -> (b: bool)
    ensures
        b == (new_zones@ != current_zones@),
{
    if new_zones.len() != current_zones.len() {
        return true;
    }
    let mut i: usize = 0;
    while i < new_zones.len()
        invariant
            i <= new_zones@.len(),
            new_zones@.len() == current_zones@.len(),
            forall|k: int| 0 <= k < i ==> new_zones@[k] == current_zones@[k],
        decreases new_zones@.len() - i,
    {
        let (a_id, a_type) = new_zones[i];
        let (b_id, b_type) = current_zones[i];
        if a_id != b_id || a_type != b_type {
            return true;
        }
        i = i + 1;
    }
    assert(new_zones@ =~= current_zones@);
    false
}

} // verus!
