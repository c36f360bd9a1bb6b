//! Zone classification: how price levels are labelled, and how adjacent
//! zones are merged into superzones.
use vstd::prelude::*;

verus! {

/// Zone classification types for a given price level.
#[derive(Debug, Clone, Copy, PartialEq, Eq, Structural)]
pub enum ZoneType {
    /// High consolidation, price tends to stick here.
    Sticky,
    /// Nearest sticky zone below the current price.
    Support,
    /// Nearest sticky zone above the current price.
    Resistance,
    /// High rejection activity below the current price.
    LowWicks,
    /// High rejection activity above the current price.
    HighWicks,
    /// No special classification.
    Neutral,
}

impl ZoneType {
    /// The variant's name, as `{:?}` writes it.
    pub fn debug_name(&self) -> (name: &'static str)
        ensures
            name@ == zone_type_name(*self),
    {
        match self {
            ZoneType::Sticky => "Sticky",
            ZoneType::Support => "Support",
            ZoneType::Resistance => "Resistance",
            ZoneType::LowWicks => "LowWicks",
            ZoneType::HighWicks => "HighWicks",
            ZoneType::Neutral => "Neutral",
        }
    }
}

/// Name of a zone type.
pub open spec fn zone_type_name(t: ZoneType) -> Seq<char> {
    match t {
        ZoneType::Sticky => "Sticky"@,
        ZoneType::Support => "Support"@,
        ZoneType::Resistance => "Resistance"@,
        ZoneType::LowWicks => "LowWicks"@,
        ZoneType::HighWicks => "HighWicks"@,
        ZoneType::Neutral => "Neutral"@,
    }
}

/// Role of the sticky superzone `id` that contains the price, given the
/// nearest sticky superzone below the price (if any) and the nearest one
/// above it (if any). The support role is decided first: once a support
/// exists, a zone other than it is plain sticky.
pub open spec fn sticky_role(id: usize, support: Option<usize>, resistance: Option<usize>) -> ZoneType {
    match support {
        Some(sup) => if sup == id { ZoneType::Support } else { ZoneType::Sticky },
        None => match resistance {
            Some(res) => if res == id { ZoneType::Resistance } else { ZoneType::Sticky },
            None => ZoneType::Sticky,
        },
    }
}

/// Role of a sticky superzone that contains the price (see `sticky_role`).
pub fn classify_sticky_superzone(id: usize, support: Option<usize>, resistance: Option<usize>) -> (t: ZoneType)
    ensures
        t == sticky_role(id, support, resistance),
{
    if let Some(sup) = support {
        if sup == id {
            ZoneType::Support
        } else {
            ZoneType::Sticky
        }
    } else if let Some(res) = resistance {
        if res == id {
            ZoneType::Resistance
        } else {
            ZoneType::Sticky
        }
    } else {
        ZoneType::Sticky
    }
}

/// A sticky zone that holds the price is a support only if it is the
/// nearest support, a resistance only if it is the nearest resistance and
/// there is no support, and plain sticky when it is neither of them; it is
/// never a wick or neutral zone.
pub proof fn lemma_sticky_role_names_its_zone(id: usize, support: Option<usize>, resistance: Option<usize>)
    ensures
        sticky_role(id, support, resistance) == ZoneType::Support ==> support == Some(id),
        sticky_role(id, support, resistance) == ZoneType::Resistance ==> resistance == Some(id) && support is None,
        support == Some(id) ==> sticky_role(id, support, resistance) == ZoneType::Support,
        support is None && resistance == Some(id) ==> sticky_role(id, support, resistance) == ZoneType::Resistance,
        support != Some(id) && resistance != Some(id) ==> sticky_role(id, support, resistance) == ZoneType::Sticky,
        ({
            let t = sticky_role(id, support, resistance);
            t == ZoneType::Support || t == ZoneType::Resistance || t == ZoneType::Sticky
        }),
{
}

/// `groups` cuts the positions `0..idx.len()` into consecutive runs
/// `[first, last]` (both inclusive) whose zone indices go up by one at each
/// step, and that cannot be joined to their neighbours.
pub open spec fn are_contiguous_groups(idx: Seq<usize>, groups: Seq<(usize, usize)>) -> bool {
    &&& (idx.len() == 0 <==> groups.len() == 0)
    &&& groups.len() > 0 ==> groups[0].0 == 0 && groups[groups.len() - 1].1 == idx.len() - 1
    &&& forall|k: int| 0 <= k < groups.len() ==> (#[trigger] groups[k]).0 <= groups[k].1 < idx.len()
    &&& forall|k: int| 0 <= k < groups.len() - 1 ==> groups[k + 1].0 == (#[trigger] groups[k]).1 + 1
    &&& forall|k: int, p: int| 0 <= k < groups.len() && (#[trigger] groups[k]).0 <= p < groups[k].1
            ==> idx[p + 1] == #[trigger] idx[p] + 1
    &&& forall|k: int| 0 <= k < groups.len() - 1 ==>
            idx[groups[k + 1].0 as int] != idx[(#[trigger] groups[k]).1 as int] + 1
}

/// Groups zones whose indices are adjacent (each one more than the one
/// before it) into superzones. Each group is returned as the positions of
/// its first and last zone in `indices` (both inclusive), in order.
pub fn group_contiguous_zones(indices: &Vec<usize>) -> (groups: Vec<(usize, usize)>)
    ensures
        are_contiguous_groups(indices@, groups@),
{
    let n = indices.len();
    let mut groups: Vec<(usize, usize)> = Vec::new();
    if n == 0 {
        return groups;
    }
    let mut start: usize = 0;
    let mut p: usize = 1;
    while p < n
        invariant
            n == indices@.len(),
            1 <= p <= n,
            start < p,
            groups@.len() == 0 ==> start == 0,
            groups@.len() > 0 ==> groups@[0].0 == 0 && groups@[groups@.len() - 1].1 + 1 == start,
            forall|k: int| 0 <= k < groups@.len() ==> (#[trigger] groups@[k]).0 <= groups@[k].1 < start,
            forall|k: int| 0 <= k < groups@.len() - 1 ==> groups@[k + 1].0 == (#[trigger] groups@[k]).1 + 1,
            forall|k: int, q: int| 0 <= k < groups@.len() && (#[trigger] groups@[k]).0 <= q < groups@[k].1
                ==> indices@[q + 1] == #[trigger] indices@[q] + 1,
            forall|k: int| 0 <= k < groups@.len() - 1 ==>
                indices@[groups@[k + 1].0 as int] != indices@[(#[trigger] groups@[k]).1 as int] + 1,
            groups@.len() > 0 ==> indices@[start as int] != indices@[groups@[groups@.len() - 1].1 as int] + 1,
            forall|q: int| start <= q < p - 1 ==> indices@[q + 1] == #[trigger] indices@[q] + 1,
        decreases n - p,
    {
        let prev_index = indices[p - 1];
        let curr_index = indices[p];
        let contiguous = prev_index < usize::MAX && curr_index == prev_index + 1;
        if !contiguous {
            groups.push((start, p - 1));
            start = p;
        }
        p = p + 1;
    }
    groups.push((start, n - 1));
    groups
}

/// The zones a price sits in, in order: the sticky superzones containing
/// it with their role, then the low-wick ones, then the high-wick ones.
pub open spec fn zones_at_price(sticky: Seq<usize>, low_wicks: Seq<usize>, high_wicks: Seq<usize>,
    support: Option<usize>, resistance: Option<usize>) -> Seq<(usize, ZoneType)> {
    Seq::new(sticky.len(), |i: int| (sticky[i], sticky_role(sticky[i], support, resistance)))
        + Seq::new(low_wicks.len(), |i: int| (low_wicks[i], ZoneType::LowWicks))
        + Seq::new(high_wicks.len(), |i: int| (high_wicks[i], ZoneType::HighWicks))
}

/// The zones a price sits in, from the ids of the sticky, low-wick and
/// high-wick superzones that contain it and the ids of the nearest support
/// and resistance superzones.
pub fn find_superzones_at_price(sticky: &Vec<usize>, low_wicks: &Vec<usize>, high_wicks: &Vec<usize>,
    support: Option<usize>, resistance: Option<usize>) -> (zones: Vec<(usize, ZoneType)>)
    ensures
        zones@ == zones_at_price(sticky@, low_wicks@, high_wicks@, support, resistance),
{
    let ghost st = Seq::new(sticky@.len(), |i: int| (sticky@[i], sticky_role(sticky@[i], support, resistance)));
    let ghost lw = Seq::new(low_wicks@.len(), |i: int| (low_wicks@[i], ZoneType::LowWicks));
    let ghost hw = Seq::new(high_wicks@.len(), |i: int| (high_wicks@[i], ZoneType::HighWicks));
    let mut zones: Vec<(usize, ZoneType)> = Vec::new();
    let mut i: usize = 0;
    while i < sticky.len()
        invariant
            i <= sticky@.len(),
            st == Seq::new(sticky@.len(), |i: int| (sticky@[i], sticky_role(sticky@[i], support, resistance))),
            zones@ =~= st.take(i as int),
        decreases sticky@.len() - i,
    {
        let id = sticky[i];
        zones.push((id, classify_sticky_superzone(id, support, resistance)));
        i = i + 1;
    }
    let mut j: usize = 0;
    while j < low_wicks.len()
        invariant
            j <= low_wicks@.len(),
            lw == Seq::new(low_wicks@.len(), |i: int| (low_wicks@[i], ZoneType::LowWicks)),
            zones@ =~= st + lw.take(j as int),
        decreases low_wicks@.len() - j,
    {
        zones.push((low_wicks[j], ZoneType::LowWicks));
        j = j + 1;
    }
    let mut k: usize = 0;
    while k < high_wicks.len()
        invariant
            k <= high_wicks@.len(),
            hw == Seq::new(high_wicks@.len(), |i: int| (high_wicks@[i], ZoneType::HighWicks)),
            zones@ =~= st + lw + hw.take(k as int),
        decreases high_wicks@.len() - k,
    {
        zones.push((high_wicks[k], ZoneType::HighWicks));
        k = k + 1;
    }
    zones
}

} // verus!
