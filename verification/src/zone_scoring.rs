//! Clustering of zone scores into "islands" of activity.
//!
//! A zone is land when its score reaches the threshold; land zones that are
//! separated by at most `max_gap` zones of water belong to the same island.
use vstd::prelude::*;

verus! {

/// Inside `[start, end]`, every land zone but the last is followed by
/// another land zone after at most `max_gap` zones of water.
#[verifier::opaque]
pub open spec fn gaps_bridged(land: Seq<bool>, start: int, end: int, max_gap: int) -> bool {
    forall|i: int| start <= i < end && #[trigger] land[i] ==>
        exists|j: int| i < j <= end && j - i - 1 <= max_gap && #[trigger] land[j]
}

/// `clusters` lists, in order, the islands `[start, end]` (both ends
/// inclusive) of the land zones, bridging gaps of at most `max_gap`.
pub open spec fn are_islands(land: Seq<bool>, max_gap: int, clusters: Seq<(usize, usize)>) -> bool {
    &&& forall|k: int| 0 <= k < clusters.len() ==> {
        let c = #[trigger] clusters[k];
        &&& c.0 <= c.1 < land.len()
        &&& land[c.0 as int]
        &&& land[c.1 as int]
        &&& gaps_bridged(land, c.0 as int, c.1 as int, max_gap)
    }
    &&& forall|k: int| 0 <= k < clusters.len() - 1 ==>
        clusters[k + 1].0 - (#[trigger] clusters[k]).1 - 1 > max_gap
    &&& forall|i: int| 0 <= i < land.len() && #[trigger] land[i] ==>
        exists|k: int| 0 <= k < clusters.len() && (#[trigger] clusters[k]).0 <= i <= clusters[k].1
}

/// The indices of the zones whose flag is set, in increasing order.
pub fn indices_where(flags: &Vec<bool>) -> (indices: Vec<usize>)
    ensures
        forall|k: int| 0 <= k < indices@.len() ==> (#[trigger] indices@[k]) < flags@.len() && flags@[indices@[k] as int],
        forall|k: int, l: int| 0 <= k < l < indices@.len() ==> indices@[k] < indices@[l],
        forall|i: int| 0 <= i < flags@.len() && #[trigger] flags@[i] ==> indices@.contains(i as usize),
{
    let mut indices: Vec<usize> = Vec::new();
    let mut i: usize = 0;
    while i < flags.len()
        invariant
            i <= flags@.len(),
            forall|k: int| 0 <= k < indices@.len() ==> (#[trigger] indices@[k]) < i && flags@[indices@[k] as int],
            forall|k: int, l: int| 0 <= k < l < indices@.len() ==> indices@[k] < indices@[l],
            forall|j: int| 0 <= j < i && #[trigger] flags@[j] ==> indices@.contains(j as usize),
        decreases flags@.len() - i,
    {
        if flags[i] {
            let ghost old_indices = indices@;
            indices.push(i);
            assert forall|j: int| 0 <= j < i + 1 && #[trigger] flags@[j] implies indices@.contains(j as usize) by {
                if j < i {
                    let k = choose|k: int| 0 <= k < old_indices.len() && old_indices[k] == j as usize;
                    assert(indices@[k] == j as usize);
                } else {
                    assert(indices@[indices@.len() - 1] == j as usize);
                }
            }
        }
        i = i + 1;
    }
    indices
}

/// Zone `j` lies in the open island.
pub open spec fn in_open(current: Option<(usize, usize)>, j: int) -> bool {
    match current {
        Some((s, l)) => s <= j <= l,
        None => false,
    }
}

/// Progress of the island scan over the first `i` zones: the closed
/// islands, and the island still open (its first and latest land zone).
/// `owner[j]` is the island that holds the land zone `j`; the open island
/// has the number `clusters.len()`.
#[verifier::opaque]
pub open spec fn scan_state(land: Seq<bool>, max_gap: int, clusters: Seq<(usize, usize)>, current: Option<(usize, usize)>, owner: Seq<int>, i: int) -> bool {
    &&& 0 <= i <= land.len()
    &&& owner.len() == i
    &&& forall|k: int| 0 <= k < clusters.len() ==> {
        let c = #[trigger] clusters[k];
        &&& c.0 <= c.1 < i
        &&& land[c.0 as int]
        &&& land[c.1 as int]
        &&& gaps_bridged(land, c.0 as int, c.1 as int, max_gap)
    }
    &&& forall|k: int| 0 <= k < clusters.len() - 1 ==>
        clusters[k + 1].0 - (#[trigger] clusters[k]).1 - 1 > max_gap
    &&& current matches Some((s, l)) ==> {
        &&& s <= l < i
        &&& land[s as int]
        &&& land[l as int]
        &&& gaps_bridged(land, s as int, l as int, max_gap)
        &&& forall|m: int| l < m < i ==> !#[trigger] land[m]
        &&& (clusters.len() > 0 ==> s - clusters[clusters.len() - 1].1 - 1 > max_gap)
    }
    &&& current is None ==> forall|k: int| 0 <= k < clusters.len() ==> (#[trigger] clusters[k]).1 < i
    &&& current is None && clusters.len() > 0 ==> forall|m: int| clusters[clusters.len() - 1].1 < m < i ==> !#[trigger] land[m]
    &&& forall|j: int| 0 <= j < i && #[trigger] land[j] ==> {
        let k = owner[j];
        ||| 0 <= k < clusters.len() && clusters[k].0 <= j <= clusters[k].1
        ||| (k == clusters.len() && in_open(current, j))
    }
}

proof fn lemma_scan_start(land: Seq<bool>, max_gap: int)
    ensures
        scan_state(land, max_gap, Seq::empty(), None, Seq::empty(), 0),
{
    reveal(scan_state);
}

proof fn lemma_scan_water(land: Seq<bool>, max_gap: int, clusters: Seq<(usize, usize)>, current: Option<(usize, usize)>, owner: Seq<int>, i: int)
    requires
        scan_state(land, max_gap, clusters, current, owner, i),
        i < land.len(),
        !land[i],
    ensures
        scan_state(land, max_gap, clusters, current, owner.push(0), i + 1),
{
    reveal(scan_state);
    let o = owner.push(0);
    assert forall|j: int| 0 <= j < i + 1 && #[trigger] land[j] implies {
        let k = o[j];
        ||| 0 <= k < clusters.len() && clusters[k].0 <= j <= clusters[k].1
        ||| (k == clusters.len() && in_open(current, j))
    } by {
        assert(o[j] == owner[j]);
    }
}

proof fn lemma_scan_open(land: Seq<bool>, max_gap: int, clusters: Seq<(usize, usize)>, owner: Seq<int>, i: int)
    requires
        scan_state(land, max_gap, clusters, None, owner, i),
        i < land.len(),
        land[i],
        clusters.len() > 0 ==> i - clusters[clusters.len() - 1].1 - 1 > max_gap,
        i <= usize::MAX,
    ensures
        scan_state(land, max_gap, clusters, Some((i as usize, i as usize)), owner.push(clusters.len() as int), i + 1),
{
    reveal(scan_state);
    assert(gaps_bridged(land, i, i, max_gap)) by {
        reveal(gaps_bridged);
    }
    let o = owner.push(clusters.len() as int);
    let cur = Some((i as usize, i as usize));
    assert forall|j: int| 0 <= j < i + 1 && #[trigger] land[j] implies {
        let k = o[j];
        ||| 0 <= k < clusters.len() && clusters[k].0 <= j <= clusters[k].1
        ||| (k == clusters.len() && in_open(cur, j))
    } by {
        if j < i {
            assert(o[j] == owner[j]);
        } else {
            assert(o[j] == clusters.len());
        }
    }
}

proof fn lemma_bridge_extend(land: Seq<bool>, max_gap: int, s: int, l: int, i: int)
    requires
        gaps_bridged(land, s, l, max_gap),
        s <= l < i,
        land[i],
        i - l - 1 <= max_gap,
    ensures
        gaps_bridged(land, s, i, max_gap),
{
    reveal(gaps_bridged);
    assert forall|a: int| s <= a < i && #[trigger] land[a] implies
        exists|b: int| a < b <= i && b - a - 1 <= max_gap && #[trigger] land[b] by {
        if a < l {
            let b = choose|b: int| a < b <= l && b - a - 1 <= max_gap && #[trigger] land[b];
        } else if a == l {
            assert(land[i]);
        }
    }
}

proof fn lemma_scan_extend(land: Seq<bool>, max_gap: int, clusters: Seq<(usize, usize)>, s: usize, l: usize, owner: Seq<int>, i: int)
    requires
        scan_state(land, max_gap, clusters, Some((s, l)), owner, i),
        i < land.len(),
        land[i],
        i - l - 1 <= max_gap,
        i <= usize::MAX,
    ensures
        scan_state(land, max_gap, clusters, Some((s, i as usize)), owner.push(clusters.len() as int), i + 1),
{
    reveal(scan_state);
    lemma_bridge_extend(land, max_gap, s as int, l as int, i);
    let o = owner.push(clusters.len() as int);
    let cur = Some((s, i as usize));
    assert forall|j: int| 0 <= j < i + 1 && #[trigger] land[j] implies {
        let k = o[j];
        ||| 0 <= k < clusters.len() && clusters[k].0 <= j <= clusters[k].1
        ||| (k == clusters.len() && in_open(cur, j))
    } by {
        if j < i {
            assert(o[j] == owner[j]);
        } else {
            assert(o[j] == clusters.len());
        }
    }
}

proof fn lemma_scan_close(land: Seq<bool>, max_gap: int, clusters: Seq<(usize, usize)>, s: usize, l: usize, owner: Seq<int>, i: int)
    requires
        scan_state(land, max_gap, clusters, Some((s, l)), owner, i),
    ensures
        scan_state(land, max_gap, clusters.push((s, l)), None, owner, i),
{
    reveal(scan_state);
    let pushed = clusters.push((s, l));
    assert forall|j: int| 0 <= j < i && #[trigger] land[j] implies {
        let k = owner[j];
        ||| 0 <= k < pushed.len() && pushed[k].0 <= j <= pushed[k].1
        ||| (k == pushed.len() && false)
    } by {
        let k = owner[j];
        if k < clusters.len() {
            assert(pushed[k] == clusters[k]);
        } else {
            assert(pushed[k] == (s, l));
        }
    }
}

proof fn lemma_scan_done(land: Seq<bool>, max_gap: int, clusters: Seq<(usize, usize)>, owner: Seq<int>)
    requires
        scan_state(land, max_gap, clusters, None, owner, land.len() as int),
    ensures
        are_islands(land, max_gap, clusters),
{
    reveal(scan_state);
    assert forall|j: int| 0 <= j < land.len() && #[trigger] land[j] implies
        exists|k: int| 0 <= k < clusters.len() && (#[trigger] clusters[k]).0 <= j <= clusters[k].1 by {
        let k = owner[j];
        assert(clusters[k].0 <= j <= clusters[k].1);
    }
}

/// Groups the land zones into islands: land zones separated by at most
/// `max_gap` zones of water share an island. Returns each island as its
/// first and last land zone (both inclusive), in order.
pub fn find_target_clusters(land: &Vec<bool>, max_gap: usize) -> (clusters: Vec<(usize, usize)>)
    ensures
        are_islands(land@, max_gap as int, clusters@),
{
    let n = land.len();
    let mut clusters: Vec<(usize, usize)> = Vec::new();
    let mut current: Option<(usize, usize)> = None;
    let ghost mut owner: Seq<int> = Seq::empty();
    let mut i: usize = 0;
    proof {
        lemma_scan_start(land@, max_gap as int);
    }
    while i < n
        invariant
            n == land@.len(),
            i <= n,
            scan_state(land@, max_gap as int, clusters@, current, owner, i as int),
            current matches Some((s, l)) ==> s <= l < i,
            current is None ==> clusters@.len() == 0,
        decreases n - i,
    {
        if land[i] {
            match current {
                None => {
                    proof {
                        lemma_scan_open(land@, max_gap as int, clusters@, owner, i as int);
                        owner = owner.push(clusters@.len() as int);
                    }
                    current = Some((i, i));
                },
                Some((s, l)) => {
                    if i - l - 1 > max_gap {
                        proof {
                            lemma_scan_close(land@, max_gap as int, clusters@, s, l, owner, i as int);
                        }
                        clusters.push((s, l));
                        assert(clusters@[clusters@.len() - 1] == (s, l));
                        proof {
                            lemma_scan_open(land@, max_gap as int, clusters@, owner, i as int);
                            owner = owner.push(clusters@.len() as int);
                        }
                        current = Some((i, i));
                    } else {
                        proof {
                            lemma_scan_extend(land@, max_gap as int, clusters@, s, l, owner, i as int);
                            owner = owner.push(clusters@.len() as int);
                        }
                        current = Some((s, i));
                    }
                },
            }
        } else {
            proof {
                lemma_scan_water(land@, max_gap as int, clusters@, current, owner, i as int);
                owner = owner.push(0);
            }
        }
        i = i + 1;
    }
    if let Some((s, l)) = current {
        proof {
            lemma_scan_close(land@, max_gap as int, clusters@, s, l, owner, n as int);
        }
        clusters.push((s, l));
    }
    proof {
        lemma_scan_done(land@, max_gap as int, clusters@, owner);
    }
    clusters
}

} // verus!
