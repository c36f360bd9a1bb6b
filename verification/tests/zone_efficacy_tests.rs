use zone_sniper::zone_efficacy::{
    candle_indices, count_short_runs, group_transitions, max_count, sorted_counts, zone_run_summary, PendingTransition,
    TransitionRecord, ZoneRunTracker,
};

fn record(from: usize, to: Option<usize>, gap: usize) -> TransitionRecord {
    TransitionRecord { from_zone_id: from, to_zone_id: to, gap_candles: gap }
}

#[test]
fn replay_counts_runs_and_departures() {
    let hits = vec![
        vec![true, false],
        vec![true, false],
        vec![false, false],
        vec![false, true],
        vec![false, false],
    ];
    let s = zone_run_summary(vec![10, 20], &hits).expect("zones and candles given");
    assert_eq!(s.total_candles, 5);
    assert_eq!(s.candles_in_zones, 3);
    assert_eq!(s.run_lengths, vec![2, 1]);
    assert_eq!(s.transitions, vec![record(10, Some(20), 1), record(20, None, 1)]);
    // Every touch of a zone is in a run.
    assert_eq!(s.run_lengths.iter().sum::<usize>(), 3);
}

#[test]
fn departure_into_another_zone_at_once_has_no_gap() {
    let hits = vec![vec![true, false], vec![false, true]];
    let s = zone_run_summary(vec![1, 2], &hits).unwrap();
    assert_eq!(s.run_lengths, vec![1, 1]);
    assert_eq!(s.transitions, vec![record(1, Some(2), 0), record(2, None, 0)]);
    assert_eq!(s.candles_in_zones, 2);
}

#[test]
fn nothing_to_measure_without_zones_or_candles() {
    assert!(zone_run_summary(vec![], &vec![vec![true]]).is_none());
    assert!(zone_run_summary(vec![3], &vec![]).is_none());
}

#[test]
fn candles_outside_every_zone_make_no_runs() {
    let s = zone_run_summary(vec![7], &vec![vec![false], vec![false], vec![]]).unwrap();
    assert_eq!(s.total_candles, 3);
    assert_eq!(s.candles_in_zones, 0);
    assert!(s.run_lengths.is_empty());
    assert!(s.transitions.is_empty());
}

#[test]
fn a_candle_in_two_zones_counts_once() {
    let s = zone_run_summary(vec![4, 5], &vec![vec![true, true], vec![true, true]]).unwrap();
    assert_eq!(s.candles_in_zones, 2);
    assert_eq!(s.run_lengths, vec![2, 2]);
    assert_eq!(s.transitions, vec![record(4, None, 0), record(5, None, 0)]);
}

#[test]
fn tracker_steps_one_candle_at_a_time() {
    let mut t = ZoneRunTracker::new(vec![9]);
    t.process_candle(&vec![true]);
    t.process_candle(&vec![true]);
    assert_eq!(t.active_runs, vec![2]);
    t.process_candle(&vec![false]);
    assert_eq!(t.active_runs, vec![0]);
    assert_eq!(t.run_lengths, vec![2]);
    assert_eq!(t.pending_transitions, vec![Some(PendingTransition { gap_candles: 1 })]);
    t.process_candle(&vec![false]);
    assert_eq!(t.pending_transitions, vec![Some(PendingTransition { gap_candles: 2 })]);
    t.process_candle(&vec![true]);
    assert_eq!(t.transitions, vec![record(9, Some(9), 2)]);
    assert_eq!(t.pending_transitions, vec![None]);
    let s = t.finish();
    assert_eq!(s.run_lengths, vec![2, 1]);
    assert_eq!(s.transitions, vec![record(9, Some(9), 2), record(9, None, 0)]);
    assert_eq!(s.total_candles, 5);
    assert_eq!(s.candles_in_zones, 3);
}

#[test]
fn inspected_candles_follow_the_ranges() {
    assert_eq!(candle_indices(4, &vec![]), vec![0, 1, 2, 3]);
    assert_eq!(candle_indices(10, &vec![(2, 5), (8, 12), (6, 6)]), vec![2, 3, 4, 8, 9]);
    assert_eq!(candle_indices(10, &vec![(12, 15), (5, 3)]), Vec::<usize>::new());
    assert_eq!(candle_indices(0, &vec![]), Vec::<usize>::new());
}

#[test]
fn departures_group_by_origin_and_destination() {
    let groups = group_transitions(&vec![
        record(10, Some(20), 1),
        record(20, None, 1),
        record(10, Some(20), 3),
        record(10, None, 5),
        record(10, Some(15), 2),
    ]);
    let keys: Vec<(usize, Option<usize>)> = groups.iter().map(|g| (g.from_zone_id, g.to_zone_id)).collect();
    assert_eq!(keys, vec![(10, None), (10, Some(15)), (10, Some(20)), (20, None)]);
    assert_eq!(groups[0].gaps, vec![5]);
    assert_eq!(groups[1].gaps, vec![2]);
    assert_eq!(groups[2].gaps, vec![1, 3]);
    assert_eq!(groups[3].gaps, vec![1]);
    assert!(group_transitions(&vec![]).is_empty());
}

#[test]
fn counts_sort_increasing() {
    assert_eq!(sorted_counts(&vec![3, 1, 2, 1]), vec![1, 1, 2, 3]);
    assert_eq!(sorted_counts(&vec![]), Vec::<usize>::new());
}

#[test]
fn short_runs_are_at_most_two_candles() {
    assert_eq!(count_short_runs(&vec![1, 2, 3, 5]), 2);
    assert_eq!(count_short_runs(&vec![]), 0);
}

#[test]
fn largest_count() {
    assert_eq!(max_count(&vec![3, 9, 2]), 9);
    assert_eq!(max_count(&vec![]), 0);
}
