use zone_sniper::auto_duration::{apply_min_lookback_constraint, calculate_relevant_start_timestamp, find_relevant_ranges, total_range_candles};

/// Candle prices of a test series.
struct Candles {
    high: Vec<f64>,
    low: Vec<f64>,
    close: Vec<f64>,
}

/// The relevance flags of the candles for `current_price` and `threshold`:
/// a candle is relevant when its low is at most the top of the window and
/// the upper price its candle record holds (the close) is at least the
/// bottom.
fn relevance(c: &Candles, current_price: f64, threshold: f64) -> Vec<bool> {
    let multiplier = 1.0 + threshold;
    let price_min = current_price / multiplier;
    let price_max = current_price * multiplier;
    assert_eq!(c.high.len(), c.low.len());
    (0..c.low.len())
        .map(|i| c.low[i] <= price_max && c.close[i] >= price_min)
        .collect()
}

#[test]
fn test_discontinuous_ranges() {
    let candles = Candles {
        high: vec![96.0, 97.0, 125.0, 130.0, 99.0, 100.0, 101.0],
        low: vec![94.0, 95.0, 119.0, 124.0, 97.0, 98.0, 99.0],
        close: vec![96.0, 95.0, 124.0, 126.0, 98.0, 100.0, 101.0],
    };
    let flags = relevance(&candles, 100.0, 0.15);
    let ranges = find_relevant_ranges(&flags);
    assert_eq!(ranges.len(), 2, "Should find 2 discontinuous ranges");
    assert_eq!(ranges[0], (0, 2), "First range should be [0, 2)");
    assert_eq!(ranges[1], (4, 7), "Second range should be [4, 7)");
}

#[test]
fn test_continuous_range() {
    let candles = Candles {
        high: vec![96.0, 97.0, 98.0, 99.0, 100.0],
        low: vec![94.0, 95.0, 96.0, 97.0, 98.0],
        close: vec![96.0, 97.0, 98.0, 99.0, 100.0],
    };
    let flags = relevance(&candles, 100.0, 0.15);
    let ranges = find_relevant_ranges(&flags);
    assert_eq!(ranges.len(), 1, "Should find 1 continuous range");
    assert_eq!(ranges[0], (0, 5), "Range should span all candles");
}

#[test]
fn relevant_ranges_of_no_candles_are_empty() {
    assert!(find_relevant_ranges(&vec![]).is_empty());
    assert!(find_relevant_ranges(&vec![false, false]).is_empty());
}

#[test]
fn relevant_ranges_close_at_the_end() {
    let ranges = find_relevant_ranges(&vec![false, true, true, false, true]);
    assert_eq!(ranges, vec![(1, 3), (4, 5)]);
}

#[test]
fn total_of_ranges_adds_their_lengths() {
    assert_eq!(total_range_candles(&vec![(0, 2), (4, 7)]), 5);
    assert_eq!(total_range_candles(&vec![]), 0);
}

#[test]
fn min_lookback_extends_the_first_range_backwards() {
    // One day of hourly candles is 24; the ranges hold 5.
    let extended = apply_min_lookback_constraint(vec![(30, 32), (40, 43)], 3_600_000, 1);
    assert_eq!(extended, vec![(11, 32), (40, 43)]);
}

#[test]
fn min_lookback_stops_at_the_first_candle() {
    let extended = apply_min_lookback_constraint(vec![(3, 5)], 3_600_000, 1);
    assert_eq!(extended, vec![(0, 5)]);
}

#[test]
fn min_lookback_keeps_long_enough_ranges() {
    let ranges = vec![(0, 30)];
    assert_eq!(apply_min_lookback_constraint(ranges.clone(), 3_600_000, 1), ranges);
    assert_eq!(apply_min_lookback_constraint(vec![(5, 6)], 3_600_000, 0), vec![(5, 6)]);
    assert_eq!(apply_min_lookback_constraint(vec![], 3_600_000, 1), vec![]);
}

#[test]
fn relevant_start_timestamp_is_that_of_the_first_range() {
    assert_eq!(calculate_relevant_start_timestamp(1_000, 3_600_000, &vec![(2, 5), (7, 9)]), 1_000 + 2 * 3_600_000);
    assert_eq!(calculate_relevant_start_timestamp(1_000, 3_600_000, &vec![]), 1_000);
}
