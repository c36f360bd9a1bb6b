use zone_sniper::pair_interval::PairInterval;
use zone_sniper::series::{analysis_window, find_matching_ohlcv, AnalysisWindow, InsufficientData, MostRecentIntervals, SeriesGrid};

fn grid(interval_ms: i64, count: usize) -> SeriesGrid {
    SeriesGrid {
        pair_interval: PairInterval { name: "BTCUSDT".to_string(), interval_ms },
        first_kline_timestamp_ms: 1_000,
        candle_count: count,
    }
}

#[test]
fn grid_arithmetic() {
    let g = grid(3_600_000, 10);
    assert_eq!(g.klines(), 10);
    assert_eq!(g.last_kline_timestamp_ms(), 1_000 + 9 * 3_600_000);
    assert_eq!(g.get_all_indices(), (0, 10));
    assert_eq!(g.total_duration_hours(), 10);
    assert_eq!(grid(1_800_000, 48).total_duration_hours(), 0);
    assert_eq!(grid(7_200_000, 3).total_duration_hours(), 6);
}

#[test]
fn most_recent_candles() {
    let g = grid(3_600_000, 10);
    assert_eq!(g.get_indices_most_recent(MostRecentIntervals::Count(4)), (6, 10));
    assert_eq!(g.get_indices_most_recent(MostRecentIntervals::Count(20)), (0, 10));
    assert_eq!(g.get_indices_most_recent(MostRecentIntervals::Duration(3 * 3_600_000 + 5)), (7, 10));
    assert_eq!(g.get_indices_most_recent(MostRecentIntervals::Duration(-3_600_000)), (0, 10));
}

#[test]
fn series_is_found_by_name_and_interval() {
    let series = vec![
        PairInterval { name: "BTCUSDT".to_string(), interval_ms: 3_600_000 },
        PairInterval { name: "ETHUSDT".to_string(), interval_ms: 1_800_000 },
    ];
    assert_eq!(find_matching_ohlcv(&series, "ETHUSDT", 1_800_000), Ok(1));
    assert_eq!(
        find_matching_ohlcv(&series, "ETHUSDT", 3_600_000),
        Err("No matching OHLCV data found for pair ETHUSDT with interval 3600000 ms".to_string())
    );
}

#[test]
fn analysis_window_needs_enough_candles() {
    let w = analysis_window(1_000, 60_000, &vec![(2, 50), (60, 120)], 100).unwrap();
    assert_eq!(w, AnalysisWindow { total_candles: 108, start_timestamp_ms: 1_000 + 2 * 60_000, end_timestamp_ms: 1_000 + 120 * 60_000 });
    let e = analysis_window(0, 60_000, &vec![(0, 50)], 100).unwrap_err();
    assert_eq!(e, InsufficientData { total_candles: 50, minimum: 100 });
    assert_eq!(e.message("BTCUSDT"), "Insufficient data: BTCUSDT has only 50 candles (minimum: 100).");
    assert_eq!(analysis_window(0, 60_000, &vec![], 0), Ok(AnalysisWindow { total_candles: 0, start_timestamp_ms: 0, end_timestamp_ms: 0 }));
}
