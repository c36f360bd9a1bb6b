use zone_sniper::bn_kline::{
    has_duplicate_kline_open_time, process_new_klines, seconds_to_next_minute, AllValidKlines4Pair, BNKline, BNKlineError,
    KlineBatchError, KlineItem, RateLimitReading,
};
use zone_sniper::pair_interval::PairInterval;
use zone_sniper::raw_ohlcv::{
    are_all_elements_same, count_none_elements, exceeds_missing_limit, fill_forward_mut, find_last_none_index,
    has_any_none_elements, OhlcvTimeSeriesTemp,
};

fn kline(t: i64, v: f64) -> BNKline<f64> {
    BNKline {
        open_timestamp_ms: t,
        open_price: Some(v),
        high_price: Some(v + 1.0),
        low_price: Some(v - 1.0),
        close_price: Some(v + 0.5),
        base_asset_volume: Some(10.0),
        quote_asset_volume: Some(100.0),
    }
}

fn open_times(v: &[BNKline<f64>]) -> Vec<i64> {
    v.iter().map(|k| k.open_timestamp_ms).collect()
}

#[test]
fn kline_record_is_read_by_position() {
    let items = vec![
        KlineItem::Integer(1_000),
        KlineItem::Text(Some(1.0)),
        KlineItem::Text(Some(2.0)),
        KlineItem::Text(Some(0.5)),
        KlineItem::Text(None),
        KlineItem::Integer(7),
        KlineItem::Integer(1_999),
        KlineItem::Text(Some(15.0)),
    ];
    let k = BNKline::from_items(&items).unwrap();
    assert_eq!(k.open_timestamp_ms, 1_000);
    assert_eq!(k.open_price, Some(1.0));
    assert_eq!(k.high_price, Some(2.0));
    assert_eq!(k.low_price, Some(0.5));
    assert_eq!(k.close_price, None);
    assert_eq!(k.base_asset_volume, None);
    assert_eq!(k.quote_asset_volume, Some(15.0));
}

#[test]
fn short_kline_record_leaves_values_out() {
    let k = BNKline::<f64>::from_items(&vec![KlineItem::Integer(5), KlineItem::Text(Some(3.0))]).unwrap();
    assert_eq!(k.open_price, Some(3.0));
    assert_eq!(k.quote_asset_volume, None);
}

#[test]
fn malformed_kline_records_are_refused() {
    let empty: Vec<KlineItem<f64>> = vec![];
    assert_eq!(BNKline::from_items(&empty).err(), Some(BNKlineError::InvalidLength));
    let bad = vec![KlineItem::Text(Some(1.0)), KlineItem::Text(Some(1.0))];
    assert_eq!(BNKline::from_items(&bad).err(), Some(BNKlineError::InvalidType("open_time".to_string())));
}

#[test]
fn kline_error_messages() {
    assert_eq!(BNKlineError::InvalidLength.message(), "Invalid length");
    assert_eq!(BNKlineError::InvalidType("open_time".to_string()).message(), "Invalid type: open_time");
    assert_eq!(
        BNKlineError::ConnectionFailed("timeout".to_string()).message(),
        "Binance API connection failed: timeout."
    );
}

#[test]
fn duplicate_open_times_are_found() {
    assert!(!has_duplicate_kline_open_time(&vec![kline(1, 1.0), kline(2, 1.0), kline(3, 1.0)]));
    assert!(has_duplicate_kline_open_time(&vec![kline(1, 1.0), kline(2, 1.0), kline(1, 5.0)]));
    assert!(!has_duplicate_kline_open_time::<f64>(&vec![]));
}

#[test]
fn pages_are_prepended_without_the_repeated_kline() {
    let mut all = vec![kline(300, 3.0), kline(400, 4.0)];
    let page = vec![kline(100, 1.0), kline(200, 2.0), kline(300, 3.0)];
    assert_eq!(process_new_klines(page, 1000, &mut all), Ok((Some(100), true)));
    assert_eq!(open_times(&all), vec![100, 200, 300, 400]);
}

#[test]
fn full_page_asks_for_more() {
    let mut all = vec![];
    let page = vec![kline(100, 1.0), kline(200, 2.0)];
    assert_eq!(process_new_klines(page, 2, &mut all), Ok((Some(100), false)));
    assert_eq!(open_times(&all), vec![100]);
}

#[test]
fn single_kline_page_ends_paging() {
    let mut all = vec![kline(300, 3.0)];
    assert_eq!(process_new_klines(vec![kline(300, 3.0)], 1000, &mut all), Ok((Some(300), true)));
    assert_eq!(open_times(&all), vec![300]);
}

#[test]
fn empty_page_is_an_error() {
    let mut all = vec![kline(1, 1.0)];
    assert_eq!(process_new_klines(vec![], 1000, &mut all), Err(KlineBatchError::EmptyBatch));
    assert_eq!(open_times(&all), vec![1]);
}

#[test]
fn rate_limit_pauses_when_headroom_is_short() {
    let r = RateLimitReading { interval_num: 1, per_minute: true, count: 5_999 };
    assert!(r.requires_pause(2, 6_000));
    assert!(!RateLimitReading { count: 5_998, ..r }.requires_pause(2, 6_000));
    assert!(!RateLimitReading { per_minute: false, ..r }.requires_pause(2, 6_000));
    assert!(!RateLimitReading { interval_num: 2, ..r }.requires_pause(2, 6_000));
    assert!(RateLimitReading { count: 1, ..r }.requires_pause(10, 5));
}

#[test]
fn pause_lasts_until_the_next_minute() {
    assert_eq!(seconds_to_next_minute(120), 60);
    assert_eq!(seconds_to_next_minute(125), 55);
    assert_eq!(seconds_to_next_minute(59), 1);
}

fn grid_klines() -> AllValidKlines4Pair<f64> {
    AllValidKlines4Pair::new(
        vec![kline(0, 1.0), kline(60_000, 2.0), kline(180_000, 4.0)],
        PairInterval { name: "BTCUSDT".to_string(), interval_ms: 60_000 },
    )
}

#[test]
fn klines_are_laid_out_on_their_grid() {
    let klines = grid_klines();
    assert_eq!(klines.first_timestamp_ms(), 0);
    assert_eq!(klines.last_timestamp_ms(), 180_000);
    let s = OhlcvTimeSeriesTemp::from_klines(klines);
    assert_eq!(s.first_kline_timestamp_ms, 0);
    assert_eq!(s.open_prices, vec![Some(1.0), Some(2.0), None, Some(4.0)]);
    assert_eq!(s.high_prices, vec![Some(2.0), Some(3.0), None, Some(5.0)]);
    assert_eq!(s.quote_asset_volumes, vec![Some(100.0), Some(100.0), None, Some(100.0)]);
}

#[test]
fn later_kline_in_a_slot_wins() {
    let klines = AllValidKlines4Pair::new(
        vec![kline(0, 1.0), kline(0, 9.0), kline(60_000, 2.0)],
        PairInterval { name: "X".to_string(), interval_ms: 60_000 },
    );
    let s = OhlcvTimeSeriesTemp::from_klines(klines);
    assert_eq!(s.open_prices, vec![Some(9.0), Some(2.0)]);
}

#[test]
fn gaps_are_filled_forward() {
    let mut s = OhlcvTimeSeriesTemp::from_klines(grid_klines());
    let gaps = s.fill_gaps(9999.99999, 0.0);
    assert_eq!(gaps, vec![1, 1, 1, 1, 1, 1]);
    assert!(are_all_elements_same(&gaps));
    assert_eq!(s.open_prices, vec![Some(1.0), Some(2.0), Some(2.0), Some(4.0)]);
    assert_eq!(s.base_asset_volumes, vec![Some(10.0), Some(10.0), Some(10.0), Some(10.0)]);
}

#[test]
fn cut_starts_the_series_after_its_last_gap() {
    let mut s = OhlcvTimeSeriesTemp::from_klines(grid_klines());
    s.cut_before_last_gap();
    assert_eq!(s.first_kline_timestamp_ms, 180_000);
    assert_eq!(s.open_prices, vec![Some(4.0)]);
    assert_eq!(s.low_prices, vec![Some(3.0)]);
    let gaps = s.fill_gaps(9999.99999, 0.0);
    assert!(gaps.is_empty());
    assert_eq!(s.open_prices, vec![Some(4.0)]);
    assert_eq!(s.quote_asset_volumes, vec![Some(100.0)]);
}

#[test]
fn a_grid_without_gaps_is_not_cut() {
    let klines = AllValidKlines4Pair::new(
        vec![kline(0, 1.0), kline(60_000, 2.0)],
        PairInterval { name: "X".to_string(), interval_ms: 60_000 },
    );
    let mut s = OhlcvTimeSeriesTemp::from_klines(klines);
    s.cut_before_last_gap();
    assert_eq!(s.first_kline_timestamp_ms, 0);
    assert_eq!(s.open_prices, vec![Some(1.0), Some(2.0)]);
}

#[test]
fn preparation_cuts_only_when_too_much_is_missing() {
    let mut s = OhlcvTimeSeriesTemp::from_klines(grid_klines());
    let (cut, gaps) = s.prepare_for_analysis(9999.99999, 0.0);
    assert!(cut);
    assert!(gaps.is_empty());
    assert_eq!(s.first_kline_timestamp_ms, 180_000);
    assert_eq!(s.open_prices, vec![Some(4.0)]);

    let mut ks = Vec::new();
    for i in 0..12 {
        if i != 5 {
            ks.push(kline(i * 60_000, i as f64));
        }
    }
    let mut t = OhlcvTimeSeriesTemp::from_klines(AllValidKlines4Pair::new(
        ks,
        PairInterval { name: "X".to_string(), interval_ms: 60_000 },
    ));
    let (cut, gaps) = t.prepare_for_analysis(9999.99999, 0.0);
    assert!(!cut);
    assert_eq!(gaps, vec![1, 1, 1, 1, 1, 1]);
    assert_eq!(t.first_kline_timestamp_ms, 0);
    assert_eq!(t.open_prices[5], Some(4.0));
}

#[test]
fn missing_limit_is_a_share_of_the_slots() {
    assert!(!exceeds_missing_limit(1, 10, 10));
    assert!(exceeds_missing_limit(2, 10, 10));
    assert!(exceeds_missing_limit(1, 4, 10));
    assert!(!exceeds_missing_limit(0, 0, 10));
}

#[test]
fn column_helpers() {
    let v = vec![Some(1), None, Some(3), None, Some(5)];
    assert!(has_any_none_elements(&v));
    assert_eq!(count_none_elements(&v), 2);
    assert_eq!(find_last_none_index(&v), 3);
    let full = vec![Some(1), Some(2)];
    assert!(!has_any_none_elements(&full));
    assert_eq!(find_last_none_index(&full), 0);
    let mut w = vec![None, Some(2), None];
    assert_eq!(fill_forward_mut(&mut w, 7), 2);
    assert_eq!(w, vec![Some(7), Some(2), Some(2)]);
    assert!(are_all_elements_same(&vec![]));
    assert!(!are_all_elements_same(&vec![1, 2]));
}
