use zone_sniper::intervals::{interval_ms_to_string, try_interval_from_ms, IntervalToMs, KlineInterval};
use zone_sniper::maths_utils::{index_into_range, intervals};
use zone_sniper::pair_context::{generate_state_signals, has_signals, zones_changed, TradingSignal};
use zone_sniper::pair_interval::PairInterval;
use zone_sniper::price_horizon;
use zone_sniper::text_utils::{ends_with, i64_to_decimal, str_equal, u64_to_decimal, usize_to_decimal};
use zone_sniper::time_utils::{seconds_ago_from, epoch_ms_to_utc, epoch_sec_to_local, epoch_sec_to_utc, how_many_seconds_ago, local_now_as_timestamp_ms, seconds_between, TimeUtils};
use zone_sniper::trading_view::{classify_sticky_superzone, find_superzones_at_price, group_contiguous_zones, ZoneType};
use zone_sniper::zone_scoring::{find_target_clusters, indices_where};

#[test]
fn grid_counts_and_indices() {
    assert_eq!(intervals(0, 3_600_000, 1_800_000), 3);
    assert_eq!(intervals(1_000, 1_000, 60_000), 1);
    assert_eq!(index_into_range(1_000, 1_000 + 5 * 60_000, 60_000), 5);
    assert_eq!(index_into_range(0, -120_000, 60_000), -2);
}

#[test]
fn decimal_texts() {
    assert_eq!(u64_to_decimal(0), "0");
    assert_eq!(u64_to_decimal(1_234_567), "1234567");
    assert_eq!(usize_to_decimal(42), "42");
    assert_eq!(i64_to_decimal(-3_600_000), "-3600000");
    assert_eq!(i64_to_decimal(i64::MIN), "-9223372036854775808");
    assert!(ends_with("BTCUSDT", "USDT"));
    assert!(!ends_with("USD", "USDT"));
    assert!(str_equal("abc", "abc"));
    assert!(!str_equal("abc", "abd"));
}

#[test]
fn interval_codes_and_labels() {
    assert_eq!(try_interval_from_ms(1_800_000), Ok(KlineInterval::Interval30m));
    assert_eq!(try_interval_from_ms(2_592_000_000), Ok(KlineInterval::Interval1M));
    assert_eq!(try_interval_from_ms(12_345), Err("Unsupported interval: 12345ms".to_string()));
    assert_eq!(KlineInterval::Interval4h.to_ms(), 14_400_000);
    assert_eq!(interval_ms_to_string(60_000), "1m");
    assert_eq!(interval_ms_to_string(604_800_000), "1w");
    assert_eq!(interval_ms_to_string(7), "unknown");
    assert_eq!(TimeUtils::interval_to_string(TimeUtils::MS_IN_D), "1d");
    assert_eq!(TimeUtils::STANDARD_TIME_FORMAT, "%Y-%m-%d");
}

#[test]
fn calendar_dates() {
    assert_eq!(epoch_sec_to_utc(0), "1970-01-01");
    assert_eq!(epoch_ms_to_utc(86_400_000 * 365), "1971-01-01");
    assert_eq!(epoch_ms_to_utc(-1), "1970-01-01");
    assert_eq!(epoch_sec_to_local(1_700_000_000), "2023-11-14");
    assert_eq!(epoch_sec_to_local(i64::MAX), "");
    assert_eq!(seconds_between(10_500, 1_000), 9);
    assert_eq!(seconds_between(1_000, 10_500), -9);
    let now = local_now_as_timestamp_ms().expect("the test machine's clock reads after 1970");
    assert!(now > 1_600_000_000_000);
    assert!(how_many_seconds_ago(now - 5_000).unwrap() >= 5);
    assert!(how_many_seconds_ago(now + 60_000).unwrap() <= -59);
    assert_eq!(how_many_seconds_ago(i64::MIN), None);
    assert_eq!(seconds_ago_from(None, 0), None);
    assert_eq!(seconds_ago_from(Some(10_500), 1_000), Some(9));
    assert_eq!(seconds_ago_from(Some(1_000), 10_500), Some(-9));
    assert_eq!(seconds_ago_from(Some(1), i64::MIN), None);
    assert_eq!(seconds_ago_from(Some(0), i64::MIN + 1), Some(9_223_372_036_854_775));
}

#[test]
fn pair_names_split_into_base_and_quote() {
    assert_eq!(PairInterval::get_quote("BTCUSDT"), Some("USDT"));
    assert_eq!(PairInterval::get_base("BTCUSDT"), Some("BTC"));
    assert_eq!(PairInterval::get_base_and_quote("ETHBTC"), Some(("ETH", "BTC")));
    assert_eq!(PairInterval::get_base_and_quote("XYZ"), None);
    assert_eq!(PairInterval::split_pair_name("SOLFDUSD"), ("SOL", "FDUSD"));
    assert_eq!(PairInterval::split_pair_name("XYZ"), ("Invalid", "Name"));
    let p = PairInterval { name: "PAXGUSDT".to_string(), interval_ms: 3_600_000 };
    assert_eq!(p.name(), "PAXGUSDT");
    assert_eq!(p.bn_name(), "PAXGUSDT");
    assert_eq!(p.to_display_string(), "Base: PAXG, Quote: USDT, full: PAXGUSDT, Interval: 3600000ms (or 1h) ");
}

#[test]
fn islands_bridge_small_gaps() {
    let land = vec![true, false, true, false, false, false, true, true];
    assert_eq!(find_target_clusters(&land, 1), vec![(0, 2), (6, 7)]);
    assert_eq!(find_target_clusters(&land, 3), vec![(0, 7)]);
    assert_eq!(find_target_clusters(&vec![false, false], 2), vec![]);
    assert_eq!(indices_where(&land), vec![0, 2, 6, 7]);
}

#[test]
fn contiguous_zones_group() {
    assert_eq!(group_contiguous_zones(&vec![3, 4, 5, 9, 10, 20]), vec![(0, 2), (3, 4), (5, 5)]);
    assert_eq!(group_contiguous_zones(&vec![]), vec![]);
}

#[test]
fn sticky_roles_and_zones_at_price() {
    assert_eq!(classify_sticky_superzone(4, Some(4), Some(9)), ZoneType::Support);
    assert_eq!(classify_sticky_superzone(9, Some(4), Some(9)), ZoneType::Sticky);
    assert_eq!(classify_sticky_superzone(9, None, Some(9)), ZoneType::Resistance);
    assert_eq!(classify_sticky_superzone(1, None, None), ZoneType::Sticky);
    let zones = find_superzones_at_price(&vec![4, 7], &vec![2], &vec![], Some(4), None);
    assert_eq!(zones, vec![(4, ZoneType::Support), (7, ZoneType::Sticky), (2, ZoneType::LowWicks)]);
    assert_eq!(ZoneType::HighWicks.debug_name(), "HighWicks");
}

#[test]
fn signals_follow_sticky_zones() {
    let zones = vec![(3, ZoneType::Sticky), (5, ZoneType::LowWicks), (8, ZoneType::Sticky)];
    let signals = generate_state_signals(&zones);
    assert_eq!(signals, vec![TradingSignal::InStickyZone { superzone_id: 3 }, TradingSignal::InStickyZone { superzone_id: 8 }]);
    assert!(has_signals(&signals));
    assert!(!has_signals(&generate_state_signals(&vec![(1, ZoneType::Support)])));
    assert_eq!(signals[1].description(), "🔒 In sticky superzone 8");
    assert!(signals[0].is_signal());
    assert!(zones_changed(&zones, &vec![]));
    assert!(!zones_changed(&zones, &zones.clone()));
}

#[test]
fn horizon_lookback() {
    assert_eq!(price_horizon::apply_min_lookback_constraint(vec![(30, 32)], 3_600_000, 1), vec![(8, 32)]);
    assert_eq!(price_horizon::apply_min_lookback_constraint(vec![(30, 32)], 0, 1), vec![(30, 32)]);
    assert_eq!(price_horizon::calculate_relevant_start_timestamp(1_000, 60_000, &vec![(3, 9)]), 1_000 + 180_000);
    assert_eq!(price_horizon::calculate_relevant_start_timestamp(1_000, 60_000, &vec![]), 0);
}
