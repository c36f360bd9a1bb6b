use zone_sniper::config::{binance_config, debug_flags, demo_config, kline_cache_filename, time_horizon_config, BinanceApiConfig};
use zone_sniper::price_stream::{accepts_tick, build_combined_stream_url, count_connected, ConnectionStatus, ReconnectBackoff};

#[test]
fn cache_file_name_holds_interval_and_version() {
    assert_eq!(kline_cache_filename(1_800_000), "kline_v4.0_30m.bin");
    assert_eq!(kline_cache_filename(3_600_000), "kline_v4.0_1h.bin");
    assert_eq!(kline_cache_filename(12_345), "kline_v4.0_unknown.bin");
}

#[test]
fn exchange_configuration() {
    let b = binance_config();
    assert_eq!(b.limits.klines_limit, 1000);
    assert_eq!(b.limits.simultaneous_calls_ceiling, 500);
    assert_eq!(b.limits.max_lookups_total, 1000);
    assert_eq!(b.limits.weight_limit_minute, 6000);
    assert_eq!(b.limits.kline_call_weight, 2);
    assert_eq!(b.limits.kline_acceptable_age_sec, 86_400);
    assert_eq!(b.ws.base_url, "wss://stream.binance.com:9443/ws");
    assert_eq!(b.ws.combined_base_url, "wss://stream.binance.com:9443/stream?streams=");
    assert_eq!(b.ws.max_reconnect_delay_sec, 300);
    assert_eq!(b.ws.initial_reconnect_delay_sec, 1);
    assert_eq!(b.max_pairs, 20);
    assert_eq!(b.debug_print_interval, 10);
    let c = BinanceApiConfig::default();
    assert_eq!((c.timeout_ms, c.retries, c.backoff_ms), (5000, 5, 5000));
}

#[test]
fn other_configurations() {
    let t = time_horizon_config();
    assert_eq!((t.min_days, t.max_days, t.default_days), (1, 100, 7));
    let d = demo_config();
    assert_eq!(d.max_pairs, 10);
    assert_eq!(d.resources.pairs, vec!["BTCUSDT", "ETHUSDT", "SOLUSDT", "BNBUSDT", "PAXGUSDT"]);
    let f = debug_flags();
    assert!(!f.print_serde && !f.print_journey_summary && !f.display_journey_status_lines);
    assert_eq!(f.debug_journey_attempt_index, -1);
    assert_eq!(f.print_journey_for_pair, "");
}

#[test]
fn combined_stream_url_joins_the_symbol_streams() {
    let url = build_combined_stream_url(&vec!["btcusdt".to_string(), "ethusdt".to_string()]);
    assert_eq!(url, "wss://stream.binance.com:9443/stream?streams=btcusdt@miniTicker/ethusdt@miniTicker");
    assert_eq!(build_combined_stream_url(&vec![]), "wss://stream.binance.com:9443/stream?streams=");
    assert_eq!(
        build_combined_stream_url(&vec!["solusdt".to_string()]),
        "wss://stream.binance.com:9443/stream?streams=solusdt@miniTicker"
    );
}

#[test]
fn ticks_are_kept_for_subscribed_symbols_only() {
    let subscribed = vec!["btcusdt".to_string(), "ethusdt".to_string()];
    assert!(accepts_tick(false, &subscribed, "ethusdt"));
    assert!(!accepts_tick(false, &subscribed, "solusdt"));
    assert!(!accepts_tick(true, &subscribed, "ethusdt"));
}

#[test]
fn connected_streams_are_counted() {
    let s = vec![ConnectionStatus::Connected, ConnectionStatus::Connecting, ConnectionStatus::Connected, ConnectionStatus::Disconnected];
    assert_eq!(count_connected(&s), 2);
    assert_eq!(count_connected(&vec![]), 0);
}

#[test]
fn reconnection_backs_off_exponentially_up_to_the_maximum() {
    let mut b = ReconnectBackoff::new();
    let mut waits = vec![];
    for _ in 0..11 {
        waits.push(b.on_failed());
    }
    assert_eq!(waits, vec![1, 2, 4, 8, 16, 32, 64, 128, 256, 300, 300]);
    b.on_closed();
    assert_eq!(b.delay_sec, 1);
}
