use zone_sniper::data_sources::{
    check_cache_metadata, demo_series_count, demo_series_positions, name_less, provider_order, should_write_cache, unique_pair_names, CacheRejection,
    ProviderKind,
};
use zone_sniper::engine::{prioritize_selected, should_queue_on_tick, worker_status_message, JobQueue};

#[test]
fn sources_are_tried_in_order() {
    assert_eq!(provider_order(false, true), vec![ProviderKind::LocalCache, ProviderKind::BinanceApi]);
    assert_eq!(provider_order(true, true), vec![ProviderKind::BinanceApi, ProviderKind::LocalCache]);
    assert_eq!(provider_order(false, false), vec![ProviderKind::BinanceApi]);
    assert_eq!(provider_order(true, false), vec![ProviderKind::BinanceApi]);
}

#[test]
fn only_exchange_data_is_cached() {
    assert!(should_write_cache("Binance API"));
    assert!(!should_write_cache("Local Cache"));
    assert!(!should_write_cache(ProviderKind::WasmDemo.signature()));
    assert_eq!(ProviderKind::LocalCache.signature(), "Local Cache");
}

#[test]
fn cache_checks_version_then_interval_then_age() {
    assert_eq!(check_cache_metadata(true, 1_800_000, 1_800_000, 100, 86_400), Ok(()));
    assert_eq!(check_cache_metadata(false, 1, 2, 10, 0), Err(CacheRejection::VersionMismatch));
    let e = check_cache_metadata(true, 3_600_000, 1_800_000, 100_000, 86_400).unwrap_err();
    assert_eq!(e, CacheRejection::IntervalMismatch { file_interval_ms: 3_600_000, expected_interval_ms: 1_800_000 });
    assert_eq!(e.message(), "Cache interval mismatch: file has 3600000ms intervals, expected 1800000ms");
    let e = check_cache_metadata(true, 60_000, 60_000, 90_000, 86_400).unwrap_err();
    assert_eq!(e.message(), "Cache too old: created 90000 seconds ago (limit: 86400 seconds)");
    // Exactly at the limit is still fresh.
    assert_eq!(check_cache_metadata(true, 60_000, 60_000, 86_400, 86_400), Ok(()));
}

#[test]
fn pair_names_are_unique_and_sorted() {
    let names = vec!["ETHUSDT".to_string(), "BTCUSDT".to_string(), "ETHUSDT".to_string(), "ADAUSDT".to_string()];
    assert_eq!(unique_pair_names(&names), vec!["ADAUSDT", "BTCUSDT", "ETHUSDT"]);
    assert!(unique_pair_names(&vec![]).is_empty());
    assert_eq!(unique_pair_names(&vec!["B".to_string(), "AB".to_string(), "A".to_string()]), vec!["A", "AB", "B"]);
}

#[test]
fn name_order_is_by_character() {
    assert!(name_less("AB", "ABC"));
    assert!(name_less("ABC", "ABD"));
    assert!(!name_less("ABC", "ABC"));
    assert!(!name_less("B", "AZ"));
    assert!(name_less("", "A"));
}

#[test]
fn demo_keeps_at_most_its_pairs() {
    assert_eq!(demo_series_count(25, 10), 10);
    assert_eq!(demo_series_count(3, 10), 3);
}

#[test]
fn job_queue_is_first_in_first_out_with_priority() {
    let mut q = JobQueue::new();
    q.enqueue("ETHUSDT");
    q.enqueue("SOLUSDT");
    q.force_recalc("BTCUSDT");
    assert_eq!(q.len(), 3);
    assert_eq!(q.next_dispatch(true), None);
    assert_eq!(q.next_dispatch(false), Some("BTCUSDT".to_string()));
    assert_eq!(q.next_dispatch(false), Some("ETHUSDT".to_string()));
    assert!(!q.enqueue_if_absent("SOLUSDT"));
    assert!(q.enqueue_if_absent("ADAUSDT"));
    assert_eq!(q.next_dispatch(false), Some("SOLUSDT".to_string()));
    assert_eq!(q.next_dispatch(false), Some("ADAUSDT".to_string()));
    assert_eq!(q.next_dispatch(false), None);
}

#[test]
fn ticks_queue_idle_pairs_that_moved() {
    assert!(should_queue_on_tick(false, true, false));
    assert!(should_queue_on_tick(false, false, true));
    assert!(!should_queue_on_tick(false, false, false));
    assert!(!should_queue_on_tick(true, true, true));
}

#[test]
fn worker_status_line() {
    assert_eq!(worker_status_message(Some("BTCUSDT"), 3), Some("Processing BTCUSDT".to_string()));
    assert_eq!(worker_status_message(None, 3), Some("Queued: 3".to_string()));
    assert_eq!(worker_status_message(None, 0), None);
}

#[test]
fn selected_pair_goes_first() {
    let mut ready = vec!["A".to_string(), "B".to_string(), "C".to_string()];
    assert!(!prioritize_selected(&mut ready, "C", true));
    assert_eq!(ready, vec!["C", "B", "A"]);
    let mut ready = vec!["A".to_string(), "B".to_string()];
    assert!(prioritize_selected(&mut ready, "S", true));
    assert_eq!(ready, vec!["S", "A", "B"]);
    let mut ready = vec!["A".to_string()];
    assert!(!prioritize_selected(&mut ready, "S", false));
    assert_eq!(ready, vec!["A"]);
}

#[test]
fn demo_keeps_the_listed_pairs_whatever_their_case() {
    let names = vec!["btcusdt".to_string(), "XRPUSDT".to_string(), "EthUsdt".to_string()];
    assert_eq!(demo_series_positions(&names, &vec!["BTCUSDT", "ETHUSDT"]), vec![0, 2]);
    assert!(demo_series_positions(&names, &vec![]).is_empty());
    assert_eq!(demo_series_positions(&names, &vec!["xrpusdt"]), vec![1]);
}
