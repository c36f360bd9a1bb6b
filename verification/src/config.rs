//! Application configuration: exchange limits, time horizons, debug flags,
//! the demo build and the file names of the kline cache.
use vstd::prelude::*;
use crate::intervals::interval_ms_to_string;
use crate::time_utils::interval_label;

verus! {

/// Bounds of the time-horizon slider, in days.
pub struct TimeHorizonConfig {
    pub min_days: u64,
    pub max_days: u64,
    pub default_days: u64,
}

/// The time-horizon slider: 1 to 100 days, 7 by default.
pub fn time_horizon_config() -> (c: TimeHorizonConfig)
    ensures
        c.min_days == 1,
        c.max_days == 100,
        c.default_days == 7,
{
    TimeHorizonConfig { min_days: 1, max_days: 100, default_days: 7 }
}

/// Number of price zones of an analysis.
pub const DEFAULT_ZONE_COUNT: usize = 200;

/// Minimum number of candles for a meaningful zone analysis.
pub const MIN_CANDLES_FOR_ANALYSIS: usize = 100;

/// Settings of the exchange's REST client.
pub struct BinanceApiConfig {
    pub timeout_ms: u64,
    pub retries: u32,
    pub backoff_ms: u64,
}

/// Limits and weights of the exchange's REST API.
pub struct RestLimits {
    /// Klines asked for per request.
    pub klines_limit: i32,
    /// Calls made at once, per batch.
    pub simultaneous_calls_ceiling: usize,
    /// Pair/interval combinations requested at most.
    pub max_lookups_total: usize,
    /// Request weight allowed per minute.
    pub weight_limit_minute: u32,
    /// Weight of one kline request.
    pub kline_call_weight: u32,
    /// Age beyond which cached klines are reloaded, in seconds.
    pub kline_acceptable_age_sec: i64,
}

/// WebSocket endpoints and reconnection delays.
pub struct WsConfig {
    pub base_url: &'static str,
    pub combined_base_url: &'static str,
    pub max_reconnect_delay_sec: u64,
    pub initial_reconnect_delay_sec: u64,
}

/// Defaults of the REST client.
pub struct ClientDefaults {
    pub timeout_ms: u64,
    pub retries: u32,
    pub backoff_ms: u64,
}

/// The exchange configuration.
pub struct BinanceConfig {
    pub limits: RestLimits,
    pub ws: WsConfig,
    pub client: ClientDefaults,
    /// Every how many pages a debug line is printed.
    pub debug_print_interval: u32,
    pub max_pairs: usize,
}

/// Base URL of the combined WebSocket stream.
pub const COMBINED_STREAM_BASE_URL: &'static str = "wss://stream.binance.com:9443/stream?streams=";

/// Base URL of the single WebSocket stream.
pub const SINGLE_STREAM_BASE_URL: &'static str = "wss://stream.binance.com:9443/ws";

/// Longest wait between two reconnection attempts, in seconds.
pub const MAX_RECONNECT_DELAY_SEC: u64 = 300;

/// First wait before a reconnection attempt, in seconds.
pub const INITIAL_RECONNECT_DELAY_SEC: u64 = 1;

/// The exchange configuration in use.
pub fn binance_config() -> (c: BinanceConfig)
    ensures
        c.limits.klines_limit == 1000,
        c.limits.simultaneous_calls_ceiling == 500,
        c.limits.max_lookups_total == 1000,
        c.limits.weight_limit_minute == 6000,
        c.limits.kline_call_weight == 2,
        c.limits.kline_acceptable_age_sec == 86_400,
        c.ws.base_url@ == SINGLE_STREAM_BASE_URL@,
        c.ws.combined_base_url@ == COMBINED_STREAM_BASE_URL@,
        c.ws.max_reconnect_delay_sec == MAX_RECONNECT_DELAY_SEC,
        c.ws.initial_reconnect_delay_sec == INITIAL_RECONNECT_DELAY_SEC,
        c.client.timeout_ms == 5000,
        c.client.retries == 5,
        c.client.backoff_ms == 5000,
        c.debug_print_interval == 10,
        c.max_pairs == 20,
{
    BinanceConfig {
        limits: RestLimits {
            klines_limit: 1000,
            simultaneous_calls_ceiling: 500,
            max_lookups_total: 1000,
            weight_limit_minute: 6000,
            kline_call_weight: 2,
            kline_acceptable_age_sec: 86_400,
        },
        ws: WsConfig {
            base_url: SINGLE_STREAM_BASE_URL,
            combined_base_url: COMBINED_STREAM_BASE_URL,
            max_reconnect_delay_sec: MAX_RECONNECT_DELAY_SEC,
            initial_reconnect_delay_sec: INITIAL_RECONNECT_DELAY_SEC,
        },
        client: ClientDefaults { timeout_ms: 5000, retries: 5, backoff_ms: 5000 },
        debug_print_interval: 10,
        max_pairs: 20,
    }
}

impl Default for BinanceApiConfig {
    /// The client defaults of the exchange configuration.
    fn default() -> (c: Self)
        ensures
            c.timeout_ms == 5000,
            c.retries == 5,
            c.backoff_ms == 5000,
    {
        let b = binance_config();
        BinanceApiConfig { timeout_ms: b.client.timeout_ms, retries: b.client.retries, backoff_ms: b.client.backoff_ms }
    }
}

/// Switches for diagnostic output.
pub struct DebugFlags {
    pub print_zone_transition_summary: bool,
    pub print_zone_scoring_for_all_pairs: &'static str,
    pub print_zone_scoring_for_pair: &'static str,
    pub print_journey_summary: bool,
    pub print_ui_interactions: bool,
    pub print_price_stream_updates: bool,
    pub print_plot_cache_stats: bool,
    pub print_cva_cache_events: bool,
    pub print_monitor_progress: bool,
    pub print_simulation_events: bool,
    /// The journey attempt traced step by step; -1 for none.
    pub debug_journey_attempt_index: i32,
    pub print_trigger_updates: bool,
    pub print_journey_for_pair: &'static str,
    pub print_serde: bool,
    pub print_state_serde: bool,
    pub print_shutdown: bool,
    pub display_journey_status_lines: bool,
}

/// The debug switches in use: everything off.
pub fn debug_flags() -> (d: DebugFlags)
    ensures
        !d.print_zone_transition_summary,
        d.print_zone_scoring_for_all_pairs@.len() == 0,
        d.print_zone_scoring_for_pair@.len() == 0,
        !d.print_journey_summary,
        !d.print_ui_interactions,
        !d.print_price_stream_updates,
        !d.print_plot_cache_stats,
        !d.print_cva_cache_events,
        !d.print_monitor_progress,
        !d.print_simulation_events,
        d.debug_journey_attempt_index == -1,
        !d.print_trigger_updates,
        d.print_journey_for_pair@.len() == 0,
        !d.print_serde,
        !d.print_state_serde,
        !d.print_shutdown,
        !d.display_journey_status_lines,
{
    proof {
        reveal_strlit("");
    }
    DebugFlags {
        print_zone_transition_summary: false,
        print_zone_scoring_for_all_pairs: "",
        print_zone_scoring_for_pair: "",
        print_journey_summary: false,
        print_ui_interactions: false,
        print_price_stream_updates: false,
        print_plot_cache_stats: false,
        print_cva_cache_events: false,
        print_monitor_progress: false,
        print_simulation_events: false,
        debug_journey_attempt_index: -1,
        print_trigger_updates: false,
        print_journey_for_pair: "",
        print_serde: false,
        print_state_serde: false,
        print_shutdown: false,
        display_journey_status_lines: false,
    }
}

/// Resources bundled with the demo build.
pub struct DemoResources {
    /// The pairs the demo shows.
    pub pairs: Vec<&'static str>,
}

/// The demo build's configuration.
pub struct DemoConfig {
    /// Pairs loaded at most.
    pub max_pairs: usize,
    pub resources: DemoResources,
}

/// The demo configuration: at most ten pairs, five curated ones.
pub fn demo_config() -> (d: DemoConfig)
    ensures
        d.max_pairs == 10,
        d.resources.pairs@.len() == 5,
        d.resources.pairs@[0]@ == "BTCUSDT"@,
        d.resources.pairs@[1]@ == "ETHUSDT"@,
        d.resources.pairs@[2]@ == "SOLUSDT"@,
        d.resources.pairs@[3]@ == "BNBUSDT"@,
        d.resources.pairs@[4]@ == "PAXGUSDT"@,
{
    let mut pairs: Vec<&'static str> = Vec::new();
    pairs.push("BTCUSDT");
    pairs.push("ETHUSDT");
    pairs.push("SOLUSDT");
    pairs.push("BNBUSDT");
    pairs.push("PAXGUSDT");
    DemoConfig { max_pairs: 10, resources: DemoResources { pairs } }
}

/// More than this percentage of missing klines, and a series is cut after
/// its last gap instead of being filled.
pub const MAX_PCT_MISSING_KLINES_ALLOWED: u64 = 10;

/// Directory of the kline cache.
pub const KLINE_PATH: &'static str = "kline_data";

/// Base name of the kline cache files.
pub const KLINE_FILENAME_WITHOUT_EXT: &'static str = "kline";

/// Version of the kline cache format, as it appears in file names.
pub const KLINE_VERSION_LABEL: &'static str = "4.0";

/// File of the saved UI state.
pub const APP_STATE_PATH: &'static str = ".states.json";

/// The cache file name of an interval: `kline_v4.0_<interval>.bin`.
pub open spec fn cache_filename_text(interval_ms: int) -> Seq<char> {
    KLINE_FILENAME_WITHOUT_EXT@ + "_v"@ + KLINE_VERSION_LABEL@ + "_"@ + interval_label(interval_ms) + ".bin"@
}

/// The cache file name of an interval, e.g. `kline_v4.0_1h.bin` or
/// `kline_v4.0_15m.bin`.
pub fn kline_cache_filename(interval_ms: i64) -> (name: String)
    ensures
        name@ == cache_filename_text(interval_ms as int),
{
    let mut name = String::from_str(KLINE_FILENAME_WITHOUT_EXT);
    name.append("_v");
    name.append(KLINE_VERSION_LABEL);
    name.append("_");
    name.append(interval_ms_to_string(interval_ms));
    name.append(".bin");
    name
}

} // verus!
