//! Zone Sniper: trading-zone analysis.
//!
//! This crate holds the verified core of the analysis: candle-range
//! selection, zone clustering, trigger state machines, and the text and
//! interval handling that surrounds them.

pub mod maths_utils;
pub mod text_utils;
pub mod time_utils;
pub mod intervals;
pub mod pair_interval;
pub mod auto_duration;
pub mod price_horizon;
pub mod zone_scoring;
pub mod trading_view;
pub mod pair_context;
pub mod zone_efficacy;
pub mod triggers;
pub mod journey;
pub mod bn_kline;
pub mod raw_ohlcv;
pub mod pair_list;
pub mod config;
pub mod price_stream;
pub mod ui_state;
pub mod engine;
pub mod data_sources;
pub mod series;
