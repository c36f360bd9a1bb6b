use zone_sniper::ui_state::{
    display_price, handle_global_shortcuts, CandleType, DataGenerationPanel, PlotVisibility, ScoreType, ShortcutAction,
    ShortcutKeys, ShortcutState, SimDirection, SimStepSize, ViewPanel, ZoneKind,
};

fn no_keys() -> ShortcutKeys {
    ShortcutKeys {
        num1: false,
        num2: false,
        num3: false,
        num4: false,
        num5: false,
        num6: false,
        h: false,
        escape: false,
        b: false,
        s: false,
        d: false,
        x: false,
        a: false,
    }
}

fn start_state() -> ShortcutState {
    ShortcutState {
        plot_visibility: PlotVisibility::default(),
        show_debug_help: false,
        debug_background_mode: ScoreType::default(),
        is_simulation_mode: false,
        sim_direction: SimDirection::default(),
        sim_step_size: SimStepSize::default(),
    }
}

#[test]
fn step_sizes_cycle_back_after_five_presses() {
    let mut s = SimStepSize::default();
    let mut labels = vec![s.label()];
    for _ in 0..5 {
        s.cycle();
        labels.push(s.label());
    }
    assert_eq!(labels, vec!["0.1%", "0.5%", "1.0%", "5.0%", "10.0%", "0.1%"]);
    assert_eq!(s, SimStepSize::Point1);
    assert_eq!(SimStepSize::Five.tenths_of_percent(), 50);
}

#[test]
fn direction_labels_and_toggle() {
    assert_eq!(SimDirection::Up.label(), "▲ PRICE UP");
    assert_eq!(SimDirection::Down.label(), "▼ PRICE DOWN");
    assert_eq!(SimDirection::Up.toggled(), SimDirection::Down);
    assert_eq!(SimDirection::default(), SimDirection::Up);
}

#[test]
fn background_cycles_through_zone_scores() {
    assert_eq!(ScoreType::FullCandleTVW.next_background_mode(), ScoreType::LowWickCount);
    assert_eq!(ScoreType::LowWickCount.next_background_mode(), ScoreType::HighWickCount);
    assert_eq!(ScoreType::HighWickCount.next_background_mode(), ScoreType::FullCandleTVW);
    assert_eq!(ScoreType::QuoteVolume.next_background_mode(), ScoreType::FullCandleTVW);
    assert_eq!(ScoreType::all().len(), 4);
    assert_eq!(ScoreType::QuoteVolume.label(), "Quote Volume (transitions)");
}

#[test]
fn layer_keys_toggle_visibility_and_help() {
    let mut st = start_state();
    let keys = ShortcutKeys { num1: true, num3: true, h: true, ..no_keys() };
    let actions = handle_global_shortcuts(&mut st, &keys);
    assert!(actions.is_empty());
    assert_eq!(st.plot_visibility, PlotVisibility { sticky: false, low_wicks: true, high_wicks: false });
    assert!(st.show_debug_help);
    let actions = handle_global_shortcuts(&mut st, &ShortcutKeys { escape: true, ..no_keys() });
    assert!(actions.is_empty());
    assert!(!st.show_debug_help);
}

#[test]
fn simulation_keys_apply_after_switching_it_on() {
    let mut st = start_state();
    let keys = ShortcutKeys { s: true, num4: true, d: true, a: true, ..no_keys() };
    let actions = handle_global_shortcuts(&mut st, &keys);
    assert!(st.is_simulation_mode);
    assert_eq!(st.sim_direction, SimDirection::Down);
    assert_eq!(
        actions,
        vec![
            ShortcutAction::ToggleSimulation,
            ShortcutAction::JumpToZone(ZoneKind::Sticky),
            ShortcutAction::AdjustPrice { direction: SimDirection::Down, step: SimStepSize::Point1 },
        ]
    );
}

#[test]
fn simulation_keys_do_nothing_outside_simulation() {
    let mut st = start_state();
    let keys = ShortcutKeys { num5: true, d: true, x: true, a: true, b: true, ..no_keys() };
    let actions = handle_global_shortcuts(&mut st, &keys);
    assert!(actions.is_empty());
    assert_eq!(st.sim_direction, SimDirection::Up);
    assert_eq!(st.sim_step_size, SimStepSize::Point1);
    assert_eq!(st.debug_background_mode, ScoreType::LowWickCount);
}

#[test]
fn displayed_price_follows_the_mode() {
    assert_eq!(display_price(true, Some(1.5), Some(2.0)), Some(1.5));
    assert_eq!(display_price(false, Some(1.5), Some(2.0)), Some(2.0));
    assert_eq!(display_price::<f64>(true, None, Some(2.0)), None);
}

#[test]
fn panels_and_candles() {
    let v = ViewPanel::new(ScoreType::HighWickCount);
    assert_eq!(v.selected_score_type, ScoreType::HighWickCount);
    let cfg = 0.15_f64;
    let p = DataGenerationPanel::new(200, Some("BTCUSDT".to_string()), vec!["BTCUSDT".to_string()], &cfg, 7);
    assert_eq!(p.zone_count, 200);
    assert_eq!(p.time_horizon_days, 7);
    assert_eq!(*p.auto_duration_config, 0.15);
    assert_eq!(CandleType::of_candle(true), CandleType::Bullish);
    assert_eq!(CandleType::of_candle(false), CandleType::Bearish);
}
