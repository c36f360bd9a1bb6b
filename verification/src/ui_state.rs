//! The state of the user interface that is not drawing: which layers are
//! shown, the simulation controls, and what the keyboard shortcuts do.
use vstd::prelude::*;

verus! {

/// Which zone layers the plot shows.
#[derive(Debug, Clone, Copy, PartialEq, Eq, Structural)]
pub struct PlotVisibility {
    pub sticky: bool,
    pub low_wicks: bool,
    pub high_wicks: bool,
}

impl Default for PlotVisibility {
    /// Every layer shown.
    fn default() -> (v: Self)
        ensures
            v.sticky && v.low_wicks && v.high_wicks,
    {
        PlotVisibility { sticky: true, low_wicks: true, high_wicks: true }
    }
}

/// Which way simulated price moves go.
#[derive(Debug, Clone, Copy, PartialEq, Eq, Structural)]
pub enum SimDirection {
    Up,
    Down,
}

impl Default for SimDirection {
    fn default() -> (d: Self)
        ensures
            d == SimDirection::Up,
    {
        SimDirection::Up
    }
}

/// The label of a direction.
pub open spec fn direction_label(d: SimDirection) -> Seq<char> {
    match d {
        SimDirection::Up => "▲ PRICE UP"@,
        SimDirection::Down => "▼ PRICE DOWN"@,
    }
}

/// The other direction.
pub open spec fn opposite(d: SimDirection) -> SimDirection {
    match d {
        SimDirection::Up => SimDirection::Down,
        SimDirection::Down => SimDirection::Up,
    }
}

impl SimDirection {
    /// The label shown for the direction.
    pub fn label(&self) -> (s: &'static str)
        ensures
            s@ == direction_label(*self),
    {
        match self {
            SimDirection::Up => "▲ PRICE UP",
            SimDirection::Down => "▼ PRICE DOWN",
        }
    }

    /// The other direction.
    pub fn toggled(&self) -> (d: SimDirection)
        ensures
            d == opposite(*self),
    {
        match self {
            SimDirection::Up => SimDirection::Down,
            SimDirection::Down => SimDirection::Up,
        }
    }
}

/// The size of one simulated price step.
#[derive(Debug, Clone, Copy, PartialEq, Eq, Structural)]
pub enum SimStepSize {
    /// 0.1%
    Point1,
    /// 0.5%
    Point5,
    /// 1%
    One,
    /// 5%
    Five,
    /// 10%
    Ten,
}

impl Default for SimStepSize {
    fn default() -> (s: Self)
        ensures
            s == SimStepSize::Point1,
    {
        SimStepSize::Point1
    }
}

/// The next step size: 0.1% → 0.5% → 1% → 5% → 10% → 0.1%.
pub open spec fn next_step(s: SimStepSize) -> SimStepSize {
    match s {
        SimStepSize::Point1 => SimStepSize::Point5,
        SimStepSize::Point5 => SimStepSize::One,
        SimStepSize::One => SimStepSize::Five,
        SimStepSize::Five => SimStepSize::Ten,
        SimStepSize::Ten => SimStepSize::Point1,
    }
}

/// The step, in tenths of a percent.
pub open spec fn step_tenths_of_percent(s: SimStepSize) -> u32 {
    match s {
        SimStepSize::Point1 => 1,
        SimStepSize::Point5 => 5,
        SimStepSize::One => 10,
        SimStepSize::Five => 50,
        SimStepSize::Ten => 100,
    }
}

/// The label of a step: its percentage with one decimal.
pub open spec fn step_label(s: SimStepSize) -> Seq<char> {
    match s {
        SimStepSize::Point1 => "0.1%"@,
        SimStepSize::Point5 => "0.5%"@,
        SimStepSize::One => "1.0%"@,
        SimStepSize::Five => "5.0%"@,
        SimStepSize::Ten => "10.0%"@,
    }
}

impl SimStepSize {
    /// Moves to the next step size.
    pub fn cycle(&mut self)
        ensures
            *final(self) == next_step(*old(self)),
    {
        *self = match self {
            SimStepSize::Point1 => SimStepSize::Point5,
            SimStepSize::Point5 => SimStepSize::One,
            SimStepSize::One => SimStepSize::Five,
            SimStepSize::Five => SimStepSize::Ten,
            SimStepSize::Ten => SimStepSize::Point1,
        };
    }

    /// The step in tenths of a percent (1 for 0.1%, 100 for 10%).
    pub fn tenths_of_percent(&self) -> (t: u32)
        ensures
            t == step_tenths_of_percent(*self),
    {
        match self {
            SimStepSize::Point1 => 1,
            SimStepSize::Point5 => 5,
            SimStepSize::One => 10,
            SimStepSize::Five => 50,
            SimStepSize::Ten => 100,
        }
    }

    /// The label shown for the step.
    pub fn label(&self) -> (s: &'static str)
        ensures
            s@ == step_label(*self),
    {
        match self {
            SimStepSize::Point1 => "0.1%",
            SimStepSize::Point5 => "0.5%",
            SimStepSize::One => "1.0%",
            SimStepSize::Five => "5.0%",
            SimStepSize::Ten => "10.0%",
        }
    }
}

/// Cycling through the step sizes comes back to the start after five
/// steps, and visits five different sizes on the way.
pub proof fn lemma_step_cycle_period(s: SimStepSize)
    ensures
        next_step(next_step(next_step(next_step(next_step(s))))) == s,
        next_step(s) != s,
        step_tenths_of_percent(next_step(s)) > step_tenths_of_percent(s) || next_step(s) == SimStepSize::Point1,
{
}

/// The zone scores the plot background can show.
#[derive(Debug, Clone, Copy, PartialEq, Eq, Structural)]
pub enum ScoreType {
    FullCandleTVW,
    LowWickCount,
    HighWickCount,
    QuoteVolume,
}

impl Default for ScoreType {
    fn default() -> (t: Self)
        ensures
            t == ScoreType::FullCandleTVW,
    {
        ScoreType::FullCandleTVW
    }
}

/// The label of a score type.
pub open spec fn score_type_label(t: ScoreType) -> Seq<char> {
    match t {
        ScoreType::FullCandleTVW => "Full Candle Temporal-Volume Weighted"@,
        ScoreType::LowWickCount => "Low Wick Count (Rejection Prob. Numerator)"@,
        ScoreType::HighWickCount => "High Wick Count (Rejection Prob. Numerator)"@,
        ScoreType::QuoteVolume => "Quote Volume (transitions)"@,
    }
}

/// The background shown after the next press of the background key:
/// sticky → low wicks → high wicks → sticky.
pub open spec fn next_background(t: ScoreType) -> ScoreType {
    match t {
        ScoreType::FullCandleTVW => ScoreType::LowWickCount,
        ScoreType::LowWickCount => ScoreType::HighWickCount,
        _ => ScoreType::FullCandleTVW,
    }
}

impl ScoreType {
    /// The label shown for the score type.
    pub fn label(&self) -> (s: &'static str)
        ensures
            s@ == score_type_label(*self),
    {
        match self {
            ScoreType::FullCandleTVW => "Full Candle Temporal-Volume Weighted",
            ScoreType::LowWickCount => "Low Wick Count (Rejection Prob. Numerator)",
            ScoreType::HighWickCount => "High Wick Count (Rejection Prob. Numerator)",
            ScoreType::QuoteVolume => "Quote Volume (transitions)",
        }
    }

    /// The background after this one.
    pub fn next_background_mode(&self) -> (t: ScoreType)
        ensures
            t == next_background(*self),
    {
        match self {
            ScoreType::FullCandleTVW => ScoreType::LowWickCount,
            ScoreType::LowWickCount => ScoreType::HighWickCount,
            _ => ScoreType::FullCandleTVW,
        }
    }

    /// Every score type, in declaration order.
    pub fn all() -> (v: Vec<ScoreType>)
        ensures
            v@ == seq![ScoreType::FullCandleTVW, ScoreType::LowWickCount, ScoreType::HighWickCount, ScoreType::QuoteVolume],
    {
        let mut v: Vec<ScoreType> = Vec::new();
        v.push(ScoreType::FullCandleTVW);
        v.push(ScoreType::LowWickCount);
        v.push(ScoreType::HighWickCount);
        v.push(ScoreType::QuoteVolume);
        v
    }
}

/// The background key cycles through the three zone scores and never
/// shows the quote volume.
pub proof fn lemma_background_cycle(t: ScoreType)
    ensures
        next_background(next_background(next_background(next_background(t)))) == next_background(t),
        next_background(t) != ScoreType::QuoteVolume,
{
}

/// Whether a candle closed up or down.
#[derive(Debug, Clone, Copy, PartialEq, Eq, Structural)]
pub enum CandleType {
    Bullish,
    Bearish,
}

impl CandleType {
    /// A candle that closed at or above its open is bullish.
    pub fn of_candle(close_at_least_open: bool) -> (t: CandleType)
        ensures
            t == (if close_at_least_open { CandleType::Bullish } else { CandleType::Bearish }),
    {
        if close_at_least_open { CandleType::Bullish } else { CandleType::Bearish }
    }
}

/// The plot layer of the zone-score background.
pub struct BackgroundLayer;

/// The plot layer of the sticky zones.
pub struct StickyZoneLayer;

/// The plot layer of the reversal (wick) zones.
pub struct ReversalZoneLayer;

/// The plot layer of the current price.
pub struct PriceLineLayer;

/// The panel of view options.
pub struct ViewPanel {
    pub selected_score_type: ScoreType,
}

impl ViewPanel {
    pub fn new(score_type: ScoreType) -> (p: Self)
        ensures
            p.selected_score_type == score_type,
    {
        ViewPanel { selected_score_type: score_type }
    }
}

/// The panel of data-generation options; `C` is the configuration of the
/// automatic duration.
pub struct DataGenerationPanel<'a, C> {
    pub zone_count: usize,
    pub selected_pair: Option<String>,
    pub available_pairs: Vec<String>,
    pub auto_duration_config: &'a C,
    pub time_horizon_days: u64,
}

impl<'a, C> DataGenerationPanel<'a, C> {
    pub fn new(
        zone_count: usize,
        selected_pair: Option<String>,
        available_pairs: Vec<String>,
        auto_duration_config: &'a C,
        time_horizon_days: u64,
    ) -> (p: Self)
        ensures
            p.zone_count == zone_count,
            p.selected_pair == selected_pair,
            p.available_pairs@ == available_pairs@,
            p.auto_duration_config == auto_duration_config,
            p.time_horizon_days == time_horizon_days,
    {
        DataGenerationPanel { zone_count, selected_pair, available_pairs, auto_duration_config, time_horizon_days }
    }
}

/// Command-line options.
pub struct Cli {
    /// Use the exchange's API as the first source instead of the cache.
    pub prefer_api: bool,
}

/// The zone lists a simulated price can jump to.
#[derive(Debug, Clone, Copy, PartialEq, Eq, Structural)]
pub enum ZoneKind {
    Sticky,
    LowWick,
    HighWick,
}

/// The keys pressed in a frame.
#[derive(Debug, Clone, Copy, PartialEq, Eq, Structural)]
pub struct ShortcutKeys {
    pub num1: bool,
    pub num2: bool,
    pub num3: bool,
    pub num4: bool,
    pub num5: bool,
    pub num6: bool,
    pub h: bool,
    pub escape: bool,
    pub b: bool,
    pub s: bool,
    pub d: bool,
    pub x: bool,
    pub a: bool,
}

/// What a shortcut asks of the application beyond its own state.
#[derive(Debug, Clone, Copy, PartialEq, Eq, Structural)]
pub enum ShortcutAction {
    /// Simulation mode was switched (the live stream must follow).
    ToggleSimulation,
    /// Move the simulated price to the next zone of this kind.
    JumpToZone(ZoneKind),
    /// Move the simulated price by one step in the direction.
    AdjustPrice { direction: SimDirection, step: SimStepSize },
}

/// The part of the application state the shortcuts change.
#[derive(Debug, Clone, Copy, PartialEq, Eq, Structural)]
pub struct ShortcutState {
    pub plot_visibility: PlotVisibility,
    pub show_debug_help: bool,
    pub debug_background_mode: ScoreType,
    pub is_simulation_mode: bool,
    pub sim_direction: SimDirection,
    pub sim_step_size: SimStepSize,
}

/// The keys that do not depend on simulation mode: `1`, `2`, `3` toggle
/// the layers; `H` toggles the help and `Esc` closes it; `B` moves to the
/// next background; `S` switches simulation mode.
pub open spec fn view_keys_applied(st: ShortcutState, k: ShortcutKeys) -> ShortcutState {
    let help1 = if k.h { !st.show_debug_help } else { st.show_debug_help };
    ShortcutState {
        plot_visibility: PlotVisibility {
            sticky: if k.num1 { !st.plot_visibility.sticky } else { st.plot_visibility.sticky },
            low_wicks: if k.num2 { !st.plot_visibility.low_wicks } else { st.plot_visibility.low_wicks },
            high_wicks: if k.num3 { !st.plot_visibility.high_wicks } else { st.plot_visibility.high_wicks },
        },
        show_debug_help: if k.escape && help1 { false } else { help1 },
        debug_background_mode: if k.b { next_background(st.debug_background_mode) } else { st.debug_background_mode },
        is_simulation_mode: if k.s { !st.is_simulation_mode } else { st.is_simulation_mode },
        ..st
    }
}

/// The simulation keys, in simulation mode: `4`, `5`, `6` jump to the next
/// sticky, low-wick or high-wick zone, `D` reverses the direction, `X`
/// moves to the next step size, and `A` moves the price one step (after
/// `D` and `X`). Outside simulation mode they do nothing.
pub open spec fn simulation_keys_applied(st: ShortcutState, k: ShortcutKeys) -> (ShortcutState, Seq<ShortcutAction>) {
    if !st.is_simulation_mode {
        (st, Seq::empty())
    } else {
        let dir = if k.d { opposite(st.sim_direction) } else { st.sim_direction };
        let step = if k.x { next_step(st.sim_step_size) } else { st.sim_step_size };
        let a1: Seq<ShortcutAction> = if k.num4 { seq![ShortcutAction::JumpToZone(ZoneKind::Sticky)] } else { Seq::empty() };
        let a2 = if k.num5 { a1.push(ShortcutAction::JumpToZone(ZoneKind::LowWick)) } else { a1 };
        let a3 = if k.num6 { a2.push(ShortcutAction::JumpToZone(ZoneKind::HighWick)) } else { a2 };
        let a4 = if k.a { a3.push(ShortcutAction::AdjustPrice { direction: dir, step }) } else { a3 };
        (ShortcutState { sim_direction: dir, sim_step_size: step, ..st }, a4)
    }
}

/// The outcome of the keys of a frame: the view keys first (including the
/// switch of simulation mode), then the simulation keys.
pub open spec fn shortcut_outcome(st: ShortcutState, k: ShortcutKeys) -> (ShortcutState, Seq<ShortcutAction>) {
    let st1 = view_keys_applied(st, k);
    let a0: Seq<ShortcutAction> = if k.s { seq![ShortcutAction::ToggleSimulation] } else { Seq::empty() };
    let (st2, rest) = simulation_keys_applied(st1, k);
    (st2, a0 + rest)
}

fn apply_view_keys(state: &mut ShortcutState, keys: &ShortcutKeys)
    ensures
        *final(state) == view_keys_applied(*old(state), *keys),
{
    if keys.num1 {
        state.plot_visibility.sticky = !state.plot_visibility.sticky;
    }
    if keys.num2 {
        state.plot_visibility.low_wicks = !state.plot_visibility.low_wicks;
    }
    if keys.num3 {
        state.plot_visibility.high_wicks = !state.plot_visibility.high_wicks;
    }
    if keys.h {
        state.show_debug_help = !state.show_debug_help;
    }
    if keys.escape && state.show_debug_help {
        state.show_debug_help = false;
    }
    if keys.b {
        state.debug_background_mode = state.debug_background_mode.next_background_mode();
    }
    if keys.s {
        state.is_simulation_mode = !state.is_simulation_mode;
    }
}

fn apply_simulation_keys(state: &mut ShortcutState, keys: &ShortcutKeys, actions: &mut Vec<ShortcutAction>)
    ensures
        *final(state) == simulation_keys_applied(*old(state), *keys).0,
        final(actions)@ == old(actions)@ + simulation_keys_applied(*old(state), *keys).1,
{
    if !state.is_simulation_mode {
        assert(actions@ =~= old(actions)@ + Seq::<ShortcutAction>::empty());
        return;
    }
    let ghost base = actions@;
    if keys.num4 {
        actions.push(ShortcutAction::JumpToZone(ZoneKind::Sticky));
    }
    if keys.num5 {
        actions.push(ShortcutAction::JumpToZone(ZoneKind::LowWick));
    }
    if keys.num6 {
        actions.push(ShortcutAction::JumpToZone(ZoneKind::HighWick));
    }
    if keys.d {
        state.sim_direction = state.sim_direction.toggled();
    }
    if keys.x {
        state.sim_step_size.cycle();
    }
    if keys.a {
        actions.push(ShortcutAction::AdjustPrice { direction: state.sim_direction, step: state.sim_step_size });
    }
    assert(actions@ =~= base + simulation_keys_applied(*old(state), *keys).1);
}

/// Applies the keys pressed in a frame; returns what the application must
/// do beyond its own state, in order.
pub fn handle_global_shortcuts(state: &mut ShortcutState, keys: &ShortcutKeys) -> (actions: Vec<ShortcutAction>)
    ensures
        (*final(state), actions@) == shortcut_outcome(*old(state), *keys),
{
    let mut actions: Vec<ShortcutAction> = Vec::new();
    apply_view_keys(state, keys);
    if keys.s {
        actions.push(ShortcutAction::ToggleSimulation);
    }
    assert(actions@ =~= (if keys.s { seq![ShortcutAction::ToggleSimulation] } else { Seq::<ShortcutAction>::empty() }));
    apply_simulation_keys(state, keys, &mut actions);
    actions
}

/// Outside simulation mode (and without `S`), the shortcuts ask nothing of
/// the application and leave the simulation controls alone.
pub proof fn lemma_no_simulation_actions(st: ShortcutState, k: ShortcutKeys)
    requires
        !st.is_simulation_mode,
        !k.s,
    ensures
        shortcut_outcome(st, k).1.len() == 0,
        shortcut_outcome(st, k).0.sim_direction == st.sim_direction,
        shortcut_outcome(st, k).0.sim_step_size == st.sim_step_size,
{
}

/// Each of the keys `1`, `2`, `3` flips its own plot layer (sticky, low
/// wicks, high wicks) and nothing else does: after a frame a layer is shown
/// exactly when it was shown before and its key was not pressed, or it was
/// hidden and its key was pressed. Simulation keys never touch the layers.
pub proof fn lemma_layer_keys_toggle(st: ShortcutState, k: ShortcutKeys)
    ensures
        shortcut_outcome(st, k).0.plot_visibility.sticky == (st.plot_visibility.sticky != k.num1),
        shortcut_outcome(st, k).0.plot_visibility.low_wicks == (st.plot_visibility.low_wicks != k.num2),
        shortcut_outcome(st, k).0.plot_visibility.high_wicks == (st.plot_visibility.high_wicks != k.num3),
{
}

/// The price shown: the simulated price in simulation mode, the live price
/// otherwise.
pub fn display_price<P: Copy>(is_simulation_mode: bool, simulated: Option<P>, live: Option<P>) -> (p: Option<P>)
    ensures
        p == (if is_simulation_mode { simulated } else { live }),
{
    if is_simulation_mode { simulated } else { live }
}

} // verus!
