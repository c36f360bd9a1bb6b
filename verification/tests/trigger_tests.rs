use zone_sniper::triggers::{JourneyTriggerState, PairTriggerState, CVA_MIN_MS_BETWEEN_RECALCS};

/// Relative move from the anchor that asks for a recalculation (1%).
const PRICE_RECALC_THRESHOLD_PCT: f64 = 0.01;

fn approx_eq(a: f64, b: f64) -> bool {
    (a - b).abs() < f64::EPSILON
}

/// Feeds a price to the trigger, judging the move against its reference
/// price as the application does.
fn consider_price_move(trigger: &mut PairTriggerState<f64>, new_price: f64) -> bool {
    let significant = match trigger.move_reference() {
        Some(anchor) => (new_price - anchor).abs() / anchor.max(f64::EPSILON) >= PRICE_RECALC_THRESHOLD_PCT,
        None => false,
    };
    let reason = match trigger.move_reference() {
        Some(anchor) => format!(
            "price move {:.2}% (anchor {:.4} → {:.4})",
            (new_price - anchor).abs() / anchor.max(f64::EPSILON) * 100.0,
            anchor,
            new_price
        ),
        None => String::new(),
    };
    trigger.consider_price_move(new_price, significant, &reason)
}

#[test]
fn initial_price_marks_stale_and_ready() {
    let mut trigger = PairTriggerState::default();

    assert!(consider_price_move(&mut trigger, 10_000.0));
    assert!(trigger.ready_to_schedule());
    assert_eq!(trigger.pending_price, Some(10_000.0));
    assert!(trigger.stale_reason.is_some());
}

#[test]
fn follow_up_price_is_queued_during_in_progress_run() {
    let mut trigger = PairTriggerState { anchor_price: Some(100.0), ..Default::default() };

    assert!(consider_price_move(&mut trigger, 101.5));
    assert!(trigger.ready_to_schedule());

    trigger.on_job_scheduled(101.5);
    assert!(trigger.in_progress);
    assert_eq!(trigger.pending_price, None);

    assert!(!consider_price_move(&mut trigger, 103.0));
    assert_eq!(trigger.pending_price, Some(103.0));

    let follow_up = trigger.on_job_success(5_000);
    assert_eq!(follow_up, Some(103.0));
    assert!(!trigger.in_progress);
    assert!(approx_eq(trigger.anchor_price.unwrap(), 101.5));
}

#[test]
fn recent_run_prevents_immediate_reschedule_without_follow_up() {
    let mut trigger = PairTriggerState { anchor_price: Some(200.0), ..Default::default() };

    assert!(consider_price_move(&mut trigger, 204.0));
    trigger.on_job_scheduled(204.0);
    trigger.on_job_success(1_000);

    let now = 2_000;
    trigger.last_run_at = Some(now);
    trigger.mark_stale("within debounce", Some(204.0));

    assert!(trigger.ready_to_schedule());
    assert!(trigger.recent_run(now));
}

#[test]
fn small_move_leaves_the_trigger_alone() {
    let mut trigger = PairTriggerState { anchor_price: Some(100.0), ..Default::default() };
    assert!(!consider_price_move(&mut trigger, 100.5));
    assert!(!trigger.is_stale);
    assert_eq!(trigger.pending_price, None);
    assert!(trigger.stale_reason.is_none());
}

#[test]
fn significant_move_records_its_reason() {
    let mut trigger = PairTriggerState { anchor_price: Some(100.0), ..Default::default() };
    assert!(trigger.consider_price_move(102.0, true, "moved"));
    assert_eq!(trigger.stale_reason.as_deref(), Some("moved"));
    assert_eq!(trigger.pending_price, Some(102.0));
}

#[test]
fn first_price_reason_is_initial_analysis() {
    let mut trigger: PairTriggerState<f64> = PairTriggerState::default();
    assert!(trigger.consider_price_move(5.0, false, "ignored"));
    assert_eq!(trigger.stale_reason.as_deref(), Some("initial analysis"));
}

#[test]
fn small_move_during_run_is_not_queued() {
    let mut trigger = PairTriggerState { anchor_price: Some(100.0), ..Default::default() };
    trigger.on_job_scheduled(100.0);
    assert!(!consider_price_move(&mut trigger, 100.2));
    assert_eq!(trigger.pending_price, None);
    assert_eq!(trigger.on_job_success(10), None);
}

#[test]
fn move_reference_during_run_is_the_run_price() {
    let mut trigger = PairTriggerState { anchor_price: Some(100.0), ..Default::default() };
    assert_eq!(trigger.move_reference(), Some(100.0));
    trigger.on_job_scheduled(110.0);
    assert_eq!(trigger.move_reference(), Some(110.0));
}

#[test]
fn debounce_window_is_sixty_seconds() {
    let mut trigger: PairTriggerState<f64> = PairTriggerState::default();
    assert!(!trigger.recent_run(0));
    trigger.on_job_scheduled(1.0);
    trigger.on_job_success(10_000);
    assert!(trigger.recent_run(10_000));
    assert!(trigger.recent_run(10_000 + CVA_MIN_MS_BETWEEN_RECALCS - 1));
    assert!(!trigger.recent_run(10_000 + CVA_MIN_MS_BETWEEN_RECALCS));
    // A clock reading before the run counts as no time elapsed.
    assert!(trigger.recent_run(5_000));
}

#[test]
fn failed_run_rests_until_marked_stale() {
    let mut trigger = PairTriggerState { anchor_price: Some(100.0), ..Default::default() };
    assert!(consider_price_move(&mut trigger, 120.0));
    trigger.on_job_scheduled(120.0);
    trigger.on_job_failure("worker failed", 3_000);
    assert!(!trigger.in_progress);
    assert!(!trigger.ready_to_schedule());
    assert_eq!(trigger.anchor_price, Some(100.0));
    assert_eq!(trigger.last_run_at, Some(3_000));
    assert_eq!(trigger.stale_reason.as_deref(), Some("worker failed"));
    trigger.mark_stale("retry", None);
    assert!(trigger.ready_to_schedule());
    assert_eq!(trigger.pending_price, None);
}

#[test]
fn journey_trigger_runs_once_per_staleness() {
    let mut journey = JourneyTriggerState::default();
    assert!(!journey.ready_to_run());
    journey.mark_stale("new zones");
    assert!(journey.ready_to_run());
    journey.on_run_started();
    assert!(!journey.ready_to_run());
    journey.on_run_finished(42);
    assert_eq!(journey.last_run_at, Some(42));
    assert!(journey.stale_reason.is_none());
    assert!(!journey.ready_to_run());
}

#[test]
fn journey_trigger_waits_for_fresh_analysis() {
    let mut journey = JourneyTriggerState::default();
    journey.mark_stale("x");
    journey.on_run_finished(7);
    journey.reset_waiting_for_fresh_cva("zone count changed (awaiting fresh CVA)");
    assert!(!journey.is_stale);
    assert!(!journey.in_progress);
    assert_eq!(journey.last_run_at, None);
    assert_eq!(journey.stale_reason.as_deref(), Some("zone count changed (awaiting fresh CVA)"));
}
