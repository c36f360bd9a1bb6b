use zone_sniper::journey::{count_outcomes, journey_max_steps, journey_steps_available, resolve_journey, JourneyEnd};

#[test]
fn budget_in_steps_rounds_up() {
    assert_eq!(journey_max_steps(3_600_000, 86_400_000), 24);
    assert_eq!(journey_max_steps(3_600_000, 86_400_001), 25);
    assert_eq!(journey_max_steps(3_600_000, 1), 1);
}

#[test]
fn empty_budget_or_interval() {
    assert_eq!(journey_max_steps(3_600_000, 0), 0);
    // A zero interval still walks one step when there is a budget.
    assert_eq!(journey_max_steps(0, 1_000), 1);
    assert_eq!(journey_max_steps(0, 0), 0);
}

#[test]
fn steps_are_cut_by_the_data() {
    assert_eq!(journey_steps_available(5, 10, 24), 4);
    assert_eq!(journey_steps_available(0, 10, 3), 3);
    assert_eq!(journey_steps_available(9, 10, 3), 0);
    assert_eq!(journey_steps_available(10, 10, 3), 0);
}

#[test]
fn first_decisive_step_ends_the_journey() {
    assert_eq!(resolve_journey(3, &vec![false, false, true], &vec![false, true, true]), JourneyEnd::Success { step: 2 });
    assert_eq!(resolve_journey(2, &vec![true], &vec![]), JourneyEnd::StoppedOut { step: 1 });
}

#[test]
fn stop_loss_wins_within_a_step() {
    assert_eq!(resolve_journey(3, &vec![false, true], &vec![false, true]), JourneyEnd::StoppedOut { step: 2 });
}

#[test]
fn journey_times_out_after_its_steps() {
    assert_eq!(resolve_journey(2, &vec![], &vec![]), JourneyEnd::TimedOut { steps_taken: 2 });
    assert_eq!(resolve_journey(1, &vec![false, true], &vec![false, true]), JourneyEnd::TimedOut { steps_taken: 1 });
    assert_eq!(resolve_journey(0, &vec![true], &vec![true]), JourneyEnd::TimedOut { steps_taken: 0 });
}

#[test]
fn outcomes_are_counted() {
    let ends = vec![
        JourneyEnd::Success { step: 1 },
        JourneyEnd::TimedOut { steps_taken: 3 },
        JourneyEnd::Success { step: 4 },
        JourneyEnd::StoppedOut { step: 2 },
    ];
    assert_eq!(count_outcomes(&ends), (2, 2));
    assert!(ends[0].is_success());
    assert!(!ends[3].is_success());
    assert_eq!(count_outcomes(&vec![]), (0, 0));
}
