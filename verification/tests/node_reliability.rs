//! Reliability scores of MPC nodes.
use poker_table::node_reliability::{
    expected_response_time, record, score, ReliabilityStore, INITIAL_SCORE, OFFENDER_THRESHOLD,
    SCORE_MAX,
};

const MILLI: u128 = 1_000_000;

/// The expected response time in nanoseconds, when no setting changes it.
fn expected() -> u128 {
    expected_response_time(None) as u128 * MILLI
}

#[test]
fn unknown_node_defaults_to_full_score() {
    let store = ReliabilityStore::new();
    let score = score(&store, "http://unknown-node-reliability-test");
    assert_eq!(score, SCORE_MAX);
}

#[test]
fn fast_response_is_not_flagged_slow() {
    let mut store = ReliabilityStore::new();
    let endpoint = "http://fast-node-reliability-test";
    let was_slow = record(&mut store, endpoint, 10 * MILLI, expected());
    assert!(!was_slow);
    assert!(score(&store, endpoint) >= INITIAL_SCORE);
}

#[test]
fn slow_response_reduces_score() {
    let mut store = ReliabilityStore::new();
    let endpoint = "http://slow-node-reliability-test";
    let expected = expected();
    let was_slow = record(&mut store, endpoint, expected + 1000 * MILLI, expected);
    assert!(was_slow);
    assert!(score(&store, endpoint) < INITIAL_SCORE);
}

#[test]
fn persistent_slowness_drives_score_toward_offender_threshold() {
    let mut store = ReliabilityStore::new();
    let endpoint = "http://persistent-offender-node-reliability-test";
    let expected = expected();
    for _ in 0..10 {
        record(&mut store, endpoint, expected + 1000 * MILLI, expected);
    }
    assert!(score(&store, endpoint) < OFFENDER_THRESHOLD);
}

#[test]
fn expected_time_is_two_seconds_unless_set() {
    assert_eq!(expected_response_time(None), 2000);
    assert_eq!(expected_response_time(Some("750".to_string())), 750);
    assert_eq!(expected_response_time(Some("+750".to_string())), 750);
    assert_eq!(expected_response_time(Some("750ms".to_string())), 2000);
    assert_eq!(expected_response_time(Some("".to_string())), 2000);
    assert_eq!(expected_response_time(Some("18446744073709551616".to_string())), 2000);
}

#[test]
fn response_on_time_to_the_nanosecond_is_timely() {
    let mut store = ReliabilityStore::new();
    assert!(!record(&mut store, "n", expected(), expected()));
    assert!(record(&mut store, "n", expected() + 1, expected()));
}

#[test]
fn scores_step_by_penalty_and_recovery() {
    let mut store = ReliabilityStore::new();
    record(&mut store, "n", 2, 1);
    assert_eq!(score(&store, "n"), 90);
    record(&mut store, "n", 1, 1);
    assert_eq!(score(&store, "n"), 92);
    for _ in 0..4 {
        record(&mut store, "n", 1, 1);
    }
    assert_eq!(score(&store, "n"), 100);
    record(&mut store, "n", 1, 1);
    assert_eq!(score(&store, "n"), 100);
    let entry = store.entry("n");
    assert_eq!(entry.slow_responses, 1);
    assert_eq!(entry.total_responses, 7);
}

#[test]
fn offender_is_flagged_at_the_eighth_slow_response() {
    let mut store = ReliabilityStore::new();
    for _ in 0..7 {
        record(&mut store, "n", 2, 1);
    }
    assert_eq!(score(&store, "n"), 30);
    assert!(!store.entry("n").is_offender());
    record(&mut store, "n", 2, 1);
    assert_eq!(score(&store, "n"), 20);
    assert!(store.entry("n").is_offender());
}

#[test]
fn score_stays_at_the_floor() {
    let mut store = ReliabilityStore::new();
    for _ in 0..12 {
        record(&mut store, "n", 2, 1);
    }
    assert_eq!(score(&store, "n"), 0);
}

#[test]
fn nodes_are_scored_apart() {
    let mut store = ReliabilityStore::new();
    record(&mut store, "a", 2, 1);
    assert_eq!(score(&store, "a"), 90);
    assert_eq!(score(&store, "b"), 100);
}

#[test]
fn score_falls_by_at_most_the_penalty_for_each_slow_response() {
    let mut store = ReliabilityStore::new();
    let mut slow: u32 = 0;
    for n in 0..40u32 {
        if record(&mut store, "n", if n % 3 == 0 { 2 } else { 1 }, 1) {
            slow += 1;
        }
        assert!(score(&store, "n") + 10 * slow >= 100);
    }
}
