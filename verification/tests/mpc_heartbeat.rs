//! Heartbeats of MPC nodes, failure detection and failover.
use poker_table::mpc_heartbeat::{
    check_committee_quorum, check_heartbeats, failover_nodes, get_all_health_status,
    heartbeats_fit, init_heartbeat_store, record_heartbeat, record_heartbeat_at, trigger_failover,
    HeartbeatConfig, HeartbeatStore, NodeHeartbeatState,
};

const SECOND: i128 = 1_000_000_000;

/// A store of nodes 0, 1 and 2.
fn three_nodes() -> HeartbeatStore {
    init_heartbeat_store(&[
        (0, "http://node0".to_string()),
        (1, "http://node1".to_string()),
        (2, "http://node2".to_string()),
    ])
}

/// A time at which all nodes of a store are past their grace period.
fn past_grace(store: &HeartbeatStore, config: &HeartbeatConfig) -> i128 {
    store.get(0).unwrap().registered_at + (config.startup_grace_period as i128 + 5) * SECOND
}

/// Checks all nodes, with every clock reading at the time of the check.
fn check(
    store: &mut HeartbeatStore,
    config: &HeartbeatConfig,
    now: i128,
) -> Vec<(u32, String)> {
    let readings = vec![now; store.len()];
    assert!(heartbeats_fit(store, config, &readings, now));
    check_heartbeats(store, config, &readings, now)
}

#[test]
fn settings_give_the_configuration() {
    let text = |t: &str| Some(t.to_string());
    let default = HeartbeatConfig::default();
    assert_eq!(default.heartbeat_interval, 10);
    assert_eq!(default.max_missed_heartbeats, 3);
    assert_eq!(default.startup_grace_period, 30);
    assert_eq!(HeartbeatConfig::from_env(None, None, None), default);
    let set = HeartbeatConfig::from_env(text("5"), text("7"), text("90"));
    assert_eq!(set.heartbeat_interval, 5);
    assert_eq!(set.max_missed_heartbeats, 7);
    assert_eq!(set.startup_grace_period, 90);
    let unreadable = HeartbeatConfig::from_env(text("ten"), text("4294967296"), text(""));
    assert_eq!(unreadable, default);
}

#[test]
fn new_node_is_healthy_and_in_its_grace_period() {
    let node = NodeHeartbeatState::new(4, "http://node4".to_string());
    assert_eq!(node.node_id, 4);
    assert_eq!(node.endpoint, "http://node4");
    assert!(node.is_healthy);
    assert_eq!(node.last_heartbeat, None);
    assert_eq!(node.consecutive_failures, 0);
    assert!(node.is_in_grace_period(3600));
    assert!(!node.is_in_grace_period(0));
}

#[test]
fn clock_reads_the_present() {
    // 2020-01-01 and 2200-01-01 in Unix seconds.
    let node = NodeHeartbeatState::new(0, String::new());
    assert!(node.registered_at > 1_577_836_800 * SECOND);
    assert!(node.registered_at < 7_258_118_400 * SECOND);
}

#[test]
fn grace_period_ends_after_whole_seconds() {
    let node = NodeHeartbeatState::registered(0, String::new(), 100 * SECOND);
    assert!(node.is_in_grace_period_at(100 * SECOND, 30));
    assert!(node.is_in_grace_period_at(130 * SECOND - 1, 30));
    assert!(!node.is_in_grace_period_at(130 * SECOND, 30));
    // Before its registration a node is in no grace period.
    assert!(!node.is_in_grace_period_at(99 * SECOND, 30));
}

#[test]
fn node_is_overdue_after_more_than_two_intervals() {
    let mut node = NodeHeartbeatState::registered(0, String::new(), 0);
    assert!(node.is_overdue_at(0, 10));
    node.record_success_at(50 * SECOND);
    assert!(!node.is_overdue_at(50 * SECOND, 10));
    assert!(!node.is_overdue_at(71 * SECOND - 1, 10));
    assert!(node.is_overdue_at(71 * SECOND, 10));
    // A heartbeat that lies ahead does not count.
    assert!(node.is_overdue_at(49 * SECOND, 10));
}

#[test]
fn failures_mount_until_the_node_is_unhealthy() {
    let mut node = NodeHeartbeatState::registered(0, String::new(), 0);
    node.record_failure(3);
    node.record_failure(3);
    assert!(node.is_healthy);
    node.record_failure(3);
    assert!(!node.is_healthy);
    assert_eq!(node.consecutive_failures, 3);
    node.record_success();
    assert!(node.is_healthy);
    assert_eq!(node.consecutive_failures, 0);
    assert!(node.last_heartbeat.is_some());
}

#[test]
fn no_failures_allowed_means_unhealthy_at_the_first() {
    let mut node = NodeHeartbeatState::registered(0, String::new(), 0);
    node.record_failure(0);
    assert!(!node.is_healthy);
}

#[test]
fn later_entry_of_a_node_counts() {
    let store = init_heartbeat_store(&[(7, "old".to_string()), (7, "new".to_string())]);
    let statuses = get_all_health_status(&store);
    assert_eq!(statuses.len(), 1);
    assert_eq!(statuses[0].endpoint, "new");
}

#[test]
fn unknown_node_cannot_report() {
    let mut store = three_nodes();
    assert_eq!(record_heartbeat(&mut store, 42), Err("Unknown node_id: 42".to_string()));
    assert_eq!(
        record_heartbeat(&mut store, 4294967295),
        Err("Unknown node_id: 4294967295".to_string())
    );
    assert_eq!(record_heartbeat_at(&mut store, 9, 0), Err("Unknown node_id: 9".to_string()));
    assert!(store.get(42).is_none());
}

#[test]
fn checks_excuse_nodes_in_their_grace_period() {
    let mut store = three_nodes();
    let config = HeartbeatConfig::default();
    let now = store.get(0).unwrap().registered_at + 10 * SECOND;
    assert!(check(&mut store, &config, now).is_empty());
    assert_eq!(store.get(0).unwrap().consecutive_failures, 0);
}

#[test]
fn silent_nodes_are_reported_once() {
    let mut store = three_nodes();
    let config = HeartbeatConfig::default();
    let start = past_grace(&store, &config);
    let mut reports: Vec<Vec<(u32, String)>> = Vec::new();
    for tick in 0..5 {
        let now = start + tick * 10 * SECOND;
        // Node 1 keeps reporting.
        record_heartbeat_at(&mut store, 1, now).unwrap();
        reports.push(check(&mut store, &config, now));
    }
    assert!(reports[0].is_empty());
    assert!(reports[1].is_empty());
    assert_eq!(
        reports[2],
        vec![(0, "http://node0".to_string()), (2, "http://node2".to_string())]
    );
    assert!(reports[3].is_empty());
    assert!(reports[4].is_empty());
    assert_eq!(store.get(0).unwrap().consecutive_failures, 5);
    assert!(store.get(1).unwrap().is_healthy);
    assert_eq!(store.get(1).unwrap().consecutive_failures, 0);
}

#[test]
fn heartbeat_brings_a_node_back() {
    let mut store = three_nodes();
    let config = HeartbeatConfig { max_missed_heartbeats: 1, ..HeartbeatConfig::default() };
    let now = past_grace(&store, &config);
    assert_eq!(check(&mut store, &config, now).len(), 3);
    assert!(!check_committee_quorum(&store, 1));
    assert!(check_committee_quorum(&store, 0));
    record_heartbeat_at(&mut store, 2, now).unwrap();
    assert!(check_committee_quorum(&store, 1));
    assert!(!check_committee_quorum(&store, 2));
    // It can be lost, and reported, again.
    assert_eq!(
        check(&mut store, &config, now + 60 * SECOND),
        vec![(2, "http://node2".to_string())]
    );
}

#[test]
fn statuses_report_every_node() {
    let mut store = three_nodes();
    record_heartbeat_at(&mut store, 1, 77).unwrap();
    let statuses = get_all_health_status(&store);
    assert_eq!(statuses.len(), 3);
    for id in 0..3u32 {
        let status = statuses.iter().find(|s| s.node_id == id).unwrap();
        assert_eq!(status.endpoint, format!("http://node{}", id));
        assert!(status.is_healthy);
        assert_eq!(status.consecutive_failures, 0);
        assert_eq!(status.last_heartbeat, if id == 1 { Some(77) } else { None });
    }
}

#[test]
fn failover_needs_two_healthy_nodes_besides_the_failed_one() {
    let mut store = three_nodes();
    assert_eq!(trigger_failover(&store, 0), Ok(()));
    assert_eq!(failover_nodes(&store, 0), vec![1, 2]);
    // A node that is not registered leaves all of them.
    assert_eq!(failover_nodes(&store, 9), vec![0, 1, 2]);

    let config = HeartbeatConfig { max_missed_heartbeats: 1, ..HeartbeatConfig::default() };
    let now = past_grace(&store, &config);
    check(&mut store, &config, now);
    assert_eq!(
        trigger_failover(&store, 0),
        Err("Cannot failover: insufficient healthy nodes (need 2, have 0)".to_string())
    );
    record_heartbeat_at(&mut store, 1, now).unwrap();
    assert_eq!(
        trigger_failover(&store, 0),
        Err("Cannot failover: insufficient healthy nodes (need 2, have 1)".to_string())
    );
    record_heartbeat_at(&mut store, 2, now).unwrap();
    // Node 0 is not healthy: a quorum of two is enough.
    assert!(check_committee_quorum(&store, 2));
    assert_eq!(trigger_failover(&store, 0), Ok(()));
    // From a healthy node it takes one more.
    assert!(trigger_failover(&store, 1).is_err());
}

#[test]
fn interval_beyond_range_does_not_fit() {
    let mut store = three_nodes();
    let config = HeartbeatConfig { heartbeat_interval: u64::MAX, ..HeartbeatConfig::default() };
    let now = past_grace(&store, &config);
    // Nodes that never reported are overdue whatever the interval is.
    let readings = [now; 3];
    assert!(heartbeats_fit(&store, &config, &readings, now));
    record_heartbeat_at(&mut store, 0, now).unwrap();
    assert!(!heartbeats_fit(&store, &config, &readings, now));
}

#[test]
fn grace_period_is_tested_at_the_reading_of_each_node() {
    let mut store = three_nodes();
    let config = HeartbeatConfig { max_missed_heartbeats: 1, ..HeartbeatConfig::default() };
    let end = (0..3u32).map(|id| store.get(id).unwrap().registered_at).max().unwrap()
        + 30 * SECOND;
    let start = (0..3u32).map(|id| store.get(id).unwrap().registered_at).min().unwrap();
    // The clock passes the end of the grace period while the nodes are walked.
    let readings = [start, end, end];
    assert_eq!(
        check_heartbeats(&mut store, &config, &readings, start),
        vec![(1, "http://node1".to_string()), (2, "http://node2".to_string())]
    );
    assert!(store.get(0).unwrap().is_healthy);
}

#[test]
fn nodes_stay_in_the_order_of_their_first_entry() {
    let store = init_heartbeat_store(&[
        (5, "a".to_string()),
        (3, "b".to_string()),
        (5, "c".to_string()),
    ]);
    assert_eq!(store.len(), 2);
    let statuses = get_all_health_status(&store);
    assert_eq!(statuses[0].node_id, 5);
    assert_eq!(statuses[0].endpoint, "c");
    assert_eq!(statuses[1].node_id, 3);
}
