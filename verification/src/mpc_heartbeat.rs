//! MPC node heartbeat monitoring and failure detection.
//!
//! Each MPC node sends a liveness signal to the coordinator. A node is marked
//! unhealthy after a number of missed heartbeats, and committee failover starts.
//!
//! Times are nanoseconds since the Unix epoch.
use crate::clock::{seconds_since, unix_nanos_now, within_seconds, NANOS_PER_SEC};
use crate::sequences::{
    filter_next, filter_none, filtered_count, first_occurrences, position_is_unique, with_item,
};
use crate::text::{decimal, setting_value, setting_view, u32_setting, u64_setting, u64_to_text};
use std::collections::HashMap;
use vstd::prelude::*;

verus! {

// ---------------------------------------------------------------------------
// Configuration
// ---------------------------------------------------------------------------

/// Heartbeat interval in seconds, unless a setting says otherwise.
pub const DEFAULT_HEARTBEAT_INTERVAL: u64 = 10;

/// Missed heartbeats before a node is unhealthy, unless a setting says
/// otherwise.
pub const DEFAULT_MAX_MISSED_HEARTBEATS: u32 = 3;

/// Startup grace period in seconds, unless a setting says otherwise.
pub const DEFAULT_STARTUP_GRACE_PERIOD: u64 = 30;

/// How heartbeats are judged.
#[derive(Clone, Copy, Debug, PartialEq, Eq)]
pub struct HeartbeatConfig {
    /// How often nodes should send heartbeats (seconds).
    pub heartbeat_interval: u64,
    /// Number of consecutive missed heartbeats before marking unhealthy.
    pub max_missed_heartbeats: u32,
    /// Grace period before first heartbeat expected (seconds).
    pub startup_grace_period: u64,
}

impl Default for HeartbeatConfig {
    fn default() -> (config: Self)
        ensures
            config == (HeartbeatConfig {
                heartbeat_interval: DEFAULT_HEARTBEAT_INTERVAL,
                max_missed_heartbeats: DEFAULT_MAX_MISSED_HEARTBEATS,
                startup_grace_period: DEFAULT_STARTUP_GRACE_PERIOD,
            }),
    {
        HeartbeatConfig {
            heartbeat_interval: DEFAULT_HEARTBEAT_INTERVAL,
            max_missed_heartbeats: DEFAULT_MAX_MISSED_HEARTBEATS,
            startup_grace_period: DEFAULT_STARTUP_GRACE_PERIOD,
        }
    }
}

impl HeartbeatConfig {
    /// The configuration that the settings of the environment give. A setting
    /// that is absent or cannot be read counts as the default.
    pub fn from_env(
        interval_setting: Option<String>,
        max_missed_setting: Option<String>,
        grace_setting: Option<String>,
    ) -> (config: Self)
        ensures
            config.heartbeat_interval == setting_value(
                setting_view(interval_setting),
                u64::MAX as int,
                DEFAULT_HEARTBEAT_INTERVAL as int,
            ),
            config.max_missed_heartbeats == setting_value(
                setting_view(max_missed_setting),
                u32::MAX as int,
                DEFAULT_MAX_MISSED_HEARTBEATS as int,
            ),
            config.startup_grace_period == setting_value(
                setting_view(grace_setting),
                u64::MAX as int,
                DEFAULT_STARTUP_GRACE_PERIOD as int,
            ),
    {
        HeartbeatConfig {
            heartbeat_interval: u64_setting(interval_setting, DEFAULT_HEARTBEAT_INTERVAL),
            max_missed_heartbeats: u32_setting(max_missed_setting, DEFAULT_MAX_MISSED_HEARTBEATS),
            startup_grace_period: u64_setting(grace_setting, DEFAULT_STARTUP_GRACE_PERIOD),
        }
    }
}

// ---------------------------------------------------------------------------
// One node
// ---------------------------------------------------------------------------

/// What is known of one node.
#[derive(Clone, Debug)]
pub struct NodeHeartbeatState {
    pub node_id: u32,
    pub endpoint: String,
    pub last_heartbeat: Option<i128>,
    pub consecutive_failures: u32,
    pub is_healthy: bool,
    pub registered_at: i128,
}

/// A node just registered: healthy, and not heard of yet.
pub open spec fn registered_node(node_id: u32, endpoint: String, now: i128) -> NodeHeartbeatState {
    NodeHeartbeatState {
        node_id,
        endpoint,
        last_heartbeat: None,
        consecutive_failures: 0,
        is_healthy: true,
        registered_at: now,
    }
}

/// A node just heard of.
pub open spec fn after_success(node: NodeHeartbeatState, now: i128) -> NodeHeartbeatState {
    NodeHeartbeatState {
        last_heartbeat: Some(now),
        consecutive_failures: 0,
        is_healthy: true,
        ..node
    }
}

/// A node that missed one more heartbeat: unhealthy once it has missed
/// `max_failures` in a row.
pub open spec fn after_failure(node: NodeHeartbeatState, max_failures: u32) -> NodeHeartbeatState {
    let failures = (node.consecutive_failures + 1) as u32;
    NodeHeartbeatState {
        consecutive_failures: failures,
        is_healthy: node.is_healthy && failures < max_failures,
        ..node
    }
}

/// True while a node's startup grace period lasts.
pub open spec fn in_grace_period(node: NodeHeartbeatState, now: i128, grace_seconds: u64) -> bool {
    match seconds_since(now, node.registered_at) {
        Some(secs) => secs < grace_seconds,
        None => false,
    }
}

/// True when a node should have been heard of: it never was, or not for more
/// than two intervals, or only at a time that lies ahead.
pub open spec fn is_overdue(node: NodeHeartbeatState, now: i128, interval: u64) -> bool {
    match node.last_heartbeat {
        None => true,
        Some(last) => match seconds_since(now, last) {
            Some(secs) => secs > interval * 2,
            None => true,
        },
    }
}

impl NodeHeartbeatState {
    /// A node registered at a given time.
    pub fn registered(node_id: u32, endpoint: String, now: i128) -> (node: Self)
        ensures
            node == registered_node(node_id, endpoint, now),
    {
        NodeHeartbeatState {
            node_id,
            endpoint,
            last_heartbeat: None,
            consecutive_failures: 0,
            is_healthy: true,
            registered_at: now,
        }
    }

    /// A node registered now.
    pub fn new(node_id: u32, endpoint: String) -> (node: Self)
        ensures
            node == registered_node(node_id, endpoint, node.registered_at),
    {
        Self::registered(node_id, endpoint, unix_nanos_now())
    }

    /// Notes a heartbeat at a given time.
    pub fn record_success_at(&mut self, now: i128)
        ensures
            *final(self) == after_success(*old(self), now),
    {
        self.last_heartbeat = Some(now);
        self.consecutive_failures = 0;
        self.is_healthy = true;
    }

    /// Notes a heartbeat now.
    pub fn record_success(&mut self)
        ensures
            final(self).last_heartbeat is Some,
            *final(self) == after_success(*old(self), final(self).last_heartbeat->0),
    {
        self.record_success_at(unix_nanos_now());
    }

    /// Notes a missed heartbeat.
    pub fn record_failure(&mut self, max_failures: u32)
        requires
            old(self).consecutive_failures < u32::MAX,
        ensures
            *final(self) == after_failure(*old(self), max_failures),
    {
        self.consecutive_failures = self.consecutive_failures + 1;
        if self.consecutive_failures >= max_failures {
            self.is_healthy = false;
        }
    }

    /// Tells whether the node's startup grace period lasts at a given time.
    pub fn is_in_grace_period_at(&self, now: i128, grace_seconds: u64) -> (r: bool)
        ensures
            r == in_grace_period(*self, now, grace_seconds),
    {
        within_seconds(now, self.registered_at, grace_seconds)
    }

    /// Tells whether the node's startup grace period lasts now.
    pub fn is_in_grace_period(&self, grace_seconds: u64) -> (r: bool)
        ensures
            exists|now: i128| r == #[trigger] in_grace_period(*self, now, grace_seconds),
    {
        let now: i128 = unix_nanos_now();
        self.is_in_grace_period_at(now, grace_seconds)
    }

    /// Tells whether the node should have been heard of.
    pub fn is_overdue_at(&self, now: i128, interval: u64) -> (r: bool)
        requires
            self.last_heartbeat is Some && seconds_since(now, self.last_heartbeat->0) is Some
                ==> interval * 2 <= u64::MAX,
        ensures
            r == is_overdue(*self, now, interval),
    {
        match self.last_heartbeat {
            None => true,
            Some(last) => {
                if now < last {
                    true
                } else {
                    let limit: u64 = interval * 2;
                    !within_seconds(now, last, limit + 1)
                }
            },
        }
    }
}

// ---------------------------------------------------------------------------
// All nodes
// ---------------------------------------------------------------------------

/// What is known of every node, by its id.
#[derive(Debug)]
pub struct HeartbeatStore {
    nodes: HashMap<u32, NodeHeartbeatState>,
    order: Vec<u32>,
}

impl View for HeartbeatStore {
    type V = Map<u32, NodeHeartbeatState>;

    closed spec fn view(&self) -> Map<u32, NodeHeartbeatState> {
        self.nodes@
    }
}

/// True when `ids` are the ids of `nodes`, each once, and every node carries its
/// own id.
pub open spec fn ids_exact(nodes: Map<u32, NodeHeartbeatState>, ids: Seq<u32>) -> bool {
    &&& ids.no_duplicates()
    &&& forall|id: u32| #[trigger] nodes.dom().contains(id) <==> ids.contains(id)
    &&& forall|id: u32| #[trigger] nodes.dom().contains(id) ==> nodes[id].node_id == id
}

impl HeartbeatStore {
    #[verifier::type_invariant]
    spec fn wf(self) -> bool {
        ids_exact(self.nodes@, self.order@)
    }

    /// The ids of the nodes, in the order in which they were first registered.
    pub closed spec fn ids(&self) -> Seq<u32> {
        self.order@
    }

    /// A store without nodes.
    fn empty() -> (store: Self)
        ensures
            store@ == Map::<u32, NodeHeartbeatState>::empty(),
            store.ids() == Seq::<u32>::empty(),
    {
        HeartbeatStore { nodes: HashMap::new(), order: Vec::new() }
    }

    /// The number of nodes.
    pub fn len(&self) -> (n: usize)
        ensures
            n == self.ids().len(),
            ids_exact(self@, self.ids()),
    {
        proof {
            use_type_invariant(self);
        }
        self.order.len()
    }

    /// What is known of node `id`, if it is registered.
    pub fn get(&self, id: u32) -> (node: Option<&NodeHeartbeatState>)
        ensures
            node == if self@.dom().contains(id) {
                Some(&self@[id])
            } else {
                None
            },
    {
        broadcast use vstd::std_specs::hash::group_hash_axioms;

        self.nodes.get(&id)
    }

    /// Registers a node, in place of one with the same id.
    fn put(&mut self, node: NodeHeartbeatState)
        ensures
            final(self)@ == old(self)@.insert(node.node_id, node),
            final(self).ids() == with_item(old(self).ids(), node.node_id),
    {
        broadcast use vstd::std_specs::hash::group_hash_axioms;

        proof {
            use_type_invariant(&*self);
        }
        let id: u32 = node.node_id;
        let mut store = HeartbeatStore::empty();
        std::mem::swap(&mut store, self);
        let HeartbeatStore { mut nodes, mut order } = store;
        let ghost before = order@;
        if !nodes.contains_key(&id) {
            order.push(id);
            assert(order@[before.len() as int] == id);
        }
        nodes.insert(id, node);
        assert(ids_exact(nodes@, order@)) by {
            assert forall|k: u32| #[trigger] nodes@.dom().contains(k) <==> order@.contains(k) by {
                if before.contains(k) {
                    let j = choose|j: int| 0 <= j < before.len() && before[j] == k;
                    assert(order@[j] == k);
                }
            }
        }
        *self = HeartbeatStore { nodes, order };
    }
}

/// True when `i` is the last entry of a node.
pub open spec fn is_last_entry(endpoints: Seq<(u32, String)>, i: int) -> bool {
    &&& 0 <= i < endpoints.len()
    &&& forall|j: int| i < j < endpoints.len() ==> (#[trigger] endpoints[j]).0 != endpoints[i].0
}

/// The ids of a list of nodes.
pub open spec fn endpoint_ids(endpoints: Seq<(u32, String)>) -> Seq<u32> {
    endpoints.map_values(|entry: (u32, String)| entry.0)
}

/// Initialize heartbeat monitoring for all MPC nodes. Of two entries with the
/// same id the later one counts.
pub fn init_heartbeat_store(endpoints: &[(u32, String)]) -> (store: HeartbeatStore)
    ensures
        forall|id: u32| #[trigger]
            store@.dom().contains(id) <==> exists|i: int|
                0 <= i < endpoints@.len() && (#[trigger] endpoints@[i]).0 == id,
        forall|i: int| #[trigger]
            is_last_entry(endpoints@, i) ==> store@[endpoints@[i].0] == registered_node(
                endpoints@[i].0,
                endpoints@[i].1,
                store@[endpoints@[i].0].registered_at,
            ),
        store.ids() == first_occurrences(endpoint_ids(endpoints@)),
{
    let mut store = HeartbeatStore::empty();
    let mut n: usize = 0;
    assert(endpoint_ids(endpoints@.take(0)) =~= Seq::<u32>::empty());
    while n < endpoints.len()
        invariant
            n <= endpoints.len(),
            store.ids() == first_occurrences(endpoint_ids(endpoints@.take(n as int))),
            forall|id: u32| #[trigger]
                store@.dom().contains(id) <==> exists|i: int|
                    0 <= i < n && (#[trigger] endpoints@[i]).0 == id,
            forall|i: int| #[trigger]
                is_last_entry(endpoints@.take(n as int), i) ==> store@[endpoints@[i].0]
                    == registered_node(
                    endpoints@[i].0,
                    endpoints@[i].1,
                    store@[endpoints@[i].0].registered_at,
                ),
        decreases endpoints.len() - n,
    {
        let ghost before = store@;
        let id: u32 = endpoints[n].0;
        let endpoint: String = endpoints[n].1.clone();
        store.put(NodeHeartbeatState::new(id, endpoint));
        proof {
            let ids = endpoint_ids(endpoints@.take(n + 1));
            assert(ids.drop_last() =~= endpoint_ids(endpoints@.take(n as int)));
            assert(ids.last() == id);
            assert forall|i: int| #[trigger]
                is_last_entry(endpoints@.take(n + 1), i) implies store@[endpoints@[i].0]
                == registered_node(
                endpoints@[i].0,
                endpoints@[i].1,
                store@[endpoints@[i].0].registered_at,
            ) by {
                let longer = endpoints@.take(n + 1);
                let shorter = endpoints@.take(n as int);
                if i < n {
                    assert(longer[n as int].0 != longer[i].0);
                    assert forall|j: int| i < j < shorter.len() implies (
                    #[trigger] shorter[j]).0 != shorter[i].0 by {
                        assert(longer[j].0 != longer[i].0);
                    }
                    assert(is_last_entry(shorter, i));
                }
            }
            assert forall|k: u32| #[trigger] store@.dom().contains(k) <==> exists|i: int|
                0 <= i < n + 1 && (#[trigger] endpoints@[i]).0 == k by {
                assert(before.dom().contains(k) <==> exists|i: int|
                    0 <= i < n && (#[trigger] endpoints@[i]).0 == k);
                if k == id {
                    assert(endpoints@[n as int].0 == k);
                }
            }
        }
        n = n + 1;
    }
    assert(endpoints@.take(n as int) =~= endpoints@);
    store
}

// ---------------------------------------------------------------------------
// Heartbeats
// ---------------------------------------------------------------------------

/// The message that a node is not registered.
pub open spec fn unknown_node(node_id: u32) -> Seq<char> {
    "Unknown node_id: "@ + decimal(node_id as nat)
}

/// Record a successful heartbeat from a node at a given time.
pub fn record_heartbeat_at(store: &mut HeartbeatStore, node_id: u32, now: i128) -> (r: Result<
    (),
    String,
>)
    ensures
        match r {
            Ok(()) => old(store)@.dom().contains(node_id) && final(store)@ == old(store)@.insert(
                node_id,
                after_success(old(store)@[node_id], now),
            ),
            Err(message) => !old(store)@.dom().contains(node_id) && final(store)@ == old(store)@
                && message@ == unknown_node(node_id),
        },
        final(store).ids() == old(store).ids(),
{
    broadcast use vstd::std_specs::hash::group_hash_axioms;

    proof {
        use_type_invariant(&*store);
    }
    let mut taken = HeartbeatStore::empty();
    std::mem::swap(&mut taken, store);
    let HeartbeatStore { mut nodes, order } = taken;
    let r: Result<(), String> = match nodes.remove(&node_id) {
        None => {
            let mut message: String = "Unknown node_id: ".to_owned();
            message.append(u64_to_text(node_id as u64).as_str());
            Err(message)
        },
        Some(mut node) => {
            node.record_success_at(now);
            nodes.insert(node_id, node);
            Ok(())
        },
    };
    assert(nodes@ =~= if old(store)@.dom().contains(node_id) {
        old(store)@.insert(node_id, after_success(old(store)@[node_id], now))
    } else {
        old(store)@
    });
    *store = HeartbeatStore { nodes, order };
    r
}

/// Record a successful heartbeat from a node.
pub fn record_heartbeat(store: &mut HeartbeatStore, node_id: u32) -> (r: Result<(), String>)
    ensures
        match r {
            Ok(()) => old(store)@.dom().contains(node_id) && exists|now: i128|
                final(store)@ == old(store)@.insert(
                    node_id,
                    #[trigger] after_success(old(store)@[node_id], now),
                ),
            Err(message) => !old(store)@.dom().contains(node_id) && final(store)@ == old(store)@
                && message@ == unknown_node(node_id),
        },
        final(store).ids() == old(store).ids(),
{
    let now: i128 = unix_nanos_now();
    record_heartbeat_at(store, node_id, now)
}

// ---------------------------------------------------------------------------
// The periodic check
// ---------------------------------------------------------------------------

/// True when a check counts one more missed heartbeat against a node. The check
/// is made at `now`; `read_at` is when the clock was read for the node's grace
/// period.
pub open spec fn misses(
    node: NodeHeartbeatState,
    config: HeartbeatConfig,
    read_at: i128,
    now: i128,
) -> bool {
    &&& !in_grace_period(node, read_at, config.startup_grace_period)
    &&& is_overdue(node, now, config.heartbeat_interval)
}

/// A node after a check.
pub open spec fn after_check(
    node: NodeHeartbeatState,
    config: HeartbeatConfig,
    read_at: i128,
    now: i128,
) -> NodeHeartbeatState {
    if misses(node, config, read_at, now) {
        after_failure(node, config.max_missed_heartbeats)
    } else {
        node
    }
}

/// True when a check marks a node unhealthy that was healthy before.
pub open spec fn newly_failed(
    node: NodeHeartbeatState,
    config: HeartbeatConfig,
    read_at: i128,
    now: i128,
) -> bool {
    node.is_healthy && !after_check(node, config, read_at, now).is_healthy
}

/// True when the numbers that checking a node computes fit their types. Only
/// those that are reached count.
pub open spec fn check_fits(
    node: NodeHeartbeatState,
    config: HeartbeatConfig,
    read_at: i128,
    now: i128,
) -> bool {
    !in_grace_period(node, read_at, config.startup_grace_period) ==> {
        &&& node.last_heartbeat is Some && seconds_since(now, node.last_heartbeat->0) is Some
            ==> config.heartbeat_interval * 2 <= u64::MAX
        &&& is_overdue(node, now, config.heartbeat_interval) ==> node.consecutive_failures
            < u32::MAX
    }
}

/// The clock reading that belongs to node `id`: each node in the order of `ids`
/// has its own.
pub open spec fn reading_of(ids: Seq<u32>, readings: Seq<i128>, id: u32) -> i128 {
    readings[ids.index_of(id)]
}

/// True when every node can be checked.
pub open spec fn checks_fit(
    nodes: Map<u32, NodeHeartbeatState>,
    ids: Seq<u32>,
    config: HeartbeatConfig,
    readings: Seq<i128>,
    now: i128,
) -> bool {
    forall|id: u32| #[trigger]
        nodes.dom().contains(id) ==> check_fits(
            nodes[id],
            config,
            reading_of(ids, readings, id),
            now,
        )
}

/// All nodes after a check.
pub open spec fn checked_nodes(
    nodes: Map<u32, NodeHeartbeatState>,
    ids: Seq<u32>,
    config: HeartbeatConfig,
    readings: Seq<i128>,
    now: i128,
) -> Map<u32, NodeHeartbeatState> {
    Map::new(
        |id: u32| nodes.dom().contains(id),
        |id: u32| after_check(nodes[id], config, reading_of(ids, readings, id), now),
    )
}

/// The nodes that a check marks unhealthy, in the order of `ids`, each with its
/// endpoint.
pub open spec fn failures_found(
    nodes: Map<u32, NodeHeartbeatState>,
    ids: Seq<u32>,
    config: HeartbeatConfig,
    readings: Seq<i128>,
    now: i128,
) -> Seq<(u32, String)> {
    ids.filter(
        |id: u32| newly_failed(nodes[id], config, reading_of(ids, readings, id), now),
    ).map_values(|id: u32| (id, nodes[id].endpoint))
}

impl NodeHeartbeatState {
    /// Tells whether `check_at` can be computed on these values.
    fn check_fits_at(&self, config: &HeartbeatConfig, read_at: i128, now: i128) -> (r: bool)
        ensures
            r == check_fits(*self, *config, read_at, now),
    {
        if self.is_in_grace_period_at(read_at, config.startup_grace_period) {
            return true;
        }
        let doubled: Option<u64> = config.heartbeat_interval.checked_add(config.heartbeat_interval);
        match self.last_heartbeat {
            Some(last) => if now >= last && doubled.is_none() {
                return false;
            },
            None => {},
        }
        self.consecutive_failures < u32::MAX || !self.is_overdue_at(now, config.heartbeat_interval)
    }

    /// Checks the node once. Returns whether it was just marked unhealthy.
    fn check_at(&mut self, config: &HeartbeatConfig, read_at: i128, now: i128) -> (failed: bool)
        requires
            check_fits(*old(self), *config, read_at, now),
        ensures
            *final(self) == after_check(*old(self), *config, read_at, now),
            failed == newly_failed(*old(self), *config, read_at, now),
    {
        if self.is_in_grace_period_at(read_at, config.startup_grace_period) {
            return false;
        }
        if self.is_overdue_at(now, config.heartbeat_interval) {
            let was_healthy: bool = self.is_healthy;
            self.record_failure(config.max_missed_heartbeats);
            was_healthy && !self.is_healthy
        } else {
            false
        }
    }
}

/// Tells whether `check_heartbeats` can be computed on these values: false when
/// a count or the doubled interval would leave the range of its type.
pub fn heartbeats_fit(
    store: &HeartbeatStore,
    config: &HeartbeatConfig,
    readings: &[i128],
    now: i128,
) -> (r: bool)
    requires
        readings@.len() == store.ids().len(),
    ensures
        r == checks_fit(store@, store.ids(), *config, readings@, now),
{
    broadcast use vstd::std_specs::hash::group_hash_axioms;

    proof {
        use_type_invariant(store);
    }
    let ghost ids = store.ids();
    let mut i: usize = 0;
    while i < store.order.len()
        invariant
            i <= store.order.len(),
            ids == store.order@,
            ids == store.ids(),
            readings@.len() == ids.len(),
            ids_exact(store@, ids),
            forall|j: int|
                0 <= j < i ==> check_fits(
                    store@[#[trigger] ids[j]],
                    *config,
                    readings@[j],
                    now,
                ),
        decreases store.order.len() - i,
    {
        let id: u32 = store.order[i];
        proof {
            position_is_unique(ids, i as int);
            assert(ids.contains(ids[i as int]));
            assert(store@.dom().contains(id));
        }
        match store.get(id) {
            Some(node) => if !node.check_fits_at(config, readings[i], now) {
                return false;
            },
            None => {},
        }
        i = i + 1;
    }
    assert forall|id: u32| #[trigger] store@.dom().contains(id) implies check_fits(
        store@[id],
        *config,
        reading_of(ids, readings@, id),
        now,
    ) by {
        assert(ids.contains(id));
        let k = choose|k: int| 0 <= k < ids.len() && ids[k] == id;
        position_is_unique(ids, k);
        assert(check_fits(store@[ids[k]], *config, readings@[k], now));
    }
    true
}

/// Checks every node once: one that is past its grace period and overdue has
/// missed a heartbeat, and is marked unhealthy once it has missed too many in a
/// row. Returns the nodes that were just marked unhealthy with their endpoints.
///
/// The check is made at `now`. The grace period of each node is tested against a
/// clock reading of its own; `readings` holds these, in the order of the nodes.
pub fn check_heartbeats(
    store: &mut HeartbeatStore,
    config: &HeartbeatConfig,
    readings: &[i128],
    now: i128,
) -> (failed: Vec<(u32, String)>)
    requires
        readings@.len() == old(store).ids().len(),
        checks_fit(old(store)@, old(store).ids(), *config, readings@, now),
    ensures
        final(store)@ == checked_nodes(
            old(store)@,
            old(store).ids(),
            *config,
            readings@,
            now,
        ),
        final(store).ids() == old(store).ids(),
        ids_exact(old(store)@, old(store).ids()),
        failed@ == failures_found(old(store)@, old(store).ids(), *config, readings@, now),
{
    broadcast use vstd::std_specs::hash::group_hash_axioms;

    proof {
        use_type_invariant(&*store);
    }
    let ghost before = store@;
    let ghost ids = store.ids();
    let ghost fails = |id: u32|
        newly_failed(before[id], *config, reading_of(ids, readings@, id), now);
    let ghost named = |id: u32| (id, before[id].endpoint);
    let ghost checked = checked_nodes(before, ids, *config, readings@, now);
    let mut taken = HeartbeatStore::empty();
    std::mem::swap(&mut taken, store);
    let HeartbeatStore { mut nodes, order } = taken;
    let mut failed: Vec<(u32, String)> = Vec::new();
    let mut i: usize = 0;
    proof {
        filter_none(ids, fails);
        assert(failed@ =~= ids.take(0).filter(fails).map_values(named));
    }
    while i < order.len()
        invariant
            i <= order.len(),
            order@ == ids,
            readings@.len() == ids.len(),
            ids_exact(before, ids),
            checks_fit(before, ids, *config, readings@, now),
            fails == (|id: u32|
                newly_failed(before[id], *config, reading_of(ids, readings@, id), now)),
            named == (|id: u32| (id, before[id].endpoint)),
            checked == checked_nodes(before, ids, *config, readings@, now),
            nodes@.dom() =~= before.dom(),
            forall|j: int| 0 <= j < i ==> nodes@[#[trigger] ids[j]] == checked[ids[j]],
            forall|j: int| i <= j < ids.len() ==> nodes@[#[trigger] ids[j]] == before[ids[j]],
            failed@ == ids.take(i as int).filter(fails).map_values(named),
        decreases order.len() - i,
    {
        let id: u32 = order[i];
        proof {
            position_is_unique(ids, i as int);
            assert(ids.contains(ids[i as int]));
            assert(before.dom().contains(id));
            filter_next(ids, i as int, fails);
        }
        let ghost earlier = nodes@;
        match nodes.remove(&id) {
            Some(mut node) => {
                assert(node == before[ids[i as int]]);
                if node.check_at(config, readings[i], now) {
                    failed.push((id, node.endpoint.clone()));
                }
                nodes.insert(id, node);
            },
            None => {
                assert(false);
            },
        }
        assert(nodes@ =~= earlier.insert(id, checked[id]));
        assert(failed@ =~= ids.take(i + 1).filter(fails).map_values(named));
        i = i + 1;
    }
    proof {
        assert(ids.take(ids.len() as int) =~= ids);
        assert forall|id: u32| nodes@.dom().contains(id) implies nodes@[id] == checked[id] by {
            assert(before.dom().contains(id));
            assert(ids.contains(id));
            let k = choose|k: int| 0 <= k < ids.len() && ids[k] == id;
            assert(nodes@[ids[k]] == checked[ids[k]]);
        }
        assert(nodes@ =~= checked);
        assert(ids_exact(nodes@, order@));
    }
    *store = HeartbeatStore { nodes, order };
    failed
}

// ---------------------------------------------------------------------------
// Health of the committee
// ---------------------------------------------------------------------------

/// What is reported of one node.
#[derive(Debug, Clone)]
pub struct NodeHealthStatus {
    pub node_id: u32,
    pub endpoint: String,
    pub is_healthy: bool,
    pub last_heartbeat: Option<i128>,
    pub consecutive_failures: u32,
}

/// What is reported of a node.
pub open spec fn status_of(node: NodeHeartbeatState) -> NodeHealthStatus {
    NodeHealthStatus {
        node_id: node.node_id,
        endpoint: node.endpoint,
        is_healthy: node.is_healthy,
        last_heartbeat: node.last_heartbeat,
        consecutive_failures: node.consecutive_failures,
    }
}

/// Get health status of all nodes, each once.
pub fn get_all_health_status(store: &HeartbeatStore) -> (statuses: Vec<NodeHealthStatus>)
    ensures
        ids_exact(store@, store.ids()),
        statuses@ == store.ids().map_values(|id: u32| status_of(store@[id])),
{
    proof {
        use_type_invariant(store);
    }
    let ghost ids = store.ids();
    let mut statuses: Vec<NodeHealthStatus> = Vec::new();
    let mut i: usize = 0;
    while i < store.order.len()
        invariant
            i <= store.order.len(),
            ids == store.order@,
            ids_exact(store@, ids),
            statuses@ == ids.take(i as int).map_values(|id: u32| status_of(store@[id])),
        decreases store.order.len() - i,
    {
        let id: u32 = store.order[i];
        assert(ids.contains(ids[i as int]));
        assert(store@.dom().contains(id));
        match store.get(id) {
            Some(node) => {
                statuses.push(
                    NodeHealthStatus {
                        node_id: node.node_id,
                        endpoint: node.endpoint.clone(),
                        is_healthy: node.is_healthy,
                        last_heartbeat: node.last_heartbeat,
                        consecutive_failures: node.consecutive_failures,
                    },
                );
            },
            None => {},
        }
        assert(statuses@ =~= ids.take(i + 1).map_values(|id: u32| status_of(store@[id])));
        i = i + 1;
    }
    assert(ids.take(ids.len() as int) =~= ids);
    statuses
}

/// The healthy nodes.
pub open spec fn healthy_nodes(nodes: Map<u32, NodeHeartbeatState>) -> Set<u32> {
    nodes.dom().filter(|id: u32| nodes[id].is_healthy)
}

/// The nodes that can take over from a failed node: the healthy ones but itself.
pub open spec fn takeover_nodes(nodes: Map<u32, NodeHeartbeatState>, failed_node_id: u32) -> Set<
    u32,
> {
    healthy_nodes(nodes).remove(failed_node_id)
}

/// The healthy nodes but one, or all of them, in the order of the ids.
fn healthy_ids(store: &HeartbeatStore, except: Option<u32>) -> (healthy: Vec<u32>)
    ensures
        healthy@ == store.ids().filter(
            |id: u32| store@[id].is_healthy && except != Some(id),
        ),
        healthy@.no_duplicates(),
        healthy@.to_set() == match except {
            Some(id) => takeover_nodes(store@, id),
            None => healthy_nodes(store@),
        },
        healthy@.len() == healthy@.to_set().len(),
{
    proof {
        use_type_invariant(store);
    }
    let ghost ids = store.ids();
    let ghost chosen = |id: u32| store@[id].is_healthy && except != Some(id);
    let mut healthy: Vec<u32> = Vec::new();
    let mut i: usize = 0;
    proof {
        filter_none(ids, chosen);
    }
    while i < store.order.len()
        invariant
            i <= store.order.len(),
            ids == store.order@,
            ids_exact(store@, ids),
            chosen == (|id: u32| store@[id].is_healthy && except != Some(id)),
            healthy@ == ids.take(i as int).filter(chosen),
        decreases store.order.len() - i,
    {
        let id: u32 = store.order[i];
        proof {
            assert(ids.contains(ids[i as int]));
            assert(store@.dom().contains(id));
            filter_next(ids, i as int, chosen);
        }
        let excepted: bool = match except {
            Some(other) => other == id,
            None => false,
        };
        match store.get(id) {
            Some(node) => if node.is_healthy && !excepted {
                healthy.push(id);
            },
            None => {},
        }
        i = i + 1;
    }
    proof {
        assert(ids.take(ids.len() as int) =~= ids);
        filtered_count(ids, chosen);
        assert(ids.to_set() =~= store@.dom());
        match except {
            Some(id) => {
                assert(healthy@.to_set() =~= takeover_nodes(store@, id));
            },
            None => {
                assert(healthy@.to_set() =~= healthy_nodes(store@));
            },
        }
    }
    healthy
}

/// Check if minimum number of healthy nodes are available for MPC operations.
pub fn check_committee_quorum(store: &HeartbeatStore, min_healthy: usize) -> (r: bool)
    ensures
        r == (healthy_nodes(store@).len() >= min_healthy),
{
    healthy_ids(store, None).len() >= min_healthy
}

/// The nodes that can take over from a failed node, each once.
pub fn failover_nodes(store: &HeartbeatStore, failed_node_id: u32) -> (ids: Vec<u32>)
    ensures
        ids@.no_duplicates(),
        ids@.to_set() == takeover_nodes(store@, failed_node_id),
        ids@.len() == takeover_nodes(store@, failed_node_id).len(),
{
    healthy_ids(store, Some(failed_node_id))
}

/// Healthy nodes that a committee needs besides a failed one.
pub const MIN_FAILOVER_NODES: usize = 2;

/// Trigger committee failover procedure. It needs two healthy nodes besides the
/// failed one.
pub fn trigger_failover(store: &HeartbeatStore, failed_node_id: u32) -> (r: Result<(), String>)
    ensures
        match r {
            Ok(()) => takeover_nodes(store@, failed_node_id).len() >= MIN_FAILOVER_NODES,
            Err(message) => takeover_nodes(store@, failed_node_id).len() < MIN_FAILOVER_NODES
                && message@ == "Cannot failover: insufficient healthy nodes (need 2, have "@
                + decimal(takeover_nodes(store@, failed_node_id).len()) + ")"@,
        },
{
    let available: usize = failover_nodes(store, failed_node_id).len();
    if available < MIN_FAILOVER_NODES {
        let mut message: String =
            "Cannot failover: insufficient healthy nodes (need 2, have ".to_owned();
        message.append(u64_to_text(available as u64).as_str());
        message.append(")");
        return Err(message);
    }
    Ok(())
}

// ---------------------------------------------------------------------------
// What monitoring promises
// ---------------------------------------------------------------------------

/// A node after several checks, with no heartbeat between them. Each check is the
/// clock reading for the grace period and the time of the check.
pub open spec fn after_checks(
    node: NodeHeartbeatState,
    config: HeartbeatConfig,
    checks: Seq<(i128, i128)>,
) -> NodeHeartbeatState
    decreases checks.len(),
{
    if checks.len() == 0 {
        node
    } else {
        after_check(
            after_checks(node, config, checks.drop_last()),
            config,
            checks.last().0,
            checks.last().1,
        )
    }
}

/// True when a check counts a missed heartbeat.
pub open spec fn missed(
    node: NodeHeartbeatState,
    config: HeartbeatConfig,
    check: (i128, i128),
) -> bool {
    misses(node, config, check.0, check.1)
}

/// True when the health of a node agrees with its count: it is healthy as long
/// as it has missed fewer heartbeats in a row than make it unhealthy.
pub open spec fn health_consistent(node: NodeHeartbeatState, config: HeartbeatConfig) -> bool {
    node.is_healthy <==> node.consecutive_failures == 0 || node.consecutive_failures
        < config.max_missed_heartbeats
}

/// A node that misses every heartbeat from a sound start is counted once for
/// each check, and is unhealthy as soon as it has missed the set number.
pub proof fn missed_heartbeats_make_unhealthy(
    node: NodeHeartbeatState,
    config: HeartbeatConfig,
    checks: Seq<(i128, i128)>,
)
    requires
        node.is_healthy,
        node.consecutive_failures == 0,
        checks.len() <= u32::MAX,
        forall|k: int| 0 <= k < checks.len() ==> missed(node, config, #[trigger] checks[k]),
    ensures
        after_checks(node, config, checks).consecutive_failures == checks.len(),
        after_checks(node, config, checks).is_healthy <==> checks.len() == 0 || checks.len()
            < config.max_missed_heartbeats,
        after_checks(node, config, checks).last_heartbeat == node.last_heartbeat,
        after_checks(node, config, checks).registered_at == node.registered_at,
    decreases checks.len(),
{
    if checks.len() > 0 {
        let earlier = checks.drop_last();
        assert forall|k: int| 0 <= k < earlier.len() implies missed(
            node,
            config,
            #[trigger] earlier[k],
        ) by {
            assert(missed(node, config, checks[k]));
        }
        missed_heartbeats_make_unhealthy(node, config, earlier);
        assert(missed(node, config, checks[checks.len() - 1]));
        assert(missed(after_checks(node, config, earlier), config, checks.last()));
    }
}

/// A node that misses every heartbeat is reported exactly once, by the check
/// that counts the set number of missed heartbeats (the first check, should the
/// number be 0).
pub proof fn failure_is_reported_once(
    node: NodeHeartbeatState,
    config: HeartbeatConfig,
    checks: Seq<(i128, i128)>,
    k: int,
)
    requires
        node.is_healthy,
        node.consecutive_failures == 0,
        checks.len() <= u32::MAX,
        forall|j: int| 0 <= j < checks.len() ==> missed(node, config, #[trigger] checks[j]),
        0 <= k < checks.len(),
    ensures
        newly_failed(
            after_checks(node, config, checks.take(k)),
            config,
            checks[k].0,
            checks[k].1,
        ) <==> k + 1 == config.max_missed_heartbeats || (k == 0 && config.max_missed_heartbeats
            == 0),
{
    let earlier = checks.take(k);
    let until = checks.take(k + 1);
    assert forall|j: int| 0 <= j < until.len() implies missed(
        node,
        config,
        #[trigger] until[j],
    ) by {
        assert(missed(node, config, checks[j]));
    }
    assert forall|j: int| 0 <= j < earlier.len() implies missed(
        node,
        config,
        #[trigger] earlier[j],
    ) by {
        assert(missed(node, config, checks[j]));
    }
    missed_heartbeats_make_unhealthy(node, config, earlier);
    missed_heartbeats_make_unhealthy(node, config, until);
    assert(until.drop_last() =~= earlier);
    assert(until.last() == checks[k]);
}

/// A node is healthy right after a heartbeat, whatever it missed before, and no
/// check counts anything against it until more than two intervals have passed.
pub proof fn heartbeat_restores_health(
    node: NodeHeartbeatState,
    config: HeartbeatConfig,
    heard: i128,
    read_at: i128,
    now: i128,
)
    requires
        heard <= now,
        (now - heard) / (NANOS_PER_SEC as int) <= config.heartbeat_interval * 2,
    ensures
        after_success(node, heard).is_healthy,
        after_success(node, heard).consecutive_failures == 0,
        after_check(after_success(node, heard), config, read_at, now) == after_success(
            node,
            heard,
        ),
{
}

/// No check counts anything against a node in its startup grace period.
pub proof fn grace_period_excuses(
    node: NodeHeartbeatState,
    config: HeartbeatConfig,
    read_at: i128,
    now: i128,
)
    requires
        node.registered_at <= read_at,
        (read_at - node.registered_at) / (NANOS_PER_SEC as int) < config.startup_grace_period,
    ensures
        after_check(node, config, read_at, now) == node,
{
}

/// The health of every node agrees with its count from registration on, through
/// heartbeats and checks.
pub proof fn health_stays_consistent(
    node: NodeHeartbeatState,
    config: HeartbeatConfig,
    node_id: u32,
    endpoint: String,
    read_at: i128,
    now: i128,
)
    requires
        health_consistent(node, config),
        check_fits(node, config, read_at, now),
    ensures
        health_consistent(registered_node(node_id, endpoint, now), config),
        health_consistent(after_success(node, now), config),
        health_consistent(after_check(node, config, read_at, now), config),
{
}

/// A check makes no node healthy, and reports exactly the nodes that stop being
/// healthy, each once.
pub proof fn check_reports_what_it_changes(
    nodes: Map<u32, NodeHeartbeatState>,
    ids: Seq<u32>,
    config: HeartbeatConfig,
    readings: Seq<i128>,
    now: i128,
)
    requires
        ids_exact(nodes, ids),
    ensures
        ({
            let after = checked_nodes(nodes, ids, config, readings, now);
            let reported = failures_found(nodes, ids, config, readings, now).map_values(
                |failure: (u32, String)| failure.0,
            );
            &&& healthy_nodes(after).subset_of(healthy_nodes(nodes))
            &&& reported.no_duplicates()
            &&& reported.to_set() == healthy_nodes(nodes).difference(healthy_nodes(after))
        }),
{
    let after = checked_nodes(nodes, ids, config, readings, now);
    let fails = |id: u32|
        newly_failed(nodes[id], config, reading_of(ids, readings, id), now);
    let reported = failures_found(nodes, ids, config, readings, now).map_values(
        |failure: (u32, String)| failure.0,
    );
    assert(reported =~= ids.filter(fails));
    filtered_count(ids, fails);
    let lost = healthy_nodes(nodes).difference(healthy_nodes(after));
    assert forall|id: u32| reported.to_set().contains(id) <==> lost.contains(id) by {
        assert(ids.to_set().contains(id) <==> nodes.dom().contains(id));
    }
    assert(reported.to_set() =~= lost);
}

/// A failover from a node that is not healthy goes ahead exactly when the
/// healthy nodes are a quorum of as many as it needs; one from a healthy node
/// needs one healthy node more.
pub proof fn failover_needs_quorum(nodes: Map<u32, NodeHeartbeatState>, failed_node_id: u32)
    requires
        nodes.dom().finite(),
    ensures
        takeover_nodes(nodes, failed_node_id).len() == if healthy_nodes(nodes).contains(
            failed_node_id,
        ) {
            healthy_nodes(nodes).len() - 1
        } else {
            healthy_nodes(nodes).len() as int
        },
{
    if !healthy_nodes(nodes).contains(failed_node_id) {
        assert(takeover_nodes(nodes, failed_node_id) =~= healthy_nodes(nodes));
    }
}

} // verus!
