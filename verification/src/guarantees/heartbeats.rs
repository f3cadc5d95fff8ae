//! Heartbeats of the nodes, and the health of the committee.
use crate::guarantees::basics::{decimal_writes, gives, setting_gives, writes};
use crate::mpc_heartbeat::{
    check_committee_quorum, check_heartbeats, endpoint_ids, failover_nodes, get_all_health_status,
    healthy_nodes, heartbeats_fit, ids_exact, init_heartbeat_store, is_last_entry, newly_failed,
    reading_of, record_heartbeat, record_heartbeat_at, takeover_nodes, trigger_failover,
    HeartbeatConfig, HeartbeatStore, NodeHealthStatus, NodeHeartbeatState,
};
use crate::sequences::{
    filters_agree, first_occurrences_in_order, occurs_first, position_is_unique,
};
use vstd::prelude::*;

verus! {

// ---------------------------------------------------------------------------
// Settings
// ---------------------------------------------------------------------------

/// Without settings a node is expected every ten seconds, may miss three
/// heartbeats, and has thirty seconds to start.
pub proof fn default_settings(config: HeartbeatConfig)
    requires
        call_ensures(HeartbeatConfig::default, (), config),
    ensures
        config.heartbeat_interval == 10,
        config.max_missed_heartbeats == 3,
        config.startup_grace_period == 30,
{
}

/// Each setting is read for its own value, and the defaults stand in for those
/// that cannot be read.
pub proof fn settings_are_taken(
    interval: Option<String>,
    max_missed: Option<String>,
    grace: Option<String>,
    config: HeartbeatConfig,
)
    requires
        call_ensures(HeartbeatConfig::from_env, (interval, max_missed, grace), config),
    ensures
        gives(interval, u64::MAX as int, 10, config.heartbeat_interval as int),
        gives(max_missed, u32::MAX as int, 3, config.max_missed_heartbeats as int),
        gives(grace, u64::MAX as int, 30, config.startup_grace_period as int),
{
    setting_gives(interval, u64::MAX as int, 10);
    setting_gives(max_missed, u32::MAX as int, 3);
    setting_gives(grace, u64::MAX as int, 30);
}

// ---------------------------------------------------------------------------
// One node
// ---------------------------------------------------------------------------

/// True when a node is as it was registered: healthy, not heard of, nothing missed.
pub open spec fn fresh(node: NodeHeartbeatState, id: u32, endpoint: String) -> bool {
    &&& node.node_id == id
    &&& node.endpoint == endpoint
    &&& node.last_heartbeat is None
    &&& node.consecutive_failures == 0
    &&& node.is_healthy
}

/// True when two states are of one node, registered at one time.
pub open spec fn same_node(a: NodeHeartbeatState, b: NodeHeartbeatState) -> bool {
    a.node_id == b.node_id && a.endpoint == b.endpoint && a.registered_at == b.registered_at
}

/// A registered node is fresh.
pub proof fn registered_node_is_fresh(
    id: u32,
    endpoint: String,
    now: i128,
    given: NodeHeartbeatState,
    made: NodeHeartbeatState,
)
    requires
        call_ensures(NodeHeartbeatState::registered, (id, endpoint, now), given),
        call_ensures(NodeHeartbeatState::new, (id, endpoint), made),
    ensures
        fresh(given, id, endpoint),
        given.registered_at == now,
        fresh(made, id, endpoint),
{
}

/// A heartbeat makes a node healthy, whatever it had missed, and is noted.
pub proof fn heartbeat_heals(node: &mut NodeHeartbeatState, now: i128, done: ())
    requires
        call_ensures(NodeHeartbeatState::record_success_at, (node, now), done),
    ensures
        same_node(*final(node), *old(node)),
        final(node).last_heartbeat == Some(now),
        final(node).consecutive_failures == 0,
        final(node).is_healthy,
{
}

/// The same holds of a heartbeat noted now, at some time of the clock.
pub proof fn heartbeat_now_heals(node: &mut NodeHeartbeatState, done: ())
    requires
        call_ensures(NodeHeartbeatState::record_success, (node,), done),
    ensures
        same_node(*final(node), *old(node)),
        final(node).last_heartbeat is Some,
        final(node).consecutive_failures == 0,
        final(node).is_healthy,
{
}

/// A missed heartbeat is counted. The node is unhealthy when it was, or when the
/// count has come to the number it may miss.
pub proof fn miss_is_counted(node: &mut NodeHeartbeatState, max_failures: u32, done: ())
    requires
        call_ensures(NodeHeartbeatState::record_failure, (node, max_failures), done),
        old(node).consecutive_failures < u32::MAX,
    ensures
        same_node(*final(node), *old(node)),
        final(node).last_heartbeat == old(node).last_heartbeat,
        final(node).consecutive_failures == old(node).consecutive_failures + 1,
        final(node).is_healthy <==> old(node).is_healthy && old(node).consecutive_failures + 1
            < max_failures,
{
}

/// True when less than `secs` seconds have passed since a node registered, at a
/// time that does not lie before that.
pub open spec fn still_starting(node: NodeHeartbeatState, at: i128, secs: u64) -> bool {
    node.registered_at <= at && at - node.registered_at < secs * 1_000_000_000
}

/// True when a node has not been heard of for two intervals and a second, or
/// never, or only at a time that lies ahead.
pub open spec fn is_late(node: NodeHeartbeatState, at: i128, interval: u64) -> bool {
    match node.last_heartbeat {
        None => true,
        Some(last) => at < last || at - last >= (2 * interval + 1) * 1_000_000_000,
    }
}

/// The grace period is counted in seconds from the registration.
pub proof fn grace_is_counted(
    node: NodeHeartbeatState,
    at: i128,
    secs: u64,
    r: bool,
    r_now: bool,
)
    requires
        call_ensures(NodeHeartbeatState::is_in_grace_period_at, (&node, at, secs), r),
        call_ensures(NodeHeartbeatState::is_in_grace_period, (&node, secs), r_now),
    ensures
        r <==> still_starting(node, at, secs),
        exists|now: i128| r_now == #[trigger] still_starting(node, now, secs),
{
    let now = choose|now: i128|
        r_now == #[trigger] crate::mpc_heartbeat::in_grace_period(node, now, secs);
    assert(r_now == still_starting(node, now, secs));
}

/// A node is overdue when it is late.
pub proof fn late_node_is_overdue(node: NodeHeartbeatState, at: i128, interval: u64, r: bool)
    requires
        call_ensures(NodeHeartbeatState::is_overdue_at, (&node, at, interval), r),
    ensures
        r <==> is_late(node, at, interval),
{
}

// ---------------------------------------------------------------------------
// The store
// ---------------------------------------------------------------------------

/// A node is found exactly when it is in the store, and as it is there. As many
/// are counted as the store has nodes.
pub proof fn node_is_found(
    store: HeartbeatStore,
    id: u32,
    node: Option<&NodeHeartbeatState>,
    n: usize,
)
    requires
        call_ensures(HeartbeatStore::get, (&store, id), node),
        call_ensures(HeartbeatStore::len, (&store,), n),
    ensures
        node is Some <==> store@.dom().contains(id),
        node is Some ==> *node->0 == store@[id] && node->0.node_id == id,
        n == store@.dom().len(),
{
    store.ids().unique_seq_to_set();
    assert(store.ids().to_set() =~= store@.dom());
}

/// True when `i` is where an id first occurs in a list of nodes.
pub open spec fn first_named_at(endpoints: Seq<(u32, String)>, id: u32, i: int) -> bool {
    &&& 0 <= i < endpoints.len()
    &&& endpoints[i].0 == id
    &&& forall|j: int| 0 <= j < i ==> (#[trigger] endpoints[j]).0 != id
}

/// A new store holds the listed nodes and no others, each once and fresh, in the
/// order in which they are first listed. Of a node listed twice the later entry
/// counts.
pub proof fn listed_nodes_are_registered(endpoints: &[(u32, String)], store: HeartbeatStore)
    requires
        call_ensures(init_heartbeat_store, (endpoints,), store),
    ensures
        forall|id: u32| #[trigger]
            store@.dom().contains(id) <==> exists|i: int|
                0 <= i < endpoints@.len() && (#[trigger] endpoints@[i]).0 == id,
        forall|i: int|
            0 <= i < endpoints@.len() && (forall|j: int|
                i < j < endpoints@.len() ==> (#[trigger] endpoints@[j]).0 != endpoints@[i].0)
                ==> fresh(
                store@[(#[trigger] endpoints@[i]).0],
                endpoints@[i].0,
                endpoints@[i].1,
            ),
        store.ids().no_duplicates(),
        forall|id: u32| #[trigger] store.ids().contains(id) <==> store@.dom().contains(id),
        forall|a: int, b: int, i: int, j: int|
            0 <= a < b < store.ids().len() && #[trigger] first_named_at(
                endpoints@,
                store.ids()[a],
                i,
            ) && #[trigger] first_named_at(endpoints@, store.ids()[b], j) ==> i < j,
{
    let named = endpoint_ids(endpoints@);
    first_occurrences_in_order(named);
    assert forall|id: u32| #[trigger] store.ids().contains(id) <==> store@.dom().contains(id) by {
        if named.contains(id) {
            let i = choose|i: int| 0 <= i < named.len() && named[i] == id;
            assert(endpoints@[i].0 == id);
        }
        if store@.dom().contains(id) {
            let i = choose|i: int| 0 <= i < endpoints@.len() && (#[trigger] endpoints@[i]).0 == id;
            assert(named[i] == id);
        }
    }
    assert forall|id: u32, i: int| #[trigger]
        first_named_at(endpoints@, id, i) implies occurs_first(named, id, i) by {
        assert forall|j: int| 0 <= j < i implies #[trigger] named[j] != id by {
            assert(endpoints@[j].0 != id);
        }
    }
    assert forall|i: int|
        0 <= i < endpoints@.len() && (forall|j: int|
            i < j < endpoints@.len() ==> (#[trigger] endpoints@[j]).0 != endpoints@[i].0)
        implies fresh(
        store@[(#[trigger] endpoints@[i]).0],
        endpoints@[i].0,
        endpoints@[i].1,
    ) by {
        assert(is_last_entry(endpoints@, i));
    }
}

/// True when a message says that a node is unknown.
pub open spec fn says_unknown(message: Seq<char>, id: u32) -> bool {
    let said = "Unknown node_id: "@;
    &&& message.len() >= said.len()
    &&& message.take(said.len() as int) == said
    &&& writes(message.skip(said.len() as int), id as int)
}

/// A heartbeat of a registered node is noted, and the node is healthy again.
/// Nothing changes of the others. An unknown node is refused by its number, and
/// then nothing changes at all.
pub proof fn heartbeat_is_noted(
    store: &mut HeartbeatStore,
    id: u32,
    now: i128,
    r: Result<(), String>,
)
    requires
        call_ensures(record_heartbeat_at, (store, id, now), r),
    ensures
        r is Ok <==> old(store)@.dom().contains(id),
        final(store)@.dom() == old(store)@.dom(),
        final(store).ids() == old(store).ids(),
        forall|other: u32| #[trigger]
            old(store)@.dom().contains(other) && other != id ==> final(store)@[other]
                == old(store)@[other],
        r is Ok ==> {
            let node = final(store)@[id];
            &&& same_node(node, old(store)@[id])
            &&& node.last_heartbeat == Some(now)
            &&& node.consecutive_failures == 0
            &&& node.is_healthy
        },
        r is Err ==> says_unknown(r->Err_0@, id),
{
    decimal_writes(id as nat);
    assert(final(store)@.dom() =~= old(store)@.dom());
    if r is Err {
        let said = "Unknown node_id: "@;
        let number = crate::text::decimal(id as nat);
        assert((said + number).take(said.len() as int) =~= said);
        assert((said + number).skip(said.len() as int) =~= number);
    }
}

/// The same holds of a heartbeat noted now, at some time of the clock.
pub proof fn heartbeat_is_noted_now(store: &mut HeartbeatStore, id: u32, r: Result<(), String>)
    requires
        call_ensures(record_heartbeat, (store, id), r),
    ensures
        r is Ok <==> old(store)@.dom().contains(id),
        final(store)@.dom() == old(store)@.dom(),
        final(store).ids() == old(store).ids(),
        forall|other: u32| #[trigger]
            old(store)@.dom().contains(other) && other != id ==> final(store)@[other]
                == old(store)@[other],
        r is Ok ==> {
            let node = final(store)@[id];
            &&& same_node(node, old(store)@[id])
            &&& node.last_heartbeat is Some
            &&& node.consecutive_failures == 0
            &&& node.is_healthy
        },
        r is Err ==> says_unknown(r->Err_0@, id),
{
    decimal_writes(id as nat);
    assert(final(store)@.dom() =~= old(store)@.dom());
    if r is Err {
        let said = "Unknown node_id: "@;
        let number = crate::text::decimal(id as nat);
        assert((said + number).take(said.len() as int) =~= said);
        assert((said + number).skip(said.len() as int) =~= number);
    }
}

// ---------------------------------------------------------------------------
// The periodic check
// ---------------------------------------------------------------------------

/// What one check makes of a node, before it and after it. A node that is not
/// starting any more and is late has missed one more heartbeat; any other is left
/// as it was.
pub open spec fn is_checked(
    before: NodeHeartbeatState,
    after: NodeHeartbeatState,
    config: HeartbeatConfig,
    read_at: i128,
    now: i128,
) -> bool {
    let late = !still_starting(before, read_at, config.startup_grace_period) && is_late(
        before,
        now,
        config.heartbeat_interval,
    );
    &&& !late ==> after == before
    &&& late ==> {
        &&& same_node(after, before)
        &&& after.last_heartbeat == before.last_heartbeat
        &&& before.consecutive_failures < u32::MAX ==> {
            &&& after.consecutive_failures == before.consecutive_failures + 1
            &&& after.is_healthy <==> before.is_healthy && before.consecutive_failures + 1
                < config.max_missed_heartbeats
        }
    }
}

/// A check makes of every node what it should, each by its own clock reading, and
/// reports exactly those that it found healthy and left unhealthy, each once, in
/// the order of the nodes and with its endpoint.
pub proof fn check_judges_every_node(
    store: &mut HeartbeatStore,
    config: HeartbeatConfig,
    readings: &[i128],
    now: i128,
    failed: Vec<(u32, String)>,
)
    requires
        call_ensures(check_heartbeats, (store, &config, readings, now), failed),
    ensures
        final(store)@.dom() == old(store)@.dom(),
        final(store).ids() == old(store).ids(),
        forall|k: int|
            0 <= k < old(store).ids().len() ==> is_checked(
                old(store)@[#[trigger] old(store).ids()[k]],
                final(store)@[old(store).ids()[k]],
                config,
                readings@[k],
                now,
            ),
        failed@ == old(store).ids().filter(
            |id: u32| old(store)@[id].is_healthy && !final(store)@[id].is_healthy,
        ).map_values(|id: u32| (id, old(store)@[id].endpoint)),
        forall|id: u32, endpoint: String| #[trigger]
            failed@.contains((id, endpoint)) <==> {
                &&& old(store)@.dom().contains(id)
                &&& old(store)@[id].is_healthy
                &&& !final(store)@[id].is_healthy
                &&& old(store)@[id].endpoint == endpoint
            },
{
    let nodes = old(store)@;
    let after = final(store)@;
    let ids = old(store).ids();
    assert(after.dom() =~= nodes.dom());
    let fails = |id: u32| newly_failed(nodes[id], config, reading_of(ids, readings@, id), now);
    let turned = |id: u32| nodes[id].is_healthy && !after[id].is_healthy;
    let named = |id: u32| (id, nodes[id].endpoint);
    assert forall|k: int| 0 <= k < ids.len() implies {
        &&& is_checked(nodes[#[trigger] ids[k]], after[ids[k]], config, readings@[k], now)
        &&& fails(ids[k]) == turned(ids[k])
    } by {
        position_is_unique(ids, k);
        assert(ids.contains(ids[k]));
        assert(nodes.dom().contains(ids[k]));
        assert(after[ids[k]] == crate::mpc_heartbeat::after_check(
            nodes[ids[k]],
            config,
            readings@[k],
            now,
        ));
    }
    filters_agree(ids, fails, turned);
    assert(failed@ =~= ids.filter(turned).map_values(named));
    assert forall|id: u32, endpoint: String| #[trigger]
        failed@.contains((id, endpoint)) <==> {
            &&& nodes.dom().contains(id)
            &&& nodes[id].is_healthy
            &&& !after[id].is_healthy
            &&& nodes[id].endpoint == endpoint
        } by {
        let kept = ids.filter(turned);
        if failed@.contains((id, endpoint)) {
            let k = choose|k: int| 0 <= k < failed@.len() && failed@[k] == (id, endpoint);
            assert(kept[k] == id);
            ids.lemma_filter_contains_rev(turned, kept[k]);
            ids.lemma_filter_pred(turned, k);
            assert(ids.contains(id));
        }
        if nodes.dom().contains(id) && nodes[id].is_healthy && !after[id].is_healthy
            && nodes[id].endpoint == endpoint {
            assert(ids.contains(id));
            let j = choose|j: int| 0 <= j < ids.len() && ids[j] == id;
            ids.lemma_filter_contains(turned, j);
            let k = choose|k: int| 0 <= k < kept.len() && kept[k] == id;
            assert(failed@[k] == (id, endpoint));
        }
    }
}

/// A check can be computed exactly when no count leaves its range, nor the
/// doubled interval where it is needed.
pub proof fn checking_is_in_range(
    store: HeartbeatStore,
    config: HeartbeatConfig,
    readings: &[i128],
    now: i128,
    n: usize,
    fits: bool,
)
    requires
        call_ensures(heartbeats_fit, (&store, &config, readings, now), fits),
        call_ensures(HeartbeatStore::len, (&store,), n),
    ensures
        fits <==> forall|k: int|
            0 <= k < store.ids().len() ==> {
                let node = store@[#[trigger] store.ids()[k]];
                still_starting(node, readings@[k], config.startup_grace_period) || {
                    &&& node.last_heartbeat is Some && node.last_heartbeat->0 <= now ==> 2
                        * config.heartbeat_interval <= u64::MAX
                    &&& is_late(node, now, config.heartbeat_interval)
                        ==> node.consecutive_failures < u32::MAX
                }
            },
{
    let ids = store.ids();
    if fits {
        assert forall|k: int| 0 <= k < ids.len() implies {
            let node = store@[#[trigger] ids[k]];
            still_starting(node, readings@[k], config.startup_grace_period) || {
                &&& node.last_heartbeat is Some && node.last_heartbeat->0 <= now ==> 2
                    * config.heartbeat_interval <= u64::MAX
                &&& is_late(node, now, config.heartbeat_interval) ==> node.consecutive_failures
                    < u32::MAX
            }
        } by {
            position_is_unique(ids, k);
            assert(ids.contains(ids[k]));
            assert(store@.dom().contains(ids[k]));
        }
    } else {
        let id = choose|id: u32| #[trigger]
            store@.dom().contains(id) && !crate::mpc_heartbeat::check_fits(
                store@[id],
                config,
                reading_of(ids, readings@, id),
                now,
            );
        assert(ids.contains(id));
        let k = choose|k: int| 0 <= k < ids.len() && ids[k] == id;
        position_is_unique(ids, k);
        assert(store@[ids[k]] == store@[id]);
    }
}

// ---------------------------------------------------------------------------
// Health of the committee
// ---------------------------------------------------------------------------

/// Every node is reported once: under its id and endpoint, healthy exactly when it
/// is, with its last heartbeat and what it has missed. Nothing else is reported.
pub proof fn health_is_told(store: HeartbeatStore, statuses: Vec<NodeHealthStatus>)
    requires
        call_ensures(get_all_health_status, (&store,), statuses),
    ensures
        statuses@.len() == store@.dom().len(),
        forall|k: int|
            0 <= k < statuses@.len() ==> {
                let status = #[trigger] statuses@[k];
                let node = store@[status.node_id];
                &&& store@.dom().contains(status.node_id)
                &&& status.node_id == store.ids()[k]
                &&& status.endpoint == node.endpoint
                &&& status.is_healthy == node.is_healthy
                &&& status.last_heartbeat == node.last_heartbeat
                &&& status.consecutive_failures == node.consecutive_failures
            },
        forall|id: u32| #[trigger]
            store@.dom().contains(id) ==> exists|k: int|
                0 <= k < statuses@.len() && (#[trigger] statuses@[k]).node_id == id,
        forall|j: int, k: int|
            0 <= j < k < statuses@.len() ==> (#[trigger] statuses@[j]).node_id != (
            #[trigger] statuses@[k]).node_id,
{
    let ids = store.ids();
    ids.unique_seq_to_set();
    assert(ids.to_set() =~= store@.dom());
    assert forall|k: int| 0 <= k < statuses@.len() implies (#[trigger] statuses@[k]).node_id
        == ids[k] && store@.dom().contains(ids[k]) by {
        assert(ids.contains(ids[k]));
        assert(store@.dom().contains(ids[k]));
    }
    assert forall|id: u32| #[trigger] store@.dom().contains(id) implies exists|k: int|
        0 <= k < statuses@.len() && (#[trigger] statuses@[k]).node_id == id by {
        assert(ids.contains(id));
        let k = choose|k: int| 0 <= k < ids.len() && ids[k] == id;
        assert(statuses@[k].node_id == id);
    }
}

/// True when a report says of a node, under its id and endpoint, that it is not
/// healthy.
pub open spec fn told_unhealthy(statuses: Seq<NodeHealthStatus>, node: (u32, String)) -> bool {
    exists|k: int|
        {
            &&& 0 <= k < statuses.len()
            &&& (#[trigger] statuses[k]).node_id == node.0
            &&& statuses[k].endpoint == node.1
            &&& !statuses[k].is_healthy
        }
}

/// The ids reported as healthy are those of the healthy nodes, and the nodes that
/// a check reports as failed are reported as not healthy right after it.
pub proof fn failed_nodes_are_told(
    store: &mut HeartbeatStore,
    config: HeartbeatConfig,
    readings: &[i128],
    now: i128,
    failed: Vec<(u32, String)>,
    statuses: Vec<NodeHealthStatus>,
)
    requires
        call_ensures(check_heartbeats, (store, &config, readings, now), failed),
        call_ensures(get_all_health_status, (&*final(store),), statuses),
    ensures
        forall|id: u32|
            (exists|k: int|
                0 <= k < statuses@.len() && (#[trigger] statuses@[k]).is_healthy
                    && statuses@[k].node_id == id) <==> #[trigger] final(store)@.dom().contains(id)
                && final(store)@[id].is_healthy,
        forall|i: int|
            0 <= i < failed@.len() ==> told_unhealthy(statuses@, #[trigger] failed@[i]),
{
    check_judges_every_node(store, config, readings, now, failed);
    health_is_told(*final(store), statuses);
    assert forall|i: int| 0 <= i < failed@.len() implies told_unhealthy(
        statuses@,
        #[trigger] failed@[i],
    ) by {
        let (id, endpoint) = failed@[i];
        assert(failed@.contains((id, endpoint)));
        assert(final(store)@.dom().contains(id));
        let k = choose|k: int|
            0 <= k < statuses@.len() && (#[trigger] statuses@[k]).node_id == id;
        let ids = old(store).ids();
        assert(ids.contains(id));
        let j = choose|j: int| 0 <= j < ids.len() && ids[j] == id;
        assert(is_checked(
            old(store)@[ids[j]],
            final(store)@[ids[j]],
            config,
            readings@[j],
            now,
        ));
        assert(statuses@[k].node_id == failed@[i].0);
    }
}

/// A quorum is there exactly when enough nodes are healthy.
pub proof fn quorum_counts_healthy_nodes(store: HeartbeatStore, min_healthy: usize, r: bool)
    requires
        call_ensures(check_committee_quorum, (&store, min_healthy), r),
    ensures
        r <==> store@.dom().filter(|id: u32| store@[id].is_healthy).len() >= min_healthy,
{
    assert(healthy_nodes(store@) =~= store@.dom().filter(|id: u32| store@[id].is_healthy));
}

/// As many nodes are reported as healthy as a quorum counts: it is there up to
/// their number and no further.
pub proof fn quorum_agrees_with_the_report(
    store: HeartbeatStore,
    statuses: Vec<NodeHealthStatus>,
    min_healthy: usize,
    r: bool,
)
    requires
        call_ensures(get_all_health_status, (&store,), statuses),
        call_ensures(check_committee_quorum, (&store, min_healthy), r),
    ensures
        r <==> statuses@.filter(|status: NodeHealthStatus| status.is_healthy).len() >= min_healthy,
{
    let ids = store.ids();
    let well = |id: u32| store@[id].is_healthy;
    let told = |status: NodeHealthStatus| status.is_healthy;
    quorum_counts_healthy_nodes(store, min_healthy, r);
    crate::sequences::filtered_count(ids, well);
    assert(ids.to_set() =~= store@.dom());
    health_is_told(store, statuses);
    same_count(ids, well, statuses@, told);
}

/// Two sequences of which the same positions pass their tests have as many items
/// that pass.
proof fn same_count<A, B>(
    s: Seq<A>,
    p: spec_fn(A) -> bool,
    t: Seq<B>,
    q: spec_fn(B) -> bool,
)
    requires
        s.len() == t.len(),
        forall|k: int| 0 <= k < s.len() ==> p(#[trigger] s[k]) == q(t[k]),
    ensures
        s.filter(p).len() == t.filter(q).len(),
    decreases s.len(),
{
    reveal(Seq::filter);
    if s.len() > 0 {
        assert forall|k: int| 0 <= k < s.drop_last().len() implies p(
            #[trigger] s.drop_last()[k],
        ) == q(t.drop_last()[k]) by {
            assert(p(s[k]) == q(t[k]));
        }
        same_count(s.drop_last(), p, t.drop_last(), q);
        assert(p(s[s.len() - 1]) == q(t[s.len() - 1]));
    }
}

/// A failed node is stood in for by the healthy nodes but itself, each once.
pub proof fn healthy_nodes_stand_in(store: HeartbeatStore, failed_id: u32, ids: Vec<u32>)
    requires
        call_ensures(failover_nodes, (&store, failed_id), ids),
    ensures
        ids@.no_duplicates(),
        forall|id: u32| #[trigger]
            ids@.contains(id) <==> store@.dom().contains(id) && store@[id].is_healthy && id
                != failed_id,
{
    assert forall|id: u32| #[trigger] ids@.contains(id) <==> store@.dom().contains(id)
        && store@[id].is_healthy && id != failed_id by {
        assert(ids@.contains(id) <==> ids@.to_set().contains(id));
        assert(takeover_nodes(store@, failed_id).contains(id) <==> store@.dom().contains(id)
            && store@[id].is_healthy && id != failed_id);
    }
}

/// A failover takes place exactly when at least two nodes can stand in. Else its
/// refusal says how many there are.
pub proof fn failover_needs_two(
    store: HeartbeatStore,
    failed_id: u32,
    ids: Vec<u32>,
    r: Result<(), String>,
)
    requires
        call_ensures(failover_nodes, (&store, failed_id), ids),
        call_ensures(trigger_failover, (&store, failed_id), r),
    ensures
        r is Ok <==> ids@.len() >= 2,
        r is Err ==> exists|number: Seq<char>| #[trigger]
            writes(number, ids@.len() as int) && r->Err_0@
                == "Cannot failover: insufficient healthy nodes (need 2, have "@ + number + ")"@,
{
    decimal_writes(ids@.len());
}

} // verus!
