//! Reliability of the nodes.
use crate::guarantees::basics::{gives, setting_gives};
use crate::node_reliability::{
    after_response, expected_response_time, record, score, score_after_responses, Entry,
    ReliabilityStore,
};
use vstd::prelude::*;

verus! {

/// The expected response time is the setting in milliseconds, else two seconds.
pub proof fn expected_time_is_set(setting: Option<String>, ms: u64)
    requires
        call_ensures(expected_response_time, (setting,), ms),
    ensures
        gives(setting, u64::MAX as int, 2_000, ms as int),
{
    setting_gives(setting, u64::MAX as int, 2_000);
}

/// A node that no store has heard of is fully reliable, and has no responses.
pub proof fn unheard_node_is_reliable(
    store: ReliabilityStore,
    endpoint: &str,
    entry: Entry,
    points: u32,
)
    requires
        call_ensures(ReliabilityStore::new, (), store),
        call_ensures(ReliabilityStore::entry, (&store, endpoint), entry),
        call_ensures(score, (&store, endpoint), points),
    ensures
        points == 100,
        entry.score == 100,
        entry.slow_responses == 0,
        entry.total_responses == 0,
{
}

/// The score told is that of the entry, and an entry below 30 is an offender's.
pub proof fn score_is_of_the_entry(
    store: ReliabilityStore,
    endpoint: &str,
    entry: Entry,
    points: u32,
    offender: bool,
)
    requires
        call_ensures(ReliabilityStore::entry, (&store, endpoint), entry),
        call_ensures(score, (&store, endpoint), points),
        call_ensures(Entry::is_offender, (&entry,), offender),
    ensures
        points == entry.score,
        offender <==> points < 30,
{
}

/// A response is slow exactly when it took longer than expected. A timely one
/// raises the score told by 2, up to 100, wherever it stood; a slow one lowers it
/// by 10, down to 0. Of every other node the same is told before and after.
pub proof fn response_moves_the_score(
    store: &mut ReliabilityStore,
    endpoint: &str,
    latency: u128,
    expected: u128,
    slow: bool,
    before: u32,
    after: u32,
    other: &str,
    other_before: u32,
    other_after: u32,
)
    requires
        call_ensures(record, (store, endpoint, latency, expected), slow),
        call_ensures(score, (&*old(store), endpoint), before),
        call_ensures(score, (&*final(store), endpoint), after),
        call_ensures(score, (&*old(store), other), other_before),
        call_ensures(score, (&*final(store), other), other_after),
    ensures
        slow <==> latency > expected,
        !slow && before <= 98 ==> after == before + 2,
        !slow && before > 98 ==> after == 100,
        slow && before >= 10 ==> after == before - 10,
        slow && before < 10 ==> after == 0,
        other@ != endpoint@ ==> other_after == other_before,
{
}

/// A response adds one to the count of responses, and a slow one to the count of
/// slow ones. Of every other node the same is remembered before and after.
pub proof fn response_is_counted(
    store: &mut ReliabilityStore,
    endpoint: &str,
    latency: u128,
    expected: u128,
    slow: bool,
    before: Entry,
    after: Entry,
    other: &str,
    other_before: Entry,
    other_after: Entry,
)
    requires
        call_ensures(record, (store, endpoint, latency, expected), slow),
        call_ensures(ReliabilityStore::entry, (&*old(store), endpoint), before),
        call_ensures(ReliabilityStore::entry, (&*final(store), endpoint), after),
        call_ensures(ReliabilityStore::entry, (&*old(store), other), other_before),
        call_ensures(ReliabilityStore::entry, (&*final(store), other), other_after),
    ensures
        before.total_responses < u64::MAX ==> after.total_responses == before.total_responses + 1,
        slow && before.slow_responses < u64::MAX ==> after.slow_responses == before.slow_responses
            + 1,
        !slow ==> after.slow_responses == before.slow_responses,
        other@ != endpoint@ ==> other_after == other_before,
{
}

/// The score that a run of responses leads to, each slow or not.
pub open spec fn score_reached(points: int, slow: Seq<bool>) -> int
    decreases slow.len(),
{
    if slow.len() == 0 {
        points
    } else {
        let reached = score_reached(points, slow.drop_last());
        if slow.last() {
            if reached >= 10 {
                reached - 10
            } else {
                0
            }
        } else if reached <= 98 {
            reached + 2
        } else {
            100
        }
    }
}

/// How many of the responses are slow.
pub open spec fn slow_ones(slow: Seq<bool>) -> int
    decreases slow.len(),
{
    if slow.len() == 0 {
        0
    } else {
        slow_ones(slow.drop_last()) + if slow.last() {
            1int
        } else {
            0int
        }
    }
}

/// A run of entries, each left by one more response, ends with the score that the
/// responses lead to and with all of them counted.
pub proof fn responses_add_up(entries: Seq<Entry>, slow: Seq<bool>)
    requires
        entries.len() == slow.len() + 1,
        forall|k: int|
            0 <= k < slow.len() ==> entries[k + 1] == after_response(
                entries[k],
                #[trigger] slow[k],
            ),
        entries[0].total_responses + slow.len() <= u64::MAX,
        entries[0].slow_responses + slow.len() <= u64::MAX,
    ensures
        entries.last().score == score_reached(entries[0].score as int, slow),
        entries.last().score == score_after_responses(entries[0].score as int, slow),
        entries.last().total_responses == entries[0].total_responses + slow.len(),
        entries.last().slow_responses == entries[0].slow_responses + slow_ones(slow),
        0 <= slow_ones(slow) <= slow.len(),
    decreases slow.len(),
{
    if slow.len() > 0 {
        let n = slow.len() - 1;
        let earlier = slow.drop_last();
        assert forall|k: int| 0 <= k < earlier.len() implies entries.drop_last()[k + 1]
            == after_response(entries.drop_last()[k], #[trigger] earlier[k]) by {
            assert(slow[k] == earlier[k]);
        }
        responses_add_up(entries.drop_last(), earlier);
        assert(entries[n + 1] == after_response(entries[n], slow[n]));
    }
}

/// A node recovers from any score: each timely response brings it nearer to 100,
/// and 50 of them in a row reach it.
pub proof fn timely_node_recovers(points: int, slow: Seq<bool>)
    requires
        0 <= points <= 100,
        forall|k: int| 0 <= k < slow.len() ==> !#[trigger] slow[k],
    ensures
        score_after_responses(points, slow) == if points + 2 * slow.len() < 100 {
            points + 2 * slow.len()
        } else {
            100
        },
        slow.len() >= 50 ==> score_after_responses(points, slow) == 100,
    decreases slow.len(),
{
    if slow.len() > 0 {
        let earlier = slow.drop_last();
        assert forall|k: int| 0 <= k < earlier.len() implies !#[trigger] earlier[k] by {
            assert(!slow[k]);
        }
        timely_node_recovers(points, earlier);
        assert(!slow[slow.len() - 1]);
    }
}

} // verus!
