//! Graceful degradation when MPC nodes are slow.
//!
//! Every coordinator to node round trip is timed. When a node's response takes
//! longer than expected the node counts as slow and its reliability score is
//! reduced.
//!
//! The score is an intentionally simple bounded indicator in `[0, 100]`
//! (100 = fully reliable): each slow response subtracts a penalty, each timely
//! response recovers a smaller amount, so a node has to be persistently slow,
//! not just have one bad round trip, to end up flagged as an offender.
use crate::string_map::StringMap;
use crate::text::{setting_value, setting_view, u64_setting};
use vstd::prelude::*;

verus! {

/// Expected response time in milliseconds, unless a setting says otherwise.
pub const DEFAULT_EXPECTED_RESPONSE_MS: u64 = 2_000;

/// Score of a fully reliable node.
pub const SCORE_MAX: u32 = 100;

/// Lowest score.
pub const SCORE_MIN: u32 = 0;

/// What a slow response costs.
pub const SCORE_PENALTY: u32 = 10;

/// What a timely response recovers.
pub const SCORE_RECOVERY: u32 = 2;

/// Score of a node before its first response.
pub const INITIAL_SCORE: u32 = 100;

/// Below this score a node is a persistent offender.
pub const OFFENDER_THRESHOLD: u32 = 30;

/// What is remembered of one node.
#[derive(Clone, Copy, Debug, PartialEq, Eq)]
pub struct Entry {
    pub score: u32,
    pub slow_responses: u64,
    pub total_responses: u64,
}

/// What is remembered of every node that has been observed, by endpoint.
#[derive(Debug)]
pub struct ReliabilityStore {
    nodes: StringMap<Entry>,
}

impl View for ReliabilityStore {
    type V = Map<Seq<char>, Entry>;

    closed spec fn view(&self) -> Map<Seq<char>, Entry> {
        self.nodes@
    }
}

/// A node that has not responded yet.
pub open spec fn unobserved() -> Entry {
    Entry { score: INITIAL_SCORE, slow_responses: 0, total_responses: 0 }
}

/// What is remembered of a node, whether it has been observed or not.
pub open spec fn entry_of(nodes: Map<Seq<char>, Entry>, endpoint: Seq<char>) -> Entry {
    if nodes.dom().contains(endpoint) {
        nodes[endpoint]
    } else {
        unobserved()
    }
}

/// The score after a response.
pub open spec fn next_score(score: int, slow: bool) -> int {
    if slow {
        if score - SCORE_PENALTY < SCORE_MIN {
            SCORE_MIN as int
        } else {
            score - SCORE_PENALTY
        }
    } else {
        if score + SCORE_RECOVERY > SCORE_MAX {
            SCORE_MAX as int
        } else {
            score + SCORE_RECOVERY
        }
    }
}

/// What is remembered of a node after a response.
pub open spec fn after_response(entry: Entry, slow: bool) -> Entry {
    Entry {
        score: next_score(entry.score as int, slow) as u32,
        slow_responses: if slow {
            (entry.slow_responses + 1) as u64
        } else {
            entry.slow_responses
        },
        total_responses: (entry.total_responses + 1) as u64,
    }
}

/// True when one more response can be counted.
pub open spec fn can_count(entry: Entry, slow: bool) -> bool {
    entry.total_responses < u64::MAX && (slow ==> entry.slow_responses < u64::MAX)
}

/// Expected coordinator to MPC node response time in milliseconds. Round trips
/// slower than this are treated as slow. A setting that cannot be read counts
/// as absent.
pub fn expected_response_time(setting: Option<String>) -> (ms: u64)
    ensures
        ms == setting_value(
            setting_view(setting),
            u64::MAX as int,
            DEFAULT_EXPECTED_RESPONSE_MS as int,
        ),
{
    u64_setting(setting, DEFAULT_EXPECTED_RESPONSE_MS)
}

impl Entry {
    /// True when the node is a persistent slow-response offender.
    pub fn is_offender(&self) -> (r: bool)
        ensures
            r == (self.score < OFFENDER_THRESHOLD),
    {
        self.score < OFFENDER_THRESHOLD
    }
}

impl ReliabilityStore {
    /// A store in which no node has been observed.
    pub fn new() -> (store: Self)
        ensures
            store@ == Map::<Seq<char>, Entry>::empty(),
    {
        ReliabilityStore { nodes: StringMap::new() }
    }

    /// What is remembered of a node; an unobserved node starts fully reliable.
    pub fn entry(&self, endpoint: &str) -> (entry: Entry)
        ensures
            entry == entry_of(self@, endpoint@),
    {
        let name: String = endpoint.to_owned();
        match self.nodes.get(&name) {
            Some(entry) => *entry,
            None => Entry { score: INITIAL_SCORE, slow_responses: 0, total_responses: 0 },
        }
    }
}

/// Record a single node round-trip latency, updating its reliability score.
/// Returns `true` if this response was slower than expected. Both times are in
/// nanoseconds.
pub fn record(store: &mut ReliabilityStore, endpoint: &str, latency: u128, expected: u128) -> (slow:
    bool)
    requires
        can_count(entry_of(old(store)@, endpoint@), latency > expected),
    ensures
        slow == (latency > expected),
        final(store)@ == old(store)@.insert(
            endpoint@,
            after_response(entry_of(old(store)@, endpoint@), slow),
        ),
{
    let is_slow: bool = latency > expected;
    let mut entry: Entry = store.entry(endpoint);
    entry.total_responses = entry.total_responses + 1;
    if is_slow {
        entry.slow_responses = entry.slow_responses + 1;
        entry.score = if entry.score < SCORE_MIN + SCORE_PENALTY {
            SCORE_MIN
        } else {
            entry.score - SCORE_PENALTY
        };
    } else {
        entry.score = if entry.score > SCORE_MAX - SCORE_RECOVERY {
            SCORE_MAX
        } else {
            entry.score + SCORE_RECOVERY
        };
    }
    store.nodes.insert(endpoint.to_owned(), entry);
    is_slow
}

/// Current reliability score for a node, or the default (fully reliable) score
/// if it has never been observed.
pub fn score(store: &ReliabilityStore, endpoint: &str) -> (score: u32)
    ensures
        score == entry_of(store@, endpoint@).score,
{
    store.entry(endpoint).score
}

// ---------------------------------------------------------------------------
// What the score promises
// ---------------------------------------------------------------------------

/// True when every score lies between the lowest and the highest, and no node
/// has more slow responses than responses.
pub open spec fn scores_bounded(nodes: Map<Seq<char>, Entry>) -> bool {
    forall|endpoint: Seq<char>| #[trigger]
        nodes.dom().contains(endpoint) ==> {
            &&& SCORE_MIN <= nodes[endpoint].score <= SCORE_MAX
            &&& nodes[endpoint].slow_responses <= nodes[endpoint].total_responses
        }
}

/// Every response keeps all scores in bounds and changes no other node's entry.
pub proof fn responses_keep_scores_bounded(
    nodes: Map<Seq<char>, Entry>,
    endpoint: Seq<char>,
    slow: bool,
    other: Seq<char>,
)
    requires
        scores_bounded(nodes),
        can_count(entry_of(nodes, endpoint), slow),
    ensures
        scores_bounded(nodes.insert(endpoint, after_response(entry_of(nodes, endpoint), slow))),
        other != endpoint ==> entry_of(
            nodes.insert(endpoint, after_response(entry_of(nodes, endpoint), slow)),
            other,
        ) == entry_of(nodes, other),
{
}

/// The score after `n` responses that are all slow, or all timely.
pub open spec fn score_after(score: int, slow: bool, n: nat) -> int
    decreases n,
{
    if n == 0 {
        score
    } else {
        next_score(score_after(score, slow, (n - 1) as nat), slow)
    }
}

/// Slow responses in a row lower the score by the penalty each, down to the
/// lowest.
pub proof fn slow_run_lowers_score(score: int, n: nat)
    requires
        SCORE_MIN <= score <= SCORE_MAX,
    ensures
        score_after(score, true, n) == if score - n * SCORE_PENALTY < SCORE_MIN {
            SCORE_MIN as int
        } else {
            score - n * SCORE_PENALTY
        },
    decreases n,
{
    if n > 0 {
        slow_run_lowers_score(score, (n - 1) as nat);
    }
}

/// Timely responses in a row raise the score by the recovery each, up to the
/// highest.
pub proof fn timely_run_raises_score(score: int, n: nat)
    requires
        SCORE_MIN <= score <= SCORE_MAX,
    ensures
        score_after(score, false, n) == if score + n * SCORE_RECOVERY > SCORE_MAX {
            SCORE_MAX as int
        } else {
            score + n * SCORE_RECOVERY
        },
    decreases n,
{
    if n > 0 {
        timely_run_raises_score(score, (n - 1) as nat);
    }
}

/// The score after responses of which some are slow, in their order.
pub open spec fn score_after_responses(score: int, slow: Seq<bool>) -> int
    decreases slow.len(),
{
    if slow.len() == 0 {
        score
    } else {
        next_score(score_after_responses(score, slow.drop_last()), slow.last())
    }
}

/// How many responses are slow.
pub open spec fn slow_count(slow: Seq<bool>) -> nat
    decreases slow.len(),
{
    if slow.len() == 0 {
        0
    } else {
        slow_count(slow.drop_last()) + if slow.last() {
            1nat
        } else {
            0nat
        }
    }
}

/// Whatever responses a node gives, its score stays in bounds and falls by at
/// most the penalty for each slow one.
pub proof fn slow_responses_bound_the_loss(score: int, slow: Seq<bool>)
    requires
        SCORE_MIN <= score <= SCORE_MAX,
    ensures
        SCORE_MIN <= score_after_responses(score, slow) <= SCORE_MAX,
        score_after_responses(score, slow) >= score - slow_count(slow) * SCORE_PENALTY,
    decreases slow.len(),
{
    if slow.len() > 0 {
        slow_responses_bound_the_loss(score, slow.drop_last());
    }
}

/// A node that starts fully reliable is flagged only by persistent slowness:
/// whatever else it answers, it has given at least eight slow responses, and
/// eight in a row do flag it.
pub proof fn only_persistent_slowness_is_flagged(slow: Seq<bool>)
    ensures
        score_after_responses(INITIAL_SCORE as int, slow) < OFFENDER_THRESHOLD ==> slow_count(slow)
            >= 8,
        slow.len() >= 8 && slow_count(slow) == slow.len() ==> score_after_responses(
            INITIAL_SCORE as int,
            slow,
        ) < OFFENDER_THRESHOLD,
{
    slow_responses_bound_the_loss(INITIAL_SCORE as int, slow);
    if slow_count(slow) == slow.len() {
        all_slow_is_a_slow_run(INITIAL_SCORE as int, slow);
        slow_run_lowers_score(INITIAL_SCORE as int, slow.len());
    }
}

/// Responses that are all slow make a run of slow responses.
proof fn all_slow_is_a_slow_run(score: int, slow: Seq<bool>)
    requires
        slow_count(slow) == slow.len(),
    ensures
        score_after_responses(score, slow) == score_after(score, true, slow.len()),
    decreases slow.len(),
{
    if slow.len() > 0 {
        slow_count_is_bounded(slow.drop_last());
        all_slow_is_a_slow_run(score, slow.drop_last());
    }
}

/// No more responses are slow than there are.
proof fn slow_count_is_bounded(slow: Seq<bool>)
    ensures
        slow_count(slow) <= slow.len(),
    decreases slow.len(),
{
    if slow.len() > 0 {
        slow_count_is_bounded(slow.drop_last());
    }
}

/// A timely response recovers less than a slow one costs: it takes five to make
/// up for one.
pub proof fn five_timely_responses_undo_a_slow_one(score: int)
    requires
        SCORE_PENALTY <= score <= SCORE_MAX,
    ensures
        score_after(next_score(score, true), false, 5) == score,
        score_after(next_score(score, true), false, 4) < score,
{
    timely_run_raises_score(next_score(score, true), 5);
    timely_run_raises_score(next_score(score, true), 4);
}

} // verus!
