//! Coordinator-side caching of verified proofs.
//!
//! The coordinator does not verify proofs locally: verification happens on
//! chain when a proof is submitted. That on-chain verification is the expensive
//! step this cache protects: if byte-identical proof data is submitted again,
//! the redundant invocation is skipped and the previously observed transaction
//! hash is replayed.
//!
//! The cache is content-addressable: the key is a SHA-256 hash of the proof
//! bytes plus its public inputs, so it is independent of which table or session
//! produced the proof. Entries expire after a TTL proportional to the ledger
//! close time.
//!
//! Times are nanoseconds on one monotonic clock.
use crate::clock::NANOS_PER_SEC;
use crate::hashing::{hex_text_is_injective, sha256_digest, sha256_hex, sha256_hex_text};
use crate::sequences::{
    filter_next, filter_none, filters_agree, position_is_unique, with_item,
};
use crate::string_map::{keys_exact, StringMap};
use crate::text::{setting_value, setting_view, u64_setting};
use vstd::prelude::*;
use vstd::utf8::encode_utf8;

verus! {

/// Seconds between two ledgers, unless a setting says otherwise.
pub const DEFAULT_LEDGER_CLOSE_SECS: u64 = 5;

/// Ledgers that a result stays cached for, unless a setting says otherwise.
pub const DEFAULT_TTL_LEDGERS: u64 = 12;

/// The result of a verified proof, with the time it was observed at and how
/// long it stays valid.
#[derive(Debug)]
pub struct CachedProof {
    pub tx_hash: String,
    pub inserted_at: u128,
    pub ttl: u128,
}

/// The results of verified proofs, by proof key.
#[derive(Debug)]
pub struct ProofCache {
    entries: StringMap<CachedProof>,
}

impl View for ProofCache {
    type V = Map<Seq<char>, CachedProof>;

    closed spec fn view(&self) -> Map<Seq<char>, CachedProof> {
        self.entries@
    }
}

// ---------------------------------------------------------------------------
// Keys
// ---------------------------------------------------------------------------

/// The texts of a list of public inputs.
pub open spec fn input_texts(inputs: Seq<String>) -> Seq<Seq<char>> {
    inputs.map_values(|input: String| input@)
}

/// The bytes that public inputs contribute to a key: each input followed by a
/// bar.
pub open spec fn input_bytes(inputs: Seq<Seq<char>>) -> Seq<u8>
    decreases inputs.len(),
{
    if inputs.len() == 0 {
        Seq::empty()
    } else {
        input_bytes(inputs.drop_last()) + encode_utf8(inputs.last()) + seq![124u8]
    }
}

/// The bytes that a key is the hash of: the proof, then its public inputs.
pub open spec fn key_message(proof_bytes: Seq<u8>, inputs: Seq<Seq<char>>) -> Seq<u8> {
    proof_bytes + input_bytes(inputs)
}

/// Content-address a proof by its bytes and public inputs.
pub fn proof_key(proof_bytes: &[u8], public_inputs: &[String]) -> (key: String)
    ensures
        key@ == sha256_hex(key_message(proof_bytes@, input_texts(public_inputs@))),
        key@.len() == 64,
{
    let mut message: Vec<u8> = Vec::new();
    message.extend_from_slice(proof_bytes);
    assert(message@ =~= proof_bytes@);
    let ghost texts = input_texts(public_inputs@);
    let mut i: usize = 0;
    assert(message@ =~= key_message(proof_bytes@, texts.take(0)));
    while i < public_inputs.len()
        invariant
            i <= public_inputs.len(),
            texts == input_texts(public_inputs@),
            message@ == key_message(proof_bytes@, texts.take(i as int)),
        decreases public_inputs.len() - i,
    {
        let ghost before = message@;
        message.extend_from_slice(public_inputs[i].as_str().as_bytes());
        message.push(124u8);
        proof {
            let next = texts.take(i + 1);
            assert(next.drop_last() =~= texts.take(i as int));
            assert(next.last() == public_inputs@[i as int]@);
            assert(message@ =~= before + encode_utf8(next.last()) + seq![124u8]);
            assert(message@ =~= key_message(proof_bytes@, next));
        }
        i = i + 1;
    }
    assert(texts.take(texts.len() as int) =~= texts);
    sha256_hex_text(message.as_slice())
}

// ---------------------------------------------------------------------------
// Time to live
// ---------------------------------------------------------------------------

/// The seconds that `ledgers` ledgers take, at most what a `u64` holds and at
/// least one.
pub open spec fn ttl_seconds(ledger_close_secs: int, ledgers: int) -> int {
    let product = ledger_close_secs * ledgers;
    if product > u64::MAX {
        u64::MAX as int
    } else if product < 1 {
        1
    } else {
        product
    }
}

/// TTL proportional to the ledger close time, in seconds: cache a verified
/// proof's result for a number of ledger-close intervals. Both numbers can be
/// set; a setting that cannot be read counts as absent.
pub fn ttl(ledger_close_setting: Option<String>, ttl_ledgers_setting: Option<String>) -> (secs: u64)
    ensures
        secs == ttl_seconds(
            setting_value(
                setting_view(ledger_close_setting),
                u64::MAX as int,
                DEFAULT_LEDGER_CLOSE_SECS as int,
            ),
            setting_value(
                setting_view(ttl_ledgers_setting),
                u64::MAX as int,
                DEFAULT_TTL_LEDGERS as int,
            ),
        ),
        secs >= 1,
{
    let ledger_close_secs: u64 = u64_setting(ledger_close_setting, DEFAULT_LEDGER_CLOSE_SECS);
    let ttl_ledgers: u64 = u64_setting(ttl_ledgers_setting, DEFAULT_TTL_LEDGERS);
    assert(ledger_close_secs as int * ttl_ledgers as int <= u128::MAX) by (nonlinear_arith)
        requires
            ledger_close_secs <= u64::MAX,
            ttl_ledgers <= u64::MAX,
    ;
    assert(ledger_close_secs as int * ttl_ledgers as int >= 0) by (nonlinear_arith);
    let product: u128 = ledger_close_secs as u128 * ttl_ledgers as u128;
    if product > u64::MAX as u128 {
        u64::MAX
    } else if product < 1 {
        1
    } else {
        product as u64
    }
}

// ---------------------------------------------------------------------------
// Lookup and insertion
// ---------------------------------------------------------------------------

/// How long ago an entry was inserted; 0 for a time before its insertion.
pub open spec fn age(entry: CachedProof, now: u128) -> int {
    if now >= entry.inserted_at {
        now - entry.inserted_at
    } else {
        0
    }
}

/// True while an entry is younger than its time to live.
pub open spec fn is_fresh(entry: CachedProof, now: u128) -> bool {
    age(entry, now) < entry.ttl
}

/// What the cache answers for a key: the transaction hash of a fresh entry.
pub open spec fn cached(
    entries: Map<Seq<char>, CachedProof>,
    key: Seq<char>,
    now: u128,
) -> Option<Seq<char>> {
    if entries.dom().contains(key) && is_fresh(entries[key], now) {
        Some(entries[key].tx_hash@)
    } else {
        None
    }
}

/// The entries that are fresh, each at the clock reading of its own: `readings`
/// holds these, in the order of `keys`.
pub open spec fn fresh_entries(
    entries: Map<Seq<char>, CachedProof>,
    keys: Seq<Seq<char>>,
    readings: Seq<u128>,
) -> Map<Seq<char>, CachedProof> {
    Map::new(
        |key: Seq<char>|
            entries.dom().contains(key) && is_fresh(entries[key], readings[keys.index_of(key)]),
        |key: Seq<char>| entries[key],
    )
}

/// A new entry of the cache.
pub open spec fn new_entry(tx_hash: String, now: u128, ttl_secs: u64) -> CachedProof {
    CachedProof { tx_hash, inserted_at: now, ttl: (ttl_secs * NANOS_PER_SEC) as u128 }
}

/// Tests an entry against its time to live.
fn entry_is_fresh(entry: &CachedProof, now: u128) -> (r: bool)
    ensures
        r == is_fresh(*entry, now),
{
    let elapsed: u128 = if now >= entry.inserted_at {
        now - entry.inserted_at
    } else {
        0
    };
    elapsed < entry.ttl
}

impl ProofCache {
    /// The keys, in the order in which they were first inserted.
    pub closed spec fn keys(&self) -> Seq<Seq<char>> {
        self.entries.keys()
    }

    /// An empty cache.
    pub fn new() -> (cache: Self)
        ensures
            cache@ == Map::<Seq<char>, CachedProof>::empty(),
            cache.keys() == Seq::<Seq<char>>::empty(),
    {
        ProofCache { entries: StringMap::new() }
    }

    /// The number of entries, expired ones included.
    pub fn len(&self) -> (n: usize)
        ensures
            n == self.keys().len(),
            keys_exact(self@, self.keys()),
    {
        self.entries.len()
    }
}

/// Look up a cached on-chain result for this exact proof, if still fresh.
pub fn get(cache: &ProofCache, key: &str, now: u128) -> (tx_hash: Option<String>)
    ensures
        setting_view(tx_hash) == cached(cache@, key@, now),
{
    let name: String = key.to_owned();
    match cache.entries.get(&name) {
        Some(entry) => if entry_is_fresh(entry, now) {
            Some(entry.tx_hash.clone())
        } else {
            None
        },
        None => None,
    }
}

/// Record a verified proof's on-chain submission result, content-addressed by
/// `key` (see [`proof_key`]). Also evicts expired entries so that the cache does
/// not grow without bound.
///
/// The result is observed at `inserted_at`. Each entry, the new one included, is
/// then tested against a clock reading of its own; `readings` holds these, in the
/// order of the keys.
pub fn insert(
    cache: &mut ProofCache,
    key: String,
    tx_hash: String,
    inserted_at: u128,
    ttl_secs: u64,
    readings: &[u128],
)
    requires
        readings@.len() >= with_item(old(cache).keys(), key@).len(),
    ensures
        final(cache)@ == fresh_entries(
            old(cache)@.insert(key@, new_entry(tx_hash, inserted_at, ttl_secs)),
            with_item(old(cache).keys(), key@),
            readings@,
        ),
        keys_exact(
            old(cache)@.insert(key@, new_entry(tx_hash, inserted_at, ttl_secs)),
            with_item(old(cache).keys(), key@),
        ),
        final(cache).keys() == with_item(old(cache).keys(), key@).filter(
            |k: Seq<char>| final(cache)@.dom().contains(k),
        ),
{
    let ttl: u128 = ttl_secs as u128 * NANOS_PER_SEC as u128;
    cache.entries.insert(key, CachedProof { tx_hash, inserted_at, ttl });
    let ghost all = cache.entries@;
    let ghost keys = cache.entries.keys();
    assert(keys =~= with_item(old(cache).keys(), key@)) by {
        assert(old(cache)@.dom().contains(key@) <==> old(cache).keys().contains(key@));
    }
    let ghost lasts = |k: Seq<char>| is_fresh(all[k], readings@[keys.index_of(k)]);
    let total: usize = cache.entries.len();
    let mut kept: usize = 0;
    let mut n: usize = 0;
    proof {
        filter_none(keys, lasts);
    }
    while n < total
        invariant
            kept <= n <= total,
            lasts == (|k: Seq<char>| is_fresh(all[k], readings@[keys.index_of(k)])),
            cache.entries.keys().take(kept as int) == keys.take(n as int).filter(lasts),
            total == keys.len(),
            readings@.len() >= keys.len(),
            all == old(cache)@.insert(key@, new_entry(tx_hash, inserted_at, ttl_secs)),
            keys_exact(all, keys),
            keys_exact(cache.entries@, cache.entries.keys()),
            cache.entries.keys().len() - kept == total - n,
            forall|j: int|
                0 <= j < total - n ==> #[trigger] cache.entries.keys()[kept + j] == keys[n + j],
            forall|k: Seq<char>| #[trigger]
                cache.entries@.dom().contains(k) ==> all.dom().contains(k) && cache.entries@[k]
                    == all[k],
            forall|j: int|
                n <= j < total ==> cache.entries@.dom().contains(#[trigger] keys[j]),
            forall|j: int|
                0 <= j < n ==> (cache.entries@.dom().contains(#[trigger] keys[j]) <==> is_fresh(
                    all[keys[j]],
                    readings@[j],
                )),
        decreases total - n,
    {
        let ghost current = cache.entries.keys();
        let ghost entries = cache.entries@;
        assert(current[kept + 0] == keys[n + 0]);
        assert(entries.dom().contains(keys[n as int]));
        assert(entries[keys[n as int]] == all[keys[n as int]]);
        proof {
            position_is_unique(keys, n as int);
            filter_next(keys, n as int, lasts);
        }
        if entry_is_fresh(cache.entries.value_at(kept), readings[n]) {
            kept = kept + 1;
            assert(current.take(kept as int) =~= current.take(kept - 1).push(keys[n as int]));
            assert forall|j: int| 0 <= j < total - n - 1 implies #[trigger] current[kept + j]
                == keys[n + 1 + j] by {
                assert(current[(kept - 1) + (j + 1)] == keys[n + (j + 1)]);
            }
        } else {
            cache.entries.remove_at(kept);
            assert(cache.entries.keys().take(kept as int) =~= current.take(kept as int));
            assert forall|j: int| 0 <= j < total - n - 1 implies #[trigger]
                cache.entries.keys()[kept + j] == keys[n + 1 + j] by {
                assert(current[kept + (j + 1)] == keys[n + (j + 1)]);
            }
            assert(cache.entries@ == entries.remove(keys[n as int]));
            assert forall|j: int| 0 <= j < n implies (cache.entries@.dom().contains(
                #[trigger] keys[j],
            ) <==> is_fresh(all[keys[j]], readings@[j])) by {
                assert(keys[j] != keys[n as int]);
            }
        }
        n = n + 1;
    }
    assert forall|k: Seq<char>| cache.entries@.dom().contains(k) <==> fresh_entries(
        all,
        keys,
        readings@,
    ).dom().contains(k) by {
        if all.dom().contains(k) {
            assert(keys.contains(k));
            let j = choose|j: int| 0 <= j < keys.len() && keys[j] == k;
            position_is_unique(keys, j);
            assert(cache.entries@.dom().contains(keys[j]) <==> is_fresh(
                all[keys[j]],
                readings@[j],
            ));
        }
    }
    assert(cache.entries@ =~= fresh_entries(all, keys, readings@));
    proof {
        let stays = |k: Seq<char>| cache@.dom().contains(k);
        assert(cache.keys().take(kept as int) =~= cache.keys());
        assert(keys.take(total as int) =~= keys);
        assert forall|j: int| 0 <= j < keys.len() implies lasts(#[trigger] keys[j]) == stays(
            keys[j],
        ) by {
            assert(keys.contains(keys[j]));
            assert(all.dom().contains(keys[j]));
        }
        filters_agree(keys, lasts, stays);
    }
}

// ---------------------------------------------------------------------------
// What the cache promises
// ---------------------------------------------------------------------------

/// True when `readings` of a clock, one for each key, were taken no later than
/// `now`.
pub open spec fn read_before(keys: Seq<Seq<char>>, readings: Seq<u128>, now: u128) -> bool {
    &&& readings.len() >= keys.len()
    &&& forall|i: int| 0 <= i < keys.len() ==> #[trigger] readings[i] <= now
}

/// True when `readings` of a clock, one for each key, were taken no earlier than
/// `since`.
pub open spec fn read_after(keys: Seq<Seq<char>>, readings: Seq<u128>, since: u128) -> bool {
    &&& readings.len() >= keys.len()
    &&& forall|i: int| 0 <= i < keys.len() ==> since <= #[trigger] readings[i]
}

/// A key has a position among the keys of a map.
proof fn key_has_position(
    entries: Map<Seq<char>, CachedProof>,
    keys: Seq<Seq<char>>,
    key: Seq<char>,
)
    requires
        keys_exact(entries, keys),
        entries.dom().contains(key),
    ensures
        0 <= keys.index_of(key) < keys.len(),
        keys[keys.index_of(key)] == key,
{
    assert(keys.contains(key));
    let j = choose|j: int| 0 <= j < keys.len() && keys[j] == key;
    position_is_unique(keys, j);
}

/// From its insertion on, a result is answered as long as it is fresh, and not
/// longer.
pub proof fn inserted_result_is_answered(
    entries: Map<Seq<char>, CachedProof>,
    keys: Seq<Seq<char>>,
    key: Seq<char>,
    tx_hash: String,
    inserted_at: u128,
    ttl_secs: u64,
    readings: Seq<u128>,
    now: u128,
)
    requires
        keys_exact(entries.insert(key, new_entry(tx_hash, inserted_at, ttl_secs)), keys),
        read_before(keys, readings, now),
        inserted_at <= now,
    ensures
        cached(
            fresh_entries(
                entries.insert(key, new_entry(tx_hash, inserted_at, ttl_secs)),
                keys,
                readings,
            ),
            key,
            now,
        ) == if now - inserted_at < ttl_secs * NANOS_PER_SEC {
            Some(tx_hash@)
        } else {
            None
        },
{
    let all = entries.insert(key, new_entry(tx_hash, inserted_at, ttl_secs));
    key_has_position(all, keys, key);
    assert(readings[keys.index_of(key)] <= now);
}

/// Inserting one result changes no answer for another key from then on: only
/// entries that are answered no more are evicted.
pub proof fn insertion_keeps_other_answers(
    entries: Map<Seq<char>, CachedProof>,
    keys: Seq<Seq<char>>,
    key: Seq<char>,
    tx_hash: String,
    inserted_at: u128,
    ttl_secs: u64,
    readings: Seq<u128>,
    other: Seq<char>,
    now: u128,
)
    requires
        keys_exact(entries.insert(key, new_entry(tx_hash, inserted_at, ttl_secs)), keys),
        read_before(keys, readings, now),
        other != key,
    ensures
        cached(
            fresh_entries(
                entries.insert(key, new_entry(tx_hash, inserted_at, ttl_secs)),
                keys,
                readings,
            ),
            other,
            now,
        ) == cached(entries, other, now),
{
    let all = entries.insert(key, new_entry(tx_hash, inserted_at, ttl_secs));
    if all.dom().contains(other) {
        key_has_position(all, keys, other);
        assert(readings[keys.index_of(other)] <= now);
    }
}

/// After an insertion the cache holds nothing that had expired when the clock was
/// first read for it.
pub proof fn insertion_evicts_expired(
    entries: Map<Seq<char>, CachedProof>,
    keys: Seq<Seq<char>>,
    key: Seq<char>,
    tx_hash: String,
    inserted_at: u128,
    ttl_secs: u64,
    readings: Seq<u128>,
    other: Seq<char>,
    since: u128,
)
    requires
        keys_exact(entries.insert(key, new_entry(tx_hash, inserted_at, ttl_secs)), keys),
        read_after(keys, readings, since),
    ensures
        ({
            let after = fresh_entries(
                entries.insert(key, new_entry(tx_hash, inserted_at, ttl_secs)),
                keys,
                readings,
            );
            after.dom().contains(other) ==> is_fresh(after[other], since)
        }),
{
    let all = entries.insert(key, new_entry(tx_hash, inserted_at, ttl_secs));
    if all.dom().contains(other) {
        key_has_position(all, keys, other);
        assert(since <= readings[keys.index_of(other)]);
    }
}

/// Public inputs as one text, each followed by a bar.
pub open spec fn joined_inputs(inputs: Seq<Seq<char>>) -> Seq<char>
    decreases inputs.len(),
{
    if inputs.len() == 0 {
        Seq::empty()
    } else {
        joined_inputs(inputs.drop_last()) + inputs.last() + seq!['|']
    }
}

/// True when no input contains a bar.
pub open spec fn free_of_bars(inputs: Seq<Seq<char>>) -> bool {
    forall|i: int| 0 <= i < inputs.len() ==> !(#[trigger] inputs[i]).contains('|')
}

/// A text is encoded piece by piece.
proof fn encoding_is_piecewise(a: Seq<char>, b: Seq<char>)
    ensures
        encode_utf8(a + b) == encode_utf8(a) + encode_utf8(b),
    decreases a.len(),
{
    if a.len() == 0 {
        assert(a + b =~= b);
        assert(encode_utf8(a) + encode_utf8(b) =~= encode_utf8(b));
    } else {
        encoding_is_piecewise(a.drop_first(), b);
        assert((a + b).drop_first() =~= a.drop_first() + b);
        assert((a + b)[0] == a[0]);
        assert(encode_utf8(a + b) =~= encode_utf8(a) + encode_utf8(b));
    }
}

/// The bytes of the inputs encode their joined text.
proof fn input_bytes_encode_joined(inputs: Seq<Seq<char>>)
    ensures
        input_bytes(inputs) == encode_utf8(joined_inputs(inputs)),
    decreases inputs.len(),
{
    if inputs.len() == 0 {
        assert(encode_utf8(Seq::<char>::empty()) =~= Seq::empty());
    } else {
        let head = joined_inputs(inputs.drop_last());
        let bar = seq!['|'];
        input_bytes_encode_joined(inputs.drop_last());
        encoding_is_piecewise(head, inputs.last());
        encoding_is_piecewise(head + inputs.last(), bar);
        assert(vstd::utf8::is_ascii_chars(bar));
        vstd::utf8::is_ascii_chars_encode_utf8(bar);
        assert(encode_utf8(bar) =~= seq![124u8]);
    }
}

/// Inputs free of bars can be told apart in their joined text.
proof fn joined_inputs_are_distinct(a: Seq<Seq<char>>, b: Seq<Seq<char>>)
    requires
        free_of_bars(a),
        free_of_bars(b),
        joined_inputs(a) == joined_inputs(b),
    ensures
        a == b,
    decreases a.len(),
{
    let text = joined_inputs(a);
    if a.len() == 0 {
        if b.len() > 0 {
            assert(joined_inputs(b).len() >= 1);
        }
        assert(a =~= b);
    } else if b.len() == 0 {
        assert(joined_inputs(a).len() >= 1);
    } else {
        let (x, y) = (a.last(), b.last());
        let (p, q) = (joined_inputs(a.drop_last()), joined_inputs(b.drop_last()));
        assert(!a[a.len() - 1].contains('|'));
        assert(!b[b.len() - 1].contains('|'));
        last_input_is_after_bar(a, b);
        last_input_is_after_bar(b, a);
        assert(x.len() == y.len());
        assert(p =~= text.take(p.len() as int));
        assert(q =~= text.take(q.len() as int));
        assert(x =~= text.subrange(p.len() as int, text.len() - 1));
        assert(y =~= text.subrange(q.len() as int, text.len() - 1));
        assert(free_of_bars(a.drop_last())) by {
            assert forall|i: int| 0 <= i < a.len() - 1 implies !(
            #[trigger] a.drop_last()[i]).contains('|') by {
                assert(!a[i].contains('|'));
            }
        }
        assert(free_of_bars(b.drop_last())) by {
            assert forall|i: int| 0 <= i < b.len() - 1 implies !(
            #[trigger] b.drop_last()[i]).contains('|') by {
                assert(!b[i].contains('|'));
            }
        }
        joined_inputs_are_distinct(a.drop_last(), b.drop_last());
        assert(a =~= a.drop_last().push(x));
        assert(b =~= b.drop_last().push(y));
    }
}

/// The last input of one list is no longer than that of another with the same
/// joined text.
proof fn last_input_is_after_bar(a: Seq<Seq<char>>, b: Seq<Seq<char>>)
    requires
        a.len() > 0,
        b.len() > 0,
        !b.last().contains('|'),
        joined_inputs(a) == joined_inputs(b),
    ensures
        b.last().len() <= a.last().len(),
{
    let text = joined_inputs(a);
    let (x, y) = (a.last(), b.last());
    let (p, q) = (joined_inputs(a.drop_last()), joined_inputs(b.drop_last()));
    assert(text == p + x + seq!['|']);
    assert(joined_inputs(b) == q + y + seq!['|']);
    if y.len() > x.len() {
        assert(p.len() + x.len() == q.len() + y.len());
        assert(p.len() > 0);
        assert(a.drop_last().len() > 0);
        assert(p.last() == '|');
        assert(text[p.len() - 1] == '|');
        assert(text[p.len() - 1] == y[p.len() - 1 - q.len()]);
        assert(y.contains('|'));
    }
}

/// Proofs of one length with public inputs free of bars are told apart by their
/// keys, unless SHA-256 gives the same digest for two different messages.
pub proof fn different_proofs_have_different_keys(
    proof_a: Seq<u8>,
    inputs_a: Seq<Seq<char>>,
    proof_b: Seq<u8>,
    inputs_b: Seq<Seq<char>>,
)
    requires
        proof_a.len() == proof_b.len(),
        free_of_bars(inputs_a),
        free_of_bars(inputs_b),
        proof_a != proof_b || inputs_a != inputs_b,
    ensures
        key_message(proof_a, inputs_a) != key_message(proof_b, inputs_b),
        sha256_hex(key_message(proof_a, inputs_a)) == sha256_hex(key_message(proof_b, inputs_b))
            ==> sha256_digest(key_message(proof_a, inputs_a)) == sha256_digest(
            key_message(proof_b, inputs_b),
        ),
{
    let (m, n) = (key_message(proof_a, inputs_a), key_message(proof_b, inputs_b));
    if m == n {
        assert(proof_a =~= m.take(proof_a.len() as int));
        assert(proof_b =~= m.take(proof_a.len() as int));
        assert(input_bytes(inputs_a) =~= m.skip(proof_a.len() as int));
        assert(input_bytes(inputs_b) =~= m.skip(proof_a.len() as int));
        input_bytes_encode_joined(inputs_a);
        input_bytes_encode_joined(inputs_b);
        vstd::utf8::encode_utf8_decode_utf8(joined_inputs(inputs_a));
        vstd::utf8::encode_utf8_decode_utf8(joined_inputs(inputs_b));
        joined_inputs_are_distinct(inputs_a, inputs_b);
    }
    if sha256_hex(m) == sha256_hex(n) {
        hex_text_is_injective(sha256_digest(m), sha256_digest(n));
    }
}

} // verus!
