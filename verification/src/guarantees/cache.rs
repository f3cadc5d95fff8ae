//! Cached results of verified proofs.
use crate::guarantees::basics::{gives, hex_text_spells, setting_gives, spells};
use crate::hashing::sha256_digest;
use crate::proof_cache::{
    get, input_bytes, input_texts, insert, key_message, proof_key, ttl, ProofCache,
};
use crate::sequences::position_is_unique;
use crate::text::{setting_value, setting_view};
use vstd::prelude::*;
use vstd::utf8::encode_utf8;

verus! {

// ---------------------------------------------------------------------------
// Keys
// ---------------------------------------------------------------------------

/// Texts in UTF-8, one after the other, each with a bar behind it.
pub open spec fn barred(inputs: Seq<String>) -> Seq<u8>
    decreases inputs.len(),
{
    if inputs.len() == 0 {
        Seq::empty()
    } else {
        encode_utf8(inputs[0]@) + seq!['|' as u8] + barred(inputs.skip(1))
    }
}

/// The texts of a prefix, then the rest.
proof fn barred_in_two(inputs: Seq<String>, n: int)
    requires
        0 <= n <= inputs.len(),
    ensures
        barred(inputs) == input_bytes(input_texts(inputs.take(n))) + barred(inputs.skip(n)),
    decreases n,
{
    if n == 0 {
        assert(inputs.skip(0) =~= inputs);
        assert(input_texts(inputs.take(0)) =~= Seq::<Seq<char>>::empty());
        assert(barred(inputs) =~= Seq::<u8>::empty() + barred(inputs));
    } else {
        barred_in_two(inputs, n - 1);
        let rest = inputs.skip(n - 1);
        let texts = input_texts(inputs.take(n));
        assert(texts.drop_last() =~= input_texts(inputs.take(n - 1)));
        assert(texts.last() == inputs[n - 1]@);
        assert(rest[0] == inputs[n - 1]);
        assert(rest.skip(1) =~= inputs.skip(n));
        assert('|' as u8 == 124u8);
        assert(input_bytes(input_texts(inputs.take(n - 1))) + (encode_utf8(rest[0]@) + seq![
            124u8,
        ] + barred(inputs.skip(n))) =~= (input_bytes(input_texts(inputs.take(n - 1)))
            + encode_utf8(inputs[n - 1]@) + seq![124u8]) + barred(inputs.skip(n)));
    }
}

/// A key spells the digest of the proof and, behind it, its public inputs.
pub proof fn key_is_of_the_contents(proof_bytes: &[u8], inputs: &[String], key: String)
    requires
        call_ensures(proof_key, (proof_bytes, inputs), key),
    ensures
        spells(key@, sha256_digest(proof_bytes@ + barred(inputs@))),
        key@.len() == 64,
{
    let n = inputs@.len() as int;
    barred_in_two(inputs@, n);
    assert(inputs@.take(n) =~= inputs@);
    assert(barred(inputs@.skip(n)) =~= Seq::<u8>::empty());
    assert(barred(inputs@) =~= input_bytes(input_texts(inputs@)));
    hex_text_spells(sha256_digest(key_message(proof_bytes@, input_texts(inputs@))));
}

// ---------------------------------------------------------------------------
// Time to live
// ---------------------------------------------------------------------------

/// A result lives for the ledgers set, else twelve, at the seconds set for each,
/// else five: their product, but at least a second and at most what its type holds.
pub proof fn result_lives_for_ledgers(close: Option<String>, ledgers: Option<String>, secs: u64)
    requires
        call_ensures(ttl, (close, ledgers), secs),
    ensures
        exists|c: int, n: int| #[trigger]
            gives(close, u64::MAX as int, 5, c) && #[trigger] gives(
                ledgers,
                u64::MAX as int,
                12,
                n,
            ) && {
                &&& c * n == 0 ==> secs == 1
                &&& 1 <= c * n <= u64::MAX ==> secs == c * n
                &&& c * n > u64::MAX ==> secs == u64::MAX
            },
{
    setting_gives(close, u64::MAX as int, 5);
    setting_gives(ledgers, u64::MAX as int, 12);
    let c = setting_value(setting_view(close), u64::MAX as int, 5);
    let n = setting_value(setting_view(ledgers), u64::MAX as int, 12);
    assert(gives(close, u64::MAX as int, 5, c) && gives(ledgers, u64::MAX as int, 12, n));
}

// ---------------------------------------------------------------------------
// Lookup and insertion
// ---------------------------------------------------------------------------

/// A new cache answers nothing.
pub proof fn new_cache_is_empty(
    cache: ProofCache,
    key: &str,
    now: u128,
    tx: Option<String>,
    n: usize,
)
    requires
        call_ensures(ProofCache::new, (), cache),
        call_ensures(get, (&cache, key, now), tx),
        call_ensures(ProofCache::len, (&cache,), n),
    ensures
        tx is None,
        n == 0,
{
}

/// True when something of time to live `ttl`, put down at `at`, still lives at
/// `now`. Time does not count before it was put down.
pub open spec fn lives(at: int, ttl: int, now: int) -> bool {
    if now < at {
        ttl > 0
    } else {
        now < at + ttl
    }
}

/// The cache answers exactly with the results that it holds and that still live.
/// As many entries are counted as it holds.
pub proof fn living_result_is_answered(
    cache: ProofCache,
    key: &str,
    now: u128,
    tx: Option<String>,
    n: usize,
)
    requires
        call_ensures(get, (&cache, key, now), tx),
        call_ensures(ProofCache::len, (&cache,), n),
    ensures
        tx is Some <==> cache@.dom().contains(key@) && lives(
            cache@[key@].inserted_at as int,
            cache@[key@].ttl as int,
            now as int,
        ),
        tx is Some ==> tx->0@ == cache@[key@].tx_hash@,
        n == cache@.dom().len(),
{
    cache.keys().unique_seq_to_set();
    assert(cache.keys().to_set() =~= cache@.dom());
}

/// The keys of a cache once one more is there: the new one last.
pub open spec fn keys_with(keys: Seq<Seq<char>>, key: Seq<char>) -> Seq<Seq<char>> {
    if exists|i: int| 0 <= i < keys.len() && #[trigger] keys[i] == key {
        keys
    } else {
        keys.push(key)
    }
}

/// After an insertion the cache answers with the new result under its key, and
/// under every other key as before; but an entry that no longer lives at its own
/// clock reading is gone.
pub proof fn inserted_result_is_answered(
    cache: &mut ProofCache,
    key: String,
    tx_hash: String,
    at: u128,
    secs: u64,
    readings: &[u128],
    done: (),
    asked: &str,
    now: u128,
    p: int,
    before: Option<String>,
    after: Option<String>,
)
    requires
        call_ensures(insert, (cache, key, tx_hash, at, secs, readings), done),
        call_ensures(get, (&*old(cache), asked, now), before),
        call_ensures(get, (&*final(cache), asked, now), after),
        0 <= p < keys_with(old(cache).keys(), key@).len(),
        keys_with(old(cache).keys(), key@)[p] == asked@,
    ensures
        asked@ == key@ ==> {
            let ttl = secs * 1_000_000_000;
            &&& after is Some <==> lives(at as int, ttl, readings@[p] as int) && lives(
                at as int,
                ttl,
                now as int,
            )
            &&& after is Some ==> after->0@ == tx_hash@
        },
        asked@ != key@ ==> {
            let entry = old(cache)@[asked@];
            &&& after is Some <==> before is Some && lives(
                entry.inserted_at as int,
                entry.ttl as int,
                readings@[p] as int,
            )
            &&& after is Some ==> after->0@ == before->0@
        },
{
    let keys = keys_with(old(cache).keys(), key@);
    assert(keys == crate::sequences::with_item(old(cache).keys(), key@));
    position_is_unique(keys, p);
    assert(keys.contains(keys[p]));
}

/// Nothing is answered after an insertion that the cache had no key for.
pub proof fn unknown_key_stays_unknown(
    cache: &mut ProofCache,
    key: String,
    tx_hash: String,
    at: u128,
    secs: u64,
    readings: &[u128],
    done: (),
    asked: &str,
    now: u128,
    after: Option<String>,
)
    requires
        call_ensures(insert, (cache, key, tx_hash, at, secs, readings), done),
        call_ensures(get, (&*final(cache), asked, now), after),
        !old(cache)@.dom().contains(asked@),
        asked@ != key@,
    ensures
        after is None,
{
}

/// An insertion keeps the order of the keys, a new one last: of those that stay,
/// one comes before another exactly as it did.
pub proof fn insertion_keeps_the_order(
    cache: &mut ProofCache,
    key: String,
    tx_hash: String,
    at: u128,
    secs: u64,
    readings: &[u128],
    done: (),
)
    requires
        call_ensures(insert, (cache, key, tx_hash, at, secs, readings), done),
    ensures
        final(cache).keys() == keys_with(old(cache).keys(), key@).filter(
            |k: Seq<char>| final(cache)@.dom().contains(k),
        ),
{
    assert(keys_with(old(cache).keys(), key@) == crate::sequences::with_item(
        old(cache).keys(),
        key@,
    ));
}

} // verus!
