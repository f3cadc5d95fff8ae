//! The cache of proofs that were verified on chain.
use poker_table::proof_cache::{get, insert, proof_key, ttl, ProofCache};

const SECOND: u128 = 1_000_000_000;

/// Inserts a result, with every clock reading at the time of the insertion.
fn insert_at(cache: &mut ProofCache, key: &str, tx_hash: &str, now: u128, ttl_secs: u64) {
    let readings = vec![now; cache.len() + 1];
    insert(cache, key.to_string(), tx_hash.to_string(), now, ttl_secs, &readings);
}

#[test]
fn identical_proof_and_inputs_hash_to_the_same_key() {
    let proof = vec![1u8, 2, 3, 4];
    let inputs = vec!["1".to_string(), "2".to_string()];
    assert_eq!(proof_key(&proof, &inputs), proof_key(&proof, &inputs));
}

#[test]
fn different_public_inputs_change_the_key() {
    let proof = vec![1u8, 2, 3, 4];
    let a = proof_key(&proof, &["1".to_string()]);
    let b = proof_key(&proof, &["2".to_string()]);
    assert_ne!(a, b);
}

#[test]
fn cache_miss_then_hit_after_insert() {
    let mut cache = ProofCache::new();
    let key = proof_key(b"unique-test-proof-bytes", &["42".to_string()]);
    assert_eq!(get(&cache, &key, 0), None);

    insert(&mut cache, key.clone(), "tx-hash-abc".to_string(), 0, ttl(None, None), &[0]);
    assert_eq!(get(&cache, &key, 0), Some("tx-hash-abc".to_string()));
}

#[test]
fn key_without_inputs_is_the_digest_of_the_proof() {
    assert_eq!(
        proof_key(b"abc", &[]),
        "ba7816bf8f01cfea414140de5dae2223b00361a396177a9cb410ff61f20015ad"
    );
}

#[test]
fn inputs_are_marked_off_by_bars() {
    let split = proof_key(b"p", &["1".to_string(), "2".to_string()]);
    let joined = proof_key(b"p", &["12".to_string()]);
    assert_ne!(split, joined);
    assert_eq!(
        proof_key(b"p", &["1|2".to_string()]),
        proof_key(b"p", &["1".to_string(), "2".to_string()])
    );
}

#[test]
fn entry_lasts_a_minute_unless_settings_say_otherwise() {
    let text = |t: &str| Some(t.to_string());
    assert_eq!(ttl(None, None), 60);
    assert_eq!(ttl(text("6"), text("10")), 60);
    assert_eq!(ttl(text("7"), None), 84);
    assert_eq!(ttl(None, text("3")), 15);
    assert_eq!(ttl(text("soon"), text("-1")), 60);
    assert_eq!(ttl(text("0"), None), 1);
    assert_eq!(ttl(text("18446744073709551615"), text("2")), u64::MAX);
}

#[test]
fn entry_is_answered_until_its_time_is_up() {
    let mut cache = ProofCache::new();
    insert_at(&mut cache, "k", "tx", 5 * SECOND, 60);
    assert_eq!(get(&cache, "k", 65 * SECOND - 1), Some("tx".to_string()));
    assert_eq!(get(&cache, "k", 65 * SECOND), None);
    // A clock that steps back makes no entry older.
    assert_eq!(get(&cache, "k", 0), Some("tx".to_string()));
}

#[test]
fn later_result_replaces_the_earlier_one() {
    let mut cache = ProofCache::new();
    insert_at(&mut cache, "k", "old", 0, 60);
    insert_at(&mut cache, "k", "new", SECOND, 60);
    assert_eq!(get(&cache, "k", SECOND), Some("new".to_string()));
}

#[test]
fn inserting_keeps_fresh_entries_and_drops_expired_ones() {
    let mut cache = ProofCache::new();
    insert_at(&mut cache, "a", "tx-a", 0, 10);
    insert_at(&mut cache, "b", "tx-b", 0, 100);
    insert_at(&mut cache, "c", "tx-c", 20 * SECOND, 10);
    assert_eq!(get(&cache, "a", 5 * SECOND), None);
    assert_eq!(get(&cache, "b", 20 * SECOND), Some("tx-b".to_string()));
    assert_eq!(get(&cache, "c", 20 * SECOND), Some("tx-c".to_string()));
}

#[test]
fn each_entry_is_tested_at_its_own_reading() {
    let mut cache = ProofCache::new();
    insert_at(&mut cache, "a", "tx-a", 0, 10);
    insert_at(&mut cache, "b", "tx-b", 0, 10);
    // The entries expire while the cache is walked.
    let readings = [10 * SECOND - 1, 10 * SECOND, 10 * SECOND];
    insert(&mut cache, "c".to_string(), "tx-c".to_string(), 9 * SECOND, 10, &readings);
    assert_eq!(cache.len(), 2);
    assert_eq!(get(&cache, "a", 5 * SECOND), Some("tx-a".to_string()));
    assert_eq!(get(&cache, "b", 5 * SECOND), None);
    assert_eq!(get(&cache, "c", 10 * SECOND), Some("tx-c".to_string()));
}

#[test]
fn result_that_expires_before_the_walk_is_not_kept() {
    let mut cache = ProofCache::new();
    insert(&mut cache, "a".to_string(), "tx".to_string(), 0, 1, &[SECOND]);
    assert_eq!(cache.len(), 0);
}
