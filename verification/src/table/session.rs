//! The session id under which the game hub knows a hand.
use vstd::prelude::*;

verus! {

/// The bits of `x` with their two halves exchanged.
pub open spec fn halves_swapped(x: u32) -> u32 {
    (x << 16) | (x >> 16)
}

/// `x * factor` modulo 2^32.
pub open spec fn wrapped_product(x: u32, factor: u32) -> u32 {
    ((x as nat * factor as nat) % 0x1_0000_0000) as u32
}

/// The session id of a hand: the table id and the hand number, mixed by two
/// rounds of multiplication and shifting.
pub open spec fn session_id(table_id: u32, hand_number: u32) -> u32 {
    let seed = table_id ^ halves_swapped(hand_number);
    let first = wrapped_product(seed, 0x9E37_79B1);
    let folded = first ^ (first >> 16);
    let second = wrapped_product(folded, 0x85EB_CA6B);
    second ^ (second >> 13)
}

/// Deterministic 32-bit hash of a table id and a hand number.
pub fn derive_session_id(table_id: u32, hand_number: u32) -> (id: u32)
    ensures
        id == session_id(table_id, hand_number),
{
    let mut x: u32 = table_id ^ ((hand_number << 16) | (hand_number >> 16));
    x = x.wrapping_mul(0x9E37_79B1);
    x = x ^ (x >> 16);
    x = x.wrapping_mul(0x85EB_CA6B);
    x = x ^ (x >> 13);
    x
}

/// Multiplying by 0x9E37_79B1 modulo 2^32 loses nothing: the factor is odd.
proof fn first_product_is_injective(x: u32, y: u32)
    requires
        wrapped_product(x, 0x9E37_79B1) == wrapped_product(y, 0x9E37_79B1),
    ensures
        x == y,
{
    let a = x as int * 0x9E37_79B1;
    let b = y as int * 0x9E37_79B1;
    let m = a / 0x1_0000_0000 - b / 0x1_0000_0000;
    assert(a - b == m * 0x1_0000_0000);
    // The inverse of the factor: 0xE8B2F51 * 0x9E37_79B1 == 1 + 0x8FD0E05 * 2^32.
    let d = m * 0xE8B2F51 - 0x8FD0E05 * (x - y);
    assert(x - y == d * 0x1_0000_0000);
}

/// Multiplying by 0x85EB_CA6B modulo 2^32 loses nothing: the factor is odd.
proof fn second_product_is_injective(x: u32, y: u32)
    requires
        wrapped_product(x, 0x85EB_CA6B) == wrapped_product(y, 0x85EB_CA6B),
    ensures
        x == y,
{
    let a = x as int * 0x85EB_CA6B;
    let b = y as int * 0x85EB_CA6B;
    let m = a / 0x1_0000_0000 - b / 0x1_0000_0000;
    assert(a - b == m * 0x1_0000_0000);
    // The inverse of the factor: 0xA5CB9243 * 0x85EB_CA6B == 1 + 0x56BB77F4 * 2^32.
    let d = m * 0xA5CB9243 - 0x56BB77F4 * (x - y);
    assert(x - y == d * 0x1_0000_0000);
}

/// Equal session ids come from equal seeds.
proof fn session_id_keeps_seed(table_a: u32, hand_a: u32, table_b: u32, hand_b: u32)
    requires
        session_id(table_a, hand_a) == session_id(table_b, hand_b),
    ensures
        table_a ^ halves_swapped(hand_a) == table_b ^ halves_swapped(hand_b),
{
    let seed_a = table_a ^ halves_swapped(hand_a);
    let seed_b = table_b ^ halves_swapped(hand_b);
    let first_a = wrapped_product(seed_a, 0x9E37_79B1);
    let first_b = wrapped_product(seed_b, 0x9E37_79B1);
    let folded_a = first_a ^ (first_a >> 16);
    let folded_b = first_b ^ (first_b >> 16);
    let second_a = wrapped_product(folded_a, 0x85EB_CA6B);
    let second_b = wrapped_product(folded_b, 0x85EB_CA6B);
    assert(second_a ^ (second_a >> 13) == second_b ^ (second_b >> 13) ==> second_a == second_b)
        by (bit_vector);
    second_product_is_injective(folded_a, folded_b);
    assert(first_a ^ (first_a >> 16) == first_b ^ (first_b >> 16) ==> first_a == first_b)
        by (bit_vector);
    first_product_is_injective(seed_a, seed_b);
}

/// Two different hands of one table never share a session id.
pub proof fn hands_have_distinct_sessions(table_id: u32, hand_a: u32, hand_b: u32)
    requires
        hand_a != hand_b,
    ensures
        session_id(table_id, hand_a) != session_id(table_id, hand_b),
{
    if session_id(table_id, hand_a) == session_id(table_id, hand_b) {
        session_id_keeps_seed(table_id, hand_a, table_id, hand_b);
        assert(table_id ^ ((hand_a << 16) | (hand_a >> 16)) == table_id ^ ((hand_b << 16) | (hand_b
            >> 16)) ==> hand_a == hand_b) by (bit_vector);
    }
}

/// Hands of the same number at two different tables never share a session id.
pub proof fn tables_have_distinct_sessions(table_a: u32, table_b: u32, hand_number: u32)
    requires
        table_a != table_b,
    ensures
        session_id(table_a, hand_number) != session_id(table_b, hand_number),
{
    if session_id(table_a, hand_number) == session_id(table_b, hand_number) {
        session_id_keeps_seed(table_a, hand_number, table_b, hand_number);
        let swapped = halves_swapped(hand_number);
        assert(table_a ^ swapped == table_b ^ swapped ==> table_a == table_b) by (bit_vector);
    }
}

} // verus!
