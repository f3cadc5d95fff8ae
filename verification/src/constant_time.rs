//! Comparisons that look at every position of what they compare.
use crate::table::types::Address;
use vstd::prelude::*;

verus! {

/// True when `a` and `b` are the same number.
pub fn u32_eq(a: u32, b: u32) -> (r: bool)
    ensures
        r == (a == b),
{
    let diff: u32 = a ^ b;
    assert((a ^ b) == 0 <==> a == b) by (bit_vector);
    diff == 0
}

/// True when `a` and `b` are different numbers.
pub fn u32_ne(a: u32, b: u32) -> (r: bool)
    ensures
        r == (a != b),
{
    !u32_eq(a, b)
}

/// True when `a` and `b` hold the same bytes. Every position is read, whether
/// or not an earlier one differed.
pub fn bytes_eq<const N: usize>(a: &[u8; N], b: &[u8; N]) -> (r: bool)
    ensures
        r == (a == b),
{
    let mut diff: u8 = 0;
    let mut i: usize = 0;
    while i < N
        invariant
            i <= N,
            diff == 0 <==> forall|j: int| 0 <= j < i ==> a[j] == b[j],
        decreases N - i,
    {
        let x: u8 = a[i];
        let y: u8 = b[i];
        let seen: u8 = diff;
        diff = seen | (x ^ y);
        assert((seen | (x ^ y)) == 0 <==> (seen == 0 && x == y)) by (bit_vector);
        i = i + 1;
    }
    assert(diff == 0 ==> a =~= b);
    diff == 0
}

/// True when `a` and `b` are the same address.
pub fn address_eq(a: &Address, b: &Address) -> (r: bool)
    ensures
        r == (a == b),
{
    bytes_eq(&a.strkey, &b.strkey)
}

/// True when `a` and `b` are different addresses.
pub fn address_ne(a: &Address, b: &Address) -> (r: bool)
    ensures
        r == (a != b),
{
    !address_eq(a, b)
}

} // verus!
