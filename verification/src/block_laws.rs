//! What holds of all blocks of addresses.

use crate::addr::IpAddress;
use crate::cidr::CidrBlock;
use vstd::arithmetic::div_mod::{
    lemma_fundamental_div_mod, lemma_fundamental_div_mod_converse, lemma_mod_bound,
};
use vstd::arithmetic::power2::{lemma2_to64, lemma2_to64_rest, lemma_pow2_pos, pow2};
use vstd::prelude::*;

verus! {

/// A block covers the addresses of its own family that share its prefix: the one that it is named
/// after, only that one where the prefix is as long as an address, and all of its family where there
/// is none.
pub proof fn blocks_cover_what_shares_their_prefix(address: u32, prefix: u8, n: u32, other: u128)
    requires
        prefix <= 32,
    ensures
        CidrBlock::V4(address, prefix).covers(IpAddress::V4(address)),
        CidrBlock::V4(address, 32).covers(IpAddress::V4(n)) <==> n == address,
        CidrBlock::V4(address, 0).covers(IpAddress::V4(n)),
        !CidrBlock::V4(address, prefix).covers(IpAddress::V6(other)),
        !CidrBlock::V6(other, prefix).covers(IpAddress::V4(n)),
        CidrBlock::V6(other, prefix).covers(IpAddress::V6(other)),
{
    lemma2_to64();
    lemma2_to64_rest();
    assert(pow2(0) == 1);
    assert(pow2(32) == 0x1_0000_0000);
    assert(n as nat / 1 == n);
    assert(address as nat / 1 == address);
    assert(n as nat / 0x1_0000_0000 == 0);
    assert(address as nat / 0x1_0000_0000 == 0);
}

/// A block covers an address exactly where it lies in the block's range: from the block's
/// first address on, for as many as the prefix leaves open.
#[verifier::rlimit(40)]
pub proof fn blocks_are_ranges(address: u32, prefix: u8, n: u32, first: int)
    requires
        prefix <= 32,
        first <= address < first + pow2((32 - prefix) as nat),
        first % (pow2((32 - prefix) as nat) as int) == 0,
    ensures
        CidrBlock::V4(address, prefix).covers(IpAddress::V4(n)) <==> first <= n < first + pow2(
            (32 - prefix) as nat,
        ),
{
    let size = pow2((32 - prefix) as nat) as int;
    lemma_pow2_pos((32 - prefix) as nat);
    lemma_range(first, size, address as int);
    if first <= n < first + size {
        lemma_range(first, size, n as int);
    } else if n as int / size == first / size {
        lemma_fundamental_div_mod(n as int, size);
        lemma_fundamental_div_mod(first, size);
        lemma_mod_bound(n as int, size);
    }
}

/// A block of the second family covers an address exactly where it lies in the block's range.
#[verifier::rlimit(40)]
pub proof fn blocks_of_the_second_family_are_ranges(
    address: u128,
    prefix: u8,
    n: u128,
    first: int,
)
    requires
        prefix <= 128,
        first <= address < first + pow2((128 - prefix) as nat),
        first % (pow2((128 - prefix) as nat) as int) == 0,
    ensures
        CidrBlock::V6(address, prefix).covers(IpAddress::V6(n)) <==> first <= n < first + pow2(
            (128 - prefix) as nat,
        ),
{
    let size = pow2((128 - prefix) as nat) as int;
    lemma_pow2_pos((128 - prefix) as nat);
    lemma_range(first, size, address as int);
    if first <= n < first + size {
        lemma_range(first, size, n as int);
    } else if n as int / size == first / size {
        lemma_fundamental_div_mod(n as int, size);
        lemma_fundamental_div_mod(first, size);
        lemma_mod_bound(n as int, size);
    }
}

proof fn lemma_range(first: int, size: int, n: int)
    requires
        size > 0,
        first % size == 0,
        first <= n < first + size,
    ensures
        n / size == first / size,
{
    lemma_fundamental_div_mod(first, size);
    assert(size * (first / size) == (first / size) * size) by (nonlinear_arith);
    lemma_fundamental_div_mod_converse(n, size, first / size, n - first);
}

} // verus!
