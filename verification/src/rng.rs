//! The pseudo-random stream behind shuffles and random jumps.

use std::collections::hash_map::DefaultHasher;
use std::collections::hash_map::RandomState;
use std::hash::{BuildHasher, Hasher};

use vstd::prelude::*;

verus! {

/// One xorshift step of the 64-bit state: left 13, right 7, left 17.
pub open spec fn xorshift(s: u64) -> u64 {
    let a = s ^ (s << 13);
    let b = a ^ (a >> 7);
    b ^ (b << 17)
}

/// A hasher's keys, drawn from the system's entropy.
///
/// Calls std's `RandomState::new`, whose keys are random: nothing is claimed of
/// them.
#[verifier::external_body]
fn random_keys() -> (r: RandomState) {
    RandomState::new()
}

/// A hasher that starts from the given keys.
///
/// Calls std's `RandomState::build_hasher`. What the hasher would answer hangs
/// on the random keys: nothing is claimed of it.
#[verifier::external_body]
fn keyed_hasher(keys: &RandomState) -> (r: DefaultHasher) {
    keys.build_hasher()
}

/// A fresh seed from the system's entropy, with its lowest bit set: the stream
/// must never start from zero.
pub fn rng_seed() -> (seed: u64)
    ensures
        seed & 1 == 1,
        seed != 0,
{
    let keys = random_keys();
    let hasher = keyed_hasher(&keys);
    let drawn: u64 = hasher.finish();
    odd(drawn)
}

/// A number with its lowest bit set.
pub fn odd(drawn: u64) -> (seed: u64)
    ensures
        seed == drawn | 1,
        seed & 1 == 1,
        seed != 0,
{
    assert((drawn | 1) & 1 == 1 && drawn | 1 != 0) by (bit_vector);
    drawn | 1
}

/// Advances the stream one step and returns the new state.
pub fn next_rand(rng: &mut u64) -> (value: u64)
    ensures
        value == xorshift(*old(rng)),
        *final(rng) == value,
        *old(rng) != 0 ==> value != 0,
{
    let s: u64 = *rng;
    let a: u64 = s ^ (s << 13);
    let b: u64 = a ^ (a >> 7);
    let c: u64 = b ^ (b << 17);
    proof {
        xorshift_keeps_nonzero(s);
    }
    *rng = c;
    c
}

/// A stream that is not at zero never reaches zero.
pub proof fn xorshift_keeps_nonzero(s: u64)
    ensures
        s != 0 ==> xorshift(s) != 0,
{
    let a = s ^ (s << 13);
    let b = a ^ (a >> 7);
    assert(s != 0 ==> s ^ (s << 13) != 0) by (bit_vector);
    assert(a != 0 ==> a ^ (a >> 7) != 0) by (bit_vector);
    assert(b != 0 ==> b ^ (b << 17) != 0) by (bit_vector);
}

} // verus!
