//! Uniform random draws. Every draw goes through the thread-local generator
//! of the `rand` crate; nothing is known of a draw but the range it lies in.

use rand::Rng;
use vstd::prelude::*;

verus! {

/// `Rng::gen_range` of rand on `thread_rng()`, with the inclusive range
/// `low..=high` of `i32`. It panics on an empty range, which `requires` leaves
/// out; the value it returns lies in the range.
#[verifier::external_body]
pub(crate) fn random_i32(low: i32, high: i32) -> (value: i32)
    requires
        low <= high,
    ensures
        low <= value <= high,
{
    rand::thread_rng().gen_range(low..=high)
}

/// `Rng::gen_range` of rand on `thread_rng()`, with the inclusive range
/// `low..=high` of `u32`. It panics on an empty range, which `requires` leaves
/// out; the value it returns lies in the range.
#[verifier::external_body]
pub(crate) fn random_u32(low: u32, high: u32) -> (value: u32)
    requires
        low <= high,
    ensures
        low <= value <= high,
{
    rand::thread_rng().gen_range(low..=high)
}

/// `Rng::gen_range` of rand on `thread_rng()`, with the half-open range
/// `0..len` of `usize`. It panics on an empty range, which `requires` leaves
/// out; the value it returns is an index below `len`.
#[verifier::external_body]
pub(crate) fn random_index(len: usize) -> (index: usize)
    requires
        0 < len,
    ensures
        index < len,
{
    rand::thread_rng().gen_range(0..len)
}

} // verus!
