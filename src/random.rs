use vstd::prelude::*;

verus! {

/// The probability one, in parts per million; every probability of the
/// library is a count of millionths in `0..=PROBABILITY_ONE`.
pub const PROBABILITY_ONE: u32 = 1_000_000;

/// Relies on `rand::random_ratio`: a draw from the thread-local generator that
/// is true with chance `numerator / denominator`, always false for a zero
/// numerator and always true when the two are equal; it panics on a zero
/// denominator or a numerator above the denominator.
pub assume_specification[ rand::random_ratio ](numerator: u32, denominator: u32) -> (r: bool)
    requires
        denominator > 0,
        numerator <= denominator,
    ensures
        numerator == 0 ==> !r,
        numerator == denominator ==> r,
;

/// Relies on `rand::random_range`: a value drawn from `0..len`, which panics
/// when that range is empty.
#[verifier::external_body]
fn random_index(len: usize) -> (r: usize)
    requires
        len > 0,
    ensures
        r < len,
{
    rand::random_range(0..len)
}

/// A draw that is true with probability `p` millionths.
pub fn chance(p: u32) -> (r: bool)
    requires
        p <= PROBABILITY_ONE,
    ensures
        p == 0 ==> !r,
        p == PROBABILITY_ONE ==> r,
{
    rand::random_ratio(p, PROBABILITY_ONE)
}

/// Flips every bit of the byte at `index`.
pub fn corrupt_bytes_at(v: &mut Vec<u8>, index: usize)
    requires
        index < old(v)@.len(),
    ensures
        final(v)@ == old(v)@.update(index as int, old(v)@[index as int] ^ 0xFFu8),
{
    let b = v[index];
    v.set(index, b ^ 0xFF);
}

/// Flips every bit of one byte at a random position; an empty buffer stays
/// as it is.
pub fn corrupt_bytes(v: &mut Vec<u8>)
    ensures
        final(v)@.len() == old(v)@.len(),
        old(v)@.len() == 0 ==> final(v)@ == old(v)@,
        old(v)@.len() > 0 ==> exists|i: int|
            0 <= i < old(v)@.len() && final(v)@ == old(v)@.update(i, old(v)@[i] ^ 0xFFu8),
{
    if v.len() > 0 {
        let i = random_index(v.len());
        corrupt_bytes_at(v, i);
    }
}

} // verus!
