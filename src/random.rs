use vstd::prelude::*;
use rand::rngs::ThreadRng;
use rand::seq::SliceRandom;

verus! {

#[verifier::external_type_specification]
#[verifier::external_body]
pub struct ExThreadRng(ThreadRng);

/// Relies on rand::thread_rng: hands out the thread's random source.
pub assume_specification[ rand::thread_rng ]() -> ThreadRng;

/// Relies on rand's `SliceRandom::choose` for slices: on a non-empty slice it
/// returns a reference to one of its elements.
#[verifier::external_body]
pub(crate) fn choose_char(set: &Vec<char>, rng: &mut ThreadRng) -> (c: char)
    requires
        set@.len() > 0,
    ensures
        set@.contains(c),
{
    *set.as_slice().choose(rng).unwrap()
}

/// Relies on rand's `SliceRandom::shuffle` for slices: it only swaps
/// elements, so the result is a permutation of the input.
#[verifier::external_body]
pub(crate) fn shuffle_positions(v: &mut Vec<usize>, rng: &mut ThreadRng)
    ensures
        final(v)@.to_multiset() == old(v)@.to_multiset(),
{
    v.as_mut_slice().shuffle(rng)
}

/// Relies on std's `FromIterator<char>` for `String`: the string holds the
/// characters in order.
#[verifier::external_body]
pub(crate) fn string_of(v: &Vec<char>) -> (s: String)
    ensures
        s@ == v@,
{
    v.iter().collect()
}

} // verus!
