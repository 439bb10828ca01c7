//! The calls into the random source, and the one slice operation that the
//! views need beyond what `Vec` offers. Nothing in this file is proved:
//! each contract restates what the called function documents, and the
//! proofs of the node rest on it.

use vstd::prelude::*;
use rand::Rng;

verus! {

/// Calls `Rng::gen_range(0, len)` of the crate `rand`.
///
/// The call draws from the half-open range from `0` to `len`, so what it
/// returns is below `len`; the contract says nothing else of it, and two
/// calls may differ. The call panics on an empty range, which `requires`
/// leaves out. It draws from the source until a number suits it, so it
/// returns only from a source that does not repeat unsuitable numbers for
/// ever.
#[verifier::external_body]
pub(crate) fn random_index<R: Rng>(rng: &mut R, len: usize) -> (index: usize)
    requires
        len > 0,
    ensures
        index < len,
{
    rng.gen_range(0, len)
}

/// Calls `Rng::shuffle` of the crate `rand` on the entries of `values`.
///
/// The call exchanges entries of the slice with one another and does
/// nothing else to it, so the entries afterwards are those from before, each
/// as often as before, in an order of which the contract says nothing.
#[verifier::external_body]
pub(crate) fn shuffle<T, R: Rng>(rng: &mut R, values: &mut Vec<T>)
    ensures
        final(values)@.to_multiset() == old(values)@.to_multiset(),
{
    rng.shuffle(values)
}

/// Calls the slice method `swap` of std on the entries of `values`.
///
/// The call exchanges the entries at `a` and `b` and leaves the others. It
/// panics on an index out of bounds, which `requires` leaves out.
#[verifier::external_body]
pub(crate) fn swap_entries<T>(values: &mut Vec<T>, a: usize, b: usize)
    requires
        a < old(values)@.len(),
        b < old(values)@.len(),
    ensures
        final(values)@ == old(values)@.update(a as int, old(values)@[b as int]).update(
            b as int,
            old(values)@[a as int],
        ),
{
    values.swap(a, b)
}

} // verus!
