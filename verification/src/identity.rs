//! What the engine asks of the type that names nodes.

use vstd::prelude::*;
use vstd::laws_eq::obeys_concrete_eq;

verus! {

/// Node identifiers are values: `==` on them decides equality, and a clone of
/// an identifier is that identifier.
pub open spec fn value_semantic<T: Clone + PartialEq>() -> bool {
    &&& obeys_concrete_eq::<T>()
    &&& forall|a: T, b: T| #[trigger] cloned::<T>(a, b) ==> a == b
}

/// The unsigned integers are values, so each of their types can name nodes.
pub proof fn lemma_unsigned_integers_are_values()
    ensures
        value_semantic::<u8>(),
        value_semantic::<u16>(),
        value_semantic::<u32>(),
        value_semantic::<u64>(),
        value_semantic::<u128>(),
        value_semantic::<usize>(),
{
    broadcast use vstd::laws_eq::group_laws_eq;

}

/// Compares two identifiers.
pub(crate) fn same_node<T: Clone + PartialEq>(a: &T, b: &T) -> (r: bool)
    requires
        value_semantic::<T>(),
    ensures
        r == (*a == *b),
{
    proof {
        reveal(obeys_concrete_eq);
    }
    *a == *b
}

/// Copies an identifier.
pub(crate) fn copy_node<T: Clone + PartialEq>(a: &T) -> (r: T)
    requires
        value_semantic::<T>(),
    ensures
        r == *a,
{
    let r = a.clone();
    assert(cloned::<T>(*a, r));
    r
}

} // verus!
