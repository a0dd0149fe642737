//! The key deriver: how the cache key comes from the inputs of a call.
//!
//! The inputs are taken by reference, so deriving a key leaves them to the
//! computation as they were.

use vstd::prelude::*;
use vstd::std_specs::cmp::PartialEqSpec;

verus! {

/// Whether `==` on values of type `K` says exactly whether two of them are
/// the same value: what a cache asks of its keys. It holds of the integers,
/// of `bool`, and of tuples and options of types of which it holds.
pub open spec fn exact_eq<K: PartialEq>() -> bool {
    &&& K::obeys_eq_spec()
    &&& forall|a: K, b: K| #[trigger] a.eq_spec(&b) <==> a == b
}

/// Whether a clone of a `T` always equals what it was cloned from.
pub open spec fn faithful_clone<T: Clone>() -> bool {
    forall|a: T, b: T| #[trigger] cloned(a, b) ==> a == b
}

/// The default strategy: the key of an input is a clone of it. The key of a
/// call with several inputs is the tuple of their keys, each in its place.
pub fn default_key<A: Clone>(input: &A) -> (key: A)
    ensures
        cloned(*input, key),
{
    input.clone()
}

/// The custom strategy: the key is what `convert` makes of the inputs.
pub fn custom_key<A, K, D: FnOnce(&A) -> K>(inputs: &A, convert: D) -> (key: K)
    requires
        convert.requires((inputs,)),
    ensures
        convert.ensures((inputs,), key),
{
    convert(inputs)
}

/// Under the default strategy, inputs with a faithful clone that differ give
/// keys that differ.
pub proof fn lemma_default_key_tells_inputs_apart<A: Clone>(a: A, b: A, key_a: A, key_b: A)
    requires
        faithful_clone::<A>(),
        cloned(a, key_a),
        cloned(b, key_b),
        a != b,
    ensures
        key_a != key_b,
{
}

/// Under the default strategy, two calls whose inputs differ in any place
/// have keys that differ, here for calls with two inputs: the key of each
/// call is the pair of the clones of its inputs.
pub proof fn lemma_default_keys_differ_by_any_place<A: Clone, B: Clone>(
    a: (A, B),
    b: (A, B),
    key_a: (A, B),
    key_b: (A, B),
)
    requires
        faithful_clone::<A>(),
        faithful_clone::<B>(),
        cloned(a.0, key_a.0),
        cloned(a.1, key_a.1),
        cloned(b.0, key_b.0),
        cloned(b.1, key_b.1),
        a.0 != b.0 || a.1 != b.1,
    ensures
        key_a != key_b,
{
}

} // verus!
