//! The functions a network is parameterised by: how a weight is first drawn,
//! how a layer is activated, how an error is measured and how an input is
//! normalized. Each is a record that holds the function as a value, so that a
//! network can be given any function with the right shape.

pub mod activation;
pub mod cost;
pub mod input_normalizations;
pub mod weight_init;

use vstd::prelude::*;

verus! {

/// `f` may be called on every vector and returns a vector of the same length.
pub open spec fn keeps_length<T, F: Fn(&Vec<T>) -> Vec<T>>(f: F) -> bool {
    &&& forall|v: Vec<T>| #[trigger] call_requires(f, (&v,))
    &&& forall|v: Vec<T>, out: Vec<T>| #[trigger]
        call_ensures(f, (&v,), out) ==> out.len() == v.len()
}

/// `f` may be called on every two vectors of one length.
pub open spec fn takes_pairs<T, U, F: Fn(&Vec<T>, &Vec<T>) -> U>(f: F) -> bool {
    forall|a: Vec<T>, b: Vec<T>| a.len() == b.len() ==> #[trigger] call_requires(f, (&a, &b))
}

/// `f` returns a vector as long as its first argument.
pub open spec fn keeps_first_length<T, F: Fn(&Vec<T>, &Vec<T>) -> Vec<T>>(f: F) -> bool {
    forall|a: Vec<T>, b: Vec<T>, out: Vec<T>| #[trigger]
        call_ensures(f, (&a, &b), out) ==> out.len() == a.len()
}

/// `f` may be called on every count of at least one.
pub open spec fn takes_counts<T, F: Fn(usize) -> T>(f: F) -> bool {
    forall|n: usize| n >= 1 ==> #[trigger] call_requires(f, (n,))
}

/// `f` is a function of the entries of its argument: equal vectors give equal
/// results.
pub open spec fn pure_map<T, F: Fn(&Vec<T>) -> Vec<T>>(f: F) -> bool {
    forall|v1: Vec<T>, v2: Vec<T>, out1: Vec<T>, out2: Vec<T>|
        v1@ == v2@ && #[trigger] call_ensures(f, (&v1,), out1) && #[trigger] call_ensures(
            f,
            (&v2,),
            out2,
        ) ==> out1@ == out2@
}

} // verus!
