//! How the weights of a layer are first drawn.

use crate::functions::takes_counts;
use vstd::prelude::*;

verus! {

/// How the first value of a weight is drawn, from the number of connections
/// that arrive at its neuron.
pub struct InitFn<'a, I> {
    pub function: I,
    pub description: &'a str,
    /// latex formula
    pub formula: &'a str,
}

impl<'a, I> InitFn<'a, I> {
    /// The function may be called on every count of at least one.
    pub open spec fn fits<T>(&self) -> bool where I: Fn(usize) -> T {
        takes_counts::<T, I>(self.function)
    }
}

} // verus!
