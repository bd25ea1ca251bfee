//! What the library reports when it turns a request down.

use vstd::prelude::*;

verus! {

/// A network was asked for with parts that do not fit together.
#[derive(Debug, Clone, Copy, PartialEq, Eq, Structural)]
pub enum ConfigError {
    /// The number of activation functions is not the number of hidden layers plus
    /// one, for the output layer.
    ActivationCount { hidden_layers: usize, activations: usize },
    /// Nothing feeds the layer with this index, so the initializer of its weights
    /// would be asked for a weight with no incoming connection. Layer 0 is the
    /// first layer after the input and is fed by the input.
    ZeroFanIn { layer: usize },
}

/// Two vectors that must agree in length do not.
#[derive(Debug, Clone, Copy, PartialEq, Eq, Structural)]
pub enum ShapeError {
    /// The two operands of a vector operation differ in length.
    LengthMismatch { left: usize, right: usize },
    /// An input vector is not as long as the input layer.
    InputLength { expected: usize, found: usize },
    /// An expected-output vector is not as long as the output layer.
    OutputLength { expected: usize, found: usize },
}

/// The greatest or the least of some values cannot be named.
#[derive(Debug, Clone, Copy, PartialEq, Eq, Structural)]
pub enum SelectError {
    /// There is no value to choose from.
    NoOutput,
    /// The value at this index cannot be compared with the greatest or least of
    /// the values before it, as when one of the two is not a number.
    Unordered { index: usize },
}

} // verus!
