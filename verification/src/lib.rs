//! A feedforward neural network over an arbitrary scalar type: vector
//! arithmetic, the forward pass, backpropagation and mini-batch gradient
//! descent, with the shape of every layer and the value of every result stated
//! and proved.

pub mod error;
pub mod functions;
pub mod network;
pub mod scalar;
pub mod utils;
