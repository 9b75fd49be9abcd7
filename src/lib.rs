//! A fully connected feed-forward network with one hidden layer, trained by
//! online gradient descent, generic over the number type it computes with.
//!
//! - `layout`: the three layer sizes and the checks on vector lengths.
//! - `matrix`: row-by-row matrices with checked two-index access.
//! - `network`: the network, its forward pass, training step and prediction.
//! - `shuffle`: one Fisher-Yates pass applied alike to inputs and targets.

pub mod layout;
pub mod matrix;
pub mod network;
pub mod shuffle;
