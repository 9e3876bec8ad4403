//! A single binary linear classifier (a Rosenblatt perceptron): inference,
//! one-sample online weight update, random construction with bounded
//! initial weights, and bit-exact encoding of the model state.
//!
//! Every binary64 value is carried as the `u64` holding its bit pattern,
//! so that the update rule, the validation order and the persisted layout
//! can be stated and checked exactly.

pub mod arith;
pub mod neuron;
pub mod serializer;
