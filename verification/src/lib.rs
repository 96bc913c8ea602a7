//! Gate Learner: the verified part of a multilayer-perceptron engine that learns
//! N-input logic gates. This crate holds the integer logic: truth tables of the
//! OR and XOR gates, the architecture rules of a network, the shapes of its
//! training buffers, and the error type.

pub mod error;
pub mod text;
pub mod dataset;
pub mod network;
pub mod buffers;
pub mod cli;
