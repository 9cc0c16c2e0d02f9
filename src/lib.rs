//! Elementwise arithmetic over encrypted 64-bit integers, with a choice
//! between a parallel and a sequential schedule.
//!
//! The left operand is broadcast over a sequence of right operands; each
//! position is combined with one homomorphic operator and the results come
//! back in the positional order of the right operands, whatever the mode.
pub mod mode;
pub mod clear;
pub mod dispatch;
pub mod laws;
pub mod cipher;
