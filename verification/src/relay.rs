//! The per-connection engine: it accepts announces, serves each of them, and
//! relays subscribe requests. The engine decides; the caller performs what
//! it decides and reports back what happened.

pub mod consumer;
pub mod invariants;
pub mod listen;
pub mod serve;
pub mod task;
