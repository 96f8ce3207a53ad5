//! What a session does with one of its streams.

pub mod error;
pub mod writer;
