//! Core of a live-media relay: the stream write loop, the track broadcast
//! model, and the per-connection engine that serves announces.

pub mod broadcast;
pub mod coding;
pub mod relay;
pub mod roles;
pub mod session;
