//! The two roles that drive a track: a producer that fills it with objects
//! and a consumer that turns what it reads into lines of text.

pub mod consumer;
pub mod producer;
pub mod text;
