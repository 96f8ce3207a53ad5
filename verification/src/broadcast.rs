//! The track broadcast model: the buffer that one producer fills and many
//! consumers drain, under one of four delivery modes.

pub mod guarantees;
pub mod payload;
pub mod track;
pub mod tracks;
