//! The messages of the network and what belongs to them.

pub mod constants;
pub mod correlation;
pub mod hash;
pub mod payload;
