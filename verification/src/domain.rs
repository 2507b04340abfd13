//! The exchange's domain: amounts, markets, offers and trade statistics.

use vstd::prelude::*;

pub mod amount;
pub mod conversion;
pub mod decimal;
pub mod market;
pub mod offer;
pub mod statistics;

verus! {

/// What became of a command that was sent to a holder of data.
#[derive(Clone, Copy, Debug, PartialEq, Eq, Structural)]
pub enum CommandResult {
    Accepted,
    Ignored,
}

} // verus!
