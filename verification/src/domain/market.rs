//! Markets, as the statistics see them.

use vstd::prelude::*;

verus! {

/// A market, named by its place in the table of all markets. The table is
/// ordered by the markets' pairs, so the order of the places is the order of
/// the pairs.
#[derive(Clone, Copy, Debug, PartialEq, Eq, Structural, Hash)]
pub struct Market {
    pub index: u32,
}

} // verus!
