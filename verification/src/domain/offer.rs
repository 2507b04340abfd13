//! Offers, as the offer book takes them.

use crate::bisq::hash::{BisqHash, HashModel};
use vstd::prelude::*;

verus! {

#[derive(Clone, Copy, Debug, PartialEq, Eq, Structural)]
pub enum OfferDirection {
    Buy,
    Sell,
}

/// An offer that is open. The time of its making is in milliseconds since
/// the epoch.
#[derive(Debug, PartialEq)]
pub struct OpenOffer {
    pub bisq_hash: BisqHash,
    pub id: String,
    pub direction: OfferDirection,
    pub created_at: u64,
    pub sequence: u64,
}

/// What an open offer holds, as plain values.
pub struct OfferModel {
    pub hash: HashModel,
    pub id: Seq<char>,
    pub direction: OfferDirection,
    pub created_at: u64,
    pub sequence: u64,
}

impl View for OpenOffer {
    type V = OfferModel;

    open spec fn view(&self) -> OfferModel {
        OfferModel {
            hash: self.bisq_hash@,
            id: self.id@,
            direction: self.direction,
            created_at: self.created_at,
            sequence: self.sequence,
        }
    }
}

impl OpenOffer {
    pub fn new(
        bisq_hash: BisqHash,
        id: String,
        direction: OfferDirection,
        created_at: u64,
        sequence: u64,
    ) -> (offer: OpenOffer)
        ensures
            offer@ == (OfferModel {
                hash: bisq_hash@,
                id: id@,
                direction,
                created_at,
                sequence,
            }),
    {
        OpenOffer { bisq_hash, id, direction, created_at, sequence }
    }
}

/// The word to the offer book that an offer is still open.
#[derive(Debug, PartialEq)]
pub struct RefreshOffer {
    pub sequence: u64,
    pub bisq_hash: BisqHash,
}

} // verus!
