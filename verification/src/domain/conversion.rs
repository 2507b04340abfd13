//! From what comes over the wire to what the offer book takes.

use crate::bisq::hash::{sha256_digest, BisqHash, HashModel, SHA256_LEN};
use crate::bisq::payload::{
    BisqHash as ContentHash, ProtectedStorageEntry, RefreshOfferMessage, StoragePayloadMessage,
};
use crate::domain::offer::{OfferDirection, OfferModel, OpenOffer, RefreshOffer};
use vstd::prelude::*;

verus! {

/// The number that stands for an offer to buy.
pub const DIRECTION_BUY: i32 = 1;

/// The number that stands for an offer to sell.
pub const DIRECTION_SELL: i32 = 2;

/// The direction that a number stands for, if it stands for one.
pub open spec fn direction_of(number: i32) -> Option<OfferDirection> {
    if number == DIRECTION_BUY {
        Some(OfferDirection::Buy)
    } else if number == DIRECTION_SELL {
        Some(OfferDirection::Sell)
    } else {
        None
    }
}

/// A signed number of the wire as an unsigned number of 64 bits. A number
/// that is not negative stands for itself; a negative one counts from the
/// end of the 64 bits, as a cast does. No number is turned away.
pub open spec fn unsigned_of(number: i64) -> u64 {
    if number >= 0 {
        number as u64
    } else {
        (number + 0x1_0000_0000_0000_0000) as u64
    }
}

/// A time stamp of the wire as milliseconds since the epoch.
pub open spec fn millis_of(time_stamp: i64) -> u64 {
    unsigned_of(time_stamp)
}

/// A sequence number of the wire as the offer book counts it. The wire's 32
/// bits are taken as the time stamp's 64 are.
pub open spec fn sequence_of(sequence_number: i32) -> u64 {
    unsigned_of(sequence_number as i64)
}

fn unsigned(number: i64) -> (unsigned: u64)
    ensures
        unsigned == unsigned_of(number),
{
    if number >= 0 {
        number as u64
    } else {
        ((number - i64::MIN) as u64) + 0x8000_0000_0000_0000
    }
}

/// The word to the offer book that a message carries, where the hash in it
/// has the length of a hash.
pub open spec fn refresh_in(msg: RefreshOfferMessage) -> Option<(u64, HashModel)> {
    if msg.hash_of_payload@.len() == SHA256_LEN {
        Some((sequence_of(msg.sequence_number), HashModel::Sha256(msg.hash_of_payload@)))
    } else {
        None
    }
}

pub fn refresh_offer(msg: &RefreshOfferMessage) -> (refresh: Option<RefreshOffer>)
    ensures
        match refresh_in(*msg) {
            Some((sequence, hash)) => {
                &&& refresh is Some
                &&& refresh->0.sequence == sequence
                &&& refresh->0.bisq_hash@ == hash
                &&& hash.wf()
            },
            None => refresh is None,
        },
{
    match BisqHash::from_sha256(crate::bisq::hash::copy_bytes(&msg.hash_of_payload)) {
        Some(bisq_hash) => Some(
            RefreshOffer { sequence: unsigned(msg.sequence_number as i64), bisq_hash },
        ),
        None => None,
    }
}

/// The offer that an entry holds: there is one exactly where the entry
/// holds an offer's payload whose direction is to buy or to sell. The offer
/// is known by the hash of its payload's canonical encoding.
pub open spec fn offer_in(entry: ProtectedStorageEntry) -> Option<OfferModel> {
    match entry.storage_payload {
        Some(storage_payload) => match storage_payload.message {
            Some(StoragePayloadMessage::OfferPayload(payload)) => match direction_of(
                payload.direction,
            ) {
                Some(direction) => Some(
                    OfferModel {
                        hash: HashModel::Sha256(sha256_digest(storage_payload.serialized@)),
                        id: payload.id@,
                        direction,
                        created_at: millis_of(entry.creation_time_stamp),
                        sequence: sequence_of(entry.sequence_number),
                    },
                ),
                None => None,
            },
            _ => None,
        },
        None => None,
    }
}

pub fn open_offer(entry: &ProtectedStorageEntry) -> (offer: Option<OpenOffer>)
    ensures
        match offer_in(*entry) {
            Some(model) => offer is Some && offer->0@ == model && model.hash.wf(),
            None => offer is None,
        },
{
    let created_at = unsigned(entry.creation_time_stamp);
    let storage_payload = match &entry.storage_payload {
        Some(storage_payload) => storage_payload,
        None => {
            return None;
        },
    };
    let hash = BisqHash::Sha256(storage_payload.bisq_hash());
    if let Some(StoragePayloadMessage::OfferPayload(payload)) = &storage_payload.message {
        let direction = if payload.direction == DIRECTION_BUY {
            OfferDirection::Buy
        } else if payload.direction == DIRECTION_SELL {
            OfferDirection::Sell
        } else {
            return None;
        };
        Some(
            OpenOffer::new(
                hash,
                payload.id.clone(),
                direction,
                created_at,
                unsigned(entry.sequence_number as i64),
            ),
        )
    } else {
        None
    }
}

/// An entry holds an offer exactly where it holds an offer's payload whose
/// direction is to buy or to sell, whatever its sequence number and its
/// time stamp; a message refreshes an offer exactly where its hash has the
/// length of a hash.
pub proof fn law_every_offer_is_made(entry: ProtectedStorageEntry, msg: RefreshOfferMessage)
    ensures
        offer_in(entry) is Some <==> {
            &&& entry.storage_payload is Some
            &&& entry.storage_payload->0.message matches Some(
                StoragePayloadMessage::OfferPayload(payload),
            )
            &&& direction_of(payload.direction) is Some
        },
        refresh_in(msg) is Some <==> msg.hash_of_payload@.len() == SHA256_LEN,
{
}

} // verus!
