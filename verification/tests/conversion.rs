use risq::bisq::hash::{slot, BisqHash, PersistentMessageHash};
use risq::bisq::payload::{
    BisqHash as ContentHash, OfferPayload, ProtectedStorageEntry, RefreshOfferMessage,
    StoragePayload, StoragePayloadMessage,
};
use risq::domain::conversion::{open_offer, refresh_offer};
use risq::domain::offer::{OfferDirection, OpenOffer};

const SHA256_OF_ABC: [u8; 32] = [
    0xba, 0x78, 0x16, 0xbf, 0x8f, 0x01, 0xcf, 0xea, 0x41, 0x41, 0x40, 0xde, 0x5d, 0xae, 0x22, 0x23,
    0xb0, 0x03, 0x61, 0xa3, 0x96, 0x17, 0x7a, 0x9c, 0xb4, 0x10, 0xff, 0x61, 0xf2, 0x00, 0x15, 0xad,
];

fn entry(direction: i32, sequence_number: i32, creation_time_stamp: i64) -> ProtectedStorageEntry {
    ProtectedStorageEntry {
        storage_payload: Some(StoragePayload {
            message: Some(StoragePayloadMessage::OfferPayload(OfferPayload {
                id: "offer-1".to_string(),
                direction,
            })),
            serialized: b"abc".to_vec(),
        }),
        sequence_number,
        creation_time_stamp,
    }
}

#[test]
fn the_hash_of_a_payload_is_the_digest_of_its_encoding() {
    let payload = StoragePayload { message: None, serialized: b"abc".to_vec() };
    assert_eq!(payload.bisq_hash(), SHA256_OF_ABC.to_vec());
    assert_eq!(payload.bisq_hash().len(), 32);
    let empty = StoragePayload { message: None, serialized: vec![] };
    assert_eq!(empty.bisq_hash()[..4], [0xe3, 0xb0, 0xc4, 0x42]);
}

#[test]
fn an_offer_is_made_of_its_entry() {
    let offer = open_offer(&entry(2, 5, 1_500_000_000_000)).unwrap();
    assert_eq!(
        offer,
        OpenOffer::new(
            BisqHash::from_sha256(SHA256_OF_ABC.to_vec()).unwrap(),
            "offer-1".to_string(),
            OfferDirection::Sell,
            1_500_000_000_000,
            5
        )
    );
    assert_eq!(open_offer(&entry(1, 0, 0)).unwrap().direction, OfferDirection::Buy);
}

#[test]
fn a_time_before_the_epoch_counts_from_the_end() {
    assert_eq!(open_offer(&entry(1, 0, -1)).unwrap().created_at, u64::MAX);
    assert_eq!(open_offer(&entry(1, 0, i64::MIN)).unwrap().created_at, 1 << 63);
    assert_eq!(open_offer(&entry(1, 0, i64::MAX)).unwrap().created_at, i64::MAX as u64);
}

#[test]
fn an_offer_is_made_whatever_its_sequence_number() {
    let offer = open_offer(&entry(1, -1, 0)).unwrap();
    assert_eq!(offer.sequence, u64::MAX);
    assert_eq!(offer.direction, OfferDirection::Buy);
    assert_eq!(offer.id, "offer-1");
    assert_eq!(offer.created_at, 0);
    assert_eq!(offer.bisq_hash, BisqHash::from_sha256(SHA256_OF_ABC.to_vec()).unwrap());
    assert_eq!(open_offer(&entry(2, i32::MIN, 0)).unwrap().sequence, 0xffff_ffff_8000_0000);
    assert_eq!(open_offer(&entry(2, i32::MAX, 0)).unwrap().sequence, i32::MAX as u64);
    assert_eq!(open_offer(&entry(2, 0, 0)).unwrap().sequence, 0);
}

#[test]
fn entries_that_hold_no_offer() {
    assert_eq!(open_offer(&entry(0, 5, 1)), None);
    assert_eq!(open_offer(&entry(3, 5, 1)), None);
    assert_eq!(open_offer(&entry(-1, 5, 1)), None);
    let mut other = entry(1, 5, 1);
    other.storage_payload.as_mut().unwrap().message = Some(StoragePayloadMessage::Other);
    assert_eq!(open_offer(&other), None);
    other.storage_payload.as_mut().unwrap().message = None;
    assert_eq!(open_offer(&other), None);
    other.storage_payload = None;
    assert_eq!(open_offer(&other), None);
}

#[test]
fn a_refresh_is_made_of_its_message() {
    let msg = RefreshOfferMessage { hash_of_payload: vec![9; 32], sequence_number: 4 };
    let refresh = refresh_offer(&msg).unwrap();
    assert_eq!(refresh.sequence, 4);
    assert_eq!(refresh.bisq_hash, BisqHash::from_sha256(vec![9; 32]).unwrap());
    assert_eq!(refresh_offer(&RefreshOfferMessage { hash_of_payload: vec![9; 20], sequence_number: 4 }), None);
    let negative =
        refresh_offer(&RefreshOfferMessage { hash_of_payload: vec![9; 32], sequence_number: -4 })
            .unwrap();
    assert_eq!(negative.sequence, u64::MAX - 3);
    assert_eq!(negative.bisq_hash, BisqHash::from_sha256(vec![9; 32]).unwrap());
    assert_eq!(refresh_offer(&RefreshOfferMessage { hash_of_payload: vec![], sequence_number: 4 }), None);
}

#[test]
fn hashes_have_their_lengths() {
    assert!(BisqHash::from_sha256(vec![0; 32]).is_some());
    assert!(BisqHash::from_sha256(vec![0; 20]).is_none());
    assert!(PersistentMessageHash::from_bytes(vec![0; 20]).is_some());
    assert!(PersistentMessageHash::from_bytes(vec![0; 32]).is_none());
    let sha = BisqHash::from_sha256(vec![1; 32]).unwrap();
    let persistent = BisqHash::Persistent(PersistentMessageHash::from_bytes(vec![1; 20]).unwrap());
    assert!(sha.same(&sha.duplicate()));
    assert!(!sha.same(&persistent));
    assert!(!sha.same(&BisqHash::from_sha256(vec![2; 32]).unwrap()));
    assert!(persistent.same(&persistent.duplicate()));
}

#[test]
fn hashes_are_looked_for_by_their_first_bytes() {
    assert_eq!(slot(&vec![1, 2, 3, 4, 5, 6, 7, 8, 9]), 0x0102_0304_0506_0708);
    assert_eq!(slot(&vec![0xff; 8]), u64::MAX);
    assert_eq!(slot(&vec![0; 32]), 0);
    assert_eq!(slot(&vec![1, 2, 3, 4, 5, 6, 7]), 0);
    assert_eq!(slot(&vec![]), 0);
    let sha = BisqHash::from_sha256(vec![5; 32]).unwrap();
    assert_eq!(sha.bytes(), &vec![5; 32]);
    let persistent = BisqHash::Persistent(PersistentMessageHash::from_bytes(vec![6; 20]).unwrap());
    assert_eq!(persistent.bytes(), &vec![6; 20]);
}
