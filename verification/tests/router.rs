use risq::bisq::hash::{BisqHash, PersistentMessageHash};
use risq::bisq::payload::{
    AddDataMessage, AddPersistableNetworkPayloadMessage, Extract, GetDataResponse, Message,
    OfferPayload, PayloadExtractor, PersistableNetworkPayload, PersistableNetworkPayloadMessage,
    Ping, ProtectedMailboxStorageEntry, ProtectedStorageEntry, RefreshOfferMessage,
    StorageEntryWrapper, StorageEntryWrapperMessage, StoragePayload, StoragePayloadMessage,
};
use risq::connection::ConnectionId;
use risq::daemon::data_router::{Broadcast, Command, DataRouter, DataRouterDispatch, Routed};
use risq::domain::amount::NumberWithPrecision;
use risq::domain::market::Market;
use risq::domain::offer::OfferDirection;
use risq::domain::statistics::trade::Trade;
use risq::domain::CommandResult;
use risq::error::Error;

fn offer_entry(id: &str, serialized: Vec<u8>) -> ProtectedStorageEntry {
    ProtectedStorageEntry {
        storage_payload: Some(StoragePayload {
            message: Some(StoragePayloadMessage::OfferPayload(OfferPayload {
                id: id.to_string(),
                direction: 1,
            })),
            serialized,
        }),
        sequence_number: 3,
        creation_time_stamp: 1_000,
    }
}

fn wrapper(entry: ProtectedStorageEntry) -> StorageEntryWrapper {
    StorageEntryWrapper { message: Some(StorageEntryWrapperMessage::ProtectedStorageEntry(entry)) }
}

fn add_data(id: &str, serialized: Vec<u8>) -> AddDataMessage {
    AddDataMessage { entry: Some(wrapper(offer_entry(id, serialized))) }
}

fn trade(hash: Vec<u8>) -> Trade {
    Trade {
        market: Market { index: 2 },
        direction: OfferDirection::Sell,
        offer_id: "offer".to_string(),
        price: NumberWithPrecision::new(10, 0),
        amount: NumberWithPrecision::new(2, 0),
        volume: NumberWithPrecision::new(20, 0),
        payment_method_id: "SEPA".to_string(),
        timestamp: 77,
        hash: PersistentMessageHash::from_bytes(hash).unwrap(),
    }
}

fn payload(hash: Vec<u8>) -> PersistableNetworkPayload {
    PersistableNetworkPayload {
        message: Some(PersistableNetworkPayloadMessage::TradeStatistics2(Some(trade(hash.clone())))),
        hash,
    }
}

#[test]
fn the_same_data_from_two_peers_is_routed_once() {
    let a = ConnectionId(0xA);
    let b = ConnectionId(0xB);
    let mut router = DataRouter::start();
    let routed = router.handle(a, DataRouterDispatch::AddData(add_data("one", vec![1, 2, 3])), 10);
    assert_eq!(routed.len(), 1);
    match &routed[0].command {
        Command::AddOffer(offer) => {
            assert_eq!(offer.id, "one");
            assert_eq!(offer.direction, OfferDirection::Buy);
            assert_eq!(offer.created_at, 1_000);
            assert_eq!(offer.sequence, 3);
        }
        other => panic!("unexpected command {:?}", other),
    }
    assert_eq!(
        routed[0].rebroadcast,
        Some(Broadcast(Message::AddDataMessage(add_data("one", vec![1, 2, 3])), Some(a)))
    );
    let again = router.handle(b, DataRouterDispatch::AddData(add_data("one", vec![1, 2, 3])), 20);
    assert!(again.is_empty());
}

#[test]
fn data_is_known_by_the_hash_of_its_encoding() {
    let mut router = DataRouter::start();
    let a = ConnectionId(1);
    assert_eq!(router.handle(a, DataRouterDispatch::AddData(add_data("one", vec![1])), 1).len(), 1);
    assert_eq!(router.handle(a, DataRouterDispatch::AddData(add_data("two", vec![1])), 2).len(), 0);
    assert_eq!(router.handle(a, DataRouterDispatch::AddData(add_data("one", vec![2])), 3).len(), 1);
}

#[test]
fn what_a_seed_node_gave_is_not_passed_on() {
    let mut router = DataRouter::start();
    let dispatch = DataRouterDispatch::Bootstrap(
        vec![wrapper(offer_entry("one", vec![1]))],
        vec![],
    );
    let routed = router.handle(ConnectionId(5), dispatch, 1);
    assert_eq!(routed.len(), 1);
    assert!(matches!(routed[0].command, Command::AddOffer(_)));
    assert_eq!(routed[0].rebroadcast, None);
    let Routed { rebroadcast, .. } = routed.into_iter().next().unwrap();
    assert_eq!(DataRouter::handle_command_result(rebroadcast, Ok(CommandResult::Accepted)), None);
}

#[test]
fn what_a_seed_node_gave_is_routed_in_order_and_once() {
    let mut router = DataRouter::start();
    let dispatch = DataRouterDispatch::Bootstrap(
        vec![
            wrapper(offer_entry("one", vec![1])),
            wrapper(offer_entry("again", vec![1])),
            StorageEntryWrapper {
                message: Some(StorageEntryWrapperMessage::ProtectedMailboxStorageEntry(
                    ProtectedMailboxStorageEntry { entry: Some(offer_entry("two", vec![2])) },
                )),
            },
            StorageEntryWrapper { message: None },
        ],
        vec![payload(vec![7; 20]), payload(vec![7; 20]), payload(vec![8; 20]), payload_with_bad_hash()],
    );
    let routed = router.handle(ConnectionId(5), dispatch, 1);
    assert_eq!(routed.len(), 4);
    assert!(routed.iter().all(|r| r.rebroadcast.is_none()));
    match (&routed[0].command, &routed[1].command, &routed[2].command, &routed[3].command) {
        (Command::AddOffer(one), Command::AddOffer(two), Command::AddTrade(first), Command::AddTrade(second)) => {
            assert_eq!(one.id, "one");
            assert_eq!(two.id, "two");
            assert_eq!(first.hash.bytes(), &vec![7; 20]);
            assert_eq!(second.hash.bytes(), &vec![8; 20]);
        }
        other => panic!("unexpected commands {:?}", other),
    }
    let later = router.handle(ConnectionId(6), DataRouterDispatch::AddData(add_data("one", vec![2])), 9);
    assert!(later.is_empty());
}

#[test]
fn a_trade_goes_to_the_statistics_and_on_to_the_peers() {
    let mut router = DataRouter::start();
    let origin = ConnectionId(3);
    let msg = || AddPersistableNetworkPayloadMessage { payload: Some(payload(vec![4; 20])) };
    let routed = router.handle(origin, DataRouterDispatch::AddPersistableNetworkPayload(msg()), 1);
    assert_eq!(routed.len(), 1);
    assert_eq!(routed[0].command, Command::AddTrade(trade(vec![4; 20])));
    assert_eq!(
        routed[0].rebroadcast,
        Some(Broadcast(Message::AddPersistableNetworkPayloadMessage(msg()), Some(origin)))
    );
    let again = router.handle(ConnectionId(4), DataRouterDispatch::AddPersistableNetworkPayload(msg()), 2);
    assert!(again.is_empty());
}

#[test]
fn a_payload_without_a_proper_hash_is_dropped() {
    let mut router = DataRouter::start();
    let msg = AddPersistableNetworkPayloadMessage { payload: Some(payload_with_bad_hash()) };
    assert!(router.handle(ConnectionId(3), DataRouterDispatch::AddPersistableNetworkPayload(msg), 1).is_empty());
    let msg = AddPersistableNetworkPayloadMessage { payload: None };
    assert!(router.handle(ConnectionId(3), DataRouterDispatch::AddPersistableNetworkPayload(msg), 1).is_empty());
}

fn payload_with_bad_hash() -> PersistableNetworkPayload {
    PersistableNetworkPayload {
        message: Some(PersistableNetworkPayloadMessage::TradeStatistics2(Some(trade(vec![1; 20])))),
        hash: vec![1; 21],
    }
}

#[test]
fn data_of_other_kinds_is_remembered_and_asks_for_nothing() {
    let mut router = DataRouter::start();
    let entry = ProtectedStorageEntry {
        storage_payload: Some(StoragePayload {
            message: Some(StoragePayloadMessage::Other),
            serialized: vec![5],
        }),
        sequence_number: 1,
        creation_time_stamp: 1,
    };
    let data = AddDataMessage { entry: Some(wrapper(entry)) };
    assert!(router.handle(ConnectionId(1), DataRouterDispatch::AddData(data), 1).is_empty());
    let hash = BisqHash::from_sha256(
        risq::bisq::payload::BisqHash::bisq_hash(&StoragePayload { message: None, serialized: vec![5] }),
    )
    .unwrap();
    assert!(router.was_delivered(&hash));
    assert!(router.handle(ConnectionId(1), DataRouterDispatch::AddData(add_data("x", vec![5])), 2).is_empty());
}

#[test]
fn a_refresh_is_not_held_back() {
    let mut router = DataRouter::start();
    let origin = ConnectionId(8);
    let msg = || RefreshOfferMessage { hash_of_payload: vec![3; 32], sequence_number: 12 };
    for _ in 0..2 {
        let routed = router.handle(origin, DataRouterDispatch::RefreshOffer(msg()), 1);
        assert_eq!(routed.len(), 1);
        match &routed[0].command {
            Command::RefreshOffer(refresh) => {
                assert_eq!(refresh.sequence, 12);
                assert_eq!(refresh.bisq_hash, BisqHash::from_sha256(vec![3; 32]).unwrap());
            }
            other => panic!("unexpected command {:?}", other),
        }
        assert_eq!(
            routed[0].rebroadcast,
            Some(Broadcast(Message::RefreshOfferMessage(msg()), Some(origin)))
        );
    }
}

#[test]
fn a_refresh_without_a_proper_hash_is_dropped() {
    let mut router = DataRouter::start();
    let msg = RefreshOfferMessage { hash_of_payload: vec![3; 31], sequence_number: 12 };
    assert!(router.handle(ConnectionId(8), DataRouterDispatch::RefreshOffer(msg), 1).is_empty());
    let msg = RefreshOfferMessage { hash_of_payload: vec![], sequence_number: 12 };
    assert!(router.handle(ConnectionId(8), DataRouterDispatch::RefreshOffer(msg), 1).is_empty());
}

#[test]
fn a_refresh_is_sent_whatever_its_sequence_number() {
    let mut router = DataRouter::start();
    let origin = ConnectionId(8);
    let msg = || RefreshOfferMessage { hash_of_payload: vec![3; 32], sequence_number: -1 };
    let routed = router.handle(origin, DataRouterDispatch::RefreshOffer(msg()), 1);
    assert_eq!(routed.len(), 1);
    match &routed[0].command {
        Command::RefreshOffer(refresh) => {
            assert_eq!(refresh.sequence, u64::MAX);
            assert_eq!(refresh.bisq_hash, BisqHash::from_sha256(vec![3; 32]).unwrap());
        }
        other => panic!("unexpected command {:?}", other),
    }
    assert_eq!(
        routed[0].rebroadcast,
        Some(Broadcast(Message::RefreshOfferMessage(msg()), Some(origin)))
    );
}

#[test]
fn an_offer_is_routed_whatever_its_sequence_number() {
    let negative = |id: &str, serialized: Vec<u8>| {
        let mut entry = offer_entry(id, serialized);
        entry.sequence_number = -1;
        entry.creation_time_stamp = 0;
        AddDataMessage { entry: Some(wrapper(entry)) }
    };
    let a = ConnectionId(0xA);
    let b = ConnectionId(0xB);
    let mut router = DataRouter::start();
    let routed = router.handle(a, DataRouterDispatch::AddData(negative("one", vec![1])), 10);
    assert_eq!(routed.len(), 1);
    match &routed[0].command {
        Command::AddOffer(offer) => {
            assert_eq!(offer.id, "one");
            assert_eq!(offer.sequence, u64::MAX);
            assert_eq!(offer.created_at, 0);
        }
        other => panic!("unexpected command {:?}", other),
    }
    assert_eq!(
        routed[0].rebroadcast,
        Some(Broadcast(Message::AddDataMessage(negative("one", vec![1])), Some(a)))
    );
    assert!(router.handle(b, DataRouterDispatch::AddData(negative("one", vec![1])), 20).is_empty());

    let mut router = DataRouter::start();
    let mut entry = offer_entry("two", vec![2]);
    entry.sequence_number = i32::MIN;
    let routed =
        router.handle(a, DataRouterDispatch::Bootstrap(vec![wrapper(entry)], vec![]), 10);
    assert_eq!(routed.len(), 1);
    match &routed[0].command {
        Command::AddOffer(offer) => {
            assert_eq!(offer.id, "two");
            assert_eq!(offer.sequence, 0xffff_ffff_8000_0000);
        }
        other => panic!("unexpected command {:?}", other),
    }
    assert_eq!(routed[0].rebroadcast, None);
}

#[test]
fn a_message_is_passed_on_only_after_it_was_accepted() {
    let broadcast = || Some(Broadcast(Message::Ping(Ping { nonce: 1, last_round_trip_time: 0 }), Some(ConnectionId(1))));
    assert_eq!(DataRouter::handle_command_result(broadcast(), Ok(CommandResult::Accepted)), broadcast());
    assert_eq!(DataRouter::handle_command_result(broadcast(), Ok(CommandResult::Ignored)), None);
    assert_eq!(DataRouter::handle_command_result(broadcast(), Err(Error::MailboxClosed)), None);
    assert_eq!(DataRouter::ignore_command_result(), None);
}

#[test]
fn dispatches_are_taken_out_of_messages() {
    let response = GetDataResponse {
        request_nonce: 1,
        is_get_updated_data_response: true,
        data_set: vec![wrapper(offer_entry("one", vec![1]))],
        supported_capabilities: vec![],
        persistable_network_payload_items: vec![payload(vec![1; 20])],
    };
    assert_eq!(
        <DataRouterDispatch as PayloadExtractor>::extract(Message::GetDataResponse(response)),
        Extract::Succeeded(DataRouterDispatch::Bootstrap(
            vec![wrapper(offer_entry("one", vec![1]))],
            vec![payload(vec![1; 20])]
        ))
    );
    assert_eq!(
        <DataRouterDispatch as PayloadExtractor>::extract(Message::AddDataMessage(add_data("a", vec![]))),
        Extract::Succeeded(DataRouterDispatch::AddData(add_data("a", vec![])))
    );
    let ping = || Message::Ping(Ping { nonce: 1, last_round_trip_time: 0 });
    assert_eq!(<DataRouterDispatch as PayloadExtractor>::extract(ping()), Extract::Failed(ping()));
}

#[test]
fn hashes_that_begin_alike_are_told_apart() {
    let mut router = DataRouter::start();
    let mut first = vec![9; 20];
    let mut second = vec![9; 20];
    first[19] = 1;
    second[19] = 2;
    let msg = |hash: &Vec<u8>| AddPersistableNetworkPayloadMessage { payload: Some(payload(hash.clone())) };
    let origin = ConnectionId(1);
    assert_eq!(router.handle(origin, DataRouterDispatch::AddPersistableNetworkPayload(msg(&first)), 1).len(), 1);
    assert_eq!(router.handle(origin, DataRouterDispatch::AddPersistableNetworkPayload(msg(&second)), 2).len(), 1);
    assert_eq!(router.handle(origin, DataRouterDispatch::AddPersistableNetworkPayload(msg(&first)), 3).len(), 0);
    assert_eq!(router.handle(origin, DataRouterDispatch::AddPersistableNetworkPayload(msg(&second)), 4).len(), 0);
    let sha = BisqHash::from_sha256(vec![9; 32]).unwrap();
    assert!(!router.was_delivered(&sha));
    assert!(router.was_delivered(&BisqHash::Persistent(PersistentMessageHash::from_bytes(first).unwrap())));
}
