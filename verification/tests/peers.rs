use risq::bisq::payload::MessageVersion;
use risq::connection::ConnectionId;
use risq::peers::Peers;

fn targets<H>(peers: &Peers<H>, except: Option<ConnectionId>) -> Vec<ConnectionId> {
    let mut targets = peers.broadcast(except);
    targets.sort_by_key(|id| id.0);
    targets
}

fn peers() -> Peers<&'static str> {
    let mut peers = Peers::start(MessageVersion(10));
    peers.add(ConnectionId(1), "one");
    peers.add(ConnectionId(2), "two");
    peers.add(ConnectionId(3), "three");
    peers
}

#[test]
fn a_message_goes_to_all_but_the_one_it_came_from() {
    let peers = peers();
    assert_eq!(targets(&peers, Some(ConnectionId(2))), vec![ConnectionId(1), ConnectionId(3)]);
    assert_eq!(
        targets(&peers, None),
        vec![ConnectionId(1), ConnectionId(2), ConnectionId(3)]
    );
    assert_eq!(
        targets(&peers, Some(ConnectionId(9))),
        vec![ConnectionId(1), ConnectionId(2), ConnectionId(3)]
    );
}

#[test]
fn a_peer_that_left_gets_nothing() {
    let mut peers = peers();
    assert_eq!(peers.remove(ConnectionId(1)), Some("one"));
    assert_eq!(peers.remove(ConnectionId(1)), None);
    assert_eq!(targets(&peers, Some(ConnectionId(2))), vec![ConnectionId(3)]);
    assert_eq!(peers.get(ConnectionId(1)), None);
    assert_eq!(peers.get(ConnectionId(3)), Some(&"three"));
}

#[test]
fn a_peer_under_a_known_name_takes_the_place() {
    let mut peers = peers();
    peers.add(ConnectionId(2), "other");
    assert_eq!(peers.get(ConnectionId(2)), Some(&"other"));
    assert_eq!(
        targets(&peers, None),
        vec![ConnectionId(1), ConnectionId(2), ConnectionId(3)]
    );
    assert_eq!(peers.message_version(), MessageVersion(10));
}

#[test]
fn nobody_is_there_at_the_start() {
    let peers: Peers<u8> = Peers::start(MessageVersion(10));
    assert!(targets(&peers, None).is_empty());
}
