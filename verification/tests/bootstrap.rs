use risq::bisq::constants::BaseCurrencyNetwork;
use risq::bisq::payload::{
    gen_nonce, GetDataResponse, GetUpdatedDataRequest, Message, MessageVersion, NodeAddress,
    PreliminaryGetDataRequest,
};
use risq::bootstrap::{
    execute, select_seed, Bootstrap, BootstrapAction, BootstrapEvent, BootstrapResult,
    BootstrapState, Config, GetDataResponseListener,
};
use risq::daemon::data_router::DataRouterDispatch;
use risq::error::Error;

fn address(port: u16) -> NodeAddress {
    NodeAddress { host_name: "seed.example".to_string(), port }
}

fn config() -> Config {
    Config {
        network: BaseCurrencyNetwork::Regtest,
        local_node_address: address(9999),
        supported_capabilities: vec![0, 1, 2],
    }
}

fn response(request_nonce: i32) -> GetDataResponse {
    GetDataResponse {
        request_nonce,
        is_get_updated_data_response: false,
        data_set: vec![],
        supported_capabilities: vec![],
        persistable_network_payload_items: vec![],
    }
}

#[test]
fn a_response_to_something_else_is_passed_over() {
    let mut bootstrap = Bootstrap::new(config(), 42, 43);
    assert_eq!(bootstrap.state(), BootstrapState::Connecting);
    let first = bootstrap.step(BootstrapEvent::Connected);
    assert_eq!(
        first,
        BootstrapAction::Send(Message::PreliminaryGetDataRequest(PreliminaryGetDataRequest {
            nonce: 42,
            excluded_keys: vec![],
            supported_capabilities: vec![0, 1, 2],
        }))
    );
    assert_eq!(bootstrap.state(), BootstrapState::AwaitingPreliminary);
    assert_eq!(bootstrap.step(BootstrapEvent::Response(response(41))), BootstrapAction::Wait);
    assert_eq!(bootstrap.state(), BootstrapState::AwaitingPreliminary);
    let second = bootstrap.step(BootstrapEvent::Response(response(42)));
    assert_eq!(
        second,
        BootstrapAction::Send(Message::GetUpdatedDataRequest(GetUpdatedDataRequest {
            sender_node_address: Some(address(9999)),
            nonce: 43,
            excluded_keys: vec![],
        }))
    );
    assert_eq!(bootstrap.state(), BootstrapState::AwaitingUpdated);
    assert_eq!(bootstrap.step(BootstrapEvent::Response(response(42))), BootstrapAction::Wait);
    assert_eq!(bootstrap.state(), BootstrapState::AwaitingUpdated);
    let done = bootstrap.step(BootstrapEvent::Response(response(43)));
    assert_eq!(
        done,
        BootstrapAction::Deliver(DataRouterDispatch::Bootstrap(vec![], vec![]), BootstrapResult {})
    );
    assert_eq!(bootstrap.state(), BootstrapState::Done);
    assert_eq!(bootstrap.step(BootstrapEvent::Response(response(43))), BootstrapAction::Wait);
    assert_eq!(bootstrap.state(), BootstrapState::Done);
}

#[test]
fn a_connection_that_cannot_be_opened_ends_the_start() {
    let mut bootstrap = Bootstrap::new(config(), 1, 2);
    assert_eq!(bootstrap.step(BootstrapEvent::ConnectFailed), BootstrapAction::Fail(Error::ConnectFailed));
    assert_eq!(bootstrap.state(), BootstrapState::Failed);
    assert_eq!(bootstrap.step(BootstrapEvent::Connected), BootstrapAction::Wait);
    assert_eq!(bootstrap.state(), BootstrapState::Failed);
}

#[test]
fn a_connection_that_is_closed_ends_the_start() {
    let mut bootstrap = Bootstrap::new(config(), 1, 2);
    bootstrap.step(BootstrapEvent::Connected);
    assert_eq!(bootstrap.step(BootstrapEvent::Closed), BootstrapAction::Fail(Error::ConnectionClosed));
    assert_eq!(bootstrap.state(), BootstrapState::Failed);
}

#[test]
fn a_response_before_the_request_changes_nothing() {
    let mut bootstrap = Bootstrap::new(config(), 1, 2);
    assert_eq!(bootstrap.step(BootstrapEvent::Response(response(1))), BootstrapAction::Wait);
    assert_eq!(bootstrap.state(), BootstrapState::Connecting);
}

#[test]
fn the_listener_takes_the_response_to_its_request() {
    let mut listener = GetDataResponseListener { expecting_nonce: 7 };
    assert_eq!(listener.get_data_response(response(7)), Some(response(7)));
    assert_eq!(listener.get_data_response(response(8)), None);
    assert_eq!(listener.expecting_nonce, 7);
}

#[test]
fn a_seed_is_one_of_those_given() {
    let seeds = vec![address(1), address(2), address(3)];
    for _ in 0..20 {
        let seed = select_seed(seeds.clone()).unwrap();
        assert!(seeds.contains(&seed));
    }
    assert_eq!(select_seed(vec![address(4)]), Ok(address(4)));
}

#[test]
fn without_seeds_there_is_no_start() {
    assert_eq!(select_seed(vec![]), Err(Error::NoSeedsAvailable));
    assert!(matches!(execute(config(), vec![]), Err(Error::NoSeedsAvailable)));
}

#[test]
fn the_start_begins_with_the_connection_to_a_seed() {
    let (bootstrap, action) = execute(config(), vec![address(1)]).unwrap();
    assert_eq!(bootstrap.state(), BootstrapState::Connecting);
    assert_eq!(action, BootstrapAction::Connect(address(1), MessageVersion(12)));
}

#[test]
fn message_versions_of_the_networks() {
    assert_eq!(MessageVersion::from(BaseCurrencyNetwork::Main), MessageVersion(10));
    assert_eq!(MessageVersion::from(BaseCurrencyNetwork::Test), MessageVersion(11));
    assert_eq!(MessageVersion::from(BaseCurrencyNetwork::Regtest), MessageVersion(12));
    assert_eq!(MessageVersion::from(BaseCurrencyNetwork::DaoBeta), MessageVersion(13));
    assert_eq!(MessageVersion::from(BaseCurrencyNetwork::DaoRegtest), MessageVersion(14));
    assert_eq!(i32::from(MessageVersion(12)), 12);
}

#[test]
fn nonces_are_drawn() {
    let drawn: Vec<i32> = (0..8).map(|_| gen_nonce()).collect();
    assert!(drawn.iter().any(|n| *n != drawn[0]));
}
