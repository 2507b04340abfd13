//! The start of a node: it asks one seed node, in two steps, for the data
//! of the network and hands what it gets to the router.

use crate::bisq::constants::BaseCurrencyNetwork;
use crate::bisq::payload::{
    gen_nonce, version_of, GetDataResponse, GetUpdatedDataRequest, Message, MessageVersion,
    NodeAddress, PreliminaryGetDataRequest,
};
use crate::daemon::data_router::DataRouterDispatch;
use crate::error::Error;
use vstd::prelude::*;

verus! {

#[derive(Clone, Debug, PartialEq)]
pub struct Config {
    pub network: BaseCurrencyNetwork,
    pub local_node_address: NodeAddress,
    /// What this node says it can do.
    pub supported_capabilities: Vec<i32>,
}

/// What a start that went well gives.
#[derive(Clone, Copy, Debug, PartialEq, Eq, Structural)]
pub struct BootstrapResult {}

/// What waits for the response to a request for data.
pub struct GetDataResponseListener {
    pub expecting_nonce: i32,
}

impl GetDataResponseListener {
    /// The response, where it carries the number of the request it is
    /// waited for; a response to anything else is passed over.
    pub fn get_data_response(&mut self, response: GetDataResponse) -> (matched: Option<
        GetDataResponse,
    >)
        ensures
            final(self).expecting_nonce == old(self).expecting_nonce,
            matched == if response.request_nonce == old(self).expecting_nonce {
                Some(response)
            } else {
                None
            },
    {
        if response.request_nonce == self.expecting_nonce {
            Some(response)
        } else {
            None
        }
    }
}

/// How far the start has come.
#[derive(Clone, Copy, Debug, PartialEq, Eq, Structural)]
pub enum BootstrapState {
    /// The connection to the seed node is being opened.
    Connecting,
    /// The first request was sent.
    AwaitingPreliminary,
    /// The second request was sent.
    AwaitingUpdated,
    Done,
    Failed,
}

/// What happens to a start.
#[derive(Debug, PartialEq)]
pub enum BootstrapEvent {
    /// The connection to the seed node is open.
    Connected,
    /// The connection could not be opened.
    ConnectFailed,
    /// The seed node sent data.
    Response(GetDataResponse),
    /// The connection was closed.
    Closed,
}

/// What a start asks for.
#[derive(Debug, PartialEq)]
pub enum BootstrapAction {
    /// To open a connection to the seed node.
    Connect(NodeAddress, MessageVersion),
    /// To send a request to the seed node.
    Send(Message),
    /// To go on waiting.
    Wait,
    /// To hand the data to the router: the start is done.
    Deliver(DataRouterDispatch, BootstrapResult),
    /// To give up.
    Fail(Error),
}

/// The start of a node.
pub struct Bootstrap {
    state: BootstrapState,
    preliminary_nonce: i32,
    updated_nonce: i32,
    preliminary_get_data_request: Option<PreliminaryGetDataRequest>,
    get_updated_data_request: Option<GetUpdatedDataRequest>,
}

/// What a start holds, as plain values: how far it has come, and the two
/// requests as long as they are still to be sent.
pub struct BootstrapModel {
    pub state: BootstrapState,
    pub preliminary_nonce: i32,
    pub updated_nonce: i32,
    pub preliminary: Option<PreliminaryGetDataRequest>,
    pub updated: Option<GetUpdatedDataRequest>,
}

impl View for Bootstrap {
    type V = BootstrapModel;

    closed spec fn view(&self) -> BootstrapModel {
        BootstrapModel {
            state: self.state,
            preliminary_nonce: self.preliminary_nonce,
            updated_nonce: self.updated_nonce,
            preliminary: self.preliminary_get_data_request,
            updated: self.get_updated_data_request,
        }
    }
}

impl BootstrapModel {
    /// The start after an event.
    pub open spec fn after(self, event: BootstrapEvent) -> BootstrapModel {
        match (self.state, event) {
            (BootstrapState::Connecting, BootstrapEvent::Connected) => match self.preliminary {
                Some(_) => BootstrapModel {
                    state: BootstrapState::AwaitingPreliminary,
                    preliminary: None,
                    ..self
                },
                None => BootstrapModel { state: BootstrapState::Failed, ..self },
            },
            (BootstrapState::Connecting, BootstrapEvent::ConnectFailed) => BootstrapModel {
                state: BootstrapState::Failed,
                ..self
            },
            (BootstrapState::AwaitingPreliminary, BootstrapEvent::Response(response)) => if (
            response.request_nonce == self.preliminary_nonce) {
                match self.updated {
                    Some(_) => BootstrapModel {
                        state: BootstrapState::AwaitingUpdated,
                        updated: None,
                        ..self
                    },
                    None => BootstrapModel { state: BootstrapState::Failed, ..self },
                }
            } else {
                self
            },
            (BootstrapState::AwaitingUpdated, BootstrapEvent::Response(response)) => if (
            response.request_nonce == self.updated_nonce) {
                BootstrapModel { state: BootstrapState::Done, ..self }
            } else {
                self
            },
            (BootstrapState::Done, _) => self,
            (BootstrapState::Failed, _) => self,
            (_, BootstrapEvent::Closed) => BootstrapModel { state: BootstrapState::Failed, ..self },
            _ => self,
        }
    }

    /// What the start asks for upon an event.
    pub open spec fn asks(self, event: BootstrapEvent) -> BootstrapAction {
        match (self.state, event) {
            (BootstrapState::Connecting, BootstrapEvent::Connected) => match self.preliminary {
                Some(request) => BootstrapAction::Send(Message::PreliminaryGetDataRequest(request)),
                None => BootstrapAction::Fail(Error::ConnectFailed),
            },
            (BootstrapState::Connecting, BootstrapEvent::ConnectFailed) => BootstrapAction::Fail(
                Error::ConnectFailed,
            ),
            (BootstrapState::AwaitingPreliminary, BootstrapEvent::Response(response)) => if (
            response.request_nonce == self.preliminary_nonce) {
                match self.updated {
                    Some(request) => BootstrapAction::Send(Message::GetUpdatedDataRequest(request)),
                    None => BootstrapAction::Fail(Error::ConnectFailed),
                }
            } else {
                BootstrapAction::Wait
            },
            (BootstrapState::AwaitingUpdated, BootstrapEvent::Response(response)) => if (
            response.request_nonce == self.updated_nonce) {
                BootstrapAction::Deliver(
                    DataRouterDispatch::Bootstrap(
                        response.data_set,
                        response.persistable_network_payload_items,
                    ),
                    BootstrapResult {  },
                )
            } else {
                BootstrapAction::Wait
            },
            (BootstrapState::Done, _) => BootstrapAction::Wait,
            (BootstrapState::Failed, _) => BootstrapAction::Wait,
            (_, BootstrapEvent::Closed) => BootstrapAction::Fail(Error::ConnectionClosed),
            _ => BootstrapAction::Wait,
        }
    }
}

/// Puts the addresses in a random order: `SliceRandom::shuffle` of the crate
/// `rand`, with the generator of the thread. It moves the addresses about
/// and neither adds nor drops one.
#[verifier::external_body]
fn shuffle(seed_nodes: &mut Vec<NodeAddress>)
    ensures
        final(seed_nodes)@.to_multiset() == old(seed_nodes)@.to_multiset(),
{
    rand::seq::SliceRandom::shuffle(seed_nodes.as_mut_slice(), &mut rand::rng())
}

/// One of the seed nodes, picked at random.
pub fn select_seed(seed_nodes: Vec<NodeAddress>) -> (seed: Result<NodeAddress, Error>)
    ensures
        match seed {
            Ok(addr) => seed_nodes@.contains(addr),
            Err(error) => seed_nodes@.len() == 0 && error == Error::NoSeedsAvailable,
        },
{
    let mut seed_nodes = seed_nodes;
    let ghost given = seed_nodes@;
    shuffle(&mut seed_nodes);
    let ghost shuffled = seed_nodes@;
    match seed_nodes.pop() {
        Some(addr) => {
            proof {
                given.to_multiset_ensures();
                shuffled.to_multiset_ensures();
                assert(shuffled[shuffled.len() - 1] == addr);
                assert(shuffled.contains(addr));
                assert(shuffled.to_multiset().count(addr) > 0);
                assert(given.to_multiset().count(addr) > 0);
            }
            Ok(addr)
        },
        None => {
            proof {
                given.to_multiset_ensures();
                shuffled.to_multiset_ensures();
            }
            Err(Error::NoSeedsAvailable)
        },
    }
}

impl Bootstrap {
    /// A start that is about to connect to its seed node. The first request
    /// lists what the node can do and leaves out its address; the second
    /// gives the address. Neither leaves any data out.
    pub fn new(config: Config, preliminary_nonce: i32, updated_nonce: i32) -> (bootstrap: Bootstrap)
        ensures
            bootstrap@ == (BootstrapModel {
                state: BootstrapState::Connecting,
                preliminary_nonce,
                updated_nonce,
                preliminary: Some(
                    PreliminaryGetDataRequest {
                        nonce: preliminary_nonce,
                        excluded_keys: bootstrap@.preliminary->0.excluded_keys,
                        supported_capabilities: config.supported_capabilities,
                    },
                ),
                updated: Some(
                    GetUpdatedDataRequest {
                        sender_node_address: Some(config.local_node_address),
                        nonce: updated_nonce,
                        excluded_keys: bootstrap@.updated->0.excluded_keys,
                    },
                ),
            }),
            bootstrap@.preliminary->0.excluded_keys@.len() == 0,
            bootstrap@.updated->0.excluded_keys@.len() == 0,
    {
        let preliminary_get_data_request = PreliminaryGetDataRequest {
            nonce: preliminary_nonce,
            excluded_keys: Vec::new(),
            supported_capabilities: config.supported_capabilities,
        };
        let get_updated_data_request = GetUpdatedDataRequest {
            sender_node_address: Some(config.local_node_address),
            nonce: updated_nonce,
            excluded_keys: Vec::new(),
        };
        Bootstrap {
            state: BootstrapState::Connecting,
            preliminary_nonce,
            updated_nonce,
            preliminary_get_data_request: Some(preliminary_get_data_request),
            get_updated_data_request: Some(get_updated_data_request),
        }
    }

    pub fn state(&self) -> (state: BootstrapState)
        ensures
            state == self@.state,
    {
        self.state
    }

    /// Takes an event and says what to do next.
    pub fn step(&mut self, event: BootstrapEvent) -> (action: BootstrapAction)
        ensures
            final(self)@ == old(self)@.after(event),
            action == old(self)@.asks(event),
    {
        match (self.state, event) {
            (BootstrapState::Connecting, BootstrapEvent::Connected) => {
                match self.preliminary_get_data_request.take() {
                    Some(request) => {
                        self.state = BootstrapState::AwaitingPreliminary;
                        BootstrapAction::Send(Message::PreliminaryGetDataRequest(request))
                    },
                    None => {
                        self.state = BootstrapState::Failed;
                        BootstrapAction::Fail(Error::ConnectFailed)
                    },
                }
            },
            (BootstrapState::Connecting, BootstrapEvent::ConnectFailed) => {
                self.state = BootstrapState::Failed;
                BootstrapAction::Fail(Error::ConnectFailed)
            },
            (BootstrapState::AwaitingPreliminary, BootstrapEvent::Response(response)) => {
                let mut listener = GetDataResponseListener {
                    expecting_nonce: self.preliminary_nonce,
                };
                match listener.get_data_response(response) {
                    Some(_) => match self.get_updated_data_request.take() {
                        Some(request) => {
                            self.state = BootstrapState::AwaitingUpdated;
                            BootstrapAction::Send(Message::GetUpdatedDataRequest(request))
                        },
                        None => {
                            self.state = BootstrapState::Failed;
                            BootstrapAction::Fail(Error::ConnectFailed)
                        },
                    },
                    None => BootstrapAction::Wait,
                }
            },
            (BootstrapState::AwaitingUpdated, BootstrapEvent::Response(response)) => {
                let mut listener = GetDataResponseListener { expecting_nonce: self.updated_nonce };
                match listener.get_data_response(response) {
                    Some(response) => {
                        self.state = BootstrapState::Done;
                        BootstrapAction::Deliver(
                            DataRouterDispatch::Bootstrap(
                                response.data_set,
                                response.persistable_network_payload_items,
                            ),
                            BootstrapResult {  },
                        )
                    },
                    None => BootstrapAction::Wait,
                }
            },
            (BootstrapState::Done, _) => BootstrapAction::Wait,
            (BootstrapState::Failed, _) => BootstrapAction::Wait,
            (_, BootstrapEvent::Closed) => {
                self.state = BootstrapState::Failed;
                BootstrapAction::Fail(Error::ConnectionClosed)
            },
            _ => BootstrapAction::Wait,
        }
    }
}

/// Whether a start is as `execute` leaves it: about to connect, with both
/// requests still to be sent, each under the number drawn for it. The
/// first lists what the node can do, the second gives its address, and
/// neither leaves any data out.
pub open spec fn begun_with(bootstrap: BootstrapModel, config: Config) -> bool {
    &&& bootstrap.state == BootstrapState::Connecting
    &&& bootstrap.preliminary is Some
    &&& bootstrap.preliminary->0.nonce == bootstrap.preliminary_nonce
    &&& bootstrap.preliminary->0.excluded_keys@.len() == 0
    &&& bootstrap.preliminary->0.supported_capabilities == config.supported_capabilities
    &&& bootstrap.updated is Some
    &&& bootstrap.updated->0.nonce == bootstrap.updated_nonce
    &&& bootstrap.updated->0.excluded_keys@.len() == 0
    &&& bootstrap.updated->0.sender_node_address == Some(config.local_node_address)
}

/// Begins the start of a node: picks a seed node at random, draws the
/// numbers of the two requests, and asks for the connection to be opened.
/// There is nothing to begin with where there is no seed node.
pub fn execute(config: Config, seed_nodes: Vec<NodeAddress>) -> (begun: Result<
    (Bootstrap, BootstrapAction),
    Error,
>)
    ensures
        match begun {
            Ok((bootstrap, action)) => begun_with(bootstrap@, config) && match action {
                BootstrapAction::Connect(addr, version) => seed_nodes@.contains(addr) && version
                    == version_of(config.network),
                _ => false,
            },
            Err(error) => seed_nodes@.len() == 0 && error == Error::NoSeedsAvailable,
        },
{
    let addr = match select_seed(seed_nodes) {
        Ok(addr) => addr,
        Err(error) => {
            return Err(error);
        },
    };
    let message_version = MessageVersion::from(config.network);
    let bootstrap = Bootstrap::new(config, gen_nonce(), gen_nonce());
    Ok((bootstrap, BootstrapAction::Connect(addr, message_version)))
}

/// A response that does not carry the number of the request that is
/// waited for is passed over: the start goes on waiting as it was.
pub proof fn law_mismatched_response_is_ignored(bootstrap: BootstrapModel, response: GetDataResponse)
    requires
        bootstrap.state == BootstrapState::AwaitingPreliminary && response.request_nonce
            != bootstrap.preliminary_nonce || bootstrap.state == BootstrapState::AwaitingUpdated
            && response.request_nonce != bootstrap.updated_nonce,
    ensures
        bootstrap.after(BootstrapEvent::Response(response)) == bootstrap,
        bootstrap.asks(BootstrapEvent::Response(response)) == BootstrapAction::Wait,
{
}

/// A response that carries the number of the request that is waited for
/// moves the start on: to the second request, or to its end.
pub proof fn law_matching_response_moves_on(bootstrap: BootstrapModel, response: GetDataResponse)
    requires
        bootstrap.updated is Some,
    ensures
        bootstrap.state == BootstrapState::AwaitingPreliminary && response.request_nonce
            == bootstrap.preliminary_nonce ==> bootstrap.after(
            BootstrapEvent::Response(response),
        ).state == BootstrapState::AwaitingUpdated,
        bootstrap.state == BootstrapState::AwaitingUpdated && response.request_nonce
            == bootstrap.updated_nonce ==> bootstrap.after(
            BootstrapEvent::Response(response),
        ).state == BootstrapState::Done,
{
}

} // verus!
