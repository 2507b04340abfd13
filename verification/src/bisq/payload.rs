//! The messages that peers exchange, as far as the node reads them.

use crate::bisq::constants::{BaseCurrencyNetwork, P2P_NETWORK_VERSION};
use crate::bisq::hash::{sha256, sha256_digest, SHA256_LEN};
use crate::domain::statistics::trade::Trade;
use vstd::prelude::*;
use vstd::std_specs::convert::FromSpecImpl;

verus! {

/// A fresh random number, by which a response is matched to its request:
/// `rand::random` of the crate `rand`, of which nothing can be said.
#[verifier::external_body]
pub fn gen_nonce() -> i32 {
    rand::random::<i32>()
}

/// Where a node can be reached.
#[derive(Clone, Debug, PartialEq, Eq)]
pub struct NodeAddress {
    pub host_name: String,
    pub port: u16,
}

/// The version of the protocol on a network, which every envelope carries:
/// the network's number plus ten times the protocol's version.
#[derive(Debug, Clone, Copy, PartialEq, Eq, Structural)]
pub struct MessageVersion(pub i32);

/// The version of the protocol on a network.
pub open spec fn version_of(network: BaseCurrencyNetwork) -> MessageVersion {
    MessageVersion((network.spec_id() + 10 * P2P_NETWORK_VERSION) as i32)
}

impl From<MessageVersion> for i32 {
    fn from(msg: MessageVersion) -> (version: i32) {
        msg.0
    }
}

impl FromSpecImpl<MessageVersion> for i32 {
    open spec fn obeys_from_spec() -> bool {
        true
    }

    open spec fn from_spec(msg: MessageVersion) -> i32 {
        msg.0
    }
}

impl From<BaseCurrencyNetwork> for MessageVersion {
    fn from(network: BaseCurrencyNetwork) -> (version: MessageVersion) {
        MessageVersion(network.id() + 10 * P2P_NETWORK_VERSION)
    }
}

impl FromSpecImpl<BaseCurrencyNetwork> for MessageVersion {
    open spec fn obeys_from_spec() -> bool {
        true
    }

    open spec fn from_spec(network: BaseCurrencyNetwork) -> MessageVersion {
        version_of(network)
    }
}

#[derive(Clone, Debug, PartialEq)]
pub struct Ping {
    pub nonce: i32,
    pub last_round_trip_time: i32,
}

#[derive(Clone, Debug, PartialEq)]
pub struct Pong {
    pub request_nonce: i32,
}

#[derive(Clone, Debug, PartialEq)]
pub struct PreliminaryGetDataRequest {
    pub nonce: i32,
    pub excluded_keys: Vec<Vec<u8>>,
    pub supported_capabilities: Vec<i32>,
}

#[derive(Clone, Debug, PartialEq)]
pub struct GetUpdatedDataRequest {
    pub sender_node_address: Option<NodeAddress>,
    pub nonce: i32,
    pub excluded_keys: Vec<Vec<u8>>,
}

#[derive(Debug, PartialEq)]
pub struct GetDataResponse {
    pub request_nonce: i32,
    pub is_get_updated_data_response: bool,
    pub data_set: Vec<StorageEntryWrapper>,
    pub supported_capabilities: Vec<i32>,
    pub persistable_network_payload_items: Vec<PersistableNetworkPayload>,
}

/// What the offer book reads of an offer. The direction is 1 for an offer to
/// buy and 2 for an offer to sell.
#[derive(Clone, Debug, PartialEq)]
pub struct OfferPayload {
    pub id: String,
    pub direction: i32,
}

#[derive(Clone, Debug, PartialEq)]
pub enum StoragePayloadMessage {
    OfferPayload(OfferPayload),
    Other,
}

/// A payload that peers keep for a while. `serialized` holds its canonical
/// encoding, of which its hash is taken.
#[derive(Clone, Debug, PartialEq)]
pub struct StoragePayload {
    pub message: Option<StoragePayloadMessage>,
    pub serialized: Vec<u8>,
}

#[derive(Clone, Debug, PartialEq)]
pub struct ProtectedStorageEntry {
    pub storage_payload: Option<StoragePayload>,
    pub sequence_number: i32,
    pub creation_time_stamp: i64,
}

#[derive(Clone, Debug, PartialEq)]
pub struct ProtectedMailboxStorageEntry {
    pub entry: Option<ProtectedStorageEntry>,
}

#[derive(Clone, Debug, PartialEq)]
pub enum StorageEntryWrapperMessage {
    ProtectedStorageEntry(ProtectedStorageEntry),
    ProtectedMailboxStorageEntry(ProtectedMailboxStorageEntry),
}

#[derive(Clone, Debug, PartialEq)]
pub struct StorageEntryWrapper {
    pub message: Option<StorageEntryWrapperMessage>,
}

#[derive(Debug, PartialEq)]
pub enum PersistableNetworkPayloadMessage {
    /// The statistics of a trade, and the trade that they tell of, where
    /// they tell of one.
    TradeStatistics2(Option<Trade>),
    Other,
}

/// A payload that peers keep for good. `hash` holds the hash that it carries
/// in itself.
#[derive(Debug, PartialEq)]
pub struct PersistableNetworkPayload {
    pub message: Option<PersistableNetworkPayloadMessage>,
    pub hash: Vec<u8>,
}

#[derive(Clone, Debug, PartialEq)]
pub struct RefreshOfferMessage {
    pub hash_of_payload: Vec<u8>,
    pub sequence_number: i32,
}

#[derive(Clone, Debug, PartialEq)]
pub struct AddDataMessage {
    pub entry: Option<StorageEntryWrapper>,
}

#[derive(Debug, PartialEq)]
pub struct AddPersistableNetworkPayloadMessage {
    pub payload: Option<PersistableNetworkPayload>,
}

#[derive(Debug, PartialEq)]
pub struct BundleOfEnvelopes {
    pub envelopes: Vec<NetworkEnvelope>,
}

/// A message of a kind that the node passes on without reading it.
#[derive(Clone, Debug, PartialEq)]
pub struct OtherMessage {
    pub kind: u32,
    pub encoded: Vec<u8>,
}

#[derive(Debug, PartialEq)]
pub enum Message {
    PreliminaryGetDataRequest(PreliminaryGetDataRequest),
    GetDataResponse(GetDataResponse),
    GetUpdatedDataRequest(GetUpdatedDataRequest),
    Ping(Ping),
    Pong(Pong),
    RefreshOfferMessage(RefreshOfferMessage),
    AddDataMessage(AddDataMessage),
    AddPersistableNetworkPayloadMessage(AddPersistableNetworkPayloadMessage),
    BundleOfEnvelopes(BundleOfEnvelopes),
    Other(OtherMessage),
}

#[derive(Debug, PartialEq)]
pub struct NetworkEnvelope {
    pub message_version: i32,
    pub message: Option<Message>,
}

impl NetworkEnvelope {
    /// The envelope in which a message is sent.
    pub fn of(message_version: MessageVersion, message: Message) -> (envelope: Self)
        ensures
            envelope.message_version == message_version.0,
            envelope.message == Some(message),
    {
        NetworkEnvelope { message_version: message_version.0, message: Some(message) }
    }
}

impl From<PreliminaryGetDataRequest> for Message {
    fn from(msg: PreliminaryGetDataRequest) -> (message: Message) {
        Message::PreliminaryGetDataRequest(msg)
    }
}

impl FromSpecImpl<PreliminaryGetDataRequest> for Message {
    open spec fn obeys_from_spec() -> bool {
        true
    }

    open spec fn from_spec(msg: PreliminaryGetDataRequest) -> Message {
        Message::PreliminaryGetDataRequest(msg)
    }
}

impl From<GetDataResponse> for Message {
    fn from(msg: GetDataResponse) -> (message: Message) {
        Message::GetDataResponse(msg)
    }
}

impl FromSpecImpl<GetDataResponse> for Message {
    open spec fn obeys_from_spec() -> bool {
        true
    }

    open spec fn from_spec(msg: GetDataResponse) -> Message {
        Message::GetDataResponse(msg)
    }
}

impl From<GetUpdatedDataRequest> for Message {
    fn from(msg: GetUpdatedDataRequest) -> (message: Message) {
        Message::GetUpdatedDataRequest(msg)
    }
}

impl FromSpecImpl<GetUpdatedDataRequest> for Message {
    open spec fn obeys_from_spec() -> bool {
        true
    }

    open spec fn from_spec(msg: GetUpdatedDataRequest) -> Message {
        Message::GetUpdatedDataRequest(msg)
    }
}

impl From<Ping> for Message {
    fn from(msg: Ping) -> (message: Message) {
        Message::Ping(msg)
    }
}

impl FromSpecImpl<Ping> for Message {
    open spec fn obeys_from_spec() -> bool {
        true
    }

    open spec fn from_spec(msg: Ping) -> Message {
        Message::Ping(msg)
    }
}

impl From<Pong> for Message {
    fn from(msg: Pong) -> (message: Message) {
        Message::Pong(msg)
    }
}

impl FromSpecImpl<Pong> for Message {
    open spec fn obeys_from_spec() -> bool {
        true
    }

    open spec fn from_spec(msg: Pong) -> Message {
        Message::Pong(msg)
    }
}

impl From<RefreshOfferMessage> for Message {
    fn from(msg: RefreshOfferMessage) -> (message: Message) {
        Message::RefreshOfferMessage(msg)
    }
}

impl FromSpecImpl<RefreshOfferMessage> for Message {
    open spec fn obeys_from_spec() -> bool {
        true
    }

    open spec fn from_spec(msg: RefreshOfferMessage) -> Message {
        Message::RefreshOfferMessage(msg)
    }
}

impl From<AddDataMessage> for Message {
    fn from(msg: AddDataMessage) -> (message: Message) {
        Message::AddDataMessage(msg)
    }
}

impl FromSpecImpl<AddDataMessage> for Message {
    open spec fn obeys_from_spec() -> bool {
        true
    }

    open spec fn from_spec(msg: AddDataMessage) -> Message {
        Message::AddDataMessage(msg)
    }
}

impl From<AddPersistableNetworkPayloadMessage> for Message {
    fn from(msg: AddPersistableNetworkPayloadMessage) -> (message: Message) {
        Message::AddPersistableNetworkPayloadMessage(msg)
    }
}

impl FromSpecImpl<AddPersistableNetworkPayloadMessage> for Message {
    open spec fn obeys_from_spec() -> bool {
        true
    }

    open spec fn from_spec(msg: AddPersistableNetworkPayloadMessage) -> Message {
        Message::AddPersistableNetworkPayloadMessage(msg)
    }
}

impl From<BundleOfEnvelopes> for Message {
    fn from(msg: BundleOfEnvelopes) -> (message: Message) {
        Message::BundleOfEnvelopes(msg)
    }
}

impl FromSpecImpl<BundleOfEnvelopes> for Message {
    open spec fn obeys_from_spec() -> bool {
        true
    }

    open spec fn from_spec(msg: BundleOfEnvelopes) -> Message {
        Message::BundleOfEnvelopes(msg)
    }
}

/// What has a hash by which the network knows it.
pub trait BisqHash {
    spec fn spec_bisq_hash(&self) -> Seq<u8>;

    fn bisq_hash(&self) -> (hash: Vec<u8>)
        ensures
            hash@ == self.spec_bisq_hash(),
    ;
}

impl BisqHash for StoragePayload {
    /// The SHA-256 digest of the payload's canonical encoding.
    open spec fn spec_bisq_hash(&self) -> Seq<u8> {
        sha256_digest(self.serialized@)
    }

    fn bisq_hash(&self) -> (hash: Vec<u8>)
        ensures
            hash@.len() == SHA256_LEN,
    {
        sha256(&self.serialized)
    }
}

/// What came of taking a payload out of a message: the payload, or the
/// message given back.
#[derive(Debug, PartialEq)]
pub enum Extract<P> {
    Succeeded(P),
    Failed(Message),
}

/// A payload that can be taken out of the messages that hold one.
pub trait PayloadExtractor {
    type Payload;

    /// What `extract` takes out of a message, if anything.
    spec fn extracted(msg: Message) -> Option<Self::Payload>;

    fn extract(msg: Message) -> (extract: Extract<Self::Payload>)
        ensures
            extract == match Self::extracted(msg) {
                Some(payload) => Extract::Succeeded(payload),
                None => Extract::Failed(msg),
            },
    ;
}

impl PayloadExtractor for Ping {
    type Payload = Ping;

    open spec fn extracted(msg: Message) -> Option<Ping> {
        match msg {
            Message::Ping(request) => Some(request),
            _ => None,
        }
    }

    fn extract(msg: Message) -> (extract: Extract<Ping>) {
        if let Message::Ping(request) = msg {
            Extract::Succeeded(request)
        } else {
            Extract::Failed(msg)
        }
    }
}

impl PayloadExtractor for Pong {
    type Payload = Pong;

    open spec fn extracted(msg: Message) -> Option<Pong> {
        match msg {
            Message::Pong(request) => Some(request),
            _ => None,
        }
    }

    fn extract(msg: Message) -> (extract: Extract<Pong>) {
        if let Message::Pong(request) = msg {
            Extract::Succeeded(request)
        } else {
            Extract::Failed(msg)
        }
    }
}

impl PayloadExtractor for GetDataResponse {
    type Payload = GetDataResponse;

    open spec fn extracted(msg: Message) -> Option<GetDataResponse> {
        match msg {
            Message::GetDataResponse(request) => Some(request),
            _ => None,
        }
    }

    fn extract(msg: Message) -> (extract: Extract<GetDataResponse>) {
        if let Message::GetDataResponse(request) = msg {
            Extract::Succeeded(request)
        } else {
            Extract::Failed(msg)
        }
    }
}

} // verus!
