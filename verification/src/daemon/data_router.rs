//! The routing of gossiped data: what is new goes to the one that keeps it,
//! and, once that one has accepted it, on to the other peers.

use crate::bisq::hash::{
    sha256_digest, slot, slot_of, BisqHash, HashModel, PersistentMessageHash,
    PERSISTENT_HASH_LEN, SHA256_LEN,
};
use crate::bisq::hash::copy_bytes;
use crate::bisq::payload::{
    AddDataMessage, AddPersistableNetworkPayloadMessage, BisqHash as ContentHash, Extract,
    Message, PayloadExtractor, PersistableNetworkPayload, PersistableNetworkPayloadMessage,
    ProtectedStorageEntry, RefreshOfferMessage, StorageEntryWrapper, StorageEntryWrapperMessage,
};
use crate::connection::ConnectionId;
use crate::domain::conversion::{
    offer_in, open_offer, refresh_in, refresh_offer, sequence_of,
};
use crate::domain::offer::{OfferModel, OpenOffer, RefreshOffer};
use crate::domain::statistics::trade::{Trade, TradeModel};
use crate::domain::CommandResult;
use crate::error::Error;
use std::collections::HashMap;
use vstd::prelude::*;

verus! {

broadcast use vstd::std_specs::hash::group_hash_axioms;

/// What the router is asked to look at.
#[derive(Debug, PartialEq)]
pub enum DataRouterDispatch {
    /// The data that a seed node gave at the start.
    Bootstrap(Vec<StorageEntryWrapper>, Vec<PersistableNetworkPayload>),
    RefreshOffer(RefreshOfferMessage),
    AddData(AddDataMessage),
    AddPersistableNetworkPayload(AddPersistableNetworkPayloadMessage),
}

impl PayloadExtractor for DataRouterDispatch {
    type Payload = DataRouterDispatch;

    open spec fn extracted(msg: Message) -> Option<DataRouterDispatch> {
        match msg {
            Message::GetDataResponse(response) => Some(
                DataRouterDispatch::Bootstrap(
                    response.data_set,
                    response.persistable_network_payload_items,
                ),
            ),
            Message::AddDataMessage(msg) => Some(DataRouterDispatch::AddData(msg)),
            Message::RefreshOfferMessage(msg) => Some(DataRouterDispatch::RefreshOffer(msg)),
            Message::AddPersistableNetworkPayloadMessage(msg) => Some(
                DataRouterDispatch::AddPersistableNetworkPayload(msg),
            ),
            _ => None,
        }
    }

    fn extract(msg: Message) -> (extract: Extract<DataRouterDispatch>) {
        match msg {
            Message::GetDataResponse(response) => Extract::Succeeded(
                DataRouterDispatch::Bootstrap(
                    response.data_set,
                    response.persistable_network_payload_items,
                ),
            ),
            Message::AddDataMessage(msg) => Extract::Succeeded(DataRouterDispatch::AddData(msg)),
            Message::RefreshOfferMessage(msg) => Extract::Succeeded(
                DataRouterDispatch::RefreshOffer(msg),
            ),
            Message::AddPersistableNetworkPayloadMessage(msg) => Extract::Succeeded(
                DataRouterDispatch::AddPersistableNetworkPayload(msg),
            ),
            _ => Extract::Failed(msg),
        }
    }
}

/// What the router sends to one that keeps data.
#[derive(Debug, PartialEq)]
pub enum Command {
    /// To the offer book: a new offer.
    AddOffer(OpenOffer),
    /// To the offer book: an offer is still open.
    RefreshOffer(RefreshOffer),
    /// To the cache of statistics: a new trade.
    AddTrade(Trade),
}

/// What a command holds, as plain values.
pub enum CommandModel {
    AddOffer(OfferModel),
    RefreshOffer(u64, HashModel),
    AddTrade(TradeModel),
}

impl View for Command {
    type V = CommandModel;

    open spec fn view(&self) -> CommandModel {
        match self {
            Command::AddOffer(offer) => CommandModel::AddOffer(offer@),
            Command::RefreshOffer(refresh) => CommandModel::RefreshOffer(
                refresh.sequence,
                refresh.bisq_hash@,
            ),
            Command::AddTrade(trade) => CommandModel::AddTrade(trade@),
        }
    }
}

/// A message to pass on to all peers but the one named.
#[derive(Debug, PartialEq)]
pub struct Broadcast(pub Message, pub Option<ConnectionId>);

/// A command, and the message to pass on once the command was accepted.
#[derive(Debug, PartialEq)]
pub struct Routed {
    pub command: Command,
    pub rebroadcast: Option<Broadcast>,
}

/// What a routed command holds, as plain values.
pub struct RoutedModel {
    pub command: CommandModel,
    pub rebroadcast: Option<Broadcast>,
}

impl View for Routed {
    type V = RoutedModel;

    open spec fn view(&self) -> RoutedModel {
        RoutedModel { command: self.command@, rebroadcast: self.rebroadcast }
    }
}

/// What some routed commands hold.
pub open spec fn routed_views(routed: Seq<Routed>) -> Seq<RoutedModel> {
    Seq::new(routed.len(), |i: int| routed[i]@)
}

/// The entry inside a wrapper.
pub open spec fn entry_of(wrapper: Option<StorageEntryWrapper>) -> Option<ProtectedStorageEntry> {
    match wrapper {
        Some(wrapper) => match wrapper.message {
            Some(StorageEntryWrapperMessage::ProtectedStorageEntry(entry)) => Some(entry),
            Some(StorageEntryWrapperMessage::ProtectedMailboxStorageEntry(mailbox)) => mailbox.entry,
            None => None,
        },
        None => None,
    }
}

/// The hash by which an entry is known: that of its payload's canonical
/// encoding.
pub open spec fn entry_hash(entry: Option<ProtectedStorageEntry>) -> Option<HashModel> {
    match entry {
        Some(entry) => match entry.storage_payload {
            Some(payload) => Some(HashModel::Sha256(sha256_digest(payload.serialized@))),
            None => None,
        },
        None => None,
    }
}

/// What an entry asks of one that keeps data: an offer goes to the offer
/// book.
pub open spec fn entry_command(entry: Option<ProtectedStorageEntry>) -> Option<CommandModel> {
    match entry {
        Some(entry) => match offer_in(entry) {
            Some(offer) => Some(CommandModel::AddOffer(offer)),
            None => None,
        },
        None => None,
    }
}

/// The hash by which a persistable payload is known: the one it carries,
/// where that has the length of a hash.
pub open spec fn payload_hash(payload: Option<PersistableNetworkPayload>) -> Option<HashModel> {
    match payload {
        Some(payload) => if payload.hash@.len() == PERSISTENT_HASH_LEN {
            Some(HashModel::Persistent(payload.hash@))
        } else {
            None
        },
        None => None,
    }
}

/// What a persistable payload asks of one that keeps data: a trade goes to
/// the cache of statistics.
pub open spec fn payload_command(payload: Option<PersistableNetworkPayload>) -> Option<
    CommandModel,
> {
    match payload {
        Some(payload) => match payload.message {
            Some(PersistableNetworkPayloadMessage::TradeStatistics2(Some(trade))) => Some(
                CommandModel::AddTrade(trade@),
            ),
            _ => None,
        },
        None => None,
    }
}

/// What was delivered, and when first, after data of the hash `hash` has
/// come in at the time `now`.
pub open spec fn admitted(delivered: Map<HashModel, u64>, hash: Option<HashModel>, now: u64) -> Map<
    HashModel,
    u64,
> {
    match hash {
        Some(hash) => if delivered.contains_key(hash) {
            delivered
        } else {
            delivered.insert(hash, now)
        },
        None => delivered,
    }
}

/// Whether every hash that `after` knows and `before` does not has the
/// length of its kind.
pub open spec fn grown_well(before: Map<HashModel, u64>, after: Map<HashModel, u64>) -> bool {
    forall|hash: HashModel| #[trigger]
        after.contains_key(hash) ==> before.contains_key(hash) || hash.wf()
}

/// Whether data of the hash `hash` is new.
pub open spec fn admits(delivered: Map<HashModel, u64>, hash: Option<HashModel>) -> bool {
    match hash {
        Some(hash) => !delivered.contains_key(hash),
        None => false,
    }
}

/// What comes of routing: what was delivered, and the commands to send.
pub struct RoutingModel {
    pub delivered: Map<HashModel, u64>,
    pub routed: Seq<RoutedModel>,
}

impl RoutingModel {
    /// After data of the hash `hash` has come in, which asks for `command`
    /// and is passed on as `rebroadcast`.
    pub open spec fn with(
        self,
        hash: Option<HashModel>,
        command: Option<CommandModel>,
        rebroadcast: Option<Broadcast>,
        now: u64,
    ) -> RoutingModel {
        RoutingModel {
            delivered: admitted(self.delivered, hash, now),
            routed: match command {
                Some(command) => if admits(self.delivered, hash) {
                    self.routed.push(RoutedModel { command, rebroadcast })
                } else {
                    self.routed
                },
                None => self.routed,
            },
        }
    }

    /// After the first `count` of the entries that a seed node gave.
    pub open spec fn with_entries(
        self,
        data: Seq<StorageEntryWrapper>,
        count: nat,
        now: u64,
    ) -> RoutingModel
        decreases count,
    {
        if count == 0 {
            self
        } else {
            let entry = entry_of(Some(data[count - 1]));
            self.with_entries(data, (count - 1) as nat, now).with(
                entry_hash(entry),
                entry_command(entry),
                None,
                now,
            )
        }
    }

    /// After the first `count` of the persistable payloads that a seed node
    /// gave.
    pub open spec fn with_payloads(
        self,
        payloads: Seq<PersistableNetworkPayload>,
        count: nat,
        now: u64,
    ) -> RoutingModel
        decreases count,
    {
        if count == 0 {
            self
        } else {
            self.with_payloads(payloads, (count - 1) as nat, now).with(
                payload_hash(Some(payloads[count - 1])),
                payload_command(Some(payloads[count - 1])),
                None,
                now,
            )
        }
    }
}

/// What comes of a dispatch from the connection `origin` at the time `now`.
pub open spec fn handled(
    delivered: Map<HashModel, u64>,
    origin: ConnectionId,
    dispatch: DataRouterDispatch,
    now: u64,
) -> RoutingModel {
    let start = RoutingModel { delivered, routed: Seq::empty() };
    match dispatch {
        DataRouterDispatch::Bootstrap(data, payloads) => start.with_entries(
            data@,
            data@.len(),
            now,
        ).with_payloads(payloads@, payloads@.len(), now),
        DataRouterDispatch::RefreshOffer(msg) => RoutingModel {
            delivered,
            routed: match refresh_in(msg) {
                Some((sequence, hash)) => seq![
                    RoutedModel {
                        command: CommandModel::RefreshOffer(sequence, hash),
                        rebroadcast: Some(
                            Broadcast(Message::RefreshOfferMessage(msg), Some(origin)),
                        ),
                    },
                ],
                None => Seq::empty(),
            },
        },
        DataRouterDispatch::AddData(data) => start.with(
            entry_hash(entry_of(data.entry)),
            entry_command(entry_of(data.entry)),
            Some(Broadcast(Message::AddDataMessage(data), Some(origin))),
            now,
        ),
        DataRouterDispatch::AddPersistableNetworkPayload(msg) => start.with(
            payload_hash(msg.payload),
            payload_command(msg.payload),
            Some(Broadcast(Message::AddPersistableNetworkPayloadMessage(msg), Some(origin))),
            now,
        ),
    }
}

/// The hashes in the first `count` places of a list, each with the time
/// that stands with it where it stands first.
pub open spec fn as_map(entries: Seq<(BisqHash, u64)>, count: nat) -> Map<HashModel, u64>
    decreases count,
{
    if count == 0 {
        Map::empty()
    } else {
        admitted(
            as_map(entries, (count - 1) as nat),
            Some(entries[count - 1].0@),
            entries[count - 1].1,
        )
    }
}

proof fn lemma_as_map_keys(entries: Seq<(BisqHash, u64)>, count: nat, hash: HashModel)
    requires
        count <= entries.len(),
    ensures
        as_map(entries, count).contains_key(hash) <==> exists|i: int|
            0 <= i < count && (#[trigger] entries[i]).0@ == hash,
    decreases count,
{
    if count > 0 {
        lemma_as_map_keys(entries, (count - 1) as nat, hash);
        if as_map(entries, count).contains_key(hash) {
            if as_map(entries, (count - 1) as nat).contains_key(hash) {
                let i = choose|i: int| 0 <= i < count - 1 && (#[trigger] entries[i]).0@ == hash;
                assert(entries[i].0@ == hash);
            } else {
                assert(entries[count - 1].0@ == hash);
            }
        }
    }
}

/// The hashes that stand in a list, as `as_map` tells.
pub open spec fn listed(entries: Seq<(BisqHash, u64)>) -> Map<HashModel, u64> {
    as_map(entries, entries.len())
}

/// What some slots hold between them: each hash that stands in the list of
/// its own slot, with the time that stands with it there.
pub open spec fn slotted(slots: Map<u64, Vec<(BisqHash, u64)>>) -> Map<HashModel, u64> {
    Map::new(
        |hash: HashModel|
            slots.contains_key(slot_of(hash.bytes())) && listed(
                slots[slot_of(hash.bytes())]@,
            ).contains_key(hash),
        |hash: HashModel| listed(slots[slot_of(hash.bytes())]@)[hash],
    )
}

/// The router: it remembers what was delivered. The hashes are kept in
/// slots, so that a hash is looked for among the few of its own slot.
pub struct DataRouter {
    delivered_message_hashes: HashMap<u64, Vec<(BisqHash, u64)>>,
}

impl DataRouter {
    /// The hashes of what was delivered, each with the time of its first
    /// delivery.
    pub closed spec fn delivered(&self) -> Map<HashModel, u64> {
        slotted(self.delivered_message_hashes@)
    }

    pub fn start() -> (router: DataRouter)
        ensures
            router.delivered() == Map::<HashModel, u64>::empty(),
    {
        let router = DataRouter { delivered_message_hashes: HashMap::new() };
        assert(router.delivered() =~= Map::<HashModel, u64>::empty());
        router
    }

    /// Whether data of this hash was delivered before.
    pub fn was_delivered(&self, hash: &BisqHash) -> (known: bool)
        ensures
            known == self.delivered().contains_key(hash@),
    {
        let entries = match self.delivered_message_hashes.get(&slot(hash.bytes())) {
            Some(entries) => entries,
            None => {
                return false;
            },
        };
        proof {
            lemma_as_map_keys(entries@, entries@.len(), hash@);
        }
        let mut at: usize = 0;
        while at < entries.len()
            invariant
                at <= entries@.len(),
                self.delivered().contains_key(hash@) == listed(entries@).contains_key(hash@),
                listed(entries@).contains_key(hash@) <==> exists|i: int|
                    0 <= i < entries@.len() && (#[trigger] entries@[i]).0@ == hash@,
                forall|i: int| 0 <= i < at ==> (#[trigger] entries@[i]).0@ != hash@,
            decreases entries@.len() - at,
        {
            if entries[at].0.same(hash) {
                return true;
            }
            at = at + 1;
        }
        false
    }

    /// Remembers a hash with the time of its delivery, unless it is
    /// remembered already, and says whether it was new.
    fn take_in(&mut self, hash: Option<BisqHash>, now: u64) -> (new: bool)
        requires
            match view_of(hash) {
                Some(hash) => hash.wf(),
                None => true,
            },
        ensures
            final(self).delivered() == admitted(old(self).delivered(), view_of(hash), now),
            new == admits(old(self).delivered(), view_of(hash)),
            grown_well(old(self).delivered(), final(self).delivered()),
    {
        match hash {
            Some(hash) => if self.was_delivered(&hash) {
                false
            } else {
                let at = slot(hash.bytes());
                let ghost model = hash@;
                let ghost slots = self.delivered_message_hashes@;
                let mut entries = match self.delivered_message_hashes.remove(&at) {
                    Some(entries) => entries,
                    None => Vec::new(),
                };
                let ghost before = entries@;
                entries.push((hash, now));
                proof {
                    lemma_as_map_start(entries@, before, before.len());
                    assert(listed(entries@) == listed(before).insert(model, now));
                    assert(slots.contains_key(at) ==> before == slots[at]@);
                    assert(!slots.contains_key(at) ==> listed(before) =~= Map::<
                        HashModel,
                        u64,
                    >::empty());
                }
                let _ = self.delivered_message_hashes.insert(at, entries);
                proof {
                    let after = self.delivered_message_hashes@;
                    assert(after == slots.remove(at).insert(at, entries));
                    assert forall|other: HashModel|
                        slotted(after).contains_key(other) == slotted(slots).insert(
                            model,
                            now,
                        ).contains_key(other) by {}
                    assert forall|other: HashModel| slotted(after).contains_key(other) implies
                        #[trigger] slotted(after)[other] == slotted(slots).insert(
                            model,
                            now,
                        )[other] by {}
                    assert(slotted(after) =~= slotted(slots).insert(model, now));
                }
                true
            },
            None => false,
        }
    }

    /// Takes no notice of what became of a command.
    pub fn ignore_command_result() -> (rebroadcast: Option<Broadcast>)
        ensures
            rebroadcast is None,
    {
        None
    }

    /// The message to pass on after the result of a command has come: the
    /// one that was set aside for it, where the command was accepted.
    pub fn handle_command_result(
        rebroadcast: Option<Broadcast>,
        result: Result<CommandResult, Error>,
    ) -> (broadcast: Option<Broadcast>)
        ensures
            broadcast == if result == Ok::<CommandResult, Error>(CommandResult::Accepted) {
                rebroadcast
            } else {
                None
            },
    {
        match result {
            Ok(CommandResult::Accepted) => rebroadcast,
            _ => None,
        }
    }

    fn route_protected_storage_entry(
        &mut self,
        entry: Option<&ProtectedStorageEntry>,
        now: u64,
    ) -> (command: Option<Command>)
        ensures
            final(self).delivered() == admitted(
                old(self).delivered(),
                entry_hash(deref_entry(entry)),
                now,
            ),
            command_view(command) == if admits(
                old(self).delivered(),
                entry_hash(deref_entry(entry)),
            ) {
                entry_command(deref_entry(entry))
            } else {
                None
            },
            grown_well(old(self).delivered(), final(self).delivered()),
    {
        let entry = match entry {
            Some(entry) => entry,
            None => {
                return None;
            },
        };
        let bisq_hash = match &entry.storage_payload {
            Some(payload) => Some(BisqHash::Sha256(payload.bisq_hash())),
            None => None,
        };
        if !self.take_in(bisq_hash, now) {
            return None;
        }
        match open_offer(entry) {
            Some(offer) => Some(Command::AddOffer(offer)),
            None => None,
        }
    }

    fn route_storage_entry_wrapper(
        &mut self,
        entry_wrapper: Option<&StorageEntryWrapper>,
        now: u64,
    ) -> (command: Option<Command>)
        ensures
            final(self).delivered() == admitted(
                old(self).delivered(),
                entry_hash(entry_of(deref_wrapper(entry_wrapper))),
                now,
            ),
            command_view(command) == if admits(
                old(self).delivered(),
                entry_hash(entry_of(deref_wrapper(entry_wrapper))),
            ) {
                entry_command(entry_of(deref_wrapper(entry_wrapper)))
            } else {
                None
            },
            grown_well(old(self).delivered(), final(self).delivered()),
    {
        let wrapper = match entry_wrapper {
            Some(wrapper) => wrapper,
            None => {
                return None;
            },
        };
        match &wrapper.message {
            Some(StorageEntryWrapperMessage::ProtectedStorageEntry(entry)) => {
                self.route_protected_storage_entry(Some(entry), now)
            },
            Some(StorageEntryWrapperMessage::ProtectedMailboxStorageEntry(mailbox)) => {
                self.route_protected_storage_entry(mailbox.entry.as_ref(), now)
            },
            None => None,
        }
    }

    fn route_persistable_network_payload(
        &mut self,
        payload: Option<&PersistableNetworkPayload>,
        now: u64,
    ) -> (command: Option<Command>)
        ensures
            final(self).delivered() == admitted(
                old(self).delivered(),
                payload_hash(deref_payload(payload)),
                now,
            ),
            command_view(command) == if admits(
                old(self).delivered(),
                payload_hash(deref_payload(payload)),
            ) {
                payload_command(deref_payload(payload))
            } else {
                None
            },
            grown_well(old(self).delivered(), final(self).delivered()),
    {
        let payload = match payload {
            Some(payload) => payload,
            None => {
                return None;
            },
        };
        let bisq_hash = match PersistentMessageHash::from_bytes(copy_bytes(&payload.hash)) {
            Some(hash) => Some(BisqHash::Persistent(hash)),
            None => None,
        };
        if !self.take_in(bisq_hash, now) {
            return None;
        }
        match &payload.message {
            Some(PersistableNetworkPayloadMessage::TradeStatistics2(Some(trade))) => Some(
                Command::AddTrade(trade.duplicate()),
            ),
            _ => None,
        }
    }
}

/// What a hash holds, if there is one.
pub open spec fn view_of(hash: Option<BisqHash>) -> Option<HashModel> {
    match hash {
        Some(hash) => Some(hash@),
        None => None,
    }
}

/// What a command holds, if there is one.
pub open spec fn command_view(command: Option<Command>) -> Option<CommandModel> {
    match command {
        Some(command) => Some(command@),
        None => None,
    }
}

pub open spec fn deref_entry(entry: Option<&ProtectedStorageEntry>) -> Option<
    ProtectedStorageEntry,
> {
    match entry {
        Some(entry) => Some(*entry),
        None => None,
    }
}

pub open spec fn deref_wrapper(wrapper: Option<&StorageEntryWrapper>) -> Option<
    StorageEntryWrapper,
> {
    match wrapper {
        Some(wrapper) => Some(*wrapper),
        None => None,
    }
}

pub open spec fn deref_payload(payload: Option<&PersistableNetworkPayload>) -> Option<
    PersistableNetworkPayload,
> {
    match payload {
        Some(payload) => Some(*payload),
        None => None,
    }
}

proof fn lemma_as_map_start(
    whole: Seq<(BisqHash, u64)>,
    start: Seq<(BisqHash, u64)>,
    count: nat,
)
    requires
        count <= start.len() <= whole.len(),
        forall|i: int| 0 <= i < start.len() ==> start[i] == whole[i],
    ensures
        as_map(whole, count) == as_map(start, count),
    decreases count,
{
    if count > 0 {
        lemma_as_map_start(whole, start, (count - 1) as nat);
    }
}

impl DataRouter {
    /// What was delivered and what some routed commands hold, taken
    /// together.
    pub open spec fn model(&self, routed: Seq<Routed>) -> RoutingModel {
        RoutingModel { delivered: self.delivered(), routed: routed_views(routed) }
    }

    /// Routes the data that a seed node gave at the start: first the
    /// entries, then the persistable payloads, each in its order. None of
    /// it is passed on.
    fn route_bootstrap_data(
        &mut self,
        data: &Vec<StorageEntryWrapper>,
        payloads: &Vec<PersistableNetworkPayload>,
        now: u64,
    ) -> (routed: Vec<Routed>)
        ensures
            final(self).model(routed@) == old(self).model(Seq::empty()).with_entries(
                data@,
                data@.len(),
                now,
            ).with_payloads(payloads@, payloads@.len(), now),
            grown_well(old(self).delivered(), final(self).delivered()),
    {
        let mut routed: Vec<Routed> = Vec::new();
        assert(routed_views(routed@) =~= Seq::<RoutedModel>::empty());
        assert(routed_views(Seq::<Routed>::empty()) =~= Seq::<RoutedModel>::empty());
        let mut at: usize = 0;
        while at < data.len()
            invariant
                at <= data@.len(),
                self.model(routed@) == old(self).model(Seq::empty()).with_entries(
                    data@,
                    at as nat,
                    now,
                ),
                grown_well(old(self).delivered(), self.delivered()),
            decreases data@.len() - at,
        {
            let ghost before = routed_views(routed@);
            match self.route_storage_entry_wrapper(Some(&data[at]), now) {
                Some(command) => {
                    routed.push(Routed { command, rebroadcast: Self::ignore_command_result() });
                    assert(routed_views(routed@) =~= before.push(
                        RoutedModel { command: command@, rebroadcast: None },
                    ));
                },
                None => {},
            }
            at = at + 1;
        }
        let ghost entries_done = self.model(routed@);
        let mut at: usize = 0;
        while at < payloads.len()
            invariant
                at <= payloads@.len(),
                self.model(routed@) == entries_done.with_payloads(payloads@, at as nat, now),
                grown_well(old(self).delivered(), self.delivered()),
            decreases payloads@.len() - at,
        {
            let ghost before = routed_views(routed@);
            match self.route_persistable_network_payload(Some(&payloads[at]), now) {
                Some(command) => {
                    routed.push(Routed { command, rebroadcast: Self::ignore_command_result() });
                    assert(routed_views(routed@) =~= before.push(
                        RoutedModel { command: command@, rebroadcast: None },
                    ));
                },
                None => {},
            }
            at = at + 1;
        }
        routed
    }

    /// Looks at a dispatch that came from the connection `origin` at the
    /// time `now`, in milliseconds since the epoch, and gives the commands
    /// to send. Data that was delivered before asks for nothing. With each
    /// command comes the message to pass on once it was accepted: the one
    /// that came in, to all peers but `origin`; nothing for what a seed
    /// node gave at the start.
    pub fn handle(
        &mut self,
        origin: ConnectionId,
        dispatch: DataRouterDispatch,
        now: u64,
    ) -> (routed: Vec<Routed>)
        ensures
            final(self).model(routed@) == handled(old(self).delivered(), origin, dispatch, now),
            grown_well(old(self).delivered(), final(self).delivered()),
    {
        assert(routed_views(Seq::<Routed>::empty()) =~= Seq::<RoutedModel>::empty());
        match dispatch {
            DataRouterDispatch::Bootstrap(data, persistable_network_payloads) => {
                self.route_bootstrap_data(&data, &persistable_network_payloads, now)
            },
            DataRouterDispatch::RefreshOffer(msg) => {
                let mut routed: Vec<Routed> = Vec::new();
                match refresh_offer(&msg) {
                    Some(refresh) => {
                        let ghost command = CommandModel::RefreshOffer(
                            refresh.sequence,
                            refresh.bisq_hash@,
                        );
                        let rebroadcast = Some(
                            Broadcast(Message::RefreshOfferMessage(msg), Some(origin)),
                        );
                        routed.push(Routed { command: Command::RefreshOffer(refresh), rebroadcast });
                        assert(routed_views(routed@) =~= seq![RoutedModel { command, rebroadcast }]);
                    },
                    None => {
                        assert(routed_views(routed@) =~= Seq::<RoutedModel>::empty());
                    },
                }
                routed
            },
            DataRouterDispatch::AddData(data) => {
                let mut routed: Vec<Routed> = Vec::new();
                assert(routed_views(routed@) =~= Seq::<RoutedModel>::empty());
                match self.route_storage_entry_wrapper(data.entry.as_ref(), now) {
                    Some(command) => {
                        let rebroadcast = Some(
                            Broadcast(Message::AddDataMessage(data), Some(origin)),
                        );
                        routed.push(Routed { command, rebroadcast });
                        assert(routed_views(routed@) =~= Seq::<RoutedModel>::empty().push(
                            RoutedModel { command: command@, rebroadcast },
                        ));
                    },
                    None => {},
                }
                routed
            },
            DataRouterDispatch::AddPersistableNetworkPayload(msg) => {
                let mut routed: Vec<Routed> = Vec::new();
                assert(routed_views(routed@) =~= Seq::<RoutedModel>::empty());
                match self.route_persistable_network_payload(msg.payload.as_ref(), now) {
                    Some(command) => {
                        let rebroadcast = Some(
                            Broadcast(
                                Message::AddPersistableNetworkPayloadMessage(msg),
                                Some(origin),
                            ),
                        );
                        routed.push(Routed { command, rebroadcast });
                        assert(routed_views(routed@) =~= Seq::<RoutedModel>::empty().push(
                            RoutedModel { command: command@, rebroadcast },
                        ));
                    },
                    None => {},
                }
                routed
            },
        }
    }
}

/// Whether none of some routed commands has a message to pass on.
pub open spec fn passes_nothing_on(routed: Seq<RoutedModel>) -> bool {
    forall|i: int| 0 <= i < routed.len() ==> (#[trigger] routed[i]).rebroadcast is None
}

/// Whether every message that some routed commands have to pass on goes to
/// all peers but `origin`.
pub open spec fn spares(routed: Seq<RoutedModel>, origin: ConnectionId) -> bool {
    forall|i: int|
        0 <= i < routed.len() ==> match (#[trigger] routed[i]).rebroadcast {
            Some(broadcast) => broadcast.1 == Some(origin),
            None => true,
        }
}

/// Whether all that `before` knows as delivered `after` knows too, with the
/// same time.
pub open spec fn keeps(before: Map<HashModel, u64>, after: Map<HashModel, u64>) -> bool {
    forall|hash: HashModel| #[trigger]
        before.contains_key(hash) ==> after.contains_key(hash) && after[hash] == before[hash]
}

proof fn lemma_entries(start: RoutingModel, data: Seq<StorageEntryWrapper>, count: nat, now: u64)
    ensures
        keeps(start.delivered, start.with_entries(data, count, now).delivered),
        passes_nothing_on(start.routed) ==> passes_nothing_on(
            start.with_entries(data, count, now).routed,
        ),
        start.with_entries(data, count, now).routed.len() >= start.routed.len(),
    decreases count,
{
    if count > 0 {
        lemma_entries(start, data, (count - 1) as nat, now);
    }
}

proof fn lemma_payloads(
    start: RoutingModel,
    payloads: Seq<PersistableNetworkPayload>,
    count: nat,
    now: u64,
)
    ensures
        keeps(start.delivered, start.with_payloads(payloads, count, now).delivered),
        passes_nothing_on(start.routed) ==> passes_nothing_on(
            start.with_payloads(payloads, count, now).routed,
        ),
    decreases count,
{
    if count > 0 {
        lemma_payloads(start, payloads, (count - 1) as nat, now);
    }
}

/// What was delivered once stays delivered, with the time of its first
/// delivery, whatever is dispatched later.
pub proof fn law_delivered_stays(
    delivered: Map<HashModel, u64>,
    origin: ConnectionId,
    dispatch: DataRouterDispatch,
    now: u64,
)
    ensures
        keeps(delivered, handled(delivered, origin, dispatch, now).delivered),
{
    let start = RoutingModel { delivered, routed: Seq::empty() };
    match dispatch {
        DataRouterDispatch::Bootstrap(data, payloads) => {
            lemma_entries(start, data@, data@.len(), now);
            lemma_payloads(
                start.with_entries(data@, data@.len(), now),
                payloads@,
                payloads@.len(),
                now,
            );
        },
        _ => {},
    }
}

/// Data asks for its command exactly once: when it comes in for the first
/// time, with the message to pass on to all peers but the one it came from.
/// When the same entry comes in again, from whatever connection and at
/// whatever time, nothing is sent and nothing changes.
pub proof fn law_entry_is_routed_once(
    delivered: Map<HashModel, u64>,
    data: AddDataMessage,
    first: ConnectionId,
    second: ConnectionId,
    now: u64,
    later: u64,
)
    ensures
        admits(delivered, entry_hash(entry_of(data.entry))) && entry_command(
            entry_of(data.entry),
        ) is Some ==> handled(delivered, first, DataRouterDispatch::AddData(data), now).routed
            == seq![
            RoutedModel {
                command: entry_command(entry_of(data.entry))->0,
                rebroadcast: Some(Broadcast(Message::AddDataMessage(data), Some(first))),
            },
        ],
        handled(delivered, first, DataRouterDispatch::AddData(data), now).routed.len() <= 1,
        handled(
            handled(delivered, first, DataRouterDispatch::AddData(data), now).delivered,
            second,
            DataRouterDispatch::AddData(data),
            later,
        ) == (RoutingModel {
            delivered: handled(
                delivered,
                first,
                DataRouterDispatch::AddData(data),
                now,
            ).delivered,
            routed: Seq::empty(),
        }),
{
}

/// The same holds of a persistable payload.
pub proof fn law_payload_is_routed_once(
    delivered: Map<HashModel, u64>,
    msg: AddPersistableNetworkPayloadMessage,
    first: ConnectionId,
    second: ConnectionId,
    now: u64,
    later: u64,
)
    ensures
        handled(
            delivered,
            first,
            DataRouterDispatch::AddPersistableNetworkPayload(msg),
            now,
        ).routed.len() <= 1,
        handled(
            handled(
                delivered,
                first,
                DataRouterDispatch::AddPersistableNetworkPayload(msg),
                now,
            ).delivered,
            second,
            DataRouterDispatch::AddPersistableNetworkPayload(msg),
            later,
        ) == (RoutingModel {
            delivered: handled(
                delivered,
                first,
                DataRouterDispatch::AddPersistableNetworkPayload(msg),
                now,
            ).delivered,
            routed: Seq::empty(),
        }),
{
}

/// An entry whose hash was delivered before, whenever and from wherever,
/// asks for nothing and changes nothing.
pub proof fn law_known_entry_is_dropped(
    delivered: Map<HashModel, u64>,
    data: AddDataMessage,
    origin: ConnectionId,
    now: u64,
)
    requires
        entry_hash(entry_of(data.entry)) is Some,
        delivered.contains_key(entry_hash(entry_of(data.entry))->0),
    ensures
        handled(delivered, origin, DataRouterDispatch::AddData(data), now) == (RoutingModel {
            delivered,
            routed: Seq::empty(),
        }),
{
}

/// Data of a hash that was delivered asks for nothing and changes nothing.
pub proof fn law_known_data_is_dropped(
    routing: RoutingModel,
    hash: HashModel,
    command: Option<CommandModel>,
    rebroadcast: Option<Broadcast>,
    now: u64,
)
    requires
        routing.delivered.contains_key(hash),
    ensures
        routing.with(Some(hash), command, rebroadcast, now) == routing,
{
}

/// A message that came from a peer is passed on, if at all, to all peers
/// but the one it came from.
pub proof fn law_rebroadcast_spares_the_origin(
    delivered: Map<HashModel, u64>,
    origin: ConnectionId,
    dispatch: DataRouterDispatch,
    now: u64,
)
    ensures
        spares(handled(delivered, origin, dispatch, now).routed, origin),
{
    law_bootstrap_is_not_passed_on(delivered, origin, dispatch, now);
}

/// What a seed node gave at the start is never passed on.
pub proof fn law_bootstrap_is_not_passed_on(
    delivered: Map<HashModel, u64>,
    origin: ConnectionId,
    dispatch: DataRouterDispatch,
    now: u64,
)
    ensures
        dispatch is Bootstrap ==> passes_nothing_on(
            handled(delivered, origin, dispatch, now).routed,
        ),
{
    let start = RoutingModel { delivered, routed: Seq::empty() };
    match dispatch {
        DataRouterDispatch::Bootstrap(data, payloads) => {
            lemma_entries(start, data@, data@.len(), now);
            lemma_payloads(
                start.with_entries(data@, data@.len(), now),
                payloads@,
                payloads@.len(),
                now,
            );
        },
        _ => {},
    }
}

/// Every refresh whose hash has the length of a hash is sent to the offer
/// book, whatever its sequence number and however often it has come
/// before, with the message to pass on to all peers but the one it came
/// from; nothing is remembered of it.
pub proof fn law_every_refresh_is_sent(
    delivered: Map<HashModel, u64>,
    msg: RefreshOfferMessage,
    origin: ConnectionId,
    now: u64,
)
    requires
        msg.hash_of_payload@.len() == SHA256_LEN,
    ensures
        handled(delivered, origin, DataRouterDispatch::RefreshOffer(msg), now) == (RoutingModel {
            delivered,
            routed: seq![
                RoutedModel {
                    command: CommandModel::RefreshOffer(
                        sequence_of(msg.sequence_number),
                        HashModel::Sha256(msg.hash_of_payload@),
                    ),
                    rebroadcast: Some(Broadcast(Message::RefreshOfferMessage(msg), Some(origin))),
                },
            ],
        }),
{
}

/// An entry that holds an offer and comes in for the first time sends the
/// offer to the offer book, whatever its sequence number: from a peer, by
/// `law_entry_is_routed_once`; from a seed node at the start, as here, with
/// nothing to pass on.
pub proof fn law_bootstrap_offer_is_routed(
    delivered: Map<HashModel, u64>,
    data: Vec<StorageEntryWrapper>,
    payloads: Vec<PersistableNetworkPayload>,
    origin: ConnectionId,
    now: u64,
)
    requires
        data@.len() == 1,
        payloads@.len() == 0,
        entry_of(Some(data@[0])) is Some,
        offer_in(entry_of(Some(data@[0]))->0) is Some,
        !delivered.contains_key(entry_hash(entry_of(Some(data@[0])))->0),
    ensures
        handled(delivered, origin, DataRouterDispatch::Bootstrap(data, payloads), now) == (
        RoutingModel {
            delivered: delivered.insert(entry_hash(entry_of(Some(data@[0])))->0, now),
            routed: seq![
                RoutedModel {
                    command: CommandModel::AddOffer(offer_in(entry_of(Some(data@[0]))->0)->0),
                    rebroadcast: None,
                },
            ],
        }),
{
    let start = RoutingModel { delivered, routed: Seq::empty() };
    assert(start.with_entries(data@, 0, now) == start);
    let after = start.with_entries(data@, 1, now);
    assert(after.with_payloads(payloads@, 0, now) == after);
    assert(after.routed =~= seq![
        RoutedModel {
            command: CommandModel::AddOffer(offer_in(entry_of(Some(data@[0]))->0)->0),
            rebroadcast: None,
        },
    ]);
}

} // verus!
