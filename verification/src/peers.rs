//! The peers that are connected, and the passing on of messages to them.

use crate::bisq::payload::MessageVersion;
use crate::connection::ConnectionId;
use std::collections::HashMap;
use vstd::prelude::*;
use vstd::std_specs::hash::spec_keys_iter;
use vstd::std_specs::iter::IteratorSpec;

verus! {

broadcast use vstd::std_specs::hash::group_hash_axioms;

/// Whether `targets` are the peers to which a message goes that is passed
/// on to all of `peers` but `except`: each of them once, and no one else.
/// The peers are told apart by the numbers of their connections' names.
pub open spec fn reaches<H>(
    targets: Seq<ConnectionId>,
    peers: Map<u128, H>,
    except: Option<ConnectionId>,
) -> bool {
    &&& targets.no_duplicates()
    &&& forall|id: ConnectionId| #[trigger]
        targets.contains(id) <==> peers.contains_key(id.0) && Some(id) != except
}

/// The peers that are connected. `H` is what a message is handed to on its
/// way to a peer.
pub struct Peers<H> {
    connections: HashMap<u128, H>,
    message_version: MessageVersion,
}

impl<H> Peers<H> {
    /// What messages to the peers are handed to, by the numbers of their
    /// connections' names.
    pub closed spec fn connected(&self) -> Map<u128, H> {
        self.connections@
    }

    pub closed spec fn version(&self) -> MessageVersion {
        self.message_version
    }

    pub fn start(message_version: MessageVersion) -> (peers: Self)
        ensures
            peers.connected() == Map::<u128, H>::empty(),
            peers.version() == message_version,
    {
        Peers { connections: HashMap::new(), message_version }
    }

    pub fn message_version(&self) -> (version: MessageVersion)
        ensures
            version == self.version(),
    {
        self.message_version
    }

    /// Takes in a peer after its connection was opened. A peer that was
    /// there under the same name gives way to it.
    pub fn add(&mut self, id: ConnectionId, handle: H)
        ensures
            final(self).connected() == old(self).connected().insert(id.0, handle),
            final(self).version() == old(self).version(),
    {
        let _ = self.connections.insert(id.0, handle);
    }

    /// Lets go of a peer when its connection was closed, and gives what
    /// stood for it.
    pub fn remove(&mut self, id: ConnectionId) -> (handle: Option<H>)
        ensures
            final(self).connected() == old(self).connected().remove(id.0),
            final(self).version() == old(self).version(),
            handle == if old(self).connected().contains_key(id.0) {
                Some(old(self).connected()[id.0])
            } else {
                None
            },
    {
        self.connections.remove(&id.0)
    }

    /// What stands for the peer of a name, if it is connected.
    pub fn get(&self, id: ConnectionId) -> (handle: Option<&H>)
        ensures
            match handle {
                Some(handle) => self.connected().contains_key(id.0) && *handle
                    == self.connected()[id.0],
                None => !self.connected().contains_key(id.0),
            },
    {
        self.connections.get(&id.0)
    }

    /// The peers to which a message goes that is passed on to all but the
    /// one it came from, in no order that could be told beforehand.
    pub fn broadcast(&self, except: Option<ConnectionId>) -> (targets: Vec<ConnectionId>)
        ensures
            reaches(targets@, self.connected(), except),
            forall|i: int| 0 <= i < targets@.len() ==> Some(#[trigger] targets@[i]) != except,
    {
        let mut targets: Vec<ConnectionId> = Vec::new();
        let ghost all = spec_keys_iter(&self.connections).remaining();
        let ghost mut seen: int = 0;
        proof {
            vstd::std_specs::hash::axiom_spec_keys_iter(&self.connections);
        }
        for key in it: self.connections.keys()
            invariant
                it.seq() == all,
                seen == it.index(),
                all.no_duplicates(),
                targets@.no_duplicates(),
                forall|id: ConnectionId| #[trigger]
                    targets@.contains(id) <==> Some(id) != except && exists|j: int|
                        0 <= j < seen && *(#[trigger] all[j]) == id.0,
        {
            let ghost before = targets@;
            let id = ConnectionId(*key);
            assert(*all[seen] == id.0);
            let skip = match except {
                Some(except) => except == id,
                None => false,
            };
            if !skip {
                proof {
                    if before.contains(id) {
                        let j = choose|j: int| 0 <= j < seen && *(#[trigger] all[j]) == id.0;
                        assert(all[j] == all[seen]);
                    }
                }
                targets.push(id);
                assert(targets@[targets@.len() - 1] == id);
            }
            proof {
                assert forall|other: ConnectionId| #[trigger]
                    targets@.contains(other) <==> Some(other) != except && exists|j: int|
                        0 <= j < seen + 1 && *(#[trigger] all[j]) == other.0 by {
                    if targets@.contains(other) {
                        let i = choose|i: int| 0 <= i < targets@.len() && targets@[i] == other;
                        if i < before.len() {
                            assert(before[i] == other);
                            assert(before.contains(other));
                            let j = choose|j: int|
                                0 <= j < seen && *(#[trigger] all[j]) == other.0;
                            assert(*all[j] == other.0);
                        } else {
                            assert(*all[seen] == other.0);
                        }
                    }
                    if Some(other) != except && exists|j: int|
                        0 <= j < seen + 1 && *(#[trigger] all[j]) == other.0 {
                        let j = choose|j: int|
                            0 <= j < seen + 1 && *(#[trigger] all[j]) == other.0;
                        if j < seen {
                            assert(before.contains(other));
                            let i = choose|i: int| 0 <= i < before.len() && before[i] == other;
                            assert(targets@[i] == other);
                        } else {
                            assert(other == id);
                            assert(targets@[targets@.len() - 1] == other);
                        }
                    }
                }
                seen = seen + 1;
            }
        }
        proof {
            assert(seen == all.len());
            assert forall|id: ConnectionId| #[trigger]
                targets@.contains(id) <==> self.connected().contains_key(id.0) && Some(id)
                    != except by {
                if targets@.contains(id) {
                    let j = choose|j: int| 0 <= j < seen && *(#[trigger] all[j]) == id.0;
                    assert(all.unref()[j] == id.0);
                    assert(all.unref().to_set().contains(id.0));
                }
                if self.connected().contains_key(id.0) && Some(id) != except {
                    assert(all.unref().to_set().contains(id.0));
                    let j = choose|j: int| 0 <= j < all.unref().len() && all.unref()[j] == id.0;
                    assert(*all[j] == id.0);
                }
            }
            assert forall|i: int| 0 <= i < targets@.len() implies Some(#[trigger] targets@[i])
                != except by {
                assert(targets@.contains(targets@[i]));
            }
        }
        targets
    }
}

/// A message that is passed on goes to every peer but the one it came
/// from, once, and to no one else.
pub proof fn law_broadcast_spares_the_origin<H>(
    targets: Seq<ConnectionId>,
    peers: Map<u128, H>,
    origin: ConnectionId,
)
    requires
        reaches(targets, peers, Some(origin)),
    ensures
        !targets.contains(origin),
        forall|i: int| 0 <= i < targets.len() ==> #[trigger] targets[i] != origin,
        forall|id: ConnectionId|
            peers.contains_key(id.0) && id != origin ==> #[trigger] targets.contains(id),
{
    assert forall|i: int| 0 <= i < targets.len() implies #[trigger] targets[i] != origin by {
        assert(targets.contains(targets[i]));
    }
}

} // verus!
