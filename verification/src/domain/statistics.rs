//! The cache of trade statistics.

use crate::domain::market::Market;
use crate::domain::statistics::ticker::Ticker;
use crate::domain::statistics::trade::{
    ordered_by_time, place_of, reversed, Trade, TradeHistory,
};
use crate::domain::CommandResult;
use crate::bisq::hash::{slot, slot_of, PersistentMessageHash};
use std::collections::HashMap;
use vstd::prelude::*;

pub mod ticker;
pub mod trade;

verus! {

broadcast use vstd::std_specs::hash::group_hash_axioms;

/// What the cache holds: the trades, oldest first, and the hashes of all
/// trades that were ever taken in.
pub struct CacheModel {
    pub history: Seq<Trade>,
    pub known: Set<Seq<u8>>,
}

impl CacheModel {
    /// Whether a trade is new to the cache.
    pub open spec fn accepts(self, trade: Trade) -> bool {
        !self.known.contains(trade.hash@)
    }

    /// The cache after a trade was offered to it: a new trade is put in its
    /// place, a known one changes nothing.
    pub open spec fn with(self, trade: Trade) -> CacheModel {
        if self.accepts(trade) {
            CacheModel {
                history: self.history.insert(
                    place_of(self.history, trade.timestamp) as int,
                    trade,
                ),
                known: self.known.insert(trade.hash@),
            }
        } else {
            self
        }
    }

    /// The cache after the first `count` of `trades` were offered to it.
    pub open spec fn with_all(self, trades: Seq<Trade>, count: nat) -> CacheModel
        decreases count,
    {
        if count == 0 {
            self
        } else {
            self.with_all(trades, (count - 1) as nat).with(trades[count - 1])
        }
    }

    /// Whether the hash of every trade in the history is known.
    pub open spec fn covers_history(self) -> bool {
        forall|i: int|
            0 <= i < self.history.len() ==> self.known.contains(
                (#[trigger] self.history[i]).hash@,
            )
    }
}

/// Whether a hash stands in a list of hashes.
pub open spec fn stands_in(hashes: Seq<PersistentMessageHash>, hash: Seq<u8>) -> bool {
    exists|i: int| 0 <= i < hashes.len() && (#[trigger] hashes[i])@ == hash
}

/// The hashes that some slots hold between them: each hash that stands in
/// the list of its own slot.
pub open spec fn slotted(slots: Map<u64, Vec<PersistentMessageHash>>) -> Set<Seq<u8>> {
    Set::new(
        |hash: Seq<u8>|
            slots.contains_key(slot_of(hash)) && stands_in(slots[slot_of(hash)]@, hash),
    )
}

/// The trades that were taken in, and their hashes. The hashes are kept in
/// slots, so that a hash is looked for among the few of its own slot.
pub struct StatsCacheInner {
    trades: TradeHistory,
    hashes: HashMap<u64, Vec<PersistentMessageHash>>,
}

impl View for StatsCacheInner {
    type V = CacheModel;

    closed spec fn view(&self) -> CacheModel {
        CacheModel { history: self.trades@, known: slotted(self.hashes@) }
    }
}

impl StatsCacheInner {
    pub fn new() -> (cache: Self)
        ensures
            cache@.history == Seq::<Trade>::empty(),
            cache@.known == Set::<Seq<u8>>::empty(),
    {
        let cache = Self { trades: TradeHistory::new(), hashes: HashMap::new() };
        assert(cache@.known =~= Set::<Seq<u8>>::empty());
        cache
    }

    fn knows(&self, hash: &PersistentMessageHash) -> (known: bool)
        ensures
            known == self@.known.contains(hash@),
    {
        let hashes = match self.hashes.get(&slot(hash.bytes())) {
            Some(hashes) => hashes,
            None => {
                return false;
            },
        };
        let mut at: usize = 0;
        while at < hashes.len()
            invariant
                at <= hashes@.len(),
                self@.known.contains(hash@) == stands_in(hashes@, hash@),
                forall|i: int| 0 <= i < at ==> (#[trigger] hashes@[i])@ != hash@,
            decreases hashes@.len() - at,
        {
            if hashes[at].same(hash) {
                return true;
            }
            at = at + 1;
        }
        false
    }

    /// Takes a trade in, unless one of the same hash was taken in before.
    pub fn insert(&mut self, trade: Trade) -> (result: CommandResult)
        ensures
            final(self)@ == old(self)@.with(trade),
            result == if old(self)@.accepts(trade) {
                CommandResult::Accepted
            } else {
                CommandResult::Ignored
            },
    {
        if self.knows(&trade.hash) {
            CommandResult::Ignored
        } else {
            let at = slot(trade.hash.bytes());
            let ghost slots = self.hashes@;
            let mut hashes = match self.hashes.remove(&at) {
                Some(hashes) => hashes,
                None => Vec::new(),
            };
            let ghost before = hashes@;
            hashes.push(trade.hash.duplicate());
            proof {
                assert(hashes@[before.len() as int]@ == trade.hash@);
                assert forall|hash: Seq<u8>|
                    stands_in(hashes@, hash) == (stands_in(before, hash) || hash
                        == trade.hash@) by {
                    if stands_in(before, hash) {
                        let i = choose|i: int| 0 <= i < before.len() && (#[trigger] before[i])@ == hash;
                        assert(hashes@[i]@ == hash);
                    }
                    if stands_in(hashes@, hash) {
                        let i = choose|i: int| 0 <= i < hashes@.len() && (#[trigger] hashes@[i])@ == hash;
                        if i < before.len() {
                            assert(before[i]@ == hash);
                        }
                    }
                }
                assert(slots.contains_key(at) ==> before == slots[at]@);
            }
            let _ = self.hashes.insert(at, hashes);
            self.trades.insert(trade);
            proof {
                assert(self.hashes@ == slots.remove(at).insert(at, hashes));
                assert forall|hash: Seq<u8>|
                    slotted(self.hashes@).contains(hash) == slotted(slots).insert(
                        trade.hash@,
                    ).contains(hash) by {}
                assert(self@.known =~= old(self)@.known.insert(trade.hash@));
            }
            CommandResult::Accepted
        }
    }

    /// Takes in each of the trades that is new, in the order given.
    pub fn bootstrap(&mut self, trades: Vec<Trade>)
        ensures
            final(self)@ == old(self)@.with_all(trades@, trades@.len()),
    {
        let ghost all = trades@;
        let mut rest: Vec<Trade> = reversed(trades);
        while rest.len() > 0
            invariant
                rest@.len() <= all.len(),
                rest@ == all.reverse().take(rest@.len() as int),
                self@ == old(self)@.with_all(all, (all.len() - rest@.len()) as nat),
            decreases rest.len(),
        {
            let trade = rest.pop().unwrap();
            assert(trade == all[all.len() - rest@.len() - 1]);
            self.insert(trade);
        }
    }

    /// The trades, oldest first.
    pub fn trades(&self) -> (trades: &Vec<Trade>)
        ensures
            trades@ == self@.history,
    {
        self.trades.trades()
    }

    /// The cache keeps no tickers of its own, so it has none to give: they
    /// are made from its trades, by `Ticker::from_trades`.
    pub fn ticker(&self, market_pair: Option<Market>) -> (tickers: Vec<Ticker>)
        ensures
            tickers@.len() == 0,
    {
        Vec::new()
    }
}

/// The cache keeps its history in the order of time, and knows the hash
/// of every trade in it, whatever trade is offered to it.
pub proof fn law_cache_stays_in_order(cache: CacheModel, trade: Trade)
    requires
        ordered_by_time(cache.history),
        cache.covers_history(),
    ensures
        ordered_by_time(cache.with(trade).history),
        cache.with(trade).covers_history(),
{
    if cache.accepts(trade) {
        lemma_place_keeps_order(cache.history, trade);
        let place = place_of(cache.history, trade.timestamp) as int;
        let after = cache.with(trade);
        assert forall|i: int| 0 <= i < after.history.len() implies after.known.contains(
            (#[trigger] after.history[i]).hash@,
        ) by {
            if i < place {
                assert(after.history[i] == cache.history[i]);
            } else if i > place {
                assert(after.history[i] == cache.history[i - 1]);
            }
        }
    }
}

/// The same holds of a batch of trades.
pub proof fn law_cache_stays_in_order_through_batch(
    cache: CacheModel,
    trades: Seq<Trade>,
    count: nat,
)
    requires
        ordered_by_time(cache.history),
        cache.covers_history(),
    ensures
        ordered_by_time(cache.with_all(trades, count).history),
        cache.with_all(trades, count).covers_history(),
    decreases count,
{
    if count > 0 {
        law_cache_stays_in_order_through_batch(cache, trades, (count - 1) as nat);
        law_cache_stays_in_order(cache.with_all(trades, (count - 1) as nat), trades[count - 1]);
    }
}

/// A trade whose hash the cache knows is not taken in again.
pub proof fn law_trade_is_taken_in_once(cache: CacheModel, trade: Trade, again: Trade)
    requires
        again.hash@ == trade.hash@,
    ensures
        cache.with(trade).with(again) == cache.with(trade),
{
}

/// A trade put in its place keeps the order of time.
proof fn lemma_place_keeps_order(history: Seq<Trade>, trade: Trade)
    requires
        ordered_by_time(history),
    ensures
        ordered_by_time(history.insert(place_of(history, trade.timestamp) as int, trade)),
        place_of(history, trade.timestamp) <= history.len(),
        forall|i: int|
            0 <= i < place_of(history, trade.timestamp) ==> (#[trigger] history[i]).timestamp
                <= trade.timestamp,
        forall|i: int|
            place_of(history, trade.timestamp) <= i < history.len() ==> (
            #[trigger] history[i]).timestamp > trade.timestamp,
    decreases history.len(),
{
    if history.len() > 0 && history.last().timestamp > trade.timestamp {
        let shorter = history.drop_last();
        assert(ordered_by_time(shorter)) by {
            assert forall|i: int, j: int| 0 <= i <= j < shorter.len() implies shorter[i].timestamp
                <= shorter[j].timestamp by {
                assert(shorter[i] == history[i]);
                assert(shorter[j] == history[j]);
            }
        }
        lemma_place_keeps_order(shorter, trade);
        assert forall|i: int| 0 <= i < place_of(history, trade.timestamp) implies (
        #[trigger] history[i]).timestamp <= trade.timestamp by {
            assert(shorter[i] == history[i]);
        }
        assert forall|i: int|
            place_of(history, trade.timestamp) <= i < history.len() implies (
        #[trigger] history[i]).timestamp > trade.timestamp by {
            if i < shorter.len() {
                assert(shorter[i] == history[i]);
            }
        }
    }
}

} // verus!
