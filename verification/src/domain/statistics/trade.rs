//! Trades and their history.

use crate::bisq::hash::PersistentMessageHash;
use crate::domain::amount::NumberWithPrecision;
use crate::domain::decimal::Decimal;
use crate::domain::market::Market;
use crate::domain::offer::OfferDirection;
use vstd::prelude::*;

verus! {

/// A trade that has taken place. The time is in milliseconds since the epoch.
#[derive(Debug, PartialEq)]
pub struct Trade {
    pub market: Market,
    pub direction: OfferDirection,
    pub offer_id: String,
    pub price: NumberWithPrecision,
    pub amount: NumberWithPrecision,
    pub volume: NumberWithPrecision,
    pub payment_method_id: String,
    pub timestamp: u64,
    pub hash: PersistentMessageHash,
}

/// What a trade holds, as plain values.
pub struct TradeModel {
    pub market: Market,
    pub direction: OfferDirection,
    pub offer_id: Seq<char>,
    pub price: Decimal,
    pub amount: Decimal,
    pub volume: Decimal,
    pub payment_method_id: Seq<char>,
    pub timestamp: u64,
    pub hash: Seq<u8>,
}

impl View for Trade {
    type V = TradeModel;

    open spec fn view(&self) -> TradeModel {
        TradeModel {
            market: self.market,
            direction: self.direction,
            offer_id: self.offer_id@,
            price: self.price@,
            amount: self.amount@,
            volume: self.volume@,
            payment_method_id: self.payment_method_id@,
            timestamp: self.timestamp,
            hash: self.hash@,
        }
    }
}

impl Trade {
    /// A copy of the trade.
    pub fn duplicate(&self) -> (copy: Trade)
        ensures
            copy@ == self@,
    {
        Trade {
            market: self.market,
            direction: self.direction,
            offer_id: self.offer_id.clone(),
            price: self.price,
            amount: self.amount,
            volume: self.volume,
            payment_method_id: self.payment_method_id.clone(),
            timestamp: self.timestamp,
            hash: self.hash.duplicate(),
        }
    }
}

/// Whether no trade stands before an older one.
pub open spec fn ordered_by_time(trades: Seq<Trade>) -> bool {
    forall|i: int, j: int|
        0 <= i <= j < trades.len() ==> trades[i].timestamp <= trades[j].timestamp
}

/// The place of a new trade of time `timestamp`: behind the last trade that
/// is not newer.
pub open spec fn place_of(trades: Seq<Trade>, timestamp: u64) -> nat
    decreases trades.len(),
{
    if trades.len() == 0 || trades.last().timestamp <= timestamp {
        trades.len()
    } else {
        place_of(trades.drop_last(), timestamp)
    }
}

/// The same trades in the opposite order.
pub fn reversed(trades: Vec<Trade>) -> (back: Vec<Trade>)
    ensures
        back@ == trades@.reverse(),
{
    let ghost all = trades@;
    let mut trades = trades;
    let mut back: Vec<Trade> = Vec::new();
    while trades.len() > 0
        invariant
            trades@.len() + back@.len() == all.len(),
            trades@ == all.take(trades@.len() as int),
            back@ == all.reverse().take(back@.len() as int),
        decreases trades.len(),
    {
        let trade = trades.pop().unwrap();
        back.push(trade);
        assert(back@ =~= all.reverse().take(back@.len() as int));
        assert(trades@ =~= all.take(trades@.len() as int));
    }
    assert(back@ =~= all.reverse());
    back
}

/// The trades that are known, oldest first.
pub struct TradeHistory {
    trades: Vec<Trade>,
}

impl View for TradeHistory {
    type V = Seq<Trade>;

    closed spec fn view(&self) -> Seq<Trade> {
        self.trades@
    }
}

impl TradeHistory {
    pub fn new() -> (history: Self)
        ensures
            history@ == Seq::<Trade>::empty(),
    {
        Self { trades: Vec::new() }
    }

    /// Puts a trade behind the last trade that is not newer.
    pub fn insert(&mut self, trade: Trade)
        ensures
            final(self)@ == old(self)@.insert(
                place_of(old(self)@, trade.timestamp) as int,
                trade,
            ),
            ordered_by_time(old(self)@) ==> ordered_by_time(final(self)@),
    {
        let mut place: usize = self.trades.len();
        assert(self.trades@.take(place as int) =~= self.trades@);
        while place > 0 && self.trades[place - 1].timestamp > trade.timestamp
            invariant
                place <= self.trades.len(),
                place_of(self.trades@, trade.timestamp) == place_of(
                    self.trades@.take(place as int),
                    trade.timestamp,
                ),
                forall|i: int|
                    place <= i < self.trades.len() ==> self.trades[i].timestamp > trade.timestamp,
            decreases place,
        {
            proof {
                assert(self.trades@.take(place as int).drop_last() =~= self.trades@.take(
                    place - 1,
                ));
            }
            place = place - 1;
        }
        proof {
            assert(self.trades@.take(self.trades@.len() as int) =~= self.trades@);
            assert(place_of(self.trades@.take(place as int), trade.timestamp) == place);
        }
        self.trades.insert(place, trade);
    }

    /// Puts each of the trades in its place, in the order given.
    pub fn insert_all(&mut self, trades: Vec<Trade>)
        ensures
            final(self)@ == with_all(old(self)@, trades@, trades@.len()),
            ordered_by_time(old(self)@) ==> ordered_by_time(final(self)@),
    {
        let ghost all = trades@;
        let mut rest: Vec<Trade> = reversed(trades);
        while rest.len() > 0
            invariant
                rest@.len() <= all.len(),
                rest@ == all.reverse().take(rest@.len() as int),
                self@ == with_all(old(self)@, all, (all.len() - rest@.len()) as nat),
                ordered_by_time(old(self)@) ==> ordered_by_time(self@),
            decreases rest.len(),
        {
            let trade = rest.pop().unwrap();
            assert(trade == all[all.len() - rest@.len() - 1]);
            self.insert(trade);
        }
    }

    pub fn len(&self) -> (len: usize)
        ensures
            len == self@.len(),
    {
        self.trades.len()
    }

    /// The trades, oldest first.
    pub fn trades(&self) -> (trades: &Vec<Trade>)
        ensures
            trades@ == self@,
    {
        &self.trades
    }
}

/// A history after the first `count` of `trades` have been put in.
pub open spec fn with_all(history: Seq<Trade>, trades: Seq<Trade>, count: nat) -> Seq<Trade>
    decreases count,
{
    if count == 0 {
        history
    } else {
        let before = with_all(history, trades, (count - 1) as nat);
        before.insert(
            place_of(before, trades[count - 1].timestamp) as int,
            trades[count - 1],
        )
    }
}

} // verus!
