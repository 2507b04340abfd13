//! The ticker of a market: the last price, the highest and lowest price and
//! the volumes of the last day.

use crate::domain::amount::NumberWithPrecision;
use crate::domain::decimal::{lemma_pow10_positive, pow10, spec_max, Decimal};
use crate::domain::market::Market;
use crate::domain::statistics::trade::{Trade, TradeHistory};
use vstd::arithmetic::mul::lemma_mul_inequality;
use vstd::prelude::*;

verus! {

/// The length of the ticker's window: a day, in milliseconds.
pub const DAY_MILLIS: u64 = 86_400_000;

#[derive(Clone, Copy, Debug, PartialEq)]
pub struct Ticker {
    pub market: Market,
    pub last: Option<NumberWithPrecision>,
    pub high: Option<NumberWithPrecision>,
    pub low: Option<NumberWithPrecision>,
    pub volume_left: NumberWithPrecision,
    pub volume_right: NumberWithPrecision,
}

/// What a ticker holds, as decimal numbers.
pub struct TickerModel {
    pub market: Market,
    pub last: Option<Decimal>,
    pub high: Option<Decimal>,
    pub low: Option<Decimal>,
    pub volume_left: Decimal,
    pub volume_right: Decimal,
}

pub open spec fn model_of(number: Option<NumberWithPrecision>) -> Option<Decimal> {
    match number {
        Some(n) => Some(n@),
        None => None,
    }
}

impl View for Ticker {
    type V = TickerModel;

    open spec fn view(&self) -> TickerModel {
        TickerModel {
            market: self.market,
            last: model_of(self.last),
            high: model_of(self.high),
            low: model_of(self.low),
            volume_left: self.volume_left@,
            volume_right: self.volume_right@,
        }
    }
}

/// The higher of a price so far and a new price: the new one where the two
/// are equal.
pub open spec fn higher(current: Decimal, price: Decimal) -> Decimal {
    if price.below(current) {
        current
    } else {
        price
    }
}

/// The lower of a price so far and a new price: the one so far where the two
/// are equal.
pub open spec fn lower(current: Decimal, price: Decimal) -> Decimal {
    if price.below(current) {
        price
    } else {
        current
    }
}

impl TickerModel {
    /// The ticker of a market without trades.
    pub open spec fn empty(market: Market) -> TickerModel {
        TickerModel {
            market,
            last: None,
            high: None,
            low: None,
            volume_left: Decimal { base: 0, precision: 0 },
            volume_right: Decimal { base: 0, precision: 0 },
        }
    }

    /// The ticker after the next older trade, which lies inside the window.
    pub open spec fn recent(self, trade: Trade) -> TickerModel {
        if trade.market != self.market {
            self
        } else {
            TickerModel {
                market: self.market,
                last: Some(
                    match self.last {
                        Some(last) => last,
                        None => trade.price@,
                    },
                ),
                high: Some(
                    match self.high {
                        Some(high) => higher(high, trade.price@),
                        None => trade.price@,
                    },
                ),
                low: Some(
                    match self.low {
                        Some(low) => lower(low, trade.price@),
                        None => trade.price@,
                    },
                ),
                volume_left: self.volume_left.sum(trade.amount@),
                volume_right: self.volume_right.sum(trade.volume@),
            }
        }
    }

    /// The ticker after the next older trade, which lies outside the window:
    /// it gives the prices where the window gave none.
    pub open spec fn older(self, trade: Trade) -> TickerModel {
        if trade.market != self.market || self.last is Some {
            self
        } else {
            TickerModel {
                market: self.market,
                last: Some(trade.price@),
                high: Some(trade.price@),
                low: Some(trade.price@),
                volume_left: self.volume_left,
                volume_right: self.volume_right,
            }
        }
    }

    /// The ticker after the first `count` of `trades`, all inside the window.
    pub open spec fn after_recent(self, trades: Seq<Trade>, count: nat) -> TickerModel
        decreases count,
    {
        if count == 0 {
            self
        } else {
            self.after_recent(trades, (count - 1) as nat).recent(trades[count - 1])
        }
    }

    /// The ticker after the trades from `from` up to `to`, all outside the
    /// window.
    pub open spec fn after_older(self, trades: Seq<Trade>, from: nat, to: nat) -> TickerModel
        decreases to,
    {
        if to <= from {
            self
        } else {
            self.after_older(trades, from, (to - 1) as nat).older(trades[to - 1])
        }
    }
}

/// Whether a trade is at most a day old at the time `now`.
pub open spec fn in_window(trade: Trade, now: u64) -> bool {
    trade.timestamp + DAY_MILLIS >= now
}

/// How many of the trades, newest first, lie inside the window before the
/// first one that does not.
pub open spec fn window_len(trades: Seq<Trade>, now: u64) -> nat
    decreases trades.len(),
{
    if trades.len() == 0 || !in_window(trades[0], now) {
        0
    } else {
        1 + window_len(trades.drop_first(), now)
    }
}

/// The ticker of a market at the time `now`, from a history of trades.
pub open spec fn ticker_of(market: Market, history: Seq<Trade>, now: u64) -> TickerModel {
    let trades = history.reverse();
    let window = window_len(trades, now);
    TickerModel::empty(market).after_recent(trades, window).after_older(
        trades,
        window,
        trades.len(),
    )
}

/// The markets for which tickers are asked: the one given, or all of the
/// table, in its order.
pub open spec fn selected(market: Option<Market>, markets: u32) -> Seq<Market> {
    match market {
        Some(market) => seq![market],
        None => Seq::new(markets as nat, |i: int| Market { index: i as u32 }),
    }
}

/// Whether the volumes of a market inside the window fit in 64 bits.
pub open spec fn volumes_fit(market: Market, history: Seq<Trade>, now: u64) -> bool {
    let trades = history.reverse();
    let ticker = TickerModel::empty(market).after_recent(trades, window_len(trades, now));
    ticker.volume_left.base <= u64::MAX && ticker.volume_right.base <= u64::MAX
}

/// How many tickers have no last price.
pub open spec fn missing(tickers: Seq<Ticker>) -> nat
    decreases tickers.len(),
{
    if tickers.len() == 0 {
        0
    } else if tickers.last().last is None {
        missing(tickers.drop_last()) + 1
    } else {
        missing(tickers.drop_last())
    }
}

proof fn lemma_missing_found(tickers: Seq<Ticker>, at: int, ticker: Ticker)
    requires
        0 <= at < tickers.len(),
        tickers[at].last is None,
        ticker.last is Some,
    ensures
        missing(tickers) > 0,
        missing(tickers.update(at, ticker)) == missing(tickers) - 1,
    decreases tickers.len(),
{
    if at == tickers.len() - 1 {
        assert(tickers.update(at, ticker).drop_last() =~= tickers.drop_last());
    } else {
        lemma_missing_found(tickers.drop_last(), at, ticker);
        assert(tickers.update(at, ticker).drop_last() =~= tickers.drop_last().update(at, ticker));
    }
}

proof fn lemma_none_missing(tickers: Seq<Ticker>)
    requires
        missing(tickers) == 0,
    ensures
        forall|i: int| 0 <= i < tickers.len() ==> (#[trigger] tickers[i]).last is Some,
    decreases tickers.len(),
{
    if tickers.len() > 0 {
        lemma_none_missing(tickers.drop_last());
        assert forall|i: int| 0 <= i < tickers.len() implies (#[trigger] tickers[i]).last is Some by {
            if i < tickers.len() - 1 {
                assert(tickers.drop_last()[i] == tickers[i]);
            }
        }
    }
}

/// Older trades change nothing once the last price is known.
proof fn lemma_older_settles(ticker: TickerModel, trades: Seq<Trade>, from: nat, mid: nat, to: nat)
    requires
        mid <= to,
        ticker.after_older(trades, from, mid).last is Some,
    ensures
        ticker.after_older(trades, from, to) == ticker.after_older(trades, from, mid),
    decreases to,
{
    if to > mid {
        lemma_older_settles(ticker, trades, from, mid, (to - 1) as nat);
        if to <= from {
            assert(mid <= from);
        }
    }
}

/// The window holds at least the leading trades that lie inside it.
proof fn lemma_window_holds(trades: Seq<Trade>, now: u64, count: nat)
    requires
        count <= trades.len(),
        forall|i: int| 0 <= i < count ==> in_window(#[trigger] trades[i], now),
    ensures
        window_len(trades, now) >= count,
    decreases count,
{
    if count > 0 {
        let rest = trades.drop_first();
        assert forall|i: int| 0 <= i < count - 1 implies in_window(#[trigger] rest[i], now) by {
            assert(rest[i] == trades[i + 1]);
        }
        lemma_window_holds(rest, now, (count - 1) as nat);
    }
}

/// The window ends at the first trade outside it.
proof fn lemma_window_len(trades: Seq<Trade>, now: u64, count: nat)
    requires
        count <= trades.len(),
        forall|i: int| 0 <= i < count ==> in_window(#[trigger] trades[i], now),
        count == trades.len() || !in_window(trades[count as int], now),
    ensures
        window_len(trades, now) == count,
    decreases count,
{
    if count > 0 {
        let rest = trades.drop_first();
        assert forall|i: int| 0 <= i < count - 1 implies in_window(#[trigger] rest[i], now) by {
            assert(rest[i] == trades[i + 1]);
        }
        if count < trades.len() {
            assert(rest[count - 1] == trades[count as int]);
        }
        lemma_window_len(rest, now, (count - 1) as nat);
    }
}

/// A sum is at least its first operand.
proof fn lemma_sum_grows(a: Decimal, b: Decimal)
    ensures
        a.sum(b).base >= a.base,
{
    let target = spec_max(a.precision, b.precision);
    lemma_pow10_positive((target - a.precision) as nat);
    lemma_mul_inequality(1, pow10((target - a.precision) as nat) as int, a.base as int);
    vstd::arithmetic::mul::lemma_mul_is_commutative(
        pow10((target - a.precision) as nat) as int,
        a.base as int,
    );
}

/// The volumes only grow over the window.
proof fn lemma_volumes_grow(ticker: TickerModel, trades: Seq<Trade>, count: nat, end: nat)
    requires
        count <= end,
    ensures
        ticker.after_recent(trades, count).volume_left.base <= ticker.after_recent(
            trades,
            end,
        ).volume_left.base,
        ticker.after_recent(trades, count).volume_right.base <= ticker.after_recent(
            trades,
            end,
        ).volume_right.base,
    decreases end,
{
    if count < end {
        lemma_volumes_grow(ticker, trades, count, (end - 1) as nat);
        let before = ticker.after_recent(trades, (end - 1) as nat);
        lemma_sum_grows(before.volume_left, trades[end - 1].amount@);
        lemma_sum_grows(before.volume_right, trades[end - 1].volume@);
    }
}

impl Ticker {
    /// The ticker of a market without trades.
    pub fn empty(market: Market) -> (ticker: Self)
        ensures
            ticker@ == TickerModel::empty(market),
    {
        Self {
            market,
            last: None,
            high: None,
            low: None,
            volume_left: NumberWithPrecision::new(0, 0),
            volume_right: NumberWithPrecision::new(0, 0),
        }
    }
}

/// The place of a market among the selected ones.
fn place_in(market: Option<Market>, markets: u32, of: Market) -> (place: Option<usize>)
    ensures
        match place {
            Some(at) => at < selected(market, markets).len() && forall|i: int|
                0 <= i < selected(market, markets).len() ==> (#[trigger] selected(
                    market,
                    markets,
                )[i] == of <==> i == at),
            None => forall|i: int|
                0 <= i < selected(market, markets).len() ==> #[trigger] selected(
                    market,
                    markets,
                )[i] != of,
        },
{
    match market {
        Some(only) => if only == of {
            Some(0)
        } else {
            None
        },
        None => if of.index < markets {
            Some(of.index as usize)
        } else {
            None
        },
    }
}

impl Ticker {
    /// The ticker after the next older trade of its market inside the window.
    fn with_recent(self, trade: &Trade) -> (ticker: Ticker)
        requires
            trade.market == self.market,
            self@.volume_left.sum_fits(trade.amount@),
            self@.volume_right.sum_fits(trade.volume@),
        ensures
            ticker@ == self@.recent(*trade),
    {
        let price = trade.price;
        let last = match self.last {
            Some(last) => last,
            None => price,
        };
        let high = match self.high {
            Some(high) => if price < high {
                high
            } else {
                price
            },
            None => price,
        };
        let low = match self.low {
            Some(low) => if price < low {
                price
            } else {
                low
            },
            None => price,
        };
        Ticker {
            market: self.market,
            last: Some(last),
            high: Some(high),
            low: Some(low),
            volume_left: self.volume_left + trade.amount,
            volume_right: self.volume_right + trade.volume,
        }
    }

    /// The tickers at the time `now`, in milliseconds since the epoch, of the
    /// market given, or of all `markets` markets of the table, in its order.
    ///
    /// A ticker's volumes, and its last, highest and lowest price, are those
    /// of the market's trades among the newest trades, up to the first trade
    /// that is more than a day old. Where there is none among these, the
    /// price of the market's newest older trade stands for all three prices.
    pub fn from_trades(
        history: &TradeHistory,
        market: Option<Market>,
        markets: u32,
        now: u64,
    ) -> (tickers: Vec<Ticker>)
        requires
            forall|i: int|
                0 <= i < selected(market, markets).len() ==> volumes_fit(
                    #[trigger] selected(market, markets)[i],
                    history@,
                    now,
                ),
        ensures
            tickers@.len() == selected(market, markets).len(),
            forall|i: int|
                0 <= i < tickers@.len() ==> (#[trigger] tickers@[i])@ == ticker_of(
                    selected(market, markets)[i],
                    history@,
                    now,
                ),
    {
        let ghost chosen = selected(market, markets);
        let mut tickers: Vec<Ticker> = Vec::new();
        match market {
            None => {
                let mut index: u32 = 0;
                while index < markets
                    invariant
                        index <= markets,
                        tickers@.len() == index,
                        forall|i: int|
                            0 <= i < index ==> (#[trigger] tickers@[i])@ == TickerModel::empty(
                                Market { index: i as u32 },
                            ),
                    decreases markets - index,
                {
                    tickers.push(Ticker::empty(Market { index }));
                    index = index + 1;
                }
            },
            Some(market) => {
                tickers.push(Ticker::empty(market));
            },
        }
        let trades = history.trades();
        let ghost newest = history@.reverse();
        let earliest: u64 = if now >= DAY_MILLIS {
            now - DAY_MILLIS
        } else {
            0
        };
        let mut next: usize = trades.len();
        while next > 0 && trades[next - 1].timestamp >= earliest
            invariant
                next <= trades@.len(),
                trades@ == history@,
                newest == history@.reverse(),
                chosen == selected(market, markets),
                earliest == if now >= DAY_MILLIS {
                    now - DAY_MILLIS
                } else {
                    0
                },
                tickers@.len() == chosen.len(),
                forall|i: int| 0 <= i < tickers@.len() ==> (#[trigger] tickers@[i]).market == chosen[i],
                forall|i: int| 0 <= i < trades@.len() - next ==> in_window(#[trigger] newest[i], now),
                forall|i: int|
                    0 <= i < tickers@.len() ==> (#[trigger] tickers@[i])@ == TickerModel::empty(
                        chosen[i],
                    ).after_recent(newest, (trades@.len() - next) as nat),
                forall|i: int|
                    0 <= i < chosen.len() ==> volumes_fit(#[trigger] chosen[i], history@, now),
            decreases next,
        {
            let trade = &trades[next - 1];
            let ghost seen: nat = (trades@.len() - next) as nat;
            assert(*trade == newest[seen as int]);
            proof {
                assert forall|i: int| 0 <= i < seen + 1 implies in_window(
                    #[trigger] newest[i],
                    now,
                ) by {}
                lemma_window_holds(newest, now, seen + 1);
            }
            match place_in(market, markets, trade.market) {
                Some(at) => {
                    let ticker = tickers[at];
                    proof {
                        assert(chosen[at as int] == trade.market);
                        assert(volumes_fit(chosen[at as int], history@, now));
                        lemma_volumes_grow(
                            TickerModel::empty(chosen[at as int]),
                            newest,
                            seen + 1,
                            window_len(newest, now),
                        );
                        assert(tickers@[at as int]@ == TickerModel::empty(
                            chosen[at as int],
                        ).after_recent(newest, seen));
                    }
                    tickers.set(at, ticker.with_recent(trade));
                },
                None => {},
            }
            next = next - 1;
        }
        let ghost window: nat = (trades@.len() - next) as nat;
        proof {
            lemma_window_len(newest, now, window);
        }
        let mut unknown: usize = 0;
        let mut counted: usize = 0;
        while counted < tickers.len()
            invariant
                counted <= tickers@.len(),
                unknown <= counted,
                unknown == missing(tickers@.take(counted as int)),
            decreases tickers@.len() - counted,
        {
            proof {
                assert(tickers@.take(counted + 1).drop_last() =~= tickers@.take(counted as int));
            }
            if tickers[counted].last.is_none() {
                unknown = unknown + 1;
            }
            counted = counted + 1;
        }
        assert(tickers@.take(counted as int) =~= tickers@);
        while next > 0 && unknown > 0
            invariant
                next <= trades@.len(),
                trades@ == history@,
                newest == history@.reverse(),
                chosen == selected(market, markets),
                window <= trades@.len() - next,
                tickers@.len() == chosen.len(),
                forall|i: int| 0 <= i < tickers@.len() ==> (#[trigger] tickers@[i]).market == chosen[i],
                unknown == missing(tickers@),
                forall|i: int|
                    0 <= i < tickers@.len() ==> (#[trigger] tickers@[i])@ == TickerModel::empty(
                        chosen[i],
                    ).after_recent(newest, window).after_older(
                        newest,
                        window,
                        (trades@.len() - next) as nat,
                    ),
            decreases next,
        {
            let trade = &trades[next - 1];
            let ghost seen: nat = (trades@.len() - next) as nat;
            assert(*trade == newest[seen as int]);
            match place_in(market, markets, trade.market) {
                Some(at) => {
                    let ticker = tickers[at];
                    if ticker.last.is_none() {
                        let found = Ticker {
                            market: ticker.market,
                            last: Some(trade.price),
                            high: Some(trade.price),
                            low: Some(trade.price),
                            volume_left: ticker.volume_left,
                            volume_right: ticker.volume_right,
                        };
                        proof {
                            lemma_missing_found(tickers@, at as int, found);
                        }
                        tickers.set(at, found);
                        unknown = unknown - 1;
                    }
                },
                None => {},
            }
            next = next - 1;
        }
        proof {
            if next > 0 {
                lemma_none_missing(tickers@);
                assert forall|i: int| 0 <= i < tickers@.len() implies (#[trigger] tickers@[i])@
                    == ticker_of(chosen[i], history@, now) by {
                    lemma_older_settles(
                        TickerModel::empty(chosen[i]).after_recent(newest, window),
                        newest,
                        window,
                        (trades@.len() - next) as nat,
                        newest.len(),
                    );
                }
            }
        }
        tickers
    }
}

} // verus!
