use risq::bisq::hash::PersistentMessageHash;
use risq::domain::amount::NumberWithPrecision;
use risq::domain::market::Market;
use risq::domain::offer::OfferDirection;
use risq::domain::statistics::ticker::{Ticker, DAY_MILLIS};
use risq::domain::statistics::trade::{Trade, TradeHistory};
use risq::domain::statistics::StatsCacheInner;
use risq::domain::CommandResult;

fn trade(market: u32, price: u64, amount: u64, timestamp: u64, hash: u8) -> Trade {
    Trade {
        market: Market { index: market },
        direction: OfferDirection::Buy,
        offer_id: format!("offer-{}", hash),
        price: NumberWithPrecision::new(price, 2),
        amount: NumberWithPrecision::new(amount, 1),
        volume: NumberWithPrecision::new(price * amount, 3),
        payment_method_id: "SEPA".to_string(),
        timestamp,
        hash: PersistentMessageHash::from_bytes(vec![hash; 20]).unwrap(),
    }
}

fn hashes(trades: &Vec<Trade>) -> Vec<u8> {
    trades.iter().map(|t| t.hash.bytes()[0]).collect()
}

#[test]
fn the_history_is_kept_in_the_order_of_time() {
    let mut history = TradeHistory::new();
    history.insert(trade(0, 1, 1, 30, 1));
    history.insert(trade(0, 1, 1, 10, 2));
    history.insert(trade(0, 1, 1, 20, 3));
    history.insert(trade(0, 1, 1, 20, 4));
    history.insert(trade(0, 1, 1, 40, 5));
    assert_eq!(history.len(), 5);
    assert_eq!(hashes(history.trades()), vec![2, 3, 4, 1, 5]);
    history.insert_all(vec![trade(0, 1, 1, 20, 6), trade(0, 1, 1, 5, 7)]);
    assert_eq!(hashes(history.trades()), vec![7, 2, 3, 4, 6, 1, 5]);
}

#[test]
fn a_trade_is_taken_in_once() {
    let mut cache = StatsCacheInner::new();
    assert_eq!(cache.insert(trade(0, 1, 1, 30, 1)), CommandResult::Accepted);
    assert_eq!(cache.insert(trade(0, 1, 1, 10, 2)), CommandResult::Accepted);
    assert_eq!(cache.insert(trade(1, 9, 9, 50, 1)), CommandResult::Ignored);
    assert_eq!(hashes(cache.trades()), vec![2, 1]);
    assert_eq!(cache.trades()[1].timestamp, 30);
}

#[test]
fn a_batch_of_trades_is_taken_in_without_the_known_ones() {
    let mut cache = StatsCacheInner::new();
    cache.insert(trade(0, 1, 1, 30, 1));
    cache.bootstrap(vec![
        trade(0, 1, 1, 40, 2),
        trade(0, 1, 1, 20, 1),
        trade(0, 1, 1, 10, 3),
        trade(0, 1, 1, 5, 2),
    ]);
    assert_eq!(hashes(cache.trades()), vec![3, 1, 2]);
    assert!(cache.ticker(None).is_empty());
    assert!(cache.ticker(Some(Market { index: 0 })).is_empty());
}

#[test]
fn tickers_of_markets_without_trades() {
    let history = TradeHistory::new();
    let tickers = Ticker::from_trades(&history, None, 3, 1_000);
    assert_eq!(tickers.len(), 3);
    for (index, ticker) in tickers.iter().enumerate() {
        assert_eq!(*ticker, Ticker::empty(Market { index: index as u32 }));
        assert_eq!(ticker.last, None);
        assert_eq!(ticker.volume_left.format(0), "0.");
    }
    let tickers = Ticker::from_trades(&history, Some(Market { index: 7 }), 3, 1_000);
    assert_eq!(tickers, vec![Ticker::empty(Market { index: 7 })]);
}

#[test]
fn tickers_of_the_last_day() {
    let now = 10 * DAY_MILLIS;
    let mut history = TradeHistory::new();
    history.insert(trade(0, 500, 10, now - 3 * DAY_MILLIS, 1));
    history.insert(trade(1, 700, 10, now - 2 * DAY_MILLIS, 2));
    history.insert(trade(1, 800, 10, now - 2 * DAY_MILLIS + 1, 3));
    history.insert(trade(0, 100, 20, now - DAY_MILLIS, 4));
    history.insert(trade(0, 300, 30, now - 1000, 5));
    history.insert(trade(0, 200, 40, now - 10, 6));
    let tickers = Ticker::from_trades(&history, None, 3, now);
    assert_eq!(tickers.len(), 3);

    let first = &tickers[0];
    assert_eq!(first.market, Market { index: 0 });
    assert_eq!(first.last.unwrap().format(2), "2.00");
    assert_eq!(first.high.unwrap().format(2), "3.00");
    assert_eq!(first.low.unwrap().format(2), "1.00");
    assert_eq!(first.volume_left.format(1), "9.0");
    assert_eq!(first.volume_right.format(3), "19.000");

    let second = &tickers[1];
    assert_eq!(second.market, Market { index: 1 });
    assert_eq!(second.last.unwrap().format(2), "8.00");
    assert_eq!(second.high.unwrap().format(2), "8.00");
    assert_eq!(second.low.unwrap().format(2), "8.00");
    assert_eq!(second.volume_left.format(1), "0.0");
    assert_eq!(second.volume_right.format(1), "0.0");

    assert_eq!(tickers[2], Ticker::empty(Market { index: 2 }));

    let only = Ticker::from_trades(&history, Some(Market { index: 1 }), 3, now);
    assert_eq!(only.len(), 1);
    assert_eq!(only[0], tickers[1]);
}

#[test]
fn the_window_ends_at_the_first_trade_that_is_too_old() {
    let now = 10 * DAY_MILLIS;
    let mut history = TradeHistory::new();
    history.insert(trade(0, 500, 10, now - DAY_MILLIS - 1, 1));
    history.insert(trade(0, 300, 30, now - DAY_MILLIS, 2));
    let tickers = Ticker::from_trades(&history, Some(Market { index: 0 }), 1, now);
    assert_eq!(tickers[0].last.unwrap().format(2), "3.00");
    assert_eq!(tickers[0].high.unwrap().format(2), "3.00");
    assert_eq!(tickers[0].volume_left.format(1), "3.0");
    let tickers = Ticker::from_trades(&history, Some(Market { index: 0 }), 1, 5);
    assert_eq!(tickers[0].high.unwrap().format(2), "5.00");
    assert_eq!(tickers[0].volume_left.format(1), "4.0");
}

#[test]
fn trades_of_markets_that_are_not_asked_for_do_not_count() {
    let now = 10 * DAY_MILLIS;
    let mut history = TradeHistory::new();
    history.insert(trade(5, 500, 10, now - 1, 1));
    history.insert(trade(1, 300, 30, now - 2, 2));
    let tickers = Ticker::from_trades(&history, None, 2, now);
    assert_eq!(tickers[0], Ticker::empty(Market { index: 0 }));
    assert_eq!(tickers[1].last.unwrap().format(2), "3.00");
}

#[test]
fn trades_whose_hashes_begin_alike_are_told_apart() {
    let with_hash = |last: u8, timestamp: u64| {
        let mut hash = vec![3; 20];
        hash[19] = last;
        let mut trade = trade(0, 1, 1, timestamp, 0);
        trade.hash = PersistentMessageHash::from_bytes(hash).unwrap();
        trade
    };
    let mut cache = StatsCacheInner::new();
    assert_eq!(cache.insert(with_hash(1, 10)), CommandResult::Accepted);
    assert_eq!(cache.insert(with_hash(2, 20)), CommandResult::Accepted);
    assert_eq!(cache.insert(with_hash(1, 30)), CommandResult::Ignored);
    assert_eq!(cache.insert(with_hash(2, 40)), CommandResult::Ignored);
    assert_eq!(cache.trades().len(), 2);
}
