//! The library against plain computations of the same results.

use risq::bisq::hash::{BisqHash, PersistentMessageHash};
use risq::bisq::payload::{
    AddPersistableNetworkPayloadMessage, BundleOfEnvelopes, Message, MessageVersion,
    NetworkEnvelope, PersistableNetworkPayload, PersistableNetworkPayloadMessage, Ping,
};
use risq::connection::{ConnectionId, MessageStream};
use risq::daemon::data_router::{DataRouter, DataRouterDispatch};
use risq::domain::amount::NumberWithPrecision;
use risq::domain::market::Market;
use risq::domain::offer::OfferDirection;
use risq::domain::statistics::ticker::{Ticker, DAY_MILLIS};
use risq::domain::statistics::trade::{Trade, TradeHistory};
use risq::wire::encode_frame;
use std::cmp::Ordering;
use std::collections::{HashMap, HashSet};

/// A small generator of numbers that look random and are the same each run.
struct Numbers(u64);

impl Numbers {
    fn next(&mut self) -> u64 {
        self.0 ^= self.0 << 13;
        self.0 ^= self.0 >> 7;
        self.0 ^= self.0 << 17;
        self.0
    }

    fn below(&mut self, limit: u64) -> u64 {
        self.next() % limit
    }
}

fn plain_format(scaled: u128, precision: u32) -> String {
    let unit = 10u128.pow(precision);
    let whole = scaled / unit;
    let fraction = scaled % unit;
    if precision == 0 {
        format!("{}.", whole)
    } else {
        format!("{}.{:0width$}", whole, fraction, width = precision as usize)
    }
}

fn plain_scaled(base: u64, precision: u32, target: u32) -> u128 {
    if target >= precision {
        base as u128 * 10u128.pow(target - precision)
    } else {
        base as u128 / 10u128.pow(precision - target)
    }
}

#[test]
fn format_agrees_with_plain_formatting() {
    let mut numbers = Numbers(0x2545F4914F6CDD1D);
    let mut compared = 0;
    for _ in 0..3000 {
        let digits = numbers.below(19) as u32;
        let base = numbers.next() % 10u64.pow(digits).max(1);
        let precision = numbers.below(12) as u32;
        let target = numbers.below(12) as u32;
        let scaled = plain_scaled(base, precision, target);
        if scaled > u64::MAX as u128 {
            continue;
        }
        let number = NumberWithPrecision::new(base, precision);
        assert_eq!(number.format(target), plain_format(scaled, target));
        compared += 1;
    }
    assert!(compared > 2000);
}

#[test]
fn order_agrees_with_plain_comparison() {
    let mut numbers = Numbers(0x9E3779B97F4A7C15);
    for _ in 0..3000 {
        let a = (numbers.below(1_000_000), numbers.below(8) as u32);
        let b = (numbers.below(1_000_000), numbers.below(8) as u32);
        let target = a.1.max(b.1);
        let expected = plain_scaled(a.0, a.1, target).cmp(&plain_scaled(b.0, b.1, target));
        let left = NumberWithPrecision::new(a.0, a.1);
        let right = NumberWithPrecision::new(b.0, b.1);
        assert_eq!(left.cmp(&right), expected);
        assert_eq!(left.partial_cmp(&right), Some(expected));
        assert_eq!(left == right, expected == Ordering::Equal);
        assert_eq!(left < right, expected == Ordering::Less);
        assert_eq!(left >= right, expected != Ordering::Less);
    }
}

#[test]
fn product_agrees_with_plain_arithmetic() {
    let mut numbers = Numbers(0xD1B54A32D192ED03);
    for _ in 0..3000 {
        let a = (numbers.below(4_000_000_000), numbers.below(9) as u32);
        let b = (numbers.below(4_000_000_000), numbers.below(9) as u32);
        let low = a.1.min(b.1);
        let high = a.1.max(b.1);
        let expected = (a.0 as u128 * b.0 as u128) / 10u128.pow(low);
        let product = NumberWithPrecision::new(a.0, a.1) * NumberWithPrecision::new(b.0, b.1);
        assert_eq!(product.format(high), plain_format(expected, high));
        let sum = NumberWithPrecision::new(a.0, a.1) + NumberWithPrecision::new(b.0, b.1);
        let expected = plain_scaled(a.0, a.1, high) + plain_scaled(b.0, b.1, high);
        assert_eq!(sum.format(high), plain_format(expected, high));
    }
}

#[test]
fn frames_agree_with_the_encoding_of_lengths() {
    let mut numbers = Numbers(0xA0761D6478BD642F);
    for _ in 0..200 {
        let len = match numbers.below(4) {
            0 => numbers.below(4),
            1 => 120 + numbers.below(20),
            2 => 16_000 + numbers.below(1000),
            _ => numbers.below(70_000),
        } as usize;
        let payload: Vec<u8> = (0..len).map(|_| numbers.next() as u8).collect();
        let mut expected = Vec::new();
        prost::encode_length_delimiter(len, &mut expected).unwrap();
        assert_eq!(expected.len(), prost::length_delimiter_len(len));
        expected.extend_from_slice(&payload);
        assert_eq!(encode_frame(&payload), expected);
    }
}

#[test]
fn frames_are_read_back_however_they_are_cut() {
    let mut numbers = Numbers(0xE7037ED1A0B428DB);
    for _ in 0..50 {
        let count = 1 + numbers.below(6) as usize;
        let payloads: Vec<Vec<u8>> = (0..count)
            .map(|_| {
                let len = if numbers.below(3) == 0 { numbers.below(3) } else { numbers.below(700) };
                (0..len).map(|_| numbers.next() as u8).collect()
            })
            .collect();
        let bytes: Vec<u8> = payloads.iter().flat_map(|p| encode_frame(p)).collect();
        let mut stream = MessageStream::new(MessageVersion(10));
        let mut found = Vec::new();
        let mut at = 0;
        while at < bytes.len() {
            let step = 1 + numbers.below(40) as usize;
            let end = (at + step).min(bytes.len());
            let (frames, error) = stream.read(&bytes[at..end].to_vec());
            assert_eq!(error, None);
            found.extend(frames);
            at = end;
        }
        assert_eq!(found, payloads);
        let (frames, error) = stream.read(&vec![]);
        assert!(frames.is_empty());
        assert_eq!(error, None);
    }
}

fn plain_messages(envelope: &NetworkEnvelope, version: i32, found: &mut Vec<i32>) {
    if envelope.message_version != version {
        return;
    }
    match &envelope.message {
        Some(Message::BundleOfEnvelopes(bundle)) => {
            for inner in bundle.envelopes.iter() {
                plain_messages(inner, version, found);
            }
        }
        Some(Message::Ping(ping)) => found.push(ping.nonce),
        _ => {}
    }
}

fn some_envelope(numbers: &mut Numbers, depth: u32, next: &mut i32) -> NetworkEnvelope {
    let message_version = if numbers.below(8) == 0 { 11 } else { 10 };
    let message = match numbers.below(if depth < 4 { 4 } else { 2 }) {
        0 => None,
        1 => {
            *next += 1;
            Some(Message::Ping(Ping { nonce: *next, last_round_trip_time: 0 }))
        }
        _ => {
            let count = numbers.below(4);
            let envelopes = (0..count).map(|_| some_envelope(numbers, depth + 1, next)).collect();
            Some(Message::BundleOfEnvelopes(BundleOfEnvelopes { envelopes }))
        }
    };
    NetworkEnvelope { message_version, message }
}

#[test]
fn bundles_are_unwrapped_like_a_walk_through_them() {
    let mut numbers = Numbers(0x8EBC6AF09C88C6E3);
    let mut next = 0;
    for _ in 0..300 {
        let mut stream = MessageStream::new(MessageVersion(10));
        let mut expected = Vec::new();
        for _ in 0..numbers.below(4) {
            let envelope = some_envelope(&mut numbers, 0, &mut next);
            plain_messages(&envelope, 10, &mut expected);
            stream.accept(envelope);
        }
        let mut found = Vec::new();
        while let Some(message) = stream.next_from_buffer() {
            match message {
                Message::Ping(ping) => found.push(ping.nonce),
                other => panic!("unexpected message {:?}", other),
            }
        }
        assert_eq!(found, expected);
    }
}

#[derive(Clone, Debug, PartialEq)]
struct PlainTicker {
    last: Option<u64>,
    high: Option<u64>,
    low: Option<u64>,
    volume_left: u64,
    volume_right: u64,
}

fn plain_tickers(trades: &Vec<(u32, u64, u64, u64)>, markets: u32, now: u64) -> Vec<PlainTicker> {
    let empty = PlainTicker { last: None, high: None, low: None, volume_left: 0, volume_right: 0 };
    let mut tickers: HashMap<u32, PlainTicker> = (0..markets).map(|m| (m, empty.clone())).collect();
    let mut newest_first = trades.iter().rev();
    let earliest = now.saturating_sub(DAY_MILLIS);
    let mut next = newest_first.next();
    while let Some((market, price, amount, timestamp)) = next {
        if *timestamp < earliest {
            break;
        }
        if let Some(ticker) = tickers.get_mut(market) {
            ticker.last = Some(ticker.last.unwrap_or(*price));
            ticker.high = Some(ticker.high.map(|h| h.max(*price)).unwrap_or(*price));
            ticker.low = Some(ticker.low.map(|l| l.min(*price)).unwrap_or(*price));
            ticker.volume_left += amount;
            ticker.volume_right += price * amount;
        }
        next = newest_first.next();
    }
    while let Some((market, price, _, _)) = next {
        if let Some(ticker) = tickers.get_mut(market) {
            if ticker.last.is_none() {
                ticker.last = Some(*price);
                ticker.high = Some(*price);
                ticker.low = Some(*price);
            }
        }
        next = newest_first.next();
    }
    (0..markets).map(|m| tickers[&m].clone()).collect()
}

#[test]
fn tickers_agree_with_a_plain_walk_through_the_trades() {
    let mut numbers = Numbers(0x589965CC75374CC3);
    for round in 0..200 {
        let markets = 1 + numbers.below(4) as u32;
        let now = 3 * DAY_MILLIS + numbers.below(DAY_MILLIS);
        let count = numbers.below(30);
        let mut trades: Vec<(u32, u64, u64, u64)> = (0..count)
            .map(|_| {
                (
                    numbers.below(markets as u64 + 1) as u32,
                    1 + numbers.below(1000),
                    1 + numbers.below(1000),
                    now - numbers.below(3 * DAY_MILLIS),
                )
            })
            .collect();
        let mut history = TradeHistory::new();
        for (i, (market, price, amount, timestamp)) in trades.iter().enumerate() {
            history.insert(Trade {
                market: Market { index: *market },
                direction: OfferDirection::Buy,
                offer_id: format!("{}-{}", round, i),
                price: NumberWithPrecision::new(*price, 2),
                amount: NumberWithPrecision::new(*amount, 1),
                volume: NumberWithPrecision::new(price * amount, 3),
                payment_method_id: String::new(),
                timestamp: *timestamp,
                hash: PersistentMessageHash::from_bytes(vec![i as u8; 20]).unwrap(),
            });
        }
        trades.sort_by_key(|trade| trade.3);
        let expected = plain_tickers(&trades, markets, now);
        let tickers = Ticker::from_trades(&history, None, markets, now);
        assert_eq!(tickers.len(), expected.len());
        for (index, (ticker, plain)) in tickers.iter().zip(expected.iter()).enumerate() {
            assert_eq!(ticker.market, Market { index: index as u32 });
            let price = |p: Option<u64>| p.map(|p| NumberWithPrecision::new(p, 2));
            assert_eq!(ticker.last, price(plain.last));
            assert_eq!(ticker.high, price(plain.high));
            assert_eq!(ticker.low, price(plain.low));
            assert_eq!(ticker.volume_left, NumberWithPrecision::new(plain.volume_left, 1));
            assert_eq!(ticker.volume_right, NumberWithPrecision::new(plain.volume_right, 3));
            let only = Ticker::from_trades(&history, Some(Market { index: index as u32 }), markets, now);
            assert_eq!(only, vec![*ticker]);
        }
    }
}

#[test]
fn the_router_agrees_with_a_plain_set_of_hashes() {
    let mut numbers = Numbers(0x3C6EF372FE94F82B);
    let mut router = DataRouter::start();
    let mut known: HashSet<Vec<u8>> = HashSet::new();
    for round in 0..2000 {
        let mut hash = vec![0u8; 20];
        hash[0] = numbers.below(3) as u8;
        hash[12] = numbers.below(20) as u8;
        let msg = AddPersistableNetworkPayloadMessage {
            payload: Some(PersistableNetworkPayload {
                message: Some(PersistableNetworkPayloadMessage::Other),
                hash: hash.clone(),
            }),
        };
        let before = router
            .was_delivered(&BisqHash::Persistent(
                PersistentMessageHash::from_bytes(hash.clone()).unwrap(),
            ));
        assert_eq!(before, known.contains(&hash));
        let routed = router.handle(
            ConnectionId(round),
            DataRouterDispatch::AddPersistableNetworkPayload(msg),
            round as u64,
        );
        assert!(routed.is_empty());
        known.insert(hash);
    }
    assert_eq!(known.len(), 60);
}
