use binance_orderbook::book::OrderbookSnapshot;
use binance_orderbook::clock::Timestamp;
use binance_orderbook::update::{DepthUpdate, Level};

fn at(secs: i64) -> Timestamp {
    Timestamp { secs, nanos: 0 }
}

fn update(bids: &[(i64, i64)], asks: &[(i64, i64)]) -> DepthUpdate {
    DepthUpdate {
        last_update_id: None,
        bids: bids.iter().map(|&(price, qty)| Level { price, qty }).collect(),
        asks: asks.iter().map(|&(price, qty)| Level { price, qty }).collect(),
    }
}

#[test]
fn a_new_book_has_no_best_price() {
    let book = OrderbookSnapshot::new(at(5));
    assert_eq!(book.timestamp, at(5));
    assert!(book.bids.is_empty());
    assert!(book.asks.is_empty());
    assert_eq!(book.best_prices(), None);
}

#[test]
fn levels_above_zero_are_stored_with_their_quantity() {
    let mut book = OrderbookSnapshot::new(at(0));
    book.apply(&update(&[(100, 7), (99, 3), (98, 0), (97, -4)], &[(101, 2), (105, 0)]), at(1));
    assert_eq!(book.bids.get(&100), Some(&7));
    assert_eq!(book.bids.get(&99), Some(&3));
    assert_eq!(book.bids.get(&98), None);
    assert_eq!(book.bids.get(&97), None);
    assert_eq!(book.bids.len(), 2);
    assert_eq!(book.asks.get(&101), Some(&2));
    assert_eq!(book.asks.get(&105), None);
    assert_eq!(book.asks.len(), 1);
    assert!(book.bids.values().all(|&qty| qty > 0));
    assert!(book.asks.values().all(|&qty| qty > 0));
}

#[test]
fn the_best_bid_is_the_highest_and_the_best_ask_the_lowest() {
    let mut book = OrderbookSnapshot::new(at(0));
    book.apply(
        &update(&[(99, 3), (100, 7), (120, 0), (98, 1)], &[(105, 4), (101, 2), (90, 0), (103, 9)]),
        at(1),
    );
    assert_eq!(book.best_prices(), Some(((100, 7), (101, 2))));
}

#[test]
fn a_book_with_one_side_has_no_best_price() {
    let mut book = OrderbookSnapshot::new(at(0));
    book.apply(&update(&[(100, 7)], &[]), at(1));
    assert_eq!(book.best_prices(), None);
    book.apply(&update(&[], &[(101, 2)]), at(2));
    assert_eq!(book.best_prices(), None);
    book.apply(&update(&[(100, 0)], &[(101, 2)]), at(3));
    assert_eq!(book.best_prices(), None);
    book.apply(&update(&[(100, 1)], &[(101, 2)]), at(4));
    assert_eq!(book.best_prices(), Some(((100, 1), (101, 2))));
}

#[test]
fn an_update_replaces_the_book() {
    let mut book = OrderbookSnapshot::new(at(0));
    book.apply(&update(&[(100, 7), (99, 3)], &[(101, 2), (102, 5)]), at(1));
    book.apply(&update(&[(98, 4)], &[(103, 6)]), at(2));
    assert_eq!(book.bids.len(), 1);
    assert_eq!(book.bids.get(&98), Some(&4));
    assert_eq!(book.asks.len(), 1);
    assert_eq!(book.asks.get(&103), Some(&6));
    assert_eq!(book.best_prices(), Some(((98, 4), (103, 6))));
    assert_eq!(book.timestamp, at(2));
    book.apply(&update(&[], &[]), at(3));
    assert!(book.bids.is_empty());
    assert!(book.asks.is_empty());
}

#[test]
fn applying_an_update_twice_is_applying_it_once() {
    let u = update(&[(100, 7), (99, 3), (98, 0)], &[(101, 2), (102, 5)]);
    let mut once = OrderbookSnapshot::new(at(0));
    once.apply(&u, at(1));
    let mut twice = OrderbookSnapshot::new(at(0));
    twice.apply(&u, at(1));
    twice.apply(&u, at(1));
    assert_eq!(once.bids, twice.bids);
    assert_eq!(once.asks, twice.asks);
    assert_eq!(once.timestamp, twice.timestamp);
    assert_eq!(once.best_prices(), twice.best_prices());
    twice.apply(&u, at(9));
    assert_eq!(once.bids, twice.bids);
    assert_eq!(once.asks, twice.asks);
    assert_eq!(twice.timestamp, at(9));
}

#[test]
fn a_later_level_at_the_same_price_wins() {
    let mut book = OrderbookSnapshot::new(at(0));
    book.apply(&update(&[(100, 7), (100, 9)], &[(101, 2), (101, 0)]), at(1));
    assert_eq!(book.bids.get(&100), Some(&9));
    assert_eq!(book.bids.len(), 1);
    assert_eq!(book.asks.get(&101), Some(&2));
    book.apply(&update(&[(100, 7), (100, 0), (100, 7)], &[]), at(2));
    assert_eq!(book.bids.get(&100), Some(&7));
}

#[test]
fn a_bid_quantity_of_zero_leaves_the_level_out() {
    let mut book = OrderbookSnapshot::new(at(0));
    let u = DepthUpdate {
        last_update_id: None,
        bids: vec![Level::parse("30100.1", "0.0"), Level::parse("30099.9", "0.5")],
        asks: vec![Level::parse("30101.2", "0.8")],
    };
    book.apply(&u, at(1));
    assert_eq!(book.bids.get(&3_010_010_000_000), None);
    assert_eq!(book.bids.len(), 1);
    assert_eq!(book.best_prices(), Some(((3_009_990_000_000, 50_000_000), (3_010_120_000_000, 80_000_000))));
}

#[test]
fn a_price_that_cannot_be_read_is_entered_at_zero() {
    let mut book = OrderbookSnapshot::new(at(0));
    let u = DepthUpdate {
        last_update_id: None,
        bids: vec![Level::parse("abc", "1.5")],
        asks: vec![Level::parse("30101.2", "abc")],
    };
    book.apply(&u, at(1));
    assert_eq!(book.bids.get(&0), Some(&150_000_000));
    assert!(book.asks.is_empty());
}

#[test]
fn prices_below_zero_are_ordered_below_the_others() {
    let mut book = OrderbookSnapshot::new(at(0));
    book.apply(&update(&[(-5, 1), (-7, 2)], &[(-3, 4), (2, 1)]), at(1));
    assert_eq!(book.best_prices(), Some(((-5, 1), (-3, 4))));
}

#[test]
fn timestamps_are_ordered_in_time() {
    assert!(Timestamp { secs: 1, nanos: 999_999_999 } < Timestamp { secs: 2, nanos: 0 });
    assert!(Timestamp { secs: 2, nanos: 1 } > Timestamp { secs: 2, nanos: 0 });
    assert!(Timestamp { secs: -1, nanos: 5 } < Timestamp { secs: 0, nanos: 0 });
    assert_eq!(Timestamp { secs: 3, nanos: 4 }, Timestamp { secs: 3, nanos: 4 });
}
