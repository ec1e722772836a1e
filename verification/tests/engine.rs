use binance_orderbook::endpoint::endpoint_url;
use binance_orderbook::engine::{advance, Action, EngineState, Event, Transition, RECONNECT_DELAY_SECS};
use binance_orderbook::ws::binance::BinanceOrderbookWS;

const MESSAGE: &str =
    r#"{"lastUpdateId": 42, "bids": [["30100.1", "1.5"]], "asks": [["30101.2", "0.8"]]}"#;

fn every_event() -> Vec<Event> {
    vec![
        Event::Connected,
        Event::ConnectFailed,
        Event::Text(MESSAGE.to_string()),
        Event::OtherMessage,
        Event::ReadFailed,
        Event::Closed,
        Event::DelayElapsed,
        Event::Shutdown,
    ]
}

#[test]
fn the_address_names_symbol_and_depth() {
    assert_eq!(endpoint_url("btcusdt", 20), "wss://stream.binance.com:9443/ws/btcusdt@depth20@100ms");
    assert_eq!(endpoint_url("ethusdt", 5), "wss://stream.binance.com:9443/ws/ethusdt@depth5@100ms");
    assert_eq!(endpoint_url("x", 0), "wss://stream.binance.com:9443/ws/x@depth0@100ms");
    assert_eq!(endpoint_url("x", 10), "wss://stream.binance.com:9443/ws/x@depth10@100ms");
    assert_eq!(endpoint_url("x", 1000), "wss://stream.binance.com:9443/ws/x@depth1000@100ms");
    assert_eq!(
        endpoint_url("", usize::MAX),
        format!("wss://stream.binance.com:9443/ws/@depth{}@100ms", usize::MAX)
    );
}

#[test]
fn the_symbol_is_kept_in_lower_case() {
    let ob = BinanceOrderbookWS::new("BTCUSDT", 20);
    assert_eq!(ob.symbol, "btcusdt");
    assert_eq!(ob.depth_level, 20);
    assert_eq!(ob.endpoint(), "wss://stream.binance.com:9443/ws/btcusdt@depth20@100ms");
    assert_eq!(BinanceOrderbookWS::new("CakeBnb", 5).symbol, "cakebnb");
}

#[test]
fn starting_asks_for_a_connection() {
    let ob = BinanceOrderbookWS::new("cakebnb", 20);
    assert_eq!(
        ob.start(),
        Transition {
            state: EngineState::Connecting,
            action: Action::Connect(
                "wss://stream.binance.com:9443/ws/cakebnb@depth20@100ms".to_string()
            ),
        }
    );
}

#[test]
fn the_states_follow_the_transport() {
    assert_eq!(advance(EngineState::Connecting, &Event::Connected), EngineState::Streaming);
    assert_eq!(advance(EngineState::Connecting, &Event::ConnectFailed), EngineState::Disconnected);
    assert_eq!(advance(EngineState::Disconnected, &Event::DelayElapsed), EngineState::Connecting);
    assert_eq!(advance(EngineState::Streaming, &Event::Text(String::new())), EngineState::Streaming);
    assert_eq!(advance(EngineState::Streaming, &Event::OtherMessage), EngineState::Streaming);
    assert_eq!(advance(EngineState::Streaming, &Event::ReadFailed), EngineState::Disconnected);
    assert_eq!(advance(EngineState::Streaming, &Event::Closed), EngineState::Disconnected);
}

#[test]
fn an_event_out_of_place_changes_no_state() {
    assert_eq!(advance(EngineState::Disconnected, &Event::Connected), EngineState::Disconnected);
    assert_eq!(advance(EngineState::Disconnected, &Event::Closed), EngineState::Disconnected);
    assert_eq!(advance(EngineState::Connecting, &Event::DelayElapsed), EngineState::Connecting);
    assert_eq!(advance(EngineState::Connecting, &Event::ReadFailed), EngineState::Connecting);
    assert_eq!(advance(EngineState::Streaming, &Event::Connected), EngineState::Streaming);
    assert_eq!(advance(EngineState::Streaming, &Event::ConnectFailed), EngineState::Streaming);
    assert_eq!(advance(EngineState::Streaming, &Event::DelayElapsed), EngineState::Streaming);
}

#[test]
fn a_failure_is_followed_by_the_fixed_delay_and_a_new_attempt() {
    assert_eq!(RECONNECT_DELAY_SECS, 3);
    let mut ob = BinanceOrderbookWS::new("btcusdt", 20);
    let url = ob.endpoint();

    let failed = ob.on_event(EngineState::Connecting, &Event::ConnectFailed);
    assert_eq!(failed, Transition { state: EngineState::Disconnected, action: Action::Wait(3) });
    let again = ob.on_event(failed.state, &Event::DelayElapsed);
    assert_eq!(
        again,
        Transition { state: EngineState::Connecting, action: Action::Connect(url.clone()) }
    );
    let open = ob.on_event(again.state, &Event::Connected);
    assert_eq!(open, Transition { state: EngineState::Streaming, action: Action::Receive });
    let closed = ob.on_event(open.state, &Event::Closed);
    assert_eq!(closed, Transition { state: EngineState::Disconnected, action: Action::Wait(3) });
    let broken = ob.on_event(EngineState::Streaming, &Event::ReadFailed);
    assert_eq!(broken, Transition { state: EngineState::Disconnected, action: Action::Wait(3) });
}

#[test]
fn only_a_shutdown_stops_the_client() {
    let mut ob = BinanceOrderbookWS::new("btcusdt", 20);
    for state in [EngineState::Disconnected, EngineState::Connecting, EngineState::Streaming] {
        for event in every_event() {
            let step = ob.on_event(state, &event);
            assert_eq!(step.state, advance(state, &event));
            if event == Event::Shutdown {
                assert_eq!(step, Transition { state: EngineState::Disconnected, action: Action::Stop });
            } else {
                assert_ne!(step.action, Action::Stop);
                match step.state {
                    EngineState::Disconnected => assert_eq!(step.action, Action::Wait(3)),
                    EngineState::Connecting => assert_eq!(step.action, Action::Connect(ob.endpoint())),
                    EngineState::Streaming => assert_eq!(step.action, Action::Receive),
                }
            }
        }
    }
}

#[test]
fn a_text_message_while_streaming_replaces_the_book() {
    let mut ob = BinanceOrderbookWS::new("btcusdt", 20);
    let step = ob.on_event(EngineState::Streaming, &Event::Text(MESSAGE.to_string()));
    assert_eq!(step, Transition { state: EngineState::Streaming, action: Action::Receive });
    assert_eq!(
        ob.get_best_price(),
        Some(((3_010_010_000_000, 150_000_000), (3_010_120_000_000, 80_000_000)))
    );
    let next = r#"{"bids": [["5", "1"]], "asks": [["6", "2"]]}"#.to_string();
    ob.on_event(EngineState::Streaming, &Event::Text(next));
    assert_eq!(ob.get_best_price(), Some(((500_000_000, 100_000_000), (600_000_000, 200_000_000))));
    assert_eq!(ob.orderbook.bids.len(), 1);
}

#[test]
fn a_text_message_in_another_state_is_not_applied() {
    let mut ob = BinanceOrderbookWS::new("btcusdt", 20);
    for state in [EngineState::Disconnected, EngineState::Connecting] {
        let stamp = ob.orderbook.timestamp;
        let step = ob.on_event(state, &Event::Text(MESSAGE.to_string()));
        assert_eq!(step.state, state);
        assert_eq!(ob.get_best_price(), None);
        assert_eq!(ob.orderbook.timestamp, stamp);
    }
}

#[test]
fn a_message_that_does_not_decode_is_dropped() {
    let mut ob = BinanceOrderbookWS::new("btcusdt", 20);
    ob.on_event(EngineState::Streaming, &Event::Text(MESSAGE.to_string()));
    let bids = ob.orderbook.bids.clone();
    let asks = ob.orderbook.asks.clone();
    let stamp = ob.orderbook.timestamp;
    for raw in [r#"{"lastUpdateId": 43, "asks": [["1.0", "1.0"]]}"#, "garbage", r#"{"bids": [], "asks": 1}"#] {
        let step = ob.on_event(EngineState::Streaming, &Event::Text(raw.to_string()));
        assert_eq!(step, Transition { state: EngineState::Streaming, action: Action::Receive });
        assert_eq!(ob.orderbook.bids, bids);
        assert_eq!(ob.orderbook.asks, asks);
        assert_eq!(ob.orderbook.timestamp, stamp);
        assert_eq!(ob.symbol, "btcusdt");
        assert_eq!(ob.depth_level, 20);
    }
}

#[test]
fn events_without_a_message_leave_the_book_alone() {
    let mut ob = BinanceOrderbookWS::new("btcusdt", 20);
    ob.on_event(EngineState::Streaming, &Event::Text(MESSAGE.to_string()));
    let best = ob.get_best_price();
    let stamp = ob.orderbook.timestamp;
    for state in [EngineState::Disconnected, EngineState::Connecting, EngineState::Streaming] {
        for event in every_event() {
            if matches!(event, Event::Text(_)) {
                continue;
            }
            ob.on_event(state, &event);
            assert_eq!(ob.get_best_price(), best);
            assert_eq!(ob.orderbook.timestamp, stamp);
        }
    }
}
