//! The handle of one trading pair on the Binance depth stream: its symbol,
//! the depth asked for, and its book.
//!
//! The handle is plain data. Whoever shares it between the task that drives
//! the stream and the tasks that read prices puts it behind a lock; `&mut`
//! here is the writer's turn, so a reader sees a book before an update or
//! after it, never in between.
pub use crate::book::OrderbookSnapshot;
use crate::book::BookView;
use crate::clock::now;
use crate::decode::{decode, decode_text, DecodeError};
use crate::endpoint::{endpoint_text, endpoint_url, lowercase_of, to_lowercase};
use crate::engine::{
    advance, next_action, next_state, Action, ActionView, EngineState, Event, Transition,
    RECONNECT_DELAY_SECS,
};
use crate::update::{DepthUpdate, UpdateView};
use vstd::prelude::*;

verus! {

#[derive(Clone, Debug)]
pub struct BinanceOrderbookWS {
    /// The trading pair, in lower case.
    pub symbol: String,
    /// How many levels a side the stream is asked for.
    pub depth_level: usize,
    pub orderbook: OrderbookSnapshot,
}

/// The update that `event` brings in `state`: the one that the text of a
/// message decodes to while streaming, and none otherwise.
pub open spec fn update_in(state: EngineState, event: Event) -> Option<UpdateView> {
    match (state, event) {
        (EngineState::Streaming, Event::Text(text)) => match decode_text(text@) {
            Ok(update) => Some(update),
            Err(_) => None,
        },
        (_, _) => None,
    }
}

impl BinanceOrderbookWS {
    /// The address of the stream of this pair.
    pub open spec fn endpoint_spec(&self) -> Seq<char> {
        endpoint_text(self.symbol@, self.depth_level as nat)
    }

    /// `self` is `before` with `update` applied to its book at some instant.
    pub open spec fn applied(&self, before: &Self, update: UpdateView) -> bool {
        &&& self.symbol == before.symbol
        &&& self.depth_level == before.depth_level
        &&& self.orderbook@ == before.orderbook@.apply(update, self.orderbook.timestamp)
    }

    /// A handle for `symbol`, which is kept in lower case, with a book that
    /// has nothing on either side and is stamped with the current time.
    pub fn new(symbol: &str, depth_level: usize) -> (r: Self)
        ensures
            r.symbol@ == lowercase_of(symbol@),
            r.depth_level == depth_level,
            r.orderbook@ == BookView::empty(r.orderbook.timestamp),
    {
        BinanceOrderbookWS {
            symbol: to_lowercase(symbol),
            depth_level,
            orderbook: OrderbookSnapshot::new(now()),
        }
    }

    /// The address of the stream of this pair.
    pub fn endpoint(&self) -> (r: String)
        ensures
            r@ == self.endpoint_spec(),
    {
        endpoint_url(self.symbol.as_str(), self.depth_level)
    }

    /// Starts the client: the first thing to do is to open the stream.
    pub fn start(&self) -> (r: Transition)
        ensures
            r.state == EngineState::Connecting,
            r.action@ == ActionView::Connect(self.endpoint_spec()),
    {
        Transition { state: EngineState::Connecting, action: Action::Connect(self.endpoint()) }
    }

    /// Takes in what happened to the client in `state`, and says where the
    /// client is now and what to do next.
    ///
    /// A text message that arrives while streaming and decodes replaces the
    /// book. Nothing else touches the handle: a message that does not decode
    /// is dropped, and the client goes on reading.
    pub fn on_event(&mut self, state: EngineState, event: &Event) -> (r: Transition)
        ensures
            r.state == next_state(state, *event),
            r.action@ == next_action(state, *event, old(self).endpoint_spec()),
            match update_in(state, *event) {
                Some(update) => final(self).applied(old(self), update),
                None => *final(self) == *old(self),
            },
    {
        let next = advance(state, event);
        match event {
            Event::Text(text) => {
                if state == EngineState::Streaming {
                    let _ = self.on_text(text.as_str());
                }
            },
            _ => {},
        }
        let action = match event {
            Event::Shutdown => Action::Stop,
            _ => match next {
                EngineState::Disconnected => Action::Wait(RECONNECT_DELAY_SECS),
                EngineState::Connecting => Action::Connect(self.endpoint()),
                EngineState::Streaming => Action::Receive,
            },
        };
        Transition { state: next, action }
    }

    /// Decodes the text of one message and, where it decodes, replaces the
    /// book by what it lists. A text that does not decode leaves the handle
    /// as it was.
    pub fn on_text(&mut self, text: &str) -> (r: Result<(), DecodeError>)
        ensures
            match decode_text(text@) {
                Ok(update) => r is Ok && final(self).applied(old(self), update),
                Err(e) => r == Err::<(), DecodeError>(e) && *final(self) == *old(self),
            },
    {
        match decode(text) {
            Ok(update) => {
                self.process_snapshot(update);
                Ok(())
            },
            Err(e) => Err(e),
        }
    }

    /// Replaces the book by what `data` lists and stamps it with the
    /// current time.
    pub fn process_snapshot(&mut self, data: DepthUpdate)
        ensures
            final(self).applied(old(self), data@),
    {
        self.orderbook.apply(&data, now());
    }

    /// The best bid with the best ask, each as `(price, quantity)` in units
    /// of 10⁻⁸, or `None` while a side of the book has no level.
    pub fn get_best_price(&self) -> (r: Option<((i64, i64), (i64, i64))>)
        ensures
            self.orderbook@.has_best(r),
    {
        self.orderbook.best_prices()
    }
}

} // verus!
