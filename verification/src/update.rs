//! One depth message, decoded: the price levels it lists for each side.
use crate::decimal::{decimal_or_zero, value_or_zero};
use vstd::prelude::*;

verus! {

/// One price level: a price and the quantity resting at it, both in units of
/// 10⁻⁸. A quantity of zero or less says that the level is gone.
#[derive(Clone, Copy, Debug, PartialEq, Eq, Structural)]
pub struct Level {
    pub price: i64,
    pub qty: i64,
}

/// The level that a pair of numeral texts writes. A text that is no numeral
/// counts as zero.
pub open spec fn level_from(price: Seq<char>, qty: Seq<char>) -> Level {
    Level { price: value_or_zero(price) as i64, qty: value_or_zero(qty) as i64 }
}

impl Level {
    /// Reads a level from its two numeral texts; a text that is no numeral is
    /// read as zero.
    pub fn parse(price: &str, qty: &str) -> (r: Level)
        ensures
            r == level_from(price@, qty@),
    {
        Level { price: decimal_or_zero(price), qty: decimal_or_zero(qty) }
    }
}

/// A decoded depth message. The levels keep the order of the message.
#[derive(Clone, Debug)]
pub struct DepthUpdate {
    /// The sequence number of the message, where it carried one. Nothing
    /// reads it: every message replaces the book.
    pub last_update_id: Option<u64>,
    pub bids: Vec<Level>,
    pub asks: Vec<Level>,
}

/// The mathematical content of a `DepthUpdate`.
pub struct UpdateView {
    pub last_update_id: Option<u64>,
    pub bids: Seq<Level>,
    pub asks: Seq<Level>,
}

impl View for DepthUpdate {
    type V = UpdateView;

    open spec fn view(&self) -> UpdateView {
        UpdateView { last_update_id: self.last_update_id, bids: self.bids@, asks: self.asks@ }
    }
}

} // verus!
