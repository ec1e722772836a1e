//! The order book: for each side a map from price to quantity, replaced as a
//! whole by every update, and the best price of each side.
use crate::clock::Timestamp;
use crate::update::{DepthUpdate, Level, UpdateView};
use std::collections::BTreeMap;
use vstd::prelude::*;

verus! {

/// The book of one trading pair. Prices and quantities are in units of 10⁻⁸.
///
/// `apply` leaves only quantities above zero in it, and leaves it holding
/// exactly what the last update listed.
#[derive(Clone, Debug)]
pub struct OrderbookSnapshot {
    /// When the book was last written.
    pub timestamp: Timestamp,
    /// The buy side. The best bid is the greatest price.
    pub bids: BTreeMap<i64, i64>,
    /// The sell side. The best ask is the least price.
    pub asks: BTreeMap<i64, i64>,
}

/// The mathematical content of an `OrderbookSnapshot`.
pub struct BookView {
    pub timestamp: Timestamp,
    pub bids: Map<i64, i64>,
    pub asks: Map<i64, i64>,
}

impl View for OrderbookSnapshot {
    type V = BookView;

    open spec fn view(&self) -> BookView {
        BookView { timestamp: self.timestamp, bids: self.bids@, asks: self.asks@ }
    }
}

/// Level `i` of `levels` is there and has a quantity above zero.
pub open spec fn live(levels: Seq<Level>, i: int) -> bool {
    0 <= i < levels.len() && levels[i].qty > 0
}

/// The side that a list of levels builds: the levels are entered in order,
/// those with a quantity of zero or less are passed over, and a later level
/// takes the place of an earlier one at the same price.
pub open spec fn side_of(levels: Seq<Level>) -> Map<i64, i64>
    decreases levels.len(),
{
    if levels.len() == 0 {
        Map::empty()
    } else {
        let before = side_of(levels.drop_last());
        let level = levels.last();
        if level.qty > 0 {
            before.insert(level.price, level.qty)
        } else {
            before
        }
    }
}

/// The side has no level.
pub open spec fn is_vacant(side: Map<i64, i64>) -> bool {
    forall|price: i64| !side.contains_key(price)
}

/// `price` is in the side, and no price in it is greater.
pub open spec fn is_highest(side: Map<i64, i64>, price: i64) -> bool {
    &&& side.contains_key(price)
    &&& forall|other: i64| side.contains_key(other) ==> other <= price
}

/// `price` is in the side, and no price in it is less.
pub open spec fn is_lowest(side: Map<i64, i64>, price: i64) -> bool {
    &&& side.contains_key(price)
    &&& forall|other: i64| side.contains_key(other) ==> price <= other
}

/// Every quantity in the side is above zero.
pub open spec fn quantities_positive(side: Map<i64, i64>) -> bool {
    forall|price: i64| side.contains_key(price) ==> side[price] > 0
}

impl BookView {
    /// A book with nothing on either side.
    pub open spec fn empty(at: Timestamp) -> BookView {
        BookView { timestamp: at, bids: Map::empty(), asks: Map::empty() }
    }

    /// The book after `update` was applied at `now`. Nothing of the book
    /// before is left.
    pub open spec fn apply(self, update: UpdateView, now: Timestamp) -> BookView {
        BookView { timestamp: now, bids: side_of(update.bids), asks: side_of(update.asks) }
    }

    /// No level with a quantity of zero or less is stored.
    pub open spec fn wf(self) -> bool {
        quantities_positive(self.bids) && quantities_positive(self.asks)
    }

    /// `answer` is the top of this book: the entry at the greatest bid price
    /// with the entry at the least ask price, or nothing where a side is
    /// vacant.
    pub open spec fn has_best(self, answer: Option<((i64, i64), (i64, i64))>) -> bool {
        match answer {
            Some((bid, ask)) => {
                &&& is_highest(self.bids, bid.0)
                &&& self.bids[bid.0] == bid.1
                &&& is_lowest(self.asks, ask.0)
                &&& self.asks[ask.0] == ask.1
            },
            None => is_vacant(self.bids) || is_vacant(self.asks),
        }
    }
}

/// Calls `BTreeMap::last_key_value` and copies the pair out.
///
/// Trusted: the pair is the entry with the greatest key, and there is none
/// only in a map without entries.
#[verifier::external_body]
fn last_entry(side: &BTreeMap<i64, i64>) -> (r: Option<(i64, i64)>)
    ensures
        match r {
            Some(entry) => is_highest(side@, entry.0) && side@[entry.0] == entry.1,
            None => is_vacant(side@),
        },
{
    side.last_key_value().map(|(price, qty)| (*price, *qty))
}

/// Calls `BTreeMap::first_key_value` and copies the pair out.
///
/// Trusted: the pair is the entry with the least key, and there is none only
/// in a map without entries.
#[verifier::external_body]
fn first_entry(side: &BTreeMap<i64, i64>) -> (r: Option<(i64, i64)>)
    ensures
        match r {
            Some(entry) => is_lowest(side@, entry.0) && side@[entry.0] == entry.1,
            None => is_vacant(side@),
        },
{
    side.first_key_value().map(|(price, qty)| (*price, *qty))
}

/// Empties `side` and enters `levels` into it.
fn rebuild_side(side: &mut BTreeMap<i64, i64>, levels: &Vec<Level>)
    ensures
        final(side)@ == side_of(levels@),
{
    side.clear();
    let mut i: usize = 0;
    assert(levels@.take(0) =~= Seq::<Level>::empty());
    while i < levels.len()
        invariant
            i <= levels.len(),
            side@ == side_of(levels@.take(i as int)),
        decreases levels.len() - i,
    {
        let level = levels[i];
        assert(levels@.take(i + 1).drop_last() =~= levels@.take(i as int));
        assert(levels@.take(i + 1).last() == level);
        if level.qty > 0 {
            side.insert(level.price, level.qty);
        }
        i += 1;
    }
    assert(levels@.take(i as int) =~= levels@);
}

impl OrderbookSnapshot {
    /// A book with nothing on either side, stamped `now`.
    pub fn new(now: Timestamp) -> (r: Self)
        ensures
            r@ == BookView::empty(now),
    {
        OrderbookSnapshot { timestamp: now, bids: BTreeMap::new(), asks: BTreeMap::new() }
    }

    /// Replaces the book by what `update` lists and stamps it `now`.
    ///
    /// Both sides are emptied first. A level with a quantity above zero is
    /// entered at its price; any other level is passed over.
    pub fn apply(&mut self, update: &DepthUpdate, now: Timestamp)
        ensures
            final(self)@ == old(self)@.apply(update@, now),
            final(self)@.wf(),
    {
        proof {
            lemma_apply_is_wf(old(self)@, update@, now);
        }
        rebuild_side(&mut self.bids, &update.bids);
        rebuild_side(&mut self.asks, &update.asks);
        self.timestamp = now;
    }

    /// The best bid with the best ask, each as `(price, quantity)`, or `None`
    /// while a side has no level.
    pub fn best_prices(&self) -> (r: Option<((i64, i64), (i64, i64))>)
        ensures
            self@.has_best(r),
    {
        match (last_entry(&self.bids), first_entry(&self.asks)) {
            (Some(bid), Some(ask)) => Some((bid, ask)),
            _ => None,
        }
    }
}

/// What a side holds after a list of levels was entered: only quantities
/// above zero, each taken from a level of the list with that price; and the
/// price of every level with a quantity above zero is there.
pub proof fn lemma_side_entries(levels: Seq<Level>)
    ensures
        side_of(levels).dom().finite(),
        quantities_positive(side_of(levels)),
        forall|price: i64| #[trigger]
            side_of(levels).contains_key(price) ==> exists|i: int|
                live(levels, i) && levels[i].price == price && levels[i].qty == side_of(
                    levels,
                )[price],
        forall|i: int| live(levels, i) ==> side_of(levels).contains_key(#[trigger] levels[i].price),
    decreases levels.len(),
{
    if levels.len() > 0 {
        let rest = levels.drop_last();
        let level = levels.last();
        let last = levels.len() - 1;
        lemma_side_entries(rest);
        assert forall|price: i64| #[trigger] side_of(levels).contains_key(price) implies exists|
            i: int,
        |
            live(levels, i) && levels[i].price == price && levels[i].qty == side_of(
                levels,
            )[price] by {
            if level.qty > 0 && price == level.price {
                assert(live(levels, last));
            } else {
                assert(side_of(rest).contains_key(price));
                let i = choose|i: int|
                    live(rest, i) && rest[i].price == price && rest[i].qty == side_of(rest)[price];
                assert(live(levels, i) && levels[i] == rest[i]);
            }
        }
        assert forall|i: int| live(levels, i) implies side_of(levels).contains_key(
            #[trigger] levels[i].price,
        ) by {
            if i < last {
                assert(live(rest, i) && rest[i] == levels[i]);
            }
        }
    }
}

/// A level with a quantity above zero is in the side with exactly that
/// quantity, unless a later level of the list names the same price with
/// another quantity above zero.
pub proof fn lemma_side_keeps_level(levels: Seq<Level>, i: int)
    requires
        live(levels, i),
        forall|j: int|
            i < j && #[trigger] live(levels, j) && levels[j].price == levels[i].price
                ==> levels[j].qty == levels[i].qty,
    ensures
        side_of(levels).contains_pair(levels[i].price, levels[i].qty),
    decreases levels.len(),
{
    let rest = levels.drop_last();
    let last = levels.len() - 1;
    if i < last {
        assert(rest[i] == levels[i]);
        assert forall|j: int|
            i < j && #[trigger] live(rest, j) && rest[j].price == rest[i].price implies rest[j].qty
            == rest[i].qty by {
            assert(live(levels, j) && levels[j] == rest[j]);
        }
        lemma_side_keeps_level(rest, i);
        if levels[last].qty > 0 && levels[last].price == levels[i].price {
            assert(live(levels, last));
        }
    }
}

/// After an update with a live bid and a live ask was applied, the book has
/// a top; its bid price is the greatest price among the live bids of the
/// update, and its ask price the least among the live asks.
pub proof fn lemma_best_after_apply(
    book: BookView,
    update: UpdateView,
    now: Timestamp,
    answer: Option<((i64, i64), (i64, i64))>,
)
    requires
        exists|i: int| live(update.bids, i),
        exists|i: int| live(update.asks, i),
        book.apply(update, now).has_best(answer),
    ensures
        answer is Some,
        exists|i: int| live(update.bids, i) && update.bids[i].price == answer.unwrap().0.0,
        forall|i: int| #[trigger] live(update.bids, i) ==> update.bids[i].price <= answer.unwrap().0.0,
        exists|i: int| live(update.asks, i) && update.asks[i].price == answer.unwrap().1.0,
        forall|i: int| #[trigger] live(update.asks, i) ==> answer.unwrap().1.0 <= update.asks[i].price,
{
    lemma_side_entries(update.bids);
    lemma_side_entries(update.asks);
    let b = choose|i: int| live(update.bids, i);
    let a = choose|i: int| live(update.asks, i);
    assert(side_of(update.bids).contains_key(update.bids[b].price));
    assert(side_of(update.asks).contains_key(update.asks[a].price));
    let top = answer.unwrap();
    assert(side_of(update.bids).contains_key(top.0.0));
    assert(side_of(update.asks).contains_key(top.1.0));
    assert forall|i: int| #[trigger] live(update.bids, i) implies update.bids[i].price
        <= top.0.0 by {
        assert(side_of(update.bids).contains_key(update.bids[i].price));
    }
    assert forall|i: int| #[trigger] live(update.asks, i) implies top.1.0
        <= update.asks[i].price by {
        assert(side_of(update.asks).contains_key(update.asks[i].price));
    }
}

/// A new book has no top.
pub proof fn lemma_new_book_has_no_best(at: Timestamp, answer: Option<((i64, i64), (i64, i64))>)
    requires
        BookView::empty(at).has_best(answer),
    ensures
        answer is None,
{
}

/// A book with a vacant side has no top.
pub proof fn lemma_no_best_without_both_sides(
    book: BookView,
    answer: Option<((i64, i64), (i64, i64))>,
)
    requires
        book.has_best(answer),
        is_vacant(book.bids) || is_vacant(book.asks),
    ensures
        answer is None,
{
}

/// Applying an update leaves a book that holds only quantities above zero.
pub proof fn lemma_apply_is_wf(book: BookView, update: UpdateView, now: Timestamp)
    ensures
        book.apply(update, now).wf(),
{
    lemma_side_entries(update.bids);
    lemma_side_entries(update.asks);
}

/// Applying the same update a second time changes nothing but the stamp, and
/// not even that where both are applied at the same instant. What the book
/// held before the first does not matter.
pub proof fn lemma_apply_idempotent(
    book: BookView,
    other: BookView,
    update: UpdateView,
    first: Timestamp,
    second: Timestamp,
)
    ensures
        book.apply(update, first).apply(update, second).bids == book.apply(update, first).bids,
        book.apply(update, first).apply(update, second).asks == book.apply(update, first).asks,
        book.apply(update, first).apply(update, first) == book.apply(update, first),
        book.apply(update, first) == other.apply(update, first),
{
}

} // verus!
