//! The order book of one trading pair, kept in step with the Binance depth
//! stream.
//!
//! Every message of the stream lists the top levels of both sides, and the
//! book is replaced by what the message lists: there is no merging of
//! differences and no check of sequence numbers. `decode` turns the text of a
//! message into a `DepthUpdate`, `OrderbookSnapshot::apply` replaces the book,
//! and `OrderbookSnapshot::best_prices` reads its top. `engine` is the life
//! cycle of the stream client as a state machine, and `BinanceOrderbookWS`
//! ties them together for one pair.
//!
//! Prices and quantities are exact: `i64` counts of units of 10⁻⁸ (see
//! `decimal`).
//!
//! The library neither waits nor shares: it opens no connection, sleeps for
//! no delay and holds no lock. The program around it does.
pub mod book;
pub mod clock;
pub mod decimal;
pub mod decode;
pub mod endpoint;
pub mod engine;
pub mod json;
pub mod update;
pub mod ws;
