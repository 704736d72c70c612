//! The Binance adapter: the venue's payloads, their normalised form, and
//! the sequencing policy of its depth stream.

pub mod api;
pub mod book;
pub mod types;

pub use book::{BinanceBookSequencer, BinanceSnapshotFetcher, Book};
