//! A sequence-consistent level-2 order book: a synchronisation state machine
//! that reconciles a gap-prone stream of depth updates with snapshots, the
//! decision core of the actor that drives it, and an exchange adapter.

pub mod binance;
pub mod l2_book;
pub mod orderbook;
pub mod ws;
