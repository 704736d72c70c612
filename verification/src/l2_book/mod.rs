//! The book-synchronisation engine.

pub mod fsm;
pub mod ladder;
pub mod laws;
pub mod model;
mod order;
pub mod processor;
pub mod snapshot;
pub mod types;

pub use fsm::{BookAction, BookFsm, BookSequencer, BookState};
pub use processor::{BookProcessor, ProcessorStep};
pub use snapshot::BookSnapshot;
pub use types::{Order, Price, PriceSize, Sequence, Size, SCALE, ZERO_SIZE};
