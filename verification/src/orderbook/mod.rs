//! Keyed queues for the orders that rest at one price.

pub mod backing;
pub mod book;
pub mod linkedlist;
pub mod node;
pub mod queue;

pub use book::OrderBook;
pub use linkedlist::LinkedList;
pub use node::Node;
pub use queue::Queue;
