//! The order-by-order side of a book.

use super::queue::Queue;
use std::collections::BTreeMap;
use vstd::prelude::*;

verus! {

/// The asks of a book, order by order: at each price the queue of the
/// orders that rest there.
pub struct OrderBook {
    asks: BTreeMap<u64, Queue>,
}

} // verus!
