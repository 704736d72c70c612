//! The node of a keyed list.

use vstd::prelude::*;

verus! {

/// One entry of a keyed list: its key, its value, and the places of its
/// neighbours in the backing store.
pub struct Node {
    pub key: u64,
    pub value: u64,
    pub next: Option<usize>,
    pub prev: Option<usize>,
}

impl Node {
    pub fn new(key: u64, value: u64) -> (node: Node)
        ensures
            node == (Node { key, value, next: None, prev: None }),
    {
        Node { key, value, next: None, prev: None }
    }
}

} // verus!
