//! The queue of the orders that rest at one price: a keyed list from which
//! an order can also be taken out by its key, wherever it stands.

use super::linkedlist::{has_key, keys_distinct, LinkedList};
use vstd::prelude::*;

verus! {

/// A queue of values in the order in which they were pushed, each under a
/// key of its own.
pub struct Queue {
    list: LinkedList,
}

impl View for Queue {
    type V = Seq<(u64, u64)>;

    /// The keys and values of the queue, front to back.
    closed spec fn view(&self) -> Seq<(u64, u64)> {
        self.list@
    }
}

impl Queue {
    /// The queue is sound: key set and node set are one, the nodes are
    /// linked front to back, and head and tail are the ends, or none where
    /// the queue is empty.
    pub closed spec fn wf(&self) -> bool {
        self.list.wf()
    }

    /// No key occurs twice in a sound queue.
    pub proof fn lemma_keys_distinct(&self)
        requires
            self.wf(),
        ensures
            keys_distinct(self@),
    {
        self.list.lemma_keys_distinct();
    }

    pub fn new() -> (queue: Queue)
        ensures
            queue.wf(),
            queue@ == Seq::<(u64, u64)>::empty(),
    {
        Queue { list: LinkedList::new() }
    }

    pub fn is_empty(&self) -> (empty: bool)
        requires
            self.wf(),
        ensures
            empty == (self@.len() == 0),
    {
        self.list.is_empty()
    }

    pub fn len(&self) -> (len: usize)
        requires
            self.wf(),
        ensures
            len == self@.len(),
    {
        self.list.len()
    }

    /// The value at the front, to be changed where it is.
    pub fn front(&mut self) -> (value: Option<&mut u64>)
        requires
            old(self).wf(),
        ensures
            match value {
                Some(value) => old(self)@.len() > 0 && *value == old(self)@[0].1 && final(self)@
                    == old(self)@.update(0, (old(self)@[0].0, *final(value))) && final(self).wf(),
                None => old(self)@.len() == 0 && final(self)@ == old(self)@ && final(self).wf(),
            },
    {
        self.list.front()
    }

    /// Takes the entry under `key` out of the queue, wherever it stands,
    /// and says whether there was one.
    pub fn remove_key(&mut self, key: u64) -> (removed: bool)
        requires
            old(self).wf(),
        ensures
            final(self).wf(),
            removed == has_key(old(self)@, key),
            removed ==> exists|i: int|
                0 <= i < old(self)@.len() && (#[trigger] old(self)@[i]).0 == key && final(self)@
                    == old(self)@.remove(i),
            !removed ==> final(self)@ == old(self)@,
    {
        self.list.remove_key(key)
    }

    /// Puts `value` at the back under `key`, unless the queue holds the key
    /// already: then nothing changes, and the value that is there stays.
    pub fn push_back(&mut self, key: u64, value: u64) -> (pushed: bool)
        requires
            old(self).wf(),
        ensures
            final(self).wf(),
            pushed == !has_key(old(self)@, key),
            pushed ==> final(self)@ == old(self)@.push((key, value)),
            !pushed ==> final(self)@ == old(self)@,
    {
        self.list.push_back(key, value)
    }

    /// Takes the value at the front out of the queue.
    pub fn pop_front(&mut self) -> (value: Option<u64>)
        requires
            old(self).wf(),
        ensures
            final(self).wf(),
            old(self)@.len() == 0 ==> value is None && final(self)@ == old(self)@,
            old(self)@.len() > 0 ==> value == Some(old(self)@[0].1) && final(self)@
                == old(self)@.drop_first(),
    {
        self.list.pop_front()
    }

    /// The keys and values of the queue, front to back.
    pub fn iter(&self) -> (entries: Vec<(u64, u64)>)
        requires
            self.wf(),
        ensures
            entries@ == self@,
    {
        self.list.iter()
    }
}

impl Default for Queue {
    fn default() -> (queue: Self)
        ensures
            queue.wf(),
            queue@ == Seq::<(u64, u64)>::empty(),
    {
        Self::new()
    }
}

} // verus!
