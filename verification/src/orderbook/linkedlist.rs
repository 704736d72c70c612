//! A doubly-linked list whose entries are found by key: the nodes live in a
//! slab, and a dictionary leads from each key to the place of its node.

use super::backing::{
    slab_entries, slab_get, slab_get_mut, slab_insert, slab_is_empty, slab_len, slab_new,
    slab_remove, slab_try_remove,
};
use super::node::Node;
use slab::Slab;
use std::collections::HashMap;
use vstd::prelude::*;

verus! {

/// Whether one of `entries` has the key `key`.
pub open spec fn has_key(entries: Seq<(u64, u64)>, key: u64) -> bool {
    exists|i: int| 0 <= i < entries.len() && (#[trigger] entries[i]).0 == key
}

/// Whether no two of `entries` have one key.
pub open spec fn keys_distinct(entries: Seq<(u64, u64)>) -> bool {
    forall|i: int, j: int|
        0 <= i < j < entries.len() ==> (#[trigger] entries[i]).0 != (#[trigger] entries[j]).0
}

/// A list of values in the order in which they were pushed, each under a
/// key of its own.
pub struct LinkedList {
    keys: HashMap<u64, usize>,
    backing: Slab<Node>,
    head: Option<usize>,
    tail: Option<usize>,
    /// The places of the nodes, front to back.
    order: Ghost<Seq<usize>>,
}

impl View for LinkedList {
    type V = Seq<(u64, u64)>;

    /// The keys and values of the list, front to back.
    closed spec fn view(&self) -> Seq<(u64, u64)> {
        listing(self.order@, slab_entries(self.backing))
    }
}

/// The keys and values of the nodes at the places `order`, in that order.
pub open spec fn listing(order: Seq<usize>, entries: Map<usize, Node>) -> Seq<(u64, u64)> {
    Seq::new(order.len(), |i: int| (entries[order[i]].key, entries[order[i]].value))
}

/// The nodes with the value of the node at `place` changed to `value`.
pub open spec fn with_value(entries: Map<usize, Node>, place: usize, value: u64) -> Map<
    usize,
    Node,
> {
    entries.insert(
        place,
        Node {
            key: entries[place].key,
            value,
            next: entries[place].next,
            prev: entries[place].prev,
        },
    )
}

/// The link that the node at index `i` of `order` holds to the node before
/// it.
pub open spec fn link_before(order: Seq<usize>, i: int) -> Option<usize> {
    if i == 0 {
        None
    } else {
        Some(order[i - 1])
    }
}

/// The link that the node at index `i` of `order` holds to the node after
/// it.
pub open spec fn link_after(order: Seq<usize>, i: int) -> Option<usize> {
    if i + 1 == order.len() {
        None
    } else {
        Some(order[i + 1])
    }
}

/// Whether the nodes at the places `order` are linked in that order, and
/// the dictionary `keys` leads to each of them and to nothing else.
pub open spec fn linked(
    order: Seq<usize>,
    entries: Map<usize, Node>,
    keys: Map<u64, usize>,
) -> bool {
    &&& order.no_duplicates()
    &&& forall|place: usize| #[trigger] entries.contains_key(place) <==> order.contains(place)
    &&& forall|i: int|
        0 <= i < order.len() ==> {
            &&& (#[trigger] entries[order[i]]).prev == link_before(order, i)
            &&& entries[order[i]].next == link_after(order, i)
            &&& keys.contains_key(entries[order[i]].key)
            &&& keys[entries[order[i]].key] == order[i]
        }
    &&& forall|key: u64| #[trigger]
        keys.contains_key(key) ==> order.contains(keys[key]) && entries[keys[key]].key == key
}

impl LinkedList {
    /// The list is sound: key set and node set are one, the nodes are linked
    /// front to back, and head and tail are the ends, or none where the list
    /// is empty.
    pub closed spec fn wf(&self) -> bool {
        &&& linked(self.order@, slab_entries(self.backing), self.keys@)
        &&& self.head == if self.order@.len() == 0 {
            None
        } else {
            Some(self.order@[0])
        }
        &&& self.tail == if self.order@.len() == 0 {
            None
        } else {
            Some(self.order@.last())
        }
    }

    /// No key occurs twice in a sound list.
    pub proof fn lemma_keys_distinct(&self)
        requires
            self.wf(),
        ensures
            keys_distinct(self@),
    {
        let order = self.order@;
        let entries = slab_entries(self.backing);
        assert forall|i: int, j: int| 0 <= i < j < self@.len() implies (#[trigger] self@[i]).0 != (
        #[trigger] self@[j]).0 by {
            assert(self.keys@[entries[order[i]].key] == order[i]);
            assert(self.keys@[entries[order[j]].key] == order[j]);
        }
    }

    /// A sound list holds a key exactly where its dictionary does.
    proof fn lemma_has_key(&self, key: u64)
        requires
            self.wf(),
        ensures
            has_key(self@, key) <==> self.keys@.contains_key(key),
    {
        let order = self.order@;
        let entries = slab_entries(self.backing);
        if self.keys@.contains_key(key) {
            let place = self.keys@[key];
            assert(order.contains(place));
            let i = choose|i: int| 0 <= i < order.len() && order[i] == place;
            assert(self@[i].0 == key);
        }
        if has_key(self@, key) {
            let i = choose|i: int| 0 <= i < self@.len() && (#[trigger] self@[i]).0 == key;
            assert(self.keys@.contains_key(entries[order[i]].key));
        }
    }

    pub fn new() -> (list: LinkedList)
        ensures
            list.wf(),
            list@ == Seq::<(u64, u64)>::empty(),
    {
        let list = LinkedList {
            keys: HashMap::new(),
            backing: slab_new(),
            head: None,
            tail: None,
            order: Ghost(Seq::empty()),
        };
        assert(list@ =~= Seq::<(u64, u64)>::empty());
        list
    }

    pub fn is_empty(&self) -> (empty: bool)
        requires
            self.wf(),
        ensures
            empty == (self@.len() == 0),
    {
        proof {
            if self.order@.len() > 0 {
                assert(self.order@.contains(self.order@[0]));
                assert(slab_entries(self.backing).contains_key(self.order@[0]));
            } else {
                assert(slab_entries(self.backing) =~= Map::<usize, Node>::empty());
            }
        }
        slab_is_empty(&self.backing)
    }

    pub fn len(&self) -> (len: usize)
        requires
            self.wf(),
        ensures
            len == self@.len(),
    {
        proof {
            assert(slab_entries(self.backing).dom() =~= self.order@.to_set());
            self.order@.unique_seq_to_set();
        }
        slab_len(&self.backing)
    }

    /// Puts `value` at the back under `key`, unless the list holds the key
    /// already: then nothing changes, and the value that is there stays.
    pub fn push_back(&mut self, key: u64, value: u64) -> (pushed: bool)
        requires
            old(self).wf(),
        ensures
            final(self).wf(),
            pushed == !has_key(old(self)@, key),
            pushed ==> final(self)@ == old(self)@.push((key, value)),
            !pushed ==> final(self)@ == old(self)@,
    {
        proof {
            self.lemma_has_key(key);
        }
        if self.keys.contains_key(&key) {
            return false;
        }
        let ghost order = self.order@;
        let ghost entries = slab_entries(self.backing);

        let new_node = Node::new(key, value);
        let id = slab_insert(&mut self.backing, new_node);
        self.keys.insert(key, id);

        match self.tail {
            Some(pid) => {
                assert(order.contains(pid));
                match slab_get_mut(&mut self.backing, pid) {
                    Some(prev_tail) => {
                        prev_tail.next = Some(id);
                    },
                    None => {},
                }
                match slab_get_mut(&mut self.backing, id) {
                    Some(new_tail) => {
                        new_tail.prev = Some(pid);
                    },
                    None => {},
                }
                self.tail = Some(id);
            },
            None => {
                self.head = Some(id);
                self.tail = Some(id);
            },
        }
        proof {
            self.order@ = order.push(id);
            let after = slab_entries(self.backing);
            let pushed = self.order@;
            assert forall|place: usize| #[trigger]
                after.contains_key(place) <==> pushed.contains(place) by {
                if order.contains(place) {
                    let i = choose|i: int| 0 <= i < order.len() && order[i] == place;
                    assert(self.order@[i] == place);
                }
                if place == id {
                    assert(self.order@[order.len() as int] == id);
                }
            }
            assert forall|i: int| 0 <= i < self.order@.len() implies {
                &&& (#[trigger] after[self.order@[i]]).prev == link_before(self.order@, i)
                &&& after[self.order@[i]].next == link_after(self.order@, i)
                &&& self.keys@.contains_key(after[self.order@[i]].key)
                &&& self.keys@[after[self.order@[i]].key] == self.order@[i]
            } by {
                if i < order.len() {
                    assert(order.contains(order[i]));
                    assert(entries[order[i]].key != key);
                }
            }
            assert forall|k: u64| #[trigger] self.keys@.contains_key(k) implies pushed.contains(
                self.keys@[k],
            ) && after[self.keys@[k]].key == k by {
                if k == key {
                    assert(self.order@[order.len() as int] == id);
                } else {
                    let place = old(self).keys@[k];
                    assert(order.contains(place));
                    let i = choose|i: int| 0 <= i < order.len() && order[i] == place;
                    assert(self.order@[i] == place);
                }
            }
            assert(self@ =~= old(self)@.push((key, value)));
        }
        true
    }

    /// The value at the front, to be changed where it is.
    pub fn front(&mut self) -> (value: Option<&mut u64>)
        requires
            old(self).wf(),
        ensures
            match value {
                Some(value) => old(self)@.len() > 0 && *value == old(self)@[0].1 && final(self)@
                    == old(self)@.update(0, (old(self)@[0].0, *final(value))) && final(self).wf(),
                None => old(self)@.len() == 0 && final(self)@ == old(self)@ && final(self).wf(),
            },
    {
        let id = match self.head {
            Some(id) => id,
            None => {
                return None;
            },
        };
        let ghost order = self.order@;
        let ghost entries = slab_entries(self.backing);
        proof {
            assert(order.contains(order[0]));
            assert forall|v: u64|
                linked(order, #[trigger] with_value(entries, id, v), self.keys@) && listing(
                    order,
                    with_value(entries, id, v),
                ) == self@.update(0, (self@[0].0, v)) by {
                let after = with_value(entries, id, v);
                assert forall|place: usize| #[trigger]
                    after.contains_key(place) <==> order.contains(place) by {}
                assert forall|i: int| 0 <= i < order.len() implies {
                    &&& (#[trigger] after[order[i]]).prev == link_before(order, i)
                    &&& after[order[i]].next == link_after(order, i)
                    &&& self.keys@.contains_key(after[order[i]].key)
                    &&& self.keys@[after[order[i]].key] == order[i]
                } by {
                    assert(order.contains(order[i]));
                }
                assert(listing(order, after) =~= self@.update(0, (self@[0].0, v)));
            }
        }
        match slab_get_mut(&mut self.backing, id) {
            Some(node) => {
                let ghost before = *node;
                let value = &mut node.value;
                proof {
                    let future = Node { value: *final(value), ..before };
                    assert(with_value(entries, id, *final(value)) == entries.insert(id, future));
                }
                Some(value)
            },
            None => None,
        }
    }

    /// Takes the value at the front out of the list.
    pub fn pop_front(&mut self) -> (value: Option<u64>)
        requires
            old(self).wf(),
        ensures
            final(self).wf(),
            old(self)@.len() == 0 ==> value is None && final(self)@ == old(self)@,
            old(self)@.len() > 0 ==> value == Some(old(self)@[0].1) && final(self)@
                == old(self)@.drop_first(),
    {
        let ghost order = self.order@;
        let ghost entries = slab_entries(self.backing);
        match self.head {
            Some(id) => {
                assert(order.contains(order[0]));
                let head = match slab_try_remove(&mut self.backing, id) {
                    Some(head) => head,
                    None => {
                        return None;
                    },
                };
                self.keys.remove(&head.key);
                match head.next {
                    Some(nid) => {
                        assert(order.contains(order[1]));
                        match slab_get_mut(&mut self.backing, nid) {
                            Some(next_head) => {
                                next_head.prev = None;
                            },
                            None => {},
                        }
                        self.head = Some(nid);
                    },
                    None => {
                        self.head = None;
                        self.tail = None;
                    },
                }
                proof {
                    self.order@ = order.drop_first();
                    lemma_unlinked(order, entries, old(self).keys@, 0);
                    assert(slab_entries(self.backing) =~= without(order, entries, 0));
                    assert(self.keys@ =~= old(self).keys@.remove(entries[order[0]].key));
                    assert(order.drop_first() =~= order.remove(0));
                    assert(self@ =~= old(self)@.drop_first());
                }
                Some(head.value)
            },
            None => None,
        }
    }

    /// Takes the entry under `key` out of the list, wherever it stands.
    pub(crate) fn remove_key(&mut self, key: u64) -> (removed: bool)
        requires
            old(self).wf(),
        ensures
            final(self).wf(),
            removed == has_key(old(self)@, key),
            removed ==> exists|i: int|
                0 <= i < old(self)@.len() && (#[trigger] old(self)@[i]).0 == key && final(self)@
                    == old(self)@.remove(i),
            !removed ==> final(self)@ == old(self)@,
    {
        let ghost order = self.order@;
        let ghost entries = slab_entries(self.backing);
        proof {
            self.lemma_has_key(key);
        }
        match self.keys.remove(&key) {
            Some(id) => {
                let ghost at = choose|i: int| 0 <= i < order.len() && order[i] == id;
                assert(order.contains(id));
                let node = slab_remove(&mut self.backing, id);

                match node.next {
                    Some(nid) => {
                        assert(order.contains(order[at + 1]));
                        match slab_get_mut(&mut self.backing, nid) {
                            Some(next_node) => {
                                next_node.prev = node.prev;
                            },
                            None => {},
                        }
                    },
                    None => {
                        self.tail = node.prev;
                    },
                }

                match node.prev {
                    Some(pid) => {
                        assert(order.contains(order[at - 1]));
                        match slab_get_mut(&mut self.backing, pid) {
                            Some(prev_node) => {
                                prev_node.next = node.next;
                            },
                            None => {},
                        }
                    },
                    None => {
                        self.head = node.next;
                    },
                }
                proof {
                    self.order@ = order.remove(at);
                    lemma_unlinked(order, entries, old(self).keys@, at);
                    assert(slab_entries(self.backing) =~= without(order, entries, at));
                    assert(self.keys@ =~= old(self).keys@.remove(entries[order[at]].key));
                    assert(self@ =~= old(self)@.remove(at));
                    assert(old(self)@[at].0 == key);
                }
                true
            },
            None => false,
        }
    }

    /// The keys and values of the list, front to back.
    pub fn iter(&self) -> (entries: Vec<(u64, u64)>)
        requires
            self.wf(),
        ensures
            entries@ == self@,
    {
        let mut out: Vec<(u64, u64)> = Vec::new();
        let mut current = self.head;
        let ghost order = self.order@;
        loop
            invariant
                self.wf(),
                order == self.order@,
                out.len() <= order.len(),
                current == if out.len() == order.len() {
                    None
                } else {
                    Some(order[out.len() as int])
                },
                out@ == self@.take(out.len() as int),
            decreases order.len() - out.len(),
        {
            let id = match current {
                Some(id) => id,
                None => {
                    assert(self@.take(out.len() as int) == self@);
                    return out;
                },
            };
            assert(order.contains(order[out.len() as int]));
            match slab_get(&self.backing, id) {
                Some(node) => {
                    current = node.next;
                    out.push((node.key, node.value));
                    assert(out@ =~= self@.take(out.len() as int));
                },
                None => {
                    return out;
                },
            }
        }
    }
}

impl Default for LinkedList {
    fn default() -> (list: Self)
        ensures
            list.wf(),
            list@ == Seq::<(u64, u64)>::empty(),
    {
        Self::new()
    }
}

/// The nodes after the node at index `at` of `order` was taken out and its
/// neighbours were linked to each other.
pub open spec fn without(order: Seq<usize>, entries: Map<usize, Node>, at: int) -> Map<
    usize,
    Node,
> {
    let gone = entries[order[at]];
    Map::new(
        |place: usize| entries.contains_key(place) && place != order[at],
        |place: usize|
            Node {
                key: entries[place].key,
                value: entries[place].value,
                next: if gone.prev == Some(place) {
                    gone.next
                } else {
                    entries[place].next
                },
                prev: if gone.next == Some(place) {
                    gone.prev
                } else {
                    entries[place].prev
                },
            },
    )
}

/// Taking one node out of a linked list and linking its neighbours to each
/// other leaves a linked list of the other nodes, in their order.
proof fn lemma_unlinked(
    order: Seq<usize>,
    entries: Map<usize, Node>,
    keys: Map<u64, usize>,
    at: int,
)
    requires
        linked(order, entries, keys),
        0 <= at < order.len(),
    ensures
        linked(order.remove(at), without(order, entries, at), keys.remove(entries[order[at]].key)),
        listing(order.remove(at), without(order, entries, at)) == listing(order, entries).remove(
            at,
        ),
{
    let rest = order.remove(at);
    let after = without(order, entries, at);
    let left = keys.remove(entries[order[at]].key);
    assert forall|i: int| 0 <= i < rest.len() implies #[trigger] rest[i] == order[if i < at {
        i
    } else {
        i + 1
    }] by {}
    assert forall|i: int| 0 <= i < order.len() implies order.contains(#[trigger] order[i]) by {}
    assert(rest.no_duplicates());
    assert forall|place: usize| #[trigger] after.contains_key(place) <==> rest.contains(place) by {
        if after.contains_key(place) {
            let i = choose|i: int| 0 <= i < order.len() && order[i] == place;
            if i < at {
                assert(rest[i] == place);
            } else {
                assert(rest[i - 1] == place);
            }
        }
    }
    assert forall|i: int| 0 <= i < rest.len() implies {
        &&& (#[trigger] after[rest[i]]).prev == link_before(rest, i)
        &&& after[rest[i]].next == link_after(rest, i)
        &&& left.contains_key(after[rest[i]].key)
        &&& left[after[rest[i]].key] == rest[i]
    } by {
        let j = if i < at {
            i
        } else {
            i + 1
        };
        assert(rest[i] == order[j]);
        assert(entries[order[j]].prev == link_before(order, j));
        assert(entries[order[j]].next == link_after(order, j));
        assert(entries[order[at]].prev == link_before(order, at));
        assert(entries[order[at]].next == link_after(order, at));
        assert(keys[entries[order[j]].key] == order[j]);
        assert(keys[entries[order[at]].key] == order[at]);
        if i > 0 {
            assert(rest[i - 1] == order[if i - 1 < at {
                i - 1
            } else {
                i
            }]);
        }
        if i + 1 < rest.len() {
            assert(rest[i + 1] == order[if i + 1 < at {
                i + 1
            } else {
                i + 2
            }]);
        }
    }
    assert forall|key: u64| #[trigger] left.contains_key(key) implies rest.contains(left[key])
        && after[left[key]].key == key by {
        assert(order.contains(keys[key]));
        let j = choose|j: int| 0 <= j < order.len() && order[j] == keys[key];
        if j < at {
            assert(rest[j] == keys[key]);
        } else {
            assert(rest[j - 1] == keys[key]);
        }
    }
    assert(listing(rest, after) =~= listing(order, entries).remove(at));
}

} // verus!
