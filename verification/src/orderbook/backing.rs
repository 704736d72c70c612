//! The backing store of a keyed list: a slab of nodes, each at a place that
//! stays its own until the node is taken out.

use super::node::Node;
use slab::Slab;
use vstd::prelude::*;

verus! {

#[verifier::external_type_specification]
#[verifier::external_body]
#[verifier::reject_recursive_types(T)]
pub struct ExSlab<T>(slab::Slab<T>);

/// The nodes that a slab holds, each under its place.
pub uninterp spec fn slab_entries(slab: Slab<Node>) -> Map<usize, Node>;

/// `Slab::new`: a slab that holds nothing.
#[verifier::external_body]
pub(crate) fn slab_new() -> (store: Slab<Node>)
    ensures
        slab_entries(store) == (Map::<usize, Node>::empty()),
{
    Slab::new()
}

/// `Slab::len`: the number of nodes that the slab holds.
#[verifier::external_body]
pub(crate) fn slab_len(slab: &Slab<Node>) -> (count: usize)
    ensures
        count == slab_entries(*slab).dom().len(),
{
    slab.len()
}

/// `Slab::is_empty`: whether the slab holds no node.
#[verifier::external_body]
pub(crate) fn slab_is_empty(slab: &Slab<Node>) -> (empty: bool)
    ensures
        empty == (slab_entries(*slab) == Map::<usize, Node>::empty()),
{
    slab.is_empty()
}

/// `Slab::insert`: the node is stored at a place that held none, which is
/// returned; every other place is as it was. Like `Vec::push`, on which it
/// rests, it gives up only where the store would outgrow the address space.
#[verifier::external_body]
pub(crate) fn slab_insert(slab: &mut Slab<Node>, node: Node) -> (place: usize)
    ensures
        !slab_entries(*old(slab)).contains_key(place),
        slab_entries(*final(slab)) == slab_entries(*old(slab)).insert(place, node),
{
    slab.insert(node)
}

/// `Slab::get`: the node at `place`, if the slab holds one there.
#[verifier::external_body]
pub(crate) fn slab_get(slab: &Slab<Node>, place: usize) -> (node: Option<&Node>)
    ensures
        match node {
            Some(node) => slab_entries(*slab).contains_key(place) && *node == slab_entries(
                *slab,
            )[place],
            None => !slab_entries(*slab).contains_key(place),
        },
{
    slab.get(place)
}

/// `Slab::get_mut`: the node at `place`, if the slab holds one there, to be
/// changed where it is; every other place is as it was.
#[verifier::external_body]
pub(crate) fn slab_get_mut(slab: &mut Slab<Node>, place: usize) -> (node: Option<&mut Node>)
    ensures
        match node {
            Some(node) => slab_entries(*old(slab)).contains_key(place) && *node == slab_entries(
                *old(slab),
            )[place] && slab_entries(*final(slab)) == slab_entries(*old(slab)).insert(
                place,
                *final(node),
            ),
            None => !slab_entries(*old(slab)).contains_key(place) && slab_entries(*final(slab))
                == slab_entries(*old(slab)),
        },
{
    slab.get_mut(place)
}

/// `Slab::try_remove`: the node at `place` is taken out and returned, if
/// the slab holds one there; every other place is as it was.
#[verifier::external_body]
pub(crate) fn slab_try_remove(slab: &mut Slab<Node>, place: usize) -> (node: Option<Node>)
    ensures
        match node {
            Some(node) => slab_entries(*old(slab)).contains_key(place) && node == slab_entries(
                *old(slab),
            )[place] && slab_entries(*final(slab)) == slab_entries(*old(slab)).remove(place),
            None => !slab_entries(*old(slab)).contains_key(place) && slab_entries(*final(slab))
                == slab_entries(*old(slab)),
        },
{
    slab.try_remove(place)
}

/// `Slab::remove`: the node at `place` is taken out and returned; every
/// other place is as it was. The slab must hold a node there.
#[verifier::external_body]
pub(crate) fn slab_remove(slab: &mut Slab<Node>, place: usize) -> (node: Node)
    requires
        slab_entries(*old(slab)).contains_key(place),
    ensures
        node == slab_entries(*old(slab))[place],
        slab_entries(*final(slab)) == slab_entries(*old(slab)).remove(place),
{
    slab.remove(place)
}

} // verus!
