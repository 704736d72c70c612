//! How the order of stored keys relates to the order of numbers.

use vstd::prelude::*;
use vstd::std_specs::btree::increasing_seq;
use vstd::std_specs::cmp::OrdSpec;

verus! {

/// Keys that a stored map hands out in its order rise strictly as numbers.
pub(crate) proof fn lemma_increasing_keys_rise(keys: Seq<u64>)
    requires
        increasing_seq(keys),
    ensures
        forall|i: int, j: int| 0 <= i < j < keys.len() ==> keys[i] < keys[j],
{
    assert forall|i: int, j: int| 0 <= i < j < keys.len() implies keys[i] < keys[j] by {
        assert(keys[i].cmp_spec(&keys[j]) == core::cmp::Ordering::Less);
    }
}

} // verus!
