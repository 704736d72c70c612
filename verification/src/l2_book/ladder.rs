//! The stored form of a price ladder: an ordered map from keys to raw sizes,
//! keyed so that it is walked best price first.

use super::model::{apply_levels, Ladder};
use super::order::lemma_increasing_keys_rise;
use super::snapshot::{better, holds_price, is_top_of};
use super::types::{Price, PriceSize, Size};
use std::collections::BTreeMap;
use vstd::prelude::*;
use vstd::std_specs::btree::increasing_seq;
use vstd::std_specs::iter::{IteratorSpec, VerusForLoopWrapper};

verus! {

/// The stored key of a price: the price itself on the ask side, its
/// complement on the bid side, so that each ladder is walked best price first.
pub open spec fn ladder_key(price: u64, descending: bool) -> u64 {
    if descending {
        (u64::MAX - price) as u64
    } else {
        price
    }
}

/// The ladder that a stored map stands for.
pub open spec fn ladder_of(raw: Map<u64, u64>, descending: bool) -> Map<Price, Size> {
    Map::new(
        |p: Price| raw.contains_key(ladder_key(p.0, descending)),
        |p: Price| Size(raw[ladder_key(p.0, descending)]),
    )
}

pub(crate) proof fn lemma_ladder_of_empty(descending: bool)
    ensures
        ladder_of(Map::empty(), descending) == Map::<Price, Size>::empty(),
{
    assert(ladder_of(Map::empty(), descending) =~= Map::<Price, Size>::empty());
}

proof fn lemma_ladder_of_insert(raw: Map<u64, u64>, descending: bool, price: u64, size: u64)
    ensures
        ladder_of(raw.insert(ladder_key(price, descending), size), descending) == ladder_of(
            raw,
            descending,
        ).insert(Price(price), Size(size)),
{
    assert(ladder_of(raw.insert(ladder_key(price, descending), size), descending) =~= ladder_of(
        raw,
        descending,
    ).insert(Price(price), Size(size)));
}

proof fn lemma_ladder_of_remove(raw: Map<u64, u64>, descending: bool, price: u64)
    ensures
        ladder_of(raw.remove(ladder_key(price, descending)), descending) == ladder_of(
            raw,
            descending,
        ).remove(Price(price)),
{
    assert(ladder_of(raw.remove(ladder_key(price, descending)), descending) =~= ladder_of(
        raw,
        descending,
    ).remove(Price(price)));
}

/// Applies the levels of one side of an update to the stored map of that
/// side, in their order.
pub(crate) fn apply_side(raw: &mut BTreeMap<u64, u64>, levels: &Vec<PriceSize>, descending: bool)
    ensures
        ladder_of(final(raw)@, descending) == apply_levels(
            ladder_of(old(raw)@, descending),
            levels@,
        ),
{
    let mut i: usize = 0;
    while i < levels.len()
        invariant
            i <= levels.len(),
            ladder_of(raw@, descending) == apply_levels(
                ladder_of(old(raw)@, descending),
                levels@.take(i as int),
            ),
        decreases levels.len() - i,
    {
        let level = levels[i];
        let price: u64 = level.price().0;
        let key: u64 = if descending {
            u64::MAX - price
        } else {
            price
        };
        proof {
            assert(levels@.take(i + 1).drop_last() == levels@.take(i as int));
            assert(levels@.take(i + 1).last() == level);
            lemma_ladder_of_insert(raw@, descending, price, level.1.0);
            lemma_ladder_of_remove(raw@, descending, price);
        }
        if level.size().is_zero() {
            raw.remove(&key);
        } else {
            raw.insert(key, level.size().0);
        }
        i += 1;
    }
    proof {
        assert(levels@.take(levels.len() as int) == levels@);
    }
}

/// Whether `entries` lists the stored map: each entry is one of its pairs,
/// the keys rise strictly, and no key of the map is missing.
pub open spec fn lists_in_order(entries: Seq<(u64, u64)>, raw: Map<u64, u64>) -> bool {
    &&& forall|i: int|
        0 <= i < entries.len() ==> raw.contains_key((#[trigger] entries[i]).0) && raw[entries[i].0]
            == entries[i].1
    &&& forall|i: int, j: int|
        0 <= i < j < entries.len() ==> (#[trigger] entries[i]).0 < (#[trigger] entries[j]).0
    &&& forall|k: u64|
        #[trigger] raw.contains_key(k) ==> exists|i: int|
            0 <= i < entries.len() && (#[trigger] entries[i]).0 == k
}

/// The level that a stored pair stands for.
pub open spec fn level_of(entry: (u64, u64), descending: bool) -> (Price, Size) {
    (Price(ladder_key(entry.0, descending)), Size(entry.1))
}

/// The first entries of a stored map, in its order, are the best levels of
/// the ladder that it stands for, where they stop at `depth` or at its end.
proof fn lemma_prefix_is_top(
    raw: Map<u64, u64>,
    entries: Seq<(u64, u64)>,
    levels: Seq<(Price, Size)>,
    depth: nat,
    descending: bool,
)
    requires
        lists_in_order(entries, raw),
        levels.len() <= entries.len(),
        levels.len() <= depth,
        levels.len() == depth || levels.len() == entries.len(),
        forall|i: int| 0 <= i < levels.len() ==> levels[i] == level_of(entries[i], descending),
    ensures
        is_top_of(levels, ladder_of(raw, descending), depth, descending),
{
    let ladder = ladder_of(raw, descending);
    assert forall|i: int| 0 <= i < levels.len() implies ladder.contains_key(
        (#[trigger] levels[i]).0,
    ) && ladder[levels[i].0] == levels[i].1 by {
        assert(raw.contains_key(entries[i].0));
        assert(ladder_key(ladder_key(entries[i].0, descending), descending) == entries[i].0);
    }
    assert forall|i: int, j: int| 0 <= i < j < levels.len() implies better(
        (#[trigger] levels[i]).0,
        (#[trigger] levels[j]).0,
        descending,
    ) by {
        assert(entries[i].0 < entries[j].0);
    }
    assert forall|p: Price| #[trigger] ladder.contains_key(p) && !holds_price(levels, p) implies (
    levels.len() == depth && forall|i: int|
        0 <= i < levels.len() ==> better((#[trigger] levels[i]).0, p, descending)) by {
        let k = ladder_key(p.0, descending);
        assert(raw.contains_key(k));
        let at = choose|i: int| 0 <= i < entries.len() && (#[trigger] entries[i]).0 == k;
        assert(ladder_key(k, descending) == p.0);
        if at < levels.len() {
            assert(levels[at].0 == p);
            assert(holds_price(levels, p));
        }
        assert forall|i: int| 0 <= i < levels.len() implies better(
            (#[trigger] levels[i]).0,
            p,
            descending,
        ) by {
            assert(entries[i].0 < entries[at].0);
        }
    }
}

/// What an iterator over a stored map will hand out lists the map in order.
proof fn lemma_iter_lists_in_order(raw: &BTreeMap<u64, u64>, entries: Seq<(u64, u64)>)
    requires
        entries == raw.iter().remaining().map_values(|kv: (&u64, &u64)| (*kv.0, *kv.1)),
        increasing_seq(raw.iter().remaining().map_values(|kv: (&u64, &u64)| *kv.0)),
    ensures
        lists_in_order(entries, raw@),
{
    let rem = raw.iter().remaining();
    let keys = rem.map_values(|kv: (&u64, &u64)| *kv.0);
    lemma_increasing_keys_rise(keys);
    assert forall|i: int, j: int| 0 <= i < j < entries.len() implies (#[trigger] entries[i]).0 < (
    #[trigger] entries[j]).0 by {
        assert(keys[i] == entries[i].0);
        assert(keys[j] == entries[j].0);
    }
    assert forall|k: u64| #[trigger] raw@.contains_key(k) implies exists|i: int|
        0 <= i < entries.len() && (#[trigger] entries[i]).0 == k by {
        assert(rem.contains((&k, &raw@[k])));
        let i = choose|i: int| 0 <= i < rem.len() && rem[i] == (&k, &raw@[k]);
        assert(entries[i].0 == k);
    }
    assert forall|i: int| 0 <= i < entries.len() implies raw@.contains_key(
        (#[trigger] entries[i]).0,
    ) && raw@[entries[i].0] == entries[i].1 by {
        assert(raw@.contains_key(*rem[i].0));
    }
}

/// The best `depth` levels of the ladder that a stored map stands for, best
/// first. Only the levels that are handed out are visited.
pub(crate) fn top_levels(raw: &BTreeMap<u64, u64>, depth: usize, descending: bool) -> (levels:
    Vec<(Price, Size)>)
    ensures
        is_top_of(levels@, ladder_of(raw@, descending), depth as nat, descending),
{
    let mut levels: Vec<(Price, Size)> = Vec::new();
    let mut iter = VerusForLoopWrapper::new(raw.iter(), Ghost(None));
    let ghost entries = iter.seq().map_values(|kv: (&u64, &u64)| (*kv.0, *kv.1));
    proof {
        lemma_iter_lists_in_order(raw, entries);
    }
    loop
        invariant_except_break
            iter.wf(),
            iter.index() == levels.len(),
        invariant
            iter.seq().map_values(|kv: (&u64, &u64)| (*kv.0, *kv.1)) == entries,
            levels.len() <= depth,
            levels.len() <= entries.len(),
            forall|i: int|
                0 <= i < levels.len() ==> levels@[i] == level_of(entries[i], descending),
        ensures
            levels.len() == depth || levels.len() == entries.len(),
        decreases depth - levels.len(),
    {
        if levels.len() >= depth {
            break ;
        }
        match iter.next() {
            Some(kv) => {
                let key: u64 = *kv.0;
                let price: u64 = if descending {
                    u64::MAX - key
                } else {
                    key
                };
                assert(entries[levels.len() as int] == (key, *kv.1));
                levels.push((Price(price), Size(*kv.1)));
            },
            None => {
                break ;
            },
        }
    }
    proof {
        lemma_prefix_is_top(raw@, entries, levels@, depth as nat, descending);
    }
    levels
}

} // verus!
