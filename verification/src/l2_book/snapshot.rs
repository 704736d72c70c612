//! The published view of a book: the best levels of each side.

use super::model::Ladder;
use super::types::{Price, Size};
use vstd::prelude::*;

verus! {

/// Whether price `a` comes before price `b` on a side: a higher bid before a
/// lower one, a lower ask before a higher one.
pub open spec fn better(a: Price, b: Price, descending: bool) -> bool {
    if descending {
        a.0 > b.0
    } else {
        a.0 < b.0
    }
}

/// Whether one of `levels` is at price `p`.
pub open spec fn holds_price(levels: Seq<(Price, Size)>, p: Price) -> bool {
    exists|i: int| 0 <= i < levels.len() && (#[trigger] levels[i]).0 == p
}

/// `levels` are the best `depth` levels of `ladder`, best first: each is a
/// level of the ladder, they come in strict order, and a level of the ladder
/// is left out only where `depth` levels that all come before it are there.
pub open spec fn is_top_of(
    levels: Seq<(Price, Size)>,
    ladder: Ladder,
    depth: nat,
    descending: bool,
) -> bool {
    &&& levels.len() <= depth
    &&& forall|i: int|
        0 <= i < levels.len() ==> ladder.contains_key((#[trigger] levels[i]).0)
            && ladder[levels[i].0] == levels[i].1
    &&& forall|i: int, j: int|
        0 <= i < j < levels.len() ==> better(
            (#[trigger] levels[i]).0,
            (#[trigger] levels[j]).0,
            descending,
        )
    &&& forall|p: Price|
        #[trigger] ladder.contains_key(p) && !holds_price(levels, p) ==> levels.len() == depth
            && forall|i: int|
            0 <= i < levels.len() ==> better((#[trigger] levels[i]).0, p, descending)
}

/// Two lists of the best `depth` levels of one ladder agree on their first
/// `n` levels.
proof fn lemma_top_agrees_up_to(
    a: Seq<(Price, Size)>,
    b: Seq<(Price, Size)>,
    ladder: Ladder,
    depth: nat,
    descending: bool,
    n: int,
)
    requires
        is_top_of(a, ladder, depth, descending),
        is_top_of(b, ladder, depth, descending),
        0 <= n <= a.len(),
        n <= b.len(),
    ensures
        forall|k: int| 0 <= k < n ==> a[k] == b[k],
    decreases n,
{
    if n > 0 {
        lemma_top_agrees_up_to(a, b, ladder, depth, descending, n - 1);
        let i = n - 1;
        let pa = a[i].0;
        let pb = b[i].0;
        if pa != pb {
            if better(pa, pb, descending) {
                lemma_earlier_level_is_held(a, b, ladder, depth, descending, i);
            } else {
                lemma_earlier_level_is_held(b, a, ladder, depth, descending, i);
            }
        }
        assert(ladder[a[i].0] == a[i].1);
        assert(ladder[b[i].0] == b[i].1);
    }
}

/// Where two lists of the best levels agree before index `i`, the level of
/// the one at `i` does not come before that of the other.
proof fn lemma_earlier_level_is_held(
    a: Seq<(Price, Size)>,
    b: Seq<(Price, Size)>,
    ladder: Ladder,
    depth: nat,
    descending: bool,
    i: int,
)
    requires
        is_top_of(a, ladder, depth, descending),
        is_top_of(b, ladder, depth, descending),
        0 <= i < a.len(),
        i < b.len(),
        forall|k: int| 0 <= k < i ==> a[k] == b[k],
    ensures
        !better(a[i].0, b[i].0, descending),
{
    let p = a[i].0;
    assert(ladder.contains_key(p));
    if !better(a[i].0, b[i].0, descending) {
    } else if holds_price(b, p) {
        let j = choose|j: int| 0 <= j < b.len() && (#[trigger] b[j]).0 == p;
        if j < i {
            assert(a[j] == b[j]);
            assert(better(a[j].0, a[i].0, descending));
        } else if j > i {
            assert(better(b[i].0, b[j].0, descending));
        }
    } else {
        assert(better(b[i].0, p, descending));
    }
}

/// The best `depth` levels of a ladder are one list and no other.
pub proof fn lemma_top_is_unique(
    a: Seq<(Price, Size)>,
    b: Seq<(Price, Size)>,
    ladder: Ladder,
    depth: nat,
    descending: bool,
)
    requires
        is_top_of(a, ladder, depth, descending),
        is_top_of(b, ladder, depth, descending),
    ensures
        a == b,
{
    let n = if a.len() <= b.len() {
        a.len() as int
    } else {
        b.len() as int
    };
    lemma_top_agrees_up_to(a, b, ladder, depth, descending, n);
    if a.len() <= b.len() {
        lemma_longer_top_is_no_longer(a, b, ladder, depth, descending);
    } else {
        lemma_longer_top_is_no_longer(b, a, ladder, depth, descending);
    }
    assert(a =~= b);
}

/// A list of the best levels is not a proper prefix of another.
proof fn lemma_longer_top_is_no_longer(
    a: Seq<(Price, Size)>,
    b: Seq<(Price, Size)>,
    ladder: Ladder,
    depth: nat,
    descending: bool,
)
    requires
        is_top_of(a, ladder, depth, descending),
        is_top_of(b, ladder, depth, descending),
        a.len() <= b.len(),
        forall|k: int| 0 <= k < a.len() ==> a[k] == b[k],
    ensures
        a.len() == b.len(),
{
    if a.len() < b.len() {
        let p = b[a.len() as int].0;
        assert(ladder.contains_key(p));
        if holds_price(a, p) {
            let j = choose|j: int| 0 <= j < a.len() && (#[trigger] a[j]).0 == p;
            assert(a[j] == b[j]);
            assert(better(b[j].0, b[a.len() as int].0, descending));
        }
    }
}

/// The best levels of a book at one moment: bids from the highest price
/// down, asks from the lowest price up.
#[derive(Debug, Clone)]
pub struct BookSnapshot {
    pub asks: Vec<(Price, Size)>,
    pub bids: Vec<(Price, Size)>,
    pub ts_ms: u64,
}

impl BookSnapshot {
    /// The mid price: zero where a side is empty, else the mean of the two
    /// best prices, rounded down.
    pub open spec fn spec_mid(&self) -> Price {
        if self.bids@.len() == 0 || self.asks@.len() == 0 {
            Price(0)
        } else {
            Price(((self.bids@[0].0.0 + self.asks@[0].0.0) / 2) as u64)
        }
    }

    pub fn mid(&self) -> (mid: Price)
        ensures
            mid == self.spec_mid(),
    {
        if self.bids.len() == 0 || self.asks.len() == 0 {
            return Price(0);
        }
        let best_bid: u64 = self.bids[0].0.0;
        let best_ask: u64 = self.asks[0].0.0;

        // The halves are summed: the sum of the two prices may not fit.
        Price(best_bid / 2 + best_ask / 2 + (best_bid % 2 + best_ask % 2) / 2)
    }

    /// The mid price is zero exactly when a side is empty, for a snapshot
    /// whose best prices sum to at least two units: below that the mean
    /// itself rounds down to zero.
    pub proof fn lemma_mid_zero_iff_side_empty(&self)
        requires
            self.bids@.len() > 0 && self.asks@.len() > 0 ==> self.bids@[0].0.0
                + self.asks@[0].0.0 >= 2,
        ensures
            self.spec_mid() == Price(0) <==> self.bids@.len() == 0 || self.asks@.len() == 0,
    {
    }
}

} // verus!
