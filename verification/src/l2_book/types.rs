//! Fixed-point value types and the normalised update record.

use vstd::prelude::*;

verus! {

/// Number of fixed-point units in one whole unit of price or size.
pub const SCALE: u64 = 10_000_000_000;

/// A price in fixed-point units of `1 / SCALE`; ordered numerically.
#[derive(Debug, Clone, Copy, PartialEq, Eq, PartialOrd, Ord, Structural)]
pub struct Price(pub u64);

/// A size in fixed-point units of `1 / SCALE`; ordered numerically.
#[derive(Debug, Clone, Copy, PartialEq, Eq, PartialOrd, Ord, Structural)]
pub struct Size(pub u64);

/// The raw size that stands for the removal of a price level.
pub const ZERO_SIZE: u64 = 0;

impl Size {
    /// Whether this size asks for its level to be removed.
    pub open spec fn removes(self) -> bool {
        self.0 == ZERO_SIZE
    }

    /// Whether this size asks for its level to be removed.
    pub fn is_zero(&self) -> (z: bool)
        ensures
            z == self.removes(),
    {
        self.0 == ZERO_SIZE
    }
}

/// One price level: a price and the size resting at it.
#[derive(Debug, Clone, Copy, PartialEq, Eq, PartialOrd, Ord, Structural)]
pub struct PriceSize(pub Price, pub Size);

impl PriceSize {
    pub fn price(&self) -> (p: Price)
        ensures
            p == self.0,
    {
        self.0
    }

    pub fn size(&self) -> (s: Size)
        ensures
            s == self.1,
    {
        self.1
    }
}

/// The venue's monotonic identifier of an update; ordered by value.
#[derive(Debug, Copy, Clone, PartialEq, Eq, PartialOrd, Ord, Hash, Structural)]
pub struct Sequence(pub u64);

impl Sequence {
    pub fn val(&self) -> (v: u64)
        ensures
            v == self.0,
    {
        self.0
    }
}

/// A normalised update. A snapshot carries the whole book at `id`; any other
/// update is a delta in which a zero size removes the level and any other
/// size sets it. `o` is the venue's own payload, read only by the sequencer.
pub struct Order<O> {
    pub id: Sequence,
    pub bids: Vec<PriceSize>,
    pub asks: Vec<PriceSize>,
    pub is_snapshot: bool,
    pub ts_ms: u64,
    pub o: O,
}

} // verus!
