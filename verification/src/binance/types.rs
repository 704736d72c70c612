//! The venue's payloads and their normalised form.

use crate::l2_book::types::{Order, Price, PriceSize as Level, Sequence, Size};
use vstd::prelude::*;
use vstd::std_specs::convert::FromSpecImpl;

verus! {

/// One message of the depth stream.
#[derive(Debug)]
pub struct DepthUpdate {
    pub event_type: String,
    pub symbol: String,
    pub bids: Vec<PriceSize>,
    pub asks: Vec<PriceSize>,
    pub seq: DepthUpdateSeq,
}

/// The sequencing fields of a depth message: the first and last update that
/// it covers, the last update of the message before it, and its times.
#[derive(Debug, Clone, Copy, PartialEq, Eq, Structural)]
pub struct DepthUpdateSeq {
    pub first_update_id: u64,
    pub last_update_id: u64,
    pub previous_update_id: u64,
    pub event_time_ms: u64,
    pub transaction_time_ms: u64,
}

/// The depth snapshot that the REST endpoint hands out.
#[derive(Debug)]
pub struct DepthSnapshot {
    pub last_update_id: u64,
    pub event_time_ms: u64,
    pub transaction_time_ms: u64,
    pub bids: Vec<PriceSize>,
    pub asks: Vec<PriceSize>,
}

/// A price and a size as the venue sends them, in fixed-point units.
#[derive(Clone, Debug, PartialEq, Eq, Structural)]
pub struct PriceSize(pub u64, pub u64);

/// The normalised level of a venue level.
pub open spec fn level_of(level: PriceSize) -> Level {
    Level(Price(level.0), Size(level.1))
}

/// The normalised levels of the venue's levels, in their order.
pub open spec fn levels_of(levels: Seq<PriceSize>) -> Seq<Level> {
    levels.map_values(|level: PriceSize| level_of(level))
}

impl From<PriceSize> for Level {
    fn from(val: PriceSize) -> (level: Level) {
        Level(Price(val.0), Size(val.1))
    }
}

impl FromSpecImpl<PriceSize> for Level {
    open spec fn obeys_from_spec() -> bool {
        true
    }

    open spec fn from_spec(val: PriceSize) -> Level {
        level_of(val)
    }
}

/// Normalises the venue's levels, in their order.
pub fn normalise_levels(levels: &Vec<PriceSize>) -> (out: Vec<Level>)
    ensures
        out@ == levels_of(levels@),
{
    let mut out: Vec<Level> = Vec::with_capacity(levels.len());
    let mut i: usize = 0;
    while i < levels.len()
        invariant
            i <= levels.len(),
            out@ == levels_of(levels@.take(i as int)),
        decreases levels.len() - i,
    {
        out.push(Level(Price(levels[i].0), Size(levels[i].1)));
        proof {
            assert(levels@.take(i + 1) == levels@.take(i as int).push(levels@[i as int]));
            assert(out@ == levels_of(levels@.take(i + 1)));
        }
        i += 1;
    }
    proof {
        assert(levels@.take(levels.len() as int) == levels@);
    }
    out
}

impl<'a> From<&'a DepthUpdate> for DepthUpdateSeq {
    fn from(val: &'a DepthUpdate) -> (seq: DepthUpdateSeq) {
        val.seq
    }
}

impl<'a> FromSpecImpl<&'a DepthUpdate> for DepthUpdateSeq {
    open spec fn obeys_from_spec() -> bool {
        true
    }

    open spec fn from_spec(val: &'a DepthUpdate) -> DepthUpdateSeq {
        val.seq
    }
}

/// Whether `order` is the normalised form of the depth message `update`: an
/// incremental update at the message's last update, with its levels, its
/// transaction time and its sequencing fields.
pub open spec fn is_update_order(order: Order<DepthUpdateSeq>, update: DepthUpdate) -> bool {
    &&& order.id == Sequence(update.seq.last_update_id)
    &&& order.bids@ == levels_of(update.bids@)
    &&& order.asks@ == levels_of(update.asks@)
    &&& !order.is_snapshot
    &&& order.ts_ms == update.seq.transaction_time_ms
    &&& order.o == update.seq
}

impl DepthUpdate {
    /// The normalised form of this message.
    pub fn into_order(self) -> (order: Order<DepthUpdateSeq>)
        ensures
            is_update_order(order, self),
    {
        let bids = normalise_levels(&self.bids);
        let asks = normalise_levels(&self.asks);
        let seq = self.seq;

        Order {
            id: Sequence(seq.last_update_id),
            bids,
            asks,
            is_snapshot: false,
            ts_ms: self.seq.transaction_time_ms,
            o: seq,
        }
    }
}

impl From<DepthUpdate> for Order<DepthUpdateSeq> {
    fn from(val: DepthUpdate) -> (order: Order<DepthUpdateSeq>)
        ensures
            is_update_order(order, val),
    {
        val.into_order()
    }
}

impl FromSpecImpl<DepthUpdate> for Order<DepthUpdateSeq> {
    /// The conversion is stated by `is_update_order`: an order is known by
    /// what its levels hold, which no specification function can build.
    open spec fn obeys_from_spec() -> bool {
        false
    }

    open spec fn from_spec(val: DepthUpdate) -> Order<DepthUpdateSeq> {
        arbitrary()
    }
}

/// Whether `order` is the normalised form of the depth snapshot `snapshot`:
/// a snapshot at its last update, with its levels and its transaction time,
/// whose sequencing fields all stand at that update, so that the first
/// message that covers it bridges it.
pub open spec fn is_snapshot_order(order: Order<DepthUpdateSeq>, snapshot: DepthSnapshot) -> bool {
    &&& order.id == Sequence(snapshot.last_update_id)
    &&& order.bids@ == levels_of(snapshot.bids@)
    &&& order.asks@ == levels_of(snapshot.asks@)
    &&& order.is_snapshot
    &&& order.ts_ms == snapshot.transaction_time_ms
    &&& order.o == (DepthUpdateSeq {
        first_update_id: snapshot.last_update_id,
        last_update_id: snapshot.last_update_id,
        previous_update_id: snapshot.last_update_id,
        event_time_ms: snapshot.event_time_ms,
        transaction_time_ms: snapshot.transaction_time_ms,
    })
}

impl DepthSnapshot {
    /// The normalised form of this snapshot.
    pub fn into_order(self) -> (order: Order<DepthUpdateSeq>)
        ensures
            is_snapshot_order(order, self),
    {
        let bids = normalise_levels(&self.bids);
        let asks = normalise_levels(&self.asks);

        let seq = DepthUpdateSeq {
            first_update_id: self.last_update_id,
            last_update_id: self.last_update_id,
            previous_update_id: self.last_update_id,
            event_time_ms: self.event_time_ms,
            transaction_time_ms: self.transaction_time_ms,
        };

        Order {
            id: Sequence(self.last_update_id),
            bids,
            asks,
            is_snapshot: true,
            ts_ms: seq.transaction_time_ms,
            o: seq,
        }
    }
}

} // verus!
