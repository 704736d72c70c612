//! The sequencing policy of the venue's depth stream, and the engine made
//! for it.

use super::types::{is_snapshot_order, DepthSnapshot, DepthUpdateSeq};
use crate::l2_book::fsm::BookSequencer;
use crate::l2_book::processor::{BookProcessor, ProcessorModel};
use crate::l2_book::types::{Order, Sequence};
use vstd::prelude::*;
use vstd::std_specs::convert::IntoSpec;

verus! {

/// How a depth message relates to the book, by its update identifiers.
pub struct BinanceBookSequencer;

impl BookSequencer<DepthUpdateSeq> for BinanceBookSequencer {
    /// The message covers the snapshot's update.
    open spec fn spec_is_first_event(
        &self,
        cur_seq: Sequence,
        update: &Order<DepthUpdateSeq>,
    ) -> bool {
        update.o.first_update_id <= cur_seq.0 <= update.o.last_update_id
    }

    /// The message begins after the snapshot's update: what lies between
    /// them is lost.
    open spec fn spec_is_stale(&self, cur_seq: Sequence, update: &Order<DepthUpdateSeq>) -> bool {
        cur_seq.0 < update.o.first_update_id
    }

    /// The message follows the one that was applied last.
    open spec fn spec_is_next(&self, cur_seq: Sequence, update: &Order<DepthUpdateSeq>) -> bool {
        cur_seq.0 == update.o.previous_update_id
    }

    fn is_first_event(&self, cur_seq: Sequence, update: &Order<DepthUpdateSeq>) -> (r: bool) {
        update.o.first_update_id <= cur_seq.val() && cur_seq.val() <= update.o.last_update_id
    }

    fn is_stale(&self, cur_seq: Sequence, update: &Order<DepthUpdateSeq>) -> (r: bool) {
        cur_seq.val() < update.o.first_update_id
    }

    fn is_next(&self, cur_seq: Sequence, update: &Order<DepthUpdateSeq>) -> (r: bool) {
        cur_seq.val() == update.o.previous_update_id
    }
}

/// Turns what the venue's REST endpoint hands out into the snapshot that
/// the engine takes. `api` is the client that reaches the endpoint.
pub struct BinanceSnapshotFetcher<A> {
    pub api: A,
}

impl<A> BinanceSnapshotFetcher<A> {
    /// The snapshot update that stands for the depth snapshot `res`.
    pub fn snapshot_order(res: DepthSnapshot) -> (order: Order<DepthUpdateSeq>)
        ensures
            is_snapshot_order(order, res),
    {
        res.into_order()
    }
}

pub struct Book;

impl Book {
    /// The decision core of an engine for `symbol` of the USD-margin venue.
    pub fn new_um_for(symbol: String, depth: usize, interval: u64) -> (processor: BookProcessor<
        DepthUpdateSeq,
        BinanceBookSequencer,
    >)
        ensures
            processor@ == ProcessorModel::<DepthUpdateSeq>::init(depth, interval),
            processor@.wf(),
            processor.spec_symbol() == symbol@,
    {
        BookProcessor::new(symbol, BinanceBookSequencer, depth, interval)
    }

    /// The decision core of an engine for a symbol of the USD-margin venue,
    /// given as anything that turns into its text. What the text is, the
    /// conversion says, as far as it has a specification; `new_um_for` takes
    /// the text itself.
    pub fn new_um<T: Into<String>>(symbol: T, depth: usize, interval: u64) -> (processor:
        BookProcessor<DepthUpdateSeq, BinanceBookSequencer>)
        ensures
            processor@ == ProcessorModel::<DepthUpdateSeq>::init(depth, interval),
            processor@.wf(),
            T::obeys_into_spec() ==> processor.spec_symbol() == T::into_spec(symbol)@,
    {
        Self::new_um_for(symbol.into(), depth, interval)
    }
}

} // verus!
