//! The synchronisation state machine.

use super::ladder::{apply_side, ladder_of, lemma_ladder_of_empty, top_levels};
use super::model::BookModel;
use super::snapshot::{is_top_of, BookSnapshot};
use super::types::{Order, Sequence};
use std::collections::BTreeMap;
use std::collections::VecDeque;
use vstd::prelude::*;

verus! {

/// The exchange's sequencing policy: three predicates of the current
/// sequence and an update. Each is a function of its arguments alone, with
/// no effect besides its answer; its specification function stands for
/// that function in the contracts of the engine. An implementation states
/// each predicate in both forms, and what is proved of the engine holds of
/// it as far as the two agree.
pub trait BookSequencer<O> {
    /// `update` is the one that bridges the snapshot taken at `cur_seq`.
    spec fn spec_is_first_event(&self, cur_seq: Sequence, update: &Order<O>) -> bool;

    /// `update` cannot be reconciled with the snapshot taken at `cur_seq`.
    spec fn spec_is_stale(&self, cur_seq: Sequence, update: &Order<O>) -> bool;

    /// `update` is the immediate successor of `cur_seq`.
    spec fn spec_is_next(&self, cur_seq: Sequence, update: &Order<O>) -> bool;

    fn is_first_event(&self, cur_seq: Sequence, update: &Order<O>) -> (r: bool)
        ensures
            r == self.spec_is_first_event(cur_seq, update),
    ;

    fn is_stale(&self, cur_seq: Sequence, update: &Order<O>) -> (r: bool)
        ensures
            r == self.spec_is_stale(cur_seq, update),
    ;

    fn is_next(&self, cur_seq: Sequence, update: &Order<O>) -> (r: bool)
        ensures
            r == self.spec_is_next(cur_seq, update),
    ;
}

/// What the engine asks of its driver after an update.
#[derive(Debug, Clone, PartialEq, Eq, Hash, Structural)]
pub enum BookAction {
    /// The book cannot go on from its state: fetch a snapshot and feed it.
    RetrieveSnapshot,
    /// The update was taken; nothing is asked of the driver.
    Okay,
}

/// Where the engine stands in its synchronisation.
#[derive(Debug, Clone, Copy, PartialEq, Eq, Hash, Structural)]
pub enum BookState {
    Init,
    WaitingForSnapshot,
    Synchronizing,
    Processing,
}

/// The synchronisation engine: two price ladders, the buffer of updates that
/// wait for a snapshot, and the sequencing policy that decides how an update
/// relates to the book.
pub struct BookFsm<O, S: BookSequencer<O>> {
    state: BookState,
    asks: BTreeMap<u64, u64>,
    bids: BTreeMap<u64, u64>,
    buffer: VecDeque<Order<O>>,
    cur_sequence: Sequence,
    sequencer: S,
    ts_ms: u64,
}

impl<O, S: BookSequencer<O>> View for BookFsm<O, S> {
    type V = BookModel<O>;

    closed spec fn view(&self) -> BookModel<O> {
        BookModel {
            state: self.state,
            cur_sequence: self.cur_sequence,
            ts_ms: self.ts_ms,
            bids: ladder_of(self.bids@, true),
            asks: ladder_of(self.asks@, false),
            buffer: self.buffer@,
        }
    }
}

impl<O, S: BookSequencer<O>> BookFsm<O, S> {
    /// The sequencing policy that this engine was made with.
    pub closed spec fn sequencer(&self) -> S {
        self.sequencer
    }

    pub fn new(sequencer: S) -> (fsm: Self)
        ensures
            fsm@ == BookModel::<O>::init(),
            fsm@.wf(),
            fsm.sequencer() == sequencer,
    {
        proof {
            lemma_ladder_of_empty(true);
            lemma_ladder_of_empty(false);
        }
        Self {
            buffer: VecDeque::with_capacity(100),
            state: BookState::Init,
            asks: BTreeMap::new(),
            bids: BTreeMap::new(),
            cur_sequence: Sequence(0),
            sequencer,
            ts_ms: 0,
        }
    }

    /// Where the engine stands in its synchronisation.
    pub fn state(&self) -> (state: BookState)
        ensures
            state == self@.state,
    {
        self.state
    }

    /// The sequence of the update that was applied last.
    pub fn cur_sequence(&self) -> (seq: Sequence)
        ensures
            seq == self@.cur_sequence,
    {
        self.cur_sequence
    }

    /// The number of updates that wait for a snapshot.
    pub fn buffer_len(&self) -> (len: usize)
        ensures
            len == self@.buffer.len(),
    {
        self.buffer.len()
    }

    /// The time of the update that was applied last.
    pub fn ts_ms(&self) -> (ts_ms: u64)
        ensures
            ts_ms == self@.ts_ms,
    {
        self.ts_ms
    }

    /// The best `depth` levels of each side, with the time of the update
    /// that was applied last.
    pub fn snapshot(&self, depth: usize) -> (snapshot: BookSnapshot)
        ensures
            is_top_of(snapshot.asks@, self@.asks, depth as nat, false),
            is_top_of(snapshot.bids@, self@.bids, depth as nat, true),
            snapshot.ts_ms == self@.ts_ms,
    {
        BookSnapshot {
            asks: top_levels(&self.asks, depth, false),
            bids: top_levels(&self.bids, depth, true),
            ts_ms: self.ts_ms,
        }
    }

    /// Feeds one update to the engine and says what the driver has to do.
    pub fn update(&mut self, order: Order<O>) -> (action: BookAction)
        ensures
            final(self)@ == old(self)@.process(old(self).sequencer(), order).0,
            action == old(self)@.process(old(self).sequencer(), order).1,
            final(self).sequencer() == old(self).sequencer(),
            old(self)@.wf() ==> final(self)@.wf(),
    {
        proof {
            if self@.wf() {
                self@.lemma_process_keeps_wf(self.sequencer(), order);
            }
        }
        self.process_order(order)
    }

    fn process_order(&mut self, order: Order<O>) -> (action: BookAction)
        ensures
            final(self)@ == old(self)@.process(old(self).sequencer(), order).0,
            action == old(self)@.process(old(self).sequencer(), order).1,
            final(self).sequencer() == old(self).sequencer(),
        decreases old(self)@.buffer.len(), 1int,
    {
        match self.state {
            BookState::Init => {
                self.state = BookState::WaitingForSnapshot;
                BookAction::RetrieveSnapshot
            },
            BookState::WaitingForSnapshot => {
                if order.is_snapshot {
                    self.apply_order(&order);
                    self.state = BookState::Synchronizing;
                    self.drain_buffer()
                } else {
                    self.buffer.push_back(order);
                    BookAction::Okay
                }
            },
            BookState::Synchronizing => {
                if self.sequencer.is_first_event(self.cur_sequence, &order) {
                    self.apply_order(&order);
                    self.state = BookState::Processing;
                    return BookAction::Okay;
                }
                if self.sequencer.is_stale(self.cur_sequence, &order) {
                    self.reset()
                } else {
                    BookAction::Okay
                }
            },
            BookState::Processing => {
                if self.sequencer.is_next(self.cur_sequence, &order) {
                    self.apply_order(&order);
                    BookAction::Okay
                } else {
                    self.reset()
                }
            },
        }
    }

    fn drain_buffer(&mut self) -> (action: BookAction)
        requires
            old(self)@.state != BookState::WaitingForSnapshot,
        ensures
            final(self)@ == old(self)@.drain(old(self).sequencer()).0,
            action == old(self)@.drain(old(self).sequencer()).1,
            final(self).sequencer() == old(self).sequencer(),
        decreases old(self)@.buffer.len(), 0int,
    {
        loop
            invariant
                self@.state != BookState::WaitingForSnapshot,
                self.sequencer() == old(self).sequencer(),
                self@.buffer.len() <= old(self)@.buffer.len(),
                self@.drain(self.sequencer()) == old(self)@.drain(old(self).sequencer()),
            decreases self@.buffer.len(),
        {
            let ghost before = self@;
            match self.buffer.pop_front() {
                Some(buffered_order) => {
                    assert(self@ == before.pop());
                    let action = self.process_order(buffered_order);
                    if action != BookAction::Okay {
                        return action;
                    }
                },
                None => {
                    return BookAction::Okay;
                },
            }
        }
    }

    fn reset(&mut self) -> (action: BookAction)
        ensures
            final(self)@ == old(self)@.reset(),
            action == BookAction::RetrieveSnapshot,
            final(self).sequencer() == old(self).sequencer(),
    {
        self.state = BookState::WaitingForSnapshot;
        self.buffer.clear();
        BookAction::RetrieveSnapshot
    }

    fn apply_order(&mut self, order: &Order<O>)
        ensures
            final(self)@ == old(self)@.apply(*order),
            final(self).sequencer() == old(self).sequencer(),
    {
        self.cur_sequence = order.id;
        self.ts_ms = order.ts_ms;

        if order.is_snapshot {
            self.asks.clear();
            self.bids.clear();
            proof {
                lemma_ladder_of_empty(true);
                lemma_ladder_of_empty(false);
            }
        }
        apply_side(&mut self.bids, &order.bids, true);
        apply_side(&mut self.asks, &order.asks, false);
    }
}

} // verus!
