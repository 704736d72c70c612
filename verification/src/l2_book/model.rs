//! The mathematical model of the synchronisation engine: the book as maps
//! and sequences, and its transition function.

use super::fsm::{BookAction, BookSequencer, BookState};
use super::types::{Order, Price, PriceSize, Sequence, Size};
use vstd::prelude::*;

verus! {

/// A price ladder: the size resting at each price that has one.
pub type Ladder = Map<Price, Size>;

/// The ladder after one level of an update: a zero size removes the price,
/// any other size sets it.
pub open spec fn apply_level(ladder: Ladder, level: PriceSize) -> Ladder {
    if level.1.removes() {
        ladder.remove(level.0)
    } else {
        ladder.insert(level.0, level.1)
    }
}

/// The ladder after the levels of an update, taken in their order.
pub open spec fn apply_levels(ladder: Ladder, levels: Seq<PriceSize>) -> Ladder
    decreases levels.len(),
{
    if levels.len() == 0 {
        ladder
    } else {
        apply_level(apply_levels(ladder, levels.drop_last()), levels.last())
    }
}

/// No price of the ladder holds the zero size.
pub open spec fn no_zero_size(ladder: Ladder) -> bool {
    forall|p: Price| ladder.contains_key(p) ==> !(#[trigger] ladder[p]).removes()
}

/// The engine as a value: what `BookFsm` holds, seen as mathematics.
#[verifier::ext_equal]
pub struct BookModel<O> {
    pub state: BookState,
    pub cur_sequence: Sequence,
    pub ts_ms: u64,
    pub bids: Ladder,
    pub asks: Ladder,
    pub buffer: Seq<Order<O>>,
}

impl<O> BookModel<O> {
    /// The engine as it is created: nothing known, nothing buffered.
    pub open spec fn init() -> Self {
        BookModel {
            state: BookState::Init,
            cur_sequence: Sequence(0),
            ts_ms: 0,
            bids: Map::empty(),
            asks: Map::empty(),
            buffer: Seq::empty(),
        }
    }

    /// What holds of the engine at every moment, also in the middle of a
    /// replay: no ladder holds a zero size, and nothing buffered is a
    /// snapshot.
    pub open spec fn sound(self) -> bool {
        &&& no_zero_size(self.bids)
        &&& no_zero_size(self.asks)
        &&& forall|i: int| 0 <= i < self.buffer.len() ==> !(#[trigger] self.buffer[i]).is_snapshot
    }

    /// What holds of every engine between two updates: it is sound, and
    /// updates are buffered only while it waits for a snapshot.
    pub open spec fn wf(self) -> bool {
        &&& self.sound()
        &&& self.state != BookState::WaitingForSnapshot ==> self.buffer.len() == 0
    }

    /// The book with `order` applied: its sequence and time taken over, the
    /// ladders emptied first if it is a snapshot, then its levels applied.
    pub open spec fn apply(self, order: Order<O>) -> Self {
        BookModel {
            cur_sequence: order.id,
            ts_ms: order.ts_ms,
            bids: apply_levels(
                if order.is_snapshot {
                    Map::empty()
                } else {
                    self.bids
                },
                order.bids@,
            ),
            asks: apply_levels(
                if order.is_snapshot {
                    Map::empty()
                } else {
                    self.asks
                },
                order.asks@,
            ),
            ..self
        }
    }

    /// The book after a reset: waiting for a snapshot, with nothing buffered.
    pub open spec fn reset(self) -> Self {
        BookModel { state: BookState::WaitingForSnapshot, buffer: Seq::empty(), ..self }
    }

    /// One update against the book, without replay of the buffer. A snapshot
    /// that arrives while the engine waits for one is applied and leaves the
    /// engine synchronising.
    pub open spec fn step<S: BookSequencer<O>>(self, seq: S, order: Order<O>) -> (
        Self,
        BookAction,
    ) {
        match self.state {
            BookState::Init => (
                BookModel { state: BookState::WaitingForSnapshot, ..self },
                BookAction::RetrieveSnapshot,
            ),
            BookState::WaitingForSnapshot => if order.is_snapshot {
                (
                    BookModel { state: BookState::Synchronizing, ..self.apply(order) },
                    BookAction::Okay,
                )
            } else {
                (BookModel { buffer: self.buffer.push(order), ..self }, BookAction::Okay)
            },
            BookState::Synchronizing => if seq.spec_is_first_event(self.cur_sequence, &order) {
                (BookModel { state: BookState::Processing, ..self.apply(order) }, BookAction::Okay)
            } else if seq.spec_is_stale(self.cur_sequence, &order) {
                (self.reset(), BookAction::RetrieveSnapshot)
            } else {
                (self, BookAction::Okay)
            },
            BookState::Processing => if seq.spec_is_next(self.cur_sequence, &order) {
                (self.apply(order), BookAction::Okay)
            } else {
                (self.reset(), BookAction::RetrieveSnapshot)
            },
        }
    }

    /// The book without its oldest buffered update.
    pub open spec fn pop(self) -> Self {
        BookModel { buffer: self.buffer.drop_first(), ..self }
    }

    /// Replay of the buffer, oldest first, until it is empty or an update
    /// asks for a new snapshot. Meant for a book that does not wait for a
    /// snapshot: one that waits would buffer each update again.
    pub open spec fn drain<S: BookSequencer<O>>(self, seq: S) -> (Self, BookAction)
        decreases self.buffer.len(),
        when self.state != BookState::WaitingForSnapshot
    {
        if self.buffer.len() == 0 {
            (self, BookAction::Okay)
        } else {
            let (next, action) = self.pop().step(seq, self.buffer[0]);
            if action == BookAction::Okay {
                next.drain(seq)
            } else {
                (next, action)
            }
        }
    }

    /// Whether `step` applies `order` to the book, rather than buffering it
    /// or dropping it.
    pub open spec fn step_applies<S: BookSequencer<O>>(self, seq: S, order: Order<O>) -> bool {
        match self.state {
            BookState::Init => false,
            BookState::WaitingForSnapshot => order.is_snapshot,
            BookState::Synchronizing => seq.spec_is_first_event(self.cur_sequence, &order),
            BookState::Processing => seq.spec_is_next(self.cur_sequence, &order),
        }
    }

    /// The buffered updates that replay applies, in the order in which it
    /// applies them.
    pub open spec fn drain_applied<S: BookSequencer<O>>(self, seq: S) -> Seq<Order<O>>
        decreases self.buffer.len(),
        when self.state != BookState::WaitingForSnapshot
    {
        if self.buffer.len() == 0 {
            Seq::empty()
        } else {
            let head = self.buffer[0];
            let (next, action) = self.pop().step(seq, head);
            let here = if self.pop().step_applies(seq, head) {
                seq![head]
            } else {
                Seq::empty()
            };
            if action == BookAction::Okay {
                here + next.drain_applied(seq)
            } else {
                here
            }
        }
    }

    /// The updates that one call of the transition function applies, in the
    /// order in which it applies them.
    pub open spec fn applied<S: BookSequencer<O>>(self, seq: S, order: Order<O>) -> Seq<
        Order<O>,
    > {
        if self.state == BookState::WaitingForSnapshot && order.is_snapshot {
            seq![order] + self.step(seq, order).0.drain_applied(seq)
        } else if self.step_applies(seq, order) {
            seq![order]
        } else {
            Seq::empty()
        }
    }

    /// The book and the action after one update: the transition function.
    pub open spec fn process<S: BookSequencer<O>>(self, seq: S, order: Order<O>) -> (
        Self,
        BookAction,
    ) {
        if self.state == BookState::WaitingForSnapshot && order.is_snapshot {
            self.step(seq, order).0.drain(seq)
        } else {
            self.step(seq, order)
        }
    }

    /// The book after a sequence of updates, each fed in its turn.
    pub open spec fn run<S: BookSequencer<O>>(self, seq: S, orders: Seq<Order<O>>) -> Self
        decreases orders.len(),
    {
        if orders.len() == 0 {
            self
        } else {
            self.run(seq, orders.drop_last()).process(seq, orders.last()).0
        }
    }
}

} // verus!
