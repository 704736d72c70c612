//! What holds of the engine for every sequence of updates, proved of its
//! model.

use super::fsm::{BookAction, BookSequencer, BookState};
use super::model::{apply_level, apply_levels, no_zero_size, BookModel, Ladder};
use super::types::{Order, Price, PriceSize, Size};
use vstd::prelude::*;

verus! {

/// The size that the last level at price `p` carries, if there is a level at
/// that price.
pub open spec fn last_size_at(levels: Seq<PriceSize>, p: Price) -> Option<Size>
    decreases levels.len(),
{
    if levels.len() == 0 {
        None
    } else if levels.last().0 == p {
        Some(levels.last().1)
    } else {
        last_size_at(levels.drop_last(), p)
    }
}

/// Price by price, the last level of an update decides: a price that the
/// update names holds the size of its last level there, or nothing where
/// that size is zero; a price that it does not name is left as it was.
pub proof fn lemma_last_level_decides(ladder: Ladder, levels: Seq<PriceSize>, p: Price)
    ensures
        apply_levels(ladder, levels).contains_key(p) <==> match last_size_at(levels, p) {
            Some(size) => !size.removes(),
            None => ladder.contains_key(p),
        },
        apply_levels(ladder, levels).contains_key(p) ==> apply_levels(ladder, levels)[p]
            == match last_size_at(levels, p) {
            Some(size) => size,
            None => ladder[p],
        },
    decreases levels.len(),
{
    if levels.len() > 0 {
        lemma_last_level_decides(ladder, levels.drop_last(), p);
    }
}

/// Applying levels to a ladder without zero sizes leaves no zero size.
pub proof fn lemma_apply_levels_keeps_no_zero_size(ladder: Ladder, levels: Seq<PriceSize>)
    requires
        no_zero_size(ladder),
    ensures
        no_zero_size(apply_levels(ladder, levels)),
    decreases levels.len(),
{
    if levels.len() > 0 {
        lemma_apply_levels_keeps_no_zero_size(ladder, levels.drop_last());
        let before = apply_levels(ladder, levels.drop_last());
        let after = apply_level(before, levels.last());
        assert forall|p: Price| after.contains_key(p) implies !(#[trigger] after[p]).removes() by {
            if p != levels.last().0 {
                assert(before.contains_key(p));
            }
        }
    }
}

/// A snapshot whose levels name each price once, none with a zero size, is
/// taken over as it is: the ladder holds its levels and no other.
pub proof fn lemma_plain_payload_is_taken_over(levels: Seq<PriceSize>)
    requires
        forall|i: int, j: int|
            0 <= i < j < levels.len() ==> (#[trigger] levels[i]).0 != (#[trigger] levels[j]).0,
        forall|i: int| 0 <= i < levels.len() ==> !(#[trigger] levels[i]).1.removes(),
    ensures
        forall|i: int|
            0 <= i < levels.len() ==> apply_levels(Map::empty(), levels).contains_key(
                (#[trigger] levels[i]).0,
            ) && apply_levels(Map::empty(), levels)[levels[i].0] == levels[i].1,
        forall|p: Price| #[trigger]
            apply_levels(Map::empty(), levels).contains_key(p) ==> exists|i: int|
                0 <= i < levels.len() && (#[trigger] levels[i]).0 == p,
    decreases levels.len(),
{
    if levels.len() > 0 {
        let front = levels.drop_last();
        assert forall|i: int, j: int| 0 <= i < j < front.len() implies (#[trigger] front[i]).0 != (
        #[trigger] front[j]).0 by {
            assert(front[i] == levels[i] && front[j] == levels[j]);
        }
        assert forall|i: int| 0 <= i < front.len() implies !(#[trigger] front[i]).1.removes() by {
            assert(front[i] == levels[i]);
        }
        lemma_plain_payload_is_taken_over(front);
        let before = apply_levels(Map::empty(), front);
        let after = apply_levels(Map::empty(), levels);
        assert forall|i: int| 0 <= i < levels.len() implies after.contains_key(
            (#[trigger] levels[i]).0,
        ) && after[levels[i].0] == levels[i].1 by {
            if i < front.len() {
                assert(front[i] == levels[i]);
                assert(levels[i].0 != levels[levels.len() - 1].0);
            }
        }
        assert forall|p: Price| #[trigger] after.contains_key(p) implies exists|i: int|
            0 <= i < levels.len() && (#[trigger] levels[i]).0 == p by {
            if p == levels.last().0 {
                assert(levels[levels.len() - 1].0 == p);
            } else {
                assert(before.contains_key(p));
                let i = choose|i: int| 0 <= i < front.len() && (#[trigger] front[i]).0 == p;
                assert(levels[i].0 == p);
            }
        }
    }
}

impl<O> BookModel<O> {
    /// A new engine is well formed.
    pub proof fn lemma_init_wf()
        ensures
            Self::init().wf(),
    {
    }

    /// Applying an update keeps the ladders free of zero sizes.
    pub proof fn lemma_apply_keeps_no_zero_size(self, order: Order<O>)
        requires
            no_zero_size(self.bids),
            no_zero_size(self.asks),
        ensures
            no_zero_size(self.apply(order).bids),
            no_zero_size(self.apply(order).asks),
    {
        lemma_apply_levels_keeps_no_zero_size(self.bids, order.bids@);
        lemma_apply_levels_keeps_no_zero_size(self.asks, order.asks@);
        lemma_apply_levels_keeps_no_zero_size(Map::empty(), order.bids@);
        lemma_apply_levels_keeps_no_zero_size(Map::empty(), order.asks@);
    }

    /// After a snapshot is applied, the book stands at the snapshot's
    /// sequence and time, and its ladders are the snapshot's levels applied
    /// to empty ladders: nothing of the book before is left in them.
    pub proof fn lemma_snapshot_replaces_book(self, snapshot: Order<O>)
        requires
            snapshot.is_snapshot,
        ensures
            self.apply(snapshot).cur_sequence == snapshot.id,
            self.apply(snapshot).ts_ms == snapshot.ts_ms,
            self.apply(snapshot).bids == apply_levels(Map::empty(), snapshot.bids@),
            self.apply(snapshot).asks == apply_levels(Map::empty(), snapshot.asks@),
    {
    }

    /// Applying the same snapshot twice gives the book that applying it once
    /// gives.
    pub proof fn lemma_snapshot_apply_is_idempotent(self, snapshot: Order<O>)
        requires
            snapshot.is_snapshot,
        ensures
            self.apply(snapshot).apply(snapshot) == self.apply(snapshot),
    {
    }

    /// One update without replay keeps the book sound.
    pub proof fn lemma_step_keeps_sound<S: BookSequencer<O>>(self, seq: S, order: Order<O>)
        requires
            self.sound(),
        ensures
            self.step(seq, order).0.sound(),
    {
        self.lemma_apply_keeps_no_zero_size(order);
        let after = self.step(seq, order).0;
        if self.state == BookState::WaitingForSnapshot && !order.is_snapshot {
            assert forall|i: int| 0 <= i < after.buffer.len() implies !(
            #[trigger] after.buffer[i]).is_snapshot by {
                if i < self.buffer.len() {
                    assert(after.buffer[i] == self.buffer[i]);
                }
            }
        }
    }

    /// Replay ends with a well-formed book, and with an empty buffer where
    /// it began at a book that had seen an update.
    pub proof fn lemma_drain_gives_wf<S: BookSequencer<O>>(self, seq: S)
        requires
            self.sound(),
            self.state != BookState::WaitingForSnapshot,
        ensures
            self.drain(seq).0.wf(),
            self.state != BookState::Init ==> self.drain(seq).0.buffer.len() == 0,
        decreases self.buffer.len(),
    {
        if self.buffer.len() > 0 {
            let popped = self.pop();
            assert forall|i: int| 0 <= i < popped.buffer.len() implies !(
            #[trigger] popped.buffer[i]).is_snapshot by {
                assert(popped.buffer[i] == self.buffer[i + 1]);
            }
            popped.lemma_step_keeps_sound(seq, self.buffer[0]);
            let (next, action) = popped.step(seq, self.buffer[0]);
            if action == BookAction::Okay {
                next.lemma_drain_gives_wf(seq);
            }
        }
    }

    /// Every update takes a well-formed book to a well-formed book: the
    /// ladders never hold a zero size, the buffer never holds a snapshot,
    /// and it is empty unless the engine waits for a snapshot.
    pub proof fn lemma_process_keeps_wf<S: BookSequencer<O>>(self, seq: S, order: Order<O>)
        requires
            self.wf(),
        ensures
            self.process(seq, order).0.wf(),
    {
        self.lemma_step_keeps_sound(seq, order);
        if self.state == BookState::WaitingForSnapshot && order.is_snapshot {
            self.step(seq, order).0.lemma_drain_gives_wf(seq);
        }
    }

    /// Whatever updates a new engine is fed, in whatever order: its ladders
    /// hold no zero size, its buffer holds no snapshot, and it buffers only
    /// while it waits for a snapshot.
    pub proof fn lemma_every_run_is_wf<S: BookSequencer<O>>(seq: S, orders: Seq<Order<O>>)
        ensures
            Self::init().run(seq, orders).wf(),
    {
        Self::init().lemma_run_keeps_wf(seq, orders);
    }

    /// A sequence of updates takes a well-formed book to a well-formed book.
    pub proof fn lemma_run_keeps_wf<S: BookSequencer<O>>(self, seq: S, orders: Seq<Order<O>>)
        requires
            self.wf(),
        ensures
            self.run(seq, orders).wf(),
        decreases orders.len(),
    {
        if orders.len() > 0 {
            self.lemma_run_keeps_wf(seq, orders.drop_last());
            self.run(seq, orders.drop_last()).lemma_process_keeps_wf(seq, orders.last());
        }
    }

    /// Replay leaves the book at the sequence and time of the last update
    /// that it applied, in the state `Processing` only if it applied one or
    /// began there, and with nothing changed if it applied none. What it
    /// applies comes from the buffer.
    pub proof fn lemma_drain_follows_applied<S: BookSequencer<O>>(self, seq: S)
        requires
            self.state != BookState::WaitingForSnapshot,
        ensures
            ({
                let after = self.drain(seq).0;
                let applied = self.drain_applied(seq);
                &&& applied.len() > 0 ==> after.cur_sequence == applied.last().id && after.ts_ms
                    == applied.last().ts_ms
                &&& applied.len() == 0 ==> after.cur_sequence == self.cur_sequence && after.ts_ms
                    == self.ts_ms && after.bids == self.bids && after.asks == self.asks
                &&& after.state == BookState::Processing ==> applied.len() > 0 || self.state
                    == BookState::Processing
                &&& forall|i: int|
                    0 <= i < applied.len() ==> exists|j: int|
                        0 <= j < self.buffer.len() && self.buffer[j] == #[trigger] applied[i]
            }),
        decreases self.buffer.len(),
    {
        if self.buffer.len() > 0 {
            let head = self.buffer[0];
            let popped = self.pop();
            let (next, action) = popped.step(seq, head);
            let here = if popped.step_applies(seq, head) {
                seq![head]
            } else {
                Seq::empty()
            };
            let applied = self.drain_applied(seq);
            if action == BookAction::Okay {
                next.lemma_drain_follows_applied(seq);
                let rest = next.drain_applied(seq);
                assert(applied == here + rest);
                assert forall|i: int| 0 <= i < applied.len() implies exists|j: int|
                    0 <= j < self.buffer.len() && self.buffer[j] == #[trigger] applied[i] by {
                    if i < here.len() {
                        assert(self.buffer[0] == applied[i]);
                    } else {
                        assert(applied[i] == rest[i - here.len()]);
                        let j = choose|j: int|
                            0 <= j < next.buffer.len() && next.buffer[j] == rest[i - here.len()];
                        assert(next.buffer == popped.buffer);
                        assert(self.buffer[j + 1] == applied[i]);
                    }
                }
                if rest.len() > 0 {
                    assert(applied.last() == rest.last());
                }
            } else {
                assert forall|i: int| 0 <= i < applied.len() implies exists|j: int|
                    0 <= j < self.buffer.len() && self.buffer[j] == #[trigger] applied[i] by {
                    assert(self.buffer[0] == applied[i]);
                }
            }
        }
    }

    /// After every update the book stands at the sequence and time of the
    /// update that was applied last: of the last one that this update made
    /// the engine apply, and where it made it apply none, sequence, time and
    /// ladders are as before. An engine that ends in `Processing` has
    /// applied one, unless it was there and the update asked for no change.
    pub proof fn lemma_book_follows_last_applied<S: BookSequencer<O>>(
        self,
        seq: S,
        order: Order<O>,
    )
        ensures
            ({
                let after = self.process(seq, order).0;
                let applied = self.applied(seq, order);
                &&& applied.len() > 0 ==> after.cur_sequence == applied.last().id && after.ts_ms
                    == applied.last().ts_ms
                &&& applied.len() == 0 ==> after.cur_sequence == self.cur_sequence && after.ts_ms
                    == self.ts_ms && after.bids == self.bids && after.asks == self.asks
                &&& after.state == BookState::Processing ==> applied.len() > 0
            }),
    {
        if self.state == BookState::WaitingForSnapshot && order.is_snapshot {
            let installed = self.step(seq, order).0;
            installed.lemma_drain_follows_applied(seq);
            let rest = installed.drain_applied(seq);
            let applied = self.applied(seq, order);
            assert(applied == seq![order] + rest);
            if rest.len() > 0 {
                assert(applied.last() == rest.last());
            } else {
                assert(applied.last() == order);
            }
        }
    }

    /// While the engine is in `Processing`, its sequence is that of the
    /// incremental update that was applied last. This holds of an update
    /// that is itself incremental, and of a snapshot that reaches an engine
    /// that waits for one: a snapshot fed to an engine that does not wait is
    /// left to the sequencing policy, and is applied where the policy takes
    /// it.
    pub proof fn lemma_processing_follows_last_incremental<S: BookSequencer<O>>(
        self,
        seq: S,
        order: Order<O>,
    )
        requires
            self.wf(),
            order.is_snapshot ==> self.state == BookState::WaitingForSnapshot,
        ensures
            ({
                let after = self.process(seq, order).0;
                let applied = self.applied(seq, order);
                after.state == BookState::Processing ==> applied.len() > 0
                    && !applied.last().is_snapshot && after.cur_sequence == applied.last().id
            }),
    {
        self.lemma_book_follows_last_applied(seq, order);
        if self.state == BookState::WaitingForSnapshot && order.is_snapshot {
            let installed = self.step(seq, order).0;
            installed.lemma_drain_follows_applied(seq);
            let rest = installed.drain_applied(seq);
            let applied = self.applied(seq, order);
            assert(applied == seq![order] + rest);
            if self.process(seq, order).0.state == BookState::Processing {
                assert(rest.len() > 0);
                assert(applied.last() == rest.last());
                let j = choose|j: int|
                    0 <= j < installed.buffer.len() && installed.buffer[j] == rest[rest.len() - 1];
                assert(installed.buffer[j] == self.buffer[j]);
            }
        }
    }

    /// The time of the book does not go back over an update, where the time
    /// of the update and of every buffered update is not before the time of
    /// the book. The buffered updates then stay not before it, so that this
    /// holds along every sequence of updates whose times do not go back.
    pub proof fn lemma_time_does_not_go_back<S: BookSequencer<O>>(
        self,
        seq: S,
        order: Order<O>,
    )
        requires
            self.wf(),
            self.ts_ms <= order.ts_ms,
            forall|i: int|
                0 <= i < self.buffer.len() ==> self.ts_ms <= (#[trigger] self.buffer[i]).ts_ms,
        ensures
            self.ts_ms <= self.process(seq, order).0.ts_ms,
            forall|i: int|
                0 <= i < self.process(seq, order).0.buffer.len() ==> self.process(
                    seq,
                    order,
                ).0.ts_ms <= (#[trigger] self.process(seq, order).0.buffer[i]).ts_ms,
    {
        self.lemma_book_follows_last_applied(seq, order);
        self.lemma_step_keeps_sound(seq, order);
        if self.state == BookState::WaitingForSnapshot && order.is_snapshot {
            let installed = self.step(seq, order).0;
            installed.lemma_drain_follows_applied(seq);
            installed.lemma_drain_gives_wf(seq);
            let rest = installed.drain_applied(seq);
            let applied = self.applied(seq, order);
            assert(applied == seq![order] + rest);
            if rest.len() > 0 {
                assert(applied.last() == rest.last());
                let j = choose|j: int|
                    0 <= j < installed.buffer.len() && installed.buffer[j] == rest[rest.len() - 1];
                assert(installed.buffer[j] == self.buffer[j]);
            } else {
                assert(applied.last() == order);
            }
        } else {
            let after = self.process(seq, order).0;
            assert forall|i: int| 0 <= i < after.buffer.len() implies after.ts_ms <= (
            #[trigger] after.buffer[i]).ts_ms by {
                if i < self.buffer.len() {
                    assert(after.buffer[i] == self.buffer[i]);
                }
            }
        }
    }
}

} // verus!
