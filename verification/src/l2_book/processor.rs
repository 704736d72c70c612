//! The decisions of the actor that drives an engine: when a snapshot has to
//! be fetched, and when a view of the book is due for publication.
//!
//! The actor itself receives messages, awaits the fetcher and sends on a
//! channel. What it decides in between stands here, as a state machine on
//! plain values: the driver hands in each update, each fetched snapshot and
//! the instants that it reads from its clock, and carries out what comes
//! back. Instants and the interval are counts of one unit of the driver's
//! choice, from an origin of its choice.

use super::fsm::{BookAction, BookFsm, BookSequencer};
use super::model::BookModel;
use super::snapshot::{is_top_of, BookSnapshot};
use super::types::Order;
use vstd::prelude::*;

verus! {

/// What the driver has to do after it has handed in an update or a snapshot.
#[derive(Debug, Clone, Copy, PartialEq, Eq, Hash, Structural)]
pub enum ProcessorStep {
    /// Fetch a snapshot for the symbol and hand it in with `on_snapshot`;
    /// where the fetch fails, do nothing more for this update.
    FetchSnapshot,
    /// Read the clock and ask `publish` whether a view is due.
    Publish,
}

/// The processor as a value.
#[verifier::ext_equal]
pub struct ProcessorModel<O> {
    pub book: BookModel<O>,
    pub pub_interval: u64,
    pub depth: usize,
    /// The scheduled instant of the last publication that was delivered.
    pub pub_at: Option<u64>,
    /// The instant at which the last snapshot was installed; none while the
    /// book has none to stand on.
    pub snap_at: Option<u64>,
    /// The scheduled instant of a publication that was handed out and is
    /// not yet known to be delivered.
    pub due_at: Option<u64>,
    /// The instant from which the publication grid is counted: that of the
    /// snapshot on which the first delivered publication stood.
    pub origin: int,
    /// The number of publications that were delivered.
    pub delivered: nat,
}

impl<O> ProcessorModel<O> {
    /// The processor as it is created.
    pub open spec fn init(depth: usize, pub_interval: u64) -> Self {
        ProcessorModel {
            book: BookModel::init(),
            pub_interval,
            depth,
            pub_at: None,
            snap_at: None,
            due_at: None,
            origin: 0,
            delivered: 0,
        }
    }

    /// The instant from which the next publication is scheduled: that of the
    /// last delivered publication, or of the snapshot where there was none.
    pub open spec fn base(self) -> int
        recommends
            self.snap_at is Some,
    {
        match self.pub_at {
            Some(at) => at as int,
            None => self.snap_at->0 as int,
        }
    }

    /// The instant for which the next publication is scheduled.
    pub open spec fn scheduled(self) -> int
        recommends
            self.snap_at is Some,
    {
        self.base() + self.pub_interval
    }

    /// Whether a publication is due at `now`: the book stands on a snapshot
    /// and the scheduled instant has come.
    pub open spec fn due(self, now: u64) -> bool {
        self.snap_at is Some && self.scheduled() <= now
    }

    /// The delivered publications lie on the grid: the last one was
    /// scheduled a whole number of intervals, as many as were delivered,
    /// after the origin; and a publication that is handed out is scheduled
    /// one interval after the last.
    pub open spec fn wf(self) -> bool {
        &&& self.book.wf()
        &&& match self.pub_at {
            Some(at) => self.delivered >= 1 && at == self.origin + self.delivered
                * self.pub_interval,
            None => self.delivered == 0,
        }
        &&& self.due_at matches Some(due) ==> self.snap_at is Some && due == self.scheduled()
    }

    /// The processor after an update or a snapshot went through the engine:
    /// where the engine asks for a snapshot, the book stands on none. A
    /// publication that was handed out before and not confirmed is given up.
    pub open spec fn fed<S: BookSequencer<O>>(self, seq: S, order: Order<O>) -> Self {
        let (book, action) = self.book.process(seq, order);
        ProcessorModel {
            book,
            snap_at: if action == BookAction::RetrieveSnapshot {
                None
            } else {
                self.snap_at
            },
            due_at: None,
            ..self
        }
    }

    /// The step that follows `fed`.
    pub open spec fn step_after<S: BookSequencer<O>>(
        self,
        seq: S,
        order: Order<O>,
    ) -> ProcessorStep {
        if self.book.process(seq, order).1 == BookAction::RetrieveSnapshot {
            ProcessorStep::FetchSnapshot
        } else {
            ProcessorStep::Publish
        }
    }

    /// The processor after it was asked at `now` whether a view is due.
    pub open spec fn asked(self, now: u64) -> Self {
        ProcessorModel {
            due_at: if self.due(now) {
                Some(self.scheduled() as u64)
            } else {
                None
            },
            ..self
        }
    }

    /// The processor after the publication that it handed out was
    /// delivered: the scheduled instant is recorded, not the instant of
    /// delivery.
    pub open spec fn confirmed(self) -> Self {
        match self.due_at {
            Some(due) => ProcessorModel {
                pub_at: Some(due),
                due_at: None,
                origin: if self.pub_at is None {
                    self.snap_at->0 as int
                } else {
                    self.origin
                },
                delivered: self.delivered + 1,
                ..self
            },
            None => self,
        }
    }
}

impl<O> ProcessorModel<O> {
    /// Each delivered publication is recorded one interval after the one
    /// before it, or one interval after the snapshot was installed where it
    /// is the first; so the recorded instants lie on the grid that starts
    /// at that snapshot, however late a view was asked for.
    pub proof fn lemma_delivery_keeps_grid(self)
        requires
            self.wf(),
            self.due_at is Some,
        ensures
            self.confirmed().wf(),
            self.confirmed().pub_at == Some(self.scheduled() as u64),
            self.confirmed().delivered == self.delivered + 1,
            self.confirmed().origin == if self.pub_at is None {
                self.snap_at->0 as int
            } else {
                self.origin
            },
            self.confirmed().pub_at->0 == self.confirmed().origin + self.confirmed().delivered
                * self.pub_interval,
    {
        let count = self.delivered;
        let interval = self.pub_interval as int;
        assert((count + 1) * interval == count * interval + interval) by (nonlinear_arith);
        assert(count == 0 ==> count * interval == 0) by (nonlinear_arith);
    }

    /// A view is handed out only at or after the instant for which it is
    /// scheduled, and only while the book stands on a snapshot.
    pub proof fn lemma_handed_out_when_due(self, now: u64)
        requires
            self.wf(),
        ensures
            self.asked(now).wf(),
            self.asked(now).due_at matches Some(due) ==> due <= now && due == self.scheduled()
                && self.snap_at is Some,
    {
    }

    /// The time of the book, which is the time of each view that is handed
    /// out, does not go back over an update whose time, like that of every
    /// buffered update, is not before it.
    pub proof fn lemma_fed_time_does_not_go_back<S: BookSequencer<O>>(
        self,
        seq: S,
        order: Order<O>,
    )
        requires
            self.wf(),
            self.book.ts_ms <= order.ts_ms,
            forall|i: int|
                0 <= i < self.book.buffer.len() ==> self.book.ts_ms <= (
                #[trigger] self.book.buffer[i]).ts_ms,
        ensures
            self.book.ts_ms <= self.fed(seq, order).book.ts_ms,
            forall|i: int|
                0 <= i < self.fed(seq, order).book.buffer.len() ==> self.fed(
                    seq,
                    order,
                ).book.ts_ms <= (#[trigger] self.fed(seq, order).book.buffer[i]).ts_ms,
    {
        self.book.lemma_time_does_not_go_back(seq, order);
    }
}

/// The decision core of the actor that drives one engine for one symbol.
pub struct BookProcessor<O, S: BookSequencer<O>> {
    fsm: BookFsm<O, S>,
    symbol: String,
    pub_interval: u64,
    pub_at: Option<u64>,
    snap_at: Option<u64>,
    due_at: Option<u64>,
    depth: usize,
    origin: Ghost<int>,
    delivered: Ghost<nat>,
}

impl<O, S: BookSequencer<O>> View for BookProcessor<O, S> {
    type V = ProcessorModel<O>;

    closed spec fn view(&self) -> ProcessorModel<O> {
        ProcessorModel {
            book: self.fsm@,
            pub_interval: self.pub_interval,
            depth: self.depth,
            pub_at: self.pub_at,
            snap_at: self.snap_at,
            due_at: self.due_at,
            origin: self.origin@,
            delivered: self.delivered@,
        }
    }
}

impl<O, S: BookSequencer<O>> BookProcessor<O, S> {
    /// The sequencing policy of the engine.
    pub closed spec fn sequencer(&self) -> S {
        self.fsm.sequencer()
    }

    /// The symbol whose book this is.
    pub closed spec fn spec_symbol(&self) -> Seq<char> {
        self.symbol@
    }

    pub fn new(symbol: String, sequencer: S, depth: usize, pub_interval: u64) -> (processor: Self)
        ensures
            processor@ == ProcessorModel::<O>::init(depth, pub_interval),
            processor@.wf(),
            processor.sequencer() == sequencer,
            processor.spec_symbol() == symbol@,
    {
        Self {
            fsm: BookFsm::new(sequencer),
            symbol,
            pub_interval,
            pub_at: None,
            snap_at: None,
            due_at: None,
            depth,
            origin: Ghost(0),
            delivered: Ghost(0),
        }
    }

    /// The engine that this processor drives.
    pub fn book(&self) -> (book: &BookFsm<O, S>)
        ensures
            book@ == self@.book,
            book.sequencer() == self.sequencer(),
    {
        &self.fsm
    }

    /// The symbol whose snapshots the driver has to fetch.
    pub fn symbol(&self) -> (symbol: &str)
        ensures
            symbol@ == self.spec_symbol(),
    {
        self.symbol.as_str()
    }

    /// The scheduled instant of the last publication that was delivered.
    pub fn pub_at(&self) -> (at: Option<u64>)
        ensures
            at == self@.pub_at,
    {
        self.pub_at
    }

    /// The instant at which the last snapshot was installed.
    pub fn snap_at(&self) -> (at: Option<u64>)
        ensures
            at == self@.snap_at,
    {
        self.snap_at
    }

    /// The view of the book that a query is answered with.
    pub fn snapshot(&self) -> (snapshot: BookSnapshot)
        ensures
            is_top_of(snapshot.asks@, self@.book.asks, self@.depth as nat, false),
            is_top_of(snapshot.bids@, self@.book.bids, self@.depth as nat, true),
            snapshot.ts_ms == self@.book.ts_ms,
    {
        self.fsm.snapshot(self.depth)
    }

    /// Hands an inbound update to the engine.
    pub fn on_update(&mut self, order: Order<O>) -> (step: ProcessorStep)
        ensures
            final(self)@ == old(self)@.fed(old(self).sequencer(), order),
            step == old(self)@.step_after(old(self).sequencer(), order),
            final(self).sequencer() == old(self).sequencer(),
            final(self).spec_symbol() == old(self).spec_symbol(),
            old(self)@.wf() ==> final(self)@.wf(),
    {
        self.due_at = None;
        match self.fsm.update(order) {
            BookAction::RetrieveSnapshot => {
                self.snap_at = None;
                ProcessorStep::FetchSnapshot
            },
            BookAction::Okay => ProcessorStep::Publish,
        }
    }

    /// Hands a snapshot that was fetched, and the instant `now` at which it
    /// came, to the engine.
    pub fn on_snapshot(&mut self, snapshot: Order<O>, now: u64) -> (step: ProcessorStep)
        ensures
            final(self)@ == (ProcessorModel { snap_at: Some(now), ..old(self)@ }).fed(
                old(self).sequencer(),
                snapshot,
            ),
            step == old(self)@.step_after(old(self).sequencer(), snapshot),
            final(self).sequencer() == old(self).sequencer(),
            final(self).spec_symbol() == old(self).spec_symbol(),
            old(self)@.wf() ==> final(self)@.wf(),
    {
        self.due_at = None;
        self.snap_at = Some(now);
        self.on_update(snapshot)
    }

    /// Says at the instant `now` whether a view of the book is due, and
    /// hands it out if it is. The driver sends it and, once it is
    /// delivered, calls `published`.
    pub fn publish(&mut self, now: u64) -> (publication: Option<BookSnapshot>)
        ensures
            final(self)@ == old(self)@.asked(now),
            publication is Some <==> old(self)@.due(now),
            publication matches Some(snapshot) ==> {
                &&& is_top_of(snapshot.asks@, old(self)@.book.asks, old(self)@.depth as nat, false)
                &&& is_top_of(snapshot.bids@, old(self)@.book.bids, old(self)@.depth as nat, true)
                &&& snapshot.ts_ms == old(self)@.book.ts_ms
            },
            final(self).sequencer() == old(self).sequencer(),
            final(self).spec_symbol() == old(self).spec_symbol(),
            old(self)@.wf() ==> final(self)@.wf(),
    {
        self.due_at = None;
        let snap_at = match self.snap_at {
            Some(at) => at,
            None => {
                return None;
            },
        };
        let base = match self.pub_at {
            Some(at) => at,
            None => snap_at,
        };
        // An instant that does not fit is an instant that never comes.
        let scheduled = match base.checked_add(self.pub_interval) {
            Some(at) => at,
            None => {
                return None;
            },
        };
        if now < scheduled {
            return None;
        }
        self.due_at = Some(scheduled);
        Some(self.fsm.snapshot(self.depth))
    }

    /// Records that the publication that `publish` handed out was
    /// delivered. Without one it does nothing.
    pub fn published(&mut self)
        ensures
            final(self)@ == old(self)@.confirmed(),
            final(self).sequencer() == old(self).sequencer(),
            final(self).spec_symbol() == old(self).spec_symbol(),
            old(self)@.wf() ==> final(self)@.wf(),
    {
        if let Some(due) = self.due_at {
            proof {
                if self@.wf() {
                    self@.lemma_delivery_keeps_grid();
                }
                if self.pub_at.is_none() {
                    self.origin@ = self.snap_at->0 as int;
                }
                self.delivered@ = self.delivered@ + 1;
            }
            self.pub_at = Some(due);
            self.due_at = None;
        }
    }
}

} // verus!
