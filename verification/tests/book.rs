use orderbook::l2_book::{
    BookAction, BookFsm, BookSequencer, BookSnapshot, BookState, Order, Price, PriceSize,
    Sequence, Size,
};

struct Window {
    prev: u64,
    start: u64,
    end: u64,
}

struct WindowSequencer;

impl BookSequencer<Window> for WindowSequencer {
    fn spec_is_first_event(&self, cur_seq: Sequence, update: &Order<Window>) -> bool {
        self.is_first_event(cur_seq, update)
    }

    fn spec_is_stale(&self, cur_seq: Sequence, update: &Order<Window>) -> bool {
        self.is_stale(cur_seq, update)
    }

    fn spec_is_next(&self, cur_seq: Sequence, update: &Order<Window>) -> bool {
        self.is_next(cur_seq, update)
    }

    fn is_first_event(&self, cur_seq: Sequence, update: &Order<Window>) -> bool {
        update.o.start <= cur_seq.val() && cur_seq.val() <= update.o.end
    }

    fn is_stale(&self, cur_seq: Sequence, update: &Order<Window>) -> bool {
        cur_seq.val() < update.o.start
    }

    fn is_next(&self, cur_seq: Sequence, update: &Order<Window>) -> bool {
        cur_seq.val() == update.o.prev
    }
}

fn levels(pairs: &[(u64, u64)]) -> Vec<PriceSize> {
    pairs.iter().map(|&(p, s)| PriceSize(Price(p), Size(s))).collect()
}

fn pairs(pairs: &[(u64, u64)]) -> Vec<(Price, Size)> {
    pairs.iter().map(|&(p, s)| (Price(p), Size(s))).collect()
}

fn order(
    is_snapshot: bool,
    window: (u64, u64, u64),
    ts_ms: u64,
    bids: &[(u64, u64)],
    asks: &[(u64, u64)],
) -> Order<Window> {
    Order {
        id: Sequence(window.2),
        bids: levels(bids),
        asks: levels(asks),
        is_snapshot,
        ts_ms,
        o: Window {
            prev: window.0,
            start: window.1,
            end: window.2,
        },
    }
}

/// An engine in `Processing` at sequence 100 with the given ladders.
fn processing_at_100(bids: &[(u64, u64)], asks: &[(u64, u64)]) -> BookFsm<Window, WindowSequencer> {
    let mut fsm = BookFsm::new(WindowSequencer);
    assert_eq!(
        BookAction::RetrieveSnapshot,
        fsm.update(order(false, (0, 1, 1), 1, &[], &[]))
    );
    assert_eq!(
        BookAction::Okay,
        fsm.update(order(true, (100, 100, 100), 2, bids, asks))
    );
    assert_eq!(BookState::Synchronizing, fsm.state());
    assert_eq!(
        BookAction::Okay,
        fsm.update(order(false, (99, 100, 100), 3, &[], &[]))
    );
    assert_eq!(BookState::Processing, fsm.state());
    assert_eq!(Sequence(100), fsm.cur_sequence());
    fsm
}

#[test]
fn new_engine_is_empty() {
    let fsm = BookFsm::new(WindowSequencer);
    assert_eq!(BookState::Init, fsm.state());
    assert_eq!(Sequence(0), fsm.cur_sequence());
    assert_eq!(0, fsm.ts_ms());
    assert_eq!(0, fsm.buffer_len());
    let snapshot = fsm.snapshot(10);
    assert!(snapshot.bids.is_empty());
    assert!(snapshot.asks.is_empty());
    assert_eq!(0, snapshot.ts_ms);
}

#[test]
fn first_update_is_neither_applied_nor_buffered() {
    let mut fsm = BookFsm::new(WindowSequencer);
    let action = fsm.update(order(false, (2, 3, 5), 9, &[(10, 1)], &[(11, 1)]));
    assert_eq!(BookAction::RetrieveSnapshot, action);
    assert_eq!(BookState::WaitingForSnapshot, fsm.state());
    assert_eq!(0, fsm.buffer_len());
    assert_eq!(Sequence(0), fsm.cur_sequence());
    assert!(fsm.snapshot(10).bids.is_empty());
    assert!(fsm.snapshot(10).asks.is_empty());
}

#[test]
fn level_removal() {
    let mut fsm = processing_at_100(&[(99, 5), (98, 3)], &[]);
    assert_eq!(pairs(&[(99, 5), (98, 3)]), fsm.snapshot(10).bids);

    let action = fsm.update(order(false, (100, 101, 101), 4, &[(99, 0)], &[]));
    assert_eq!(BookAction::Okay, action);
    assert_eq!(BookState::Processing, fsm.state());
    assert_eq!(pairs(&[(98, 3)]), fsm.snapshot(10).bids);
}

#[test]
fn snapshot_lists_bids_down_and_asks_up() {
    let fsm = processing_at_100(
        &[(98, 3), (100, 1), (99, 5)],
        &[(103, 7), (101, 2), (102, 4)],
    );
    let snapshot = fsm.snapshot(10);
    assert_eq!(pairs(&[(100, 1), (99, 5), (98, 3)]), snapshot.bids);
    assert_eq!(pairs(&[(101, 2), (102, 4), (103, 7)]), snapshot.asks);
    assert_eq!(3, snapshot.ts_ms);
}

#[test]
fn snapshot_is_cut_at_depth() {
    let fsm = processing_at_100(
        &[(98, 3), (100, 1), (99, 5)],
        &[(103, 7), (101, 2), (102, 4)],
    );
    let two = fsm.snapshot(2);
    assert_eq!(pairs(&[(100, 1), (99, 5)]), two.bids);
    assert_eq!(pairs(&[(101, 2), (102, 4)]), two.asks);
    let none = fsm.snapshot(0);
    assert!(none.bids.is_empty());
    assert!(none.asks.is_empty());
    let all = fsm.snapshot(usize::MAX);
    assert_eq!(3, all.bids.len());
    assert_eq!(3, all.asks.len());
}

#[test]
fn extreme_prices_keep_their_order() {
    let fsm = processing_at_100(
        &[(0, 1), (u64::MAX, 2), (1, 3)],
        &[(u64::MAX, 4), (0, 5)],
    );
    let snapshot = fsm.snapshot(10);
    assert_eq!(pairs(&[(u64::MAX, 2), (1, 3), (0, 1)]), snapshot.bids);
    assert_eq!(pairs(&[(0, 5), (u64::MAX, 4)]), snapshot.asks);
}

#[test]
fn ladders_never_hold_a_zero_size() {
    let mut fsm = processing_at_100(&[(99, 5), (98, 0), (97, 1)], &[(101, 0), (102, 2)]);
    assert_eq!(pairs(&[(99, 5), (97, 1)]), fsm.snapshot(10).bids);
    assert_eq!(pairs(&[(102, 2)]), fsm.snapshot(10).asks);

    fsm.update(order(
        false,
        (100, 101, 101),
        4,
        &[(97, 0), (96, 4), (95, 0)],
        &[(102, 0), (103, 0)],
    ));
    let snapshot = fsm.snapshot(10);
    assert_eq!(pairs(&[(99, 5), (96, 4)]), snapshot.bids);
    assert!(snapshot.asks.is_empty());
    assert!(snapshot.bids.iter().all(|level| level.1 != Size(0)));
}

#[test]
fn last_level_at_a_price_decides() {
    let fsm = processing_at_100(&[(99, 5), (99, 0), (99, 7), (98, 1), (98, 0)], &[]);
    assert_eq!(pairs(&[(99, 7)]), fsm.snapshot(10).bids);
}

#[test]
fn snapshot_apply_replaces_the_book() {
    let mut fsm = processing_at_100(&[(99, 5), (98, 3)], &[(101, 2)]);
    // A gap sends the engine back to waiting.
    assert_eq!(
        BookAction::RetrieveSnapshot,
        fsm.update(order(false, (150, 151, 152), 5, &[], &[]))
    );
    assert_eq!(BookState::WaitingForSnapshot, fsm.state());

    assert_eq!(
        BookAction::Okay,
        fsm.update(order(true, (200, 200, 200), 6, &[(90, 1)], &[(110, 4), (111, 5)]))
    );
    assert_eq!(Sequence(200), fsm.cur_sequence());
    assert_eq!(6, fsm.ts_ms());
    let snapshot = fsm.snapshot(10);
    assert_eq!(pairs(&[(90, 1)]), snapshot.bids);
    assert_eq!(pairs(&[(110, 4), (111, 5)]), snapshot.asks);
}

#[test]
fn same_snapshot_twice_is_as_once() {
    let payload_bids = [(90, 1), (89, 2)];
    let payload_asks = [(110, 4)];

    let mut once = BookFsm::new(WindowSequencer);
    once.update(order(false, (0, 1, 1), 1, &[], &[]));
    once.update(order(true, (200, 200, 200), 6, &payload_bids, &payload_asks));

    let mut twice = BookFsm::new(WindowSequencer);
    twice.update(order(false, (0, 1, 1), 1, &[], &[]));
    twice.update(order(true, (200, 200, 200), 6, &payload_bids, &payload_asks));
    // The window of the snapshot holds its own sequence, so it is applied again.
    assert_eq!(
        BookAction::Okay,
        twice.update(order(true, (200, 200, 200), 6, &payload_bids, &payload_asks))
    );

    assert_eq!(once.cur_sequence(), twice.cur_sequence());
    assert_eq!(once.ts_ms(), twice.ts_ms());
    assert_eq!(once.snapshot(10).bids, twice.snapshot(10).bids);
    assert_eq!(once.snapshot(10).asks, twice.snapshot(10).asks);
}

#[test]
fn processing_follows_the_last_incremental() {
    let mut fsm = processing_at_100(&[], &[]);
    for id in 101..110u64 {
        assert_eq!(
            BookAction::Okay,
            fsm.update(order(false, (id - 1, id, id), id, &[], &[]))
        );
        assert_eq!(BookState::Processing, fsm.state());
        assert_eq!(Sequence(id), fsm.cur_sequence());
    }
}

#[test]
fn gap_while_processing_resets() {
    let mut fsm = processing_at_100(&[(99, 5)], &[]);
    let action = fsm.update(order(false, (101, 102, 102), 4, &[(99, 0)], &[]));
    assert_eq!(BookAction::RetrieveSnapshot, action);
    assert_eq!(BookState::WaitingForSnapshot, fsm.state());
    assert_eq!(0, fsm.buffer_len());
    // The update was not applied.
    assert_eq!(Sequence(100), fsm.cur_sequence());
    assert_eq!(pairs(&[(99, 5)]), fsm.snapshot(10).bids);
}

#[test]
fn update_before_the_snapshot_is_dropped_while_synchronizing() {
    let mut fsm = BookFsm::new(WindowSequencer);
    fsm.update(order(false, (0, 1, 1), 1, &[], &[]));
    fsm.update(order(true, (100, 100, 100), 2, &[(99, 5)], &[]));
    // Ends before the snapshot: neither first nor a reason to reset.
    let action = fsm.update(order(false, (40, 41, 50), 3, &[(99, 0)], &[]));
    assert_eq!(BookAction::Okay, action);
    assert_eq!(BookState::Synchronizing, fsm.state());
    assert_eq!(Sequence(100), fsm.cur_sequence());
    assert_eq!(pairs(&[(99, 5)]), fsm.snapshot(10).bids);
}

#[test]
fn buffered_updates_are_replayed_in_order() {
    let mut fsm = BookFsm::new(WindowSequencer);
    fsm.update(order(false, (0, 1, 1), 1, &[], &[]));
    // Buffered while waiting: one before the snapshot, the bridge, its successor.
    fsm.update(order(false, (40, 41, 50), 2, &[(1, 1)], &[]));
    fsm.update(order(false, (90, 95, 105), 3, &[(99, 6)], &[]));
    fsm.update(order(false, (105, 106, 110), 4, &[(98, 0), (97, 2)], &[]));
    assert_eq!(3, fsm.buffer_len());
    assert_eq!(BookState::WaitingForSnapshot, fsm.state());

    let action = fsm.update(order(true, (100, 100, 100), 5, &[(99, 5), (98, 3)], &[]));
    assert_eq!(BookAction::Okay, action);
    assert_eq!(BookState::Processing, fsm.state());
    assert_eq!(0, fsm.buffer_len());
    assert_eq!(Sequence(110), fsm.cur_sequence());
    assert_eq!(4, fsm.ts_ms());
    assert_eq!(pairs(&[(99, 6), (97, 2)]), fsm.snapshot(10).bids);
}

#[test]
fn replay_stops_at_the_first_gap() {
    let mut fsm = BookFsm::new(WindowSequencer);
    fsm.update(order(false, (0, 1, 1), 1, &[], &[]));
    fsm.update(order(false, (90, 95, 105), 2, &[(99, 6)], &[]));
    fsm.update(order(false, (107, 108, 110), 3, &[(98, 9)], &[]));
    fsm.update(order(false, (110, 111, 112), 4, &[(97, 9)], &[]));

    let action = fsm.update(order(true, (100, 100, 100), 5, &[(99, 5)], &[]));
    assert_eq!(BookAction::RetrieveSnapshot, action);
    assert_eq!(BookState::WaitingForSnapshot, fsm.state());
    assert_eq!(0, fsm.buffer_len());
    assert_eq!(Sequence(105), fsm.cur_sequence());
    assert_eq!(pairs(&[(99, 6)]), fsm.snapshot(10).bids);
}

#[test]
fn only_incrementals_are_buffered() {
    let mut fsm = BookFsm::new(WindowSequencer);
    fsm.update(order(false, (0, 1, 1), 1, &[], &[]));
    fsm.update(order(false, (1, 2, 2), 2, &[], &[]));
    fsm.update(order(false, (2, 3, 3), 3, &[], &[]));
    assert_eq!(2, fsm.buffer_len());
    // A snapshot is applied, never buffered: what is buffered does not bridge it.
    fsm.update(order(true, (100, 100, 100), 4, &[], &[]));
    assert_eq!(0, fsm.buffer_len());
    assert_eq!(BookState::Synchronizing, fsm.state());
}

fn book_snapshot(bids: &[(u64, u64)], asks: &[(u64, u64)]) -> BookSnapshot {
    BookSnapshot {
        asks: pairs(asks),
        bids: pairs(bids),
        ts_ms: 0,
    }
}

#[test]
fn mid_price() {
    let snapshot = book_snapshot(
        &[(74_038_900_000_000, 1), (74_038_800_000_000, 1)],
        &[(74_059_600_000_000, 1), (74_059_700_000_000, 1)],
    );
    assert_eq!(Price(74_049_250_000_000), snapshot.mid());
}

#[test]
fn mid_is_zero_iff_a_side_is_empty() {
    assert_eq!(Price(0), book_snapshot(&[], &[]).mid());
    assert_eq!(Price(0), book_snapshot(&[(5, 1)], &[]).mid());
    assert_eq!(Price(0), book_snapshot(&[], &[(7, 1)]).mid());
    assert_eq!(Price(6), book_snapshot(&[(5, 1)], &[(7, 1)]).mid());
    assert_eq!(Price(1), book_snapshot(&[(1, 1)], &[(1, 1)]).mid());
}

#[test]
fn mid_rounds_down_and_does_not_overflow() {
    assert_eq!(Price(6), book_snapshot(&[(5, 1)], &[(8, 1)]).mid());
    assert_eq!(Price(4), book_snapshot(&[(3, 1)], &[(5, 1)]).mid());
    assert_eq!(
        Price(u64::MAX),
        book_snapshot(&[(u64::MAX, 1)], &[(u64::MAX, 1)]).mid()
    );
    assert_eq!(
        Price(u64::MAX - 1),
        book_snapshot(&[(u64::MAX - 2, 1)], &[(u64::MAX, 1)]).mid()
    );
    assert_eq!(
        Price(u64::MAX / 2 + 1),
        book_snapshot(&[(1, 1)], &[(u64::MAX, 1)]).mid()
    );
}

#[test]
fn mid_with_a_best_price_of_zero() {
    assert_eq!(Price(5), book_snapshot(&[(0, 1)], &[(10, 1)]).mid());
    assert_eq!(Price(5), book_snapshot(&[(10, 5)], &[(0, 1)]).mid());
    assert_eq!(Price(1), book_snapshot(&[(0, 1)], &[(2, 1)]).mid());
    // Below two units the mean itself rounds down to zero.
    assert_eq!(Price(0), book_snapshot(&[(0, 1)], &[(1, 1)]).mid());
    assert_eq!(Price(0), book_snapshot(&[(0, 1)], &[(0, 1)]).mid());
}

#[test]
fn value_types() {
    let level = PriceSize(Price(7), Size(3));
    assert_eq!(Price(7), level.price());
    assert_eq!(Size(3), level.size());
    assert_eq!(42, Sequence(42).val());
    assert!(Size(0).is_zero());
    assert!(!Size(1).is_zero());
    assert!(Price(1) < Price(2));
    assert!(Sequence(1) < Sequence(2));
    assert_eq!(10_000_000_000, orderbook::l2_book::SCALE);
    assert_eq!(0, orderbook::l2_book::ZERO_SIZE);
}
