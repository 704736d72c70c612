use orderbook::l2_book::{BookAction, BookFsm, BookSequencer, BookState, Order, Sequence};
use std::time::{SystemTime, UNIX_EPOCH};

struct TestOrder {
    pub prev_seq: Sequence,
    pub start_seq: Sequence,
    pub end_seq: Sequence,
}

struct TestSequencer;

impl BookSequencer<TestOrder> for TestSequencer {
    fn spec_is_first_event(&self, cur_seq: Sequence, update: &Order<TestOrder>) -> bool {
        self.is_first_event(cur_seq, update)
    }

    fn spec_is_stale(&self, cur_seq: Sequence, update: &Order<TestOrder>) -> bool {
        self.is_stale(cur_seq, update)
    }

    fn spec_is_next(&self, cur_seq: Sequence, update: &Order<TestOrder>) -> bool {
        self.is_next(cur_seq, update)
    }

    fn is_first_event(&self, cur_seq: Sequence, update: &Order<TestOrder>) -> bool {
        update.o.start_seq <= cur_seq && cur_seq <= update.o.end_seq
    }

    fn is_stale(&self, cur_seq: Sequence, update: &Order<TestOrder>) -> bool {
        cur_seq < update.o.start_seq
    }

    fn is_next(&self, cur_seq: Sequence, update: &Order<TestOrder>) -> bool {
        cur_seq == update.o.prev_seq
    }
}

fn mk_order(is_snapshot: bool, o: TestOrder) -> Order<TestOrder> {
    Order {
        id: o.end_seq,
        bids: vec![],
        asks: vec![],
        is_snapshot,
        ts_ms: SystemTime::now().duration_since(UNIX_EPOCH).unwrap().as_millis() as u64,
        o,
    }
}

fn inc(prev: u64, start: u64, end: u64) -> Order<TestOrder> {
    mk_order(
        false,
        TestOrder {
            prev_seq: Sequence(prev),
            start_seq: Sequence(start),
            end_seq: Sequence(end),
        },
    )
}

fn snap(prev: u64, start: u64, end: u64) -> Order<TestOrder> {
    mk_order(
        true,
        TestOrder {
            prev_seq: Sequence(prev),
            start_seq: Sequence(start),
            end_seq: Sequence(end),
        },
    )
}

#[test]
fn fsm_test_basic() {
    let mut fsm = BookFsm::new(TestSequencer);

    // Send inc update, expect fsm to ask to retrieve snapshot
    assert_eq!(BookAction::RetrieveSnapshot, fsm.update(inc(2, 3, 5)));
    assert_eq!(BookState::WaitingForSnapshot, fsm.state());

    // Send inc update
    assert_eq!(BookAction::Okay, fsm.update(inc(5, 7, 10)));
    assert_eq!(BookState::WaitingForSnapshot, fsm.state());

    // Send snapshot
    assert_eq!(BookAction::Okay, fsm.update(snap(0, 0, 7)));
    assert_eq!(BookState::Processing, fsm.state());

    // Buffer drained
    assert_eq!(0, fsm.buffer_len());
}

#[test]
fn fsm_test_first_event_not_found() {
    let mut fsm = BookFsm::new(TestSequencer);

    // Send inc update, expect fsm to ask to retrieve snapshot
    assert_eq!(BookAction::RetrieveSnapshot, fsm.update(inc(2, 3, 5)));
    assert_eq!(BookState::WaitingForSnapshot, fsm.state());

    // Send inc update
    assert_eq!(BookAction::Okay, fsm.update(inc(5, 7, 10)));
    assert_eq!(BookState::WaitingForSnapshot, fsm.state());

    // Send snapshot
    assert_eq!(BookAction::Okay, fsm.update(snap(0, 0, 11)));
    assert_eq!(BookState::Synchronizing, fsm.state());

    // Buffer drained
    assert_eq!(0, fsm.buffer_len());

    // First event not found, send an update after snapshot
    assert_eq!(BookAction::RetrieveSnapshot, fsm.update(inc(10, 13, 14)))
}
