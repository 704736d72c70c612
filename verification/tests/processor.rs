use orderbook::l2_book::{
    BookProcessor, BookSequencer, BookState, Order, Price, PriceSize, ProcessorStep, Sequence,
    Size,
};

struct Prev(u64);

struct Chain;

impl BookSequencer<Prev> for Chain {
    fn spec_is_first_event(&self, cur_seq: Sequence, update: &Order<Prev>) -> bool {
        self.is_first_event(cur_seq, update)
    }

    fn spec_is_stale(&self, cur_seq: Sequence, update: &Order<Prev>) -> bool {
        self.is_stale(cur_seq, update)
    }

    fn spec_is_next(&self, cur_seq: Sequence, update: &Order<Prev>) -> bool {
        self.is_next(cur_seq, update)
    }

    fn is_first_event(&self, cur_seq: Sequence, update: &Order<Prev>) -> bool {
        update.o.0 <= cur_seq.val() && cur_seq.val() <= update.id.val()
    }

    fn is_stale(&self, cur_seq: Sequence, update: &Order<Prev>) -> bool {
        cur_seq.val() < update.o.0
    }

    fn is_next(&self, cur_seq: Sequence, update: &Order<Prev>) -> bool {
        cur_seq.val() == update.o.0
    }
}

fn inc(prev: u64, id: u64, ts_ms: u64) -> Order<Prev> {
    Order {
        id: Sequence(id),
        bids: vec![PriceSize(Price(100), Size(id))],
        asks: vec![PriceSize(Price(101), Size(id))],
        is_snapshot: false,
        ts_ms,
        o: Prev(prev),
    }
}

fn snap(id: u64, ts_ms: u64) -> Order<Prev> {
    Order {
        id: Sequence(id),
        bids: vec![PriceSize(Price(100), Size(1)), PriceSize(Price(99), Size(1))],
        asks: vec![PriceSize(Price(101), Size(1)), PriceSize(Price(102), Size(1))],
        is_snapshot: true,
        ts_ms,
        o: Prev(id),
    }
}

/// A processor whose snapshot at sequence 10 was installed at `at`.
fn installed(at: u64, interval: u64) -> BookProcessor<Prev, Chain> {
    let mut processor = BookProcessor::new("BTCUSDT".to_string(), Chain, 1, interval);
    assert_eq!(ProcessorStep::FetchSnapshot, processor.on_update(inc(1, 2, 0)));
    assert_eq!(None, processor.snap_at());
    assert_eq!(ProcessorStep::Publish, processor.on_snapshot(snap(10, at), at));
    assert_eq!(Some(at), processor.snap_at());
    processor
}

#[test]
fn new_processor_waits_for_its_first_update() {
    let processor = BookProcessor::new("BTCUSDT".to_string(), Chain, 5, 100);
    assert_eq!("BTCUSDT", processor.symbol());
    assert_eq!(None, processor.pub_at());
    assert_eq!(None, processor.snap_at());
    assert_eq!(BookState::Init, processor.book().state());
    assert!(processor.snapshot().bids.is_empty());
}

#[test]
fn nothing_is_published_without_a_snapshot() {
    let mut processor = BookProcessor::new("BTCUSDT".to_string(), Chain, 5, 100);
    assert!(processor.publish(1_000_000).is_none());
    assert_eq!(ProcessorStep::FetchSnapshot, processor.on_update(inc(1, 2, 0)));
    // The fetch failed: the next update is buffered, and nothing is due.
    assert_eq!(ProcessorStep::Publish, processor.on_update(inc(2, 3, 0)));
    assert!(processor.publish(1_000_000).is_none());
    assert_eq!(None, processor.pub_at());
}

#[test]
fn publication_cadence() {
    let mut processor = installed(1000, 100);
    assert!(processor.publish(1000).is_none());

    let mut id = 10;
    let mut published = 0;
    for now in [1005, 1010, 1015, 1020, 1025, 1030, 1035, 1040, 1045, 1050] {
        assert_eq!(ProcessorStep::Publish, processor.on_update(inc(id, id + 1, now)));
        id += 1;
        if processor.publish(now).is_some() {
            processor.published();
            published += 1;
        }
    }
    assert_eq!(0, published);
    assert_eq!(None, processor.pub_at());

    assert_eq!(ProcessorStep::Publish, processor.on_update(inc(id, id + 1, 1105)));
    let publication = processor.publish(1105);
    assert!(publication.is_some());
    processor.published();
    assert_eq!(Some(1100), processor.pub_at());
    // The next one is due at 1200, not at 1205.
    assert!(processor.publish(1199).is_none());
    assert!(processor.publish(1200).is_some());
    processor.published();
    assert_eq!(Some(1200), processor.pub_at());
}

#[test]
fn publication_holds_the_book_at_depth() {
    let mut processor = installed(1000, 100);
    assert_eq!(ProcessorStep::Publish, processor.on_update(inc(10, 11, 77)));
    let publication = processor.publish(1100).unwrap();
    assert_eq!(vec![(Price(100), Size(11))], publication.bids);
    assert_eq!(vec![(Price(101), Size(11))], publication.asks);
    assert_eq!(77, publication.ts_ms);
}

#[test]
fn undelivered_publication_is_not_recorded() {
    let mut processor = installed(1000, 100);
    assert!(processor.publish(1100).is_some());
    // The receiver was gone: the driver does not confirm.
    assert_eq!(None, processor.pub_at());
    assert_eq!(ProcessorStep::Publish, processor.on_update(inc(10, 11, 0)));
    processor.published();
    assert_eq!(None, processor.pub_at());
    assert!(processor.publish(1150).is_some());
    processor.published();
    assert_eq!(Some(1100), processor.pub_at());
}

#[test]
fn confirming_without_a_publication_changes_nothing() {
    let mut processor = installed(1000, 100);
    processor.published();
    assert_eq!(None, processor.pub_at());
    assert!(processor.publish(1050).is_none());
    processor.published();
    assert_eq!(None, processor.pub_at());
}

#[test]
fn gap_forgets_the_snapshot_instant() {
    let mut processor = installed(1000, 100);
    assert_eq!(ProcessorStep::Publish, processor.on_update(inc(10, 11, 0)));
    assert_eq!(ProcessorStep::FetchSnapshot, processor.on_update(inc(50, 51, 0)));
    assert_eq!(None, processor.snap_at());
    assert!(processor.publish(5000).is_none());
    assert_eq!(BookState::WaitingForSnapshot, processor.book().state());
}

#[test]
fn grid_stays_at_the_first_snapshot() {
    let mut processor = installed(1000, 100);
    assert!(processor.publish(1100).is_some());
    processor.published();
    assert_eq!(ProcessorStep::Publish, processor.on_update(inc(10, 11, 0)));
    assert_eq!(ProcessorStep::FetchSnapshot, processor.on_update(inc(50, 51, 0)));
    assert_eq!(ProcessorStep::Publish, processor.on_snapshot(snap(60, 0), 1250));
    assert_eq!(Some(1250), processor.snap_at());
    assert!(processor.publish(1250).is_some());
    processor.published();
    assert_eq!(Some(1200), processor.pub_at());
}

#[test]
fn snapshot_that_does_not_bridge_asks_for_another() {
    let mut processor = BookProcessor::new("BTCUSDT".to_string(), Chain, 1, 100);
    assert_eq!(ProcessorStep::FetchSnapshot, processor.on_update(inc(1, 2, 0)));
    assert_eq!(ProcessorStep::Publish, processor.on_update(inc(20, 21, 0)));
    // The buffered update begins after the snapshot: the replay resets.
    assert_eq!(ProcessorStep::FetchSnapshot, processor.on_snapshot(snap(10, 0), 1000));
    assert_eq!(None, processor.snap_at());
    assert_eq!(BookState::WaitingForSnapshot, processor.book().state());
}

#[test]
fn instant_past_the_end_of_time_never_comes() {
    let mut processor = installed(u64::MAX - 10, 100);
    assert!(processor.publish(u64::MAX).is_none());
    processor.published();
    assert_eq!(None, processor.pub_at());
}

#[test]
fn zero_interval_publishes_each_time() {
    let mut processor = installed(1000, 0);
    for now in [1000, 1000, 1001, 5000] {
        assert!(processor.publish(now).is_some());
        processor.published();
        assert_eq!(Some(1000), processor.pub_at());
    }
}

#[test]
fn published_times_do_not_go_back() {
    let mut processor = installed(1000, 10);
    let mut last = 0;
    let mut id = 10;
    for (now, ts_ms) in [(1010, 1000), (1020, 1000), (1030, 1004), (1040, 1009)] {
        assert_eq!(ProcessorStep::Publish, processor.on_update(inc(id, id + 1, ts_ms)));
        id += 1;
        let publication = processor.publish(now).unwrap();
        processor.published();
        assert!(last <= publication.ts_ms);
        last = publication.ts_ms;
    }
    assert_eq!(1009, last);
}
