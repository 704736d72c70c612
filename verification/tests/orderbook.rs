use orderbook::orderbook::{LinkedList, Node, Queue};

// Keys and values are numbers: a letter stands as its code.
const A: u64 = b'a' as u64;
const B: u64 = b'b' as u64;
const C: u64 = b'c' as u64;
const D: u64 = b'd' as u64;
const E: u64 = b'e' as u64;
const K: u64 = b'k' as u64;
const V: u64 = b'v' as u64;

#[test]
fn linkedlist_basics() {
    let mut list = LinkedList::new();

    // Check empty list behaves right
    assert_eq!(list.pop_front(), None);

    // Populate list
    list.push_back(K, 1);
    list.push_back(K, 2);
    list.push_back(V, 2);

    // Check normal removal
    assert_eq!(list.pop_front(), Some(1));
    assert_eq!(list.pop_front(), Some(2));
}

#[test]
fn queue_basics() {
    let mut list = Queue::new();

    // Check empty list behaves right
    assert_eq!(list.pop_front(), None);

    // Populate list
    list.push_back(K, 1);
    list.push_back(K, 2);
    list.push_back(V, 2);

    // Check normal removal
    assert_eq!(list.pop_front(), Some(1));
    assert_eq!(list.pop_front(), Some(2));
}

#[test]
fn remove_key() {
    let mut list = Queue::new();

    list.push_back(A, A);
    list.push_back(B, B);
    list.push_back(C, C);
    list.push_back(D, D);

    assert!(!list.remove_key(E));
    assert!(list.remove_key(B));

    assert_eq!(list.front(), Some(&mut A.clone()));

    assert_eq!(list.pop_front(), Some(A));
    assert_eq!(list.pop_front(), Some(C));
    assert_eq!(list.pop_front(), Some(D));
}

#[test]
fn node_starts_unlinked() {
    let node = Node::new(7, 9);
    assert_eq!(7, node.key);
    assert_eq!(9, node.value);
    assert_eq!(None, node.next);
    assert_eq!(None, node.prev);
}

#[test]
fn push_back_refuses_a_key_that_is_held() {
    let mut list = LinkedList::new();
    assert!(list.push_back(1, 10));
    assert!(!list.push_back(1, 20));
    assert!(list.push_back(2, 20));
    assert_eq!(vec![(1, 10), (2, 20)], list.iter());
    assert_eq!(2, list.len());
}

#[test]
fn len_and_is_empty_follow_the_entries() {
    let mut list = LinkedList::default();
    assert!(list.is_empty());
    assert_eq!(0, list.len());
    assert_eq!(None, list.front());
    assert!(list.iter().is_empty());

    list.push_back(5, 50);
    assert!(!list.is_empty());
    assert_eq!(1, list.len());
    list.push_back(6, 60);
    assert_eq!(2, list.len());
    assert_eq!(Some(50), list.pop_front());
    assert_eq!(1, list.len());
    assert_eq!(Some(60), list.pop_front());
    assert!(list.is_empty());
    assert_eq!(None, list.pop_front());
    assert!(list.is_empty());
}

#[test]
fn popped_key_can_be_pushed_again() {
    let mut list = LinkedList::new();
    list.push_back(1, 10);
    list.push_back(2, 20);
    assert_eq!(Some(10), list.pop_front());
    assert!(list.push_back(1, 11));
    assert_eq!(vec![(2, 20), (1, 11)], list.iter());
}

#[test]
fn front_changes_the_value_in_place() {
    let mut list = LinkedList::new();
    list.push_back(1, 10);
    list.push_back(2, 20);
    if let Some(value) = list.front() {
        *value -= 3;
    }
    assert_eq!(vec![(1, 7), (2, 20)], list.iter());
    assert_eq!(Some(7), list.pop_front());
}

#[test]
fn iter_goes_front_to_back() {
    let mut queue = Queue::new();
    for key in 0..100u64 {
        assert!(queue.push_back(key, key * key));
    }
    let entries = queue.iter();
    assert_eq!(100, entries.len());
    for (at, entry) in entries.iter().enumerate() {
        assert_eq!((at as u64, (at * at) as u64), *entry);
    }
}

#[test]
fn remove_key_at_the_ends_keeps_the_queue_linked() {
    let mut queue = Queue::default();
    for key in [A, B, C, D] {
        queue.push_back(key, key + 1);
    }
    // The back.
    assert!(queue.remove_key(D));
    assert_eq!(vec![(A, A + 1), (B, B + 1), (C, C + 1)], queue.iter());
    assert!(queue.push_back(E, 0));
    assert_eq!(vec![(A, A + 1), (B, B + 1), (C, C + 1), (E, 0)], queue.iter());
    // The front.
    assert!(queue.remove_key(A));
    assert_eq!(Some(&mut (B + 1)), queue.front());
    assert_eq!(vec![(B, B + 1), (C, C + 1), (E, 0)], queue.iter());
    assert_eq!(3, queue.len());
    // A key that is gone.
    assert!(!queue.remove_key(A));
    assert_eq!(Some(B + 1), queue.pop_front());
    assert_eq!(Some(C + 1), queue.pop_front());
    assert_eq!(Some(0), queue.pop_front());
    assert_eq!(None, queue.pop_front());
    assert!(queue.is_empty());
}

#[test]
fn remove_key_of_the_only_entry_empties_the_queue() {
    let mut queue = Queue::new();
    queue.push_back(1, 1);
    assert!(queue.remove_key(1));
    assert!(queue.is_empty());
    assert_eq!(None, queue.front());
    assert!(queue.push_back(1, 2));
    assert_eq!(vec![(1, 2)], queue.iter());
}

#[test]
fn places_are_used_again() {
    let mut queue = Queue::new();
    for round in 0..50u64 {
        assert!(queue.push_back(round, round));
        assert!(queue.push_back(round + 1000, round));
        assert!(queue.remove_key(round));
        assert_eq!(Some(round), queue.pop_front());
        assert!(queue.is_empty());
    }
}
