use limero::sink::{Sink, SinkError};
use limero::source::Source;

#[test]
fn fifo_order() {
    let mut s: Sink<u64> = Sink::new(8);
    assert_eq!(s.push(1), Ok(()));
    assert_eq!(s.push(2), Ok(()));
    assert_eq!(s.push(3), Ok(()));
    assert_eq!(s.next(), Some(1));
    assert_eq!(s.next(), Some(2));
    assert_eq!(s.next(), Some(3));
    assert_eq!(s.next(), None);
}

#[test]
fn push_full_rejects_newest() {
    let mut s: Sink<u64> = Sink::new(1);
    assert_eq!(s.push(1), Ok(()));
    assert_eq!(s.push(2), Err(SinkError::Full));
    // Nothing already queued was lost.
    assert_eq!(s.next(), Some(1));
    assert_eq!(s.next(), None);
}

#[test]
fn push_closed_rejects() {
    let mut s: Sink<String> = Sink::new(4);
    assert_eq!(s.push(String::from("a")), Ok(()));
    s.close();
    assert_eq!(s.push(String::from("b")), Err(SinkError::Closed));
    // Pending values can still be drained after the close.
    assert_eq!(s.next(), Some(String::from("a")));
    assert_eq!(s.next(), None);
}

#[test]
fn sink_getters() {
    let mut s: Sink<u64> = Sink::new(2);
    assert!(s.is_empty());
    assert_eq!(s.capacity(), 2);
    assert!(!s.is_closed());
    assert_eq!(s.push(5), Ok(()));
    assert_eq!(s.len(), 1);
    assert!(!s.is_full());
    assert_eq!(s.push(6), Ok(()));
    assert!(s.is_full());
    assert_eq!(s.dropped_count(), 0);
}

#[test]
fn offer_counts_drops() {
    let mut s: Sink<u64> = Sink::new(1);
    assert!(s.offer(1));
    assert!(!s.offer(2));
    assert!(!s.offer(3));
    assert_eq!(s.dropped_count(), 2);
    assert_eq!(s.next(), Some(1));
}

#[test]
fn fanout_two_listeners() {
    // Scenario: two listeners on one source; one emit reaches both, and
    // draining one listener's inbox does not consume the other's copy.
    let mut src: Source<u64> = Source::new();
    let h1 = src.add_listener(Sink::new(4));
    let h2 = src.add_listener(Sink::new(4));
    src.emit(&42);
    assert_eq!(src.pending_of(h1), 1);
    assert_eq!(src.pending_of(h2), 1);
    assert_eq!(src.next_from(h1), Some(42));
    assert_eq!(src.next_from(h1), None);
    // The second listener still holds its own copy.
    assert_eq!(src.pending_of(h2), 1);
    assert_eq!(src.next_from(h2), Some(42));
    assert_eq!(src.next_from(h2), None);
}

#[test]
fn fanout_many_listeners_exactly_once() {
    let mut src: Source<String> = Source::new();
    let handles: Vec<_> = (0..5).map(|_| src.add_listener(Sink::new(2))).collect();
    src.emit(&String::from("tick"));
    for h in handles {
        assert_eq!(src.next_from(h), Some(String::from("tick")));
        assert_eq!(src.next_from(h), None);
    }
}

#[test]
fn backpressure_isolated_per_subscriber() {
    // A full (slow) subscriber loses the value; the fast one still gets it.
    let mut src: Source<u64> = Source::new();
    let fast = src.add_listener(Sink::new(4));
    let slow = src.add_listener(Sink::new(1));
    src.emit(&1);
    src.emit(&2);
    src.emit(&3);
    assert_eq!(src.pending_of(fast), 3);
    assert_eq!(src.pending_of(slow), 1);
    assert_eq!(src.dropped_of(slow), 2);
    assert_eq!(src.dropped_of(fast), 0);
    assert_eq!(src.next_from(fast), Some(1));
    assert_eq!(src.next_from(fast), Some(2));
    assert_eq!(src.next_from(fast), Some(3));
    assert_eq!(src.next_from(slow), Some(1));
    assert_eq!(src.next_from(slow), None);
}

#[test]
fn subscribe_returns_ordered_handles() {
    let mut src: Source<u64> = Source::new();
    let h1 = src.subscribe(Sink::new(1));
    let h2 = src.subscribe(Sink::new(1));
    assert_eq!(h1.index, 0);
    assert_eq!(h2.index, 1);
    assert_eq!(src.listener_count(), 2);
}
