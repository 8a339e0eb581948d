use limero::actor::{Actor, PubSubCmd, PubSubEvent, DEFAULT_POLL_INTERVAL};
use limero::sink::{Sink, SinkError};

#[test]
fn subscribe_then_publish_reaches_listener() {
    // Scenario: a listener registered before the commands receives exactly
    // one publish event for a subscribed topic.
    let mut a = Actor::new(16);
    let h = a.add_listener(Sink::new(16));
    a.send(PubSubCmd::Subscribe { pattern: String::from("topic/a") }).unwrap();
    a.send(PubSubCmd::Publish {
        topic: String::from("topic/a"),
        payload: String::from("hello"),
    })
    .unwrap();
    a.step(0);
    a.step(0);
    assert_eq!(
        a.next_event(h),
        Some(PubSubEvent::Publish {
            topic: String::from("topic/a"),
            payload: String::from("hello"),
        })
    );
    assert_eq!(a.next_event(h), None);
}

#[test]
fn publish_without_subscription_is_dropped() {
    let mut a = Actor::new(16);
    let h = a.add_listener(Sink::new(16));
    a.send(PubSubCmd::Publish {
        topic: String::from("topic/a"),
        payload: String::from("hello"),
    })
    .unwrap();
    a.step(0);
    assert_eq!(a.next_event(h), None);
}

#[test]
fn unsubscribe_stops_delivery() {
    let mut a = Actor::new(16);
    let h = a.add_listener(Sink::new(16));
    a.handle_cmd(PubSubCmd::Subscribe { pattern: String::from("t") });
    a.handle_cmd(PubSubCmd::Unsubscribe { pattern: String::from("t") });
    a.handle_cmd(PubSubCmd::Publish {
        topic: String::from("t"),
        payload: String::from("x"),
    });
    assert_eq!(a.next_event(h), None);
    assert_eq!(a.subscription_count(), 0);
}

#[test]
fn unsubscribe_unknown_is_noop() {
    let mut a = Actor::new(16);
    a.handle_cmd(PubSubCmd::Subscribe { pattern: String::from("t") });
    a.handle_cmd(PubSubCmd::Unsubscribe { pattern: String::from("never-seen") });
    assert_eq!(a.subscription_count(), 1);
    assert!(a.is_running());
}

#[test]
fn subscribe_twice_registers_once() {
    let mut a = Actor::new(16);
    a.handle_cmd(PubSubCmd::Subscribe { pattern: String::from("t") });
    a.handle_cmd(PubSubCmd::Subscribe { pattern: String::from("t") });
    assert_eq!(a.subscription_count(), 1);
}

#[test]
fn match_all_pattern_delivers_everything() {
    let mut a = Actor::new(16);
    let h = a.add_listener(Sink::new(16));
    a.handle_cmd(PubSubCmd::Subscribe { pattern: String::from("*") });
    a.handle_cmd(PubSubCmd::Publish {
        topic: String::from("some/where"),
        payload: String::from("1"),
    });
    a.handle_cmd(PubSubCmd::Publish {
        topic: String::from("else/where"),
        payload: String::from("2"),
    });
    assert!(matches!(a.next_event(h), Some(PubSubEvent::Publish { .. })));
    assert!(matches!(a.next_event(h), Some(PubSubEvent::Publish { .. })));
    assert_eq!(a.next_event(h), None);
}

#[test]
fn connect_and_disconnect_are_announced() {
    let mut a = Actor::new(16);
    let h = a.add_listener(Sink::new(16));
    a.handle_cmd(PubSubCmd::Connect);
    a.handle_cmd(PubSubCmd::Disconnect);
    assert_eq!(a.next_event(h), Some(PubSubEvent::Connected));
    assert_eq!(a.next_event(h), Some(PubSubEvent::Disconnected));
}

#[test]
fn terminate_closes_the_inbox() {
    let mut a = Actor::new(16);
    assert!(a.is_running());
    a.send(PubSubCmd::Terminate).unwrap();
    a.step(0);
    assert!(!a.is_running());
    // Producers can tell a terminated actor from a full inbox.
    assert_eq!(
        a.send(PubSubCmd::Connect),
        Err(SinkError::Closed)
    );
}

#[test]
fn terminate_is_ordered_with_commands() {
    // A command sent before the terminate is still handled first.
    let mut a = Actor::new(16);
    let h = a.add_listener(Sink::new(16));
    a.send(PubSubCmd::Connect).unwrap();
    a.send(PubSubCmd::Terminate).unwrap();
    a.step(0);
    assert!(a.is_running());
    a.step(0);
    assert!(!a.is_running());
    assert_eq!(a.next_event(h), Some(PubSubEvent::Connected));
}

#[test]
fn inbox_bound_rejects_overflow() {
    let mut a = Actor::new(1);
    assert_eq!(a.send(PubSubCmd::Connect), Ok(()));
    assert_eq!(a.send(PubSubCmd::Disconnect), Err(SinkError::Full));
}

#[test]
fn two_listeners_both_receive_actor_events() {
    let mut a = Actor::new(16);
    let h1 = a.add_listener(Sink::new(16));
    let h2 = a.add_listener(Sink::new(16));
    a.handle_cmd(PubSubCmd::Connect);
    assert_eq!(a.next_event(h1), Some(PubSubEvent::Connected));
    assert_eq!(a.next_event(h2), Some(PubSubEvent::Connected));
}

#[test]
fn step_with_empty_inbox_fires_timers() {
    let mut a = Actor::new(16);
    let id = a.new_timer(false, 50, 0);
    a.on_expire(id, 3);
    assert_eq!(a.next_deadline(0), 50);
    let fired = a.step(60);
    assert_eq!(fired, vec![3]);
    assert_eq!(a.next_deadline(60), DEFAULT_POLL_INTERVAL);
}

#[test]
fn default_poll_interval_without_timers() {
    let a = Actor::new(16);
    assert_eq!(a.next_deadline(0), DEFAULT_POLL_INTERVAL);
}

#[test]
fn stop_timer_cancels() {
    let mut a = Actor::new(16);
    let id = a.new_timer(true, 10, 0);
    a.on_expire(id, 4);
    a.stop_timer(id);
    let fired = a.step(100);
    assert_eq!(fired, Vec::<u64>::new());
    assert_eq!(a.next_deadline(100), DEFAULT_POLL_INTERVAL);
}
