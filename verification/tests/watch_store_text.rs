use limero::bridge::{PublishMsg, RedisEvent};
use limero::file_change::{FileChange, FileChangeEvent};
use limero::sink::Sink;
use limero::store::{order_list, EntryList, OrderSort};
use limero::textutil::{split_underscore, str_eq, str_le};
use limero::Message;

#[test]
fn file_change_debounces_bursts() {
    let mut fc = FileChange::new(String::from("config.xml"));
    let h = fc.add_listener(Sink::new(8));
    assert_eq!(fc.file_name(), "config.xml");
    // First notification, long after the epoch reference: announced.
    assert!(fc.on_raw_change(2000));
    // A burst 300 ms later is folded away.
    assert!(!fc.on_raw_change(2300));
    // And the burst keeps pushing the reference forward.
    assert!(!fc.on_raw_change(2600));
    // Quiet for a second: announced again.
    assert!(fc.on_raw_change(3600));
    assert_eq!(
        fc.next_event(h),
        Some(FileChangeEvent::FileChange(String::from("config.xml")))
    );
    assert_eq!(
        fc.next_event(h),
        Some(FileChangeEvent::FileChange(String::from("config.xml")))
    );
    assert_eq!(fc.next_event(h), None);
}

#[test]
fn file_change_keepalive_timer_registers() {
    let mut fc = FileChange::new(String::from("dash.xml"));
    let id = fc.new_timer(true, 10000, 0);
    assert_eq!(id, 0);
}

#[test]
fn entry_list_upserts_by_topic() {
    let mut l = EntryList::new();
    l.add(String::from("cpu"), String::from("10"), 100);
    l.add(String::from("mem"), String::from("512"), 110);
    l.add(String::from("cpu"), String::from("20"), 120);
    assert_eq!(l.len(), 2);
    let cpu = l.get("cpu").unwrap();
    assert_eq!(cpu.value, "20");
    assert_eq!(cpu.time, 120);
    assert_eq!(cpu.count, 2);
    let mem = l.get("mem").unwrap();
    assert_eq!(mem.value, "512");
    assert_eq!(mem.count, 1);
    assert!(l.get("disk").is_none());
}

#[test]
fn entry_keeps_first_seen_order() {
    let mut l = EntryList::new();
    l.add(String::from("b"), String::from("1"), 0);
    l.add(String::from("a"), String::from("2"), 1);
    l.add(String::from("b"), String::from("3"), 2);
    assert_eq!(l.entries[0].topic, "b");
    assert_eq!(l.entries[1].topic, "a");
}

#[test]
fn split_underscore_two_parts() {
    let (a, b) = split_underscore(&String::from("gauge_speed"));
    assert_eq!(a, Some(String::from("gauge")));
    assert_eq!(b, Some(String::from("speed")));
}

#[test]
fn split_underscore_three_parts_keeps_first_two() {
    let (a, b) = split_underscore(&String::from("a_b_c"));
    assert_eq!(a, Some(String::from("a")));
    assert_eq!(b, Some(String::from("b")));
}

#[test]
fn split_underscore_no_separator() {
    let (a, b) = split_underscore(&String::from("label"));
    assert_eq!(a, Some(String::from("label")));
    assert_eq!(b, None);
}

#[test]
fn split_underscore_edge_shapes() {
    let (a, b) = split_underscore(&String::from(""));
    assert_eq!(a, Some(String::from("")));
    assert_eq!(b, None);
    let (a, b) = split_underscore(&String::from("_x"));
    assert_eq!(a, Some(String::from("")));
    assert_eq!(b, Some(String::from("x")));
    let (a, b) = split_underscore(&String::from("a__b"));
    assert_eq!(a, Some(String::from("a")));
    assert_eq!(b, Some(String::from("")));
    let (a, b) = split_underscore(&String::from("a_"));
    assert_eq!(a, Some(String::from("a")));
    assert_eq!(b, Some(String::from("")));
}

#[test]
fn order_list_sorts_by_each_key() {
    let mut l = EntryList::new();
    l.add(String::from("b"), String::from("2"), 30);
    l.add(String::from("a"), String::from("3"), 20);
    l.add(String::from("c"), String::from("1"), 10);
    l.add(String::from("a"), String::from("3"), 40);
    order_list(&mut l, OrderSort::Topic);
    let topics: Vec<&str> = l.entries.iter().map(|e| e.topic.as_str()).collect();
    assert_eq!(topics, vec!["a", "b", "c"]);
    order_list(&mut l, OrderSort::Value);
    let values: Vec<&str> = l.entries.iter().map(|e| e.value.as_str()).collect();
    assert_eq!(values, vec!["1", "2", "3"]);
    order_list(&mut l, OrderSort::Time);
    let times: Vec<u64> = l.entries.iter().map(|e| e.time).collect();
    assert_eq!(times, vec![10, 30, 40]);
    order_list(&mut l, OrderSort::Count);
    let counts: Vec<i32> = l.entries.iter().map(|e| e.count).collect();
    assert_eq!(counts, vec![1, 1, 2]);
}

#[test]
fn str_le_is_lexicographic() {
    assert!(str_le("abc", "abd"));
    assert!(!str_le("abd", "abc"));
    assert!(str_le("ab", "abc"));
    assert!(!str_le("abc", "ab"));
    assert!(str_le("", "a"));
    assert!(str_le("same", "same"));
}

#[test]
fn str_eq_compares_contents() {
    assert!(str_eq("topic/a", "topic/a"));
    assert!(!str_eq("topic/a", "topic/b"));
    assert!(!str_eq("topic", "topic/a"));
    assert!(str_eq("", ""));
}

#[test]
fn publish_msg_carries_its_parts() {
    let m = PublishMsg::new(String::from("cpu"), String::from("42"));
    assert_eq!(m.get_topic(), "cpu");
    assert_eq!(m.get_payload(), "42");
}

#[test]
fn redis_event_duplicates_exactly() {
    let e = RedisEvent::Publish(String::from("t"), String::from("p"));
    assert_eq!(e.dup(), e);
    let c = RedisEvent::Connected();
    assert_eq!(c.dup(), c);
}
