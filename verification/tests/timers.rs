use limero::timer::Timer;
use limero::wheel::TimerWheel;

#[test]
fn one_shot_fires_exactly_once() {
    // Scenario: a one-shot 50 ms timer, observed 60 ms later, fires its
    // callback exactly once and is inert afterwards.
    let mut w = TimerWheel::new();
    let id = w.new_timer(false, 50, 0);
    w.on_expire(id, 7);
    assert_eq!(w.next_timer_expiration(0), Some(50));
    let fired = w.execute_all_active_and_expired_timers(60);
    assert_eq!(fired, vec![7]);
    assert!(!w.is_active(id));
    // Inert: never fires again, never constrains the deadline.
    let fired_again = w.execute_all_active_and_expired_timers(120);
    assert_eq!(fired_again, Vec::<u64>::new());
    assert_eq!(w.next_timer_expiration(120), None);
}

#[test]
fn repeating_fire_count_is_floor() {
    // Scenario: a repeating 10 ms timer polled at each deadline for 105 ms
    // fires 10 times, not 11.
    let mut w = TimerWheel::new();
    let id = w.new_timer(true, 10, 0);
    w.on_expire(id, 1);
    let mut fired: usize = 0;
    let mut now: u64 = 0;
    loop {
        match w.next_timer_expiration(now) {
            Some(d) => {
                if now + d > 105 {
                    break;
                }
                now += d;
                fired += w.execute_all_active_and_expired_timers(now).len();
            }
            None => break,
        }
    }
    assert_eq!(fired, 10);
    assert_eq!(now, 100);
}

#[test]
fn repeating_deadline_advances_by_interval() {
    let mut w = TimerWheel::new();
    w.new_timer(true, 10, 0);
    w.execute_all_active_and_expired_timers(13);
    // The deadline advances from the previous deadline, not from the fire
    // time: next expiry is 20, i.e. 7 ms after 13.
    assert_eq!(w.next_timer_expiration(13), Some(7));
}

#[test]
fn stop_is_idempotent() {
    let mut t = Timer::new(true, 30, 0);
    t.stop();
    assert!(!t.is_active());
    // Stopping an already-stopped timer is a no-op, not an error.
    t.stop();
    assert!(!t.is_active());
    let mut w = TimerWheel::new();
    let id = w.new_timer(false, 30, 0);
    w.stop_timer(id);
    w.stop_timer(id);
    assert!(!w.is_active(id));
    // An unknown handle is also a no-op.
    w.stop_timer(99);
    assert_eq!(w.timer_count(), 1);
}

#[test]
fn timer_expiry_and_delta() {
    let t = Timer::new(false, 40, 100);
    assert_eq!(t.expires_at(), 140);
    assert!(!t.expired(100));
    assert_eq!(t.delta(100), 40);
    assert_eq!(t.delta(130), 10);
    assert!(t.expired(140));
    assert_eq!(t.delta(150), 0);
    assert_eq!(t.interval(), 40);
    assert!(t.is_active());
    assert!(!t.is_repeat());
    assert_eq!(t.callback_id(), None);
}

#[test]
fn timer_start_restarts_countdown() {
    let mut t = Timer::new(false, 40, 0);
    assert_eq!(t.expires_at(), 40);
    t.start(100);
    assert_eq!(t.expires_at(), 140);
}

#[test]
fn next_deadline_is_minimum() {
    let mut w = TimerWheel::new();
    w.new_timer(true, 80, 0);
    let near = w.new_timer(true, 30, 0);
    w.new_timer(false, 50, 0);
    assert_eq!(w.next_timer_expiration(0), Some(30));
    assert_eq!(w.next_timer_expiration(10), Some(20));
    w.stop_timer(near);
    assert_eq!(w.next_timer_expiration(10), Some(40));
}

#[test]
fn expired_timer_means_no_wait() {
    let mut w = TimerWheel::new();
    w.new_timer(false, 10, 0);
    // Past the deadline the wait is zero, not negative and not absent.
    assert_eq!(w.next_timer_expiration(25), Some(0));
}

#[test]
fn timers_without_callback_fire_silently() {
    let mut w = TimerWheel::new();
    let a = w.new_timer(false, 10, 0);
    let b = w.new_timer(false, 10, 0);
    w.on_expire(b, 9);
    let fired = w.execute_all_active_and_expired_timers(10);
    assert_eq!(fired, vec![9]);
    assert!(!w.is_active(a));
    assert!(!w.is_active(b));
}
