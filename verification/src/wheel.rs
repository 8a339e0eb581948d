//! The per-actor collection of timers plus deadline computation.
//!
//! A `TimerWheel` owns its timers outright; the owning run-loop asks it for
//! the next wake deadline, sleeps that long, then lets it fire everything
//! that has expired. Timers are addressed by the index handle returned from
//! [`TimerWheel::new_timer`].
use vstd::prelude::*;

use crate::timer::{Timer, TimerModel};

verus! {

/// Commands a run-loop thread understands: recompute deadlines, shut down,
/// or run the callback with the given identifier on the loop's own context.
pub enum ThreadCommand {
    WakeUp,
    Terminate,
    Execute(u64),
}

/// A timer is due when it is active and its deadline has passed.
pub open spec fn due(m: TimerModel, now: u64) -> bool {
    m.active && now >= m.expires_at
}

/// The callback identifiers of the timers that fire at time `now`, in timer
/// order, skipping timers with no callback attached.
pub open spec fn fired_ids(s: Seq<TimerModel>, now: u64) -> Seq<u64>
    decreases s.len(),
{
    if s.len() == 0 {
        Seq::empty()
    } else {
        let rest = fired_ids(s.drop_last(), now);
        if due(s.last(), now) {
            match s.last().callback {
                Some(id) => rest.push(id),
                None => rest,
            }
        } else {
            rest
        }
    }
}

/// Every timer's state after all due timers fire at `now`: due timers
/// advance or go inert, the rest are untouched.
pub open spec fn fire_model(s: Seq<TimerModel>, now: u64) -> Seq<TimerModel> {
    Seq::new(
        s.len(),
        |i: int|
            if due(s[i], now) {
                s[i].fired()
            } else {
                s[i]
            },
    )
}

/// What a correct answer of [`TimerWheel::next_timer_expiration`] looks
/// like: `None` exactly when no timer is active, otherwise the least time
/// until an active timer's deadline (zero for an already-expired one).
pub open spec fn is_next_deadline(s: Seq<TimerModel>, now: u64, r: Option<u64>) -> bool {
    match r {
        None => forall|i: int| 0 <= i < s.len() ==> !s[i].active,
        Some(d) => {
            &&& exists|i: int|
                0 <= i < s.len() && s[i].active && #[trigger] s[i].delta_spec(now) == d
            &&& forall|i: int|
                0 <= i < s.len() && s[i].active ==> #[trigger] s[i].delta_spec(now) >= d
        },
    }
}

/// A collection of [`Timer`]s with deadline computation over them.
pub struct TimerWheel {
    timers: Vec<Timer>,
}

impl View for TimerWheel {
    type V = Seq<TimerModel>;

    closed spec fn view(&self) -> Seq<TimerModel> {
        Seq::new(self.timers@.len(), |i: int| self.timers@[i]@)
    }
}

impl TimerWheel {
    /// An empty wheel.
    pub fn new() -> (w: TimerWheel)
        ensures
            w@ == Seq::<TimerModel>::empty(),
    {
        let w = TimerWheel { timers: Vec::new() };
        proof {
            assert(w@ =~= Seq::<TimerModel>::empty());
        }
        w
    }

    /// How many timers the wheel holds, active or not.
    pub fn timer_count(&self) -> (n: usize)
        ensures
            n == self@.len(),
    {
        self.timers.len()
    }

    /// Registers a new timer whose first expiry is `now + interval` and
    /// returns its handle; always succeeds.
    pub fn new_timer(&mut self, repeat: bool, interval: u64, now: u64) -> (id: usize)
        ensures
            id == old(self)@.len(),
            final(self)@ == old(self)@.push(TimerModel::fresh(repeat, interval, now)),
    {
        let id = self.timers.len();
        self.timers.push(Timer::new(repeat, interval, now));
        proof {
            assert(final(self)@ =~= old(self)@.push(TimerModel::fresh(repeat, interval, now)));
        }
        id
    }

    /// Attaches a callback identifier to the timer with handle `id`; a
    /// handle that names no timer is a no-op.
    pub fn on_expire(&mut self, id: usize, callback_id: u64)
        ensures
            id < old(self)@.len() ==> final(self)@ == old(self)@.update(
                id as int,
                (TimerModel { callback: Some(callback_id), ..old(self)@[id as int] }),
            ),
            id >= old(self)@.len() ==> final(self)@ == old(self)@,
    {
        if id < self.timers.len() {
            self.timers[id].on_expire(callback_id);
            proof {
                assert(final(self)@ =~= old(self)@.update(
                    id as int,
                    (TimerModel { callback: Some(callback_id), ..old(self)@[id as int] }),
                ));
            }
        }
    }

    /// Cancels the timer with handle `id` for good; a handle that names no
    /// timer, or an already-stopped timer, is a no-op, not an error.
    pub fn stop_timer(&mut self, id: usize)
        ensures
            id < old(self)@.len() ==> final(self)@ == old(self)@.update(
                id as int,
                old(self)@[id as int].stopped(),
            ),
            id >= old(self)@.len() ==> final(self)@ == old(self)@,
    {
        if id < self.timers.len() {
            self.timers[id].stop();
            proof {
                assert(final(self)@ =~= old(self)@.update(
                    id as int,
                    old(self)@[id as int].stopped(),
                ));
            }
        }
    }

    /// Whether the timer with handle `id` is still active.
    pub fn is_active(&self, id: usize) -> (b: bool)
        requires
            id < self@.len(),
        ensures
            b == self@[id as int].active,
    {
        self.timers[id].is_active()
    }

    /// The time to wait until the next deadline among active timers, or
    /// `None` when no active timer exists. An already-expired active timer
    /// yields zero: the caller should not sleep at all.
    pub fn next_timer_expiration(&self, now: u64) -> (r: Option<u64>)
        ensures
            is_next_deadline(self@, now, r),
    {
        let mut min: Option<u64> = None;
        let mut idx: usize = 0;
        let n = self.timers.len();
        while idx < n
            invariant
                n == self@.len(),
                n == self.timers@.len(),
                idx <= n,
                forall|i: int| 0 <= i < self@.len() ==> self@[i] == self.timers@[i]@,
                match min {
                    None => forall|i: int| 0 <= i < idx ==> !self@[i].active,
                    Some(d) => {
                        &&& exists|i: int|
                            0 <= i < idx && self@[i].active && #[trigger] self@[i].delta_spec(now)
                                == d
                        &&& forall|i: int|
                            0 <= i < idx && self@[i].active ==> #[trigger] self@[i].delta_spec(now)
                                >= d
                    },
                },
            decreases n - idx,
        {
            proof {
                assert(self@[idx as int] == self.timers@[idx as int]@);
            }
            let t = &self.timers[idx];
            if t.is_active() {
                let d = t.delta(now);
                min = match min {
                    None => Some(d),
                    Some(m) => if d < m {
                        Some(d)
                    } else {
                        Some(m)
                    },
                };
            } else {
                proof {
                    assert(!self@[idx as int].active);
                }
            }
            idx += 1;
        }
        min
    }

    /// Fires every active timer whose deadline has passed: repeating timers
    /// advance one interval, one-shot timers go inert. Returns the callback
    /// identifiers of the fired timers, in timer order, for the owning
    /// run-loop to dispatch. Timers not yet due are untouched.
    pub fn execute_all_active_and_expired_timers(&mut self, now: u64) -> (fired: Vec<u64>)
        ensures
            final(self)@ == fire_model(old(self)@, now),
            fired@ == fired_ids(old(self)@, now),
    {
        let mut fired: Vec<u64> = Vec::new();
        let mut idx: usize = 0;
        let n = self.timers.len();
        while idx < n
            invariant
                n == old(self)@.len(),
                n == self.timers@.len(),
                self@.len() == n,
                idx <= n,
                forall|i: int| 0 <= i < self@.len() ==> self@[i] == self.timers@[i]@,
                forall|i: int| idx <= i < n ==> self@[i] == old(self)@[i],
                forall|i: int|
                    0 <= i < idx ==> self@[i] == (if due(old(self)@[i], now) {
                        old(self)@[i].fired()
                    } else {
                        old(self)@[i]
                    }),
                fired@ == fired_ids(old(self)@.take(idx as int), now),
            decreases n - idx,
        {
            let ghost pre = self@;
            if self.timers[idx].is_active() && self.timers[idx].expired(now) {
                match self.timers[idx].callback_id() {
                    Some(cb) => fired.push(cb),
                    None => {},
                }
                self.timers[idx].fire();
                proof {
                    assert(self@ =~= pre.update(idx as int, pre[idx as int].fired()));
                }
            }
            proof {
                let s = old(self)@;
                assert(s.take(idx as int + 1).drop_last() =~= s.take(idx as int));
                assert(s.take(idx as int + 1).last() == s[idx as int]);
            }
            idx += 1;
        }
        proof {
            assert(old(self)@.take(n as int) =~= old(self)@);
            assert(final(self)@ =~= fire_model(old(self)@, now));
        }
        fired
    }
}

/// An inactive timer never constrains the wake deadline: any correct answer
/// for a timer set stays correct when an inactive timer is removed.
pub proof fn lemma_inactive_excluded(s: Seq<TimerModel>, now: u64, r: Option<u64>, i: int)
    requires
        0 <= i < s.len(),
        !s[i].active,
        is_next_deadline(s, now, r),
    ensures
        is_next_deadline(s.remove(i), now, r),
{
    let t = s.remove(i);
    assert forall|j: int| 0 <= j < t.len() implies t[j] == (if j < i {
        s[j]
    } else {
        s[j + 1]
    }) by {}
    match r {
        None => {},
        Some(d) => {
            let k = choose|k: int|
                0 <= k < s.len() && s[k].active && #[trigger] s[k].delta_spec(now) == d;
            if k < i {
                assert(t[k].active && t[k].delta_spec(now) == d);
            } else {
                assert(t[k - 1].active && t[k - 1].delta_spec(now) == d);
            }
            assert forall|j: int|
                0 <= j < t.len() && t[j].active implies #[trigger] t[j].delta_spec(now) >= d by {
                if j < i {
                    assert(s[j].delta_spec(now) >= d);
                } else {
                    assert(s[j + 1].delta_spec(now) >= d);
                }
            }
        },
    }
}

} // verus!
