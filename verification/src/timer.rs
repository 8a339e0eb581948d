//! A single countdown/repeat timer primitive.
//!
//! Time is a plain `u64` count of milliseconds supplied by the caller; the
//! clock itself lives outside this library. A timer keeps an absolute expiry
//! deadline, its interval, a repeat flag and an active flag, plus an optional
//! callback identifier that the owning run-loop dispatches when the timer
//! fires. Deadline arithmetic saturates at `u64::MAX`.
use vstd::prelude::*;

verus! {

/// `a + b`, saturating at `u64::MAX`.
pub open spec fn sat_add(a: int, b: int) -> u64 {
    if a + b <= u64::MAX as int {
        (a + b) as u64
    } else {
        u64::MAX
    }
}

/// Executable saturating addition, exact against `sat_add`.
pub fn sat_add_u64(a: u64, b: u64) -> (r: u64)
    ensures
        r == sat_add(a as int, b as int),
{
    if a <= u64::MAX - b {
        a + b
    } else {
        u64::MAX
    }
}

/// The mathematical state of a [`Timer`].
///
/// `base` is the instant deadlines are counted from (creation or the latest
/// restart) and `fires` counts how often the timer has fired since then;
/// both are ghost bookkeeping that pins down the deadline arithmetic.
pub ghost struct TimerModel {
    pub expires_at: u64,
    pub interval: u64,
    pub repeat: bool,
    pub active: bool,
    pub callback: Option<u64>,
    pub base: u64,
    pub fires: nat,
}

impl TimerModel {
    /// Well-formedness: the deadline always equals `base + (fires + 1) *
    /// interval`, saturated; a one-shot timer fires at most once and is
    /// inactive afterwards.
    pub open spec fn wf(self) -> bool {
        &&& (self.repeat ==> self.expires_at == sat_add(
            self.base as int,
            (self.fires + 1) * self.interval as int,
        ))
        &&& (!self.repeat ==> self.expires_at == sat_add(self.base as int, self.interval as int))
        &&& (!self.repeat ==> self.fires <= 1)
        &&& (!self.repeat && self.active ==> self.fires == 0)
    }

    /// The state after the timer fires once: a repeating timer advances its
    /// deadline by one interval, a one-shot timer becomes inert.
    pub open spec fn fired(self) -> TimerModel {
        if self.repeat {
            TimerModel {
                expires_at: sat_add(self.expires_at as int, self.interval as int),
                fires: self.fires + 1,
                ..self
            }
        } else {
            TimerModel { active: false, fires: 1, ..self }
        }
    }

    /// The state after `stop`: only the active flag changes.
    pub open spec fn stopped(self) -> TimerModel {
        TimerModel { active: false, ..self }
    }

    /// The state after `start(now)`: deadlines restart counting from `now`.
    pub open spec fn started(self, now: u64) -> TimerModel {
        TimerModel {
            expires_at: sat_add(now as int, self.interval as int),
            base: now,
            fires: 0,
            ..self
        }
    }

    /// Time remaining until the deadline, zero once it has passed.
    pub open spec fn delta_spec(self, now: u64) -> u64 {
        if now >= self.expires_at {
            0
        } else {
            (self.expires_at - now) as u64
        }
    }

    /// A fresh timer as [`Timer::new`] builds it.
    pub open spec fn fresh(repeat: bool, interval: u64, now: u64) -> TimerModel {
        TimerModel {
            expires_at: sat_add(now as int, interval as int),
            interval,
            repeat,
            active: true,
            callback: None,
            base: now,
            fires: 0,
        }
    }
}

/// Firing preserves well-formedness.
pub proof fn lemma_fired_wf(m: TimerModel)
    requires
        m.wf(),
    ensures
        m.fired().wf(),
{
    if m.repeat {
        let b = m.base as int;
        let i = m.interval as int;
        let f = m.fires as int;
        assert((f + 2) * i == (f + 1) * i + i) by (nonlinear_arith);
        assert((f + 1) * i >= 0) by (nonlinear_arith)
            requires
                i >= 0,
                f >= 0,
        ;
        assert(i == 0 ==> (f + 1) * i == 0) by (nonlinear_arith);
        if b + (f + 1) * i > u64::MAX as int {
            assert(i > 0);
        }
    }
}

/// A countdown timer: fires when the supplied time reaches its deadline,
/// then either restarts (repeating) or goes inert (one-shot).
pub struct Timer {
    expires_at: u64,
    interval: u64,
    repeat: bool,
    active: bool,
    callback: Option<u64>,
    base: Ghost<u64>,
    fires: Ghost<nat>,
}

impl View for Timer {
    type V = TimerModel;

    closed spec fn view(&self) -> TimerModel {
        TimerModel {
            expires_at: self.expires_at,
            interval: self.interval,
            repeat: self.repeat,
            active: self.active,
            callback: self.callback,
            base: self.base@,
            fires: self.fires@,
        }
    }
}

impl Timer {
    #[verifier::type_invariant]
    spec fn type_inv(self) -> bool {
        self@.wf()
    }

    /// A new timer whose first expiry is `now + interval`; always succeeds.
    pub fn new(repeat: bool, interval: u64, now: u64) -> (t: Timer)
        ensures
            t@ == TimerModel::fresh(repeat, interval, now),
            t@.wf(),
    {
        proof {
            assert(1 * interval as int == interval as int);
        }
        Timer {
            expires_at: sat_add_u64(now, interval),
            interval,
            repeat,
            active: true,
            callback: None,
            base: Ghost(now),
            fires: Ghost(0nat),
        }
    }

    /// Attaches the identifier of a zero-argument callback; the owning
    /// run-loop invokes it whenever this timer fires.
    pub fn on_expire(&mut self, callback_id: u64)
        ensures
            final(self)@ == (TimerModel { callback: Some(callback_id), ..old(self)@ }),
    {
        proof {
            use_type_invariant(&*self);
        }
        self.callback = Some(callback_id);
    }

    /// Restarts the countdown from `now`.
    pub fn start(&mut self, now: u64)
        ensures
            final(self)@ == old(self)@.started(now),
    {
        proof {
            use_type_invariant(&*self);
            assert(1 * self.interval as int == self.interval as int);
        }
        *self = Timer {
            expires_at: sat_add_u64(now, self.interval),
            interval: self.interval,
            repeat: self.repeat,
            active: self.active,
            callback: self.callback,
            base: Ghost(now),
            fires: Ghost(0nat),
        };
    }

    /// Advances the deadline by one interval after a fire of a repeating
    /// timer, or stops a one-shot timer for good.
    pub(crate) fn fire(&mut self)
        ensures
            final(self)@ == old(self)@.fired(),
    {
        proof {
            use_type_invariant(&*self);
            lemma_fired_wf(self@);
        }
        if self.repeat {
            *self = Timer {
                expires_at: sat_add_u64(self.expires_at, self.interval),
                interval: self.interval,
                repeat: self.repeat,
                active: self.active,
                callback: self.callback,
                base: self.base,
                fires: Ghost(self.fires@ + 1),
            };
        } else {
            *self = Timer {
                expires_at: self.expires_at,
                interval: self.interval,
                repeat: self.repeat,
                active: false,
                callback: self.callback,
                base: self.base,
                fires: Ghost(1nat),
            };
        }
    }

    /// Deactivates the timer; stopping an already-stopped timer is a no-op,
    /// not an error.
    pub fn stop(&mut self)
        ensures
            final(self)@ == old(self)@.stopped(),
    {
        proof {
            use_type_invariant(&*self);
        }
        self.active = false;
    }

    /// Whether the deadline has passed at time `now`.
    pub fn expired(&self, now: u64) -> (r: bool)
        ensures
            r == (now >= self@.expires_at),
    {
        now >= self.expires_at
    }

    /// Time remaining until the deadline, zero once it has passed.
    pub fn delta(&self, now: u64) -> (d: u64)
        ensures
            d == self@.delta_spec(now),
    {
        if now >= self.expires_at {
            0
        } else {
            self.expires_at - now
        }
    }

    /// Whether the timer still takes part in deadline computation.
    pub fn is_active(&self) -> (b: bool)
        ensures
            b == self@.active,
    {
        self.active
    }

    /// Whether the timer restarts after each fire.
    pub fn is_repeat(&self) -> (b: bool)
        ensures
            b == self@.repeat,
    {
        self.repeat
    }

    /// The countdown length between one reference instant and the deadline.
    pub fn interval(&self) -> (i: u64)
        ensures
            i == self@.interval,
    {
        self.interval
    }

    /// The absolute deadline.
    pub fn expires_at(&self) -> (e: u64)
        ensures
            e == self@.expires_at,
    {
        self.expires_at
    }

    /// The attached callback identifier, if any.
    pub fn callback_id(&self) -> (r: Option<u64>)
        ensures
            r == self@.callback,
    {
        self.callback
    }
}

/// Timer monotonicity: a repeating timer created (or restarted) at `base`
/// that has fired `fires` times holds its next deadline exactly at
/// `base + (fires + 1) * interval`, as long as that sum does not overflow —
/// so the n-th fire of the timer occurs at `base + n * interval`.
pub proof fn lemma_nth_deadline(m: TimerModel)
    requires
        m.wf(),
        m.repeat,
        m.base + (m.fires + 1) * m.interval <= u64::MAX,
    ensures
        m.expires_at == m.base + (m.fires + 1) * m.interval,
{
}

/// Floor semantics of the fire count: the deadlines of a repeating timer
/// with interval `d` lie `n * d` past its base, so the deadlines that fall
/// within a duration `dur` are exactly those with `n <= dur / d` — the fire
/// count over `dur` is `dur / d` rounded down, not up.
pub proof fn lemma_fire_count_floor(d: int, dur: int, n: int)
    requires
        d >= 1,
        dur >= 0,
        n >= 0,
    ensures
        (n * d <= dur) <==> (n <= dur / d),
{
    if n * d <= dur {
        vstd::arithmetic::div_mod::lemma_div_is_ordered(n * d, dur, d);
        vstd::arithmetic::div_mod::lemma_div_multiples_vanish(n, d);
        assert(d * n == n * d) by (nonlinear_arith);
    }
    if n <= dur / d {
        vstd::arithmetic::mul::lemma_mul_inequality(n, dur / d, d);
        vstd::arithmetic::div_mod::lemma_fundamental_div_mod(dur, d);
        vstd::arithmetic::div_mod::lemma_mod_bound(dur, d);
        assert((dur / d) * d == d * (dur / d)) by (nonlinear_arith);
    }
}

/// Stopping is idempotent: stopping an already-stopped timer changes
/// nothing.
pub proof fn lemma_stop_idempotent(m: TimerModel)
    ensures
        m.stopped().stopped() == m.stopped(),
{
}

/// A fired one-shot timer is inert: it is inactive, so it never fires again
/// and [`crate::wheel::TimerWheel::next_timer_expiration`] ignores it.
pub proof fn lemma_one_shot_terminal(m: TimerModel)
    requires
        !m.repeat,
    ensures
        !m.fired().active,
        m.fired().fires == 1,
        m.fired().fired() == m.fired(),
{
}

} // verus!
