//! The reactive unit of execution: one command inbox, one event outbox, a
//! timer wheel, a set of topic subscriptions and a running/terminated flag.
//!
//! The owning run-loop is the sole mutator. One loop iteration asks for the
//! next wake deadline, waits at most that long for a command, then calls
//! [`Actor::step`]: a pending command is dispatched (possibly emitting
//! events to every listener), otherwise all expired timers fire and their
//! callback identifiers come back for the loop to dispatch. Termination is
//! itself a command, so it is ordered with the rest of the inbox. Command
//! handling is total — it is proved never to panic — so the loop needs no
//! supervisory catch boundary around it.
use vstd::prelude::*;
use vstd::string::StringExecFns;

use crate::sink::{Sink, SinkError, SinkModel};
use crate::source::{emit_model, SinkRef, Source};
use crate::timer::TimerModel;
use crate::wheel::{due, fire_model, fired_ids, is_next_deadline, TimerWheel};
use crate::Message;

verus! {

/// How long the run-loop waits for a command when no timer is active, in
/// milliseconds.
pub const DEFAULT_POLL_INTERVAL: u64 = 1000;

/// Inbound commands an actor consumes.
#[derive(Debug, Clone, PartialEq, Eq)]
pub enum PubSubCmd {
    Subscribe { pattern: String },
    Unsubscribe { pattern: String },
    Publish { topic: String, payload: String },
    Connect,
    Disconnect,
    Terminate,
}

/// Outbound events an actor produces for its listeners.
#[derive(Debug, Clone, PartialEq, Eq)]
pub enum PubSubEvent {
    Publish { topic: String, payload: String },
    Connected,
    Disconnected,
}

impl Message for PubSubEvent {
    fn dup(&self) -> (r: Self)
        ensures
            r == *self,
    {
        match self {
            PubSubEvent::Publish { topic, payload } => PubSubEvent::Publish {
                topic: topic.clone(),
                payload: payload.clone(),
            },
            PubSubEvent::Connected => PubSubEvent::Connected,
            PubSubEvent::Disconnected => PubSubEvent::Disconnected,
        }
    }
}

/// An actor is running until an explicit terminate command stops it; there
/// is no paused state.
#[derive(Clone, Copy, Debug, PartialEq, Eq, Structural)]
pub enum ActorState {
    Running,
    Terminated,
}

/// A subscription pattern matches a topic when it names it exactly or is
/// one of the match-all patterns the broker dialects use.
pub open spec fn pattern_matches(p: Seq<char>, t: Seq<char>) -> bool {
    p == t || p == "*"@ || p == "**"@ || p == "#"@
}

/// Whether some registered pattern matches the topic.
pub open spec fn topic_subscribed(subs: Seq<String>, t: Seq<char>) -> bool {
    exists|i: int| 0 <= i < subs.len() && pattern_matches(#[trigger] subs[i]@, t)
}

/// Whether some registered pattern equals `p` verbatim.
pub open spec fn contains_pattern(subs: Seq<String>, p: Seq<char>) -> bool {
    exists|i: int| 0 <= i < subs.len() && #[trigger] subs[i]@ == p
}

/// The index of the first registered pattern equal to `p`, or `-1`.
pub open spec fn first_match(subs: Seq<String>, p: Seq<char>) -> int
    decreases subs.len(),
{
    if subs.len() == 0 {
        -1
    } else if subs[0]@ == p {
        0
    } else {
        let r = first_match(subs.drop_first(), p);
        if r == -1 {
            -1
        } else {
            r + 1
        }
    }
}

/// `first_match` finds the first equal pattern exactly when one exists.
pub proof fn lemma_first_match(subs: Seq<String>, p: Seq<char>)
    ensures
        first_match(subs, p) == -1 <==> !contains_pattern(subs, p),
        first_match(subs, p) != -1 ==> {
            let r = first_match(subs, p);
            &&& 0 <= r < subs.len()
            &&& subs[r]@ == p
            &&& forall|j: int| 0 <= j < r ==> subs[j]@ != p
        },
    decreases subs.len(),
{
    if subs.len() > 0 && subs[0]@ != p {
        lemma_first_match(subs.drop_first(), p);
        assert forall|i: int|
            0 <= i < subs.len() && #[trigger] subs[i]@ == p implies contains_pattern(
            subs.drop_first(),
            p,
        ) by {
            if i > 0 {
                assert(subs.drop_first()[i - 1]@ == p);
            }
        }
        let r = first_match(subs.drop_first(), p);
        if r != -1 {
            assert(subs.drop_first()[r] == subs[r + 1]);
            assert forall|j: int| 0 <= j < r + 1 implies subs[j]@ != p by {
                if j > 0 {
                    assert(subs.drop_first()[j - 1] == subs[j]);
                }
            }
        }
    }
}

/// The mathematical state of an [`Actor`].
pub ghost struct ActorModel {
    pub cmds: SinkModel<PubSubCmd>,
    pub events: Seq<SinkModel<PubSubEvent>>,
    pub timers: Seq<TimerModel>,
    pub subscriptions: Seq<String>,
    pub state: ActorState,
}

/// What dispatching one command does to the actor: registering and removing
/// subscriptions (both no-ops when already in the requested state),
/// publishing to listeners when the topic is subscribed, announcing the
/// connection state, or terminating — which also closes the command inbox
/// so producers see a distinguishable closed result.
pub open spec fn dispatch_model(m: ActorModel, cmd: PubSubCmd) -> ActorModel {
    match cmd {
        PubSubCmd::Subscribe { pattern } => {
            if contains_pattern(m.subscriptions, pattern@) {
                m
            } else {
                ActorModel { subscriptions: m.subscriptions.push(pattern), ..m }
            }
        },
        PubSubCmd::Unsubscribe { pattern } => {
            let r = first_match(m.subscriptions, pattern@);
            if r == -1 {
                m
            } else {
                ActorModel { subscriptions: m.subscriptions.remove(r), ..m }
            }
        },
        PubSubCmd::Publish { topic, payload } => {
            if topic_subscribed(m.subscriptions, topic@) {
                ActorModel {
                    events: emit_model(m.events, PubSubEvent::Publish { topic, payload }),
                    ..m
                }
            } else {
                m
            }
        },
        PubSubCmd::Connect => ActorModel {
            events: emit_model(m.events, PubSubEvent::Connected),
            ..m
        },
        PubSubCmd::Disconnect => ActorModel {
            events: emit_model(m.events, PubSubEvent::Disconnected),
            ..m
        },
        PubSubCmd::Terminate => ActorModel {
            state: ActorState::Terminated,
            cmds: m.cmds.closed_model(),
            ..m
        },
    }
}

/// What one run-loop iteration does at time `now`: the oldest pending
/// command is dispatched, or — with an empty inbox, i.e. the wait timed out
/// — every expired timer fires. The second component is the callback
/// identifiers the loop must dispatch.
pub open spec fn step_model(m: ActorModel, now: u64) -> (ActorModel, Seq<u64>) {
    if m.cmds.queue.len() > 0 {
        let popped = ActorModel { cmds: m.cmds.next_result().1, ..m };
        (dispatch_model(popped, m.cmds.queue[0]), Seq::<u64>::empty())
    } else {
        (ActorModel { timers: fire_model(m.timers, now), ..m }, fired_ids(m.timers, now))
    }
}

/// The composition of a command inbox, an event outbox and a timer wheel,
/// driven by a single-owner run-loop.
pub struct Actor {
    cmds: Sink<PubSubCmd>,
    events: Source<PubSubEvent>,
    wheel: TimerWheel,
    subscriptions: Vec<String>,
    state: ActorState,
}

impl View for Actor {
    type V = ActorModel;

    closed spec fn view(&self) -> ActorModel {
        ActorModel {
            cmds: self.cmds@,
            events: self.events@,
            timers: self.wheel@,
            subscriptions: self.subscriptions@,
            state: self.state,
        }
    }
}

impl Actor {
    /// A fresh running actor whose command inbox holds at most `capacity`
    /// pending commands.
    pub fn new(capacity: usize) -> (a: Actor)
        ensures
            a@ == (ActorModel {
                cmds: SinkModel {
                    queue: Seq::<PubSubCmd>::empty(),
                    capacity: capacity as nat,
                    closed: false,
                    dropped: 0nat,
                },
                events: Seq::<SinkModel<PubSubEvent>>::empty(),
                timers: Seq::<TimerModel>::empty(),
                subscriptions: Seq::<String>::empty(),
                state: ActorState::Running,
            }),
    {
        let a = Actor {
            cmds: Sink::new(capacity),
            events: Source::new(),
            wheel: TimerWheel::new(),
            subscriptions: Vec::new(),
            state: ActorState::Running,
        };
        proof {
            assert(a@.subscriptions =~= Seq::<String>::empty());
        }
        a
    }

    /// Enqueues a command for the run-loop; this is what a producer-side
    /// handle performs. Fails with `Full` when the inbox bound is reached
    /// and with `Closed` once the actor has terminated.
    pub fn send(&mut self, cmd: PubSubCmd) -> (r: Result<(), SinkError>)
        ensures
            r == old(self)@.cmds.push_result(cmd).0,
            final(self)@ == (ActorModel { cmds: old(self)@.cmds.push_result(cmd).1, ..old(self)@ }),
    {
        self.cmds.push(cmd)
    }

    /// Registers a listener inbox for this actor's events and returns the
    /// handle its consumer drains it through.
    pub fn add_listener(&mut self, sink: Sink<PubSubEvent>) -> (r: SinkRef)
        ensures
            r.index == old(self)@.events.len(),
            final(self)@ == (ActorModel { events: old(self)@.events.push(sink@), ..old(self)@ }),
    {
        self.events.add_listener(sink)
    }

    /// Drains the oldest event pending for listener `r`.
    pub fn next_event(&mut self, r: SinkRef) -> (v: Option<PubSubEvent>)
        ensures
            r.index < old(self)@.events.len() ==> v == old(self)@.events[r.index as int].next_result().0
                && final(self)@ == (ActorModel {
                events: old(self)@.events.update(
                    r.index as int,
                    old(self)@.events[r.index as int].next_result().1,
                ),
                ..old(self)@
            }),
            r.index >= old(self)@.events.len() ==> v is None && final(self)@ == old(self)@,
    {
        self.events.next_from(r)
    }

    /// Registers a timer on the actor's wheel; its first expiry is
    /// `now + interval`.
    pub fn new_timer(&mut self, repeat: bool, interval: u64, now: u64) -> (id: usize)
        ensures
            id == old(self)@.timers.len(),
            final(self)@ == (ActorModel {
                timers: old(self)@.timers.push(TimerModel::fresh(repeat, interval, now)),
                ..old(self)@
            }),
    {
        self.wheel.new_timer(repeat, interval, now)
    }

    /// Attaches a callback identifier to timer `id`; [`Actor::step`] hands
    /// the identifier back whenever that timer fires.
    pub fn on_expire(&mut self, id: usize, callback_id: u64)
        ensures
            id < old(self)@.timers.len() ==> final(self)@ == (ActorModel {
                timers: old(self)@.timers.update(
                    id as int,
                    (TimerModel { callback: Some(callback_id), ..old(self)@.timers[id as int] }),
                ),
                ..old(self)@
            }),
            id >= old(self)@.timers.len() ==> final(self)@ == old(self)@,
    {
        self.wheel.on_expire(id, callback_id)
    }

    /// Cancels timer `id`; cancelling an unknown or stopped timer is a
    /// no-op.
    pub fn stop_timer(&mut self, id: usize)
        ensures
            id < old(self)@.timers.len() ==> final(self)@ == (ActorModel {
                timers: old(self)@.timers.update(
                    id as int,
                    old(self)@.timers[id as int].stopped(),
                ),
                ..old(self)@
            }),
            id >= old(self)@.timers.len() ==> final(self)@ == old(self)@,
    {
        self.wheel.stop_timer(id)
    }

    /// How long the run-loop should wait for a command before polling the
    /// timers: the time until the next active deadline, or the default poll
    /// interval when no timer is active.
    pub fn next_deadline(&self, now: u64) -> (d: u64)
        ensures
            is_next_deadline(self@.timers, now, None) ==> d == DEFAULT_POLL_INTERVAL,
            !is_next_deadline(self@.timers, now, None) ==> is_next_deadline(
                self@.timers,
                now,
                Some(d),
            ),
    {
        match self.wheel.next_timer_expiration(now) {
            Some(d) => {
                proof {
                    let s = self@.timers;
                    let i = choose|i: int|
                        0 <= i < s.len() && s[i].active && #[trigger] s[i].delta_spec(now) == d;
                    assert(s[i].active);
                }
                d
            },
            None => DEFAULT_POLL_INTERVAL,
        }
    }

    /// Whether the actor has not yet seen a terminate command.
    pub fn is_running(&self) -> (b: bool)
        ensures
            b == (self@.state == ActorState::Running),
    {
        match self.state {
            ActorState::Running => true,
            ActorState::Terminated => false,
        }
    }

    /// How many subscription patterns are registered.
    pub fn subscription_count(&self) -> (n: usize)
        ensures
            n == self@.subscriptions.len(),
    {
        self.subscriptions.len()
    }

    /// Whether `pattern` matches `topic`: exact equality or a match-all
    /// pattern.
    fn match_pattern(pattern: &String, topic: &String) -> (b: bool)
        ensures
            b == pattern_matches(pattern@, topic@),
    {
        let star = String::from_str("*");
        let dstar = String::from_str("**");
        let hash = String::from_str("#");
        pattern.eq(topic) || pattern.eq(&star) || pattern.eq(&dstar) || pattern.eq(&hash)
    }

    /// The index of the first registered pattern equal to `pattern`.
    fn find_subscription(&self, pattern: &String) -> (r: Option<usize>)
        ensures
            match r {
                Some(i) => i == first_match(self@.subscriptions, pattern@),
                None => !contains_pattern(self@.subscriptions, pattern@),
            },
    {
        proof {
            lemma_first_match(self@.subscriptions, pattern@);
        }
        let n = self.subscriptions.len();
        let mut idx: usize = 0;
        while idx < n
            invariant
                n == self.subscriptions@.len(),
                idx <= n,
                forall|j: int| 0 <= j < idx ==> self.subscriptions@[j]@ != pattern@,
                first_match(self@.subscriptions, pattern@) == -1 || first_match(
                    self@.subscriptions,
                    pattern@,
                ) >= idx,
            decreases n - idx,
        {
            proof {
                lemma_first_match(self@.subscriptions, pattern@);
            }
            if self.subscriptions[idx].eq(pattern) {
                proof {
                    assert(contains_pattern(self@.subscriptions, pattern@));
                }
                return Some(idx);
            }
            idx += 1;
        }
        None
    }

    /// Whether some registered pattern matches `topic`.
    fn is_subscribed(&self, topic: &String) -> (b: bool)
        ensures
            b == topic_subscribed(self@.subscriptions, topic@),
    {
        let n = self.subscriptions.len();
        let mut idx: usize = 0;
        while idx < n
            invariant
                n == self.subscriptions@.len(),
                idx <= n,
                forall|j: int| 0 <= j < idx ==> !pattern_matches(#[trigger] self.subscriptions@[j]@, topic@),
            decreases n - idx,
        {
            if Self::match_pattern(&self.subscriptions[idx], topic) {
                return true;
            }
            idx += 1;
        }
        false
    }

    /// Dispatches one command: the actor mutates its own state and emits
    /// zero or more events to its listeners, exactly as
    /// [`dispatch_model`] says. A command referring to absent state (an
    /// unknown unsubscribe, a publish nobody subscribed to) is a no-op, not
    /// an error.
    pub fn handle_cmd(&mut self, cmd: PubSubCmd)
        ensures
            final(self)@ == dispatch_model(old(self)@, cmd),
    {
        match cmd {
            PubSubCmd::Subscribe { pattern } => {
                match self.find_subscription(&pattern) {
                    Some(_) => {
                        proof {
                            lemma_first_match(self@.subscriptions, pattern@);
                        }
                    },
                    None => {
                        self.subscriptions.push(pattern);
                    },
                }
            },
            PubSubCmd::Unsubscribe { pattern } => {
                match self.find_subscription(&pattern) {
                    Some(i) => {
                        proof {
                            lemma_first_match(self@.subscriptions, pattern@);
                        }
                        self.subscriptions.remove(i);
                    },
                    None => {
                        proof {
                            lemma_first_match(self@.subscriptions, pattern@);
                        }
                    },
                }
            },
            PubSubCmd::Publish { topic, payload } => {
                if self.is_subscribed(&topic) {
                    let event = PubSubEvent::Publish { topic, payload };
                    self.events.emit(&event);
                }
            },
            PubSubCmd::Connect => {
                self.events.emit(&PubSubEvent::Connected);
            },
            PubSubCmd::Disconnect => {
                self.events.emit(&PubSubEvent::Disconnected);
            },
            PubSubCmd::Terminate => {
                self.state = ActorState::Terminated;
                self.cmds.close();
            },
        }
    }

    /// One run-loop iteration at time `now`: dispatches the oldest pending
    /// command, or — when the inbox is empty, i.e. the bounded wait timed
    /// out — fires every expired timer and returns the callback identifiers
    /// for the loop to dispatch.
    pub fn step(&mut self, now: u64) -> (fired: Vec<u64>)
        ensures
            final(self)@ == step_model(old(self)@, now).0,
            fired@ == step_model(old(self)@, now).1,
    {
        match self.cmds.next() {
            Some(cmd) => {
                self.handle_cmd(cmd);
                Vec::new()
            },
            None => self.wheel.execute_all_active_and_expired_timers(now),
        }
    }
}

} // verus!
