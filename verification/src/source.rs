//! A typed one-to-many event broadcaster.
//!
//! A `Source` owns the inboxes of its subscribers in a registry, in
//! insertion order; registering returns a [`SinkRef`] handle through which
//! the subscriber later drains its own inbox. Every `emit` offers one exact
//! duplicate of the value to every subscriber; a full subscriber loses that
//! copy (its drop counter grows) without delaying or affecting any other —
//! backpressure stays isolated per subscriber.
use vstd::prelude::*;

use crate::sink::{Sink, SinkModel};
use crate::Message;

verus! {

/// A lightweight handle naming one subscriber inbox inside a [`Source`]'s
/// registry.
#[derive(Clone, Copy, Debug, PartialEq, Eq, Structural)]
pub struct SinkRef {
    pub index: usize,
}

/// The registry states after one value is offered to every subscriber.
pub open spec fn emit_model<T>(s: Seq<SinkModel<T>>, v: T) -> Seq<SinkModel<T>> {
    Seq::new(s.len(), |i: int| s[i].offer_result(v).1)
}

/// A one-to-many broadcaster holding its subscribers' inboxes.
pub struct Source<T> {
    subscribers: Vec<Sink<T>>,
}

impl<T> View for Source<T> {
    type V = Seq<SinkModel<T>>;

    closed spec fn view(&self) -> Seq<SinkModel<T>> {
        Seq::new(self.subscribers@.len(), |i: int| self.subscribers@[i]@)
    }
}

impl<T> Source<T> {
    /// A broadcaster with no subscribers yet.
    pub fn new() -> (s: Source<T>)
        ensures
            s@ == Seq::<SinkModel<T>>::empty(),
    {
        let s = Source { subscribers: Vec::new() };
        proof {
            assert(s@ =~= Seq::<SinkModel<T>>::empty());
        }
        s
    }

    /// Registers a new fan-out target and returns the handle its consumer
    /// drains it through. Subscriptions are append-only.
    pub fn subscribe(&mut self, sink: Sink<T>) -> (r: SinkRef)
        ensures
            r.index == old(self)@.len(),
            final(self)@ == old(self)@.push(sink@),
    {
        let r = SinkRef { index: self.subscribers.len() };
        self.subscribers.push(sink);
        proof {
            assert(final(self)@ =~= old(self)@.push(sink@));
        }
        r
    }

    /// Registers a new fan-out target ([`Source::subscribe`] under the name
    /// the actor wiring uses).
    pub fn add_listener(&mut self, sink: Sink<T>) -> (r: SinkRef)
        ensures
            r.index == old(self)@.len(),
            final(self)@ == old(self)@.push(sink@),
    {
        self.subscribe(sink)
    }

    /// How many subscribers are registered.
    pub fn listener_count(&self) -> (n: usize)
        ensures
            n == self@.len(),
    {
        self.subscribers.len()
    }

    /// Drains the oldest value pending for subscriber `r`, or nothing when
    /// that inbox is empty; a handle that names no subscriber yields
    /// nothing and changes nothing.
    pub fn next_from(&mut self, r: SinkRef) -> (v: Option<T>)
        ensures
            r.index < old(self)@.len() ==> v == old(self)@[r.index as int].next_result().0
                && final(self)@ == old(self)@.update(
                r.index as int,
                old(self)@[r.index as int].next_result().1,
            ),
            r.index >= old(self)@.len() ==> v is None && final(self)@ == old(self)@,
    {
        if r.index < self.subscribers.len() {
            let v = self.subscribers[r.index].next();
            proof {
                assert(final(self)@ =~= old(self)@.update(
                    r.index as int,
                    old(self)@[r.index as int].next_result().1,
                ));
            }
            v
        } else {
            None
        }
    }

    /// How many values are pending for subscriber `r`.
    pub fn pending_of(&self, r: SinkRef) -> (n: usize)
        requires
            r.index < self@.len(),
        ensures
            n == self@[r.index as int].queue.len(),
    {
        self.subscribers[r.index].len()
    }

    /// How many emitted values subscriber `r` has lost to a full inbox.
    pub fn dropped_of(&self, r: SinkRef) -> (n: u64)
        requires
            r.index < self@.len(),
        ensures
            n == self@[r.index as int].dropped,
    {
        self.subscribers[r.index].dropped_count()
    }
}

impl<T: Message> Source<T> {
    /// Delivers one exact duplicate of `value` to every registered
    /// subscriber with room; a subscriber whose inbox is full or closed
    /// loses its copy (counted in its drop metric) while every other
    /// subscriber still receives the value.
    pub fn emit(&mut self, value: &T)
        ensures
            final(self)@ == emit_model(old(self)@, *value),
    {
        let n = self.subscribers.len();
        let mut idx: usize = 0;
        while idx < n
            invariant
                n == old(self)@.len(),
                n == self.subscribers@.len(),
                self@.len() == n,
                idx <= n,
                forall|i: int| 0 <= i < self@.len() ==> self@[i] == self.subscribers@[i]@,
                forall|i: int| idx <= i < n ==> self@[i] == old(self)@[i],
                forall|i: int|
                    0 <= i < idx ==> self@[i] == old(self)@[i].offer_result(*value).1,
            decreases n - idx,
        {
            let ghost pre = self@;
            let copy = value.dup();
            self.subscribers[idx].offer(copy);
            proof {
                assert(self@ =~= pre.update(idx as int, pre[idx as int].offer_result(*value).1));
            }
            idx += 1;
        }
        proof {
            assert(final(self)@ =~= emit_model(old(self)@, *value));
        }
    }
}

/// Fan-out completeness: an emit hands every subscriber with room exactly
/// one copy of the value — its inbox grows by exactly that value at the
/// back, and its drop metric is untouched, however many subscribers there
/// are.
pub proof fn lemma_fanout_complete<T>(s: Seq<SinkModel<T>>, v: T)
    ensures
        emit_model(s, v).len() == s.len(),
        forall|i: int|
            0 <= i < s.len() && !s[i].closed && s[i].queue.len() < s[i].capacity ==> emit_model(
                s,
                v,
            )[i] == (SinkModel { queue: s[i].queue.push(v), ..s[i] }),
{
}

/// Backpressure isolation: when subscriber `j`'s inbox is full, an emit
/// still delivers the value to any other subscriber `i` with room; `j`
/// merely loses its copy and counts the drop. A slow consumer cannot block
/// the others.
pub proof fn lemma_backpressure_isolation<T>(s: Seq<SinkModel<T>>, v: T, i: int, j: int)
    requires
        0 <= i < s.len(),
        0 <= j < s.len(),
        i != j,
        !s[i].closed && s[i].queue.len() < s[i].capacity,
        s[j].queue.len() >= s[j].capacity,
        s[j].dropped < u64::MAX,
    ensures
        emit_model(s, v)[i].queue == s[i].queue.push(v),
        emit_model(s, v)[j].queue == s[j].queue,
        emit_model(s, v)[j].dropped == s[j].dropped + 1,
{
}

} // verus!
