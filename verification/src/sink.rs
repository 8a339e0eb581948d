//! A bounded, consumable event queue: a typed inbox that producers push
//! into and that a single consumer (the owning actor) drains.
//!
//! The overflow policy is reject-newest: `push` fails with
//! [`SinkError::Full`] once the bound is reached and never blocks. The
//! fan-out path ([`Sink::offer`]) instead drops the value and counts the
//! drop, so one full inbox cannot stall anyone else. A closed sink (its
//! owning actor has terminated) rejects every push with
//! [`SinkError::Closed`], a result producers can distinguish to stop
//! retrying.
use vstd::prelude::*;

verus! {

/// Why a push was rejected: the queue is at capacity, or the consumer is
/// gone for good.
#[derive(Clone, Copy, Debug, PartialEq, Eq, Structural)]
pub enum SinkError {
    Full,
    Closed,
}

/// The mathematical state of a [`Sink`]: the pending values in arrival
/// order, the bound, whether the consumer has gone away, and how many
/// values the drop-and-count policy has discarded.
pub ghost struct SinkModel<T> {
    pub queue: Seq<T>,
    pub capacity: nat,
    pub closed: bool,
    pub dropped: nat,
}

impl<T> SinkModel<T> {
    /// Queue length never exceeds the bound.
    pub open spec fn wf(self) -> bool {
        self.queue.len() <= self.capacity
    }

    /// What `push` returns and leaves behind: rejected when closed or full,
    /// otherwise the value goes to the back of the queue.
    pub open spec fn push_result(self, v: T) -> (Result<(), SinkError>, SinkModel<T>) {
        if self.closed {
            (Err(SinkError::Closed), self)
        } else if self.queue.len() >= self.capacity {
            (Err(SinkError::Full), self)
        } else {
            (Ok(()), SinkModel { queue: self.queue.push(v), ..self })
        }
    }

    /// What `next` returns and leaves behind: the oldest pending value
    /// leaves the front of the queue; an empty queue yields nothing.
    pub open spec fn next_result(self) -> (Option<T>, SinkModel<T>) {
        if self.queue.len() == 0 {
            (None::<T>, self)
        } else {
            (Some(self.queue[0]), SinkModel { queue: self.queue.drop_first(), ..self })
        }
    }

    /// What `offer` returns and leaves behind: like `push`, but a rejected
    /// value is dropped and counted instead of reported as an error.
    pub open spec fn offer_result(self, v: T) -> (bool, SinkModel<T>) {
        if !self.closed && self.queue.len() < self.capacity {
            (true, SinkModel { queue: self.queue.push(v), ..self })
        } else {
            let counted = if self.dropped + 1 <= u64::MAX {
                self.dropped + 1
            } else {
                self.dropped
            };
            (false, SinkModel { dropped: counted, ..self })
        }
    }

    /// The state after `close`.
    pub open spec fn closed_model(self) -> SinkModel<T> {
        SinkModel { closed: true, ..self }
    }
}

/// A bounded single-consumer FIFO inbox.
pub struct Sink<T> {
    queue: Vec<T>,
    capacity: usize,
    closed: bool,
    dropped: u64,
}

impl<T> View for Sink<T> {
    type V = SinkModel<T>;

    closed spec fn view(&self) -> SinkModel<T> {
        SinkModel {
            queue: self.queue@,
            capacity: self.capacity as nat,
            closed: self.closed,
            dropped: self.dropped as nat,
        }
    }
}

impl<T> Sink<T> {
    #[verifier::type_invariant]
    spec fn type_inv(self) -> bool {
        self@.wf()
    }

    /// An open, empty sink holding at most `capacity` pending values.
    pub fn new(capacity: usize) -> (s: Sink<T>)
        ensures
            s@ == (SinkModel {
                queue: Seq::<T>::empty(),
                capacity: capacity as nat,
                closed: false,
                dropped: 0nat,
            }),
    {
        let s = Sink { queue: Vec::new(), capacity, closed: false, dropped: 0 };
        proof {
            assert(s@.queue =~= Seq::<T>::empty());
        }
        s
    }

    /// Enqueues a value for the consumer; rejects it when the sink is
    /// closed or the bound is reached (the reject-newest policy: the caller
    /// learns of the failure, nothing already queued is lost).
    pub fn push(&mut self, value: T) -> (r: Result<(), SinkError>)
        ensures
            r == old(self)@.push_result(value).0,
            final(self)@ == old(self)@.push_result(value).1,
    {
        proof {
            use_type_invariant(&*self);
        }
        if self.closed {
            Err(SinkError::Closed)
        } else if self.queue.len() >= self.capacity {
            Err(SinkError::Full)
        } else {
            let mut q: Vec<T> = Vec::new();
            core::mem::swap(&mut q, &mut self.queue);
            q.push(value);
            self.queue = q;
            Ok(())
        }
    }

    /// Enqueues a value if there is room; otherwise drops it and counts the
    /// drop. This is the fan-out delivery policy: a full subscriber loses
    /// the value without delaying anyone.
    pub fn offer(&mut self, value: T) -> (delivered: bool)
        ensures
            delivered == old(self)@.offer_result(value).0,
            final(self)@ == old(self)@.offer_result(value).1,
    {
        proof {
            use_type_invariant(&*self);
        }
        if !self.closed && self.queue.len() < self.capacity {
            let mut q: Vec<T> = Vec::new();
            core::mem::swap(&mut q, &mut self.queue);
            q.push(value);
            self.queue = q;
            true
        } else {
            // The drop metric saturates rather than wraps.
            if self.dropped < u64::MAX {
                self.dropped = self.dropped + 1;
            }
            false
        }
    }

    /// Takes the oldest pending value, or nothing when the inbox is empty.
    /// Intended to be called only by the owning actor's run-loop.
    pub fn next(&mut self) -> (r: Option<T>)
        ensures
            r == old(self)@.next_result().0,
            final(self)@ == old(self)@.next_result().1,
    {
        proof {
            use_type_invariant(&*self);
        }
        if self.queue.len() > 0 {
            let mut q: Vec<T> = Vec::new();
            core::mem::swap(&mut q, &mut self.queue);
            let v = q.remove(0);
            self.queue = q;
            proof {
                assert(final(self)@.queue =~= old(self)@.queue.drop_first());
            }
            Some(v)
        } else {
            None
        }
    }

    /// Marks the sink closed: every later push is rejected with
    /// [`SinkError::Closed`]. Pending values can still be drained.
    pub fn close(&mut self)
        ensures
            final(self)@ == old(self)@.closed_model(),
    {
        proof {
            use_type_invariant(&*self);
        }
        self.closed = true;
    }

    /// How many values are pending.
    pub fn len(&self) -> (n: usize)
        ensures
            n == self@.queue.len(),
    {
        proof {
            use_type_invariant(&*self);
        }
        self.queue.len()
    }

    /// Whether no value is pending.
    pub fn is_empty(&self) -> (b: bool)
        ensures
            b == (self@.queue.len() == 0),
    {
        self.queue.len() == 0
    }

    /// Whether the bound is reached.
    pub fn is_full(&self) -> (b: bool)
        ensures
            b == (self@.queue.len() >= self@.capacity),
    {
        self.queue.len() >= self.capacity
    }

    /// The bound this sink was created with.
    pub fn capacity(&self) -> (c: usize)
        ensures
            c == self@.capacity,
    {
        self.capacity
    }

    /// Whether the sink has been closed.
    pub fn is_closed(&self) -> (b: bool)
        ensures
            b == self@.closed,
    {
        self.closed
    }

    /// How many values the drop-and-count policy has discarded so far.
    pub fn dropped_count(&self) -> (n: u64)
        ensures
            n == self@.dropped,
    {
        self.dropped
    }
}

/// The model after pushing each value of `vs` in order.
pub open spec fn push_all<T>(m: SinkModel<T>, vs: Seq<T>) -> SinkModel<T>
    decreases vs.len(),
{
    if vs.len() == 0 {
        m
    } else {
        push_all(m.push_result(vs[0]).1, vs.drop_first())
    }
}

/// The model after draining `n` values.
pub open spec fn drain_n<T>(m: SinkModel<T>, n: nat) -> SinkModel<T>
    decreases n,
{
    if n == 0 {
        m
    } else {
        drain_n(m.next_result().1, (n - 1) as nat)
    }
}

/// The value the consumer sees on its `n + 1`-th `next` call.
pub open spec fn nth_out<T>(m: SinkModel<T>, n: nat) -> Option<T> {
    drain_n(m, n).next_result().0
}

/// Pushing `vs` into an open sink with room for all of it appends `vs`
/// behind the pending values and changes nothing else.
pub proof fn lemma_push_all_appends<T>(m: SinkModel<T>, vs: Seq<T>)
    requires
        !m.closed,
        m.queue.len() + vs.len() <= m.capacity,
    ensures
        push_all(m, vs) == (SinkModel { queue: m.queue + vs, ..m }),
    decreases vs.len(),
{
    if vs.len() == 0 {
        assert(m.queue + vs =~= m.queue);
    } else {
        let m1 = m.push_result(vs[0]).1;
        lemma_push_all_appends(m1, vs.drop_first());
        assert(m.queue.push(vs[0]) + vs.drop_first() =~= m.queue + vs);
    }
}

/// Draining `n` values removes exactly the first `n` from the queue.
pub proof fn lemma_drain_n_skips<T>(m: SinkModel<T>, n: nat)
    requires
        n <= m.queue.len(),
    ensures
        drain_n(m, n) == (SinkModel { queue: m.queue.skip(n as int), ..m }),
    decreases n,
{
    if n == 0 {
        assert(m.queue.skip(0) =~= m.queue);
    } else {
        let m1 = m.next_result().1;
        lemma_drain_n_skips(m1, (n - 1) as nat);
        assert(m.queue.drop_first().skip(n as int - 1) =~= m.queue.skip(n as int));
    }
}

/// FIFO: when a single producer pushes `v1, ..., vn` into an open sink with
/// room for all of them, the consumer's successive `next` calls yield them
/// back in exactly that order, after whatever was already pending.
pub proof fn lemma_sink_fifo<T>(m: SinkModel<T>, vs: Seq<T>)
    requires
        !m.closed,
        m.queue.len() + vs.len() <= m.capacity,
    ensures
        forall|k: int|
            0 <= k < vs.len() ==> nth_out(push_all(m, vs), (m.queue.len() + k) as nat) == Some(
                vs[k],
            ),
{
    lemma_push_all_appends(m, vs);
    let q = m.queue + vs;
    assert forall|k: int|
        0 <= k < vs.len() implies nth_out(push_all(m, vs), (m.queue.len() + k) as nat) == Some(
        vs[k],
    ) by {
        let n = (m.queue.len() + k) as nat;
        lemma_drain_n_skips(push_all(m, vs), n);
        assert(q.skip(n as int)[0] == q[k + m.queue.len()]);
    }
}

} // verus!
