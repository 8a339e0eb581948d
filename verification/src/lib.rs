//! A small reactive actor and timer-scheduling substrate: typed bounded
//! inboxes (`Sink`), one-to-many event broadcasters (`Source`), countdown
//! timers grouped in a `TimerWheel`, and an `Actor` that composes them
//! behind a single-owner run-loop step function.
use vstd::prelude::*;

pub mod timer;
pub mod wheel;
pub mod sink;
pub mod source;
pub mod actor;
pub mod file_change;
pub mod textutil;
pub mod store;
pub mod bridge;

verus! {

/// Values that can be duplicated exactly, so that a `Source` can hand one
/// emitted value to every subscriber. Unlike `Clone`, each implementation
/// proves that the duplicate equals the original.
pub trait Message: Sized {
    fn dup(&self) -> (r: Self)
        ensures
            r == *self,
    ;
}

impl Message for u64 {
    fn dup(&self) -> (r: Self)
        ensures
            r == *self,
    {
        *self
    }
}

impl Message for String {
    fn dup(&self) -> (r: Self)
        ensures
            r == *self,
    {
        self.clone()
    }
}

} // verus!
