//! The file-change watcher actor: it owns an event source for
//! [`FileChangeEvent`]s and debounces the raw notifications an external
//! watcher feeds it, so one save does not reload a dashboard several times.
//!
//! The watcher itself (platform file notification) lives outside the
//! library; it hands every raw notification to
//! [`FileChange::on_raw_change`] together with the current time, and this
//! actor decides whether the change is announced to the listeners.
use vstd::prelude::*;

use crate::sink::{Sink, SinkModel};
use crate::source::{emit_model, SinkRef, Source};
use crate::timer::TimerModel;
use crate::Message;

verus! {

/// Raw notifications closer together than this are folded into one, in
/// milliseconds.
pub const DEBOUNCE_MS: u64 = 1000;

/// What a file-change actor announces to its listeners.
#[derive(Clone, Debug, PartialEq, Eq)]
pub enum FileChangeEvent {
    FileChange(String),
}

impl Message for FileChangeEvent {
    fn dup(&self) -> (r: Self)
        ensures
            r == *self,
    {
        match self {
            FileChangeEvent::FileChange(path) => FileChangeEvent::FileChange(path.clone()),
        }
    }
}

/// The mathematical state of a [`FileChange`] actor.
pub ghost struct FileChangeModel {
    pub file_name: String,
    pub events: Seq<SinkModel<FileChangeEvent>>,
    pub cmds: SinkModel<()>,
    pub timers: Seq<TimerModel>,
    pub last_change: u64,
}

/// An actor that watches one file and fans out debounced change events.
pub struct FileChange {
    file_name: String,
    events: Source<FileChangeEvent>,
    cmds: Sink<()>,
    timers: crate::wheel::TimerWheel,
    last_change: u64,
}

impl View for FileChange {
    type V = FileChangeModel;

    closed spec fn view(&self) -> FileChangeModel {
        FileChangeModel {
            file_name: self.file_name,
            events: self.events@,
            cmds: self.cmds@,
            timers: self.timers@,
            last_change: self.last_change,
        }
    }
}

impl FileChange {
    /// A watcher actor for the named file, with no listeners yet. The
    /// debounce reference starts at the epoch.
    pub fn new(file_name: String) -> (a: Self)
        ensures
            a@.file_name == file_name,
            a@.events == Seq::<SinkModel<FileChangeEvent>>::empty(),
            a@.cmds == (SinkModel {
                queue: Seq::<()>::empty(),
                capacity: 1nat,
                closed: false,
                dropped: 0nat,
            }),
            a@.timers == Seq::<TimerModel>::empty(),
            a@.last_change == 0,
    {
        Self {
            file_name,
            events: Source::new(),
            cmds: Sink::new(1),
            timers: crate::wheel::TimerWheel::new(),
            last_change: 0,
        }
    }

    /// The file being watched.
    pub fn file_name(&self) -> (r: &String)
        ensures
            *r == self@.file_name,
    {
        &self.file_name
    }

    /// Registers a listener for the debounced change events.
    pub fn add_listener(&mut self, sink: Sink<FileChangeEvent>) -> (r: SinkRef)
        ensures
            r.index == old(self)@.events.len(),
            final(self)@ == (FileChangeModel {
                events: old(self)@.events.push(sink@),
                ..old(self)@
            }),
    {
        self.events.add_listener(sink)
    }

    /// Registers a timer (the run-loop's keepalive tick) on the actor's
    /// wheel.
    pub fn new_timer(&mut self, repeat: bool, interval: u64, now: u64) -> (id: usize)
        ensures
            id == old(self)@.timers.len(),
            final(self)@ == (FileChangeModel {
                timers: old(self)@.timers.push(TimerModel::fresh(repeat, interval, now)),
                ..old(self)@
            }),
    {
        self.timers.new_timer(repeat, interval, now)
    }

    /// The time of the last raw notification seen (the debounce reference).
    pub fn last_change(&self) -> (t: u64)
        ensures
            t == self@.last_change,
    {
        self.last_change
    }

    /// Decides what a raw watcher notification at time `now` becomes: when
    /// at least [`DEBOUNCE_MS`] elapsed since the previous raw notification
    /// the change is announced to every listener, otherwise it is folded
    /// away. Either way `now` becomes the new debounce reference. Time must
    /// not run backwards between notifications.
    pub fn on_raw_change(&mut self, now: u64) -> (emitted: bool)
        requires
            old(self)@.last_change <= now,
        ensures
            emitted == (now - old(self)@.last_change >= DEBOUNCE_MS),
            emitted ==> final(self)@ == (FileChangeModel {
                events: emit_model(
                    old(self)@.events,
                    FileChangeEvent::FileChange(old(self)@.file_name),
                ),
                last_change: now,
                ..old(self)@
            }),
            !emitted ==> final(self)@ == (FileChangeModel { last_change: now, ..old(self)@ }),
    {
        let elapsed = now - self.last_change;
        self.last_change = now;
        if elapsed >= DEBOUNCE_MS {
            let event = FileChangeEvent::FileChange(self.file_name.clone());
            self.events.emit(&event);
            true
        } else {
            false
        }
    }

    /// Drains the oldest change event pending for listener `r`.
    pub fn next_event(&mut self, r: SinkRef) -> (v: Option<FileChangeEvent>)
        ensures
            r.index < old(self)@.events.len() ==> v == old(self)@.events[r.index as int].next_result().0
                && final(self)@ == (FileChangeModel {
                events: old(self)@.events.update(
                    r.index as int,
                    old(self)@.events[r.index as int].next_result().1,
                ),
                ..old(self)@
            }),
            r.index >= old(self)@.events.len() ==> v is None && final(self)@ == old(self)@,
    {
        self.events.next_from(r)
    }
}

} // verus!
