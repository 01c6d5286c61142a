//! A one-shot event flag and a one-value mailbox between concurrently
//! running tasks.
use vstd::prelude::*;

verus! {

/// A flag that one task raises and another consumes.
#[derive(Debug, Clone, Copy, PartialEq, Eq, Structural)]
pub struct Event {
    pub triggered: bool,
}

impl Event {
    /// A lowered flag.
    pub fn new() -> (e: Event)
        ensures
            !e.triggered,
    {
        Event { triggered: false }
    }

    /// Raises the flag.
    pub fn trigger(&mut self)
        ensures
            final(self).triggered,
    {
        self.triggered = true;
    }

    /// Whether the flag is raised.
    pub fn is_triggered(&self) -> (b: bool)
        ensures
            b == self.triggered,
    {
        self.triggered
    }

    /// One poll of a waiter: when the flag is raised, lowers it and reports
    /// readiness.
    pub fn wait(&mut self) -> (ready: bool)
        ensures
            ready == old(self).triggered,
            !final(self).triggered,
    {
        if self.triggered {
            self.triggered = false;
            true
        } else {
            false
        }
    }
}

/// A mailbox for one value: a new value replaces one not yet taken.
#[derive(Debug, Clone, Copy)]
pub struct Signal<T> {
    pub slot: Option<T>,
}

impl<T: Copy> Signal<T> {
    /// An empty mailbox.
    pub fn new() -> (s: Signal<T>)
        ensures
            s.slot is None,
    {
        Signal { slot: None }
    }

    /// Puts `val` into the mailbox, replacing a value not yet taken.
    pub fn signal(&mut self, val: T)
        ensures
            final(self).slot == Some(val),
    {
        self.slot = Some(val);
    }

    /// Empties the mailbox.
    pub fn reset(&mut self)
        ensures
            final(self).slot is None,
    {
        self.slot = None;
    }

    /// One poll of a waiter: takes the value when there is one.
    pub fn wait(&mut self) -> (v: Option<T>)
        ensures
            v == old(self).slot,
            final(self).slot is None,
    {
        self.try_take()
    }

    /// Takes the value, if there is one.
    pub fn try_take(&mut self) -> (v: Option<T>)
        ensures
            v == old(self).slot,
            final(self).slot is None,
    {
        let v = self.slot;
        self.slot = None;
        v
    }

    /// Whether a value waits in the mailbox.
    pub fn signaled(&self) -> (b: bool)
        ensures
            b == self.slot is Some,
    {
        self.slot.is_some()
    }
}

} // verus!
