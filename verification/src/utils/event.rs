//! A settable, clearable flag, observed at loop boundaries to stop a daemon
//! cooperatively. Sharing one flag across threads is the runtime's concern;
//! the flag's own behaviour is pinned here.

use vstd::prelude::*;

verus! {

/// A stop flag: starts clear, can be set and cleared, and reports its state.
#[derive(Debug)]
pub struct Event {
    value: bool,
}

impl Event {
    /// What the flag currently reads.
    pub closed spec fn spec_is_set(&self) -> bool {
        self.value
    }

    pub fn new() -> (r: Event)
        ensures
            !r.spec_is_set(),
    {
        Event { value: false }
    }

    pub fn is_set(&self) -> (r: bool)
        ensures
            r == self.spec_is_set(),
    {
        self.value
    }

    pub fn set(&mut self)
        ensures
            final(self).spec_is_set(),
    {
        self.value = true;
    }

    pub fn clear(&mut self)
        ensures
            !final(self).spec_is_set(),
    {
        self.value = false;
    }
}

impl Clone for Event {
    /// A clone is a snapshot of the flag's current reading, independent
    /// from then on; a runtime that wants one flag observed from several
    /// threads shares the flag behind its own synchronization instead.
    fn clone(&self) -> (r: Event)
        ensures
            r.spec_is_set() == self.spec_is_set(),
    {
        Event { value: self.value }
    }
}

} // verus!
