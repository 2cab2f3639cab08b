//! The channel of events from the back end to the user interface.

use vstd::prelude::*;

verus! {

/// Sends events to the user interface. It holds nothing yet: events are
/// delivered by the host application.
#[derive(Debug)]
pub struct EventEmitter {}

impl EventEmitter {
    pub fn new() -> (e: EventEmitter)
        ensures
            e == (EventEmitter {}),
    {
        EventEmitter {}
    }
}

} // verus!
