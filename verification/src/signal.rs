//! Single-slot, latest-wins priority notification channel.
//!
//! Publishing replaces any unconsumed previous notification instead of
//! queueing behind it, so the producer never blocks and the consumer only
//! ever sees the latest value. The orchestrator holds one such mailbox
//! between the fetch/status activity (producer) and the display activity
//! (consumer).
use vstd::prelude::*;

use crate::messagebuf::TextData;

verus! {

/// The one-slot mailbox for priority (status/error) messages.
pub struct PrioritySignal {
    pub slot: Option<TextData>,
}

impl PrioritySignal {
    /// An empty mailbox: nothing pending.
    pub fn new() -> (r: Self)
        ensures
            r.slot matches None,
    {
        PrioritySignal { slot: None }
    }

    /// Publishes a notification. Latest wins: whatever was pending is
    /// replaced, so after two publishes only the second can ever be
    /// consumed.
    pub fn signal(&mut self, message: TextData)
        ensures
            final(self).slot == Some(message),
    {
        self.slot = Some(message);
    }

    /// Consumes the pending notification, if any, leaving the mailbox
    /// empty.
    pub fn try_take(&mut self) -> (r: Option<TextData>)
        ensures
            r == old(self).slot,
            final(self).slot matches None,
    {
        let mut taken: Option<TextData> = None;
        core::mem::swap(&mut taken, &mut self.slot);
        taken
    }
}

} // verus!
