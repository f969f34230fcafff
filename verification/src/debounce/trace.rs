use crate::debounce::unit::DebounceState;
use vstd::prelude::*;

verus! {

/// One thing that can happen to a debounce unit.
pub enum DebounceEvent<T> {
    /// `action` was called with this payload.
    Action(T),
    /// The timer with this ticket has run down.
    Expired(u64),
    /// The owner of the unit is gone.
    Destroyed,
}

impl<T> DebounceState<T> {
    /// The unit after one event.
    pub open spec fn step(self, event: DebounceEvent<T>) -> Self {
        match event {
            DebounceEvent::Action(data) => self.after_action(data),
            DebounceEvent::Expired(ticket) => self.after_expiry(ticket),
            DebounceEvent::Destroyed => self.after_destroy(),
        }
    }

    /// The payload that one event has the callback called with, if any.
    pub open spec fn emits(self, event: DebounceEvent<T>) -> Option<T> {
        match event {
            DebounceEvent::Expired(ticket) => self.handed_out(ticket),
            _ => None,
        }
    }

    /// The event leaves the waiting invocation alone or replaces it: it is a
    /// call of `action`, or the running down of a timer that is not due.
    pub open spec fn undisturbed_by(self, event: DebounceEvent<T>) -> bool {
        match event {
            DebounceEvent::Action(_) => true,
            DebounceEvent::Expired(ticket) => !self.due(ticket),
            DebounceEvent::Destroyed => false,
        }
    }

    /// The unit after a sequence of events, taken in order.
    pub open spec fn run(self, events: Seq<DebounceEvent<T>>) -> Self
        decreases events.len(),
    {
        if events.len() == 0 {
            self
        } else {
            self.run(events.drop_last()).step(events.last())
        }
    }

    /// The payloads that the callback is called with during a sequence of
    /// events, in the order of the calls.
    pub open spec fn fired(self, events: Seq<DebounceEvent<T>>) -> Seq<T>
        decreases events.len(),
    {
        if events.len() == 0 {
            Seq::empty()
        } else {
            let before = self.fired(events.drop_last());
            match self.run(events.drop_last()).emits(events.last()) {
                Some(payload) => before.push(payload),
                None => before,
            }
        }
    }

    /// No timer comes due during the sequence, and the unit is not destroyed
    /// in it: each event finds the unit undisturbed by it.
    pub open spec fn quiet(self, events: Seq<DebounceEvent<T>>) -> bool
        decreases events.len(),
    {
        events.len() == 0 || (self.quiet(events.drop_last()) && self.run(
            events.drop_last(),
        ).undisturbed_by(events.last()))
    }
}

/// The payload of the last call of `action` in a sequence of events.
pub open spec fn last_action<T>(events: Seq<DebounceEvent<T>>) -> Option<T>
    decreases events.len(),
{
    if events.len() == 0 {
        None
    } else {
        match events.last() {
            DebounceEvent::Action(data) => Some(data),
            _ => last_action(events.drop_last()),
        }
    }
}

/// The calls `action(p)` for each payload `p`, in order, and nothing else.
pub open spec fn calls<T>(payloads: Seq<T>) -> Seq<DebounceEvent<T>> {
    Seq::new(payloads.len(), |i: int| DebounceEvent::Action(payloads[i]))
}

} // verus!
