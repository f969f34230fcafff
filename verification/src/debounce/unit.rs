use std::time::Duration;
use vstd::prelude::*;

verus! {

/// The invocation that waits in the slot of a debounce unit.
pub struct Pending<T> {
    /// Names the timer that was started for this invocation.
    pub ticket: u64,
    /// What the callback is to be called with.
    pub payload: T,
}

/// What a debounce unit is, as a value: the ticket that the next call of
/// `action` hands out, the slot, and whether the unit was destroyed.
pub struct DebounceState<T> {
    pub next_ticket: u64,
    pub slot: Option<Pending<T>>,
    pub destroyed: bool,
}

/// The ticket that follows `ticket`. Tickets go round after `u64::MAX`.
pub open spec fn ticket_after(ticket: u64) -> u64 {
    if ticket == u64::MAX {
        0
    } else {
        (ticket + 1) as u64
    }
}

impl<T> DebounceState<T> {
    /// A unit on which `action` was never called.
    pub open spec fn idle() -> Self {
        DebounceState { next_ticket: 0, slot: None, destroyed: false }
    }

    /// The ticket of the invocation in the slot, if there is one.
    pub open spec fn waiting(self) -> Option<u64> {
        match self.slot {
            Some(p) => Some(p.ticket),
            None => None,
        }
    }

    /// The timer `ticket` is the one whose invocation waits in the slot.
    pub open spec fn due(self, ticket: u64) -> bool {
        !self.destroyed && self.waiting() == Some(ticket)
    }

    /// The unit after `action(data)`: the slot holds `data` under a new
    /// ticket, whatever it held before. A destroyed unit stays as it is.
    pub open spec fn after_action(self, data: T) -> Self {
        if self.destroyed {
            self
        } else {
            DebounceState {
                next_ticket: ticket_after(self.next_ticket),
                slot: Some(Pending { ticket: self.next_ticket, payload: data }),
                destroyed: false,
            }
        }
    }

    /// What the timer `ticket` hands to the callback when it runs down.
    pub open spec fn handed_out(self, ticket: u64) -> Option<T> {
        if self.due(ticket) {
            Some(self.slot->0.payload)
        } else {
            None
        }
    }

    /// The unit after the timer `ticket` has run down: the slot is empty if
    /// that timer was due, and nothing has changed if it was not.
    pub open spec fn after_expiry(self, ticket: u64) -> Self {
        if self.due(ticket) {
            DebounceState { slot: None, ..self }
        } else {
            self
        }
    }

    /// The unit once its owner is gone: nothing waits, and nothing will.
    pub open spec fn after_destroy(self) -> Self {
        DebounceState { slot: None, destroyed: true, ..self }
    }
}

/// What the driver has to do after a call of `action` that was taken up.
#[derive(Clone, Copy, Debug, PartialEq, Eq)]
pub struct Schedule {
    /// The ticket to give back to `expire` when the new timer runs down.
    pub ticket: u64,
    /// How long the new timer runs.
    pub delay: Duration,
    /// The ticket of the timer that this call has replaced, to be cancelled.
    pub superseded: Option<u64>,
}

/// A debounce unit with its delay.
pub struct UseDebounce<T> {
    delay: Duration,
    next_ticket: u64,
    slot: Option<Pending<T>>,
    destroyed: bool,
}

impl<T> View for UseDebounce<T> {
    type V = DebounceState<T>;

    closed spec fn view(&self) -> DebounceState<T> {
        DebounceState { next_ticket: self.next_ticket, slot: self.slot, destroyed: self.destroyed }
    }
}

/// A new debounce unit whose timers run for `time`. Nothing waits in it.
///
/// A delay of zero is no special case: the driver still starts a timer, so
/// the calls that arrive before that timer is served are folded into one.
pub fn use_debounce<T>(time: Duration) -> (unit: UseDebounce<T>)
    ensures
        unit@ == DebounceState::<T>::idle(),
        unit.delay() == time,
{
    UseDebounce { delay: time, next_ticket: 0, slot: None, destroyed: false }
}

impl<T> UseDebounce<T> {
    /// The delay that the unit was made with.
    pub closed spec fn delay(&self) -> Duration {
        self.delay
    }

    /// Starts the countdown for `data`, and restarts it if one was running.
    ///
    /// The invocation that waited is taken out of the slot and the new one is
    /// put in, in one step; the old payload is dropped without being handed
    /// out. The result names the timer to start and the one to cancel. A
    /// destroyed unit takes nothing up and returns `None`.
    pub fn action(&mut self, data: T) -> (schedule: Option<Schedule>)
        ensures
            final(self)@ == old(self)@.after_action(data),
            final(self).delay() == old(self).delay(),
            schedule is None <==> old(self)@.destroyed,
            schedule matches Some(s) ==> s.ticket == old(self)@.next_ticket && s.delay == old(
                self,
            ).delay() && s.superseded == old(self)@.waiting(),
    {
        if self.destroyed {
            return None;
        }
        let superseded = match &self.slot {
            Some(p) => Some(p.ticket),
            None => None,
        };
        let ticket: u64 = self.next_ticket;
        self.next_ticket = if ticket == u64::MAX {
            0
        } else {
            ticket + 1
        };
        self.slot = Some(Pending { ticket, payload: data });
        Some(Schedule { ticket, delay: self.delay, superseded })
    }

    /// The timer `ticket` has run down. Returns the payload to call the
    /// callback with if that timer is still the one that waits, and empties
    /// the slot before it does; a timer that was replaced or whose unit was
    /// destroyed gets `None` and changes nothing.
    pub fn expire(&mut self, ticket: u64) -> (payload: Option<T>)
        ensures
            payload == old(self)@.handed_out(ticket),
            final(self)@ == old(self)@.after_expiry(ticket),
            final(self).delay() == old(self).delay(),
    {
        if self.destroyed {
            return None;
        }
        let due = match &self.slot {
            Some(p) => p.ticket == ticket,
            None => false,
        };
        if due {
            match self.slot.take() {
                Some(p) => Some(p.payload),
                None => None,
            }
        } else {
            None
        }
    }

    /// The owner is gone. Empties the slot without handing its payload out
    /// and returns the ticket of the timer to cancel; from here on `expire`
    /// returns `None` for every ticket.
    pub fn destroy(&mut self) -> (cancelled: Option<u64>)
        ensures
            cancelled == old(self)@.waiting(),
            final(self)@ == old(self)@.after_destroy(),
            final(self).delay() == old(self).delay(),
    {
        let cancelled = match &self.slot {
            Some(p) => Some(p.ticket),
            None => None,
        };
        self.slot = None;
        self.destroyed = true;
        cancelled
    }
}

} // verus!
