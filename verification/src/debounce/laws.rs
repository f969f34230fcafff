use crate::debounce::trace::{calls, last_action, DebounceEvent};
use crate::debounce::unit::{ticket_after, DebounceState};
use vstd::prelude::*;

verus! {

/// Handling one more event: the unit takes one more step, and the callback
/// is called once more exactly if that event hands a payload out.
pub proof fn lemma_one_more_event<T>(
    s: DebounceState<T>,
    events: Seq<DebounceEvent<T>>,
    event: DebounceEvent<T>,
)
    ensures
        s.run(events.push(event)) == s.run(events).step(event),
        s.fired(events.push(event)) == match s.run(events).emits(event) {
            Some(payload) => s.fired(events).push(payload),
            None => s.fired(events),
        },
        s.quiet(events.push(event)) == (s.quiet(events) && s.run(events).undisturbed_by(event)),
        last_action(events.push(event)) == match event {
            DebounceEvent::Action(data) => Some(data),
            _ => last_action(events),
        },
{
    assert(events.push(event).drop_last() =~= events);
}

/// While no timer comes due the callback is not called, the unit is not
/// destroyed, and after at least one call of `action` the slot holds the
/// payload of the last such call.
pub proof fn lemma_quiet_keeps_last<T>(s: DebounceState<T>, events: Seq<DebounceEvent<T>>)
    requires
        !s.destroyed,
        s.quiet(events),
    ensures
        s.fired(events) == Seq::<T>::empty(),
        !s.run(events).destroyed,
        last_action(events) matches Some(data) ==> s.run(events).slot is Some && s.run(
            events,
        ).slot->0.payload == data,
    decreases events.len(),
{
    if events.len() > 0 {
        lemma_quiet_keeps_last(s, events.drop_last());
    }
}

/// Any number of calls of `action`, each made before the timer of the one
/// before it has run down, lead to one call of the callback, with the
/// payload of the last: when that call's timer runs down. Timers of the
/// earlier calls that still run down in between, though they were replaced,
/// change nothing.
pub proof fn law_burst_fires_once_with_last<T>(s: DebounceState<T>, burst: Seq<DebounceEvent<T>>)
    requires
        !s.destroyed,
        s.quiet(burst),
        last_action(burst) is Some,
    ensures
        s.run(burst).waiting() is Some,
        s.fired(burst.push(DebounceEvent::Expired(s.run(burst).waiting()->0))) == seq![
            last_action(burst)->0,
        ],
        s.run(burst.push(DebounceEvent::Expired(s.run(burst).waiting()->0))).slot is None,
{
    lemma_quiet_keeps_last(s, burst);
    lemma_one_more_event(s, burst, DebounceEvent::Expired(s.run(burst).waiting()->0));
}

/// Calls of `action` alone are a quiet sequence, and its last call is the
/// one with the last payload.
pub proof fn lemma_calls_are_quiet<T>(s: DebounceState<T>, payloads: Seq<T>)
    ensures
        s.quiet(calls(payloads)),
        payloads.len() > 0 ==> last_action(calls(payloads)) == Some(payloads.last()),
    decreases payloads.len(),
{
    if payloads.len() > 0 {
        lemma_calls_are_quiet(s, payloads.drop_last());
        assert(calls(payloads).drop_last() =~= calls(payloads.drop_last()));
    }
}

/// `action(p_1)`, ..., `action(p_n)` in a row, and then the timer of the last
/// call runs down: the callback is called once, with `p_n`.
pub proof fn law_rapid_calls_fire_last_payload<T>(s: DebounceState<T>, payloads: Seq<T>)
    requires
        !s.destroyed,
        payloads.len() >= 1,
    ensures
        s.run(calls(payloads)).waiting() is Some,
        s.fired(calls(payloads).push(DebounceEvent::Expired(s.run(calls(payloads)).waiting()->0)))
            == seq![payloads.last()],
{
    lemma_calls_are_quiet(s, payloads);
    law_burst_fires_once_with_last(s, calls(payloads));
}

/// A call of `action` whose timer runs down undisturbed has the callback
/// called once with its payload; a call that follows opens a window of its
/// own, and has the callback called once more, with the second payload.
pub proof fn law_separate_windows_fire_separately<T>(s: DebounceState<T>, first: T, second: T)
    requires
        !s.destroyed,
    ensures
        s.fired(seq![DebounceEvent::Action(first), DebounceEvent::Expired(s.next_ticket)]) == seq![
            first,
        ],
        s.fired(
            seq![
                DebounceEvent::Action(first),
                DebounceEvent::Expired(s.next_ticket),
                DebounceEvent::Action(second),
                DebounceEvent::Expired(ticket_after(s.next_ticket)),
            ],
        ) == seq![first, second],
{
    let e0 = Seq::<DebounceEvent<T>>::empty();
    let a1 = DebounceEvent::Action(first);
    let x1 = DebounceEvent::<T>::Expired(s.next_ticket);
    let a2 = DebounceEvent::Action(second);
    let x2 = DebounceEvent::<T>::Expired(ticket_after(s.next_ticket));
    lemma_one_more_event(s, e0, a1);
    lemma_one_more_event(s, e0.push(a1), x1);
    lemma_one_more_event(s, e0.push(a1).push(x1), a2);
    lemma_one_more_event(s, e0.push(a1).push(x1).push(a2), x2);
    assert(seq![a1, x1] =~= e0.push(a1).push(x1));
    assert(seq![a1, x1, a2, x2] =~= e0.push(a1).push(x1).push(a2).push(x2));
}

/// Once a unit is destroyed the callback is never called again, whatever
/// happens to the unit afterwards; the payload that waited is not handed out.
pub proof fn law_destroyed_never_fires<T>(s: DebounceState<T>, events: Seq<DebounceEvent<T>>)
    ensures
        s.after_destroy().fired(events) == Seq::<T>::empty(),
        s.after_destroy().run(events).destroyed,
        s.fired(seq![DebounceEvent::Destroyed] + events) == Seq::<T>::empty(),
    decreases events.len(),
{
    let d = seq![DebounceEvent::<T>::Destroyed];
    if events.len() == 0 {
        lemma_one_more_event(s, Seq::empty(), DebounceEvent::Destroyed);
    } else {
        law_destroyed_never_fires(s, events.drop_last());
        lemma_run_after_destroy(s, events.drop_last());
        assert(d + events =~= (d + events.drop_last()).push(events.last()));
        lemma_one_more_event(s, d + events.drop_last(), events.last());
    }
}

/// Destroying a unit and then handling events is handling the destruction
/// as the first of them.
pub proof fn lemma_run_after_destroy<T>(s: DebounceState<T>, events: Seq<DebounceEvent<T>>)
    ensures
        s.run(seq![DebounceEvent::Destroyed] + events) == s.after_destroy().run(events),
    decreases events.len(),
{
    let d = seq![DebounceEvent::<T>::Destroyed];
    if events.len() == 0 {
        lemma_one_more_event(s, Seq::empty(), DebounceEvent::Destroyed);
    } else {
        lemma_run_after_destroy(s, events.drop_last());
        assert(d + events =~= (d + events.drop_last()).push(events.last()));
        lemma_one_more_event(s, d + events.drop_last(), events.last());
    }
}

} // verus!
