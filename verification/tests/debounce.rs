use dioxus_std::debounce::unit::{use_debounce, Schedule};
use std::time::Duration;

#[test]
fn first_call_starts_a_timer_and_cancels_none() {
    let delay = Duration::from_millis(2000);
    let mut unit = use_debounce::<&str>(delay);
    assert_eq!(unit.action("ran"), Some(Schedule { ticket: 0, delay, superseded: None }));
}

#[test]
fn rapid_calls_fire_once_with_the_last_payload() {
    let delay = Duration::from_millis(50);
    let mut unit = use_debounce::<u32>(delay);
    let mut last = None;
    for n in 1..=5u32 {
        let schedule = unit.action(n).unwrap();
        assert_eq!(schedule.delay, delay);
        assert_eq!(schedule.superseded, last);
        last = Some(schedule.ticket);
    }
    let mut fired = Vec::new();
    for ticket in 0..5u64 {
        if let Some(payload) = unit.expire(ticket) {
            fired.push(payload);
        }
    }
    assert_eq!(last, Some(4));
    assert_eq!(fired, vec![5]);
    assert_eq!(unit.expire(4), None);
}

#[test]
fn replaced_timer_fires_nothing() {
    let mut unit = use_debounce::<char>(Duration::from_secs(1));
    let first = unit.action('a').unwrap();
    let second = unit.action('b').unwrap();
    assert_eq!(second.superseded, Some(first.ticket));
    assert_eq!(unit.expire(first.ticket), None);
    assert_eq!(unit.expire(second.ticket), Some('b'));
}

#[test]
fn separate_windows_fire_separately() {
    let mut unit = use_debounce::<&str>(Duration::from_millis(10));
    let first = unit.action("early").unwrap();
    assert_eq!(unit.expire(first.ticket), Some("early"));
    assert_eq!(unit.expire(first.ticket), None);
    let second = unit.action("late").unwrap();
    assert_eq!(second, Schedule { ticket: 1, delay: Duration::from_millis(10), superseded: None });
    assert_eq!(unit.expire(second.ticket), Some("late"));
    assert_eq!(unit.expire(second.ticket), None);
}

#[test]
fn call_from_the_callback_opens_the_next_window() {
    let mut unit = use_debounce::<u8>(Duration::ZERO);
    let first = unit.action(1).unwrap();
    let payload = unit.expire(first.ticket).unwrap();
    let again = unit.action(payload + 1).unwrap();
    assert_eq!(again.superseded, None);
    assert_eq!(again.delay, Duration::ZERO);
    assert_eq!(unit.expire(again.ticket), Some(2));
}

#[test]
fn destroyed_unit_never_fires() {
    let mut unit = use_debounce::<u8>(Duration::from_millis(5));
    let pending = unit.action(9).unwrap();
    assert_eq!(unit.destroy(), Some(pending.ticket));
    assert_eq!(unit.expire(pending.ticket), None);
    assert_eq!(unit.action(10), None);
    for ticket in 0..4u64 {
        assert_eq!(unit.expire(ticket), None);
    }
    assert_eq!(unit.destroy(), None);
}

#[test]
fn timer_that_nobody_started_fires_nothing() {
    let mut unit = use_debounce::<u8>(Duration::from_millis(5));
    assert_eq!(unit.expire(0), None);
    let only = unit.action(1).unwrap();
    assert_eq!(unit.expire(only.ticket + 1), None);
    assert_eq!(unit.expire(only.ticket), Some(1));
}
