use dioxus_std::channel::bus::{use_channel, UseChannel};
use dioxus_std::channel::state::{ChannelError, SendStatus, TryRecvError, TrySendError};

fn channel<T>(size: usize) -> UseChannel<T> {
    match use_channel::<T>(size) {
        Ok(channel) => channel,
        Err(_) => panic!("a capacity of {} was turned down", size),
    }
}

#[test]
fn zero_capacity_is_turned_down() {
    assert!(matches!(use_channel::<u8>(0), Err(ChannelError::InvalidCapacity)));
    assert!(use_channel::<u8>(1).is_ok());
    assert!(use_channel::<u8>(usize::MAX).is_ok());
}

#[test]
fn fourth_message_of_three_is_turned_away() {
    let mut bus = channel::<&str>(3);
    let reader = bus.receiver();
    assert_eq!(bus.try_send("a"), Ok(()));
    assert_eq!(bus.try_send("b"), Ok(()));
    assert_eq!(bus.try_send("c"), Ok(()));
    assert_eq!(bus.try_send("d"), Err(TrySendError::Full("d")));
    assert_eq!(bus.try_recv(&reader), Err(TryRecvError::Overflowed(1)));
    assert_eq!(bus.try_recv(&reader), Ok("a"));
    assert_eq!(bus.try_recv(&reader), Ok("b"));
    assert_eq!(bus.try_recv(&reader), Ok("c"));
    assert_eq!(bus.try_recv(&reader), Err(TryRecvError::Empty));
}

#[test]
fn messages_within_capacity_reach_every_listener_in_order() {
    let mut bus = channel::<String>(4);
    let first = bus.receiver();
    let second = bus.receiver();
    for word in ["one", "two", "three", "four"] {
        assert_eq!(bus.try_send(word.to_string()), Ok(()));
    }
    for reader in [&first, &second] {
        assert_eq!(bus.try_recv(reader), Ok("one".to_string()));
        assert_eq!(bus.try_recv(reader), Ok("two".to_string()));
        assert_eq!(bus.try_recv(reader), Ok("three".to_string()));
        assert_eq!(bus.try_recv(reader), Ok("four".to_string()));
        assert_eq!(bus.try_recv(reader), Err(TryRecvError::Empty));
    }
}

#[test]
fn one_message_over_capacity_is_one_miss() {
    for size in 1usize..6 {
        let mut bus = channel::<usize>(size);
        let reader = bus.receiver();
        let mut failures = 0;
        for n in 0..=size {
            match bus.try_send(n) {
                Ok(()) => assert!(n < size),
                Err(e) => {
                    assert_eq!(e, TrySendError::Full(size));
                    failures += 1;
                }
            }
        }
        assert_eq!(failures, 1);
        assert_eq!(bus.try_recv(&reader), Err(TryRecvError::Overflowed(1)));
        for n in 0..size {
            assert_eq!(bus.try_recv(&reader), Ok(n));
        }
        assert_eq!(bus.try_recv(&reader), Err(TryRecvError::Empty));
    }
}

#[test]
fn misses_add_up_until_they_are_reported() {
    let mut bus = channel::<u8>(1);
    let reader = bus.receiver();
    assert_eq!(bus.try_send(1), Ok(()));
    assert_eq!(bus.try_send(2), Err(TrySendError::Full(2)));
    assert_eq!(bus.try_send(3), Err(TrySendError::Full(3)));
    assert_eq!(bus.try_send(4), Err(TrySendError::Full(4)));
    assert_eq!(bus.try_recv(&reader), Err(TryRecvError::Overflowed(3)));
    assert_eq!(bus.try_recv(&reader), Ok(1));
    assert_eq!(bus.try_send(5), Ok(()));
    assert_eq!(bus.try_recv(&reader), Ok(5));
    assert_eq!(bus.try_recv(&reader), Err(TryRecvError::Empty));
}

#[test]
fn only_the_subscription_that_lags_is_told_of_a_miss() {
    let mut bus = channel::<u8>(2);
    let slow = bus.receiver();
    let quick = bus.receiver();
    assert_eq!(bus.try_send(1), Ok(()));
    assert_eq!(bus.try_send(2), Ok(()));
    assert_eq!(bus.try_recv(&quick), Ok(1));
    assert_eq!(bus.try_send(3), Err(TrySendError::Full(3)));
    assert_eq!(bus.try_recv(&quick), Ok(2));
    assert_eq!(bus.try_recv(&quick), Err(TryRecvError::Empty));
    assert_eq!(bus.try_recv(&slow), Err(TryRecvError::Overflowed(1)));
    assert_eq!(bus.try_recv(&slow), Ok(1));
    assert_eq!(bus.try_recv(&slow), Ok(2));
}

#[test]
fn parked_subscription_neither_blocks_nor_catches_up() {
    let mut bus = channel::<u8>(2);
    let reader = bus.receiver();
    assert_eq!(bus.try_send(1), Ok(()));
    assert_eq!(bus.try_send(2), Ok(()));
    assert_eq!(bus.try_send(3), Err(TrySendError::Full(3)));
    let parked = bus.deactivate(reader);
    assert_eq!(bus.try_send(4), Ok(()));
    assert_eq!(bus.try_send(5), Ok(()));
    assert_eq!(bus.try_send(6), Ok(()));
    assert_eq!(bus.send(7), SendStatus::Sent);
    let reader = bus.activate(parked);
    assert_eq!(bus.try_recv(&reader), Err(TryRecvError::Empty));
    assert_eq!(bus.try_send(8), Ok(()));
    assert_eq!(bus.try_recv(&reader), Ok(8));
    assert_eq!(bus.try_recv(&reader), Err(TryRecvError::Empty));
}

#[test]
fn parking_one_of_two_keeps_the_other_reading() {
    let mut bus = channel::<u8>(2);
    let stays = bus.receiver();
    let leaves = bus.receiver();
    assert_eq!(bus.try_send(1), Ok(()));
    assert_eq!(bus.try_send(2), Ok(()));
    assert_eq!(bus.try_recv(&stays), Ok(1));
    assert_eq!(bus.try_send(3), Err(TrySendError::Full(3)));
    let _parked = bus.deactivate(leaves);
    assert_eq!(bus.try_send(4), Ok(()));
    assert_eq!(bus.try_send(5), Err(TrySendError::Full(5)));
    assert_eq!(bus.try_recv(&stays), Err(TryRecvError::Overflowed(1)));
    assert_eq!(bus.try_recv(&stays), Ok(2));
    assert_eq!(bus.try_recv(&stays), Ok(4));
    assert_eq!(bus.try_recv(&stays), Err(TryRecvError::Empty));
}

#[test]
fn message_sent_to_nobody_is_let_go() {
    let mut bus = channel::<u8>(1);
    assert_eq!(bus.try_send(1), Ok(()));
    assert_eq!(bus.try_send(2), Ok(()));
    let reader = bus.receiver();
    assert_eq!(bus.try_recv(&reader), Err(TryRecvError::Empty));
    assert_eq!(bus.try_send(3), Ok(()));
    assert_eq!(bus.try_recv(&reader), Ok(3));
}

#[test]
fn late_subscription_gets_only_what_follows() {
    let mut bus = channel::<u8>(3);
    let early = bus.receiver();
    assert_eq!(bus.try_send(1), Ok(()));
    let late = bus.receiver();
    assert_eq!(bus.try_send(2), Ok(()));
    assert_eq!(bus.try_recv(&late), Ok(2));
    assert_eq!(bus.try_recv(&late), Err(TryRecvError::Empty));
    assert_eq!(bus.try_recv(&early), Ok(1));
    assert_eq!(bus.try_recv(&early), Ok(2));
}

#[test]
fn waiting_sender_costs_no_miss() {
    let mut bus = channel::<u8>(1);
    let reader = bus.receiver();
    assert_eq!(bus.send(1), SendStatus::Sent);
    assert_eq!(bus.send(2), SendStatus::WouldBlock(2));
    assert_eq!(bus.send(2), SendStatus::WouldBlock(2));
    assert_eq!(bus.try_recv(&reader), Ok(1));
    assert_eq!(bus.send(2), SendStatus::Sent);
    assert_eq!(bus.try_recv(&reader), Ok(2));
    assert_eq!(bus.try_recv(&reader), Err(TryRecvError::Empty));
}

#[test]
fn closed_channel_is_read_to_the_end() {
    let mut bus = channel::<u8>(2);
    let reader = bus.receiver();
    assert_eq!(bus.try_send(1), Ok(()));
    bus.close();
    assert_eq!(bus.try_send(2), Err(TrySendError::Closed(2)));
    assert_eq!(bus.send(3), SendStatus::Closed(3));
    assert_eq!(bus.try_recv(&reader), Ok(1));
    assert_eq!(bus.try_recv(&reader), Err(TryRecvError::Closed));
    assert_eq!(bus.try_recv(&reader), Err(TryRecvError::Closed));
}

#[test]
fn channel_is_equal_to_itself_alone() {
    let one = channel::<u8>(1);
    let other = channel::<u8>(1);
    assert!(one == one);
    assert!(other == other);
    assert!(one != other);
}
