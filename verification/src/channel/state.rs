use vstd::prelude::*;

verus! {

/// Why a message that was offered with `try_send` was not taken. The message
/// comes back in the error.
#[derive(Debug, PartialEq, Eq)]
pub enum TrySendError<T> {
    /// The buffer is at capacity and a listening subscription has not yet
    /// read its oldest message.
    Full(T),
    /// The channel is closed.
    Closed(T),
}

/// How an offer made with `send` ended. A message that was not taken comes
/// back.
#[derive(Debug, PartialEq, Eq)]
pub enum SendStatus<T> {
    /// The message was taken.
    Sent,
    /// The buffer is at capacity: offer the message again once a
    /// subscription has read on.
    WouldBlock(T),
    /// The channel is closed.
    Closed(T),
}

/// Why `try_recv` has no message to give.
#[derive(Clone, Copy, Debug, PartialEq, Eq, Structural)]
pub enum TryRecvError {
    /// Nothing is waiting to be read, and the channel is open.
    Empty,
    /// So many messages were turned away with `Full` while the subscription
    /// was holding up the channel. Reading goes on with the next call.
    Overflowed(u64),
    /// Nothing is waiting to be read, and nothing will come: the channel is
    /// closed.
    Closed,
}

/// Why no channel was made.
#[derive(Clone, Copy, Debug, PartialEq, Eq, Structural)]
pub enum ChannelError {
    /// A channel holds at least one message.
    InvalidCapacity,
}

/// `a` is the end of `b`: what is left of `b` after some of its first
/// elements are taken off.
pub open spec fn ends<T>(a: Seq<T>, b: Seq<T>) -> bool {
    a.len() <= b.len() && b.skip(b.len() - a.len()) == a
}

/// One subscription, as the channel sees it.
pub struct Cursor<T> {
    /// Listening, or parked.
    pub active: bool,
    /// The messages that the subscription has yet to read, oldest first.
    pub pending: Seq<T>,
    /// How many messages were turned away on its account and not yet
    /// reported to it.
    pub missed: u64,
}

impl<T> Cursor<T> {
    /// A parked subscription: it waits for nothing and was told everything.
    pub open spec fn parked() -> Self {
        Cursor { active: false, pending: Seq::empty(), missed: 0 }
    }

    /// A subscription that has just begun to listen: what was sent before is
    /// not for it.
    pub open spec fn fresh() -> Self {
        Cursor { active: true, pending: Seq::empty(), missed: 0 }
    }

    /// The subscription with one more message to read.
    pub open spec fn with(self, msg: T) -> Self {
        Cursor { pending: self.pending.push(msg), ..self }
    }

    /// The subscription with `msgs` more to read, if it listens.
    pub open spec fn with_all(self, msgs: Seq<T>) -> Self {
        if self.active {
            Cursor { pending: self.pending + msgs, ..self }
        } else {
            self
        }
    }

    /// The subscription with one more message turned away on its account.
    /// The count stops at `u64::MAX`.
    pub open spec fn with_miss(self) -> Self {
        Cursor {
            missed: if self.missed < u64::MAX {
                (self.missed + 1) as u64
            } else {
                self.missed
            },
            ..self
        }
    }
}

/// What a channel is, as a value: its capacity, whether it is closed, and
/// its subscriptions, each with the messages that it has yet to read. A
/// subscription is known by its place in `cursors`, which it keeps.
pub struct ChannelState<T> {
    pub capacity: nat,
    pub closed: bool,
    pub cursors: Seq<Cursor<T>>,
}

impl<T> ChannelState<T> {
    /// A channel that nobody has subscribed to yet.
    pub open spec fn new(capacity: nat) -> Self {
        ChannelState { capacity, closed: false, cursors: Seq::empty() }
    }

    /// Subscriptions `i` and `j` read from one buffer: what the one that
    /// has read further has yet to read is the end of what the other has
    /// yet to read.
    pub open spec fn in_step(self, i: int, j: int) -> bool {
        ends(self.cursors[i].pending, self.cursors[j].pending) || ends(
            self.cursors[j].pending,
            self.cursors[i].pending,
        )
    }

    /// The capacity is at least one, no subscription has more than the
    /// capacity to read, a parked subscription has nothing to read, and all
    /// subscriptions read from one buffer.
    pub open spec fn wf(self) -> bool {
        &&& self.capacity >= 1
        &&& forall|i: int|
            0 <= i < self.cursors.len() ==> (#[trigger] self.cursors[i]).pending.len()
                <= self.capacity
        &&& forall|i: int|
            0 <= i < self.cursors.len() && !(#[trigger] self.cursors[i]).active
                ==> self.cursors[i] == Cursor::<T>::parked()
        &&& forall|i: int, j: int|
            0 <= i < self.cursors.len() && 0 <= j < self.cursors.len() ==> #[trigger] self.in_step(
                i,
                j,
            )
    }

    /// `i` is a subscription of this channel, and it listens.
    pub open spec fn listening(self, i: int) -> bool {
        0 <= i < self.cursors.len() && self.cursors[i].active
    }

    /// `i` is a subscription of this channel, and it is parked.
    pub open spec fn parked(self, i: int) -> bool {
        0 <= i < self.cursors.len() && !self.cursors[i].active
    }

    /// `i` listens and has a whole buffer yet to read: it has not read the
    /// oldest message of a buffer that is at capacity.
    pub open spec fn lagging(self, i: int) -> bool {
        self.listening(i) && self.cursors[i].pending.len() >= self.capacity
    }

    /// The buffer is at capacity: some listening subscription is lagging.
    pub open spec fn full(self) -> bool {
        exists|i: int| #[trigger] self.listening(i) && self.lagging(i)
    }

    /// The channel with `msg` added for every listening subscription.
    pub open spec fn appended(self, msg: T) -> Self {
        ChannelState {
            cursors: Seq::new(
                self.cursors.len(),
                |i: int|
                    if self.cursors[i].active {
                        self.cursors[i].with(msg)
                    } else {
                        self.cursors[i]
                    },
            ),
            ..self
        }
    }

    /// The channel with one more miss counted for every lagging
    /// subscription.
    pub open spec fn refused(self) -> Self {
        ChannelState {
            cursors: Seq::new(
                self.cursors.len(),
                |i: int|
                    if self.lagging(i) {
                        self.cursors[i].with_miss()
                    } else {
                        self.cursors[i]
                    },
            ),
            ..self
        }
    }

    /// What `try_send(msg)` returns.
    pub open spec fn try_send_result(self, msg: T) -> Result<(), TrySendError<T>> {
        if self.closed {
            Err(TrySendError::Closed(msg))
        } else if self.full() {
            Err(TrySendError::Full(msg))
        } else {
            Ok(())
        }
    }

    /// The channel after `try_send(msg)`.
    pub open spec fn after_try_send(self, msg: T) -> Self {
        if self.closed {
            self
        } else if self.full() {
            self.refused()
        } else {
            self.appended(msg)
        }
    }

    /// What `send(msg)` returns.
    pub open spec fn send_result(self, msg: T) -> SendStatus<T> {
        if self.closed {
            SendStatus::Closed(msg)
        } else if self.full() {
            SendStatus::WouldBlock(msg)
        } else {
            SendStatus::Sent
        }
    }

    /// The channel after `send(msg)`: a message that has to wait leaves no
    /// trace.
    pub open spec fn after_send(self, msg: T) -> Self {
        if self.closed || self.full() {
            self
        } else {
            self.appended(msg)
        }
    }

    /// What `try_recv` returns to subscription `i`: first the misses that it
    /// has not been told of, then its oldest unread message.
    pub open spec fn try_recv_result(self, i: int) -> Result<T, TryRecvError> {
        let c = self.cursors[i];
        if c.missed > 0 {
            Err(TryRecvError::Overflowed(c.missed))
        } else if c.pending.len() > 0 {
            Ok(c.pending[0])
        } else if self.closed {
            Err(TryRecvError::Closed)
        } else {
            Err(TryRecvError::Empty)
        }
    }

    /// The channel after `try_recv` by subscription `i`.
    pub open spec fn after_try_recv(self, i: int) -> Self {
        let c = self.cursors[i];
        if c.missed > 0 {
            ChannelState { cursors: self.cursors.update(i, Cursor { missed: 0, ..c }), ..self }
        } else if c.pending.len() > 0 {
            ChannelState {
                cursors: self.cursors.update(i, Cursor { pending: c.pending.drop_first(), ..c }),
                ..self
            }
        } else {
            self
        }
    }

    /// The channel with one more subscription, which listens from now on.
    pub open spec fn after_subscribe(self) -> Self {
        ChannelState { cursors: self.cursors.push(Cursor::fresh()), ..self }
    }

    /// The channel with subscription `i` parked: what it had yet to read is
    /// given up.
    pub open spec fn after_deactivate(self, i: int) -> Self {
        ChannelState { cursors: self.cursors.update(i, Cursor::parked()), ..self }
    }

    /// The channel with subscription `i` listening again, from now on.
    pub open spec fn after_activate(self, i: int) -> Self {
        ChannelState { cursors: self.cursors.update(i, Cursor::fresh()), ..self }
    }

    /// The channel once it is closed.
    pub open spec fn after_close(self) -> Self {
        ChannelState { closed: true, ..self }
    }
}

/// Nothing is the end of everything.
pub proof fn lemma_nothing_ends_all<T>(a: Seq<T>, b: Seq<T>)
    requires
        a.len() == 0,
    ensures
        ends(a, b),
{
    assert(b.skip(b.len() as int) =~= a);
}

/// What ends a sequence still ends it when both get one more element.
pub proof fn lemma_ends_with_one_more<T>(a: Seq<T>, b: Seq<T>, x: T)
    requires
        ends(a, b),
    ensures
        ends(a.push(x), b.push(x)),
{
    assert(b.push(x).skip(b.len() - a.len()) =~= b.skip(b.len() - a.len()).push(x));
}

/// Two sequences of which one ends the other stay so when the first
/// element is taken off one of them.
pub proof fn lemma_ends_with_one_less<T>(a: Seq<T>, b: Seq<T>)
    requires
        ends(a, b) || ends(b, a),
        a.len() > 0,
    ensures
        ends(a.drop_first(), b) || ends(b, a.drop_first()),
{
    let rest = a.drop_first();
    if ends(a, b) {
        let gap = b.len() - a.len();
        assert(b.skip(gap + 1) =~= b.skip(gap).drop_first());
    } else if b.len() == a.len() {
        assert(a.skip(0) =~= a);
        assert(b.skip(1) =~= rest);
    } else {
        let gap = a.len() - b.len();
        assert(rest.skip(gap - 1) =~= a.skip(gap));
    }
}

} // verus!
