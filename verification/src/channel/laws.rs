use crate::channel::state::{
    ends, lemma_ends_with_one_less, lemma_ends_with_one_more, lemma_nothing_ends_all,
    ChannelState, Cursor, SendStatus, TryRecvError, TrySendError,
};
use vstd::prelude::*;

verus! {

impl<T> ChannelState<T> {
    /// The channel after `try_send` of each of `msgs`, in order.
    pub open spec fn after_all(self, msgs: Seq<T>) -> Self
        decreases msgs.len(),
    {
        if msgs.len() == 0 {
            self
        } else {
            self.after_all(msgs.drop_last()).after_try_send(msgs.last())
        }
    }

    /// What the call `try_send(msgs[k])` returns when `msgs` are offered in
    /// order.
    pub open spec fn result_of(self, msgs: Seq<T>, k: int) -> Result<(), TrySendError<T>> {
        self.after_all(msgs.take(k)).try_send_result(msgs[k])
    }

    /// The channel after subscription `i` has called `try_recv` `n` times.
    pub open spec fn after_reads(self, i: int, n: nat) -> Self
        decreases n,
    {
        if n == 0 {
            self
        } else {
            self.after_reads(i, (n - 1) as nat).after_try_recv(i)
        }
    }

    /// What subscription `i` gets from `try_recv` after `k` earlier calls
    /// of its own.
    pub open spec fn read(self, i: int, k: nat) -> Result<T, TryRecvError> {
        self.after_reads(i, k).try_recv_result(i)
    }

    /// Every listening subscription can take `n` more messages.
    pub open spec fn has_room(self, n: nat) -> bool {
        forall|j: int| #[trigger]
            self.listening(j) ==> self.cursors[j].pending.len() + n <= self.capacity
    }

    /// No listening subscription has anything left to read.
    pub open spec fn drained(self) -> bool {
        forall|j: int| #[trigger] self.listening(j) ==> self.cursors[j].pending.len() == 0
    }
}

/// Putting a subscription with nothing to read in the place of one, or
/// beside the others, keeps all subscriptions reading from one buffer.
proof fn lemma_nothing_to_read_is_in_step<T>(v: ChannelState<T>, w: ChannelState<T>, at: int)
    requires
        v.wf(),
        w.cursors.len() >= v.cursors.len(),
        0 <= at < w.cursors.len(),
        w.cursors[at].pending.len() == 0,
        forall|j: int| 0 <= j < w.cursors.len() && j != at ==> j < v.cursors.len() && w.cursors[j]
            == v.cursors[j],
    ensures
        forall|i: int, j: int|
            0 <= i < w.cursors.len() && 0 <= j < w.cursors.len() ==> #[trigger] w.in_step(i, j),
{
    assert forall|i: int, j: int|
        0 <= i < w.cursors.len() && 0 <= j < w.cursors.len() implies #[trigger] w.in_step(
        i,
        j,
    ) by {
        if i == at {
            lemma_nothing_ends_all(w.cursors[i].pending, w.cursors[j].pending);
        } else if j == at {
            lemma_nothing_ends_all(w.cursors[j].pending, w.cursors[i].pending);
        } else {
            assert(v.in_step(i, j));
        }
    }
}

/// No subscription ever has more than the capacity to read, a parked one
/// never has anything, and all read from one buffer: whatever is done to a
/// well-formed channel leaves it well formed.
pub proof fn law_channel_stays_well_formed<T>(v: ChannelState<T>, msg: T, i: int)
    requires
        v.wf(),
    ensures
        v.after_try_send(msg).wf(),
        v.after_send(msg).wf(),
        v.after_subscribe().wf(),
        v.after_close().wf(),
        v.listening(i) ==> v.after_try_recv(i).wf() && v.after_deactivate(i).wf(),
        v.parked(i) ==> v.after_activate(i).wf(),
{
    let n = v.cursors.len();
    let r = v.refused();
    let c = v.after_close();
    assert forall|a: int, b: int| 0 <= a < n && 0 <= b < n implies #[trigger] r.in_step(a, b) by {
        assert(v.in_step(a, b));
    }
    assert forall|a: int, b: int| 0 <= a < n && 0 <= b < n implies #[trigger] c.in_step(a, b) by {
        assert(v.in_step(a, b));
    }
    if !v.closed && !v.full() {
        let w = v.appended(msg);
        assert forall|j: int| 0 <= j < n implies (#[trigger] w.cursors[j]).pending.len()
            <= w.capacity by {
            assert(!v.lagging(j));
        }
        assert forall|a: int, b: int|
            0 <= a < n && 0 <= b < n implies #[trigger] w.in_step(a, b) by {
            assert(v.in_step(a, b));
            let p = v.cursors[a].pending;
            let q = v.cursors[b].pending;
            if !v.cursors[a].active {
                lemma_nothing_ends_all(p, w.cursors[b].pending);
            } else if !v.cursors[b].active {
                lemma_nothing_ends_all(q, w.cursors[a].pending);
            } else if ends(p, q) {
                lemma_ends_with_one_more(p, q, msg);
            } else {
                lemma_ends_with_one_more(q, p, msg);
            }
        }
    }
    lemma_nothing_to_read_is_in_step(v, v.after_subscribe(), n as int);
    if v.listening(i) {
        lemma_nothing_to_read_is_in_step(v, v.after_deactivate(i), i);
        let w = v.after_try_recv(i);
        assert forall|a: int, b: int|
            0 <= a < n && 0 <= b < n implies #[trigger] w.in_step(a, b) by {
            assert(v.in_step(a, b));
            if v.cursors[i].missed == 0 && v.cursors[i].pending.len() > 0 {
                if a == i && b != i {
                    lemma_ends_with_one_less(v.cursors[a].pending, v.cursors[b].pending);
                } else if b == i && a != i {
                    lemma_ends_with_one_less(v.cursors[b].pending, v.cursors[a].pending);
                } else if a == i && b == i {
                    assert(w.cursors[i].pending.skip(0) =~= w.cursors[i].pending);
                }
            }
        }
    }
    if v.parked(i) {
        lemma_nothing_to_read_is_in_step(v, v.after_activate(i), i);
    }
}

/// Offering messages one after the other keeps a channel well formed, and
/// neither adds a subscription nor parks or wakes one.
pub proof fn lemma_after_all_keeps_wf<T>(v: ChannelState<T>, msgs: Seq<T>)
    requires
        v.wf(),
    ensures
        v.after_all(msgs).wf(),
        v.after_all(msgs).capacity == v.capacity,
        v.after_all(msgs).closed == v.closed,
        v.after_all(msgs).cursors.len() == v.cursors.len(),
        forall|j: int|
            0 <= j < v.cursors.len() ==> (#[trigger] v.after_all(msgs).cursors[j]).active
                == v.cursors[j].active,
    decreases msgs.len(),
{
    if msgs.len() > 0 {
        lemma_after_all_keeps_wf(v, msgs.drop_last());
        law_channel_stays_well_formed(v.after_all(msgs.drop_last()), msgs.last(), 0);
    }
}

/// While every listening subscription has room, every message offered is
/// taken and is added, in the order of the offers, to what each listening
/// subscription has yet to read.
pub proof fn lemma_sends_with_room<T>(v: ChannelState<T>, msgs: Seq<T>)
    requires
        v.wf(),
        !v.closed,
        v.has_room(msgs.len()),
    ensures
        v.after_all(msgs).capacity == v.capacity,
        !v.after_all(msgs).closed,
        v.after_all(msgs).cursors.len() == v.cursors.len(),
        forall|j: int|
            0 <= j < v.cursors.len() ==> #[trigger] v.after_all(msgs).cursors[j]
                == v.cursors[j].with_all(msgs),
        forall|k: int| 0 <= k < msgs.len() ==> #[trigger] v.result_of(msgs, k) == Ok::<
            (),
            TrySendError<T>,
        >(()),
    decreases msgs.len(),
{
    if msgs.len() == 0 {
        assert forall|j: int| 0 <= j < v.cursors.len() implies #[trigger] v.cursors[j]
            == v.cursors[j].with_all(msgs) by {
            assert(v.cursors[j].pending + msgs =~= v.cursors[j].pending);
        }
    } else {
        let init = msgs.drop_last();
        let last = msgs.last();
        assert(v.has_room(init.len())) by {
            assert forall|j: int| #[trigger] v.listening(j) implies v.cursors[j].pending.len()
                + init.len() <= v.capacity by {
                assert(v.cursors[j].pending.len() + msgs.len() <= v.capacity);
            }
        }
        lemma_sends_with_room(v, init);
        let u = v.after_all(init);
        assert forall|j: int| !u.lagging(j) by {
            if u.listening(j) {
                assert(v.listening(j));
            }
        }
        let w = v.after_all(msgs);
        assert forall|j: int| 0 <= j < v.cursors.len() implies #[trigger] w.cursors[j]
            == v.cursors[j].with_all(msgs) by {
            if v.cursors[j].active {
                assert((v.cursors[j].pending + init).push(last) =~= v.cursors[j].pending + msgs);
            }
        }
        assert forall|k: int| 0 <= k < msgs.len() implies #[trigger] v.result_of(msgs, k) == Ok::<
            (),
            TrySendError<T>,
        >(()) by {
            if k < init.len() {
                assert(init.take(k) =~= msgs.take(k));
                assert(v.result_of(init, k) == v.result_of(msgs, k));
            } else {
                assert(msgs.take(k) =~= init);
            }
        }
    }
}

/// A subscription that has been told of its misses reads what it has yet to
/// read in order: after `k` reads it is left with all but the first `k`
/// messages, and its next read gives the message at `k`.
pub proof fn lemma_reads_in_order<T>(v: ChannelState<T>, i: int, k: nat)
    requires
        v.listening(i),
        v.cursors[i].missed == 0,
        k <= v.cursors[i].pending.len(),
    ensures
        v.after_reads(i, k).cursors.len() == v.cursors.len(),
        v.after_reads(i, k).closed == v.closed,
        v.after_reads(i, k).cursors[i] == (Cursor {
            pending: v.cursors[i].pending.skip(k as int),
            ..v.cursors[i]
        }),
        k < v.cursors[i].pending.len() ==> v.read(i, k) == Ok::<T, TryRecvError>(
            v.cursors[i].pending[k as int],
        ),
        k == v.cursors[i].pending.len() ==> v.read(i, k) == Err::<T, TryRecvError>(
            if v.closed {
                TryRecvError::Closed
            } else {
                TryRecvError::Empty
            },
        ),
    decreases k,
{
    let p = v.cursors[i].pending;
    if k == 0 {
        assert(p.skip(0) =~= p);
    } else {
        lemma_reads_in_order(v, i, (k - 1) as nat);
        assert(p.skip(k - 1).drop_first() =~= p.skip(k as int));
    }
}

/// Messages that are offered while every listening subscription has room
/// for them are all taken, and a subscription that was listening before the
/// first of them, and had read everything, reads every one of them in the
/// order in which they were offered.
pub proof fn law_within_capacity_all_arrive_in_order<T>(v: ChannelState<T>, msgs: Seq<T>, i: int)
    requires
        v.wf(),
        !v.closed,
        v.has_room(msgs.len()),
        v.listening(i),
        v.cursors[i] == Cursor::<T>::fresh(),
    ensures
        forall|k: int| 0 <= k < msgs.len() ==> #[trigger] v.result_of(msgs, k) == Ok::<
            (),
            TrySendError<T>,
        >(()),
        v.after_all(msgs).cursors[i].pending == msgs,
        forall|k: nat| k < msgs.len() ==> #[trigger] v.after_all(msgs).read(i, k) == Ok::<
            T,
            TryRecvError,
        >(msgs[k as int]),
        v.after_all(msgs).read(i, msgs.len()) == Err::<T, TryRecvError>(TryRecvError::Empty),
{
    lemma_sends_with_room(v, msgs);
    let w = v.after_all(msgs);
    assert forall|k: nat| k < msgs.len() implies #[trigger] w.read(i, k) == Ok::<T, TryRecvError>(
        msgs[k as int],
    ) by {
        lemma_reads_in_order(w, i, k);
    }
    lemma_reads_in_order(w, i, msgs.len());
}

/// A channel of capacity `n` with a listening subscription that does not
/// read is offered `n + 1` messages without waiting: the first `n` are
/// taken, the last one comes back as `Full`, and no other call fails. The
/// subscription is then told of one miss, and after that reads the `n`
/// messages that were taken, oldest first.
pub proof fn law_one_over_capacity_is_refused_and_reported<T>(
    v: ChannelState<T>,
    msgs: Seq<T>,
    i: int,
)
    requires
        v.wf(),
        !v.closed,
        v.drained(),
        v.listening(i),
        v.cursors[i] == Cursor::<T>::fresh(),
        msgs.len() == v.capacity + 1,
    ensures
        forall|k: int| 0 <= k < v.capacity ==> #[trigger] v.result_of(msgs, k) == Ok::<
            (),
            TrySendError<T>,
        >(()),
        v.result_of(msgs, v.capacity as int) == Err::<(), TrySendError<T>>(
            TrySendError::Full(msgs.last()),
        ),
        v.after_all(msgs).read(i, 0) == Err::<T, TryRecvError>(TryRecvError::Overflowed(1)),
        forall|k: nat|
            k < v.capacity ==> #[trigger] v.after_all(msgs).read(i, k + 1) == Ok::<T, TryRecvError>(
                msgs[k as int],
            ),
        v.after_all(msgs).read(i, v.capacity + 1) == Err::<T, TryRecvError>(TryRecvError::Empty),
{
    let n = v.capacity;
    let taken = msgs.drop_last();
    lemma_sends_with_room(v, taken);
    let u = v.after_all(taken);
    assert(u.lagging(i));
    assert forall|k: int| 0 <= k < n implies #[trigger] v.result_of(msgs, k) == Ok::<
        (),
        TrySendError<T>,
    >(()) by {
        assert(taken.take(k) =~= msgs.take(k));
        assert(v.result_of(taken, k) == v.result_of(msgs, k));
    }
    let w = v.after_all(msgs);
    // The report clears the count and leaves the messages where they are.
    let r = w.after_try_recv(i);
    assert forall|k: nat| k < n implies #[trigger] w.read(i, k + 1) == Ok::<T, TryRecvError>(
        msgs[k as int],
    ) by {
        lemma_reads_in_order(r, i, k);
        lemma_reads_shift(w, i, k);
    }
    lemma_reads_in_order(r, i, n);
    lemma_reads_shift(w, i, n);
}

/// Reading once and then `k` times is reading `k + 1` times.
pub proof fn lemma_reads_shift<T>(v: ChannelState<T>, i: int, k: nat)
    ensures
        v.after_reads(i, k + 1) == v.after_try_recv(i).after_reads(i, k),
    decreases k,
{
    if k == 0 {
        assert(v.after_reads(i, 0) == v);
        assert(v.after_reads(i, 1) == v.after_reads(i, 0).after_try_recv(i));
    } else {
        lemma_reads_shift(v, i, (k - 1) as nat);
        assert(v.after_reads(i, k + 1) == v.after_reads(i, k).after_try_recv(i));
    }
}

/// Parking the one subscription that holds a channel up frees the channel:
/// the next offer is taken, whether it is made with `try_send` or with
/// `send`.
pub proof fn law_parked_subscription_holds_nobody_up<T>(v: ChannelState<T>, i: int, msg: T)
    requires
        v.wf(),
        !v.closed,
        v.listening(i),
        forall|j: int| j != i ==> !#[trigger] v.lagging(j),
    ensures
        !v.after_deactivate(i).full(),
        v.after_deactivate(i).try_send_result(msg) == Ok::<(), TrySendError<T>>(()),
        v.after_deactivate(i).send_result(msg) == SendStatus::<T>::Sent,
{
    let w = v.after_deactivate(i);
    assert forall|j: int| !w.lagging(j) by {
        if j != i {
            assert(!v.lagging(j));
        }
    }
}

/// A sender that is ready to wait is held up exactly while the channel is
/// full, and leaves no trace meanwhile. Once the one subscription that holds
/// the channel up has read a message, the sender is let in.
pub proof fn law_reading_lets_a_waiting_sender_in<T>(v: ChannelState<T>, i: int, msg: T)
    requires
        v.wf(),
        !v.closed,
        v.lagging(i),
        v.cursors[i].missed == 0,
        forall|j: int| j != i ==> !#[trigger] v.lagging(j),
    ensures
        v.send_result(msg) == SendStatus::WouldBlock(msg),
        v.after_send(msg) == v,
        v.after_try_recv(i).send_result(msg) == SendStatus::<T>::Sent,
{
    let w = v.after_try_recv(i);
    assert forall|j: int| !w.lagging(j) by {
        if j != i {
            assert(!v.lagging(j));
        }
    }
}

/// Whatever is offered while a subscription is parked is not kept for it:
/// it stays parked with nothing to read, and when it is made to listen again
/// its first read finds nothing.
pub proof fn law_parked_subscription_gets_nothing<T>(v: ChannelState<T>, msgs: Seq<T>, i: int)
    requires
        v.wf(),
        v.parked(i),
    ensures
        v.after_all(msgs).parked(i),
        v.after_all(msgs).cursors[i] == Cursor::<T>::parked(),
        v.after_all(msgs).after_activate(i).cursors[i] == Cursor::<T>::fresh(),
        v.after_all(msgs).after_activate(i).try_recv_result(i) == Err::<T, TryRecvError>(
            if v.closed {
                TryRecvError::Closed
            } else {
                TryRecvError::Empty
            },
        ),
{
    lemma_after_all_keeps_wf(v, msgs);
}

} // verus!
