use crate::channel::state::{ChannelState, Cursor, SendStatus, TryRecvError, TrySendError};
use vstd::prelude::*;

verus! {

/// The place of one subscription in the channel's books.
#[derive(Clone, Copy)]
struct Slot {
    active: bool,
    /// How many messages of the buffer the subscription has read.
    offset: usize,
    missed: u64,
}

/// The books of a channel: one buffer of the messages that some listening
/// subscription has yet to read, and for each subscription how far it has
/// read.
pub(crate) struct Ledger<T> {
    id: u128,
    capacity: usize,
    closed: bool,
    buffer: Vec<T>,
    slots: Vec<Slot>,
}

/// The subscription that a slot stands for, given the buffer.
spec fn cursor_of<T>(buffer: Seq<T>, slot: Slot) -> Cursor<T> {
    Cursor {
        active: slot.active,
        pending: if slot.active {
            buffer.skip(slot.offset as int)
        } else {
            Seq::empty()
        },
        missed: slot.missed,
    }
}

/// A listening slot points into the buffer; a parked one holds nothing.
spec fn slot_ok(buffer_len: int, slot: Slot) -> bool {
    if slot.active {
        slot.offset <= buffer_len
    } else {
        slot.offset == 0 && slot.missed == 0
    }
}

/// Every slot fits a buffer of this length.
spec fn slots_ok(buffer_len: int, slots: Seq<Slot>) -> bool {
    forall|i: int| 0 <= i < slots.len() ==> slot_ok(buffer_len, #[trigger] slots[i])
}

/// The oldest message of the buffer is one that a listening subscription
/// has yet to read.
spec fn trimmed(buffer_len: int, slots: Seq<Slot>) -> bool {
    buffer_len > 0 ==> exists|i: int|
        0 <= i < slots.len() && (#[trigger] slots[i]).active && slots[i].offset == 0
}

/// The channel that the fields stand for.
spec fn view_of<T>(
    capacity: usize,
    closed: bool,
    buffer: Seq<T>,
    slots: Seq<Slot>,
) -> ChannelState<T> {
    ChannelState {
        capacity: capacity as nat,
        closed,
        cursors: Seq::new(slots.len(), |i: int| cursor_of(buffer, slots[i])),
    }
}

impl<T> View for Ledger<T> {
    type V = ChannelState<T>;

    closed spec fn view(&self) -> ChannelState<T> {
        view_of(self.capacity, self.closed, self.buffer@, self.slots@)
    }
}

impl<T> Ledger<T> {
    /// The channel's books agree with one another.
    pub(crate) closed spec fn coherent(&self) -> bool {
        &&& self.capacity >= 1
        &&& self.buffer@.len() <= self.capacity
        &&& slots_ok(self.buffer@.len() as int, self.slots@)
        &&& trimmed(self.buffer@.len() as int, self.slots@)
    }

    /// The books are in order: they agree with one another, and the
    /// channel that they stand for is well formed.
    pub(crate) open spec fn wf(&self) -> bool {
        self@.wf() && self.coherent()
    }

    /// The identifier of the channel.
    pub(crate) closed spec fn id(&self) -> u128 {
        self.id
    }

    /// Books for a new channel of capacity `size`, under the identifier
    /// `id`.
    pub(crate) fn new(id: u128, size: usize) -> (books: Ledger<T>)
        requires
            size >= 1,
        ensures
            books.wf(),
            books@ == ChannelState::<T>::new(size as nat),
            books.id() == id,
    {
        let books = Ledger {
            id,
            capacity: size,
            closed: false,
            buffer: Vec::new(),
            slots: Vec::new(),
        };
        proof {
            assert(books@.cursors =~= Seq::<Cursor<T>>::empty());
            books.lemma_view_wf();
        }
        books
    }

    /// Whether the subscription at `index` is there and listens.
    pub(crate) fn is_listening(&self, index: usize) -> (listening: bool)
        ensures
            listening == self@.listening(index as int),
    {
        index < self.slots.len() && self.slots[index].active
    }

    /// Whether the subscription at `index` is there and is parked.
    pub(crate) fn is_parked(&self, index: usize) -> (parked: bool)
        ensures
            parked == self@.parked(index as int),
    {
        index < self.slots.len() && !self.slots[index].active
    }

    /// The identifier, to be read.
    pub(crate) fn identifier(&self) -> (id: u128)
        ensures
            id == self.id(),
    {
        self.id
    }

    /// A channel whose books agree stands for a well-formed channel: what
    /// its subscriptions have yet to read are ends of one buffer, which is
    /// within the capacity.
    proof fn lemma_view_wf(&self)
        requires
            self.coherent(),
        ensures
            self@.wf(),
    {
        let v = self@;
        let buffer = self.buffer@;
        assert forall|i: int, j: int|
            0 <= i < v.cursors.len() && 0 <= j < v.cursors.len() implies #[trigger] v.in_step(
            i,
            j,
        ) by {
            let a = self.slots@[i];
            let b = self.slots@[j];
            let p = v.cursors[i].pending;
            let q = v.cursors[j].pending;
            assert(slot_ok(buffer.len() as int, a) && slot_ok(buffer.len() as int, b));
            if !a.active {
                assert(q.skip(q.len() as int) =~= p);
            } else if !b.active {
                assert(p.skip(p.len() as int) =~= q);
            } else if a.offset >= b.offset {
                assert(q.skip(a.offset - b.offset) =~= p);
            } else {
                assert(p.skip(b.offset - a.offset) =~= q);
            }
        }
        assert forall|i: int|
            0 <= i < v.cursors.len() implies (#[trigger] v.cursors[i]).pending.len()
            <= v.capacity by {
            assert(slot_ok(buffer.len() as int, self.slots@[i]));
        }
        assert forall|i: int|
            0 <= i < v.cursors.len() && !(#[trigger] v.cursors[i]).active implies v.cursors[i]
            == Cursor::<T>::parked() by {
            assert(slot_ok(buffer.len() as int, self.slots@[i]));
        }
    }

    /// The buffer is at capacity exactly if some subscription is lagging.
    proof fn lemma_full(&self)
        requires
            self.coherent(),
        ensures
            self@.full() <==> self.buffer@.len() == self.capacity,
            self.buffer@.len() == self.capacity ==> forall|i: int|
                self@.lagging(i) <==> 0 <= i < self.slots@.len()
                    && (#[trigger] self.slots@[i]).active && self.slots@[i].offset == 0,
    {
        let v = self@;
        if self.buffer@.len() == self.capacity {
            let w = choose|i: int|
                0 <= i < self.slots@.len() && (#[trigger] self.slots@[i]).active
                    && self.slots@[i].offset == 0;
            assert(v.lagging(w));
        }
    }

    /// Whether any subscription listens.
    fn has_listener(&self) -> (heard: bool)
        ensures
            heard <==> exists|i: int|
                0 <= i < self.slots@.len() && (#[trigger] self.slots@[i]).active,
    {
        let mut i: usize = 0;
        while i < self.slots.len()
            invariant
                i <= self.slots@.len(),
                forall|j: int| 0 <= j < i ==> !(#[trigger] self.slots@[j]).active,
            decreases self.slots@.len() - i,
        {
            if self.slots[i].active {
                return true;
            }
            i += 1;
        }
        false
    }

    /// Adds `msg` to the buffer, or lets it go where nobody listens.
    fn append(&mut self, msg: T)
        requires
            old(self).wf(),
            old(self).buffer@.len() < old(self).capacity,
        ensures
            final(self).wf(),
            final(self)@ == old(self)@.appended(msg),
            final(self).id() == old(self).id(),
    {
        let ghost before = self@;
        if self.buffer.len() == 0 && !self.has_listener() {
            assert(self@.cursors =~= before.appended(msg).cursors);
            return;
        }
        let ghost heard = choose|i: int|
            0 <= i < self.slots@.len() && (#[trigger] self.slots@[i]).active;
        self.buffer.push(msg);
        proof {
            assert forall|i: int| 0 <= i < self.slots@.len() implies #[trigger] self@.cursors[i]
                == before.appended(msg).cursors[i] by {
                let s = self.slots@[i];
                if s.active {
                    assert(self.buffer@.skip(s.offset as int) =~= old(self).buffer@.skip(
                        s.offset as int,
                    ).push(msg));
                }
            }
            assert(self@.cursors =~= before.appended(msg).cursors);
            assert forall|i: int| 0 <= i < self.slots@.len() implies slot_ok(
                self.buffer@.len() as int,
                #[trigger] self.slots@[i],
            ) by {
                assert(slot_ok(old(self).buffer@.len() as int, self.slots@[i]));
            }
            if old(self).buffer@.len() == 0 {
                assert(slot_ok(0, self.slots@[heard]));
            }
            self.lemma_view_wf();
        }
    }

    /// Counts one more miss for every lagging subscription.
    fn refuse(&mut self)
        requires
            old(self).wf(),
            old(self).buffer@.len() == old(self).capacity,
        ensures
            final(self).wf(),
            final(self)@ == old(self)@.refused(),
            final(self).id() == old(self).id(),
    {
        let ghost before = self@;
        let ghost slots0 = self.slots@;
        let mut i: usize = 0;
        while i < self.slots.len()
            invariant
                i <= self.slots@.len(),
                self.slots@.len() == slots0.len(),
                self.buffer@ == old(self).buffer@,
                self.capacity == old(self).capacity,
                self.closed == old(self).closed,
                self.id == old(self).id,
                forall|j: int|
                    0 <= j < i ==> cursor_of(self.buffer@, #[trigger] self.slots@[j])
                        == before.refused().cursors[j],
                forall|j: int| i <= j < slots0.len() ==> #[trigger] self.slots@[j] == slots0[j],
                forall|j: int|
                    0 <= j < slots0.len() ==> (#[trigger] self.slots@[j]).active == slots0[j].active
                        && self.slots@[j].offset == slots0[j].offset,
                forall|j: int|
                    0 <= j < slots0.len() && !slots0[j].active ==> #[trigger] self.slots@[j]
                        == slots0[j],
                before == view_of(old(self).capacity, old(self).closed, old(self).buffer@, slots0),
                old(self).coherent(),
                slots0 == old(self).slots@,
                forall|k: int|
                    before.lagging(k) <==> 0 <= k < slots0.len() && (#[trigger] slots0[k]).active
                        && slots0[k].offset == 0,
            decreases self.slots@.len() - i,
        {
            let s = self.slots[i];
            if s.active && s.offset == 0 {
                let missed: u64 = if s.missed < u64::MAX {
                    s.missed + 1
                } else {
                    s.missed
                };
                self.slots.set(i, Slot { active: true, offset: 0, missed });
            }
            i += 1;
        }
        proof {
            assert(self@.cursors =~= before.refused().cursors);
            assert forall|j: int| 0 <= j < self.slots@.len() implies slot_ok(
                self.buffer@.len() as int,
                #[trigger] self.slots@[j],
            ) by {
                assert(slot_ok(old(self).buffer@.len() as int, slots0[j]));
            }
            let w = choose|k: int|
                0 <= k < slots0.len() && (#[trigger] slots0[k]).active && slots0[k].offset == 0;
            assert(self.slots@[w].active && self.slots@[w].offset == 0);
            self.lemma_view_wf();
        }
    }

    /// Takes `msg`, or turns it away and counts the misses.
    pub(crate) fn try_send(&mut self, msg: T) -> (sent: Result<(), TrySendError<T>>)
        requires
            old(self).wf(),
        ensures
            final(self).wf(),
            sent == old(self)@.try_send_result(msg),
            final(self)@ == old(self)@.after_try_send(msg),
            forall|i: int| #[trigger] old(self)@.listening(i) ==> final(self)@.listening(i),
            final(self).id() == old(self).id(),
    {
        proof {
            self.lemma_full();
        }
        if self.closed {
            Err(TrySendError::Closed(msg))
        } else if self.buffer.len() == self.capacity {
            self.refuse();
            Err(TrySendError::Full(msg))
        } else {
            self.append(msg);
            Ok(())
        }
    }

    /// Takes `msg`, or gives it back to wait and leaves no trace.
    pub(crate) fn send(&mut self, msg: T) -> (status: SendStatus<T>)
        requires
            old(self).wf(),
        ensures
            final(self).wf(),
            status == old(self)@.send_result(msg),
            final(self)@ == old(self)@.after_send(msg),
            forall|i: int| #[trigger] old(self)@.listening(i) ==> final(self)@.listening(i),
            final(self).id() == old(self).id(),
    {
        proof {
            self.lemma_full();
        }
        if self.closed {
            SendStatus::Closed(msg)
        } else if self.buffer.len() == self.capacity {
            SendStatus::WouldBlock(msg)
        } else {
            self.append(msg);
            SendStatus::Sent
        }
    }

    /// Marks the channel as closed.
    pub(crate) fn close(&mut self)
        requires
            old(self).wf(),
        ensures
            final(self).wf(),
            final(self)@ == old(self)@.after_close(),
            forall|i: int| #[trigger] old(self)@.listening(i) ==> final(self)@.listening(i),
            final(self).id() == old(self).id(),
    {
        self.closed = true;
        proof {
            assert(self@.cursors =~= old(self)@.cursors);
            self.lemma_view_wf();
        }
    }

    /// Opens a place for a new subscription, which has read the whole
    /// buffer.
    pub(crate) fn subscribe(&mut self) -> (index: usize)
        requires
            old(self).wf(),
        ensures
            final(self).wf(),
            final(self)@ == old(self)@.after_subscribe(),
            forall|i: int| #[trigger] old(self)@.listening(i) ==> final(self)@.listening(i),
            index == old(self)@.cursors.len(),
            final(self)@.listening(index as int),
            final(self).id() == old(self).id(),
    {
        let ghost before = self@;
        let index: usize = self.slots.len();
        let offset: usize = self.buffer.len();
        self.slots.push(Slot { active: true, offset, missed: 0 });
        proof {
            assert(self.buffer@.skip(offset as int) =~= Seq::<T>::empty());
            assert(self@.cursors =~= before.after_subscribe().cursors);
            if self.buffer@.len() > 0 {
                let w = choose|i: int|
                    0 <= i < old(self).slots@.len() && (#[trigger] old(self).slots@[i]).active
                        && old(self).slots@[i].offset == 0;
                assert(self.slots@[w].active && self.slots@[w].offset == 0);
            }
            assert forall|i: int| 0 <= i < self.slots@.len() implies slot_ok(
                self.buffer@.len() as int,
                #[trigger] self.slots@[i],
            ) by {
                if i < index {
                    assert(slot_ok(old(self).buffer@.len() as int, old(self).slots@[i]));
                }
            }
            self.lemma_view_wf();
        }
        index
    }

    /// How far every listening subscription has read: the least of their
    /// offsets, and the length of the buffer where none listens.
    fn least_offset(&self) -> (k: usize)
        requires
            slots_ok(self.buffer@.len() as int, self.slots@),
        ensures
            k <= self.buffer@.len(),
            forall|i: int|
                0 <= i < self.slots@.len() && (#[trigger] self.slots@[i]).active ==> k
                    <= self.slots@[i].offset,
            k < self.buffer@.len() ==> exists|i: int|
                0 <= i < self.slots@.len() && (#[trigger] self.slots@[i]).active
                    && self.slots@[i].offset == k,
    {
        let mut k: usize = self.buffer.len();
        let mut i: usize = 0;
        while i < self.slots.len()
            invariant
                i <= self.slots@.len(),
                k <= self.buffer@.len(),
                forall|j: int|
                    0 <= j < i && (#[trigger] self.slots@[j]).active ==> k <= self.slots@[j].offset,
                k < self.buffer@.len() ==> exists|j: int|
                    0 <= j < i && (#[trigger] self.slots@[j]).active && self.slots@[j].offset == k,
            decreases self.slots@.len() - i,
        {
            let s = self.slots[i];
            if s.active && s.offset < k {
                k = s.offset;
            }
            i += 1;
        }
        k
    }

    /// Drops from the buffer the messages that every listening subscription
    /// has read. No subscription sees a difference.
    fn release(&mut self)
        requires
            old(self).capacity >= 1,
            old(self).buffer@.len() <= old(self).capacity,
            slots_ok(old(self).buffer@.len() as int, old(self).slots@),
        ensures
            final(self).wf(),
            final(self)@ == old(self)@,
            final(self).id() == old(self).id(),
    {
        let ghost slots0 = self.slots@;
        let ghost buffer0 = self.buffer@;
        let k: usize = self.least_offset();
        if k == 0 {
            proof {
                self.lemma_view_wf();
            }
            return;
        }
        let kept = self.buffer.split_off(k);
        self.buffer = kept;
        let mut i: usize = 0;
        while i < self.slots.len()
            invariant
                i <= self.slots@.len(),
                self.slots@.len() == slots0.len(),
                self.buffer@ == buffer0.skip(k as int),
                k <= buffer0.len(),
                self.capacity == old(self).capacity,
                self.closed == old(self).closed,
                self.id == old(self).id,
                slots_ok(buffer0.len() as int, slots0),
                forall|j: int|
                    0 <= j < slots0.len() && (#[trigger] slots0[j]).active ==> k
                        <= slots0[j].offset,
                forall|j: int| i <= j < slots0.len() ==> #[trigger] self.slots@[j] == slots0[j],
                forall|j: int|
                    0 <= j < i ==> #[trigger] self.slots@[j] == (if slots0[j].active {
                        Slot { offset: (slots0[j].offset - k) as usize, ..slots0[j] }
                    } else {
                        slots0[j]
                    }),
            decreases self.slots@.len() - i,
        {
            let s = self.slots[i];
            if s.active {
                self.slots.set(i, Slot { offset: s.offset - k, ..s });
            }
            i += 1;
        }
        proof {
            assert forall|j: int| 0 <= j < slots0.len() implies cursor_of(
                self.buffer@,
                #[trigger] self.slots@[j],
            ) == cursor_of(buffer0, slots0[j]) by {
                let s = slots0[j];
                if s.active {
                    assert(buffer0.skip(k as int).skip(s.offset - k) =~= buffer0.skip(
                        s.offset as int,
                    ));
                }
            }
            assert(self@.cursors =~= old(self)@.cursors);
            if self.buffer@.len() > 0 {
                let w = choose|j: int|
                    0 <= j < slots0.len() && (#[trigger] slots0[j]).active && slots0[j].offset == k;
                assert(self.slots@[w].active && self.slots@[w].offset == 0);
            }
            self.lemma_view_wf();
        }
    }

    /// Reports the misses of the subscription at `i`, or hands it a clone
    /// of its oldest unread message and moves it on.
    pub(crate) fn try_recv(&mut self, i: usize) -> (got: Result<T, TryRecvError>) where T: Clone
        requires
            old(self).wf(),
            old(self)@.listening(i as int),
        ensures
            final(self).wf(),
            final(self)@ == old(self)@.after_try_recv(i as int),
            forall|i: int| #[trigger] old(self)@.listening(i) ==> final(self)@.listening(i),
            match (got, old(self)@.try_recv_result(i as int)) {
                (Ok(msg), Ok(oldest)) => cloned(oldest, msg),
                (Err(e), Err(expected)) => e == expected,
                _ => false,
            },
            final(self).id() == old(self).id(),
    {
        let s = self.slots[i];
        if s.missed > 0 {
            self.slots.set(i, Slot { missed: 0, ..s });
            proof {
                self.lemma_after_set(*old(self), i as int);
                if self.buffer@.len() > 0 {
                    let w = choose|j: int|
                        0 <= j < old(self).slots@.len() && (#[trigger] old(self).slots@[j]).active
                            && old(self).slots@[j].offset == 0;
                    assert(self.slots@[w].active && self.slots@[w].offset == 0);
                }
                self.lemma_view_wf();
            }
            return Err(TryRecvError::Overflowed(s.missed));
        }
        if s.offset < self.buffer.len() {
            let msg = self.buffer[s.offset].clone();
            self.slots.set(i, Slot { offset: s.offset + 1, ..s });
            proof {
                self.lemma_after_set(*old(self), i as int);
                assert(self.buffer@.skip(s.offset + 1) =~= self.buffer@.skip(
                    s.offset as int,
                ).drop_first());
            }
            self.release();
            return Ok(msg);
        }
        if self.closed {
            Err(TryRecvError::Closed)
        } else {
            Err(TryRecvError::Empty)
        }
    }

    /// Parks the subscription at `i` and lets go of what it alone had yet
    /// to read.
    pub(crate) fn deactivate(&mut self, i: usize)
        requires
            old(self).wf(),
            old(self)@.listening(i as int),
        ensures
            final(self).wf(),
            final(self)@ == old(self)@.after_deactivate(i as int),
            forall|j: int|
                #[trigger] old(self)@.listening(j) && j != i ==> final(self)@.listening(j),
            final(self).id() == old(self).id(),
    {
        self.slots.set(i, Slot { active: false, offset: 0, missed: 0 });
        proof {
            self.lemma_after_set(*old(self), i as int);
        }
        self.release();
    }

    /// Makes the subscription at `i` listen again, as one that has read the
    /// whole buffer.
    pub(crate) fn activate(&mut self, i: usize)
        requires
            old(self).wf(),
            old(self)@.parked(i as int),
        ensures
            final(self).wf(),
            final(self)@ == old(self)@.after_activate(i as int),
            forall|i: int| #[trigger] old(self)@.listening(i) ==> final(self)@.listening(i),
            final(self).id() == old(self).id(),
    {
        let offset: usize = self.buffer.len();
        self.slots.set(i, Slot { active: true, offset, missed: 0 });
        proof {
            self.lemma_after_set(*old(self), i as int);
            assert(self.buffer@.skip(offset as int) =~= Seq::<T>::empty());
            if self.buffer@.len() > 0 {
                let w = choose|j: int|
                    0 <= j < old(self).slots@.len() && (#[trigger] old(self).slots@[j]).active
                        && old(self).slots@[j].offset == 0;
                assert(self.slots@[w].active && self.slots@[w].offset == 0);
            }
            self.lemma_view_wf();
        }
    }

    /// After one slot was changed and nothing else, every other
    /// subscription is what it was, and every other slot still fits.
    proof fn lemma_after_set(&self, before: Self, i: int)
        requires
            0 <= i < before.slots@.len(),
            self.slots@ == before.slots@.update(i, self.slots@[i]),
            self.buffer@ == before.buffer@,
            self.capacity == before.capacity,
            self.closed == before.closed,
            slots_ok(before.buffer@.len() as int, before.slots@),
            slot_ok(self.buffer@.len() as int, self.slots@[i]),
        ensures
            self@.capacity == before@.capacity,
            self@.closed == before@.closed,
            self@.cursors == before@.cursors.update(i, cursor_of(self.buffer@, self.slots@[i])),
            slots_ok(self.buffer@.len() as int, self.slots@),
    {
        assert(self@.cursors =~= before@.cursors.update(
            i,
            cursor_of(self.buffer@, self.slots@[i]),
        ));
    }
}

} // verus!
