use crate::channel::ledger::Ledger;
use crate::channel::state::{ChannelError, ChannelState, SendStatus, TryRecvError, TrySendError};
use vstd::prelude::*;
use vstd::std_specs::cmp::PartialEqSpecImpl;

verus! {

/// A subscription that listens. It is handed out by `receiver` and by
/// `activate`, and stands for one cursor of the channel that made it.
pub struct Receiver {
    index: usize,
}

/// A subscription that is parked. It keeps its place in the channel and can
/// be made to listen again.
pub struct InactiveReceiver {
    index: usize,
}

impl Receiver {
    /// The place of the subscription in `cursors`.
    pub closed spec fn place(&self) -> int {
        self.index as int
    }
}

impl InactiveReceiver {
    /// The place of the subscription in `cursors`.
    pub closed spec fn place(&self) -> int {
        self.index as int
    }
}

/// A bounded broadcast channel. Every listening subscription reads through
/// a cursor of its own; a message stays in the channel until every
/// subscription that was listening when it was sent has read it or was
/// parked.
///
/// As a value a channel is a `ChannelState`, which is always well formed.
pub struct UseChannel<T> {
    books: Ledger<T>,
}

impl<T> View for UseChannel<T> {
    type V = ChannelState<T>;

    closed spec fn view(&self) -> ChannelState<T> {
        self.books@
    }
}

/// An identifier from `uuid::Uuid::new_v4`, as the 128 bits that
/// `Uuid::as_u128` gives. It is drawn at random, so nothing is said of it:
/// not that it is new, nor that two calls differ. `new_v4` panics where the
/// system has no source of random bytes.
#[verifier::external_body]
fn fresh_id() -> (id: u128) {
    uuid::Uuid::new_v4().as_u128()
}

/// A new channel that holds at most `size` messages. Nobody has subscribed
/// to it yet. A capacity of zero is turned down.
pub fn use_channel<T>(size: usize) -> (made: Result<UseChannel<T>, ChannelError>)
    ensures
        size == 0 ==> made == Err::<UseChannel<T>, ChannelError>(ChannelError::InvalidCapacity),
        size > 0 ==> made is Ok && made->Ok_0@ == ChannelState::<T>::new(size as nat),
{
    if size == 0 {
        return Err(ChannelError::InvalidCapacity);
    }
    Ok(UseChannel { books: Ledger::new(fresh_id(), size) })
}

impl<T> UseChannel<T> {
    /// The books are in order, whatever was done to the channel.
    #[verifier::type_invariant]
    spec fn in_order(&self) -> bool {
        self.books.wf()
    }

    /// The identifier that the channel was given when it was made, and
    /// keeps.
    pub closed spec fn id(&self) -> u128 {
        self.books.id()
    }

    /// `r` is a listening subscription of this channel.
    pub open spec fn hears(&self, r: &Receiver) -> bool {
        self@.listening(r.place())
    }

    /// `r` is a parked subscription of this channel.
    pub open spec fn keeps(&self, r: &InactiveReceiver) -> bool {
        self@.parked(r.place())
    }

    /// Takes the books out, to be worked on and put back.
    fn open(&mut self) -> (books: Ledger<T>)
        ensures
            books == old(self).books,
            books.wf(),
    {
        proof {
            use_type_invariant(&*self);
        }
        let mut books = Ledger::new(0, 1);
        std::mem::swap(&mut self.books, &mut books);
        books
    }

    /// Whether `r` is a listening subscription of this channel, for a
    /// caller that cannot know it otherwise.
    pub fn is_listening(&self, r: &Receiver) -> (listening: bool)
        ensures
            listening == self.hears(r),
            self@.wf(),
    {
        proof {
            use_type_invariant(self);
        }
        self.books.is_listening(r.index)
    }

    /// Whether `r` is a parked subscription of this channel, for a caller
    /// that cannot know it otherwise.
    pub fn is_parked(&self, r: &InactiveReceiver) -> (parked: bool)
        ensures
            parked == self.keeps(r),
            self@.wf(),
    {
        proof {
            use_type_invariant(self);
        }
        self.books.is_parked(r.index)
    }

    /// Offers `msg` to the channel without waiting.
    ///
    /// A closed channel gives the message back as `Closed`. A channel whose
    /// buffer is at capacity gives it back as `Full` and counts one miss for
    /// every lagging subscription, which is told of it when it next reads.
    /// Otherwise every listening subscription gets the message to read; where
    /// none listens the message is let go, and the call still succeeds.
    pub fn try_send(&mut self, msg: T) -> (sent: Result<(), TrySendError<T>>)
        ensures
            old(self)@.wf(),
            final(self)@.wf(),
            sent == old(self)@.try_send_result(msg),
            final(self)@ == old(self)@.after_try_send(msg),
            forall|i: int| #[trigger] old(self)@.listening(i) ==> final(self)@.listening(i),
            final(self).id() == old(self).id(),
    {
        let mut books = self.open();
        let sent = books.try_send(msg);
        self.books = books;
        sent
    }

    /// Offers `msg` to the channel for a sender that is ready to wait.
    ///
    /// As `try_send`, but a channel whose buffer is at capacity gives the
    /// message back as `WouldBlock` and is left as it was: the message is not
    /// lost, so no miss is counted. The sender offers it again after a
    /// subscription has read on, or after the channel was closed.
    pub fn send(&mut self, msg: T) -> (status: SendStatus<T>)
        ensures
            old(self)@.wf(),
            final(self)@.wf(),
            status == old(self)@.send_result(msg),
            final(self)@ == old(self)@.after_send(msg),
            forall|i: int| #[trigger] old(self)@.listening(i) ==> final(self)@.listening(i),
            final(self).id() == old(self).id(),
    {
        let mut books = self.open();
        let status = books.send(msg);
        self.books = books;
        status
    }

    /// Closes the channel: nothing more is taken, and a subscription that
    /// has read everything is told so.
    pub fn close(&mut self)
        ensures
            old(self)@.wf(),
            final(self)@.wf(),
            final(self)@ == old(self)@.after_close(),
            forall|i: int| #[trigger] old(self)@.listening(i) ==> final(self)@.listening(i),
            final(self).id() == old(self).id(),
    {
        let mut books = self.open();
        books.close();
        self.books = books;
    }

    /// A new subscription, which listens from now on: it gets what is sent
    /// after this call, and nothing that was sent before.
    pub fn receiver(&mut self) -> (r: Receiver)
        ensures
            old(self)@.wf(),
            final(self)@.wf(),
            final(self)@ == old(self)@.after_subscribe(),
            forall|i: int| #[trigger] old(self)@.listening(i) ==> final(self)@.listening(i),
            r.place() == old(self)@.cursors.len(),
            final(self).hears(&r),
            final(self).id() == old(self).id(),
    {
        let mut books = self.open();
        let index = books.subscribe();
        self.books = books;
        Receiver { index }
    }

    /// The next thing that the subscription `r` has to be told.
    ///
    /// First the misses that were counted for it since it last read, as
    /// `Overflowed`, which clears the count. Then its oldest unread message,
    /// as a clone, and the subscription moves on by one. With nothing to
    /// read, `Closed` on a closed channel and `Empty` on an open one.
    pub fn try_recv(&mut self, r: &Receiver) -> (got: Result<T, TryRecvError>) where T: Clone
        requires
            old(self).hears(r),
        ensures
            old(self)@.wf(),
            final(self)@.wf(),
            final(self)@ == old(self)@.after_try_recv(r.place()),
            forall|i: int| #[trigger] old(self)@.listening(i) ==> final(self)@.listening(i),
            match (got, old(self)@.try_recv_result(r.place())) {
                (Ok(msg), Ok(oldest)) => cloned(oldest, msg),
                (Err(e), Err(expected)) => e == expected,
                _ => false,
            },
            final(self).id() == old(self).id(),
    {
        let mut books = self.open();
        let got = books.try_recv(r.index);
        self.books = books;
        got
    }

    /// Parks the subscription `r`: it gives up what it had yet to read and
    /// the misses it had not been told of, and from now on holds no message
    /// back and no sender up.
    pub fn deactivate(&mut self, r: Receiver) -> (parked: InactiveReceiver)
        requires
            old(self).hears(&r),
        ensures
            old(self)@.wf(),
            final(self)@.wf(),
            final(self)@ == old(self)@.after_deactivate(r.place()),
            forall|i: int|
                #[trigger] old(self)@.listening(i) && i != r.place() ==> final(self)@.listening(i),
            parked.place() == r.place(),
            final(self).keeps(&parked),
            final(self).id() == old(self).id(),
    {
        let mut books = self.open();
        books.deactivate(r.index);
        self.books = books;
        InactiveReceiver { index: r.index }
    }

    /// Makes the parked subscription `r` listen again, from now on: it gets
    /// what is sent after this call, and nothing that was sent while it was
    /// parked.
    pub fn activate(&mut self, r: InactiveReceiver) -> (listening: Receiver)
        requires
            old(self).keeps(&r),
        ensures
            old(self)@.wf(),
            final(self)@.wf(),
            final(self)@ == old(self)@.after_activate(r.place()),
            forall|i: int| #[trigger] old(self)@.listening(i) ==> final(self)@.listening(i),
            listening.place() == r.place(),
            final(self).hears(&listening),
            final(self).id() == old(self).id(),
    {
        let mut books = self.open();
        books.activate(r.index);
        self.books = books;
        Receiver { index: r.index }
    }
}

impl<T> PartialEq for UseChannel<T> {
    /// Two channels are equal if their identifiers agree. What they hold is
    /// not compared.
    fn eq(&self, other: &Self) -> (same: bool) {
        self.books.identifier() == other.books.identifier()
    }
}

impl<T> PartialEqSpecImpl for UseChannel<T> {
    open spec fn obeys_eq_spec() -> bool {
        true
    }

    open spec fn eq_spec(&self, other: &Self) -> bool {
        self.id() == other.id()
    }
}

} // verus!
