//! The receiving side of a channel.
use crate::errors::TryRecvError;
use crate::futures::{Recv, Step};
use crate::inactive::InactiveReceiver;
use crate::inner::{entries, entry_mut, Inner, Registry};
use crate::model::{release, strip, Channel};
use crate::number::Number;
use crate::signal::{poll_signal, polled_after, Registration, Task};
use std::marker::PhantomData;
use vstd::prelude::*;

verus! {

/// The receiving side of a channel.
///
/// Receivers can be cloned and shared among tasks. When all (active) receivers associated with a
/// channel are dropped, the channel becomes closed. You can deactivate a receiver using
/// [`Receiver::deactivate`] if you would like the channel to remain open without keeping active
/// receivers around.
pub struct Receiver<T> {
    // The number of the message to receive next.
    pub(crate) pos: Number,
    /// Listens for a send or close event to unblock the stream.
    pub(crate) listener: Option<Registration>,
    pub(crate) id: Ghost<nat>,
    pub(crate) marker: PhantomData<T>,
}

impl<T> Receiver<T> {
    /// The identity under which the receiver is known to its channel.
    pub open(crate) spec fn id(&self) -> nat {
        self.id@
    }

    /// The number of the message that the receiver was to receive next when it last received one,
    /// or joined.
    pub open(crate) spec fn pos(&self) -> nat {
        self.pos@
    }

    /// The notification that the receiver, as a stream, is registered for.
    pub open(crate) spec fn registration(&self) -> Option<Registration> {
        self.listener
    }

    /// The receiver belongs to the channel, which knows how far it has come.
    pub open spec fn attached(&self, ch: Channel<T>) -> bool {
        ch.receivers.contains_key(self.id()) && ch.receivers[self.id()] == self.pos()
    }

    /// Returns the channel capacity.
    pub fn capacity(&self, inner: &Inner<T>) -> (cap: usize)
        ensures
            cap == inner@.capacity,
    {
        inner.capacity
    }

    /// Set the channel capacity.
    ///
    /// There are times when you need to change the channel's capacity after creating it. If the
    /// `new_cap` is less than the number of messages in the channel, the oldest messages will be
    /// dropped to shrink the channel.
    pub fn set_capacity(&mut self, inner: &mut Inner<T>, new_cap: usize)
        requires
            old(inner).wf(),
        ensures
            *final(self) == *old(self),
            final(inner).wf(),
            final(inner)@ == old(inner)@.set_capacity(new_cap as nat),
            final(inner)@.capacity == new_cap,
    {
        inner.set_capacity(new_cap);
    }

    /// If overflow mode is enabled on this channel.
    pub fn overflow(&self, inner: &Inner<T>) -> (overflow: bool)
        ensures
            overflow == inner@.overflow,
    {
        inner.overflow
    }

    /// Set overflow mode on the channel.
    ///
    /// When overflow mode is set, broadcasting to the channel will succeed even if the channel is
    /// full. It achieves that by removing the oldest message from the channel.
    pub fn set_overflow(&mut self, inner: &mut Inner<T>, overflow: bool)
        requires
            old(inner).wf(),
        ensures
            *final(self) == *old(self),
            final(inner).wf(),
            final(inner)@ == old(inner)@.set_overflow(overflow),
            final(inner)@.overflow == overflow,
    {
        inner.set_overflow(overflow);
    }

    /// Closes the channel.
    ///
    /// Returns `true` if this call has closed the channel and it was not closed already.
    ///
    /// The remaining messages can still be received.
    pub fn close(&self, inner: &mut Inner<T>) -> (closed: bool)
        requires
            old(inner).wf(),
        ensures
            closed == !old(inner)@.is_closed,
            final(inner).wf(),
            final(inner)@ == old(inner)@.close(),
            final(inner)@.is_closed,
    {
        inner.close()
    }

    /// Returns `true` if the channel is closed.
    pub fn is_closed(&self, inner: &Inner<T>) -> (closed: bool)
        ensures
            closed == inner@.is_closed,
    {
        inner.is_closed
    }

    /// Returns `true` if the channel is empty.
    pub fn is_empty(&self, inner: &Inner<T>) -> (empty: bool)
        ensures
            empty == (inner@.queue.len() == 0),
    {
        inner.queue.len() == 0
    }

    /// Returns `true` if the channel is full.
    pub fn is_full(&self, inner: &Inner<T>) -> (full: bool)
        ensures
            full == (inner@.queue.len() == inner@.capacity),
    {
        inner.queue.len() == inner.capacity
    }

    /// Returns the number of messages in the channel.
    pub fn len(&self, inner: &Inner<T>) -> (len: usize)
        ensures
            len == inner@.queue.len(),
    {
        inner.queue.len()
    }

    /// Returns the number of receivers for the channel.
    ///
    /// This does not include inactive receivers. Use [`Receiver::inactive_receiver_count`] if you
    /// are interested in that.
    pub fn receiver_count(&self, inner: &Inner<T>) -> (count: usize)
        requires
            inner.wf(),
        ensures
            count == inner@.receivers.len(),
    {
        inner.receiver_count
    }

    /// Returns the number of inactive receivers for the channel.
    pub fn inactive_receiver_count(&self, inner: &Inner<T>) -> (count: usize)
        requires
            inner.wf(),
        ensures
            count == inner@.inactive.len(),
    {
        inner.inactive_receiver_count
    }

    /// Returns the number of senders for the channel.
    pub fn sender_count(&self, inner: &Inner<T>) -> (count: usize)
        requires
            inner.wf(),
        ensures
            count == inner@.senders.len(),
    {
        inner.sender_count
    }

    /// Where in the queue the receiver's next message stands; the length of the queue where there
    /// is none.
    fn next_index(&self, inner: &Inner<T>) -> (index: usize)
        requires
            self.pos() <= inner@.tail(),
        ensures
            index == inner@.next_index(self.pos()),
            index <= inner@.queue.len(),
    {
        let len: usize = inner.queue.len();
        assert(inner@.next_index(self.pos()) <= len);
        self.pos.minus(&inner.head) as usize
    }

    /// Makes another receiver for the same channel. It receives what is sent from now on.
    pub fn clone(&self, inner: &mut Inner<T>) -> (receiver: Receiver<T>)
        requires
            old(inner).wf(),
            old(inner)@.receivers.len() < usize::MAX,
        ensures
            final(inner).wf(),
            final(inner)@ == old(inner)@.join(),
            receiver.id() == old(inner)@.next_id,
            receiver.attached(final(inner)@),
            !receiver.attached(old(inner)@),
            receiver.registration() is None,
    {
        proof {
            inner@.lemma_join_wf();
        }
        let receiver = Receiver::new(inner);
        assert(inner@ =~= old(inner)@.join());
        receiver
    }

    /// Counts in a new receiver, which has nothing to receive.
    pub(crate) fn new(inner: &mut Inner<T>) -> (receiver: Receiver<T>)
        requires
            old(inner).counted(),
            old(inner)@.receivers.len() < usize::MAX,
            old(inner)@.receivers.dom().finite(),
            !old(inner)@.receivers.contains_key(old(inner)@.next_id),
        ensures
            final(inner).counted(),
            final(inner)@ == old(inner)@.join(),
            receiver.id() == old(inner)@.next_id,
            receiver.pos() == old(inner)@.tail(),
            receiver.registration() is None,
    {
        let ghost id = inner.registry@.next_id;
        let mut pos = inner.head.copy();
        pos.advance(inner.queue.len() as u64);
        let receiver = Receiver { pos, listener: None, id: Ghost(id), marker: PhantomData };
        inner.receiver_count = inner.receiver_count + 1;
        inner.registry = Ghost(
            Registry {
                receivers: inner.registry@.receivers.insert(id, receiver.pos()),
                next_id: id + 1,
                ..inner.registry@
            },
        );
        assert(inner@ =~= old(inner)@.join());
        receiver
    }

    /// Takes the receiver off its channel. Messages that were kept for nobody else are given up,
    /// and the channel closes when no other receiver is left.
    pub fn drop(&mut self, inner: &mut Inner<T>)
        requires
            old(inner).wf(),
            old(self).attached(old(inner)@),
        ensures
            *final(self) == *old(self),
            final(inner).wf(),
            final(inner)@ == old(inner)@.leave(old(self).id()),
    {
        let ghost ch = inner@;
        proof {
            let _ = ch.lemma_leaving(self.id());
            ch.lemma_rest_is_kept(self.id());
        }
        let msg_index: usize = self.next_index(inner);
        let len: usize = inner.queue.len();
        for i in msg_index..len
            invariant
                len == ch.queue.len(),
                msg_index <= len,
                ch == old(inner)@,
                forall|j: int| msg_index <= j < len ==> #[trigger] ch.queue[j].1 > 0,
                inner.queue@.len() == len,
                forall|j: int|
                    0 <= j < len ==> (#[trigger] inner.queue@[j]).0 == ch.queue[j].0
                        && inner.queue@[j].1 == (if msg_index <= j < i {
                        ch.queue[j].1 - 1
                    } else {
                        ch.queue[j].1 as int
                    }),
                *inner == (Inner { queue: inner.queue, ..*old(inner) }),
        {
            assert(ch.queue[i as int].1 > 0);
            let entry = entry_mut(&mut inner.queue, i);
            entry.1 = entry.1 - 1;
        }
        let ghost released = release(ch.queue, msg_index as int);
        assert(entries(inner.queue@) =~= released);
        let mut popped: bool = false;
        while inner.queue.len() > 0 && inner.queue[0].1 == 0
            invariant
                strip(entries(inner.queue@)) == strip(released),
                popped == (inner.queue@.len() < released.len()),
                inner.queue@.len() <= released.len(),
                inner.head@ + inner.queue@.len() == old(inner).head@ + released.len(),
                *inner == (Inner { queue: inner.queue, head: inner.head, ..*old(inner) }),
            decreases inner.queue@.len(),
        {
            let ghost before = entries(inner.queue@);
            let _ = inner.queue.pop_front();
            inner.head.advance(1);
            assert(entries(inner.queue@) =~= before.drop_first());
            popped = true;
        }
        if popped && !inner.overflow {
            // Notify 1 awaiting senders that there is now room. If there is still room in the
            // queue, the notified operation will notify another awaiting sender.
            inner.send_ops.notify(1);
        }
        inner.receiver_count = inner.receiver_count - 1;
        inner.registry = Ghost(
            Registry {
                receivers: inner.registry@.receivers.remove(self.id()),
                ..inner.registry@
            },
        );
        inner.close_channel();
        assert(inner@ =~= ch.leave(self.id()));
    }

    /// Downgrade to a [`InactiveReceiver`].
    ///
    /// An inactive receiver is one that can not and does not receive any messages. Its only
    /// purpose is keep the associated channel open even when there are no (active) receivers. An
    /// inactive receiver can be upgraded into a [`Receiver`] using [`InactiveReceiver::activate`]
    /// or [`InactiveReceiver::activate_cloned`].
    ///
    /// [`Sender::try_broadcast`](crate::Sender::try_broadcast) will return
    /// [`TrySendError::Inactive`](crate::TrySendError::Inactive) if only inactive receivers exists
    /// for the associated channel and [`Sender::broadcast`](crate::Sender::broadcast) will wait
    /// until an active receiver is available.
    pub fn deactivate(self, inner: &mut Inner<T>) -> (inactive: InactiveReceiver<T>)
        requires
            old(inner).wf(),
            self.attached(old(inner)@),
            old(inner)@.inactive.len() < usize::MAX,
        ensures
            final(inner).wf(),
            final(inner)@ == old(inner)@.join_inactive().leave(self.id()),
            inactive.id() == old(inner)@.next_id,
            inactive.attached(final(inner)@),
            !inactive.attached(old(inner)@),
    {
        let inactive = InactiveReceiver::new(inner);
        let mut receiver = self;
        receiver.drop(inner);
        inactive
    }

    /// Returns `true` if the receiver, as a stream, has come to its end: the channel is closed and
    /// holds no messages.
    pub fn is_terminated(&self, inner: &Inner<T>) -> (terminated: bool)
        ensures
            terminated == (inner@.is_closed && inner@.queue.len() == 0),
    {
        inner.is_closed && inner.queue.len() == 0
    }

    /// Gives up the notification that the receiver, as a stream, is registered for.
    pub fn stop_listening(&mut self)
        ensures
            final(self).registration() is None,
            final(self).id() == old(self).id(),
            final(self).pos() == old(self).pos(),
    {
        self.listener = None;
    }

    /// Polls the notification that the receiver, as a stream, is registered for.
    ///
    /// Returns `true` if there is nothing to wait for, and `false` if the task has to wait on.
    pub fn poll_listener(&mut self, task: &mut Task<'_, '_>) -> (woken: bool)
        ensures
            woken == (final(self).registration() is None),
            old(self).registration() is None ==> woken,
            !woken ==> final(self).registration()->0.signal()
                == old(self).registration()->0.signal(),
            !woken ==> final(self).registration()->0.polls() == old(self).registration()->0.polls()
                + 1,
            final(task).polled() == polled_after(
                old(task).polled(),
                old(self).registration(),
                woken,
            ),
            final(self).id() == old(self).id(),
            final(self).pos() == old(self).pos(),
    {
        poll_signal(&mut self.listener, task)
    }
}

impl<T: Clone> Receiver<T> {
    /// Receives a message from the channel.
    ///
    /// If the channel is empty, the operation that is returned waits until there is a message.
    ///
    /// If the channel is closed, the operation receives a message or ends with an error if there
    /// are no more messages.
    pub fn recv(&mut self) -> (recv: Recv<'_, T>)
        ensures
            *recv.receiver() == *old(self),
            *final(self) == *final(recv.receiver()),
            recv.registration() is None,
    {
        Recv { receiver: self, listener: None }
    }

    /// Attempts to receive a message from the channel.
    ///
    /// If the channel is empty or closed, this method returns an error.
    pub fn try_recv(&mut self, inner: &mut Inner<T>) -> (result: Result<T, TryRecvError>)
        requires
            old(inner).wf(),
            old(self).attached(old(inner)@),
        ensures
            match result {
                Ok(msg) => old(inner)@.backlog(old(self).id()).len() > 0 && cloned(
                    old(inner)@.backlog(old(self).id())[0],
                    msg,
                ),
                Err(error) => old(inner)@.backlog(old(self).id()).len() == 0 && error
                    == old(inner)@.recv_error() && (error is Closed <==> old(inner)@.is_closed),
            },
            final(self).id() == old(self).id(),
            final(self).registration() == old(self).registration(),
            final(self).attached(final(inner)@),
            final(inner).wf(),
            final(inner)@ == old(inner)@.recv(old(self).id()),
    {
        let ghost ch = inner@;
        let ghost id = self.id();
        proof {
            ch.lemma_recv_wf(id);
            if ch.has_next(id) {
                ch.lemma_next_is_kept(id);
            }
            assert(ch.receivers.insert(id, ch.recv(id).receivers[id]).dom() =~= ch.receivers.dom());
        }
        let msg_index: usize = self.next_index(inner);
        if msg_index == inner.queue.len() {
            if inner.is_closed {
                return Err(TryRecvError::Closed);
            } else {
                return Err(TryRecvError::Empty);
            }
        }
        let msg = inner.queue[msg_index].0.clone();
        self.pos = inner.head.copy();
        self.pos.advance(msg_index as u64);
        self.pos.advance(1);
        let entry = entry_mut(&mut inner.queue, msg_index);
        entry.1 = entry.1 - 1;
        if inner.queue[msg_index].1 == 0 {
            let _ = inner.queue.pop_front();
            inner.head.advance(1);
            if !inner.overflow {
                // Notify 1 awaiting senders that there is now room. If there is still room in the
                // queue, the notified operation will notify another awaiting sender.
                inner.send_ops.notify(1);
            }
        }
        inner.registry = Ghost(
            Registry {
                receivers: inner.registry@.receivers.insert(id, self.pos()),
                ..inner.registry@
            },
        );
        assert(inner@ =~= ch.recv(id));
        Ok(msg)
    }

    /// One turn of the receiver as a stream: attempts to receive, and registers for a notification
    /// where there is nothing to receive yet.
    ///
    /// Where it says to wait, [`Receiver::poll_listener`] is to be called before the next turn.
    pub fn poll_next(&mut self, inner: &mut Inner<T>) -> (step: Step<Option<T>>)
        requires
            old(inner).wf(),
            old(self).attached(old(inner)@),
        ensures
            final(self).id() == old(self).id(),
            final(self).attached(final(inner)@),
            final(inner).wf(),
            match step {
                Step::Ready(Some(msg)) => {
                    &&& old(inner)@.backlog(old(self).id()).len() > 0
                    &&& cloned(old(inner)@.backlog(old(self).id())[0], msg)
                    &&& final(inner)@ == old(inner)@.recv(old(self).id())
                    &&& final(self).registration() is None
                },
                Step::Ready(None) => {
                    &&& old(inner)@.backlog(old(self).id()).len() == 0
                    &&& old(inner)@.is_closed
                    &&& final(inner)@ == old(inner)@
                    &&& final(self).registration() is None
                },
                Step::Retry => {
                    &&& old(inner)@.backlog(old(self).id()).len() == 0
                    &&& !old(inner)@.is_closed
                    &&& old(self).registration() is None
                    &&& final(inner)@ == old(inner)@.await_message()
                    &&& final(self).registration() is Some
                    &&& final(self).registration()->0.signal() == old(inner)@.recv_ops.id
                    &&& final(self).registration()->0.polls() == 0
                },
                Step::Wait => {
                    &&& old(inner)@.backlog(old(self).id()).len() == 0
                    &&& !old(inner)@.is_closed
                    &&& old(self).registration() is Some
                    &&& final(inner)@ == old(inner)@
                    &&& final(self).registration() == old(self).registration()
                },
            },
    {
        // Attempt to receive a message.
        match self.try_recv(inner) {
            Ok(msg) => {
                // The stream is not blocked on an event - drop the listener.
                self.listener = None;
                return Step::Ready(Some(msg));
            },
            Err(TryRecvError::Closed) => {
                // The stream is not blocked on an event - drop the listener.
                self.listener = None;
                return Step::Ready(None);
            },
            Err(TryRecvError::Empty) => {},
        }
        // Receiving failed - now start listening for notifications or wait for one.
        if self.listener.is_none() {
            // Start listening and then try receiving again.
            self.listener = Some(inner.listen_for_message());
            Step::Retry
        } else {
            Step::Wait
        }
    }
}

} // verus!
