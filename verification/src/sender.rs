//! The sending side of a channel.
use crate::errors::TrySendError;
use crate::futures::Send;
use crate::inner::{Inner, Registry};
use crate::model::Channel;
use std::marker::PhantomData;
use vstd::prelude::*;

verus! {

/// The sending side of the broadcast channel.
///
/// Senders can be cloned and shared among tasks. When all senders associated with a channel are
/// dropped, the channel becomes closed.
///
/// The channel can also be closed manually by calling [`Sender::close`].
pub struct Sender<T> {
    pub(crate) id: Ghost<nat>,
    pub(crate) marker: PhantomData<T>,
}

impl<T> Sender<T> {
    /// The identity under which the sender is known to its channel.
    pub open(crate) spec fn id(&self) -> nat {
        self.id@
    }

    /// The sender belongs to the channel.
    pub open spec fn attached(&self, ch: Channel<T>) -> bool {
        ch.senders.contains(self.id())
    }

    /// Returns the channel capacity.
    pub fn capacity(&self, inner: &Inner<T>) -> (cap: usize)
        ensures
            cap == inner@.capacity,
    {
        inner.capacity
    }

    /// Set the channel capacity.
    ///
    /// There are times when you need to change the channel's capacity after creating it. If the
    /// `new_cap` is less than the number of messages in the channel, the oldest messages will be
    /// dropped to shrink the channel.
    pub fn set_capacity(&mut self, inner: &mut Inner<T>, new_cap: usize)
        requires
            old(inner).wf(),
        ensures
            *final(self) == *old(self),
            final(inner).wf(),
            final(inner)@ == old(inner)@.set_capacity(new_cap as nat),
            final(inner)@.capacity == new_cap,
    {
        inner.set_capacity(new_cap);
    }

    /// If overflow mode is enabled on this channel.
    pub fn overflow(&self, inner: &Inner<T>) -> (overflow: bool)
        ensures
            overflow == inner@.overflow,
    {
        inner.overflow
    }

    /// Set overflow mode on the channel.
    ///
    /// When overflow mode is set, broadcasting to the channel will succeed even if the channel is
    /// full. It achieves that by removing the oldest message from the channel.
    pub fn set_overflow(&mut self, inner: &mut Inner<T>, overflow: bool)
        requires
            old(inner).wf(),
        ensures
            *final(self) == *old(self),
            final(inner).wf(),
            final(inner)@ == old(inner)@.set_overflow(overflow),
            final(inner)@.overflow == overflow,
    {
        inner.set_overflow(overflow);
    }

    /// Closes the channel.
    ///
    /// Returns `true` if this call has closed the channel and it was not closed already.
    ///
    /// The remaining messages can still be received.
    pub fn close(&self, inner: &mut Inner<T>) -> (closed: bool)
        requires
            old(inner).wf(),
        ensures
            closed == !old(inner)@.is_closed,
            final(inner).wf(),
            final(inner)@ == old(inner)@.close(),
            final(inner)@.is_closed,
    {
        inner.close()
    }

    /// Returns `true` if the channel is closed.
    pub fn is_closed(&self, inner: &Inner<T>) -> (closed: bool)
        ensures
            closed == inner@.is_closed,
    {
        inner.is_closed
    }

    /// Returns `true` if the channel is empty.
    pub fn is_empty(&self, inner: &Inner<T>) -> (empty: bool)
        ensures
            empty == (inner@.queue.len() == 0),
    {
        inner.queue.len() == 0
    }

    /// Returns `true` if the channel is full.
    pub fn is_full(&self, inner: &Inner<T>) -> (full: bool)
        ensures
            full == (inner@.queue.len() == inner@.capacity),
    {
        inner.queue.len() == inner.capacity
    }

    /// Returns the number of messages in the channel.
    pub fn len(&self, inner: &Inner<T>) -> (len: usize)
        ensures
            len == inner@.queue.len(),
    {
        inner.queue.len()
    }

    /// Returns the number of receivers for the channel.
    ///
    /// This does not include inactive receivers. Use [`Sender::inactive_receiver_count`] if you
    /// are interested in that.
    pub fn receiver_count(&self, inner: &Inner<T>) -> (count: usize)
        requires
            inner.wf(),
        ensures
            count == inner@.receivers.len(),
    {
        inner.receiver_count
    }

    /// Returns the number of inactive receivers for the channel.
    pub fn inactive_receiver_count(&self, inner: &Inner<T>) -> (count: usize)
        requires
            inner.wf(),
        ensures
            count == inner@.inactive.len(),
    {
        inner.inactive_receiver_count
    }

    /// Returns the number of senders for the channel.
    pub fn sender_count(&self, inner: &Inner<T>) -> (count: usize)
        requires
            inner.wf(),
        ensures
            count == inner@.senders.len(),
    {
        inner.sender_count
    }

    /// Makes another sender for the same channel.
    pub fn clone(&self, inner: &mut Inner<T>) -> (sender: Sender<T>)
        requires
            old(inner).wf(),
            old(inner)@.senders.len() < usize::MAX,
        ensures
            final(inner).wf(),
            final(inner)@ == old(inner)@.join_sender(),
            sender.id() == old(inner)@.next_id,
            sender.attached(final(inner)@),
            !sender.attached(old(inner)@),
    {
        proof {
            inner@.lemma_others_wf(0);
        }
        let ghost id = inner.registry@.next_id;
        inner.sender_count = inner.sender_count + 1;
        inner.registry = Ghost(
            Registry {
                senders: inner.registry@.senders.insert(id),
                next_id: id + 1,
                ..inner.registry@
            },
        );
        assert(inner@ =~= old(inner)@.join_sender());
        Sender { id: Ghost(id), marker: PhantomData }
    }

    /// Takes the sender off its channel, which closes when no other sender is left.
    pub fn drop(&mut self, inner: &mut Inner<T>)
        requires
            old(inner).wf(),
            old(self).attached(old(inner)@),
        ensures
            *final(self) == *old(self),
            final(inner).wf(),
            final(inner)@ == old(inner)@.leave_sender(old(self).id()),
    {
        proof {
            inner@.lemma_others_wf(self.id());
        }
        inner.sender_count = inner.sender_count - 1;
        inner.registry = Ghost(
            Registry {
                senders: inner.registry@.senders.remove(self.id()),
                ..inner.registry@
            },
        );
        if inner.sender_count == 0 {
            inner.close();
        }
        assert(inner@ =~= old(inner)@.leave_sender(self.id()));
    }
}

impl<T: Clone> Sender<T> {
    /// Broadcasts a message on the channel.
    ///
    /// If the channel is full, the operation that is returned waits until there is space for a
    /// message unless overflow mode (set through [`Sender::set_overflow`]) is enabled. If the
    /// overflow mode is enabled it removes the oldest message from the channel to make room for
    /// the new message. The removed message is returned to the caller.
    ///
    /// If the channel is closed, the operation ends with an error.
    pub fn broadcast(&self, msg: T) -> (send: Send<'_, T>)
        ensures
            send.sender() == self,
            send.message() == Some(msg),
            send.registration() is None,
    {
        Send { sender: self, listener: None, msg: Some(msg) }
    }

    /// Attempts to broadcast a message on the channel.
    ///
    /// If the channel is full, this method returns an error unless overflow mode (set through
    /// [`Sender::set_overflow`]) is enabled. If the overflow mode is enabled, it removes the
    /// oldest message from the channel to make room for the new message. The removed message
    /// is returned to the caller. A channel whose capacity was set to zero holds no message, so
    /// there the new message itself is returned.
    ///
    /// If the channel is closed, this method returns an error.
    pub fn try_broadcast(&self, inner: &mut Inner<T>, msg: T) -> (result: Result<
        Option<T>,
        TrySendError<T>,
    >)
        requires
            old(inner).wf(),
        ensures
            result == old(inner)@.broadcast_result(msg),
            match result {
                Ok(None) => !old(inner)@.is_closed && old(inner)@.receivers.len() > 0
                    && old(inner)@.queue.len() < old(inner)@.capacity,
                Ok(Some(oldest)) => {
                    &&& !old(inner)@.is_closed
                    &&& old(inner)@.receivers.len() > 0
                    &&& old(inner)@.queue.len() == old(inner)@.capacity
                    &&& old(inner)@.overflow
                    &&& old(inner)@.queue.len() > 0 ==> oldest == old(inner)@.queue[0].0
                    &&& old(inner)@.queue.len() == 0 ==> oldest == msg
                },
                Err(TrySendError::Full(refused)) => {
                    &&& refused == msg
                    &&& !old(inner)@.is_closed
                    &&& old(inner)@.receivers.len() > 0
                    &&& old(inner)@.queue.len() == old(inner)@.capacity
                    &&& !old(inner)@.overflow
                },
                Err(TrySendError::Closed(refused)) => refused == msg && old(inner)@.is_closed,
                Err(TrySendError::Inactive(refused)) => refused == msg && !old(inner)@.is_closed
                    && old(inner)@.receivers.len() == 0,
            },
            final(inner).wf(),
            final(inner)@ == old(inner)@.broadcast(msg),
    {
        proof {
            inner@.lemma_broadcast_wf(msg);
        }
        let mut ret: Option<T> = None;
        if inner.is_closed {
            return Err(TrySendError::Closed(msg));
        } else if inner.receiver_count == 0 {
            assert(inner.inactive_receiver_count != 0);
            return Err(TrySendError::Inactive(msg));
        } else if inner.queue.len() == inner.capacity {
            if inner.overflow {
                // Make room by popping a message.
                inner.head.advance(1);
                match inner.queue.pop_front() {
                    Some((oldest, _)) => {
                        ret = Some(oldest);
                    },
                    None => {
                        // There is no room for even one message.
                        inner.recv_ops.notify(usize::MAX);
                        assert(inner@ =~= old(inner)@.broadcast(msg));
                        return Ok(Some(msg));
                    },
                }
            } else {
                return Err(TrySendError::Full(msg));
            }
        }
        let receiver_count: usize = inner.receiver_count;
        inner.queue.push_back((msg, receiver_count));
        // Notify all awaiting receive operations.
        inner.recv_ops.notify(usize::MAX);
        assert(inner@ =~= old(inner)@.broadcast(msg));
        Ok(ret)
    }
}

} // verus!
