//! Receivers that do not receive.
use crate::inner::{Inner, Registry};
use crate::model::Channel;
use crate::receiver::Receiver;
use std::marker::PhantomData;
use vstd::prelude::*;

verus! {

/// An inactive receiver.
///
/// An inactive receiver is a receiver that is unable to receive messages. It's only useful for
/// keeping a channel open even when no associated active receivers exist.
pub struct InactiveReceiver<T> {
    pub(crate) id: Ghost<nat>,
    pub(crate) marker: PhantomData<T>,
}

impl<T> InactiveReceiver<T> {
    /// The identity under which the inactive receiver is known to its channel.
    pub open(crate) spec fn id(&self) -> nat {
        self.id@
    }

    /// The inactive receiver belongs to the channel.
    pub open spec fn attached(&self, ch: Channel<T>) -> bool {
        ch.inactive.contains(self.id())
    }

    /// Counts in a new inactive receiver.
    pub(crate) fn new(inner: &mut Inner<T>) -> (inactive: InactiveReceiver<T>)
        requires
            old(inner).wf(),
            old(inner)@.inactive.len() < usize::MAX,
        ensures
            final(inner).wf(),
            final(inner)@ == old(inner)@.join_inactive(),
            inactive.id() == old(inner)@.next_id,
            !inactive.attached(old(inner)@),
    {
        proof {
            inner@.lemma_others_wf(0);
        }
        let ghost id = inner.registry@.next_id;
        inner.inactive_receiver_count = inner.inactive_receiver_count + 1;
        inner.registry = Ghost(
            Registry {
                inactive: inner.registry@.inactive.insert(id),
                next_id: id + 1,
                ..inner.registry@
            },
        );
        assert(inner@ =~= old(inner)@.join_inactive());
        InactiveReceiver { id: Ghost(id), marker: PhantomData }
    }

    /// Convert to an activate [`Receiver`].
    ///
    /// Consumes `self`. Use [`InactiveReceiver::activate_cloned`] if you want to keep `self`.
    pub fn activate(self, inner: &mut Inner<T>) -> (receiver: Receiver<T>)
        requires
            old(inner).wf(),
            self.attached(old(inner)@),
            old(inner)@.receivers.len() < usize::MAX,
        ensures
            final(inner).wf(),
            final(inner)@ == old(inner)@.activate().leave_inactive(self.id()),
            receiver.id() == old(inner)@.next_id,
            receiver.attached(final(inner)@),
            !receiver.attached(old(inner)@),
            receiver.registration() is None,
    {
        let receiver = self.activate_cloned(inner);
        let mut inactive = self;
        inactive.drop(inner);
        receiver
    }

    /// Create an activate [`Receiver`] for the associated channel.
    pub fn activate_cloned(&self, inner: &mut Inner<T>) -> (receiver: Receiver<T>)
        requires
            old(inner).wf(),
            old(inner)@.receivers.len() < usize::MAX,
        ensures
            final(inner).wf(),
            final(inner)@ == old(inner)@.activate(),
            receiver.id() == old(inner)@.next_id,
            receiver.attached(final(inner)@),
            !receiver.attached(old(inner)@),
            receiver.registration() is None,
    {
        proof {
            inner@.lemma_join_wf();
        }
        let receiver = Receiver::new(inner);
        if inner.receiver_count == 1 {
            // Notify 1 awaiting senders that there is now a receiver. If there is still room in
            // the queue, the notified operation will notify another awaiting sender.
            inner.send_ops.notify(1);
        }
        assert(inner@ =~= old(inner)@.activate());
        receiver
    }

    /// Returns the channel capacity.
    pub fn capacity(&self, inner: &Inner<T>) -> (cap: usize)
        ensures
            cap == inner@.capacity,
    {
        inner.capacity
    }

    /// Set the channel capacity.
    ///
    /// There are times when you need to change the channel's capacity after creating it. If the
    /// `new_cap` is less than the number of messages in the channel, the oldest messages will be
    /// dropped to shrink the channel.
    pub fn set_capacity(&mut self, inner: &mut Inner<T>, new_cap: usize)
        requires
            old(inner).wf(),
        ensures
            *final(self) == *old(self),
            final(inner).wf(),
            final(inner)@ == old(inner)@.set_capacity(new_cap as nat),
            final(inner)@.capacity == new_cap,
    {
        inner.set_capacity(new_cap);
    }

    /// If overflow mode is enabled on this channel.
    pub fn overflow(&self, inner: &Inner<T>) -> (overflow: bool)
        ensures
            overflow == inner@.overflow,
    {
        inner.overflow
    }

    /// Set overflow mode on the channel.
    ///
    /// When overflow mode is set, broadcasting to the channel will succeed even if the channel is
    /// full. It achieves that by removing the oldest message from the channel.
    pub fn set_overflow(&mut self, inner: &mut Inner<T>, overflow: bool)
        requires
            old(inner).wf(),
        ensures
            *final(self) == *old(self),
            final(inner).wf(),
            final(inner)@ == old(inner)@.set_overflow(overflow),
            final(inner)@.overflow == overflow,
    {
        inner.set_overflow(overflow);
    }

    /// Closes the channel.
    ///
    /// Returns `true` if this call has closed the channel and it was not closed already.
    ///
    /// The remaining messages can still be received.
    pub fn close(&self, inner: &mut Inner<T>) -> (closed: bool)
        requires
            old(inner).wf(),
        ensures
            closed == !old(inner)@.is_closed,
            final(inner).wf(),
            final(inner)@ == old(inner)@.close(),
            final(inner)@.is_closed,
    {
        inner.close()
    }

    /// Returns `true` if the channel is closed.
    pub fn is_closed(&self, inner: &Inner<T>) -> (closed: bool)
        ensures
            closed == inner@.is_closed,
    {
        inner.is_closed
    }

    /// Returns `true` if the channel is empty.
    pub fn is_empty(&self, inner: &Inner<T>) -> (empty: bool)
        ensures
            empty == (inner@.queue.len() == 0),
    {
        inner.queue.len() == 0
    }

    /// Returns `true` if the channel is full.
    pub fn is_full(&self, inner: &Inner<T>) -> (full: bool)
        ensures
            full == (inner@.queue.len() == inner@.capacity),
    {
        inner.queue.len() == inner.capacity
    }

    /// Returns the number of messages in the channel.
    pub fn len(&self, inner: &Inner<T>) -> (len: usize)
        ensures
            len == inner@.queue.len(),
    {
        inner.queue.len()
    }

    /// Returns the number of receivers for the channel.
    ///
    /// This does not include inactive receivers. Use [`InactiveReceiver::inactive_receiver_count`]
    /// if you are interested in that.
    pub fn receiver_count(&self, inner: &Inner<T>) -> (count: usize)
        requires
            inner.wf(),
        ensures
            count == inner@.receivers.len(),
    {
        inner.receiver_count
    }

    /// Returns the number of inactive receivers for the channel.
    pub fn inactive_receiver_count(&self, inner: &Inner<T>) -> (count: usize)
        requires
            inner.wf(),
        ensures
            count == inner@.inactive.len(),
    {
        inner.inactive_receiver_count
    }

    /// Returns the number of senders for the channel.
    pub fn sender_count(&self, inner: &Inner<T>) -> (count: usize)
        requires
            inner.wf(),
        ensures
            count == inner@.senders.len(),
    {
        inner.sender_count
    }

    /// Makes another inactive receiver for the same channel.
    pub fn clone(&self, inner: &mut Inner<T>) -> (inactive: InactiveReceiver<T>)
        requires
            old(inner).wf(),
            old(inner)@.inactive.len() < usize::MAX,
        ensures
            final(inner).wf(),
            final(inner)@ == old(inner)@.join_inactive(),
            inactive.id() == old(inner)@.next_id,
            inactive.attached(final(inner)@),
            !inactive.attached(old(inner)@),
    {
        InactiveReceiver::new(inner)
    }

    /// Takes the inactive receiver off its channel, which closes when no other receiver is left,
    /// be it active or inactive.
    pub fn drop(&mut self, inner: &mut Inner<T>)
        requires
            old(inner).wf(),
            old(self).attached(old(inner)@),
        ensures
            *final(self) == *old(self),
            final(inner).wf(),
            final(inner)@ == old(inner)@.leave_inactive(old(self).id()),
    {
        proof {
            inner@.lemma_others_wf(self.id());
        }
        inner.inactive_receiver_count = inner.inactive_receiver_count - 1;
        inner.registry = Ghost(
            Registry {
                inactive: inner.registry@.inactive.remove(self.id()),
                ..inner.registry@
            },
        );
        inner.close_channel();
        assert(inner@ =~= old(inner)@.leave_inactive(self.id()));
    }
}

} // verus!
