//! The state that the two sides of a channel share.
use crate::model::Channel;
use crate::number::Number;
use crate::signal::{Registration, Signal};
use std::collections::VecDeque;
use vstd::prelude::*;

verus! {

/// The handles of a channel, by their identities.
pub struct Registry {
    /// The senders.
    pub senders: Set<nat>,
    /// The active receivers, each with the number of the message that it is to receive next.
    pub receivers: Map<nat, nat>,
    /// The inactive receivers.
    pub inactive: Set<nat>,
    /// The next identity to be given out.
    pub next_id: nat,
}

/// The state that the two sides of a channel share.
///
/// Every operation of a handle takes the state of its channel as an argument. Where handles are
/// used from several tasks, the state belongs behind a lock.
pub struct Inner<T> {
    pub(crate) queue: VecDeque<(T, usize)>,
    // The queue grows as it needs to, so its allocation says nothing about the capacity that was
    // asked for.
    pub(crate) capacity: usize,
    pub(crate) receiver_count: usize,
    pub(crate) inactive_receiver_count: usize,
    pub(crate) sender_count: usize,
    // How many messages have left the front of the queue.
    pub(crate) head: Number,
    pub(crate) overflow: bool,
    pub(crate) is_closed: bool,
    /// Send operations waiting while the channel is full.
    pub(crate) send_ops: Signal,
    /// Receive operations waiting while the channel is empty and not closed.
    pub(crate) recv_ops: Signal,
    /// Who belongs to the channel. The counts above are the sizes of what it holds.
    pub(crate) registry: Ghost<Registry>,
}

/// The entries of a queue with their counts as numbers of any size.
pub open spec fn entries<T>(queue: Seq<(T, usize)>) -> Seq<(T, nat)> {
    Seq::new(queue.len(), |j: int| (queue[j].0, queue[j].1 as nat))
}

/// `VecDeque::index_mut`: the entry at `i`, which can be written through. It panics where there is
/// no such entry.
#[verifier::external_body]
pub(crate) fn entry_mut<T>(queue: &mut VecDeque<(T, usize)>, i: usize) -> (entry: &mut (T, usize))
    requires
        i < old(queue)@.len(),
    ensures
        *entry == old(queue)@[i as int],
        final(queue)@ == old(queue)@.update(i as int, *final(entry)),
{
    &mut queue[i]
}

/// `VecDeque::try_reserve`: sees to it, if memory allows, that `additional` more entries fit
/// without another allocation. The entries stay as they are.
#[verifier::external_body]
pub(crate) fn reserve<T>(queue: &mut VecDeque<(T, usize)>, additional: usize)
    ensures
        final(queue)@ == old(queue)@,
{
    let _ = queue.try_reserve(additional);
}

impl<T> View for Inner<T> {
    type V = Channel<T>;

    open(crate) spec fn view(&self) -> Channel<T> {
        Channel {
            queue: entries(self.queue@),
            head: self.head@,
            capacity: self.capacity as nat,
            overflow: self.overflow,
            is_closed: self.is_closed,
            senders: self.registry@.senders,
            receivers: self.registry@.receivers,
            inactive: self.registry@.inactive,
            next_id: self.registry@.next_id,
            send_ops: self.send_ops@,
            recv_ops: self.recv_ops@,
        }
    }
}

impl<T> Inner<T> {
    /// The counts of the handles are right.
    pub open(crate) spec fn counted(&self) -> bool {
        &&& self.receiver_count == self@.receivers.len()
        &&& self.inactive_receiver_count == self@.inactive.len()
        &&& self.sender_count == self@.senders.len()
    }

    /// The channel is well formed, and its handles have been counted.
    pub open(crate) spec fn wf(&self) -> bool {
        self@.wf() && self.counted()
    }

    /// A new channel, with one sender and one receiver.
    pub(crate) fn new(cap: usize) -> (inner: Inner<T>)
        ensures
            inner.wf(),
            inner@ == Channel::<T>::init(cap as nat, inner@.send_ops.id, inner@.recv_ops.id),
    {
        let mut queue: VecDeque<(T, usize)> = VecDeque::new();
        reserve(&mut queue, cap);
        let send_ops = Signal::new();
        let recv_ops = Signal::new();
        let ghost init = Channel::<T>::init(cap as nat, send_ops@.id, recv_ops@.id);
        let inner = Inner {
            queue,
            capacity: cap,
            receiver_count: 1,
            inactive_receiver_count: 0,
            sender_count: 1,
            head: Number::zero(),
            overflow: false,
            is_closed: false,
            send_ops,
            recv_ops,
            registry: Ghost(
                Registry {
                    senders: init.senders,
                    receivers: init.receivers,
                    inactive: init.inactive,
                    next_id: init.next_id,
                },
            ),
        };
        proof {
            Channel::<T>::lemma_init_wf(cap as nat, send_ops@.id, recv_ops@.id);
            assert(inner@ =~= init);
            assert(init.receivers.dom() =~= set![1nat]);
        }
        inner
    }

    /// Whether another sender can be counted.
    pub fn can_count_sender(&self) -> (can: bool)
        requires
            self.wf(),
        ensures
            can == (self@.senders.len() < usize::MAX),
    {
        self.sender_count < usize::MAX
    }

    /// Whether another active receiver can be counted.
    pub fn can_count_receiver(&self) -> (can: bool)
        requires
            self.wf(),
        ensures
            can == (self@.receivers.len() < usize::MAX),
    {
        self.receiver_count < usize::MAX
    }

    /// Whether another inactive receiver can be counted.
    pub fn can_count_inactive_receiver(&self) -> (can: bool)
        requires
            self.wf(),
        ensures
            can == (self@.inactive.len() < usize::MAX),
    {
        self.inactive_receiver_count < usize::MAX
    }

    /// Closes the channel and notifies all waiting operations.
    ///
    /// Returns `true` if this call has closed the channel and it was not closed already.
    pub fn close(&mut self) -> (closed: bool)
        ensures
            closed == !old(self)@.is_closed,
            final(self)@ == old(self)@.close(),
            final(self)@.is_closed,
            old(self).counted() ==> final(self).counted(),
            old(self).wf() ==> final(self).wf(),
    {
        proof {
            if self.wf() {
                self@.lemma_close_wf();
            }
        }
        if self.is_closed {
            return false;
        }
        self.is_closed = true;
        // Notify all waiting senders and receivers.
        self.send_ops.notify(usize::MAX);
        self.recv_ops.notify(usize::MAX);
        true
    }

    /// Returns `true` if a message would not be refused for want of room.
    pub(crate) fn has_room(&self) -> (room: bool)
        ensures
            room == self@.has_room(),
    {
        self.queue.len() < self.capacity || self.overflow
    }

    /// Set the channel capacity.
    ///
    /// There are times when you need to change the channel's capacity after creating it. If the
    /// `new_cap` is less than the number of messages in the channel, the oldest messages will be
    /// dropped to shrink the channel.
    pub fn set_capacity(&mut self, new_cap: usize)
        requires
            old(self).wf(),
        ensures
            final(self).wf(),
            final(self)@ == old(self)@.set_capacity(new_cap as nat),
            final(self)@.capacity == new_cap,
    {
        proof {
            self@.lemma_set_capacity_wf(new_cap as nat);
        }
        let had_room: bool = self.has_room();
        self.capacity = new_cap;
        let len: usize = self.queue.len();
        if new_cap > len {
            reserve(&mut self.queue, new_cap - len);
        }
        // Ensure the queue doesn't have more than `new_cap` messages.
        if new_cap < len {
            let diff: usize = len - new_cap;
            let ghost before = self.queue@;
            for dropped in 0..diff
                invariant
                    diff <= before.len(),
                    self.queue@ == before.skip(dropped as int),
                    *self == (Inner { queue: self.queue, capacity: new_cap, ..*old(self) }),
            {
                let _ = self.queue.pop_front();
                assert(self.queue@ =~= before.skip(dropped + 1));
            }
            self.head.advance(diff as u64);
        }
        if self.has_room() && !had_room {
            // Notify 1 awaiting sender that there is now room. If there is still room in the
            // queue, the notified operation will notify another awaiting sender.
            self.send_ops.notify(1);
        }
        assert(self@ =~= old(self)@.set_capacity(new_cap as nat));
    }

    /// Set overflow mode on the channel.
    ///
    /// When overflow mode is set, broadcasting to the channel will succeed even if the channel is
    /// full. It achieves that by removing the oldest message from the channel.
    pub fn set_overflow(&mut self, overflow: bool)
        requires
            old(self).wf(),
        ensures
            final(self).wf(),
            final(self)@ == old(self)@.set_overflow(overflow),
            final(self)@.overflow == overflow,
    {
        proof {
            self@.lemma_set_overflow_wf(overflow);
        }
        let had_room: bool = self.has_room();
        self.overflow = overflow;
        if self.has_room() && !had_room {
            // Notify 1 awaiting sender that it need not wait for room anymore. The notified
            // operation will notify another awaiting sender.
            self.send_ops.notify(1);
        }
        assert(self@ =~= old(self)@.set_overflow(overflow));
    }

    /// Close the channel if there aren't any receivers present anymore.
    pub fn close_channel(&mut self)
        requires
            old(self).counted(),
        ensures
            final(self).counted(),
            final(self)@ == old(self)@.close_channel(),
    {
        if self.receiver_count == 0 && self.inactive_receiver_count == 0 {
            self.close();
        }
    }

    /// Registers a task that waits for a message.
    pub(crate) fn listen_for_message(&mut self) -> (registration: Registration)
        requires
            old(self).wf(),
        ensures
            final(self).wf(),
            final(self)@ == old(self)@.await_message(),
            registration.signal() == old(self)@.recv_ops.id,
            registration.polls() == 0,
    {
        proof {
            self@.lemma_waiting_wf();
        }
        self.recv_ops.listen()
    }

    /// Registers a task that waits for room.
    pub(crate) fn listen_for_room(&mut self) -> (registration: Registration)
        requires
            old(self).wf(),
        ensures
            final(self).wf(),
            final(self)@ == old(self)@.await_room(),
            registration.signal() == old(self)@.send_ops.id,
            registration.polls() == 0,
    {
        proof {
            self@.lemma_waiting_wf();
        }
        self.send_ops.listen()
    }
}

} // verus!
