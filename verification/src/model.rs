//! The mathematical model of a channel: what it holds, what each operation makes of it, and what
//! every operation keeps.
//!
//! The messages that a channel accepts are numbered in the order in which it does so. Those that it
//! holds are numbered from `head` on, and a receiver goes by the number of the message that it is
//! to receive next.
use crate::errors::{TryRecvError, TrySendError};
use crate::signal::Record;
use vstd::prelude::*;

verus! {

/// `a - b`, or zero where that would be negative.
pub open spec fn minus(a: nat, b: nat) -> nat {
    if a >= b {
        (a - b) as nat
    } else {
        0
    }
}

/// The state of a channel.
#[verifier::ext_equal]
pub struct Channel<T> {
    /// The messages in the channel, oldest first, each with the number of receptions that it is
    /// still kept for.
    pub queue: Seq<(T, nat)>,
    /// How many messages have left the front of the queue: the number of the oldest one in it.
    pub head: nat,
    /// How many messages the channel may hold.
    pub capacity: nat,
    /// Whether a full channel makes room by giving up its oldest message.
    pub overflow: bool,
    /// Whether the channel is closed.
    pub is_closed: bool,
    /// The senders, by their identities.
    pub senders: Set<nat>,
    /// The active receivers, by their identities, each with the number of the message that it was
    /// to receive next when it last received one, or joined.
    pub receivers: Map<nat, nat>,
    /// The inactive receivers, by their identities.
    pub inactive: Set<nat>,
    /// An identity that no handle has had yet; nor have those above it.
    pub next_id: nat,
    /// The calls on the signal that waiting senders listen to.
    pub send_ops: Record,
    /// The calls on the signal that waiting receivers listen to.
    pub recv_ops: Record,
}

/// `queue` without the messages in front of it that are kept for nobody.
pub open spec fn strip<T>(queue: Seq<(T, nat)>) -> Seq<(T, nat)>
    decreases queue.len(),
{
    if queue.len() > 0 && queue[0].1 == 0 {
        strip(queue.drop_first())
    } else {
        queue
    }
}

/// `queue` with every message from `start` on kept for one reception fewer.
pub open spec fn release<T>(queue: Seq<(T, nat)>, start: int) -> Seq<(T, nat)> {
    Seq::new(
        queue.len(),
        |j: int|
            if start <= j {
                (queue[j].0, minus(queue[j].1, 1))
            } else {
                queue[j]
            },
    )
}

impl<T> Channel<T> {
    /// The messages in the channel, oldest first.
    pub open spec fn messages(self) -> Seq<T> {
        Seq::new(self.queue.len(), |j: int| self.queue[j].0)
    }

    /// The number that the next message gets.
    pub open spec fn tail(self) -> nat {
        self.head + self.queue.len()
    }

    /// Where in the queue the message numbered `pos` stands; for one that has left the queue, where
    /// the oldest message stands.
    pub open spec fn next_index(self, pos: nat) -> nat {
        minus(pos, self.head)
    }

    /// The messages that the receiver `id` has still to receive, oldest first.
    pub open spec fn backlog(self, id: nat) -> Seq<T> {
        self.messages().skip(self.next_index(self.receivers[id]) as int)
    }

    /// Whether the receiver `id` has a message to receive.
    pub open spec fn has_next(self, id: nat) -> bool {
        self.next_index(self.receivers[id]) < self.queue.len()
    }

    /// The active receivers that have still to receive the message at `j`.
    pub open spec fn awaiting(self, j: int) -> Set<nat> {
        self.receivers.dom().filter(|id: nat| self.receivers[id] <= self.head + j)
    }

    /// Each message is kept for exactly those who have still to receive it, and for as long as
    /// there is one.
    pub open spec fn kept(self) -> bool {
        &&& forall|j: int|
            0 <= j < self.queue.len() ==> #[trigger] self.awaiting(j).len() == self.queue[j].1
        &&& self.queue.len() > 0 ==> self.queue[0].1 > 0
    }

    /// What holds of a channel at all times.
    pub open spec fn wf(self) -> bool {
        &&& self.queue.len() <= self.capacity
        &&& self.senders.finite()
        &&& self.inactive.finite()
        &&& self.receivers.dom().finite()
        &&& forall|id: nat| #[trigger] self.senders.contains(id) ==> id < self.next_id
        &&& forall|id: nat| #[trigger] self.inactive.contains(id) ==> id < self.next_id
        &&& forall|id: nat| #[trigger] self.receivers.contains_key(id) ==> id < self.next_id
        &&& forall|id: nat| #[trigger]
            self.receivers.contains_key(id) ==> self.receivers[id] <= self.tail()
        &&& self.senders.len() == 0 ==> self.is_closed
        &&& self.receivers.len() == 0 && self.inactive.len() == 0 ==> self.is_closed
        &&& self.kept()
    }

    /// A new channel, with one sender and one receiver. Waiting senders listen to the event
    /// `send_event`, waiting receivers to `recv_event`.
    pub open spec fn init(capacity: nat, send_event: int, recv_event: int) -> Channel<T> {
        Channel {
            queue: Seq::empty(),
            head: 0,
            capacity,
            overflow: false,
            is_closed: false,
            senders: set![0nat],
            receivers: map![1nat => 0nat],
            inactive: Set::empty(),
            next_id: 2,
            send_ops: Record { id: send_event, calls: Seq::empty() },
            recv_ops: Record { id: recv_event, calls: Seq::empty() },
        }
    }

    /// Closed, with everyone who waits notified.
    pub open spec fn close(self) -> Channel<T> {
        if self.is_closed {
            self
        } else {
            Channel {
                is_closed: true,
                send_ops: self.send_ops.notify(usize::MAX),
                recv_ops: self.recv_ops.notify(usize::MAX),
                ..self
            }
        }
    }

    /// Closed if there is no receiver left, be it active or inactive.
    pub open spec fn close_channel(self) -> Channel<T> {
        if self.receivers.len() == 0 && self.inactive.len() == 0 {
            self.close()
        } else {
            self
        }
    }

    /// Whether a message is not refused for want of room.
    pub open spec fn has_room(self) -> bool {
        self.queue.len() < self.capacity || self.overflow
    }

    /// With one waiting sender notified if there is room that was not there `before`.
    pub open spec fn offer_room(self, before: Channel<T>) -> Channel<T> {
        if self.has_room() && !before.has_room() {
            Channel { send_ops: self.send_ops.notify(1), ..self }
        } else {
            self
        }
    }

    /// With another capacity; the oldest messages are dropped where there are too many, and a
    /// waiting sender is notified where there is room now.
    pub open spec fn set_capacity(self, new_cap: nat) -> Channel<T> {
        let dropped = minus(self.queue.len(), new_cap);
        Channel {
            capacity: new_cap,
            queue: self.queue.skip(dropped as int),
            head: self.head + dropped,
            ..self
        }.offer_room(self)
    }

    /// With overflow mode set to `overflow`; a waiting sender is notified where there is room now.
    pub open spec fn set_overflow(self, overflow: bool) -> Channel<T> {
        Channel { overflow, ..self }.offer_room(self)
    }

    /// What an attempt to broadcast `msg` comes to. In overflow mode the oldest message leaves a
    /// full channel, which is `msg` itself where the channel can hold none.
    pub open spec fn broadcast_result(self, msg: T) -> Result<Option<T>, TrySendError<T>> {
        if self.is_closed {
            Err(TrySendError::Closed(msg))
        } else if self.receivers.len() == 0 {
            Err(TrySendError::Inactive(msg))
        } else if self.queue.len() < self.capacity {
            Ok(None)
        } else if !self.overflow {
            Err(TrySendError::Full(msg))
        } else {
            Ok(Some(self.messages().push(msg)[0]))
        }
    }

    /// After an attempt to broadcast `msg`.
    pub open spec fn broadcast(self, msg: T) -> Channel<T> {
        let queue = self.queue.push((msg, self.receivers.len()));
        let recv_ops = self.recv_ops.notify(usize::MAX);
        match self.broadcast_result(msg) {
            Err(_) => self,
            Ok(None) => Channel { queue, recv_ops, ..self },
            Ok(Some(_)) => Channel {
                queue: queue.drop_first(),
                head: self.head + 1,
                recv_ops,
                ..self
            },
        }
    }

    /// How an attempt to receive fails if the receiver has nothing to receive.
    pub open spec fn recv_error(self) -> TryRecvError {
        if self.is_closed {
            TryRecvError::Closed
        } else {
            TryRecvError::Empty
        }
    }

    /// After an attempt of the receiver `id` to receive. A message that nobody else has to receive
    /// leaves the queue.
    pub open spec fn recv(self, id: nat) -> Channel<T> {
        if !self.has_next(id) {
            self
        } else {
            let i = self.next_index(self.receivers[id]) as int;
            let left = minus(self.queue[i].1, 1);
            let receivers = self.receivers.insert(id, (self.head + i + 1) as nat);
            let queue = self.queue.update(i, (self.queue[i].0, left));
            if left == 0 {
                Channel {
                    queue: queue.drop_first(),
                    head: self.head + 1,
                    receivers,
                    send_ops: if self.overflow {
                        self.send_ops
                    } else {
                        self.send_ops.notify(1)
                    },
                    ..self
                }
            } else {
                Channel { queue, receivers, ..self }
            }
        }
    }

    /// With a new receiver, which has nothing to receive.
    pub open spec fn join(self) -> Channel<T> {
        Channel {
            receivers: self.receivers.insert(self.next_id, self.tail()),
            next_id: self.next_id + 1,
            ..self
        }
    }

    /// With a new receiver made from an inactive one: where there was none, a waiting sender is
    /// notified.
    pub open spec fn activate(self) -> Channel<T> {
        Channel {
            send_ops: if self.receivers.len() == 0 {
                self.send_ops.notify(1)
            } else {
                self.send_ops
            },
            ..self.join()
        }
    }

    /// Without the receiver `id`, and without the messages in front that were kept for it alone;
    /// closed if it was the last one.
    pub open spec fn leave(self, id: nat) -> Channel<T> {
        let released = release(self.queue, self.next_index(self.receivers[id]) as int);
        let queue = strip(released);
        Channel {
            queue,
            head: self.head + minus(released.len(), queue.len()),
            send_ops: if queue.len() < released.len() && !self.overflow {
                self.send_ops.notify(1)
            } else {
                self.send_ops
            },
            receivers: self.receivers.remove(id),
            ..self
        }.close_channel()
    }

    /// With a new sender.
    pub open spec fn join_sender(self) -> Channel<T> {
        Channel {
            senders: self.senders.insert(self.next_id),
            next_id: self.next_id + 1,
            ..self
        }
    }

    /// Without the sender `id`; closed if it was the last one.
    pub open spec fn leave_sender(self, id: nat) -> Channel<T> {
        let rest = Channel { senders: self.senders.remove(id), ..self };
        if rest.senders.len() == 0 {
            rest.close()
        } else {
            rest
        }
    }

    /// With a new inactive receiver.
    pub open spec fn join_inactive(self) -> Channel<T> {
        Channel {
            inactive: self.inactive.insert(self.next_id),
            next_id: self.next_id + 1,
            ..self
        }
    }

    /// Without the inactive receiver `id`; closed if it was the last receiver.
    pub open spec fn leave_inactive(self, id: nat) -> Channel<T> {
        Channel { inactive: self.inactive.remove(id), ..self }.close_channel()
    }

    /// With one more task that waits for a message.
    pub open spec fn await_message(self) -> Channel<T> {
        Channel { recv_ops: self.recv_ops.listen(), ..self }
    }

    /// With one more task that waits for room.
    pub open spec fn await_room(self) -> Channel<T> {
        Channel { send_ops: self.send_ops.listen(), ..self }
    }

    /// With one more waiting sender notified where there is still room.
    pub open spec fn pass_on(self) -> Channel<T> {
        if self.has_room() {
            Channel { send_ops: self.send_ops.notify(1), ..self }
        } else {
            self
        }
    }
}

} // verus!
