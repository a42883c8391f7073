//! Every operation keeps a channel well formed.
use crate::model::{minus, release, strip, Channel};
use vstd::prelude::*;
use vstd::set_lib::lemma_len_subset;

verus! {

/// Stripping takes away a number of messages in front that are kept for nobody, and stops at the
/// first one that is kept.
pub proof fn lemma_strip<T>(queue: Seq<(T, nat)>) -> (k: nat)
    ensures
        k <= queue.len(),
        strip(queue) == queue.skip(k as int),
        forall|j: int| 0 <= j < k ==> #[trigger] queue[j].1 == 0,
        k < queue.len() ==> queue[k as int].1 > 0,
    decreases queue.len(),
{
    if queue.len() > 0 && queue[0].1 == 0 {
        let rest = queue.drop_first();
        let k = lemma_strip(rest);
        assert(rest.skip(k as int) =~= queue.skip(k as int + 1));
        assert forall|j: int| 0 <= j < k + 1 implies #[trigger] queue[j].1 == 0 by {
            if j > 0 {
                assert(rest[j - 1].1 == 0);
            }
        }
        k + 1
    } else {
        assert(queue.skip(0) =~= queue);
        0
    }
}

impl<T> Channel<T> {
    /// Where the same receivers stand at the same messages, the same receivers await a message,
    /// though it has moved by `d` places.
    pub proof fn lemma_same_await(self, then: Channel<T>, d: nat)
        requires
            then.receivers == self.receivers,
            then.head == self.head + d,
        ensures
            forall|j: int| #[trigger] then.awaiting(j) == self.awaiting(j + d),
    {
        assert forall|j: int| #[trigger] then.awaiting(j) == self.awaiting(j + d) by {
            assert(then.awaiting(j) =~= self.awaiting(j + d));
        }
    }

    /// Where the messages and the receivers stay as they are, messages are kept for the same
    /// receivers as before.
    proof fn lemma_same_kept(self, then: Channel<T>)
        requires
            self.kept(),
            then.queue == self.queue,
            then.head == self.head,
            then.receivers == self.receivers,
        ensures
            then.kept(),
    {
        self.lemma_same_await(then, 0);
    }

    /// Whoever awaits a message awaits the later ones, too.
    pub proof fn lemma_later_awaited(self, i: int, j: int)
        requires
            self.wf(),
            0 <= i <= j < self.queue.len(),
        ensures
            self.awaiting(i).subset_of(self.awaiting(j)),
            0 < self.queue[i].1 <= self.queue[j].1,
    {
        assert(self.awaiting(i).len() == self.queue[i].1);
        assert(self.awaiting(j).len() == self.queue[j].1);
        assert(self.awaiting(0).len() == self.queue[0].1);
        lemma_len_subset(self.awaiting(i), self.awaiting(j));
        lemma_len_subset(self.awaiting(0), self.awaiting(i));
    }

    /// A receiver awaits the messages from its next one on.
    pub proof fn lemma_awaits(self, id: nat, j: int)
        requires
            self.receivers.contains_key(id),
            0 <= j,
        ensures
            self.awaiting(j).contains(id) <==> self.next_index(self.receivers[id]) <= j,
    {
    }

    /// A message that is kept for one reception only is the oldest one, and is kept for the
    /// receiver that has it to receive next.
    pub proof fn lemma_last_reception(self, id: nat)
        requires
            self.wf(),
            self.receivers.contains_key(id),
            self.has_next(id),
            self.queue[self.next_index(self.receivers[id]) as int].1 == 1,
        ensures
            self.next_index(self.receivers[id]) == 0,
            self.awaiting(0) == set![id],
    {
        let i = self.next_index(self.receivers[id]) as int;
        self.lemma_awaits(id, i);
        assert(self.awaiting(i).len() == 1);
        assert(self.awaiting(i).remove(id).len() == 0);
        assert(self.awaiting(i).remove(id) =~= Set::empty());
        assert(self.awaiting(i) =~= set![id]);
        self.lemma_later_awaited(0, i);
        assert(self.awaiting(0).len() > 0);
        let first = self.awaiting(0).choose();
        assert(self.awaiting(0).contains(first));
        assert(self.awaiting(i).contains(first));
        self.lemma_awaits(id, 0);
    }

    /// A receiver with a message to receive finds one that is kept for it.
    pub proof fn lemma_next_is_kept(self, id: nat)
        requires
            self.wf(),
            self.receivers.contains_key(id),
            self.has_next(id),
        ensures
            self.queue[self.next_index(self.receivers[id]) as int].1 > 0,
    {
        self.lemma_later_awaited(0, self.next_index(self.receivers[id]) as int);
    }

    /// A new channel is well formed.
    pub proof fn lemma_init_wf(capacity: nat, send_event: int, recv_event: int)
        ensures
            Channel::<T>::init(capacity, send_event, recv_event).wf(),
    {
        let ch = Channel::<T>::init(capacity, send_event, recv_event);
        assert(ch.senders.len() == 1);
        assert(ch.receivers.dom() =~= set![1nat]);
        assert(ch.receivers.len() == 1);
    }

    /// Closing keeps a channel well formed.
    pub proof fn lemma_close_wf(self)
        requires
            self.wf(),
        ensures
            self.close().wf(),
    {
        self.lemma_same_kept(self.close());
    }

    /// Changing the capacity keeps a channel well formed.
    pub proof fn lemma_set_capacity_wf(self, new_cap: nat)
        requires
            self.wf(),
        ensures
            self.set_capacity(new_cap).wf(),
    {
        let then = self.set_capacity(new_cap);
        let d = minus(self.queue.len(), new_cap);
        self.lemma_same_await(then, d);
        assert forall|j: int| 0 <= j < then.queue.len() implies #[trigger] then.awaiting(j).len()
            == then.queue[j].1 by {
            assert(self.awaiting(j + d).len() == self.queue[j + d].1);
        }
        if then.queue.len() > 0 {
            self.lemma_later_awaited(0, d as int);
        }
    }

    /// Setting overflow mode keeps a channel well formed.
    pub proof fn lemma_set_overflow_wf(self, overflow: bool)
        requires
            self.wf(),
        ensures
            self.set_overflow(overflow).wf(),
    {
        self.lemma_same_kept(self.set_overflow(overflow));
    }

    /// An attempt to broadcast keeps a channel well formed.
    pub proof fn lemma_broadcast_wf(self, msg: T)
        requires
            self.wf(),
        ensures
            self.broadcast(msg).wf(),
    {
        let then = self.broadcast(msg);
        let len = self.queue.len() as int;
        assert(self.awaiting(len) =~= self.receivers.dom());
        match self.broadcast_result(msg) {
            Err(_) => {},
            Ok(None) => {
                self.lemma_same_await(then, 0);
                assert forall|j: int| 0 <= j < then.queue.len() implies #[trigger] then.awaiting(
                    j,
                ).len() == then.queue[j].1 by {
                    if j < len {
                        assert(self.awaiting(j + 0).len() == self.queue[j].1);
                    }
                }
            },
            Ok(Some(_)) => {
                self.lemma_same_await(then, 1);
                assert forall|j: int| 0 <= j < then.queue.len() implies #[trigger] then.awaiting(
                    j,
                ).len() == then.queue[j].1 by {
                    if j + 1 < len {
                        assert(self.awaiting(j + 1).len() == self.queue[j + 1].1);
                    }
                }
                if len > 1 {
                    self.lemma_later_awaited(0, 1);
                }
            },
        }
    }

    /// An attempt to receive keeps a channel well formed.
    pub proof fn lemma_recv_wf(self, id: nat)
        requires
            self.wf(),
            self.receivers.contains_key(id),
        ensures
            self.recv(id).wf(),
    {
        if self.has_next(id) {
            let then = self.recv(id);
            let len = self.queue.len() as int;
            let i = self.next_index(self.receivers[id]) as int;
            self.lemma_next_is_kept(id);
            self.lemma_awaits(id, i);
            assert(self.awaiting(i).len() == self.queue[i].1);
            assert(then.receivers.dom() =~= self.receivers.dom());
            if self.queue[i].1 > 1 {
                assert forall|j: int| 0 <= j < len implies #[trigger] then.awaiting(j).len()
                    == then.queue[j].1 by {
                    assert(self.awaiting(j).len() == self.queue[j].1);
                    if j == i {
                        assert(then.awaiting(i) =~= self.awaiting(i).remove(id));
                    } else {
                        assert(then.awaiting(j) =~= self.awaiting(j));
                    }
                }
            } else {
                self.lemma_last_reception(id);
                assert forall|j: int| 0 <= j < len - 1 implies #[trigger] then.awaiting(j).len()
                    == then.queue[j].1 by {
                    assert(self.awaiting(j + 1).len() == self.queue[j + 1].1);
                    assert(then.awaiting(j) =~= self.awaiting(j + 1));
                }
                if len > 1 {
                    self.lemma_later_awaited(0, 1);
                }
            }
        }
    }

    /// A new receiver keeps a channel well formed.
    pub proof fn lemma_join_wf(self)
        requires
            self.wf(),
        ensures
            self.join().wf(),
            self.activate().wf(),
            !self.receivers.contains_key(self.next_id),
    {
        let then = self.join();
        assert forall|j: int| 0 <= j < self.queue.len() implies #[trigger] then.awaiting(j).len()
            == then.queue[j].1 by {
            assert(self.awaiting(j).len() == self.queue[j].1);
            assert(then.awaiting(j) =~= self.awaiting(j));
        }
        then.lemma_same_kept(self.activate());
    }

    /// A receiver that leaves finds every message that it has still to receive kept for it.
    pub proof fn lemma_rest_is_kept(self, id: nat)
        requires
            self.wf(),
            self.receivers.contains_key(id),
        ensures
            forall|j: int|
                self.next_index(self.receivers[id]) <= j < self.queue.len()
                    ==> #[trigger] self.queue[j].1 > 0,
    {
        assert forall|j: int|
            self.next_index(self.receivers[id]) <= j < self.queue.len() implies #[trigger]
            self.queue[j].1 > 0 by {
            self.lemma_later_awaited(0, j);
        }
    }

    /// A receiver that leaves takes away only what nobody else has to receive: `k` messages, all of
    /// which the other receivers have behind them.
    pub proof fn lemma_leaving(self, id: nat) -> (k: nat)
        requires
            self.wf(),
            self.receivers.contains_key(id),
        ensures
            k <= self.queue.len(),
            strip(release(self.queue, self.next_index(self.receivers[id]) as int)) == release(
                self.queue,
                self.next_index(self.receivers[id]) as int,
            ).skip(k as int),
            forall|other: nat|
                #![trigger self.receivers.contains_key(other)]
                self.receivers.contains_key(other) && other != id ==> k <= self.next_index(
                    self.receivers[other],
                ),
            self.leave(id).wf(),
    {
        let i = self.next_index(self.receivers[id]) as int;
        let released = release(self.queue, i);
        let then = self.leave(id);
        let k = lemma_strip(released);
        self.lemma_rest_is_kept(id);
        assert forall|j: int| 0 <= j < self.queue.len() implies self.awaiting(j).remove(id).len()
            == (#[trigger] released[j]).1 by {
            assert(self.awaiting(j).len() == self.queue[j].1);
            self.lemma_awaits(id, j);
            if j < i {
                assert(self.awaiting(j).remove(id) =~= self.awaiting(j));
            }
        }
        assert forall|other: nat|
            #![trigger self.receivers.contains_key(other)]
            self.receivers.contains_key(other) && other != id implies k <= self.next_index(
            self.receivers[other],
        ) by {
            let next = self.next_index(self.receivers[other]) as int;
            if next < k {
                assert(released[next].1 == 0);
                self.lemma_awaits(other, next);
                assert(self.awaiting(next).remove(id).contains(other));
            }
        }
        assert forall|j: int| 0 <= j < then.queue.len() implies #[trigger] then.awaiting(j).len()
            == then.queue[j].1 by {
            assert(then.awaiting(j) =~= self.awaiting(j + k).remove(id));
            assert(released[j + k].1 == self.awaiting(j + k).remove(id).len());
        }
        assert forall|other: nat| #[trigger]
            then.receivers.contains_key(other) implies then.receivers[other] <= then.tail() by {
            assert(self.receivers.contains_key(other));
        }
        k
    }

    /// Senders and inactive receivers that come and go keep a channel well formed.
    pub proof fn lemma_others_wf(self, id: nat)
        requires
            self.wf(),
        ensures
            self.join_sender().wf(),
            self.leave_sender(id).wf(),
            self.join_inactive().wf(),
            self.leave_inactive(id).wf(),
            !self.senders.contains(self.next_id),
            !self.inactive.contains(self.next_id),
    {
        self.lemma_same_kept(self.join_sender());
        self.lemma_same_kept(self.leave_sender(id));
        self.lemma_same_kept(self.join_inactive());
        self.lemma_same_kept(self.leave_inactive(id));
    }

    /// Tasks that start to wait, or are notified, keep a channel well formed.
    pub proof fn lemma_waiting_wf(self)
        requires
            self.wf(),
        ensures
            self.await_message().wf(),
            self.await_room().wf(),
            self.pass_on().wf(),
    {
        self.lemma_same_kept(self.await_message());
        self.lemma_same_kept(self.await_room());
        self.lemma_same_kept(self.pass_on());
    }
}

} // verus!
