//! What each operation does, said of the parts of a channel that a caller can see: the messages in
//! it, its settings, its handles, and whom it wakes.
use crate::errors::{TryRecvError, TrySendError};
use crate::inner::entries;
use crate::model::{minus, Channel};
use crate::signal::{polled_after, Call, Polled, Record, Registration};
use vstd::prelude::*;

verus! {

/// Taking away what was added leaves what was there, and more than there is leaves nothing.
pub proof fn law_minus_undoes_addition(a: nat, b: nat)
    ensures
        minus(a + b, b) == a,
        minus(a, a + b) == 0,
{
}

/// A queue has the same messages with the same counts in proofs as when it runs.
pub proof fn law_entries_are_those_of_the_queue<T>(queue: Seq<(T, usize)>)
    ensures
        entries(queue).len() == queue.len(),
        forall|j: int|
            0 <= j < queue.len() ==> (#[trigger] entries(queue)[j]).0 == queue[j].0 && entries(
                queue,
            )[j].1 == queue[j].1,
{
}

/// A call on a signal comes last in its record, which goes on for the same event.
pub proof fn law_calls_are_recorded(record: Record, n: usize)
    ensures
        record.notify(n).id == record.id,
        record.notify(n).calls.len() == record.calls.len() + 1,
        record.notify(n).calls.drop_last() == record.calls,
        record.notify(n).calls.last() == Call::Notify(n),
        record.listen().id == record.id,
        record.listen().calls.len() == record.calls.len() + 1,
        record.listen().calls.drop_last() == record.calls,
        record.listen().calls.last() == Call::Listen,
{
    assert(record.notify(n).calls.drop_last() =~= record.calls);
    assert(record.listen().calls.drop_last() =~= record.calls);
}

/// A poll of a registration comes last in the record of the task, with the event and the answer;
/// without a registration there is no poll.
pub proof fn law_polls_are_recorded(before: Seq<Polled>, registration: Registration, woken: bool)
    ensures
        polled_after(before, None, woken) == before,
        polled_after(before, Some(registration), woken).drop_last() == before,
        polled_after(before, Some(registration), woken).len() == before.len() + 1,
        polled_after(before, Some(registration), woken).last().signal == registration.signal(),
        polled_after(before, Some(registration), woken).last().ready == woken,
{
    assert(polled_after(before, Some(registration), woken).drop_last() =~= before);
}

/// An error of an attempt to broadcast shows which one it is, and holds the message.
pub proof fn law_error_tells_its_kind<T>(msg: T)
    ensures
        TrySendError::Full(msg).debug_text() == "Full(..)"@,
        TrySendError::Closed(msg).debug_text() == "Closed(..)"@,
        TrySendError::Inactive(msg).debug_text() == "Inactive(..)"@,
        TrySendError::Full(msg).message() == msg,
        TrySendError::Closed(msg).message() == msg,
        TrySendError::Inactive(msg).message() == msg,
{
}

/// The messages of a channel are those in its queue, numbered from `head` on.
pub proof fn law_messages_are_those_in_the_queue<T>(ch: Channel<T>)
    ensures
        ch.messages().len() == ch.queue.len(),
        forall|j: int| 0 <= j < ch.queue.len() ==> #[trigger] ch.messages()[j] == ch.queue[j].0,
        ch.tail() == ch.head + ch.queue.len(),
{
}

/// A receiver has still to receive the messages in the queue from its number on: none that is
/// numbered below it, and all the others.
pub proof fn law_backlog_starts_at_the_number_of_the_receiver<T>(ch: Channel<T>, id: nat)
    requires
        ch.wf(),
        ch.receivers.contains_key(id),
    ensures
        ch.receivers[id] <= ch.head ==> ch.backlog(id).len() == ch.queue.len(),
        ch.receivers[id] >= ch.head ==> ch.backlog(id).len() + ch.receivers[id] == ch.head
            + ch.queue.len(),
        forall|j: int|
            0 <= j < ch.backlog(id).len() ==> #[trigger] ch.backlog(id)[j] == ch.queue[j
                + ch.queue.len() - ch.backlog(id).len()].0,
        ch.has_next(id) <==> ch.backlog(id).len() > 0,
        ch.head + ch.next_index(ch.receivers[id]) + ch.backlog(id).len() == ch.head
            + ch.queue.len(),
{
}

/// A channel holds no more messages than its capacity; it is closed where it has no sender, or no
/// receiver at all; and each message is kept for as many receptions as there are receivers that
/// have still to receive it, of which there is one at least.
pub proof fn law_well_formed_channel_keeps_what_is_needed<T>(ch: Channel<T>)
    requires
        ch.wf(),
    ensures
        ch.queue.len() <= ch.capacity,
        ch.senders.len() == 0 ==> ch.is_closed,
        ch.receivers.len() == 0 && ch.inactive.len() == 0 ==> ch.is_closed,
        forall|id: nat| #[trigger]
            ch.receivers.contains_key(id) ==> ch.receivers[id] <= ch.head + ch.queue.len(),
        forall|j: int|
            0 <= j < ch.queue.len() ==> 0 < (#[trigger] ch.queue[j]).1 == ch.receivers.dom().filter(
                |id: nat| ch.receivers[id] <= ch.head + j,
            ).len(),
{
    assert forall|j: int| 0 <= j < ch.queue.len() implies 0 < (#[trigger] ch.queue[j]).1
        == ch.receivers.dom().filter(|id: nat| ch.receivers[id] <= ch.head + j).len() by {
        ch.lemma_later_awaited(0, j);
        assert(ch.awaiting(j).len() == ch.queue[j].1);
        assert(ch.awaiting(j) =~= ch.receivers.dom().filter(
            |id: nat| ch.receivers[id] <= ch.head + j,
        ));
    }
}

/// A new channel is open, empty and not in overflow mode. It has the capacity that was asked for,
/// one sender, one receiver with nothing to receive, and no inactive receiver, and no call was made
/// on its signals.
pub proof fn law_new_channel_is_open_and_empty<T>(capacity: nat, send_event: int, recv_event: int)
    ensures
        ({
            let ch = Channel::<T>::init(capacity, send_event, recv_event);
            &&& ch.capacity == capacity
            &&& ch.queue.len() == 0
            &&& !ch.overflow
            &&& !ch.is_closed
            &&& ch.senders.len() == 1
            &&& ch.receivers.len() == 1
            &&& ch.inactive.len() == 0
            &&& ch.senders.contains(0)
            &&& ch.receivers.contains_key(1)
            &&& ch.receivers[1] == ch.head
            &&& ch.send_ops.id == send_event
            &&& ch.recv_ops.id == recv_event
            &&& ch.send_ops.calls.len() == 0
            &&& ch.recv_ops.calls.len() == 0
        }),
{
    let ch = Channel::<T>::init(capacity, send_event, recv_event);
    assert(ch.receivers.dom() =~= set![1nat]);
}

/// Closing closes, and wakes everyone who waits. Messages, settings and handles stay; closing once
/// more changes nothing.
pub proof fn law_closing_closes<T>(ch: Channel<T>)
    ensures
        ch.close().is_closed,
        ch.close() == (Channel {
            is_closed: true,
            send_ops: ch.close().send_ops,
            recv_ops: ch.close().recv_ops,
            ..ch
        }),
        ch.close().send_ops.id == ch.send_ops.id,
        ch.close().recv_ops.id == ch.recv_ops.id,
        !ch.is_closed ==> ch.close().send_ops.calls == ch.send_ops.calls.push(
            Call::Notify(usize::MAX),
        ),
        !ch.is_closed ==> ch.close().recv_ops.calls == ch.recv_ops.calls.push(
            Call::Notify(usize::MAX),
        ),
        ch.is_closed ==> ch.close() == ch,
        ch.close().close() == ch.close(),
{
}

/// A channel is closed for want of receivers exactly if it has neither an active nor an inactive
/// one; then it is closed as by hand.
pub proof fn law_channel_closes_for_want_of_receivers<T>(ch: Channel<T>)
    ensures
        ch.close_channel().is_closed <==> ch.is_closed || (ch.receivers.len() == 0
            && ch.inactive.len() == 0),
        ch.receivers.len() == 0 && ch.inactive.len() == 0 ==> ch.close_channel() == ch.close(),
        ch.receivers.len() > 0 || ch.inactive.len() > 0 ==> ch.close_channel() == ch,
{
}

/// A message is refused exactly where it has to be: as closed in a closed channel, as inactive in
/// an open one without an active receiver, as full in one that holds as many messages as it may and
/// is not in overflow mode. The refused message is given back.
pub proof fn law_message_is_refused_only_where_it_must<T>(ch: Channel<T>, msg: T)
    ensures
        ch.broadcast_result(msg) == Err::<Option<T>, _>(TrySendError::Closed(msg))
            <==> ch.is_closed,
        ch.broadcast_result(msg) == Err::<Option<T>, _>(TrySendError::Inactive(msg))
            <==> !ch.is_closed && ch.receivers.len() == 0,
        ch.broadcast_result(msg) == Err::<Option<T>, _>(TrySendError::Full(msg))
            <==> !ch.is_closed && ch.receivers.len() > 0 && ch.queue.len() >= ch.capacity
            && !ch.overflow,
        ch.broadcast_result(msg) is Ok <==> !ch.is_closed && ch.receivers.len() > 0 && (
        ch.queue.len() < ch.capacity || ch.overflow),
        ch.has_room() <==> ch.queue.len() < ch.capacity || ch.overflow,
{
}

/// A message replaces another exactly if the channel holds as many as it may and is in overflow
/// mode. It is the oldest message then that is handed back; where there is none, the new one.
pub proof fn law_message_is_replaced_only_in_a_full_channel<T>(ch: Channel<T>, msg: T)
    ensures
        ch.broadcast_result(msg) == Ok::<_, TrySendError<T>>(None::<T>) <==> !ch.is_closed
            && ch.receivers.len() > 0 && ch.queue.len() < ch.capacity,
        (ch.broadcast_result(msg) matches Ok(Some(_))) <==> !ch.is_closed && ch.receivers.len() > 0
            && ch.queue.len() >= ch.capacity && ch.overflow,
        ch.broadcast_result(msg) matches Ok(Some(oldest)) ==> oldest == if ch.queue.len() > 0 {
            ch.queue[0].0
        } else {
            msg
        },
{
}

/// A message that is accepted comes last in the queue, kept for one reception by every receiver; a
/// replaced one leaves the front, and nothing else moves. Every waiting receiver is woken. Settings
/// and handles stay, and a refused message changes nothing.
pub proof fn law_accepted_message_comes_last<T>(ch: Channel<T>, msg: T)
    requires
        ch.wf(),
    ensures
        ({
            let then = ch.broadcast(msg);
            &&& ch.broadcast_result(msg) is Err ==> then == ch
            &&& ch.broadcast_result(msg) is Ok ==> {
                &&& then == (Channel {
                    queue: then.queue,
                    head: then.head,
                    recv_ops: then.recv_ops,
                    ..ch
                })
                &&& then.recv_ops.id == ch.recv_ops.id
                &&& then.recv_ops.calls == ch.recv_ops.calls.push(Call::Notify(usize::MAX))
                &&& then.head + then.queue.len() == ch.head + ch.queue.len() + 1
                &&& then.queue.len() > 0 ==> then.queue.last() == (msg, ch.receivers.len())
                &&& then.queue.len() == if ch.queue.len() < ch.capacity {
                    ch.queue.len() + 1
                } else {
                    ch.queue.len()
                }
                &&& forall|j: int|
                    0 <= j < then.queue.len() - 1 ==> #[trigger] then.queue[j] == ch.queue[j
                        + then.head - ch.head]
            }
        }),
{
}

/// A receiver that finds nothing is told that the channel is closed exactly if it is, and that it
/// is empty exactly if it is open, whoever else is there.
pub proof fn law_nothing_to_receive_is_told_apart<T>(ch: Channel<T>)
    ensures
        ch.recv_error() == TryRecvError::Closed <==> ch.is_closed,
        ch.recv_error() == TryRecvError::Empty <==> !ch.is_closed,
{
}

/// A reception moves the receiver on behind the message that it got, and no other receiver. The
/// oldest message leaves the channel exactly if every receiver has it behind it now, in which case
/// one waiting sender is woken unless the channel is in overflow mode; no other message leaves, and
/// none changes. Settings and the other handles stay.
pub proof fn law_reception_moves_one_receiver_on<T>(ch: Channel<T>, id: nat)
    requires
        ch.wf(),
        ch.receivers.contains_key(id),
    ensures
        ({
            let then = ch.recv(id);
            let number = if ch.receivers[id] >= ch.head {
                ch.receivers[id]
            } else {
                ch.head
            };
            &&& number >= ch.head + ch.queue.len() ==> then == ch
            &&& number < ch.head + ch.queue.len() ==> {
                let done = forall|other: nat| #[trigger]
                    then.receivers.contains_key(other) ==> then.receivers[other] > ch.head;
                &&& then.receivers.contains_key(id)
                &&& then.receivers[id] == number + 1
                &&& then.receivers.remove(id) == ch.receivers.remove(id)
                &&& then == (Channel {
                    queue: then.queue,
                    head: then.head,
                    receivers: then.receivers,
                    send_ops: then.send_ops,
                    ..ch
                })
                &&& then.head == if done {
                    ch.head + 1
                } else {
                    ch.head
                }
                &&& then.head + then.queue.len() == ch.head + ch.queue.len()
                &&& forall|j: int|
                    0 <= j < then.queue.len() ==> (#[trigger] then.queue[j]).0 == ch.queue[j
                        + then.head - ch.head].0
                &&& then.send_ops.id == ch.send_ops.id
                &&& then.send_ops.calls == if done && !ch.overflow {
                    ch.send_ops.calls.push(Call::Notify(1))
                } else {
                    ch.send_ops.calls
                }
            }
        }),
{
    let then = ch.recv(id);
    if ch.has_next(id) {
        let i = ch.next_index(ch.receivers[id]) as int;
        ch.lemma_next_is_kept(id);
        ch.lemma_awaits(id, i);
        assert(then.receivers.remove(id) =~= ch.receivers.remove(id));
        if ch.queue[i].1 == 1 {
            ch.lemma_last_reception(id);
            assert forall|other: nat| #[trigger]
                then.receivers.contains_key(other) implies then.receivers[other] > ch.head by {
                if other != id {
                    assert(ch.receivers.contains_key(other));
                    ch.lemma_awaits(other, 0);
                }
            }
        } else {
            assert(ch.awaiting(0).len() == ch.queue[0].1);
            assert(exists|other: nat| other != id && #[trigger] ch.awaiting(0).contains(other)) by {
                if i > 0 {
                    let other = ch.awaiting(0).choose();
                    assert(ch.awaiting(0).contains(other));
                    ch.lemma_awaits(id, 0);
                } else {
                    let others = ch.awaiting(0).remove(id);
                    assert(others.len() > 0);
                    let other = others.choose();
                    assert(others.contains(other));
                    assert(ch.awaiting(0).contains(other));
                }
            }
            let other = choose|other: nat| other != id && #[trigger] ch.awaiting(0).contains(other);
            assert(then.receivers.contains_key(other));
        }
    }
}

/// A new receiver has the number of the next message to be sent: it gets what is sent from then on.
/// It counts as one more; nothing else changes, but that one waiting sender is woken where it was
/// made from an inactive one and is the only one.
pub proof fn law_new_receiver_waits_for_the_next_message<T>(ch: Channel<T>)
    requires
        ch.wf(),
    ensures
        !ch.receivers.contains_key(ch.next_id),
        ch.join().receivers == ch.receivers.insert(ch.next_id, (ch.head + ch.queue.len()) as nat),
        ch.join().receivers.len() == ch.receivers.len() + 1,
        ch.join() == (Channel {
            receivers: ch.join().receivers,
            next_id: ch.next_id + 1,
            ..ch
        }),
        ch.activate() == (Channel { send_ops: ch.activate().send_ops, ..ch.join() }),
        ch.activate().send_ops.id == ch.send_ops.id,
        ch.activate().send_ops.calls == if ch.receivers.len() == 0 {
            ch.send_ops.calls.push(Call::Notify(1))
        } else {
            ch.send_ops.calls
        },
{
    assert(!ch.receivers.contains_key(ch.next_id));
    assert(ch.join().receivers.dom() =~= ch.receivers.dom().insert(ch.next_id));
}

/// A receiver that is dropped counts as one less. A message stays exactly if another receiver has
/// still to receive it, and the messages that stay keep their order. The channel closes exactly if
/// no receiver is left, be it active or inactive. One waiting sender is woken where a message has
/// left and the channel is not in overflow mode, and everyone who waits where the channel closes.
/// Settings and the other handles stay.
pub proof fn law_dropped_receiver_leaves_what_others_need<T>(ch: Channel<T>, id: nat)
    requires
        ch.wf(),
        ch.receivers.contains_key(id),
    ensures
        ({
            let then = ch.leave(id);
            let last = ch.receivers.len() == 1 && ch.inactive.len() == 0;
            let calls = if then.head > ch.head && !ch.overflow {
                ch.send_ops.calls.push(Call::Notify(1))
            } else {
                ch.send_ops.calls
            };
            &&& then == (Channel {
                queue: then.queue,
                head: then.head,
                receivers: ch.receivers.remove(id),
                is_closed: then.is_closed,
                send_ops: then.send_ops,
                recv_ops: then.recv_ops,
                ..ch
            })
            &&& then.receivers.len() == ch.receivers.len() - 1
            &&& then.is_closed <==> ch.is_closed || last
            &&& then.head >= ch.head
            &&& then.head + then.queue.len() == ch.head + ch.queue.len()
            &&& forall|j: int|
                0 <= j < then.queue.len() ==> (#[trigger] then.queue[j]).0 == ch.queue[j + then.head
                    - ch.head].0
            &&& forall|j: int|
                #![trigger ch.queue[j]]
                0 <= j < ch.queue.len() ==> (then.head <= ch.head + j <==> exists|other: nat|
                    other != id && #[trigger] ch.receivers.contains_key(other)
                        && ch.receivers[other] <= ch.head + j)
            &&& then.send_ops.id == ch.send_ops.id
            &&& then.recv_ops.id == ch.recv_ops.id
            &&& then.send_ops.calls == if last && !ch.is_closed {
                calls.push(Call::Notify(usize::MAX))
            } else {
                calls
            }
            &&& then.recv_ops.calls == if last && !ch.is_closed {
                ch.recv_ops.calls.push(Call::Notify(usize::MAX))
            } else {
                ch.recv_ops.calls
            }
        }),
{
    let then = ch.leave(id);
    let k = ch.lemma_leaving(id);
    assert(ch.receivers.remove(id).dom() =~= ch.receivers.dom().remove(id));
    assert forall|j: int|
        #![trigger ch.queue[j]]
        0 <= j < ch.queue.len() implies (then.head <= ch.head + j <==> exists|other: nat|
        other != id && #[trigger] ch.receivers.contains_key(other) && ch.receivers[other] <= ch.head
            + j) by {
        if k <= j {
            then.lemma_later_awaited(0, j - k);
            assert(then.awaiting(j - k).len() == then.queue[j - k].1);
            let other = then.awaiting(j - k).choose();
            assert(then.awaiting(j - k).contains(other));
            assert(ch.receivers.contains_key(other));
        }
    }
}

/// Setting the capacity sets it, at once: the newest messages stay, as many as there is room for,
/// and their order with them. One waiting sender is woken exactly if there was no room and now
/// there is. Everything else stays.
pub proof fn law_capacity_is_set_at_once<T>(ch: Channel<T>, new_cap: nat)
    ensures
        ({
            let then = ch.set_capacity(new_cap);
            let full = ch.queue.len() >= ch.capacity && !ch.overflow;
            let room = then.queue.len() < new_cap || ch.overflow;
            &&& then == (Channel {
                capacity: new_cap,
                queue: then.queue,
                head: then.head,
                send_ops: then.send_ops,
                ..ch
            })
            &&& ch.queue.len() <= new_cap ==> then.queue == ch.queue
            &&& ch.queue.len() > new_cap ==> then.queue.len() == new_cap
            &&& then.head + then.queue.len() == ch.head + ch.queue.len()
            &&& forall|j: int|
                0 <= j < then.queue.len() ==> #[trigger] then.queue[j] == ch.queue[j
                    + ch.queue.len() - then.queue.len()]
            &&& then.send_ops.id == ch.send_ops.id
            &&& then.send_ops.calls == if full && room {
                ch.send_ops.calls.push(Call::Notify(1))
            } else {
                ch.send_ops.calls
            }
        }),
{
    if ch.queue.len() <= new_cap {
        assert(ch.set_capacity(new_cap).queue =~= ch.queue);
    }
}

/// Setting overflow mode sets it, and nothing else. One waiting sender is woken exactly if it need
/// no longer wait for room.
pub proof fn law_overflow_mode_is_set_and_nothing_else<T>(ch: Channel<T>, overflow: bool)
    ensures
        ({
            let then = ch.set_overflow(overflow);
            let full = ch.queue.len() >= ch.capacity && !ch.overflow;
            &&& then == (Channel { overflow, send_ops: then.send_ops, ..ch })
            &&& then.send_ops.id == ch.send_ops.id
            &&& then.send_ops.calls == if full && overflow {
                ch.send_ops.calls.push(Call::Notify(1))
            } else {
                ch.send_ops.calls
            }
        }),
{
}

/// A sender that is cloned counts as one more, and one that is dropped as one less. The channel
/// closes exactly if the last one is dropped, as by hand. Everything else stays.
pub proof fn law_senders_are_counted<T>(ch: Channel<T>, id: nat)
    requires
        ch.wf(),
    ensures
        !ch.senders.contains(ch.next_id),
        ch.join_sender().senders == ch.senders.insert(ch.next_id),
        ch.join_sender().senders.len() == ch.senders.len() + 1,
        ch.join_sender() == (Channel {
            senders: ch.join_sender().senders,
            next_id: ch.next_id + 1,
            ..ch
        }),
        ch.senders.contains(id) ==> {
            let then = ch.leave_sender(id);
            let rest = Channel { senders: ch.senders.remove(id), ..ch };
            &&& then.senders.len() == ch.senders.len() - 1
            &&& then == if ch.senders.len() == 1 {
                rest.close()
            } else {
                rest
            }
        },
{
    assert(!ch.senders.contains(ch.next_id));
}

/// An inactive receiver that is made counts as one more, and one that is dropped as one less. The
/// channel closes exactly if no receiver is left, be it active or inactive, as by hand. Everything
/// else stays.
pub proof fn law_inactive_receivers_are_counted<T>(ch: Channel<T>, id: nat)
    requires
        ch.wf(),
    ensures
        !ch.inactive.contains(ch.next_id),
        ch.join_inactive().inactive == ch.inactive.insert(ch.next_id),
        ch.join_inactive().inactive.len() == ch.inactive.len() + 1,
        ch.join_inactive() == (Channel {
            inactive: ch.join_inactive().inactive,
            next_id: ch.next_id + 1,
            ..ch
        }),
        ch.inactive.contains(id) ==> {
            let then = ch.leave_inactive(id);
            let rest = Channel { inactive: ch.inactive.remove(id), ..ch };
            &&& then.inactive.len() == ch.inactive.len() - 1
            &&& then == if ch.inactive.len() == 1 && ch.receivers.len() == 0 {
                rest.close()
            } else {
                rest
            }
        },
{
    assert(!ch.inactive.contains(ch.next_id));
}

/// A task that starts to wait is recorded with the signal that it waits for, and changes nothing
/// else: one that waits for a message is not one that waits for room.
pub proof fn law_waiting_is_recorded_where_it_belongs<T>(ch: Channel<T>)
    ensures
        ch.await_message() == (Channel { recv_ops: ch.await_message().recv_ops, ..ch }),
        ch.await_message().recv_ops.id == ch.recv_ops.id,
        ch.await_message().recv_ops.calls == ch.recv_ops.calls.push(Call::Listen),
        ch.await_room() == (Channel { send_ops: ch.await_room().send_ops, ..ch }),
        ch.await_room().send_ops.id == ch.send_ops.id,
        ch.await_room().send_ops.calls == ch.send_ops.calls.push(Call::Listen),
{
}

/// A waiting sender is notified of what room there still is exactly if another message would not
/// be refused for want of it; nothing else changes.
pub proof fn law_room_is_passed_on_where_there_is_some<T>(ch: Channel<T>)
    ensures
        ch.pass_on() == (Channel { send_ops: ch.pass_on().send_ops, ..ch }),
        ch.pass_on().send_ops.id == ch.send_ops.id,
        ch.pass_on().send_ops.calls == if ch.queue.len() < ch.capacity || ch.overflow {
            ch.send_ops.calls.push(Call::Notify(1))
        } else {
            ch.send_ops.calls
        },
{
}

} // verus!
