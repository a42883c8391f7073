//! What holds of a channel whatever is done with it, and of several operations together.
use crate::errors::TrySendError;
use crate::model::{minus, release, Channel};
use crate::signal::Call;
use crate::steps::lemma_strip;
use vstd::prelude::*;

verus! {

/// Something that is done with a channel.
pub enum Action<T> {
    /// An attempt to broadcast a message.
    Broadcast(T),
    /// An attempt of a receiver to receive.
    Receive(nat),
    /// A new receiver.
    Join,
    /// A new receiver, made from an inactive one.
    Activate,
    /// A receiver is dropped.
    Leave(nat),
    /// A new sender.
    JoinSender,
    /// A sender is dropped.
    LeaveSender(nat),
    /// A new inactive receiver.
    JoinInactive,
    /// An inactive receiver is dropped.
    LeaveInactive(nat),
    /// The capacity is set.
    SetCapacity(nat),
    /// Overflow mode is set.
    SetOverflow(bool),
    /// The channel is closed by hand.
    Close,
    /// A task starts to wait for a message.
    AwaitMessage,
    /// A task starts to wait for room.
    AwaitRoom,
    /// A waiting sender is notified that there is still room.
    PassOn,
}

impl<T> Channel<T> {
    /// The handle that acts belongs to the channel.
    pub open spec fn enabled(self, action: Action<T>) -> bool {
        match action {
            Action::Receive(id) => self.receivers.contains_key(id),
            Action::Join => self.receivers.len() > 0,
            Action::Activate => self.inactive.len() > 0,
            Action::Leave(id) => self.receivers.contains_key(id),
            Action::JoinSender => self.senders.len() > 0,
            Action::LeaveSender(id) => self.senders.contains(id),
            Action::JoinInactive => self.receivers.len() > 0 || self.inactive.len() > 0,
            Action::LeaveInactive(id) => self.inactive.contains(id),
            _ => true,
        }
    }

    /// The channel after the action.
    pub open spec fn next(self, action: Action<T>) -> Channel<T> {
        match action {
            Action::Broadcast(msg) => self.broadcast(msg),
            Action::Receive(id) => self.recv(id),
            Action::Join => self.join(),
            Action::Activate => self.activate(),
            Action::Leave(id) => self.leave(id),
            Action::JoinSender => self.join_sender(),
            Action::LeaveSender(id) => self.leave_sender(id),
            Action::JoinInactive => self.join_inactive(),
            Action::LeaveInactive(id) => self.leave_inactive(id),
            Action::SetCapacity(new_cap) => self.set_capacity(new_cap),
            Action::SetOverflow(overflow) => self.set_overflow(overflow),
            Action::Close => self.close(),
            Action::AwaitMessage => self.await_message(),
            Action::AwaitRoom => self.await_room(),
            Action::PassOn => self.pass_on(),
        }
    }

    /// What the receiver `id` has still to receive after the action: it loses what it receives,
    /// gets what is sent, and loses the oldest messages where they are replaced or dropped to make
    /// room.
    pub open spec fn expected(self, action: Action<T>, id: nat) -> Seq<T> {
        let backlog = self.backlog(id);
        match action {
            Action::Broadcast(msg) => match self.broadcast_result(msg) {
                Err(_) => backlog,
                Ok(None) => backlog.push(msg),
                Ok(Some(_)) => if backlog.len() == self.queue.len() {
                    backlog.push(msg).drop_first()
                } else {
                    backlog.push(msg)
                },
            },
            Action::Receive(receiver) => if receiver == id && backlog.len() > 0 {
                backlog.drop_first()
            } else {
                backlog
            },
            Action::SetCapacity(new_cap) => backlog.skip(minus(backlog.len(), new_cap) as int),
            _ => backlog,
        }
    }

    /// The action makes the channel give up a message to make room.
    pub open spec fn loses(self, action: Action<T>) -> bool {
        match action {
            Action::Broadcast(msg) => self.broadcast_result(msg) matches Ok(Some(_)),
            Action::SetCapacity(new_cap) => new_cap < self.queue.len(),
            _ => false,
        }
    }

    /// The number of the message that the receiver `id` is to receive next.
    pub open spec fn next_number(self, id: nat) -> nat {
        self.head + self.next_index(self.receivers[id])
    }
}

/// Whatever is done with a well formed channel, it stays well formed. In particular it holds no
/// more messages than its capacity, and each message is kept for exactly those who have still to
/// receive it.
pub proof fn law_channel_stays_well_formed<T>(ch: Channel<T>, action: Action<T>)
    requires
        ch.wf(),
        ch.enabled(action),
    ensures
        ch.next(action).wf(),
{
    match action {
        Action::Broadcast(msg) => ch.lemma_broadcast_wf(msg),
        Action::Receive(id) => ch.lemma_recv_wf(id),
        Action::Join => ch.lemma_join_wf(),
        Action::Activate => ch.lemma_join_wf(),
        Action::Leave(id) => {
            let _ = ch.lemma_leaving(id);
        },
        Action::JoinSender => ch.lemma_others_wf(0),
        Action::LeaveSender(id) => ch.lemma_others_wf(id),
        Action::JoinInactive => ch.lemma_others_wf(0),
        Action::LeaveInactive(id) => ch.lemma_others_wf(id),
        Action::SetCapacity(new_cap) => ch.lemma_set_capacity_wf(new_cap),
        Action::SetOverflow(overflow) => ch.lemma_set_overflow_wf(overflow),
        Action::Close => ch.lemma_close_wf(),
        Action::AwaitMessage => ch.lemma_waiting_wf(),
        Action::AwaitRoom => ch.lemma_waiting_wf(),
        Action::PassOn => ch.lemma_waiting_wf(),
    }
}

/// A closed channel stays closed.
pub proof fn law_closed_stays_closed<T>(ch: Channel<T>, action: Action<T>)
    requires
        ch.is_closed,
    ensures
        ch.next(action).is_closed,
{
}

/// A closed channel takes no message: it is given back, and nothing changes.
pub proof fn law_closed_takes_no_message<T>(ch: Channel<T>, msg: T)
    requires
        ch.is_closed,
    ensures
        ch.broadcast_result(msg) == Err::<Option<T>, _>(TrySendError::Closed(msg)),
        ch.broadcast(msg) == ch,
{
}

/// An attempt to broadcast that fails changes nothing.
pub proof fn law_refused_message_changes_nothing<T>(ch: Channel<T>, msg: T)
    requires
        ch.broadcast_result(msg) is Err,
    ensures
        ch.broadcast(msg) == ch,
{
}

/// A message that is refused is given back, with the reason: the channel is closed, or has no
/// active receiver, or is full and not in overflow mode.
pub proof fn law_refused_message_is_given_back<T>(ch: Channel<T>, msg: T)
    ensures
        ch.broadcast_result(msg) matches Err(error) ==> error.message() == msg,
        ch.broadcast_result(msg) is Err && ch.broadcast_result(msg)->Err_0 is Closed
            <==> ch.is_closed,
        ch.broadcast_result(msg) is Err && ch.broadcast_result(msg)->Err_0 is Inactive
            <==> !ch.is_closed && ch.receivers.len() == 0,
        ch.broadcast_result(msg) is Err && ch.broadcast_result(msg)->Err_0 is Full
            <==> !ch.is_closed && ch.receivers.len() > 0 && !ch.has_room(),
{
}

/// An attempt to broadcast, whatever comes of it, leaves the capacity, overflow mode, the closed
/// state and the handles as they are, and the channel within its capacity.
pub proof fn law_broadcast_leaves_the_rest_alone<T>(ch: Channel<T>, msg: T)
    requires
        ch.wf(),
    ensures
        ch.broadcast(msg) == (Channel {
            queue: ch.broadcast(msg).queue,
            head: ch.broadcast(msg).head,
            recv_ops: ch.broadcast(msg).recv_ops,
            ..ch
        }),
        ch.broadcast(msg).queue.len() <= ch.capacity,
{
}

/// Registering for a notification changes nothing but the record of calls: what an attempt would
/// have come to before, it comes to afterwards.
pub proof fn law_registration_changes_no_result<T>(ch: Channel<T>, msg: T, id: nat)
    ensures
        ch.await_room() == (Channel { send_ops: ch.send_ops.listen(), ..ch }),
        ch.await_room().broadcast_result(msg) == ch.broadcast_result(msg),
        ch.await_message() == (Channel { recv_ops: ch.recv_ops.listen(), ..ch }),
        ch.await_message().backlog(id) == ch.backlog(id),
        ch.await_message().recv_error() == ch.recv_error(),
{
}

/// Closing leaves every receiver the messages that it has still to receive.
pub proof fn law_closing_keeps_messages<T>(ch: Channel<T>, id: nat)
    ensures
        ch.close().messages() == ch.messages(),
        ch.close().backlog(id) == ch.backlog(id),
{
}

/// A channel closes when its last sender is dropped.
pub proof fn law_last_sender_closes<T>(ch: Channel<T>, id: nat)
    requires
        ch.wf(),
        ch.senders.contains(id),
        ch.senders.len() == 1,
    ensures
        ch.leave_sender(id).is_closed,
{
}

/// A channel closes when its last receiver is dropped, be it active or inactive.
pub proof fn law_last_receiver_closes<T>(ch: Channel<T>, id: nat)
    requires
        ch.wf(),
        ch.receivers.len() + ch.inactive.len() == 1,
    ensures
        ch.receivers.contains_key(id) ==> ch.leave(id).is_closed,
        ch.inactive.contains(id) ==> ch.leave_inactive(id).is_closed,
{
    if ch.receivers.contains_key(id) {
        assert(ch.receivers.remove(id).dom() =~= ch.receivers.dom().remove(id));
    }
}

/// An open channel stays open as long as a sender and a receiver are left, be it active or
/// inactive, and nobody closes it by hand.
pub proof fn law_channel_stays_open<T>(ch: Channel<T>, action: Action<T>)
    requires
        ch.wf(),
        ch.enabled(action),
        !ch.is_closed,
        !(action is Close),
        ch.next(action).senders.len() > 0,
        ch.next(action).receivers.len() + ch.next(action).inactive.len() > 0,
    ensures
        !ch.next(action).is_closed,
{
}

/// A message that is accepted without replacing another is from then on the last one that every
/// receiver has to receive.
pub proof fn law_message_reaches_every_receiver<T>(ch: Channel<T>, msg: T, id: nat)
    requires
        ch.wf(),
        ch.receivers.contains_key(id),
        ch.broadcast_result(msg) == Ok::<Option<T>, TrySendError<T>>(None),
    ensures
        ch.broadcast(msg).backlog(id) == ch.backlog(id).push(msg),
{
    assert(ch.broadcast(msg).backlog(id) =~= ch.backlog(id).push(msg));
}

/// A message that replaces the oldest one is from then on the last one that every receiver has to
/// receive. The replaced message is handed back, and is lost to those, and only those, who had
/// still to receive it. Where the channel can hold no message at all, the new message replaces
/// itself.
pub proof fn law_replacing_message_reaches_every_receiver<T>(ch: Channel<T>, msg: T, id: nat)
    requires
        ch.wf(),
        ch.receivers.contains_key(id),
        ch.broadcast_result(msg) matches Ok(Some(_)),
    ensures
        ch.broadcast_result(msg) == Ok::<Option<T>, TrySendError<T>>(
            Some(ch.messages().push(msg)[0]),
        ),
        ch.broadcast(msg).messages() == ch.messages().push(msg).drop_first(),
        ch.broadcast(msg).backlog(id) == if ch.backlog(id).len() == ch.queue.len() {
            ch.backlog(id).push(msg).drop_first()
        } else {
            ch.backlog(id).push(msg)
        },
{
    let then = ch.broadcast(msg);
    assert(then.messages() =~= ch.messages().push(msg).drop_first());
    assert(then.backlog(id) =~= if ch.backlog(id).len() == ch.queue.len() {
        ch.backlog(id).push(msg).drop_first()
    } else {
        ch.backlog(id).push(msg)
    });
}

/// In overflow mode broadcasting to an open channel with an active receiver succeeds.
pub proof fn law_overflow_never_full<T>(ch: Channel<T>, msg: T)
    requires
        ch.overflow,
        !ch.is_closed,
        ch.receivers.len() > 0,
    ensures
        ch.broadcast_result(msg) is Ok,
{
}

/// A receiver takes the oldest message that it has still to receive, and then has to receive the
/// others.
pub proof fn law_receiver_takes_the_oldest<T>(ch: Channel<T>, id: nat)
    requires
        ch.wf(),
        ch.receivers.contains_key(id),
        ch.backlog(id).len() > 0,
    ensures
        ch.recv(id).backlog(id) == ch.backlog(id).drop_first(),
{
    ch.lemma_next_is_kept(id);
    if ch.queue[ch.next_index(ch.receivers[id]) as int].1 == 1 {
        ch.lemma_last_reception(id);
    }
    assert(ch.recv(id).backlog(id) =~= ch.backlog(id).drop_first());
}

/// A receiver with nothing to receive changes nothing by trying.
pub proof fn law_empty_reception_changes_nothing<T>(ch: Channel<T>, id: nat)
    requires
        ch.backlog(id).len() == 0,
        ch.wf(),
        ch.receivers.contains_key(id),
    ensures
        ch.recv(id) == ch,
{
}

/// A reception leaves the other receivers what they have still to receive.
pub proof fn law_reception_leaves_others_alone<T>(ch: Channel<T>, id: nat, other: nat)
    requires
        ch.wf(),
        ch.receivers.contains_key(id),
        ch.receivers.contains_key(other),
        id != other,
    ensures
        ch.recv(id).backlog(other) == ch.backlog(other),
{
    if ch.has_next(id) {
        ch.lemma_next_is_kept(id);
        if ch.queue[ch.next_index(ch.receivers[id]) as int].1 == 1 {
            ch.lemma_last_reception(id);
            ch.lemma_awaits(other, 0);
        }
    }
    assert(ch.recv(id).backlog(other) =~= ch.backlog(other));
}

/// A new receiver has nothing to receive, and takes nothing from the others.
pub proof fn law_new_receiver_starts_empty<T>(ch: Channel<T>, other: nat)
    requires
        ch.wf(),
        ch.receivers.contains_key(other),
    ensures
        ch.join().backlog(ch.next_id).len() == 0,
        ch.activate().backlog(ch.next_id).len() == 0,
        ch.join().backlog(other) == ch.backlog(other),
        ch.activate().backlog(other) == ch.backlog(other),
{
    assert(ch.join().backlog(other) =~= ch.backlog(other));
    assert(ch.activate().backlog(other) =~= ch.backlog(other));
}

/// A receiver that is dropped leaves the others what they have still to receive.
pub proof fn law_leaving_leaves_others_alone<T>(ch: Channel<T>, id: nat, other: nat)
    requires
        ch.wf(),
        ch.receivers.contains_key(id),
        ch.receivers.contains_key(other),
        id != other,
    ensures
        ch.leave(id).backlog(other) == ch.backlog(other),
{
    let k = ch.lemma_leaving(id);
    assert(ch.leave(id).backlog(other) =~= ch.backlog(other));
}

/// Setting the capacity leaves every receiver the newest messages of those that it has still to
/// receive, as many as there is room for.
pub proof fn law_shrinking_keeps_the_newest<T>(ch: Channel<T>, id: nat, new_cap: nat)
    requires
        ch.wf(),
        ch.receivers.contains_key(id),
    ensures
        ch.set_capacity(new_cap).backlog(id) == ch.backlog(id).skip(
            minus(ch.backlog(id).len(), new_cap) as int,
        ),
{
    assert(ch.set_capacity(new_cap).backlog(id) =~= ch.backlog(id).skip(
        minus(ch.backlog(id).len(), new_cap) as int,
    ));
}

/// A channel never holds more messages than its capacity.
pub proof fn law_queue_stays_within_capacity<T>(ch: Channel<T>, action: Action<T>)
    requires
        ch.wf(),
        ch.enabled(action),
    ensures
        ch.queue.len() <= ch.capacity,
        ch.next(action).queue.len() <= ch.next(action).capacity,
{
    law_channel_stays_well_formed(ch, action);
}

/// A new channel is well formed, and has nothing to receive.
pub proof fn law_new_channel_is_well_formed<T>(capacity: nat, send_event: int, recv_event: int)
    ensures
        Channel::<T>::init(capacity, send_event, recv_event).wf(),
        Channel::<T>::init(capacity, send_event, recv_event).backlog(1).len() == 0,
{
    Channel::<T>::lemma_init_wf(capacity, send_event, recv_event);
}

/// A message stays in the channel exactly as long as a receiver has still to receive it, unless it
/// is given up to make room: each message in the channel is the next or a later one of some
/// receiver.
pub proof fn law_every_message_is_awaited<T>(ch: Channel<T>, j: int)
    requires
        ch.wf(),
        0 <= j < ch.queue.len(),
    ensures
        exists|id: nat| #[trigger]
            ch.receivers.contains_key(id) && ch.next_index(ch.receivers[id]) <= j,
{
    ch.lemma_later_awaited(0, j);
    assert(ch.awaiting(j).len() == ch.queue[j].1);
    let id = ch.awaiting(j).choose();
    assert(ch.awaiting(j).contains(id));
    ch.lemma_awaits(id, j);
    assert(ch.receivers.contains_key(id));
}

/// When all receivers have received all messages, the channel is empty.
pub proof fn law_channel_empties_when_all_have_received<T>(ch: Channel<T>)
    requires
        ch.wf(),
        forall|id: nat| #[trigger] ch.receivers.contains_key(id) ==> ch.backlog(id).len() == 0,
    ensures
        ch.queue.len() == 0,
{
    if ch.queue.len() > 0 {
        law_every_message_is_awaited(ch, 0);
        let id = choose|id: nat| #[trigger]
            ch.receivers.contains_key(id) && ch.next_index(ch.receivers[id]) <= 0;
        assert(ch.receivers.contains_key(id));
    }
}

/// What a receiver has still to receive changes by what it receives, by what is sent, and by what
/// is replaced or dropped to make room, and by nothing else.
pub proof fn law_backlog_is_as_expected<T>(ch: Channel<T>, action: Action<T>, id: nat)
    requires
        ch.wf(),
        ch.enabled(action),
        ch.receivers.contains_key(id),
        action != Action::<T>::Leave(id),
    ensures
        ch.next(action).receivers.contains_key(id),
        ch.next(action).backlog(id) == ch.expected(action, id),
{
    match action {
        Action::Broadcast(msg) => match ch.broadcast_result(msg) {
            Ok(None) => law_message_reaches_every_receiver(ch, msg, id),
            Ok(Some(_)) => law_replacing_message_reaches_every_receiver(ch, msg, id),
            Err(_) => {},
        },
        Action::Receive(receiver) => {
            if receiver != id {
                law_reception_leaves_others_alone(ch, receiver, id);
            } else if ch.backlog(id).len() > 0 {
                law_receiver_takes_the_oldest(ch, id);
            } else {
                law_empty_reception_changes_nothing(ch, id);
            }
        },
        Action::Join => law_new_receiver_starts_empty(ch, id),
        Action::Activate => law_new_receiver_starts_empty(ch, id),
        Action::Leave(receiver) => law_leaving_leaves_others_alone(ch, receiver, id),
        Action::SetCapacity(new_cap) => law_shrinking_keeps_the_newest(ch, id, new_cap),
        _ => {
            assert(ch.next(action).backlog(id) =~= ch.backlog(id));
        },
    }
}

/// A receiver of a closed channel with nothing to receive has nothing to receive ever after:
/// trying to receive goes on to report that the channel is closed.
pub proof fn law_drained_receiver_stays_drained<T>(ch: Channel<T>, id: nat, action: Action<T>)
    requires
        ch.wf(),
        ch.is_closed,
        ch.receivers.contains_key(id),
        ch.backlog(id).len() == 0,
        ch.enabled(action),
        action != Action::<T>::Leave(id),
    ensures
        ch.next(action).is_closed,
        ch.next(action).receivers.contains_key(id),
        ch.next(action).backlog(id).len() == 0,
{
    law_backlog_is_as_expected(ch, action, id);
}

/// A receiver that is deactivated and then activated again is counted as before, keeps the channel
/// open in between, and has nothing to receive afterwards.
pub proof fn law_deactivation_can_be_undone<T>(ch: Channel<T>, id: nat)
    requires
        ch.wf(),
        ch.receivers.contains_key(id),
    ensures
        ({
            let idle = ch.join_inactive().leave(id);
            let active = idle.activate().leave_inactive(ch.next_id);
            &&& idle.is_closed == ch.is_closed
            &&& idle.receivers.len() == ch.receivers.len() - 1
            &&& idle.inactive.len() == ch.inactive.len() + 1
            &&& active.is_closed == ch.is_closed
            &&& active.receivers.len() == ch.receivers.len()
            &&& active.inactive == ch.inactive
            &&& active.senders == ch.senders
            &&& active.backlog(idle.next_id).len() == 0
        }),
{
    let joined = ch.join_inactive();
    let idle = joined.leave(id);
    let active = idle.activate().leave_inactive(ch.next_id);
    ch.lemma_others_wf(0);
    let _ = joined.lemma_leaving(id);
    idle.lemma_join_wf();
    assert(ch.receivers.remove(id).dom() =~= ch.receivers.dom().remove(id));
    assert(joined.inactive.len() == ch.inactive.len() + 1);
    assert(idle.receivers.insert(idle.next_id, idle.tail()).dom() =~= idle.receivers.dom().insert(
        idle.next_id,
    ));
    assert(active.inactive =~= ch.inactive);
}

/// A handle that is cloned and whose clone is dropped leaves the channel as it was, but for the
/// identity that was given out.
pub proof fn law_cloning_can_be_undone<T>(ch: Channel<T>)
    requires
        ch.wf(),
    ensures
        ch.senders.len() > 0 ==> ch.join_sender().leave_sender(ch.next_id) == (Channel {
            next_id: ch.next_id + 1,
            ..ch
        }),
        ch.receivers.len() > 0 ==> ch.join().leave(ch.next_id) == (Channel {
            next_id: ch.next_id + 1,
            ..ch
        }),
        ch.receivers.len() + ch.inactive.len() > 0 ==> ch.join_inactive().leave_inactive(ch.next_id)
            == (Channel { next_id: ch.next_id + 1, ..ch }),
{
    assert(ch.senders.insert(ch.next_id).remove(ch.next_id) =~= ch.senders);
    assert(ch.inactive.insert(ch.next_id).remove(ch.next_id) =~= ch.inactive);
    let joined = ch.join();
    let released = release(joined.queue, joined.next_index(joined.receivers[ch.next_id]) as int);
    let k = lemma_strip(released);
    assert(released =~= ch.queue);
    assert(released.skip(0) =~= ch.queue);
    assert(joined.receivers.remove(ch.next_id) =~= ch.receivers);
    assert(ch.receivers.len() > 0 ==> joined.leave(ch.next_id) =~= (Channel {
        next_id: ch.next_id + 1,
        ..ch
    }));
}

/// What is set is what is read back, and a capacity that is set is kept to at once.
pub proof fn law_settings_are_read_back<T>(ch: Channel<T>, new_cap: nat, overflow: bool)
    ensures
        ch.set_capacity(new_cap).capacity == new_cap,
        ch.set_capacity(new_cap).queue.len() <= new_cap,
        ch.set_overflow(overflow).overflow == overflow,
        ch.set_overflow(overflow).messages() == ch.messages(),
{
}

/// Whatever gives a receiver something to receive, or closes the channel, notifies every receiver
/// that waits.
pub proof fn law_waiting_receivers_are_woken<T>(ch: Channel<T>, action: Action<T>, id: nat)
    requires
        ch.wf(),
        ch.enabled(action),
        ch.receivers.contains_key(id),
        action != Action::<T>::Leave(id),
        ch.backlog(id).len() == 0,
        !ch.is_closed,
        ch.next(action).backlog(id).len() > 0 || ch.next(action).is_closed,
    ensures
        ch.next(action).recv_ops == ch.recv_ops.notify(usize::MAX),
{
    law_backlog_is_as_expected(ch, action, id);
}

/// Whatever lets a message be sent that was refused, or closes the channel, notifies a sender that
/// waits.
pub proof fn law_waiting_senders_are_woken<T>(ch: Channel<T>, action: Action<T>, msg: T)
    requires
        ch.wf(),
        ch.enabled(action),
        ch.broadcast_result(msg) is Err,
        !ch.is_closed,
        ch.next(action).broadcast_result(msg) is Ok || ch.next(action).is_closed,
    ensures
        ({
            let before = ch.send_ops.calls;
            let calls = ch.next(action).send_ops.calls;
            &&& ch.next(action).send_ops.id == ch.send_ops.id
            &&& calls.len() > before.len()
            &&& calls.take(before.len() as int) == before
            &&& calls[before.len() as int] matches Call::Notify(n) && n >= 1
        }),
{
    let then = ch.next(action);
    match action {
        Action::Receive(id) => {
            assert(then.receivers.dom() =~= ch.receivers.dom());
        },
        Action::Leave(id) => {
            let k = ch.lemma_leaving(id);
        },
        _ => {},
    }
    assert(then.send_ops.calls.take(ch.send_ops.calls.len() as int) =~= ch.send_ops.calls);
}

/// A waiting sender that was let in notifies the next one if another message could be sent.
pub proof fn law_waiting_sender_passes_on<T>(ch: Channel<T>, msg: T, other: T)
    requires
        ch.broadcast_result(msg) is Ok,
    ensures
        ch.broadcast(msg).broadcast_result(other) is Ok ==> ch.broadcast(msg).pass_on().send_ops
            == ch.send_ops.notify(1),
{
}

/// The channel after a number of actions.
pub open spec fn run<T>(ch: Channel<T>, actions: Seq<Action<T>>) -> Channel<T>
    decreases actions.len(),
{
    if actions.len() == 0 {
        ch
    } else {
        run(ch, actions.drop_last()).next(actions.last())
    }
}

/// Something that may hold of a channel and an action that is done with it.
pub type Condition<T> = spec_fn(Channel<T>, Action<T>) -> bool;

/// The condition holds of every action of the run, and the channel that it is done with.
pub open spec fn throughout<T>(
    ch: Channel<T>,
    actions: Seq<Action<T>>,
    holds: Condition<T>,
) -> bool {
    forall|n: int|
        #![trigger run(ch, actions.take(n))]
        0 <= n < actions.len() ==> holds(run(ch, actions.take(n)), actions[n])
}

/// The action is one of a handle that belongs to the channel at the time.
pub open spec fn possible<T>() -> Condition<T> {
    |ch: Channel<T>, action: Action<T>| ch.enabled(action)
}

/// The action does not make the channel give up a message to make room.
pub open spec fn lossless<T>() -> Condition<T> {
    |ch: Channel<T>, action: Action<T>| !ch.loses(action)
}

/// The receiver `id` stays.
pub open spec fn stays<T>(id: nat) -> Condition<T> {
    |ch: Channel<T>, action: Action<T>| action != Action::<T>::Leave(id)
}

/// The messages that were accepted in the run, in the order in which they were.
pub open spec fn sent<T>(ch: Channel<T>, actions: Seq<Action<T>>) -> Seq<T>
    decreases actions.len(),
{
    if actions.len() == 0 {
        Seq::empty()
    } else {
        let before = sent(ch, actions.drop_last());
        match actions.last() {
            Action::Broadcast(msg) => if run(ch, actions.drop_last()).broadcast_result(msg) is Ok {
                before.push(msg)
            } else {
                before
            },
            _ => before,
        }
    }
}

/// The messages of which the receiver `id` got a clone in the run, in the order in which it did.
pub open spec fn received<T>(ch: Channel<T>, actions: Seq<Action<T>>, id: nat) -> Seq<T>
    decreases actions.len(),
{
    if actions.len() == 0 {
        Seq::empty()
    } else {
        let before = received(ch, actions.drop_last(), id);
        let backlog = run(ch, actions.drop_last()).backlog(id);
        if actions.last() == Action::<T>::Receive(id) && backlog.len() > 0 {
            before.push(backlog[0])
        } else {
            before
        }
    }
}

/// The numbers of the messages of which the receiver `id` got a clone in the run, in the order in
/// which it did.
pub open spec fn taken<T>(ch: Channel<T>, actions: Seq<Action<T>>, id: nat) -> Seq<nat>
    decreases actions.len(),
{
    if actions.len() == 0 {
        Seq::empty()
    } else {
        let before = taken(ch, actions.drop_last(), id);
        let mid = run(ch, actions.drop_last());
        if actions.last() == Action::<T>::Receive(id) && mid.backlog(id).len() > 0 {
            before.push(mid.next_number(id))
        } else {
            before
        }
    }
}

/// The message numbered `n` was given up in the run to make room.
pub open spec fn given_up<T>(ch: Channel<T>, actions: Seq<Action<T>>, n: nat) -> bool
    decreases actions.len(),
{
    if actions.len() == 0 {
        false
    } else {
        let mid = run(ch, actions.drop_last());
        ||| given_up(ch, actions.drop_last(), n)
        ||| mid.loses(actions.last()) && mid.head <= n < mid.next(actions.last()).head
    }
}

/// The messages that the channel held at first and those that were accepted in the run, in the
/// order of their numbers: the first one has the number `ch.head`.
pub open spec fn numbered<T>(ch: Channel<T>, actions: Seq<Action<T>>) -> Seq<T> {
    ch.messages() + sent(ch, actions)
}

/// A condition holds of every action of a run exactly if it holds of every action but the last,
/// and of the last.
proof fn lemma_throughout<T>(ch: Channel<T>, actions: Seq<Action<T>>, holds: Condition<T>)
    requires
        actions.len() > 0,
    ensures
        throughout(ch, actions, holds) <==> throughout(ch, actions.drop_last(), holds) && holds(
            run(ch, actions.drop_last()),
            actions.last(),
        ),
{
    let before = actions.drop_last();
    let end = before.len() as int;
    assert(actions.take(end) =~= before);
    assert forall|n: int| 0 <= n < end implies #[trigger] actions.take(n) == before.take(n) by {
        assert(before.take(n) =~= actions.take(n));
    }
    if throughout(ch, actions, holds) {
        assert(holds(run(ch, actions.take(end)), actions[end]));
        assert forall|n: int| #![trigger run(ch, before.take(n))] 0 <= n < end implies holds(
            run(ch, before.take(n)),
            before[n],
        ) by {
            assert(holds(run(ch, actions.take(n)), actions[n]));
        }
    }
    if throughout(ch, before, holds) && holds(run(ch, before), actions.last()) {
        assert forall|n: int| #![trigger run(ch, actions.take(n))] 0 <= n <= end implies holds(
            run(ch, actions.take(n)),
            actions[n],
        ) by {
            if n < end {
                assert(holds(run(ch, before.take(n)), before[n]));
            }
        }
    }
}

/// A channel that is closed and empty stays closed and empty, whatever is done with it: a stream
/// that has come to its end does not go on.
pub proof fn law_terminated_channel_stays_terminated<T>(ch: Channel<T>, actions: Seq<Action<T>>)
    requires
        ch.is_closed,
        ch.queue.len() == 0,
    ensures
        run(ch, actions).is_closed,
        run(ch, actions).queue.len() == 0,
    decreases actions.len(),
{
    if actions.len() > 0 {
        law_terminated_channel_stays_terminated(ch, actions.drop_last());
    }
}

/// A run of possible actions keeps the channel well formed, and a receiver that stays belongs to
/// it.
pub proof fn law_run_stays_well_formed<T>(ch: Channel<T>, actions: Seq<Action<T>>, id: nat)
    requires
        ch.wf(),
        throughout(ch, actions, possible()),
    ensures
        run(ch, actions).wf(),
        ch.receivers.contains_key(id) && throughout(ch, actions, stays(id)) ==> run(
            ch,
            actions,
        ).receivers.contains_key(id),
    decreases actions.len(),
{
    if actions.len() > 0 {
        lemma_throughout(ch, actions, possible());
        lemma_throughout(ch, actions, stays(id));
        law_run_stays_well_formed(ch, actions.drop_last(), id);
        let mid = run(ch, actions.drop_last());
        law_channel_stays_well_formed(mid, actions.last());
        if ch.receivers.contains_key(id) && throughout(ch, actions, stays(id)) {
            law_backlog_is_as_expected(mid, actions.last(), id);
        }
    }
}

/// Every receiver gets every message that is sent, once and in order, as long as the channel gives
/// up no message to make room: what it had to receive at first and what was sent since is what it
/// has received and what it has still to receive.
pub proof fn law_every_receiver_gets_every_message<T>(
    ch: Channel<T>,
    actions: Seq<Action<T>>,
    id: nat,
)
    requires
        ch.wf(),
        ch.receivers.contains_key(id),
        throughout(ch, actions, possible()),
        throughout(ch, actions, stays(id)),
        throughout(ch, actions, lossless()),
    ensures
        ch.backlog(id) + sent(ch, actions) == received(ch, actions, id) + run(ch, actions).backlog(
            id,
        ),
    decreases actions.len(),
{
    let start = ch.backlog(id);
    if actions.len() == 0 {
        assert(start + sent(ch, actions) =~= received(ch, actions, id) + start);
    } else {
        let before = actions.drop_last();
        let last = actions.last();
        lemma_throughout(ch, actions, possible());
        lemma_throughout(ch, actions, stays(id));
        lemma_throughout(ch, actions, lossless());
        law_run_stays_well_formed(ch, before, id);
        law_every_receiver_gets_every_message(ch, before, id);
        let mid = run(ch, before);
        law_backlog_is_as_expected(mid, last, id);
        let out = sent(ch, before);
        let got = received(ch, before, id);
        let left = mid.backlog(id);
        match last {
            Action::Broadcast(msg) => {
                if mid.broadcast_result(msg) is Ok {
                    assert(start + out.push(msg) =~= (start + out).push(msg));
                    assert(got + left.push(msg) =~= (got + left).push(msg));
                }
            },
            Action::Receive(receiver) => {
                if receiver == id && left.len() > 0 {
                    assert(got.push(left[0]) + left.drop_first() =~= got + left);
                }
            },
            Action::SetCapacity(new_cap) => {
                assert(left.skip(0) =~= left);
            },
            _ => {},
        }
    }
}

/// What an action does to the numbers: messages leave the front of the queue, and one that is
/// accepted gets the next number.
proof fn lemma_numbers<T>(ch: Channel<T>, action: Action<T>)
    requires
        ch.wf(),
        ch.enabled(action),
    ensures
        ({
            let then = ch.next(action);
            let all = match action {
                Action::Broadcast(msg) => if ch.broadcast_result(msg) is Ok {
                    ch.messages().push(msg)
                } else {
                    ch.messages()
                },
                _ => ch.messages(),
            };
            &&& ch.head <= then.head <= ch.head + all.len()
            &&& then.messages() == all.skip(then.head - ch.head)
        }),
{
    let then = ch.next(action);
    match action {
        Action::Broadcast(msg) => {
            let all = if ch.broadcast_result(msg) is Ok {
                ch.messages().push(msg)
            } else {
                ch.messages()
            };
            assert(then.messages() =~= all.skip(then.head - ch.head));
        },
        Action::Receive(id) => {
            if ch.has_next(id) {
                ch.lemma_next_is_kept(id);
            }
            assert(then.messages() =~= ch.messages().skip(then.head - ch.head));
        },
        Action::Leave(id) => {
            let k = ch.lemma_leaving(id);
            assert(then.messages() =~= ch.messages().skip(then.head - ch.head));
        },
        _ => {
            assert(then.messages() =~= ch.messages().skip(then.head - ch.head));
        },
    }
}

/// The channel holds, of all messages that it ever held, the last ones in their order.
pub proof fn law_channel_holds_the_last_messages<T>(ch: Channel<T>, actions: Seq<Action<T>>)
    requires
        ch.wf(),
        throughout(ch, actions, possible()),
    ensures
        ch.head <= run(ch, actions).head <= ch.head + numbered(ch, actions).len(),
        run(ch, actions).messages() == numbered(ch, actions).skip(run(ch, actions).head - ch.head),
    decreases actions.len(),
{
    let all = numbered(ch, actions);
    if actions.len() == 0 {
        assert(all.skip(0) =~= ch.messages());
    } else {
        let before = actions.drop_last();
        let last = actions.last();
        let mid = run(ch, before);
        lemma_throughout(ch, actions, possible());
        law_run_stays_well_formed(ch, before, 0);
        law_channel_holds_the_last_messages(ch, before);
        lemma_numbers(mid, last);
        let then = run(ch, actions);
        assert(then.messages() =~= all.skip(then.head - ch.head));
    }
}

/// A receiver gets messages in their order, each at most once, whatever is given up to make room;
/// and what it does not get was given up to make room.
pub proof fn law_receiver_misses_only_what_is_given_up<T>(
    ch: Channel<T>,
    actions: Seq<Action<T>>,
    id: nat,
)
    requires
        ch.wf(),
        ch.receivers.contains_key(id),
        throughout(ch, actions, possible()),
        throughout(ch, actions, stays(id)),
    ensures
        ({
            let all = numbered(ch, actions);
            let at = taken(ch, actions, id);
            let first = ch.next_number(id);
            let next = run(ch, actions).next_number(id);
            &&& first <= next <= ch.head + all.len()
            &&& received(ch, actions, id).len() == at.len()
            &&& forall|k: int|
                0 <= k < at.len() ==> first <= #[trigger] at[k] < next && received(
                    ch,
                    actions,
                    id,
                )[k] == all[at[k] - ch.head]
            &&& forall|k: int, l: int| 0 <= k < l < at.len() ==> at[k] < at[l]
            &&& forall|n: nat|
                first <= n < next ==> #[trigger] at.contains(n) || given_up(ch, actions, n)
        }),
    decreases actions.len(),
{
    law_run_stays_well_formed(ch, actions, id);
    law_channel_holds_the_last_messages(ch, actions);
    if actions.len() > 0 {
        let before = actions.drop_last();
        let last = actions.last();
        lemma_throughout(ch, actions, possible());
        lemma_throughout(ch, actions, stays(id));
        law_run_stays_well_formed(ch, before, id);
        law_channel_holds_the_last_messages(ch, before);
        law_receiver_misses_only_what_is_given_up(ch, before, id);
        let mid = run(ch, before);
        let then = run(ch, actions);
        lemma_numbers(mid, last);
        lemma_next_number(mid, last, id);
        let all = numbered(ch, actions);
        let old_all = numbered(ch, before);
        let at = taken(ch, actions, id);
        let old_at = taken(ch, before, id);
        let first = ch.next_number(id);
        assert(old_all =~= all.take(old_all.len() as int));
        assert forall|k: int| 0 <= k < at.len() implies first <= #[trigger] at[k]
            < then.next_number(id) && received(ch, actions, id)[k] == all[at[k] - ch.head] by {
            if k < old_at.len() {
                assert(at[k] == old_at[k]);
                assert(received(ch, actions, id)[k] == received(ch, before, id)[k]);
                assert(all[at[k] - ch.head] == old_all[at[k] - ch.head]);
            } else {
                assert(mid.backlog(id)[0] == mid.messages()[mid.next_number(id) - mid.head]);
            }
        }
        assert forall|n: nat| first <= n < then.next_number(id) implies #[trigger] at.contains(n)
            || given_up(ch, actions, n) by {
            if n < mid.next_number(id) {
                if old_at.contains(n) {
                    let k = choose|k: int| 0 <= k < old_at.len() && old_at[k] == n;
                    assert(at[k] == n);
                }
            } else if last == Action::<T>::Receive(id) && mid.backlog(id).len() > 0 {
                assert(at[old_at.len() as int] == n);
            }
        }
    }
}

/// The next message of a receiver moves on by one when it receives, and to the oldest message that
/// is left when its own was given up.
proof fn lemma_next_number<T>(ch: Channel<T>, action: Action<T>, id: nat)
    requires
        ch.wf(),
        ch.enabled(action),
        ch.receivers.contains_key(id),
        action != Action::<T>::Leave(id),
    ensures
        ({
            let then = ch.next(action);
            if action == Action::<T>::Receive(id) && ch.backlog(id).len() > 0 {
                then.next_number(id) == ch.next_number(id) + 1
            } else {
                then.next_number(id) == if ch.loses(action) && ch.next_number(id) < then.head {
                    then.head
                } else {
                    ch.next_number(id)
                }
            }
        }),
{
    match action {
        Action::Receive(receiver) => {
            if ch.has_next(receiver) {
                ch.lemma_next_is_kept(receiver);
                if ch.queue[ch.next_index(ch.receivers[receiver]) as int].1 == 1 {
                    ch.lemma_last_reception(receiver);
                    ch.lemma_awaits(id, 0);
                }
            }
        },
        Action::Leave(receiver) => {
            let k = ch.lemma_leaving(receiver);
        },
        _ => {},
    }
}

} // verus!
