//! Waking the tasks that wait for a channel.
use event_listener::{Event, EventListener};
use std::future::Future;
use std::pin::Pin;
use std::task::{Context, Poll};
use vstd::prelude::*;

verus! {

/// An event that tasks wait for. What is inside is not visible to the proofs.
#[verifier::external_type_specification]
#[verifier::external_body]
pub struct ExEvent(Event);

/// A registration of one waiting task. What is inside is not visible to the proofs.
#[verifier::external_type_specification]
#[verifier::external_body]
pub struct ExEventListener(EventListener);

/// The context of the task that is polling. What is inside is not visible to the proofs.
#[verifier::external_type_specification]
#[verifier::external_body]
pub struct ExContext<'a>(Context<'a>);

/// A call that was made on a [`Signal`].
pub enum Call {
    /// At least so many waiting tasks were notified.
    Notify(usize),
    /// One more task started to wait.
    Listen,
}

/// Which event a [`Signal`] stands for, and the calls that were made on it.
#[verifier::ext_equal]
pub struct Record {
    /// The identity of the event.
    pub id: int,
    /// The calls, in the order in which they were made.
    pub calls: Seq<Call>,
}

impl Record {
    /// With `n` waiting tasks notified, or all of them if there are fewer.
    pub open spec fn notify(self, n: usize) -> Record {
        Record { calls: self.calls.push(Call::Notify(n)), ..self }
    }

    /// With one more waiting task registered.
    pub open spec fn listen(self) -> Record {
        Record { calls: self.calls.push(Call::Listen), ..self }
    }
}

/// An event together with the record of the calls that were made on it.
///
/// The record exists in proofs only. The contracts of the channel say by means of it whom an
/// operation wakes, and what a waiting task waits for.
pub struct Signal {
    event: Event,
    record: Ghost<Record>,
}

impl View for Signal {
    type V = Record;

    closed spec fn view(&self) -> Record {
        self.record@
    }
}

/// A poll that was made of a [`Registration`].
pub struct Polled {
    /// The identity of the event that the registration waits for.
    pub signal: int,
    /// Whether the registration had been notified, and was used up by the poll.
    pub ready: bool,
}

/// The task that is polling, together with the record of the polls that it made.
///
/// The record exists in proofs only.
pub struct Task<'a, 'b> {
    cx: &'a mut Context<'b>,
    polled: Ghost<Seq<Polled>>,
}

impl<'a, 'b> Task<'a, 'b> {
    /// The polls that the task made, in the order in which it did.
    pub closed spec fn polled(&self) -> Seq<Polled> {
        self.polled@
    }

    /// The task that `cx` belongs to, which has made no poll yet.
    pub fn new(cx: &'a mut Context<'b>) -> (task: Task<'a, 'b>)
        ensures
            task.polled() == Seq::<Polled>::empty(),
    {
        Task { cx, polled: Ghost(Seq::empty()) }
    }
}

/// One waiting task that is registered with a [`Signal`] and has not been seen to be notified yet.
///
/// Nobody but a signal makes one, and polling uses it up once it has been notified.
pub struct Registration {
    listener: EventListener,
    signal: Ghost<int>,
    polls: Ghost<nat>,
}

impl Registration {
    /// The identity of the event that the task waits for.
    pub closed spec fn signal(&self) -> int {
        self.signal@
    }

    /// How often the registration was polled, with the waker of the task left in it.
    pub closed spec fn polls(&self) -> nat {
        self.polls@
    }

    /// `EventListener::poll`, the `Future` of a registration, with the context of the task. A
    /// registration that has been notified is used up (`None`). One that has not is handed back
    /// (`Some`): it waits for the same event, and has been polled once more, which leaves the
    /// task's waker in it. Which of the two comes back depends on what other tasks have done
    /// meanwhile, so nothing is claimed of that but that the task's record says it. The outside
    /// function panics on a registration that was used up; none is ever handed back.
    #[verifier::external_body]
    fn poll(self, task: &mut Task<'_, '_>) -> (rest: Option<Registration>)
        ensures
            rest matches Some(registration) ==> registration.signal() == self.signal()
                && registration.polls() == self.polls() + 1,
            final(task).polled() == old(task).polled().push(
                Polled { signal: self.signal(), ready: rest is None },
            ),
    {
        let mut registration = self;
        match Pin::new(&mut registration.listener).poll(task.cx) {
            Poll::Ready(_) => None,
            Poll::Pending => Some(registration),
        }
    }
}

impl Signal {
    /// `Event::new`: an event that no task waits for and on which no call was made. Nothing is
    /// claimed of its identity.
    #[verifier::external_body]
    pub(crate) fn new() -> (signal: Signal)
        ensures
            signal@.calls == Seq::<Call>::empty(),
    {
        Signal { event: Event::new(), record: Ghost(arbitrary()) }
    }

    /// `Event::notify`, on the event of this signal: sees to it that at least `n` of the tasks that
    /// wait for it, or all of them where there are fewer, are notified. Which tasks wait is not
    /// part of the event's value, and changes as they are dropped elsewhere: the contract says that
    /// the call was made, and not who was woken by it.
    #[verifier::external_body]
    pub(crate) fn notify(&mut self, n: usize)
        ensures
            final(self)@ == old(self)@.notify(n),
    {
        self.event.notify(n);
    }

    /// `Event::listen`, on the event of this signal: registers a new waiting task behind those that
    /// are registered already. The registration waits for that event, and was not polled yet.
    #[verifier::external_body]
    pub(crate) fn listen(&mut self) -> (registration: Registration)
        ensures
            final(self)@ == old(self)@.listen(),
            registration.signal() == old(self)@.id,
            registration.polls() == 0,
    {
        Registration { listener: self.event.listen(), signal: Ghost(self@.id), polls: Ghost(0) }
    }
}

/// The record of a task's polls after it has polled the registration in `listener`, if there is
/// one, once, and has found it notified or not as `woken` says.
pub open spec fn polled_after(
    before: Seq<Polled>,
    listener: Option<Registration>,
    woken: bool,
) -> Seq<Polled> {
    match listener {
        None => before,
        Some(registration) => before.push(Polled { signal: registration.signal(), ready: woken }),
    }
}

/// Leaves what a poll has left of a registration in `listener`.
///
/// Returns `true` if nothing is left of it, so that the task has nothing to wait for.
pub fn settle(listener: &mut Option<Registration>, rest: Option<Registration>) -> (woken: bool)
    ensures
        *final(listener) == rest,
        woken == (rest is None),
{
    *listener = rest;
    listener.is_none()
}

/// Polls the registration in `listener`, if there is one.
///
/// Returns `true` if the task has nothing to wait for, which leaves `listener` empty, and `false`
/// if it has to wait on, which leaves the registration there, polled once more.
pub fn poll_signal(listener: &mut Option<Registration>, task: &mut Task<'_, '_>) -> (woken: bool)
    ensures
        woken == (*final(listener) is None),
        *old(listener) is None ==> woken,
        !woken ==> final(listener)->0.signal() == old(listener)->0.signal(),
        !woken ==> final(listener)->0.polls() == old(listener)->0.polls() + 1,
        final(task).polled() == polled_after(old(task).polled(), *old(listener), woken),
{
    match listener.take() {
        None => true,
        Some(registration) => {
            let rest = registration.poll(task);
            settle(listener, rest)
        },
    }
}

} // verus!
