//! Operations that wait until they can be done.
use crate::errors::{RecvError, SendError, TryRecvError, TrySendError};
use crate::inner::Inner;
use crate::receiver::Receiver;
use crate::sender::Sender;
use crate::signal::{poll_signal, polled_after, Registration, Task};
use vstd::prelude::*;

verus! {

/// What one turn of a waiting operation comes to.
#[derive(PartialEq, Eq, Debug)]
pub enum Step<R> {
    /// The operation is done.
    Ready(R),
    /// The operation has just been registered for a notification: try again, something may have
    /// changed before it was.
    Retry,
    /// Nothing can be done before the notification comes.
    Wait,
}

/// A waiting broadcast, returned by [`Sender::broadcast`].
pub struct Send<'a, T> {
    pub(crate) sender: &'a Sender<T>,
    pub(crate) listener: Option<Registration>,
    pub(crate) msg: Option<T>,
}

impl<'a, T> Send<'a, T> {
    /// The sender that broadcasts.
    pub open(crate) spec fn sender(&self) -> &'a Sender<T> {
        self.sender
    }

    /// The message, as long as it has neither been sent nor given back.
    pub open(crate) spec fn message(&self) -> Option<T> {
        self.msg
    }

    /// The notification that the operation is registered for.
    pub open(crate) spec fn registration(&self) -> Option<Registration> {
        self.listener
    }
}

impl<'a, T: Clone> Send<'a, T> {
    /// Returns `true` as long as the message has neither been sent nor given back.
    pub fn is_pending(&self) -> (pending: bool)
        ensures
            pending == (self.message() is Some),
    {
        self.msg.is_some()
    }

    /// Ends the operation as a closed channel would: the message is given back.
    pub fn give_up(&mut self) -> (error: SendError<T>)
        requires
            old(self).message() is Some,
        ensures
            Some(error.0) == old(self).message(),
            final(self).message() is None,
            final(self).sender() == old(self).sender(),
            final(self).registration() == old(self).registration(),
    {
        SendError(self.msg.take().unwrap())
    }

    /// Polls the notification that the operation is registered for.
    ///
    /// Returns `true` if there is nothing to wait for, and `false` if the task has to wait on.
    pub fn poll_listener(&mut self, task: &mut Task<'_, '_>) -> (woken: bool)
        ensures
            woken == (final(self).registration() is None),
            old(self).registration() is None ==> woken,
            !woken ==> final(self).registration()->0.signal()
                == old(self).registration()->0.signal(),
            !woken ==> final(self).registration()->0.polls() == old(self).registration()->0.polls()
                + 1,
            final(task).polled() == polled_after(
                old(task).polled(),
                old(self).registration(),
                woken,
            ),
            final(self).sender() == old(self).sender(),
            final(self).message() == old(self).message(),
    {
        poll_signal(&mut self.listener, task)
    }

    /// One turn of the operation: attempts to broadcast, and registers for a notification where
    /// the channel cannot take the message yet.
    ///
    /// Where it says to wait, [`Send::poll_listener`] is to be called before the next turn. No
    /// turn may follow the one that ends the operation.
    pub fn poll(&mut self, inner: &mut Inner<T>) -> (step: Step<Result<Option<T>, SendError<T>>>)
        requires
            old(inner).wf(),
            old(self).message() is Some,
        ensures
            final(self).sender() == old(self).sender(),
            final(inner).wf(),
            ({
                let msg = old(self).message()->0;
                let result = old(inner)@.broadcast_result(msg);
                match step {
                    Step::Ready(Ok(replaced)) => {
                        &&& result == Ok::<Option<T>, TrySendError<T>>(replaced)
                        &&& final(inner)@ == old(inner)@.broadcast(msg).pass_on()
                        &&& final(self).message() is None
                        &&& final(self).registration() == old(self).registration()
                    },
                    Step::Ready(Err(error)) => {
                        &&& result == Err::<Option<T>, _>(TrySendError::Closed(msg))
                        &&& error.0 == msg
                        &&& final(inner)@ == old(inner)@
                        &&& final(self).message() is None
                        &&& final(self).registration() == old(self).registration()
                    },
                    Step::Retry => {
                        &&& result is Err && !(result->Err_0 is Closed)
                        &&& old(self).registration() is None
                        &&& final(inner)@ == old(inner)@.await_room()
                        &&& final(self).message() == Some(msg)
                        &&& final(self).registration() is Some
                        &&& final(self).registration()->0.signal() == old(inner)@.send_ops.id
                        &&& final(self).registration()->0.polls() == 0
                    },
                    Step::Wait => {
                        &&& result is Err && !(result->Err_0 is Closed)
                        &&& old(self).registration() is Some
                        &&& final(inner)@ == old(inner)@
                        &&& final(self).message() == Some(msg)
                        &&& final(self).registration() == old(self).registration()
                    },
                }
            }),
    {
        let msg = self.msg.take().unwrap();
        // Attempt to send a message.
        match self.sender.try_broadcast(inner, msg) {
            Ok(replaced) => {
                proof {
                    inner@.lemma_waiting_wf();
                }
                if inner.has_room() {
                    // Room still, so notify the next awaiting sender.
                    inner.send_ops.notify(1);
                }
                return Step::Ready(Ok(replaced));
            },
            Err(TrySendError::Closed(msg)) => {
                return Step::Ready(Err(SendError(msg)));
            },
            Err(TrySendError::Full(msg)) | Err(TrySendError::Inactive(msg)) => {
                self.msg = Some(msg);
            },
        }
        // Sending failed - now start listening for notifications or wait for one.
        if self.listener.is_none() {
            // Start listening and then try sending again.
            self.listener = Some(inner.listen_for_room());
            Step::Retry
        } else {
            Step::Wait
        }
    }
}

/// A waiting reception, returned by [`Receiver::recv`].
pub struct Recv<'a, T> {
    pub(crate) receiver: &'a mut Receiver<T>,
    pub(crate) listener: Option<Registration>,
}

impl<'a, T> Recv<'a, T> {
    /// The receiver that receives.
    pub open(crate) spec fn receiver(&self) -> &'a mut Receiver<T> {
        self.receiver
    }

    /// The notification that the operation is registered for.
    pub open(crate) spec fn registration(&self) -> Option<Registration> {
        self.listener
    }
}

impl<'a, T: Clone> Recv<'a, T> {
    /// Polls the notification that the operation is registered for.
    ///
    /// Returns `true` if there is nothing to wait for, and `false` if the task has to wait on.
    pub fn poll_listener(&mut self, task: &mut Task<'_, '_>) -> (woken: bool)
        ensures
            woken == (final(self).registration() is None),
            old(self).registration() is None ==> woken,
            !woken ==> final(self).registration()->0.signal()
                == old(self).registration()->0.signal(),
            !woken ==> final(self).registration()->0.polls() == old(self).registration()->0.polls()
                + 1,
            final(task).polled() == polled_after(
                old(task).polled(),
                old(self).registration(),
                woken,
            ),
            final(self).receiver() == old(self).receiver(),
    {
        poll_signal(&mut self.listener, task)
    }

    /// One turn of the operation: attempts to receive, and registers for a notification where
    /// there is nothing to receive yet.
    ///
    /// Where it says to wait, [`Recv::poll_listener`] is to be called before the next turn.
    pub fn poll(&mut self, inner: &mut Inner<T>) -> (step: Step<Result<T, RecvError>>)
        requires
            old(inner).wf(),
            old(self).receiver().attached(old(inner)@),
        ensures
            *final(final(self).receiver()) == *final(old(self).receiver()),
            final(self).receiver().id() == old(self).receiver().id(),
            final(self).receiver().registration() == old(self).receiver().registration(),
            final(self).receiver().attached(final(inner)@),
            final(inner).wf(),
            ({
                let id = old(self).receiver().id();
                let backlog = old(inner)@.backlog(id);
                match step {
                    Step::Ready(Ok(msg)) => {
                        &&& backlog.len() > 0
                        &&& cloned(backlog[0], msg)
                        &&& final(inner)@ == old(inner)@.recv(id)
                        &&& final(self).registration() == old(self).registration()
                    },
                    Step::Ready(Err(_)) => {
                        &&& backlog.len() == 0
                        &&& old(inner)@.is_closed
                        &&& final(inner)@ == old(inner)@
                        &&& final(self).registration() == old(self).registration()
                    },
                    Step::Retry => {
                        &&& backlog.len() == 0
                        &&& !old(inner)@.is_closed
                        &&& old(self).registration() is None
                        &&& final(inner)@ == old(inner)@.await_message()
                        &&& final(self).registration() is Some
                        &&& final(self).registration()->0.signal() == old(inner)@.recv_ops.id
                        &&& final(self).registration()->0.polls() == 0
                    },
                    Step::Wait => {
                        &&& backlog.len() == 0
                        &&& !old(inner)@.is_closed
                        &&& old(self).registration() is Some
                        &&& final(inner)@ == old(inner)@
                        &&& final(self).registration() == old(self).registration()
                    },
                }
            }),
    {
        // Attempt to receive a message.
        match self.receiver.try_recv(inner) {
            Ok(msg) => {
                return Step::Ready(Ok(msg));
            },
            Err(TryRecvError::Closed) => {
                return Step::Ready(Err(RecvError));
            },
            Err(TryRecvError::Empty) => {},
        }
        // Receiving failed - now start listening for notifications or wait for one.
        if self.listener.is_none() {
            // Start listening and then try receiving again.
            self.listener = Some(inner.listen_for_message());
            Step::Retry
        } else {
            Step::Wait
        }
    }
}

} // verus!
