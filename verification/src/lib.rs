//! Broadcast channel
//!
//! A multi-producer multi-consumer broadcast channel, where each consumer gets a clone of every
//! message sent on the channel. For obvious reasons, the channel can only be used to broadcast
//! types that implement [`Clone`].
//!
//! A channel has the [`Sender`] and [`Receiver`] side. Both sides can be cloned. What the two
//! sides share is the [`Inner`] state of the channel, which every operation takes as an argument:
//! who uses a channel from several tasks keeps it behind a lock.
//!
//! When all `Sender`s or all `Receiver`s are dropped, the channel becomes closed. When a channel
//! is closed, no more messages can be sent, but remaining messages can still be received.
//!
//! The channel can also be closed manually by calling [`Sender::close`] or [`Receiver::close`].
//!
//! Contracts speak of a channel as a mathematical value, [`model::Channel`]. What each operation
//! does to the parts of it that a caller can see is stated in [`effects`]; what holds of several
//! operations together is stated in [`laws`].
use number::Number;
use std::marker::PhantomData;
use vstd::prelude::*;

pub mod effects;
pub mod errors;
pub mod futures;
pub mod inactive;
pub mod inner;
pub mod laws;
pub mod model;
pub mod number;
pub mod receiver;
pub mod sender;
pub mod signal;
pub mod steps;

pub use errors::{RecvError, SendError, TryRecvError, TrySendError};
pub use futures::{Recv, Send, Step};
pub use inactive::InactiveReceiver;
pub use inner::Inner;
pub use receiver::Receiver;
pub use sender::Sender;
pub use signal::Task;

verus! {

/// Create a new broadcast channel.
///
/// The created channel has space to hold at most `cap` messages at a time. Capacity must be a
/// positive number.
pub fn broadcast<T>(cap: usize) -> (channel: (Inner<T>, Sender<T>, Receiver<T>))
    requires
        cap > 0,
    ensures
        channel.0.wf(),
        channel.0@ == model::Channel::<T>::init(
            cap as nat,
            channel.0@.send_ops.id,
            channel.0@.recv_ops.id,
        ),
        channel.0@.capacity == cap,
        channel.0@.queue.len() == 0,
        !channel.0@.overflow,
        !channel.0@.is_closed,
        channel.0@.senders.len() == 1,
        channel.0@.receivers.len() == 1,
        channel.0@.inactive.len() == 0,
        channel.1.id() == 0,
        channel.1.attached(channel.0@),
        channel.2.id() == 1,
        channel.2.attached(channel.0@),
        channel.2.registration() is None,
{
    let inner = Inner::new(cap);
    proof {
        effects::law_new_channel_is_open_and_empty::<T>(
            cap as nat,
            inner@.send_ops.id,
            inner@.recv_ops.id,
        );
    }
    let sender = Sender { id: Ghost(0), marker: PhantomData };
    let pos = Number::zero();
    let receiver = Receiver { pos, listener: None, id: Ghost(1), marker: PhantomData };
    (inner, sender, receiver)
}

} // verus!
