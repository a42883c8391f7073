//! Errors reported by the two sides of a channel.
use std::fmt;
use vstd::prelude::*;

verus! {

/// What a text is written to. What is inside is not visible to the proofs.
#[verifier::external_type_specification]
#[verifier::external_body]
pub struct ExFormatter<'a>(fmt::Formatter<'a>);

/// A failure to write a text. What is inside is not visible to the proofs.
#[verifier::external_type_specification]
#[verifier::external_body]
pub struct ExFmtError(fmt::Error);

/// The text that a formatter holds, which is what was written to it so far.
pub uninterp spec fn written(f: fmt::Formatter<'_>) -> Seq<char>;

/// `Formatter::write_str`: writes the whole text behind what was written before, or fails. Whether
/// it fails is up to what stands behind the formatter, so nothing is claimed of that.
#[verifier::external_body]
fn write_text(f: &mut fmt::Formatter<'_>, text: &str) -> (result: fmt::Result)
    ensures
        result is Ok ==> written(*final(f)) == written(*old(f)) + text@,
{
    f.write_str(text)
}

/// An error returned when a waiting broadcast is given up.
///
/// Received because the channel is closed.
#[derive(PartialEq, Eq, Clone, Copy)]
pub struct SendError<T>(pub T);

impl<T> SendError<T> {
    /// Unwraps the message that couldn't be sent.
    pub fn into_inner(self) -> (msg: T)
        ensures
            msg == self.0,
    {
        self.0
    }

    /// The error in words.
    pub fn to_string(&self) -> (text: String)
        ensures
            text@ == "sending into a closed channel"@,
    {
        "sending into a closed channel".to_string()
    }
}

impl<T> fmt::Debug for SendError<T> {
    /// Writes the error as a developer sees it: the message itself is left out.
    fn fmt(&self, f: &mut fmt::Formatter<'_>) -> (result: fmt::Result)
        ensures
            result is Ok ==> written(*final(f)) == written(*old(f)) + "SendError(..)"@,
    {
        write_text(f, "SendError(..)")
    }
}

/// An error returned from [`Sender::try_broadcast`](crate::Sender::try_broadcast).
#[derive(PartialEq, Eq, Clone, Copy)]
pub enum TrySendError<T> {
    /// The channel is full but not closed.
    Full(T),
    /// The channel is closed.
    Closed(T),
    /// There are currently no active receivers, only inactive ones.
    Inactive(T),
}

impl<T> TrySendError<T> {
    /// The error as a developer sees it, without the message.
    pub open spec fn debug_text(self) -> Seq<char> {
        match self {
            TrySendError::Full(_) => "Full(..)"@,
            TrySendError::Closed(_) => "Closed(..)"@,
            TrySendError::Inactive(_) => "Inactive(..)"@,
        }
    }

    /// The message that couldn't be sent.
    pub open spec fn message(self) -> T {
        match self {
            TrySendError::Full(t) => t,
            TrySendError::Closed(t) => t,
            TrySendError::Inactive(t) => t,
        }
    }

    /// Unwraps the message that couldn't be sent.
    pub fn into_inner(self) -> (msg: T)
        ensures
            msg == self.message(),
    {
        match self {
            TrySendError::Full(t) => t,
            TrySendError::Closed(t) => t,
            TrySendError::Inactive(t) => t,
        }
    }

    /// Returns `true` if the channel is full but not closed.
    pub fn is_full(&self) -> (full: bool)
        ensures
            full == (self is Full),
    {
        match self {
            TrySendError::Full(_) => true,
            TrySendError::Closed(_) | TrySendError::Inactive(_) => false,
        }
    }

    /// Returns `true` if the channel is closed.
    pub fn is_closed(&self) -> (closed: bool)
        ensures
            closed == (self is Closed),
    {
        match self {
            TrySendError::Full(_) | TrySendError::Inactive(_) => false,
            TrySendError::Closed(_) => true,
        }
    }

    /// Returns `true` if the channel is closed.
    pub fn is_disconnected(&self) -> (disconnected: bool)
        ensures
            disconnected == (self is Closed),
    {
        match self {
            TrySendError::Full(_) | TrySendError::Inactive(_) => false,
            TrySendError::Closed(_) => true,
        }
    }

    /// The error in words.
    pub fn to_string(&self) -> (text: String)
        ensures
            text@ == match self {
                TrySendError::Full(_) => "sending into a full channel"@,
                TrySendError::Closed(_) => "sending into a closed channel"@,
                TrySendError::Inactive(_) => "sending into the void (no active receivers)"@,
            },
    {
        match self {
            TrySendError::Full(_) => "sending into a full channel".to_string(),
            TrySendError::Closed(_) => "sending into a closed channel".to_string(),
            TrySendError::Inactive(_) => "sending into the void (no active receivers)".to_string(),
        }
    }
}

impl<T> fmt::Debug for TrySendError<T> {
    /// Writes the error as a developer sees it: the message itself is left out.
    fn fmt(&self, f: &mut fmt::Formatter<'_>) -> (result: fmt::Result)
        ensures
            result is Ok ==> written(*final(f)) == written(*old(f)) + match self {
                TrySendError::Full(_) => "Full(..)"@,
                TrySendError::Closed(_) => "Closed(..)"@,
                TrySendError::Inactive(_) => "Inactive(..)"@,
            },
            result is Ok ==> written(*final(f)) == written(*old(f)) + self.debug_text(),
    {
        match self {
            TrySendError::Full(_) => write_text(f, "Full(..)"),
            TrySendError::Closed(_) => write_text(f, "Closed(..)"),
            TrySendError::Inactive(_) => write_text(f, "Inactive(..)"),
        }
    }
}

/// An error returned when a waiting receive is given up.
///
/// Received because the channel is empty and closed.
#[derive(PartialEq, Eq, Clone, Copy, Debug)]
pub struct RecvError;

impl RecvError {
    /// The error in words.
    pub fn to_string(&self) -> (text: String)
        ensures
            text@ == "receiving from an empty and closed channel"@,
    {
        "receiving from an empty and closed channel".to_string()
    }
}

/// An error returned from [`Receiver::try_recv`](crate::Receiver::try_recv).
#[derive(PartialEq, Eq, Clone, Copy, Debug)]
pub enum TryRecvError {
    /// The channel is empty but not closed.
    Empty,
    /// The channel is empty and closed.
    Closed,
}

impl TryRecvError {
    /// Returns `true` if the channel is empty but not closed.
    pub fn is_empty(&self) -> (empty: bool)
        ensures
            empty == (self is Empty),
    {
        match self {
            TryRecvError::Empty => true,
            TryRecvError::Closed => false,
        }
    }

    /// Returns `true` if the channel is empty and closed.
    pub fn is_closed(&self) -> (closed: bool)
        ensures
            closed == (self is Closed),
    {
        match self {
            TryRecvError::Empty => false,
            TryRecvError::Closed => true,
        }
    }

    /// The error in words.
    pub fn to_string(&self) -> (text: String)
        ensures
            text@ == match self {
                TryRecvError::Empty => "receiving from an empty channel"@,
                TryRecvError::Closed => "receiving from an empty and closed channel"@,
            },
    {
        match self {
            TryRecvError::Empty => "receiving from an empty channel".to_string(),
            TryRecvError::Closed => "receiving from an empty and closed channel".to_string(),
        }
    }
}

} // verus!
