use async_broadcast::{RecvError, SendError, TryRecvError, TrySendError};

#[test]
fn send_error() {
    let e = SendError(7);
    assert_eq!(e.to_string(), "sending into a closed channel");
    assert_eq!(format!("{:?}", e), "SendError(..)");
    assert_eq!(e.into_inner(), 7);
}

#[test]
fn try_send_error_full() {
    let e = TrySendError::Full(1);
    assert!(e.is_full());
    assert!(!e.is_closed());
    assert!(!e.is_disconnected());
    assert_eq!(e.to_string(), "sending into a full channel");
    assert_eq!(format!("{:?}", e), "Full(..)");
    assert_eq!(e.into_inner(), 1);
}

#[test]
fn try_send_error_closed() {
    let e = TrySendError::Closed(2);
    assert!(!e.is_full());
    assert!(e.is_closed());
    assert!(e.is_disconnected());
    assert_eq!(e.to_string(), "sending into a closed channel");
    assert_eq!(format!("{:?}", e), "Closed(..)");
    assert_eq!(e.into_inner(), 2);
}

#[test]
fn try_send_error_inactive() {
    let e = TrySendError::Inactive(3);
    assert!(!e.is_full());
    assert!(!e.is_closed());
    assert!(!e.is_disconnected());
    assert_eq!(e.to_string(), "sending into the void (no active receivers)");
    assert_eq!(format!("{:?}", e), "Inactive(..)");
    assert_eq!(e.into_inner(), 3);
}

#[test]
fn recv_error() {
    assert_eq!(RecvError.to_string(), "receiving from an empty and closed channel");
}

#[test]
fn try_recv_error() {
    assert!(TryRecvError::Empty.is_empty());
    assert!(!TryRecvError::Empty.is_closed());
    assert!(!TryRecvError::Closed.is_empty());
    assert!(TryRecvError::Closed.is_closed());
    assert_eq!(TryRecvError::Empty.to_string(), "receiving from an empty channel");
    assert_eq!(TryRecvError::Closed.to_string(), "receiving from an empty and closed channel");
}

#[test]
fn errors_show_without_their_message() {
    // Of a message nothing need be known for an error to be shown.
    struct Hidden;
    assert_eq!(format!("{:?}", SendError(Hidden)), "SendError(..)");
    assert_eq!(format!("{:?}", TrySendError::Full(Hidden)), "Full(..)");
    assert_eq!(format!("<{:?}>", TrySendError::Closed(Hidden)), "<Closed(..)>");
    assert_eq!(format!("{:?}", Err::<(), _>(TrySendError::Inactive(Hidden))), "Err(Inactive(..))");
    assert_eq!(format!("{:?} {:?}", RecvError, TryRecvError::Empty), "RecvError Empty");
}
