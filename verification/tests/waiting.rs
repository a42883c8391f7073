use async_broadcast::signal::{poll_signal, settle};
use async_broadcast::{broadcast, RecvError, SendError, Step, Task, TryRecvError};
use std::sync::atomic::{AtomicUsize, Ordering};
use std::sync::Arc;
use std::task::{Context, Wake, Waker};

/// Counts how often a task is woken.
struct Wakes(AtomicUsize);

impl Wake for Wakes {
    fn wake(self: Arc<Self>) {
        self.0.fetch_add(1, Ordering::SeqCst);
    }
}

fn task() -> (Arc<Wakes>, Waker) {
    let wakes = Arc::new(Wakes(AtomicUsize::new(0)));
    let waker = Waker::from(wakes.clone());
    (wakes, waker)
}

fn woken(wakes: &Wakes) -> usize {
    wakes.0.load(Ordering::SeqCst)
}

#[test]
fn reception_waits_for_a_message() {
    let (mut ch, s, mut r) = broadcast(1);
    let (wakes, waker) = task();
    let mut cx = Context::from_waker(&waker);

    let mut recv = r.recv();
    assert_eq!(recv.poll(&mut ch), Step::Retry);
    assert_eq!(recv.poll(&mut ch), Step::Wait);
    assert!(!recv.poll_listener(&mut Task::new(&mut cx)));
    assert_eq!(woken(&wakes), 0);

    s.try_broadcast(&mut ch, 5).unwrap();
    assert_eq!(woken(&wakes), 1);
    assert!(recv.poll_listener(&mut Task::new(&mut cx)));
    assert_eq!(recv.poll(&mut ch), Step::Ready(Ok(5)));
    assert_eq!(r.try_recv(&mut ch), Err(TryRecvError::Empty));
}

#[test]
fn reception_ends_when_the_channel_closes() {
    let (mut ch, mut s, mut r) = broadcast::<i32>(1);
    let (wakes, waker) = task();
    let mut cx = Context::from_waker(&waker);

    let mut recv = r.recv();
    assert_eq!(recv.poll(&mut ch), Step::Retry);
    assert!(!recv.poll_listener(&mut Task::new(&mut cx)));
    s.drop(&mut ch);
    assert_eq!(woken(&wakes), 1);
    assert!(recv.poll_listener(&mut Task::new(&mut cx)));
    assert_eq!(recv.poll(&mut ch), Step::Ready(Err(RecvError)));
}

#[test]
fn remaining_messages_are_received_before_the_end() {
    let (mut ch, mut s, mut r1) = broadcast(1);
    let mut r2 = r1.clone(&mut ch);
    assert_eq!(s.broadcast(1).poll(&mut ch), Step::Ready(Ok(None)));
    s.drop(&mut ch);

    assert_eq!(r1.recv().poll(&mut ch), Step::Ready(Ok(1)));
    assert_eq!(r1.recv().poll(&mut ch), Step::Ready(Err(RecvError)));
    assert_eq!(r2.recv().poll(&mut ch), Step::Ready(Ok(1)));
    assert_eq!(r2.recv().poll(&mut ch), Step::Ready(Err(RecvError)));
}

#[test]
fn broadcast_waits_for_room() {
    let (mut ch, s, mut r) = broadcast(1);
    let (wakes, waker) = task();
    let mut cx = Context::from_waker(&waker);
    s.try_broadcast(&mut ch, 1).unwrap();

    let mut send = s.broadcast(2);
    assert!(send.is_pending());
    assert_eq!(send.poll(&mut ch), Step::Retry);
    assert_eq!(send.poll(&mut ch), Step::Wait);
    assert!(!send.poll_listener(&mut Task::new(&mut cx)));
    assert!(send.is_pending());

    assert_eq!(r.try_recv(&mut ch), Ok(1));
    assert_eq!(woken(&wakes), 1);
    assert!(send.poll_listener(&mut Task::new(&mut cx)));
    assert_eq!(send.poll(&mut ch), Step::Ready(Ok(None)));
    assert!(!send.is_pending());
    assert_eq!(r.try_recv(&mut ch), Ok(2));
}

#[test]
fn broadcast_waits_for_an_active_receiver() {
    let (mut ch, s, r) = broadcast(1);
    let (wakes, waker) = task();
    let mut cx = Context::from_waker(&waker);
    let inactive = r.deactivate(&mut ch);

    let mut send = s.broadcast(10);
    assert_eq!(send.poll(&mut ch), Step::Retry);
    assert!(!send.poll_listener(&mut Task::new(&mut cx)));
    let mut r = inactive.activate(&mut ch);
    assert_eq!(woken(&wakes), 1);
    assert!(send.poll_listener(&mut Task::new(&mut cx)));
    assert_eq!(send.poll(&mut ch), Step::Ready(Ok(None)));
    assert_eq!(r.recv().poll(&mut ch), Step::Ready(Ok(10)));
}

#[test]
fn broadcast_fails_when_the_channel_is_closed() {
    let (mut ch, s, mut r) = broadcast(1);
    assert_eq!(s.broadcast(1).poll(&mut ch), Step::Ready(Ok(None)));
    r.drop(&mut ch);
    let mut send = s.broadcast(2);
    assert_eq!(send.poll(&mut ch), Step::Ready(Err(SendError(2))));
    assert!(!send.is_pending());
}

#[test]
fn broadcast_in_overflow_mode_does_not_wait() {
    let (mut ch, mut s, mut r) = broadcast(1);
    s.set_overflow(&mut ch, true);
    assert_eq!(s.broadcast(1).poll(&mut ch), Step::Ready(Ok(None)));
    assert_eq!(s.broadcast(2).poll(&mut ch), Step::Ready(Ok(Some(1))));
    assert_eq!(r.try_recv(&mut ch), Ok(2));
}

#[test]
fn closing_wakes_a_waiting_sender() {
    let (mut ch, s, r) = broadcast(1);
    let (wakes, waker) = task();
    let mut cx = Context::from_waker(&waker);
    s.try_broadcast(&mut ch, 1).unwrap();
    let mut send = s.broadcast(2);
    assert_eq!(send.poll(&mut ch), Step::Retry);
    assert!(!send.poll_listener(&mut Task::new(&mut cx)));
    r.close(&mut ch);
    assert_eq!(woken(&wakes), 1);
    assert!(send.poll_listener(&mut Task::new(&mut cx)));
    assert_eq!(send.poll(&mut ch), Step::Ready(Err(SendError(2))));
}

#[test]
fn dropped_receiver_wakes_a_waiting_sender() {
    let (mut ch, s, mut r1) = broadcast(1);
    let mut r2 = r1.clone(&mut ch);
    let (wakes, waker) = task();
    let mut cx = Context::from_waker(&waker);
    s.try_broadcast(&mut ch, 1).unwrap();
    assert_eq!(r1.try_recv(&mut ch), Ok(1));
    let mut send = s.broadcast(2);
    assert_eq!(send.poll(&mut ch), Step::Retry);
    assert!(!send.poll_listener(&mut Task::new(&mut cx)));
    r2.drop(&mut ch);
    assert_eq!(woken(&wakes), 1);
    assert!(send.poll_listener(&mut Task::new(&mut cx)));
    assert_eq!(send.poll(&mut ch), Step::Ready(Ok(None)));
}

#[test]
fn larger_capacity_wakes_waiting_senders_one_by_one() {
    let (mut ch, mut s, mut r) = broadcast(1);
    let (wakes1, waker1) = task();
    let (wakes2, waker2) = task();
    s.try_broadcast(&mut ch, 1).unwrap();
    let other = s.clone(&mut ch);
    let mut send1 = other.broadcast(2);
    let mut send2 = other.broadcast(3);
    assert_eq!(send1.poll(&mut ch), Step::Retry);
    assert!(!send1.poll_listener(&mut Task::new(&mut Context::from_waker(&waker1))));
    assert_eq!(send2.poll(&mut ch), Step::Retry);
    assert!(!send2.poll_listener(&mut Task::new(&mut Context::from_waker(&waker2))));

    s.set_capacity(&mut ch, 3);
    assert_eq!((woken(&wakes1), woken(&wakes2)), (1, 0));
    assert!(send1.poll_listener(&mut Task::new(&mut Context::from_waker(&waker1))));
    assert_eq!(send1.poll(&mut ch), Step::Ready(Ok(None)));
    assert_eq!((woken(&wakes1), woken(&wakes2)), (1, 1));
    assert!(send2.poll_listener(&mut Task::new(&mut Context::from_waker(&waker2))));
    assert_eq!(send2.poll(&mut ch), Step::Ready(Ok(None)));
    assert_eq!(r.try_recv(&mut ch), Ok(1));
    assert_eq!(r.try_recv(&mut ch), Ok(2));
    assert_eq!(r.try_recv(&mut ch), Ok(3));
}

#[test]
fn overflow_mode_wakes_waiting_senders_one_by_one() {
    let (mut ch, mut s, mut r) = broadcast(1);
    let (wakes1, waker1) = task();
    let (wakes2, waker2) = task();
    s.try_broadcast(&mut ch, 1).unwrap();
    let other = s.clone(&mut ch);
    let mut send1 = other.broadcast(2);
    let mut send2 = other.broadcast(3);
    assert_eq!(send1.poll(&mut ch), Step::Retry);
    assert!(!send1.poll_listener(&mut Task::new(&mut Context::from_waker(&waker1))));
    assert_eq!(send2.poll(&mut ch), Step::Retry);
    assert!(!send2.poll_listener(&mut Task::new(&mut Context::from_waker(&waker2))));

    s.set_overflow(&mut ch, true);
    assert_eq!((woken(&wakes1), woken(&wakes2)), (1, 0));
    assert!(send1.poll_listener(&mut Task::new(&mut Context::from_waker(&waker1))));
    assert_eq!(send1.poll(&mut ch), Step::Ready(Ok(Some(1))));
    assert_eq!((woken(&wakes1), woken(&wakes2)), (1, 1));
    assert!(send2.poll_listener(&mut Task::new(&mut Context::from_waker(&waker2))));
    assert_eq!(send2.poll(&mut ch), Step::Ready(Ok(Some(2))));
    assert_eq!(r.try_recv(&mut ch), Ok(3));
}

#[test]
fn settings_that_make_no_room_wake_nobody() {
    let (mut ch, mut s, _r) = broadcast(2);
    let (wakes, waker) = task();
    s.try_broadcast(&mut ch, 1).unwrap();
    s.try_broadcast(&mut ch, 2).unwrap();
    let other = s.clone(&mut ch);
    let mut send = other.broadcast(3);
    assert_eq!(send.poll(&mut ch), Step::Retry);
    assert!(!send.poll_listener(&mut Task::new(&mut Context::from_waker(&waker))));
    s.set_capacity(&mut ch, 1);
    s.set_overflow(&mut ch, false);
    assert_eq!(woken(&wakes), 0);
}

#[test]
fn stream_of_messages() {
    let (mut ch, mut s, mut r) = broadcast(1);
    let (wakes, waker) = task();
    let mut cx = Context::from_waker(&waker);

    assert!(r.poll_listener(&mut Task::new(&mut cx)));
    assert_eq!(r.poll_next(&mut ch), Step::Retry);
    assert_eq!(r.poll_next(&mut ch), Step::Wait);
    assert!(!r.poll_listener(&mut Task::new(&mut cx)));

    s.try_broadcast(&mut ch, 7).unwrap();
    assert_eq!(woken(&wakes), 1);
    assert!(r.poll_listener(&mut Task::new(&mut cx)));
    assert_eq!(r.poll_next(&mut ch), Step::Ready(Some(7)));

    assert_eq!(r.poll_next(&mut ch), Step::Retry);
    s.drop(&mut ch);
    assert_eq!(r.poll_next(&mut ch), Step::Ready(None));
    assert!(r.is_terminated(&ch));
    assert_eq!(r.poll_next(&mut ch), Step::Ready(None));
}

#[test]
fn broadcast_is_given_up() {
    let (mut ch, s, mut r) = broadcast(1);
    let mut send = s.broadcast(2);
    assert_eq!(send.give_up(), SendError(2));
    assert!(!send.is_pending());
    assert_eq!(r.try_recv(&mut ch), Err(TryRecvError::Empty));
}

#[test]
fn registration_is_kept_until_it_is_used_up() {
    let (mut ch, s, mut r) = broadcast(1);
    let (wakes1, waker1) = task();
    let (wakes2, waker2) = task();
    let mut recv = r.recv();
    assert!(recv.poll_listener(&mut Task::new(&mut Context::from_waker(&waker1))));
    assert_eq!(recv.poll(&mut ch), Step::Retry);
    assert!(!recv.poll_listener(&mut Task::new(&mut Context::from_waker(&waker1))));
    assert_eq!(recv.poll(&mut ch), Step::Wait);
    // The waker of the last poll counts.
    assert!(!recv.poll_listener(&mut Task::new(&mut Context::from_waker(&waker2))));
    s.try_broadcast(&mut ch, 1).unwrap();
    assert_eq!((woken(&wakes1), woken(&wakes2)), (0, 1));
    assert!(recv.poll_listener(&mut Task::new(&mut Context::from_waker(&waker1))));
    assert!(recv.poll_listener(&mut Task::new(&mut Context::from_waker(&waker1))));
    assert_eq!(recv.poll(&mut ch), Step::Ready(Ok(1)));
}

#[test]
fn nothing_to_wait_for_without_a_registration() {
    let (_wakes, waker) = task();
    let mut slot = None;
    assert!(poll_signal(&mut slot, &mut Task::new(&mut Context::from_waker(&waker))));
    assert!(slot.is_none());
    assert!(settle(&mut slot, None));
    assert!(slot.is_none());
}

#[test]
fn task_polls_more_than_one_registration() {
    let (mut ch, s, mut r1) = broadcast(1);
    let mut r2 = r1.clone(&mut ch);
    let (wakes, waker) = task();
    let mut cx = Context::from_waker(&waker);
    let mut polling = Task::new(&mut cx);
    assert_eq!(r1.poll_next(&mut ch), Step::Retry);
    assert_eq!(r2.poll_next(&mut ch), Step::Retry);
    assert!(!r1.poll_listener(&mut polling));
    assert!(!r2.poll_listener(&mut polling));
    s.try_broadcast(&mut ch, 1).unwrap();
    assert_eq!(woken(&wakes), 2);
    assert!(r1.poll_listener(&mut polling));
    assert!(r2.poll_listener(&mut polling));
}

#[test]
fn stream_gives_up_its_registration() {
    let (mut ch, s, mut r) = broadcast(1);
    let (wakes, waker) = task();
    let mut cx = Context::from_waker(&waker);
    assert_eq!(r.poll_next(&mut ch), Step::Retry);
    assert!(!r.poll_listener(&mut Task::new(&mut cx)));
    r.stop_listening();
    assert!(r.poll_listener(&mut Task::new(&mut cx)));
    s.try_broadcast(&mut ch, 1).unwrap();
    assert_eq!(woken(&wakes), 0);
    assert_eq!(r.poll_next(&mut ch), Step::Ready(Some(1)));
}
