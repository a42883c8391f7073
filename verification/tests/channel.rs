use async_broadcast::{broadcast, TryRecvError, TrySendError};

#[test]
fn two_senders_and_two_receivers() {
    let (mut ch, mut s1, mut r1) = broadcast(2);
    let mut s2 = s1.clone(&mut ch);
    let mut r2 = r1.clone(&mut ch);

    // Send 2 messages from two different senders.
    s1.try_broadcast(&mut ch, 7).unwrap();
    s2.try_broadcast(&mut ch, 8).unwrap();

    // Channel is now at capacity so sending more messages will result in an error.
    assert!(s2.try_broadcast(&mut ch, 9).unwrap_err().is_full());
    assert!(s1.try_broadcast(&mut ch, 10).unwrap_err().is_full());

    assert_eq!(r1.try_recv(&mut ch), Ok(7));
    assert_eq!(r1.try_recv(&mut ch), Ok(8));
    assert_eq!(r2.try_recv(&mut ch), Ok(7));
    assert_eq!(r2.try_recv(&mut ch), Ok(8));

    // All receivers got all messages so channel is now empty.
    assert_eq!(r1.try_recv(&mut ch), Err(TryRecvError::Empty));
    assert_eq!(r2.try_recv(&mut ch), Err(TryRecvError::Empty));
    assert!(s1.is_empty(&ch));

    // Drop both senders, which closes the channel.
    s1.drop(&mut ch);
    assert!(!r1.is_closed(&ch));
    s2.drop(&mut ch);
    assert!(r1.is_closed(&ch));

    assert_eq!(r1.try_recv(&mut ch), Err(TryRecvError::Closed));
    assert_eq!(r2.try_recv(&mut ch), Err(TryRecvError::Closed));
}

#[test]
fn full_channel_gives_the_message_back() {
    let (mut ch, s, mut r1) = broadcast(1);
    let mut r2 = r1.clone(&mut ch);

    assert_eq!(s.try_broadcast(&mut ch, 10), Ok(None));
    assert_eq!(s.try_broadcast(&mut ch, 20), Err(TrySendError::Full(20)));

    assert_eq!(r1.try_recv(&mut ch), Ok(10));
    assert_eq!(r2.try_recv(&mut ch), Ok(10));
    assert_eq!(r1.try_recv(&mut ch), Err(TryRecvError::Empty));
    assert_eq!(r2.try_recv(&mut ch), Err(TryRecvError::Empty));
}

#[test]
fn new_channel() {
    let (ch, s, r) = broadcast::<i32>(5);
    assert_eq!(s.capacity(&ch), 5);
    assert_eq!(r.capacity(&ch), 5);
    assert!(!s.overflow(&ch));
    assert!(!r.overflow(&ch));
    assert!(!s.is_closed(&ch));
    assert!(!r.is_closed(&ch));
    assert_eq!(s.len(&ch), 0);
    assert_eq!(s.sender_count(&ch), 1);
    assert_eq!(s.receiver_count(&ch), 1);
    assert_eq!(s.inactive_receiver_count(&ch), 0);
    assert!(ch.can_count_sender());
    assert!(ch.can_count_receiver());
    assert!(ch.can_count_inactive_receiver());
}

#[test]
fn huge_capacity_is_accepted() {
    let (mut ch, mut s, mut r) = broadcast::<u64>(usize::MAX);
    assert_eq!(s.capacity(&ch), usize::MAX);
    assert_eq!(s.try_broadcast(&mut ch, 1), Ok(None));
    s.set_capacity(&mut ch, usize::MAX - 1);
    assert_eq!(r.try_recv(&mut ch), Ok(1));
}

#[test]
fn sender_sets_the_capacity() {
    let (mut ch, mut s, mut r) = broadcast::<i32>(3);
    assert_eq!(s.capacity(&ch), 3);
    s.try_broadcast(&mut ch, 1).unwrap();
    s.try_broadcast(&mut ch, 2).unwrap();
    s.try_broadcast(&mut ch, 3).unwrap();

    s.set_capacity(&mut ch, 1);
    assert_eq!(s.capacity(&ch), 1);
    assert_eq!(r.try_recv(&mut ch).unwrap(), 3);
    assert_eq!(r.try_recv(&mut ch), Err(TryRecvError::Empty));
    s.try_broadcast(&mut ch, 1).unwrap();
    assert_eq!(s.try_broadcast(&mut ch, 2), Err(TrySendError::Full(2)));

    s.set_capacity(&mut ch, 2);
    assert_eq!(s.capacity(&ch), 2);
    s.try_broadcast(&mut ch, 2).unwrap();
    assert_eq!(s.try_broadcast(&mut ch, 2), Err(TrySendError::Full(2)));
}

#[test]
fn receiver_sets_the_capacity() {
    let (mut ch, s, mut r) = broadcast::<i32>(3);
    assert_eq!(r.capacity(&ch), 3);
    s.try_broadcast(&mut ch, 1).unwrap();
    s.try_broadcast(&mut ch, 2).unwrap();
    s.try_broadcast(&mut ch, 3).unwrap();

    r.set_capacity(&mut ch, 1);
    assert_eq!(r.capacity(&ch), 1);
    assert_eq!(r.try_recv(&mut ch).unwrap(), 3);
    assert_eq!(r.try_recv(&mut ch), Err(TryRecvError::Empty));
    s.try_broadcast(&mut ch, 1).unwrap();
    assert_eq!(s.try_broadcast(&mut ch, 2), Err(TrySendError::Full(2)));

    r.set_capacity(&mut ch, 2);
    assert_eq!(r.capacity(&ch), 2);
    s.try_broadcast(&mut ch, 2).unwrap();
    assert_eq!(s.try_broadcast(&mut ch, 2), Err(TrySendError::Full(2)));
}

#[test]
fn larger_capacity_keeps_the_messages() {
    let (mut ch, mut s, mut r) = broadcast::<i32>(2);
    s.try_broadcast(&mut ch, 1).unwrap();
    s.try_broadcast(&mut ch, 2).unwrap();
    s.set_capacity(&mut ch, 100);
    s.try_broadcast(&mut ch, 3).unwrap();
    assert_eq!(s.len(&ch), 3);
    assert_eq!(r.try_recv(&mut ch), Ok(1));
    assert_eq!(r.try_recv(&mut ch), Ok(2));
    assert_eq!(r.try_recv(&mut ch), Ok(3));
}

#[test]
fn sender_sets_overflow_mode() {
    let (mut ch, mut s, mut r) = broadcast::<i32>(2);
    s.try_broadcast(&mut ch, 1).unwrap();
    s.try_broadcast(&mut ch, 2).unwrap();
    assert_eq!(s.try_broadcast(&mut ch, 3), Err(TrySendError::Full(3)));
    s.set_overflow(&mut ch, true);
    assert!(s.overflow(&ch));
    assert_eq!(s.try_broadcast(&mut ch, 3).unwrap(), Some(1));
    assert_eq!(s.try_broadcast(&mut ch, 4).unwrap(), Some(2));

    assert_eq!(r.try_recv(&mut ch).unwrap(), 3);
    assert_eq!(r.try_recv(&mut ch).unwrap(), 4);
    assert_eq!(r.try_recv(&mut ch), Err(TryRecvError::Empty));
}

#[test]
fn receiver_sets_overflow_mode() {
    let (mut ch, s, mut r) = broadcast::<i32>(2);
    s.try_broadcast(&mut ch, 1).unwrap();
    s.try_broadcast(&mut ch, 2).unwrap();
    assert_eq!(s.try_broadcast(&mut ch, 3), Err(TrySendError::Full(3)));
    r.set_overflow(&mut ch, true);
    assert!(r.overflow(&ch));
    assert_eq!(s.try_broadcast(&mut ch, 3).unwrap(), Some(1));
    assert_eq!(s.try_broadcast(&mut ch, 4).unwrap(), Some(2));

    assert_eq!(r.try_recv(&mut ch).unwrap(), 3);
    assert_eq!(r.try_recv(&mut ch).unwrap(), 4);
    assert_eq!(r.try_recv(&mut ch), Err(TryRecvError::Empty));
}

#[test]
fn closing_keeps_the_messages() {
    let (mut ch, s, mut r) = broadcast(1);
    s.try_broadcast(&mut ch, 1).unwrap();
    assert!(s.close(&mut ch));
    assert!(!s.close(&mut ch));
    assert!(!r.close(&mut ch));
    assert_eq!(s.try_broadcast(&mut ch, 2), Err(TrySendError::Closed(2)));

    assert!(!r.is_terminated(&ch));
    assert_eq!(r.try_recv(&mut ch), Ok(1));
    assert!(r.is_terminated(&ch));
    assert_eq!(r.try_recv(&mut ch), Err(TryRecvError::Closed));
    assert_eq!(r.try_recv(&mut ch), Err(TryRecvError::Closed));
}

#[test]
fn receiver_closes_the_channel() {
    let (mut ch, s, r) = broadcast::<()>(1);
    assert!(!r.is_terminated(&ch));
    assert!(r.close(&mut ch));
    assert!(s.is_closed(&ch));
    assert!(r.is_terminated(&ch));
}

#[test]
fn dropping_the_receiver_closes_the_channel() {
    let (mut ch, s, mut r) = broadcast(1);
    assert_eq!(s.try_broadcast(&mut ch, 1), Ok(None));
    assert_eq!(s.try_broadcast(&mut ch, 2), Err(TrySendError::Full(2)));
    assert!(!s.is_closed(&ch));

    r.drop(&mut ch);
    assert!(s.is_closed(&ch));
    assert_eq!(s.try_broadcast(&mut ch, 3), Err(TrySendError::Closed(3)));
    assert!(s.is_empty(&ch));
}

#[test]
fn empty_full_and_length() {
    let (mut ch, s, r) = broadcast(2);
    assert!(s.is_empty(&ch));
    assert!(r.is_empty(&ch));
    assert!(!s.is_full(&ch));
    assert!(!r.is_full(&ch));
    assert_eq!(s.len(&ch), 0);
    assert_eq!(r.len(&ch), 0);

    s.try_broadcast(&mut ch, 1).unwrap();
    assert!(!s.is_empty(&ch));
    assert!(!s.is_full(&ch));

    s.try_broadcast(&mut ch, 2).unwrap();
    assert!(!r.is_empty(&ch));
    assert!(s.is_full(&ch));
    assert!(r.is_full(&ch));
    assert_eq!(s.len(&ch), 2);
    assert_eq!(r.len(&ch), 2);
}

#[test]
fn counts_of_handles() {
    let (mut ch, s, r) = broadcast::<()>(1);
    assert_eq!(s.receiver_count(&ch), 1);
    let mut r = r.deactivate(&mut ch);
    assert_eq!(s.receiver_count(&ch), 0);
    assert_eq!(s.inactive_receiver_count(&ch), 1);

    let r2 = r.activate_cloned(&mut ch);
    assert_eq!(r.receiver_count(&ch), 1);
    assert_eq!(r.inactive_receiver_count(&ch), 1);
    assert_eq!(r2.receiver_count(&ch), 1);
    assert_eq!(r2.inactive_receiver_count(&ch), 1);

    let mut s2 = s.clone(&mut ch);
    assert_eq!(s.sender_count(&ch), 2);
    assert_eq!(r.sender_count(&ch), 2);
    assert_eq!(r2.sender_count(&ch), 2);
    s2.drop(&mut ch);
    assert_eq!(s.sender_count(&ch), 1);

    let mut r3 = r.clone(&mut ch);
    assert_eq!(s.inactive_receiver_count(&ch), 2);
    r3.drop(&mut ch);
    r.drop(&mut ch);
    assert_eq!(s.inactive_receiver_count(&ch), 0);
    assert!(!s.is_closed(&ch));
}

#[test]
fn deactivated_receiver_is_activated_again() {
    let (mut ch, s, r) = broadcast(1);
    let inactive = r.deactivate(&mut ch);
    assert_eq!(s.try_broadcast(&mut ch, 10), Err(TrySendError::Inactive(10)));

    let mut r = inactive.activate(&mut ch);
    assert_eq!(s.inactive_receiver_count(&ch), 0);
    assert_eq!(s.receiver_count(&ch), 1);
    assert_eq!(s.try_broadcast(&mut ch, 10), Ok(None));
    assert_eq!(r.try_recv(&mut ch), Ok(10));
}

#[test]
fn receiver_is_made_from_an_inactive_one() {
    let (mut ch, s, r) = broadcast(1);
    let inactive = r.deactivate(&mut ch);
    assert_eq!(s.try_broadcast(&mut ch, 10), Err(TrySendError::Inactive(10)));

    let mut r = inactive.activate_cloned(&mut ch);
    assert_eq!(s.try_broadcast(&mut ch, 10), Ok(None));
    assert_eq!(r.try_recv(&mut ch), Ok(10));
}

#[test]
fn dropping_the_last_inactive_receiver_closes_the_channel() {
    let (mut ch, s, r) = broadcast::<i32>(1);
    let mut inactive = r.deactivate(&mut ch);
    assert!(!inactive.is_closed(&ch));
    inactive.drop(&mut ch);
    assert!(s.is_closed(&ch));
    assert_eq!(s.try_broadcast(&mut ch, 3), Err(TrySendError::Closed(3)));
}

#[test]
fn inactive_receiver_has_the_channel_at_hand() {
    let (mut ch, s, r) = broadcast(4);
    let mut other = r.clone(&mut ch);
    let mut inactive = r.deactivate(&mut ch);
    s.try_broadcast(&mut ch, 1).unwrap();
    s.try_broadcast(&mut ch, 2).unwrap();
    assert_eq!(inactive.capacity(&ch), 4);
    assert_eq!(inactive.len(&ch), 2);
    assert!(!inactive.is_empty(&ch));
    assert!(!inactive.is_full(&ch));
    assert!(!inactive.overflow(&ch));
    inactive.set_capacity(&mut ch, 1);
    assert!(inactive.is_full(&ch));
    inactive.set_overflow(&mut ch, true);
    assert!(inactive.overflow(&ch));
    assert_eq!(s.try_broadcast(&mut ch, 3), Ok(Some(2)));
    assert_eq!(other.try_recv(&mut ch), Ok(3));
    assert!(inactive.close(&mut ch));
    assert!(inactive.is_closed(&ch));
    assert_eq!(inactive.sender_count(&ch), 1);
}

#[test]
fn late_receiver_gets_only_what_follows() {
    let (mut ch, s, mut r1) = broadcast(3);
    s.try_broadcast(&mut ch, 1).unwrap();
    let mut r2 = r1.clone(&mut ch);
    s.try_broadcast(&mut ch, 2).unwrap();
    assert_eq!(r2.try_recv(&mut ch), Ok(2));
    assert_eq!(r2.try_recv(&mut ch), Err(TryRecvError::Empty));
    assert_eq!(r1.try_recv(&mut ch), Ok(1));
    assert_eq!(r1.try_recv(&mut ch), Ok(2));
    assert_eq!(s.len(&ch), 0);
}

#[test]
fn dropped_receiver_makes_room() {
    let (mut ch, s, mut r1) = broadcast(3);
    let mut r2 = r1.clone(&mut ch);
    s.try_broadcast(&mut ch, 1).unwrap();
    s.try_broadcast(&mut ch, 2).unwrap();
    s.try_broadcast(&mut ch, 3).unwrap();
    assert_eq!(r1.try_recv(&mut ch), Ok(1));
    assert_eq!(r1.try_recv(&mut ch), Ok(2));
    assert_eq!(s.len(&ch), 3);
    // The first two messages were kept for the second receiver alone.
    r2.drop(&mut ch);
    assert_eq!(s.len(&ch), 1);
    assert_eq!(r1.try_recv(&mut ch), Ok(3));
    assert_eq!(s.len(&ch), 0);
}

#[test]
fn capacity_zero_takes_nothing() {
    let (mut ch, mut s, mut r) = broadcast(1);
    s.try_broadcast(&mut ch, 1).unwrap();
    s.set_capacity(&mut ch, 0);
    assert_eq!(s.len(&ch), 0);
    assert!(s.is_full(&ch));
    assert_eq!(s.try_broadcast(&mut ch, 2), Err(TrySendError::Full(2)));
    // In overflow mode the message that leaves the channel is the new one itself.
    s.set_overflow(&mut ch, true);
    assert_eq!(s.try_broadcast(&mut ch, 3), Ok(Some(3)));
    assert_eq!(s.try_broadcast(&mut ch, 4), Ok(Some(4)));
    assert_eq!(s.len(&ch), 0);
    assert_eq!(r.try_recv(&mut ch), Err(TryRecvError::Empty));
    // The receiver goes on with what is sent when there is room again.
    s.set_capacity(&mut ch, 1);
    assert_eq!(s.try_broadcast(&mut ch, 5), Ok(None));
    assert_eq!(r.try_recv(&mut ch), Ok(5));
    assert_eq!(r.try_recv(&mut ch), Err(TryRecvError::Empty));
}

#[test]
fn capacity_zero_in_overflow_mode_stays_empty() {
    let (mut ch, mut s, _r) = broadcast::<i32>(1);
    s.set_capacity(&mut ch, 0);
    s.set_overflow(&mut ch, true);
    assert_eq!(s.try_broadcast(&mut ch, 1), Ok(Some(1)));
    assert_eq!(s.len(&ch), 0);
    assert!(s.len(&ch) <= s.capacity(&ch));
}

#[test]
fn channel_can_be_sent_to_another_thread() {
    fn check<X: Send>(_: &X) {}
    let (ch, s, r) = broadcast::<i32>(1);
    check(&ch);
    check(&s);
    check(&r);
}
