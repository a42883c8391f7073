use async_broadcast::{broadcast, TryRecvError, TrySendError};

#[test]
fn every_receiver_gets_every_message_in_order() {
    let (mut ch, s, mut r1) = broadcast(4);
    let mut r2 = r1.clone(&mut ch);
    let mut got1 = Vec::new();
    let mut got2 = Vec::new();
    let mut sent = Vec::new();
    for n in 0..20 {
        if s.try_broadcast(&mut ch, n).is_ok() {
            sent.push(n);
        }
        if let Ok(m) = r1.try_recv(&mut ch) {
            got1.push(m);
        }
        if n % 3 == 0 {
            if let Ok(m) = r2.try_recv(&mut ch) {
                got2.push(m);
            }
        }
    }
    while let Ok(m) = r1.try_recv(&mut ch) {
        got1.push(m);
    }
    while let Ok(m) = r2.try_recv(&mut ch) {
        got2.push(m);
    }
    assert_eq!(got1, sent);
    assert_eq!(got2, sent);
    assert!(sent.len() > 4);
    assert!(s.is_empty(&ch));
}

#[test]
fn refused_message_changes_nothing() {
    let (mut ch, s, mut r) = broadcast(1);
    s.try_broadcast(&mut ch, 1).unwrap();
    assert_eq!(s.try_broadcast(&mut ch, 2), Err(TrySendError::Full(2)));
    assert_eq!(s.len(&ch), 1);
    assert_eq!(r.try_recv(&mut ch), Ok(1));
    assert_eq!(r.try_recv(&mut ch), Err(TryRecvError::Empty));
}

#[test]
fn replaced_message_is_lost_to_those_who_lag() {
    let (mut ch, mut s, mut r1) = broadcast(2);
    let mut r2 = r1.clone(&mut ch);
    s.set_overflow(&mut ch, true);
    s.try_broadcast(&mut ch, 1).unwrap();
    s.try_broadcast(&mut ch, 2).unwrap();
    assert_eq!(r1.try_recv(&mut ch), Ok(1));
    assert_eq!(s.try_broadcast(&mut ch, 3), Ok(Some(1)));
    assert_eq!(r1.try_recv(&mut ch), Ok(2));
    assert_eq!(r1.try_recv(&mut ch), Ok(3));
    assert_eq!(r2.try_recv(&mut ch), Ok(2));
    assert_eq!(r2.try_recv(&mut ch), Ok(3));
    assert_eq!(r2.try_recv(&mut ch), Err(TryRecvError::Empty));
}

#[test]
fn shrinking_keeps_the_newest() {
    let (mut ch, mut s, mut r1) = broadcast(3);
    let mut r2 = r1.clone(&mut ch);
    s.try_broadcast(&mut ch, 1).unwrap();
    s.try_broadcast(&mut ch, 2).unwrap();
    s.try_broadcast(&mut ch, 3).unwrap();
    assert_eq!(r1.try_recv(&mut ch), Ok(1));
    s.set_capacity(&mut ch, 2);
    assert_eq!(r1.try_recv(&mut ch), Ok(2));
    assert_eq!(r1.try_recv(&mut ch), Ok(3));
    assert_eq!(r1.try_recv(&mut ch), Err(TryRecvError::Empty));
    assert_eq!(r2.try_recv(&mut ch), Ok(2));
    assert_eq!(r2.try_recv(&mut ch), Ok(3));
}

#[test]
fn replacing_delivers_no_message_twice() {
    let (mut ch, mut s, mut r1) = broadcast::<i32>(1);
    let mut r2 = r1.clone(&mut ch);
    s.set_overflow(&mut ch, true);
    assert_eq!(s.try_broadcast(&mut ch, 1), Ok(None));
    assert_eq!(r1.try_recv(&mut ch), Ok(1));
    assert_eq!(r2.try_recv(&mut ch), Ok(1));
    assert_eq!(s.try_broadcast(&mut ch, 2), Ok(None));
    assert_eq!(s.try_broadcast(&mut ch, 3), Ok(Some(2)));
    assert_eq!(r1.try_recv(&mut ch), Ok(3));
    assert_eq!(r1.try_recv(&mut ch), Err(TryRecvError::Empty));
    assert_eq!(s.len(&ch), 1);
    assert_eq!(r2.try_recv(&mut ch), Ok(3));
    assert_eq!(r2.try_recv(&mut ch), Err(TryRecvError::Empty));
    assert!(s.is_empty(&ch));
}

#[test]
fn receivers_that_lag_go_on_with_the_oldest_message_left() {
    let (mut ch, mut s, mut r1) = broadcast(2);
    let mut r2 = r1.clone(&mut ch);
    s.try_broadcast(&mut ch, 1).unwrap();
    assert_eq!(r1.try_recv(&mut ch), Ok(1));
    assert_eq!(r2.try_recv(&mut ch), Ok(1));
    s.set_overflow(&mut ch, true);
    for n in 2..7 {
        s.try_broadcast(&mut ch, n).unwrap();
    }
    assert_eq!(r1.try_recv(&mut ch), Ok(5));
    assert_eq!(r1.try_recv(&mut ch), Ok(6));
    assert_eq!(r1.try_recv(&mut ch), Err(TryRecvError::Empty));
    assert_eq!(r2.try_recv(&mut ch), Ok(5));
    assert_eq!(r2.try_recv(&mut ch), Ok(6));
    assert_eq!(r2.try_recv(&mut ch), Err(TryRecvError::Empty));
}

#[test]
fn dropping_a_receiver_takes_nothing_from_another() {
    let (mut ch, mut s, mut r1) = broadcast::<i32>(1);
    let mut r2 = r1.clone(&mut ch);
    s.set_overflow(&mut ch, true);
    assert_eq!(s.try_broadcast(&mut ch, 1), Ok(None));
    assert_eq!(r1.try_recv(&mut ch), Ok(1));
    assert_eq!(r2.try_recv(&mut ch), Ok(1));
    assert_eq!(s.try_broadcast(&mut ch, 2), Ok(None));
    assert_eq!(s.try_broadcast(&mut ch, 3), Ok(Some(2)));
    assert_eq!(r1.try_recv(&mut ch), Ok(3));
    r1.drop(&mut ch);
    assert_eq!(s.len(&ch), 1);
    assert_eq!(r2.try_recv(&mut ch), Ok(3));
}

#[test]
fn shrinking_hides_no_message_that_stays() {
    let (mut ch, mut s, mut r1) = broadcast::<i32>(3);
    let _r2 = r1.clone(&mut ch);
    assert_eq!(s.try_broadcast(&mut ch, 1), Ok(None));
    assert_eq!(r1.try_recv(&mut ch), Ok(1));
    assert_eq!(s.try_broadcast(&mut ch, 2), Ok(None));
    assert_eq!(s.try_broadcast(&mut ch, 3), Ok(None));
    s.set_capacity(&mut ch, 1);
    assert_eq!(s.len(&ch), 1);
    assert_eq!(r1.try_recv(&mut ch), Ok(3));
    assert_eq!(r1.try_recv(&mut ch), Err(TryRecvError::Empty));
}

#[test]
fn receiver_that_is_done_gets_what_is_sent_after_shrinking() {
    let (mut ch, mut s, mut r1) = broadcast(3);
    let mut r2 = r1.clone(&mut ch);
    s.try_broadcast(&mut ch, 1).unwrap();
    s.try_broadcast(&mut ch, 2).unwrap();
    assert_eq!(r1.try_recv(&mut ch), Ok(1));
    assert_eq!(r1.try_recv(&mut ch), Ok(2));
    s.set_capacity(&mut ch, 1);
    s.set_capacity(&mut ch, 3);
    s.try_broadcast(&mut ch, 3).unwrap();
    assert_eq!(r1.try_recv(&mut ch), Ok(3));
    assert_eq!(r2.try_recv(&mut ch), Ok(2));
    assert_eq!(r2.try_recv(&mut ch), Ok(3));
    assert!(s.is_empty(&ch));
}

#[test]
fn receiver_misses_only_what_is_given_up() {
    let (mut ch, mut s, mut r1) = broadcast(3);
    let mut r2 = r1.clone(&mut ch);
    s.set_overflow(&mut ch, true);
    let mut got = Vec::new();
    let mut given_up = Vec::new();
    for n in 0..40 {
        if let Some(m) = s.try_broadcast(&mut ch, n).unwrap() {
            given_up.push(m);
        }
        if n % 4 == 0 {
            r1.try_recv(&mut ch).unwrap();
        }
        if n % 3 == 0 {
            got.push(r2.try_recv(&mut ch).unwrap());
        }
    }
    while let Ok(m) = r2.try_recv(&mut ch) {
        got.push(m);
    }
    for pair in got.windows(2) {
        assert!(pair[0] < pair[1]);
    }
    for n in 0..40 {
        assert!(got.contains(&n) || given_up.contains(&n));
    }
}

#[test]
fn attempt_to_broadcast_leaves_the_rest_alone() {
    let (mut ch, mut s, mut r) = broadcast(1);
    for overflow in [false, true] {
        s.set_overflow(&mut ch, overflow);
        let _ = s.try_broadcast(&mut ch, 1);
        let _ = s.try_broadcast(&mut ch, 2);
        assert_eq!(s.len(&ch), 1);
        assert_eq!(s.capacity(&ch), 1);
        assert_eq!(s.overflow(&ch), overflow);
        assert!(!s.is_closed(&ch));
        assert_eq!(s.sender_count(&ch), 1);
        assert_eq!(s.receiver_count(&ch), 1);
        assert_eq!(s.inactive_receiver_count(&ch), 0);
    }
    assert_eq!(r.try_recv(&mut ch), Ok(2));
}

#[test]
fn deactivation_drops_what_was_to_be_received() {
    let (mut ch, s, r) = broadcast(2);
    s.try_broadcast(&mut ch, 1).unwrap();
    let inactive = r.deactivate(&mut ch);
    assert!(s.is_empty(&ch));
    let mut r = inactive.activate(&mut ch);
    assert_eq!(r.try_recv(&mut ch), Err(TryRecvError::Empty));
    s.try_broadcast(&mut ch, 2).unwrap();
    assert_eq!(r.try_recv(&mut ch), Ok(2));
}

#[test]
fn closed_channel_stays_closed() {
    let (mut ch, s, r) = broadcast::<i32>(1);
    r.close(&mut ch);
    let s2 = s.clone(&mut ch);
    let mut r2 = r.clone(&mut ch);
    assert!(s2.is_closed(&ch));
    assert_eq!(s2.try_broadcast(&mut ch, 1), Err(TrySendError::Closed(1)));
    assert_eq!(r2.try_recv(&mut ch), Err(TryRecvError::Closed));
}

#[test]
fn cloning_can_be_undone() {
    let (mut ch, s, mut r) = broadcast(2);
    s.try_broadcast(&mut ch, 1).unwrap();
    s.clone(&mut ch).drop(&mut ch);
    r.clone(&mut ch).drop(&mut ch);
    let inactive = r.clone(&mut ch).deactivate(&mut ch);
    inactive.clone(&mut ch).drop(&mut ch);
    assert_eq!(s.sender_count(&ch), 1);
    assert_eq!(s.receiver_count(&ch), 1);
    assert_eq!(s.inactive_receiver_count(&ch), 1);
    assert_eq!(s.len(&ch), 1);
    assert_eq!(r.try_recv(&mut ch), Ok(1));
}

#[test]
fn terminated_stream_does_not_go_on() {
    let (mut ch, mut s, mut r) = broadcast(1);
    r.close(&mut ch);
    assert!(r.is_terminated(&ch));
    s.set_overflow(&mut ch, true);
    s.set_capacity(&mut ch, 5);
    assert_eq!(s.try_broadcast(&mut ch, 1), Err(TrySendError::Closed(1)));
    assert_eq!(r.try_recv(&mut ch), Err(TryRecvError::Closed));
    let mut r2 = r.clone(&mut ch);
    assert!(r2.is_terminated(&ch));
    r2.drop(&mut ch);
    s.drop(&mut ch);
    assert!(r.is_terminated(&ch));
}
