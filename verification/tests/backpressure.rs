use funding_bot::backpressure::{BackpressurePolicy, ChannelClosed, Offer, TickBuffer, TryRecvError};

#[test]
fn drop_newest_drops_incoming_when_full() {
    let mut b = TickBuffer::<i32>::new(2, BackpressurePolicy::DropNewest);
    assert!(matches!(b.offer(1), Offer::Enqueued));
    assert!(matches!(b.offer(2), Offer::Enqueued));
    assert!(matches!(b.offer(3), Offer::Dropped), "3 must be dropped");
    assert_eq!(b.dropped_newest(), 1);
    assert_eq!(b.pop(), Some(1));
    assert_eq!(b.pop(), Some(2));
}

#[test]
fn drop_oldest_evicts_head_and_enqueues_new() {
    let mut b = TickBuffer::<i32>::new(2, BackpressurePolicy::DropOldest);
    assert!(matches!(b.offer(1), Offer::Enqueued));
    assert!(matches!(b.offer(2), Offer::Enqueued));
    assert!(matches!(b.offer(3), Offer::Enqueued), "3 must enqueue (evicting 1)");
    assert_eq!(b.dropped_oldest(), 1);
    assert_eq!(b.pop(), Some(2));
    assert_eq!(b.pop(), Some(3));
}

#[test]
fn drop_oldest_accumulates_counter() {
    let mut b = TickBuffer::<i32>::new(1, BackpressurePolicy::DropOldest);
    for i in 0..5 {
        assert!(matches!(b.offer(i), Offer::Enqueued));
    }
    assert_eq!(b.dropped_oldest(), 4);
    assert_eq!(b.pop(), Some(4));
}

#[test]
fn block_policy_hands_item_back_when_full() {
    let mut b = TickBuffer::<i32>::new(2, BackpressurePolicy::Block);
    b.count_blocked_send();
    assert!(matches!(b.offer(1), Offer::Enqueued));
    b.count_blocked_send();
    assert!(matches!(b.offer(2), Offer::Enqueued));
    b.count_blocked_send();
    match b.offer(3) {
        Offer::Full(x) => assert_eq!(x, 3),
        _ => panic!("expected Full"),
    }
    assert_eq!(b.pop(), Some(1));
    assert!(matches!(b.offer(3), Offer::Enqueued));
    assert_eq!(b.blocked_sends(), 3);
    assert_eq!(b.len(), 2);
}

#[test]
fn counters_independent_per_policy() {
    let mut dn = TickBuffer::<i32>::new(1, BackpressurePolicy::DropNewest);
    let _ = dn.offer(1);
    let _ = dn.offer(2);
    assert_eq!(dn.dropped_newest(), 1);
    assert_eq!(dn.dropped_oldest(), 0);
    let mut d_o = TickBuffer::<i32>::new(1, BackpressurePolicy::DropOldest);
    let _ = d_o.offer(1);
    let _ = d_o.offer(2);
    assert_eq!(d_o.dropped_oldest(), 1);
    assert_eq!(d_o.dropped_newest(), 0);
}

#[test]
fn try_pop_on_empty_is_empty() {
    let mut b = TickBuffer::<i32>::new(3, BackpressurePolicy::DropNewest);
    assert_eq!(b.try_pop(), Err(TryRecvError::Empty));
    let _ = b.offer(9);
    assert_eq!(b.try_pop(), Ok(9));
    assert_eq!(b.policy(), BackpressurePolicy::DropNewest);
    assert_eq!(ChannelClosed.describe(), "channel closed: receiver dropped");
}
