use asak::queue::BoundedQueue;
use asak::ring::OverwriteRing;

#[test]
fn ring_keeps_the_last_capacity_items_in_order() {
    // Capacity N, N + 1 pushes: exactly the last N remain, in order.
    let n = 3;
    let mut ring = OverwriteRing::new(n);
    for x in [10, 20, 30, 40] {
        ring.push(x);
    }
    assert_eq!(ring.snapshot(), vec![20, 30, 40]);
    assert_eq!(ring.len(), n);
    assert_eq!(ring.capacity(), n);
}

#[test]
fn ring_push_never_fails_across_many_overwrites() {
    let mut ring = OverwriteRing::new(4);
    for x in 0..100 {
        ring.push(x);
    }
    assert_eq!(ring.snapshot(), vec![96, 97, 98, 99]);
}

#[test]
fn ring_below_capacity_keeps_everything() {
    let mut ring = OverwriteRing::new(8);
    let block = vec![1, 2, 3];
    ring.push_all(&block);
    assert_eq!(ring.snapshot(), vec![1, 2, 3]);
}

#[test]
fn queue_accepts_until_full_then_drops_newest() {
    let mut queue = BoundedQueue::new(2);
    assert!(queue.try_push(7));
    assert!(queue.try_push(8));
    assert!(!queue.try_push(9));
    assert_eq!(queue.pop(), Some(7));
    assert_eq!(queue.pop(), Some(8));
    assert_eq!(queue.pop(), None);
}

#[test]
fn queue_substitutes_silence_on_underrun() {
    let mut queue = BoundedQueue::new(4);
    queue.try_push(5);
    assert_eq!(queue.pop_or_silence(), 5);
    assert_eq!(queue.pop_or_silence(), 0);
    assert_eq!(queue.pop_or_silence(), 0);
}

#[test]
fn queue_burst_reports_exact_drop_count() {
    let mut queue = BoundedQueue::new(8);
    let burst: Vec<i64> = (0..16).collect();
    let dropped = queue.push_burst(&burst);
    assert_eq!(dropped, 8);
    assert_eq!(queue.len(), 8);
    for expected in 0..8 {
        assert_eq!(queue.pop_or_silence(), expected);
    }
}

#[test]
fn queue_bursts_against_fixed_rate_consumer() {
    // A capacity-8 queue fed 100 items in bursts of 16, the consumer
    // draining 16 slots between bursts: at most (pushed - capacity) items
    // drop per burst, order is kept, and nothing crashes.
    let capacity = 8;
    let mut queue = BoundedQueue::new(capacity);
    let mut sent: i64 = 0;
    let mut received: Vec<i64> = Vec::new();
    let mut remaining: usize = 100;
    while remaining > 0 {
        let burst_len = remaining.min(16);
        let burst: Vec<i64> = (sent..sent + burst_len as i64).collect();
        sent += burst_len as i64;
        remaining -= burst_len;
        let dropped = queue.push_burst(&burst);
        assert!(dropped <= burst_len.saturating_sub(capacity));
        for _ in 0..16 {
            if let Some(x) = queue.pop() {
                received.push(x);
            }
        }
    }
    // FIFO: what came out is strictly increasing.
    for pair in received.windows(2) {
        assert!(pair[0] < pair[1]);
    }
    assert_eq!(received.len(), 100 - 6 * 8);
}
