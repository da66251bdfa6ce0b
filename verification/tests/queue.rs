use udp_mangler::packet::Packet;
use udp_mangler::queue::ReleaseQueue;

fn tagged(release_time: u64, tag: u8) -> Packet {
    Packet { release_time, content: vec![tag] }
}

fn tags(packets: &[Packet]) -> Vec<u8> {
    packets.iter().map(|p| p.content[0]).collect()
}

#[test]
fn new_queue_is_empty() {
    let q = ReleaseQueue::new();
    assert!(q.is_empty());
    assert_eq!(q.len(), 0);
    assert_eq!(q.earliest_release_time(), None);
}

#[test]
fn packets_leave_in_release_order() {
    let mut q = ReleaseQueue::new();
    q.insert(tagged(30, 1));
    q.insert(tagged(10, 2));
    q.insert(tagged(20, 3));
    assert_eq!(q.earliest_release_time(), Some(10));
    let out = q.release_due(25);
    assert_eq!(tags(&out), vec![2, 3]);
    assert_eq!(q.len(), 1);
    assert_eq!(q.earliest_release_time(), Some(30));
}

#[test]
fn equal_release_times_are_all_kept() {
    let mut q = ReleaseQueue::new();
    q.insert(tagged(10, 1));
    q.insert(tagged(10, 2));
    q.insert(tagged(10, 3));
    assert_eq!(q.len(), 3);
    let out = q.release_due(10);
    assert_eq!(out.len(), 3);
    assert!(q.is_empty());
}

#[test]
fn equal_release_times_leave_in_order_of_arrival() {
    let mut q = ReleaseQueue::new();
    q.insert(tagged(10, 1));
    q.insert(tagged(5, 9));
    q.insert(tagged(10, 2));
    q.insert(tagged(15, 8));
    q.insert(tagged(10, 3));
    let out = q.release_due(100);
    assert_eq!(tags(&out), vec![9, 1, 2, 3, 8]);
}

#[test]
fn position_after_counts_packets_released_no_later() {
    let mut q = ReleaseQueue::new();
    for t in [10, 20, 20, 30, 40] {
        q.insert(tagged(t, 0));
    }
    assert_eq!(q.position_after(0), 0);
    assert_eq!(q.position_after(9), 0);
    assert_eq!(q.position_after(10), 1);
    assert_eq!(q.position_after(19), 1);
    assert_eq!(q.position_after(20), 3);
    assert_eq!(q.position_after(39), 4);
    assert_eq!(q.position_after(40), 5);
    assert_eq!(q.position_after(u64::MAX), 5);
}

#[test]
fn pop_due_hands_out_only_what_is_due() {
    let mut q = ReleaseQueue::new();
    q.insert(tagged(10, 1));
    q.insert(tagged(20, 2));
    assert_eq!(q.pop_due(9), None);
    assert_eq!(q.len(), 2);
    assert_eq!(q.pop_due(10), Some(tagged(10, 1)));
    assert_eq!(q.pop_due(10), None);
    assert_eq!(q.pop_due(25), Some(tagged(20, 2)));
    assert_eq!(q.pop_due(u64::MAX), None);
    assert!(q.is_empty());
}

#[test]
fn release_due_on_an_empty_queue_releases_nothing() {
    let mut q = ReleaseQueue::new();
    assert!(q.release_due(u64::MAX).is_empty());
    assert!(q.is_empty());
}

#[test]
fn release_due_before_the_earliest_packet_releases_nothing() {
    let mut q = ReleaseQueue::new();
    q.insert(tagged(10, 1));
    assert!(q.release_due(9).is_empty());
    assert_eq!(q.len(), 1);
}

#[test]
fn release_due_leaves_what_is_not_due() {
    let mut q = ReleaseQueue::new();
    for (t, tag) in [(50, 5), (10, 1), (40, 4), (20, 2), (30, 3)] {
        q.insert(tagged(t, tag));
    }
    assert_eq!(tags(&q.release_due(30)), vec![1, 2, 3]);
    assert_eq!(q.earliest_release_time(), Some(40));
    assert_eq!(tags(&q.release_due(30)), Vec::<u8>::new());
    assert_eq!(tags(&q.release_due(60)), vec![4, 5]);
}

#[test]
fn many_packets_come_out_sorted() {
    let mut q = ReleaseQueue::new();
    let mut t: u64 = 12345;
    for _ in 0..500 {
        t = t.wrapping_mul(6364136223846793005).wrapping_add(1442695040888963407);
        q.insert(tagged(t % 1000, 0));
    }
    let out = q.release_due(1000);
    assert_eq!(out.len(), 500);
    for pair in out.windows(2) {
        assert!(pair[0].release_time <= pair[1].release_time);
    }
}
