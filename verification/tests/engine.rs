use udp_mangler::config::{ManglerConfig, LOSS_SCALE};
use udp_mangler::engine::{clock_fits, DelayEngine};
use udp_mangler::packet::Packet;
use udp_mangler::worker::{Flow, Input, DEFAULT_POLL_INTERVAL_NANOS};

fn plain(max_payload_size: usize, loss_ppb: u32, ping_nanos: u64, jitter_nanos: u64) -> ManglerConfig {
    ManglerConfig { buffer_size: 65535, max_payload_size, loss_ppb, ping_nanos, jitter_nanos }
}

fn stamped(release_time: u64, tag: u8) -> Packet {
    Packet { release_time, content: vec![tag; 4] }
}

#[test]
fn poll_interval_is_a_tenth_of_a_second() {
    assert_eq!(DEFAULT_POLL_INTERVAL_NANOS, 100_000_000);
}

#[test]
fn new_engine_wakes_one_poll_interval_later() {
    let e = DelayEngine::new(1_000);
    assert_eq!(e.next_wake(), 1_000 + DEFAULT_POLL_INTERVAL_NANOS);
    assert_eq!(e.pending_len(), 0);
    assert_eq!(e.earliest_release_time(), None);
}

#[test]
fn clock_fits_up_to_one_poll_interval_before_the_end() {
    assert!(clock_fits(0));
    assert!(clock_fits(u64::MAX - DEFAULT_POLL_INTERVAL_NANOS));
    assert!(!clock_fits(u64::MAX - DEFAULT_POLL_INTERVAL_NANOS + 1));
    assert!(!clock_fits(u64::MAX));
}

#[test]
fn wait_bound_is_the_time_to_the_next_wake() {
    let e = DelayEngine::new(1_000);
    assert_eq!(e.wait_bound(1_000), DEFAULT_POLL_INTERVAL_NANOS);
    assert_eq!(e.wait_bound(1_001), DEFAULT_POLL_INTERVAL_NANOS - 1);
    assert_eq!(e.wait_bound(1_000 + DEFAULT_POLL_INTERVAL_NANOS - 1), 1);
}

#[test]
fn wait_bound_is_zero_once_the_deadline_has_passed() {
    let e = DelayEngine::new(1_000);
    assert_eq!(e.wait_bound(1_000 + DEFAULT_POLL_INTERVAL_NANOS), 0);
    assert_eq!(e.wait_bound(u64::MAX), 0);
}

#[test]
fn timeout_moves_the_wake_one_poll_interval_past_now() {
    let mut e = DelayEngine::new(0);
    e.on_timeout(700);
    assert_eq!(e.next_wake(), 700 + DEFAULT_POLL_INTERVAL_NANOS);
    assert_eq!(e.wait_bound(700), DEFAULT_POLL_INTERVAL_NANOS);
}

#[test]
fn timeout_leaves_the_queue_alone() {
    let mut e = DelayEngine::new(0);
    e.schedule(stamped(50, 1), 0);
    e.on_timeout(10);
    assert_eq!(e.pending_len(), 1);
    assert_eq!(e.earliest_release_time(), Some(50));
}

#[test]
fn schedule_sets_the_wake_to_the_earliest_release() {
    let mut e = DelayEngine::new(0);
    e.schedule(stamped(500, 1), 0);
    assert_eq!(e.next_wake(), 500);
    e.schedule(stamped(900, 2), 0);
    assert_eq!(e.next_wake(), 500);
    e.schedule(stamped(100, 3), 0);
    assert_eq!(e.next_wake(), 100);
    assert_eq!(e.pending_len(), 3);
}

#[test]
fn accept_queues_a_kept_packet_with_its_delay() {
    let mut e = DelayEngine::new(0);
    let c = plain(1472, 5_000_000, 50_000_000, 20_000_000);
    e.accept(stamped(1_000, 1), &c, 5_000_000, 12_345, 2_000);
    assert_eq!(e.pending_len(), 1);
    assert_eq!(e.earliest_release_time(), Some(50_013_345));
    assert_eq!(e.next_wake(), 50_013_345);
}

#[test]
fn accept_leaves_the_engine_alone_when_the_packet_is_lost() {
    let mut e = DelayEngine::new(0);
    let c = plain(1472, 5_000_000, 50_000_000, 20_000_000);
    e.accept(stamped(1_000, 1), &c, 4_999_999, 12_345, 2_000);
    assert_eq!(e.pending_len(), 0);
    assert_eq!(e.next_wake(), DEFAULT_POLL_INTERVAL_NANOS);
}

#[test]
fn accept_leaves_the_engine_alone_when_the_packet_is_too_large() {
    let mut e = DelayEngine::new(0);
    let c = plain(3, 0, 50_000_000, 20_000_000);
    e.schedule(stamped(77, 9), 0);
    e.accept(stamped(1_000, 1), &c, 999_999_999, 0, 2_000);
    assert_eq!(e.pending_len(), 1);
    assert_eq!(e.next_wake(), 77);
}

#[test]
fn pop_due_releases_one_packet_at_a_time() {
    let mut e = DelayEngine::new(0);
    e.schedule(stamped(10, 1), 0);
    e.schedule(stamped(20, 2), 0);
    assert_eq!(e.pop_due(9), None);
    assert_eq!(e.pop_due(20), Some(stamped(10, 1)));
    assert_eq!(e.pop_due(20), Some(stamped(20, 2)));
    assert_eq!(e.pop_due(20), None);
}

#[test]
fn release_due_does_not_move_the_wake() {
    let mut e = DelayEngine::new(0);
    e.schedule(stamped(10, 1), 0);
    let out = e.release_due(10);
    assert_eq!(out, vec![stamped(10, 1)]);
    assert_eq!(e.next_wake(), 10);
    assert_eq!(e.wait_bound(11), 0);
}

#[test]
fn on_packet_at_zero_loss_queues_every_packet_within_its_window() {
    let mut e = DelayEngine::new(0);
    let c = plain(1472, 0, 50_000_000, 20_000_000);
    for i in 0..200u64 {
        e.on_packet(stamped(i, 1), &c, i);
    }
    assert_eq!(e.pending_len(), 200);
    let out = e.release_due(u64::MAX);
    assert_eq!(out.len(), 200);
    for p in &out {
        assert!(p.release_time >= 50_000_000);
        assert!(p.release_time <= 199 + 50_000_000 + 20_000_000);
        assert_eq!(p.content, vec![1; 4]);
    }
}

#[test]
fn on_packet_without_jitter_adds_exactly_the_ping() {
    let mut e = DelayEngine::new(0);
    let c = plain(1472, 0, 50_000_000, 0);
    e.on_packet(stamped(123, 1), &c, 200);
    assert_eq!(e.earliest_release_time(), Some(50_000_123));
    assert_eq!(e.next_wake(), 50_000_123);
}

#[test]
fn on_packet_without_ping_or_jitter_keeps_the_arrival_time() {
    let mut e = DelayEngine::new(0);
    let c = plain(1472, 0, 0, 0);
    e.on_packet(stamped(123, 1), &c, 200);
    assert_eq!(e.pop_due(123), Some(stamped(123, 1)));
}

#[test]
fn on_packet_at_total_loss_queues_nothing() {
    let mut e = DelayEngine::new(0);
    let c = plain(1472, LOSS_SCALE, 50_000_000, 20_000_000);
    for i in 0..1000u64 {
        e.on_packet(stamped(i, 1), &c, i);
    }
    assert_eq!(e.pending_len(), 0);
    assert!(e.release_due(u64::MAX).is_empty());
    assert_eq!(e.next_wake(), DEFAULT_POLL_INTERVAL_NANOS);
}

#[test]
fn on_packet_drops_what_is_too_large() {
    let mut e = DelayEngine::new(0);
    let c = plain(3, 0, 0, 0);
    e.on_packet(stamped(1, 1), &c, 1);
    assert_eq!(e.pending_len(), 0);
    let fits = Packet { release_time: 1, content: vec![7; 3] };
    e.on_packet(fits, &c, 1);
    assert_eq!(e.pending_len(), 1);
}

#[test]
fn on_packet_drops_an_oversize_packet_even_where_its_delay_would_not_fit() {
    let mut e = DelayEngine::new(0);
    let c = plain(3, 0, u64::MAX, u64::MAX);
    e.on_packet(stamped(u64::MAX, 1), &c, 1);
    assert_eq!(e.pending_len(), 0);
}

#[test]
fn on_packet_at_half_loss_drops_some_and_keeps_some() {
    let mut e = DelayEngine::new(0);
    let c = plain(1472, LOSS_SCALE / 2, 0, 0);
    for i in 0..1000u64 {
        e.on_packet(stamped(i, 1), &c, i);
    }
    let kept = e.pending_len();
    assert!(kept > 0);
    assert!(kept < 1000);
}

#[test]
fn on_packet_draws_jitter_across_the_window() {
    let mut e = DelayEngine::new(0);
    let c = plain(1472, 0, 0, 1_000_000_000);
    for _ in 0..200 {
        e.on_packet(stamped(0, 1), &c, 0);
    }
    let out = e.release_due(u64::MAX);
    assert_eq!(out.len(), 200);
    assert!(out.iter().all(|p| p.release_time <= 1_000_000_000));
    assert!(out.iter().any(|p| p.release_time != 1_000_000_000));
    assert!(out.first().unwrap().release_time < out.last().unwrap().release_time);
}

#[test]
fn on_input_with_a_packet_goes_on() {
    let mut e = DelayEngine::new(0);
    let c = plain(1472, 0, 10, 0);
    let flow = e.on_input(Input::Packet(stamped(5, 1)), &c, 6);
    assert_eq!(flow, Flow::Continue);
    assert_eq!(e.earliest_release_time(), Some(15));
}

#[test]
fn on_input_after_a_timeout_goes_on_and_moves_the_wake() {
    let mut e = DelayEngine::new(0);
    let c = plain(1472, 0, 10, 0);
    let flow = e.on_input(Input::TimedOut, &c, 40);
    assert_eq!(flow, Flow::Continue);
    assert_eq!(e.next_wake(), 40 + DEFAULT_POLL_INTERVAL_NANOS);
    assert_eq!(e.pending_len(), 0);
}

#[test]
fn on_input_with_a_closed_queue_stops_and_changes_nothing() {
    let mut e = DelayEngine::new(0);
    let c = plain(1472, 0, 10, 0);
    e.schedule(stamped(99, 1), 0);
    let flow = e.on_input(Input::Closed, &c, 40);
    assert_eq!(flow, Flow::Stop);
    assert_eq!(e.next_wake(), 99);
    assert_eq!(e.pending_len(), 1);
}

#[test]
fn idle_engine_never_waits_longer_than_one_poll_interval() {
    let mut e = DelayEngine::new(5);
    for now in [5, 6, 1_000, 200_000_000] {
        assert!(e.wait_bound(now) <= DEFAULT_POLL_INTERVAL_NANOS);
    }
    e.on_timeout(300_000_000);
    for now in [300_000_000, 300_000_001, 900_000_000] {
        assert!(e.wait_bound(now) <= DEFAULT_POLL_INTERVAL_NANOS);
    }
}

#[test]
fn packet_queued_for_a_past_instant_leaves_at_the_next_drain() {
    let mut e = DelayEngine::new(0);
    e.schedule(stamped(100, 1), 0);
    assert_eq!(e.release_due(100), vec![stamped(100, 1)]);
    e.schedule(stamped(50, 2), 100);
    assert_eq!(e.next_wake(), 50);
    assert_eq!(e.wait_bound(100), 0);
    assert_eq!(e.release_due(100), vec![stamped(50, 2)]);
}

#[test]
fn drained_packets_are_never_later_than_what_stays() {
    let mut e = DelayEngine::new(0);
    for t in [70, 10, 40, 40, 90, 20, 60] {
        e.schedule(stamped(t, t as u8), 0);
    }
    let out = e.release_due(40);
    let times: Vec<u64> = out.iter().map(|p| p.release_time).collect();
    assert_eq!(times, vec![10, 20, 40, 40]);
    assert_eq!(e.earliest_release_time(), Some(60));
    assert_eq!(e.pending_len(), 3);
}

#[test]
fn packets_are_scheduled_at_any_clock_reading() {
    let mut e = DelayEngine::new(0);
    let c = plain(1472, 0, 0, 0);
    e.schedule(stamped(u64::MAX, 1), u64::MAX);
    e.accept(stamped(7, 2), &c, 0, 0, u64::MAX);
    e.on_packet(stamped(8, 3), &c, u64::MAX);
    assert_eq!(e.on_input(Input::Packet(stamped(9, 4)), &c, u64::MAX), Flow::Continue);
    assert_eq!(e.on_input(Input::Closed, &c, u64::MAX), Flow::Stop);
    assert_eq!(e.pending_len(), 4);
    assert_eq!(e.next_wake(), 7);
}

#[test]
fn wait_ends_no_later_than_the_earliest_release() {
    let mut e = DelayEngine::new(0);
    e.schedule(stamped(1_000, 1), 0);
    e.schedule(stamped(400, 2), 0);
    assert_eq!(e.wait_bound(100), 300);
    assert_eq!(e.wait_bound(400), 0);
}
