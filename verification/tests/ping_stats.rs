use ether_pinger::ratio::Percent;
use ether_pinger::stats::{PingStats, PingStatus};
use ether_pinger::timing::Timestamp;
use std::time::Duration;

fn ms(n: u64) -> Duration {
    Duration::from_millis(n)
}

#[test]
fn new_stats_have_seen_nothing() {
    let stats = PingStats::new();
    assert_eq!(stats.status(), PingStatus::NotStarted);
    assert_eq!(stats.last_latency(), None);
    assert_eq!(stats.avg_latency(), None);
    assert_eq!(stats.min_latency(), None);
    assert_eq!(stats.max_latency(), None);
    assert_eq!(stats.packets_sent(), 0);
    assert_eq!(stats.packets_received(), 0);
    assert_eq!(stats.packet_loss_percent(), Percent { hundredths: 0 });
}

#[test]
fn replies_within_capacity_give_mean_min_max() {
    let mut stats = PingStats::new();
    for d in [10u64, 20, 30, 45] {
        stats.update(Some(ms(d)));
    }
    assert_eq!(stats.status(), PingStatus::Active);
    assert_eq!(stats.last_latency(), Some(ms(45)));
    assert_eq!(stats.avg_latency(), Some(Duration::from_micros(26_250)));
    assert_eq!(stats.min_latency(), Some(ms(10)));
    assert_eq!(stats.max_latency(), Some(ms(45)));
    assert_eq!(stats.packets_sent(), 4);
    assert_eq!(stats.packets_received(), 4);
    assert_eq!(stats.packet_loss_percent().hundredths, 0);
}

#[test]
fn mean_is_rounded_down_to_the_nanosecond() {
    let mut stats = PingStats::new();
    stats.update(Some(Duration::from_nanos(1)));
    stats.update(Some(Duration::from_nanos(2)));
    assert_eq!(stats.avg_latency(), Some(Duration::from_nanos(1)));
}

#[test]
fn a_hundred_replies_fill_the_window() {
    let mut stats = PingStats::new();
    for d in 1..=100u64 {
        stats.update(Some(ms(d)));
    }
    // 1 + 2 + ... + 100 = 5050, over 100 samples
    assert_eq!(stats.avg_latency(), Some(Duration::from_micros(50_500)));
    assert_eq!(stats.min_latency(), Some(ms(1)));
    assert_eq!(stats.max_latency(), Some(ms(100)));
    assert_eq!(stats.packets_sent(), 100);
    assert_eq!(stats.packets_received(), 100);
}

#[test]
fn the_hundred_and_first_reply_evicts_the_first() {
    let mut stats = PingStats::new();
    stats.update(Some(ms(1_000_000)));
    for d in 1..=100u64 {
        stats.update(Some(ms(d)));
    }
    assert_eq!(stats.avg_latency(), Some(Duration::from_micros(50_500)));
    assert_eq!(stats.min_latency(), Some(ms(1)));
    assert_eq!(stats.max_latency(), Some(ms(100)));
    assert_eq!(stats.packets_sent(), 101);
    assert_eq!(stats.packets_received(), 101);
}

#[test]
fn eviction_is_first_in_first_out() {
    let mut stats = PingStats::new();
    for d in 1..=150u64 {
        stats.update(Some(ms(d)));
    }
    // the window holds 51..=150
    assert_eq!(stats.min_latency(), Some(ms(51)));
    assert_eq!(stats.max_latency(), Some(ms(150)));
    assert_eq!(stats.avg_latency(), Some(Duration::from_micros(100_500)));
}

#[test]
fn unreachable_exactly_on_the_fifth_timeout() {
    let mut stats = PingStats::new();
    stats.update(Some(ms(5)));
    for _ in 0..4 {
        stats.update(None);
        assert_eq!(stats.status(), PingStatus::Timeout);
    }
    stats.update(None);
    assert_eq!(stats.status(), PingStatus::Unreachable);
    stats.update(None);
    assert_eq!(stats.status(), PingStatus::Unreachable);
    stats.update(Some(ms(7)));
    assert_eq!(stats.status(), PingStatus::Active);
    // the count starts again from the reply
    for _ in 0..4 {
        stats.update(None);
        assert_eq!(stats.status(), PingStatus::Timeout);
    }
    stats.update(None);
    assert_eq!(stats.status(), PingStatus::Unreachable);
}

#[test]
fn a_timeout_clears_the_last_latency_and_keeps_the_window() {
    let mut stats = PingStats::new();
    stats.update(Some(ms(10)));
    stats.update(Some(ms(30)));
    stats.update(None);
    assert_eq!(stats.last_latency(), None);
    assert_eq!(stats.avg_latency(), Some(ms(20)));
    assert_eq!(stats.min_latency(), Some(ms(10)));
    assert_eq!(stats.max_latency(), Some(ms(30)));
}

#[test]
fn packet_loss_after_ok_fail_fail() {
    let mut stats = PingStats::new();
    stats.update(Some(ms(10)));
    stats.update(None);
    stats.update(None);
    assert_eq!(stats.packets_sent(), 3);
    assert_eq!(stats.packets_received(), 1);
    assert_eq!(stats.packet_loss_percent(), Percent { hundredths: 6667 });
    assert_eq!(stats.packet_loss_percent().to_text(), "66.67");
}

#[test]
fn status_never_returns_to_not_started() {
    let mut stats = PingStats::new();
    stats.update(None);
    assert_ne!(stats.status(), PingStatus::NotStarted);
    stats.update(Some(ms(1)));
    assert_ne!(stats.status(), PingStatus::NotStarted);
}

#[test]
fn the_longest_duration_is_a_valid_sample() {
    let mut stats = PingStats::new();
    for _ in 0..100 {
        stats.update(Some(Duration::MAX));
    }
    assert_eq!(stats.avg_latency(), Some(Duration::MAX));
    assert_eq!(stats.max_latency(), Some(Duration::MAX));
}

#[test]
fn new_stats_are_stamped_with_the_clock() {
    let stats = PingStats::new();
    // the clock of any machine that runs this is past the year 2020
    assert!(stats.last_updated().secs > 1_577_836_800);
    assert!(stats.last_updated().nanos < 2_000_000_000);
}

#[test]
fn an_update_moves_the_stamp_forward() {
    let mut stats = PingStats::new();
    stats.record(None, Timestamp { secs: 1, nanos: 2 });
    assert_eq!(stats.last_updated().secs, 1);
    stats.update(None);
    assert!(stats.last_updated().secs > 1_577_836_800);
}

#[test]
fn record_stamps_with_the_given_instant() {
    let mut stats = PingStats::new();
    let at = Timestamp { secs: 1_700_000_000, nanos: 123 };
    stats.record(Some(ms(9)), at);
    assert_eq!(stats.last_updated().secs, 1_700_000_000);
    assert_eq!(stats.last_updated().nanos, 123);
    assert_eq!(stats.last_latency(), Some(ms(9)));
    assert_eq!(stats.packets_sent(), 1);
}

#[test]
fn failures_in_between_leave_the_window_to_the_latest_replies() {
    let mut stats = PingStats::new();
    stats.update(Some(ms(1_000_000)));
    for d in 1..=100u64 {
        stats.update(None);
        stats.update(Some(ms(d)));
        stats.update(None);
    }
    // 101 replies among 301 probes: the first reply has left the window
    assert_eq!(stats.packets_sent(), 301);
    assert_eq!(stats.packets_received(), 101);
    assert_eq!(stats.avg_latency(), Some(Duration::from_micros(50_500)));
    assert_eq!(stats.min_latency(), Some(ms(1)));
    assert_eq!(stats.max_latency(), Some(ms(100)));
    assert_eq!(stats.status(), PingStatus::Timeout);
    assert_eq!(stats.packet_loss_percent().hundredths, 6645); // 200 of 301
}

#[test]
fn the_count_of_failures_starts_again_at_every_reply() {
    let mut stats = PingStats::new();
    for _ in 0..3 {
        for _ in 0..4 {
            stats.update(None);
            assert_eq!(stats.status(), PingStatus::Timeout);
        }
        stats.update(Some(ms(1)));
        assert_eq!(stats.status(), PingStatus::Active);
    }
    for k in 1..=9 {
        stats.update(None);
        let expected = if k >= 5 { PingStatus::Unreachable } else { PingStatus::Timeout };
        assert_eq!(stats.status(), expected);
    }
}
