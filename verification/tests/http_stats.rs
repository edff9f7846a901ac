use ether_pinger::http_stats::{status_for, HttpStats, HttpStatus};
use ether_pinger::ratio::Percent;
use ether_pinger::timing::Timestamp;
use std::time::Duration;

fn ms(n: u64) -> Duration {
    Duration::from_millis(n)
}

#[test]
fn new_http_stats_have_seen_nothing() {
    let stats = HttpStats::new();
    assert_eq!(stats.status(), HttpStatus::NotStarted);
    assert_eq!(stats.last_response_time(), None);
    assert_eq!(stats.avg_response_time(), None);
    assert_eq!(stats.min_response_time(), None);
    assert_eq!(stats.max_response_time(), None);
    assert_eq!(stats.last_status_code(), None);
    assert_eq!(stats.last_content_size(), None);
    assert_eq!(*stats.last_error(), None);
    assert_eq!(stats.requests_sent(), 0);
    assert_eq!(stats.requests_successful(), 0);
    assert_eq!(stats.success_rate_percent(), Percent { hundredths: 0 });
}

#[test]
fn status_follows_the_code() {
    assert_eq!(status_for(Some(503)), HttpStatus::ServerError);
    assert_eq!(status_for(Some(404)), HttpStatus::ClientError);
    assert_eq!(status_for(Some(200)), HttpStatus::Success);
    assert_eq!(status_for(None), HttpStatus::NetworkError);
}

#[test]
fn status_at_the_edges_of_the_ranges() {
    assert_eq!(status_for(Some(199)), HttpStatus::Success);
    assert_eq!(status_for(Some(299)), HttpStatus::Success);
    assert_eq!(status_for(Some(399)), HttpStatus::Success);
    assert_eq!(status_for(Some(400)), HttpStatus::ClientError);
    assert_eq!(status_for(Some(499)), HttpStatus::ClientError);
    assert_eq!(status_for(Some(500)), HttpStatus::ServerError);
    assert_eq!(status_for(Some(599)), HttpStatus::ServerError);
    assert_eq!(status_for(Some(600)), HttpStatus::Success);
    assert_eq!(status_for(Some(0)), HttpStatus::Success);
}

#[test]
fn update_sets_the_status_of_the_code() {
    let mut stats = HttpStats::new();
    stats.update(Some(503), ms(10), None, None);
    assert_eq!(stats.status(), HttpStatus::ServerError);
    stats.update(Some(404), ms(10), None, None);
    assert_eq!(stats.status(), HttpStatus::ClientError);
    stats.update(Some(200), ms(10), Some(512), None);
    assert_eq!(stats.status(), HttpStatus::Success);
    stats.update(None, ms(10), None, Some("Connection refused".to_string()));
    assert_eq!(stats.status(), HttpStatus::NetworkError);
}

#[test]
fn informational_and_redirect_codes_count_as_success() {
    let mut stats = HttpStats::new();
    stats.update(Some(301), ms(10), None, None);
    assert_eq!(stats.status(), HttpStatus::Success);
    stats.update(Some(100), ms(10), None, None);
    assert_eq!(stats.status(), HttpStatus::Success);
    assert_eq!(stats.requests_successful(), 2);
    assert_eq!(stats.success_rate_percent(), Percent { hundredths: 10_000 });
}

#[test]
fn success_rate_after_success_failure_success() {
    let mut stats = HttpStats::new();
    stats.update(Some(200), ms(10), Some(100), None);
    stats.update(None, ms(5000), None, Some("Request timeout".to_string()));
    stats.update(Some(500), ms(30), None, None);
    assert_eq!(stats.requests_sent(), 3);
    assert_eq!(stats.requests_successful(), 2);
    assert_eq!(stats.success_rate_percent(), Percent { hundredths: 6667 });
    assert_eq!(stats.success_rate_percent().to_text(), "66.67");
}

#[test]
fn a_failure_records_the_error_and_leaves_the_window() {
    let mut stats = HttpStats::new();
    stats.update(Some(200), ms(10), Some(100), None);
    stats.update(Some(200), ms(30), Some(200), None);
    stats.update(None, ms(5000), None, Some("Request timeout".to_string()));
    assert_eq!(stats.status(), HttpStatus::NetworkError);
    assert_eq!(*stats.last_error(), Some("Request timeout".to_string()));
    assert_eq!(stats.last_status_code(), None);
    assert_eq!(stats.last_content_size(), None);
    assert_eq!(stats.last_response_time(), Some(ms(5000)));
    assert_eq!(stats.avg_response_time(), Some(ms(20)));
    assert_eq!(stats.min_response_time(), Some(ms(10)));
    assert_eq!(stats.max_response_time(), Some(ms(30)));
}

#[test]
fn a_response_records_code_size_and_time() {
    let mut stats = HttpStats::new();
    stats.update(None, ms(1), None, Some("boom".to_string()));
    stats.update(Some(204), ms(12), Some(0), None);
    assert_eq!(stats.last_status_code(), Some(204));
    assert_eq!(stats.last_content_size(), Some(0));
    assert_eq!(*stats.last_error(), None);
    assert_eq!(stats.last_response_time(), Some(ms(12)));
    assert_eq!(stats.avg_response_time(), Some(ms(12)));
}

#[test]
fn http_window_keeps_the_latest_hundred() {
    let mut stats = HttpStats::new();
    stats.update(Some(200), ms(1_000_000), None, None);
    for d in 1..=100u64 {
        stats.update(Some(200), ms(d), None, None);
    }
    assert_eq!(stats.avg_response_time(), Some(Duration::from_micros(50_500)));
    assert_eq!(stats.min_response_time(), Some(ms(1)));
    assert_eq!(stats.max_response_time(), Some(ms(100)));
    assert_eq!(stats.requests_sent(), 101);
}

#[test]
fn http_record_stamps_with_the_given_instant() {
    let mut stats = HttpStats::new();
    assert!(stats.last_updated().secs > 1_577_836_800);
    stats.record(Some(200), ms(4), None, None, Timestamp { secs: 7, nanos: 8 });
    assert_eq!(stats.last_updated().secs, 7);
    assert_eq!(stats.last_updated().nanos, 8);
    assert_eq!(stats.requests_sent(), 1);
    stats.update(Some(200), ms(4), None, None);
    assert!(stats.last_updated().secs > 1_577_836_800);
}

#[test]
fn http_failures_in_between_leave_the_window_to_the_latest_responses() {
    let mut stats = HttpStats::new();
    stats.update(Some(500), ms(1_000_000), None, None);
    for d in 1..=100u64 {
        stats.update(None, ms(9_999_999), None, Some("Request timeout".to_string()));
        stats.update(Some(200), ms(d), None, None);
    }
    assert_eq!(stats.requests_sent(), 201);
    assert_eq!(stats.requests_successful(), 101);
    assert_eq!(stats.avg_response_time(), Some(Duration::from_micros(50_500)));
    assert_eq!(stats.min_response_time(), Some(ms(1)));
    assert_eq!(stats.max_response_time(), Some(ms(100)));
    assert_eq!(stats.success_rate_percent().hundredths, 5025); // 101 of 201
}
