use ether_pinger::addr::HostAddr;
use ether_pinger::app::{App, Host};
use ether_pinger::http_stats::HttpStatus;
use ether_pinger::probe::{
    http_outcome, http_url, ping_latency, HttpAttempt, HttpFailure, LoopAction, LoopEvent,
    PingAttempt, ProbeLoop, HTTP_TIMEOUT_SECS, PING_PAYLOAD_LEN, PING_TIMEOUT_SECS,
    PROBE_PERIOD_SECS, STOP_GRACE_MILLIS,
};
use ether_pinger::stats::{AppMode, PingStatus, Stats};
use ether_pinger::store::StatsStore;
use std::time::Duration;

fn a(n: u32) -> HostAddr {
    HostAddr::V4(n)
}

fn hosts(ips: &[u32]) -> Vec<Host> {
    ips.iter().map(|n| Host { ip: a(*n), selected: false }).collect()
}

fn ping_of(store: &StatsStore, ip: HostAddr) -> (PingStatus, u64, u64) {
    match store.get(ip) {
        Some(Stats::Ping(p)) => (p.status(), p.packets_sent(), p.packets_received()),
        _ => panic!("no echo statistics"),
    }
}

#[test]
fn the_store_has_one_entry_for_each_address() {
    let store = StatsStore::new(&hosts(&[1, 2, 2, 3]), AppMode::Icmp);
    assert!(matches!(store.get(a(1)), Some(Stats::Ping(_))));
    assert!(matches!(store.get(a(2)), Some(Stats::Ping(_))));
    assert!(matches!(store.get(a(3)), Some(Stats::Ping(_))));
    assert!(store.get(a(4)).is_none());
    assert_eq!(ping_of(&store, a(2)), (PingStatus::NotStarted, 0, 0));
    let http = StatsStore::new(&hosts(&[1]), AppMode::Http);
    assert!(matches!(http.get(a(1)), Some(Stats::Http(_))));
    let none = StatsStore::new(&hosts(&[]), AppMode::Http);
    assert!(none.get(a(1)).is_none());
    // the two address families do not meet
    let mixed = StatsStore::new(
        &vec![Host { ip: HostAddr::V6(1), selected: false }],
        AppMode::Icmp,
    );
    assert!(mixed.get(HostAddr::V6(1)).is_some());
    assert!(mixed.get(a(1)).is_none());
}

#[test]
fn the_supervisor_makes_the_store_of_its_hosts() {
    let app = App::new(vec![a(5), a(6)], AppMode::Http, 80);
    let store = app.initial_stats();
    assert!(store.get(a(4)).is_none());
    assert!(matches!(store.get(a(5)), Some(Stats::Http(_))));
    assert!(matches!(store.get(a(6)), Some(Stats::Http(_))));
}

#[test]
fn an_outcome_changes_only_its_own_entry() {
    let mut store = StatsStore::new(&hosts(&[1, 2]), AppMode::Icmp);
    store.record_ping(a(1), Some(Duration::from_millis(3)));
    store.record_ping(a(1), None);
    assert_eq!(ping_of(&store, a(1)), (PingStatus::Timeout, 2, 1));
    assert_eq!(ping_of(&store, a(2)), (PingStatus::NotStarted, 0, 0));
    assert!(store.get(a(3)).is_none());
}

#[test]
fn an_outcome_for_an_unknown_host_or_of_the_other_kind_changes_nothing() {
    let mut store = StatsStore::new(&hosts(&[1]), AppMode::Icmp);
    store.record_ping(a(9), None);
    store.record_http(a(1), Some(200), Duration::from_millis(3), None, None);
    assert!(store.get(a(9)).is_none());
    assert_eq!(ping_of(&store, a(1)), (PingStatus::NotStarted, 0, 0));
    let mut http = StatsStore::new(&hosts(&[1]), AppMode::Http);
    http.record_ping(a(1), None);
    match http.get(a(1)) {
        Some(Stats::Http(h)) => assert_eq!(h.requests_sent(), 0),
        _ => panic!("no HTTP statistics"),
    }
}

#[test]
fn http_outcomes_reach_the_store() {
    let mut store = StatsStore::new(&hosts(&[1]), AppMode::Http);
    store.record_http(a(1), Some(404), Duration::from_millis(8), Some(12), None);
    match store.get(a(1)) {
        Some(Stats::Http(h)) => {
            assert_eq!(h.status(), HttpStatus::ClientError);
            assert_eq!(h.last_status_code(), Some(404));
            assert_eq!(h.last_content_size(), Some(12));
            assert_eq!(h.requests_sent(), 1);
            assert_eq!(h.requests_successful(), 1);
        }
        _ => panic!("no HTTP statistics"),
    }
}

#[test]
fn the_loop_probes_on_a_tick_and_leaves_on_cancellation() {
    let mut probe = ProbeLoop::new(a(1));
    assert_eq!(probe.ip(), a(1));
    assert_eq!(probe.wake(LoopEvent::Tick), LoopAction::Probe(0));
    let mut store = StatsStore::new(&hosts(&[1]), AppMode::Icmp);
    probe.finish_ping(&mut store, PingAttempt::Reply(Duration::from_millis(2)));
    assert_eq!(probe.wake(LoopEvent::Tick), LoopAction::Probe(1));
    probe.finish_ping(&mut store, PingAttempt::TimedOut);
    assert_eq!(probe.wake(LoopEvent::Tick), LoopAction::Probe(2));
    probe.finish_ping(&mut store, PingAttempt::Failed);
    assert_eq!(ping_of(&store, a(1)), (PingStatus::Timeout, 3, 1));
    assert_eq!(probe.wake(LoopEvent::Cancelled), LoopAction::Exit);
    assert_eq!(probe.wake(LoopEvent::Tick), LoopAction::Exit);
    assert_eq!(probe.wake(LoopEvent::Cancelled), LoopAction::Exit);
}

#[test]
fn the_sequence_number_goes_round() {
    let mut probe = ProbeLoop::new(a(1));
    let mut store = StatsStore::new(&hosts(&[1]), AppMode::Icmp);
    for expected in 0..=65_535u32 {
        assert_eq!(probe.wake(LoopEvent::Tick), LoopAction::Probe(expected as u16));
        probe.finish_ping(&mut store, PingAttempt::Failed);
    }
    assert_eq!(probe.wake(LoopEvent::Tick), LoopAction::Probe(0));
    assert_eq!(ping_of(&store, a(1)), (PingStatus::Unreachable, 65_536, 0));
}

#[test]
fn the_http_loop_writes_what_the_probe_gave() {
    let mut probe = ProbeLoop::new(a(1));
    let mut store = StatsStore::new(&hosts(&[1]), AppMode::Http);
    assert_eq!(probe.wake(LoopEvent::Tick), LoopAction::Probe(0));
    probe.finish_http(
        &mut store,
        HttpAttempt::Response(200, Some(1234)),
        Duration::from_millis(15),
    );
    probe.finish_http(
        &mut store,
        HttpAttempt::Failed(HttpFailure::Connect),
        Duration::from_millis(1),
    );
    match store.get(a(1)) {
        Some(Stats::Http(h)) => {
            assert_eq!(h.status(), HttpStatus::NetworkError);
            assert_eq!(*h.last_error(), Some("Connection refused".to_string()));
            assert_eq!(h.requests_sent(), 2);
            assert_eq!(h.requests_successful(), 1);
            assert_eq!(h.avg_response_time(), Some(Duration::from_millis(15)));
            assert_eq!(h.last_response_time(), Some(Duration::from_millis(1)));
        }
        _ => panic!("no HTTP statistics"),
    }
}

#[test]
fn what_a_probe_gives_the_statistics() {
    assert_eq!(
        ping_latency(PingAttempt::Reply(Duration::from_millis(4))),
        Some(Duration::from_millis(4))
    );
    assert_eq!(ping_latency(PingAttempt::Failed), None);
    assert_eq!(ping_latency(PingAttempt::TimedOut), None);
    let o = http_outcome(HttpAttempt::Response(503, None));
    assert_eq!((o.status_code, o.content_size, o.error), (Some(503), None, None));
    let o = http_outcome(HttpAttempt::Failed(HttpFailure::Timeout));
    assert_eq!((o.status_code, o.content_size), (None, None));
    assert_eq!(o.error, Some("Request timeout".to_string()));
    let o = http_outcome(HttpAttempt::Failed(HttpFailure::Connect));
    assert_eq!(o.error, Some("Connection refused".to_string()));
    let o = http_outcome(HttpAttempt::Failed(HttpFailure::Other("tls handshake".to_string())));
    assert_eq!(o.error, Some("tls handshake".to_string()));
}

#[test]
fn the_address_of_an_http_probe() {
    assert_eq!(http_url(a(7), "192.168.1.7", 80), "http://192.168.1.7:80/");
    assert_eq!(http_url(HostAddr::V6(1), "::1", 8080), "http://[::1]:8080/");
    assert_eq!(http_url(HostAddr::V6(0), "fe80::1", 80), "http://[fe80::1]:80/");
    assert_eq!(http_url(a(1), "h", 0), "http://h:0/");
    assert_eq!(http_url(a(1), "h", 65_535), "http://h:65535/");
}

#[test]
fn the_timing_of_the_probes() {
    assert_eq!(PROBE_PERIOD_SECS, 1);
    assert_eq!(PING_TIMEOUT_SECS, 2);
    assert_eq!(HTTP_TIMEOUT_SECS, 5);
    assert_eq!(PING_PAYLOAD_LEN, 56);
    assert!(STOP_GRACE_MILLIS <= 150);
}

#[test]
fn fresh_statistics_are_of_the_kind_of_the_session() {
    match Stats::new(AppMode::Icmp) {
        Stats::Ping(p) => assert_eq!(p.status(), PingStatus::NotStarted),
        Stats::Http(_) => panic!("echo statistics were asked for"),
    }
    match Stats::new(AppMode::Http) {
        Stats::Http(h) => assert_eq!(h.status(), HttpStatus::NotStarted),
        Stats::Ping(_) => panic!("HTTP statistics were asked for"),
    }
}
