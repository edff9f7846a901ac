use ether_pinger::addr::HostAddr;
use ether_pinger::app::Host;
use ether_pinger::export::{
    csv_header, export_file_name, export_lines, http_csv_row, join_cells, ping_csv_row,
};
use ether_pinger::store::StatsStore;
use ether_pinger::http_stats::{HttpStats, HttpStatus};
use ether_pinger::stats::{AppMode, PingStats, PingStatus};
use ether_pinger::ui::{
    format_duration, format_error, format_http_status, format_ping_status, format_size,
    hosts_title, host_line, http_row, http_tone, mode_text, ping_row, ping_tone, table_rows, Tone,
};
use std::time::Duration;

#[test]
fn ping_status_cells() {
    assert_eq!(format_ping_status(&PingStatus::NotStarted), "Not Started");
    assert_eq!(format_ping_status(&PingStatus::Active), "Active");
    assert_eq!(format_ping_status(&PingStatus::Timeout), "Timeout");
    assert_eq!(format_ping_status(&PingStatus::Unreachable), "Unreachable");
}

#[test]
fn http_status_cells() {
    assert_eq!(format_http_status(Some(200), &HttpStatus::Success), "200 OK");
    assert_eq!(format_http_status(Some(404), &HttpStatus::ClientError), "404 Not Found");
    assert_eq!(format_http_status(Some(500), &HttpStatus::ServerError), "500 Server Err");
    assert_eq!(format_http_status(Some(503), &HttpStatus::ServerError), "503");
    assert_eq!(format_http_status(Some(301), &HttpStatus::Success), "301");
    assert_eq!(format_http_status(None, &HttpStatus::NetworkError), "NetworkError");
    assert_eq!(format_http_status(None, &HttpStatus::NotStarted), "NotStarted");
    assert_eq!(format_http_status(None, &HttpStatus::Success), "Success");
    assert_eq!(format_http_status(None, &HttpStatus::ClientError), "ClientError");
    assert_eq!(format_http_status(None, &HttpStatus::ServerError), "ServerError");
}

#[test]
fn duration_cells() {
    assert_eq!(format_duration(None), "-");
    assert_eq!(format_duration(Some(Duration::ZERO)), "0.0ms");
    assert_eq!(format_duration(Some(Duration::from_micros(12_340))), "12.3ms");
    assert_eq!(format_duration(Some(Duration::from_micros(12_360))), "12.4ms");
    assert_eq!(format_duration(Some(Duration::from_micros(12_250))), "12.2ms"); // tie to even
    assert_eq!(format_duration(Some(Duration::from_micros(12_350))), "12.4ms"); // tie to even
    assert_eq!(format_duration(Some(Duration::from_secs(2))), "2000.0ms");
    assert_eq!(format_duration(Some(Duration::from_nanos(49_999))), "0.0ms");
    assert_eq!(format_duration(Some(Duration::from_nanos(50_001))), "0.1ms");
    assert_eq!(format_duration(Some(Duration::MAX)), "18446744073709551616000.0ms");
}

#[test]
fn size_cells() {
    assert_eq!(format_size(None), "-");
    assert_eq!(format_size(Some(0)), "0B");
    assert_eq!(format_size(Some(1024)), "1024B");
    assert_eq!(format_size(Some(1025)), "1.0KB");
    assert_eq!(format_size(Some(1536)), "1.5KB");
    assert_eq!(format_size(Some(1024 * 1024)), "1024.0KB");
    assert_eq!(format_size(Some(1024 * 1024 + 1)), "1.0MB");
    assert_eq!(format_size(Some(1_310_720)), "1.2MB"); // 1.25, tie to even
    assert_eq!(format_size(Some(5 * 1024 * 1024 / 2)), "2.5MB");
    assert_eq!(format_size(Some(u64::MAX)), "17592186044416.0MB");
}

#[test]
fn error_cells() {
    assert_eq!(format_error(&None), "-");
    assert_eq!(format_error(&Some(String::new())), "");
    assert_eq!(format_error(&Some("Request timeout".to_string())), "Request timeout");
    let exactly = "a".repeat(28);
    assert_eq!(format_error(&Some(exactly.clone())), exactly);
    let longer = "abcdefghijklmnopqrstuvwxyz0123456789".to_string();
    assert_eq!(format_error(&Some(longer)), "abcdefghijklmnopqrstuvwxyz01...");
}

#[test]
fn error_cells_cut_between_characters() {
    // 27 bytes of ASCII, then a character of two bytes across the limit
    let text = format!("{}\u{e9}tail", "a".repeat(27));
    assert_eq!(format_error(&Some(text)), format!("{}...", "a".repeat(27)));
    // 26 bytes of ASCII, then a character of two bytes that ends at the limit
    let text = format!("{}\u{e9}tail", "a".repeat(26));
    assert_eq!(format_error(&Some(text)), format!("{}\u{e9}...", "a".repeat(26)));
    // short in characters, long in bytes
    let text = "\u{1F50C}".repeat(8);
    assert_eq!(format_error(&Some(text)), format!("{}...", "\u{1F50C}".repeat(7)));
}

#[test]
fn tones() {
    assert_eq!(ping_tone(&PingStatus::Active), Tone::Green);
    assert_eq!(ping_tone(&PingStatus::Timeout), Tone::Red);
    assert_eq!(ping_tone(&PingStatus::Unreachable), Tone::Yellow);
    assert_eq!(ping_tone(&PingStatus::NotStarted), Tone::Gray);
    assert_eq!(http_tone(&HttpStatus::Success), Tone::Green);
    assert_eq!(http_tone(&HttpStatus::ClientError), Tone::Yellow);
    assert_eq!(http_tone(&HttpStatus::ServerError), Tone::Red);
    assert_eq!(http_tone(&HttpStatus::NetworkError), Tone::Red);
    assert_eq!(http_tone(&HttpStatus::NotStarted), Tone::Gray);
}

#[test]
fn host_list_texts() {
    assert_eq!(host_line("10.0.0.1", true), "[x] 10.0.0.1 \u{1F50C}");
    assert_eq!(host_line("10.0.0.1", false), "[ ] 10.0.0.1   ");
    assert_eq!(hosts_title(2, 17), "Hosts (2/17)");
    assert_eq!(mode_text(AppMode::Icmp, 80), "ICMP");
    assert_eq!(mode_text(AppMode::Http, 8080), "HTTP:8080");
}

#[test]
fn ping_table_rows() {
    let mut stats = PingStats::new();
    assert_eq!(
        ping_row("10.0.0.1", &stats),
        vec!["10.0.0.1", "Not Started", "-", "-", "0.0%", "0/0"]
    );
    stats.update(Some(Duration::from_micros(1_500)));
    stats.update(None);
    stats.update(None);
    assert_eq!(
        ping_row("10.0.0.1", &stats),
        vec!["10.0.0.1", "Timeout", "-", "1.5ms", "66.7%", "1/3"]
    );
}

#[test]
fn http_table_rows() {
    let mut stats = HttpStats::new();
    assert_eq!(http_row("h", &stats), vec!["h", "NotStarted", "-", "-", "-", "-"]);
    stats.update(Some(200), Duration::from_millis(12), Some(2048), None);
    assert_eq!(http_row("h", &stats), vec!["h", "200 OK", "12.0ms", "12.0ms", "2.0KB", "-"]);
    stats.update(None, Duration::from_millis(5000), None, Some("Request timeout".to_string()));
    assert_eq!(
        http_row("h", &stats),
        vec!["h", "NetworkError", "5000.0ms", "12.0ms", "-", "Request timeout"]
    );
}

#[test]
fn export_headers_and_file_name() {
    assert_eq!(
        csv_header(AppMode::Icmp),
        "IP,Status,Last Latency (ms),Avg Latency (ms),Min Latency (ms),Max Latency (ms),Packet Loss %,Packets Sent,Packets Received"
    );
    assert_eq!(
        csv_header(AppMode::Http),
        "IP,Status,Status Code,Last Response Time (ms),Avg Response Time (ms),Min Response Time (ms),Max Response Time (ms),Content Size,Success Rate %,Requests Sent,Requests Successful,Last Error"
    );
    assert_eq!(export_file_name("20240131_235959"), "stats_export_20240131_235959.csv");
}

#[test]
fn export_rows_of_echo_statistics() {
    let mut stats = PingStats::new();
    assert_eq!(ping_csv_row("10.0.0.1", &stats), "10.0.0.1,NotStarted,-,-,-,-,0.00,0,0");
    stats.update(Some(Duration::from_micros(1_234)));
    stats.update(Some(Duration::from_micros(3_000)));
    stats.update(None);
    assert_eq!(
        ping_csv_row("10.0.0.1", &stats),
        "10.0.0.1,Timeout,-,2.12,1.23,3.00,33.33,3,2"
    );
    stats.update(Some(Duration::from_micros(10_005)));
    assert_eq!(
        ping_csv_row("fe80::1", &stats),
        "fe80::1,Active,10.00,4.75,1.23,10.00,25.00,4,3"
    );
}

#[test]
fn export_rows_of_http_statistics() {
    let mut stats = HttpStats::new();
    assert_eq!(http_csv_row("h", &stats), "h,NotStarted,-,-,-,-,-,-,0.00,0,0,-");
    stats.update(Some(200), Duration::from_millis(12), Some(2048), None);
    assert_eq!(
        http_csv_row("h", &stats),
        "h,Success,200,12.00,12.00,12.00,12.00,2048,100.00,1,1,-"
    );
    stats.update(
        None,
        Duration::from_micros(1_500),
        None,
        Some("error sending \"GET\" request".to_string()),
    );
    assert_eq!(
        http_csv_row("h", &stats),
        "h,NetworkError,-,1.50,12.00,12.00,12.00,-,50.00,2,1,\"error sending 'GET' request\""
    );
}

fn labelled(ips: &[u32]) -> Vec<(HostAddr, String)> {
    ips.iter().map(|n| (HostAddr::V4(*n), format!("10.0.0.{}", n))).collect()
}

fn hosts_of(ips: &[u32]) -> Vec<Host> {
    ips.iter().map(|n| Host { ip: HostAddr::V4(*n), selected: false }).collect()
}

#[test]
fn export_lines_are_the_header_and_a_row_for_each_host() {
    let mut store = StatsStore::new(&hosts_of(&[1, 2, 3]), AppMode::Icmp);
    store.record_ping(HostAddr::V4(2), Some(Duration::from_millis(2)));
    let lines = export_lines(&labelled(&[3, 1, 2]), &store, AppMode::Icmp);
    assert_eq!(
        lines,
        vec![
            csv_header(AppMode::Icmp),
            "10.0.0.3,NotStarted,-,-,-,-,0.00,0,0".to_string(),
            "10.0.0.1,NotStarted,-,-,-,-,0.00,0,0".to_string(),
            "10.0.0.2,Active,2.00,2.00,2.00,2.00,0.00,1,1".to_string(),
        ]
    );
}

#[test]
fn export_lines_pass_over_hosts_without_statistics_of_the_kind() {
    let store = StatsStore::new(&hosts_of(&[1]), AppMode::Http);
    // a host that the store does not know, and a store of the other kind
    assert_eq!(
        export_lines(&labelled(&[9, 1]), &store, AppMode::Http),
        vec![csv_header(AppMode::Http), "10.0.0.1,NotStarted,-,-,-,-,-,-,0.00,0,0,-".to_string()]
    );
    assert_eq!(
        export_lines(&labelled(&[9, 1]), &store, AppMode::Icmp),
        vec![csv_header(AppMode::Icmp)]
    );
    assert_eq!(export_lines(&labelled(&[]), &store, AppMode::Http), vec![csv_header(AppMode::Http)]);
}

#[test]
fn cells_are_joined_by_commas() {
    assert_eq!(join_cells(&vec![]), "");
    assert_eq!(join_cells(&vec!["a".to_string()]), "a");
    assert_eq!(join_cells(&vec!["a".to_string(), String::new(), "c".to_string()]), "a,,c");
}

#[test]
fn the_table_shows_the_selected_hosts_of_the_kind_of_the_session() {
    let mut store = StatsStore::new(&hosts_of(&[1, 2, 3]), AppMode::Icmp);
    store.record_ping(HostAddr::V4(3), Some(Duration::from_micros(1_500)));
    store.record_ping(HostAddr::V4(1), None);
    let hosts: Vec<(Host, String)> = [(3u32, true), (2, false), (9, true), (1, true)]
        .iter()
        .map(|(n, selected)| {
            (Host { ip: HostAddr::V4(*n), selected: *selected }, format!("10.0.0.{}", n))
        })
        .collect();
    let rows = table_rows(&hosts, &store, AppMode::Icmp);
    assert_eq!(rows.len(), 2);
    assert_eq!(rows[0].cells, vec!["10.0.0.3", "Active", "1.5ms", "1.5ms", "0.0%", "1/1"]);
    assert_eq!(rows[0].tone, Tone::Green);
    assert_eq!(rows[1].cells, vec!["10.0.0.1", "Timeout", "-", "-", "100.0%", "0/1"]);
    assert_eq!(rows[1].tone, Tone::Red);
    assert!(table_rows(&hosts, &store, AppMode::Http).is_empty());
    let http = StatsStore::new(&hosts_of(&[3]), AppMode::Http);
    let rows = table_rows(&hosts, &http, AppMode::Http);
    assert_eq!(rows.len(), 1);
    assert_eq!(rows[0].cells, vec!["10.0.0.3", "NotStarted", "-", "-", "-", "-"]);
    assert_eq!(rows[0].tone, Tone::Gray);
}
