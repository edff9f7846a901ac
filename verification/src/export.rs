//! The export of the statistics as comma-separated values: a header line,
//! and one row for each host.

use crate::addr::HostAddr;
use crate::http_stats::{HttpModel, HttpStats, HttpStatus};
use crate::ratio::{round_half_even, rounded_div};
use crate::stats::{AppMode, PingModel, PingStats, PingStatus, Stats, StatsModel};
use crate::store::StatsStore;
use crate::text::{decimal, decimal_text, fixed_point, push_fixed_point, texts_of};
use crate::ui::http_status_name;
use std::time::Duration;
use vstd::prelude::*;
use vstd::string::StringExecFns;

verus! {

/// Nanoseconds in a hundredth of a millisecond.
pub const NANOS_PER_HUNDREDTH_MS: u128 = 10_000;

/// The name of a status of the echo probes, as one word.
pub open spec fn ping_status_name(status: PingStatus) -> Seq<char> {
    match status {
        PingStatus::NotStarted => "NotStarted"@,
        PingStatus::Active => "Active"@,
        PingStatus::Timeout => "Timeout"@,
        PingStatus::Unreachable => "Unreachable"@,
    }
}

/// The header line of an export of the kind of `mode`.
pub open spec fn header_text(mode: AppMode) -> Seq<char> {
    match mode {
        AppMode::Icmp =>
            "IP,Status,Last Latency (ms),Avg Latency (ms),Min Latency (ms),Max Latency (ms),Packet Loss %,Packets Sent,Packets Received"@,
        AppMode::Http =>
            "IP,Status,Status Code,Last Response Time (ms),Avg Response Time (ms),Min Response Time (ms),Max Response Time (ms),Content Size,Success Rate %,Requests Sent,Requests Successful,Last Error"@,
    }
}

/// A duration of so many nanoseconds in milliseconds with two digits after
/// the point, rounded to the nearest hundredth; `-` where there is none.
pub open spec fn millis_text(nanos: Option<nat>) -> Seq<char> {
    match nanos {
        Some(n) => fixed_point(round_half_even(n, NANOS_PER_HUNDREDTH_MS as nat), 2),
        None => "-"@,
    }
}

/// A number in decimal digits; `-` where there is none.
pub open spec fn number_text(n: Option<nat>) -> Seq<char> {
    match n {
        Some(n) => decimal(n),
        None => "-"@,
    }
}

/// The character that stands for `c` inside a quoted field: a single quote
/// for a double one, and `c` itself otherwise.
pub open spec fn quoted_char(c: char) -> char {
    if c == '"' {
        '\''
    } else {
        c
    }
}

/// An error as a quoted field: between double quotes, with every double
/// quote of its own turned into a single one; `-` where there is none.
pub open spec fn error_field(error: Option<Seq<char>>) -> Seq<char> {
    match error {
        Some(e) => seq!['"'] + e.map_values(|c: char| quoted_char(c)) + seq!['"'],
        None => "-"@,
    }
}

/// The cells of a row as one line, with a comma between one cell and the
/// next.
pub open spec fn joined(cells: Seq<Seq<char>>) -> Seq<char>
    decreases cells.len(),
{
    if cells.len() == 0 {
        Seq::empty()
    } else if cells.len() == 1 {
        cells[0]
    } else {
        joined(cells.drop_last()) + seq![','] + cells.last()
    }
}

/// The cells of a host with echo statistics: address, status, the last,
/// the average, the shortest and the longest round-trip time, the loss in
/// percent, and the packets sent and received.
pub open spec fn ping_cells(label: Seq<char>, m: PingModel) -> Seq<Seq<char>> {
    seq![
        label,
        ping_status_name(m.status),
        millis_text(m.last_latency),
        millis_text(m.avg_latency),
        millis_text(m.min_latency),
        millis_text(m.max_latency),
        fixed_point(m.packet_loss_percent, 2),
        decimal(m.packets_sent),
        decimal(m.packets_received),
    ]
}

/// The row of a host with echo statistics.
pub open spec fn ping_row_text(label: Seq<char>, m: PingModel) -> Seq<char> {
    joined(ping_cells(label, m))
}

/// A machine number as a number, where there is one.
pub open spec fn nat_opt(n: Option<u64>) -> Option<nat> {
    match n {
        Some(n) => Some(n as nat),
        None => None,
    }
}

/// A status code as a number, where there is one.
pub open spec fn code_opt(code: Option<u16>) -> Option<nat> {
    match code {
        Some(c) => Some(c as nat),
        None => None,
    }
}

/// The cells of a host with HTTP statistics: address, status, status code,
/// the last, the average, the shortest and the longest response time, the
/// content size, the success rate in percent, the requests sent and
/// answered, and the last error.
pub open spec fn http_cells(label: Seq<char>, m: HttpModel) -> Seq<Seq<char>> {
    seq![
        label,
        http_status_name(m.status),
        number_text(code_opt(m.last_status_code)),
        millis_text(m.last_response_time),
        millis_text(m.avg_response_time),
        millis_text(m.min_response_time),
        millis_text(m.max_response_time),
        number_text(nat_opt(m.last_content_size)),
        fixed_point(m.success_rate_percent, 2),
        decimal(m.requests_sent),
        decimal(m.requests_successful),
        error_field(m.last_error),
    ]
}

/// The row of a host with HTTP statistics.
pub open spec fn http_row_text(label: Seq<char>, m: HttpModel) -> Seq<char> {
    joined(http_cells(label, m))
}

/// The name of the file of an export made at the moment that `stamp`
/// spells.
pub open spec fn file_name_text(stamp: Seq<char>) -> Seq<char> {
    "stats_export_"@ + stamp + ".csv"@
}

/// The name of the file of an export made at the moment that `stamp`
/// spells.
pub fn export_file_name(stamp: &str) -> (name: String)
    ensures
        name@ == file_name_text(stamp@),
{
    let mut name = "stats_export_".to_owned();
    name.append(stamp);
    name.append(".csv");
    name
}

/// The header line of an export of the kind of `mode`.
pub fn csv_header(mode: AppMode) -> (line: String)
    ensures
        line@ == header_text(mode),
{
    match mode {
        AppMode::Icmp =>
            "IP,Status,Last Latency (ms),Avg Latency (ms),Min Latency (ms),Max Latency (ms),Packet Loss %,Packets Sent,Packets Received".to_owned(),
        AppMode::Http =>
            "IP,Status,Status Code,Last Response Time (ms),Avg Response Time (ms),Min Response Time (ms),Max Response Time (ms),Content Size,Success Rate %,Requests Sent,Requests Successful,Last Error".to_owned(),
    }
}

/// A duration in milliseconds with two digits after the point, or `-`
/// where there is none.
fn millis_cell(duration: Option<Duration>) -> (cell: String)
    ensures
        cell@ == millis_text(crate::timing::nanos_opt(duration)),
{
    match duration {
        Some(d) => {
            let mut cell = String::new();
            push_fixed_point(&mut cell, rounded_div(d.as_nanos(), NANOS_PER_HUNDREDTH_MS), 2);
            assert(cell@ =~= millis_text(crate::timing::nanos_opt(duration)));
            cell
        },
        None => "-".to_owned(),
    }
}

/// A number in decimal digits, or `-` where there is none.
fn number_cell(n: Option<u64>) -> (cell: String)
    ensures
        cell@ == number_text(nat_opt(n)),
{
    match n {
        Some(n) => decimal_text(n as u128),
        None => "-".to_owned(),
    }
}

/// A number with two digits after the point, from its hundredths.
fn hundredths_cell(n: u32) -> (cell: String)
    ensures
        cell@ == fixed_point(n as nat, 2),
{
    let mut cell = String::new();
    push_fixed_point(&mut cell, n as u128, 2);
    assert(cell@ =~= fixed_point(n as nat, 2));
    cell
}

/// The name of a status of the echo probes.
fn ping_status_cell(status: PingStatus) -> (cell: String)
    ensures
        cell@ == ping_status_name(status),
{
    match status {
        PingStatus::NotStarted => "NotStarted".to_owned(),
        PingStatus::Active => "Active".to_owned(),
        PingStatus::Timeout => "Timeout".to_owned(),
        PingStatus::Unreachable => "Unreachable".to_owned(),
    }
}

/// The name of a status of the HTTP probes.
fn http_status_cell(status: HttpStatus) -> (cell: String)
    ensures
        cell@ == http_status_name(status),
{
    match status {
        HttpStatus::NotStarted => "NotStarted".to_owned(),
        HttpStatus::Success => "Success".to_owned(),
        HttpStatus::ClientError => "ClientError".to_owned(),
        HttpStatus::ServerError => "ServerError".to_owned(),
        HttpStatus::NetworkError => "NetworkError".to_owned(),
    }
}

/// An error as a quoted field, or `-` where there is none.
fn error_cell(error: &Option<String>) -> (cell: String)
    ensures
        cell@ == error_field(crate::http_stats::text_opt(*error)),
{
    match error {
        Some(e) => {
            let mut cell = String::new();
            cell.push('"');
            let ghost start = cell@;
            for c in it: e.as_str().chars()
                invariant
                    it.seq() == e@,
                    start == seq!['"'],
                    cell@ == start + e@.subrange(0, it.index() as int).map_values(
                        |c: char| quoted_char(c),
                    ),
            {
                let q = if c == '"' {
                    '\''
                } else {
                    c
                };
                cell.push(q);
                assert(cell@ =~= start + e@.subrange(0, it.index() + 1).map_values(
                    |c: char| quoted_char(c),
                ));
            }
            assert(e@.subrange(0, e@.len() as int) =~= e@);
            cell.push('"');
            assert(cell@ =~= error_field(Some(e@)));
            cell
        },
        None => "-".to_owned(),
    }
}

/// The cells as one line, with a comma between one cell and the next.
pub fn join_cells(cells: &Vec<String>) -> (line: String)
    ensures
        line@ == joined(texts_of(cells@)),
{
    let ghost all = texts_of(cells@);
    let mut line = String::new();
    let mut i: usize = 0;
    assert(all.subrange(0, 0) =~= Seq::<Seq<char>>::empty());
    while i < cells.len()
        invariant
            i <= cells@.len(),
            all == texts_of(cells@),
            line@ == joined(all.subrange(0, i as int)),
        decreases cells@.len() - i,
    {
        proof {
            let upto = all.subrange(0, i + 1);
            assert(upto.drop_last() =~= all.subrange(0, i as int));
            assert(upto.last() == cells@[i as int]@);
            assert(upto[0] == all[0]);
        }
        if i > 0 {
            line.push(',');
        }
        line.append(cells[i].as_str());
        i = i + 1;
    }
    assert(all.subrange(0, i as int) =~= all);
    line
}

/// The row of the host written `label` in an export of echo statistics.
pub fn ping_csv_row(label: &str, stats: &PingStats) -> (row: String)
    ensures
        row@ == ping_row_text(label@, stats@),
{
    let mut cells: Vec<String> = Vec::new();
    cells.push(label.to_owned());
    cells.push(ping_status_cell(stats.status()));
    cells.push(millis_cell(stats.last_latency()));
    cells.push(millis_cell(stats.avg_latency()));
    cells.push(millis_cell(stats.min_latency()));
    cells.push(millis_cell(stats.max_latency()));
    cells.push(hundredths_cell(stats.packet_loss_percent().hundredths));
    cells.push(number_of(stats.packets_sent()));
    cells.push(number_of(stats.packets_received()));
    assert(texts_of(cells@) =~= ping_cells(label@, stats@));
    join_cells(&cells)
}

/// A counter in decimal digits.
fn number_of(n: u64) -> (cell: String)
    ensures
        cell@ == decimal(n as nat),
{
    decimal_text(n as u128)
}

/// A status code as a machine number, where there is one.
fn wide(code: Option<u16>) -> (n: Option<u64>)
    ensures
        nat_opt(n) == code_opt(code),
{
    match code {
        Some(c) => Some(c as u64),
        None => None,
    }
}

/// The row of the host written `label` in an export of HTTP statistics.
pub fn http_csv_row(label: &str, stats: &HttpStats) -> (row: String)
    ensures
        row@ == http_row_text(label@, stats@),
{
    let mut cells: Vec<String> = Vec::new();
    cells.push(label.to_owned());
    cells.push(http_status_cell(stats.status()));
    cells.push(number_cell(wide(stats.last_status_code())));
    cells.push(millis_cell(stats.last_response_time()));
    cells.push(millis_cell(stats.avg_response_time()));
    cells.push(millis_cell(stats.min_response_time()));
    cells.push(millis_cell(stats.max_response_time()));
    cells.push(number_cell(stats.last_content_size()));
    cells.push(hundredths_cell(stats.success_rate_percent().hundredths));
    cells.push(number_of(stats.requests_sent()));
    cells.push(number_of(stats.requests_successful()));
    cells.push(error_cell(stats.last_error()));
    assert(texts_of(cells@) =~= http_cells(label@, stats@));
    join_cells(&cells)
}

/// The row of a host written `label` whose statistics are `entry`, in an
/// export of the kind of `mode`: none where the statistics are of the other
/// kind.
pub open spec fn row_of(label: Seq<char>, entry: StatsModel, mode: AppMode) -> Option<Seq<char>> {
    match (mode, entry) {
        (AppMode::Icmp, StatsModel::Ping(m)) => Some(ping_row_text(label, m)),
        (AppMode::Http, StatsModel::Http(m)) => Some(http_row_text(label, m)),
        _ => None,
    }
}

/// The rows of an export: one for each host that has statistics of the
/// kind of the session, in the order of the hosts.
pub open spec fn rows_text(
    hosts: Seq<(HostAddr, Seq<char>)>,
    store: Map<HostAddr, StatsModel>,
    mode: AppMode,
) -> Seq<Seq<char>>
    decreases hosts.len(),
{
    if hosts.len() == 0 {
        Seq::empty()
    } else {
        let front = rows_text(hosts.drop_last(), store, mode);
        let (ip, label) = hosts.last();
        if store.contains_key(ip) {
            match row_of(label, store[ip], mode) {
                Some(row) => front.push(row),
                None => front,
            }
        } else {
            front
        }
    }
}

/// The lines of an export: the header, then the rows.
pub open spec fn lines_text(
    hosts: Seq<(HostAddr, Seq<char>)>,
    store: Map<HostAddr, StatsModel>,
    mode: AppMode,
) -> Seq<Seq<char>> {
    seq![header_text(mode)] + rows_text(hosts, store, mode)
}

/// The hosts, each with the text of its label.
pub open spec fn labelled_views(hosts: Seq<(HostAddr, String)>) -> Seq<(HostAddr, Seq<char>)> {
    hosts.map_values(|h: (HostAddr, String)| (h.0, h.1@))
}

/// The row of a host written `label` whose statistics are `stats`, in an
/// export of the kind of `mode`.
fn row_for(label: &str, stats: &Stats, mode: AppMode) -> (row: Option<String>)
    ensures
        match row {
            Some(text) => row_of(label@, stats@, mode) == Some(text@),
            None => row_of(label@, stats@, mode) is None,
        },
{
    match (mode, stats) {
        (AppMode::Icmp, Stats::Ping(host_stats)) => Some(ping_csv_row(label, host_stats)),
        (AppMode::Http, Stats::Http(host_stats)) => Some(http_csv_row(label, host_stats)),
        _ => None,
    }
}

/// The lines of an export of the statistics in `store`: the header of the
/// kind of the session first, then one row for each host that has
/// statistics of that kind, in the order of the hosts. Each host comes with
/// the text that its address is written as.
pub fn export_lines(hosts: &Vec<(HostAddr, String)>, store: &StatsStore, mode: AppMode) -> (lines:
    Vec<String>)
    requires
        store.wf(),
    ensures
        texts_of(lines@) == lines_text(labelled_views(hosts@), store@, mode),
{
    let ghost all = labelled_views(hosts@);
    let mut lines: Vec<String> = Vec::new();
    lines.push(csv_header(mode));
    let mut i: usize = 0;
    assert(all.subrange(0, 0) =~= Seq::<(HostAddr, Seq<char>)>::empty());
    assert(texts_of(lines@) =~= seq![header_text(mode)]);
    while i < hosts.len()
        invariant
            i <= hosts@.len(),
            store.wf(),
            all == labelled_views(hosts@),
            texts_of(lines@) == seq![header_text(mode)] + rows_text(
                all.subrange(0, i as int),
                store@,
                mode,
            ),
        decreases hosts@.len() - i,
    {
        let ghost before = lines@;
        proof {
            let upto = all.subrange(0, i + 1);
            assert(upto.drop_last() =~= all.subrange(0, i as int));
            assert(upto.last() == all[i as int]);
        }
        let ip = hosts[i].0;
        match store.get(ip) {
            Some(stats) => {
                match row_for(hosts[i].1.as_str(), stats, mode) {
                    Some(row) => {
                        lines.push(row);
                        assert(texts_of(lines@) =~= texts_of(before).push(row@));
                    },
                    None => {},
                }
            },
            None => {},
        }
        i = i + 1;
    }
    assert(all.subrange(0, i as int) =~= all);
    lines
}

} // verus!
