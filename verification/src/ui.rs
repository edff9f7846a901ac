//! The cells of the dashboard: statuses, durations, sizes and errors as
//! short text.

use crate::addr::HostAddr;
use crate::app::Host;
use crate::http_stats::{text_opt, HttpModel, HttpStats, HttpStatus};
use crate::ratio::{round_half_even, rounded_div};
use crate::stats::{AppMode, PingModel, PingStats, PingStatus, Stats, StatsModel};
use crate::store::StatsStore;
use crate::text::{
    decimal, decimal_text, fixed_point, push_decimal, push_fixed_point, texts_of,
};
use crate::timing::nanos_opt;
use std::time::Duration;
use vstd::prelude::*;
use vstd::string::StringExecFns;
use vstd::string::StringSliceAdditionalSpecFns;
use vstd::utf8::{
    decode_utf8, encode_utf8, encode_utf8_decode_utf8, encode_utf8_valid_utf8, is_char_boundary,
    is_char_boundary_start_end_of_seq,
};

verus! {

/// How many bytes of an error the dashboard shows before it cuts.
pub const ERROR_WIDTH: usize = 28;

/// Nanoseconds in a tenth of a millisecond.
pub const NANOS_PER_TENTH_MS: u128 = 100_000;

/// Bytes in a kibibyte.
pub const KIB: u64 = 1024;

/// Bytes in a mebibyte.
pub const MIB: u64 = 1024 * 1024;

/// The name of a status of the echo probes.
pub open spec fn ping_status_text(status: PingStatus) -> Seq<char> {
    match status {
        PingStatus::NotStarted => "Not Started"@,
        PingStatus::Active => "Active"@,
        PingStatus::Timeout => "Timeout"@,
        PingStatus::Unreachable => "Unreachable"@,
    }
}

/// The name of a status of the HTTP probes.
pub open spec fn http_status_name(status: HttpStatus) -> Seq<char> {
    match status {
        HttpStatus::NotStarted => "NotStarted"@,
        HttpStatus::Success => "Success"@,
        HttpStatus::ClientError => "ClientError"@,
        HttpStatus::ServerError => "ServerError"@,
        HttpStatus::NetworkError => "NetworkError"@,
    }
}

/// The status cell of an HTTP host: the code of the latest response, with
/// a word for the codes 200, 404 and 500; without a response, the name of
/// the status.
pub open spec fn http_status_text(code: Option<u16>, status: HttpStatus) -> Seq<char> {
    match code {
        Some(c) => {
            if c == 200 {
                decimal(c as nat) + " OK"@
            } else if c == 404 {
                decimal(c as nat) + " Not Found"@
            } else if c == 500 {
                decimal(c as nat) + " Server Err"@
            } else {
                decimal(c as nat)
            }
        },
        None => http_status_name(status),
    }
}

/// A duration cell: the milliseconds with one digit after the point,
/// rounded to the nearest tenth, and `-` where there is no duration.
pub open spec fn duration_text(nanos: Option<nat>) -> Seq<char> {
    match nanos {
        Some(n) => fixed_point(round_half_even(n, NANOS_PER_TENTH_MS as nat), 1) + "ms"@,
        None => "-"@,
    }
}

/// A size cell: above a mebibyte the mebibytes, above a kibibyte the
/// kibibytes, each with one digit after the point and rounded to the
/// nearest tenth; else the bytes; and `-` where there is no size.
pub open spec fn size_text(size: Option<u64>) -> Seq<char> {
    match size {
        Some(s) => {
            if s > MIB {
                fixed_point(round_half_even((s * 10) as nat, MIB as nat), 1) + "MB"@
            } else if s > KIB {
                fixed_point(round_half_even((s * 10) as nat, KIB as nat), 1) + "KB"@
            } else {
                decimal(s as nat) + "B"@
            }
        },
        None => "-"@,
    }
}

/// The longest prefix of `bytes` that has at most `limit` bytes and ends
/// between two characters.
pub open spec fn cut_point(bytes: Seq<u8>, limit: nat) -> nat
    decreases limit,
{
    if limit == 0 || is_char_boundary(bytes, limit as int) {
        limit
    } else {
        cut_point(bytes, (limit - 1) as nat)
    }
}

/// An error cell: the error itself where it has at most `ERROR_WIDTH`
/// bytes; else its longest prefix of whole characters within that many
/// bytes, and three dots; and `-` where there is no error.
pub open spec fn error_text(error: Option<Seq<char>>) -> Seq<char> {
    match error {
        Some(e) => {
            let bytes = encode_utf8(e);
            if bytes.len() > ERROR_WIDTH {
                decode_utf8(bytes.subrange(0, cut_point(bytes, ERROR_WIDTH as nat) as int))
                    + "..."@
            } else {
                e
            }
        },
        None => "-"@,
    }
}

/// The name of a status of the echo probes.
pub fn format_ping_status(status: &PingStatus) -> (text: String)
    ensures
        text@ == ping_status_text(*status),
{
    match status {
        PingStatus::NotStarted => "Not Started".to_owned(),
        PingStatus::Active => "Active".to_owned(),
        PingStatus::Timeout => "Timeout".to_owned(),
        PingStatus::Unreachable => "Unreachable".to_owned(),
    }
}

/// The status cell of an HTTP host.
pub fn format_http_status(code: Option<u16>, status: &HttpStatus) -> (text: String)
    ensures
        text@ == http_status_text(code, *status),
{
    match code {
        Some(c) => {
            let mut text = decimal_text(c as u128);
            if c == 200 {
                text.append(" OK");
            } else if c == 404 {
                text.append(" Not Found");
            } else if c == 500 {
                text.append(" Server Err");
            }
            text
        },
        None => match status {
            HttpStatus::NotStarted => "NotStarted".to_owned(),
            HttpStatus::Success => "Success".to_owned(),
            HttpStatus::ClientError => "ClientError".to_owned(),
            HttpStatus::ServerError => "ServerError".to_owned(),
            HttpStatus::NetworkError => "NetworkError".to_owned(),
        },
    }
}

/// A duration cell.
pub fn format_duration(duration: Option<Duration>) -> (text: String)
    ensures
        text@ == duration_text(nanos_opt(duration)),
{
    match duration {
        Some(d) => {
            let tenths = rounded_div(d.as_nanos(), NANOS_PER_TENTH_MS);
            let mut text = String::new();
            push_fixed_point(&mut text, tenths, 1);
            text.append("ms");
            text
        },
        None => "-".to_owned(),
    }
}

/// A size cell.
pub fn format_size(size: Option<u64>) -> (text: String)
    ensures
        text@ == size_text(size),
{
    match size {
        Some(s) => {
            let mut text = String::new();
            if s > MIB {
                push_fixed_point(&mut text, rounded_div((s as u128) * 10, MIB as u128), 1);
                text.append("MB");
            } else if s > KIB {
                push_fixed_point(&mut text, rounded_div((s as u128) * 10, KIB as u128), 1);
                text.append("KB");
            } else {
                push_decimal(&mut text, s as u128);
                text.append("B");
            }
            text
        },
        None => "-".to_owned(),
    }
}

/// An error cell.
pub fn format_error(error: &Option<String>) -> (text: String)
    ensures
        text@ == error_text(text_opt(*error)),
{
    match error {
        Some(e) => {
            let s = e.as_str();
            if s.as_bytes().len() > ERROR_WIDTH {
                let ghost bytes = s.spec_bytes();
                proof {
                    encode_utf8_valid_utf8(s@);
                    is_char_boundary_start_end_of_seq(bytes);
                }
                let mut cut: usize = ERROR_WIDTH;
                while cut > 0 && !s.is_char_boundary(cut)
                    invariant
                        cut <= ERROR_WIDTH,
                        bytes == s.spec_bytes(),
                        cut_point(bytes, ERROR_WIDTH as nat) == cut_point(bytes, cut as nat),
                    decreases cut,
                {
                    cut = cut - 1;
                }
                let (head, _) = s.split_at(cut);
                let mut text = head.to_owned();
                text.append("...");
                proof {
                    encode_utf8_decode_utf8(head@);
                }
                text
            } else {
                e.clone()
            }
        },
        None => "-".to_owned(),
    }
}

/// The colour that a row of the dashboard is drawn in.
#[derive(Clone, Copy, Debug, PartialEq, Eq, Structural)]
pub enum Tone {
    Green,
    Yellow,
    Red,
    Gray,
}

/// The colour of a host with echo statistics: green while it answers, red
/// after a timeout, yellow once unreachable, gray before the first probe.
pub open spec fn tone_of_ping(status: PingStatus) -> Tone {
    match status {
        PingStatus::Active => Tone::Green,
        PingStatus::Timeout => Tone::Red,
        PingStatus::Unreachable => Tone::Yellow,
        PingStatus::NotStarted => Tone::Gray,
    }
}

/// The colour of a host with HTTP statistics: green for a success, yellow
/// for a client error, red for a server or a network error, gray before
/// the first probe.
pub open spec fn tone_of_http(status: HttpStatus) -> Tone {
    match status {
        HttpStatus::Success => Tone::Green,
        HttpStatus::ClientError => Tone::Yellow,
        HttpStatus::ServerError => Tone::Red,
        HttpStatus::NetworkError => Tone::Red,
        HttpStatus::NotStarted => Tone::Gray,
    }
}

/// The loss cell: the share of the packets sent that got no reply, in
/// percent with one digit after the point, rounded to the nearest tenth.
pub open spec fn loss_text(m: PingModel) -> Seq<char> {
    fixed_point(
        if m.packets_sent == 0 {
            0
        } else {
            round_half_even(((m.packets_sent - m.packets_received) * 1000) as nat, m.packets_sent)
        },
        1,
    ) + "%"@
}

/// The packets cell: the packets received and sent.
pub open spec fn packets_text(m: PingModel) -> Seq<char> {
    decimal(m.packets_received) + "/"@ + decimal(m.packets_sent)
}

/// The line of a host in the host list: a ticked box and a plug for a
/// selected host, an empty box for another.
pub open spec fn host_line_text(label: Seq<char>, selected: bool) -> Seq<char> {
    if selected {
        "[x] "@ + label + " \u{1F50C}"@
    } else {
        "[ ] "@ + label + "   "@
    }
}

/// The title of the host list: how many of the hosts are selected.
pub open spec fn hosts_title_text(selected: nat, total: nat) -> Seq<char> {
    "Hosts ("@ + decimal(selected) + "/"@ + decimal(total) + ")"@
}

/// A port in decimal digits.
pub open spec fn port_text(port: u16) -> Seq<char> {
    decimal(port as nat)
}

/// The kind of the session, with the port for HTTP.
pub open spec fn mode_text_of(mode: AppMode, port: u16) -> Seq<char> {
    match mode {
        AppMode::Icmp => "ICMP"@,
        AppMode::Http => "HTTP:"@ + port_text(port),
    }
}

/// The colour of a host with echo statistics.
pub fn ping_tone(status: &PingStatus) -> (tone: Tone)
    ensures
        tone == tone_of_ping(*status),
{
    match status {
        PingStatus::Active => Tone::Green,
        PingStatus::Timeout => Tone::Red,
        PingStatus::Unreachable => Tone::Yellow,
        PingStatus::NotStarted => Tone::Gray,
    }
}

/// The colour of a host with HTTP statistics.
pub fn http_tone(status: &HttpStatus) -> (tone: Tone)
    ensures
        tone == tone_of_http(*status),
{
    match status {
        HttpStatus::Success => Tone::Green,
        HttpStatus::ClientError => Tone::Yellow,
        HttpStatus::ServerError => Tone::Red,
        HttpStatus::NetworkError => Tone::Red,
        HttpStatus::NotStarted => Tone::Gray,
    }
}

/// The line of the host written `label` in the host list.
pub fn host_line(label: &str, selected: bool) -> (line: String)
    ensures
        line@ == host_line_text(label@, selected),
{
    if selected {
        let mut line = "[x] ".to_owned();
        line.append(label);
        line.append(" \u{1F50C}");
        line
    } else {
        let mut line = "[ ] ".to_owned();
        line.append(label);
        line.append("   ");
        line
    }
}

/// The title of the host list.
pub fn hosts_title(selected: usize, total: usize) -> (title: String)
    ensures
        title@ == hosts_title_text(selected as nat, total as nat),
{
    let mut title = "Hosts (".to_owned();
    push_decimal(&mut title, selected as u128);
    title.append("/");
    push_decimal(&mut title, total as u128);
    title.append(")");
    title
}

/// Appends a port in decimal digits.
fn push_port(out: &mut String, port: u16)
    ensures
        final(out)@ == old(out)@ + port_text(port),
{
    push_decimal(out, port as u128);
}

/// The kind of the session, with the port for HTTP.
pub fn mode_text(mode: AppMode, port: u16) -> (text: String)
    ensures
        text@ == mode_text_of(mode, port),
{
    match mode {
        AppMode::Icmp => "ICMP".to_owned(),
        AppMode::Http => {
            let mut text = "HTTP:".to_owned();
            push_port(&mut text, port);
            text
        },
    }
}

/// The cells of a host in the table of echo statistics: address, status,
/// last and average round-trip time, loss, packets.
pub open spec fn ping_row_cells(label: Seq<char>, m: PingModel) -> Seq<Seq<char>> {
    seq![
        label,
        ping_status_text(m.status),
        duration_text(m.last_latency),
        duration_text(m.avg_latency),
        loss_text(m),
        packets_text(m),
    ]
}

/// The cells of a host in the table of HTTP statistics: address, status,
/// last and average response time, content size, error.
pub open spec fn http_row_cells(label: Seq<char>, m: HttpModel) -> Seq<Seq<char>> {
    seq![
        label,
        http_status_text(m.last_status_code, m.status),
        duration_text(m.last_response_time),
        duration_text(m.avg_response_time),
        size_text(m.last_content_size),
        error_text(m.last_error),
    ]
}

/// A row of the table of statistics: its cells, and the colour it is drawn
/// in.
#[derive(Clone, Debug)]
pub struct TableRow {
    pub cells: Vec<String>,
    pub tone: Tone,
}

/// A row of the table as mathematical values.
pub struct RowModel {
    pub cells: Seq<Seq<char>>,
    pub tone: Tone,
}

impl View for TableRow {
    type V = RowModel;

    open spec fn view(&self) -> RowModel {
        RowModel { cells: texts_of(self.cells@), tone: self.tone }
    }
}

/// The rows as mathematical values.
pub open spec fn row_views(rows: Seq<TableRow>) -> Seq<RowModel> {
    rows.map_values(|r: TableRow| r@)
}

/// The hosts, each with the text of its label.
pub open spec fn labelled_hosts(hosts: Seq<(Host, String)>) -> Seq<(Host, Seq<char>)> {
    hosts.map_values(|h: (Host, String)| (h.0, h.1@))
}

/// The row of a host written `label` whose statistics are `entry`, in the
/// table of a session of the kind of `mode`: none where the statistics are
/// of the other kind.
pub open spec fn row_shown(label: Seq<char>, entry: StatsModel, mode: AppMode) -> Option<RowModel> {
    match (mode, entry) {
        (AppMode::Icmp, StatsModel::Ping(m)) => Some(
            RowModel { cells: ping_row_cells(label, m), tone: tone_of_ping(m.status) },
        ),
        (AppMode::Http, StatsModel::Http(m)) => Some(
            RowModel { cells: http_row_cells(label, m), tone: tone_of_http(m.status) },
        ),
        _ => None,
    }
}

/// The rows of the table of statistics: one for each selected host that
/// has statistics of the kind of the session, in the order of the hosts.
pub open spec fn table_text(
    hosts: Seq<(Host, Seq<char>)>,
    store: Map<HostAddr, StatsModel>,
    mode: AppMode,
) -> Seq<RowModel>
    decreases hosts.len(),
{
    if hosts.len() == 0 {
        Seq::empty()
    } else {
        let front = table_text(hosts.drop_last(), store, mode);
        let (host, label) = hosts.last();
        if host.selected && store.contains_key(host.ip) {
            match row_shown(label, store[host.ip], mode) {
                Some(row) => front.push(row),
                None => front,
            }
        } else {
            front
        }
    }
}

/// The cells of the host written `label` in the table of echo statistics:
/// address, status, last and average round-trip time, loss, packets.
pub fn ping_row(label: &str, stats: &PingStats) -> (cells: Vec<String>)
    requires
        stats.wf(),
    ensures
        texts_of(cells@) == ping_row_cells(label@, stats@),
{
    proof {
        stats.lemma_wf();
    }
    let sent = stats.packets_sent();
    let received = stats.packets_received();
    let tenths = if sent == 0 {
        0
    } else {
        rounded_div(((sent - received) as u128) * 1000, sent as u128)
    };
    let mut loss = String::new();
    push_fixed_point(&mut loss, tenths, 1);
    loss.append("%");
    let mut packets = String::new();
    push_decimal(&mut packets, received as u128);
    packets.append("/");
    push_decimal(&mut packets, sent as u128);
    let status = stats.status();
    let mut cells: Vec<String> = Vec::new();
    cells.push(label.to_owned());
    cells.push(format_ping_status(&status));
    cells.push(format_duration(stats.last_latency()));
    cells.push(format_duration(stats.avg_latency()));
    cells.push(loss);
    cells.push(packets);
    assert(texts_of(cells@) =~= ping_row_cells(label@, stats@));
    cells
}

/// The cells of the host written `label` in the table of HTTP statistics:
/// address, status, last and average response time, content size, error.
pub fn http_row(label: &str, stats: &HttpStats) -> (cells: Vec<String>)
    ensures
        texts_of(cells@) == http_row_cells(label@, stats@),
{
    let status = stats.status();
    let mut cells: Vec<String> = Vec::new();
    cells.push(label.to_owned());
    cells.push(format_http_status(stats.last_status_code(), &status));
    cells.push(format_duration(stats.last_response_time()));
    cells.push(format_duration(stats.avg_response_time()));
    cells.push(format_size(stats.last_content_size()));
    cells.push(format_error(stats.last_error()));
    assert(texts_of(cells@) =~= http_row_cells(label@, stats@));
    cells
}

/// The row of a host written `label` whose statistics are `stats`, in the
/// table of a session of the kind of `mode`.
fn table_row(label: &str, stats: &Stats, mode: AppMode) -> (row: Option<TableRow>)
    requires
        stats.wf(),
    ensures
        match row {
            Some(r) => row_shown(label@, stats@, mode) == Some(r@),
            None => row_shown(label@, stats@, mode) is None,
        },
{
    match (mode, stats) {
        (AppMode::Icmp, Stats::Ping(host_stats)) => {
            let status = host_stats.status();
            Some(TableRow { cells: ping_row(label, host_stats), tone: ping_tone(&status) })
        },
        (AppMode::Http, Stats::Http(host_stats)) => {
            let status = host_stats.status();
            Some(TableRow { cells: http_row(label, host_stats), tone: http_tone(&status) })
        },
        _ => None,
    }
}

/// The rows of the table of statistics: one for each selected host that
/// has statistics of the kind of the session, in the order of the hosts.
/// Each host comes with the text that its address is written as.
pub fn table_rows(hosts: &Vec<(Host, String)>, store: &StatsStore, mode: AppMode) -> (rows: Vec<
    TableRow,
>)
    requires
        store.wf(),
    ensures
        row_views(rows@) == table_text(labelled_hosts(hosts@), store@, mode),
{
    let ghost all = labelled_hosts(hosts@);
    let mut rows: Vec<TableRow> = Vec::new();
    let mut i: usize = 0;
    assert(all.subrange(0, 0) =~= Seq::<(Host, Seq<char>)>::empty());
    assert(row_views(rows@) =~= Seq::<RowModel>::empty());
    while i < hosts.len()
        invariant
            i <= hosts@.len(),
            store.wf(),
            all == labelled_hosts(hosts@),
            row_views(rows@) == table_text(all.subrange(0, i as int), store@, mode),
        decreases hosts@.len() - i,
    {
        let ghost before = rows@;
        proof {
            let upto = all.subrange(0, i + 1);
            assert(upto.drop_last() =~= all.subrange(0, i as int));
            assert(upto.last() == all[i as int]);
        }
        let host = hosts[i].0;
        if host.selected {
            match store.get(host.ip) {
                Some(stats) => {
                    match table_row(hosts[i].1.as_str(), stats, mode) {
                        Some(row) => {
                            rows.push(row);
                            assert(row_views(rows@) =~= row_views(before).push(row@));
                        },
                        None => {},
                    }
                },
                None => {},
            }
        }
        i = i + 1;
    }
    assert(all.subrange(0, i as int) =~= all);
    rows
}

} // verus!
