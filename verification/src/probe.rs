//! One host's probe loop, as the decisions it takes: when to probe, when
//! to leave, and what a finished probe writes into the store.
//!
//! Whoever runs the loop waits for the next tick or for cancellation,
//! hands the event to `ProbeLoop::wake`, and does what comes back: it
//! leaves, or it makes one probe attempt under the probe's own timeout and
//! hands the result to `finish_ping` or `finish_http` while it holds the
//! store for writing.

use crate::addr::HostAddr;
use crate::http_stats::text_opt;
use crate::store::{has_room, with_http, with_ping, StatsStore};
use crate::text::{decimal, push_decimal};
use crate::timing::{duration_nanos, nanos_opt};
use std::time::Duration;
use vstd::prelude::*;
use vstd::string::StringExecFns;

verus! {

/// Seconds from one probe of a host to the next.
pub const PROBE_PERIOD_SECS: u64 = 1;

/// Seconds an echo probe may take.
pub const PING_TIMEOUT_SECS: u64 = 2;

/// Seconds an HTTP probe may take.
pub const HTTP_TIMEOUT_SECS: u64 = 5;

/// Bytes of payload in an echo request.
pub const PING_PAYLOAD_LEN: usize = 56;

/// What wakes a waiting probe loop.
#[derive(Clone, Copy, Debug, PartialEq, Eq, Structural)]
pub enum LoopEvent {
    /// The period has passed.
    Tick,
    /// The supervisor has signalled cancellation.
    Cancelled,
}

/// What a probe loop does after it woke.
#[derive(Clone, Copy, Debug, PartialEq, Eq, Structural)]
pub enum LoopAction {
    /// Make one probe attempt, an echo request with this sequence number.
    Probe(u16),
    /// Leave the loop.
    Exit,
}

/// How an echo probe ended.
#[derive(Clone, Copy, Debug)]
pub enum PingAttempt {
    /// A reply came after this round-trip time.
    Reply(Duration),
    /// Sending or receiving failed.
    Failed,
    /// No reply came within the timeout.
    TimedOut,
}

/// How the transport of an HTTP request failed.
#[derive(Clone, Debug)]
pub enum HttpFailure {
    /// No response came within the timeout.
    Timeout,
    /// The connection could not be made.
    Connect,
    /// Another failure, in the transport's own words.
    Other(String),
}

/// How an HTTP probe ended.
#[derive(Clone, Debug)]
pub enum HttpAttempt {
    /// A response came, with this status code and declared content length.
    Response(u16, Option<u64>),
    /// No response came.
    Failed(HttpFailure),
}

/// What an HTTP probe gives the statistics: the status code and the content
/// length of a response, or the text of a failure.
#[derive(Clone, Debug)]
pub struct HttpOutcome {
    pub status_code: Option<u16>,
    pub content_size: Option<u64>,
    pub error: Option<String>,
}

/// The round-trip time that an echo probe gives the statistics: a failure
/// and a timeout alike give none.
pub open spec fn latency_of(attempt: PingAttempt) -> Option<Duration> {
    match attempt {
        PingAttempt::Reply(latency) => Some(latency),
        PingAttempt::Failed => None,
        PingAttempt::TimedOut => None,
    }
}

/// The text of a failure of the transport.
pub open spec fn failure_text(failure: HttpFailure) -> Seq<char> {
    match failure {
        HttpFailure::Timeout => "Request timeout"@,
        HttpFailure::Connect => "Connection refused"@,
        HttpFailure::Other(message) => message@,
    }
}

/// The status code that an HTTP probe gives the statistics.
pub open spec fn status_code_of(attempt: HttpAttempt) -> Option<u16> {
    match attempt {
        HttpAttempt::Response(code, _) => Some(code),
        HttpAttempt::Failed(_) => None,
    }
}

/// The content length that an HTTP probe gives the statistics.
pub open spec fn content_size_of(attempt: HttpAttempt) -> Option<u64> {
    match attempt {
        HttpAttempt::Response(_, size) => size,
        HttpAttempt::Failed(_) => None,
    }
}

/// The error text that an HTTP probe gives the statistics.
pub open spec fn error_of(attempt: HttpAttempt) -> Option<Seq<char>> {
    match attempt {
        HttpAttempt::Response(_, _) => None,
        HttpAttempt::Failed(failure) => Some(failure_text(failure)),
    }
}

/// The host as it stands in an address: an IPv6 address between square
/// brackets, any other as it is written.
pub open spec fn host_part(ip: HostAddr, host: Seq<char>) -> Seq<char> {
    match ip {
        HostAddr::V4(_) => host,
        HostAddr::V6(_) => "["@ + host + "]"@,
    }
}

/// The address that an HTTP probe requests: the root of the host, over
/// plain HTTP, at the given port.
pub open spec fn url_text(ip: HostAddr, host: Seq<char>, port: u16) -> Seq<char> {
    "http://"@ + host_part(ip, host) + ":"@ + decimal(port as nat) + "/"@
}

/// The address that an HTTP probe of the host at `ip`, written `host`,
/// requests.
pub fn http_url(ip: HostAddr, host: &str, port: u16) -> (url: String)
    ensures
        url@ == url_text(ip, host@, port),
{
    let mut url = "http://".to_owned();
    match ip {
        HostAddr::V4(_) => {
            url.append(host);
        },
        HostAddr::V6(_) => {
            url.append("[");
            url.append(host);
            url.append("]");
        },
    }
    url.append(":");
    push_decimal(&mut url, port as u128);
    url.append("/");
    url
}

/// Milliseconds that a probe loop has to leave after cancellation was
/// signalled, before it is ended by force.
pub const STOP_GRACE_MILLIS: u64 = 100;

/// The round-trip time that an echo probe gives the statistics.
pub fn ping_latency(attempt: PingAttempt) -> (latency: Option<Duration>)
    ensures
        latency == latency_of(attempt),
{
    match attempt {
        PingAttempt::Reply(latency) => Some(latency),
        PingAttempt::Failed => None,
        PingAttempt::TimedOut => None,
    }
}

/// What an HTTP probe gives the statistics.
pub fn http_outcome(attempt: HttpAttempt) -> (outcome: HttpOutcome)
    ensures
        outcome.status_code == status_code_of(attempt),
        outcome.content_size == content_size_of(attempt),
        text_opt(outcome.error) == error_of(attempt),
{
    match attempt {
        HttpAttempt::Response(code, size) => HttpOutcome {
            status_code: Some(code),
            content_size: size,
            error: None,
        },
        HttpAttempt::Failed(failure) => {
            let message = match failure {
                HttpFailure::Timeout => "Request timeout".to_owned(),
                HttpFailure::Connect => "Connection refused".to_owned(),
                HttpFailure::Other(message) => message,
            };
            HttpOutcome { status_code: None, content_size: None, error: Some(message) }
        },
    }
}

/// The probe loop of one host as mathematical values.
pub struct LoopModel {
    pub ip: HostAddr,
    /// The sequence number of the next echo request.
    pub seq: u16,
    /// Whether the loop has left.
    pub exited: bool,
}

impl LoopModel {
    /// The loop as it starts: waiting, with sequence number 0.
    pub open spec fn initial(ip: HostAddr) -> LoopModel {
        LoopModel { ip, seq: 0, exited: false }
    }

    /// The loop after it woke, and what it does: on a tick it makes one
    /// probe; on cancellation it leaves without one. A loop that has left
    /// stays so.
    pub open spec fn wake(self, event: LoopEvent) -> (LoopModel, LoopAction) {
        if self.exited {
            (self, LoopAction::Exit)
        } else {
            match event {
                LoopEvent::Tick => (self, LoopAction::Probe(self.seq)),
                LoopEvent::Cancelled => (LoopModel { exited: true, ..self }, LoopAction::Exit),
            }
        }
    }

    /// The loop after its probe finished: waiting again, with the next
    /// sequence number, which goes round from 65535 to 0.
    pub open spec fn finish(self) -> LoopModel {
        LoopModel {
            seq: if self.seq == u16::MAX {
                0
            } else {
                (self.seq + 1) as u16
            },
            ..self
        }
    }
}

/// Once cancelled, the loop leaves and never probes again, whatever wakes
/// it; a tick to a waiting loop starts exactly the probe with the current
/// sequence number, and finishing it moves on to the next number.
pub proof fn lemma_loop(m: LoopModel, event: LoopEvent)
    requires
        !m.exited,
    ensures
        m.wake(LoopEvent::Cancelled).1 == LoopAction::Exit,
        m.wake(LoopEvent::Cancelled).0.wake(event).1 == LoopAction::Exit,
        m.wake(LoopEvent::Cancelled).0.wake(event).0 == m.wake(LoopEvent::Cancelled).0,
        m.wake(LoopEvent::Tick).1 == LoopAction::Probe(m.seq),
        m.wake(LoopEvent::Tick).0.finish().seq == (m.seq + 1) % 65536,
        !m.wake(LoopEvent::Tick).0.finish().exited,
{
}

/// The probe loop of one host.
#[derive(Clone, Copy, Debug)]
pub struct ProbeLoop {
    ip: HostAddr,
    seq: u16,
    exited: bool,
}

impl View for ProbeLoop {
    type V = LoopModel;

    closed spec fn view(&self) -> LoopModel {
        LoopModel { ip: self.ip, seq: self.seq, exited: self.exited }
    }
}

impl ProbeLoop {
    /// The loop of the host at `ip` as it starts.
    pub fn new(ip: HostAddr) -> (probe: ProbeLoop)
        ensures
            probe@ == LoopModel::initial(ip),
    {
        ProbeLoop { ip, seq: 0, exited: false }
    }

    /// The host that the loop probes.
    pub fn ip(&self) -> (ip: HostAddr)
        ensures
            ip == self@.ip,
    {
        self.ip
    }

    /// Takes in what woke the loop and says what to do.
    pub fn wake(&mut self, event: LoopEvent) -> (action: LoopAction)
        ensures
            (final(self)@, action) == old(self)@.wake(event),
    {
        if self.exited {
            LoopAction::Exit
        } else {
            match event {
                LoopEvent::Tick => LoopAction::Probe(self.seq),
                LoopEvent::Cancelled => {
                    self.exited = true;
                    LoopAction::Exit
                },
            }
        }
    }

    /// Writes the outcome of the echo probe that just ended into the
    /// store, and goes back to waiting.
    pub fn finish_ping(&mut self, store: &mut StatsStore, attempt: PingAttempt)
        requires
            old(store).wf(),
            has_room(old(store)@, old(self)@.ip),
        ensures
            final(self)@ == old(self)@.finish(),
            final(store).wf(),
            final(store)@ == with_ping(
                old(store)@,
                old(self)@.ip,
                nanos_opt(latency_of(attempt)),
            ),
    {
        store.record_ping(self.ip, ping_latency(attempt));
        self.advance();
    }

    /// Writes the outcome of the HTTP probe that just ended, after
    /// `elapsed`, into the store, and goes back to waiting.
    pub fn finish_http(&mut self, store: &mut StatsStore, attempt: HttpAttempt, elapsed: Duration)
        requires
            old(store).wf(),
            has_room(old(store)@, old(self)@.ip),
        ensures
            final(self)@ == old(self)@.finish(),
            final(store).wf(),
            final(store)@ == with_http(
                old(store)@,
                old(self)@.ip,
                status_code_of(attempt),
                duration_nanos(elapsed),
                content_size_of(attempt),
                error_of(attempt),
            ),
    {
        let outcome = http_outcome(attempt);
        store.record_http(
            self.ip,
            outcome.status_code,
            elapsed,
            outcome.content_size,
            outcome.error,
        );
        self.advance();
    }

    /// Goes back to waiting, with the next sequence number.
    fn advance(&mut self)
        ensures
            final(self)@ == old(self)@.finish(),
    {
        self.seq = if self.seq == u16::MAX {
            0
        } else {
            self.seq + 1
        };
    }
}

} // verus!
