//! Rolling statistics of the echo probes sent to one host.

use crate::http_stats::{HttpModel, HttpStats};
use crate::ratio::{lemma_percent_of_range, percent_of, Percent};
use crate::timing::{duration_of_nanos_opt, nanos_opt, now, Timestamp};
use crate::window::{
    lemma_pushed_all_is_tail, lemma_pushed_len, lemma_pushed_tail, max_of, mean_of, min_of,
    pushed, tail_of, SampleWindow, MAX_SAMPLES,
};
use std::time::Duration;
use vstd::prelude::*;

verus! {

/// How many failures in a row make a host unreachable.
pub const UNREACHABLE_AFTER: u64 = 5;

/// The kind of probe a session sends.
#[derive(Clone, Copy, Debug, PartialEq, Eq, Structural)]
pub enum AppMode {
    Icmp,
    Http,
}

/// The statistics of one host, of the kind of the session.
#[derive(Clone, Debug)]
pub enum Stats {
    Ping(PingStats),
    Http(HttpStats),
}

/// The statistics of one host as mathematical values.
pub enum StatsModel {
    Ping(PingModel),
    Http(HttpModel),
}

impl View for Stats {
    type V = StatsModel;

    open spec fn view(&self) -> StatsModel {
        match self {
            Stats::Ping(p) => StatsModel::Ping(p@),
            Stats::Http(h) => StatsModel::Http(h@),
        }
    }
}

impl Stats {
    /// Whether the statistics are those of some session.
    pub open spec fn wf(&self) -> bool {
        match self {
            Stats::Ping(p) => p.wf(),
            Stats::Http(h) => h.wf(),
        }
    }

    /// The statistics of a host that no probe of the kind of `mode` was
    /// sent to.
    pub fn new(mode: AppMode) -> (s: Stats)
        ensures
            s.wf(),
            s@ == StatsModel::initial(mode),
    {
        match mode {
            AppMode::Icmp => Stats::Ping(PingStats::new()),
            AppMode::Http => Stats::Http(HttpStats::new()),
        }
    }
}

impl StatsModel {
    /// The statistics of a host that no probe of the kind of `mode` was
    /// sent to.
    pub open spec fn initial(mode: AppMode) -> StatsModel {
        match mode {
            AppMode::Icmp => StatsModel::Ping(PingModel::initial()),
            AppMode::Http => StatsModel::Http(HttpModel::initial()),
        }
    }
}

/// What the echo probes say of a host.
#[derive(Clone, Copy, Debug, PartialEq, Eq, Structural)]
pub enum PingStatus {
    NotStarted,
    Active,
    Timeout,
    Unreachable,
}

/// The statistics of one host as mathematical values: durations in
/// nanoseconds, the loss in hundredths of a percent.
pub struct PingModel {
    pub status: PingStatus,
    pub last_latency: Option<nat>,
    pub avg_latency: Option<nat>,
    pub min_latency: Option<nat>,
    pub max_latency: Option<nat>,
    pub packets_sent: nat,
    pub packets_received: nat,
    pub packet_loss_percent: nat,
    pub window: Seq<nat>,
    pub consecutive_timeouts: nat,
}

impl PingModel {
    /// The statistics of a host that no probe was sent to.
    pub open spec fn initial() -> PingModel {
        PingModel {
            status: PingStatus::NotStarted,
            last_latency: None,
            avg_latency: None,
            min_latency: None,
            max_latency: None,
            packets_sent: 0,
            packets_received: 0,
            packet_loss_percent: 0,
            window: Seq::empty(),
            consecutive_timeouts: 0,
        }
    }

    /// The statistics after one more probe: `Some` round-trip time for a
    /// reply, `None` for a probe that got none.
    pub open spec fn after(self, outcome: Option<nat>) -> PingModel {
        let sent = self.packets_sent + 1;
        match outcome {
            Some(latency) => {
                let window = pushed(self.window, latency);
                let received = self.packets_received + 1;
                PingModel {
                    status: PingStatus::Active,
                    last_latency: Some(latency),
                    avg_latency: Some(mean_of(window)),
                    min_latency: Some(min_of(window)),
                    max_latency: Some(max_of(window)),
                    packets_sent: sent,
                    packets_received: received,
                    packet_loss_percent: percent_of((sent - received) as nat, sent),
                    window,
                    consecutive_timeouts: 0,
                }
            },
            None => {
                let failures = self.consecutive_timeouts + 1;
                PingModel {
                    status: if failures >= UNREACHABLE_AFTER {
                        PingStatus::Unreachable
                    } else {
                        PingStatus::Timeout
                    },
                    last_latency: None,
                    packets_sent: sent,
                    packet_loss_percent: percent_of((sent - self.packets_received) as nat, sent),
                    consecutive_timeouts: failures,
                    ..self
                }
            },
        }
    }

    /// The statistics after a run of probes, the earliest first.
    pub open spec fn after_all(self, outcomes: Seq<Option<nat>>) -> PingModel
        decreases outcomes.len(),
    {
        if outcomes.len() == 0 {
            self
        } else {
            self.after_all(outcomes.drop_last()).after(outcomes.last())
        }
    }

    /// What holds of the statistics at every moment of a session: the
    /// counters agree with each other, the window is within its capacity,
    /// and status, loss and aggregates are those of the counters and of the
    /// window as they stand.
    pub open spec fn wf(self) -> bool {
        &&& self.packets_received <= self.packets_sent
        &&& self.consecutive_timeouts <= self.packets_sent - self.packets_received
        &&& self.window.len() <= MAX_SAMPLES
        &&& self.window.len() <= self.packets_received
        &&& (self.packets_received == 0 <==> self.window.len() == 0)
        &&& (self.packets_sent == 0 <==> self.status == PingStatus::NotStarted)
        &&& self.status == PingStatus::Active <==> self.packets_sent > 0
            && self.consecutive_timeouts == 0
        &&& self.status == PingStatus::Unreachable <==> self.consecutive_timeouts
            >= UNREACHABLE_AFTER
        &&& self.packet_loss_percent == if self.packets_sent == 0 {
            0
        } else {
            percent_of((self.packets_sent - self.packets_received) as nat, self.packets_sent)
        }
        &&& if self.window.len() == 0 {
            self.avg_latency is None && self.min_latency is None && self.max_latency is None
        } else {
            &&& self.avg_latency == Some(mean_of(self.window))
            &&& self.min_latency == Some(min_of(self.window))
            &&& self.max_latency == Some(max_of(self.window))
        }
    }
}

/// The rolling statistics of the echo probes sent to one host.
#[derive(Clone, Debug)]
pub struct PingStats {
    status: PingStatus,
    last_latency: Option<Duration>,
    avg_latency: Option<Duration>,
    min_latency: Option<Duration>,
    max_latency: Option<Duration>,
    packets_sent: u64,
    packets_received: u64,
    packet_loss_percent: Percent,
    last_updated: Timestamp,
    recent_latencies: SampleWindow,
    consecutive_timeouts: u64,
}

impl View for PingStats {
    type V = PingModel;

    closed spec fn view(&self) -> PingModel {
        PingModel {
            status: self.status,
            last_latency: nanos_opt(self.last_latency),
            avg_latency: nanos_opt(self.avg_latency),
            min_latency: nanos_opt(self.min_latency),
            max_latency: nanos_opt(self.max_latency),
            packets_sent: self.packets_sent as nat,
            packets_received: self.packets_received as nat,
            packet_loss_percent: self.packet_loss_percent.hundredths as nat,
            window: self.recent_latencies@,
            consecutive_timeouts: self.consecutive_timeouts as nat,
        }
    }
}

impl Default for PingStats {
    /// The statistics of a host that no probe was sent to, stamped with the
    /// time of the call.
    fn default() -> (s: Self)
        ensures
            s.wf(),
            s@ == PingModel::initial(),
    {
        PingStats {
            status: PingStatus::NotStarted,
            last_latency: None,
            avg_latency: None,
            min_latency: None,
            max_latency: None,
            packets_sent: 0,
            packets_received: 0,
            packet_loss_percent: Percent::zero(),
            last_updated: now(),
            recent_latencies: SampleWindow::new(),
            consecutive_timeouts: 0,
        }
    }
}

impl PingStats {
    /// Whether the statistics are those of some session: the model is well
    /// formed, and every sample of the window is the length of a `Duration`.
    pub closed spec fn wf(&self) -> bool {
        &&& self.recent_latencies.wf()
        &&& self@.wf()
    }

    /// When the statistics were last written.
    pub closed spec fn updated_at(&self) -> Timestamp {
        self.last_updated
    }

    /// Well-formed statistics have a well-formed model, whose counters fit
    /// their machine words.
    pub proof fn lemma_wf(&self)
        requires
            self.wf(),
        ensures
            self@.wf(),
            self@.packets_sent <= u64::MAX,
    {
    }

    /// The statistics of a host that no probe was sent to.
    pub fn new() -> (s: Self)
        ensures
            s.wf(),
            s@ == PingModel::initial(),
    {
        PingStats::default()
    }

    /// Takes in the outcome of one probe, `Some` round-trip time for a
    /// reply and `None` for a probe that got none, and stamps the
    /// statistics with the time of the call.
    pub fn update(&mut self, result: Option<Duration>)
        requires
            old(self).wf(),
            old(self)@.packets_sent < u64::MAX,
        ensures
            final(self).wf(),
            final(self)@ == old(self)@.after(nanos_opt(result)),
    {
        let at = now();
        self.record(result, at);
    }

    /// Takes in the outcome of one probe that completed at `at`.
    pub fn record(&mut self, result: Option<Duration>, at: Timestamp)
        requires
            old(self).wf(),
            old(self)@.packets_sent < u64::MAX,
        ensures
            final(self).wf(),
            final(self)@ == old(self)@.after(nanos_opt(result)),
            final(self).updated_at() == at,
    {
        proof {
            lemma_after_keeps_wf(old(self)@, nanos_opt(result));
        }
        self.packets_sent = self.packets_sent + 1;
        self.last_updated = at;
        match result {
            Some(latency) => {
                self.packets_received = self.packets_received + 1;
                self.last_latency = Some(latency);
                self.consecutive_timeouts = 0;
                self.status = PingStatus::Active;
                self.recent_latencies.push(latency.as_nanos());
                self.calculate_stats();
            },
            None => {
                self.last_latency = None;
                self.consecutive_timeouts = self.consecutive_timeouts + 1;
                if self.consecutive_timeouts >= UNREACHABLE_AFTER {
                    self.status = PingStatus::Unreachable;
                } else {
                    self.status = PingStatus::Timeout;
                }
            },
        }
        if self.packets_sent > 0 {
            self.packet_loss_percent = Percent::of(
                self.packets_sent - self.packets_received,
                self.packets_sent,
            );
        }
    }

    /// Recomputes the average, the minimum and the maximum from the window
    /// as it stands; an empty window leaves them as they are.
    fn calculate_stats(&mut self)
        requires
            old(self).recent_latencies.wf(),
        ensures
            final(self)@ == (if old(self)@.window.len() == 0 {
                old(self)@
            } else {
                PingModel {
                    avg_latency: Some(mean_of(old(self)@.window)),
                    min_latency: Some(min_of(old(self)@.window)),
                    max_latency: Some(max_of(old(self)@.window)),
                    ..old(self)@
                }
            }),
            final(self).recent_latencies == old(self).recent_latencies,
            final(self).last_updated == old(self).last_updated,
    {
        if self.recent_latencies.len() == 0 {
            return ;
        }
        self.avg_latency = duration_of_nanos_opt(self.recent_latencies.mean());
        self.min_latency = duration_of_nanos_opt(self.recent_latencies.min());
        self.max_latency = duration_of_nanos_opt(self.recent_latencies.max());
    }

    /// What the probes say of the host.
    pub fn status(&self) -> (r: PingStatus)
        ensures
            r == self@.status,
    {
        self.status
    }

    /// The round-trip time of the latest probe, if it was answered.
    pub fn last_latency(&self) -> (r: Option<Duration>)
        ensures
            nanos_opt(r) == self@.last_latency,
    {
        self.last_latency
    }

    /// The mean round-trip time over the window.
    pub fn avg_latency(&self) -> (r: Option<Duration>)
        ensures
            nanos_opt(r) == self@.avg_latency,
    {
        self.avg_latency
    }

    /// The shortest round-trip time in the window.
    pub fn min_latency(&self) -> (r: Option<Duration>)
        ensures
            nanos_opt(r) == self@.min_latency,
    {
        self.min_latency
    }

    /// The longest round-trip time in the window.
    pub fn max_latency(&self) -> (r: Option<Duration>)
        ensures
            nanos_opt(r) == self@.max_latency,
    {
        self.max_latency
    }

    /// How many probes were sent.
    pub fn packets_sent(&self) -> (r: u64)
        ensures
            r == self@.packets_sent,
    {
        self.packets_sent
    }

    /// How many probes were answered.
    pub fn packets_received(&self) -> (r: u64)
        ensures
            r == self@.packets_received,
    {
        self.packets_received
    }

    /// The share of the probes sent that got no reply.
    pub fn packet_loss_percent(&self) -> (r: Percent)
        ensures
            r.hundredths == self@.packet_loss_percent,
    {
        self.packet_loss_percent
    }

    /// When the statistics were last written.
    pub fn last_updated(&self) -> (r: Timestamp)
        ensures
            r == self.updated_at(),
    {
        self.last_updated
    }
}

/// Replies: each round-trip time as the outcome of a probe that was
/// answered.
pub open spec fn replies(latencies: Seq<nat>) -> Seq<Option<nat>> {
    latencies.map_values(|d: nat| Some(d))
}

/// `count` probes that got no reply.
pub open spec fn timeouts(count: nat) -> Seq<Option<nat>> {
    Seq::new(count, |i: int| None::<nat>)
}

/// The statistics of a new host are well formed, and every probe keeps them
/// so; no probe lowers a counter, and none brings the status back to
/// `NotStarted`.
pub proof fn lemma_after_keeps_wf(m: PingModel, outcome: Option<nat>)
    requires
        m.wf(),
    ensures
        PingModel::initial().wf(),
        m.after(outcome).wf(),
        m.after(outcome).packets_sent == m.packets_sent + 1,
        m.after(outcome).packets_received >= m.packets_received,
        m.after(outcome).status != PingStatus::NotStarted,
{
    if let Some(latency) = outcome {
        lemma_pushed_len(m.window, latency);
    }
}

/// A run of probes keeps well-formed statistics well formed and counts one
/// packet sent for each.
pub proof fn lemma_after_all_keeps_wf(m: PingModel, outcomes: Seq<Option<nat>>)
    requires
        m.wf(),
    ensures
        m.after_all(outcomes).wf(),
        m.after_all(outcomes).packets_sent == m.packets_sent + outcomes.len(),
        m.after_all(outcomes).packets_received >= m.packets_received,
    decreases outcomes.len(),
{
    if outcomes.len() > 0 {
        lemma_after_all_keeps_wf(m, outcomes.drop_last());
        lemma_after_keeps_wf(m.after_all(outcomes.drop_last()), outcomes.last());
    }
}

/// The round-trip times of the probes of a history that were answered, in
/// order.
pub open spec fn answered(outcomes: Seq<Option<nat>>) -> Seq<nat>
    decreases outcomes.len(),
{
    if outcomes.len() == 0 {
        Seq::empty()
    } else {
        match outcomes.last() {
            Some(latency) => answered(outcomes.drop_last()).push(latency),
            None => answered(outcomes.drop_last()),
        }
    }
}

/// How many probes at the end of a history got no reply, one after the
/// other.
pub open spec fn trailing_timeouts(outcomes: Seq<Option<nat>>) -> nat
    decreases outcomes.len(),
{
    if outcomes.len() == 0 {
        0
    } else {
        match outcomes.last() {
            Some(_) => 0,
            None => trailing_timeouts(outcomes.drop_last()) + 1,
        }
    }
}

/// The status at the end of a history: `NotStarted` before the first probe,
/// `Active` after a reply, and after a probe without one `Unreachable` if
/// it is at least the fifth in a row, else `Timeout`.
pub open spec fn status_after(outcomes: Seq<Option<nat>>) -> PingStatus {
    if outcomes.len() == 0 {
        PingStatus::NotStarted
    } else if outcomes.last() is Some {
        PingStatus::Active
    } else if trailing_timeouts(outcomes) >= UNREACHABLE_AFTER {
        PingStatus::Unreachable
    } else {
        PingStatus::Timeout
    }
}

/// After any history of probes of a new host, with or without failures in
/// between: the window holds the latest `MAX_SAMPLES` round-trip times of
/// the probes that were answered, and never more; average, minimum and
/// maximum are those of the window alone; the counters count the probes and
/// the replies; the failures counted are those since the last reply; and
/// the status is that of the end of the history.
pub proof fn lemma_history(outcomes: Seq<Option<nat>>)
    ensures
        ({
            let m = PingModel::initial().after_all(outcomes);
            let window = tail_of(answered(outcomes));
            &&& m.wf()
            &&& m.window == window
            &&& window.len() <= MAX_SAMPLES
            &&& m.packets_sent == outcomes.len()
            &&& m.packets_received == answered(outcomes).len()
            &&& m.consecutive_timeouts == trailing_timeouts(outcomes)
            &&& m.status == status_after(outcomes)
            &&& m.last_latency == if outcomes.len() > 0 {
                outcomes.last()
            } else {
                None
            }
            &&& window.len() > 0 ==> {
                &&& m.avg_latency == Some(mean_of(window))
                &&& m.min_latency == Some(min_of(window))
                &&& m.max_latency == Some(max_of(window))
            }
            &&& window.len() == 0 ==> {
                &&& m.avg_latency is None
                &&& m.min_latency is None
                &&& m.max_latency is None
            }
        }),
    decreases outcomes.len(),
{
    if outcomes.len() > 0 {
        let front = outcomes.drop_last();
        let before = PingModel::initial().after_all(front);
        lemma_history(front);
        lemma_after_keeps_wf(before, outcomes.last());
        if let Some(latency) = outcomes.last() {
            lemma_pushed_tail(answered(front), latency);
        }
    } else {
        lemma_pushed_tail(Seq::empty(), 0);
    }
}

/// One more probe without reply, after `m.consecutive_timeouts` of them in
/// a row, makes the host `Unreachable` exactly if it is at least the fifth
/// in a row, and leaves it in `Timeout` otherwise; a reply makes the host
/// `Active` and starts the count again.
pub proof fn lemma_next_outcome(m: PingModel, latency: nat)
    ensures
        m.after(None).consecutive_timeouts == m.consecutive_timeouts + 1,
        m.after(None).status == if m.consecutive_timeouts + 1 >= UNREACHABLE_AFTER {
            PingStatus::Unreachable
        } else {
            PingStatus::Timeout
        },
        m.after(None).window == m.window,
        m.after(Some(latency)).consecutive_timeouts == 0,
        m.after(Some(latency)).status == PingStatus::Active,
{
}

/// After nothing but replies to a new host, the window holds the latest
/// `MAX_SAMPLES` round-trip times, every packet sent was received, nothing
/// was lost, and the aggregates are those of the window.
pub proof fn lemma_replies_from_start(latencies: Seq<nat>)
    ensures
        ({
            let m = PingModel::initial().after_all(replies(latencies));
            &&& m.wf()
            &&& m.window == tail_of(latencies)
            &&& m.packets_sent == latencies.len()
            &&& m.packets_received == latencies.len()
            &&& m.packet_loss_percent == 0
            &&& latencies.len() > 0 ==> {
                &&& m.status == PingStatus::Active
                &&& m.last_latency == Some(latencies.last())
                &&& m.avg_latency == Some(mean_of(tail_of(latencies)))
                &&& m.min_latency == Some(min_of(tail_of(latencies)))
                &&& m.max_latency == Some(max_of(tail_of(latencies)))
            }
        }),
    decreases latencies.len(),
{
    if latencies.len() > 0 {
        let front = latencies.drop_last();
        lemma_replies_from_start(front);
        assert(replies(latencies).drop_last() =~= replies(front));
        lemma_pushed_all_is_tail(front);
        lemma_pushed_all_is_tail(latencies);
        lemma_percent_of_range(0, latencies.len());
    }
}

/// After up to `MAX_SAMPLES` replies to a new host, the average, the
/// minimum and the maximum are those of all the round-trip times, every
/// packet sent was received, and the loss is 0 %.
pub proof fn lemma_replies_within_capacity(latencies: Seq<nat>)
    requires
        0 < latencies.len() <= MAX_SAMPLES,
    ensures
        ({
            let m = PingModel::initial().after_all(replies(latencies));
            &&& m.avg_latency == Some(mean_of(latencies))
            &&& m.min_latency == Some(min_of(latencies))
            &&& m.max_latency == Some(max_of(latencies))
            &&& m.packets_sent == latencies.len()
            &&& m.packets_received == latencies.len()
            &&& m.packet_loss_percent == 0
        }),
{
    lemma_replies_from_start(latencies);
}

/// After more replies than the window holds, the window is exactly the last
/// `MAX_SAMPLES` round-trip times, and the aggregates are theirs alone.
pub proof fn lemma_replies_beyond_capacity(latencies: Seq<nat>)
    requires
        latencies.len() > MAX_SAMPLES,
    ensures
        ({
            let m = PingModel::initial().after_all(replies(latencies));
            let latest = latencies.subrange(latencies.len() - MAX_SAMPLES, latencies.len() as int);
            &&& m.window == latest
            &&& m.avg_latency == Some(mean_of(latest))
            &&& m.min_latency == Some(min_of(latest))
            &&& m.max_latency == Some(max_of(latest))
        }),
{
    lemma_replies_from_start(latencies);
}

/// A run of probes without reply adds its length to the count of failures
/// in a row; the host is `Unreachable` once that count has reached
/// `UNREACHABLE_AFTER`, and in `Timeout` before.
pub proof fn lemma_timeouts_in_a_row(m: PingModel, count: nat)
    requires
        count > 0,
    ensures
        ({
            let n = m.after_all(timeouts(count));
            &&& n.consecutive_timeouts == m.consecutive_timeouts + count
            &&& n.status == if m.consecutive_timeouts + count >= UNREACHABLE_AFTER {
                PingStatus::Unreachable
            } else {
                PingStatus::Timeout
            }
        }),
    decreases count,
{
    assert(timeouts(count).drop_last() =~= timeouts((count - 1) as nat));
    assert(timeouts(count).last() == None::<nat>);
    if count > 1 {
        lemma_timeouts_in_a_row(m, (count - 1) as nat);
    } else {
        assert(m.after_all(timeouts(0)) == m);
    }
}

/// Counting from a reply, the host becomes `Unreachable` exactly on the
/// fifth probe without one, and any reply makes it `Active` again at once,
/// with no failure counted.
pub proof fn lemma_unreachable_on_fifth_timeout(m: PingModel, latency: nat, count: nat, next: nat)
    requires
        count > 0,
    ensures
        ({
            let answered = m.after(Some(latency));
            let silent = answered.after_all(timeouts(count));
            &&& answered.status == PingStatus::Active
            &&& answered.consecutive_timeouts == 0
            &&& silent.status == PingStatus::Unreachable <==> count >= 5
            &&& silent.status == PingStatus::Timeout <==> count < 5
            &&& silent.after(Some(next)).status == PingStatus::Active
            &&& silent.after(Some(next)).consecutive_timeouts == 0
        }),
{
    lemma_timeouts_in_a_row(m.after(Some(latency)), count);
}

} // verus!
