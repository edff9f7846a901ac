//! Rolling statistics of the HTTP probes sent to one host.

use crate::ratio::{percent_of, Percent};
use crate::timing::{duration_nanos, duration_of_nanos_opt, nanos_opt, now, Timestamp};
use crate::window::{
    lemma_pushed_len, lemma_pushed_tail, max_of, mean_of, min_of, pushed, tail_of, SampleWindow,
    MAX_SAMPLES,
};
use std::time::Duration;
use vstd::prelude::*;

verus! {

/// What the HTTP probes say of a host.
#[derive(Clone, Copy, Debug, PartialEq, Eq, Structural)]
pub enum HttpStatus {
    NotStarted,
    Success,
    ClientError,
    ServerError,
    NetworkError,
}

/// The status that a response with the given code stands for: a client
/// error for 400 to 499, a server error for 500 to 599, and success for
/// every other code, since the host answered.
pub open spec fn status_of_code(code: u16) -> HttpStatus {
    if 400 <= code <= 499 {
        HttpStatus::ClientError
    } else if 500 <= code <= 599 {
        HttpStatus::ServerError
    } else {
        HttpStatus::Success
    }
}

/// The status after a probe: that of the code of the response, or a network
/// error where no response came.
pub open spec fn status_of_outcome(status_code: Option<u16>) -> HttpStatus {
    match status_code {
        Some(code) => status_of_code(code),
        None => HttpStatus::NetworkError,
    }
}

/// The text of an optional string.
pub open spec fn text_opt(s: Option<String>) -> Option<Seq<char>> {
    match s {
        Some(s) => Some(s@),
        None => None,
    }
}

/// The statistics of one host as mathematical values: durations in
/// nanoseconds, the success rate in hundredths of a percent.
pub struct HttpModel {
    pub status: HttpStatus,
    pub last_response_time: Option<nat>,
    pub avg_response_time: Option<nat>,
    pub min_response_time: Option<nat>,
    pub max_response_time: Option<nat>,
    pub last_status_code: Option<u16>,
    pub last_content_size: Option<u64>,
    pub last_error: Option<Seq<char>>,
    pub requests_sent: nat,
    pub requests_successful: nat,
    pub success_rate_percent: nat,
    pub window: Seq<nat>,
}

impl HttpModel {
    /// The statistics of a host that no request was sent to.
    pub open spec fn initial() -> HttpModel {
        HttpModel {
            status: HttpStatus::NotStarted,
            last_response_time: None,
            avg_response_time: None,
            min_response_time: None,
            max_response_time: None,
            last_status_code: None,
            last_content_size: None,
            last_error: None,
            requests_sent: 0,
            requests_successful: 0,
            success_rate_percent: 0,
            window: Seq::empty(),
        }
    }

    /// The statistics after one more request that took `response_time`: a
    /// response counts as successful whatever its code, and only the time
    /// of a response enters the window.
    pub open spec fn after(
        self,
        status_code: Option<u16>,
        response_time: nat,
        content_size: Option<u64>,
        error: Option<Seq<char>>,
    ) -> HttpModel {
        let sent = self.requests_sent + 1;
        match status_code {
            Some(code) => {
                let window = pushed(self.window, response_time);
                let successful = self.requests_successful + 1;
                HttpModel {
                    status: status_of_code(code),
                    last_response_time: Some(response_time),
                    avg_response_time: Some(mean_of(window)),
                    min_response_time: Some(min_of(window)),
                    max_response_time: Some(max_of(window)),
                    last_status_code: Some(code),
                    last_content_size: content_size,
                    last_error: error,
                    requests_sent: sent,
                    requests_successful: successful,
                    success_rate_percent: percent_of(successful, sent),
                    window,
                }
            },
            None => HttpModel {
                status: HttpStatus::NetworkError,
                last_response_time: Some(response_time),
                last_status_code: None,
                last_content_size: content_size,
                last_error: error,
                requests_sent: sent,
                success_rate_percent: percent_of(self.requests_successful, sent),
                ..self
            },
        }
    }

    /// What holds of the statistics at every moment of a session: the
    /// counters agree with each other, the window is within its capacity,
    /// and status, success rate and aggregates are those of the latest
    /// outcome, of the counters and of the window as they stand.
    pub open spec fn wf(self) -> bool {
        &&& self.requests_successful <= self.requests_sent
        &&& self.window.len() <= MAX_SAMPLES
        &&& self.window.len() <= self.requests_successful
        &&& (self.requests_successful == 0 <==> self.window.len() == 0)
        &&& (self.requests_sent == 0 <==> self.status == HttpStatus::NotStarted)
        &&& (self.requests_sent == 0 <==> self.last_response_time is None)
        &&& self.requests_sent > 0 ==> self.status == status_of_outcome(self.last_status_code)
        &&& self.success_rate_percent == if self.requests_sent == 0 {
            0
        } else {
            percent_of(self.requests_successful, self.requests_sent)
        }
        &&& if self.window.len() == 0 {
            &&& self.avg_response_time is None
            &&& self.min_response_time is None
            &&& self.max_response_time is None
        } else {
            &&& self.avg_response_time == Some(mean_of(self.window))
            &&& self.min_response_time == Some(min_of(self.window))
            &&& self.max_response_time == Some(max_of(self.window))
        }
    }
}

/// The statistics of a new host are well formed, and every request keeps
/// them so; no request lowers a counter, none brings the status back to
/// `NotStarted`, and a request without response leaves the window and its
/// aggregates as they were.
pub proof fn lemma_after_keeps_wf(
    m: HttpModel,
    status_code: Option<u16>,
    response_time: nat,
    content_size: Option<u64>,
    error: Option<Seq<char>>,
)
    requires
        m.wf(),
    ensures
        HttpModel::initial().wf(),
        m.after(status_code, response_time, content_size, error).wf(),
        m.after(status_code, response_time, content_size, error).requests_sent == m.requests_sent
            + 1,
        m.after(status_code, response_time, content_size, error).requests_successful
            >= m.requests_successful,
        m.after(status_code, response_time, content_size, error).status != HttpStatus::NotStarted,
        status_code is None ==> {
            let n = m.after(status_code, response_time, content_size, error);
            &&& n.window == m.window
            &&& n.avg_response_time == m.avg_response_time
            &&& n.min_response_time == m.min_response_time
            &&& n.max_response_time == m.max_response_time
        },
{
    if status_code is Some {
        lemma_pushed_len(m.window, response_time);
    }
}

/// What one request gave: the code of the response if one came, the time
/// the request took, the content length the response declared, and the text
/// of the failure if none came.
pub struct HttpStep {
    pub status_code: Option<u16>,
    pub response_time: nat,
    pub content_size: Option<u64>,
    pub error: Option<Seq<char>>,
}

impl HttpModel {
    /// The statistics after one more request.
    pub open spec fn after_step(self, step: HttpStep) -> HttpModel {
        self.after(step.status_code, step.response_time, step.content_size, step.error)
    }

    /// The statistics after a history of requests, the earliest first.
    pub open spec fn after_all(self, steps: Seq<HttpStep>) -> HttpModel
        decreases steps.len(),
    {
        if steps.len() == 0 {
            self
        } else {
            self.after_all(steps.drop_last()).after_step(steps.last())
        }
    }
}

/// The times of the requests of a history that got a response, in order.
pub open spec fn answered_times(steps: Seq<HttpStep>) -> Seq<nat>
    decreases steps.len(),
{
    if steps.len() == 0 {
        Seq::empty()
    } else if steps.last().status_code is Some {
        answered_times(steps.drop_last()).push(steps.last().response_time)
    } else {
        answered_times(steps.drop_last())
    }
}

/// After any history of requests to a new host, with or without failures
/// in between: the window holds the times of the latest `MAX_SAMPLES`
/// requests that got a response, and never more; average, minimum and
/// maximum are those of the window alone; the counters count the requests
/// and the responses; and status, code, size and error are those of the
/// latest request.
pub proof fn lemma_history(steps: Seq<HttpStep>)
    ensures
        ({
            let m = HttpModel::initial().after_all(steps);
            let window = tail_of(answered_times(steps));
            &&& m.wf()
            &&& m.window == window
            &&& window.len() <= MAX_SAMPLES
            &&& m.requests_sent == steps.len()
            &&& m.requests_successful == answered_times(steps).len()
            &&& steps.len() > 0 ==> {
                &&& m.status == status_of_outcome(steps.last().status_code)
                &&& m.last_status_code == steps.last().status_code
                &&& m.last_content_size == steps.last().content_size
                &&& m.last_error == steps.last().error
                &&& m.last_response_time == Some(steps.last().response_time)
            }
            &&& window.len() > 0 ==> {
                &&& m.avg_response_time == Some(mean_of(window))
                &&& m.min_response_time == Some(min_of(window))
                &&& m.max_response_time == Some(max_of(window))
            }
            &&& window.len() == 0 ==> {
                &&& m.avg_response_time is None
                &&& m.min_response_time is None
                &&& m.max_response_time is None
            }
        }),
    decreases steps.len(),
{
    if steps.len() > 0 {
        let front = steps.drop_last();
        let last = steps.last();
        let before = HttpModel::initial().after_all(front);
        lemma_history(front);
        lemma_after_keeps_wf(
            before,
            last.status_code,
            last.response_time,
            last.content_size,
            last.error,
        );
        if last.status_code is Some {
            lemma_pushed_tail(answered_times(front), last.response_time);
        }
    } else {
        lemma_pushed_tail(Seq::empty(), 0);
    }
}

/// The rolling statistics of the HTTP probes sent to one host.
#[derive(Clone, Debug)]
pub struct HttpStats {
    status: HttpStatus,
    last_response_time: Option<Duration>,
    avg_response_time: Option<Duration>,
    min_response_time: Option<Duration>,
    max_response_time: Option<Duration>,
    last_status_code: Option<u16>,
    last_content_size: Option<u64>,
    last_error: Option<String>,
    requests_sent: u64,
    requests_successful: u64,
    success_rate_percent: Percent,
    last_updated: Timestamp,
    recent_times: SampleWindow,
}

impl View for HttpStats {
    type V = HttpModel;

    closed spec fn view(&self) -> HttpModel {
        HttpModel {
            status: self.status,
            last_response_time: nanos_opt(self.last_response_time),
            avg_response_time: nanos_opt(self.avg_response_time),
            min_response_time: nanos_opt(self.min_response_time),
            max_response_time: nanos_opt(self.max_response_time),
            last_status_code: self.last_status_code,
            last_content_size: self.last_content_size,
            last_error: text_opt(self.last_error),
            requests_sent: self.requests_sent as nat,
            requests_successful: self.requests_successful as nat,
            success_rate_percent: self.success_rate_percent.hundredths as nat,
            window: self.recent_times@,
        }
    }
}

impl Default for HttpStats {
    /// The statistics of a host that no request was sent to, stamped with
    /// the time of the call.
    fn default() -> (s: Self)
        ensures
            s.wf(),
            s@ == HttpModel::initial(),
    {
        HttpStats {
            status: HttpStatus::NotStarted,
            last_response_time: None,
            avg_response_time: None,
            min_response_time: None,
            max_response_time: None,
            last_status_code: None,
            last_content_size: None,
            last_error: None,
            requests_sent: 0,
            requests_successful: 0,
            success_rate_percent: Percent::zero(),
            last_updated: now(),
            recent_times: SampleWindow::new(),
        }
    }
}

/// The status that the outcome of a probe stands for.
pub fn status_for(status_code: Option<u16>) -> (status: HttpStatus)
    ensures
        status == status_of_outcome(status_code),
{
    match status_code {
        Some(code) => {
            if 400 <= code && code <= 499 {
                HttpStatus::ClientError
            } else if 500 <= code && code <= 599 {
                HttpStatus::ServerError
            } else {
                HttpStatus::Success
            }
        },
        None => HttpStatus::NetworkError,
    }
}

impl HttpStats {
    /// Whether the statistics are those of some session: the model is well
    /// formed, and every sample of the window is the length of a `Duration`.
    pub closed spec fn wf(&self) -> bool {
        &&& self.recent_times.wf()
        &&& self@.wf()
    }

    /// When the statistics were last written.
    pub closed spec fn updated_at(&self) -> Timestamp {
        self.last_updated
    }

    /// Well-formed statistics have a well-formed model, whose counters fit
    /// their machine words.
    pub proof fn lemma_wf(&self)
        requires
            self.wf(),
        ensures
            self@.wf(),
            self@.requests_sent <= u64::MAX,
    {
    }

    /// The statistics of a host that no request was sent to.
    pub fn new() -> (s: Self)
        ensures
            s.wf(),
            s@ == HttpModel::initial(),
    {
        HttpStats::default()
    }

    /// Takes in the outcome of one request and stamps the statistics with
    /// the time of the call. `status_code` is the code of the response, or
    /// `None` where the transport failed and `error` says how.
    pub fn update(
        &mut self,
        status_code: Option<u16>,
        response_time: Duration,
        content_size: Option<u64>,
        error: Option<String>,
    )
        requires
            old(self).wf(),
            old(self)@.requests_sent < u64::MAX,
        ensures
            final(self).wf(),
            final(self)@ == old(self)@.after(
                status_code,
                duration_nanos(response_time),
                content_size,
                text_opt(error),
            ),
    {
        let at = now();
        self.record(status_code, response_time, content_size, error, at);
    }

    /// Takes in the outcome of one request that completed at `at`.
    pub fn record(
        &mut self,
        status_code: Option<u16>,
        response_time: Duration,
        content_size: Option<u64>,
        error: Option<String>,
        at: Timestamp,
    )
        requires
            old(self).wf(),
            old(self)@.requests_sent < u64::MAX,
        ensures
            final(self).wf(),
            final(self)@ == old(self)@.after(
                status_code,
                duration_nanos(response_time),
                content_size,
                text_opt(error),
            ),
            final(self).updated_at() == at,
    {
        proof {
            lemma_after_keeps_wf(
                old(self)@,
                status_code,
                duration_nanos(response_time),
                content_size,
                text_opt(error),
            );
        }
        self.requests_sent = self.requests_sent + 1;
        self.last_updated = at;
        self.last_response_time = Some(response_time);
        self.last_content_size = content_size;
        self.last_error = error;
        self.status = status_for(status_code);
        match status_code {
            Some(code) => {
                self.last_status_code = Some(code);
                self.requests_successful = self.requests_successful + 1;
                self.recent_times.push(response_time.as_nanos());
                self.calculate_stats();
            },
            None => {
                self.last_status_code = None;
            },
        }
        if self.requests_sent > 0 {
            self.success_rate_percent = Percent::of(self.requests_successful, self.requests_sent);
        }
    }

    /// Recomputes the average, the minimum and the maximum from the window
    /// as it stands; an empty window leaves them as they are.
    fn calculate_stats(&mut self)
        requires
            old(self).recent_times.wf(),
        ensures
            final(self)@ == (if old(self)@.window.len() == 0 {
                old(self)@
            } else {
                HttpModel {
                    avg_response_time: Some(mean_of(old(self)@.window)),
                    min_response_time: Some(min_of(old(self)@.window)),
                    max_response_time: Some(max_of(old(self)@.window)),
                    ..old(self)@
                }
            }),
            final(self).recent_times == old(self).recent_times,
            final(self).last_updated == old(self).last_updated,
    {
        if self.recent_times.len() == 0 {
            return ;
        }
        self.avg_response_time = duration_of_nanos_opt(self.recent_times.mean());
        self.min_response_time = duration_of_nanos_opt(self.recent_times.min());
        self.max_response_time = duration_of_nanos_opt(self.recent_times.max());
    }

    /// What the probes say of the host.
    pub fn status(&self) -> (r: HttpStatus)
        ensures
            r == self@.status,
    {
        self.status
    }

    /// How long the latest request took.
    pub fn last_response_time(&self) -> (r: Option<Duration>)
        ensures
            nanos_opt(r) == self@.last_response_time,
    {
        self.last_response_time
    }

    /// The mean response time over the window.
    pub fn avg_response_time(&self) -> (r: Option<Duration>)
        ensures
            nanos_opt(r) == self@.avg_response_time,
    {
        self.avg_response_time
    }

    /// The shortest response time in the window.
    pub fn min_response_time(&self) -> (r: Option<Duration>)
        ensures
            nanos_opt(r) == self@.min_response_time,
    {
        self.min_response_time
    }

    /// The longest response time in the window.
    pub fn max_response_time(&self) -> (r: Option<Duration>)
        ensures
            nanos_opt(r) == self@.max_response_time,
    {
        self.max_response_time
    }

    /// The code of the latest response; `None` where the latest request got
    /// none.
    pub fn last_status_code(&self) -> (r: Option<u16>)
        ensures
            r == self@.last_status_code,
    {
        self.last_status_code
    }

    /// The content length that the latest response declared.
    pub fn last_content_size(&self) -> (r: Option<u64>)
        ensures
            r == self@.last_content_size,
    {
        self.last_content_size
    }

    /// How the latest request failed, where it did.
    pub fn last_error(&self) -> (r: &Option<String>)
        ensures
            text_opt(*r) == self@.last_error,
    {
        &self.last_error
    }

    /// How many requests were sent.
    pub fn requests_sent(&self) -> (r: u64)
        ensures
            r == self@.requests_sent,
    {
        self.requests_sent
    }

    /// How many requests got a response.
    pub fn requests_successful(&self) -> (r: u64)
        ensures
            r == self@.requests_successful,
    {
        self.requests_successful
    }

    /// The share of the requests sent that got a response.
    pub fn success_rate_percent(&self) -> (r: Percent)
        ensures
            r.hundredths == self@.success_rate_percent,
    {
        self.success_rate_percent
    }

    /// When the statistics were last written.
    pub fn last_updated(&self) -> (r: Timestamp)
        ensures
            r == self.updated_at(),
    {
        self.last_updated
    }
}

} // verus!
