use vstd::prelude::*;
use crate::text::{decimal, prefixed, push_decimal};

verus! {

/// Where and how long to wait for the deployed service to answer: the URL
/// to request, how long to keep trying and how long to pause between tries
/// (both in milliseconds).
#[derive(Debug, Clone)]
pub struct HealthCheckSpec {
    pub url: String,
    pub timeout_ms: u64,
    pub poll_interval_ms: u64,
}

/// Why the service was not found healthy: no good answer before the
/// deadline (with the last thing that went wrong), or no HTTP client.
#[derive(Debug)]
pub enum HealthCheckError {
    Timeout { last_error: String },
    Client(String),
}

/// The message of a health-check error.
pub open spec fn health_error_text(e: HealthCheckError) -> Seq<char> {
    match e {
        HealthCheckError::Timeout { last_error } => "健康检查超时，最后一次错误: "@ + last_error@,
        HealthCheckError::Client(m) => "创建 HTTP 客户端失败: "@ + m@,
    }
}

impl HealthCheckError {
    /// The message of the error.
    pub fn message(&self) -> (r: String)
        ensures
            r@ == health_error_text(*self),
    {
        match self {
            HealthCheckError::Timeout { last_error } => prefixed(
                "健康检查超时，最后一次错误: ",
                last_error.as_str(),
            ),
            HealthCheckError::Client(m) => prefixed("创建 HTTP 客户端失败: ", m.as_str()),
        }
    }
}

/// What one request to the health URL gave: an HTTP status, or the reason
/// the request failed.
#[derive(Debug)]
pub enum ProbeOutcome {
    Status(u16),
    Failed(String),
}

/// An HTTP status that counts as healthy: success (2xx) or redirection
/// (3xx), since redirects are not followed.
pub open spec fn healthy_status(status: u16) -> bool {
    200 <= status <= 399
}

/// What the health check last found wrong before any request: nothing was
/// requested yet.
pub open spec fn no_request_yet() -> Seq<char> {
    "未发起请求"@
}

/// The record of a health check in progress: the last thing that went
/// wrong.
#[derive(Debug)]
pub struct HealthPoll {
    pub last_error: String,
}

/// Whether another request is due: the deadline, `timeout_ms` after the
/// start, has not passed.
pub open spec fn probe_due(spec: HealthCheckSpec, elapsed_ms: u64) -> bool {
    elapsed_ms < spec.timeout_ms
}

impl HealthPoll {
    /// A health check that has not requested anything yet.
    pub fn new() -> (r: HealthPoll)
        ensures
            r.last_error@ == no_request_yet(),
    {
        HealthPoll { last_error: "未发起请求".to_owned() }
    }

    /// Whether to request again, `elapsed_ms` after the start.
    pub fn should_probe(spec: &HealthCheckSpec, elapsed_ms: u64) -> (r: bool)
        ensures
            r == probe_due(*spec, elapsed_ms),
    {
        elapsed_ms < spec.timeout_ms
    }

    /// Takes in what a request gave; true when the service is healthy.
    /// Otherwise the poll remembers what went wrong: `HTTP <status>` for a
    /// status that is not healthy, or the request's error.
    pub fn record(&mut self, outcome: ProbeOutcome) -> (healthy: bool)
        ensures
            match outcome {
                ProbeOutcome::Status(s) => {
                    &&& healthy == healthy_status(s)
                    &&& healthy ==> final(self).last_error@ == old(self).last_error@
                    &&& !healthy ==> final(self).last_error@ == "HTTP "@ + decimal(s as nat)
                },
                ProbeOutcome::Failed(m) => !healthy && final(self).last_error@ == m@,
            },
    {
        match outcome {
            ProbeOutcome::Status(s) => {
                if 200 <= s && s <= 399 {
                    true
                } else {
                    let mut text = "HTTP ".to_owned();
                    push_decimal(&mut text, s as u64);
                    self.last_error = text;
                    false
                }
            },
            ProbeOutcome::Failed(m) => {
                self.last_error = m;
                false
            },
        }
    }

    /// The error given when the deadline passes: a timeout that carries the
    /// last thing that went wrong.
    pub fn timeout_error(&self) -> (r: HealthCheckError)
        ensures
            r matches HealthCheckError::Timeout { last_error } && last_error@ == self.last_error@,
    {
        HealthCheckError::Timeout { last_error: self.last_error.clone() }
    }
}

/// A status counts as healthy exactly when it is a success (2xx) or a
/// redirection (3xx): 200 through 399, bounds included, and nothing else.
pub proof fn lemma_healthy_exactly_2xx_3xx(status: u16)
    ensures
        healthy_status(status) <==> (200 <= status && status <= 399),
        (200 <= status && status < 300) ==> healthy_status(status),
        (300 <= status && status < 400) ==> healthy_status(status),
        (status < 200 || status >= 400) ==> !healthy_status(status),
{
}

} // verus!
