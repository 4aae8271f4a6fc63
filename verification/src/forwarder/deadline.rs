//! The time that an attempt has until its first output, on a clock of milliseconds.

use vstd::prelude::*;
use vstd::string::*;
use crate::error::{ProxyError, ProxyErrorView};
use crate::text::{decimal, decimal_text, join, starts_with, has_prefix};

verus! {

/// How long an upstream may take where nothing is configured.
pub const DEFAULT_UPSTREAM_TIMEOUT_MS: u64 = 600_000;

/// The longest that a pooled connection may stream.
pub const LONGEST_STREAM_SECONDS: u64 = 86_400;

/// The time until which an attempt has to show output: headers, body and first output share it.
#[derive(Clone, Copy, Debug, PartialEq, Eq, Structural)]
pub struct PreOutputDeadline {
    /// The time that was configured; zero for none.
    pub configured_ms: u64,
    /// The moment at which it is over.
    pub at_ms: Option<u64>,
}

/// A length of time as it is written: in seconds where it is whole ones.
pub open spec fn duration_text(ms: u64) -> Seq<char> {
    if ms % 1000 == 0 {
        decimal((ms / 1000) as nat) + "s"@
    } else {
        decimal(ms as nat) + "ms"@
    }
}

impl PreOutputDeadline {
    /// Whether the time is over.
    pub open spec fn is_over(self, now_ms: u64) -> bool {
        self.at_ms matches Some(at) && at <= now_ms
    }

    /// The error for a phase in which the time ran out.
    pub open spec fn error_in(self, phase: Seq<char>) -> ProxyErrorView {
        ProxyErrorView::Timeout(
            phase + "超时（输出前总预算 "@ + duration_text(self.configured_ms) + " 已耗尽）"@,
        )
    }

    /// A deadline that far from now, or none where the time is zero.
    pub fn new(configured_ms: u64, now_ms: u64) -> (deadline: PreOutputDeadline)
        requires
            now_ms + configured_ms <= u64::MAX,
        ensures
            deadline.configured_ms == configured_ms,
            deadline.at_ms == if configured_ms == 0 {
                None
            } else {
                Some((now_ms + configured_ms) as u64)
            },
    {
        let at_ms = if configured_ms == 0 {
            None
        } else {
            Some(now_ms + configured_ms)
        };
        PreOutputDeadline { configured_ms, at_ms }
    }

    /// Whether there is a deadline.
    pub fn is_enabled(self) -> (enabled: bool)
        ensures
            enabled == self.at_ms is Some,
    {
        self.at_ms.is_some()
    }

    /// The error for a phase in which the time ran out.
    pub fn timeout_error(self, phase: &str) -> (error: ProxyError)
        ensures
            error@ == self.error_in(phase@),
    {
        let mut text = join(phase, "超时（输出前总预算 ");
        if self.configured_ms % 1000 == 0 {
            text.append(decimal_text(self.configured_ms / 1000).as_str());
            text.append("s");
        } else {
            text.append(decimal_text(self.configured_ms).as_str());
            text.append("ms");
        }
        text.append(" 已耗尽）");
        assert(text@ =~= phase@ + "超时（输出前总预算 "@ + duration_text(self.configured_ms)
            + " 已耗尽）"@);
        ProxyError::Timeout(text)
    }

    /// Whether there is still time.
    pub fn check(self, phase: &str, now_ms: u64) -> (result: Result<(), ProxyError>)
        ensures
            match result {
                Ok(()) => !self.is_over(now_ms),
                Err(error) => self.is_over(now_ms) && error@ == self.error_in(phase@),
            },
    {
        if let Some(at) = self.at_ms {
            if at <= now_ms {
                return Err(self.timeout_error(phase));
            }
        }
        Ok(())
    }

    /// The time that is left, or `fallback_ms` where there is no deadline.
    pub fn remaining_or(self, fallback_ms: u64, phase: &str, now_ms: u64) -> (result: Result<
        u64,
        ProxyError,
    >)
        ensures
            match result {
                Ok(left) => !self.is_over(now_ms) && left == match self.at_ms {
                    Some(at) => at - now_ms,
                    None => fallback_ms as int,
                },
                Err(error) => self.is_over(now_ms) && error@ == self.error_in(phase@),
            },
    {
        match self.at_ms {
            Some(at) => if at <= now_ms {
                Err(self.timeout_error(phase))
            } else {
                Ok(at - now_ms)
            },
            None => Ok(fallback_ms),
        }
    }

    /// How long something may be waited for: without limit where there is no deadline.
    pub fn wait_limit(self, phase: &str, now_ms: u64) -> (result: Result<Option<u64>, ProxyError>)
        ensures
            match result {
                Ok(Some(left)) => self.at_ms matches Some(at) && left == at - now_ms && left > 0,
                Ok(None) => self.at_ms is None,
                Err(error) => self.is_over(now_ms) && error@ == self.error_in(phase@),
            },
    {
        match self.at_ms {
            Some(at) => if at <= now_ms {
                Err(self.timeout_error(phase))
            } else {
                Ok(Some(at - now_ms))
            },
            None => Ok(None),
        }
    }

    /// The error for a body of an error status that did not come in time.
    pub fn body_timeout_error(self, status: u16) -> (error: ProxyError)
        ensures
            error@ == (ProxyErrorView::UpstreamBodyTimeout {
                status,
                timeout_seconds: self.configured_ms / 1000,
            }),
    {
        ProxyError::UpstreamBodyTimeout { status, timeout_seconds: self.configured_ms / 1000 }
    }

    /// How long the body of an error status may be waited for.
    pub fn error_body_limit(self, status: u16, now_ms: u64) -> (result: Result<
        Option<u64>,
        ProxyError,
    >)
        ensures
            match result {
                Ok(Some(left)) => self.at_ms matches Some(at) && left == at - now_ms && left > 0,
                Ok(None) => self.at_ms is None,
                Err(error) => self.is_over(now_ms) && error@ == (
                ProxyErrorView::UpstreamBodyTimeout {
                    status,
                    timeout_seconds: self.configured_ms / 1000,
                }),
            },
    {
        match self.at_ms {
            Some(at) => if at <= now_ms {
                Err(self.body_timeout_error(status))
            } else {
                Ok(Some(at - now_ms))
            },
            None => Ok(None),
        }
    }
}

/// Time only runs out: once a deadline is over it stays over, and as long as there is time left
/// it is not.
pub proof fn deadlines_stay_over(deadline: PreOutputDeadline, now_ms: u64, later_ms: u64)
    requires
        now_ms <= later_ms,
        deadline.is_over(now_ms),
    ensures
        deadline.is_over(later_ms),
{
}

/// How a request is sent.
#[derive(Debug, PartialEq, Eq)]
pub struct SendPlan {
    /// Whether a pooled connection is used, rather than one that keeps the case of the headers.
    pub pooled: bool,
    /// The time that a pooled request has as a whole, in seconds.
    pub request_timeout_seconds: Option<u64>,
    /// The time that the response headers have, in milliseconds.
    pub header_timeout_ms: u64,
    /// Whether only that time limits the wait for the headers, as there is no deadline.
    pub header_timeout_alone: bool,
}

/// The phase in which the response headers are waited for.
pub open spec fn header_phase_text(streaming: bool) -> Seq<char> {
    if streaming {
        "等待流式上游响应头"@
    } else {
        "等待非流式上游响应头"@
    }
}

/// The phase in which the response headers are waited for.
pub fn header_phase(streaming: bool) -> (phase: &'static str)
    ensures
        phase@ == header_phase_text(streaming),
{
    if streaming {
        "等待流式上游响应头"
    } else {
        "等待非流式上游响应头"
    }
}

/// Whether a request goes through a pool: a SOCKS proxy needs one, and so may everything that
/// does not need the case of its headers kept.
pub open spec fn is_pooled(proxy_url: Option<Seq<char>>, preserve_header_case: bool) -> bool {
    ||| !preserve_header_case
    ||| (proxy_url matches Some(url) && has_prefix(url, "socks5"@))
}

/// Decides how a request is sent.
pub fn plan_send(
    non_streaming_timeout_seconds: u64,
    streaming: bool,
    deadline: PreOutputDeadline,
    now_ms: u64,
    proxy_url: Option<&str>,
    preserve_header_case: bool,
) -> (result: Result<SendPlan, ProxyError>)
    requires
        deadline.at_ms is None ==> non_streaming_timeout_seconds * 1000 <= u64::MAX,
    ensures
        match result {
            Ok(plan) => {
                &&& !deadline.is_over(now_ms)
                &&& plan.pooled == is_pooled(
                    match proxy_url {
                        Some(url) => Some(url@),
                        None => None,
                    },
                    preserve_header_case,
                )
                &&& plan.request_timeout_seconds == (if !plan.pooled {
                    None
                } else if streaming {
                    Some(LONGEST_STREAM_SECONDS)
                } else if non_streaming_timeout_seconds > 0 {
                    Some(non_streaming_timeout_seconds)
                } else {
                    None
                })
                &&& plan.header_timeout_ms == (match deadline.at_ms {
                    Some(at) => at - now_ms,
                    None => if non_streaming_timeout_seconds == 0 {
                        DEFAULT_UPSTREAM_TIMEOUT_MS as int
                    } else {
                        non_streaming_timeout_seconds * 1000
                    },
                })
                &&& plan.header_timeout_alone == (streaming && deadline.at_ms is None
                    && plan.pooled)
            },
            Err(error) => deadline.is_over(now_ms) && error@ == deadline.error_in(
                header_phase_text(streaming),
            ),
        },
{
    let fallback: u64 = if deadline.is_enabled() || non_streaming_timeout_seconds == 0 {
        DEFAULT_UPSTREAM_TIMEOUT_MS
    } else {
        non_streaming_timeout_seconds * 1000
    };
    let header_timeout_ms = match deadline.remaining_or(fallback, header_phase(streaming), now_ms) {
        Ok(left) => left,
        Err(error) => {
            return Err(error);
        },
    };
    let socks = match proxy_url {
        Some(url) => starts_with(url, "socks5"),
        None => false,
    };
    let pooled = socks || !preserve_header_case;
    let request_timeout_seconds = if !pooled {
        None
    } else if streaming {
        Some(LONGEST_STREAM_SECONDS)
    } else if non_streaming_timeout_seconds > 0 {
        Some(non_streaming_timeout_seconds)
    } else {
        None
    };
    let header_timeout_alone = pooled && streaming && !deadline.is_enabled();
    Ok(SendPlan { pooled, request_timeout_seconds, header_timeout_ms, header_timeout_alone })
}

/// The error where the response headers of a stream do not come in the time that they have.
pub fn header_timeout_error(header_timeout_ms: u64) -> (error: ProxyError)
    ensures
        error@ == ProxyErrorView::Timeout(
            "流式响应首包超时: "@ + decimal((header_timeout_ms / 1000) as nat)
                + "s（上游未返回响应头）"@,
        ),
{
    let mut text = join("流式响应首包超时: ", decimal_text(header_timeout_ms / 1000).as_str());
    text.append("s（上游未返回响应头）");
    ProxyError::Timeout(text)
}

/// The error where a request could not be sent: a timeout, a refused connection, or anything
/// else. `message` says what happened, without the address.
pub fn send_error(is_timeout: bool, is_connect: bool, message: &str) -> (error: ProxyError)
    ensures
        error@ == (if is_timeout {
            ProxyErrorView::Timeout("上游请求超时: "@ + message@)
        } else if is_connect {
            ProxyErrorView::ForwardFailed("上游连接失败: "@ + message@)
        } else {
            ProxyErrorView::ForwardFailed("上游请求发送失败: "@ + message@)
        }),
{
    if is_timeout {
        ProxyError::Timeout(join("上游请求超时: ", message))
    } else if is_connect {
        ProxyError::ForwardFailed(join("上游连接失败: ", message))
    } else {
        ProxyError::ForwardFailed(join("上游请求发送失败: ", message))
    }
}

/// A deadline is over from its moment on, and not before; without one, time never runs out.
pub proof fn deadlines_are_over_from_their_moment(configured: u64, at: u64, now: u64)
    ensures
        (PreOutputDeadline { configured_ms: configured, at_ms: Some(at) }).is_over(now) <==> now
            >= at,
        !(PreOutputDeadline { configured_ms: configured, at_ms: None }).is_over(now),
{
}

/// The error for a phase that took too long says which phase it was, and how much time there was: in
/// seconds where it was whole ones, else in milliseconds.
pub proof fn timeouts_say_what_took_too_long(seconds: u64, ms: u64, at: Option<u64>, phase: Seq<char>)
    requires
        seconds <= u64::MAX / 1000,
    ensures
        (PreOutputDeadline { configured_ms: (seconds * 1000) as u64, at_ms: at }).error_in(phase)
            == ProxyErrorView::Timeout(
            phase + "超时（输出前总预算 "@ + (decimal(seconds as nat) + "s"@) + " 已耗尽）"@,
        ),
        ms % 1000 != 0 ==> (PreOutputDeadline { configured_ms: ms, at_ms: at }).error_in(phase)
            == ProxyErrorView::Timeout(
            phase + "超时（输出前总预算 "@ + (decimal(ms as nat) + "ms"@) + " 已耗尽）"@,
        ),
{
    assert((seconds * 1000) % 1000 == 0 && (seconds * 1000) / 1000 == seconds as int) by (
        nonlinear_arith);
    let whole = (seconds * 1000) as u64;
    assert(whole == seconds * 1000);
}

/// A request is pooled unless the case of its headers has to be kept; a SOCKS proxy needs a pool all
/// the same.
pub proof fn requests_are_pooled(url: Seq<char>, rest: Seq<char>, preserve: bool)
    ensures
        is_pooled(Some(url), false),
        is_pooled(None, false),
        !is_pooled(None, true),
        is_pooled(Some("socks5"@ + rest), preserve),
        !has_prefix(url, "socks5"@) ==> !is_pooled(Some(url), true),
{
    let all = "socks5"@ + rest;
    assert(all.subrange(0, "socks5"@.len() as int) =~= "socks5"@);
}

/// The wait for headers is called by whether the answer streams.
pub proof fn waits_for_headers_are_named(streaming: bool)
    ensures
        streaming ==> header_phase_text(streaming) == "等待流式上游响应头"@,
        !streaming ==> header_phase_text(streaming) == "等待非流式上游响应头"@,
{
}

/// How a request is sent: through a pool unless the case of its headers has to be kept; a pooled
/// stream has a day, any other pooled request what is configured; and the headers have what is left
/// until the deadline, or what is configured, or ten minutes.
pub proof fn requests_are_sent_in_time(
    seconds: u64,
    streaming: bool,
    deadline: PreOutputDeadline,
    now: u64,
    url: Option<&str>,
    preserve: bool,
    result: Result<SendPlan, ProxyError>,
)
    requires
        call_ensures(plan_send, (seconds, streaming, deadline, now, url, preserve), result),
    ensures
        deadline.at_ms matches Some(at) ==> (result is Ok <==> at > now),
        deadline.at_ms is None ==> result is Ok,
        result matches Ok(plan) ==> {
            &&& deadline.at_ms matches Some(at) ==> plan.header_timeout_ms == at - now
            &&& deadline.at_ms is None && seconds > 0 ==> plan.header_timeout_ms == seconds * 1000
            &&& deadline.at_ms is None && seconds == 0 ==> plan.header_timeout_ms == 600_000
            &&& !preserve ==> plan.pooled
            &&& preserve && url is None ==> !plan.pooled
            &&& !plan.pooled ==> plan.request_timeout_seconds is None && !plan.header_timeout_alone
            &&& plan.pooled && streaming ==> plan.request_timeout_seconds == Some(86_400u64)
            &&& plan.pooled && !streaming && seconds > 0 ==> plan.request_timeout_seconds == Some(
                seconds,
            )
            &&& plan.pooled && !streaming && seconds == 0 ==> plan.request_timeout_seconds is None
        },
{
}

/// A request that could not be sent took too long, was not connected, or failed otherwise, in this
/// order, and says so.
pub proof fn failed_sends_say_why(
    is_timeout: bool,
    is_connect: bool,
    message: &str,
    error: ProxyError,
)
    requires
        call_ensures(send_error, (is_timeout, is_connect, message), error),
    ensures
        is_timeout ==> error@ == ProxyErrorView::Timeout("上游请求超时: "@ + message@),
        !is_timeout && is_connect ==> error@ == ProxyErrorView::ForwardFailed(
            "上游连接失败: "@ + message@,
        ),
        !is_timeout && !is_connect ==> error@ == ProxyErrorView::ForwardFailed(
            "上游请求发送失败: "@ + message@,
        ),
{
}

/// A deadline lies as far ahead as is configured, and there is none where nothing is.
pub proof fn deadlines_lie_ahead(configured: u64, now: u64, deadline: PreOutputDeadline)
    requires
        now + configured <= u64::MAX,
        call_ensures(PreOutputDeadline::new, (configured, now), deadline),
    ensures
        configured == 0 ==> deadline.at_ms is None,
        configured > 0 ==> deadline.at_ms == Some((now + configured) as u64) && !deadline.is_over(
            now,
        ),
        deadline.configured_ms == configured,
{
}

} // verus!
