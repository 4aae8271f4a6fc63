//! What can go wrong with a proxied request.

use vstd::prelude::*;
use vstd::string::*;
use crate::text::{decimal, decimal_text, join, opt_view};

verus! {

/// Why a request could not be served.
#[derive(Debug, PartialEq, Eq)]
pub enum ProxyError {
    /// The upstream answered with an error status, and perhaps a body.
    UpstreamError { status: u16, body: Option<String> },
    /// The upstream answered with an error status and did not finish its body in time.
    UpstreamBodyTimeout { status: u16, timeout_seconds: u64 },
    Timeout(String),
    StreamIdleTimeout(u64),
    ForwardFailed(String),
    ProviderUnhealthy(String),
    TransformError(String),
    ConfigError(String),
    AuthError(String),
    DatabaseError(String),
    InvalidRequest(String),
    Internal(String),
    ResponseBodyTooLarge(usize),
    NoAvailableProvider,
    AllProvidersCircuitOpen,
    NoProvidersConfigured,
    MaxRetriesExceeded,
}

/// A proxy error as a mathematical value.
pub enum ProxyErrorView {
    UpstreamError { status: u16, body: Option<Seq<char>> },
    UpstreamBodyTimeout { status: u16, timeout_seconds: u64 },
    Timeout(Seq<char>),
    StreamIdleTimeout(u64),
    ForwardFailed(Seq<char>),
    ProviderUnhealthy(Seq<char>),
    TransformError(Seq<char>),
    ConfigError(Seq<char>),
    AuthError(Seq<char>),
    DatabaseError(Seq<char>),
    InvalidRequest(Seq<char>),
    Internal(Seq<char>),
    ResponseBodyTooLarge(usize),
    NoAvailableProvider,
    AllProvidersCircuitOpen,
    NoProvidersConfigured,
    MaxRetriesExceeded,
}

impl View for ProxyError {
    type V = ProxyErrorView;

    open spec fn view(&self) -> ProxyErrorView {
        match self {
            ProxyError::UpstreamError { status, body } => ProxyErrorView::UpstreamError {
                status: *status,
                body: opt_view(*body),
            },
            ProxyError::UpstreamBodyTimeout { status, timeout_seconds } => {
                ProxyErrorView::UpstreamBodyTimeout {
                    status: *status,
                    timeout_seconds: *timeout_seconds,
                }
            },
            ProxyError::Timeout(message) => ProxyErrorView::Timeout(message@),
            ProxyError::StreamIdleTimeout(seconds) => ProxyErrorView::StreamIdleTimeout(*seconds),
            ProxyError::ForwardFailed(message) => ProxyErrorView::ForwardFailed(message@),
            ProxyError::ProviderUnhealthy(message) => ProxyErrorView::ProviderUnhealthy(message@),
            ProxyError::TransformError(message) => ProxyErrorView::TransformError(message@),
            ProxyError::ConfigError(message) => ProxyErrorView::ConfigError(message@),
            ProxyError::AuthError(message) => ProxyErrorView::AuthError(message@),
            ProxyError::DatabaseError(message) => ProxyErrorView::DatabaseError(message@),
            ProxyError::InvalidRequest(message) => ProxyErrorView::InvalidRequest(message@),
            ProxyError::Internal(message) => ProxyErrorView::Internal(message@),
            ProxyError::ResponseBodyTooLarge(size) => ProxyErrorView::ResponseBodyTooLarge(*size),
            ProxyError::NoAvailableProvider => ProxyErrorView::NoAvailableProvider,
            ProxyError::AllProvidersCircuitOpen => ProxyErrorView::AllProvidersCircuitOpen,
            ProxyError::NoProvidersConfigured => ProxyErrorView::NoProvidersConfigured,
            ProxyError::MaxRetriesExceeded => ProxyErrorView::MaxRetriesExceeded,
        }
    }
}

impl ProxyErrorView {
    /// The error as a text.
    pub open spec fn message(self) -> Seq<char> {
        match self {
            ProxyErrorView::UpstreamError { status, body } => {
                let head = "上游错误 (状态码 "@ + decimal(status as nat) + ")"@;
                match body {
                    Some(body) => head + ": "@ + body,
                    None => head,
                }
            },
            ProxyErrorView::UpstreamBodyTimeout { status, timeout_seconds } => "上游错误 (状态码 "@
                + decimal(status as nat) + ") 响应体读取超时: "@ + decimal(timeout_seconds as nat)
                + "s"@,
            ProxyErrorView::Timeout(message) => "超时: "@ + message,
            ProxyErrorView::StreamIdleTimeout(seconds) => "流式响应静默超时: "@ + decimal(
                seconds as nat,
            ) + "s"@,
            ProxyErrorView::ForwardFailed(message) => "请求转发失败: "@ + message,
            ProxyErrorView::ProviderUnhealthy(message) => "Provider 不健康: "@ + message,
            ProxyErrorView::TransformError(message) => "格式转换错误: "@ + message,
            ProxyErrorView::ConfigError(message) => "配置错误: "@ + message,
            ProxyErrorView::AuthError(message) => "认证失败: "@ + message,
            ProxyErrorView::DatabaseError(message) => "数据库错误: "@ + message,
            ProxyErrorView::InvalidRequest(message) => "无效的请求: "@ + message,
            ProxyErrorView::Internal(message) => "内部错误: "@ + message,
            ProxyErrorView::ResponseBodyTooLarge(size) => "上游响应体超过大小上限: "@ + decimal(
                size as nat,
            ) + " 字节"@,
            ProxyErrorView::NoAvailableProvider => "无可用的 Provider"@,
            ProxyErrorView::AllProvidersCircuitOpen => "所有供应商已熔断，无可用渠道"@,
            ProxyErrorView::NoProvidersConfigured => "未配置供应商"@,
            ProxyErrorView::MaxRetriesExceeded => "超过最大重试次数"@,
        }
    }
}

fn with_number(head: &str, number: u64, tail: &str) -> (text: String)
    ensures
        text@ == head@ + decimal(number as nat) + tail@,
{
    let mut text = join(head, decimal_text(number).as_str());
    text.append(tail);
    text
}

impl ProxyError {
    /// A copy of the error.
    pub fn copy(&self) -> (same: ProxyError)
        ensures
            same@ == self@,
    {
        match self {
            ProxyError::UpstreamError { status, body } => ProxyError::UpstreamError {
                status: *status,
                body: match body {
                    Some(body) => Some(body.clone()),
                    None => None,
                },
            },
            ProxyError::UpstreamBodyTimeout { status, timeout_seconds } => {
                ProxyError::UpstreamBodyTimeout {
                    status: *status,
                    timeout_seconds: *timeout_seconds,
                }
            },
            ProxyError::Timeout(message) => ProxyError::Timeout(message.clone()),
            ProxyError::StreamIdleTimeout(seconds) => ProxyError::StreamIdleTimeout(*seconds),
            ProxyError::ForwardFailed(message) => ProxyError::ForwardFailed(message.clone()),
            ProxyError::ProviderUnhealthy(message) => ProxyError::ProviderUnhealthy(message.clone()),
            ProxyError::TransformError(message) => ProxyError::TransformError(message.clone()),
            ProxyError::ConfigError(message) => ProxyError::ConfigError(message.clone()),
            ProxyError::AuthError(message) => ProxyError::AuthError(message.clone()),
            ProxyError::DatabaseError(message) => ProxyError::DatabaseError(message.clone()),
            ProxyError::InvalidRequest(message) => ProxyError::InvalidRequest(message.clone()),
            ProxyError::Internal(message) => ProxyError::Internal(message.clone()),
            ProxyError::ResponseBodyTooLarge(size) => ProxyError::ResponseBodyTooLarge(*size),
            ProxyError::NoAvailableProvider => ProxyError::NoAvailableProvider,
            ProxyError::AllProvidersCircuitOpen => ProxyError::AllProvidersCircuitOpen,
            ProxyError::NoProvidersConfigured => ProxyError::NoProvidersConfigured,
            ProxyError::MaxRetriesExceeded => ProxyError::MaxRetriesExceeded,
        }
    }

    /// The error as a text.
    pub fn message(&self) -> (text: String)
        ensures
            text@ == self@.message(),
    {
        match self {
            ProxyError::UpstreamError { status, body } => {
                let head = with_number("上游错误 (状态码 ", *status as u64, ")");
                match body {
                    Some(body) => {
                        let mut text = join(head.as_str(), ": ");
                        text.append(body.as_str());
                        text
                    },
                    None => head,
                }
            },
            ProxyError::UpstreamBodyTimeout { status, timeout_seconds } => {
                let head = with_number(
                    "上游错误 (状态码 ",
                    *status as u64,
                    ") 响应体读取超时: ",
                );
                with_number(head.as_str(), *timeout_seconds, "s")
            },
            ProxyError::Timeout(message) => join("超时: ", message.as_str()),
            ProxyError::StreamIdleTimeout(seconds) => with_number(
                "流式响应静默超时: ",
                *seconds,
                "s",
            ),
            ProxyError::ForwardFailed(message) => join("请求转发失败: ", message.as_str()),
            ProxyError::ProviderUnhealthy(message) => join("Provider 不健康: ", message.as_str()),
            ProxyError::TransformError(message) => join("格式转换错误: ", message.as_str()),
            ProxyError::ConfigError(message) => join("配置错误: ", message.as_str()),
            ProxyError::AuthError(message) => join("认证失败: ", message.as_str()),
            ProxyError::DatabaseError(message) => join("数据库错误: ", message.as_str()),
            ProxyError::InvalidRequest(message) => join("无效的请求: ", message.as_str()),
            ProxyError::Internal(message) => join("内部错误: ", message.as_str()),
            ProxyError::ResponseBodyTooLarge(size) => with_number(
                "上游响应体超过大小上限: ",
                *size as u64,
                " 字节",
            ),
            ProxyError::NoAvailableProvider => "无可用的 Provider".to_owned(),
            ProxyError::AllProvidersCircuitOpen => "所有供应商已熔断，无可用渠道".to_owned(),
            ProxyError::NoProvidersConfigured => "未配置供应商".to_owned(),
            ProxyError::MaxRetriesExceeded => "超过最大重试次数".to_owned(),
        }
    }
}

/// Why the application's own state stands in the way of a request.
#[derive(Debug, PartialEq, Eq)]
pub enum AppError {
    AllProvidersCircuitOpen,
    NoProvidersConfigured,
    InvalidInput(String),
    Config(String),
    Message(String),
}

/// An application error as a mathematical value.
pub enum AppErrorView {
    AllProvidersCircuitOpen,
    NoProvidersConfigured,
    InvalidInput(Seq<char>),
    Config(Seq<char>),
    Message(Seq<char>),
}

impl View for AppError {
    type V = AppErrorView;

    open spec fn view(&self) -> AppErrorView {
        match self {
            AppError::AllProvidersCircuitOpen => AppErrorView::AllProvidersCircuitOpen,
            AppError::NoProvidersConfigured => AppErrorView::NoProvidersConfigured,
            AppError::InvalidInput(message) => AppErrorView::InvalidInput(message@),
            AppError::Config(message) => AppErrorView::Config(message@),
            AppError::Message(message) => AppErrorView::Message(message@),
        }
    }
}

impl AppErrorView {
    /// The error as a text.
    pub open spec fn message(self) -> Seq<char> {
        match self {
            AppErrorView::AllProvidersCircuitOpen => "所有供应商已熔断，无可用渠道"@,
            AppErrorView::NoProvidersConfigured => "未配置供应商"@,
            AppErrorView::InvalidInput(message) => "无效输入: "@ + message,
            AppErrorView::Config(message) => "配置错误: "@ + message,
            AppErrorView::Message(message) => message,
        }
    }
}

impl AppError {
    /// The error as a text.
    pub fn message(&self) -> (text: String)
        ensures
            text@ == self@.message(),
    {
        match self {
            AppError::AllProvidersCircuitOpen => "所有供应商已熔断，无可用渠道".to_owned(),
            AppError::NoProvidersConfigured => "未配置供应商".to_owned(),
            AppError::InvalidInput(message) => join("无效输入: ", message.as_str()),
            AppError::Config(message) => join("配置错误: ", message.as_str()),
            AppError::Message(message) => message.clone(),
        }
    }
}

/// Whether another provider may help with an error.
#[derive(Debug, Clone, Copy, PartialEq, Eq, Structural)]
pub enum ErrorCategory {
    /// The provider's own trouble: another one may do better.
    Retryable,
    /// The request's trouble: no provider can help.
    NonRetryable,
    /// The client went away.
    ClientAbort,
}

/// An error that holds a message says what it is about, and then that message.
pub proof fn errors_say_what_they_are_about(message: Seq<char>)
    ensures
        ProxyErrorView::Timeout(message).message() == "超时: "@ + message,
        ProxyErrorView::ForwardFailed(message).message() == "请求转发失败: "@ + message,
        ProxyErrorView::ProviderUnhealthy(message).message() == "Provider 不健康: "@ + message,
        ProxyErrorView::TransformError(message).message() == "格式转换错误: "@ + message,
        ProxyErrorView::ConfigError(message).message() == "配置错误: "@ + message,
        ProxyErrorView::AuthError(message).message() == "认证失败: "@ + message,
        ProxyErrorView::DatabaseError(message).message() == "数据库错误: "@ + message,
        ProxyErrorView::InvalidRequest(message).message() == "无效的请求: "@ + message,
        ProxyErrorView::Internal(message).message() == "内部错误: "@ + message,
        AppErrorView::InvalidInput(message).message() == "无效输入: "@ + message,
        AppErrorView::Config(message).message() == "配置错误: "@ + message,
        AppErrorView::Message(message).message() == message,
{
}

/// An error of an upstream says its status, and its body where it has one; an error that is a matter
/// of time or of size says how much it was.
pub proof fn errors_say_their_numbers(status: u16, body: Seq<char>, seconds: u64, size: usize)
    ensures
        (ProxyErrorView::UpstreamError { status, body: None }).message() == "上游错误 (状态码 "@
            + decimal(status as nat) + ")"@,
        (ProxyErrorView::UpstreamError { status, body: Some(body) }).message() == (
        ProxyErrorView::UpstreamError { status, body: None }).message() + ": "@ + body,
        (ProxyErrorView::UpstreamBodyTimeout { status, timeout_seconds: seconds }).message()
            == "上游错误 (状态码 "@ + decimal(status as nat) + ") 响应体读取超时: "@ + decimal(
            seconds as nat,
        ) + "s"@,
        ProxyErrorView::StreamIdleTimeout(seconds).message() == "流式响应静默超时: "@ + decimal(
            seconds as nat,
        ) + "s"@,
        ProxyErrorView::ResponseBodyTooLarge(size).message() == "上游响应体超过大小上限: "@
            + decimal(size as nat) + " 字节"@,
{
}

/// The errors that there is nothing more to say of have texts of their own.
pub proof fn errors_without_a_message_have_a_text(error: ProxyErrorView)
    ensures
        error is NoAvailableProvider ==> error.message() == "无可用的 Provider"@,
        error is AllProvidersCircuitOpen ==> error.message() == "所有供应商已熔断，无可用渠道"@,
        error is NoProvidersConfigured ==> error.message() == "未配置供应商"@,
        error is MaxRetriesExceeded ==> error.message() == "超过最大重试次数"@,
        AppErrorView::AllProvidersCircuitOpen.message()
            == ProxyErrorView::AllProvidersCircuitOpen.message(),
        AppErrorView::NoProvidersConfigured.message()
            == ProxyErrorView::NoProvidersConfigured.message(),
{
}

} // verus!
