//! Bodies of answers: how much of them is read, how they are decoded, and what is made of them.

use vstd::prelude::*;
use vstd::string::*;
use vstd::utf8::*;
use crate::content_encoding::{
    content_encoding_of, decompress_body_limited, decompress_body_with_limit,
    decompress_limited_result, decompress_result, get_content_encoding, supported_encoding,
    DecompressError, DecompressErrorView,
};
use crate::error::{ProxyError, ProxyErrorView};
use crate::forwarder::responses::{
    anthropic_error, anthropic_failure, codex_anthropic_error_envelope_message,
    responses_error_envelope_message, responses_failure,
};
use crate::forwarder::stream_start::{opt_policy, rejects, should_reject};
use crate::headers::{first_text, Headers, HeadersView};
use crate::json::{parsed_json, rendered_json, JsonView};
use crate::provider_retry::{ResolvedRetryPolicy, ResolvedRetryPolicyView};
use crate::text::{
    check_utf8, is_text, join, opt_view, parse_number, parsed_number, utf8_error_length,
    valid_length,
};

verus! {

/// The most that a body may come to.
pub const MAX_RESPONSE_BODY_BYTES: usize = 134_217_728;

/// The most that is kept of the body of an error.
pub const MAX_UPSTREAM_ERROR_BODY_BYTES: usize = 262_144;

/// The beginning of a body.
#[derive(Debug, PartialEq, Eq)]
pub struct BoundedBody {
    pub bytes: Vec<u8>,
    /// Whether the body goes on behind it.
    pub truncated: bool,
}

/// The beginning of a body as a mathematical value.
pub struct BoundedBodyView {
    pub bytes: Seq<u8>,
    pub truncated: bool,
}

impl View for BoundedBody {
    type V = BoundedBodyView;

    open spec fn view(&self) -> BoundedBodyView {
        BoundedBodyView { bytes: self.bytes@, truncated: self.truncated }
    }
}

/// At most the first `limit` bytes of a body.
pub open spec fn bounded(bytes: Seq<u8>, limit: usize) -> BoundedBodyView {
    BoundedBodyView {
        bytes: if bytes.len() > limit {
            bytes.take(limit as int)
        } else {
            bytes
        },
        truncated: bytes.len() > limit,
    }
}

impl BoundedBodyView {
    /// The beginning of a body that goes on with a chunk.
    pub open spec fn with_chunk(self, chunk: Seq<u8>, limit: usize) -> BoundedBodyView {
        if self.truncated {
            self
        } else {
            bounded(self.bytes + chunk, limit)
        }
    }
}

impl BoundedBody {
    /// A body of which nothing has come yet.
    pub fn new() -> (body: BoundedBody)
        ensures
            body@ == (BoundedBodyView { bytes: Seq::empty(), truncated: false }),
    {
        let body = BoundedBody { bytes: Vec::new(), truncated: false };
        assert(body@.bytes =~= Seq::<u8>::empty());
        body
    }

    /// Takes in a chunk as far as the limit goes. Says whether that was the last one needed.
    pub fn collect(&mut self, chunk: &[u8], limit: usize) -> (done: bool)
        requires
            old(self)@.bytes.len() <= limit,
        ensures
            final(self)@ == old(self)@.with_chunk(chunk@, limit),
            final(self)@.bytes.len() <= limit,
            done == final(self)@.truncated,
    {
        if self.truncated {
            return true;
        }
        let room = limit - self.bytes.len();
        let ghost before = self.bytes@;
        if chunk.len() > room {
            let part = vstd::slice::slice_subrange(chunk, 0, room);
            self.bytes.extend_from_slice(part);
            assert(self.bytes@ =~= (before + chunk@).take(limit as int));
            self.truncated = true;
            return true;
        }
        self.bytes.extend_from_slice(chunk);
        assert(self.bytes@ =~= before + chunk@);
        false
    }
}

/// How a body is cut into chunks does not matter to its beginning.
pub proof fn beginnings_do_not_depend_on_cuts(
    bytes: Seq<u8>,
    first: Seq<u8>,
    second: Seq<u8>,
    limit: usize,
)
    ensures
        bounded(bytes, limit).with_chunk(first, limit).with_chunk(second, limit) == bounded(
            bytes,
            limit,
        ).with_chunk(first + second, limit),
{
    let once = bounded(bytes, limit).with_chunk(first + second, limit);
    let twice = bounded(bytes, limit).with_chunk(first, limit).with_chunk(second, limit);
    assert(bytes + first + second =~= bytes + (first + second));
    assert(once.bytes =~= twice.bytes);
}

/// The text of an error's body: all of it, or where the body was cut off all that is complete.
/// There is none where the bytes are no UTF-8.
pub open spec fn bounded_text(bytes: Seq<u8>, truncated: bool) -> Option<Seq<char>> {
    if valid_utf8(bytes) {
        Some(decode_utf8(bytes))
    } else if truncated && utf8_error_length(bytes) is None {
        Some(decode_utf8(bytes.take(valid_length(bytes) as int)))
    } else {
        None
    }
}

/// The text of an error's body.
pub fn bounded_error_body_text(bytes: &[u8], truncated: bool) -> (text: Option<String>)
    ensures
        opt_view(text) == bounded_text(bytes@, truncated),
{
    match check_utf8(bytes) {
        Ok(text) => Some(text),
        Err((valid, None)) if truncated => {
            let head = vstd::slice::slice_subrange(bytes, 0, valid);
            assert(head@ =~= bytes@.take(valid as int));
            proof {
                crate::forwarder::sse::valid_length_is_longest(bytes@);
            }
            match check_utf8(head) {
                Ok(text) => Some(text),
                Err(_) => None,
            }
        },
        Err(_) => None,
    }
}

/// What a body is validated by: its decoded bytes, or those that came where it cannot be decoded.
/// One that decodes to too much is an error.
pub open spec fn body_for_validation(encoding: Option<Seq<char>>, raw: Seq<u8>) -> Result<
    Seq<u8>,
    ProxyErrorView,
> {
    match encoding {
        Some(encoding) => match decompress_result(encoding, raw, MAX_RESPONSE_BODY_BYTES) {
            Some(Ok(decoded)) => Ok(decoded),
            Some(Err(DecompressErrorView::TooLarge { limit })) => Err(
                ProxyErrorView::ResponseBodyTooLarge(if limit < usize::MAX {
                    (limit + 1) as usize
                } else {
                    usize::MAX
                }),
            ),
            _ => Ok(raw),
        },
        None => Ok(raw),
    }
}

fn copy_bytes(bytes: &[u8]) -> (copy: Vec<u8>)
    ensures
        copy@ == bytes@,
{
    let mut copy: Vec<u8> = Vec::new();
    copy.extend_from_slice(bytes);
    assert(copy@ =~= bytes@);
    copy
}

/// What a body is validated by.
pub fn decode_response_body_for_validation(content_encoding: Option<&str>, raw: &[u8]) -> (result:
    Result<Vec<u8>, ProxyError>)
    ensures
        match (
            result,
            body_for_validation(
                match content_encoding {
                    Some(encoding) => Some(encoding@),
                    None => None,
                },
                raw@,
            ),
        ) {
            (Ok(bytes), Ok(expected)) => bytes@ == expected,
            (Err(error), Err(expected)) => error@ == expected,
            _ => false,
        },
{
    let encoding = match content_encoding {
        Some(encoding) => encoding,
        None => {
            return Ok(copy_bytes(raw));
        },
    };
    match decompress_body_with_limit(encoding, raw, MAX_RESPONSE_BODY_BYTES) {
        Ok(Some(decoded)) => Ok(decoded),
        Ok(None) => Ok(copy_bytes(raw)),
        Err(DecompressError::Io(_)) => Ok(copy_bytes(raw)),
        Err(DecompressError::TooLarge { limit }) => Err(
            ProxyError::ResponseBodyTooLarge(
                if limit < usize::MAX {
                    limit + 1
                } else {
                    usize::MAX
                },
            ),
        ),
    }
}

/// The length that the headers declare for a body, where it is over the limit.
pub open spec fn declared_excess(headers: HeadersView) -> Option<usize> {
    match first_text(headers, "content-length"@) {
        Some(text) => match parsed_number(text) {
            Some(length) if MAX_RESPONSE_BODY_BYTES < length <= usize::MAX => Some(length as usize),
            _ => None,
        },
        None => None,
    }
}

/// The error for a body that is declared to be too long, before any of it is read.
pub fn declared_body_error(headers: &Headers) -> (error: Option<ProxyError>)
    ensures
        match error {
            Some(error) => declared_excess(headers@) matches Some(length) && error@
                == ProxyErrorView::ResponseBodyTooLarge(length),
            None => declared_excess(headers@) is None,
        },
{
    let text = match headers.get_text("content-length") {
        Some(text) => text,
        None => {
            return None;
        },
    };
    match parse_number(text.as_str()) {
        Some(length) => if length > MAX_RESPONSE_BODY_BYTES as u64 && length <= usize::MAX as u64 {
            Some(ProxyError::ResponseBodyTooLarge(length as usize))
        } else {
            None
        },
        None => None,
    }
}

/// The decoded beginning of an error's body. A whole body that decodes to too much is an error
/// of its own; one that cannot be decoded is taken as it came.
pub open spec fn decoded_error_body(encoding: Option<Seq<char>>, raw: BoundedBodyView) -> Result<
    BoundedBodyView,
    ProxyErrorView,
> {
    match encoding {
        Some(encoding) => match decompress_limited_result(
            encoding,
            raw.bytes,
            MAX_RESPONSE_BODY_BYTES,
            raw.truncated,
        ) {
            Some(Ok(decoded)) => if !raw.truncated && decoded.truncated && decoded.bytes.len()
                == MAX_RESPONSE_BODY_BYTES {
                Err(
                    ProxyErrorView::ResponseBodyTooLarge((MAX_RESPONSE_BODY_BYTES + 1) as usize),
                )
            } else {
                let kept = bounded(decoded.bytes, MAX_UPSTREAM_ERROR_BODY_BYTES);
                Ok(
                    BoundedBodyView {
                        bytes: kept.bytes,
                        truncated: raw.truncated || decoded.truncated || kept.truncated,
                    },
                )
            },
            _ => Ok(raw),
        },
        None => Ok(raw),
    }
}

/// The error that an upstream's error answer becomes.
pub open spec fn upstream_error_of(
    status: u16,
    encoding: Option<Seq<char>>,
    raw: BoundedBodyView,
) -> ProxyErrorView {
    match decoded_error_body(encoding, raw) {
        Ok(body) => ProxyErrorView::UpstreamError {
            status,
            body: bounded_text(body.bytes, body.truncated),
        },
        Err(error) => error,
    }
}

/// The error that an upstream's error answer becomes.
pub fn upstream_error(status: u16, headers: &Headers, raw: &BoundedBody) -> (error: ProxyError)
    ensures
        error@ == upstream_error_of(status, content_encoding_of(headers@), raw@),
{
    let encoding = match get_content_encoding(headers) {
        Some(encoding) => encoding,
        None => {
            let body = bounded_error_body_text(raw.bytes.as_slice(), raw.truncated);
            return ProxyError::UpstreamError { status, body };
        },
    };
    match decompress_body_limited(
        encoding.as_str(),
        raw.bytes.as_slice(),
        MAX_RESPONSE_BODY_BYTES,
        raw.truncated,
    ) {
        Ok(Some(decoded)) => {
            if !raw.truncated && decoded.truncated && decoded.bytes.len()
                == MAX_RESPONSE_BODY_BYTES {
                return ProxyError::ResponseBodyTooLarge(MAX_RESPONSE_BODY_BYTES + 1);
            }
            let long = decoded.bytes.len() > MAX_UPSTREAM_ERROR_BODY_BYTES;
            let truncated = raw.truncated || decoded.truncated || long;
            let kept = if long {
                let part = vstd::slice::slice_subrange(
                    decoded.bytes.as_slice(),
                    0,
                    MAX_UPSTREAM_ERROR_BODY_BYTES,
                );
                assert(part@ =~= decoded.bytes@.take(MAX_UPSTREAM_ERROR_BODY_BYTES as int));
                part
            } else {
                decoded.bytes.as_slice()
            };
            let body = bounded_error_body_text(kept, truncated);
            ProxyError::UpstreamError { status, body }
        },
        _ => {
            let body = bounded_error_body_text(raw.bytes.as_slice(), raw.truncated);
            ProxyError::UpstreamError { status, body }
        },
    }
}

/// The protocol by which a body is looked at for a failure.
#[derive(Clone, Copy, Debug, PartialEq, Eq, Structural)]
pub enum Envelope {
    Anthropic,
    Responses,
}

/// The failure that a decoded body states, in one of the protocols.
pub open spec fn envelope_failure(envelope: Envelope, body: Seq<u8>) -> Option<ProxyErrorView> {
    match parsed_json(body) {
        Some(value) => match envelope {
            Envelope::Anthropic => match anthropic_failure(
                value,
                rendered_json(anthropic_error(value)),
            ) {
                Some(message) => Some(
                    ProxyErrorView::TransformError(
                        "Anthropic upstream returned a 2xx error envelope: "@ + message,
                    ),
                ),
                None => None,
            },
            Envelope::Responses => match responses_failure(value) {
                Some(message) => Some(
                    ProxyErrorView::TransformError(
                        "Responses upstream returned a 2xx failure: "@ + message,
                    ),
                ),
                None => None,
            },
        },
        None => None,
    }
}

/// The failure that a decoded body states, in one of the protocols.
pub fn envelope_error(envelope: Envelope, body: &[u8]) -> (error: Option<ProxyError>)
    ensures
        match error {
            Some(error) => envelope_failure(envelope, body@) == Some(error@),
            None => envelope_failure(envelope, body@) is None,
        },
{
    match envelope {
        Envelope::Anthropic => match codex_anthropic_error_envelope_message(body) {
            Some(message) => Some(
                ProxyError::TransformError(
                    join("Anthropic upstream returned a 2xx error envelope: ", message.as_str()),
                ),
            ),
            None => None,
        },
        Envelope::Responses => match responses_error_envelope_message(body) {
            Some(message) => Some(
                ProxyError::TransformError(
                    join("Responses upstream returned a 2xx failure: ", message.as_str()),
                ),
            ),
            None => None,
        },
    }
}

/// Why a body with a success status is refused, if it is: it decodes to too much, or it states a
/// failure that counts.
pub open spec fn refused_body(
    envelope: Envelope,
    encoding: Option<Seq<char>>,
    raw: Seq<u8>,
    policy: Option<ResolvedRetryPolicyView>,
) -> Option<ProxyErrorView> {
    match body_for_validation(encoding, raw) {
        Ok(decoded) => match envelope_failure(envelope, decoded) {
            Some(error) if rejects(policy, error) => Some(error),
            _ => None,
        },
        Err(error) => Some(error),
    }
}

/// Whether a body with a success status is good.
pub fn validate_success_body(
    envelope: Envelope,
    headers: &Headers,
    raw: &[u8],
    policy: Option<&ResolvedRetryPolicy>,
) -> (result: Result<(), ProxyError>)
    ensures
        match result {
            Ok(()) => refused_body(envelope, content_encoding_of(headers@), raw@, opt_policy(policy))
                is None,
            Err(error) => refused_body(
                envelope,
                content_encoding_of(headers@),
                raw@,
                opt_policy(policy),
            ) == Some(error@),
        },
{
    let encoding = get_content_encoding(headers);
    let decoded = match &encoding {
        Some(encoding) => decode_response_body_for_validation(Some(encoding.as_str()), raw),
        None => decode_response_body_for_validation(None, raw),
    };
    match decoded {
        Ok(bytes) => match envelope_error(envelope, bytes.as_slice()) {
            Some(error) => if should_reject(policy, &error) {
                Err(error)
            } else {
                Ok(())
            },
            None => Ok(()),
        },
        Err(error) => Err(error),
    }
}

/// What is done with a success answer before it is called one.
#[derive(Clone, Copy, Debug, PartialEq, Eq, Structural)]
pub enum SuccessPreparation {
    /// Nothing: it is passed on as it is.
    Keep,
    /// The whole body is read.
    Buffer,
    /// The first chunk is read.
    Prime,
}

/// Before an answer counts as a success, its body or at least its first chunk has to come within
/// the deadline, where there is one.
pub fn success_preparation(streaming: bool, deadline_enabled: bool) -> (preparation:
    SuccessPreparation)
    ensures
        preparation == if !deadline_enabled {
            SuccessPreparation::Keep
        } else if streaming {
            SuccessPreparation::Prime
        } else {
            SuccessPreparation::Buffer
        },
{
    if !deadline_enabled {
        SuccessPreparation::Keep
    } else if streaming {
        SuccessPreparation::Prime
    } else {
        SuccessPreparation::Buffer
    }
}

/// The error for a stream that ends before its first chunk.
pub fn empty_stream_error() -> (error: ProxyError)
    ensures
        error@ == ProxyErrorView::ForwardFailed("流式响应在首包到达前结束"@),
{
    ProxyError::ForwardFailed("流式响应在首包到达前结束".to_owned())
}

/// The error for a stream whose first chunk cannot be read.
pub fn first_chunk_error(source: &str) -> (error: ProxyError)
    ensures
        error@ == ProxyErrorView::ForwardFailed("读取流式响应首包失败: "@ + source@),
{
    ProxyError::ForwardFailed(join("读取流式响应首包失败: ", source))
}

/// How the content of a success answer is validated.
#[derive(Clone, Copy, Debug, PartialEq, Eq, Structural)]
pub enum SuccessValidation {
    Unchecked,
    /// The body is looked at as a whole.
    Body(Envelope),
    /// The start of the stream is looked at.
    StreamStart,
}

/// How the content of a success answer is validated. A stream is only looked at as a whole where
/// it says that it is JSON.
pub open spec fn validation_of(
    to_anthropic: bool,
    claude_api_format: Option<Seq<char>>,
    streaming: bool,
    is_json: bool,
) -> SuccessValidation {
    let whole = !streaming || is_json;
    if to_anthropic && whole {
        SuccessValidation::Body(Envelope::Anthropic)
    } else if claude_api_format == Some("openai_responses"@) {
        if whole {
            SuccessValidation::Body(Envelope::Responses)
        } else {
            SuccessValidation::StreamStart
        }
    } else {
        SuccessValidation::Unchecked
    }
}

/// How the content of a success answer is validated.
pub fn success_validation(
    to_anthropic: bool,
    claude_api_format: &Option<String>,
    streaming: bool,
    is_json: bool,
) -> (validation: SuccessValidation)
    ensures
        validation == validation_of(to_anthropic, opt_view(*claude_api_format), streaming, is_json),
{
    let whole = !streaming || is_json;
    if to_anthropic && whole {
        return SuccessValidation::Body(Envelope::Anthropic);
    }
    if is_text(claude_api_format, "openai_responses") {
        if whole {
            SuccessValidation::Body(Envelope::Responses)
        } else {
            SuccessValidation::StreamStart
        }
    } else {
        SuccessValidation::Unchecked
    }
}

/// How an answer is validated for a provider that retries: as a whole, or by its start.
pub fn retry_validation(streaming: bool, is_json: bool) -> (validation: SuccessValidation)
    ensures
        validation == if !streaming || is_json {
            SuccessValidation::Body(Envelope::Responses)
        } else {
            SuccessValidation::StreamStart
        },
{
    if !streaming || is_json {
        SuccessValidation::Body(Envelope::Responses)
    } else {
        SuccessValidation::StreamStart
    }
}

/// A body is never refused for a failure that it states where the policy lets it through, and
/// without a policy it always is.
pub proof fn failures_are_refused_as_the_policy_says(
    envelope: Envelope,
    raw: Seq<u8>,
    error: ProxyErrorView,
    policy: Option<ResolvedRetryPolicyView>,
)
    requires
        envelope_failure(envelope, raw) == Some(error),
    ensures
        refused_body(envelope, None, raw, None) == Some(error),
        refused_body(envelope, None, raw, policy) is Some <==> rejects(policy, error),
{
}

/// The beginning of a body is a beginning of it, no longer than the limit, all of it where that is
/// enough, and marked where it is not.
pub proof fn beginnings_are_beginnings(bytes: Seq<u8>, limit: usize)
    ensures
        bounded(bytes, limit).bytes.len() <= limit,
        bounded(bytes, limit).bytes.is_prefix_of(bytes),
        bytes.len() <= limit ==> bounded(bytes, limit).bytes == bytes && !bounded(
            bytes,
            limit,
        ).truncated,
        bytes.len() > limit ==> bounded(bytes, limit).bytes.len() == limit && bounded(
            bytes,
            limit,
        ).truncated,
{
    assert(bytes.subrange(0, bytes.len() as int) =~= bytes);
    if bytes.len() > limit {
        assert(bytes.take(limit as int) =~= bytes.subrange(0, limit as int));
    }
}

/// The text of an error's body is its bytes as UTF-8; of one that was cut off in the middle of a
/// character, all that comes before it.
pub proof fn error_bodies_are_texts(bytes: Seq<u8>, truncated: bool)
    ensures
        valid_utf8(bytes) ==> bounded_text(bytes, truncated) == Some(decode_utf8(bytes)),
        !valid_utf8(bytes) && !truncated ==> bounded_text(bytes, truncated) is None,
        !valid_utf8(bytes) && truncated && utf8_error_length(bytes) is Some ==> bounded_text(
            bytes,
            truncated,
        ) is None,
        !valid_utf8(bytes) && truncated && utf8_error_length(bytes) is None ==> bounded_text(
            bytes,
            truncated,
        ) == Some(decode_utf8(bytes.take(valid_length(bytes) as int))),
{
}

/// What an upstream's error answer becomes keeps its status; its body is what was sent, as a text,
/// where it is not encoded.
pub proof fn error_answers_keep_their_status(
    status: u16,
    encoding: Option<Seq<char>>,
    raw: BoundedBodyView,
)
    ensures
        encoding is None ==> upstream_error_of(status, encoding, raw) == (
        ProxyErrorView::UpstreamError { status, body: bounded_text(raw.bytes, raw.truncated) }),
        match upstream_error_of(status, encoding, raw) {
            ProxyErrorView::UpstreamError { status: kept, .. } => kept == status,
            ProxyErrorView::ResponseBodyTooLarge(size) => encoding is Some && !raw.truncated && size
                == 134_217_729,
            _ => false,
        },
        encoding matches Some(encoding) ==> (!supported_encoding(encoding) ==> upstream_error_of(
            status,
            Some(encoding),
            raw,
        ) == (ProxyErrorView::UpstreamError {
            status,
            body: bounded_text(raw.bytes, raw.truncated),
        })),
        encoding matches Some(encoding) ==> (decompress_limited_result(
            encoding,
            raw.bytes,
            134_217_728,
            raw.truncated,
        ) matches Some(Ok(decoded)) ==> (decoded.bytes.len() <= 262_144 ==> upstream_error_of(
            status,
            Some(encoding),
            raw,
        ) == (ProxyErrorView::UpstreamError {
            status,
            body: bounded_text(decoded.bytes, raw.truncated || decoded.truncated),
        }))),
{
}

/// An answer is looked at before it is called a success by the protocol that it was asked in: as
/// Anthropic messages where a Codex request went out as these, and as Responses where the app's
/// request did; as a whole unless it streams, and a stream that is no JSON by its start. Nothing
/// else is looked at.
pub proof fn answers_are_looked_at_by_their_protocol(
    to_anthropic: bool,
    claude_api_format: Option<Seq<char>>,
    streaming: bool,
    is_json: bool,
)
    ensures
        ({
            let validation = validation_of(to_anthropic, claude_api_format, streaming, is_json);
            let responses = claude_api_format == Some("openai_responses"@);
            let as_stream = streaming && !is_json;
            &&& validation == SuccessValidation::Body(Envelope::Anthropic) <==> to_anthropic
                && !as_stream
            &&& validation == SuccessValidation::Body(Envelope::Responses) <==> responses
                && !as_stream && !to_anthropic
            &&& validation == SuccessValidation::StreamStart <==> responses && as_stream
            &&& validation == SuccessValidation::Unchecked <==> !responses && (as_stream
                || !to_anthropic)
        }),
{
}

/// A body is declared to be too long where its length is stated, and over the limit.
pub proof fn long_bodies_are_declared(headers: HeadersView)
    ensures
        declared_excess(headers) matches Some(length) ==> length > 134_217_728 && (first_text(
            headers,
            "content-length"@,
        ) matches Some(text) && parsed_number(text) == Some(length as u64)),
        first_text(headers, "content-length"@) matches Some(text) ==> (parsed_number(
            text,
        ) matches Some(length) ==> (134_217_728 < length <= usize::MAX ==> declared_excess(headers)
            == Some(length as usize))),
{
}

/// A body with a success status is refused where it states a failure that counts: without a policy
/// every one does. A body that is no JSON states none, and what cannot be decoded is looked at as
/// it came.
pub proof fn good_bodies_are_let_through(
    envelope: Envelope,
    raw: Seq<u8>,
    policy: Option<ResolvedRetryPolicyView>,
)
    ensures
        parsed_json(raw) is None ==> refused_body(envelope, None, raw, policy) is None,
        parsed_json(raw) matches Some(value) ==> {
            &&& responses_failure(value) is None ==> refused_body(
                Envelope::Responses,
                None,
                raw,
                policy,
            ) is None
            &&& responses_failure(value) is Some ==> (refused_body(
                Envelope::Responses,
                None,
                raw,
                None,
            ) matches Some(ProxyErrorView::TransformError(_)))
            &&& value.member("error"@) is None && value.member("type"@) != Some(
                JsonView::Str("error"@),
            ) ==> refused_body(Envelope::Anthropic, None, raw, policy) is None
            &&& value.member("error"@) is Some || value.member("type"@) == Some(
                JsonView::Str("error"@),
            ) ==> (refused_body(Envelope::Anthropic, None, raw, None) matches Some(
                ProxyErrorView::TransformError(_),
            ))
        },
{
}

/// What a body is validated by is what it decodes to, within the limit; what is not encoded, or
/// cannot be decoded, as it came.
pub proof fn bodies_are_validated_decoded(encoding: Seq<char>, raw: Seq<u8>)
    ensures
        body_for_validation(None, raw) == Ok::<Seq<u8>, ProxyErrorView>(raw),
        !supported_encoding(encoding) ==> body_for_validation(Some(encoding), raw) == Ok::<
            Seq<u8>,
            ProxyErrorView,
        >(raw),
        decompress_result(encoding, raw, 134_217_728) matches Some(Ok(decoded))
            ==> body_for_validation(Some(encoding), raw) == Ok::<Seq<u8>, ProxyErrorView>(decoded),
        decompress_result(encoding, raw, 134_217_728) matches Some(Err(DecompressErrorView::Io(_)))
            ==> body_for_validation(Some(encoding), raw) == Ok::<Seq<u8>, ProxyErrorView>(raw),
        decompress_result(encoding, raw, 134_217_728) matches Some(
            Err(DecompressErrorView::TooLarge { .. }),
        ) ==> body_for_validation(Some(encoding), raw) matches Err(
            ProxyErrorView::ResponseBodyTooLarge(_),
        ),
{
}

/// A failure inside a good answer is told with the protocol that it was found in.
pub proof fn failed_answers_are_told_with_their_protocol(
    raw: Seq<u8>,
    value: JsonView,
    message: Seq<char>,
)
    requires
        parsed_json(raw) == Some(value),
    ensures
        responses_failure(value) == Some(message) ==> refused_body(
            Envelope::Responses,
            None,
            raw,
            None,
        ) == Some(
            ProxyErrorView::TransformError(
                "Responses upstream returned a 2xx failure: "@ + message,
            ),
        ),
        anthropic_failure(value, rendered_json(anthropic_error(value))) == Some(message)
            ==> refused_body(Envelope::Anthropic, None, raw, None) == Some(
            ProxyErrorView::TransformError(
                "Anthropic upstream returned a 2xx error envelope: "@ + message,
            ),
        ),
{
}

/// A good answer is read until it shows output only where there is a deadline for that: a stream up to
/// its start, any other answer whole.
pub proof fn answers_are_prepared_where_there_is_a_deadline(
    streaming: bool,
    deadline: bool,
    preparation: SuccessPreparation,
)
    requires
        call_ensures(success_preparation, (streaming, deadline), preparation),
    ensures
        preparation is Keep <==> !deadline,
        preparation is Prime <==> deadline && streaming,
        preparation is Buffer <==> deadline && !streaming,
{
}

} // verus!
