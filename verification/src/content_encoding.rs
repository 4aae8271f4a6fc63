//! Decoding of compressed bodies by their `content-encoding`.
//!
//! Request bodies and response bodies share one set of decoders. A body whose encoding is not
//! supported as a whole is passed through untouched.

use vstd::prelude::*;
use vstd::string::*;
use crate::codec::{
    chunk_view, gzip_decode_all, gzip_decoded, inflate, inflate_calls, inflate_reply,
    inflate_totals, status_view, zstd_decode_all, zstd_decoded, zstd_setup_error, BrotliReader,
    ChunkReader, ChunkView, DecodeError, DecodeErrorKind, DecodeErrorView, GzipReader,
    InflateCall, InflateStatus, ZstdReader, LIMITED_DECODER_WINDOW_LOG_MAX, READ_BUFFER,
    addressable, brotli_bytes, brotli_ends, brotli_left, brotli_reaches, brotli_whole, fed,
    full_reads, gzip_whole, inflate_consumed, inflate_ends, inflate_in_order, inflate_reaches,
    inflate_whole, inflated, lemma_agreeing_start, zstd_whole,
};
use crate::headers::{header_texts, Headers, HeadersView};
use crate::text::{
    decimal, decimal_text, join, pieces, same_text, split, texts_view, to_ascii_lowercase, trim,
    trimmed, ascii_lowercase,
};

verus! {

/// The codings listed in a `content-encoding` value, in order, without empty ones and
/// `identity`.
pub open spec fn codings(content_encoding: Seq<char>) -> Seq<Seq<char>> {
    pieces(content_encoding, ',').map_values(|piece: Seq<char>| trimmed(piece)).filter(
        |coding: Seq<char>| coding.len() > 0 && coding != "identity"@,
    )
}

/// Splits a `content-encoding` value into its codings.
pub fn split_codings(content_encoding: &str) -> (list: Vec<String>)
    ensures
        texts_view(list@) == codings(content_encoding@),
{
    let parts = split(content_encoding, ',');
    let ghost wanted = |coding: Seq<char>| coding.len() > 0 && coding != "identity"@;
    let ghost trims = pieces(content_encoding@, ',').map_values(|piece: Seq<char>| trimmed(piece));
    let mut list: Vec<String> = Vec::new();
    let mut i: usize = 0;
    assert(trims.take(0).filter(wanted) =~= Seq::<Seq<char>>::empty()) by {
        reveal(Seq::filter);
    }
    while i < parts.len()
        invariant
            i <= parts@.len(),
            texts_view(parts@) == pieces(content_encoding@, ','),
            trims == pieces(content_encoding@, ',').map_values(|piece: Seq<char>| trimmed(piece)),
            wanted == (|coding: Seq<char>| coding.len() > 0 && coding != "identity"@),
            texts_view(list@) == trims.take(i as int).filter(wanted),
        decreases parts@.len() - i,
    {
        let coding = trim(parts[i].as_str());
        proof {
            assert(coding@ == trims[i as int]) by {
                assert(texts_view(parts@)[i as int] == parts@[i as int]@);
            }
            assert(trims.take(i + 1).drop_last() =~= trims.take(i as int));
            reveal(Seq::filter);
        }
        if !coding.is_empty() && !same_text(coding, "identity") {
            let ghost before = texts_view(list@);
            list.push(coding.to_owned());
            assert(texts_view(list@) =~= before.push(coding@));
        }
        i = i + 1;
    }
    assert(trims.take(i as int) =~= trims);
    list
}

/// Whether a single coding can be decoded.
pub open spec fn supported_coding(coding: Seq<char>) -> bool {
    ||| coding == "gzip"@
    ||| coding == "x-gzip"@
    ||| coding == "deflate"@
    ||| coding == "br"@
    ||| coding == "zstd"@
    ||| coding == "zst"@
}

/// Whether a single coding can be decoded.
pub fn is_single_supported(coding: &str) -> (supported: bool)
    ensures
        supported == supported_coding(coding@),
{
    same_text(coding, "gzip") || same_text(coding, "x-gzip") || same_text(coding, "deflate")
        || same_text(coding, "br") || same_text(coding, "zstd") || same_text(coding, "zst")
}

/// Whether a `content-encoding` lists codings, all of which can be decoded.
pub open spec fn supported_encoding(content_encoding: Seq<char>) -> bool {
    &&& codings(content_encoding).len() > 0
    &&& forall|i: int|
        0 <= i < codings(content_encoding).len() ==> supported_coding(
            #[trigger] codings(content_encoding)[i],
        )
}

fn all_supported(list: &Vec<String>) -> (all: bool)
    ensures
        all == (forall|i: int|
            0 <= i < list@.len() ==> supported_coding(#[trigger] texts_view(list@)[i])),
{
    let mut i: usize = 0;
    while i < list.len()
        invariant
            i <= list@.len(),
            forall|k: int| 0 <= k < i ==> supported_coding(#[trigger] texts_view(list@)[k]),
        decreases list@.len() - i,
    {
        if !is_single_supported(list[i].as_str()) {
            assert(!supported_coding(texts_view(list@)[i as int]));
            return false;
        }
        i = i + 1;
    }
    true
}

/// Whether a `content-encoding` lists codings, all of which can be decoded.
pub fn is_supported_content_encoding(content_encoding: &str) -> (supported: bool)
    ensures
        supported == supported_encoding(content_encoding@),
{
    let list = split_codings(content_encoding);
    list.len() > 0 && all_supported(&list)
}

/// Why a body could not be decoded. An output over its limit is told apart from damaged data.
#[derive(Debug, PartialEq, Eq)]
pub enum DecompressError {
    /// The decoder failed: damaged data, or another format.
    Io(DecodeError),
    /// The output passed the limit, and decoding stopped there.
    TooLarge { limit: usize },
}

/// A decompression error as a mathematical value.
pub enum DecompressErrorView {
    Io(DecodeErrorView),
    TooLarge { limit: usize },
}

impl View for DecompressError {
    type V = DecompressErrorView;

    open spec fn view(&self) -> DecompressErrorView {
        match self {
            DecompressError::Io(error) => DecompressErrorView::Io(error@),
            DecompressError::TooLarge { limit } => DecompressErrorView::TooLarge { limit: *limit },
        }
    }
}

impl DecompressError {
    /// The error as a text.
    pub fn message(&self) -> (text: String)
        ensures
            text@ == (match self@ {
                DecompressErrorView::Io(error) => error.message,
                DecompressErrorView::TooLarge { limit } => "解压输出超过上限 "@ + decimal(limit as nat)
                    + " 字节"@,
            }),
    {
        match self {
            DecompressError::Io(error) => error.message.clone(),
            DecompressError::TooLarge { limit } => join(
                join("解压输出超过上限 ", decimal_text(*limit as u64).as_str()).as_str(),
                " 字节",
            ),
        }
    }

    /// The error as a decoding error.
    pub fn into_decode_error(self) -> (error: DecodeError)
        ensures
            error@ == plain_error(self@),
    {
        match self {
            DecompressError::Io(error) => error,
            DecompressError::TooLarge { limit } => DecodeError {
                kind: DecodeErrorKind::Other,
                message: join(
                    join("decompressed body exceeds ", decimal_text(limit as u64).as_str()).as_str(),
                    " bytes",
                ),
            },
        }
    }
}

/// A decompression error as a decoding error.
pub open spec fn plain_error(error: DecompressErrorView) -> DecodeErrorView {
    match error {
        DecompressErrorView::Io(error) => error,
        DecompressErrorView::TooLarge { limit } => DecodeErrorView {
            kind: DecodeErrorKind::Other,
            message: "decompressed body exceeds "@ + decimal(limit as nat) + " bytes"@,
        },
    }
}

/// A decoded body, or as much of it as a limit lets through.
#[derive(Debug, PartialEq, Eq)]
pub struct LimitedDecompressedBody {
    pub bytes: Vec<u8>,
    pub truncated: bool,
}

/// A decoded body as a mathematical value.
pub struct LimitedView {
    pub bytes: Seq<u8>,
    pub truncated: bool,
}

impl View for LimitedDecompressedBody {
    type V = LimitedView;

    open spec fn view(&self) -> LimitedView {
        LimitedView { bytes: self.bytes@, truncated: self.truncated }
    }
}

/// A decoded body or the error in its place.
pub type LimitedResult = Result<LimitedView, DecodeErrorView>;

/// The value of a decoded body or of the error in its place.
pub open spec fn limited_view(
    result: Result<LimitedDecompressedBody, DecodeError>,
) -> LimitedResult {
    match result {
        Ok(body) => Ok(body@),
        Err(error) => Err(error@),
    }
}

pub open spec fn invalid(message: Seq<char>) -> DecodeErrorView {
    DecodeErrorView { kind: DecodeErrorKind::InvalidData, message }
}

pub open spec fn unexpected_eof(message: Seq<char>) -> DecodeErrorView {
    DecodeErrorView { kind: DecodeErrorKind::UnexpectedEof, message }
}

fn invalid_data(message: String) -> (error: DecodeError)
    ensures
        error@ == invalid(message@),
{
    DecodeError { kind: DecodeErrorKind::InvalidData, message }
}

/// The window, as a power of two, that the header of a brotli stream asks for.
pub open spec fn brotli_window(body: Seq<u8>) -> Result<u32, DecodeErrorView> {
    if body.len() == 0 {
        Err(unexpected_eof("brotli header is incomplete"@))
    } else {
        let low4 = body[0] as int % 16;
        let low7 = body[0] as int % 128;
        if body[0] as int % 2 == 0 {
            Ok(16)
        } else if low4 != 1 {
            // Three bits above the lowest one count the window up from 17.
            Ok((17 + low4 / 2) as u32)
        } else if low7 == 0x01 {
            Ok(17)
        } else if low7 != 0x11 {
            // Three bits above the lowest four count the window up from 8.
            Ok((8 + low7 / 16) as u32)
        } else if body[0] >= 0x80 {
            Err(invalid("invalid brotli window bits"@))
        } else if body.len() < 2 {
            Err(unexpected_eof("brotli large-window header is incomplete"@))
        } else {
            let window = body[1] as int % 64;
            if 10 <= window <= 30 {
                Ok(window as u32)
            } else {
                Err(invalid("invalid brotli large-window bits"@))
            }
        }
    }
}

/// The window, as a power of two, that the header of a brotli stream asks for.
pub fn brotli_window_log(body: &[u8]) -> (window: Result<u32, DecodeError>)
    ensures
        match window {
            Ok(log) => brotli_window(body@) == Ok::<u32, DecodeErrorView>(log),
            Err(error) => brotli_window(body@) == Err::<u32, DecodeErrorView>(error@),
        },
{
    if body.len() == 0 {
        return Err(
            DecodeError {
                kind: DecodeErrorKind::UnexpectedEof,
                message: "brotli header is incomplete".to_owned(),
            },
        );
    }
    let first: u8 = body[0];
    if first % 2 == 0 {
        return Ok(16);
    }
    match first % 16 {
        0x03 => {
            return Ok(18);
        },
        0x05 => {
            return Ok(19);
        },
        0x07 => {
            return Ok(20);
        },
        0x09 => {
            return Ok(21);
        },
        0x0b => {
            return Ok(22);
        },
        0x0d => {
            return Ok(23);
        },
        0x0f => {
            return Ok(24);
        },
        _ => {},
    }
    match first % 128 {
        0x71 => {
            return Ok(15);
        },
        0x61 => {
            return Ok(14);
        },
        0x51 => {
            return Ok(13);
        },
        0x41 => {
            return Ok(12);
        },
        0x31 => {
            return Ok(11);
        },
        0x21 => {
            return Ok(10);
        },
        0x01 => {
            return Ok(17);
        },
        _ => {},
    }
    if first >= 0x80 {
        return Err(invalid_data("invalid brotli window bits".to_owned()));
    }
    if body.len() < 2 {
        return Err(
            DecodeError {
                kind: DecodeErrorKind::UnexpectedEof,
                message: "brotli large-window header is incomplete".to_owned(),
            },
        );
    }
    let window_log: u32 = (body[1] % 64) as u32;
    if window_log < 10 || window_log > 30 {
        return Err(invalid_data("invalid brotli large-window bits".to_owned()));
    }
    Ok(window_log)
}

/// The error with which a brotli stream is refused for its window, if there is one.
pub open spec fn brotli_window_error(body: Seq<u8>) -> Option<DecodeErrorView> {
    match brotli_window(body) {
        Err(error) => Some(error),
        Ok(log) => if log > LIMITED_DECODER_WINDOW_LOG_MAX {
            Some(
                invalid(
                    "brotli window log "@ + decimal(log as nat) + " exceeds limit "@ + decimal(
                        LIMITED_DECODER_WINDOW_LOG_MAX as nat,
                    ),
                ),
            )
        } else {
            None
        },
    }
}

/// Refuses a brotli stream that asks for too large a window.
pub fn validate_brotli_window(body: &[u8]) -> (valid: Result<(), DecodeError>)
    ensures
        match valid {
            Ok(()) => brotli_window_error(body@) is None,
            Err(error) => brotli_window_error(body@) == Some(error@),
        },
{
    match brotli_window_log(body) {
        Err(error) => Err(error),
        Ok(log) => {
            if log > LIMITED_DECODER_WINDOW_LOG_MAX {
                let head = join("brotli window log ", decimal_text(log as u64).as_str());
                let middle = join(head.as_str(), " exceeds limit ");
                Err(
                    invalid_data(
                        join(
                            middle.as_str(),
                            decimal_text(LIMITED_DECODER_WINDOW_LOG_MAX as u64).as_str(),
                        ),
                    ),
                )
            } else {
                Ok(())
            }
        },
    }
}

/// Whether a deflate body begins with a zlib header.
pub open spec fn zlib_framing(body: Seq<u8>) -> Result<bool, DecodeErrorView> {
    if body.len() == 0 {
        Err(invalid("deflate body is empty"@))
    } else if body.len() == 1 {
        Err(invalid("deflate header is incomplete"@))
    } else {
        Ok(
            body[0] as int % 16 == 8 && body[0] as int / 16 <= 7 && (body[0] * 256 + body[1]) % 31
                == 0,
        )
    }
}

/// Whether a deflate body begins with a zlib header.
pub fn has_zlib_framing(body: &[u8]) -> (framing: Result<bool, DecodeError>)
    ensures
        match framing {
            Ok(zlib) => zlib_framing(body@) == Ok::<bool, DecodeErrorView>(zlib),
            Err(error) => zlib_framing(body@) == Err::<bool, DecodeErrorView>(error@),
        },
{
    if body.len() == 0 {
        return Err(invalid_data("deflate body is empty".to_owned()));
    }
    if body.len() == 1 {
        return Err(invalid_data("deflate header is incomplete".to_owned()));
    }
    let cmf: u8 = body[0];
    let flg: u8 = body[1];
    let header: u16 = (cmf as u16) * 256 + (flg as u16);
    Ok(cmf % 16 == 8 && cmf / 16 <= 7 && header % 31 == 0)
}

/// The output length at which decoding under a limit stops.
pub open spec fn sentinel(limit: usize) -> nat {
    if limit < usize::MAX {
        (limit + 1) as nat
    } else {
        usize::MAX as nat
    }
}

/// What a step of decoding leads to: more steps, or the end.
pub enum Step {
    More(Vec<u8>),
    Done(Result<LimitedDecompressedBody, DecodeError>),
}

/// A step as a mathematical value.
pub enum StepView {
    More(Seq<u8>),
    Done(LimitedResult),
}

impl View for Step {
    type V = StepView;

    open spec fn view(&self) -> StepView {
        match self {
            Step::More(output) => StepView::More(output@),
            Step::Done(result) => StepView::Done(limited_view(*result)),
        }
    }
}

/// The name of a deflate format in messages.
pub open spec fn format_name(zlib_header: bool) -> Seq<char> {
    if zlib_header {
        "zlib"@
    } else {
        "raw deflate"@
    }
}

/// What follows a call of the deflate decoder: `output` is all that was written so far, and
/// `moved` says whether the call consumed or wrote anything.
pub open spec fn deflate_verdict(
    output: Seq<u8>,
    status: Result<InflateStatus, Seq<char>>,
    moved: bool,
    all_consumed: bool,
    zlib_header: bool,
    limit: usize,
    input_truncated: bool,
) -> StepView {
    let format = format_name(zlib_header);
    if output.len() > limit {
        StepView::Done(Ok(LimitedView { bytes: output.take(limit as int), truncated: true }))
    } else if status == Ok::<InflateStatus, Seq<char>>(InflateStatus::StreamEnd) {
        StepView::Done(
            if !all_consumed {
                Err(invalid(format + " stream has trailing bytes"@))
            } else if input_truncated && output.len() == 0 {
                Err(invalid(format + " truncated input produced no output"@))
            } else {
                Ok(LimitedView { bytes: output, truncated: input_truncated })
            },
        )
    } else if status is Ok && moved {
        StepView::More(output)
    } else if input_truncated && output.len() > 0 {
        StepView::Done(Ok(LimitedView { bytes: output, truncated: true }))
    } else {
        StepView::Done(
            Err(
                match status {
                    Err(message) => invalid("invalid "@ + format + " stream: "@ + message),
                    Ok(_) => invalid("incomplete "@ + format + " stream"@),
                },
            ),
        )
    }
}

/// What follows a call of the deflate decoder.
pub fn deflate_step(
    output: Vec<u8>,
    status: Result<InflateStatus, String>,
    moved: bool,
    all_consumed: bool,
    zlib_header: bool,
    limit: usize,
    input_truncated: bool,
) -> (step: Step)
    ensures
        step@ == deflate_verdict(
            output@,
            status_view(status),
            moved,
            all_consumed,
            zlib_header,
            limit,
            input_truncated,
        ),
{
    let mut output = output;
    let format = if zlib_header {
        "zlib"
    } else {
        "raw deflate"
    };
    if output.len() > limit {
        output.truncate(limit);
        return Step::Done(Ok(LimitedDecompressedBody { bytes: output, truncated: true }));
    }
    match status {
        Ok(InflateStatus::StreamEnd) => {
            if !all_consumed {
                return Step::Done(Err(invalid_data(join(format, " stream has trailing bytes"))));
            }
            if input_truncated && output.len() == 0 {
                return Step::Done(
                    Err(invalid_data(join(format, " truncated input produced no output"))),
                );
            }
            Step::Done(
                Ok(LimitedDecompressedBody { bytes: output, truncated: input_truncated }),
            )
        },
        Ok(_) => {
            if moved {
                return Step::More(output);
            }
            if input_truncated && output.len() > 0 {
                return Step::Done(Ok(LimitedDecompressedBody { bytes: output, truncated: true }));
            }
            let head = join("incomplete ", format);
            Step::Done(Err(invalid_data(join(head.as_str(), " stream"))))
        },
        Err(message) => {
            if input_truncated && output.len() > 0 {
                return Step::Done(Ok(LimitedDecompressedBody { bytes: output, truncated: true }));
            }
            let head = join("invalid ", format);
            let middle = join(head.as_str(), " stream: ");
            Step::Done(Err(invalid_data(join(middle.as_str(), message.as_str()))))
        },
    }
}

/// The next call of the deflate decoder on a body.
pub open spec fn deflate_call(
    body: Seq<u8>,
    limit: usize,
    consumed: nat,
    written: nat,
) -> InflateCall {
    let room = sentinel(limit) - written;
    InflateCall {
        input: body.skip(consumed as int),
        room: if room < READ_BUFFER {
            room as nat
        } else {
            READ_BUFFER as nat
        },
        finish: consumed == body.len(),
    }
}

/// What decoding a deflate body comes to, from the calls made so far on.
pub open spec fn deflate_run(
    zlib_header: bool,
    body: Seq<u8>,
    limit: usize,
    input_truncated: bool,
    calls: Seq<InflateCall>,
    consumed: nat,
    output: Seq<u8>,
) -> LimitedResult
    decreases body.len() - consumed + usize::MAX - output.len(),
{
    if output.len() >= sentinel(limit) {
        Ok(LimitedView { bytes: output, truncated: true })
    } else {
        let made = calls.push(deflate_call(body, limit, consumed, output.len()));
        let reply = inflate_reply(zlib_header, made);
        let all_in = consumed + reply.consumed;
        let all_out = output + reply.output;
        match deflate_verdict(
            all_out,
            reply.status,
            reply.consumed > 0 || reply.output.len() > 0,
            all_in == body.len(),
            zlib_header,
            limit,
            input_truncated,
        ) {
            StepView::Done(result) => result,
            StepView::More(_) => if all_in <= body.len() && all_out.len() <= usize::MAX && (
            all_in > consumed || all_out.len() > output.len()) {
                deflate_run(
                    zlib_header,
                    body,
                    limit,
                    input_truncated,
                    made,
                    all_in as nat,
                    all_out,
                )
            } else {
                Err(invalid("incomplete "@ + format_name(zlib_header) + " stream"@))
            },
        }
    }
}

/// The limit that stands for none: as much as can be addressed.
pub open spec fn limit_or_max(output_limit: Option<usize>) -> usize {
    match output_limit {
        Some(limit) => limit,
        None => usize::MAX,
    }
}

/// What decoding a deflate body comes to. A body with a zlib header is decoded as zlib and
/// nothing else; only one without is taken as a raw stream.
pub open spec fn deflate_result(
    body: Seq<u8>,
    output_limit: Option<usize>,
    input_truncated: bool,
) -> LimitedResult {
    match zlib_framing(body) {
        Err(error) => Err(error),
        Ok(zlib_header) => deflate_run(
            zlib_header,
            body,
            limit_or_max(output_limit),
            input_truncated,
            Seq::empty(),
            0,
            Seq::empty(),
        ),
    }
}

/// Whether decoding under a limit gave the beginning of a whole decoding, and all of it where it
/// was one of the same body and nothing was cut off.
pub open spec fn is_start(result: LimitedResult, full: Seq<u8>, same_body: bool) -> bool {
    result matches Ok(decoded) ==> {
        &&& decoded.bytes.is_prefix_of(full)
        &&& same_body && !decoded.truncated ==> decoded.bytes == full
    }
}

/// Whether a deflate body decodes to these bytes: as a whole, or as far as can be addressed.
pub open spec fn deflate_whole(body: Seq<u8>, full: Seq<u8>) -> bool {
    zlib_framing(body) matches Ok(zlib_header) && inflate_whole(zlib_header, body, full)
}

/// The header is where a body begins: one that begins with another has the same.
proof fn lemma_framing_of_longer(body: Seq<u8>, longer: Seq<u8>)
    requires
        body.is_prefix_of(longer),
        zlib_framing(body) is Ok,
    ensures
        zlib_framing(longer) == zlib_framing(body),
{
    assert(longer.subrange(0, body.len() as int)[0] == longer[0]);
    assert(longer.subrange(0, body.len() as int)[1] == longer[1]);
}

/// Decodes a deflate body. What comes out under a limit is the beginning of the whole decoding.
#[verifier::loop_isolation(false)]
pub fn decompress_deflate(
    body: &[u8],
    output_limit: Option<usize>,
    input_truncated: bool,
) -> (result: Result<LimitedDecompressedBody, DecodeError>)
    ensures
        limited_view(result) == deflate_result(body@, output_limit, input_truncated),
        forall|longer: Seq<u8>, full: Seq<u8>|
            body@.is_prefix_of(longer) && #[trigger] deflate_whole(longer, full) ==> is_start(
                limited_view(result),
                full,
                longer == body@,
            ),
{
    let zlib_header = match has_zlib_framing(body) {
        Ok(zlib_header) => zlib_header,
        Err(error) => {
            return Err(error);
        },
    };
    let limit: usize = match output_limit {
        Some(limit) => limit,
        None => usize::MAX,
    };
    let sentinel_limit: usize = limit.saturating_add(1);
    let mut decoder = flate2::Decompress::new(zlib_header);
    let mut output: Vec<u8> = Vec::new();
    let body_len: usize = body.len();
    assert(inflated(zlib_header, inflate_calls(decoder).1) =~= output@);
    loop
        invariant
            fed(zlib_header, inflate_calls(decoder).1, body@),
            inflated(zlib_header, inflate_calls(decoder).1) == output@,
            inflate_consumed(zlib_header, inflate_calls(decoder).1) == inflate_totals(decoder).0,
            forall|longer: Seq<u8>, full: Seq<u8>|
                body@.is_prefix_of(longer) && #[trigger] deflate_whole(longer, full)
                    ==> output@.is_prefix_of(full),
            body_len == body@.len(),
            sentinel_limit == sentinel(limit),
            limit == limit_or_max(output_limit),
            zlib_framing(body@) == Ok::<bool, DecodeErrorView>(zlib_header),
            inflate_calls(decoder).0 == zlib_header,
            inflate_totals(decoder).0 <= body@.len(),
            inflate_totals(decoder).1 == output@.len(),
            output@.len() <= sentinel_limit,
            deflate_result(body@, output_limit, input_truncated) == deflate_run(
                zlib_header,
                body@,
                limit,
                input_truncated,
                inflate_calls(decoder).1,
                inflate_totals(decoder).0,
                output@,
            ),
        decreases body_len - inflate_totals(decoder).0 + usize::MAX - output@.len(),
    {
        let left: usize = sentinel_limit - output.len();
        let room: usize = if left < READ_BUFFER {
            left
        } else {
            READ_BUFFER
        };
        if room == 0 {
            return Ok(LimitedDecompressedBody { bytes: output, truncated: true });
        }
        let before_in: u64 = decoder.total_in();
        let before_out: u64 = decoder.total_out();
        let offset: usize = before_in as usize;
        let input = vstd::slice::slice_subrange(body, offset, body_len);
        assert(input@ =~= body@.skip(offset as int));
        let mut buffer: Vec<u8> = vec![0u8; room];
        let ghost calls = inflate_calls(decoder).1;
        let ghost written = output@;
        let status = inflate(&mut decoder, input, &mut buffer, offset == body_len);
        let ghost made = inflate_calls(decoder).1;
        assert(made == calls.push(deflate_call(body@, limit, offset as nat, written.len())));
        let ghost reply = inflate_reply(zlib_header, made);
        let consumed: usize = (decoder.total_in() - before_in) as usize;
        let produced: usize = (decoder.total_out() - before_out) as usize;
        buffer.truncate(produced);
        assert(buffer@ =~= reply.output);
        output.append(&mut buffer);
        assert(output@ == written + reply.output);
        assert(output.len() <= usize::MAX);
        proof {
            assert(made.drop_last() =~= calls);
            assert forall|longer: Seq<u8>, full: Seq<u8>|
                body@.is_prefix_of(longer) && #[trigger] deflate_whole(longer, full) implies {
                &&& output@.is_prefix_of(full)
                &&& reply.status == Ok::<InflateStatus, Seq<char>>(InflateStatus::StreamEnd)
                    ==> output@ == full
                &&& output@.len() > limit ==> output@.take(limit as int).is_prefix_of(full)
            } by {
                lemma_framing_of_longer(body@, longer);
                assert(fed(zlib_header, made, body@));
                let other = choose|other: Seq<InflateCall>| #[trigger]
                    inflate_reaches(zlib_header, other, longer, full);
                assert(inflate_reaches(zlib_header, other, longer, full));
                assert(fed(zlib_header, other, longer));
                lemma_agreeing_start(output@, inflated(zlib_header, other), full);
            }
        }
        let all_consumed = decoder.total_in() == body_len as u64;
        match deflate_step(
            output,
            status,
            consumed > 0 || produced > 0,
            all_consumed,
            zlib_header,
            limit,
            input_truncated,
        ) {
            Step::Done(result) => {
                return result;
            },
            Step::More(more) => {
                output = more;
            },
        }
    }
}

/// What a read of a decoder leads to: more reads, or the end.
pub enum PrefixStep {
    /// What was decoded so far, and whether the last read came to the end.
    More(Vec<u8>, bool),
    Done(Result<LimitedDecompressedBody, DecodeError>),
}

/// A step of reading as a mathematical value.
pub enum PrefixStepView {
    More(Seq<u8>, bool),
    Done(LimitedResult),
}

impl View for PrefixStep {
    type V = PrefixStepView;

    open spec fn view(&self) -> PrefixStepView {
        match self {
            PrefixStep::More(output, saw_eof) => PrefixStepView::More(output@, *saw_eof),
            PrefixStep::Done(result) => PrefixStepView::Done(limited_view(*result)),
        }
    }
}

/// What follows a read. Two empty reads in a row are the end; an error after some output ends
/// an input that is known to be cut off, and is an error otherwise.
pub open spec fn prefix_verdict(
    output: Seq<u8>,
    saw_eof: bool,
    chunk: ChunkView,
    limit: usize,
    input_truncated: bool,
) -> PrefixStepView {
    match chunk {
        Err(error) => PrefixStepView::Done(
            if input_truncated && output.len() > 0 {
                Ok(LimitedView { bytes: output, truncated: true })
            } else {
                Err(error)
            },
        ),
        Ok(bytes) => {
            let all = output + bytes;
            if bytes.len() == 0 && saw_eof {
                PrefixStepView::Done(Ok(LimitedView { bytes: output, truncated: input_truncated }))
            } else if bytes.len() == 0 {
                PrefixStepView::More(output, true)
            } else if all.len() > limit {
                PrefixStepView::Done(
                    Ok(LimitedView { bytes: all.take(limit as int), truncated: true }),
                )
            } else {
                PrefixStepView::More(all, false)
            }
        },
    }
}

/// What follows a read.
pub fn prefix_step(
    output: Vec<u8>,
    saw_eof: bool,
    chunk: Result<Vec<u8>, DecodeError>,
    limit: usize,
    input_truncated: bool,
) -> (step: PrefixStep)
    requires
        output@.len() <= limit,
    ensures
        step@ == prefix_verdict(output@, saw_eof, chunk_view(chunk), limit, input_truncated),
{
    let mut output = output;
    let mut bytes = match chunk {
        Ok(bytes) => bytes,
        Err(error) => {
            return PrefixStep::Done(
                if input_truncated && output.len() > 0 {
                    Ok(LimitedDecompressedBody { bytes: output, truncated: true })
                } else {
                    Err(error)
                },
            );
        },
    };
    if bytes.len() == 0 {
        if saw_eof {
            return PrefixStep::Done(
                Ok(LimitedDecompressedBody { bytes: output, truncated: input_truncated }),
            );
        }
        return PrefixStep::More(output, true);
    }
    let ghost all = output@ + bytes@;
    let left: usize = limit - output.len();
    if bytes.len() > left {
        bytes.truncate(left);
        output.append(&mut bytes);
        assert(output@ =~= all.take(limit as int));
        return PrefixStep::Done(Ok(LimitedDecompressedBody { bytes: output, truncated: true }));
    }
    output.append(&mut bytes);
    PrefixStep::More(output, false)
}

/// What reading a decoder up to a limit comes to, and after how many reads, from the read
/// with number `next` on.
pub open spec fn prefix_run<R: ChunkReader>(
    body: Seq<u8>,
    next: nat,
    output: Seq<u8>,
    saw_eof: bool,
    limit: usize,
    input_truncated: bool,
) -> (LimitedResult, nat)
    decreases
            limit - output.len(),
            if saw_eof {
                0int
            } else {
                1int
            },
{
    match prefix_verdict(output, saw_eof, R::chunk_of(body, next), limit, input_truncated) {
        PrefixStepView::Done(result) => (result, next + 1),
        PrefixStepView::More(all, eof) => if all.len() <= limit && (all.len() > output.len() || (
        all.len() == output.len() && eof && !saw_eof)) {
            prefix_run::<R>(body, next + 1, all, eof, limit, input_truncated)
        } else {
            (Ok(LimitedView { bytes: output, truncated: true }), next + 1)
        },
    }
}

/// Reads a decoder up to a limit on its output. What a fresh one gives is the beginning of the
/// whole decoding.
#[verifier::loop_isolation(false)]
pub fn read_prefix<R: ChunkReader>(
    reader: &mut R,
    limit: usize,
    input_truncated: bool,
) -> (result: Result<LimitedDecompressedBody, DecodeError>)
    requires
        old(reader).valid(),
    ensures
        final(reader).valid(),
        final(reader).body() == old(reader).body(),
        ({
            let run = prefix_run::<R>(
                old(reader).body(),
                old(reader).reads(),
                Seq::empty(),
                false,
                limit,
                input_truncated,
            );
            &&& limited_view(result) == run.0
            &&& final(reader).reads() == run.1
        }),
        old(reader).handed() == Ok::<Seq<u8>, DecodeErrorView>(Seq::empty()) ==> forall|
            longer: Seq<u8>,
            full: Seq<u8>,
        |
            old(reader).body().is_prefix_of(longer) && #[trigger] R::is_whole(longer, full)
                ==> is_start(limited_view(result), full, longer == old(reader).body()),
{
    let mut output: Vec<u8> = Vec::new();
    let mut saw_eof = false;
    let ghost fresh = reader.handed() == Ok::<Seq<u8>, DecodeErrorView>(Seq::empty());
    assert(output@ =~= Seq::<u8>::empty());
    loop
        invariant
            fresh == (old(reader).handed() == Ok::<Seq<u8>, DecodeErrorView>(Seq::empty())),
            fresh ==> reader.handed() == Ok::<Seq<u8>, DecodeErrorView>(output@),
            fresh ==> forall|longer: Seq<u8>, full: Seq<u8>|
                old(reader).body().is_prefix_of(longer) && #[trigger] R::is_whole(longer, full)
                    ==> output@.is_prefix_of(full),
            reader.valid(),
            reader.body() == old(reader).body(),
            output@.len() <= limit,
            prefix_run::<R>(
                old(reader).body(),
                old(reader).reads(),
                Seq::empty(),
                false,
                limit,
                input_truncated,
            ) == prefix_run::<R>(
                old(reader).body(),
                reader.reads(),
                output@,
                saw_eof,
                limit,
                input_truncated,
            ),
        decreases
                limit - output@.len(),
                if saw_eof {
                    0int
                } else {
                    1int
                },
    {
        let ghost before = output@;
        let chunk = reader.read_chunk();
        proof {
            if fresh {
                if let Ok(bytes) = chunk_view(chunk) {
                    let all = before + bytes;
                    assert(reader.handed() == Ok::<Seq<u8>, DecodeErrorView>(all));
                    if bytes.len() == 0 {
                        assert(bytes =~= Seq::<u8>::empty());
                        assert(all =~= before);
                    }
                    if all.len() > limit {
                        assert forall|longer: Seq<u8>, full: Seq<u8>|
                            old(reader).body().is_prefix_of(longer) && #[trigger] R::is_whole(
                                longer,
                                full,
                            ) implies all.take(limit as int).is_prefix_of(full) by {
                            assert(addressable(all).is_prefix_of(full));
                        }
                    }
                }
            }
        }
        match prefix_step(output, saw_eof, chunk, limit, input_truncated) {
            PrefixStep::Done(result) => {
                return result;
            },
            PrefixStep::More(more, eof) => {
                output = more;
                saw_eof = eof;
            },
        }
    }
}

/// What decoding a brotli body comes to. Bytes left over after the stream are an error.
pub open spec fn brotli_result(
    body: Seq<u8>,
    limit: usize,
    input_truncated: bool,
    enforce_window_limit: bool,
) -> LimitedResult {
    let run = prefix_run::<BrotliReader>(body, 0, Seq::empty(), false, limit, input_truncated);
    match brotli_window_error(body) {
        Some(error) if enforce_window_limit => Err(error),
        _ => match run.0 {
            Ok(decoded) if !decoded.truncated && brotli_left(
                body,
                READ_BUFFER as nat,
                full_reads(run.1),
            ) != 0 => Err(invalid("brotli stream has trailing bytes"@)),
            result => result,
        },
    }
}

/// Decodes a brotli body. What comes out under a limit is the beginning of the whole decoding.
pub fn decompress_brotli(
    body: &[u8],
    limit: usize,
    input_truncated: bool,
    enforce_window_limit: bool,
) -> (result: Result<LimitedDecompressedBody, DecodeError>)
    ensures
        limited_view(result) == brotli_result(body@, limit, input_truncated, enforce_window_limit),
        forall|longer: Seq<u8>, full: Seq<u8>|
            body@.is_prefix_of(longer) && #[trigger] brotli_whole(longer, full) ==> is_start(
                limited_view(result),
                full,
                longer == body@,
            ),
{
    if enforce_window_limit {
        match validate_brotli_window(body) {
            Ok(()) => {},
            Err(error) => {
                return Err(error);
            },
        }
    }
    let mut reader = BrotliReader::new(body);
    let read = read_prefix(&mut reader, limit, input_truncated);
    proof {
        assert forall|longer: Seq<u8>, full: Seq<u8>|
            body@.is_prefix_of(longer) && #[trigger] brotli_whole(longer, full) implies is_start(
            limited_view(read),
            full,
            longer == body@,
        ) by {
            assert(BrotliReader::is_whole(longer, full));
        }
    }
    match read {
        Ok(decoded) => {
            if !decoded.truncated && reader.unread() != 0 {
                return Err(invalid_data("brotli stream has trailing bytes".to_owned()));
            }
            Ok(decoded)
        },
        Err(error) => Err(error),
    }
}

/// What decoding one coding under a limit comes to; `None` for a coding that is not supported.
pub open spec fn single_limited(
    coding: Seq<char>,
    body: Seq<u8>,
    limit: usize,
    input_truncated: bool,
) -> Option<LimitedResult> {
    if coding == "gzip"@ || coding == "x-gzip"@ {
        Some(prefix_run::<GzipReader>(body, 0, Seq::empty(), false, limit, input_truncated).0)
    } else if coding == "deflate"@ {
        Some(deflate_result(body, Some(limit), input_truncated))
    } else if coding == "br"@ {
        Some(brotli_result(body, limit, input_truncated, true))
    } else if coding == "zstd"@ || coding == "zst"@ {
        Some(
            match zstd_setup_error(body) {
                Some(error) => Err(error),
                None => prefix_run::<ZstdReader>(
                    body,
                    0,
                    Seq::empty(),
                    false,
                    limit,
                    input_truncated,
                ).0,
            },
        )
    } else {
        None
    }
}

/// The value of an optional decoded body or of the error in its place.
pub open spec fn opt_limited_view(
    result: Result<Option<LimitedDecompressedBody>, DecodeError>,
) -> Result<Option<LimitedView>, DecodeErrorView> {
    match result {
        Ok(Some(body)) => Ok(Some(body@)),
        Ok(None) => Ok(None),
        Err(error) => Err(error@),
    }
}

fn found(result: Result<LimitedDecompressedBody, DecodeError>) -> (wrapped: Result<
    Option<LimitedDecompressedBody>,
    DecodeError,
>)
    ensures
        opt_limited_view(wrapped) == (match limited_view(result) {
            Ok(body) => Ok::<Option<LimitedView>, DecodeErrorView>(Some(body)),
            Err(error) => Err(error),
        }),
{
    match result {
        Ok(body) => Ok(Some(body)),
        Err(error) => Err(error),
    }
}

/// Whether one coding of a body decodes to these bytes without a limit.
pub open spec fn single_whole(coding: Seq<char>, body: Seq<u8>, full: Seq<u8>) -> bool {
    single_result(coding, body, usize::MAX) == Some(Ok::<Seq<u8>, DecompressErrorView>(full))
}

/// Whether decoding under a limit gave the beginning of what the coding decodes to without one, of
/// this body and of every longer one, and all of it where nothing was cut off.
pub open spec fn starts_coding(coding: Seq<char>, body: Seq<u8>, decoded: LimitedView) -> bool {
    forall|longer: Seq<u8>, full: Seq<u8>|
        body.is_prefix_of(longer) && #[trigger] single_whole(coding, longer, full) ==> is_start(
            Ok(decoded),
            full,
            longer == body,
        )
}

/// Decodes one coding under a limit; `None` for a coding that is not supported. What comes out is
/// the beginning of what the coding decodes to without a limit, of this body and of every longer
/// one, and all of it where nothing was cut off.
pub fn decompress_single_limited(
    coding: &str,
    body: &[u8],
    limit: usize,
    input_truncated: bool,
) -> (result: Result<Option<LimitedDecompressedBody>, DecodeError>)
    ensures
        opt_limited_view(result) == (match single_limited(coding@, body@, limit, input_truncated) {
            Some(Ok(decoded)) => Ok::<Option<LimitedView>, DecodeErrorView>(Some(decoded)),
            Some(Err(error)) => Err(error),
            None => Ok(None),
        }),
        opt_limited_view(result) matches Ok(Some(decoded)) ==> starts_coding(
            coding@,
            body@,
            decoded,
        ),
{
    let decoded = if same_text(coding, "gzip") || same_text(coding, "x-gzip") {
        let mut reader = GzipReader::new(body);
        read_prefix(&mut reader, limit, input_truncated)
    } else if same_text(coding, "deflate") {
        decompress_deflate(body, Some(limit), input_truncated)
    } else if same_text(coding, "br") {
        decompress_brotli(body, limit, input_truncated, true)
    } else if same_text(coding, "zstd") || same_text(coding, "zst") {
        match ZstdReader::new(body) {
            Ok(reader) => {
                let mut reader = reader;
                read_prefix(&mut reader, limit, input_truncated)
            },
            Err(error) => Err(error),
        }
    } else {
        return Ok(None);
    };
    proof {
        assert forall|longer: Seq<u8>, full: Seq<u8>|
            body@.is_prefix_of(longer) && #[trigger] single_whole(
                coding@,
                longer,
                full,
            ) implies is_start(limited_view(decoded), full, longer == body@) by {
            names_of_codings_differ();
            lemma_whole_by_coding(coding@, longer, full);
            assert(coding@ == "gzip"@ || coding@ == "x-gzip"@ ==> GzipReader::is_whole(longer, full));
            assert(coding@ == "zstd"@ || coding@ == "zst"@ ==> ZstdReader::is_whole(longer, full));
        }
    }
    found(decoded)
}

/// What decodes without a limit is whole by its decoder.
proof fn lemma_whole_by_coding(coding: Seq<char>, body: Seq<u8>, full: Seq<u8>)
    requires
        single_whole(coding, body, full),
    ensures
        coding == "gzip"@ || coding == "x-gzip"@ ==> gzip_whole(body, full),
        coding == "deflate"@ ==> deflate_whole(body, full),
        coding == "br"@ ==> brotli_whole(body, full),
        coding == "zstd"@ || coding == "zst"@ ==> zstd_whole(body, full),
{
    names_of_codings_differ();
    if coding == "deflate"@ {
        lemma_whole_deflate_run(
            zlib_framing(body)->Ok_0,
            body,
            Seq::empty(),
            0,
            Seq::empty(),
        );
    } else if coding == "br"@ {
        assert(full_reads(0) =~= Seq::<nat>::empty());
        lemma_whole_brotli_run(body, 0, Seq::empty(), false);
    }
}

/// The names of the codings are all different.
proof fn names_of_codings_differ()
    ensures
        "gzip"@ != "deflate"@,
        "gzip"@ != "br"@,
        "gzip"@ != "zstd"@,
        "gzip"@ != "zst"@,
        "x-gzip"@ != "deflate"@,
        "x-gzip"@ != "br"@,
        "x-gzip"@ != "zstd"@,
        "x-gzip"@ != "zst"@,
        "deflate"@ != "br"@,
        "deflate"@ != "zstd"@,
        "deflate"@ != "zst"@,
        "br"@ != "zstd"@,
        "br"@ != "zst"@,
{
    reveal_strlit("gzip");
    reveal_strlit("x-gzip");
    reveal_strlit("deflate");
    reveal_strlit("br");
    reveal_strlit("zstd");
    reveal_strlit("zst");
    assert("gzip"@[0] == 'g');
    assert("zstd"@[0] == 'z');
    assert("x-gzip"@.len() == 6);
    assert("deflate"@.len() == 7);
    assert("br"@.len() == 2);
    assert("zst"@.len() == 3);
}

/// A deflate body that decodes without a limit comes to the end of its stream, or as far as can be
/// addressed.
proof fn lemma_whole_deflate_run(
    zlib_header: bool,
    body: Seq<u8>,
    calls: Seq<InflateCall>,
    consumed: nat,
    output: Seq<u8>,
)
    requires
        fed(zlib_header, calls, body),
        inflated(zlib_header, calls) == output,
        inflate_consumed(zlib_header, calls) == consumed,
        consumed <= body.len(),
    ensures
        deflate_run(
            zlib_header,
            body,
            usize::MAX,
            false,
            calls,
            consumed,
            output,
        ) matches Ok(decoded) ==> inflate_whole(zlib_header, body, decoded.bytes),
    decreases body.len() - consumed + usize::MAX - output.len(),
{
    let run = deflate_run(zlib_header, body, usize::MAX, false, calls, consumed, output);
    if output.len() >= sentinel(usize::MAX) {
        assert(output.subrange(0, output.len() as int) =~= output);
        assert(inflate_reaches(zlib_header, calls, body, output));
    } else if run is Ok {
        let made = calls.push(deflate_call(body, usize::MAX, consumed, output.len()));
        let reply = inflate_reply(zlib_header, made);
        let all_in = consumed + reply.consumed;
        let all_out = output + reply.output;
        assert(made.drop_last() =~= calls);
        assert(fed(zlib_header, made, body));
        assert(inflated(zlib_header, made) == all_out);
        match deflate_verdict(
            all_out,
            reply.status,
            reply.consumed > 0 || reply.output.len() > 0,
            all_in == body.len(),
            zlib_header,
            usize::MAX,
            false,
        ) {
            StepView::Done(result) => {
                assert(inflate_reaches(zlib_header, made, body, result->Ok_0.bytes));
            },
            StepView::More(_) => {
                if all_in <= body.len() && all_out.len() <= usize::MAX && (all_in > consumed
                    || all_out.len() > output.len()) {
                    lemma_whole_deflate_run(zlib_header, body, made, all_in as nat, all_out);
                }
            },
        }
    }
}

/// A brotli body that decodes without a limit is read to its end, or as far as can be addressed.
proof fn lemma_whole_brotli_run(body: Seq<u8>, next: nat, output: Seq<u8>, saw_eof: bool)
    requires
        brotli_bytes(body, READ_BUFFER as nat, full_reads(next)) == Ok::<Seq<u8>, DecodeErrorView>(
            output,
        ),
        output.len() <= usize::MAX,
    ensures
        prefix_run::<BrotliReader>(
            body,
            next,
            output,
            saw_eof,
            usize::MAX,
            false,
        ).0 matches Ok(decoded) ==> brotli_whole(body, decoded.bytes),
    decreases
            usize::MAX - output.len(),
            if saw_eof {
                0int
            } else {
                1int
            },
{
    let sizes = full_reads(next + 1);
    assert(sizes.drop_last() =~= full_reads(next));
    let chunk = BrotliReader::chunk_of(body, next);
    match prefix_verdict(output, saw_eof, chunk, usize::MAX, false) {
        PrefixStepView::Done(result) => {
            if result is Ok {
                if chunk->Ok_0.len() == 0 {
                    assert(chunk->Ok_0 =~= Seq::<u8>::empty());
                    assert(output + chunk->Ok_0 =~= output);
                    assert(brotli_ends(body, READ_BUFFER as nat, sizes, output));
                }
                assert(brotli_reaches(body, READ_BUFFER as nat, sizes, result->Ok_0.bytes));
            }
        },
        PrefixStepView::More(all, eof) => {
            if chunk->Ok_0.len() == 0 {
                assert(output + chunk->Ok_0 =~= output);
            }
            lemma_whole_brotli_run(body, next + 1, all, eof);
        },
    }
}

/// A decoded body or the decompression error in its place.
pub type DecompressResult = Result<Seq<u8>, DecompressErrorView>;

/// What decoding one coding comes to; the limit `usize::MAX` stands for none. `None` for a
/// coding that is not supported.
pub open spec fn single_result(
    coding: Seq<char>,
    body: Seq<u8>,
    max_output_bytes: usize,
) -> Option<DecompressResult> {
    if max_output_bytes != usize::MAX {
        match single_limited(coding, body, max_output_bytes, false) {
            Some(Ok(decoded)) => Some(
                if decoded.truncated {
                    Err(DecompressErrorView::TooLarge { limit: max_output_bytes })
                } else {
                    Ok(decoded.bytes)
                },
            ),
            Some(Err(error)) => Some(Err(DecompressErrorView::Io(error))),
            None => None,
        }
    } else if coding == "gzip"@ || coding == "x-gzip"@ {
        Some(whole(gzip_decoded(body)))
    } else if coding == "deflate"@ {
        Some(unlimited(deflate_result(body, None, false)))
    } else if coding == "br"@ {
        Some(unlimited(brotli_result(body, usize::MAX, false, false)))
    } else if coding == "zstd"@ || coding == "zst"@ {
        Some(whole(zstd_decoded(body)))
    } else {
        None
    }
}

/// The bytes of a body that was decoded as a whole.
pub open spec fn whole(decoded: ChunkView) -> DecompressResult {
    match decoded {
        Ok(bytes) => Ok(bytes),
        Err(error) => Err(DecompressErrorView::Io(error)),
    }
}

/// The bytes of a body that was decoded without a limit.
pub open spec fn unlimited(decoded: LimitedResult) -> DecompressResult {
    match decoded {
        Ok(decoded) => Ok(decoded.bytes),
        Err(error) => Err(DecompressErrorView::Io(error)),
    }
}

/// The value of an optional decoded body or of the decompression error in its place.
pub open spec fn opt_bytes_view(result: Result<Option<Vec<u8>>, DecompressError>) -> Result<
    Option<Seq<u8>>,
    DecompressErrorView,
> {
    match result {
        Ok(Some(bytes)) => Ok(Some(bytes@)),
        Ok(None) => Ok(None),
        Err(error) => Err(error@),
    }
}

/// A result that may be none as a result of an option.
pub open spec fn transposed(result: Option<DecompressResult>) -> Result<
    Option<Seq<u8>>,
    DecompressErrorView,
> {
    match result {
        Some(Ok(bytes)) => Ok(Some(bytes)),
        Some(Err(error)) => Err(error),
        None => Ok(None),
    }
}

/// Decodes one coding; `None` for a coding that is not supported. A limit that is not exceeded
/// makes no difference.
pub fn decompress_single(coding: &str, body: &[u8], max_output_bytes: usize) -> (result: Result<
    Option<Vec<u8>>,
    DecompressError,
>)
    ensures
        opt_bytes_view(result) == transposed(single_result(coding@, body@, max_output_bytes)),
        forall|full: Seq<u8>| #[trigger]
            single_whole(coding@, body@, full) ==> (opt_bytes_view(result) matches Ok(Some(decoded))
                ==> decoded == full),
{
    if max_output_bytes != usize::MAX {
        return match decompress_single_limited(coding, body, max_output_bytes, false) {
            Ok(Some(decoded)) => if decoded.truncated {
                Err(DecompressError::TooLarge { limit: max_output_bytes })
            } else {
                Ok(Some(decoded.bytes))
            },
            Ok(None) => Ok(None),
            Err(error) => Err(DecompressError::Io(error)),
        };
    }
    if same_text(coding, "gzip") || same_text(coding, "x-gzip") {
        match gzip_decode_all(body) {
            Ok(decoded) => Ok(Some(decoded)),
            Err(error) => Err(DecompressError::Io(error)),
        }
    } else if same_text(coding, "deflate") {
        match decompress_deflate(body, None, false) {
            Ok(decoded) => Ok(Some(decoded.bytes)),
            Err(error) => Err(DecompressError::Io(error)),
        }
    } else if same_text(coding, "br") {
        match decompress_brotli(body, usize::MAX, false, false) {
            Ok(decoded) => Ok(Some(decoded.bytes)),
            Err(error) => Err(DecompressError::Io(error)),
        }
    } else if same_text(coding, "zstd") || same_text(coding, "zst") {
        match zstd_decode_all(body) {
            Ok(decoded) => Ok(Some(decoded)),
            Err(error) => Err(DecompressError::Io(error)),
        }
    } else {
        Ok(None)
    }
}

/// What undoing a list of codings comes to: the coding applied last is undone first.
pub open spec fn undo_codings(
    list: Seq<Seq<char>>,
    body: Seq<u8>,
    max_output_bytes: usize,
) -> Option<DecompressResult>
    decreases list.len(),
{
    if list.len() == 0 {
        Some(Ok(body))
    } else {
        match single_result(list.last(), body, max_output_bytes) {
            Some(Ok(decoded)) => undo_codings(list.drop_last(), decoded, max_output_bytes),
            stop => stop,
        }
    }
}

/// What decoding a body comes to; `None` where it is passed through untouched.
pub open spec fn decompress_result(
    content_encoding: Seq<char>,
    body: Seq<u8>,
    max_output_bytes: usize,
) -> Option<DecompressResult> {
    if supported_encoding(content_encoding) {
        undo_codings(codings(content_encoding), body, max_output_bytes)
    } else {
        None
    }
}

/// Decodes a body, each coding in turn under the limit; `None` where a coding is not supported
/// and the body is passed through with its header. A limit that no coding exceeds makes no
/// difference.
#[verifier::loop_isolation(false)]
pub fn decompress_body_with_limit(
    content_encoding: &str,
    body: &[u8],
    max_output_bytes: usize,
) -> (result: Result<Option<Vec<u8>>, DecompressError>)
    ensures
        opt_bytes_view(result) == transposed(
            decompress_result(content_encoding@, body@, max_output_bytes),
        ),
        whole_decoding(content_encoding@, body@) matches Some(full) ==> (opt_bytes_view(
            result,
        ) matches Ok(Some(decoded)) ==> decoded == full),
{
    let list = split_codings(content_encoding);
    if list.len() == 0 {
        return Ok(None);
    }
    if !all_supported(&list) {
        return Ok(None);
    }
    let ghost names = texts_view(list@);
    let mut left: usize = list.len() - 1;
    assert(list@[left as int]@ == names.last());
    let mut data = match decompress_single(list[left].as_str(), body, max_output_bytes) {
        Ok(Some(decoded)) => decoded,
        Ok(None) => {
            return Ok(None);
        },
        Err(error) => {
            return Err(error);
        },
    };
    assert(names.take(left as int) =~= names.drop_last());
    proof {
        reveal_with_fuel(undone, 2);
        if let Some(inner) = undone(names, body@, 1) {
            assert(single_whole(names.last(), body@, inner));
        }
    }
    while left > 0
        invariant
            left < list@.len(),
            names == texts_view(list@),
            undone(names, body@, (names.len() - left) as nat) matches Some(inner) ==> data@ == inner,
            undo_codings(names, body@, max_output_bytes) == undo_codings(
                names.take(left as int),
                data@,
                max_output_bytes,
            ),
        decreases left,
    {
        left = left - 1;
        assert(names.take(left + 1).drop_last() =~= names.take(left as int));
        assert(names.take(left + 1).last() == list@[left as int]@);
        match decompress_single(list[left].as_str(), data.as_slice(), max_output_bytes) {
            Ok(Some(decoded)) => {
                proof {
                    let count = (names.len() - left) as nat;
                    if let Some(full) = undone(names, body@, count) {
                        let inner = undone(names, body@, (count - 1) as nat);
                        assert(inner is Some);
                        assert(names[names.len() - count] == list@[left as int]@);
                        assert(single_whole(list@[left as int]@, inner->Some_0, full));
                    }
                }
                data = decoded;
            },
            Ok(None) => {
                return Ok(None);
            },
            Err(error) => {
                return Err(error);
            },
        }
    }
    proof {
        lemma_whole_decoding(content_encoding@, body@);
    }
    Ok(Some(data))
}

/// Decodes a body without a limit on the output.
pub fn decompress_body(content_encoding: &str, body: &[u8]) -> (result: Result<
    Option<Vec<u8>>,
    DecodeError,
>)
    ensures
        match result {
            Ok(Some(decoded)) => decompress_result(content_encoding@, body@, usize::MAX) == Some(
                Ok::<Seq<u8>, DecompressErrorView>(decoded@),
            ),
            Ok(None) => decompress_result(content_encoding@, body@, usize::MAX) is None,
            Err(error) => decompress_result(content_encoding@, body@, usize::MAX) matches Some(
                Err(cause),
            ) && error@ == plain_error(cause),
        },
{
    match decompress_body_with_limit(content_encoding, body, usize::MAX) {
        Ok(decoded) => Ok(decoded),
        Err(error) => Err(error.into_decode_error()),
    }
}

/// What undoing a list of codings under a limit comes to; each layer inherits whether its input
/// was cut off.
pub open spec fn undo_codings_limited(
    list: Seq<Seq<char>>,
    input: LimitedView,
    limit: usize,
) -> Option<LimitedResult>
    decreases list.len(),
{
    if list.len() == 0 {
        Some(Ok(input))
    } else {
        match single_limited(list.last(), input.bytes, limit, input.truncated) {
            Some(Ok(decoded)) => undo_codings_limited(list.drop_last(), decoded, limit),
            stop => stop,
        }
    }
}

/// What decoding a body under a limit on every layer comes to; `None` where it is passed
/// through untouched.
pub open spec fn decompress_limited_result(
    content_encoding: Seq<char>,
    body: Seq<u8>,
    limit: usize,
    initial_input_truncated: bool,
) -> Option<LimitedResult> {
    if supported_encoding(content_encoding) {
        undo_codings_limited(
            codings(content_encoding),
            LimitedView {
                bytes: if body.len() > limit {
                    body.take(limit as int)
                } else {
                    body
                },
                truncated: initial_input_truncated || body.len() > limit,
            },
            limit,
        )
    } else {
        None
    }
}

/// A limited result that may be none as a result of an option.
pub open spec fn transposed_limited(result: Option<LimitedResult>) -> Result<
    Option<LimitedView>,
    DecodeErrorView,
> {
    match result {
        Some(Ok(decoded)) => Ok(Some(decoded)),
        Some(Err(error)) => Err(error),
        None => Ok(None),
    }
}

/// A body with the last codings of a list undone without a limit, where that can be done.
pub open spec fn undone(list: Seq<Seq<char>>, body: Seq<u8>, count: nat) -> Option<Seq<u8>>
    decreases count,
{
    if count == 0 {
        Some(body)
    } else {
        match undone(list, body, (count - 1) as nat) {
            Some(inner) => match single_result(list[list.len() - count], inner, usize::MAX) {
                Some(Ok(decoded)) => Some(decoded),
                _ => None,
            },
            None => None,
        }
    }
}

/// What decoding a whole body without a limit gives, where it can be decoded.
pub open spec fn whole_decoding(content_encoding: Seq<char>, body: Seq<u8>) -> Option<Seq<u8>> {
    match decompress_result(content_encoding, body, usize::MAX) {
        Some(Ok(full)) => Some(full),
        _ => None,
    }
}

/// What comes out once all codings are undone is what the last of them decodes to.
proof fn lemma_undone_is_on_the_way(list: Seq<Seq<char>>, body: Seq<u8>, count: nat)
    requires
        count <= list.len(),
        undo_codings(list, body, usize::MAX) matches Some(Ok(_)),
    ensures
        undone(list, body, count) matches Some(inner) && undo_codings(list, body, usize::MAX)
            == undo_codings(list.take(list.len() - count), inner, usize::MAX),
    decreases count,
{
    if count == 0 {
        assert(list.take(list.len() as int) =~= list);
    } else {
        lemma_undone_is_on_the_way(list, body, (count - 1) as nat);
        let left = list.take(list.len() - count + 1);
        assert(left.drop_last() =~= list.take(list.len() - count));
        assert(left.last() == list[list.len() - count]);
    }
}

/// The whole decoding is what comes out once all codings are undone.
proof fn lemma_whole_decoding(content_encoding: Seq<char>, body: Seq<u8>)
    ensures
        whole_decoding(content_encoding, body) matches Some(full) ==> {
            let list = codings(content_encoding);
            undone(list, body, list.len()) == Some(full)
        },
{
    if whole_decoding(content_encoding, body) is Some {
        let list = codings(content_encoding);
        lemma_undone_is_on_the_way(list, body, list.len());
        assert(list.take(0).len() == 0);
    }
}

/// Whether a layer is the beginning of what undoing that many codings without a limit gives, of a
/// body or, where that one is only a prefix, of every body that it is a prefix of.
#[verifier::opaque]
pub open spec fn starts_of_whole(
    list: Seq<Seq<char>>,
    body: Seq<u8>,
    cut: bool,
    count: nat,
    layer: LimitedView,
) -> bool {
    forall|longer: Seq<u8>|
        (longer == body || (cut && body.is_prefix_of(longer))) && (#[trigger] undone(
            list,
            longer,
            count,
        )) is Some ==> is_start(
            Ok(layer),
            undone(list, longer, count)->Some_0,
            true,
        )
}

proof fn lemma_layer_starts(
    list: Seq<Seq<char>>,
    body: Seq<u8>,
    cut: bool,
    count: nat,
    before: LimitedView,
    layer: LimitedView,
    limit: usize,
)
    requires
        0 < count <= list.len(),
        starts_of_whole(list, body, cut, (count - 1) as nat, before),
        single_limited(list[list.len() - count], before.bytes, limit, before.truncated) == Some(
            Ok::<LimitedView, DecodeErrorView>(layer),
        ),
        starts_coding(list[list.len() - count], before.bytes, layer),
    ensures
        starts_of_whole(list, body, cut, count, layer),
{
    reveal(starts_of_whole);
    let coding = list[list.len() - count];
    lemma_cut_inputs_stay_marked(coding, before.bytes, limit, before.truncated);
    assert forall|longer: Seq<u8>|
        (longer == body || (cut && body.is_prefix_of(longer))) && (#[trigger] undone(
            list,
            longer,
            count,
        )) is Some implies is_start(
        Ok(layer),
        undone(list, longer, count)->Some_0,
        true,
    ) by {
        let inner = undone(list, longer, (count - 1) as nat);
        let full = undone(list, longer, count)->Some_0;
        assert(inner is Some);
        assert(single_whole(coding, inner->Some_0, full));
    }
}

/// Decodes a body, keeping at most `limit` bytes of the input and of the output of every layer.
/// `initial_input_truncated` says that the body is already only a prefix. However many codings are
/// stacked, what comes out is the beginning of the whole decoding, of this body or, where it is
/// only a prefix, of every body that it is a prefix of. It keeps to the limit, is all of the whole
/// decoding where nothing was cut off, and says so where the body was.
#[verifier::loop_isolation(false)]
pub fn decompress_body_limited(
    content_encoding: &str,
    body: &[u8],
    limit: usize,
    initial_input_truncated: bool,
) -> (result: Result<Option<LimitedDecompressedBody>, DecodeError>)
    ensures
        opt_limited_view(result) == transposed_limited(
            decompress_limited_result(
                content_encoding@,
                body@,
                limit,
                initial_input_truncated,
            ),
        ),
        opt_limited_view(result) matches Ok(Some(decoded)) ==> {
            &&& decoded.bytes.len() <= limit
            &&& initial_input_truncated || body@.len() > limit ==> decoded.truncated
        },
        forall|longer: Seq<u8>|
            (longer == body@ || (initial_input_truncated && body@.is_prefix_of(longer))) && (
            #[trigger] whole_decoding(content_encoding@, longer)) is Some ==> (opt_limited_view(
                result,
            ) matches Ok(Some(decoded)) ==> is_start(
                Ok(decoded),
                whole_decoding(content_encoding@, longer)->Some_0,
                true,
            )),
{
    let list = split_codings(content_encoding);
    if list.len() == 0 {
        return Ok(None);
    }
    if !all_supported(&list) {
        return Ok(None);
    }
    let ghost names = texts_view(list@);
    let cut = body.len() > limit;
    let initial_input = if cut {
        vstd::slice::slice_subrange(body, 0, limit)
    } else {
        body
    };
    let ghost input = LimitedView {
        bytes: if body@.len() > limit {
            body@.take(limit as int)
        } else {
            body@
        },
        truncated: initial_input_truncated || body@.len() > limit,
    };
    assert(initial_input@ =~= input.bytes);
    let mut left: usize = list.len() - 1;
    assert(list@[left as int]@ == names.last());
    let first = decompress_single_limited(
        list[left].as_str(),
        initial_input,
        limit,
        initial_input_truncated || cut,
    );
    let mut data = match first {
        Ok(Some(decoded)) => decoded,
        Ok(None) => {
            return Ok(None);
        },
        Err(error) => {
            return Err(error);
        },
    };
    assert(names.take(left as int) =~= names.drop_last());
    proof {
        reveal(starts_of_whole);
        assert(starts_of_whole(names, body@, initial_input_truncated, 0, input));
        lemma_layer_starts(names, body@, initial_input_truncated, 1, input, data@, limit);
    }
    while left > 0
        invariant
            left < list@.len(),
            names == texts_view(list@),
            starts_of_whole(
                names,
                body@,
                initial_input_truncated,
                (names.len() - left) as nat,
                data@,
            ),
            undo_codings_limited(names, input, limit) == undo_codings_limited(
                names.take(left as int),
                data@,
                limit,
            ),
        decreases left,
    {
        left = left - 1;
        assert(names.take(left + 1).drop_last() =~= names.take(left as int));
        assert(names.take(left + 1).last() == list@[left as int]@);
        let ghost before = data@;
        let next = decompress_single_limited(
            list[left].as_str(),
            data.bytes.as_slice(),
            limit,
            data.truncated,
        );
        match next {
            Ok(Some(decoded)) => {
                proof {
                    lemma_layer_starts(
                        names,
                        body@,
                        initial_input_truncated,
                        (names.len() - left) as nat,
                        before,
                        decoded@,
                        limit,
                    );
                }
                data = decoded;
            },
            Ok(None) => {
                return Ok(None);
            },
            Err(error) => {
                return Err(error);
            },
        }
    }
    proof {
        reveal(starts_of_whole);
        assert forall|longer: Seq<u8>| (#[trigger] whole_decoding(
            content_encoding@,
            longer,
        )) is Some implies undone(names, longer, names.len()) == whole_decoding(
            content_encoding@,
            longer,
        ) by {
            lemma_whole_decoding(content_encoding@, longer);
        }
        decoded_prefix_is_limited(content_encoding@, body@, limit, initial_input_truncated);
        if initial_input_truncated || cut {
            cut_bodies_stay_marked(content_encoding@, body@, limit, initial_input_truncated);
        }
    }
    Ok(Some(data))
}

/// Texts joined by `", "`, each without white space at its ends, empty ones left out.
pub open spec fn joined_texts(texts: Seq<Seq<char>>) -> Seq<char>
    decreases texts.len(),
{
    if texts.len() == 0 {
        Seq::empty()
    } else {
        let before = joined_texts(texts.drop_last());
        let text = trimmed(texts.last());
        if text.len() == 0 {
            before
        } else if before.len() == 0 {
            text
        } else {
            before + ", "@ + text
        }
    }
}

/// The `content-encoding` of a list of headers: repeated headers joined, in lower case; none
/// where no coding is left.
pub open spec fn content_encoding_of(headers: HeadersView) -> Option<Seq<char>> {
    let combined = ascii_lowercase(joined_texts(header_texts(headers, "content-encoding"@)));
    if codings(combined).len() == 0 {
        None
    } else {
        Some(combined)
    }
}

/// The `content-encoding` of a list of headers: repeated headers joined, in lower case; none
/// where no coding is left.
pub fn get_content_encoding(headers: &Headers) -> (encoding: Option<String>)
    ensures
        match encoding {
            Some(text) => content_encoding_of(headers@) == Some(text@),
            None => content_encoding_of(headers@) is None,
        },
{
    let texts = headers.texts("content-encoding");
    let ghost views = texts_view(texts@);
    let mut combined = String::new();
    let mut i: usize = 0;
    while i < texts.len()
        invariant
            i <= texts@.len(),
            views == texts_view(texts@),
            combined@ == joined_texts(views.take(i as int)),
        decreases texts@.len() - i,
    {
        assert(views.take(i + 1).drop_last() =~= views.take(i as int));
        assert(views.take(i + 1).last() == texts@[i as int]@);
        let text = trim(texts[i].as_str());
        if !text.is_empty() {
            if combined.as_str().is_empty() {
                combined = text.to_owned();
            } else {
                combined.append(", ");
                combined.append(text);
            }
        }
        i = i + 1;
    }
    assert(views.take(i as int) =~= views);
    let lower = to_ascii_lowercase(combined.as_str());
    if split_codings(lower.as_str()).len() == 0 {
        None
    } else {
        Some(lower)
    }
}

/// A body is decoded exactly where its whole encoding is supported: one coding that is not
/// leaves the body untouched, whatever the others are.
pub proof fn decoded_exactly_where_supported(
    content_encoding: Seq<char>,
    body: Seq<u8>,
    max_output_bytes: usize,
    initial_input_truncated: bool,
)
    ensures
        decompress_result(content_encoding, body, max_output_bytes) is Some <==> supported_encoding(
            content_encoding,
        ),
        decompress_limited_result(
            content_encoding,
            body,
            max_output_bytes,
            initial_input_truncated,
        ) is Some <==> supported_encoding(content_encoding),
{
    if supported_encoding(content_encoding) {
        let list = codings(content_encoding);
        assert forall|i: int| 0 <= i < list.len() implies supported_coding(#[trigger] list[i]) by {
            assert(supported_coding(codings(content_encoding)[i]));
        }
        lemma_undo_is_some(list, body, max_output_bytes);
        let input = LimitedView {
            bytes: if body.len() > max_output_bytes {
                body.take(max_output_bytes as int)
            } else {
                body
            },
            truncated: initial_input_truncated || body.len() > max_output_bytes,
        };
        lemma_undo_limited_is_some(list, input, max_output_bytes);
    }
}

proof fn lemma_undo_is_some(list: Seq<Seq<char>>, body: Seq<u8>, max_output_bytes: usize)
    requires
        forall|i: int| 0 <= i < list.len() ==> supported_coding(#[trigger] list[i]),
    ensures
        undo_codings(list, body, max_output_bytes) is Some,
    decreases list.len(),
{
    if list.len() > 0 {
        assert(supported_coding(list[list.len() - 1]));
        match single_result(list.last(), body, max_output_bytes) {
            Some(Ok(decoded)) => {
                lemma_undo_is_some(list.drop_last(), decoded, max_output_bytes);
            },
            _ => {},
        }
    }
}

proof fn lemma_undo_limited_is_some(list: Seq<Seq<char>>, input: LimitedView, limit: usize)
    requires
        forall|i: int| 0 <= i < list.len() ==> supported_coding(#[trigger] list[i]),
    ensures
        undo_codings_limited(list, input, limit) is Some,
    decreases list.len(),
{
    if list.len() > 0 {
        assert(supported_coding(list[list.len() - 1]));
        match single_limited(list.last(), input.bytes, limit, input.truncated) {
            Some(Ok(decoded)) => {
                lemma_undo_limited_is_some(list.drop_last(), decoded, limit);
            },
            _ => {},
        }
    }
}

/// Stacked codings are undone in reverse: the one listed last first, the others on what it
/// gives.
pub proof fn stacked_codings_are_undone_in_reverse(
    inner: Seq<Seq<char>>,
    outer: Seq<char>,
    body: Seq<u8>,
    decoded: Seq<u8>,
    max_output_bytes: usize,
)
    requires
        single_result(outer, body, max_output_bytes) == Some(
            Ok::<Seq<u8>, DecompressErrorView>(decoded),
        ),
    ensures
        undo_codings(inner.push(outer), body, max_output_bytes) == undo_codings(
            inner,
            decoded,
            max_output_bytes,
        ),
{
    assert(inner.push(outer).drop_last() =~= inner);
}

proof fn lemma_prefix_run_is_limited<R: ChunkReader>(
    body: Seq<u8>,
    next: nat,
    output: Seq<u8>,
    saw_eof: bool,
    limit: usize,
    input_truncated: bool,
)
    requires
        output.len() <= limit,
    ensures
        prefix_run::<R>(body, next, output, saw_eof, limit, input_truncated).0 matches Ok(decoded)
            ==> decoded.bytes.len() <= limit,
    decreases
            limit - output.len(),
            if saw_eof {
                0int
            } else {
                1int
            },
{
    match prefix_verdict(output, saw_eof, R::chunk_of(body, next), limit, input_truncated) {
        PrefixStepView::Done(_) => {},
        PrefixStepView::More(all, eof) => {
            if all.len() > output.len() || (all.len() == output.len() && eof && !saw_eof) {
                lemma_prefix_run_is_limited::<R>(body, next + 1, all, eof, limit, input_truncated);
            }
        },
    }
}

proof fn lemma_deflate_run_is_limited(
    zlib_header: bool,
    body: Seq<u8>,
    limit: usize,
    input_truncated: bool,
    calls: Seq<InflateCall>,
    consumed: nat,
    output: Seq<u8>,
)
    requires
        output.len() <= limit,
    ensures
        deflate_run(
            zlib_header,
            body,
            limit,
            input_truncated,
            calls,
            consumed,
            output,
        ) matches Ok(decoded) ==> decoded.bytes.len() <= limit,
    decreases body.len() - consumed + usize::MAX - output.len(),
{
    if output.len() < sentinel(limit) {
        let made = calls.push(deflate_call(body, limit, consumed, output.len()));
        let reply = inflate_reply(zlib_header, made);
        let all_in = consumed + reply.consumed;
        let all_out = output + reply.output;
        match deflate_verdict(
            all_out,
            reply.status,
            reply.consumed > 0 || reply.output.len() > 0,
            all_in == body.len(),
            zlib_header,
            limit,
            input_truncated,
        ) {
            StepView::Done(_) => {},
            StepView::More(_) => {
                if all_in <= body.len() && all_out.len() <= usize::MAX && (all_in > consumed
                    || all_out.len() > output.len()) {
                    lemma_deflate_run_is_limited(
                        zlib_header,
                        body,
                        limit,
                        input_truncated,
                        made,
                        all_in as nat,
                        all_out,
                    );
                }
            },
        }
    }
}

/// No coding decoded under a limit gives more bytes than the limit.
pub proof fn limited_coding_is_limited(
    coding: Seq<char>,
    body: Seq<u8>,
    limit: usize,
    input_truncated: bool,
)
    ensures
        single_limited(coding, body, limit, input_truncated) matches Some(Ok(decoded))
            ==> decoded.bytes.len() <= limit,
{
    lemma_prefix_run_is_limited::<GzipReader>(body, 0, Seq::empty(), false, limit, input_truncated);
    lemma_prefix_run_is_limited::<BrotliReader>(
        body,
        0,
        Seq::empty(),
        false,
        limit,
        input_truncated,
    );
    lemma_prefix_run_is_limited::<ZstdReader>(body, 0, Seq::empty(), false, limit, input_truncated);
    lemma_deflate_run_is_limited(
        true,
        body,
        limit,
        input_truncated,
        Seq::empty(),
        0,
        Seq::empty(),
    );
    lemma_deflate_run_is_limited(
        false,
        body,
        limit,
        input_truncated,
        Seq::empty(),
        0,
        Seq::empty(),
    );
}

/// Decoding under a limit never gives more bytes than the limit, however many codings are
/// stacked, and an output over the limit is an error of its own.
pub proof fn decoded_body_is_limited(
    content_encoding: Seq<char>,
    body: Seq<u8>,
    max_output_bytes: usize,
)
    requires
        max_output_bytes != usize::MAX,
    ensures
        decompress_result(content_encoding, body, max_output_bytes) matches Some(Ok(decoded))
            ==> decoded.len() <= max_output_bytes,
{
    if supported_encoding(content_encoding) {
        lemma_undo_is_limited(codings(content_encoding), body, max_output_bytes);
    }
}

proof fn lemma_undo_is_limited(list: Seq<Seq<char>>, body: Seq<u8>, max_output_bytes: usize)
    requires
        max_output_bytes != usize::MAX,
        list.len() > 0 || body.len() <= max_output_bytes,
    ensures
        undo_codings(list, body, max_output_bytes) matches Some(Ok(decoded)) ==> decoded.len()
            <= max_output_bytes,
    decreases list.len(),
{
    if list.len() > 0 {
        limited_coding_is_limited(list.last(), body, max_output_bytes, false);
        match single_result(list.last(), body, max_output_bytes) {
            Some(Ok(decoded)) => {
                lemma_undo_is_limited(list.drop_last(), decoded, max_output_bytes);
            },
            _ => {},
        }
    }
}

/// Decoding a prefix of a body never gives more bytes than the limit.
pub proof fn decoded_prefix_is_limited(
    content_encoding: Seq<char>,
    body: Seq<u8>,
    limit: usize,
    initial_input_truncated: bool,
)
    ensures
        decompress_limited_result(
            content_encoding,
            body,
            limit,
            initial_input_truncated,
        ) matches Some(Ok(decoded)) ==> decoded.bytes.len() <= limit,
{
    if supported_encoding(content_encoding) {
        let input = LimitedView {
            bytes: if body.len() > limit {
                body.take(limit as int)
            } else {
                body
            },
            truncated: initial_input_truncated || body.len() > limit,
        };
        lemma_undo_limited_is_limited(codings(content_encoding), input, limit);
    }
}

proof fn lemma_undo_limited_is_limited(list: Seq<Seq<char>>, input: LimitedView, limit: usize)
    requires
        input.bytes.len() <= limit,
    ensures
        undo_codings_limited(list, input, limit) matches Some(Ok(decoded)) ==> decoded.bytes.len()
            <= limit,
    decreases list.len(),
{
    if list.len() > 0 {
        limited_coding_is_limited(list.last(), input.bytes, limit, input.truncated);
        match single_limited(list.last(), input.bytes, limit, input.truncated) {
            Some(Ok(decoded)) => {
                lemma_undo_limited_is_limited(list.drop_last(), decoded, limit);
            },
            _ => {},
        }
    }
}

/// A body that is cut off, by the limit or before, is marked so after every coding.
pub proof fn cut_bodies_stay_marked(
    content_encoding: Seq<char>,
    body: Seq<u8>,
    limit: usize,
    initial_input_truncated: bool,
)
    requires
        initial_input_truncated || body.len() > limit,
    ensures
        decompress_limited_result(
            content_encoding,
            body,
            limit,
            initial_input_truncated,
        ) matches Some(Ok(decoded)) ==> decoded.truncated,
{
    if supported_encoding(content_encoding) {
        let input = LimitedView {
            bytes: if body.len() > limit {
                body.take(limit as int)
            } else {
                body
            },
            truncated: true,
        };
        lemma_undo_limited_stays_marked(codings(content_encoding), input, limit);
    }
}

proof fn lemma_undo_limited_stays_marked(list: Seq<Seq<char>>, input: LimitedView, limit: usize)
    requires
        input.truncated,
    ensures
        undo_codings_limited(list, input, limit) matches Some(Ok(decoded)) ==> decoded.truncated,
    decreases list.len(),
{
    if list.len() > 0 {
        lemma_cut_inputs_stay_marked(list.last(), input.bytes, limit, true);
        match single_limited(list.last(), input.bytes, limit, true) {
            Some(Ok(decoded)) => {
                lemma_undo_limited_stays_marked(list.drop_last(), decoded, limit);
            },
            _ => {},
        }
    }
}

proof fn lemma_cut_inputs_stay_marked(
    coding: Seq<char>,
    body: Seq<u8>,
    limit: usize,
    input_truncated: bool,
)
    ensures
        input_truncated ==> (single_limited(coding, body, limit, input_truncated) matches Some(
            Ok(decoded),
        ) ==> decoded.truncated),
{
    if input_truncated {
        lemma_prefix_run_stays_marked::<GzipReader>(body, 0, Seq::empty(), false, limit);
        lemma_prefix_run_stays_marked::<BrotliReader>(body, 0, Seq::empty(), false, limit);
        lemma_prefix_run_stays_marked::<ZstdReader>(body, 0, Seq::empty(), false, limit);
        lemma_deflate_run_stays_marked(true, body, limit, Seq::empty(), 0, Seq::empty());
        lemma_deflate_run_stays_marked(false, body, limit, Seq::empty(), 0, Seq::empty());
    }
}

proof fn lemma_prefix_run_stays_marked<R: ChunkReader>(
    body: Seq<u8>,
    next: nat,
    output: Seq<u8>,
    saw_eof: bool,
    limit: usize,
)
    ensures
        prefix_run::<R>(body, next, output, saw_eof, limit, true).0 matches Ok(decoded)
            ==> decoded.truncated,
    decreases
            limit - output.len(),
            if saw_eof {
                0int
            } else {
                1int
            },
{
    match prefix_verdict(output, saw_eof, R::chunk_of(body, next), limit, true) {
        PrefixStepView::Done(_) => {},
        PrefixStepView::More(all, eof) => {
            if all.len() <= limit && (all.len() > output.len() || (all.len() == output.len() && eof
                && !saw_eof)) {
                lemma_prefix_run_stays_marked::<R>(body, next + 1, all, eof, limit);
            }
        },
    }
}

proof fn lemma_deflate_run_stays_marked(
    zlib_header: bool,
    body: Seq<u8>,
    limit: usize,
    calls: Seq<InflateCall>,
    consumed: nat,
    output: Seq<u8>,
)
    ensures
        deflate_run(
            zlib_header,
            body,
            limit,
            true,
            calls,
            consumed,
            output,
        ) matches Ok(decoded) ==> decoded.truncated,
    decreases body.len() - consumed + usize::MAX - output.len(),
{
    if output.len() < sentinel(limit) {
        let made = calls.push(deflate_call(body, limit, consumed, output.len()));
        let reply = inflate_reply(zlib_header, made);
        let all_in = consumed + reply.consumed;
        let all_out = output + reply.output;
        match deflate_verdict(
            all_out,
            reply.status,
            reply.consumed > 0 || reply.output.len() > 0,
            all_in == body.len(),
            zlib_header,
            limit,
            true,
        ) {
            StepView::Done(_) => {},
            StepView::More(_) => {
                if all_in <= body.len() && all_out.len() <= usize::MAX && (all_in > consumed
                    || all_out.len() > output.len()) {
                    lemma_deflate_run_stays_marked(
                        zlib_header,
                        body,
                        limit,
                        made,
                        all_in as nat,
                        all_out,
                    );
                }
            },
        }
    }
}

/// The bytes that the reads from number `from` up to `to` hand out; nothing from the first
/// error on.
pub open spec fn handed_out<R: ChunkReader>(body: Seq<u8>, from: nat, to: nat) -> Seq<u8>
    decreases to - from,
{
    if from >= to {
        Seq::empty()
    } else {
        match R::chunk_of(body, from) {
            Ok(bytes) => bytes + handed_out::<R>(body, from + 1, to),
            Err(_) => Seq::empty(),
        }
    }
}

/// What is read under a limit is a prefix of what the decoder hands out, and all of it where
/// the result says that nothing was cut off.
pub proof fn read_bytes_are_a_prefix_of_the_decoded_ones<R: ChunkReader>(
    body: Seq<u8>,
    limit: usize,
    input_truncated: bool,
)
    ensures
        ({
            let run = prefix_run::<R>(body, 0, Seq::empty(), false, limit, input_truncated);
            run.0 matches Ok(decoded) ==> {
                let all = handed_out::<R>(body, 0, run.1);
                &&& decoded.bytes.len() <= all.len()
                &&& decoded.bytes == all.take(decoded.bytes.len() as int)
                &&& !decoded.truncated ==> decoded.bytes == all
            }
        }),
{
    lemma_prefix_run_is_prefix::<R>(body, 0, Seq::empty(), false, limit, input_truncated);
    let run = prefix_run::<R>(body, 0, Seq::empty(), false, limit, input_truncated);
    let all = handed_out::<R>(body, 0, run.1);
    assert(Seq::<u8>::empty() + all =~= all);
}

proof fn lemma_prefix_run_is_prefix<R: ChunkReader>(
    body: Seq<u8>,
    next: nat,
    output: Seq<u8>,
    saw_eof: bool,
    limit: usize,
    input_truncated: bool,
)
    requires
        output.len() <= limit,
    ensures
        ({
            let run = prefix_run::<R>(body, next, output, saw_eof, limit, input_truncated);
            &&& run.1 > next
            &&& run.0 matches Ok(decoded) ==> {
                let all = output + handed_out::<R>(body, next, run.1);
                &&& decoded.bytes.len() <= all.len()
                &&& decoded.bytes == all.take(decoded.bytes.len() as int)
                &&& !decoded.truncated ==> decoded.bytes == all
            }
        }),
    decreases
            limit - output.len(),
            if saw_eof {
                0int
            } else {
                1int
            },
{
    let run = prefix_run::<R>(body, next, output, saw_eof, limit, input_truncated);
    reveal_with_fuel(handed_out, 2);
    match prefix_verdict(output, saw_eof, R::chunk_of(body, next), limit, input_truncated) {
        PrefixStepView::Done(_) => {
            if run.0 is Ok {
                let all = output + handed_out::<R>(body, next, run.1);
                let bytes = run.0->Ok_0.bytes;
                assert(bytes =~= all.take(bytes.len() as int));
                if !run.0->Ok_0.truncated {
                    assert(bytes =~= all);
                }
            }
        },
        PrefixStepView::More(all, eof) => {
            assert(all.len() > output.len() || (all.len() == output.len() && eof && !saw_eof));
            lemma_prefix_run_is_prefix::<R>(body, next + 1, all, eof, limit, input_truncated);
            let rest = handed_out::<R>(body, next + 1, run.1);
            let bytes = R::chunk_of(body, next)->Ok_0;
            assert(all =~= output + bytes);
            assert(output + (bytes + rest) =~= all + rest);
        },
    }
}

/// The codings that can be decoded, by their names; for any other there is no result.
pub proof fn codings_are_decoded_by_name(coding: Seq<char>, body: Seq<u8>, limit: usize, cut: bool)
    ensures
        single_result(coding, body, limit) is Some <==> {
            ||| coding == "gzip"@ || coding == "x-gzip"@
            ||| coding == "deflate"@
            ||| coding == "br"@
            ||| coding == "zstd"@ || coding == "zst"@
        },
        single_limited(coding, body, limit, cut) is Some <==> single_result(coding, body, limit)
            is Some,
        supported_coding(coding) <==> single_result(coding, body, limit) is Some,
{
}

/// Two names of one coding mean the same.
pub proof fn codings_have_other_names(body: Seq<u8>, limit: usize, cut: bool)
    ensures
        single_result("x-gzip"@, body, limit) == single_result("gzip"@, body, limit),
        single_limited("x-gzip"@, body, limit, cut) == single_limited("gzip"@, body, limit, cut),
        single_result("zst"@, body, limit) == single_result("zstd"@, body, limit),
        single_limited("zst"@, body, limit, cut) == single_limited("zstd"@, body, limit, cut),
{
    names_of_codings_differ();
}

/// The codings of a header are its parts between commas, without white space around them; empty ones
/// and `identity` do not count, and the order is kept.
pub proof fn codings_stand_between_commas(first: Seq<char>, rest: Seq<char>)
    requires
        !first.contains(','),
    ensures
        trimmed(first).len() > 0 && trimmed(first) != "identity"@ ==> codings(first) == seq![
            trimmed(first),
        ],
        trimmed(first).len() == 0 || trimmed(first) == "identity"@ ==> codings(first).len() == 0,
        codings(first + seq![','] + rest) == codings(first) + codings(rest),
{
    reveal(Seq::filter);
    let wanted = |coding: Seq<char>| coding.len() > 0 && coding != "identity"@;
    let trims = |piece: Seq<char>| trimmed(piece);
    let all = first + seq![','] + rest;
    crate::text::texts_are_cut_at_the_first_occurrence(first, ',', rest);
    crate::text::first_index_is_first(first, ',');
    crate::text::first_index_is_first(all, ',');
    crate::text::first_index_is_first(rest, ',');
    let own = crate::text::first_index(first, ',');
    if own < first.len() {
        assert(first.contains(first[own]));
    }
    assert(pieces(first, ',') =~= seq![first]);
    let one = pieces(first, ',').map_values(trims);
    assert(one =~= seq![trimmed(first)]);
    assert(one.drop_last() =~= Seq::<Seq<char>>::empty());
    assert(one.last() == trimmed(first));
    assert(one.drop_last().filter(wanted) =~= Seq::<Seq<char>>::empty());
    assert(codings(first) =~= one.filter(wanted));
    let at = crate::text::first_index(all, ',');
    if at < first.len() {
        assert(first.contains(first[at]));
    }
    assert(all[first.len() as int] == ',');
    assert(at == first.len());
    assert(all.take(at) =~= first);
    assert(all.skip(at + 1) =~= rest);
    assert(pieces(all, ',') =~= pieces(first, ',') + pieces(rest, ','));
    let more = pieces(rest, ',').map_values(trims);
    assert(pieces(all, ',').map_values(trims) =~= one + more);
    Seq::filter_distributes_over_add(one, more, wanted);
}

/// The window of a brotli stream is told by the lowest bits of its first byte: an even one means 16,
/// the next three bits count up from 17, and where these are zero the three above them count up from
/// 8.
pub proof fn brotli_windows_are_in_the_header(first: u8, rest: Seq<u8>)
    ensures
        ({
            let window = brotli_window(seq![first] + rest);
            &&& first % 2 == 0 ==> window == Ok::<u32, DecodeErrorView>(16)
            &&& first % 16 == 3 ==> window == Ok::<u32, DecodeErrorView>(18)
            &&& first % 16 == 5 ==> window == Ok::<u32, DecodeErrorView>(19)
            &&& first % 16 == 7 ==> window == Ok::<u32, DecodeErrorView>(20)
            &&& first % 16 == 9 ==> window == Ok::<u32, DecodeErrorView>(21)
            &&& first % 16 == 11 ==> window == Ok::<u32, DecodeErrorView>(22)
            &&& first % 16 == 13 ==> window == Ok::<u32, DecodeErrorView>(23)
            &&& first % 16 == 15 ==> window == Ok::<u32, DecodeErrorView>(24)
            &&& first % 128 == 1 ==> window == Ok::<u32, DecodeErrorView>(17)
            &&& first % 128 == 33 ==> window == Ok::<u32, DecodeErrorView>(10)
            &&& first % 128 == 113 ==> window == Ok::<u32, DecodeErrorView>(15)
            &&& first == 0x91 ==> window is Err
        }),
        brotli_window(Seq::empty()) is Err,
{
}

/// A window of more than 23 bits is refused where windows are limited, and no smaller one is.
pub proof fn large_windows_are_refused(body: Seq<u8>, log: u32)
    requires
        brotli_window(body) == Ok::<u32, DecodeErrorView>(log),
    ensures
        brotli_window_error(body) is Some <==> log > 23,
        log > 23 ==> brotli_result(body, 0, false, true) is Err,
{
}

/// A deflate body has a zlib header where its first byte names the method 8 with a window that is
/// allowed, and the two first bytes are a multiple of 31; a body that is too short for one is
/// refused.
pub proof fn zlib_headers_are_seen(first: u8, second: u8, rest: Seq<u8>)
    ensures
        zlib_framing(seq![first, second] + rest) == Ok::<bool, DecodeErrorView>(
            (first == 0x08 || first == 0x18 || first == 0x28 || first == 0x38 || first == 0x48
                || first == 0x58 || first == 0x68 || first == 0x78) && (first * 256 + second) % 31
                == 0,
        ),
        zlib_framing(Seq::empty()) is Err,
        zlib_framing(seq![first]) is Err,
{
}

/// What is decoded under a limit is cut off there and marked so; an end with bytes behind it is an
/// error, and so is a broken stream, unless the input is known to be cut off and something came out
/// of it.
pub proof fn deflate_bodies_end_where_they_end(
    output: Seq<u8>,
    message: Seq<char>,
    moved: bool,
    all_consumed: bool,
    zlib: bool,
    limit: usize,
)
    ensures
        output.len() > limit ==> deflate_verdict(
            output,
            Ok(InflateStatus::StreamEnd),
            moved,
            all_consumed,
            zlib,
            limit,
            false,
        ) == StepView::Done(Ok(LimitedView { bytes: output.take(limit as int), truncated: true })),
        output.len() <= limit ==> deflate_verdict(
            output,
            Ok(InflateStatus::StreamEnd),
            moved,
            true,
            zlib,
            limit,
            false,
        ) == StepView::Done(Ok(LimitedView { bytes: output, truncated: false })),
        output.len() <= limit ==> (deflate_verdict(
            output,
            Ok(InflateStatus::StreamEnd),
            moved,
            false,
            zlib,
            limit,
            false,
        ) matches StepView::Done(Err(_))),
        output.len() <= limit ==> (deflate_verdict(
            output,
            Err(message),
            moved,
            all_consumed,
            zlib,
            limit,
            false,
        ) matches StepView::Done(Err(_))),
        0 < output.len() <= limit ==> deflate_verdict(
            output,
            Err(message),
            moved,
            all_consumed,
            zlib,
            limit,
            true,
        ) == StepView::Done(Ok(LimitedView { bytes: output, truncated: true })),
        output.len() <= limit ==> deflate_verdict(
            output,
            Ok(InflateStatus::Progress),
            true,
            all_consumed,
            zlib,
            limit,
            false,
        ) == StepView::More(output),
        output.len() <= limit ==> (deflate_verdict(
            output,
            Ok(InflateStatus::Progress),
            false,
            all_consumed,
            zlib,
            limit,
            false,
        ) matches StepView::Done(Err(_))),
{
}

/// What is read under a limit is cut off there and marked so; reading ends with the second empty
/// read, and an error is one, unless the input is known to be cut off and something came out of it.
pub proof fn bodies_are_read_to_their_end(
    output: Seq<u8>,
    bytes: Seq<u8>,
    error: DecodeErrorView,
    saw_eof: bool,
    limit: usize,
    cut: bool,
)
    requires
        bytes.len() > 0,
    ensures
        output.len() + bytes.len() > limit ==> prefix_verdict(output, saw_eof, Ok(bytes), limit, cut)
            == PrefixStepView::Done(
            Ok(LimitedView { bytes: (output + bytes).take(limit as int), truncated: true }),
        ),
        output.len() + bytes.len() <= limit ==> prefix_verdict(
            output,
            saw_eof,
            Ok(bytes),
            limit,
            cut,
        ) == PrefixStepView::More(output + bytes, false),
        prefix_verdict(output, false, Ok(Seq::empty()), limit, cut) == PrefixStepView::More(
            output,
            true,
        ),
        prefix_verdict(output, true, Ok(Seq::empty()), limit, cut) == PrefixStepView::Done(
            Ok(LimitedView { bytes: output, truncated: cut }),
        ),
        prefix_verdict(output, saw_eof, Err(error), limit, false) == PrefixStepView::Done(
            Err(error),
        ),
        output.len() > 0 ==> prefix_verdict(output, saw_eof, Err(error), limit, true)
            == PrefixStepView::Done(Ok(LimitedView { bytes: output, truncated: true })),
        output.len() == 0 ==> prefix_verdict(output, saw_eof, Err(error), limit, true)
            == PrefixStepView::Done(Err(error)),
{
}

/// A body that decodes to more than the limit is too large; one that does not is decoded to what
/// comes out under the limit.
pub proof fn large_bodies_are_refused(
    coding: Seq<char>,
    body: Seq<u8>,
    limit: usize,
    decoded: LimitedView,
)
    requires
        limit != usize::MAX,
        single_limited(coding, body, limit, false) == Some(
            Ok::<LimitedView, DecodeErrorView>(decoded),
        ),
    ensures
        decoded.truncated ==> single_result(coding, body, limit) == Some(
            Err::<Seq<u8>, DecompressErrorView>(DecompressErrorView::TooLarge { limit }),
        ),
        !decoded.truncated ==> single_result(coding, body, limit) == Some(
            Ok::<Seq<u8>, DecompressErrorView>(decoded.bytes),
        ),
{
}

/// The codings of repeated headers are joined in their order; a blank header adds nothing.
pub proof fn repeated_encodings_are_joined(texts: Seq<Seq<char>>, text: Seq<char>)
    ensures
        joined_texts(Seq::empty()).len() == 0,
        trimmed(text).len() == 0 ==> joined_texts(texts.push(text)) == joined_texts(texts),
        trimmed(text).len() > 0 && joined_texts(texts).len() == 0 ==> joined_texts(texts.push(text))
            == trimmed(text),
        trimmed(text).len() > 0 && joined_texts(texts).len() > 0 ==> joined_texts(texts.push(text))
            == joined_texts(texts) + ", "@ + trimmed(text),
{
    assert(texts.push(text).drop_last() =~= texts);
    assert(texts.push(text).last() == text);
}

/// A header that names a coding gives that one, in lower case; without such a header, and with none
/// but `identity` in it, there is none.
pub proof fn encodings_are_read_from_their_header(headers: HeadersView, text: Seq<char>)
    ensures
        header_texts(headers, "content-encoding"@).len() == 0 ==> content_encoding_of(headers) is None,
        header_texts(headers, "content-encoding"@) == seq![text] && codings(
            ascii_lowercase(trimmed(text)),
        ).len() > 0 ==> content_encoding_of(headers) == Some(ascii_lowercase(trimmed(text))),
        header_texts(headers, "content-encoding"@) == seq![text] && codings(
            ascii_lowercase(trimmed(text)),
        ).len() == 0 ==> content_encoding_of(headers) is None,
{
    let none = Seq::<Seq<char>>::empty();
    repeated_encodings_are_joined(none, text);
    assert(none.push(text) =~= seq![text]);
    let nothing = Seq::<char>::empty();
    assert(joined_texts(none) =~= nothing);
    assert(ascii_lowercase(nothing) =~= nothing);
    codings_stand_between_commas(nothing, nothing);
    assert(trimmed(nothing).len() == 0);
    if trimmed(text).len() == 0 {
        assert(trimmed(text) =~= nothing);
    }
}

/// Under a limit a brotli body with too large a window is refused, whatever else it holds.
pub proof fn limited_brotli_bodies_have_small_windows(
    body: Seq<u8>,
    log: u32,
    limit: usize,
    cut: bool,
)
    requires
        brotli_window(body) == Ok::<u32, DecodeErrorView>(log),
        log > 23,
    ensures
        single_limited("br"@, body, limit, cut) matches Some(Err(_)),
        limit != usize::MAX ==> (single_result("br"@, body, limit) matches Some(
            Err(DecompressErrorView::Io(_)),
        )),
{
    names_of_codings_differ();
}

} // verus!
