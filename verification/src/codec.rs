//! The decoders of the compression crates, and what the proxy relies on of them.
//!
//! Each decoder is a state machine of an outside crate. What one of its calls returns is a
//! function of the input and of the calls made before, so the call has a name here, and the
//! calls made so far are what a decoder value is known by.

use vstd::prelude::*;
use vstd::string::*;

verus! {

/// The size of the buffer each read is made with.
pub const READ_BUFFER: usize = 8192;

/// The largest window, as a power of two, that a decoder under an output limit may ask for.
pub const LIMITED_DECODER_WINDOW_LOG_MAX: u32 = 23;

/// What kind of failure a decoding error is.
#[derive(Debug, Clone, Copy, PartialEq, Eq, Structural)]
pub enum DecodeErrorKind {
    InvalidData,
    UnexpectedEof,
    InvalidInput,
    Other,
}

/// A body that could not be decoded.
#[derive(Debug, PartialEq, Eq)]
pub struct DecodeError {
    pub kind: DecodeErrorKind,
    pub message: String,
}

/// A decoding error as a mathematical value.
pub struct DecodeErrorView {
    pub kind: DecodeErrorKind,
    pub message: Seq<char>,
}

impl View for DecodeError {
    type V = DecodeErrorView;

    open spec fn view(&self) -> DecodeErrorView {
        DecodeErrorView { kind: self.kind, message: self.message@ }
    }
}

/// What a decoder hands out: bytes, or an error.
pub type ChunkView = Result<Seq<u8>, DecodeErrorView>;

/// The value of decoded bytes or of the error in their place.
pub open spec fn chunk_view(chunk: Result<Vec<u8>, DecodeError>) -> ChunkView {
    match chunk {
        Ok(bytes) => Ok(bytes@),
        Err(error) => Err(error@),
    }
}

/// What a read adds to what was handed out before; the first error stays.
pub open spec fn appended(before: ChunkView, chunk: ChunkView) -> ChunkView {
    match (before, chunk) {
        (Ok(bytes), Ok(more)) => Ok(bytes + more),
        (Ok(_), Err(error)) => Err(error),
        (Err(error), _) => Err(error),
    }
}

/// Whether two byte strings agree as far as both go: one is the beginning of the other.
pub open spec fn agree(a: Seq<u8>, b: Seq<u8>) -> bool {
    a.is_prefix_of(b) || b.is_prefix_of(a)
}

/// As many of the bytes as can be addressed.
pub open spec fn addressable(bytes: Seq<u8>) -> Seq<u8> {
    if bytes.len() > usize::MAX {
        bytes.take(usize::MAX as int)
    } else {
        bytes
    }
}

/// `reads` reads, each with a buffer of [`READ_BUFFER`] bytes.
pub open spec fn full_reads(reads: nat) -> Seq<nat> {
    Seq::new(reads, |i: int| READ_BUFFER as nat)
}

#[verifier::external_type_specification]
#[verifier::external_body]
#[verifier::reject_recursive_types(R)]
pub struct ExMultiGzDecoder<R>(flate2::read::MultiGzDecoder<R>);

/// A `brotli::Decompressor` that reads from a body. The decoder's own type is bounded by
/// `std::io::Read`, so it stands in a field that proofs do not look into.
#[verifier::external_body]
pub struct BrotliDecoder<'a> {
    decoder: brotli::Decompressor<&'a [u8]>,
}

#[verifier::external_type_specification]
#[verifier::external_body]
#[verifier::reject_recursive_types(R)]
pub struct ExBufReader<R: ?Sized>(std::io::BufReader<R>);

#[verifier::external_type_specification]
#[verifier::external_body]
#[verifier::reject_recursive_types(R)]
pub struct ExZstdDecoder<'a, R>(zstd::stream::read::Decoder<'a, R>);

#[verifier::external_type_specification]
#[verifier::external_body]
pub struct ExDecompress(flate2::Decompress);

/// What a gzip decoder holds: the body it was opened on, and the buffer sizes of the reads
/// made so far.
pub uninterp spec fn gzip_progress(decoder: flate2::read::MultiGzDecoder<&[u8]>) -> (
    Seq<u8>,
    Seq<nat>,
);

/// What the last of the reads with the given buffer sizes hands out on a gzip body.
pub uninterp spec fn gzip_read(body: Seq<u8>, sizes: Seq<nat>) -> ChunkView;

/// All that reads with the given buffer sizes hand out on a gzip body, or the first error.
pub open spec fn gzip_bytes(body: Seq<u8>, sizes: Seq<nat>) -> ChunkView
    decreases sizes.len(),
{
    if sizes.len() == 0 {
        Ok(Seq::empty())
    } else {
        appended(gzip_bytes(body, sizes.drop_last()), gzip_read(body, sizes))
    }
}

/// Whether a gzip body decodes as a whole, and to these bytes.
pub open spec fn gzip_whole(body: Seq<u8>, full: Seq<u8>) -> bool {
    gzip_decoded(body) == Ok::<Seq<u8>, DecodeErrorView>(full)
}

/// Whether reads without an error have handed out the beginning of the whole decoding, of this
/// body and of every longer one, and at the end all of it.
pub open spec fn gzip_in_order(body: Seq<u8>, sizes: Seq<nat>, at_end: bool) -> bool {
    gzip_bytes(body, sizes) matches Ok(bytes) ==> {
        &&& forall|longer: Seq<u8>, full: Seq<u8>|
            body.is_prefix_of(longer) && #[trigger] gzip_whole(longer, full) ==> bytes.is_prefix_of(
                full,
            )
        &&& at_end ==> forall|full: Seq<u8>| #[trigger] gzip_whole(body, full) ==> bytes == full
    }
}

/// `flate2::read::MultiGzDecoder::new`: a decoder of all members of the body, with no read made.
#[verifier::external_body]
fn gzip_open<'a>(body: &'a [u8]) -> (decoder: flate2::read::MultiGzDecoder<&'a [u8]>)
    ensures
        gzip_progress(decoder) == (body@, Seq::<nat>::empty()),
{
    flate2::read::MultiGzDecoder::new(body)
}

/// `Read::read` of `flate2::read::MultiGzDecoder`: the front of the buffer is filled with the
/// next decoded bytes, and their number returned. The outcome is a function of the body and of
/// the sizes of the buffers read into so far. The bytes come in the order in which the body is
/// decoded, as soon as the input they need is there: what was read is the beginning of what
/// `read_to_end` gives, also where the body was cut off, and all of it once a read into a buffer
/// with room gives nothing.
#[verifier::external_body]
fn gzip_read_into(
    decoder: &mut flate2::read::MultiGzDecoder<&[u8]>,
    buffer: &mut Vec<u8>,
) -> (read: Result<usize, DecodeError>)
    ensures
        ({
            let (body, sizes) = gzip_progress(*old(decoder));
            let made = sizes.push(old(buffer)@.len());
            &&& gzip_progress(*final(decoder)) == (body, made)
            &&& final(buffer)@.len() == old(buffer)@.len()
            &&& match read {
                Ok(read) => {
                    &&& read <= final(buffer)@.len()
                    &&& gzip_read(body, made) == Ok::<Seq<u8>, DecodeErrorView>(
                        final(buffer)@.take(read as int),
                    )
                    &&& gzip_in_order(body, made, read == 0 && final(buffer)@.len() > 0)
                },
                Err(error) => gzip_read(body, made) == Err::<Seq<u8>, DecodeErrorView>(error@),
            }
        }),
{
    match std::io::Read::read(decoder, buffer) {
        Ok(read) => Ok(read),
        Err(error) => Err(DecodeError {
            kind: match error.kind() {
                std::io::ErrorKind::InvalidData => DecodeErrorKind::InvalidData,
                std::io::ErrorKind::UnexpectedEof => DecodeErrorKind::UnexpectedEof,
                std::io::ErrorKind::InvalidInput => DecodeErrorKind::InvalidInput,
                _ => DecodeErrorKind::Other,
            },
            message: error.to_string(),
        }),
    }
}

/// What reading a gzip body to its end gives.
pub uninterp spec fn gzip_decoded(body: Seq<u8>) -> ChunkView;

/// `Read::read_to_end` of `flate2::read::MultiGzDecoder`: all decoded bytes of all members, or
/// the error that stopped the decoder. The outcome is a function of the body.
#[verifier::external_body]
pub(crate) fn gzip_decode_all(body: &[u8]) -> (decoded: Result<Vec<u8>, DecodeError>)
    ensures
        chunk_view(decoded) == gzip_decoded(body@),
{
    let mut decoded = Vec::new();
    match std::io::Read::read_to_end(&mut flate2::read::MultiGzDecoder::new(body), &mut decoded) {
        Ok(_) => Ok(decoded),
        Err(error) => Err(DecodeError {
            kind: match error.kind() {
                std::io::ErrorKind::InvalidData => DecodeErrorKind::InvalidData,
                std::io::ErrorKind::UnexpectedEof => DecodeErrorKind::UnexpectedEof,
                std::io::ErrorKind::InvalidInput => DecodeErrorKind::InvalidInput,
                _ => DecodeErrorKind::Other,
            },
            message: error.to_string(),
        }),
    }
}

/// What a brotli decoder holds: the body it was opened on, the size of its input buffer, and
/// the buffer sizes of the reads made so far.
pub uninterp spec fn brotli_progress(decoder: BrotliDecoder<'_>) -> (
    Seq<u8>,
    nat,
    Seq<nat>,
);

/// What the last of the reads with the given buffer sizes hands out on a brotli body.
pub uninterp spec fn brotli_read(body: Seq<u8>, input_buffer: nat, sizes: Seq<nat>) -> ChunkView;

/// How many bytes of a brotli body are not yet fetched after the given reads.
pub uninterp spec fn brotli_left(body: Seq<u8>, input_buffer: nat, sizes: Seq<nat>) -> nat;

/// All that reads with the given buffer sizes hand out on a brotli body, or the first error.
pub open spec fn brotli_bytes(body: Seq<u8>, input_buffer: nat, sizes: Seq<nat>) -> ChunkView
    decreases sizes.len(),
{
    if sizes.len() == 0 {
        Ok(Seq::empty())
    } else {
        appended(
            brotli_bytes(body, input_buffer, sizes.drop_last()),
            brotli_read(body, input_buffer, sizes),
        )
    }
}

/// Whether reads of a brotli body come to its end without an error, and hand out these bytes: the
/// last one, into a buffer with room, gives nothing.
pub open spec fn brotli_ends(
    body: Seq<u8>,
    input_buffer: nat,
    sizes: Seq<nat>,
    full: Seq<u8>,
) -> bool {
    &&& brotli_bytes(body, input_buffer, sizes) == Ok::<Seq<u8>, DecodeErrorView>(full)
    &&& sizes.len() > 0
    &&& sizes.last() > 0
    &&& brotli_read(body, input_buffer, sizes) == Ok::<Seq<u8>, DecodeErrorView>(Seq::empty())
}

/// Whether reads of a brotli body come to its end with these bytes, or hand out bytes that begin
/// with these, which are as many as can be addressed.
pub open spec fn brotli_reaches(
    body: Seq<u8>,
    input_buffer: nat,
    sizes: Seq<nat>,
    full: Seq<u8>,
) -> bool {
    ||| brotli_ends(body, input_buffer, sizes, full)
    ||| full.len() >= usize::MAX && (brotli_bytes(body, input_buffer, sizes) matches Ok(bytes)
        && full.is_prefix_of(bytes))
}

/// Whether a brotli body decodes to these bytes: as a whole, or as far as can be addressed.
pub open spec fn brotli_whole(body: Seq<u8>, full: Seq<u8>) -> bool {
    exists|input_buffer: nat, sizes: Seq<nat>|
        input_buffer > 0 && #[trigger] brotli_reaches(body, input_buffer, sizes, full)
}

/// Whether what reads without an error have handed out agrees with what any other reads do, of
/// this body or of a longer one, as far as both go; and whether no reads hand out more once these,
/// or those of the longer one, have come to the end.
pub open spec fn brotli_in_order(
    body: Seq<u8>,
    input_buffer: nat,
    sizes: Seq<nat>,
    at_end: bool,
) -> bool {
    brotli_bytes(body, input_buffer, sizes) matches Ok(bytes) ==> forall|
        longer: Seq<u8>,
        other_buffer: nat,
        other_sizes: Seq<nat>,
    |
        body.is_prefix_of(longer) && other_buffer > 0 ==> (#[trigger] brotli_bytes(
            longer,
            other_buffer,
            other_sizes,
        ) matches Ok(other) ==> {
            &&& agree(bytes, other)
            &&& brotli_ends(longer, other_buffer, other_sizes, other) ==> bytes.is_prefix_of(other)
            &&& at_end && longer == body ==> other.is_prefix_of(bytes)
        })
}

/// `brotli::Decompressor::new`: a decoder of the body, with no read made.
#[verifier::external_body]
fn brotli_open<'a>(body: &'a [u8], input_buffer: usize) -> (decoder: BrotliDecoder<'a>)
    requires
        input_buffer > 0,
    ensures
        brotli_progress(decoder) == (body@, input_buffer as nat, Seq::<nat>::empty()),
{
    BrotliDecoder { decoder: brotli::Decompressor::new(body, input_buffer) }
}

/// `Read::read` of `brotli::Decompressor`: the front of the buffer is filled with the next
/// decoded bytes, and their number returned. The outcome is a function of the body, of the
/// input buffer's size and of the sizes of the buffers read into so far. The bytes come in the
/// order in which the body is decoded, as soon as the input they need is there: what was read
/// agrees with what other reads give, whatever their buffers, of this body or of one that this is
/// the beginning of. There is no more to come once a read into a buffer with room gives nothing.
#[verifier::external_body]
fn brotli_read_into(
    decoder: &mut BrotliDecoder<'_>,
    buffer: &mut Vec<u8>,
) -> (read: Result<usize, DecodeError>)
    ensures
        ({
            let (body, input_buffer, sizes) = brotli_progress(*old(decoder));
            let made = sizes.push(old(buffer)@.len());
            &&& brotli_progress(*final(decoder)) == (body, input_buffer, made)
            &&& final(buffer)@.len() == old(buffer)@.len()
            &&& match read {
                Ok(read) => {
                    &&& read <= final(buffer)@.len()
                    &&& brotli_read(body, input_buffer, made) == Ok::<Seq<u8>, DecodeErrorView>(
                        final(buffer)@.take(read as int),
                    )
                    &&& brotli_in_order(
                        body,
                        input_buffer,
                        made,
                        read == 0 && final(buffer)@.len() > 0,
                    )
                },
                Err(error) => brotli_read(body, input_buffer, made) == Err::<
                    Seq<u8>,
                    DecodeErrorView,
                >(error@),
            }
        }),
{
    match std::io::Read::read(&mut decoder.decoder, buffer) {
        Ok(read) => Ok(read),
        Err(error) => Err(DecodeError {
            kind: match error.kind() {
                std::io::ErrorKind::InvalidData => DecodeErrorKind::InvalidData,
                std::io::ErrorKind::UnexpectedEof => DecodeErrorKind::UnexpectedEof,
                std::io::ErrorKind::InvalidInput => DecodeErrorKind::InvalidInput,
                _ => DecodeErrorKind::Other,
            },
            message: error.to_string(),
        }),
    }
}

/// `brotli::Decompressor::get_ref`: the reader the decoder fetches from, here the part of the
/// body that is not yet fetched, by its length.
#[verifier::external_body]
fn brotli_unread(decoder: &BrotliDecoder<'_>) -> (left: usize)
    ensures
        ({
            let (body, input_buffer, sizes) = brotli_progress(*decoder);
            left == brotli_left(body, input_buffer, sizes)
        }),
{
    decoder.decoder.get_ref().len()
}

/// What a zstd decoder holds: the body it was opened on, the limit set on its window, and the
/// buffer sizes of the reads made so far.
pub uninterp spec fn zstd_progress(
    decoder: zstd::stream::read::Decoder<'_, std::io::BufReader<&[u8]>>,
) -> (Seq<u8>, Option<u32>, Seq<nat>);

/// What the last of the reads with the given buffer sizes hands out on a zstd body.
pub uninterp spec fn zstd_read(
    body: Seq<u8>,
    window_log_max: Option<u32>,
    sizes: Seq<nat>,
) -> ChunkView;

/// All that reads with the given buffer sizes hand out on a zstd body, or the first error.
pub open spec fn zstd_bytes(
    body: Seq<u8>,
    window_log_max: Option<u32>,
    sizes: Seq<nat>,
) -> ChunkView
    decreases sizes.len(),
{
    if sizes.len() == 0 {
        Ok(Seq::empty())
    } else {
        appended(
            zstd_bytes(body, window_log_max, sizes.drop_last()),
            zstd_read(body, window_log_max, sizes),
        )
    }
}

/// Whether a zstd body decodes as a whole, and to these bytes.
pub open spec fn zstd_whole(body: Seq<u8>, full: Seq<u8>) -> bool {
    zstd_decoded(body) == Ok::<Seq<u8>, DecodeErrorView>(full)
}

/// Whether reads without an error have handed out the beginning of the whole decoding, of this
/// body and of every longer one, and at the end all of it.
pub open spec fn zstd_in_order(
    body: Seq<u8>,
    window_log_max: Option<u32>,
    sizes: Seq<nat>,
    at_end: bool,
) -> bool {
    zstd_bytes(body, window_log_max, sizes) matches Ok(bytes) ==> {
        &&& forall|longer: Seq<u8>, full: Seq<u8>|
            body.is_prefix_of(longer) && #[trigger] zstd_whole(longer, full) ==> bytes.is_prefix_of(
                full,
            )
        &&& at_end ==> forall|full: Seq<u8>| #[trigger] zstd_whole(body, full) ==> bytes == full
    }
}

/// The error with which a zstd decoder cannot be set up on a body, if there is one.
pub uninterp spec fn zstd_open_error(body: Seq<u8>) -> Option<DecodeErrorView>;

/// The error with which a zstd decoder that has read nothing refuses a limit on its window, if
/// there is one.
pub uninterp spec fn zstd_window_error(window_log_max: u32) -> Option<DecodeErrorView>;

/// `zstd::stream::read::Decoder::new`: a decoder of all frames of the body with no read made
/// and no limit set on its window, or the error that setting it up gave.
#[verifier::external_body]
fn zstd_open<'a>(body: &'a [u8]) -> (opened: Result<
    zstd::stream::read::Decoder<'static, std::io::BufReader<&'a [u8]>>,
    DecodeError,
>)
    ensures
        match opened {
            Ok(decoder) => zstd_open_error(body@) is None && zstd_progress(decoder) == (
                body@,
                None::<u32>,
                Seq::<nat>::empty(),
            ),
            Err(error) => zstd_open_error(body@) == Some(error@),
        },
{
    match zstd::stream::read::Decoder::new(body) {
        Ok(decoder) => Ok(decoder),
        Err(error) => Err(DecodeError { kind: DecodeErrorKind::Other, message: error.to_string() }),
    }
}

/// `zstd::stream::read::Decoder::window_log_max` before the first read: from here on a frame that
/// asks for a larger window is refused. On an error nothing is said of the decoder.
#[verifier::external_body]
fn zstd_limit_window(
    decoder: &mut zstd::stream::read::Decoder<'static, std::io::BufReader<&[u8]>>,
    window_log_max: u32,
) -> (limited: Result<(), DecodeError>)
    requires
        zstd_progress(*old(decoder)).1 is None,
        zstd_progress(*old(decoder)).2.len() == 0,
    ensures
        match limited {
            Ok(()) => zstd_window_error(window_log_max) is None && zstd_progress(*final(decoder))
                == (
                zstd_progress(*old(decoder)).0,
                Some(window_log_max),
                Seq::<nat>::empty(),
            ),
            Err(error) => zstd_window_error(window_log_max) == Some(error@),
        },
{
    match decoder.window_log_max(window_log_max) {
        Ok(()) => Ok(()),
        Err(error) => Err(DecodeError { kind: DecodeErrorKind::Other, message: error.to_string() }),
    }
}

/// `Read::read` of `zstd::stream::read::Decoder`: the front of the buffer is filled with the
/// next decoded bytes, and their number returned. The outcome is a function of the body, of the
/// limit on the window and of the sizes of the buffers read into so far. A limit on the window
/// makes a decoder fail, and changes nothing else. The bytes come in the order in which the body
/// is decoded, as soon as the input they need is there: what was read is the beginning of what
/// `zstd::stream::decode_all` gives, also where the body was cut off, and all of it once a read
/// into a buffer with room gives nothing.
#[verifier::external_body]
fn zstd_read_into(
    decoder: &mut zstd::stream::read::Decoder<'static, std::io::BufReader<&[u8]>>,
    buffer: &mut Vec<u8>,
) -> (read: Result<usize, DecodeError>)
    ensures
        ({
            let (body, window_log_max, sizes) = zstd_progress(*old(decoder));
            let made = sizes.push(old(buffer)@.len());
            &&& zstd_progress(*final(decoder)) == (body, window_log_max, made)
            &&& final(buffer)@.len() == old(buffer)@.len()
            &&& match read {
                Ok(read) => {
                    &&& read <= final(buffer)@.len()
                    &&& zstd_read(body, window_log_max, made) == Ok::<Seq<u8>, DecodeErrorView>(
                        final(buffer)@.take(read as int),
                    )
                    &&& zstd_in_order(
                        body,
                        window_log_max,
                        made,
                        read == 0 && final(buffer)@.len() > 0,
                    )
                },
                Err(error) => zstd_read(body, window_log_max, made) == Err::<
                    Seq<u8>,
                    DecodeErrorView,
                >(error@),
            }
        }),
{
    match std::io::Read::read(decoder, buffer) {
        Ok(read) => Ok(read),
        Err(error) => Err(DecodeError {
            kind: match error.kind() {
                std::io::ErrorKind::InvalidData => DecodeErrorKind::InvalidData,
                std::io::ErrorKind::UnexpectedEof => DecodeErrorKind::UnexpectedEof,
                std::io::ErrorKind::InvalidInput => DecodeErrorKind::InvalidInput,
                _ => DecodeErrorKind::Other,
            },
            message: error.to_string(),
        }),
    }
}

/// What decoding a whole zstd body gives.
pub uninterp spec fn zstd_decoded(body: Seq<u8>) -> ChunkView;

/// `zstd::stream::decode_all`: all decoded bytes of all frames, or the error that stopped the
/// decoder. The outcome is a function of the body.
#[verifier::external_body]
pub(crate) fn zstd_decode_all(body: &[u8]) -> (decoded: Result<Vec<u8>, DecodeError>)
    ensures
        chunk_view(decoded) == zstd_decoded(body@),
{
    match zstd::stream::decode_all(body) {
        Ok(decoded) => Ok(decoded),
        Err(error) => Err(DecodeError {
            kind: match error.kind() {
                std::io::ErrorKind::InvalidData => DecodeErrorKind::InvalidData,
                std::io::ErrorKind::UnexpectedEof => DecodeErrorKind::UnexpectedEof,
                std::io::ErrorKind::InvalidInput => DecodeErrorKind::InvalidInput,
                _ => DecodeErrorKind::Other,
            },
            message: error.to_string(),
        }),
    }
}

/// How far a step of the deflate decoder came.
#[derive(Debug, Clone, Copy, PartialEq, Eq, Structural)]
pub enum InflateStatus {
    Progress,
    BufError,
    StreamEnd,
}

/// One call of the deflate decoder: its input, the room for its output, and whether the input
/// is all there is.
pub struct InflateCall {
    pub input: Seq<u8>,
    pub room: nat,
    pub finish: bool,
}

/// What a call of the deflate decoder does: how far it came or why it failed, how many bytes
/// of its input it consumed, and what it wrote.
pub struct InflateReply {
    pub status: Result<InflateStatus, Seq<char>>,
    pub consumed: nat,
    pub output: Seq<u8>,
}

/// What a deflate decoder holds: whether it expects a zlib header, and the calls made so far.
pub uninterp spec fn inflate_calls(decoder: flate2::Decompress) -> (bool, Seq<InflateCall>);

/// The bytes a deflate decoder has consumed and written so far.
pub uninterp spec fn inflate_totals(decoder: flate2::Decompress) -> (nat, nat);

/// What the last of the given calls does.
pub uninterp spec fn inflate_reply(zlib_header: bool, calls: Seq<InflateCall>) -> InflateReply;

/// How many bytes of their inputs the given calls consume.
pub open spec fn inflate_consumed(zlib_header: bool, calls: Seq<InflateCall>) -> nat
    decreases calls.len(),
{
    if calls.len() == 0 {
        0
    } else {
        inflate_consumed(zlib_header, calls.drop_last()) + inflate_reply(zlib_header, calls).consumed
    }
}

/// What the given calls write, one after the other.
pub open spec fn inflated(zlib_header: bool, calls: Seq<InflateCall>) -> Seq<u8>
    decreases calls.len(),
{
    if calls.len() == 0 {
        Seq::empty()
    } else {
        inflated(zlib_header, calls.drop_last()) + inflate_reply(zlib_header, calls).output
    }
}

/// Whether each call is given what the calls before it left of a body.
pub open spec fn fed(zlib_header: bool, calls: Seq<InflateCall>, body: Seq<u8>) -> bool
    decreases calls.len(),
{
    calls.len() > 0 ==> {
        let before = inflate_consumed(zlib_header, calls.drop_last());
        &&& fed(zlib_header, calls.drop_last(), body)
        &&& before <= body.len()
        &&& calls.last().input == body.skip(before as int)
    }
}

/// Whether calls on a body come to the end of its stream, and write these bytes.
pub open spec fn inflate_ends(
    zlib_header: bool,
    calls: Seq<InflateCall>,
    body: Seq<u8>,
    full: Seq<u8>,
) -> bool {
    &&& calls.len() > 0
    &&& fed(zlib_header, calls, body)
    &&& inflate_reply(zlib_header, calls).status == Ok::<InflateStatus, Seq<char>>(
        InflateStatus::StreamEnd,
    )
    &&& inflated(zlib_header, calls) == full
}

/// Whether calls on a body come to the end of its stream with these bytes, or write bytes that
/// begin with these, which are as many as can be addressed.
pub open spec fn inflate_reaches(
    zlib_header: bool,
    calls: Seq<InflateCall>,
    body: Seq<u8>,
    full: Seq<u8>,
) -> bool {
    ||| inflate_ends(zlib_header, calls, body, full)
    ||| full.len() >= usize::MAX && fed(zlib_header, calls, body) && full.is_prefix_of(
        inflated(zlib_header, calls),
    )
}

/// Whether the stream that a body begins with decodes to these bytes: as a whole, or as far as can
/// be addressed.
pub open spec fn inflate_whole(zlib_header: bool, body: Seq<u8>, full: Seq<u8>) -> bool {
    exists|calls: Seq<InflateCall>| #[trigger] inflate_reaches(zlib_header, calls, body, full)
}

/// Whether what calls on a body have written agrees with what any other calls do, on that body or
/// on a longer one, as far as both go; and whether no calls write more once these, or the others,
/// have come to the end of the stream.
pub open spec fn inflate_in_order(
    zlib_header: bool,
    calls: Seq<InflateCall>,
    at_end: bool,
) -> bool {
    forall|body: Seq<u8>, longer: Seq<u8>, other: Seq<InflateCall>|
        #![trigger fed(zlib_header, calls, body), fed(zlib_header, other, longer)]
        fed(zlib_header, calls, body) && body.is_prefix_of(longer) && fed(
            zlib_header,
            other,
            longer,
        ) ==> {
            let bytes = inflated(zlib_header, calls);
            let others = inflated(zlib_header, other);
            &&& agree(bytes, others)
            &&& inflate_ends(zlib_header, other, longer, others) ==> bytes.is_prefix_of(others)
            &&& at_end ==> others.is_prefix_of(bytes)
        }
}

/// `flate2::Decompress::new`: a decoder with no call made.
pub assume_specification[ flate2::Decompress::new ](zlib_header: bool) -> (decoder:
    flate2::Decompress)
    ensures
        inflate_calls(decoder) == (zlib_header, Seq::<InflateCall>::empty()),
        inflate_totals(decoder) == (0nat, 0nat),
;

/// `flate2::Decompress::total_in`: the bytes consumed over all calls.
pub assume_specification[ flate2::Decompress::total_in ](decoder: &flate2::Decompress) -> (total:
    u64)
    ensures
        total == inflate_totals(*decoder).0,
;

/// `flate2::Decompress::total_out`: the bytes written over all calls.
pub assume_specification[ flate2::Decompress::total_out ](decoder: &flate2::Decompress) -> (total:
    u64)
    ensures
        total == inflate_totals(*decoder).1,
;

/// The value of how far a step came or why it failed.
pub open spec fn status_view(status: Result<InflateStatus, String>) -> Result<
    InflateStatus,
    Seq<char>,
> {
    match status {
        Ok(status) => Ok(status),
        Err(message) => Err(message@),
    }
}

/// `flate2::Decompress::decompress`: consumes some of the input and writes to the front of the
/// output. The outcome is a function of this call and of the calls before; the totals grow by
/// what was consumed and written. The bytes come in the order in which the stream is decoded, as
/// soon as the input they need is there: what calls that are given the rest of a body each time
/// have written agrees with what other such calls write, whatever their rooms, on this body or on
/// one that this is the beginning of. There is no more to come at the end of the stream.
#[verifier::external_body]
pub(crate) fn inflate(
    decoder: &mut flate2::Decompress,
    input: &[u8],
    output: &mut Vec<u8>,
    finish: bool,
) -> (status: Result<InflateStatus, String>)
    requires
        inflate_totals(*old(decoder)).0 + input@.len() <= u64::MAX,
        inflate_totals(*old(decoder)).1 + old(output)@.len() <= u64::MAX,
    ensures
        ({
            let (zlib_header, calls) = inflate_calls(*old(decoder));
            let (total_in, total_out) = inflate_totals(*old(decoder));
            let made = calls.push(
                (InflateCall { input: input@, room: old(output)@.len(), finish: finish }),
            );
            let reply = inflate_reply(zlib_header, made);
            &&& inflate_calls(*final(decoder)) == (zlib_header, made)
            &&& inflate_totals(*final(decoder)) == (
                total_in + reply.consumed,
                total_out + reply.output.len(),
            )
            &&& inflate_totals(*final(decoder)).0 <= total_in + input@.len()
            &&& reply.output.len() <= final(output)@.len()
            &&& final(output)@.len() == old(output)@.len()
            &&& final(output)@.take(reply.output.len() as int) == reply.output
            &&& status_view(status) == reply.status
            &&& inflate_in_order(
                zlib_header,
                made,
                status == Ok::<InflateStatus, String>(InflateStatus::StreamEnd),
            )
        }),
{
    let flush = match finish {
        true => flate2::FlushDecompress::Finish,
        false => flate2::FlushDecompress::None,
    };
    match decoder.decompress(input, output, flush) {
        Ok(flate2::Status::Ok) => Ok(InflateStatus::Progress),
        Ok(flate2::Status::BufError) => Ok(InflateStatus::BufError),
        Ok(flate2::Status::StreamEnd) => Ok(InflateStatus::StreamEnd),
        Err(error) => Err(error.to_string()),
    }
}

/// A source of decoded bytes that is read piece by piece.
pub trait ChunkReader: Sized {
    /// The body that is decoded.
    spec fn body(&self) -> Seq<u8>;

    /// How many reads were made.
    spec fn reads(&self) -> nat;

    /// Whether the reader is as its constructor and its reads leave it.
    spec fn valid(&self) -> bool;

    /// What the read with that number, counted from zero, hands out.
    spec fn chunk_of(body: Seq<u8>, read: nat) -> ChunkView;

    /// All that was handed out, or the first error.
    spec fn handed(&self) -> ChunkView;

    /// Whether a body decodes to these bytes: as a whole, or as far as can be addressed.
    spec fn is_whole(body: Seq<u8>, full: Seq<u8>) -> bool;

    /// The next piece; empty at the end. What was handed out without an error is the beginning of
    /// the whole decoding, of this body and of every longer one, and at the end all of it.
    fn read_chunk(&mut self) -> (chunk: Result<Vec<u8>, DecodeError>)
        requires
            old(self).valid(),
        ensures
            final(self).valid(),
            final(self).body() == old(self).body(),
            final(self).reads() == old(self).reads() + 1,
            chunk_view(chunk) == Self::chunk_of(old(self).body(), old(self).reads()),
            chunk matches Ok(bytes) ==> bytes@.len() <= READ_BUFFER,
            final(self).handed() == appended(old(self).handed(), chunk_view(chunk)),
            final(self).handed() matches Ok(handed) ==> {
                &&& forall|longer: Seq<u8>, full: Seq<u8>|
                    old(self).body().is_prefix_of(longer) && #[trigger] Self::is_whole(longer, full)
                        ==> addressable(handed).is_prefix_of(full)
                &&& handed.len() <= usize::MAX && chunk_view(chunk) == Ok::<
                    Seq<u8>,
                    DecodeErrorView,
                >(Seq::empty()) ==> forall|
                    full: Seq<u8>,
                | #[trigger]
                    Self::is_whole(old(self).body(), full) ==> handed == full
            },
    ;
}

/// What agrees with bytes of which others are the beginning, and those as many as can be addressed,
/// agrees with those.
pub proof fn lemma_agreeing_start(bytes: Seq<u8>, other: Seq<u8>, start: Seq<u8>)
    requires
        agree(bytes, other),
        start.is_prefix_of(other),
    ensures
        start.len() >= usize::MAX ==> addressable(bytes).is_prefix_of(start),
        start.len() >= usize::MAX && other.is_prefix_of(bytes) && bytes.len() <= usize::MAX
            ==> bytes == start,
        start == other && bytes.is_prefix_of(other) ==> addressable(bytes).is_prefix_of(start),
        start == other && bytes.is_prefix_of(other) && other.is_prefix_of(bytes) ==> bytes == start,
{
    let reached = addressable(bytes);
    assert forall|i: int| 0 <= i < reached.len() && i < start.len() implies reached[i] == start[i] by {
        assert(start[i] == other.subrange(0, start.len() as int)[i]);
        if bytes.is_prefix_of(other) {
            assert(bytes[i] == other.subrange(0, bytes.len() as int)[i]);
        } else {
            assert(other[i] == bytes.subrange(0, other.len() as int)[i]);
        }
    }
    if start.len() >= usize::MAX {
        assert(reached =~= start.subrange(0, reached.len() as int));
        if other.is_prefix_of(bytes) && bytes.len() <= usize::MAX {
            assert(bytes =~= start);
        }
    }
    if start == other && bytes.is_prefix_of(other) {
        assert(reached =~= start.subrange(0, reached.len() as int));
        if other.is_prefix_of(bytes) {
            assert(bytes =~= start);
        }
    }
}

/// The front of the buffer that a read filled.
fn filled(buffer: Vec<u8>, read: Result<usize, DecodeError>) -> (chunk: Result<Vec<u8>, DecodeError>)
    requires
        read matches Ok(count) ==> count <= buffer@.len(),
    ensures
        chunk_view(chunk) == (match read {
            Ok(count) => Ok::<Seq<u8>, DecodeErrorView>(buffer@.take(count as int)),
            Err(error) => Err(error@),
        }),
{
    match read {
        Ok(count) => {
            let mut bytes = buffer;
            bytes.truncate(count);
            Ok(bytes)
        },
        Err(error) => Err(error),
    }
}

/// Reads of a gzip body.
pub struct GzipReader<'a> {
    decoder: flate2::read::MultiGzDecoder<&'a [u8]>,
}

impl<'a> GzipReader<'a> {
    /// A reader of the body, with no read made.
    pub fn new(body: &'a [u8]) -> (reader: Self)
        ensures
            reader.valid(),
            reader.body() == body@,
            reader.reads() == 0,
            reader.handed() == Ok::<Seq<u8>, DecodeErrorView>(Seq::empty()),
    {
        let decoder = gzip_open(body);
        assert(full_reads(0) =~= Seq::<nat>::empty());
        GzipReader { decoder }
    }
}

impl<'a> ChunkReader for GzipReader<'a> {
    closed spec fn body(&self) -> Seq<u8> {
        gzip_progress(self.decoder).0
    }

    closed spec fn reads(&self) -> nat {
        gzip_progress(self.decoder).1.len()
    }

    closed spec fn valid(&self) -> bool {
        gzip_progress(self.decoder).1 == full_reads(gzip_progress(self.decoder).1.len())
    }

    open spec fn chunk_of(body: Seq<u8>, read: nat) -> ChunkView {
        gzip_read(body, full_reads(read + 1))
    }

    closed spec fn handed(&self) -> ChunkView {
        gzip_bytes(gzip_progress(self.decoder).0, gzip_progress(self.decoder).1)
    }

    open spec fn is_whole(body: Seq<u8>, full: Seq<u8>) -> bool {
        gzip_whole(body, full)
    }

    fn read_chunk(&mut self) -> (chunk: Result<Vec<u8>, DecodeError>) {
        let mut buffer: Vec<u8> = vec![0u8; READ_BUFFER];
        let read = gzip_read_into(&mut self.decoder, &mut buffer);
        assert(full_reads(old(self).reads()).push(READ_BUFFER as nat) =~= full_reads(
            old(self).reads() + 1,
        ));
        proof {
            let sizes = gzip_progress(old(self).decoder).1;
            assert(sizes.push(READ_BUFFER as nat).drop_last() =~= sizes);
        }
        filled(buffer, read)
    }
}

/// Reads of a brotli body.
pub struct BrotliReader<'a> {
    decoder: BrotliDecoder<'a>,
}

impl<'a> BrotliReader<'a> {
    /// A reader of the body, with no read made.
    pub fn new(body: &'a [u8]) -> (reader: Self)
        ensures
            reader.valid(),
            reader.body() == body@,
            reader.reads() == 0,
            reader.handed() == Ok::<Seq<u8>, DecodeErrorView>(Seq::empty()),
    {
        let decoder = brotli_open(body, READ_BUFFER);
        assert(full_reads(0) =~= Seq::<nat>::empty());
        BrotliReader { decoder }
    }

    /// How many bytes of the body were never fetched.
    pub fn unread(&self) -> (left: usize)
        requires
            self.valid(),
        ensures
            left == brotli_left(self.body(), READ_BUFFER as nat, full_reads(self.reads())),
    {
        brotli_unread(&self.decoder)
    }
}

impl<'a> ChunkReader for BrotliReader<'a> {
    closed spec fn body(&self) -> Seq<u8> {
        brotli_progress(self.decoder).0
    }

    closed spec fn reads(&self) -> nat {
        brotli_progress(self.decoder).2.len()
    }

    closed spec fn valid(&self) -> bool {
        &&& brotli_progress(self.decoder).1 == READ_BUFFER
        &&& brotli_progress(self.decoder).2 == full_reads(brotli_progress(self.decoder).2.len())
    }

    open spec fn chunk_of(body: Seq<u8>, read: nat) -> ChunkView {
        brotli_read(body, READ_BUFFER as nat, full_reads(read + 1))
    }

    closed spec fn handed(&self) -> ChunkView {
        brotli_bytes(
            brotli_progress(self.decoder).0,
            brotli_progress(self.decoder).1,
            brotli_progress(self.decoder).2,
        )
    }

    open spec fn is_whole(body: Seq<u8>, full: Seq<u8>) -> bool {
        brotli_whole(body, full)
    }

    fn read_chunk(&mut self) -> (chunk: Result<Vec<u8>, DecodeError>) {
        let mut buffer: Vec<u8> = vec![0u8; READ_BUFFER];
        let read = brotli_read_into(&mut self.decoder, &mut buffer);
        assert(full_reads(old(self).reads()).push(READ_BUFFER as nat) =~= full_reads(
            old(self).reads() + 1,
        ));
        proof {
            let sizes = brotli_progress(old(self).decoder).2;
            assert(sizes.push(READ_BUFFER as nat).drop_last() =~= sizes);
            if let Ok(handed) = self.handed() {
                let body = self.body();
                let at_end = read == Ok::<usize, DecodeError>(0);
                let made = brotli_progress(self.decoder).2;
                assert(brotli_bytes(body, READ_BUFFER as nat, made) == Ok::<
                    Seq<u8>,
                    DecodeErrorView,
                >(handed));
                assert(brotli_in_order(body, READ_BUFFER as nat, made, at_end));
                assert forall|longer: Seq<u8>, full: Seq<u8>|
                    body.is_prefix_of(longer) && #[trigger] brotli_whole(longer, full) implies {
                    &&& addressable(handed).is_prefix_of(full)
                    &&& at_end && handed.len() <= usize::MAX && longer == body ==> handed == full
                } by {
                    let (input_buffer, sizes) = choose|input_buffer: nat, sizes: Seq<nat>|
                        input_buffer > 0 && #[trigger] brotli_reaches(
                            longer,
                            input_buffer,
                            sizes,
                            full,
                        );
                    assert(brotli_reaches(longer, input_buffer, sizes, full));
                    let other = brotli_bytes(longer, input_buffer, sizes)->Ok_0;
                    assert(brotli_bytes(longer, input_buffer, sizes) == Ok::<
                        Seq<u8>,
                        DecodeErrorView,
                    >(other));
                    lemma_agreeing_start(handed, other, full);
                }
            }
        }
        filled(buffer, read)
    }
}

/// Reads of a zstd body under the window limit.
pub struct ZstdReader<'a> {
    decoder: zstd::stream::read::Decoder<'static, std::io::BufReader<&'a [u8]>>,
}

/// The error with which a limited zstd reader cannot be set up on a body, if there is one.
pub open spec fn zstd_setup_error(body: Seq<u8>) -> Option<DecodeErrorView> {
    match zstd_open_error(body) {
        Some(error) => Some(error),
        None => zstd_window_error(LIMITED_DECODER_WINDOW_LOG_MAX),
    }
}

impl<'a> ZstdReader<'a> {
    /// A reader of the body, with no read made.
    pub fn new(body: &'a [u8]) -> (opened: Result<Self, DecodeError>)
        ensures
            match opened {
                Ok(reader) => {
                    &&& zstd_setup_error(body@) is None
                    &&& reader.valid()
                    &&& reader.body() == body@
                    &&& reader.reads() == 0
                    &&& reader.handed() == Ok::<Seq<u8>, DecodeErrorView>(Seq::empty())
                },
                Err(error) => zstd_setup_error(body@) == Some(error@),
            },
    {
        let mut decoder = match zstd_open(body) {
            Ok(decoder) => decoder,
            Err(error) => {
                return Err(error);
            },
        };
        match zstd_limit_window(&mut decoder, LIMITED_DECODER_WINDOW_LOG_MAX) {
            Ok(()) => {
                assert(full_reads(0) =~= Seq::<nat>::empty());
                Ok(ZstdReader { decoder })
            },
            Err(error) => Err(error),
        }
    }
}

impl<'a> ChunkReader for ZstdReader<'a> {
    closed spec fn body(&self) -> Seq<u8> {
        zstd_progress(self.decoder).0
    }

    closed spec fn reads(&self) -> nat {
        zstd_progress(self.decoder).2.len()
    }

    closed spec fn valid(&self) -> bool {
        &&& zstd_progress(self.decoder).1 == Some(LIMITED_DECODER_WINDOW_LOG_MAX)
        &&& zstd_progress(self.decoder).2 == full_reads(zstd_progress(self.decoder).2.len())
    }

    open spec fn chunk_of(body: Seq<u8>, read: nat) -> ChunkView {
        zstd_read(body, Some(LIMITED_DECODER_WINDOW_LOG_MAX), full_reads(read + 1))
    }

    closed spec fn handed(&self) -> ChunkView {
        zstd_bytes(
            zstd_progress(self.decoder).0,
            zstd_progress(self.decoder).1,
            zstd_progress(self.decoder).2,
        )
    }

    open spec fn is_whole(body: Seq<u8>, full: Seq<u8>) -> bool {
        zstd_whole(body, full)
    }

    fn read_chunk(&mut self) -> (chunk: Result<Vec<u8>, DecodeError>) {
        let mut buffer: Vec<u8> = vec![0u8; READ_BUFFER];
        let read = zstd_read_into(&mut self.decoder, &mut buffer);
        assert(full_reads(old(self).reads()).push(READ_BUFFER as nat) =~= full_reads(
            old(self).reads() + 1,
        ));
        proof {
            let sizes = zstd_progress(old(self).decoder).2;
            assert(sizes.push(READ_BUFFER as nat).drop_last() =~= sizes);
        }
        filled(buffer, read)
    }
}

} // verus!
