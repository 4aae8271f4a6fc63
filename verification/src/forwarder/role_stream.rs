//! Watches a stream that is already on its way to the client for the event that ends it.

use vstd::prelude::*;
use vstd::string::*;
use vstd::utf8::*;
use crate::error::ProxyErrorView;
use crate::forwarder::responses::{
    block_terminal, block_verdict, inspect_responses_start_event, inspect_role_stream_terminal,
    opt_terminal, RoleStreamTerminal, TerminalView,
};
use crate::forwarder::sse::{
    append_utf8_safe, block_length_is_first, decoded, decoding_at_most_triples,
    encoding_of_joined_texts, first_block, take_sse_block,
};
use crate::text::{join, opt_view, trim, trimmed};

verus! {

/// The most that a monitor keeps of a stream.
pub const ROLE_STREAM_TERMINAL_MONITOR_MAX_BYTES: usize = 262144;

/// Looks for the event that ends a stream, without keeping more than a bounded part of it.
#[derive(Debug)]
pub struct RoleStreamTerminalMonitor {
    pub parse_buffer: String,
    pub utf8_remainder: Vec<u8>,
    pub scanning: bool,
}

/// A monitor as a mathematical value.
pub struct MonitorView {
    /// The text that is in no complete block yet.
    pub text: Seq<char>,
    /// The bytes of a character that is not complete yet.
    pub rest: Seq<u8>,
    pub scanning: bool,
}

impl View for RoleStreamTerminalMonitor {
    type V = MonitorView;

    open spec fn view(&self) -> MonitorView {
        MonitorView {
            text: self.parse_buffer@,
            rest: self.utf8_remainder@,
            scanning: self.scanning,
        }
    }
}

/// The first end among the blocks of a text, and the text that is left behind the blocks.
pub open spec fn first_terminal(text: Seq<char>) -> (Seq<char>, Option<TerminalView>)
    decreases text.len(),
{
    match first_block(text) {
        Some((block, rest)) => match block_terminal(block) {
            Some(terminal) => (rest, Some(terminal)),
            None => if rest.len() < text.len() {
                first_terminal(rest)
            } else {
                (rest, None)
            },
        },
        None => (text, None),
    }
}

impl MonitorView {
    /// The number of bytes that the monitor keeps.
    pub open spec fn retained(self) -> nat {
        encode_utf8(self.text).len() + self.rest.len()
    }

    /// A monitor that looks no more and keeps nothing.
    pub open spec fn off() -> MonitorView {
        MonitorView { text: Seq::empty(), rest: Seq::empty(), scanning: false }
    }

    /// What holds of every monitor: it keeps at most a bounded part, and nothing once it is off.
    pub open spec fn well_formed(self) -> bool {
        &&& self.rest.len() <= 3
        &&& self.retained() <= ROLE_STREAM_TERMINAL_MONITOR_MAX_BYTES
        &&& !self.scanning ==> self == MonitorView::off()
    }

    /// The number of bytes that can be taken in whatever they are: each may become a replacement
    /// of three bytes, as may those of the character that is not complete.
    pub open spec fn room(self) -> int {
        let free = ROLE_STREAM_TERMINAL_MONITOR_MAX_BYTES - self.retained();
        if free >= 6 {
            (free - 6) / 3
        } else {
            0
        }
    }

    /// The monitor after some bytes that it has room for, and the end that it found.
    pub open spec fn after_piece(self, piece: Seq<u8>) -> (MonitorView, Option<TerminalView>) {
        let (more, rest) = decoded(self.rest + piece);
        let (text, terminal) = first_terminal(self.text + more);
        let next = MonitorView { text, rest, scanning: true };
        if terminal is Some || next.retained() >= ROLE_STREAM_TERMINAL_MONITOR_MAX_BYTES {
            (MonitorView::off(), terminal)
        } else {
            (next, None)
        }
    }

    /// The monitor after a chunk, and the end that it found. The chunk is taken in by pieces that
    /// there is room for; a monitor without room switches itself off.
    pub open spec fn after_chunk(self, chunk: Seq<u8>) -> (MonitorView, Option<TerminalView>)
        decreases chunk.len(),
    {
        if !self.scanning || chunk.len() == 0 {
            (self, None)
        } else if self.room() <= 0 {
            (MonitorView::off(), None)
        } else {
            let take = if self.room() < chunk.len() {
                self.room()
            } else {
                chunk.len() as int
            };
            let (next, terminal) = self.after_piece(chunk.take(take));
            if terminal is Some {
                (next, terminal)
            } else {
                next.after_chunk(chunk.skip(take))
            }
        }
    }
}

/// Dropping blocks from a text leaves no more bytes than there were.
proof fn blocks_leave_less(text: Seq<char>)
    ensures
        encode_utf8(first_terminal(text).0).len() <= encode_utf8(text).len(),
    decreases text.len(),
{
    block_length_is_first(text);
    if let Some((block, rest)) = first_block(text) {
        let gone = text.take(text.len() - rest.len());
        assert(gone + rest =~= text);
        encoding_of_joined_texts(gone, rest);
        if rest.len() < text.len() {
            blocks_leave_less(rest);
        }
    }
}

/// A piece that there is room for never makes a monitor keep too much.
pub proof fn room_is_enough(monitor: MonitorView, piece: Seq<u8>)
    requires
        monitor.well_formed(),
        0 < piece.len() <= monitor.room(),
        decoded(monitor.rest + piece).1.len() <= 3,
    ensures
        monitor.after_piece(piece).0.well_formed(),
        ({
            let (more, rest) = decoded(monitor.rest + piece);
            encode_utf8(monitor.text + more).len() + rest.len()
                <= ROLE_STREAM_TERMINAL_MONITOR_MAX_BYTES
        }),
{
    let (more, rest) = decoded(monitor.rest + piece);
    decoding_at_most_triples(monitor.rest + piece);
    encoding_of_joined_texts(monitor.text, more);
    blocks_leave_less(monitor.text + more);
}

impl RoleStreamTerminalMonitor {
    /// A monitor at the beginning of a stream.
    pub fn new() -> (monitor: RoleStreamTerminalMonitor)
        ensures
            monitor@ == (MonitorView { text: Seq::empty(), rest: Seq::empty(), scanning: true }),
            monitor@.well_formed(),
    {
        let monitor = RoleStreamTerminalMonitor {
            parse_buffer: String::new(),
            utf8_remainder: Vec::new(),
            scanning: true,
        };
        assert(monitor@.text =~= Seq::<char>::empty());
        assert(monitor@.rest =~= Seq::<u8>::empty());
        monitor
    }

    /// Whether the monitor still looks for the end.
    pub fn is_scanning(&self) -> (scanning: bool)
        ensures
            scanning == self@.scanning,
    {
        self.scanning
    }

    /// The number of bytes that the monitor keeps.
    pub fn retained_bytes(&self) -> (count: usize)
        requires
            self@.well_formed(),
        ensures
            count == self@.retained(),
    {
        let text: usize = self.parse_buffer.as_str().as_bytes().len();
        text + self.utf8_remainder.len()
    }

    /// The text that is in no complete block.
    pub fn residual(&self) -> (text: &str)
        ensures
            text@ == self@.text,
    {
        self.parse_buffer.as_str()
    }

    /// Stops looking and forgets what was kept.
    pub fn disable(&mut self)
        ensures
            final(self)@ == MonitorView::off(),
            final(self)@.well_formed(),
    {
        self.parse_buffer = String::new();
        self.utf8_remainder = Vec::new();
        self.scanning = false;
        assert(self@.text =~= Seq::<char>::empty());
        assert(self@.rest =~= Seq::<u8>::empty());
    }

    /// Takes the blocks out of the text up to the first that ends the stream.
    fn take_terminal(&mut self) -> (terminal: Option<RoleStreamTerminal>)
        ensures
            final(self).utf8_remainder == old(self).utf8_remainder,
            final(self).scanning == old(self).scanning,
            opt_terminal(terminal) == first_terminal(old(self)@.text).1,
            final(self)@.text == first_terminal(old(self)@.text).0,
    {
        let ghost text = self@.text;
        loop
            invariant
                self.utf8_remainder == old(self).utf8_remainder,
                self.scanning == old(self).scanning,
                text == old(self)@.text,
                first_terminal(text) == first_terminal(self@.text),
            decreases self@.text.len(),
        {
            proof {
                block_length_is_first(self@.text);
            }
            match take_sse_block(&mut self.parse_buffer) {
                Some(block) => {
                    if let Some(terminal) = inspect_role_stream_terminal(block.as_str()) {
                        return Some(terminal);
                    }
                },
                None => {
                    return None;
                },
            }
        }
    }

    /// Takes in a piece that there is room for.
    fn observe_piece(&mut self, piece: &[u8]) -> (terminal: Option<RoleStreamTerminal>)
        requires
            old(self)@.well_formed(),
            old(self)@.scanning,
            0 < piece@.len() <= old(self)@.room(),
        ensures
            (final(self)@, opt_terminal(terminal)) == old(self)@.after_piece(piece@),
            final(self)@.well_formed(),
    {
        let ghost before = self@;
        append_utf8_safe(&mut self.parse_buffer, &mut self.utf8_remainder, piece);
        proof {
            room_is_enough(before, piece@);
        }
        if let Some(terminal) = self.take_terminal() {
            self.disable();
            return Some(terminal);
        }
        proof {
            blocks_leave_less(before.text + decoded(before.rest + piece@).0);
        }
        if self.retained_bytes() >= ROLE_STREAM_TERMINAL_MONITOR_MAX_BYTES {
            self.disable();
        }
        None
    }

    /// Takes in a chunk of the stream. The end of the stream is reported where the chunk brings
    /// it, and the monitor is off from then on.
    pub fn observe_chunk(&mut self, chunk: &[u8]) -> (terminal: Option<RoleStreamTerminal>)
        requires
            old(self)@.well_formed(),
        ensures
            (final(self)@, opt_terminal(terminal)) == old(self)@.after_chunk(chunk@),
            final(self)@.well_formed(),
    {
        let ghost before = self@;
        let mut offset: usize = 0;
        assert(chunk@.skip(0) =~= chunk@);
        while offset < chunk.len() && self.scanning
            invariant
                offset <= chunk@.len(),
                self@.well_formed(),
                before == old(self)@,
                before.after_chunk(chunk@) == self@.after_chunk(chunk@.skip(offset as int)),
            decreases chunk@.len() - offset,
        {
            let ghost now = self@;
            let ghost rest = chunk@.skip(offset as int);
            let free = ROLE_STREAM_TERMINAL_MONITOR_MAX_BYTES - self.retained_bytes();
            let room: usize = if free >= 6 {
                (free - 6) / 3
            } else {
                0
            };
            if room == 0 {
                self.disable();
                return None;
            }
            let left = chunk.len() - offset;
            let take = if room < left {
                room
            } else {
                left
            };
            let piece = vstd::slice::slice_subrange(chunk, offset, offset + take);
            assert(piece@ =~= rest.take(take as int));
            assert(rest.skip(take as int) =~= chunk@.skip(offset + take));
            if let Some(terminal) = self.observe_piece(piece) {
                return Some(terminal);
            }
            offset = offset + take;
        }
        None
    }
}

/// What becomes of a stream whose result is recorded once it has ended.
#[derive(Debug)]
pub struct DeferredRoleStream {
    pub monitor: RoleStreamTerminalMonitor,
    pub recorded: bool,
}

/// What is to be recorded.
#[derive(Debug, PartialEq, Eq)]
pub enum RoleStreamReport {
    Nothing,
    /// The result of the provider: a success, or a failure with its error.
    Result(Option<String>),
    /// A success that says nothing about the provider, since its end went unseen.
    Unseen,
}

/// What is to be recorded, as a mathematical value.
pub enum RoleStreamReportView {
    Nothing,
    Result(Option<Seq<char>>),
    Unseen,
}

impl View for RoleStreamReport {
    type V = RoleStreamReportView;

    open spec fn view(&self) -> RoleStreamReportView {
        match self {
            RoleStreamReport::Nothing => RoleStreamReportView::Nothing,
            RoleStreamReport::Result(error) => RoleStreamReportView::Result(opt_view(*error)),
            RoleStreamReport::Unseen => RoleStreamReportView::Unseen,
        }
    }
}

/// The report for an end.
pub open spec fn terminal_report(terminal: Option<TerminalView>) -> RoleStreamReportView {
    match terminal {
        Some(TerminalView::Success) => RoleStreamReportView::Result(None),
        Some(TerminalView::Failure(error)) => RoleStreamReportView::Result(Some(error)),
        None => RoleStreamReportView::Nothing,
    }
}

/// The report for a stream that ends while its monitor still looks: a success, unless the text
/// that is left states a failure.
pub open spec fn residual_report(text: Seq<char>) -> RoleStreamReportView {
    let left = trimmed(text);
    RoleStreamReportView::Result(
        if left.len() > 0 {
            match block_verdict(left) {
                Some(Err(error)) => Some(error.message()),
                _ => None,
            }
        } else {
            None
        },
    )
}

impl DeferredRoleStream {
    /// A stream of which nothing has come yet.
    pub fn new() -> (stream: DeferredRoleStream)
        ensures
            stream.monitor@ == (MonitorView {
                text: Seq::empty(),
                rest: Seq::empty(),
                scanning: true,
            }),
            stream.monitor@.well_formed(),
            !stream.recorded,
    {
        DeferredRoleStream { monitor: RoleStreamTerminalMonitor::new(), recorded: false }
    }

    /// A chunk has come. Its end is reported, the first time that one is seen.
    pub fn observe_chunk(&mut self, chunk: &[u8]) -> (report: RoleStreamReport)
        requires
            old(self).monitor@.well_formed(),
        ensures
            final(self).monitor@.well_formed(),
            old(self).recorded ==> report@ == RoleStreamReportView::Nothing && *final(self)
                == *old(self),
            !old(self).recorded ==> {
                &&& final(self).monitor@ == old(self).monitor@.after_chunk(chunk@).0
                &&& report@ == terminal_report(old(self).monitor@.after_chunk(chunk@).1)
                &&& final(self).recorded == (report@ != RoleStreamReportView::Nothing)
            },
    {
        if self.recorded {
            return RoleStreamReport::Nothing;
        }
        match self.monitor.observe_chunk(chunk) {
            Some(RoleStreamTerminal::Success) => {
                self.recorded = true;
                RoleStreamReport::Result(None)
            },
            Some(RoleStreamTerminal::Failure(error)) => {
                self.recorded = true;
                RoleStreamReport::Result(Some(error))
            },
            None => RoleStreamReport::Nothing,
        }
    }

    /// Reading has failed, which is reported where no end was.
    pub fn observe_error(&mut self, error: &str) -> (report: RoleStreamReport)
        ensures
            final(self).recorded,
            final(self).monitor == old(self).monitor,
            report@ == if old(self).recorded {
                RoleStreamReportView::Nothing
            } else {
                RoleStreamReportView::Result(
                    Some("Role-routed stream read failed after output: "@ + error@),
                )
            },
    {
        if self.recorded {
            return RoleStreamReport::Nothing;
        }
        self.recorded = true;
        RoleStreamReport::Result(
            Some(join("Role-routed stream read failed after output: ", error)),
        )
    }

    /// The stream has ended, which is reported where no end was.
    pub fn finish(&mut self) -> (report: RoleStreamReport)
        ensures
            final(self).recorded,
            final(self).monitor == old(self).monitor,
            report@ == if old(self).recorded {
                RoleStreamReportView::Nothing
            } else if !old(self).monitor@.scanning {
                RoleStreamReportView::Unseen
            } else {
                residual_report(old(self).monitor@.text)
            },
    {
        if self.recorded {
            return RoleStreamReport::Nothing;
        }
        self.recorded = true;
        if !self.monitor.is_scanning() {
            return RoleStreamReport::Unseen;
        }
        let left = trim(self.monitor.residual());
        if !left.is_empty() {
            if let Some(Err(error)) = inspect_responses_start_event(left) {
                return RoleStreamReport::Result(Some(error.message()));
            }
        }
        RoleStreamReport::Result(None)
    }
}

/// The first block that ends a stream is the one that counts: blocks that do not are passed over, and
/// what stands behind it is left.
pub proof fn the_first_end_counts(text: Seq<char>, block: Seq<char>, rest: Seq<char>)
    requires
        first_block(text) == Some((block, rest)),
    ensures
        block_terminal(block) matches Some(terminal) ==> first_terminal(text) == (
            rest,
            Some(terminal),
        ),
        block_terminal(block) is None ==> first_terminal(text) == first_terminal(rest),
{
    block_length_is_first(text);
    if rest.len() >= text.len() {
        assert(rest.len() == text.len());
        assert(block.len() == 0);
    }
}

/// A stream that ends well is reported as a success, one that states a failure with its message, and
/// one that has not ended not at all.
pub proof fn ends_are_reported(error: Seq<char>, text: Seq<char>)
    ensures
        terminal_report(Some(TerminalView::Success)) == RoleStreamReportView::Result(None),
        terminal_report(Some(TerminalView::Failure(error))) == RoleStreamReportView::Result(
            Some(error),
        ),
        terminal_report(None) is Nothing,
        trimmed(text).len() == 0 ==> residual_report(text) == RoleStreamReportView::Result(None),
        block_verdict(trimmed(text)) is None || block_verdict(trimmed(text)) == Some(
            Ok::<(), ProxyErrorView>(()),
        ) ==> residual_report(text) == RoleStreamReportView::Result(None),
        trimmed(text).len() > 0 && (block_verdict(trimmed(text)) matches Some(Err(_))) ==> (
        residual_report(text) matches RoleStreamReportView::Result(Some(_))),
{
}

/// A monitor that has found an end looks no more; one that has not keeps what it has read, unless
/// that is 262144 bytes or more.
pub proof fn monitors_look_until_the_end(monitor: MonitorView, piece: Seq<u8>)
    ensures
        ({
            let (more, rest) = decoded(monitor.rest + piece);
            let (left, terminal) = first_terminal(monitor.text + more);
            let (next, found) = monitor.after_piece(piece);
            &&& found == terminal
            &&& terminal is Some ==> !next.scanning && next.text.len() == 0 && next.rest.len() == 0
            &&& terminal is None && encode_utf8(left).len() + rest.len() < 262144 ==> next.scanning
                && next.text == left && next.rest == rest
            &&& encode_utf8(left).len() + rest.len() >= 262144 ==> !next.scanning
        }),
{
}

/// A chunk that there is room for is taken in at once, however short it is; one that there is no room
/// for is taken in by pieces, and a monitor that looks no more takes in nothing.
pub proof fn chunks_are_taken_in(monitor: MonitorView, chunk: Seq<u8>)
    ensures
        monitor.scanning && 0 < chunk.len() <= monitor.room() ==> monitor.after_chunk(chunk)
            == monitor.after_piece(chunk),
        !monitor.scanning ==> monitor.after_chunk(chunk) == (monitor, None::<TerminalView>),
        monitor.after_chunk(Seq::empty()) == (monitor, None::<TerminalView>),
        monitor.scanning && 0 < monitor.room() < chunk.len() && monitor.after_piece(
            chunk.take(monitor.room()),
        ).1 is None ==> monitor.after_chunk(chunk) == monitor.after_piece(
            chunk.take(monitor.room()),
        ).0.after_chunk(chunk.skip(monitor.room())),
{
    if monitor.scanning && 0 < chunk.len() <= monitor.room() {
        let n = chunk.len() as int;
        assert(chunk.take(n) =~= chunk);
        assert(chunk.skip(n) =~= Seq::<u8>::empty());
        let (next, terminal) = monitor.after_piece(chunk);
        if terminal is None {
            assert(next.after_chunk(chunk.skip(n)) == (next, None::<TerminalView>));
        }
    }
}

} // verus!
