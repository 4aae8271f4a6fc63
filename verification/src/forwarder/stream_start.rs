//! Whether the start of a stream is good enough to commit it to the client: a machine that is
//! fed with what was read and with whether there is still time, and says what to do next.

use vstd::prelude::*;
use vstd::string::*;
use crate::error::{ProxyError, ProxyErrorView};
use crate::forwarder::json_probe::{
    brackets_are_bytes, probes_do_not_change_their_mind, ProbeView, ResponsesJsonDocumentProbe,
    ResponsesJsonProbeState,
};
use crate::forwarder::responses::{
    block_verdict, inspect_responses_json_document, inspect_responses_start_event, text_verdict,
    verdict_view, Verdict,
};
use crate::forwarder::sse::{
    append_utf8_safe, block_length, block_length_is_first, block_search, decoded, first_block,
    search_block, searched_text_stays_searched, take_sse_block, BlockSearch,
};
use crate::provider_retry::{facts_of, ResolvedRetryPolicy, ResolvedRetryPolicyView};
use crate::text::{chars_of, join, trim, trimmed};

verus! {

/// The most that is read of a stream before it has to show output.
pub const MAX_PRIME_BYTES: usize = 262144;

/// The most that is taken in or searched for a block between two looks at the clock.
pub const SCAN_BUDGET_BYTES: usize = 16384;

/// Whether an error is to be reported rather than let through. Without a policy every error is.
pub open spec fn rejects(policy: Option<ResolvedRetryPolicyView>, error: ProxyErrorView) -> bool {
    match policy {
        Some(policy) => policy.reason(facts_of(error)) is Some,
        None => true,
    }
}

/// The value of an optional policy.
pub open spec fn opt_policy(policy: Option<&ResolvedRetryPolicy>) -> Option<
    ResolvedRetryPolicyView,
> {
    match policy {
        Some(policy) => Some(policy@),
        None => None,
    }
}

/// Whether an error is to be reported rather than let through.
pub fn should_reject(policy: Option<&ResolvedRetryPolicy>, error: &ProxyError) -> (is: bool)
    ensures
        is == rejects(opt_policy(policy), error@),
{
    match policy {
        Some(policy) => policy.match_error(error).is_some(),
        None => true,
    }
}

/// What is being worked on when the clock is looked at.
#[derive(Clone, Copy, Debug, PartialEq, Eq, Structural)]
pub enum StartPhase {
    Data,
    Document,
    Event,
}

/// The name of a phase.
pub open spec fn phase_text(phase: StartPhase) -> Seq<char> {
    match phase {
        StartPhase::Data => "解析 Responses 首个语义输出前的 SSE/JSON 数据"@,
        StartPhase::Document => "解析 Responses 首个语义输出前的完整 JSON"@,
        StartPhase::Event => "解析 Responses 首个语义输出前的 SSE 事件"@,
    }
}

impl StartPhase {
    /// The name of the phase.
    pub fn text(self) -> (text: &'static str)
        ensures
            text@ == phase_text(self),
    {
        match self {
            StartPhase::Data => "解析 Responses 首个语义输出前的 SSE/JSON 数据",
            StartPhase::Document => "解析 Responses 首个语义输出前的完整 JSON",
            StartPhase::Event => "解析 Responses 首个语义输出前的 SSE 事件",
        }
    }
}

/// What to do next.
#[derive(Debug, PartialEq, Eq)]
pub enum StartAction {
    /// Read the next chunk.
    Read,
    /// Look at the clock.
    Check(StartPhase),
    /// Send everything that was read to the client, and the rest of the stream behind it.
    Commit,
    /// Give the stream up with this error.
    Reject(ProxyError),
}

/// What to do next, as a mathematical value.
pub enum StartActionView {
    Read,
    Check(StartPhase),
    Commit,
    Reject(ProxyErrorView),
}

impl View for StartAction {
    type V = StartActionView;

    open spec fn view(&self) -> StartActionView {
        match self {
            StartAction::Read => StartActionView::Read,
            StartAction::Check(phase) => StartActionView::Check(*phase),
            StartAction::Commit => StartActionView::Commit,
            StartAction::Reject(error) => StartActionView::Reject(error@),
        }
    }
}

/// What an outcome leads to: an error that is not to be reported is let through.
pub open spec fn settled(
    policy: Option<ResolvedRetryPolicyView>,
    outcome: Result<(), ProxyErrorView>,
) -> StartActionView {
    match outcome {
        Err(error) if rejects(policy, error) => StartActionView::Reject(error),
        _ => StartActionView::Commit,
    }
}

/// What an outcome leads to: an error that is not to be reported is let through.
pub fn settle(policy: Option<&ResolvedRetryPolicy>, outcome: Result<(), ProxyError>) -> (action:
    StartAction)
    ensures
        action@ == match outcome {
            Ok(()) => settled(opt_policy(policy), Ok(())),
            Err(error) => settled(opt_policy(policy), Err(error@)),
        },
{
    match outcome {
        Ok(()) => StartAction::Commit,
        Err(error) => if should_reject(policy, &error) {
            StartAction::Reject(error)
        } else {
            StartAction::Commit
        },
    }
}

/// What the machine is in the middle of.
#[derive(Debug)]
pub enum StartPending {
    Reading,
    /// Part of a chunk is taken in.
    Observing(Vec<u8>, usize),
    /// A whole document is there.
    Document,
    DocumentSeen(Option<Result<(), ProxyError>>),
    /// Part of the text is searched for the end of its first block.
    Searching,
    /// A block is there, perhaps the last one.
    Block(String, bool),
    BlockSeen(Option<Result<(), ProxyError>>, bool),
    Settled,
}

/// What the machine is in the middle of, as a mathematical value.
pub enum StartPendingView {
    Reading,
    Observing(Seq<u8>, nat),
    Document,
    DocumentSeen(Verdict),
    Searching,
    Block(Seq<char>, bool),
    BlockSeen(Verdict, bool),
    Settled,
}

impl View for StartPending {
    type V = StartPendingView;

    open spec fn view(&self) -> StartPendingView {
        match self {
            StartPending::Reading => StartPendingView::Reading,
            StartPending::Observing(bytes, observed) => StartPendingView::Observing(
                bytes@,
                *observed as nat,
            ),
            StartPending::Document => StartPendingView::Document,
            StartPending::DocumentSeen(verdict) => StartPendingView::DocumentSeen(
                verdict_view(*verdict),
            ),
            StartPending::Searching => StartPendingView::Searching,
            StartPending::Block(block, last) => StartPendingView::Block(block@, *last),
            StartPending::BlockSeen(verdict, last) => StartPendingView::BlockSeen(
                verdict_view(*verdict),
                *last,
            ),
            StartPending::Settled => StartPendingView::Settled,
        }
    }
}

/// The start of a stream.
#[derive(Debug)]
pub struct StreamStart {
    pub primed: usize,
    pub buffer: String,
    pub remainder: Vec<u8>,
    pub searched: usize,
    pub budget: usize,
    pub probe: ResponsesJsonDocumentProbe,
    pub pending: StartPending,
}

/// The start of a stream as a mathematical value.
pub struct StreamStartView {
    /// The number of bytes that were taken in.
    pub primed: nat,
    /// The text that was taken in, without the blocks that were looked at.
    pub text: Seq<char>,
    /// The bytes of a character that is not complete yet.
    pub rest: Seq<u8>,
    /// The position in the text before which no blank line begins.
    pub searched: nat,
    /// How much further the text is searched before the clock is looked at.
    pub budget: nat,
    pub probe: ProbeView,
    pub pending: StartPendingView,
}

impl View for StreamStart {
    type V = StreamStartView;

    open spec fn view(&self) -> StreamStartView {
        StreamStartView {
            primed: self.primed as nat,
            text: self.buffer@,
            rest: self.remainder@,
            searched: self.searched as nat,
            budget: self.budget as nat,
            probe: self.probe@,
            pending: self.pending@,
        }
    }
}

/// The error for a stream that shows no output within the limit.
pub open spec fn limit_error() -> ProxyErrorView {
    ProxyErrorView::ForwardFailed(
        "Responses stream exceeded the semantic priming limit of 262144 bytes before producing output or a terminal event"@,
    )
}

/// The error for a stream that ends without output.
pub open spec fn ended_error() -> ProxyErrorView {
    ProxyErrorView::ForwardFailed(
        "Responses stream ended before producing output or a terminal event"@,
    )
}

/// The error for a stream that cannot be read.
pub open spec fn read_error(source: Seq<char>) -> ProxyErrorView {
    ProxyErrorView::ForwardFailed("Failed while validating Responses stream start: "@ + source)
}

impl StreamStartView {
    /// The beginning.
    pub open spec fn fresh() -> StreamStartView {
        StreamStartView {
            primed: 0,
            text: Seq::empty(),
            rest: Seq::empty(),
            searched: 0,
            budget: SCAN_BUDGET_BYTES as nat,
            probe: ProbeView::fresh(),
            pending: StartPendingView::Reading,
        }
    }

    /// What holds throughout: no more is taken in than the limit, and no blank line begins where
    /// the text was searched already.
    pub open spec fn well_formed(self) -> bool {
        &&& self.primed <= MAX_PRIME_BYTES
        &&& self.probe.depth <= self.primed
        &&& self.budget <= SCAN_BUDGET_BYTES
        &&& self.searched <= block_length(self.text)
        &&& match self.pending {
            StartPendingView::Observing(bytes, observed) => observed <= bytes.len() && self.primed
                + bytes.len() - observed <= MAX_PRIME_BYTES && self.searched_for_good(),
            StartPendingView::Searching => self.probe.state != ResponsesJsonProbeState::Tracking,
            StartPendingView::Block(_, last) => last || self.searched == 0,
            StartPendingView::BlockSeen(_, last) => last || self.searched == 0,
            StartPendingView::Settled => true,
            _ => self.searched_for_good(),
        }
    }

    /// Whether no blank line begins where the text was searched already, whatever is read after it.
    pub open spec fn searched_for_good(self) -> bool {
        self.searched == 0 || self.searched + 3 <= self.text.len()
    }

    /// The machine in the middle of something else.
    pub open spec fn pending(self, pending: StartPendingView) -> StreamStartView {
        StreamStartView { pending, ..self }
    }

    /// The machine after it has taken in some bytes.
    pub open spec fn observed(self, segment: Seq<u8>) -> StreamStartView {
        StreamStartView {
            primed: self.primed + segment.len(),
            text: self.text + decoded(self.rest + segment).0,
            rest: decoded(self.rest + segment).1,
            probe: self.probe.after_all(segment),
            ..self
        }
    }

    /// An outcome ends the machine.
    pub open spec fn decide(
        self,
        policy: Option<ResolvedRetryPolicyView>,
        outcome: Result<(), ProxyErrorView>,
    ) -> (StreamStartView, StartActionView) {
        (self.pending(StartPendingView::Settled), settled(policy, outcome))
    }

    /// Nothing is left to look at: more is read, unless the limit is reached.
    pub open spec fn exhausted(self, policy: Option<ResolvedRetryPolicyView>) -> (
        StreamStartView,
        StartActionView,
    ) {
        if self.primed >= MAX_PRIME_BYTES {
            self.decide(policy, Err(limit_error()))
        } else {
            (self.pending(StartPendingView::Reading), StartActionView::Read)
        }
    }

    /// The text is searched for its next block, unless a document has begun, which may hold blank
    /// lines. Where the budget is used up the clock is looked at first; where there is no block the
    /// search goes on at the end of the text, as far as a blank line may still begin there.
    pub open spec fn scanned(self, policy: Option<ResolvedRetryPolicyView>) -> (
        StreamStartView,
        StartActionView,
    ) {
        if self.probe.state == ResponsesJsonProbeState::Tracking {
            self.exhausted(policy)
        } else {
            match block_search(self.text, self.searched, self.budget) {
                BlockSearch::OutOfBudget => (
                    StreamStartView {
                        searched: self.searched + self.budget,
                        budget: SCAN_BUDGET_BYTES as nat,
                        pending: StartPendingView::Searching,
                        ..self
                    },
                    StartActionView::Check(StartPhase::Event),
                ),
                BlockSearch::Found(_) => {
                    let (block, text) = first_block(self.text)->Some_0;
                    (
                        StreamStartView {
                            text,
                            searched: 0,
                            budget: (self.budget - (block.len() - self.searched)) as nat,
                            pending: StartPendingView::Block(block, false),
                            ..self
                        },
                        StartActionView::Check(StartPhase::Event),
                    )
                },
                BlockSearch::Missing => (StreamStartView {
                    searched: if self.text.len() < 3 {
                        0
                    } else {
                        (self.text.len() - 3) as nat
                    },
                    ..self
                }).exhausted(policy),
            }
        }
    }

    /// The search for blocks begins, with a full budget.
    pub open spec fn searching(self, policy: Option<ResolvedRetryPolicyView>) -> (
        StreamStartView,
        StartActionView,
    ) {
        (StreamStartView { budget: SCAN_BUDGET_BYTES as nat, ..self }).scanned(policy)
    }

    /// A chunk was taken in whole: a document that is complete now comes first.
    pub open spec fn parsed(self, policy: Option<ResolvedRetryPolicyView>) -> (
        StreamStartView,
        StartActionView,
    ) {
        if self.probe.state == ResponsesJsonProbeState::Complete {
            (
                StreamStartView {
                    probe: ProbeView { state: ResponsesJsonProbeState::Consumed, ..self.probe },
                    pending: StartPendingView::Document,
                    ..self
                },
                StartActionView::Check(StartPhase::Document),
            )
        } else {
            self.searching(policy)
        }
    }

    /// The next part of a chunk is taken in. The clock is looked at behind each full part.
    pub open spec fn observing(
        self,
        policy: Option<ResolvedRetryPolicyView>,
        bytes: Seq<u8>,
        observed: nat,
    ) -> (StreamStartView, StartActionView) {
        let left = bytes.len() - observed;
        if left <= 0 {
            self.parsed(policy)
        } else if left < SCAN_BUDGET_BYTES {
            self.observed(bytes.skip(observed as int)).parsed(policy)
        } else {
            let end = observed + SCAN_BUDGET_BYTES as nat;
            (
                self.observed(bytes.subrange(observed as int, end as int)).pending(
                    StartPendingView::Observing(bytes, end),
                ),
                StartActionView::Check(StartPhase::Data),
            )
        }
    }

    /// A chunk was read. It is taken in as far as the limit goes.
    pub open spec fn chunk(self, policy: Option<ResolvedRetryPolicyView>, bytes: Seq<u8>) -> (
        StreamStartView,
        StartActionView,
    ) {
        let room = MAX_PRIME_BYTES - self.primed;
        let inspected = if room < bytes.len() {
            bytes.take(room)
        } else {
            bytes
        };
        self.observing(policy, inspected, 0)
    }

    /// The stream has ended. What is left of it is the last block.
    pub open spec fn end(self, policy: Option<ResolvedRetryPolicyView>) -> (
        StreamStartView,
        StartActionView,
    ) {
        let left = trimmed(self.text);
        if left.len() > 0 {
            (
                self.pending(StartPendingView::Block(left, true)),
                StartActionView::Check(StartPhase::Event),
            )
        } else {
            self.decide(policy, Err(ended_error()))
        }
    }

    /// There is still time.
    pub open spec fn in_time(self, policy: Option<ResolvedRetryPolicyView>) -> (
        StreamStartView,
        StartActionView,
    ) {
        match self.pending {
            StartPendingView::Observing(bytes, observed) => self.observing(policy, bytes, observed),
            StartPendingView::Document => (
                self.pending(StartPendingView::DocumentSeen(text_verdict(self.text))),
                StartActionView::Check(StartPhase::Document),
            ),
            StartPendingView::DocumentSeen(Some(outcome)) => self.decide(policy, outcome),
            StartPendingView::DocumentSeen(None) => self.searching(policy),
            StartPendingView::Searching => self.scanned(policy),
            StartPendingView::Block(block, last) => (
                self.pending(StartPendingView::BlockSeen(block_verdict(block), last)),
                StartActionView::Check(StartPhase::Event),
            ),
            StartPendingView::BlockSeen(Some(outcome), _) => self.decide(policy, outcome),
            StartPendingView::BlockSeen(None, last) => if last {
                self.decide(policy, Err(ended_error()))
            } else {
                self.scanned(policy)
            },
            StartPendingView::Reading => (self, StartActionView::Read),
            StartPendingView::Settled => (self, StartActionView::Commit),
        }
    }
}

impl StreamStart {
    /// The beginning of a stream.
    pub fn new() -> (start: StreamStart)
        ensures
            start@ == StreamStartView::fresh(),
            start@.well_formed(),
    {
        let start = StreamStart {
            primed: 0,
            buffer: String::new(),
            remainder: Vec::new(),
            searched: 0,
            budget: SCAN_BUDGET_BYTES,
            probe: ResponsesJsonDocumentProbe::new(),
            pending: StartPending::Reading,
        };
        assert(start@.text =~= Seq::<char>::empty());
        assert(start@.rest =~= Seq::<u8>::empty());
        start
    }

    fn decide(self, policy: Option<&ResolvedRetryPolicy>, outcome: Result<(), ProxyError>) -> (next:
        (StreamStart, StartAction))
        requires
            self@.well_formed(),
        ensures
            next.0@.well_formed(),
            (next.0@, next.1@) == self@.decide(
                opt_policy(policy),
                match outcome {
                    Ok(()) => Ok(()),
                    Err(error) => Err(error@),
                },
            ),
    {
        let mut start = self;
        start.pending = StartPending::Settled;
        (start, settle(policy, outcome))
    }

    fn exhausted(self, policy: Option<&ResolvedRetryPolicy>) -> (next: (StreamStart, StartAction))
        requires
            self@.well_formed(),
            self@.searched_for_good(),
        ensures
            next.0@.well_formed(),
            (next.0@, next.1@) == self@.exhausted(opt_policy(policy)),
    {
        if self.primed >= MAX_PRIME_BYTES {
            let error = ProxyError::ForwardFailed(
                "Responses stream exceeded the semantic priming limit of 262144 bytes before producing output or a terminal event".to_owned(),
            );
            self.decide(policy, Err(error))
        } else {
            let mut start = self;
            start.pending = StartPending::Reading;
            (start, StartAction::Read)
        }
    }

    fn scanned(self, policy: Option<&ResolvedRetryPolicy>) -> (next: (StreamStart, StartAction))
        requires
            self@.well_formed(),
            self@.searched_for_good() || self@.probe.state != ResponsesJsonProbeState::Tracking,
        ensures
            next.0@.well_formed(),
            (next.0@, next.1@) == self@.scanned(opt_policy(policy)),
    {
        let mut start = self;
        if start.probe.is_tracking() {
            return start.exhausted(policy);
        }
        proof {
            block_length_is_first(start@.text);
        }
        match search_block(start.buffer.as_str(), start.searched, start.budget) {
            BlockSearch::OutOfBudget => {
                start.searched = start.searched + start.budget;
                start.budget = SCAN_BUDGET_BYTES;
                start.pending = StartPending::Searching;
                (start, StartAction::Check(StartPhase::Event))
            },
            BlockSearch::Found(at) => {
                start.budget = start.budget - (at - start.searched);
                start.searched = 0;
                if let Some(block) = take_sse_block(&mut start.buffer) {
                    start.pending = StartPending::Block(block, false);
                }
                (start, StartAction::Check(StartPhase::Event))
            },
            BlockSearch::Missing => {
                let length = chars_of(start.buffer.as_str()).len();
                start.searched = if length < 3 {
                    0
                } else {
                    length - 3
                };
                start.pending = StartPending::Reading;
                start.exhausted(policy)
            },
        }
    }

    fn searching(self, policy: Option<&ResolvedRetryPolicy>) -> (next: (StreamStart, StartAction))
        requires
            self@.well_formed(),
            self@.searched_for_good(),
        ensures
            next.0@.well_formed(),
            (next.0@, next.1@) == self@.searching(opt_policy(policy)),
    {
        let mut start = self;
        start.budget = SCAN_BUDGET_BYTES;
        start.scanned(policy)
    }

    fn parsed(self, policy: Option<&ResolvedRetryPolicy>) -> (next: (StreamStart, StartAction))
        requires
            self@.well_formed(),
            self@.searched_for_good(),
        ensures
            next.0@.well_formed(),
            (next.0@, next.1@) == self@.parsed(opt_policy(policy)),
    {
        let mut start = self;
        if start.probe.take_complete() {
            start.pending = StartPending::Document;
            (start, StartAction::Check(StartPhase::Document))
        } else {
            start.searching(policy)
        }
    }

    fn observe(&mut self, segment: &[u8])
        requires
            old(self).primed + segment@.len() <= MAX_PRIME_BYTES,
            old(self).probe.depth <= old(self).primed,
            old(self)@.searched <= block_length(old(self)@.text),
            old(self)@.searched_for_good(),
        ensures
            final(self)@ == old(self)@.observed(segment@),
            final(self).probe.depth <= final(self).primed,
            final(self).primed == old(self).primed + segment@.len(),
            final(self)@.searched <= block_length(final(self)@.text),
            final(self)@.searched_for_good(),
    {
        proof {
            brackets_are_bytes(self.probe@, segment@);
            searched_text_stays_searched(
                self@.text,
                decoded(self@.rest + segment@).0,
                self@.searched,
            );
        }
        append_utf8_safe(&mut self.buffer, &mut self.remainder, segment);
        self.probe.observe(segment);
        self.primed = self.primed + segment.len();
    }

    fn observing(
        self,
        policy: Option<&ResolvedRetryPolicy>,
        bytes: Vec<u8>,
        observed: usize,
    ) -> (next: (StreamStart, StartAction))
        requires
            self@.well_formed(),
            observed <= bytes@.len(),
            self.primed + bytes@.len() - observed <= MAX_PRIME_BYTES,
            self@.searched_for_good(),
        ensures
            next.0@.well_formed(),
            (next.0@, next.1@) == self@.observing(opt_policy(policy), bytes@, observed as nat),
    {
        let mut start = self;
        start.pending = StartPending::Reading;
        let left = bytes.len() - observed;
        if left == 0 {
            return start.parsed(policy);
        }
        if left < SCAN_BUDGET_BYTES {
            let segment = vstd::slice::slice_subrange(bytes.as_slice(), observed, bytes.len());
            assert(segment@ =~= bytes@.skip(observed as int));
            start.observe(segment);
            return start.parsed(policy);
        }
        let end = observed + SCAN_BUDGET_BYTES;
        let segment = vstd::slice::slice_subrange(bytes.as_slice(), observed, end);
        start.observe(segment);
        start.pending = StartPending::Observing(bytes, end);
        (start, StartAction::Check(StartPhase::Data))
    }

    /// A chunk was read. It is taken in as far as the limit goes.
    pub fn chunk(self, policy: Option<&ResolvedRetryPolicy>, bytes: &[u8]) -> (next: (
        StreamStart,
        StartAction,
    ))
        requires
            self@.well_formed(),
            self@.pending is Reading,
        ensures
            next.0@.well_formed(),
            (next.0@, next.1@) == self@.chunk(opt_policy(policy), bytes@),
    {
        let room = MAX_PRIME_BYTES - self.primed;
        let length = if room < bytes.len() {
            room
        } else {
            bytes.len()
        };
        let mut inspected: Vec<u8> = Vec::new();
        inspected.extend_from_slice(vstd::slice::slice_subrange(bytes, 0, length));
        assert(inspected@ =~= if room < bytes@.len() {
            bytes@.take(room as int)
        } else {
            bytes@
        });
        self.observing(policy, inspected, 0)
    }

    /// The stream has ended. What is left of it is the last block.
    pub fn end(self, policy: Option<&ResolvedRetryPolicy>) -> (next: (StreamStart, StartAction))
        requires
            self@.well_formed(),
        ensures
            next.0@.well_formed(),
            (next.0@, next.1@) == self@.end(opt_policy(policy)),
    {
        let left = trim(self.buffer.as_str()).to_owned();
        if !left.as_str().is_empty() {
            let mut start = self;
            start.pending = StartPending::Block(left, true);
            return (start, StartAction::Check(StartPhase::Event));
        }
        let error = ProxyError::ForwardFailed(
            "Responses stream ended before producing output or a terminal event".to_owned(),
        );
        self.decide(policy, Err(error))
    }

    /// Reading has failed.
    pub fn read_failed(self, policy: Option<&ResolvedRetryPolicy>, source: &str) -> (next: (
        StreamStart,
        StartAction,
    ))
        requires
            self@.well_formed(),
        ensures
            next.0@.well_formed(),
            (next.0@, next.1@) == self@.decide(opt_policy(policy), Err(read_error(source@))),
    {
        let error = ProxyError::ForwardFailed(
            join("Failed while validating Responses stream start: ", source),
        );
        self.decide(policy, Err(error))
    }

    /// The time is over.
    pub fn expired(self, policy: Option<&ResolvedRetryPolicy>, error: ProxyError) -> (next: (
        StreamStart,
        StartAction,
    ))
        requires
            self@.well_formed(),
        ensures
            next.0@.well_formed(),
            (next.0@, next.1@) == self@.decide(opt_policy(policy), Err(error@)),
    {
        self.decide(policy, Err(error))
    }

    /// There is still time.
    pub fn in_time(self, policy: Option<&ResolvedRetryPolicy>) -> (next: (StreamStart, StartAction))
        requires
            self@.well_formed(),
        ensures
            next.0@.well_formed(),
            (next.0@, next.1@) == self@.in_time(opt_policy(policy)),
    {
        let mut start = self;
        match start.pending {
            StartPending::Observing(bytes, observed) => {
                start.pending = StartPending::Reading;
                start.observing(policy, bytes, observed)
            },
            StartPending::Document => {
                let verdict = inspect_responses_json_document(start.buffer.as_str());
                start.pending = StartPending::DocumentSeen(verdict);
                (start, StartAction::Check(StartPhase::Document))
            },
            StartPending::DocumentSeen(Some(outcome)) => {
                start.pending = StartPending::Settled;
                start.decide(policy, outcome)
            },
            StartPending::DocumentSeen(None) => start.searching(policy),
            StartPending::Searching => start.scanned(policy),
            StartPending::Block(block, last) => {
                let verdict = inspect_responses_start_event(block.as_str());
                start.pending = StartPending::BlockSeen(verdict, last);
                (start, StartAction::Check(StartPhase::Event))
            },
            StartPending::BlockSeen(Some(outcome), _) => {
                start.pending = StartPending::Settled;
                start.decide(policy, outcome)
            },
            StartPending::BlockSeen(None, last) => if last {
                let error = ProxyError::ForwardFailed(
                    "Responses stream ended before producing output or a terminal event".to_owned(),
                );
                start.decide(policy, Err(error))
            } else {
                start.scanned(policy)
            },
            StartPending::Reading => (start, StartAction::Read),
            StartPending::Settled => (start, StartAction::Commit),
        }
    }
}

/// Where every error counts, a stream is only committed for a document or a block that says so.
pub proof fn commits_have_a_reason(start: StreamStartView)
    requires
        !(start.pending is Settled),
        start.in_time(None).1 is Commit,
    ensures
        match start.pending {
            StartPendingView::DocumentSeen(Some(outcome)) => outcome is Ok,
            StartPendingView::BlockSeen(Some(outcome), _) => outcome is Ok,
            _ => false,
        },
{
}

/// A document is looked at only once its last bracket has come, and then once: with the document
/// taken, nothing that comes later makes the machine look at one again.
pub proof fn documents_are_looked_at_once(
    start: StreamStartView,
    policy: Option<ResolvedRetryPolicyView>,
    bytes: Seq<u8>,
)
    requires
        start.probe.state == ResponsesJsonProbeState::Consumed,
        !(start.pending is Document),
    ensures
        start.chunk(policy, bytes).0.probe.state == ResponsesJsonProbeState::Consumed,
        !(start.chunk(policy, bytes).0.pending is Document),
        start.in_time(policy).0.probe.state == ResponsesJsonProbeState::Consumed,
        !(start.in_time(policy).0.pending is Document),
{
    let room = MAX_PRIME_BYTES - start.primed;
    let inspected = if room < bytes.len() {
        bytes.take(room)
    } else {
        bytes
    };
    probes_do_not_change_their_mind(start.probe, inspected.skip(0));
    probes_do_not_change_their_mind(
        start.probe,
        inspected.subrange(0, SCAN_BUDGET_BYTES as int),
    );
    if let StartPendingView::Observing(left, observed) = start.pending {
        probes_do_not_change_their_mind(start.probe, left.skip(observed as int));
        probes_do_not_change_their_mind(
            start.probe,
            left.subrange(observed as int, observed + SCAN_BUDGET_BYTES),
        );
    }
}

/// While a document is incomplete nothing is looked at, neither the document nor a block that its
/// blank lines would make.
pub proof fn incomplete_documents_are_left_alone(
    start: StreamStartView,
    policy: Option<ResolvedRetryPolicyView>,
)
    requires
        start.probe.state == ResponsesJsonProbeState::Tracking,
    ensures
        !(start.parsed(policy).0.pending is Document),
        !(start.parsed(policy).0.pending is Block),
        start.parsed(policy).0.text == start.text,
{
}

/// Between two looks at the clock no more of the text is searched than the budget that is left,
/// which is never more than the whole one. A search that uses it up has found nothing yet, looks
/// at the clock, and goes on from there with a new one.
pub proof fn searches_look_at_the_clock(
    start: StreamStartView,
    policy: Option<ResolvedRetryPolicyView>,
)
    requires
        start.well_formed(),
        start.probe.state != ResponsesJsonProbeState::Tracking,
    ensures
        start.budget <= SCAN_BUDGET_BYTES,
        ({
            let (after, action) = start.scanned(policy);
            match after.pending {
                StartPendingView::Searching => {
                    &&& action == StartActionView::Check(StartPhase::Event)
                    &&& after.searched == start.searched + start.budget
                    &&& after.searched < block_length(start.text)
                    &&& after.budget == SCAN_BUDGET_BYTES
                    &&& after.text == start.text
                },
                StartPendingView::Block(block, _) => {
                    &&& block.len() - start.searched <= start.budget
                    &&& after.budget == start.budget - (block.len() - start.searched)
                },
                _ => start.text.len() - start.searched <= start.budget,
            }
        }),
{
    block_length_is_first(start.text);
}

/// A search that was interrupted to look at the clock comes to an end: each time there is less
/// left to search.
pub proof fn searches_come_to_an_end(
    start: StreamStartView,
    policy: Option<ResolvedRetryPolicyView>,
)
    requires
        start.well_formed(),
        start.budget == SCAN_BUDGET_BYTES,
        start.pending is Searching,
        start.in_time(policy).0.pending is Searching,
    ensures
        start.searched < start.in_time(policy).0.searched < block_length(start.text),
        start.in_time(policy).0.budget == SCAN_BUDGET_BYTES,
        start.in_time(policy).0.text == start.text,
{
}

/// Where every error counts, the machine never commits on a chunk or an end alone.
pub proof fn reading_never_commits(start: StreamStartView, bytes: Seq<u8>)
    ensures
        !(start.chunk(None, bytes).1 is Commit),
        !(start.end(None).1 is Commit),
{
}

/// An error of a stream's start is reported where nothing is said of retries; with a policy it is
/// where that policy has a reason for a retry, and else the stream is let through.
pub proof fn errors_are_reported_by_the_policy(
    start: StreamStartView,
    policy: ResolvedRetryPolicyView,
    error: ProxyErrorView,
)
    ensures
        start.decide(None, Err(error)).1 == StartActionView::Reject(error),
        policy.reason(facts_of(error)) is Some ==> start.decide(Some(policy), Err(error)).1
            == StartActionView::Reject(error),
        policy.reason(facts_of(error)) is None ==> start.decide(Some(policy), Err(error)).1
            == StartActionView::Commit,
        start.decide(None, Ok(())).1 == StartActionView::Commit,
        start.decide(Some(policy), Ok(())).1 == StartActionView::Commit,
        start.decide(Some(policy), Err(error)).0.pending is Settled,
{
}

/// What was seen decides: the verdict on a document or on an event settles the stream, without one
/// the search goes on, and a last block without one means that the stream ended without output.
pub proof fn verdicts_settle_the_stream(start: StreamStartView, error: ProxyErrorView, last: bool)
    ensures
        start.pending == StartPendingView::DocumentSeen(Some(Err(error))) ==> start.in_time(None).1
            == StartActionView::Reject(error),
        start.pending == StartPendingView::DocumentSeen(Some(Ok(()))) ==> start.in_time(None).1
            == StartActionView::Commit,
        start.pending == StartPendingView::BlockSeen(Some(Err(error)), last) ==> start.in_time(
            None,
        ).1 == StartActionView::Reject(error),
        start.pending == StartPendingView::BlockSeen(Some(Ok(())), last) ==> start.in_time(None).1
            == StartActionView::Commit,
        start.pending == StartPendingView::BlockSeen(None, true) ==> start.in_time(None).1
            == StartActionView::Reject(
            ProxyErrorView::ForwardFailed(
                "Responses stream ended before producing output or a terminal event"@,
            ),
        ),
        start.pending is Document ==> start.in_time(None).0.pending
            == StartPendingView::DocumentSeen(text_verdict(start.text)),
        start.pending matches StartPendingView::Block(block, is_last) ==> start.in_time(
            None,
        ).0.pending == StartPendingView::BlockSeen(block_verdict(block), is_last),
{
}

/// A stream may take 262144 bytes until it shows output: while it has taken fewer, more is read where
/// there is nothing to look at, and then it is refused.
pub proof fn streams_show_output_within_the_limit(start: StreamStartView)
    ensures
        start.primed < 262144 ==> start.exhausted(None).1 == StartActionView::Read,
        start.primed >= 262144 ==> start.exhausted(None).1 == StartActionView::Reject(
            ProxyErrorView::ForwardFailed(
                "Responses stream exceeded the semantic priming limit of 262144 bytes before producing output or a terminal event"@,
            ),
        ),
{
}

/// A stream that ends leaves its last block to be looked at, whatever white space is around it; one
/// that leaves nothing is refused.
pub proof fn ended_streams_are_looked_at_once_more(start: StreamStartView)
    ensures
        trimmed(start.text).len() > 0 ==> start.end(None).0.pending == StartPendingView::Block(
            trimmed(start.text),
            true,
        ),
        trimmed(start.text).len() == 0 ==> start.end(None).1 == StartActionView::Reject(
            ProxyErrorView::ForwardFailed(
                "Responses stream ended before producing output or a terminal event"@,
            ),
        ),
{
}

/// What has come is read as one text, wherever it was cut, and its first block is looked at before
/// anything else.
pub proof fn blocks_are_looked_at_in_their_order(
    start: StreamStartView,
    policy: Option<ResolvedRetryPolicyView>,
    segment: Seq<u8>,
    block: Seq<char>,
    rest: Seq<char>,
)
    ensures
        start.observed(segment).text == start.text + decoded(start.rest + segment).0,
        start.observed(segment).rest == decoded(start.rest + segment).1,
        start.observed(segment).primed == start.primed + segment.len(),
        start.probe.state != ResponsesJsonProbeState::Tracking && first_block(start.text) == Some(
            (block, rest),
        ) && block.len() <= start.searched + start.budget ==> {
            &&& start.scanned(policy).0.pending == StartPendingView::Block(block, false)
            &&& start.scanned(policy).0.text == rest
        },
        start.probe.state != ResponsesJsonProbeState::Tracking && first_block(start.text) is None
            && start.text.len() <= start.searched + start.budget && start.primed < 262144
            ==> start.scanned(policy).1 == StartActionView::Read && start.scanned(policy).0.text
            == start.text,
{
    block_length_is_first(start.text);
}

/// The phases of a stream's start have names, and a stream that cannot be read says why.
pub proof fn phases_have_names(phase: StartPhase, source: Seq<char>)
    ensures
        phase is Data ==> phase_text(phase) == "解析 Responses 首个语义输出前的 SSE/JSON 数据"@,
        phase is Document ==> phase_text(phase) == "解析 Responses 首个语义输出前的完整 JSON"@,
        phase is Event ==> phase_text(phase) == "解析 Responses 首个语义输出前的 SSE 事件"@,
        read_error(source) == ProxyErrorView::ForwardFailed(
            "Failed while validating Responses stream start: "@ + source,
        ),
{
}

} // verus!
