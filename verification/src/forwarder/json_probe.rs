//! Notices where a byte stream that looks like one JSON document is complete.

use vstd::prelude::*;

verus! {

/// What is known of a byte stream so far.
#[derive(Clone, Copy, Debug, PartialEq, Eq, Structural)]
pub enum ResponsesJsonProbeState {
    /// Only white space has come.
    Undetermined,
    /// The stream begins with something that is no object and no array.
    NotJson,
    /// The document has begun.
    Tracking,
    /// The document's last bracket has come.
    Complete,
    /// The complete document has been taken.
    Consumed,
}

/// Follows the brackets of a JSON document as its bytes come in.
#[derive(Debug, PartialEq, Eq)]
pub struct ResponsesJsonDocumentProbe {
    pub state: ResponsesJsonProbeState,
    pub depth: usize,
    pub in_string: bool,
    pub escaped: bool,
}

/// A probe as a mathematical value.
pub struct ProbeView {
    pub state: ResponsesJsonProbeState,
    /// The number of open brackets.
    pub depth: nat,
    pub in_string: bool,
    pub escaped: bool,
}

impl View for ResponsesJsonDocumentProbe {
    type V = ProbeView;

    open spec fn view(&self) -> ProbeView {
        ProbeView {
            state: self.state,
            depth: self.depth as nat,
            in_string: self.in_string,
            escaped: self.escaped,
        }
    }
}

/// Whether a byte is ASCII white space.
pub open spec fn is_white_byte(byte: u8) -> bool {
    byte == 0x20 || byte == 0x09 || byte == 0x0A || byte == 0x0C || byte == 0x0D
}

impl ProbeView {
    /// A probe that has seen nothing.
    pub open spec fn fresh() -> ProbeView {
        ProbeView {
            state: ResponsesJsonProbeState::Undetermined,
            depth: 0,
            in_string: false,
            escaped: false,
        }
    }

    /// The probe after one more byte.
    pub open spec fn after(self, byte: u8) -> ProbeView {
        let opens = byte == 0x7B || byte == 0x5B;
        let closes = byte == 0x7D || byte == 0x5D;
        match self.state {
            ResponsesJsonProbeState::Undetermined => if is_white_byte(byte) {
                self
            } else if opens {
                ProbeView { state: ResponsesJsonProbeState::Tracking, depth: 1, ..self }
            } else {
                ProbeView { state: ResponsesJsonProbeState::NotJson, ..self }
            },
            ResponsesJsonProbeState::Tracking => if self.in_string {
                if self.escaped {
                    ProbeView { escaped: false, ..self }
                } else if byte == 0x5C {
                    ProbeView { escaped: true, ..self }
                } else {
                    ProbeView { in_string: byte != 0x22, ..self }
                }
            } else if byte == 0x22 {
                ProbeView { in_string: true, ..self }
            } else if opens {
                ProbeView { depth: self.depth + 1, ..self }
            } else if closes {
                if self.depth <= 1 {
                    ProbeView { state: ResponsesJsonProbeState::Complete, depth: 0, ..self }
                } else {
                    ProbeView { depth: (self.depth - 1) as nat, ..self }
                }
            } else {
                self
            },
            _ => self,
        }
    }

    /// The probe after more bytes.
    pub open spec fn after_all(self, bytes: Seq<u8>) -> ProbeView
        decreases bytes.len(),
    {
        if bytes.len() == 0 {
            self
        } else {
            self.after_all(bytes.drop_last()).after(bytes.last())
        }
    }

    /// Whether the brackets that are open can be counted all through more bytes.
    pub open spec fn can_count(self, bytes: Seq<u8>) -> bool {
        forall|n: int|
            0 <= n <= bytes.len() ==> (#[trigger] self.after_all(bytes.take(n))).depth <= usize::MAX
    }
}

/// At most one bracket is opened by each byte.
pub proof fn brackets_are_bytes(probe: ProbeView, bytes: Seq<u8>)
    ensures
        probe.after_all(bytes).depth <= probe.depth + bytes.len(),
        probe.depth + bytes.len() <= usize::MAX ==> probe.can_count(bytes),
    decreases bytes.len(),
{
    if bytes.len() > 0 {
        brackets_are_bytes(probe, bytes.drop_last());
    }
    if probe.depth + bytes.len() <= usize::MAX {
        assert forall|n: int| 0 <= n <= bytes.len() implies (#[trigger] probe.after_all(
            bytes.take(n),
        )).depth <= usize::MAX by {
            if n < bytes.len() {
                assert(bytes.drop_last().take(n) =~= bytes.take(n));
            } else {
                assert(bytes.take(n) =~= bytes);
            }
        }
    }
}

impl ResponsesJsonDocumentProbe {
    /// A probe that has seen nothing.
    pub fn new() -> (probe: ResponsesJsonDocumentProbe)
        ensures
            probe@ == ProbeView::fresh(),
    {
        ResponsesJsonDocumentProbe {
            state: ResponsesJsonProbeState::Undetermined,
            depth: 0,
            in_string: false,
            escaped: false,
        }
    }

    fn observe_byte(&mut self, byte: u8)
        requires
            old(self)@.after(byte).depth <= usize::MAX,
        ensures
            final(self)@ == old(self)@.after(byte),
    {
        let opens = byte == 0x7B || byte == 0x5B;
        let closes = byte == 0x7D || byte == 0x5D;
        match self.state {
            ResponsesJsonProbeState::Undetermined => {
                let white = byte == 0x20 || byte == 0x09 || byte == 0x0A || byte == 0x0C || byte
                    == 0x0D;
                if !white {
                    if opens {
                        self.state = ResponsesJsonProbeState::Tracking;
                        self.depth = 1;
                    } else {
                        self.state = ResponsesJsonProbeState::NotJson;
                    }
                }
            },
            ResponsesJsonProbeState::Tracking => {
                if self.in_string {
                    if self.escaped {
                        self.escaped = false;
                    } else if byte == 0x5C {
                        self.escaped = true;
                    } else if byte == 0x22 {
                        self.in_string = false;
                    }
                } else if byte == 0x22 {
                    self.in_string = true;
                } else if opens {
                    self.depth = self.depth + 1;
                } else if closes {
                    if self.depth <= 1 {
                        self.depth = 0;
                        self.state = ResponsesJsonProbeState::Complete;
                    } else {
                        self.depth = self.depth - 1;
                    }
                }
            },
            _ => {},
        }
    }

    /// Takes in more bytes.
    pub fn observe(&mut self, appended: &[u8])
        requires
            old(self)@.can_count(appended@),
        ensures
            final(self)@ == old(self)@.after_all(appended@),
    {
        let ghost start = self@;
        let mut i: usize = 0;
        assert(appended@.take(0) =~= Seq::<u8>::empty());
        while i < appended.len()
            invariant
                i <= appended@.len(),
                start == old(self)@,
                start.can_count(appended@),
                self@ == start.after_all(appended@.take(i as int)),
            decreases appended@.len() - i,
        {
            assert(appended@.take(i + 1).drop_last() =~= appended@.take(i as int));
            assert(appended@.take(i + 1).last() == appended@[i as int]);
            assert(start.after_all(appended@.take(i + 1)).depth <= usize::MAX);
            self.observe_byte(appended[i]);
            i = i + 1;
        }
        assert(appended@.take(i as int) =~= appended@);
    }

    /// Whether a document has begun and is not complete.
    pub fn is_tracking(&self) -> (tracking: bool)
        ensures
            tracking == (self@.state == ResponsesJsonProbeState::Tracking),
    {
        self.state == ResponsesJsonProbeState::Tracking
    }

    /// Whether a document is complete that has not been taken yet. It is taken then.
    pub fn take_complete(&mut self) -> (complete: bool)
        ensures
            complete == (old(self)@.state == ResponsesJsonProbeState::Complete),
            final(self)@ == if complete {
                ProbeView { state: ResponsesJsonProbeState::Consumed, ..old(self)@ }
            } else {
                old(self)@
            },
    {
        if self.state != ResponsesJsonProbeState::Complete {
            return false;
        }
        self.state = ResponsesJsonProbeState::Consumed;
        true
    }
}

/// How the bytes are cut into chunks does not matter to a probe.
pub proof fn probing_does_not_depend_on_cuts(probe: ProbeView, first: Seq<u8>, second: Seq<u8>)
    ensures
        probe.after_all(first + second) == probe.after_all(first).after_all(second),
    decreases second.len(),
{
    if second.len() == 0 {
        assert(first + second =~= first);
    } else {
        assert((first + second).drop_last() =~= first + second.drop_last());
        probing_does_not_depend_on_cuts(probe, first, second.drop_last());
    }
}

/// How the bytes are cut into chunks does not matter to whether a probe can count their brackets.
pub proof fn counting_does_not_depend_on_cuts(probe: ProbeView, first: Seq<u8>, second: Seq<u8>)
    ensures
        probe.can_count(first + second) <==> probe.can_count(first) && probe.after_all(
            first,
        ).can_count(second),
{
    let both = first + second;
    let middle = probe.after_all(first);
    assert forall|n: int| 0 <= n <= first.len() implies both.take(n) == #[trigger] first.take(n) by {
        assert(both.take(n) =~= first.take(n));
    }
    assert forall|n: int| 0 <= n <= second.len() implies probe.after_all(both.take(first.len() + n))
        == #[trigger] middle.after_all(second.take(n)) by {
        assert(both.take(first.len() + n) =~= first + second.take(n));
        probing_does_not_depend_on_cuts(probe, first, second.take(n));
    }
    if probe.can_count(both) {
        assert forall|n: int| 0 <= n <= first.len() implies (#[trigger] probe.after_all(
            first.take(n),
        )).depth <= usize::MAX by {
            assert(probe.after_all(both.take(n)).depth <= usize::MAX);
        }
        assert forall|n: int| 0 <= n <= second.len() implies (#[trigger] middle.after_all(
            second.take(n),
        )).depth <= usize::MAX by {
            assert(probe.after_all(both.take(first.len() + n)).depth <= usize::MAX);
        }
    }
    if probe.can_count(first) && middle.can_count(second) {
        assert forall|n: int| 0 <= n <= both.len() implies (#[trigger] probe.after_all(
            both.take(n),
        )).depth <= usize::MAX by {
            if n <= first.len() {
                assert(both.take(n) == first.take(n));
            } else {
                let rest = n - first.len();
                assert(middle.after_all(second.take(rest)).depth <= usize::MAX);
                assert(probe.after_all(both.take(first.len() + rest)) == middle.after_all(
                    second.take(rest),
                ));
            }
        }
    }
}

/// A probe that has decided stays with it: what is no document becomes none, and a complete
/// document stays complete, whatever follows.
pub proof fn probes_do_not_change_their_mind(probe: ProbeView, bytes: Seq<u8>)
    requires
        probe.state != ResponsesJsonProbeState::Undetermined,
        probe.state != ResponsesJsonProbeState::Tracking,
    ensures
        probe.after_all(bytes) == probe,
    decreases bytes.len(),
{
    if bytes.len() > 0 {
        probes_do_not_change_their_mind(probe, bytes.drop_last());
    }
}

/// White space before a document does not count; a document begins with a bracket, and what begins
/// with anything else is none.
pub proof fn documents_begin_with_a_bracket(byte: u8)
    ensures
        byte == 0x20 || byte == 0x09 || byte == 0x0A || byte == 0x0D ==> ProbeView::fresh().after(byte)
            == ProbeView::fresh(),
        byte == 0x7B || byte == 0x5B ==> ProbeView::fresh().after(byte).state
            == ResponsesJsonProbeState::Tracking && ProbeView::fresh().after(byte).depth == 1,
        0x21 <= byte <= 0x7E && byte != 0x7B && byte != 0x5B ==> ProbeView::fresh().after(byte).state
            == ResponsesJsonProbeState::NotJson,
{
}

/// Inside a document, what is opened and closed again leaves it as it was, and so does a string,
/// whatever it holds: brackets in it do not count, and an escaped quote does not end it. The bracket
/// that closes the document completes it.
pub proof fn documents_end_with_their_last_bracket(probe: ProbeView, byte: u8)
    requires
        probe.state == ResponsesJsonProbeState::Tracking,
        probe.depth >= 1,
        !probe.in_string,
        !probe.escaped,
    ensures
        probe.after(0x7B).after(0x7D) == probe,
        probe.after(0x5B).after(0x5D) == probe,
        probe.after(0x22).after(0x22) == probe,
        byte != 0x22 && byte != 0x5C ==> probe.after(0x22).after(byte).after(0x22) == probe,
        probe.after(0x22).after(0x5C).after(byte).after(0x22) == probe,
        byte != 0x22 && byte != 0x7B && byte != 0x5B && byte != 0x7D && byte != 0x5D ==> probe.after(
            byte,
        ) == probe,
        probe.depth == 1 ==> probe.after(0x7D).state == ResponsesJsonProbeState::Complete
            && probe.after(0x5D).state == ResponsesJsonProbeState::Complete,
        probe.depth > 1 ==> probe.after(0x7D).state == ResponsesJsonProbeState::Tracking
            && probe.after(0x7D).depth == probe.depth - 1,
{
}

} // verus!
