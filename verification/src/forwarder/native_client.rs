//! The client that the Anthropic protocol was made for, as it shows itself on the wire. Its own
//! texts change with its releases, so they are data.

use vstd::prelude::*;

verus! {

/// How the native client of the Anthropic protocol shows itself.
#[derive(Debug, PartialEq, Eq)]
pub struct NativeClient {
    /// What may stand before the path of its messages endpoint.
    pub route_prefix: String,
    /// The line that its system prompts begin with.
    pub identity: String,
    /// What it names in `anthropic-beta`.
    pub beta: String,
    pub user_agent: String,
}

/// How the native client shows itself, as a mathematical value.
pub struct NativeClientView {
    pub route_prefix: Seq<char>,
    pub identity: Seq<char>,
    pub beta: Seq<char>,
    pub user_agent: Seq<char>,
}

impl View for NativeClient {
    type V = NativeClientView;

    open spec fn view(&self) -> NativeClientView {
        NativeClientView {
            route_prefix: self.route_prefix@,
            identity: self.identity@,
            beta: self.beta@,
            user_agent: self.user_agent@,
        }
    }
}

/// The adapter that a request is served by.
#[derive(Clone, Copy, Debug, PartialEq, Eq, Structural)]
pub enum AdapterKind {
    Claude,
    Codex,
    Gemini,
}

} // verus!
