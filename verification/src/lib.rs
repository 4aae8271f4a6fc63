//! Routing, retry and body handling of a local model proxy.

use vstd::prelude::*;

pub mod codec;
pub mod codex_auto_review;
pub mod config;
pub mod content_encoding;
pub mod diagnostic;
pub mod error;
pub mod failover_switch;
pub mod forwarder;
pub mod handler_context;
pub mod headers;
pub mod json;
pub mod key_pool;
pub mod provider;
pub mod provider_retry;
pub mod provider_router;
pub mod text;
pub mod text_map;

verus! {

} // verus!
