//! What the user configures of the proxy.

use vstd::prelude::*;

verus! {

/// How the requests of one app are proxied.
#[derive(Debug, Clone, Copy, PartialEq, Eq, Structural)]
pub struct AppProxyConfig {
    pub enabled: bool,
    pub auto_failover_enabled: bool,
    pub max_retries: u32,
    /// Seconds; zero for no timeout.
    pub streaming_first_byte_timeout: u32,
    /// Seconds; zero for no timeout.
    pub streaming_idle_timeout: u32,
    /// Seconds; zero for no timeout.
    pub non_streaming_timeout: u32,
}

/// Which repairs are tried on a request that an upstream refused.
#[derive(Debug, Clone, Copy, PartialEq, Eq, Structural)]
pub struct RectifierConfig {
    pub enabled: bool,
    pub request_thinking_signature: bool,
    pub request_thinking_budget: bool,
    /// Whether images are replaced by a marker for models that take text only.
    pub request_media_fallback: bool,
    /// Whether such models are also guessed by their names.
    pub request_media_heuristic: bool,
}

impl Default for RectifierConfig {
    /// All repairs are on.
    fn default() -> (config: RectifierConfig)
        ensures
            config.enabled,
            config.request_thinking_signature,
            config.request_thinking_budget,
            config.request_media_fallback,
            config.request_media_heuristic,
    {
        RectifierConfig {
            enabled: true,
            request_thinking_signature: true,
            request_thinking_budget: true,
            request_media_fallback: true,
            request_media_heuristic: true,
        }
    }
}

/// How requests are tuned before they are sent.
#[derive(Debug, Clone, Copy, PartialEq, Eq, Structural)]
pub struct OptimizerConfig {
    pub enabled: bool,
    pub thinking_optimizer: bool,
    pub cache_injection: bool,
}

impl Default for OptimizerConfig {
    /// Off as a whole, with each part on.
    fn default() -> (config: OptimizerConfig)
        ensures
            !config.enabled,
            config.thinking_optimizer,
            config.cache_injection,
    {
        OptimizerConfig { enabled: false, thinking_optimizer: true, cache_injection: true }
    }
}

/// The tuning of requests that are converted from Codex to Anthropic: caching is part of the
/// conversion and on whatever the master switch says, unless it is switched off itself.
pub fn codex_anthropic_cache_config(config: &OptimizerConfig) -> (cache: OptimizerConfig)
    ensures
        cache == (OptimizerConfig {
            enabled: true,
            thinking_optimizer: false,
            cache_injection: config.cache_injection,
        }),
{
    OptimizerConfig {
        enabled: true,
        thinking_optimizer: false,
        cache_injection: config.cache_injection,
    }
}

/// How requests to Copilot are tuned.
#[derive(Debug, Clone, Copy, PartialEq, Eq, Structural)]
pub struct CopilotOptimizerConfig {
    pub enabled: bool,
    pub request_classification: bool,
    pub tool_result_merging: bool,
    pub strip_thinking: bool,
    pub warmup_downgrade: bool,
    pub deterministic_request_id: bool,
}

/// A converted request is marked for caching where that is on, and nothing else is done to it.
pub proof fn converted_requests_are_cached_where_that_is_on(
    config: &OptimizerConfig,
    cache: OptimizerConfig,
)
    requires
        call_ensures(codex_anthropic_cache_config, (config,), cache),
    ensures
        cache.enabled,
        !cache.thinking_optimizer,
        cache.cache_injection == config.cache_injection,
{
}

} // verus!
