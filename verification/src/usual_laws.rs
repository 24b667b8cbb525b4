//! What is usual where nothing else is set, and what the models can hold, in numbers.

use vstd::prelude::*;

use crate::cache::CacheConfig;
use crate::provider::vendor::plain_capabilities;
use crate::provider::{agnes, deepseek, kimi, minimax, openai};
use crate::provider::{MultimodalCapabilities, RetryPolicy};
use crate::session::SessionConfig;
use crate::time::Duration;
use crate::tool::executor::ExecutorConfig;

verus! {

/// The usual settings.
pub proof fn law_usual_settings(s: SessionConfig, c: CacheConfig, r: RetryPolicy)
    ensures
        s.is_usual() ==> {
            &&& s.max_history == 50
            &&& s.max_events == 4096
            &&& s.timeout.thinking_timeout.total() == 30 * 1_000_000_000
            &&& s.timeout.awaiting_calls_timeout.total() == 60 * 1_000_000_000
            &&& s.prompt_budget_tokens == 8000
            &&& s.default_temperature is None
            &&& s.default_max_tokens is None
            &&& s.default_system_prompt is None
            &&& s.idle_timeout is None
            &&& s.max_rounds_per_chat is None
        },
        c.is_usual() ==> !c.enabled && c.capacity == 1000 && c.ttl.total() == 3600 * 1_000_000_000,
        r.is_usual() ==> r.max_retries == 2 && r.base_delay.total() == 500 * 1_000_000
            && r.max_delay.total() == 10 * 1_000_000_000,
        ExecutorConfig::usual().max_per_turn == 10,
        ExecutorConfig::usual().tool_timeout.total() == 30 * 1_000_000_000,
        ExecutorConfig::usual().max_concurrency == 5,
{
}

/// What the models take in and put out, in tokens.
pub proof fn law_model_limits()
    ensures
        deepseek::CONTEXT_WINDOW_TOKENS == 1_048_576,
        deepseek::MAX_OUTPUT_TOKENS == 393_216,
        kimi::CONTEXT_WINDOW_TOKENS == 1_048_576,
        kimi::MAX_OUTPUT_TOKENS == 1_048_576,
        minimax::CONTEXT_WINDOW_TOKENS == 1_048_576,
        minimax::MAX_OUTPUT_TOKENS == 65_536,
        agnes::CONTEXT_WINDOW_TOKENS == 524_288,
        agnes::MAX_OUTPUT_TOKENS == 65_536,
        openai::DEFAULT_CONTEXT_WINDOW_TOKENS == 131_072,
        openai::DEFAULT_MAX_OUTPUT_TOKENS == 8_192,
{
}

/// Every vendor takes several calls at once and system messages, streams, and reports
/// usage; what else it takes is its own.
pub proof fn law_capabilities(m: MultimodalCapabilities)
    ensures
        plain_capabilities(m).parallel_tool_calls,
        plain_capabilities(m).system_role,
        plain_capabilities(m).streaming,
        plain_capabilities(m).usage_reported,
        plain_capabilities(m).multimodal == m,
{
}

/// A second more is so many billionths more, and a thousand thousandths.
pub proof fn law_durations(d: Duration, e: Duration)
    requires
        e.secs == d.secs + 1,
        e.nanos == d.nanos,
    ensures
        e.total() == d.total() + 1_000_000_000,
        e.total_millis() == d.total_millis() + 1000,
        d.secs == 0 ==> d.total() == d.nanos,
        d.secs == 0 && d.nanos == 1_000_000 ==> d.total_millis() == 1,
        d.secs == 0 && d.nanos < 1_000_000 ==> d.total_millis() == 0,
        d.total() <= Duration::longest().total() || d.nanos >= 1_000_000_000,
{
}

} // verus!
