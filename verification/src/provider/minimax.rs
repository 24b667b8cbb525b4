//! MiniMax, over the Anthropic wire format.
//!
//! Thinking is switched by `thinking.type`, and the length of an answer is always
//! limited.

use vstd::prelude::*;
use vstd::string::*;

use crate::json::{Json, JsonView};
use crate::provider::openai_compat::{add_extras, make1, object1, with_extras};
use crate::provider::anthropic_compat::{
    build_common_body, common_body, AnthropicClient, AnthropicConfig,
};
use crate::provider::vendor::{capabilities_with, plain_capabilities};
use crate::provider::{
    ChatRequest, ChatRequestView, LlmError, ModelSpec, MultimodalCapabilities,
    ProviderCapabilities, ProviderId, RetryPolicy,
};
use crate::text::strip_end;
use crate::time::Duration;

verus! {

broadcast use vstd::string::group_string_axioms;

pub const MINIMAX_VENDOR: &'static str = "minimax";

/// Text, images and videos, with thinking and tools.
pub const MINIMAX_M3: &'static str = "minimax/minimax-m3";

/// Where requests go unless the configuration says otherwise.
pub const DEFAULT_BASE_URL: &'static str = "https://api.minimaxi.com/anthropic";

/// How many tokens the model can take in.
pub const CONTEXT_WINDOW_TOKENS: usize = 1_048_576;

/// How many tokens one answer can have.
pub const MAX_OUTPUT_TOKENS: usize = 64 * 1024;

/// The models of the vendor.
#[derive(Debug, Clone, Copy, PartialEq, Eq, Structural)]
pub enum MiniMaxModel {
    /// Text, images and videos, with thinking and tools.
    M3,
}

impl MiniMaxModel {
    /// The name of the model on the wire.
    pub open spec fn name(self) -> Seq<char> {
        match self {
            MiniMaxModel::M3 => "MiniMax-M3"@,
        }
    }

    /// The identity of the model.
    pub open spec fn id(self) -> Seq<char> {
        match self {
            MiniMaxModel::M3 => "minimax/minimax-m3"@,
        }
    }

    /// The name of the model on the wire.
    pub fn as_str(&self) -> (r: &'static str)
        ensures
            r@ == self.name(),
    {
        match self {
            MiniMaxModel::M3 => "MiniMax-M3",
        }
    }

    pub fn provider_id(&self) -> (r: ProviderId)
        ensures
            r.deep_view() == self.id(),
    {
        match self {
            MiniMaxModel::M3 => ProviderId::new("minimax/minimax-m3"),
        }
    }

    /// The size of the model.
    pub fn spec(&self) -> (r: ModelSpec)
        ensures
            r == (ModelSpec {
                context_window_tokens: CONTEXT_WINDOW_TOKENS,
                max_output_tokens: MAX_OUTPUT_TOKENS,
            }),
    {
        ModelSpec {
            context_window_tokens: CONTEXT_WINDOW_TOKENS,
            max_output_tokens: MAX_OUTPUT_TOKENS,
        }
    }
}

/// What an adapter is made with.
pub struct MiniMaxConfig {
    pub api_key: String,
    /// Where requests go in place of the vendor's own address.
    pub base_url: Option<String>,
    /// The time of one request, with all its tries.
    pub timeout: Duration,
    pub retry: RetryPolicy,
}

impl MiniMaxConfig {
    pub fn new(api_key: &str) -> (r: MiniMaxConfig)
        ensures
            r.api_key@ == api_key@,
            r.base_url is None,
            r.timeout == (Duration { secs: 120, nanos: 0 }),
            r.retry.is_usual(),
    {
        MiniMaxConfig {
            api_key: api_key.to_owned(),
            base_url: None,
            timeout: Duration::from_secs(120),
            retry: RetryPolicy::default(),
        }
    }

    pub fn with_base_url(self, url: &str) -> (r: MiniMaxConfig)
        ensures
            r.base_url matches Some(u) && u@ == url@,
            r.api_key == self.api_key,
            r.timeout == self.timeout,
            r.retry == self.retry,
    {
        MiniMaxConfig { base_url: Some(url.to_owned()), ..self }
    }

    pub fn with_timeout(self, t: Duration) -> (r: MiniMaxConfig)
        ensures
            r == (MiniMaxConfig { timeout: t, ..self }),
    {
        MiniMaxConfig { timeout: t, ..self }
    }

    pub fn with_retry(self, retry: RetryPolicy) -> (r: MiniMaxConfig)
        ensures
            r == (MiniMaxConfig { retry, ..self }),
    {
        MiniMaxConfig { retry, ..self }
    }
}

/// The body of a request.
pub open spec fn body_of(model: MiniMaxModel, req: ChatRequestView) -> JsonView {
    with_extras(
        common_body(
            req.messages,
            req.tools,
            req.tool_choice,
            req.temperature,
            match req.max_tokens {
                Some(m) => m,
                None => MAX_OUTPUT_TOKENS,
            },
            model.name(),
        ).with(
            "thinking"@,
            object1(
                "type"@,
                JsonView::Text(
                    if req.thinking.enabled {
                        "adaptive"@
                    } else {
                        "disabled"@
                    },
                ),
            ),
        ),
        req.extra,
    )
}

/// The adapter of a model.
pub struct MiniMaxProvider {
    pub client: AnthropicClient,
    pub model: MiniMaxModel,
    pub capabilities: ProviderCapabilities,
}

impl MiniMaxProvider {
    pub fn new(model: MiniMaxModel, cfg: MiniMaxConfig) -> (r: Result<MiniMaxProvider, LlmError>)
        ensures
            r matches Ok(p) && {
                &&& p.model == model
                &&& p.capabilities == plain_capabilities(
                    MultimodalCapabilities {
                        image: true,
                        audio: false,
                        video: true,
                        file_upload: false,
                    },
                )
                &&& p.client.base_url@ == strip_end(
                    match cfg.base_url {
                        Some(u) => u@,
                        None => "https://api.minimaxi.com/anthropic"@,
                    },
                    '/',
                )
                &&& p.client.api_key@ == cfg.api_key@
                &&& p.client.timeout == cfg.timeout
                &&& p.client.retry == cfg.retry
                &&& p.client.extra_headers@.len() == 0
            },
    {
        let base_url = match cfg.base_url {
            Some(u) => u,
            None => "https://api.minimaxi.com/anthropic".to_owned(),
        };
        let client = match AnthropicClient::new(
            AnthropicConfig {
                base_url,
                api_key: cfg.api_key,
                timeout: cfg.timeout,
                retry: cfg.retry,
                extra_headers: Vec::new(),
            },
        ) {
            Ok(c) => c,
            Err(e) => {
                return Err(e);
            },
        };
        Ok(
            MiniMaxProvider {
                client,
                model,
                capabilities: capabilities_with(
                    MultimodalCapabilities {
                        image: true,
                        audio: false,
                        video: true,
                        file_upload: false,
                    },
                ),
            },
        )
    }

    pub fn id(&self) -> (r: ProviderId)
        ensures
            r.deep_view() == self.model.id(),
    {
        self.model.provider_id()
    }

    pub fn capabilities(&self) -> (r: &ProviderCapabilities)
        ensures
            *r == self.capabilities,
    {
        &self.capabilities
    }

    pub fn model_spec(&self) -> (r: ModelSpec)
        ensures
            r == (ModelSpec {
                context_window_tokens: CONTEXT_WINDOW_TOKENS,
                max_output_tokens: MAX_OUTPUT_TOKENS,
            }),
    {
        self.model.spec()
    }

    /// The body of a request: the shared fields with a limit, which is the
    /// model's own where none is asked for, whether to think, and what the caller
    /// adds.
    pub fn build_body(&self, req: &ChatRequest) -> (r: Json)
        ensures
            r.deep_view() == body_of(self.model, req.deep_view()),
    {
        let max_tokens: usize = match req.max_tokens {
            Some(m) => m,
            None => MAX_OUTPUT_TOKENS,
        };
        let body = build_common_body(
            &req.messages,
            &req.tools,
            req.tool_choice,
            &req.temperature,
            max_tokens,
            self.model.as_str(),
        );
        let switch = if req.thinking.enabled {
            "adaptive"
        } else {
            "disabled"
        };
        add_extras(body.with("thinking", make1("type", Json::text(switch))), &req.extra)
    }
}

} // verus!
