//! Moonshot Kimi, over the OpenAI wire format.
//!
//! The model always thinks; `reasoning_effort` sets the effort.

use vstd::prelude::*;
use vstd::string::*;

use crate::json::{Json, JsonView};
use crate::provider::openai_compat::{add_extras, with_extras, OpenAiCompatClient, OpenAiCompatConfig};
use crate::provider::vendor::{capabilities_with, plain_capabilities, add_effort, build_shared_body, shared_body, with_effort};
use crate::provider::{
    ChatRequest, ChatRequestView, LlmError, ModelSpec, MultimodalCapabilities,
    ProviderCapabilities, ProviderId, RetryPolicy,
};
use crate::text::strip_end;
use crate::time::Duration;

verus! {

broadcast use vstd::string::group_string_axioms;

pub const MOONSHOT_VENDOR: &'static str = "moonshot";

/// Text and images, always thinking, with tools.
pub const MOONSHOT_KIMI_K3: &'static str = "moonshot/kimi-k3";

/// Where requests go unless the configuration says otherwise.
pub const DEFAULT_BASE_URL: &'static str = "https://api.moonshot.cn/v1";

/// How many tokens the model can take in.
pub const CONTEXT_WINDOW_TOKENS: usize = 1_048_576;

/// How many tokens one answer can have.
pub const MAX_OUTPUT_TOKENS: usize = 1_048_576;

/// The models of the vendor.
#[derive(Debug, Clone, Copy, PartialEq, Eq, Structural)]
pub enum KimiModel {
    /// Text and images, always thinking, with tools.
    K3,
}

impl KimiModel {
    /// The name of the model on the wire.
    pub open spec fn name(self) -> Seq<char> {
        match self {
            KimiModel::K3 => "kimi-k3"@,
        }
    }

    /// The identity of the model.
    pub open spec fn id(self) -> Seq<char> {
        match self {
            KimiModel::K3 => "moonshot/kimi-k3"@,
        }
    }

    /// The name of the model on the wire.
    pub fn as_str(&self) -> (r: &'static str)
        ensures
            r@ == self.name(),
    {
        match self {
            KimiModel::K3 => "kimi-k3",
        }
    }

    pub fn provider_id(&self) -> (r: ProviderId)
        ensures
            r.deep_view() == self.id(),
    {
        match self {
            KimiModel::K3 => ProviderId::new("moonshot/kimi-k3"),
        }
    }

    /// The size of the model.
    pub fn spec(&self) -> (r: ModelSpec)
        ensures
            r == (ModelSpec {
                context_window_tokens: CONTEXT_WINDOW_TOKENS,
                max_output_tokens: MAX_OUTPUT_TOKENS,
            }),
    {
        ModelSpec {
            context_window_tokens: CONTEXT_WINDOW_TOKENS,
            max_output_tokens: MAX_OUTPUT_TOKENS,
        }
    }
}

/// What an adapter is made with.
pub struct KimiConfig {
    pub api_key: String,
    /// Where requests go in place of the vendor's own address.
    pub base_url: Option<String>,
    /// The time of one request, with all its tries.
    pub timeout: Duration,
    pub retry: RetryPolicy,
}

impl KimiConfig {
    pub fn new(api_key: &str) -> (r: KimiConfig)
        ensures
            r.api_key@ == api_key@,
            r.base_url is None,
            r.timeout == (Duration { secs: 120, nanos: 0 }),
            r.retry.is_usual(),
    {
        KimiConfig {
            api_key: api_key.to_owned(),
            base_url: None,
            timeout: Duration::from_secs(120),
            retry: RetryPolicy::default(),
        }
    }

    pub fn with_base_url(self, url: &str) -> (r: KimiConfig)
        ensures
            r.base_url matches Some(u) && u@ == url@,
            r.api_key == self.api_key,
            r.timeout == self.timeout,
            r.retry == self.retry,
    {
        KimiConfig { base_url: Some(url.to_owned()), ..self }
    }

    pub fn with_timeout(self, t: Duration) -> (r: KimiConfig)
        ensures
            r == (KimiConfig { timeout: t, ..self }),
    {
        KimiConfig { timeout: t, ..self }
    }

    pub fn with_retry(self, retry: RetryPolicy) -> (r: KimiConfig)
        ensures
            r == (KimiConfig { retry, ..self }),
    {
        KimiConfig { retry, ..self }
    }
}

/// The body of a request.
pub open spec fn body_of(model: KimiModel, req: ChatRequestView) -> JsonView {
    with_extras(with_effort(shared_body(req, model.name()), req.thinking.effort), req.extra)
}

/// The adapter of a model.
pub struct KimiProvider {
    pub client: OpenAiCompatClient,
    pub model: KimiModel,
    pub capabilities: ProviderCapabilities,
}

impl KimiProvider {
    pub fn new(model: KimiModel, cfg: KimiConfig) -> (r: Result<KimiProvider, LlmError>)
        ensures
            r matches Ok(p) && {
                &&& p.model == model
                &&& p.capabilities == plain_capabilities(
                    MultimodalCapabilities {
                        image: true,
                        audio: false,
                        video: false,
                        file_upload: false,
                    },
                )
                &&& p.client.base_url@ == strip_end(
                    match cfg.base_url {
                        Some(u) => u@,
                        None => "https://api.moonshot.cn/v1"@,
                    },
                    '/',
                )
                &&& p.client.api_key@ == cfg.api_key@
                &&& p.client.timeout == cfg.timeout
                &&& p.client.retry == cfg.retry
                &&& p.client.extra_headers@.len() == 0
            },
    {
        let base_url = match cfg.base_url {
            Some(u) => u,
            None => "https://api.moonshot.cn/v1".to_owned(),
        };
        let client = match OpenAiCompatClient::new(
            OpenAiCompatConfig {
                base_url,
                api_key: cfg.api_key,
                timeout: cfg.timeout,
                retry: cfg.retry,
                extra_headers: Vec::new(),
            },
        ) {
            Ok(c) => c,
            Err(e) => {
                return Err(e);
            },
        };
        Ok(
            KimiProvider {
                client,
                model,
                capabilities: capabilities_with(
                    MultimodalCapabilities {
                        image: true,
                        audio: false,
                        video: false,
                        file_upload: false,
                    },
                ),
            },
        )
    }

    pub fn id(&self) -> (r: ProviderId)
        ensures
            r.deep_view() == self.model.id(),
    {
        self.model.provider_id()
    }

    pub fn capabilities(&self) -> (r: &ProviderCapabilities)
        ensures
            *r == self.capabilities,
    {
        &self.capabilities
    }

    pub fn model_spec(&self) -> (r: ModelSpec)
        ensures
            r == (ModelSpec {
                context_window_tokens: CONTEXT_WINDOW_TOKENS,
                max_output_tokens: MAX_OUTPUT_TOKENS,
            }),
    {
        self.model.spec()
    }

    /// The body of a request: the shared fields, how hard to think, and what the
    /// caller adds.
    pub fn build_body(&self, req: &ChatRequest) -> (r: Json)
        ensures
            r.deep_view() == body_of(self.model, req.deep_view()),
    {
        let body = build_shared_body(req, self.model.as_str());
        add_extras(add_effort(body, req.thinking.effort), &req.extra)
    }
}

} // verus!
