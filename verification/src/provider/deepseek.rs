//! DeepSeek, over the OpenAI wire format.
//!
//! Thinking is switched by `thinking.type`, and `reasoning_effort` sets its effort.

use vstd::prelude::*;
use vstd::string::*;

use crate::json::{Json, JsonView};
use crate::provider::openai_compat::{add_extras, make1, object1, with_extras, OpenAiCompatClient, OpenAiCompatConfig};
use crate::provider::vendor::{capabilities_with, plain_capabilities, add_effort, build_shared_body, shared_body, with_effort};
use crate::provider::{
    ChatRequest, ChatRequestView, LlmError, ModelSpec, MultimodalCapabilities,
    ProviderCapabilities, ProviderId, RetryPolicy,
};
use crate::text::strip_end;
use crate::time::Duration;

verus! {

broadcast use vstd::string::group_string_axioms;

pub const DEEPSEEK_VENDOR: &'static str = "deepseek";

/// Fast and cheap.
pub const DEEPSEEK_V4_FLASH: &'static str = "deepseek/deepseek-v4-flash";

/// Strong.
pub const DEEPSEEK_V4_PRO: &'static str = "deepseek/deepseek-v4-pro";

/// Fast, and takes images.
pub const DEEPSEEK_V4_FLASH_VISION_EXP: &'static str = "deepseek/deepseek-v4-flash-vision-exp";

/// Where requests go unless the configuration says otherwise.
pub const DEFAULT_BASE_URL: &'static str = "https://api.deepseek.com";

/// How many tokens the model can take in.
pub const CONTEXT_WINDOW_TOKENS: usize = 1024 * 1024;

/// How many tokens one answer can have.
pub const MAX_OUTPUT_TOKENS: usize = 384 * 1024;

/// The models of the vendor.
#[derive(Debug, Clone, Copy, PartialEq, Eq, Structural)]
pub enum DeepSeekModel {
    /// Fast and cheap.
    V4Flash,
    /// Strong.
    V4Pro,
    /// Fast, and takes images.
    V4FlashVisionExp,
}

impl DeepSeekModel {
    /// The name of the model on the wire.
    pub open spec fn name(self) -> Seq<char> {
        match self {
            DeepSeekModel::V4Flash => "deepseek-v4-flash"@,
            DeepSeekModel::V4Pro => "deepseek-v4-pro"@,
            DeepSeekModel::V4FlashVisionExp => "deepseek-v4-flash-vision-exp"@,
        }
    }

    /// The identity of the model.
    pub open spec fn id(self) -> Seq<char> {
        match self {
            DeepSeekModel::V4Flash => "deepseek/deepseek-v4-flash"@,
            DeepSeekModel::V4Pro => "deepseek/deepseek-v4-pro"@,
            DeepSeekModel::V4FlashVisionExp => "deepseek/deepseek-v4-flash-vision-exp"@,
        }
    }

    /// The name of the model on the wire.
    pub fn as_str(&self) -> (r: &'static str)
        ensures
            r@ == self.name(),
    {
        match self {
            DeepSeekModel::V4Flash => "deepseek-v4-flash",
            DeepSeekModel::V4Pro => "deepseek-v4-pro",
            DeepSeekModel::V4FlashVisionExp => "deepseek-v4-flash-vision-exp",
        }
    }

    pub fn provider_id(&self) -> (r: ProviderId)
        ensures
            r.deep_view() == self.id(),
    {
        match self {
            DeepSeekModel::V4Flash => ProviderId::new("deepseek/deepseek-v4-flash"),
            DeepSeekModel::V4Pro => ProviderId::new("deepseek/deepseek-v4-pro"),
            DeepSeekModel::V4FlashVisionExp => ProviderId::new("deepseek/deepseek-v4-flash-vision-exp"),
        }
    }

    /// The size of the model.
    pub fn spec(&self) -> (r: ModelSpec)
        ensures
            r == (ModelSpec {
                context_window_tokens: CONTEXT_WINDOW_TOKENS,
                max_output_tokens: MAX_OUTPUT_TOKENS,
            }),
    {
        ModelSpec {
            context_window_tokens: CONTEXT_WINDOW_TOKENS,
            max_output_tokens: MAX_OUTPUT_TOKENS,
        }
    }
}

/// What an adapter is made with.
pub struct DeepSeekConfig {
    pub api_key: String,
    /// Where requests go in place of the vendor's own address.
    pub base_url: Option<String>,
    /// The time of one request, with all its tries.
    pub timeout: Duration,
    pub retry: RetryPolicy,
}

impl DeepSeekConfig {
    pub fn new(api_key: &str) -> (r: DeepSeekConfig)
        ensures
            r.api_key@ == api_key@,
            r.base_url is None,
            r.timeout == (Duration { secs: 120, nanos: 0 }),
            r.retry.is_usual(),
    {
        DeepSeekConfig {
            api_key: api_key.to_owned(),
            base_url: None,
            timeout: Duration::from_secs(120),
            retry: RetryPolicy::default(),
        }
    }

    pub fn with_base_url(self, url: &str) -> (r: DeepSeekConfig)
        ensures
            r.base_url matches Some(u) && u@ == url@,
            r.api_key == self.api_key,
            r.timeout == self.timeout,
            r.retry == self.retry,
    {
        DeepSeekConfig { base_url: Some(url.to_owned()), ..self }
    }

    pub fn with_timeout(self, t: Duration) -> (r: DeepSeekConfig)
        ensures
            r == (DeepSeekConfig { timeout: t, ..self }),
    {
        DeepSeekConfig { timeout: t, ..self }
    }

    pub fn with_retry(self, retry: RetryPolicy) -> (r: DeepSeekConfig)
        ensures
            r == (DeepSeekConfig { retry, ..self }),
    {
        DeepSeekConfig { retry, ..self }
    }
}

/// What a model takes besides text: one of them takes images.
pub open spec fn takes(model: DeepSeekModel) -> MultimodalCapabilities {
    MultimodalCapabilities {
        image: model == DeepSeekModel::V4FlashVisionExp,
        audio: false,
        video: false,
        file_upload: false,
    }
}

/// The body of a request.
pub open spec fn body_of(model: DeepSeekModel, req: ChatRequestView) -> JsonView {
    with_extras(
        with_effort(
            shared_body(req, model.name()).with(
                "thinking"@,
                object1(
                    "type"@,
                    JsonView::Text(
                        if req.thinking.enabled {
                            "enabled"@
                        } else {
                            "disabled"@
                        },
                    ),
                ),
            ),
            req.thinking.effort,
        ),
        req.extra,
    )
}

/// The adapter of a model.
pub struct DeepSeekProvider {
    pub client: OpenAiCompatClient,
    pub model: DeepSeekModel,
    pub capabilities: ProviderCapabilities,
}

impl DeepSeekProvider {
    pub fn new(model: DeepSeekModel, cfg: DeepSeekConfig) -> (r: Result<DeepSeekProvider, LlmError>)
        ensures
            r matches Ok(p) && {
                &&& p.model == model
                &&& p.capabilities == plain_capabilities(takes(model))
                &&& p.client.base_url@ == strip_end(
                    match cfg.base_url {
                        Some(u) => u@,
                        None => "https://api.deepseek.com"@,
                    },
                    '/',
                )
                &&& p.client.api_key@ == cfg.api_key@
                &&& p.client.timeout == cfg.timeout
                &&& p.client.retry == cfg.retry
                &&& p.client.extra_headers@.len() == 0
            },
    {
        let base_url = match cfg.base_url {
            Some(u) => u,
            None => "https://api.deepseek.com".to_owned(),
        };
        let client = match OpenAiCompatClient::new(
            OpenAiCompatConfig {
                base_url,
                api_key: cfg.api_key,
                timeout: cfg.timeout,
                retry: cfg.retry,
                extra_headers: Vec::new(),
            },
        ) {
            Ok(c) => c,
            Err(e) => {
                return Err(e);
            },
        };
        Ok(
            DeepSeekProvider {
                client,
                model,
                capabilities: capabilities_with(
                    match model {
                        DeepSeekModel::V4FlashVisionExp => MultimodalCapabilities {
                            image: true,
                            audio: false,
                            video: false,
                            file_upload: false,
                        },
                        _ => MultimodalCapabilities::none(),
                    },
                ),
            },
        )
    }

    pub fn id(&self) -> (r: ProviderId)
        ensures
            r.deep_view() == self.model.id(),
    {
        self.model.provider_id()
    }

    pub fn capabilities(&self) -> (r: &ProviderCapabilities)
        ensures
            *r == self.capabilities,
    {
        &self.capabilities
    }

    pub fn model_spec(&self) -> (r: ModelSpec)
        ensures
            r == (ModelSpec {
                context_window_tokens: CONTEXT_WINDOW_TOKENS,
                max_output_tokens: MAX_OUTPUT_TOKENS,
            }),
    {
        self.model.spec()
    }

    /// The body of a request: the shared fields, whether and how hard to think,
    /// and what the caller adds.
    pub fn build_body(&self, req: &ChatRequest) -> (r: Json)
        ensures
            r.deep_view() == body_of(self.model, req.deep_view()),
    {
        let switch = if req.thinking.enabled {
            "enabled"
        } else {
            "disabled"
        };
        let body = build_shared_body(req, self.model.as_str()).with(
            "thinking",
            make1("type", Json::text(switch)),
        );
        add_extras(add_effort(body, req.thinking.effort), &req.extra)
    }
}

} // verus!
