//! Agnes AI, over the OpenAI wire format.
//!
//! Thinking is switched by `chat_template_kwargs.enable_thinking`, and the length
//! of an answer is limited by `max_tokens`.

use vstd::prelude::*;
use vstd::string::*;

use crate::json::{
    law_find_put, law_find_without, without, Json, JsonView, NumberView,
};
use crate::provider::openai_compat::{add_extras, make1, object1, with_extras, OpenAiCompatClient, OpenAiCompatConfig};
use crate::provider::vendor::{capabilities_with, plain_capabilities, build_shared_body, shared_body};
use crate::provider::{
    ChatRequest, ChatRequestView, LlmError, ModelSpec, MultimodalCapabilities,
    ProviderCapabilities, ProviderId, RetryPolicy,
};
use crate::text::strip_end;
use crate::time::Duration;

verus! {

broadcast use vstd::string::group_string_axioms;

pub const AGNES_VENDOR: &'static str = "agnes";

/// Text and images by address, with thinking.
pub const AGNES_2_5_FLASH: &'static str = "agnes/agnes-2.5-flash";

/// Where requests go unless the configuration says otherwise.
pub const DEFAULT_BASE_URL: &'static str = "https://apihub.agnes-ai.com/v1";

/// How many tokens the model can take in.
pub const CONTEXT_WINDOW_TOKENS: usize = 512 * 1024;

/// How many tokens one answer can have.
pub const MAX_OUTPUT_TOKENS: usize = 64 * 1024;

/// The models of the vendor.
#[derive(Debug, Clone, Copy, PartialEq, Eq, Structural)]
pub enum AgnesModel {
    /// Text and images by address, with thinking.
    V25Flash,
}

impl AgnesModel {
    /// The name of the model on the wire.
    pub open spec fn name(self) -> Seq<char> {
        match self {
            AgnesModel::V25Flash => "agnes-2.5-flash"@,
        }
    }

    /// The identity of the model.
    pub open spec fn id(self) -> Seq<char> {
        match self {
            AgnesModel::V25Flash => "agnes/agnes-2.5-flash"@,
        }
    }

    /// The name of the model on the wire.
    pub fn as_str(&self) -> (r: &'static str)
        ensures
            r@ == self.name(),
    {
        match self {
            AgnesModel::V25Flash => "agnes-2.5-flash",
        }
    }

    pub fn provider_id(&self) -> (r: ProviderId)
        ensures
            r.deep_view() == self.id(),
    {
        match self {
            AgnesModel::V25Flash => ProviderId::new("agnes/agnes-2.5-flash"),
        }
    }

    /// The size of the model.
    pub fn spec(&self) -> (r: ModelSpec)
        ensures
            r == (ModelSpec {
                context_window_tokens: CONTEXT_WINDOW_TOKENS,
                max_output_tokens: MAX_OUTPUT_TOKENS,
            }),
    {
        ModelSpec {
            context_window_tokens: CONTEXT_WINDOW_TOKENS,
            max_output_tokens: MAX_OUTPUT_TOKENS,
        }
    }
}

/// What an adapter is made with.
pub struct AgnesConfig {
    pub api_key: String,
    /// Where requests go in place of the vendor's own address.
    pub base_url: Option<String>,
    /// The time of one request, with all its tries.
    pub timeout: Duration,
    pub retry: RetryPolicy,
}

impl AgnesConfig {
    pub fn new(api_key: &str) -> (r: AgnesConfig)
        ensures
            r.api_key@ == api_key@,
            r.base_url is None,
            r.timeout == (Duration { secs: 120, nanos: 0 }),
            r.retry.is_usual(),
    {
        AgnesConfig {
            api_key: api_key.to_owned(),
            base_url: None,
            timeout: Duration::from_secs(120),
            retry: RetryPolicy::default(),
        }
    }

    pub fn with_base_url(self, url: &str) -> (r: AgnesConfig)
        ensures
            r.base_url matches Some(u) && u@ == url@,
            r.api_key == self.api_key,
            r.timeout == self.timeout,
            r.retry == self.retry,
    {
        AgnesConfig { base_url: Some(url.to_owned()), ..self }
    }

    pub fn with_timeout(self, t: Duration) -> (r: AgnesConfig)
        ensures
            r == (AgnesConfig { timeout: t, ..self }),
    {
        AgnesConfig { timeout: t, ..self }
    }

    pub fn with_retry(self, retry: RetryPolicy) -> (r: AgnesConfig)
        ensures
            r == (AgnesConfig { retry, ..self }),
    {
        AgnesConfig { retry, ..self }
    }
}

/// A body in which the limit of the answer stands under the vendor's own name.
pub open spec fn renamed_limit(body: JsonView, max_tokens: Option<usize>) -> JsonView {
    match max_tokens {
        Some(m) => body.without("max_completion_tokens"@).with(
            "max_tokens"@,
            JsonView::Number(NumberView::Unsigned(m as u64)),
        ),
        None => body,
    }
}

/// The limit stands under the vendor's own name alone.
pub proof fn law_limit_is_renamed(body: JsonView, m: usize)
    requires
        body is Object,
    ensures
        renamed_limit(body, Some(m)).get("max_tokens"@) == Some(
            JsonView::Number(NumberView::Unsigned(m as u64)),
        ),
        renamed_limit(body, Some(m)).get("max_completion_tokens"@) is None,
{
    if let JsonView::Object(fields) = body {
        let rest = without(fields, "max_completion_tokens"@);
        let limit = JsonView::Number(NumberView::Unsigned(m as u64));
        reveal_strlit("max_tokens");
        reveal_strlit("max_completion_tokens");
        assert("max_tokens"@.len() != "max_completion_tokens"@.len());
        law_find_without(fields, "max_completion_tokens"@, "max_completion_tokens"@);
        law_find_put(rest, "max_tokens"@, limit, "max_tokens"@);
        law_find_put(rest, "max_tokens"@, limit, "max_completion_tokens"@);
    }
}

/// The body of a request.
pub open spec fn body_of(model: AgnesModel, req: ChatRequestView) -> JsonView {
    with_extras(
        renamed_limit(shared_body(req, model.name()), req.max_tokens).with(
            "chat_template_kwargs"@,
            object1("enable_thinking"@, JsonView::Bool(req.thinking.enabled)),
        ),
        req.extra,
    )
}

/// The adapter of a model.
pub struct AgnesProvider {
    pub client: OpenAiCompatClient,
    pub model: AgnesModel,
    pub capabilities: ProviderCapabilities,
}

impl AgnesProvider {
    pub fn new(model: AgnesModel, cfg: AgnesConfig) -> (r: Result<AgnesProvider, LlmError>)
        ensures
            r matches Ok(p) && {
                &&& p.model == model
                &&& p.capabilities == plain_capabilities(
                    MultimodalCapabilities {
                        image: true,
                        audio: false,
                        video: false,
                        file_upload: false,
                    },
                )
                &&& p.client.base_url@ == strip_end(
                    match cfg.base_url {
                        Some(u) => u@,
                        None => "https://apihub.agnes-ai.com/v1"@,
                    },
                    '/',
                )
                &&& p.client.api_key@ == cfg.api_key@
                &&& p.client.timeout == cfg.timeout
                &&& p.client.retry == cfg.retry
                &&& p.client.extra_headers@.len() == 0
            },
    {
        let base_url = match cfg.base_url {
            Some(u) => u,
            None => "https://apihub.agnes-ai.com/v1".to_owned(),
        };
        let client = match OpenAiCompatClient::new(
            OpenAiCompatConfig {
                base_url,
                api_key: cfg.api_key,
                timeout: cfg.timeout,
                retry: cfg.retry,
                extra_headers: Vec::new(),
            },
        ) {
            Ok(c) => c,
            Err(e) => {
                return Err(e);
            },
        };
        Ok(
            AgnesProvider {
                client,
                model,
                capabilities: capabilities_with(
                    MultimodalCapabilities {
                        image: true,
                        audio: false,
                        video: false,
                        file_upload: false,
                    },
                ),
            },
        )
    }

    pub fn id(&self) -> (r: ProviderId)
        ensures
            r.deep_view() == self.model.id(),
    {
        self.model.provider_id()
    }

    pub fn capabilities(&self) -> (r: &ProviderCapabilities)
        ensures
            *r == self.capabilities,
    {
        &self.capabilities
    }

    pub fn model_spec(&self) -> (r: ModelSpec)
        ensures
            r == (ModelSpec {
                context_window_tokens: CONTEXT_WINDOW_TOKENS,
                max_output_tokens: MAX_OUTPUT_TOKENS,
            }),
    {
        self.model.spec()
    }

    /// The body of a request: the shared fields with the limit under the
    /// vendor's own name, whether to think, and what the caller adds.
    pub fn build_body(&self, req: &ChatRequest) -> (r: Json)
        ensures
            r.deep_view() == body_of(self.model, req.deep_view()),
    {
        let mut body = build_shared_body(req, self.model.as_str());
        if let Some(m) = req.max_tokens {
            body = body.without("max_completion_tokens").with(
                "max_tokens",
                Json::unsigned(m as u64),
            );
        }
        body = body.with(
            "chat_template_kwargs",
            make1("enable_thinking", Json::Bool(req.thinking.enabled)),
        );
        add_extras(body, &req.extra)
    }
}

} // verus!
