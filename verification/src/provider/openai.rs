//! Any service over the OpenAI wire format. Only the shared fields are sent.

use vstd::prelude::*;
use vstd::string::*;

use crate::json::{Json, JsonView};
use crate::provider::openai_compat::{
    add_extras, with_extras, OpenAiCompatClient, OpenAiCompatConfig,
};
use crate::provider::vendor::{
    build_shared_body, capabilities_with, plain_capabilities, shared_body,
};
use crate::provider::{
    joined, ChatRequest, ChatRequestView, LlmError, ModelSpec, MultimodalCapabilities,
    ProviderCapabilities, ProviderId, RetryPolicy,
};
use crate::text::strip_end;
use crate::time::Duration;

verus! {

broadcast use vstd::string::group_string_axioms;

pub const VENDOR: &'static str = "openai";

/// How many tokens a model is trusted to take in.
pub const DEFAULT_CONTEXT_WINDOW_TOKENS: usize = 128 * 1024;

/// How many tokens an answer is trusted to have.
pub const DEFAULT_MAX_OUTPUT_TOKENS: usize = 8 * 1024;

/// What an adapter is made with.
pub struct OpenAiConfig {
    pub base_url: String,
    pub api_key: String,
    /// The name of the model, as the service knows it.
    pub model: String,
    /// The time of one request, with all its tries.
    pub timeout: Duration,
    pub retry: RetryPolicy,
    pub capabilities: ProviderCapabilities,
    pub model_spec: ModelSpec,
}

impl OpenAiConfig {
    /// With the sizes and capabilities that any service can be trusted with.
    pub fn new(base_url: &str, api_key: &str, model: &str) -> (r: OpenAiConfig)
        ensures
            r.base_url@ == base_url@,
            r.api_key@ == api_key@,
            r.model@ == model@,
            r.timeout == (Duration { secs: 120, nanos: 0 }),
            r.retry.is_usual(),
            r.capabilities == plain_capabilities(
                MultimodalCapabilities {
                    image: false,
                    audio: false,
                    video: false,
                    file_upload: false,
                },
            ),
            r.model_spec == (ModelSpec {
                context_window_tokens: 131_072,
                max_output_tokens: 8_192,
            }),
    {
        OpenAiConfig {
            base_url: base_url.to_owned(),
            api_key: api_key.to_owned(),
            model: model.to_owned(),
            timeout: Duration::from_secs(120),
            retry: RetryPolicy::default(),
            capabilities: capabilities_with(MultimodalCapabilities::none()),
            model_spec: ModelSpec { context_window_tokens: 131_072, max_output_tokens: 8_192 },
        }
    }

    pub fn with_timeout(self, t: Duration) -> (r: OpenAiConfig)
        ensures
            r == (OpenAiConfig { timeout: t, ..self }),
    {
        OpenAiConfig { timeout: t, ..self }
    }

    pub fn with_retry(self, retry: RetryPolicy) -> (r: OpenAiConfig)
        ensures
            r == (OpenAiConfig { retry, ..self }),
    {
        OpenAiConfig { retry, ..self }
    }

    pub fn with_capabilities(self, c: ProviderCapabilities) -> (r: OpenAiConfig)
        ensures
            r == (OpenAiConfig { capabilities: c, ..self }),
    {
        OpenAiConfig { capabilities: c, ..self }
    }

    pub fn with_model_spec(self, s: ModelSpec) -> (r: OpenAiConfig)
        ensures
            r == (OpenAiConfig { model_spec: s, ..self }),
    {
        OpenAiConfig { model_spec: s, ..self }
    }
}

/// The body of a request: the shared fields alone, and what the caller adds.
pub open spec fn body_of(model: Seq<char>, req: ChatRequestView) -> JsonView {
    with_extras(shared_body(req, model), req.extra)
}

/// The adapter of a model.
pub struct OpenAiProvider {
    pub client: OpenAiCompatClient,
    pub model: String,
    pub capabilities: ProviderCapabilities,
    pub model_spec: ModelSpec,
}

impl OpenAiProvider {
    pub fn new(cfg: OpenAiConfig) -> (r: Result<OpenAiProvider, LlmError>)
        ensures
            r matches Ok(p) && {
                &&& p.model == cfg.model
                &&& p.capabilities == cfg.capabilities
                &&& p.model_spec == cfg.model_spec
                &&& p.client.base_url@ == strip_end(cfg.base_url@, '/')
                &&& p.client.api_key@ == cfg.api_key@
                &&& p.client.timeout == cfg.timeout
                &&& p.client.retry == cfg.retry
                &&& p.client.extra_headers.deep_view() == Seq::<(Seq<char>, Seq<char>)>::empty()
            },
    {
        let headers: Vec<(String, String)> = Vec::new();
        proof {
            assert(headers.deep_view() =~= Seq::<(Seq<char>, Seq<char>)>::empty());
        }
        let client = match OpenAiCompatClient::new(
            OpenAiCompatConfig {
                base_url: cfg.base_url,
                api_key: cfg.api_key,
                timeout: cfg.timeout,
                retry: cfg.retry,
                extra_headers: headers,
            },
        ) {
            Ok(c) => c,
            Err(e) => {
                return Err(e);
            },
        };
        proof {
            assert(client.extra_headers.deep_view() =~= headers.deep_view());
        }
        Ok(
            OpenAiProvider {
                client,
                model: cfg.model,
                capabilities: cfg.capabilities,
                model_spec: cfg.model_spec,
            },
        )
    }

    /// The vendor and the model, with a slash between.
    pub fn id(&self) -> (r: ProviderId)
        ensures
            r.deep_view() == "openai/"@ + self.model@,
    {
        ProviderId::owned(joined("openai/", self.model.as_str()))
    }

    pub fn capabilities(&self) -> (r: &ProviderCapabilities)
        ensures
            *r == self.capabilities,
    {
        &self.capabilities
    }

    pub fn model_spec(&self) -> (r: ModelSpec)
        ensures
            r == self.model_spec,
    {
        self.model_spec
    }

    /// The body of a request: the shared fields alone, and what the caller adds.
    pub fn build_body(&self, req: &ChatRequest) -> (r: Json)
        ensures
            r.deep_view() == body_of(self.model@, req.deep_view()),
    {
        add_extras(build_shared_body(req, self.model.as_str()), &req.extra)
    }
}

} // verus!
