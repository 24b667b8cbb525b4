//! OpenRouter, a gateway to many models over the OpenAI wire format. Only the
//! shared fields are sent; a site may name itself in two headers.

use vstd::prelude::*;
use vstd::string::*;

use crate::json::{Json, JsonView};
use crate::provider::openai_compat::{
    add_extras, with_extras, OpenAiCompatClient, OpenAiCompatConfig,
};
use crate::provider::vendor::{
    build_shared_body, capabilities_with, plain_capabilities, shared_body,
};
use crate::provider::{
    joined, ChatRequest, ChatRequestView, LlmError, ModelSpec, MultimodalCapabilities,
    ProviderCapabilities, ProviderId, RetryPolicy,
};
use crate::text::{strip_end, trim, trim_text};
use crate::time::Duration;

verus! {

broadcast use vstd::string::group_string_axioms;

pub const VENDOR: &'static str = "openrouter";

/// Where requests go unless the configuration says otherwise.
pub const DEFAULT_BASE_URL: &'static str = "https://openrouter.ai/api/v1";

/// A header, where its value says something.
pub open spec fn named_header(name: Seq<char>, value: Option<Seq<char>>) -> Seq<
    (Seq<char>, Seq<char>),
> {
    match value {
        Some(v) if trim(v).len() > 0 => seq![(name, v)],
        _ => Seq::empty(),
    }
}

/// The headers in which a site names itself.
pub open spec fn site_headers(site_url: Option<Seq<char>>, app_title: Option<Seq<char>>) -> Seq<
    (Seq<char>, Seq<char>),
> {
    named_header("HTTP-Referer"@, site_url) + named_header("X-OpenRouter-Title"@, app_title)
}

/// The headers in which a site names itself.
pub fn extra_headers(site_url: Option<&str>, app_title: Option<&str>) -> (r: Vec<(String, String)>)
    ensures
        r.deep_view() == site_headers(site_url.deep_view(), app_title.deep_view()),
{
    let mut headers: Vec<(String, String)> = Vec::new();
    let ghost first = named_header("HTTP-Referer"@, site_url.deep_view());
    let ghost second = named_header("X-OpenRouter-Title"@, app_title.deep_view());
    if let Some(url) = site_url {
        if !trim_text(url).as_str().is_empty() {
            headers.push(("HTTP-Referer".to_owned(), url.to_owned()));
        }
    }
    proof {
        assert(headers.deep_view() =~= first);
    }
    if let Some(title) = app_title {
        if !trim_text(title).as_str().is_empty() {
            headers.push(("X-OpenRouter-Title".to_owned(), title.to_owned()));
        }
    }
    proof {
        assert(headers.deep_view() =~= first + second);
    }
    headers
}

/// What an adapter is made with.
pub struct OpenRouterConfig {
    pub base_url: String,
    pub api_key: String,
    /// The name of the model, as the service knows it.
    pub model: String,
    /// The address of the site that asks.
    pub site_url: Option<String>,
    /// The name of the site that asks.
    pub app_title: Option<String>,
    /// The time of one request, with all its tries.
    pub timeout: Duration,
    pub retry: RetryPolicy,
    pub capabilities: ProviderCapabilities,
    pub model_spec: ModelSpec,
}

impl OpenRouterConfig {
    /// With the sizes and capabilities that any service can be trusted with.
    pub fn new(api_key: &str, model: &str) -> (r: OpenRouterConfig)
        ensures
            r.base_url@ == "https://openrouter.ai/api/v1"@,
            r.site_url is None,
            r.app_title is None,
            r.api_key@ == api_key@,
            r.model@ == model@,
            r.timeout == (Duration { secs: 120, nanos: 0 }),
            r.retry.is_usual(),
            r.capabilities == plain_capabilities(
                MultimodalCapabilities {
                    image: false,
                    audio: false,
                    video: false,
                    file_upload: false,
                },
            ),
            r.model_spec == (ModelSpec {
                context_window_tokens: 131_072,
                max_output_tokens: 8_192,
            }),
    {
        OpenRouterConfig {
            base_url: "https://openrouter.ai/api/v1".to_owned(),
            site_url: None,
            app_title: None,
            api_key: api_key.to_owned(),
            model: model.to_owned(),
            timeout: Duration::from_secs(120),
            retry: RetryPolicy::default(),
            capabilities: capabilities_with(MultimodalCapabilities::none()),
            model_spec: ModelSpec { context_window_tokens: 131_072, max_output_tokens: 8_192 },
        }
    }

    pub fn with_base_url(self, url: &str) -> (r: OpenRouterConfig)
        ensures
            r.base_url@ == url@,
            r == (OpenRouterConfig { base_url: r.base_url, ..self }),
    {
        OpenRouterConfig { base_url: url.to_owned(), ..self }
    }

    pub fn with_site_url(self, url: &str) -> (r: OpenRouterConfig)
        ensures
            r.site_url matches Some(t) && t@ == url@,
            r == (OpenRouterConfig { site_url: r.site_url, ..self }),
    {
        OpenRouterConfig { site_url: Some(url.to_owned()), ..self }
    }

    pub fn with_app_title(self, title: &str) -> (r: OpenRouterConfig)
        ensures
            r.app_title matches Some(t) && t@ == title@,
            r == (OpenRouterConfig { app_title: r.app_title, ..self }),
    {
        OpenRouterConfig { app_title: Some(title.to_owned()), ..self }
    }

    pub fn with_timeout(self, t: Duration) -> (r: OpenRouterConfig)
        ensures
            r == (OpenRouterConfig { timeout: t, ..self }),
    {
        OpenRouterConfig { timeout: t, ..self }
    }

    pub fn with_retry(self, retry: RetryPolicy) -> (r: OpenRouterConfig)
        ensures
            r == (OpenRouterConfig { retry, ..self }),
    {
        OpenRouterConfig { retry, ..self }
    }

    pub fn with_capabilities(self, c: ProviderCapabilities) -> (r: OpenRouterConfig)
        ensures
            r == (OpenRouterConfig { capabilities: c, ..self }),
    {
        OpenRouterConfig { capabilities: c, ..self }
    }

    pub fn with_model_spec(self, s: ModelSpec) -> (r: OpenRouterConfig)
        ensures
            r == (OpenRouterConfig { model_spec: s, ..self }),
    {
        OpenRouterConfig { model_spec: s, ..self }
    }
}

/// The body of a request: the shared fields alone, and what the caller adds.
pub open spec fn body_of(model: Seq<char>, req: ChatRequestView) -> JsonView {
    with_extras(shared_body(req, model), req.extra)
}

/// The adapter of a model.
pub struct OpenRouterProvider {
    pub client: OpenAiCompatClient,
    pub model: String,
    pub capabilities: ProviderCapabilities,
    pub model_spec: ModelSpec,
}

impl OpenRouterProvider {
    pub fn new(cfg: OpenRouterConfig) -> (r: Result<OpenRouterProvider, LlmError>)
        ensures
            r matches Ok(p) && {
                &&& p.model == cfg.model
                &&& p.capabilities == cfg.capabilities
                &&& p.model_spec == cfg.model_spec
                &&& p.client.base_url@ == strip_end(cfg.base_url@, '/')
                &&& p.client.api_key@ == cfg.api_key@
                &&& p.client.timeout == cfg.timeout
                &&& p.client.retry == cfg.retry
                &&& p.client.extra_headers.deep_view() == site_headers(
                    cfg.site_url.deep_view(),
                    cfg.app_title.deep_view(),
                )
            },
    {
        let site_url = match &cfg.site_url {
            Some(u) => Some(u.as_str()),
            None => None,
        };
        let app_title = match &cfg.app_title {
            Some(t) => Some(t.as_str()),
            None => None,
        };
        let headers = extra_headers(site_url, app_title);
        let client = match OpenAiCompatClient::new(
            OpenAiCompatConfig {
                base_url: cfg.base_url,
                api_key: cfg.api_key,
                timeout: cfg.timeout,
                retry: cfg.retry,
                extra_headers: headers,
            },
        ) {
            Ok(c) => c,
            Err(e) => {
                return Err(e);
            },
        };
        proof {
            assert(client.extra_headers.deep_view() =~= headers.deep_view());
        }
        Ok(
            OpenRouterProvider {
                client,
                model: cfg.model,
                capabilities: cfg.capabilities,
                model_spec: cfg.model_spec,
            },
        )
    }

    /// The vendor and the model, with a slash between.
    pub fn id(&self) -> (r: ProviderId)
        ensures
            r.deep_view() == "openrouter/"@ + self.model@,
    {
        ProviderId::owned(joined("openrouter/", self.model.as_str()))
    }

    pub fn capabilities(&self) -> (r: &ProviderCapabilities)
        ensures
            *r == self.capabilities,
    {
        &self.capabilities
    }

    pub fn model_spec(&self) -> (r: ModelSpec)
        ensures
            r == self.model_spec,
    {
        self.model_spec
    }

    /// The body of a request: the shared fields alone, and what the caller adds.
    pub fn build_body(&self, req: &ChatRequest) -> (r: Json)
        ensures
            r.deep_view() == body_of(self.model@, req.deep_view()),
    {
        add_extras(build_shared_body(req, self.model.as_str()), &req.extra)
    }
}

} // verus!
