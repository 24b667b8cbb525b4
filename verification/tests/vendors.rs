//! What each vendor is sent, and the registry of models.

use referee::engine::ProviderInfo;
use referee::json::{parse_text, write_text, Json, Number};
use referee::provider::agnes::{AgnesConfig, AgnesModel, AgnesProvider};
use referee::provider::client::{
    compute_backoff, header_list, map_http_error, map_transport_error, next_try, with_stream,
};
use referee::provider::content::{ContentPart, ImageDetail, MediaSource, VideoParams};
use referee::provider::deepseek::{
    DeepSeekConfig, DeepSeekModel, DeepSeekProvider, DEEPSEEK_V4_FLASH_VISION_EXP,
};
use referee::provider::kimi::{KimiConfig, KimiModel, KimiProvider};
use referee::provider::minimax::{
    MiniMaxConfig, MiniMaxModel, MiniMaxProvider, MAX_OUTPUT_TOKENS,
};
use referee::provider::openai::{OpenAiConfig, OpenAiProvider, DEFAULT_CONTEXT_WINDOW_TOKENS};
use referee::provider::openai_compat::{OpenAiCompatClient, OpenAiCompatConfig};
use referee::provider::openrouter::{
    extra_headers, OpenRouterConfig, OpenRouterProvider, DEFAULT_BASE_URL,
};
use referee::provider::registry::{Probe, ProviderRegistry, ProviderRegistryError};
use referee::provider::{
    ChatRequest, LlmError, MessageContent, ModelSpec, MultimodalCapabilities,
    ProviderCapabilities, ProviderId, ReasoningEffort, RetryPolicy, ThinkingConfig,
};
use referee::time::Duration;

/// A value as it stands on the wire.
fn wire(j: &Json) -> Json {
    parse_text(&write_text(j)).unwrap()
}

fn json(text: &str) -> Json {
    parse_text(text).unwrap()
}

fn at(j: &Json, key: &str) -> Json {
    wire(j.get(key).unwrap_or(&Json::Null))
}

/// The content of the first message of a body.
fn content(body: &Json) -> Vec<Json> {
    let messages = body.list_at("messages").unwrap();
    messages[0].list_at("content").unwrap().iter().map(wire).collect()
}

fn hi() -> ChatRequest {
    ChatRequest::simple(MessageContent::text("hi"))
}

fn url(url: &str) -> MediaSource {
    MediaSource::Url { url: url.into() }
}

#[test]
fn build_body_maps_agnes_specific_fields() {
    let provider = AgnesProvider::new(AgnesModel::V25Flash, AgnesConfig::new("test-key"))
        .expect("create provider");
    let mut req = ChatRequest::simple(MessageContent::multimodal(vec![
        ContentPart::text("描述这张图片"),
        ContentPart::image(url("https://example.com/image.jpg")),
    ]));
    req.max_tokens = Some(2048);
    let body = provider.build_body(&req);
    assert_eq!(at(&body, "model"), Json::text("agnes-2.5-flash"));
    assert_eq!(at(&body, "max_tokens"), Json::unsigned(2048));
    assert!(body.get("max_completion_tokens").is_none());
    assert_eq!(at(&body, "chat_template_kwargs"), json(r#"{"enable_thinking": true}"#));
    let content = content(&body);
    assert_eq!(content[0], json(r#"{"type": "text", "text": "描述这张图片"}"#));
    assert_eq!(
        content[1],
        json(r#"{"type": "image_url", "image_url": {"url": "https://example.com/image.jpg"}}"#)
    );
}

#[test]
fn build_body_disables_thinking() {
    let provider = AgnesProvider::new(AgnesModel::V25Flash, AgnesConfig::new("test-key"))
        .expect("create provider");
    let mut req = hi();
    req.thinking.enabled = false;
    let body = provider.build_body(&req);
    assert_eq!(at(&body, "chat_template_kwargs"), json(r#"{"enable_thinking": false}"#));
}

#[test]
fn vision_model_maps_identity_and_capabilities() {
    let provider =
        DeepSeekProvider::new(DeepSeekModel::V4FlashVisionExp, DeepSeekConfig::new("test-key"))
            .expect("create provider");
    assert_eq!(provider.model.as_str(), "deepseek-v4-flash-vision-exp");
    assert_eq!(provider.id().as_str(), DEEPSEEK_V4_FLASH_VISION_EXP);
    assert!(provider.capabilities().multimodal.image);
    assert!(!provider.capabilities().multimodal.audio);

    let mut req = ChatRequest::simple(MessageContent::multimodal(vec![
        ContentPart::text("这张图片里有什么？"),
        ContentPart::image_with_detail(
            MediaSource::Base64 { mime: "image/jpeg".into(), data: "aGVsbG8=".into() },
            ImageDetail::High,
        ),
    ]));
    req.thinking = ThinkingConfig { enabled: true, effort: Some(ReasoningEffort::High) };
    let body = provider.build_body(&req);
    assert_eq!(at(&body, "model"), Json::text("deepseek-v4-flash-vision-exp"));
    assert_eq!(at(&body, "reasoning_effort"), Json::text("high"));
    let content = content(&body);
    assert_eq!(content[0], json(r#"{"type": "text", "text": "这张图片里有什么？"}"#));
    assert_eq!(
        content[1],
        json(
            r#"{"type": "image_url",
                "image_url": {"url": "data:image/jpeg;base64,aGVsbG8=", "detail": "high"}}"#
        )
    );
}

#[test]
fn text_models_have_no_image_capability() {
    for model in [DeepSeekModel::V4Flash, DeepSeekModel::V4Pro] {
        let provider =
            DeepSeekProvider::new(model, DeepSeekConfig::new("test-key")).expect("create");
        assert!(!provider.capabilities().multimodal.image);
        assert_eq!(provider.capabilities().multimodal, MultimodalCapabilities::none());
    }
}

#[test]
fn build_body_maps_kimi_specific_fields() {
    let provider =
        KimiProvider::new(KimiModel::K3, KimiConfig::new("test-key")).expect("create provider");
    let mut req = ChatRequest::simple(MessageContent::multimodal(vec![
        ContentPart::image(url("https://example.com/image.jpg")),
        ContentPart::text("描述这张图片"),
    ]));
    req.thinking = ThinkingConfig { enabled: true, effort: Some(ReasoningEffort::Max) };
    let body = provider.build_body(&req);
    assert_eq!(at(&body, "model"), Json::text("kimi-k3"));
    assert_eq!(at(&body, "reasoning_effort"), Json::text("max"));
    let content = content(&body);
    assert_eq!(
        content[0],
        json(r#"{"type": "image_url", "image_url": {"url": "https://example.com/image.jpg"}}"#)
    );
    assert_eq!(content[1], json(r#"{"type": "text", "text": "描述这张图片"}"#));
}

#[test]
fn build_body_omits_effort_when_none() {
    let provider =
        KimiProvider::new(KimiModel::K3, KimiConfig::new("test-key")).expect("create provider");
    let mut req = hi();
    req.thinking.effort = None;
    let body = provider.build_body(&req);
    assert!(body.get("reasoning_effort").is_none());
}

fn minimax() -> MiniMaxProvider {
    MiniMaxProvider::new(MiniMaxModel::M3, MiniMaxConfig::new("test-key")).expect("create provider")
}

#[test]
fn build_body_maps_minimax_specific_fields() {
    let mut req = hi();
    req.thinking = ThinkingConfig { enabled: true, effort: None };
    req.max_tokens = Some(500);
    let body = minimax().build_body(&req);
    assert_eq!(at(&body, "model"), Json::text("MiniMax-M3"));
    assert_eq!(at(&body, "max_tokens"), Json::unsigned(500));
    assert_eq!(at(&body, "thinking"), json(r#"{"type": "adaptive"}"#));
}

#[test]
fn build_body_disabled_thinking_and_default_max_tokens() {
    let mut req = hi();
    req.thinking.enabled = false;
    req.max_tokens = None;
    let body = minimax().build_body(&req);
    assert_eq!(at(&body, "thinking"), json(r#"{"type": "disabled"}"#));
    assert_eq!(at(&body, "max_tokens"), Json::unsigned(MAX_OUTPUT_TOKENS as u64));
}

#[test]
fn build_body_maps_multimodal_blocks() {
    let mut req = ChatRequest::simple(MessageContent::multimodal(vec![
        ContentPart::text("图中是什么？"),
        ContentPart::image(url("https://filecdn.minimax.chat/public/a.jpeg")),
        ContentPart::video(
            url("https://filecdn.minimax.chat/public/b.mp4"),
            VideoParams::default_(),
        ),
    ]));
    req.max_tokens = Some(1024);
    let body = minimax().build_body(&req);
    assert_eq!(at(&body, "model"), Json::text("MiniMax-M3"));
    let content = content(&body);
    assert_eq!(content[0], json(r#"{"type": "text", "text": "图中是什么？"}"#));
    assert_eq!(
        content[1],
        json(
            r#"{"type": "image", "source":
                {"type": "url", "url": "https://filecdn.minimax.chat/public/a.jpeg"}}"#
        )
    );
    assert_eq!(
        content[2],
        json(
            r#"{"type": "video", "source":
                {"type": "url", "url": "https://filecdn.minimax.chat/public/b.mp4"}}"#
        )
    );
}

fn openai(model: &str) -> OpenAiProvider {
    OpenAiProvider::new(OpenAiConfig::new("https://api.example.com/v1", "key", model))
        .expect("create")
}

#[test]
fn openai_provider_id_derives_from_model() {
    let p = openai("my-model");
    assert_eq!(p.id().as_str(), "openai/my-model");
    assert_eq!(p.model_spec().context_window_tokens, DEFAULT_CONTEXT_WINDOW_TOKENS);
    assert_eq!(p.client.endpoint(), "https://api.example.com/v1/chat/completions");
}

#[test]
fn openai_build_body_is_generic_openai_compatible() {
    let mut req = hi();
    req.temperature = Some(Number::Decimal("0.7".into()));
    req.max_tokens = Some(1024);
    let body = openai("gpt-4o-mini").build_body(&req);
    assert_eq!(at(&body, "model"), Json::text("gpt-4o-mini"));
    assert_eq!(at(&body.list_at("messages").unwrap()[0], "content"), Json::text("hi"));
    match at(&body, "temperature") {
        Json::Number(Number::Decimal(t)) => {
            let t: f64 = t.parse().unwrap();
            assert!((t - 0.7f64).abs() < 1e-4, "temperature={t}");
        }
        other => panic!("no temperature: {other:?}"),
    }
    assert_eq!(at(&body, "max_completion_tokens"), Json::unsigned(1024));
    assert!(body.get("thinking").is_none());
    assert!(body.get("stream").is_none());
}

#[test]
fn build_body_passes_through_extras() {
    let mut req = hi();
    req.extra.push(("max_completion_tokens".into(), Json::unsigned(99)));
    let body = openai("m").build_body(&req);
    assert_eq!(at(&body, "max_completion_tokens"), Json::unsigned(99));
}

#[test]
fn openrouter_provider_id_derives_from_model() {
    let p = OpenRouterProvider::new(OpenRouterConfig::new("key", "openai/gpt-4o")).expect("create");
    assert_eq!(p.id().as_str(), "openrouter/openai/gpt-4o");
}

#[test]
fn openrouter_build_body_is_generic_openai_compatible() {
    let p = OpenRouterProvider::new(OpenRouterConfig::new("key", "~openai/gpt-latest"))
        .expect("create");
    let mut req = hi();
    req.max_tokens = Some(1024);
    let body = p.build_body(&req);
    assert_eq!(at(&body, "model"), Json::text("~openai/gpt-latest"));
    assert_eq!(at(&body.list_at("messages").unwrap()[0], "content"), Json::text("hi"));
    assert_eq!(at(&body, "max_completion_tokens"), Json::unsigned(1024));
    assert!(body.get("thinking").is_none());
    assert!(body.get("stream").is_none());
}

#[test]
fn headers_map_site_url_and_app_title() {
    let h = extra_headers(Some("https://example.com"), Some("Referee"));
    assert!(h.contains(&("HTTP-Referer".to_string(), "https://example.com".to_string())));
    assert!(h.contains(&("X-OpenRouter-Title".to_string(), "Referee".to_string())));
    assert!(extra_headers(None, None).is_empty());
    assert!(extra_headers(Some(""), Some("  ")).is_empty());
}

#[test]
fn no_site_headers_by_default() {
    let client = OpenAiCompatClient::new(OpenAiCompatConfig {
        base_url: DEFAULT_BASE_URL.to_string(),
        api_key: "key".into(),
        timeout: Duration::from_secs(120),
        retry: RetryPolicy::default(),
        extra_headers: extra_headers(None, None),
    });
    match client {
        Ok(client) => assert!(client.header_map().is_empty()),
        Err(e) => panic!("{e:?}"),
    }
}

fn pair(name: &str, value: &str) -> (String, String) {
    (name.into(), value.into())
}

#[test]
fn header_names_are_lowered_and_bad_headers_left_out() {
    let headers = header_list(&vec![
        pair("HTTP-Referer", "https://example.com"),
        pair("bad name", "v"),
        pair("X-Bad", "line\nbreak"),
        pair("http-referer", "https://other.example.com"),
    ]);
    assert_eq!(headers, vec![pair("http-referer", "https://other.example.com")]);
}

#[test]
fn an_http_status_says_what_went_wrong() {
    let of = |status| map_http_error(status, Some("7"), "why".into());
    assert_eq!(of(401), LlmError::Auth);
    assert_eq!(of(403), LlmError::Auth);
    assert_eq!(of(408), LlmError::Timeout);
    assert_eq!(of(429), LlmError::RateLimited { retry_after: Some(Duration::from_secs(7)) });
    assert_eq!(of(402), LlmError::InsufficientBalance("HTTP 402: why".into()));
    assert_eq!(of(421), LlmError::ContentBlocked("HTTP 421: why".into()));
    assert_eq!(of(400), LlmError::BadRequest("HTTP 400: why".into()));
    assert_eq!(of(503), LlmError::Server { status: 503, body: "why".into() });
    assert_eq!(
        map_http_error(429, Some("soon"), String::new()),
        LlmError::RateLimited { retry_after: None }
    );
    assert_eq!(map_transport_error(true, "x".into()), LlmError::Timeout);
    assert_eq!(map_transport_error(false, "x".into()), LlmError::Network("x".into()));
}

fn policy() -> RetryPolicy {
    RetryPolicy {
        max_retries: 3,
        base_delay: Duration::from_millis(500),
        max_delay: Duration::from_secs(2),
    }
}

#[test]
fn a_wait_doubles_up_to_its_limit() {
    let waits: Vec<u64> = (0..4).map(|n| policy().backoff_for(n).as_millis()).collect();
    assert_eq!(waits, vec![500, 1000, 2000, 2000]);
    let asked = LlmError::RateLimited { retry_after: Some(Duration::from_secs(9)) };
    assert_eq!(compute_backoff(&policy(), &asked, 0), Duration::from_secs(9));
    let at_once = LlmError::RateLimited { retry_after: Some(Duration::from_secs(0)) };
    assert_eq!(compute_backoff(&policy(), &at_once, 1), Duration::from_secs(1));
}

#[test]
fn only_what_may_pass_is_tried_again() {
    let busy = LlmError::Server { status: 503, body: String::new() };
    assert_eq!(next_try(&policy(), &busy, 0), Some(Duration::from_millis(500)));
    assert_eq!(next_try(&policy(), &busy, 3), None);
    assert_eq!(next_try(&policy(), &LlmError::Auth, 0), None);
    let refused = LlmError::BadRequest(String::new());
    assert_eq!(next_try(&policy(), &refused, 0), None);
}

#[test]
fn the_stream_field_is_replaced() {
    let body = with_stream(with_stream(Json::object(), false), true);
    assert_eq!(body, Json::object().plus("stream", Json::Bool(true)));
}

fn info(id: &str) -> ProviderInfo {
    ProviderInfo {
        id: ProviderId::new(id),
        capabilities: ProviderCapabilities {
            parallel_tool_calls: false,
            system_role: true,
            streaming: false,
            usage_reported: false,
            multimodal: MultimodalCapabilities::none(),
        },
        model_spec: ModelSpec { context_window_tokens: 4096, max_output_tokens: 1024 },
    }
}

#[test]
fn register_and_get() {
    let mut reg = ProviderRegistry::new();
    reg.register(info("test/m")).unwrap();
    assert_eq!(reg.len(), 1);
    assert!(reg.get(&ProviderId::new("test/m")).is_some());
    assert!(reg.get(&ProviderId::new("other/m")).is_none());
    assert_eq!(reg.list(), vec![ProviderId::new("test/m")]);
}

#[test]
fn duplicate_register_fails() {
    let mut reg = ProviderRegistry::new();
    reg.register(info("test/m")).unwrap();
    let err = reg.register(info("test/m")).unwrap_err();
    assert!(matches!(err, ProviderRegistryError::AlreadyExists(_)));
    assert!(err.message().contains("test/m"));
}

#[test]
fn health_check_all_mixed() {
    let mut reg = ProviderRegistry::new();
    assert!(reg.is_empty());
    reg.register(info("a/m")).unwrap();
    reg.register(info("b/m")).unwrap();
    let down = LlmError::Server { status: 503, body: "unhealthy".into() };
    let statuses = reg.health_check_all(vec![Probe::Answered, Probe::Failed(down)]);
    assert_eq!(statuses.len(), 2);
    let healthy_count = statuses.iter().filter(|s| s.healthy).count();
    assert_eq!(healthy_count, 1);

    let broken = Probe::BrokeDown("index out of bounds".into());
    let statuses = reg.health_check_all(vec![broken, Probe::TimedOut]);
    assert_eq!(statuses.len(), 2);
    assert_eq!(statuses[0].id, ProviderId::new("a/m"));
    assert!(!statuses[0].healthy);
    assert_eq!(
        statuses[0].error.as_deref(),
        Some("health check panicked: index out of bounds")
    );
    assert!(!statuses[1].healthy);
    assert_eq!(statuses[1].error.as_deref(), Some("health check timeout"));
}
