//! The response cache and the stream of a kept response.

use referee::cache::{synthetic_stream, CacheConfig, CacheKey, InMemoryCache, CHUNK_SIZE};
use referee::json::{Json, Number};
use referee::provider::{
    ChatRequest, ChatResponse, FinishReason, Message, MessageContent, ReasoningEffort, StreamChunk,
    TokenUsage, ToolChoice,
};
use referee::time::Duration;

fn response(content: &str) -> ChatResponse {
    ChatResponse {
        id: "cached".into(),
        model: "mock".into(),
        message: Message::assistant(content),
        finish_reason: FinishReason::Stop,
        usage: Some(TokenUsage::default()),
    }
}

fn key(a: u64) -> CacheKey {
    CacheKey { provider: "mock".into(), content_hash: a, params_hash: 0 }
}

fn minute() -> Duration {
    Duration::from_secs(60)
}

fn hello() -> ChatRequest {
    ChatRequest::simple(MessageContent::text("hello"))
}

fn key_of(req: &ChatRequest) -> CacheKey {
    InMemoryCache::new(2, minute()).key_for_request(req, "mock")
}

#[test]
fn get_updates_lru_order() {
    let mut cache = InMemoryCache::new(2, minute());
    cache.set(key(1), response("one"), 0);
    cache.set(key(2), response("two"), 0);
    assert!(cache.get(&key(1), 0).is_some());
    cache.set(key(3), response("three"), 0);
    assert!(cache.get(&key(1), 0).is_some(), "1 refreshed, must survive");
    assert!(cache.get(&key(2), 0).is_none(), "2 evicted (LRU)");
    assert!(cache.get(&key(3), 0).is_some());
}

#[test]
fn evicts_lru_when_capacity_reached() {
    let mut cache = InMemoryCache::new(2, minute());
    cache.set(key(1), response("a"), 0);
    cache.set(key(2), response("b"), 0);
    cache.set(key(3), response("c"), 0);
    assert_eq!(cache.len(), 2);
    assert!(cache.get(&key(1), 0).is_none(), "oldest evicted");
    assert!(cache.get(&key(2), 0).is_some());
    assert!(cache.get(&key(3), 0).is_some());
}

#[test]
fn ttl_expiry_removes_entry() {
    let mut cache = InMemoryCache::new(4, Duration::from_millis(20));
    cache.set(key(1), response("a"), 100);
    assert!(cache.get(&key(1), 100).is_some());
    assert!(cache.get(&key(1), 140).is_none(), "expired entry must miss");
    assert_eq!(cache.len(), 0);
    assert!(cache.is_empty());
}

#[test]
fn expired_keys_do_not_clog_lru() {
    let mut cache = InMemoryCache::new(2, Duration::from_millis(20));
    cache.set(key(1), response("a"), 0);
    cache.set(key(2), response("b"), 0);
    assert!(cache.get(&key(1), 40).is_none());
    assert_eq!(cache.len(), 1);
    cache.set(key(3), response("c"), 40);
    cache.set(key(4), response("d"), 40);
    assert_eq!(cache.len(), 2);
    assert!(cache.get(&key(2), 40).is_none(), "2 must be evicted (1 was a stale key)");
    assert!(cache.get(&key(3), 40).is_some(), "3 fresh, must hit");
    assert!(cache.get(&key(4), 40).is_some(), "4 fresh, must hit");
}

#[test]
fn overwrite_refreshes_order() {
    let mut cache = InMemoryCache::new(2, minute());
    cache.set(key(1), response("a"), 0);
    cache.set(key(2), response("b"), 0);
    cache.set(key(1), response("a2"), 0);
    cache.set(key(3), response("c"), 0);
    assert!(cache.get(&key(1), 0).is_some());
    assert!(cache.get(&key(2), 0).is_none());
}

#[test]
fn params_affect_cache_key() {
    let mut req = hello();
    req.temperature = Some(Number::Decimal("0.0".into()));
    let k1 = key_of(&req);
    req.temperature = Some(Number::Decimal("0.7".into()));
    let k2 = key_of(&req);
    assert_ne!(k1.params_hash, k2.params_hash);
    assert_ne!(k1, k2);

    let mut req = hello();
    req.max_tokens = Some(100);
    let k1 = key_of(&req);
    req.max_tokens = Some(200);
    let k2 = key_of(&req);
    assert_ne!(k1.params_hash, k2.params_hash);
}

#[test]
fn thinking_effort_affects_cache_key() {
    let mut req = hello();
    req.thinking.enabled = true;
    req.thinking.effort = Some(ReasoningEffort::Low);
    let k1 = key_of(&req);
    req.thinking.effort = Some(ReasoningEffort::Max);
    let k2 = key_of(&req);
    assert_ne!(k1.params_hash, k2.params_hash);
    assert_ne!(k1, k2);
}

#[test]
fn extra_params_affect_cache_key() {
    let key_with = |n: u64| {
        let mut req = hello();
        req.extra.push(("vendor_param".into(), Json::object().plus("a", Json::unsigned(n))));
        key_of(&req)
    };
    assert_ne!(key_with(1).params_hash, key_with(2).params_hash);
}

#[test]
fn tool_choice_affects_cache_key() {
    let mut req = hello();
    let k1 = key_of(&req);
    req.tool_choice = ToolChoice::Required;
    assert_ne!(k1.params_hash, key_of(&req).params_hash);
}

#[test]
fn identical_request_identical_key() {
    let cache = InMemoryCache::new(2, minute());
    let k1 = cache.key_for_request(&hello(), "mock");
    let k2 = cache.key_for_request(&hello(), "mock");
    assert_eq!(k1, k2);
    let world = ChatRequest::simple(MessageContent::text("world"));
    assert_ne!(k1, cache.key_for_request(&world, "mock"));
    assert_ne!(k1, cache.key_for_request(&hello(), "other"));
}

#[test]
fn content_hash_excludes_params_by_default() {
    let zero = Some(Number::Decimal("0.0".into()));
    let warm = Some(Number::Decimal("0.7".into()));
    let msgs = vec![Message::user("hello")];
    let h1 = InMemoryCache::hash_request(&msgs, "", &zero, None, true);
    let h2 = InMemoryCache::hash_request(&msgs, "", &warm, None, true);
    assert_eq!(h1, h2, "content_hash must exclude dynamic params");
    let h3 = InMemoryCache::hash_request(&msgs, "", &warm, None, false);
    assert_ne!(h1, h3, "excluding=false must fold params into hash");
}

fn text_of(chunk: &StreamChunk) -> Option<&str> {
    match chunk {
        StreamChunk::Delta { content, .. } => Some(content.as_deref().unwrap_or("")),
        StreamChunk::Finish { .. } => None,
    }
}

#[test]
fn synthetic_stream_reassembles() {
    let content = "你好，这是用于验证合成流的完整响应内容，共二十五个字以上。";
    let usage = Some(TokenUsage {
        prompt_tokens: 5,
        completion_tokens: 40,
        total_tokens: 45,
        ..TokenUsage::default()
    });
    let response = ChatResponse { message: Message::assistant(content), usage, ..response("") };
    let chunks = synthetic_stream(response.clone());
    let mut joined = String::new();
    let mut delta_count = 0usize;
    let mut finish: Option<StreamChunk> = None;
    for chunk in chunks {
        match chunk {
            StreamChunk::Delta { content, .. } => {
                joined.push_str(content.as_deref().unwrap_or(""));
                delta_count += 1;
            }
            StreamChunk::Finish { .. } => finish = Some(chunk),
        }
    }
    assert_eq!(joined, content, "reassembled stream must equal original");
    assert!(delta_count > 1, "expected multiple delta chunks, got {delta_count}");
    match finish.expect("must end with Finish") {
        StreamChunk::Finish { finish_reason, usage } => {
            assert_eq!(finish_reason, FinishReason::Stop);
            assert_eq!(usage, response.usage);
        }
        _ => unreachable!(),
    }
}

#[test]
fn synthetic_stream_chunks_are_bounded() {
    let content = "a".repeat(25);
    let sizes: Vec<usize> = synthetic_stream(response(&content))
        .iter()
        .filter_map(text_of)
        .map(|t| t.chars().count())
        .collect();
    assert!(sizes.iter().all(|&s| s <= 10), "chunk sizes: {sizes:?}");
    assert_eq!(CHUNK_SIZE, 10);
    assert_eq!(sizes.iter().sum::<usize>(), 25);
}

#[test]
fn empty_content_still_emits_finish() {
    let finished = synthetic_stream(response(""))
        .iter()
        .any(|c| matches!(c, StreamChunk::Finish { .. }));
    assert!(finished, "empty content must still emit Finish");
}

#[test]
fn message_content_helpers() {
    let c = MessageContent::text("hi");
    assert_eq!(c.as_text(), Some("hi"));
}

#[test]
fn what_was_kept_is_given_back() {
    let mut cache = InMemoryCache::new(1, minute());
    cache.set(key(1), response("one"), 5);
    assert_eq!(cache.get(&key(1), 60_005), Some(response("one")));
    assert_eq!(cache.get(&key(1), 60_006), None);
}

#[test]
fn a_cache_without_room_keeps_nothing() {
    let mut cache = InMemoryCache::new(0, minute());
    cache.set(key(1), response("one"), 0);
    assert_eq!(cache.len(), 0);
    assert!(cache.get(&key(1), 0).is_none());
}

#[test]
fn the_cache_is_off_unless_asked_for() {
    assert!(!CacheConfig::default().enabled);
    assert!(!CacheConfig::disabled().enabled);
}

#[test]
fn one_parameter_is_not_taken_for_another() {
    let mut warm = hello();
    warm.temperature = Some(Number::Unsigned(5));
    let mut short = hello();
    short.max_tokens = Some(5);
    assert_ne!(key_of(&warm).params_hash, key_of(&short).params_hash);
    let msgs = vec![Message::user("hello")];
    let warm = InMemoryCache::hash_request(&msgs, "", &Some(Number::Unsigned(5)), None, false);
    let short = InMemoryCache::hash_request(&msgs, "", &None, Some(5), false);
    assert_ne!(warm, short);
}
