//! What the daemon and its clients speak of.

use vstd::prelude::*;
use vstd::string::*;

use crate::engine::{EngineConfig, EngineConfigView, ProviderInfo, ProviderInfoView};
use crate::provider::deepseek::{
    takes, DeepSeekConfig, DeepSeekModel, DeepSeekProvider, CONTEXT_WINDOW_TOKENS,
    MAX_OUTPUT_TOKENS,
};
use crate::provider::vendor::plain_capabilities;
use crate::provider::{joined, ModelSpec};
use crate::text::{chars_of, occurs, occurs_in, strip_end};
use crate::time::Duration;

verus! {

broadcast use vstd::string::group_string_axioms;

pub const ERR_INSTANCE_NOT_FOUND: i32 = -32000;

pub const ERR_INSTANCE_FULL: i32 = -32001;

pub const ERR_SESSION_BUSY: i32 = -32002;

pub const ERR_INTERNAL: i32 = -32003;

pub const ERR_INVALID_SPEC: i32 = -32004;

/// Why a request failed.
#[derive(Debug)]
pub struct ServerError {
    pub code: i32,
    pub message: String,
}

pub struct ServerErrorView {
    pub code: i32,
    pub message: Seq<char>,
}

impl DeepView for ServerError {
    type V = ServerErrorView;

    open spec fn deep_view(&self) -> ServerErrorView {
        ServerErrorView { code: self.code, message: self.message@ }
    }
}

impl ServerError {
    pub fn new(code: i32, message: String) -> (r: ServerError)
        ensures
            r.deep_view() == (ServerErrorView { code, message: message@ }),
    {
        ServerError { code, message }
    }
}

/// The name of an instance.
#[derive(Debug, PartialEq, Eq)]
pub struct InstanceId {
    pub name: String,
}

impl DeepView for InstanceId {
    type V = Seq<char>;

    open spec fn deep_view(&self) -> Seq<char> {
        self.name@
    }
}

impl Clone for InstanceId {
    fn clone(&self) -> (r: Self)
        ensures
            r.deep_view() == self.deep_view(),
    {
        InstanceId { name: self.name.clone() }
    }
}

impl InstanceId {
    pub fn as_str(&self) -> (r: &str)
        ensures
            r@ == self.deep_view(),
    {
        self.name.as_str()
    }
}

/// Whether an instance takes requests.
#[derive(Debug, Clone, Copy, PartialEq, Eq, Structural)]
pub enum InstanceState {
    Running,
    Stopped,
}

/// An instance at one moment.
#[derive(Debug)]
pub struct InstanceInfo {
    pub id: InstanceId,
    pub model: String,
    pub state: InstanceState,
    pub sessions: usize,
    pub max_sessions: usize,
    pub consumed_tokens: u64,
    pub cache_entries: usize,
    /// When it was made, in ISO 8601.
    pub created_at: String,
}

pub struct InstanceInfoView {
    pub id: Seq<char>,
    pub model: Seq<char>,
    pub state: InstanceState,
    pub sessions: usize,
    pub max_sessions: usize,
    pub consumed_tokens: u64,
    pub cache_entries: usize,
    pub created_at: Seq<char>,
}

impl DeepView for InstanceInfo {
    type V = InstanceInfoView;

    open spec fn deep_view(&self) -> InstanceInfoView {
        InstanceInfoView {
            id: self.id.deep_view(),
            model: self.model@,
            state: self.state,
            sessions: self.sessions,
            max_sessions: self.max_sessions,
            consumed_tokens: self.consumed_tokens,
            cache_entries: self.cache_entries,
            created_at: self.created_at@,
        }
    }
}

/// A session at one moment.
#[derive(Debug)]
pub struct SessionInfo {
    pub id: String,
    /// How many messages its model is shown.
    pub messages: usize,
    pub phase: String,
    pub consumed_tokens: u64,
}

pub struct SessionInfoView {
    pub id: Seq<char>,
    pub messages: usize,
    pub phase: Seq<char>,
    pub consumed_tokens: u64,
}

impl DeepView for SessionInfo {
    type V = SessionInfoView;

    open spec fn deep_view(&self) -> SessionInfoView {
        SessionInfoView {
            id: self.id@,
            messages: self.messages,
            phase: self.phase@,
            consumed_tokens: self.consumed_tokens,
        }
    }
}

/// Which vendor an instance asks.
#[derive(Debug)]
#[allow(inconsistent_fields)]
pub enum ProviderConfig {
    DeepSeek { api_key: String, base_url: Option<String>, model: Option<String> },
    XiaoMi { api_key: String, base_url: Option<String> },
    OpenAI { api_key: String, base_url: Option<String>, model: String },
}

/// What an instance is made of.
#[derive(Debug)]
pub struct InstanceSpec {
    /// The model of its agent.
    pub model: String,
    /// The sections of its system prompt.
    pub sections: Vec<String>,
    pub engine: EngineConfig,
    pub provider: ProviderConfig,
}

pub enum ProviderConfigView {
    DeepSeek(Seq<char>, Option<Seq<char>>, Option<Seq<char>>),
    XiaoMi(Seq<char>, Option<Seq<char>>),
    OpenAI(Seq<char>, Option<Seq<char>>, Seq<char>),
}

impl DeepView for ProviderConfig {
    type V = ProviderConfigView;

    open spec fn deep_view(&self) -> ProviderConfigView {
        match *self {
            ProviderConfig::DeepSeek { api_key, base_url, model } => ProviderConfigView::DeepSeek(
                api_key@,
                base_url.deep_view(),
                model.deep_view(),
            ),
            ProviderConfig::XiaoMi { api_key, base_url } => ProviderConfigView::XiaoMi(
                api_key@,
                base_url.deep_view(),
            ),
            ProviderConfig::OpenAI { api_key, base_url, model } => ProviderConfigView::OpenAI(
                api_key@,
                base_url.deep_view(),
                model@,
            ),
        }
    }
}

pub struct InstanceSpecView {
    pub model: Seq<char>,
    pub sections: Seq<Seq<char>>,
    pub engine: EngineConfigView,
    pub provider: ProviderConfigView,
}

impl DeepView for InstanceSpec {
    type V = InstanceSpecView;

    open spec fn deep_view(&self) -> InstanceSpecView {
        InstanceSpecView {
            model: self.model@,
            sections: self.sections.deep_view(),
            engine: self.engine.deep_view(),
            provider: self.provider.deep_view(),
        }
    }
}

/// The model that a name asks for.
pub open spec fn model_of(name: Option<Seq<char>>) -> DeepSeekModel {
    match name {
        Some(s) if occurs(s, "pro"@) => DeepSeekModel::V4Pro,
        _ => DeepSeekModel::V4Flash,
    }
}

/// What is said of a vendor that cannot be asked from here.
pub open spec fn unavailable(cfg: ProviderConfigView) -> Option<Seq<char>> {
    match cfg {
        ProviderConfigView::DeepSeek(..) => None,
        ProviderConfigView::XiaoMi(..) => Some("xiaomi feature not enabled"@),
        ProviderConfigView::OpenAI(..) => Some(
            "openai provider adapter not exposed to server layer"@,
        ),
    }
}

/// The adapter of a vendor.
pub fn build_provider(cfg: &ProviderConfig) -> (r: Result<DeepSeekProvider, ServerError>)
    ensures
        match (r, unavailable(cfg.deep_view())) {
            (Err(e), Some(why)) => e.deep_view() == (ServerErrorView {
                code: ERR_INVALID_SPEC,
                message: why,
            }),
            (Ok(p), None) => match cfg.deep_view() {
                ProviderConfigView::DeepSeek(api_key, base_url, model) => {
                    &&& p.model == model_of(model)
                    &&& p.capabilities == plain_capabilities(takes(p.model))
                    &&& p.client.api_key@ == api_key
                    &&& p.client.base_url@ == strip_end(
                        match base_url {
                            Some(u) => u,
                            None => "https://api.deepseek.com"@,
                        },
                        '/',
                    )
                    &&& p.client.timeout == (Duration { secs: 120, nanos: 0 })
                    &&& p.client.retry.is_usual()
                    &&& p.client.extra_headers@.len() == 0
                },
                _ => false,
            },
            _ => false,
        },
{
    match cfg {
        ProviderConfig::DeepSeek { api_key, base_url, model } => {
            let m = match model {
                Some(s) => if occurs_in(s.as_str(), "pro") {
                    DeepSeekModel::V4Pro
                } else {
                    DeepSeekModel::V4Flash
                },
                None => DeepSeekModel::V4Flash,
            };
            let mut c = DeepSeekConfig::new(api_key.as_str());
            if let Some(url) = base_url {
                c = c.with_base_url(url.as_str());
            }
            match DeepSeekProvider::new(m, c) {
                Ok(p) => Ok(p),
                Err(e) => Err(ServerError::new(ERR_INVALID_SPEC, e.message())),
            }
        },
        ProviderConfig::XiaoMi { .. } => Err(
            ServerError::new(ERR_INVALID_SPEC, "xiaomi feature not enabled".to_owned()),
        ),
        ProviderConfig::OpenAI { .. } => Err(
            ServerError::new(
                ERR_INVALID_SPEC,
                "openai provider adapter not exposed to server layer".to_owned(),
            ),
        ),
    }
}

/// Whether a character can stand in the name of an instance, and so in a path.
pub open spec fn name_char(c: char) -> bool {
    'a' <= c <= 'z' || 'A' <= c <= 'Z' || '0' <= c <= '9' || c == '-' || c == '_'
}

/// Whether a text can be the name of an instance.
pub open spec fn valid_name(name: Seq<char>) -> bool {
    name.len() > 0 && forall|i: int| 0 <= i < name.len() ==> name_char(#[trigger] name[i])
}

/// The name of an instance, if a text can be one.
pub fn checked_name(name: &str) -> (r: Result<InstanceId, String>)
    ensures
        r is Ok <==> valid_name(name@),
        r matches Ok(id) ==> id.deep_view() == name@,
        r matches Err(e) ==> e@ == "invalid instance id: "@ + name@,
{
    let chars = chars_of(name);
    let mut i: usize = 0;
    let mut valid = chars.len() > 0;
    while i < chars.len()
        invariant
            i <= chars@.len(),
            chars@ == name@,
            valid == (name@.len() > 0 && forall|j: int|
                0 <= j < i ==> name_char(#[trigger] name@[j])),
        decreases chars@.len() - i,
    {
        let c = chars[i];
        let plain = ('a' <= c && c <= 'z') || ('A' <= c && c <= 'Z') || ('0' <= c && c <= '9')
            || c == '-' || c == '_';
        proof {
            assert(plain == name_char(name@[i as int]));
        }
        valid = valid && plain;
        i = i + 1;
    }
    if valid {
        Ok(InstanceId { name: name.to_owned() })
    } else {
        Err(joined("invalid instance id: ", name))
    }
}

/// What is known of the model that a vendor's configuration asks for.
pub open spec fn info_of(cfg: ProviderConfigView) -> ProviderInfoView {
    let model = match cfg {
        ProviderConfigView::DeepSeek(_, _, name) => model_of(name),
        _ => DeepSeekModel::V4Flash,
    };
    ProviderInfoView {
        id: model.id(),
        capabilities: plain_capabilities(takes(model)),
        model_spec: ModelSpec {
            context_window_tokens: CONTEXT_WINDOW_TOKENS,
            max_output_tokens: MAX_OUTPUT_TOKENS,
        },
    }
}

/// What is known of the model of an adapter.
pub fn provider_info(p: &DeepSeekProvider) -> (r: ProviderInfo)
    ensures
        r.deep_view() == (ProviderInfoView {
            id: p.model.id(),
            capabilities: p.capabilities,
            model_spec: ModelSpec {
                context_window_tokens: CONTEXT_WINDOW_TOKENS,
                max_output_tokens: MAX_OUTPUT_TOKENS,
            },
        }),
{
    ProviderInfo { id: p.id(), capabilities: p.capabilities, model_spec: p.model_spec() }
}

} // verus!
