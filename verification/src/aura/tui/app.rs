//! The state of the terminal client.

use vstd::prelude::*;
use vstd::string::*;

use crate::aura::protocol::{
    InstanceInfo, InstanceInfoView, SessionInfo, SessionInfoView,
};
use crate::json::{Json, JsonView, NumberView};
use crate::provider::joined;
use crate::provider::openai_compat::{make1, make2, make3, object1, object2, object3};
use crate::text::{
    begins, begins_with, decimal, decimal_text, same, strip_all, strip_all_text, take_chars, trim,
    trim_text,
};
use crate::tool::registry::{among, is_among};

verus! {

broadcast use vstd::string::group_string_axioms;

/// What lies over the conversation.
#[derive(Debug, Clone, Copy, PartialEq, Eq, Structural)]
pub enum Modal {
    /// The instances, to switch.
    Switch,
    /// The sessions, to switch.
    Sessions,
    /// The form of a new instance.
    New,
    Help,
}

/// Who a line is from.
#[derive(Debug, Clone, Copy, PartialEq, Eq, Structural)]
pub enum ChatRole {
    User,
    Assistant,
    System,
}

/// One entry of the conversation.
#[derive(Debug)]
pub struct ChatLine {
    pub role: ChatRole,
    pub text: String,
    /// What the model thought before it answered.
    pub reasoning: String,
    pub show_thinking: bool,
}

pub struct ChatLineView {
    pub role: ChatRole,
    pub text: Seq<char>,
    pub reasoning: Seq<char>,
    pub show_thinking: bool,
}

impl DeepView for ChatLine {
    type V = ChatLineView;

    open spec fn deep_view(&self) -> ChatLineView {
        ChatLineView {
            role: self.role,
            text: self.text@,
            reasoning: self.reasoning@,
            show_thinking: self.show_thinking,
        }
    }
}

impl ChatLineView {
    /// An entry without thoughts.
    pub open spec fn plain(role: ChatRole, text: Seq<char>) -> ChatLineView {
        ChatLineView { role, text, reasoning: Seq::empty(), show_thinking: false }
    }
}

impl ChatLine {
    fn of(role: ChatRole, text: &str) -> (r: ChatLine)
        ensures
            r.deep_view() == ChatLineView::plain(role, text@),
    {
        let reasoning = String::new();
        proof {
            assert(reasoning@ =~= Seq::empty());
        }
        ChatLine { role, text: text.to_owned(), reasoning, show_thinking: false }
    }

    pub fn user(text: &str) -> (r: ChatLine)
        ensures
            r.deep_view() == ChatLineView::plain(ChatRole::User, text@),
    {
        ChatLine::of(ChatRole::User, text)
    }

    pub fn assistant(text: &str) -> (r: ChatLine)
        ensures
            r.deep_view() == ChatLineView::plain(ChatRole::Assistant, text@),
    {
        ChatLine::of(ChatRole::Assistant, text)
    }

    pub fn system(text: &str) -> (r: ChatLine)
        ensures
            r.deep_view() == ChatLineView::plain(ChatRole::System, text@),
    {
        ChatLine::of(ChatRole::System, text)
    }
}

/// The commands, and what they do.
pub fn commands() -> (r: [(&'static str, &'static str); 6])
    ensures
        r@[0].0@ == "/new"@ && r@[0].1@ == "创建新实例"@,
        r@[1].0@ == "/list"@ && r@[1].1@ == "切换实例"@,
        r@[2].0@ == "/sessions"@ && r@[2].1@ == "切换会话"@,
        r@[3].0@ == "/clear"@ && r@[3].1@ == "清空当前对话"@,
        r@[4].0@ == "/help"@ && r@[4].1@ == "帮助与快捷键"@,
        r@[5].0@ == "/quit"@ && r@[5].1@ == "退出 TUI"@,
{
    [
        ("/new", "创建新实例"),
        ("/list", "切换实例"),
        ("/sessions", "切换会话"),
        ("/clear", "清空当前对话"),
        ("/help", "帮助与快捷键"),
        ("/quit", "退出 TUI"),
    ]
}

// ---------------------------------------------------------------------------
// The form of a new instance

/// How many fields the form has.
pub const FORM_FIELDS: usize = 7;

/// The form of a new instance.
#[derive(Debug)]
pub struct CreateForm {
    pub id: String,
    pub description: String,
    pub model: String,
    pub template: String,
    pub provider: String,
    pub api_key: String,
    pub root: String,
}

pub struct FormView {
    pub id: Seq<char>,
    pub description: Seq<char>,
    pub model: Seq<char>,
    pub template: Seq<char>,
    pub provider: Seq<char>,
    pub api_key: Seq<char>,
    pub root: Seq<char>,
}

impl DeepView for CreateForm {
    type V = FormView;

    open spec fn deep_view(&self) -> FormView {
        FormView {
            id: self.id@,
            description: self.description@,
            model: self.model@,
            template: self.template@,
            provider: self.provider@,
            api_key: self.api_key@,
            root: self.root@,
        }
    }
}

impl FormView {
    /// The form as it is opened.
    pub open spec fn empty() -> FormView {
        FormView {
            id: Seq::empty(),
            description: "TUI agent"@,
            model: "deepseek/deepseek-v3"@,
            template: "generic"@,
            provider: "deepseek"@,
            api_key: Seq::empty(),
            root: Seq::empty(),
        }
    }

    /// The field of a number; every number beyond is the last one's.
    pub open spec fn field(self, i: int) -> Seq<char> {
        if i == 0 {
            self.id
        } else if i == 1 {
            self.description
        } else if i == 2 {
            self.model
        } else if i == 3 {
            self.template
        } else if i == 4 {
            self.provider
        } else if i == 5 {
            self.api_key
        } else {
            self.root
        }
    }

    /// The form with another text in the field of a number.
    pub open spec fn with_field(self, i: int, text: Seq<char>) -> FormView {
        if i == 0 {
            FormView { id: text, ..self }
        } else if i == 1 {
            FormView { description: text, ..self }
        } else if i == 2 {
            FormView { model: text, ..self }
        } else if i == 3 {
            FormView { template: text, ..self }
        } else if i == 4 {
            FormView { provider: text, ..self }
        } else if i == 5 {
            FormView { api_key: text, ..self }
        } else {
            FormView { root: text, ..self }
        }
    }
}

impl Default for CreateForm {
    fn default() -> (r: Self)
        ensures
            r.deep_view() == FormView::empty(),
    {
        let id = String::new();
        let api_key = String::new();
        let root = String::new();
        proof {
            assert(id@ =~= Seq::empty());
            assert(api_key@ =~= Seq::empty());
            assert(root@ =~= Seq::empty());
        }
        CreateForm {
            id,
            description: "TUI agent".to_owned(),
            model: "deepseek/deepseek-v3".to_owned(),
            template: "generic".to_owned(),
            provider: "deepseek".to_owned(),
            api_key,
            root,
        }
    }
}

impl CreateForm {
    /// The label of the field of a number.
    pub open spec fn label(i: int) -> Seq<char> {
        if i == 0 {
            "id"@
        } else if i == 1 {
            "描述"@
        } else if i == 2 {
            "模型"@
        } else if i == 3 {
            "模板"@
        } else if i == 4 {
            "厂商"@
        } else if i == 5 {
            "API Key"@
        } else {
            "工作区根"@
        }
    }

    /// The labels of all fields.
    pub fn labels() -> (r: [&'static str; 7])
        ensures
            forall|i: int| 0 <= i < FORM_FIELDS ==> (#[trigger] r@[i])@ == CreateForm::label(i),
    {
        ["id", "描述", "模型", "模板", "厂商", "API Key", "工作区根"]
    }

    pub fn field(&self, i: usize) -> (r: &str)
        ensures
            r@ == self.deep_view().field(i as int),
    {
        match i {
            0 => self.id.as_str(),
            1 => self.description.as_str(),
            2 => self.model.as_str(),
            3 => self.template.as_str(),
            4 => self.provider.as_str(),
            5 => self.api_key.as_str(),
            _ => self.root.as_str(),
        }
    }

    pub fn field_mut(&mut self, i: usize) -> (r: &mut String)
        ensures
            r@ == old(self).deep_view().field(i as int),
            final(self).deep_view() == old(self).deep_view().with_field(i as int, final(r)@),
    {
        match i {
            0 => &mut self.id,
            1 => &mut self.description,
            2 => &mut self.model,
            3 => &mut self.template,
            4 => &mut self.provider,
            5 => &mut self.api_key,
            _ => &mut self.root,
        }
    }
}

// ---------------------------------------------------------------------------
// The specification that a form makes

/// A text, or null where it is empty.
pub open spec fn text_or_null(s: Seq<char>) -> JsonView {
    if s.len() == 0 {
        JsonView::Null
    } else {
        JsonView::Text(s)
    }
}

fn json_or_null(s: &str) -> (r: Json)
    ensures
        r.deep_view() == text_or_null(s@),
{
    if s.is_empty() {
        Json::Null
    } else {
        Json::text(s)
    }
}

/// The template that a text asks for, where the templates with the names given
/// come ready made.
pub open spec fn template_json(s: Seq<char>, ready: Seq<Seq<char>>) -> JsonView {
    if among(ready, s) {
        JsonView::Text(s)
    } else if begins(s, "named:"@) {
        object1("named"@, JsonView::Text(strip_all(s, "named:"@)))
    } else if begins(s, "inline:"@) {
        object1("inline"@, JsonView::Text(strip_all(s, "inline:"@)))
    } else {
        JsonView::Text("generic"@)
    }
}

fn template_of(s: &str, ready: &Vec<String>) -> (r: Json)
    ensures
        r.deep_view() == template_json(s@, ready.deep_view()),
{
    proof {
        reveal_strlit("named:");
        reveal_strlit("inline:");
    }
    if is_among(ready, s) {
        Json::text(s)
    } else if begins_with(s, "named:") {
        make1("named", Json::text(strip_all_text(s, "named:").as_str()))
    } else if begins_with(s, "inline:") {
        make1("inline", Json::text(strip_all_text(s, "inline:").as_str()))
    } else {
        Json::text("generic")
    }
}

/// The vendor that a text asks for.
pub open spec fn provider_json(s: Seq<char>, api_key: Seq<char>) -> JsonView {
    if s == "xiaomi"@ {
        object3(
            "type"@,
            JsonView::Text("xiaomi"@),
            "api_key"@,
            JsonView::Text(api_key),
            "base_url"@,
            JsonView::Null,
        )
    } else if s == "openai"@ {
        object3(
            "type"@,
            JsonView::Text("openai"@),
            "api_key"@,
            JsonView::Text(api_key),
            "base_url"@,
            JsonView::Null,
        ).plus("model"@, JsonView::Text(""@))
    } else {
        object3(
            "type"@,
            JsonView::Text("deepseek"@),
            "api_key"@,
            JsonView::Text(api_key),
            "base_url"@,
            JsonView::Null,
        ).plus("model"@, JsonView::Null)
    }
}

fn provider_of(s: &str, api_key: &str) -> (r: Json)
    ensures
        r.deep_view() == provider_json(s@, api_key@),
{
    if same(s, "xiaomi") {
        make3(
            "type",
            Json::text("xiaomi"),
            "api_key",
            Json::text(api_key),
            "base_url",
            Json::Null,
        )
    } else if same(s, "openai") {
        make3(
            "type",
            Json::text("openai"),
            "api_key",
            Json::text(api_key),
            "base_url",
            Json::Null,
        ).plus("model", Json::text(""))
    } else {
        make3(
            "type",
            Json::text("deepseek"),
            "api_key",
            Json::text(api_key),
            "base_url",
            Json::Null,
        ).plus("model", Json::Null)
    }
}

/// A list without items.
pub open spec fn no_items() -> JsonView {
    JsonView::List(Seq::empty())
}

fn empty_list() -> (r: Json)
    ensures
        r.deep_view() == no_items(),
{
    let items: Vec<Json> = Vec::new();
    proof {
        assert(items.deep_view() =~= Seq::empty());
    }
    Json::list(items)
}

/// The agent that a form makes.
pub open spec fn agent_json(f: FormView, ready: Seq<Seq<char>>) -> JsonView {
    object3(
        "id"@,
        JsonView::Text(
            if trim(f.id).len() == 0 {
                "general"@
            } else {
                trim(f.id)
            },
        ),
        "description"@,
        JsonView::Text(f.description),
        "model"@,
        JsonView::Text(f.model),
    ).plus("template"@, template_json(trim(f.template), ready)).plus("tools"@, no_items()).plus(
        "skills"@,
        no_items(),
    ).plus("mcp_servers"@, no_items()).plus("params"@, JsonView::Object(Seq::empty()))
}

/// The tools that a form makes.
pub open spec fn tools_json(f: FormView) -> JsonView {
    object2(
        "fs"@,
        object3(
            "root"@,
            text_or_null(trim(f.root)),
            "max_file_bytes"@,
            JsonView::Number(NumberView::Unsigned(1_048_576)),
            "default_limit_chars"@,
            JsonView::Number(NumberView::Unsigned(3000)),
        ),
        "artifact"@,
        JsonView::Bool(false),
    )
}

/// The specification that a form makes.
pub open spec fn spec_json(f: FormView, ready: Seq<Seq<char>>) -> JsonView {
    object3(
        "id"@,
        text_or_null(trim(f.id)),
        "agent"@,
        agent_json(f, ready),
        "tools"@,
        tools_json(f),
    ).plus("provider"@, provider_json(trim(f.provider), f.api_key))
}

// ---------------------------------------------------------------------------
// The client

/// Something that came from the conversation.
#[derive(Debug)]
#[allow(inconsistent_fields)]
pub enum ChatEvent {
    Delta { content: String, reasoning: String },
    Finish { reason: String },
    Error { message: String },
}

pub enum ChatEventView {
    Delta(Seq<char>, Seq<char>),
    Finish(Seq<char>),
    Error(Seq<char>),
}

impl DeepView for ChatEvent {
    type V = ChatEventView;

    open spec fn deep_view(&self) -> ChatEventView {
        match *self {
            ChatEvent::Delta { content, reasoning } => ChatEventView::Delta(content@, reasoning@),
            ChatEvent::Finish { reason } => ChatEventView::Finish(reason@),
            ChatEvent::Error { message } => ChatEventView::Error(message@),
        }
    }
}

/// The state of the client.
#[derive(Debug)]
pub struct App {
    pub should_quit: bool,
    pub status: String,
    pub status_error: bool,
    pub modal: Option<Modal>,
    /// Whether the figures of the instance are to be asked for again.
    pub needs_refresh: bool,
    pub tick: u64,
    pub cwd: String,
    pub instances: Vec<InstanceInfo>,
    pub instance_selected: usize,
    pub instance_id: String,
    pub instance_model: String,
    pub consumed_tokens: u64,
    pub sessions: Vec<SessionInfo>,
    pub session_selected: usize,
    /// The session; an empty one is yet to begin.
    pub session_id: String,
    pub chat_lines: Vec<ChatLine>,
    pub chat_input: String,
    pub input_cursor: usize,
    pub chat_history: Vec<String>,
    /// Where in the history one looks.
    pub history_index: Option<usize>,
    /// How many lines the end is away.
    pub chat_scroll: usize,
    pub chat_active: bool,
    /// Whether there is a conversation that something can come from.
    pub chat_open: bool,
    pub form: CreateForm,
    pub form_field: usize,
    /// The templates that come ready made, by their names.
    pub templates: Vec<String>,
}

pub struct AppView {
    pub should_quit: bool,
    pub status: Seq<char>,
    pub status_error: bool,
    pub modal: Option<Modal>,
    pub needs_refresh: bool,
    pub tick: u64,
    pub cwd: Seq<char>,
    pub instances: Seq<InstanceInfoView>,
    pub instance_selected: usize,
    pub instance_id: Seq<char>,
    pub instance_model: Seq<char>,
    pub consumed_tokens: u64,
    pub sessions: Seq<SessionInfoView>,
    pub session_selected: usize,
    pub session_id: Seq<char>,
    pub chat_lines: Seq<ChatLineView>,
    pub chat_input: Seq<char>,
    pub input_cursor: usize,
    pub chat_history: Seq<Seq<char>>,
    pub history_index: Option<usize>,
    pub chat_scroll: usize,
    pub chat_active: bool,
    pub chat_open: bool,
    pub form: FormView,
    pub form_field: usize,
    pub templates: Seq<Seq<char>>,
}

impl DeepView for App {
    type V = AppView;

    open spec fn deep_view(&self) -> AppView {
        AppView {
            should_quit: self.should_quit,
            status: self.status@,
            status_error: self.status_error,
            modal: self.modal,
            needs_refresh: self.needs_refresh,
            tick: self.tick,
            cwd: self.cwd@,
            instances: self.instances.deep_view(),
            instance_selected: self.instance_selected,
            instance_id: self.instance_id@,
            instance_model: self.instance_model@,
            consumed_tokens: self.consumed_tokens,
            sessions: self.sessions.deep_view(),
            session_selected: self.session_selected,
            session_id: self.session_id@,
            chat_lines: self.chat_lines.deep_view(),
            chat_input: self.chat_input@,
            input_cursor: self.input_cursor,
            chat_history: self.chat_history.deep_view(),
            history_index: self.history_index,
            chat_scroll: self.chat_scroll,
            chat_active: self.chat_active,
            chat_open: self.chat_open,
            form: self.form.deep_view(),
            form_field: self.form_field,
            templates: self.templates.deep_view(),
        }
    }
}

/// Where the last line of the model stands.
pub open spec fn last_answer(lines: Seq<ChatLineView>) -> Option<int>
    decreases lines.len(),
{
    if lines.len() == 0 {
        None
    } else if lines.last().role == ChatRole::Assistant {
        Some(lines.len() - 1)
    } else {
        last_answer(lines.drop_last())
    }
}

/// The lines with more of the model's answer: behind its last line, where it
/// stands at the end, else in a new one.
pub open spec fn with_delta(
    lines: Seq<ChatLineView>,
    content: Seq<char>,
    reasoning: Seq<char>,
) -> Seq<ChatLineView> {
    let open = if lines.len() > 0 && lines.last().role == ChatRole::Assistant {
        lines
    } else {
        lines.push(ChatLineView::plain(ChatRole::Assistant, Seq::empty()))
    };
    open.drop_last().push(
        ChatLineView {
            text: open.last().text + content,
            reasoning: open.last().reasoning + reasoning,
            ..open.last()
        },
    )
}

/// The first eight characters, or all.
pub open spec fn shortened(s: Seq<char>) -> Seq<char> {
    if s.len() <= 8 {
        s
    } else {
        s.take(8)
    }
}

/// The first eight characters, or all.
pub fn short_id(s: &str) -> (r: String)
    ensures
        r@ == shortened(s@),
{
    let t = take_chars(s, 8);
    proof {
        if s@.len() <= 8 {
            assert(s@.take(s@.len() as int) =~= s@);
        }
    }
    t
}

impl AppView {
    /// The place in the history is there, and the field of the form is one.
    pub open spec fn wf(self) -> bool {
        &&& self.history_index matches Some(i) ==> i < self.chat_history.len()
        &&& self.form_field < FORM_FIELDS
    }

    /// The client with a status.
    pub open spec fn saying(self, text: Seq<char>, error: bool) -> AppView {
        AppView { status: text, status_error: error, ..self }
    }

    /// The client with a notice in the conversation.
    pub open spec fn noting(self, text: Seq<char>) -> AppView {
        AppView {
            chat_lines: self.chat_lines.push(ChatLineView::plain(ChatRole::System, text)),
            chat_scroll: 0,
            ..self
        }
    }

    /// The client with an empty conversation.
    pub open spec fn cleared(self) -> AppView {
        AppView {
            chat_lines: Seq::empty(),
            chat_active: false,
            chat_open: false,
            chat_scroll: 0,
            ..self
        }
    }

    /// The client in a session that there was before.
    pub open spec fn resumed(self, i: int) -> AppView {
        if 0 <= i < self.sessions.len() {
            let s = self.sessions[i];
            let here = AppView {
                session_id: s.id,
                session_selected: i as usize,
                ..self.cleared()
            };
            if s.messages > 0 {
                here.noting(
                    "已恢复会话 "@ + shortened(s.id) + "（"@ + decimal(s.messages as nat)
                        + " 条消息）"@,
                )
            } else {
                here
            }
        } else {
            self
        }
    }

    /// The client after something came from the conversation.
    pub open spec fn after(self, ev: ChatEventView) -> AppView {
        match ev {
            ChatEventView::Delta(content, reasoning) => AppView {
                chat_lines: with_delta(self.chat_lines, content, reasoning),
                chat_scroll: 0,
                ..self
            },
            ChatEventView::Finish(reason) => AppView {
                chat_active: false,
                chat_open: false,
                needs_refresh: true,
                ..self.saying("完成 ("@ + reason + ")"@, false)
            },
            ChatEventView::Error(message) => AppView {
                chat_active: false,
                chat_open: false,
                ..self.saying("对话错误: "@ + message, true)
            },
        }
    }

    /// The client after all that came from the conversation.
    pub open spec fn after_all(self, events: Seq<ChatEventView>) -> AppView
        decreases events.len(),
    {
        if events.len() == 0 {
            self
        } else {
            self.after_all(events.drop_last()).after(events.last())
        }
    }

    /// The client with the history entry of a number in its line.
    pub open spec fn showing(self, i: int) -> AppView {
        AppView {
            history_index: Some(i as usize),
            chat_input: self.chat_history[i],
            input_cursor: self.chat_history[i].len() as usize,
            ..self
        }
    }

    /// The client with the entry before in its line; from the first on it is the
    /// last.
    pub open spec fn earlier(self) -> AppView {
        if self.chat_history.len() == 0 {
            self
        } else {
            match self.history_index {
                Some(i) if i > 0 => self.showing(i - 1),
                _ => self.showing(self.chat_history.len() - 1),
            }
        }
    }

    /// The client with the entry behind in its line; behind the last it is empty.
    pub open spec fn later(self) -> AppView {
        match self.history_index {
            None => self,
            Some(i) => if i + 1 < self.chat_history.len() {
                self.showing(i + 1)
            } else {
                AppView {
                    history_index: None,
                    chat_input: Seq::empty(),
                    input_cursor: 0,
                    ..self
                }
            },
        }
    }

    /// The client with a line in its history, once.
    pub open spec fn remembering(self, text: Seq<char>) -> AppView {
        AppView {
            chat_history: if self.chat_history.contains(text) {
                self.chat_history
            } else {
                self.chat_history.push(text)
            },
            history_index: None,
            ..self
        }
    }
}

/// The greatest place that a list has, or the one given.
pub open spec fn at_most(i: int, len: int) -> int {
    if len == 0 {
        0
    } else if i < len {
        i
    } else {
        len - 1
    }
}

impl App {
    /// The client as it starts. The directory where it works is the one that new
    /// instances are given. The templates come ready made, beside the one that every
    /// client knows.
    pub fn new(
        default_root: Option<String>,
        current_dir: Option<String>,
        templates: Vec<String>,
    ) -> (r: App)
        ensures
            r.deep_view().wf(),
            r.deep_view() == (AppView {
                should_quit: false,
                status: "连接 daemon…"@,
                status_error: false,
                modal: None,
                needs_refresh: false,
                tick: 0,
                cwd: match (default_root, current_dir) {
                    (Some(d), _) => d@,
                    (None, Some(d)) => d@,
                    (None, None) => Seq::empty(),
                },
                instances: Seq::empty(),
                instance_selected: 0,
                instance_id: Seq::empty(),
                instance_model: Seq::empty(),
                consumed_tokens: 0,
                sessions: Seq::empty(),
                session_selected: 0,
                session_id: Seq::empty(),
                chat_lines: Seq::empty(),
                chat_input: Seq::empty(),
                input_cursor: 0,
                chat_history: Seq::empty(),
                history_index: None,
                chat_scroll: 0,
                chat_active: false,
                chat_open: false,
                form: match default_root {
                    Some(d) => FormView { root: d@, ..FormView::empty() },
                    None => FormView::empty(),
                },
                form_field: 0,
                templates: seq!["deepseek"@] + templates.deep_view(),
            }),
    {
        let cwd = match &default_root {
            Some(d) => d.clone(),
            None => match current_dir {
                Some(d) => d,
                None => String::new(),
            },
        };
        let mut form = CreateForm::default();
        if let Some(d) = default_root {
            form.root = d;
        }
        let ghost more = templates.deep_view();
        let mut more_templates = templates;
        let mut known: Vec<String> = vec!["deepseek".to_owned()];
        known.append(&mut more_templates);
        let app = App {
            should_quit: false,
            status: "连接 daemon…".to_owned(),
            status_error: false,
            modal: None,
            needs_refresh: false,
            tick: 0,
            cwd,
            instances: Vec::new(),
            instance_selected: 0,
            instance_id: String::new(),
            instance_model: String::new(),
            consumed_tokens: 0,
            sessions: Vec::new(),
            session_selected: 0,
            session_id: String::new(),
            chat_lines: Vec::new(),
            chat_input: String::new(),
            input_cursor: 0,
            chat_history: Vec::new(),
            history_index: None,
            chat_scroll: 0,
            chat_active: false,
            chat_open: false,
            form,
            form_field: 0,
            templates: known,
        };
        proof {
            let v = app.deep_view();
            assert(v.instances =~= Seq::empty());
            assert(v.instance_id =~= Seq::empty());
            assert(v.instance_model =~= Seq::empty());
            assert(v.sessions =~= Seq::empty());
            assert(v.session_id =~= Seq::empty());
            assert(v.chat_lines =~= Seq::empty());
            assert(v.chat_input =~= Seq::empty());
            assert(v.chat_history =~= Seq::empty());
            assert(v.templates =~= seq!["deepseek"@] + more);
            if default_root is None && current_dir is None {
                assert(v.cwd =~= Seq::empty());
            }
        }
        app
    }

    pub fn select_next_instance(&mut self)
        ensures
            final(self).deep_view() == (AppView {
                instance_selected: if old(self).deep_view().instances.len() == 0 {
                    old(self).deep_view().instance_selected
                } else {
                    at_most(
                        old(self).deep_view().instance_selected + 1,
                        old(self).deep_view().instances.len() as int,
                    ) as usize
                },
                ..old(self).deep_view()
            }),
    {
        let n: usize = self.instances.len();
        if n > 0 {
            self.instance_selected = if self.instance_selected < n - 1 {
                self.instance_selected + 1
            } else {
                n - 1
            };
        }
    }

    pub fn select_prev_instance(&mut self)
        ensures
            final(self).deep_view() == (AppView {
                instance_selected: if old(self).deep_view().instance_selected > 0 {
                    (old(self).deep_view().instance_selected - 1) as usize
                } else {
                    0
                },
                ..old(self).deep_view()
            }),
    {
        self.instance_selected = self.instance_selected.saturating_sub(1);
    }

    pub fn select_next_session(&mut self)
        ensures
            final(self).deep_view() == (AppView {
                session_selected: if old(self).deep_view().sessions.len() == 0 {
                    old(self).deep_view().session_selected
                } else {
                    at_most(
                        old(self).deep_view().session_selected + 1,
                        old(self).deep_view().sessions.len() as int,
                    ) as usize
                },
                ..old(self).deep_view()
            }),
    {
        let n: usize = self.sessions.len();
        if n > 0 {
            self.session_selected = if self.session_selected < n - 1 {
                self.session_selected + 1
            } else {
                n - 1
            };
        }
    }

    pub fn select_prev_session(&mut self)
        ensures
            final(self).deep_view() == (AppView {
                session_selected: if old(self).deep_view().session_selected > 0 {
                    (old(self).deep_view().session_selected - 1) as usize
                } else {
                    0
                },
                ..old(self).deep_view()
            }),
    {
        self.session_selected = self.session_selected.saturating_sub(1);
    }

    /// Sets what the status line says.
    pub fn set_status(&mut self, text: String, error: bool)
        ensures
            final(self).deep_view() == old(self).deep_view().saying(text@, error),
    {
        self.status = text;
        self.status_error = error;
    }

    /// Puts a notice into the conversation.
    pub fn push_system(&mut self, msg: &str)
        ensures
            final(self).deep_view() == old(self).deep_view().noting(msg@),
    {
        let ghost before = self.chat_lines.deep_view();
        let line = ChatLine::system(msg);
        self.chat_lines.push(line);
        proof {
            assert(self.chat_lines.deep_view() =~= before.push(line.deep_view()));
        }
        self.chat_scroll = 0;
    }

    /// Shows or hides the thoughts behind the last answer.
    pub fn toggle_thinking(&mut self)
        ensures
            final(self).deep_view() == (AppView {
                chat_lines: match last_answer(old(self).deep_view().chat_lines) {
                    Some(i) => old(self).deep_view().chat_lines.update(
                        i,
                        ChatLineView {
                            show_thinking: !old(self).deep_view().chat_lines[i].show_thinking,
                            ..old(self).deep_view().chat_lines[i]
                        },
                    ),
                    None => old(self).deep_view().chat_lines,
                },
                ..old(self).deep_view()
            }),
    {
        let ghost start = self.deep_view();
        let ghost all = start.chat_lines;
        let mut i: usize = self.chat_lines.len();
        proof {
            assert(all.take(all.len() as int) =~= all);
        }
        while i > 0
            invariant
                start == old(self).deep_view(),
                all == start.chat_lines,
                self.deep_view() == start,
                i <= all.len(),
                last_answer(all) == last_answer(all.take(i as int)),
            decreases i,
        {
            proof {
                assert(all.take(i as int).last() == all[i - 1]);
                assert(all.take(i as int).drop_last() =~= all.take(i - 1));
            }
            if self.chat_lines[i - 1].role == ChatRole::Assistant {
                let line = &mut self.chat_lines[i - 1];
                line.show_thinking = !line.show_thinking;
                proof {
                    assert(self.chat_lines.deep_view() =~= all.update(
                        i - 1,
                        ChatLineView {
                            show_thinking: !all[i - 1].show_thinking,
                            ..all[i - 1]
                        },
                    ));
                }
                return;
            }
            i = i - 1;
        }
    }

    /// Empties the conversation.
    pub fn clear_chat(&mut self)
        ensures
            final(self).deep_view() == old(self).deep_view().cleared(),
    {
        self.chat_lines.clear();
        self.chat_active = false;
        self.chat_open = false;
        self.chat_scroll = 0;
        proof {
            assert(self.chat_lines.deep_view() =~= Seq::empty());
        }
    }

    /// Goes on in a session that there was before.
    pub fn resume_session(&mut self, idx: usize)
        ensures
            final(self).deep_view() == old(self).deep_view().resumed(idx as int),
    {
        if idx >= self.sessions.len() {
            return;
        }
        let id = self.sessions[idx].id.clone();
        let messages: usize = self.sessions[idx].messages;
        let short = short_id(id.as_str());
        self.session_id = id;
        self.session_selected = idx;
        self.clear_chat();
        if messages > 0 {
            let mut t = joined("已恢复会话 ", short.as_str());
            t.append("（");
            t.append(decimal_text(messages as u64).as_str());
            t.append(" 条消息）");
            self.push_system(t.as_str());
        }
    }

    /// Begins a new session with the next message.
    pub fn start_new_session(&mut self)
        ensures
            final(self).deep_view() == (AppView {
                session_id: Seq::empty(),
                ..old(self).deep_view()
            }).cleared().noting("已开始新会话"@),
    {
        self.session_id = String::new();
        proof {
            assert(self.session_id@ =~= Seq::empty());
        }
        self.clear_chat();
        self.push_system("已开始新会话");
    }

    /// Remembers a line that was entered, once.
    pub fn history_save(&mut self, text: &str)
        ensures
            final(self).deep_view() == old(self).deep_view().remembering(text@),
    {
        let ghost all = self.chat_history.deep_view();
        let mut known = false;
        let mut i: usize = 0;
        while i < self.chat_history.len() && !known
            invariant
                all == self.chat_history.deep_view(),
                i <= all.len(),
                known ==> all.contains(text@),
                !known ==> forall|j: int| 0 <= j < i ==> #[trigger] all[j] != text@,
                self.deep_view() == old(self).deep_view(),
            decreases all.len() - i + (if known {
                0int
            } else {
                1
            }),
        {
            if same(self.chat_history[i].as_str(), text) {
                proof {
                    assert(all[i as int] == text@);
                }
                known = true;
            } else {
                i = i + 1;
            }
        }
        if !known {
            self.chat_history.push(text.to_owned());
            proof {
                assert(self.chat_history.deep_view() =~= all.push(text@));
            }
        }
        self.history_index = None;
    }

    /// Shows the history entry of a number.
    fn show_entry(&mut self, i: usize)
        requires
            i < old(self).deep_view().chat_history.len(),
        ensures
            final(self).deep_view() == old(self).deep_view().showing(i as int),
    {
        let text = self.chat_history[i].clone();
        let n: usize = text.as_str().unicode_len();
        self.history_index = Some(i);
        self.chat_input = text;
        self.input_cursor = n;
    }

    /// Shows the history entry before.
    pub fn history_prev(&mut self)
        requires
            old(self).deep_view().wf(),
        ensures
            final(self).deep_view() == old(self).deep_view().earlier(),
            final(self).deep_view().wf(),
    {
        let n: usize = self.chat_history.len();
        if n == 0 {
            return;
        }
        match self.history_index {
            Some(i) if i > 0 => self.show_entry(i - 1),
            _ => self.show_entry(n - 1),
        }
    }

    /// Shows the history entry behind, or an empty line.
    pub fn history_next(&mut self)
        requires
            old(self).deep_view().wf(),
        ensures
            final(self).deep_view() == old(self).deep_view().later(),
            final(self).deep_view().wf(),
    {
        if let Some(i) = self.history_index {
            let n: usize = self.chat_history.len();
            if n > 0 && i < n - 1 {
                self.show_entry(i + 1);
            } else {
                self.history_index = None;
                self.chat_input = String::new();
                self.input_cursor = 0;
                proof {
                    assert(self.chat_input@ =~= Seq::empty());
                }
            }
        }
    }

    /// Leaves the history.
    pub fn history_reset(&mut self)
        ensures
            final(self).deep_view() == (AppView {
                history_index: None,
                ..old(self).deep_view()
            }),
    {
        self.history_index = None;
    }

    pub fn chat_scroll_prev(&mut self)
        ensures
            final(self).deep_view() == (AppView {
                chat_scroll: if old(self).chat_scroll + 5 <= usize::MAX {
                    (old(self).chat_scroll + 5) as usize
                } else {
                    usize::MAX
                },
                ..old(self).deep_view()
            }),
    {
        self.chat_scroll = self.chat_scroll.saturating_add(5);
    }

    pub fn chat_scroll_next(&mut self)
        ensures
            final(self).deep_view() == (AppView {
                chat_scroll: if old(self).chat_scroll >= 5 {
                    (old(self).chat_scroll - 5) as usize
                } else {
                    0
                },
                ..old(self).deep_view()
            }),
    {
        self.chat_scroll = self.chat_scroll.saturating_sub(5);
    }

    /// The specification that the form makes.
    pub fn build_spec(&self) -> (r: Json)
        ensures
            r.deep_view() == spec_json(self.deep_view().form, self.deep_view().templates),
    {
        let id = trim_text(self.form.id.as_str());
        let agent_id = if id.as_str().is_empty() {
            Json::text("general")
        } else {
            Json::text(id.as_str())
        };
        let template = trim_text(self.form.template.as_str());
        let agent = make3(
            "id",
            agent_id,
            "description",
            Json::text(self.form.description.as_str()),
            "model",
            Json::text(self.form.model.as_str()),
        ).plus("template", template_of(template.as_str(), &self.templates)).plus("tools", empty_list()).plus(
            "skills",
            empty_list(),
        ).plus("mcp_servers", empty_list()).plus("params", Json::object());
        let root = trim_text(self.form.root.as_str());
        let tools = make2(
            "fs",
            make3(
                "root",
                json_or_null(root.as_str()),
                "max_file_bytes",
                Json::unsigned(1_048_576),
                "default_limit_chars",
                Json::unsigned(3000),
            ),
            "artifact",
            Json::Bool(false),
        );
        let provider = trim_text(self.form.provider.as_str());
        make3("id", json_or_null(id.as_str()), "agent", agent, "tools", tools).plus(
            "provider",
            provider_of(provider.as_str(), self.form.api_key.as_str()),
        )
    }

    /// Takes something that came from the conversation.
    pub fn apply_chat_event(&mut self, ev: ChatEvent)
        ensures
            final(self).deep_view() == old(self).deep_view().after(ev.deep_view()),
    {
        match ev {
            ChatEvent::Delta { content, reasoning } => {
                let ghost before = self.chat_lines.deep_view();
                let n: usize = self.chat_lines.len();
                if n == 0 || self.chat_lines[n - 1].role != ChatRole::Assistant {
                    let line = ChatLine::assistant("");
                    proof {
                        reveal_strlit("");
                        assert(""@ =~= Seq::empty());
                    }
                    self.chat_lines.push(line);
                    proof {
                        assert(self.chat_lines.deep_view() =~= before.push(line.deep_view()));
                    }
                }
                let ghost open = self.chat_lines.deep_view();
                let last: usize = self.chat_lines.len() - 1;
                let line = &mut self.chat_lines[last];
                line.text.append(content.as_str());
                line.reasoning.append(reasoning.as_str());
                proof {
                    assert(self.chat_lines.deep_view() =~= open.drop_last().push(
                        ChatLineView {
                            text: open.last().text + content@,
                            reasoning: open.last().reasoning + reasoning@,
                            ..open.last()
                        },
                    ));
                }
                self.chat_scroll = 0;
            },
            ChatEvent::Finish { reason } => {
                self.chat_active = false;
                self.chat_open = false;
                self.needs_refresh = true;
                let mut t = joined("完成 (", reason.as_str());
                t.append(")");
                self.set_status(t, false);
            },
            ChatEvent::Error { message } => {
                self.chat_active = false;
                self.chat_open = false;
                self.set_status(joined("对话错误: ", message.as_str()), true);
            },
        }
    }

    /// Takes all that came from the conversation, and notices where it broke off
    /// without an end.
    pub fn poll_chat(&mut self, events: Vec<ChatEvent>, disconnected: bool)
        ensures
            ({
                let a = old(self).deep_view().after_all(events.deep_view());
                final(self).deep_view() == (if disconnected && a.chat_open {
                    (AppView {
                        chat_active: false,
                        chat_open: false,
                        ..a.saying("对话连接已断开"@, true)
                    })
                } else {
                    a
                })
            }),
    {
        let ghost start = self.deep_view();
        let ghost all = events.deep_view();
        let ghost kept = events@;
        let mut rest = events;
        let n: usize = rest.len();
        let mut i: usize = 0;
        proof {
            assert(all.take(0) =~= Seq::empty());
            assert(kept.skip(0) =~= kept);
        }
        while i < n
            invariant
                i <= n,
                n == kept.len(),
                all == kept.map_values(|e: ChatEvent| e.deep_view()),
                rest@ == kept.skip(i as int),
                self.deep_view() == start.after_all(all.take(i as int)),
            decreases n - i,
        {
            let ev = rest.remove(0);
            proof {
                assert(ev == kept[i as int]);
                assert(rest@ =~= kept.skip(i + 1));
                assert(all.take(i + 1).drop_last() =~= all.take(i as int));
                assert(all.take(i + 1).last() == all[i as int]);
            }
            self.apply_chat_event(ev);
            i = i + 1;
        }
        proof {
            assert(all.take(all.len() as int) =~= all);
        }
        if disconnected && self.chat_open {
            self.set_status("对话连接已断开".to_owned(), true);
            self.chat_active = false;
            self.chat_open = false;
        }
    }
}

// ---------------------------------------------------------------------------
// Laws

/// Whatever comes from the conversation or from the history, the place in the history
/// is there.
pub proof fn law_client_stays_in_order(a: AppView, ev: ChatEventView, i: int, text: Seq<char>)
    requires
        a.wf(),
    ensures
        a.after(ev).wf(),
        a.resumed(i).wf(),
        a.remembering(text).wf(),
{
}

/// Going back in the history and forward again shows what was shown.
pub proof fn law_history_goes_back_and_forth(a: AppView)
    requires
        a.wf(),
        a.history_index matches Some(i) && i > 0 && a.chat_input == a.chat_history[i as int]
            && a.input_cursor == a.chat_history[i as int].len(),
        forall|j: int|
            0 <= j < a.chat_history.len() ==> (#[trigger] a.chat_history[j]).len() <= usize::MAX,
    ensures
        a.earlier().later() == a,
{
}

/// A line that was entered is remembered once, however often it is entered.
pub proof fn law_history_has_no_doubles(a: AppView, text: Seq<char>)
    requires
        a.chat_history.no_duplicates(),
    ensures
        a.remembering(text).chat_history.no_duplicates(),
        a.remembering(text).chat_history.contains(text),
        a.remembering(text).remembering(text) == a.remembering(text),
{
    let after = a.remembering(text).chat_history;
    if !a.chat_history.contains(text) {
        assert(after[a.chat_history.len() as int] == text);
        assert forall|i: int, j: int| 0 <= i < after.len() && 0 <= j < after.len() && i
            != j implies after[i] != after[j] by {
            if i < a.chat_history.len() && j < a.chat_history.len() {
                assert(a.chat_history[i] != a.chat_history[j]);
            } else if i < a.chat_history.len() {
                assert(a.chat_history.contains(a.chat_history[i]));
            } else {
                assert(a.chat_history.contains(a.chat_history[j]));
            }
        }
    }
}

/// An answer that comes in pieces is shown as a whole.
pub proof fn law_pieces_join(
    a: AppView,
    c1: Seq<char>,
    r1: Seq<char>,
    c2: Seq<char>,
    r2: Seq<char>,
)
    ensures
        a.after(ChatEventView::Delta(c1, r1)).after(ChatEventView::Delta(c2, r2)) == a.after(
            ChatEventView::Delta(c1 + c2, r1 + r2),
        ),
{
    let once = with_delta(a.chat_lines, c1, r1);
    let both = with_delta(a.chat_lines, c1 + c2, r1 + r2);
    let twice = with_delta(once, c2, r2);
    assert(once.drop_last() =~= both.drop_last());
    assert(twice.last().text =~= both.last().text);
    assert(twice.last().reasoning =~= both.last().reasoning);
    assert(twice =~= both);
}

} // verus!
