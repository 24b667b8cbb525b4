//! What a key press does, and what follows from what the daemon answers.

use vstd::prelude::*;
use vstd::string::*;

use crate::aura::protocol::{InstanceInfo, InstanceInfoView, SessionInfo, SessionInfoView};
use crate::aura::tui::app::{
    at_most, App, AppView, ChatLine, ChatLineView, ChatRole, CreateForm, FormView, Modal,
    FORM_FIELDS,
};
use crate::aura::tui::edit::{
    delete_word, edit_text, editable, edited, is_editable, word_start, Key,
};
use crate::json::{Json, JsonView};
use crate::provider::joined;
use crate::provider::openai_compat::{make3, object3};
use crate::session::message::{id_text, is_random, SessionId};
use crate::text::{
    chars_of, is_space, is_white, same, string_of, trim, trim_start, trim_start_text, trim_text,
};

verus! {

broadcast use vstd::string::group_string_axioms;

/// What is to be asked of the daemon after a key press.
#[derive(Debug)]
pub enum Request {
    Nothing,
    /// Interrupt the session.
    Interrupt,
    /// List the instances, to switch.
    Instances,
    /// List the sessions, to switch.
    Sessions,
    /// List the sessions of an instance that was just chosen.
    Attach,
    /// Make an instance.
    Create(Json),
    /// Say something.
    Chat(String),
}

pub enum RequestView {
    Nothing,
    Interrupt,
    Instances,
    Sessions,
    Attach,
    Create(JsonView),
    Chat(Seq<char>),
}

impl DeepView for Request {
    type V = RequestView;

    open spec fn deep_view(&self) -> RequestView {
        match *self {
            Request::Nothing => RequestView::Nothing,
            Request::Interrupt => RequestView::Interrupt,
            Request::Instances => RequestView::Instances,
            Request::Sessions => RequestView::Sessions,
            Request::Attach => RequestView::Attach,
            Request::Create(j) => RequestView::Create(j.deep_view()),
            Request::Chat(s) => RequestView::Chat(s@),
        }
    }
}

/// The first word of a text that does not begin with space.
pub open spec fn first_word(s: Seq<char>) -> Seq<char>
    decreases s.len(),
{
    if s.len() == 0 || is_space(s[0]) {
        Seq::empty()
    } else {
        seq![s[0]] + first_word(s.drop_first())
    }
}

proof fn lemma_first_word(s: Seq<char>, n: int)
    requires
        0 <= n <= s.len(),
        forall|i: int| 0 <= i < n ==> !is_space(#[trigger] s[i]),
        n < s.len() ==> is_space(s[n]),
    ensures
        first_word(s) == s.take(n),
    decreases n,
{
    if n > 0 {
        let rest = s.drop_first();
        assert forall|i: int| 0 <= i < n - 1 implies !is_space(#[trigger] rest[i]) by {
            assert(rest[i] == s[i + 1]);
        }
        lemma_first_word(rest, n - 1);
        assert(s.take(n) =~= seq![s[0]] + rest.take(n - 1));
    } else {
        assert(s.take(0) =~= Seq::empty());
    }
}

/// The first word of a text that does not begin with space.
pub fn first_word_of(s: &str) -> (r: String)
    ensures
        r@ == first_word(s@),
{
    let chars = chars_of(s);
    let mut n: usize = 0;
    while n < chars.len() && !is_white(chars[n])
        invariant
            n <= chars@.len(),
            chars@ == s@,
            forall|i: int| 0 <= i < n ==> !is_space(#[trigger] s@[i]),
        decreases chars@.len() - n,
    {
        n = n + 1;
    }
    proof {
        lemma_first_word(s@, n as int);
        assert(chars@.subrange(0, n as int) =~= s@.take(n as int));
    }
    string_of(&chars, 0, n)
}

/// The name of a command: its first word, or all of it where it has none.
pub open spec fn name_of(cmd: Seq<char>) -> Seq<char> {
    if trim_start(cmd).len() == 0 {
        cmd
    } else {
        first_word(trim_start(cmd))
    }
}

/// The name of a command.
pub fn command_name(cmd: &str) -> (r: String)
    ensures
        r@ == name_of(cmd@),
{
    let text = trim_start_text(cmd);
    if text.as_str().is_empty() {
        cmd.to_owned()
    } else {
        first_word_of(text.as_str())
    }
}

/// The place of the session with the most messages; the last of them, where
/// there are several.
pub open spec fn busiest(sessions: Seq<SessionInfoView>) -> Option<int>
    decreases sessions.len(),
{
    if sessions.len() == 0 {
        None
    } else {
        match busiest(sessions.drop_last()) {
            Some(i) if sessions[i].messages > sessions.last().messages => Some(i),
            _ => Some(sessions.len() - 1),
        }
    }
}

/// The place of the instance of a name.
pub open spec fn place_of(instances: Seq<InstanceInfoView>, id: Seq<char>) -> Option<int>
    decreases instances.len(),
{
    if instances.len() == 0 {
        None
    } else if instances[0].id == id {
        Some(0)
    } else {
        match place_of(instances.drop_first(), id) {
            Some(i) => Some(i + 1),
            None => None,
        }
    }
}

impl AppView {
    /// The session in which something is said: the one there is, or a new one.
    pub open spec fn session_for(self, new_id: Seq<char>) -> Seq<char> {
        if self.session_id.len() == 0 {
            new_id
        } else {
            self.session_id
        }
    }

    /// The client that says something and waits for the answer.
    pub open spec fn said(self, message: Seq<char>, new_id: Seq<char>) -> AppView {
        AppView {
            session_id: self.session_for(new_id),
            chat_lines: self.chat_lines.push(ChatLineView::plain(ChatRole::User, message)).push(
                ChatLineView::plain(ChatRole::Assistant, ""@),
            ),
            chat_scroll: 0,
            ..self
        }
    }

    /// What the daemon is asked when something is said.
    pub open spec fn chat_request(self, message: Seq<char>, new_id: Seq<char>) -> JsonView {
        object3(
            "id"@,
            JsonView::Text(self.instance_id),
            "session_id"@,
            JsonView::Text(self.session_for(new_id)),
            "message"@,
            JsonView::Text(message),
        ).plus("stream"@, JsonView::Bool(true))
    }

    /// The client with an empty line.
    pub open spec fn emptied(self) -> AppView {
        AppView { chat_input: Seq::empty(), input_cursor: 0, history_index: None, ..self }
    }

    /// What comes of a command.
    pub open spec fn commanded(self, cmd: Seq<char>) -> (AppView, RequestView) {
        let name = name_of(cmd);
        if name == "/help"@ {
            (AppView { modal: Some(Modal::Help), ..self }, RequestView::Nothing)
        } else if name == "/new"@ {
            (
                AppView {
                    form: FormView::empty(),
                    form_field: 0,
                    modal: Some(Modal::New),
                    ..self
                },
                RequestView::Nothing,
            )
        } else if name == "/list"@ {
            (self, RequestView::Instances)
        } else if name == "/sessions"@ {
            if self.instance_id.len() == 0 {
                (self.saying("无实例 — /new 创建"@, true), RequestView::Nothing)
            } else {
                (self, RequestView::Sessions)
            }
        } else if name == "/clear"@ {
            (
                (AppView { chat_lines: Seq::empty(), chat_scroll: 0, ..self }).saying(
                    "已清空对话"@,
                    false,
                ),
                RequestView::Nothing,
            )
        } else if name == "/quit"@ {
            (AppView { should_quit: true, ..self }, RequestView::Nothing)
        } else {
            (
                self.saying("未知命令 "@ + name + " — /help 查看帮助"@, true),
                RequestView::Nothing,
            )
        }
    }

    /// What comes of entering the line.
    pub open spec fn submitted(self) -> (AppView, RequestView) {
        let text = trim(self.chat_input);
        if self.chat_active {
            (self.saying("正在生成…（Esc 中断）"@, false), RequestView::Nothing)
        } else if text.len() == 0 {
            (self, RequestView::Nothing)
        } else {
            let kept = AppView {
                chat_input: Seq::empty(),
                input_cursor: 0,
                ..self.remembering(text)
            };
            if text[0] == '/' {
                kept.commanded(text)
            } else if self.instance_id.len() == 0 {
                (kept.saying("无实例 — /new 创建"@, true), RequestView::Nothing)
            } else {
                (kept, RequestView::Chat(text))
            }
        }
    }

    /// Whether a key can be pressed. A key that edits the line needs the cursor
    /// between characters, and the one that deletes a word needs it in the line.
    pub open spec fn takes(self, key: Key, ctrl: bool) -> bool {
        if self.modal is Some || key == Key::Enter || (ctrl && (key == Key::Char('c') || key
            == Key::Char('d') || key == Key::Char('u') || key == Key::Char('t'))) {
            true
        } else if ctrl && key == Key::Char('w') {
            self.input_cursor <= self.chat_input.len()
        } else {
            editable(self.chat_input, self.input_cursor as int, key)
        }
    }

    /// What comes of a key while nothing lies over the conversation.
    pub open spec fn pressed(self, key: Key, ctrl: bool) -> (AppView, RequestView) {
        if ctrl && (key == Key::Char('c') || key == Key::Char('d')) {
            (AppView { should_quit: true, ..self }, RequestView::Nothing)
        } else if key == Key::Esc {
            if !self.chat_active {
                (self.emptied(), RequestView::Nothing)
            } else if self.session_id.len() == 0 {
                (self.saying("当前无会话"@, false), RequestView::Nothing)
            } else {
                (self, RequestView::Interrupt)
            }
        } else if key == Key::Enter {
            self.submitted()
        } else if ctrl && key == Key::Char('u') {
            (self.emptied(), RequestView::Nothing)
        } else if ctrl && key == Key::Char('w') {
            let at = word_start(self.chat_input, self.input_cursor as int);
            (
                AppView {
                    chat_input: self.chat_input.take(at) + self.chat_input.skip(
                        self.input_cursor as int,
                    ),
                    input_cursor: at as usize,
                    ..self
                },
                RequestView::Nothing,
            )
        } else if ctrl && key == Key::Char('t') {
            (self.toggled(), RequestView::Nothing)
        } else if key == Key::Up {
            (self.earlier(), RequestView::Nothing)
        } else if key == Key::Down {
            (self.later(), RequestView::Nothing)
        } else if key == Key::PageUp {
            (
                AppView {
                    chat_scroll: if self.chat_scroll + 5 <= usize::MAX {
                        (self.chat_scroll + 5) as usize
                    } else {
                        usize::MAX
                    },
                    ..self
                },
                RequestView::Nothing,
            )
        } else if key == Key::PageDown {
            (
                AppView {
                    chat_scroll: if self.chat_scroll >= 5 {
                        (self.chat_scroll - 5) as usize
                    } else {
                        0
                    },
                    ..self
                },
                RequestView::Nothing,
            )
        } else {
            let (line, at) = edited(self.chat_input, self.input_cursor as int, key);
            (
                AppView {
                    chat_input: line,
                    input_cursor: at as usize,
                    history_index: None,
                    ..self
                },
                RequestView::Nothing,
            )
        }
    }

    /// The client with the thoughts behind the last answer shown or hidden.
    pub open spec fn toggled(self) -> AppView {
        AppView {
            chat_lines: match crate::aura::tui::app::last_answer(self.chat_lines) {
                Some(i) => self.chat_lines.update(
                    i,
                    ChatLineView {
                        show_thinking: !self.chat_lines[i].show_thinking,
                        ..self.chat_lines[i]
                    },
                ),
                None => self.chat_lines,
            },
            ..self
        }
    }

    /// The client at an instance that was chosen, before its sessions are known.
    pub open spec fn attaching(self, i: int) -> AppView {
        let info = self.instances[i];
        AppView {
            instance_id: info.id,
            instance_model: info.model,
            consumed_tokens: info.consumed_tokens,
            session_id: Seq::empty(),
            sessions: Seq::empty(),
            session_selected: 0,
            ..self.cleared()
        }
    }

    /// The client at an instance once its sessions are known: it goes on in the
    /// one with the most messages.
    pub open spec fn attached(self) -> AppView {
        let there = match busiest(self.sessions) {
            Some(i) => self.resumed(i),
            None => self.noting(
                "已连接实例 "@ + self.instance_id + " — 输入消息开始新会话"@,
            ),
        };
        there.saying("✦ "@ + there.instance_id, false)
    }

    /// What comes of a key while something lies over the conversation.
    pub open spec fn pressed_over(self, modal: Modal, key: Key) -> (AppView, RequestView) {
        let closed = AppView { modal: None, ..self };
        match modal {
            Modal::Switch => if key == Key::Up {
                (
                    AppView {
                        instance_selected: if self.instance_selected > 0 {
                            (self.instance_selected - 1) as usize
                        } else {
                            0
                        },
                        ..self
                    },
                    RequestView::Nothing,
                )
            } else if key == Key::Down {
                (
                    AppView {
                        instance_selected: if self.instances.len() == 0 {
                            self.instance_selected
                        } else {
                            at_most(
                                self.instance_selected + 1,
                                self.instances.len() as int,
                            ) as usize
                        },
                        ..self
                    },
                    RequestView::Nothing,
                )
            } else if key == Key::Enter {
                if self.instances.len() == 0 {
                    (self, RequestView::Nothing)
                } else if self.instance_selected < self.instances.len() {
                    (closed.attaching(self.instance_selected as int), RequestView::Attach)
                } else {
                    (closed, RequestView::Nothing)
                }
            } else if key == Key::Esc {
                (closed, RequestView::Nothing)
            } else {
                (self, RequestView::Nothing)
            },
            Modal::Sessions => if key == Key::Up {
                (
                    AppView {
                        session_selected: if self.session_selected > 0 {
                            (self.session_selected - 1) as usize
                        } else {
                            0
                        },
                        ..self
                    },
                    RequestView::Nothing,
                )
            } else if key == Key::Down {
                (
                    AppView {
                        session_selected: if self.sessions.len() == 0 {
                            self.session_selected
                        } else {
                            at_most(
                                self.session_selected + 1,
                                self.sessions.len() as int,
                            ) as usize
                        },
                        ..self
                    },
                    RequestView::Nothing,
                )
            } else if key == Key::Enter {
                if self.sessions.len() == 0 {
                    (self, RequestView::Nothing)
                } else {
                    (closed.resumed(self.session_selected as int), RequestView::Nothing)
                }
            } else if key == Key::Esc {
                (closed, RequestView::Nothing)
            } else {
                (self, RequestView::Nothing)
            },
            Modal::New => match key {
                Key::Tab => (
                    AppView {
                        form_field: ((self.form_field + 1) % (FORM_FIELDS as int)) as usize,
                        ..self
                    },
                    RequestView::Nothing,
                ),
                Key::BackTab => (
                    AppView {
                        form_field: ((self.form_field + FORM_FIELDS - 1) % (FORM_FIELDS as int))
                            as usize,
                        ..self
                    },
                    RequestView::Nothing,
                ),
                Key::Enter => (
                    self,
                    RequestView::Create(crate::aura::tui::app::spec_json(self.form, self.templates)),
                ),
                Key::Esc => (closed, RequestView::Nothing),
                Key::Char(c) => (
                    AppView {
                        form: self.form.with_field(
                            self.form_field as int,
                            self.form.field(self.form_field as int).push(c),
                        ),
                        ..self
                    },
                    RequestView::Nothing,
                ),
                Key::Backspace => (
                    AppView {
                        form: self.form.with_field(
                            self.form_field as int,
                            without_last(self.form.field(self.form_field as int)),
                        ),
                        ..self
                    },
                    RequestView::Nothing,
                ),
                _ => (self, RequestView::Nothing),
            },
            Modal::Help => if key == Key::Esc || key == Key::Enter {
                (closed, RequestView::Nothing)
            } else {
                (self, RequestView::Nothing)
            },
        }
    }

    /// What comes of a key.
    pub open spec fn keyed(self, key: Key, ctrl: bool) -> (AppView, RequestView) {
        match self.modal {
            Some(m) => self.pressed_over(m, key),
            None => self.pressed(key, ctrl),
        }
    }
}

/// A text without its last character, where it has one.
pub open spec fn without_last(s: Seq<char>) -> Seq<char> {
    if s.len() == 0 {
        s
    } else {
        s.drop_last()
    }
}

fn shorter(s: &str) -> (r: String)
    ensures
        r@ == without_last(s@),
{
    let chars = chars_of(s);
    let n: usize = chars.len();
    if n == 0 {
        proof {
            assert(chars@.subrange(0, 0) =~= s@);
        }
        return string_of(&chars, 0, 0);
    }
    proof {
        assert(chars@.subrange(0, n - 1) =~= s@.drop_last());
    }
    string_of(&chars, 0, n - 1)
}

impl App {
    /// Empties the line.
    fn empty_line(&mut self)
        ensures
            final(self).deep_view() == old(self).deep_view().emptied(),
    {
        self.chat_input = String::new();
        self.input_cursor = 0;
        self.history_index = None;
        proof {
            assert(self.chat_input@ =~= Seq::empty());
        }
    }

    /// Follows a command.
    pub fn run_command(&mut self, cmd: &str) -> (r: Request)
        ensures
            (final(self).deep_view(), r.deep_view()) == old(self).deep_view().commanded(cmd@),
    {
        let name = command_name(cmd);
        if same(name.as_str(), "/help") {
            self.modal = Some(Modal::Help);
            Request::Nothing
        } else if same(name.as_str(), "/new") {
            self.form = CreateForm::default();
            self.form_field = 0;
            self.modal = Some(Modal::New);
            Request::Nothing
        } else if same(name.as_str(), "/list") {
            Request::Instances
        } else if same(name.as_str(), "/sessions") {
            if self.instance_id.as_str().is_empty() {
                self.set_status("无实例 — /new 创建".to_owned(), true);
                Request::Nothing
            } else {
                Request::Sessions
            }
        } else if same(name.as_str(), "/clear") {
            self.chat_lines.clear();
            self.chat_scroll = 0;
            proof {
                assert(self.chat_lines.deep_view() =~= Seq::empty());
            }
            self.set_status("已清空对话".to_owned(), false);
            Request::Nothing
        } else if same(name.as_str(), "/quit") {
            self.should_quit = true;
            Request::Nothing
        } else {
            let mut t = joined("未知命令 ", name.as_str());
            t.append(" — /help 查看帮助");
            self.set_status(t, true);
            Request::Nothing
        }
    }

    /// Enters the line: a command is followed, and anything else is said.
    pub fn submit(&mut self) -> (r: Request)
        requires
            old(self).deep_view().wf(),
        ensures
            (final(self).deep_view(), r.deep_view()) == old(self).deep_view().submitted(),
            final(self).deep_view().wf(),
    {
        if self.chat_active {
            self.set_status("正在生成…（Esc 中断）".to_owned(), false);
            return Request::Nothing;
        }
        let text = trim_text(self.chat_input.as_str());
        if text.as_str().is_empty() {
            return Request::Nothing;
        }
        self.history_save(text.as_str());
        self.chat_input = String::new();
        self.input_cursor = 0;
        proof {
            assert(self.chat_input@ =~= Seq::empty());
        }
        if text.as_str().get_char(0) == '/' {
            return self.run_command(text.as_str());
        }
        if self.instance_id.as_str().is_empty() {
            self.set_status("无实例 — /new 创建".to_owned(), true);
            return Request::Nothing;
        }
        Request::Chat(text)
    }

    /// Whether a key can be pressed.
    pub fn takes(&self, key: Key, ctrl: bool) -> (r: bool)
        ensures
            r == self.deep_view().takes(key, ctrl),
    {
        if self.modal.is_some() || key == Key::Enter || (ctrl && (key == Key::Char('c') || key
            == Key::Char('d') || key == Key::Char('u') || key == Key::Char('t'))) {
            true
        } else if ctrl && key == Key::Char('w') {
            self.input_cursor <= self.chat_input.as_str().unicode_len()
        } else {
            is_editable(&self.chat_input, self.input_cursor, key)
        }
    }

    /// Takes a key while nothing lies over the conversation.
    fn press(&mut self, key: Key, ctrl: bool) -> (r: Request)
        requires
            old(self).deep_view().wf(),
            old(self).deep_view().modal is None,
            old(self).deep_view().takes(key, ctrl),
        ensures
            (final(self).deep_view(), r.deep_view()) == old(self).deep_view().pressed(key, ctrl),
            final(self).deep_view().wf(),
    {
        if ctrl && (key == Key::Char('c') || key == Key::Char('d')) {
            self.should_quit = true;
        } else if key == Key::Esc {
            if self.chat_active {
                if self.session_id.as_str().is_empty() {
                    self.set_status("当前无会话".to_owned(), false);
                    return Request::Nothing;
                }
                return Request::Interrupt;
            }
            self.empty_line();
        } else if key == Key::Enter {
            return self.submit();
        } else if ctrl && key == Key::Char('u') {
            self.empty_line();
        } else if ctrl && key == Key::Char('w') {
            let (line, at) = delete_word(&self.chat_input, self.input_cursor);
            self.chat_input = line;
            self.input_cursor = at;
        } else if ctrl && key == Key::Char('t') {
            self.toggle_thinking();
        } else if key == Key::Up {
            self.history_prev();
        } else if key == Key::Down {
            self.history_next();
        } else if key == Key::PageUp {
            self.chat_scroll_prev();
        } else if key == Key::PageDown {
            self.chat_scroll_next();
        } else {
            self.history_reset();
            let (line, at) = edit_text(&self.chat_input, self.input_cursor, key);
            self.chat_input = line;
            self.input_cursor = at;
        }
        Request::Nothing
    }

    /// Goes to an instance, before its sessions are known.
    pub fn attach_instance(&mut self, idx: usize)
        requires
            idx < old(self).deep_view().instances.len(),
        ensures
            final(self).deep_view() == old(self).deep_view().attaching(idx as int),
    {
        self.instance_id = self.instances[idx].id.name.clone();
        self.instance_model = self.instances[idx].model.clone();
        self.consumed_tokens = self.instances[idx].consumed_tokens;
        self.session_id = String::new();
        self.sessions = Vec::new();
        self.session_selected = 0;
        self.clear_chat();
        proof {
            assert(self.session_id@ =~= Seq::empty());
            assert(self.sessions.deep_view() =~= Seq::empty());
        }
    }

    /// Takes a key while something lies over the conversation.
    fn press_over(&mut self, modal: Modal, key: Key) -> (r: Request)
        requires
            old(self).deep_view().wf(),
        ensures
            (final(self).deep_view(), r.deep_view()) == old(self).deep_view().pressed_over(
                modal,
                key,
            ),
            final(self).deep_view().wf(),
    {
        match modal {
            Modal::Switch => match key {
                Key::Up => self.select_prev_instance(),
                Key::Down => self.select_next_instance(),
                Key::Enter => {
                    if self.instances.len() > 0 {
                        self.modal = None;
                        let at: usize = self.instance_selected;
                        if at < self.instances.len() {
                            self.attach_instance(at);
                            return Request::Attach;
                        }
                    }
                },
                Key::Esc => {
                    self.modal = None;
                },
                _ => {},
            },
            Modal::Sessions => match key {
                Key::Up => self.select_prev_session(),
                Key::Down => self.select_next_session(),
                Key::Enter => {
                    if self.sessions.len() > 0 {
                        self.modal = None;
                        let at: usize = self.session_selected;
                        self.resume_session(at);
                    }
                },
                Key::Esc => {
                    self.modal = None;
                },
                _ => {},
            },
            Modal::New => match key {
                Key::Tab => {
                    self.form_field = (self.form_field + 1) % FORM_FIELDS;
                },
                Key::BackTab => {
                    self.form_field = (self.form_field + FORM_FIELDS - 1) % FORM_FIELDS;
                },
                Key::Enter => {
                    return Request::Create(self.build_spec());
                },
                Key::Esc => {
                    self.modal = None;
                },
                Key::Char(c) => {
                    let at: usize = self.form_field;
                    let field = self.form.field_mut(at);
                    field.push(c);
                },
                Key::Backspace => {
                    let at: usize = self.form_field;
                    let text = shorter(self.form.field(at));
                    let field = self.form.field_mut(at);
                    *field = text;
                },
                _ => {},
            },
            Modal::Help => {
                if key == Key::Esc || key == Key::Enter {
                    self.modal = None;
                }
            },
        }
        Request::Nothing
    }

    /// Takes a key, and says what is to be asked of the daemon.
    pub fn handle_key(&mut self, key: Key, ctrl: bool) -> (r: Request)
        requires
            old(self).deep_view().wf(),
            old(self).deep_view().takes(key, ctrl),
        ensures
            (final(self).deep_view(), r.deep_view()) == old(self).deep_view().keyed(key, ctrl),
            final(self).deep_view().wf(),
    {
        match self.modal {
            Some(m) => self.press_over(m, key),
            None => self.press(key, ctrl),
        }
    }

    /// Takes the instances that the daemon lists.
    pub fn set_instances(&mut self, list: Vec<InstanceInfo>)
        ensures
            final(self).deep_view() == (AppView {
                instances: list.deep_view(),
                instance_selected: at_most(
                    old(self).deep_view().instance_selected as int,
                    list@.len() as int,
                ) as usize,
                ..old(self).deep_view()
            }),
    {
        let n: usize = list.len();
        if n == 0 {
            self.instance_selected = 0;
        } else if self.instance_selected >= n {
            self.instance_selected = n - 1;
        }
        self.instances = list;
    }

    /// Where the instance of a name stands.
    pub fn find_instance(&self, id: &str) -> (r: Option<usize>)
        ensures
            match place_of(self.deep_view().instances, id@) {
                Some(i) => r matches Some(x) && x == i && i < self.deep_view().instances.len(),
                None => r is None,
            },
    {
        let ghost all = self.instances.deep_view();
        let mut i: usize = 0;
        proof {
            assert(all.skip(0) =~= all);
        }
        while i < self.instances.len()
            invariant
                all == self.instances.deep_view(),
                i <= all.len(),
                place_of(all, id@) == (match place_of(all.skip(i as int), id@) {
                    Some(k) => Some(k + i),
                    None => None,
                }),
            decreases all.len() - i,
        {
            proof {
                assert(all.skip(i as int)[0] == all[i as int]);
                assert(all.skip(i as int).drop_first() =~= all.skip(i + 1));
            }
            if same(self.instances[i].id.name.as_str(), id) {
                return Some(i);
            }
            i = i + 1;
        }
        None
    }

    /// Opens the list of instances at the one that the client is at.
    pub fn open_switch(&mut self)
        ensures
            final(self).deep_view() == (AppView {
                modal: Some(Modal::Switch),
                instance_selected: match place_of(
                    old(self).deep_view().instances,
                    old(self).deep_view().instance_id,
                ) {
                    Some(i) => i as usize,
                    None => old(self).deep_view().instance_selected,
                },
                ..old(self).deep_view()
            }),
    {
        if let Some(i) = self.find_instance(self.instance_id.as_str()) {
            self.instance_selected = i;
        }
        self.modal = Some(Modal::Switch);
    }

    /// Takes the sessions that the daemon lists.
    pub fn set_sessions(&mut self, list: Vec<SessionInfo>)
        ensures
            final(self).deep_view() == (AppView {
                sessions: list.deep_view(),
                session_selected: at_most(
                    old(self).deep_view().session_selected as int,
                    list@.len() as int,
                ) as usize,
                ..old(self).deep_view()
            }),
    {
        let n: usize = list.len();
        if n == 0 {
            self.session_selected = 0;
        } else if self.session_selected >= n {
            self.session_selected = n - 1;
        }
        self.sessions = list;
    }

    /// Goes to the first instance, or says that there is none.
    pub fn startup(&mut self)
        ensures
            ({
                let a = old(self).deep_view();
                final(self).deep_view() == (if a.instances.len() > 0 {
                    (AppView {
                        instance_id: a.instances[0].id,
                        instance_model: a.instances[0].model,
                        consumed_tokens: a.instances[0].consumed_tokens,
                        ..a
                    }).saying("✦ "@ + a.instances[0].id, false)
                } else {
                    a.saying("暂无实例 — 输入 /new 创建实例"@, false)
                })
            }),
    {
        if self.instances.len() > 0 {
            self.instance_id = self.instances[0].id.name.clone();
            self.instance_model = self.instances[0].model.clone();
            self.consumed_tokens = self.instances[0].consumed_tokens;
            let t = joined("✦ ", self.instance_id.as_str());
            self.set_status(t, false);
        } else {
            self.set_status("暂无实例 — 输入 /new 创建实例".to_owned(), false);
        }
    }

    /// The place of the session with the most messages.
    fn busiest_session(&self) -> (r: Option<usize>)
        ensures
            match busiest(self.deep_view().sessions) {
                Some(i) => r matches Some(x) && x == i && i < self.deep_view().sessions.len(),
                None => r is None,
            },
    {
        let ghost all = self.sessions.deep_view();
        let mut best: Option<usize> = None;
        let mut i: usize = 0;
        proof {
            assert(all.take(0) =~= Seq::empty());
        }
        while i < self.sessions.len()
            invariant
                all == self.sessions.deep_view(),
                i <= all.len(),
                best matches Some(b) ==> b < i,
                busiest(all.take(i as int)) == (match best {
                    Some(b) => Some(b as int),
                    None => None,
                }),
            decreases all.len() - i,
        {
            proof {
                assert(all.take(i + 1).drop_last() =~= all.take(i as int));
                assert(all.take(i + 1).last() == all[i as int]);
                if let Some(b) = best {
                    assert(all.take(i + 1)[b as int] == all[b as int]);
                }
            }
            let keeps = match best {
                Some(b) => self.sessions[b].messages > self.sessions[i].messages,
                None => false,
            };
            if !keeps {
                best = Some(i);
            }
            i = i + 1;
        }
        proof {
            assert(all.take(all.len() as int) =~= all);
        }
        best
    }

    /// Goes on at an instance once its sessions are known.
    pub fn attached(&mut self)
        ensures
            final(self).deep_view() == old(self).deep_view().attached(),
    {
        match self.busiest_session() {
            Some(i) => self.resume_session(i),
            None => {
                let mut t = joined("已连接实例 ", self.instance_id.as_str());
                t.append(" — 输入消息开始新会话");
                self.push_system(t.as_str());
            },
        }
        let t = joined("✦ ", self.instance_id.as_str());
        self.set_status(t, false);
    }

    /// What is asked of the daemon to say something: the message goes into the
    /// conversation, and a new session gets its identity.
    pub fn begin_chat(&mut self, message: &str, new_id: String) -> (r: Json)
        ensures
            final(self).deep_view() == old(self).deep_view().said(message@, new_id@),
            r.deep_view() == old(self).deep_view().chat_request(message@, new_id@),
    {
        if self.session_id.as_str().is_empty() {
            self.session_id = new_id;
        }
        let ghost before = self.chat_lines.deep_view();
        let said = ChatLine::user(message);
        let answer = ChatLine::assistant("");
        self.chat_lines.push(said);
        self.chat_lines.push(answer);
        proof {
            assert(self.chat_lines.deep_view() =~= before.push(said.deep_view()).push(
                answer.deep_view(),
            ));
        }
        self.chat_scroll = 0;
        make3(
            "id",
            Json::text(self.instance_id.as_str()),
            "session_id",
            Json::text(self.session_id.as_str()),
            "message",
            Json::text(message),
        ).plus("stream", Json::Bool(true))
    }

    /// Says something; a new session gets an identity drawn at random.
    pub fn start_chat(&mut self, message: &str) -> (r: Json)
        ensures
            exists|id: SessionId|
                is_random(id.hi, id.lo) && final(self).deep_view() == old(self).deep_view().said(
                    message@,
                    #[trigger] id_text(id),
                ) && r.deep_view() == old(self).deep_view().chat_request(message@, id_text(id)),
    {
        let id = SessionId::new_v4();
        self.begin_chat(message, id.to_text())
    }

    /// The daemon has taken what was said.
    pub fn chat_opened(&mut self)
        ensures
            final(self).deep_view() == (AppView {
                chat_open: true,
                chat_active: true,
                ..old(self).deep_view()
            }).saying("生成中…"@, false),
    {
        self.chat_open = true;
        self.chat_active = true;
        self.set_status("生成中…".to_owned(), false);
    }

    /// The daemon has not taken what was said: the line for the answer goes.
    pub fn chat_failed(&mut self, why: &str)
        ensures
            ({
                let a = old(self).deep_view();
                final(self).deep_view() == (AppView {
                    chat_lines: if a.chat_lines.len() == 0 {
                        a.chat_lines
                    } else {
                        a.chat_lines.drop_last()
                    },
                    ..a
                }).saying("对话失败: "@ + why@, true)
            }),
    {
        let ghost before = self.chat_lines.deep_view();
        let _gone = self.chat_lines.pop();
        proof {
            if before.len() > 0 {
                assert(self.chat_lines.deep_view() =~= before.drop_last());
            } else {
                assert(self.chat_lines.deep_view() =~= before);
            }
        }
        self.set_status(joined("对话失败: ", why), true);
    }

    /// What the daemon says of an interrupt.
    pub fn interrupt_answered(&mut self, cancelled: bool)
        ensures
            final(self).deep_view() == old(self).deep_view().saying(
                if cancelled {
                    "已中断"@
                } else {
                    "无进行中回合"@
                },
                false,
            ),
    {
        if cancelled {
            self.set_status("已中断".to_owned(), false);
        } else {
            self.set_status("无进行中回合".to_owned(), false);
        }
    }
}

/// A client that generates an answer takes nothing else: entering a line changes
/// neither the line nor the conversation.
pub proof fn law_one_answer_at_a_time(a: AppView)
    requires
        a.chat_active,
    ensures
        a.submitted().1 is Nothing,
        a.submitted().0.chat_input == a.chat_input,
        a.submitted().0.chat_lines == a.chat_lines,
        a.submitted().0.chat_history == a.chat_history,
{
}

/// A line that is entered is remembered and gone from the line.
pub proof fn law_entered_line_is_remembered(a: AppView)
    requires
        !a.chat_active,
        trim(a.chat_input).len() > 0,
    ensures
        a.submitted().0.chat_input.len() == 0,
        a.submitted().0.chat_history.contains(trim(a.chat_input)),
{
    let text = trim(a.chat_input);
    let h = a.remembering(text).chat_history;
    if !a.chat_history.contains(text) {
        assert(h[a.chat_history.len() as int] == text);
    }
}

/// The fields of the form come round: the key forward and the key back undo each
/// other.
pub proof fn law_fields_come_round(a: AppView)
    requires
        a.wf(),
    ensures
        a.pressed_over(Modal::New, Key::Tab).0.pressed_over(Modal::New, Key::BackTab).0 == a,
        a.pressed_over(Modal::New, Key::BackTab).0.pressed_over(Modal::New, Key::Tab).0 == a,
{
}

/// The session that a client goes on in has as many messages as any.
pub proof fn law_busiest(sessions: Seq<SessionInfoView>, j: int)
    requires
        0 <= j < sessions.len(),
    ensures
        busiest(sessions) matches Some(i) && 0 <= i < sessions.len() && sessions[i].messages
            >= sessions[j].messages,
    decreases sessions.len(),
{
    let before = sessions.drop_last();
    if before.len() > 0 {
        if j < before.len() {
            law_busiest(before, j);
        } else {
            law_busiest(before, 0);
        }
        let i = busiest(before)->0;
        assert(before[i] == sessions[i]);
        if j < before.len() {
            assert(before[j] == sessions[j]);
        }
    }
}

} // verus!
