//! What the client shows and asks for, key by key and event by event.

use vstd::prelude::*;
use vstd::string::*;

use crate::aura::protocol::{InstanceInfoView, SessionInfoView};
use crate::aura::tui::app::{
    agent_json, at_most, last_answer, provider_json, shortened, spec_json, template_json,
    text_or_null, tools_json, with_delta, AppView, ChatEventView, ChatLineView, ChatRole, FormView,
    Modal,
};
use crate::aura::tui::edit::Key;
use crate::aura::tui::keys::{
    busiest, first_word, name_of, place_of, without_last, RequestView,
};
use crate::json::{JsonView, NumberView};
use crate::provider::completions_laws::{
    count_value, lemma_object1, lemma_object2, lemma_object3, text_value,
};
use crate::text::{decimal, is_space, trim, trim_start};

verus! {

broadcast use vstd::string::group_string_axioms;

/// The names of a request differ.
pub proof fn lemma_request_names()
    ensures
        "id"@ != "session_id"@,
        "id"@ != "message"@,
        "id"@ != "stream"@,
        "session_id"@ != "message"@,
        "session_id"@ != "stream"@,
        "message"@ != "stream"@,
{
    reveal_strlit("id");
    reveal_strlit("session_id");
    reveal_strlit("message");
    reveal_strlit("stream");
    assert("id"@.len() == 2);
    assert("session_id"@.len() == 10);
    assert("message"@.len() == 7);
    assert("stream"@.len() == 6);
}

/// The names of commands differ.
pub proof fn lemma_command_names()
    ensures
        "/help"@ != "/new"@,
        "/help"@ != "/list"@,
        "/help"@ != "/sessions"@,
        "/help"@ != "/clear"@,
        "/help"@ != "/quit"@,
        "/new"@ != "/list"@,
        "/new"@ != "/sessions"@,
        "/new"@ != "/clear"@,
        "/new"@ != "/quit"@,
        "/list"@ != "/sessions"@,
        "/list"@ != "/clear"@,
        "/list"@ != "/quit"@,
        "/sessions"@ != "/clear"@,
        "/sessions"@ != "/quit"@,
        "/clear"@ != "/quit"@,
{
    reveal_strlit("/help");
    reveal_strlit("/new");
    reveal_strlit("/list");
    reveal_strlit("/sessions");
    reveal_strlit("/clear");
    reveal_strlit("/quit");
    assert("/help"@.len() == 5);
    assert("/new"@.len() == 4);
    assert("/list"@.len() == 5);
    assert("/sessions"@.len() == 9);
    assert("/clear"@.len() == 6);
    assert("/quit"@.len() == 5);
    assert("/help"@[1] != "/list"@[1]);
    assert("/help"@[1] != "/quit"@[1]);
    assert("/list"@[1] != "/quit"@[1]);
}

/// The names of a form differ.
pub proof fn lemma_form_names()
    ensures
        "id"@ != "agent"@,
        "id"@ != "tools"@,
        "id"@ != "provider"@,
        "id"@ != "description"@,
        "id"@ != "model"@,
        "id"@ != "template"@,
        "id"@ != "skills"@,
        "id"@ != "mcp_servers"@,
        "id"@ != "params"@,
        "id"@ != "fs"@,
        "id"@ != "artifact"@,
        "id"@ != "root"@,
        "id"@ != "max_file_bytes"@,
        "id"@ != "default_limit_chars"@,
        "agent"@ != "tools"@,
        "agent"@ != "provider"@,
        "agent"@ != "description"@,
        "agent"@ != "model"@,
        "agent"@ != "template"@,
        "agent"@ != "skills"@,
        "agent"@ != "mcp_servers"@,
        "agent"@ != "params"@,
        "agent"@ != "fs"@,
        "agent"@ != "artifact"@,
        "agent"@ != "root"@,
        "agent"@ != "max_file_bytes"@,
        "agent"@ != "default_limit_chars"@,
        "tools"@ != "provider"@,
        "tools"@ != "description"@,
        "tools"@ != "model"@,
        "tools"@ != "template"@,
        "tools"@ != "skills"@,
        "tools"@ != "mcp_servers"@,
        "tools"@ != "params"@,
        "tools"@ != "fs"@,
        "tools"@ != "artifact"@,
        "tools"@ != "root"@,
        "tools"@ != "max_file_bytes"@,
        "tools"@ != "default_limit_chars"@,
        "provider"@ != "description"@,
        "provider"@ != "model"@,
        "provider"@ != "template"@,
        "provider"@ != "skills"@,
        "provider"@ != "mcp_servers"@,
        "provider"@ != "params"@,
        "provider"@ != "fs"@,
        "provider"@ != "artifact"@,
        "provider"@ != "root"@,
        "provider"@ != "max_file_bytes"@,
        "provider"@ != "default_limit_chars"@,
        "description"@ != "model"@,
        "description"@ != "template"@,
        "description"@ != "skills"@,
        "description"@ != "mcp_servers"@,
        "description"@ != "params"@,
        "description"@ != "fs"@,
        "description"@ != "artifact"@,
        "description"@ != "root"@,
        "description"@ != "max_file_bytes"@,
        "description"@ != "default_limit_chars"@,
        "model"@ != "template"@,
        "model"@ != "skills"@,
        "model"@ != "mcp_servers"@,
        "model"@ != "params"@,
        "model"@ != "fs"@,
        "model"@ != "artifact"@,
        "model"@ != "root"@,
        "model"@ != "max_file_bytes"@,
        "model"@ != "default_limit_chars"@,
        "template"@ != "skills"@,
        "template"@ != "mcp_servers"@,
        "template"@ != "params"@,
        "template"@ != "fs"@,
        "template"@ != "artifact"@,
        "template"@ != "root"@,
        "template"@ != "max_file_bytes"@,
        "template"@ != "default_limit_chars"@,
        "skills"@ != "mcp_servers"@,
        "skills"@ != "params"@,
        "skills"@ != "fs"@,
        "skills"@ != "artifact"@,
        "skills"@ != "root"@,
        "skills"@ != "max_file_bytes"@,
        "skills"@ != "default_limit_chars"@,
        "mcp_servers"@ != "params"@,
        "mcp_servers"@ != "fs"@,
        "mcp_servers"@ != "artifact"@,
        "mcp_servers"@ != "root"@,
        "mcp_servers"@ != "max_file_bytes"@,
        "mcp_servers"@ != "default_limit_chars"@,
        "params"@ != "fs"@,
        "params"@ != "artifact"@,
        "params"@ != "root"@,
        "params"@ != "max_file_bytes"@,
        "params"@ != "default_limit_chars"@,
        "fs"@ != "artifact"@,
        "fs"@ != "root"@,
        "fs"@ != "max_file_bytes"@,
        "fs"@ != "default_limit_chars"@,
        "artifact"@ != "root"@,
        "artifact"@ != "max_file_bytes"@,
        "artifact"@ != "default_limit_chars"@,
        "root"@ != "max_file_bytes"@,
        "root"@ != "default_limit_chars"@,
        "max_file_bytes"@ != "default_limit_chars"@,
{
    reveal_strlit("id");
    reveal_strlit("agent");
    reveal_strlit("tools");
    reveal_strlit("provider");
    reveal_strlit("description");
    reveal_strlit("model");
    reveal_strlit("template");
    reveal_strlit("skills");
    reveal_strlit("mcp_servers");
    reveal_strlit("params");
    reveal_strlit("fs");
    reveal_strlit("artifact");
    reveal_strlit("root");
    reveal_strlit("max_file_bytes");
    reveal_strlit("default_limit_chars");
    assert("id"@.len() == 2);
    assert("agent"@.len() == 5);
    assert("tools"@.len() == 5);
    assert("provider"@.len() == 8);
    assert("description"@.len() == 11);
    assert("model"@.len() == 5);
    assert("template"@.len() == 8);
    assert("skills"@.len() == 6);
    assert("mcp_servers"@.len() == 11);
    assert("params"@.len() == 6);
    assert("fs"@.len() == 2);
    assert("artifact"@.len() == 8);
    assert("root"@.len() == 4);
    assert("max_file_bytes"@.len() == 14);
    assert("default_limit_chars"@.len() == 19);
    assert("id"@[0] != "fs"@[0]);
    assert("agent"@[0] != "tools"@[0]);
    assert("agent"@[0] != "model"@[0]);
    assert("tools"@[0] != "model"@[0]);
    assert("provider"@[0] != "template"@[0]);
    assert("provider"@[0] != "artifact"@[0]);
    assert("description"@[0] != "mcp_servers"@[0]);
    assert("template"@[0] != "artifact"@[0]);
    assert("skills"@[0] != "params"@[0]);
}

/// The names of a vendor differ.
pub proof fn lemma_vendor_names()
    ensures
        "type"@ != "api_key"@,
        "type"@ != "base_url"@,
        "type"@ != "model"@,
        "api_key"@ != "base_url"@,
        "api_key"@ != "model"@,
        "base_url"@ != "model"@,
{
    reveal_strlit("type");
    reveal_strlit("api_key");
    reveal_strlit("base_url");
    reveal_strlit("model");
    assert("type"@.len() == 4);
    assert("api_key"@.len() == 7);
    assert("base_url"@.len() == 8);
    assert("model"@.len() == 5);
}

/// The vendors differ.
pub proof fn lemma_vendors()
    ensures
        "xiaomi"@ != "openai"@,
        "xiaomi"@ != "deepseek"@,
        "openai"@ != "deepseek"@,
{
    reveal_strlit("xiaomi");
    reveal_strlit("openai");
    reveal_strlit("deepseek");
    assert("xiaomi"@.len() == 6);
    assert("openai"@.len() == 6);
    assert("deepseek"@.len() == 8);
    assert("xiaomi"@[0] != "openai"@[0]);
}

/// What came in of an answer stands at the end of the last line, where that is an
/// answer; else an answer begins. Nothing before it changes.
pub proof fn law_answer_grows(
    lines: Seq<ChatLineView>,
    line: ChatLineView,
    text: Seq<char>,
    thought: Seq<char>,
)
    ensures
        line.role == ChatRole::Assistant ==> {
            let after = with_delta(lines.push(line), text, thought);
            &&& after.len() == lines.len() + 1
            &&& after.drop_last() == lines
            &&& after.last().text == line.text + text
            &&& after.last().reasoning == line.reasoning + thought
            &&& after.last().role == ChatRole::Assistant
            &&& after.last().show_thinking == line.show_thinking
        },
        line.role != ChatRole::Assistant ==> {
            let after = with_delta(lines.push(line), text, thought);
            &&& after.len() == lines.len() + 2
            &&& after.drop_last() == lines.push(line)
            &&& after.last().text == text
            &&& after.last().reasoning == thought
            &&& after.last().role == ChatRole::Assistant
        },
{
    assert(lines.push(line).drop_last() =~= lines);
    let more = lines.push(line).push(ChatLineView::plain(ChatRole::Assistant, Seq::empty()));
    assert(more.drop_last() =~= lines.push(line));
    assert(Seq::<char>::empty() + text =~= text);
    assert(Seq::<char>::empty() + thought =~= thought);
    let a = with_delta(lines.push(line), text, thought);
    if line.role == ChatRole::Assistant {
        assert(a.drop_last() =~= lines);
    } else {
        assert(a.drop_last() =~= lines.push(line));
    }
}

/// What an event does: an addition is shown, an end or an error ends the answer and is
/// said, and an end has the figures asked for again.
pub proof fn law_events_are_shown(a: AppView, s: Seq<char>, t: Seq<char>)
    ensures
        a.after(ChatEventView::Delta(s, t)).chat_lines == with_delta(a.chat_lines, s, t),
        a.after(ChatEventView::Delta(s, t)).chat_active == a.chat_active,
        a.after(ChatEventView::Delta(s, t)).chat_scroll == 0,
        !a.after(ChatEventView::Finish(s)).chat_active,
        !a.after(ChatEventView::Finish(s)).chat_open,
        a.after(ChatEventView::Finish(s)).needs_refresh,
        a.after(ChatEventView::Finish(s)).status == "完成 ("@ + s + ")"@,
        !a.after(ChatEventView::Finish(s)).status_error,
        a.after(ChatEventView::Finish(s)).chat_lines == a.chat_lines,
        !a.after(ChatEventView::Error(s)).chat_active,
        !a.after(ChatEventView::Error(s)).chat_open,
        a.after(ChatEventView::Error(s)).status == "对话错误: "@ + s,
        a.after(ChatEventView::Error(s)).status_error,
        a.after(ChatEventView::Error(s)).chat_lines == a.chat_lines,
        a.after(ChatEventView::Error(s)).needs_refresh == a.needs_refresh,
{
}

/// What is typed and entered is said, where there is somebody to say it to; a line that
/// begins with a slash is a command; a blank line is nothing.
pub proof fn law_entered_line(a: AppView)
    requires
        !a.chat_active,
    ensures
        ({
            let text = trim(a.chat_input);
            &&& text.len() == 0 ==> a.submitted() == (a, RequestView::Nothing)
            &&& text.len() > 0 ==> a.submitted().0.chat_input.len() == 0
                && a.submitted().0.input_cursor == 0 && a.submitted().0.history_index is None
            &&& text.len() > 0 && text[0] != '/' && a.instance_id.len() > 0 ==> a.submitted().1
                == RequestView::Chat(text)
            &&& text.len() > 0 && text[0] != '/' && a.instance_id.len() == 0
                ==> a.submitted().1 is Nothing && a.submitted().0.status_error
                && a.submitted().0.status == "无实例 — /new 创建"@
            &&& text.len() > 0 && text[0] == '/' ==> !(a.submitted().1 is Chat)
        }),
{
}

/// Said aloud: the question and an answer that is yet to come are shown, in the session
/// that is there or else in the new one.
pub proof fn law_question_is_shown(a: AppView, text: Seq<char>, fresh: Seq<char>)
    ensures
        ({
            let b = a.said(text, fresh);
            let n = a.chat_lines.len() as int;
            &&& b.chat_lines.len() == n + 2
            &&& b.chat_lines.take(n) == a.chat_lines
            &&& b.chat_lines[n].role == ChatRole::User
            &&& b.chat_lines[n].text == text
            &&& b.chat_lines[n + 1].role == ChatRole::Assistant
            &&& b.chat_lines[n + 1].text.len() == 0
            &&& b.chat_scroll == 0
            &&& a.session_id.len() == 0 ==> b.session_id == fresh
            &&& a.session_id.len() > 0 ==> b.session_id == a.session_id
            &&& b.instance_id == a.instance_id
        }),
        a.chat_request(text, fresh).get("id"@) == text_value(a.instance_id),
        a.chat_request(text, fresh).get("message"@) == text_value(text),
        a.chat_request(text, fresh).get("stream"@) == Some(JsonView::Bool(true)),
        a.session_id.len() == 0 ==> a.chat_request(text, fresh).get("session_id"@) == text_value(
            fresh,
        ),
        a.session_id.len() > 0 ==> a.chat_request(text, fresh).get("session_id"@) == text_value(
            a.session_id,
        ),
{
    reveal_strlit("");
    assert(""@.len() == 0);
    let b = a.said(text, fresh);
    assert(b.chat_lines.take(a.chat_lines.len() as int) =~= a.chat_lines);
    lemma_request_names();
    let iv = JsonView::Text(a.instance_id);
    let sv = JsonView::Text(a.session_for(fresh));
    let mv = JsonView::Text(text);
    lemma_object3("id"@, iv, "session_id"@, sv, "message"@, mv);
    lemma_added(
        crate::provider::openai_compat::object3("id"@, iv, "session_id"@, sv, "message"@, mv),
        "stream"@,
        JsonView::Bool(true),
    );
}

/// A field that is added is found, and the others stay.
proof fn lemma_added(j: JsonView, key: Seq<char>, v: JsonView)
    requires
        j is Object,
        j.get(key) is None,
    ensures
        j.plus(key, v) is Object,
        forall|other: Seq<char>| #[trigger]
            j.plus(key, v).get(other) == (if other == key {
                Some(v)
            } else {
                j.get(other)
            }),
{
    assert forall|other: Seq<char>| #[trigger]
        j.plus(key, v).get(other) == (if other == key {
            Some(v)
        } else {
            j.get(other)
        }) by {
        crate::codec::lemma_find_push(j->Object_0, key, v, other);
    }
}

/// The commands, by their names.
pub proof fn law_commands(a: AppView, cmd: Seq<char>)
    ensures
        name_of(cmd) == "/help"@ ==> a.commanded(cmd).0.modal == Some(Modal::Help)
            && a.commanded(cmd).1 is Nothing,
        name_of(cmd) == "/new"@ ==> a.commanded(cmd).0.modal == Some(Modal::New)
            && a.commanded(cmd).0.form == FormView::empty() && a.commanded(cmd).0.form_field == 0
            && a.commanded(cmd).1 is Nothing,
        name_of(cmd) == "/list"@ ==> a.commanded(cmd) == (a, RequestView::Instances),
        name_of(cmd) == "/sessions"@ && a.instance_id.len() > 0 ==> a.commanded(cmd) == (
            a,
            RequestView::Sessions,
        ),
        name_of(cmd) == "/sessions"@ && a.instance_id.len() == 0 ==> a.commanded(cmd).1 is Nothing
            && a.commanded(cmd).0.status_error,
        name_of(cmd) == "/clear"@ ==> a.commanded(cmd).0.chat_lines.len() == 0
            && a.commanded(cmd).1 is Nothing && a.commanded(cmd).0.session_id == a.session_id,
        name_of(cmd) == "/quit"@ ==> a.commanded(cmd).0.should_quit && a.commanded(cmd).1 is Nothing,
        name_of(cmd) != "/help"@ && name_of(cmd) != "/new"@ && name_of(cmd) != "/list"@ && name_of(
            cmd,
        ) != "/sessions"@ && name_of(cmd) != "/clear"@ && name_of(cmd) != "/quit"@ ==> {
            &&& a.commanded(cmd).1 is Nothing
            &&& a.commanded(cmd).0.status_error
            &&& a.commanded(cmd).0.status == "未知命令 "@ + name_of(cmd) + " — /help 查看帮助"@
            &&& !a.should_quit ==> !a.commanded(cmd).0.should_quit
        },
{
    lemma_command_names();
}

/// The first word of a text is what stands before its first white space.
pub proof fn law_first_word(s: Seq<char>)
    ensures
        first_word(s).len() <= s.len(),
        first_word(s) == s.take(first_word(s).len() as int),
        forall|i: int| 0 <= i < first_word(s).len() ==> !is_space(#[trigger] s[i]),
        first_word(s).len() < s.len() ==> is_space(s[first_word(s).len() as int]),
        trim_start(s).len() > 0 ==> name_of(s) == first_word(trim_start(s)),
    decreases s.len(),
{
    if s.len() > 0 && !is_space(s[0]) {
        let rest = s.drop_first();
        law_first_word(rest);
        assert(first_word(s) =~= s.take(first_word(s).len() as int));
        assert forall|i: int| 0 <= i < first_word(s).len() implies !is_space(#[trigger] s[i]) by {
            if i > 0 {
                assert(rest[i - 1] == s[i]);
            }
        }
    } else {
        assert(first_word(s) =~= s.take(0));
    }
}

/// Keys that do not type: leaving, interrupting, emptying the line, looking back and
/// forth, and scrolling.
pub proof fn law_keys(a: AppView)
    requires
        a.modal is None,
    ensures
        a.keyed(Key::Char('c'), true).0.should_quit,
        a.keyed(Key::Char('d'), true).0.should_quit,
        !a.chat_active ==> a.keyed(Key::Esc, false).0.chat_input.len() == 0 && a.keyed(
            Key::Esc,
            false,
        ).1 is Nothing,
        a.chat_active && a.session_id.len() > 0 ==> a.keyed(Key::Esc, false) == (
            a,
            RequestView::Interrupt,
        ),
        a.keyed(Key::Enter, false) == a.submitted(),
        a.keyed(Key::Char('u'), true).0.chat_input.len() == 0,
        a.keyed(Key::Char('u'), true).0.input_cursor == 0,
        a.keyed(Key::Up, false).0 == a.earlier(),
        a.keyed(Key::Down, false).0 == a.later(),
        a.chat_scroll + 5 <= usize::MAX ==> a.keyed(Key::PageUp, false).0.chat_scroll
            == a.chat_scroll + 5,
        a.chat_scroll >= 5 ==> a.keyed(Key::PageDown, false).0.chat_scroll == a.chat_scroll - 5,
        a.chat_scroll < 5 ==> a.keyed(Key::PageDown, false).0.chat_scroll == 0,
{
}

/// Looking back starts at the newest line and goes to older ones; looking forth goes back
/// to the empty line.
pub proof fn law_history(a: AppView, i: usize)
    requires
        a.wf(),
        a.chat_history.len() > 0,
        a.chat_history.len() <= usize::MAX,
    ensures
        a.history_index is None ==> a.earlier().chat_input == a.chat_history.last(),
        a.history_index == Some(i) && i > 0 ==> a.earlier().chat_input == a.chat_history[i - 1],
        a.history_index == Some(i) && i + 1 < a.chat_history.len() ==> a.later().chat_input
            == a.chat_history[i + 1],
        a.history_index == Some(i) && i + 1 == a.chat_history.len()
            ==> a.later().chat_input.len() == 0 && a.later().history_index is None,
        a.history_index is None ==> a.later() == a,
        a.earlier().chat_history == a.chat_history,
        a.later().chat_history == a.chat_history,
{
}

/// Choosing goes up and down the list and stays in it; what is chosen is taken.
pub proof fn law_choosing(a: AppView)
    requires
        a.instances.len() > 0,
        a.instance_selected < a.instances.len(),
        a.instances.len() <= usize::MAX,
        a.sessions.len() > 0,
        a.session_selected < a.sessions.len(),
        a.sessions.len() <= usize::MAX,
    ensures
        ({
            let up = a.pressed_over(Modal::Switch, Key::Up).0.instance_selected;
            let down = a.pressed_over(Modal::Switch, Key::Down).0.instance_selected;
            &&& a.instance_selected > 0 ==> up == a.instance_selected - 1
            &&& a.instance_selected == 0 ==> up == 0
            &&& a.instance_selected + 1 < a.instances.len() ==> down == a.instance_selected + 1
            &&& a.instance_selected + 1 == a.instances.len() ==> down == a.instance_selected
        }),
        ({
            let (b, asked) = a.pressed_over(Modal::Switch, Key::Enter);
            &&& asked is Attach
            &&& b.modal is None
            &&& b.instance_id == a.instances[a.instance_selected as int].id
            &&& b.instance_model == a.instances[a.instance_selected as int].model
            &&& b.consumed_tokens == a.instances[a.instance_selected as int].consumed_tokens
            &&& b.session_id.len() == 0
            &&& b.chat_lines.len() == 0
        }),
        ({
            let up = a.pressed_over(Modal::Sessions, Key::Up).0.session_selected;
            let down = a.pressed_over(Modal::Sessions, Key::Down).0.session_selected;
            &&& a.session_selected > 0 ==> up == a.session_selected - 1
            &&& a.session_selected + 1 < a.sessions.len() ==> down == a.session_selected + 1
            &&& a.session_selected + 1 == a.sessions.len() ==> down == a.session_selected
        }),
        ({
            let (b, asked) = a.pressed_over(Modal::Sessions, Key::Enter);
            &&& asked is Nothing
            &&& b.modal is None
            &&& b.session_id == a.sessions[a.session_selected as int].id
        }),
        a.pressed_over(Modal::Switch, Key::Esc).0.modal is None,
        a.pressed_over(Modal::Sessions, Key::Esc).0.modal is None,
        a.pressed_over(Modal::New, Key::Esc).0.modal is None,
        a.pressed_over(Modal::Help, Key::Esc).0.modal is None,
        a.pressed_over(Modal::Help, Key::Enter).0.modal is None,
{
}

/// What is typed into a form goes into the field that is chosen, and into no other.
pub proof fn law_form_fields(f: FormView, i: int, j: int, text: Seq<char>)
    requires
        0 <= i < 7,
        0 <= j < 7,
    ensures
        f.with_field(i, text).field(i) == text,
        i != j ==> f.with_field(i, text).field(j) == f.field(j),
        f.field(0) == f.id,
        f.field(1) == f.description,
        f.field(2) == f.model,
        f.field(3) == f.template,
        f.field(4) == f.provider,
        f.field(5) == f.api_key,
        f.field(6) == f.root,
{
}

/// Typing in a form adds to the field, the backspace key takes the last character away,
/// and the enter key asks for the instance that the form describes.
pub proof fn law_form_keys(a: AppView, c: char)
    requires
        a.wf(),
    ensures
        ({
            let i = a.form_field as int;
            let typed = a.pressed_over(Modal::New, Key::Char(c)).0;
            let less = a.pressed_over(Modal::New, Key::Backspace).0;
            &&& typed.form.field(i) == a.form.field(i).push(c)
            &&& typed.form_field == a.form_field
            &&& a.form.field(i).len() > 0 ==> less.form.field(i) == a.form.field(i).drop_last()
            &&& a.pressed_over(Modal::New, Key::Enter).1 == RequestView::Create(
                spec_json(a.form, a.templates),
            )
            &&& a.form_field + 1 < 7 ==> a.pressed_over(Modal::New, Key::Tab).0.form_field
                == a.form_field + 1
            &&& a.form_field == 6 ==> a.pressed_over(Modal::New, Key::Tab).0.form_field == 0
            &&& a.form_field > 0 ==> a.pressed_over(Modal::New, Key::BackTab).0.form_field
                == a.form_field - 1
            &&& a.form_field == 0 ==> a.pressed_over(Modal::New, Key::BackTab).0.form_field == 6
        }),
{
    law_form_fields(a.form, a.form_field as int, a.form_field as int, Seq::empty());
}

/// What a form asks for, by names.
pub proof fn law_form_is_sent(f: FormView, ready: Seq<Seq<char>>)
    ensures
        ({
            let j = spec_json(f, ready);
            &&& trim(f.id).len() > 0 ==> j.get("id"@) == text_value(trim(f.id))
            &&& trim(f.id).len() == 0 ==> j.get("id"@) == Some(JsonView::Null)
            &&& j.get("agent"@) == Some(agent_json(f, ready))
            &&& j.get("tools"@) == Some(tools_json(f))
            &&& j.get("provider"@) == Some(provider_json(trim(f.provider), f.api_key))
        }),
        ({
            let g = agent_json(f, ready);
            &&& trim(f.id).len() > 0 ==> g.get("id"@) == text_value(trim(f.id))
            &&& trim(f.id).len() == 0 ==> g.get("id"@) == text_value("general"@)
            &&& g.get("description"@) == text_value(f.description)
            &&& g.get("model"@) == text_value(f.model)
            &&& g.get("template"@) == Some(template_json(trim(f.template), ready))
        }),
        ({
            let t = tools_json(f);
            &&& t.get("fs"@) matches Some(fs)
            &&& trim(f.root).len() > 0 ==> fs.get("root"@) == text_value(trim(f.root))
            &&& trim(f.root).len() == 0 ==> fs.get("root"@) == Some(JsonView::Null)
            &&& fs.get("max_file_bytes"@) == count_value(1_048_576)
            &&& fs.get("default_limit_chars"@) == count_value(3000)
            &&& t.get("artifact"@) == Some(JsonView::Bool(false))
        }),
{
    lemma_form_names();
    let idv = text_or_null(trim(f.id));
    let gv = agent_json(f, ready);
    let tv = tools_json(f);
    lemma_object3("id"@, idv, "agent"@, gv, "tools"@, tv);
    lemma_added(
        crate::provider::openai_compat::object3("id"@, idv, "agent"@, gv, "tools"@, tv),
        "provider"@,
        provider_json(trim(f.provider), f.api_key),
    );
    let name = JsonView::Text(
        if trim(f.id).len() == 0 {
            "general"@
        } else {
            trim(f.id)
        },
    );
    let dv = JsonView::Text(f.description);
    let mv = JsonView::Text(f.model);
    lemma_object3("id"@, name, "description"@, dv, "model"@, mv);
    let a0 = crate::provider::openai_compat::object3(
        "id"@,
        name,
        "description"@,
        dv,
        "model"@,
        mv,
    );
    let pv = template_json(trim(f.template), ready);
    lemma_added(a0, "template"@, pv);
    let a1 = a0.plus("template"@, pv);
    let none = crate::aura::tui::app::no_items();
    lemma_added(a1, "tools"@, none);
    let a2 = a1.plus("tools"@, none);
    lemma_added(a2, "skills"@, none);
    let a3 = a2.plus("skills"@, none);
    lemma_added(a3, "mcp_servers"@, none);
    let a4 = a3.plus("mcp_servers"@, none);
    lemma_added(a4, "params"@, JsonView::Object(Seq::empty()));
    let rv = text_or_null(trim(f.root));
    let bv = JsonView::Number(NumberView::Unsigned(1_048_576));
    let lv = JsonView::Number(NumberView::Unsigned(3000));
    lemma_object3("root"@, rv, "max_file_bytes"@, bv, "default_limit_chars"@, lv);
    let fs = crate::provider::openai_compat::object3(
        "root"@,
        rv,
        "max_file_bytes"@,
        bv,
        "default_limit_chars"@,
        lv,
    );
    lemma_object2("fs"@, fs, "artifact"@, JsonView::Bool(false));
}

/// The vendor of a new instance, with the key that was typed.
pub proof fn law_vendor_is_sent(s: Seq<char>, key: Seq<char>)
    ensures
        provider_json(s, key).get("api_key"@) == text_value(key),
        s == "xiaomi"@ ==> provider_json(s, key).get("type"@) == text_value("xiaomi"@),
        s == "openai"@ ==> provider_json(s, key).get("type"@) == text_value("openai"@),
        s != "xiaomi"@ && s != "openai"@ ==> provider_json(s, key).get("type"@) == text_value(
            "deepseek"@,
        ),
        provider_json(s, key).get("base_url"@) == Some(JsonView::Null),
{
    lemma_vendor_names();
    lemma_vendors();
    let kv = JsonView::Text(key);
    lemma_object3("type"@, JsonView::Text("xiaomi"@), "api_key"@, kv, "base_url"@, JsonView::Null);
    lemma_object3("type"@, JsonView::Text("openai"@), "api_key"@, kv, "base_url"@, JsonView::Null);
    lemma_object3(
        "type"@,
        JsonView::Text("deepseek"@),
        "api_key"@,
        kv,
        "base_url"@,
        JsonView::Null,
    );
    lemma_added(
        crate::provider::openai_compat::object3(
            "type"@,
            JsonView::Text("openai"@),
            "api_key"@,
            kv,
            "base_url"@,
            JsonView::Null,
        ),
        "model"@,
        JsonView::Text(""@),
    );
    lemma_added(
        crate::provider::openai_compat::object3(
            "type"@,
            JsonView::Text("deepseek"@),
            "api_key"@,
            kv,
            "base_url"@,
            JsonView::Null,
        ),
        "model"@,
        JsonView::Null,
    );
}

/// A template is one that comes ready made, one that is named, one that is given, or the
/// generic one.
pub proof fn law_template_is_sent(s: Seq<char>, ready: Seq<Seq<char>>)
    ensures
        ready.contains(s) ==> template_json(s, ready) == JsonView::Text(s),
        !ready.contains("named:"@ + s) && !crate::text::begins(s, "named:"@) ==> template_json(
            "named:"@ + s,
            ready,
        ).get("named"@) == text_value(s),
        !ready.contains("inline:"@ + s) && !crate::text::begins(s, "inline:"@) ==> template_json(
            "inline:"@ + s,
            ready,
        ).get("inline"@) == text_value(s),
        !ready.contains(s) && !crate::text::begins(s, "named:"@) && !crate::text::begins(
            s,
            "inline:"@,
        ) ==> template_json(s, ready) == JsonView::Text("generic"@),
{
    reveal_strlit("named:");
    reveal_strlit("inline:");
    assert("named:"@.len() == 6);
    assert("inline:"@.len() == 7);
    if ready.contains(s) {
        let i = choose|i: int| 0 <= i < ready.len() && ready[i] == s;
        assert(ready[i] == s);
    }
    lemma_object1("named"@, JsonView::Text(s));
    lemma_object1("inline"@, JsonView::Text(s));
    crate::text_laws::law_strip_all(s, "named:"@);
    crate::text_laws::law_strip_all(s, "inline:"@);
    crate::text_laws::law_begins(s, "named:"@);
    crate::text_laws::law_begins(s, "inline:"@);
    let w = "inline:"@ + s;
    assert(w[0] == 'i');
    if crate::text::begins(w, "named:"@) {
        assert(w.subrange(0, 6)[0] == 'n');
    }
}

/// A session that is taken up is shown with nothing in it but how much it holds.
pub proof fn law_session_is_taken_up(a: AppView, i: int)
    requires
        0 <= i < a.sessions.len(),
        i <= usize::MAX,
    ensures
        ({
            let b = a.resumed(i);
            &&& b.session_id == a.sessions[i].id
            &&& b.session_selected == i
            &&& !b.chat_active
            &&& !b.chat_open
            &&& a.sessions[i].messages == 0 ==> b.chat_lines.len() == 0
            &&& a.sessions[i].messages > 0 ==> b.chat_lines.len() == 1 && b.chat_lines[0].role
                == ChatRole::System && b.chat_lines[0].text == "已恢复会话 "@ + shortened(
                a.sessions[i].id,
            ) + "（"@ + decimal(a.sessions[i].messages as nat) + " 条消息）"@
        }),
{
}

/// Thinking is shown or hidden in the last answer, and nowhere else.
pub proof fn law_thinking_is_toggled(a: AppView, i: int, j: int)
    requires
        last_answer(a.chat_lines) == Some(i),
        0 <= j < a.chat_lines.len(),
    ensures
        0 <= i < a.chat_lines.len(),
        a.chat_lines[i].role == ChatRole::Assistant,
        j > i ==> a.chat_lines[j].role != ChatRole::Assistant,
        a.toggled().chat_lines.len() == a.chat_lines.len(),
        a.toggled().chat_lines[i].show_thinking == !a.chat_lines[i].show_thinking,
        a.toggled().chat_lines[i].text == a.chat_lines[i].text,
        j != i ==> a.toggled().chat_lines[j] == a.chat_lines[j],
        a.toggled().toggled() == a,
{
    lemma_last_answer(a.chat_lines, j);
    let b = a.toggled();
    lemma_same_answer(a.chat_lines, b.chat_lines);
    assert(b.toggled().chat_lines =~= a.chat_lines);
}

/// The last answer is one, and behind it there is none.
proof fn lemma_last_answer(lines: Seq<ChatLineView>, j: int)
    requires
        0 <= j < lines.len(),
    ensures
        last_answer(lines) matches Some(i) ==> 0 <= i < lines.len() && lines[i].role
            == ChatRole::Assistant && (j > i ==> lines[j].role != ChatRole::Assistant),
        last_answer(lines) is None ==> lines[j].role != ChatRole::Assistant,
    decreases lines.len(),
{
    if lines.last().role != ChatRole::Assistant {
        let front = lines.drop_last();
        if front.len() > 0 {
            lemma_last_answer(front, if j < front.len() { j } else { 0 });
        }
    }
}

/// Lines of the same roles have their last answer at the same place.
proof fn lemma_same_answer(a: Seq<ChatLineView>, b: Seq<ChatLineView>)
    requires
        a.len() == b.len(),
        forall|k: int| 0 <= k < a.len() ==> (#[trigger] a[k]).role == b[k].role,
    ensures
        last_answer(a) == last_answer(b),
    decreases a.len(),
{
    if a.len() > 0 {
        assert(a[a.len() - 1].role == b[b.len() - 1].role);
        assert forall|k: int| 0 <= k < a.drop_last().len() implies (#[trigger] a.drop_last()[k]).role
            == b.drop_last()[k].role by {
            assert(a[k].role == b[k].role);
        }
        lemma_same_answer(a.drop_last(), b.drop_last());
    }
}

/// An instance is found at the first place that its name has.
pub proof fn law_instance_is_found(items: Seq<InstanceInfoView>, id: Seq<char>, j: int)
    requires
        0 <= j < items.len(),
    ensures
        place_of(items, id) matches Some(i) ==> 0 <= i < items.len() && items[i].id == id && (j < i
            ==> items[j].id != id),
        place_of(items, id) is None ==> items[j].id != id,
    decreases items.len(),
{
    if items[0].id != id {
        let rest = items.drop_first();
        if rest.len() > 0 {
            law_instance_is_found(rest, id, if j > 0 { j - 1 } else { 0 });
            if let Some(i) = place_of(rest, id) {
                assert(items[i + 1] == rest[i]);
            }
        } else {
            assert(place_of(rest, id) is None);
        }
    }
}

/// A place is kept within a list.
pub proof fn law_place_is_kept(i: int, len: int)
    requires
        0 <= i,
        0 <= len,
    ensures
        i < len ==> at_most(i, len) == i,
        i >= len && len > 0 ==> at_most(i, len) == len - 1,
        len == 0 ==> at_most(i, len) == 0,
{
}

/// An identity is shown by its first eight characters.
pub proof fn law_short_identity(s: Seq<char>)
    ensures
        s.len() <= 8 ==> shortened(s) == s,
        s.len() > 8 ==> shortened(s).len() == 8 && shortened(s) == s.take(8),
{
}

/// Typing goes into the line, and deleting a word takes the word before the cursor away.
pub proof fn law_line_is_edited(a: AppView, c: char)
    requires
        a.modal is None,
        a.input_cursor <= a.chat_input.len(),
        a.input_cursor < usize::MAX,
    ensures
        ({
            let b = a.keyed(Key::Char(c), false).0;
            let (line, at) = crate::aura::tui::edit::edited(
                a.chat_input,
                a.input_cursor as int,
                Key::Char(c),
            );
            &&& b.chat_input == line
            &&& b.input_cursor == a.input_cursor + 1
            &&& b.history_index is None
            &&& b.chat_lines == a.chat_lines
        }),
        ({
            let b = a.keyed(Key::Char('w'), true).0;
            let at = crate::aura::tui::edit::word_start(a.chat_input, a.input_cursor as int);
            &&& b.chat_input == a.chat_input.take(at) + a.chat_input.skip(a.input_cursor as int)
            &&& b.input_cursor == at
        }),
{
    crate::aura::tui::edit::law_delete_word(a.chat_input, a.input_cursor as int);
}

/// An instance that was chosen is taken up with its busiest session, or with a word of
/// welcome where it has none.
pub proof fn law_instance_is_taken_up(a: AppView, i: int)
    ensures
        a.attached().status == "✦ "@ + a.instance_id,
        !a.attached().status_error,
        a.attached().instance_id == a.instance_id,
        busiest(a.sessions) == Some(i) && 0 <= i < a.sessions.len() ==> a.attached().session_id
            == a.sessions[i].id,
        busiest(a.sessions) is None ==> a.attached().session_id == a.session_id
            && a.attached().chat_lines.last().text == "已连接实例 "@ + a.instance_id
            + " — 输入消息开始新会话"@ && a.attached().chat_lines.last().role == ChatRole::System,
{
}

/// Events are taken in the order in which they came.
pub proof fn law_events_in_order(a: AppView, events: Seq<ChatEventView>, e: ChatEventView)
    ensures
        a.after_all(Seq::empty()) == a,
        a.after_all(events.push(e)) == a.after_all(events).after(e),
{
    assert(events.push(e).drop_last() =~= events);
}

/// A line has its role and its text, and nothing is thought in it yet.
pub proof fn law_plain_line(role: ChatRole, text: Seq<char>)
    ensures
        ChatLineView::plain(role, text).role == role,
        ChatLineView::plain(role, text).text == text,
        ChatLineView::plain(role, text).reasoning.len() == 0,
        !ChatLineView::plain(role, text).show_thinking,
{
}

/// A form that nobody has filled in yet asks for the usual model of the usual provider.
pub proof fn law_form_begins()
    ensures
        FormView::empty().id.len() == 0,
        FormView::empty().description == "TUI agent"@,
        FormView::empty().model == "deepseek/deepseek-v3"@,
        FormView::empty().template == "generic"@,
        FormView::empty().provider == "deepseek"@,
        FormView::empty().api_key.len() == 0,
        FormView::empty().root.len() == 0,
{
}

} // verus!
