//! The terminal client.

use referee::aura::protocol::{InstanceId, InstanceInfo, InstanceState, SessionInfo};
use referee::aura::tui::app::{
    commands, short_id, App, ChatEvent, ChatLine, ChatRole, CreateForm, Modal, FORM_FIELDS,
};
use referee::aura::tui::edit::{delete_word, edit_text, is_editable, Key};
use referee::aura::tui::keys::{command_name, Request};
use referee::json::Json;
use referee::session::message::SessionId;

fn app() -> App {
    App::new(None, None, Vec::new())
}

fn at<'a>(j: &'a Json, path: &[&str]) -> &'a Json {
    path.iter().fold(j, |j, key| j.get(key).unwrap())
}

fn typed(app: &mut App, text: &str) {
    for c in text.chars() {
        app.handle_key(Key::Char(c), false);
    }
}

fn entered(app: &mut App, text: &str) -> Request {
    typed(app, text);
    app.handle_key(Key::Enter, false)
}

#[test]
fn build_spec_roundtrips_into_instance_spec() {
    let mut app = app();
    app.form.id = "my-agent".into();
    app.form.model = "deepseek/deepseek-v3".into();
    app.form.api_key = "sk-test".into();
    app.form.root = "/workspace".into();
    let v = app.build_spec();
    assert_eq!(at(&v, &["id"]).as_str(), Some("my-agent"));
    assert_eq!(at(&v, &["agent", "model"]).as_str(), Some("deepseek/deepseek-v3"));
    assert_eq!(at(&v, &["provider", "type"]).as_str(), Some("deepseek"));
    assert_eq!(at(&v, &["provider", "api_key"]).as_str(), Some("sk-test"));
    assert_eq!(at(&v, &["tools", "fs", "root"]).as_str(), Some("/workspace"));
}

#[test]
fn build_spec_template_mapping() {
    let mut app = app();
    app.form.template = "named:general".into();
    let v = app.build_spec();
    assert_eq!(at(&v, &["agent", "template", "named"]).as_str(), Some("general"));

    app.form.template = "inline:hello {{cwd}}".into();
    let v = app.build_spec();
    assert_eq!(at(&v, &["agent", "template", "inline"]).as_str(), Some("hello {{cwd}}"));

    app.form.template = "generic".into();
    let v = app.build_spec();
    assert_eq!(at(&v, &["agent", "template"]).as_str(), Some("generic"));
}

#[test]
fn ready_made_templates_keep_their_names() {
    let mut app = app();
    app.form.template = " deepseek ".into();
    assert_eq!(at(&app.build_spec(), &["agent", "template"]).as_str(), Some("deepseek"));
    app.form.template = "brief".into();
    assert_eq!(at(&app.build_spec(), &["agent", "template"]).as_str(), Some("generic"));
    let mut app = App::new(None, None, vec!["brief".into()]);
    app.form.template = "deepseek".into();
    assert_eq!(at(&app.build_spec(), &["agent", "template"]).as_str(), Some("deepseek"));
    app.form.template = "brief".into();
    assert_eq!(at(&app.build_spec(), &["agent", "template"]).as_str(), Some("brief"));
}

#[test]
fn a_form_asks_for_its_vendor() {
    let mut app = app();
    for (vendor, model) in [("deepseek", Some(&Json::Null)), ("xiaomi", None)] {
        app.form.provider = vendor.into();
        let v = app.build_spec();
        let provider = at(&v, &["provider"]);
        assert_eq!(at(provider, &["type"]).as_str(), Some(vendor));
        assert_eq!(provider.get("model"), model);
    }
    app.form.provider = "openai".into();
    assert_eq!(at(&app.build_spec(), &["provider", "model"]).as_str(), Some(""));
}

#[test]
fn history_cycles_and_resets() {
    let mut app = app();
    assert!(app.chat_history.is_empty());
    app.history_save("hi");
    app.history_save("hey");
    app.history_save("hi");
    assert_eq!(app.chat_history.len(), 2);

    app.history_prev();
    assert_eq!(app.chat_input, "hey");
    app.history_prev();
    assert_eq!(app.chat_input, "hi");
    app.history_next();
    assert_eq!(app.chat_input, "hey");
    app.history_next();
    assert!(app.history_index.is_none());
}

#[test]
fn start_new_session_clears_chat() {
    let mut app = app();
    app.session_id = "abc".into();
    app.chat_lines.push(ChatLine::user("x"));
    app.start_new_session();
    assert!(app.session_id.is_empty());
    assert!(app.chat_lines.iter().any(|l| l.role == ChatRole::System));
}

#[test]
fn toggle_thinking_flips_last_assistant() {
    let mut app = app();
    app.chat_lines.push(ChatLine::user("q"));
    app.chat_lines.push(ChatLine::assistant("a"));
    assert!(!app.chat_lines[1].show_thinking);
    app.toggle_thinking();
    assert!(app.chat_lines[1].show_thinking);
    app.toggle_thinking();
    assert!(!app.chat_lines[1].show_thinking);
}

#[test]
fn a_line_is_edited_at_the_cursor() {
    let line = "help".to_string();
    assert_eq!(edit_text(&line, 1, Key::Char('i')), ("hielp".to_string(), 2));
    assert_eq!(edit_text(&line, 1, Key::Backspace), ("elp".to_string(), 0));
    assert_eq!(edit_text(&line, 0, Key::Backspace), (line.clone(), 0));
    assert_eq!(edit_text(&line, 1, Key::Delete), ("hlp".to_string(), 1));
    assert_eq!(edit_text(&line, 4, Key::Delete), (line.clone(), 4));
    assert_eq!(edit_text(&line, 0, Key::End), (line.clone(), 4));
    assert_eq!(edit_text(&line, 4, Key::Right), (line.clone(), 4));
    assert_eq!(edit_text(&line, 4, Key::Home), (line.clone(), 0));
    let (longer, cursor) = edit_text(&line, 2, Key::Char('!'));
    assert_eq!(edit_text(&longer, cursor, Key::Backspace), (line, 2));
}

#[test]
fn a_cursor_goes_byte_by_byte() {
    let line = "你好".to_string();
    assert_eq!(edit_text(&line, 3, Key::Char('们')), ("你们好".to_string(), 4));
    assert_eq!(edit_text(&"你们好".to_string(), 4, Key::Backspace), (line.clone(), 3));
    assert_eq!(edit_text(&line, 3, Key::Delete), ("你".to_string(), 3));
    assert_eq!(edit_text(&line, 0, Key::End), (line.clone(), 6));
    assert_eq!(edit_text(&line, 4, Key::Right), (line.clone(), 5));
    assert_eq!(edit_text(&line, 4, Key::Left), (line.clone(), 3));
    assert!(is_editable(&line, 6, Key::Char('!')));
    for at in [1, 2, 4, 7] {
        assert!(!is_editable(&line, at, Key::Char('!')));
    }
    assert!(!is_editable(&line, 6, Key::Backspace));
    assert!(!is_editable(&line, 7, Key::Backspace));
    assert!(!is_editable(&line, 1, Key::Delete));
    assert!(is_editable(&line, 6, Key::Delete));

    let mut app = app();
    app.handle_key(Key::Char('你'), false);
    assert_eq!((app.chat_input.as_str(), app.input_cursor), ("你", 1));
    assert!(!app.takes(Key::Char('好'), false));
    assert!(app.takes(Key::Char('w'), true));
    app.handle_key(Key::End, false);
    assert_eq!(app.input_cursor, 3);
    assert!(app.takes(Key::Char('好'), false));
    assert!(!app.takes(Key::Char('w'), true));
    assert!(app.takes(Key::Enter, false));
}

#[test]
fn a_command_is_known_by_its_first_word() {
    assert_eq!(command_name("  /help me"), "/help");
    assert_eq!(command_name("/quit"), "/quit");
    assert_eq!(command_name("  "), "  ");
    let mut app = app();
    app.run_command(" /help");
    assert!(matches!(app.modal, Some(Modal::Help)));
}

#[test]
fn a_word_before_the_cursor_is_deleted() {
    assert_eq!(delete_word(&"say hello  ".to_string(), 11), ("say ".to_string(), 4));
    assert_eq!(delete_word(&"say hello".to_string(), 3), (" hello".to_string(), 0));
    assert_eq!(delete_word(&String::new(), 0), (String::new(), 0));
}

fn instance(id: &str) -> InstanceInfo {
    InstanceInfo {
        id: InstanceId { name: id.into() },
        model: "m".into(),
        state: InstanceState::Running,
        sessions: 0,
        max_sessions: 1,
        consumed_tokens: 7,
        cache_entries: 0,
        created_at: String::new(),
    }
}

fn session(id: &str, messages: usize) -> SessionInfo {
    SessionInfo { id: id.into(), messages, phase: "idle".into(), consumed_tokens: 0 }
}

#[test]
fn what_is_typed_is_said() {
    let mut app = app();
    app.set_instances(vec![instance("one")]);
    app.startup();
    assert_eq!(app.instance_id, "one");
    match entered(&mut app, "  hello ") {
        Request::Chat(text) => assert_eq!(text, "hello"),
        other => panic!("nothing was said: {other:?}"),
    }
    assert!(app.chat_input.is_empty());
    assert_eq!(app.chat_history, vec!["hello"]);

    let asked = app.begin_chat("hello", "new-session".into());
    assert_eq!(at(&asked, &["session_id"]).as_str(), Some("new-session"));
    assert_eq!(at(&asked, &["stream"]).as_bool(), Some(true));
    app.chat_opened();
    assert!(app.chat_active);

    assert!(matches!(entered(&mut app, "more"), Request::Nothing), "one answer at a time");
    assert!(matches!(app.handle_key(Key::Esc, false), Request::Interrupt));

    app.poll_chat(
        vec![
            ChatEvent::Delta { content: "hi ".into(), reasoning: "hm".into() },
            ChatEvent::Delta { content: "you".into(), reasoning: String::new() },
            ChatEvent::Finish { reason: "stop".into() },
        ],
        false,
    );
    assert!(!app.chat_active);
    let last = app.chat_lines.last().unwrap();
    assert_eq!((last.text.as_str(), last.reasoning.as_str()), ("hi you", "hm"));
    assert!(app.status.contains("stop"));
}

#[test]
fn a_new_session_gets_an_identity() {
    let mut app = app();
    let asked = app.start_chat("hello");
    let id = SessionId::from_text(&app.session_id).expect("an identity");
    assert_eq!(at(&asked, &["session_id"]).as_str(), Some(id.to_text().as_str()));
    app.start_chat("more");
    assert_eq!(SessionId::from_text(&app.session_id), Some(id));
    assert_eq!(app.chat_lines.len(), 4);
}

#[test]
fn a_conversation_that_breaks_off_is_reported() {
    let mut app = app();
    app.chat_opened();
    app.apply_chat_event(ChatEvent::Error { message: "lost".into() });
    assert!(app.status_error && app.status.contains("lost") && !app.chat_active);
    app.begin_chat("again", "s".into());
    app.chat_failed("no daemon");
    assert!(app.status_error && app.status.contains("no daemon"));
}

#[test]
fn commands_are_followed() {
    let mut app = app();
    assert!(matches!(entered(&mut app, "/list"), Request::Instances));
    entered(&mut app, "/sessions");
    assert!(app.status_error, "there is no instance to list sessions of");
    app.instance_id = "one".into();
    assert!(matches!(entered(&mut app, "/sessions"), Request::Sessions));
    app.push_system("note");
    entered(&mut app, "/clear");
    assert!(app.chat_lines.is_empty());
    entered(&mut app, "/dance now");
    assert!(app.status.contains("/dance") && app.status_error);
    entered(&mut app, "/help");
    assert_eq!(app.modal, Some(Modal::Help));
    app.handle_key(Key::Esc, false);
    assert_eq!(app.modal, None);
    entered(&mut app, "/quit");
    assert!(app.should_quit);
    assert_eq!(commands().len(), 6);
}

#[test]
fn a_form_is_filled_in_and_sent() {
    let mut app = app();
    entered(&mut app, "/new");
    assert_eq!(app.modal, Some(Modal::New));
    typed(&mut app, "botx");
    app.handle_key(Key::Backspace, false);
    assert_eq!(app.form.id, "bot");
    app.handle_key(Key::BackTab, false);
    assert_eq!(app.form_field, FORM_FIELDS - 1);
    app.handle_key(Key::Tab, false);
    assert_eq!(app.form_field, 0);
    match app.handle_key(Key::Enter, false) {
        Request::Create(spec) => assert_eq!(at(&spec, &["id"]).as_str(), Some("bot")),
        other => panic!("nothing is made: {other:?}"),
    }
    assert_eq!(CreateForm::labels().len(), FORM_FIELDS);
    *app.form.field_mut(2) = "model".into();
    assert_eq!(app.form.field(2), "model");
}

#[test]
fn another_instance_is_chosen_and_its_busiest_session_goes_on() {
    let mut app = app();
    app.set_instances(vec![instance("one"), instance("two")]);
    app.startup();
    app.open_switch();
    assert_eq!(app.instance_selected, 0);
    app.handle_key(Key::Down, false);
    app.handle_key(Key::Down, false);
    assert!(matches!(app.handle_key(Key::Enter, false), Request::Attach));
    assert_eq!((app.instance_id.as_str(), app.consumed_tokens), ("two", 7));
    app.set_sessions(vec![session("quiet", 1), session("busy-session-id", 5), session("new", 0)]);
    app.attached();
    assert_eq!(app.session_id, "busy-session-id");
    assert!(app.chat_lines[0].text.contains(&short_id("busy-session-id")));
    assert_eq!(short_id("busy-session-id"), "busy-ses");
    assert_eq!(app.find_instance("two"), Some(1));
    assert_eq!(app.find_instance("three"), None);
}

#[test]
fn lists_are_kept_within_their_ends() {
    let mut app = app();
    app.select_next_instance();
    assert_eq!(app.instance_selected, 0);
    app.set_instances(vec![instance("a"), instance("b")]);
    app.select_next_instance();
    app.select_next_instance();
    assert_eq!(app.instance_selected, 1);
    app.set_instances(vec![instance("a")]);
    assert_eq!(app.instance_selected, 0);
    app.set_sessions(vec![session("a", 0), session("b", 0)]);
    app.select_next_session();
    app.select_prev_session();
    app.select_prev_session();
    assert_eq!(app.session_selected, 0);
    app.chat_scroll_prev();
    assert_eq!(app.chat_scroll, 5);
    app.chat_scroll_next();
    app.chat_scroll_next();
    assert_eq!(app.chat_scroll, 0);
}

#[test]
fn control_keys_empty_the_line_and_leave() {
    let mut app = app();
    typed(&mut app, "some words");
    app.handle_key(Key::Char('w'), true);
    assert_eq!(app.chat_input, "some ");
    app.handle_key(Key::Char('u'), true);
    assert!(app.chat_input.is_empty());
    app.handle_key(Key::Char('c'), true);
    assert!(app.should_quit);
}
