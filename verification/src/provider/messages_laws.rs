//! What the messages format promises, said by the names and values on the wire.

use vstd::prelude::*;
use vstd::string::*;

use crate::json::{find, json_text, parsed, JsonView, NumberView};
use crate::provider::anthropic_compat::{
    add_block, assistant_blocks_of, blocks_of, call_addition, chunk_of, common_body, delta_of,
    input_of, message_json, other_messages, part_block, read_blocks, response_of, source_json,
    start_of, stop_reason, system_texts, text_block, tool_json, tool_use_of, usage_at, usage_of,
    use_block, BlocksView,
};
use crate::provider::completions_laws::{
    count_value, lemma_object1, lemma_object2, lemma_object3, lemma_with, text_value,
};
use crate::provider::content::{ContentPartView, MediaResolution, MediaSourceView};
use crate::provider::openai_compat::object1;
use crate::provider::{
    ChatResponseView, FinishReasonView, LlmErrorView, MessageContentView, MessageView, Role,
    StreamChunkView, ToolCallView, ToolChoice, ToolDeclarationView,
};
use crate::text::join;

verus! {

broadcast use vstd::string::group_string_axioms;

/// The names of blocks differ.
pub proof fn lemma_block_names()
    ensures
        "type"@ != "id"@,
        "type"@ != "name"@,
        "type"@ != "input"@,
        "type"@ != "url"@,
        "type"@ != "media_type"@,
        "type"@ != "data"@,
        "type"@ != "text"@,
        "type"@ != "source"@,
        "type"@ != "fps"@,
        "type"@ != "media_resolution"@,
        "type"@ != "thinking"@,
        "type"@ != "tool_use_id"@,
        "type"@ != "content"@,
        "type"@ != "role"@,
        "type"@ != "description"@,
        "type"@ != "input_schema"@,
        "id"@ != "name"@,
        "id"@ != "input"@,
        "id"@ != "url"@,
        "id"@ != "media_type"@,
        "id"@ != "data"@,
        "id"@ != "text"@,
        "id"@ != "source"@,
        "id"@ != "fps"@,
        "id"@ != "media_resolution"@,
        "id"@ != "thinking"@,
        "id"@ != "tool_use_id"@,
        "id"@ != "content"@,
        "id"@ != "role"@,
        "id"@ != "description"@,
        "id"@ != "input_schema"@,
        "name"@ != "input"@,
        "name"@ != "url"@,
        "name"@ != "media_type"@,
        "name"@ != "data"@,
        "name"@ != "text"@,
        "name"@ != "source"@,
        "name"@ != "fps"@,
        "name"@ != "media_resolution"@,
        "name"@ != "thinking"@,
        "name"@ != "tool_use_id"@,
        "name"@ != "content"@,
        "name"@ != "role"@,
        "name"@ != "description"@,
        "name"@ != "input_schema"@,
        "input"@ != "url"@,
        "input"@ != "media_type"@,
        "input"@ != "data"@,
        "input"@ != "text"@,
        "input"@ != "source"@,
        "input"@ != "fps"@,
        "input"@ != "media_resolution"@,
        "input"@ != "thinking"@,
        "input"@ != "tool_use_id"@,
        "input"@ != "content"@,
        "input"@ != "role"@,
        "input"@ != "description"@,
        "input"@ != "input_schema"@,
        "url"@ != "media_type"@,
        "url"@ != "data"@,
        "url"@ != "text"@,
        "url"@ != "source"@,
        "url"@ != "fps"@,
        "url"@ != "media_resolution"@,
        "url"@ != "thinking"@,
        "url"@ != "tool_use_id"@,
        "url"@ != "content"@,
        "url"@ != "role"@,
        "url"@ != "description"@,
        "url"@ != "input_schema"@,
        "media_type"@ != "data"@,
        "media_type"@ != "text"@,
        "media_type"@ != "source"@,
        "media_type"@ != "fps"@,
        "media_type"@ != "media_resolution"@,
        "media_type"@ != "thinking"@,
        "media_type"@ != "tool_use_id"@,
        "media_type"@ != "content"@,
        "media_type"@ != "role"@,
        "media_type"@ != "description"@,
        "media_type"@ != "input_schema"@,
        "data"@ != "text"@,
        "data"@ != "source"@,
        "data"@ != "fps"@,
        "data"@ != "media_resolution"@,
        "data"@ != "thinking"@,
        "data"@ != "tool_use_id"@,
        "data"@ != "content"@,
        "data"@ != "role"@,
        "data"@ != "description"@,
        "data"@ != "input_schema"@,
        "text"@ != "source"@,
        "text"@ != "fps"@,
        "text"@ != "media_resolution"@,
        "text"@ != "thinking"@,
        "text"@ != "tool_use_id"@,
        "text"@ != "content"@,
        "text"@ != "role"@,
        "text"@ != "description"@,
        "text"@ != "input_schema"@,
        "source"@ != "fps"@,
        "source"@ != "media_resolution"@,
        "source"@ != "thinking"@,
        "source"@ != "tool_use_id"@,
        "source"@ != "content"@,
        "source"@ != "role"@,
        "source"@ != "description"@,
        "source"@ != "input_schema"@,
        "fps"@ != "media_resolution"@,
        "fps"@ != "thinking"@,
        "fps"@ != "tool_use_id"@,
        "fps"@ != "content"@,
        "fps"@ != "role"@,
        "fps"@ != "description"@,
        "fps"@ != "input_schema"@,
        "media_resolution"@ != "thinking"@,
        "media_resolution"@ != "tool_use_id"@,
        "media_resolution"@ != "content"@,
        "media_resolution"@ != "role"@,
        "media_resolution"@ != "description"@,
        "media_resolution"@ != "input_schema"@,
        "thinking"@ != "tool_use_id"@,
        "thinking"@ != "content"@,
        "thinking"@ != "role"@,
        "thinking"@ != "description"@,
        "thinking"@ != "input_schema"@,
        "tool_use_id"@ != "content"@,
        "tool_use_id"@ != "role"@,
        "tool_use_id"@ != "description"@,
        "tool_use_id"@ != "input_schema"@,
        "content"@ != "role"@,
        "content"@ != "description"@,
        "content"@ != "input_schema"@,
        "role"@ != "description"@,
        "role"@ != "input_schema"@,
        "description"@ != "input_schema"@,
{
    reveal_strlit("type");
    reveal_strlit("id");
    reveal_strlit("name");
    reveal_strlit("input");
    reveal_strlit("url");
    reveal_strlit("media_type");
    reveal_strlit("data");
    reveal_strlit("text");
    reveal_strlit("source");
    reveal_strlit("fps");
    reveal_strlit("media_resolution");
    reveal_strlit("thinking");
    reveal_strlit("tool_use_id");
    reveal_strlit("content");
    reveal_strlit("role");
    reveal_strlit("description");
    reveal_strlit("input_schema");
    assert("type"@.len() == 4);
    assert("id"@.len() == 2);
    assert("name"@.len() == 4);
    assert("input"@.len() == 5);
    assert("url"@.len() == 3);
    assert("media_type"@.len() == 10);
    assert("data"@.len() == 4);
    assert("text"@.len() == 4);
    assert("source"@.len() == 6);
    assert("fps"@.len() == 3);
    assert("media_resolution"@.len() == 16);
    assert("thinking"@.len() == 8);
    assert("tool_use_id"@.len() == 11);
    assert("content"@.len() == 7);
    assert("role"@.len() == 4);
    assert("description"@.len() == 11);
    assert("input_schema"@.len() == 12);
    assert("type"@[0] != "name"@[0]);
    assert("type"@[0] != "data"@[0]);
    assert("type"@[1] != "text"@[1]);
    assert("type"@[0] != "role"@[0]);
    assert("name"@[0] != "data"@[0]);
    assert("name"@[0] != "text"@[0]);
    assert("name"@[0] != "role"@[0]);
    assert("url"@[0] != "fps"@[0]);
    assert("data"@[0] != "text"@[0]);
    assert("data"@[0] != "role"@[0]);
    assert("text"@[0] != "role"@[0]);
    assert("tool_use_id"@[0] != "description"@[0]);
}

/// The names of a body differ.
pub proof fn lemma_messages_body_names()
    ensures
        "model"@ != "max_tokens"@,
        "model"@ != "messages"@,
        "model"@ != "system"@,
        "model"@ != "tools"@,
        "model"@ != "tool_choice"@,
        "model"@ != "temperature"@,
        "max_tokens"@ != "messages"@,
        "max_tokens"@ != "system"@,
        "max_tokens"@ != "tools"@,
        "max_tokens"@ != "tool_choice"@,
        "max_tokens"@ != "temperature"@,
        "messages"@ != "system"@,
        "messages"@ != "tools"@,
        "messages"@ != "tool_choice"@,
        "messages"@ != "temperature"@,
        "system"@ != "tools"@,
        "system"@ != "tool_choice"@,
        "system"@ != "temperature"@,
        "tools"@ != "tool_choice"@,
        "tools"@ != "temperature"@,
        "tool_choice"@ != "temperature"@,
{
    reveal_strlit("model");
    reveal_strlit("max_tokens");
    reveal_strlit("messages");
    reveal_strlit("system");
    reveal_strlit("tools");
    reveal_strlit("tool_choice");
    reveal_strlit("temperature");
    assert("model"@.len() == 5);
    assert("max_tokens"@.len() == 10);
    assert("messages"@.len() == 8);
    assert("system"@.len() == 6);
    assert("tools"@.len() == 5);
    assert("tool_choice"@.len() == 11);
    assert("temperature"@.len() == 11);
    assert("model"@[0] != "tools"@[0]);
    assert("tool_choice"@[1] != "temperature"@[1]);
}

/// The kinds of blocks differ.
pub proof fn lemma_kind_names()
    ensures
        "text"@ != "thinking"@,
        "text"@ != "tool_use"@,
        "thinking"@ != "tool_use"@,
{
    reveal_strlit("text");
    reveal_strlit("thinking");
    reveal_strlit("tool_use");
    assert("text"@.len() == 4);
    assert("thinking"@.len() == 8);
    assert("tool_use"@.len() == 8);
    assert("thinking"@[1] != "tool_use"@[1]);
}

/// The kinds of events differ.
pub proof fn lemma_event_names()
    ensures
        "content_block_start"@ != "content_block_delta"@,
        "content_block_start"@ != "message_delta"@,
        "content_block_delta"@ != "message_delta"@,
{
    reveal_strlit("content_block_start");
    reveal_strlit("content_block_delta");
    reveal_strlit("message_delta");
    assert("content_block_start"@.len() == 19);
    assert("content_block_delta"@.len() == 19);
    assert("message_delta"@.len() == 13);
    assert("content_block_start"@[14] != "content_block_delta"@[14]);
}

/// The kinds of additions differ.
pub proof fn lemma_addition_names()
    ensures
        "text_delta"@ != "thinking_delta"@,
        "text_delta"@ != "input_json_delta"@,
        "thinking_delta"@ != "input_json_delta"@,
{
    reveal_strlit("text_delta");
    reveal_strlit("thinking_delta");
    reveal_strlit("input_json_delta");
    assert("text_delta"@.len() == 10);
    assert("thinking_delta"@.len() == 14);
    assert("input_json_delta"@.len() == 16);
}

/// A tool call on the wire: its kind, its id, its name, and its arguments as the value
/// that they are the text of.
pub proof fn law_call_on_the_wire(c: ToolCallView, v: JsonView)
    ensures
        use_block(c).get("type"@) == text_value("tool_use"@),
        use_block(c).get("id"@) == text_value(c.id),
        use_block(c).get("name"@) == text_value(c.name),
        parsed(c.arguments) == Ok::<JsonView, Seq<char>>(v) ==> use_block(c).get("input"@) == Some(
            v,
        ),
        parsed(c.arguments) is Err ==> use_block(c).get("input"@) == Some(JsonView::Null),
{
    lemma_block_names();
    reveal_with_fuel(find, 6);
    let f = use_block(c)->Object_0;
    assert(f.drop_first()[0] == f[1]);
    assert(f.drop_first().drop_first()[0] == f[2]);
    assert(f.drop_first().drop_first().drop_first()[0] == f[3]);
}

/// A tool call is read from a block with an id and a name, and from no other; its
/// arguments are the text of the block's input.
pub proof fn law_call_is_read(b: JsonView, id: Seq<char>, name: Seq<char>, v: JsonView)
    ensures
        b.get("id"@) == text_value(id) && b.get("name"@) == text_value(name) ==> {
            &&& tool_use_of(b) matches Some(c)
            &&& c.id == id
            &&& c.name == name
            &&& b.get("input"@) == Some(v) && !(v is Null) ==> c.arguments == json_text(v)
            &&& b.get("input"@) is None || b.get("input"@) == Some(JsonView::Null)
                ==> c.arguments.len() == 0
        },
        b.get("id"@) is None || b.get("name"@) is None ==> tool_use_of(b) is None,
{
}

/// A medium on the wire.
pub proof fn law_medium_on_the_wire(a: Seq<char>, b: Seq<char>)
    ensures
        source_json(MediaSourceView::Url(a)).get("type"@) == text_value("url"@),
        source_json(MediaSourceView::Url(a)).get("url"@) == text_value(a),
        source_json(MediaSourceView::Base64(a, b)).get("type"@) == text_value("base64"@),
        source_json(MediaSourceView::Base64(a, b)).get("media_type"@) == text_value(a),
        source_json(MediaSourceView::Base64(a, b)).get("data"@) == text_value(b),
        source_json(MediaSourceView::FileId(a)).get("type"@) == text_value("url"@),
        source_json(MediaSourceView::FileId(a)).get("url"@) == text_value("ms://"@ + a),
{
    lemma_block_names();
    lemma_object2("type"@, JsonView::Text("url"@), "url"@, JsonView::Text(a));
    lemma_object2("type"@, JsonView::Text("url"@), "url"@, JsonView::Text("ms://"@ + a));
    lemma_object3(
        "type"@,
        JsonView::Text("base64"@),
        "media_type"@,
        JsonView::Text(a),
        "data"@,
        JsonView::Text(b),
    );
}

/// A part on the wire names its kind, and has what it shows.
pub proof fn law_part_on_the_wire(p: ContentPartView)
    ensures
        p matches ContentPartView::Text(t) ==> part_block(p).get("type"@) == text_value("text"@)
            && part_block(p).get("text"@) == text_value(t),
        p matches ContentPartView::Image(s, d) ==> part_block(p).get("type"@) == text_value(
            "image"@,
        ) && part_block(p).get("source"@) == Some(source_json(s)),
        p matches ContentPartView::Video(s, params) ==> part_block(p).get("type"@) == text_value(
            "video"@,
        ) && part_block(p).get("source"@) == Some(source_json(s)) && part_block(p).get("fps"@) == (
        match params.fps {
            Some(n) => Some(JsonView::Number(n)),
            None => None,
        }) && part_block(p).get("media_resolution"@) == (match params.media_resolution {
            Some(MediaResolution::Default) => text_value("default"@),
            Some(MediaResolution::Max) => text_value("max"@),
            None => None,
        }),
        p is Audio ==> part_block(p).get("type"@) == text_value("text"@) && part_block(p).get(
            "text"@,
        ) == text_value("[audio media omitted]"@),
{
    lemma_block_names();
    match p {
        ContentPartView::Text(t) => {
            lemma_object2("type"@, JsonView::Text("text"@), "text"@, JsonView::Text(t));
        },
        ContentPartView::Image(s, d) => {
            lemma_object2("type"@, JsonView::Text("image"@), "source"@, source_json(s));
        },
        ContentPartView::Video(s, params) => {
            lemma_object2("type"@, JsonView::Text("video"@), "source"@, source_json(s));
            let v = crate::provider::openai_compat::object2(
                "type"@,
                JsonView::Text("video"@),
                "source"@,
                source_json(s),
            );
            let w = match params.fps {
                Some(n) => v.with("fps"@, JsonView::Number(n)),
                None => v,
            };
            if let Some(n) = params.fps {
                lemma_with(v, "fps"@, JsonView::Number(n));
            }
            if let Some(m) = params.media_resolution {
                lemma_with(
                    w,
                    "media_resolution"@,
                    JsonView::Text(crate::provider::openai_compat::resolution_name(m)),
                );
            }
        },
        ContentPartView::Audio(s) => {
            lemma_object2(
                "type"@,
                JsonView::Text("text"@),
                "text"@,
                JsonView::Text("[audio media omitted]"@),
            );
        },
    }
}

/// The blocks of a content: one of its text, or one for each of its parts in order.
pub proof fn law_blocks_on_the_wire(c: MessageContentView)
    ensures
        c matches MessageContentView::Text(t) ==> {
            &&& blocks_of(c).len() == 1
            &&& blocks_of(c)[0].get("type"@) == text_value("text"@)
            &&& blocks_of(c)[0].get("text"@) == text_value(t)
        },
        c matches MessageContentView::Multimodal(ps) ==> blocks_of(c).len() == ps.len() && forall|
            i: int,
        |
            0 <= i < ps.len() ==> #[trigger] blocks_of(c)[i] == part_block(ps[i]),
{
    lemma_block_names();
    if let MessageContentView::Text(t) = c {
        lemma_object2("type"@, JsonView::Text("text"@), "text"@, JsonView::Text(t));
    }
}

/// A message on the wire: of the user or of the assistant; a result of a tool is said
/// by the user, under the id of its call; an answer of the assistant has its content,
/// its thoughts and its calls, in this order.
pub proof fn law_message_on_the_wire(m: MessageView, t: Seq<char>)
    ensures
        m.role == Role::User || m.role == Role::Tool ==> message_json(m).get("role"@)
            == text_value("user"@),
        m.role == Role::Assistant ==> message_json(m).get("role"@) == text_value("assistant"@),
        m.role == Role::User ==> message_json(m).get("content"@) == Some(
            JsonView::List(blocks_of(m.content)),
        ),
        m.role == Role::Tool ==> (message_json(m).get("content"@) matches Some(JsonView::List(l))
            && l.len() == 1 && l[0].get("type"@) == text_value("tool_result"@) && l[0].get(
            "tool_use_id"@,
        ) == text_value(
            match m.tool_call_id {
                Some(id) => id,
                None => Seq::empty(),
            },
        ) && (m.content == MessageContentView::Text(t) ==> l[0].get("content"@) == text_value(t))
            && (m.content is Multimodal ==> l[0].get("content"@) == Some(
            JsonView::List(blocks_of(m.content)),
        ))),
        m.role == Role::Assistant ==> (message_json(m).get("content"@) matches Some(
            JsonView::List(l),
        ) && ({
            let n = blocks_of(m.content).len();
            let k: nat = if m.reasoning_content is Some && m.reasoning_content->0.len() > 0 {
                1
            } else {
                0
            };
            &&& l.len() == n + k + m.tool_calls.len()
            &&& l.take(n as int) == blocks_of(m.content)
            &&& k == 1 ==> l[n as int].get("type"@) == text_value("thinking"@) && l[n as int].get(
                "thinking"@,
            ) == text_value(m.reasoning_content->0)
            &&& forall|i: int|
                0 <= i < m.tool_calls.len() ==> l[n + k + i] == #[trigger] use_block(
                    m.tool_calls[i],
                )
        })),
{
    lemma_block_names();
    let role = JsonView::Text(crate::provider::anthropic_compat::role_name(m.role));
    let content = message_json(m)->Object_0[1].1;
    lemma_object2("role"@, role, "content"@, content);
    if m.role == Role::Tool {
        let id = JsonView::Text(
            match m.tool_call_id {
                Some(id) => id,
                None => Seq::empty(),
            },
        );
        let c = match m.content {
            MessageContentView::Text(x) => JsonView::Text(x),
            MessageContentView::Multimodal(_) => JsonView::List(blocks_of(m.content)),
        };
        lemma_object3(
            "type"@,
            JsonView::Text("tool_result"@),
            "tool_use_id"@,
            id,
            "content"@,
            c,
        );
    }
    if m.role == Role::Assistant {
        let l = assistant_blocks_of(m);
        let n = blocks_of(m.content).len();
        assert(l.take(n as int) =~= blocks_of(m.content));
        if let Some(rc) = m.reasoning_content {
            lemma_object2("type"@, JsonView::Text("thinking"@), "thinking"@, JsonView::Text(rc));
        }
    }
}

/// A declaration on the wire has its name, its description and its parameters.
pub proof fn law_tool_on_the_wire(t: ToolDeclarationView)
    ensures
        tool_json(t).get("name"@) == text_value(t.name),
        tool_json(t).get("description"@) == text_value(t.description),
        tool_json(t).get("input_schema"@) == Some(t.parameters),
{
    lemma_block_names();
    lemma_object3(
        "name"@,
        JsonView::Text(t.name),
        "description"@,
        JsonView::Text(t.description),
        "input_schema"@,
        t.parameters,
    );
}

/// The texts of system messages are gathered, and every other message is sent, in order.
pub proof fn law_system_is_apart(messages: Seq<MessageView>, m: MessageView, t: Seq<char>)
    ensures
        system_texts(Seq::empty()).len() == 0,
        other_messages(Seq::empty()).len() == 0,
        m.role == Role::System && m.content == MessageContentView::Text(t) ==> system_texts(
            messages.push(m),
        ) == system_texts(messages).push(t) && other_messages(messages.push(m)) == other_messages(
            messages,
        ),
        m.role != Role::System ==> system_texts(messages.push(m)) == system_texts(messages)
            && other_messages(messages.push(m)) == other_messages(messages).push(message_json(m)),
{
    assert(messages.push(m).drop_last() =~= messages);
}

/// A body on the wire.
pub proof fn law_body_on_the_wire(
    messages: Seq<MessageView>,
    tools: Seq<ToolDeclarationView>,
    choice: ToolChoice,
    temperature: Option<NumberView>,
    max_tokens: usize,
    model: Seq<char>,
    other: Seq<char>,
)
    ensures
        ({
            let b = common_body(messages, tools, choice, temperature, max_tokens, model);
            &&& b is Object
            &&& b.get("model"@) == text_value(model)
            &&& b.get("max_tokens"@) == count_value(max_tokens as int)
            &&& b.get("messages"@) == Some(JsonView::List(other_messages(messages)))
            &&& system_texts(messages).len() == 0 ==> b.get("system"@) is None
            &&& system_texts(messages).len() > 0 ==> b.get("system"@) == text_value(
                join(system_texts(messages), "\n\n"@),
            )
            &&& tools.len() == 0 ==> b.get("tools"@) is None && b.get("tool_choice"@) is None
            &&& tools.len() > 0 ==> (b.get("tools"@) matches Some(JsonView::List(l)) && l.len()
                == tools.len() && forall|i: int|
                0 <= i < l.len() ==> #[trigger] l[i] == tool_json(tools[i]))
            &&& tools.len() > 0 && choice == ToolChoice::Auto ==> (b.get(
                "tool_choice"@,
            ) matches Some(c) && c.get("type"@) == text_value("auto"@))
            &&& tools.len() > 0 && choice == ToolChoice::Never ==> (b.get(
                "tool_choice"@,
            ) matches Some(c) && c.get("type"@) == text_value("none"@))
            &&& tools.len() > 0 && choice == ToolChoice::Required ==> (b.get(
                "tool_choice"@,
            ) matches Some(c) && c.get("type"@) == text_value("any"@))
            &&& b.get("temperature"@) == (match temperature {
                Some(t) => Some(JsonView::Number(t)),
                None => None,
            })
            &&& other != "model"@ && other != "max_tokens"@ && other != "messages"@ && other
                != "system"@ && other != "tools"@ && other != "tool_choice"@ && other
                != "temperature"@ ==> b.get(other) is None
        }),
{
    lemma_messages_body_names();
    let mv = JsonView::Text(model);
    let xv = JsonView::Number(NumberView::Unsigned(max_tokens as u64));
    let lv = JsonView::List(other_messages(messages));
    let a = crate::provider::openai_compat::object3(
        "model"@,
        mv,
        "max_tokens"@,
        xv,
        "messages"@,
        lv,
    );
    lemma_object3("model"@, mv, "max_tokens"@, xv, "messages"@, lv);
    let sv = JsonView::Text(join(system_texts(messages), "\n\n"@));
    let b = if system_texts(messages).len() > 0 {
        a.with("system"@, sv)
    } else {
        a
    };
    lemma_with(a, "system"@, sv);
    let tv = JsonView::List(tools.map_values(|t: ToolDeclarationView| tool_json(t)));
    let nv = JsonView::Text(crate::provider::anthropic_compat::choice_name(choice));
    let cv = object1("type"@, nv);
    lemma_object1("type"@, nv);
    let c = if tools.len() > 0 {
        b.with("tools"@, tv).with("tool_choice"@, cv)
    } else {
        b
    };
    lemma_with(b, "tools"@, tv);
    lemma_with(b.with("tools"@, tv), "tool_choice"@, cv);
    if let Some(t) = temperature {
        lemma_with(c, "temperature"@, JsonView::Number(t));
    }
}

/// Why the model stopped, by its name on the wire.
pub proof fn law_reason_is_read(s: Seq<char>)
    ensures
        stop_reason("end_turn"@) == FinishReasonView::Stop,
        stop_reason("stop_sequence"@) == FinishReasonView::Stop,
        stop_reason("max_tokens"@) == FinishReasonView::Length,
        stop_reason("tool_use"@) == FinishReasonView::ToolCalls,
        s != "end_turn"@ && s != "stop_sequence"@ && s != "max_tokens"@ && s != "tool_use"@
            ==> stop_reason(s) == FinishReasonView::Other(s),
{
    reveal_strlit("end_turn");
    reveal_strlit("stop_sequence");
    reveal_strlit("max_tokens");
    reveal_strlit("tool_use");
    assert("end_turn"@.len() == 8);
    assert("stop_sequence"@.len() == 13);
    assert("max_tokens"@.len() == 10);
    assert("tool_use"@.len() == 8);
    assert("end_turn"@[0] != "tool_use"@[0]);
}

/// The counts of a usage object, by their names; the total is their sum.
pub proof fn law_usage_is_read(u: JsonView, n: usize)
    ensures
        u.get("input_tokens"@) == count_value(n as int) ==> usage_of(u).prompt_tokens == n,
        u.get("input_tokens"@) is None ==> usage_of(u).prompt_tokens == 0,
        u.get("output_tokens"@) == count_value(n as int) ==> usage_of(u).completion_tokens == n,
        u.get("output_tokens"@) is None ==> usage_of(u).completion_tokens == 0,
        usage_of(u).prompt_tokens + usage_of(u).completion_tokens <= usize::MAX ==> usage_of(
            u,
        ).total_tokens == usage_of(u).prompt_tokens + usage_of(u).completion_tokens,
        u.get("cache_read_input_tokens"@) == count_value(n as int) ==> usage_of(
            u,
        ).cache_read_tokens == Some(n),
        u.get("cache_read_input_tokens"@) is None ==> usage_of(u).cache_read_tokens is None,
        u.get("cache_creation_input_tokens"@) == count_value(n as int) ==> usage_of(
            u,
        ).cache_write_tokens == Some(n),
        u.get("cache_creation_input_tokens"@) is None ==> usage_of(u).cache_write_tokens is None,
        usage_of(u).reasoning_tokens is None,
{
}

/// Token usage is read where there is one that is not null.
pub proof fn law_usage_is_found(j: JsonView, u: JsonView)
    ensures
        j.get("usage"@) == Some(u) && !(u is Null) ==> usage_at(j) == Some(usage_of(u)),
        j.get("usage"@) == Some(JsonView::Null) || j.get("usage"@) is None ==> usage_at(j) is None,
{
}

/// Blocks are read in their order: texts are joined, thoughts are joined, calls are
/// gathered, and what is none of these is passed over.
pub proof fn law_blocks_are_read(blocks: Seq<JsonView>, b: JsonView, t: Seq<char>, c: ToolCallView)
    ensures
        ({
            let before = read_blocks(blocks);
            let after = read_blocks(blocks.push(b));
            &&& b.get("type"@) == text_value("text"@) && b.get("text"@) == text_value(t)
                ==> after.text == before.text + t && after.thoughts == before.thoughts
                && after.calls == before.calls
            &&& b.get("type"@) == text_value("thinking"@) && b.get("thinking"@) == text_value(t)
                ==> after.thoughts == before.thoughts + t && after.text == before.text
                && after.calls == before.calls
            &&& b.get("type"@) == text_value("tool_use"@) && tool_use_of(b) == Some(c)
                ==> after.calls == before.calls.push(c) && after.text == before.text
                && after.thoughts == before.thoughts
            &&& b.get("type"@) == text_value(t) && t != "text"@ && t != "thinking"@ && t
                != "tool_use"@ ==> after == before
            &&& b.get("type"@) is None ==> after == before
        }),
        read_blocks(Seq::empty()).text.len() == 0,
        read_blocks(Seq::empty()).thoughts.len() == 0,
        read_blocks(Seq::empty()).calls.len() == 0,
{
    assert(blocks.push(b).drop_last() =~= blocks);
    lemma_kind_names();
}

/// A response that a vendor sends in one piece is read.
pub proof fn law_response_is_read(
    json: JsonView,
    id: Seq<char>,
    model: Seq<char>,
    blocks: Seq<JsonView>,
    reason: Seq<char>,
)
    requires
        json.get("id"@) == text_value(id),
        json.get("model"@) == text_value(model),
        json.get("content"@) == Some(JsonView::List(blocks)),
    ensures
        response_of(json) matches Ok(r) && {
            let b = read_blocks(blocks);
            &&& r.id == id
            &&& r.model == model
            &&& r.message.role == Role::Assistant
            &&& r.message.content == MessageContentView::Text(b.text)
            &&& r.message.reasoning_content == (if b.thoughts.len() > 0 {
                Some(b.thoughts)
            } else {
                None
            })
            &&& r.message.tool_calls == b.calls
            &&& r.message.tool_call_id is None
            &&& r.message.usage == r.usage
            &&& r.usage == usage_at(json)
            &&& json.get("stop_reason"@) == text_value(reason) ==> r.finish_reason == stop_reason(
                reason,
            )
            &&& json.get("stop_reason"@) is None ==> r.finish_reason == FinishReasonView::Stop
        },
{
}

/// A response that lacks its id or its model is refused, and it is said which.
pub proof fn law_response_lacks(json: JsonView, id: Seq<char>)
    ensures
        json.get("id"@) is None ==> response_of(json) == Err::<ChatResponseView, LlmErrorView>(
            LlmErrorView::Protocol("missing 'id' in response"@),
        ),
        json.get("id"@) == text_value(id) && json.get("model"@) is None ==> response_of(json)
            == Err::<ChatResponseView, LlmErrorView>(
            LlmErrorView::Protocol("missing 'model' in response"@),
        ),
{
    reveal_strlit("missing '");
    reveal_strlit("' in response");
    reveal_strlit("id");
    reveal_strlit("model");
    reveal_strlit("missing 'id' in response");
    reveal_strlit("missing 'model' in response");
    assert("missing '"@ + "id"@ + "' in response"@ =~= "missing 'id' in response"@);
    assert("missing '"@ + "model"@ + "' in response"@ =~= "missing 'model' in response"@);
}

/// A message of the assistant is read back from the blocks that it is sent as: its text,
/// its thoughts and its calls.
pub proof fn law_answer_roundtrip(m: MessageView, t: Seq<char>)
    requires
        m.content == MessageContentView::Text(t),
        forall|i: int|
            0 <= i < m.tool_calls.len() ==> {
                &&& parsed((#[trigger] m.tool_calls[i]).arguments) is Ok
                &&& !(parsed(m.tool_calls[i].arguments)->Ok_0 is Null)
                &&& json_text(parsed(m.tool_calls[i].arguments)->Ok_0)
                    == m.tool_calls[i].arguments
            },
    ensures
        read_blocks(assistant_blocks_of(m)).text == t,
        read_blocks(assistant_blocks_of(m)).calls == m.tool_calls,
        read_blocks(assistant_blocks_of(m)).thoughts == (match m.reasoning_content {
            Some(rc) => rc,
            None => Seq::empty(),
        }),
{
    lemma_block_names();
    lemma_kind_names();
    let l = assistant_blocks_of(m);
    let uses = m.tool_calls.map_values(|c: ToolCallView| use_block(c));
    let head = l.take(l.len() - uses.len());
    let tb = text_block(t);
    lemma_object2("type"@, JsonView::Text("text"@), "text"@, JsonView::Text(t));
    let first = Seq::<JsonView>::empty().push(tb);
    law_blocks_are_read(Seq::empty(), tb, t, m.tool_calls[0]);
    let none = read_blocks(Seq::empty());
    assert(none.text + t =~= t);
    assert(none.thoughts =~= Seq::empty());
    assert(none.calls =~= Seq::empty());
    if m.reasoning_content is Some && m.reasoning_content->0.len() > 0 {
        let rc = m.reasoning_content->0;
        let th = l[1];
        lemma_object2("type"@, JsonView::Text("thinking"@), "thinking"@, JsonView::Text(rc));
        law_blocks_are_read(first, th, rc, m.tool_calls[0]);
        assert(head =~= first.push(th));
        assert(Seq::<char>::empty() + rc =~= rc);
    } else {
        assert(head =~= first);
        if m.reasoning_content is Some {
            assert(m.reasoning_content->0 =~= Seq::empty());
        }
    }
    lemma_uses_are_read(head, m.tool_calls);
    assert(l =~= head + uses);
    assert(Seq::<ToolCallView>::empty() + m.tool_calls =~= m.tool_calls);
}

/// Blocks of calls are read behind other blocks.
proof fn lemma_uses_are_read(head: Seq<JsonView>, calls: Seq<ToolCallView>)
    requires
        forall|i: int|
            0 <= i < calls.len() ==> {
                &&& parsed((#[trigger] calls[i]).arguments) is Ok
                &&& !(parsed(calls[i].arguments)->Ok_0 is Null)
                &&& json_text(parsed(calls[i].arguments)->Ok_0) == calls[i].arguments
            },
    ensures
        ({
            let all = head + calls.map_values(|c: ToolCallView| use_block(c));
            &&& read_blocks(all).text == read_blocks(head).text
            &&& read_blocks(all).thoughts == read_blocks(head).thoughts
            &&& read_blocks(all).calls == read_blocks(head).calls + calls
        }),
    decreases calls.len(),
{
    let uses = calls.map_values(|c: ToolCallView| use_block(c));
    if calls.len() == 0 {
        assert(head + uses =~= head);
        assert(read_blocks(head).calls + calls =~= read_blocks(head).calls);
    } else {
        let front = calls.drop_last();
        assert forall|i: int| 0 <= i < front.len() implies {
            &&& parsed((#[trigger] front[i]).arguments) is Ok
            &&& !(parsed(front[i].arguments)->Ok_0 is Null)
            &&& json_text(parsed(front[i].arguments)->Ok_0) == front[i].arguments
        } by {
            assert(front[i] == calls[i]);
        }
        lemma_uses_are_read(head, front);
        let c = calls[calls.len() - 1];
        assert(calls.last() == c);
        let before = head + front.map_values(|c: ToolCallView| use_block(c));
        assert(head + uses =~= before.push(use_block(c)));
        crate::provider::anthropic_compat::law_tool_use_roundtrip(c);
        law_call_on_the_wire(c, JsonView::Null);
        law_blocks_are_read(before, use_block(c), Seq::empty(), c);
        assert((read_blocks(head).calls + front).push(c) =~= read_blocks(head).calls + calls);
    }
}

/// An event that begins a call says which call, and its id and its name.
pub proof fn law_call_begins(
    json: JsonView,
    cb: JsonView,
    n: u32,
    id: Seq<char>,
    name: Seq<char>,
)
    requires
        json.get("type"@) == text_value("content_block_start"@),
        json.get("content_block"@) == Some(cb),
        cb.get("type"@) == text_value("tool_use"@),
        cb.get("id"@) == text_value(id),
        cb.get("name"@) == text_value(name),
        json.get("index"@) == count_value(n as int),
    ensures
        chunk_of(json).0 matches Some(StreamChunkView::Delta(d)) && {
            &&& d.tool_calls.len() == 1
            &&& d.tool_calls[0].index == n
            &&& d.tool_calls[0].id == Some(id)
            &&& d.tool_calls[0].function matches Some(f)
            &&& f.name == Some(name)
            &&& f.arguments is None
            &&& d.content is None
            &&& d.reasoning_content is None
            &&& d.role is None
        },
        chunk_of(json).1 is None,
        chunk_of(json).2 is None,
{
    lemma_event_names();
}

/// An event that adds says what it adds, and to which call.
pub proof fn law_addition_is_read(json: JsonView, x: JsonView, n: u32, t: Seq<char>)
    requires
        json.get("type"@) == text_value("content_block_delta"@),
        json.get("delta"@) == Some(x),
        t.len() > 0,
    ensures
        x.get("type"@) == text_value("text_delta"@) && x.get("text"@) == text_value(t) ==> (
        chunk_of(json).0 matches Some(StreamChunkView::Delta(d)) && d.content == Some(t)
            && d.reasoning_content is None && d.tool_calls.len() == 0 && d.role is None),
        x.get("type"@) == text_value("thinking_delta"@) && x.get("thinking"@) == text_value(t) ==> (
        chunk_of(json).0 matches Some(StreamChunkView::Delta(d)) && d.reasoning_content == Some(t)
            && d.content is None && d.tool_calls.len() == 0 && d.role is None),
        x.get("type"@) == text_value("input_json_delta"@) && x.get("partial_json"@) == text_value(t)
            && json.get("index"@) == count_value(n as int) ==> (chunk_of(json).0 matches Some(
            StreamChunkView::Delta(d),
        ) && d.tool_calls.len() == 1 && d.tool_calls[0].index == n && d.tool_calls[0].id is None
            && (d.tool_calls[0].function matches Some(f) && f.arguments == Some(t)
            && f.name is None) && d.content is None && d.reasoning_content is None),
        chunk_of(json).1 is None,
        chunk_of(json).2 is None,
{
    lemma_event_names();
    lemma_addition_names();
}

/// An event that ends an answer says why, and what it cost.
pub proof fn law_end_is_read(json: JsonView, d: JsonView, reason: Seq<char>)
    requires
        json.get("type"@) == text_value("message_delta"@),
        json.get("delta"@) == Some(d),
    ensures
        chunk_of(json).0 is None,
        d.get("stop_reason"@) == text_value(reason) ==> chunk_of(json).1 == Some(
            stop_reason(reason),
        ),
        d.get("stop_reason"@) is None ==> chunk_of(json).1 is None,
        chunk_of(json).2 == usage_at(json),
{
    lemma_event_names();
}

/// Any other event gives nothing.
pub proof fn law_other_events(json: JsonView, kind: Seq<char>)
    requires
        json.get("type"@) == text_value(kind),
        kind != "content_block_start"@,
        kind != "content_block_delta"@,
        kind != "message_delta"@,
    ensures
        chunk_of(json).0 is None,
        chunk_of(json).1 is None,
        chunk_of(json).2 is None,
{
}

} // verus!
