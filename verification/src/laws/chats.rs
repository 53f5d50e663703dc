//! Laws of the documents that a chat is sent and answered as.
use vstd::prelude::*;
use vstd::string::*;
use crate::chat::{
    asks_for_tools, ChatMessageView, ChatRole, ChatToolDefinitionView, ToolCallView,
};
use crate::completions::{
    at, call_json, call_of, calls_of, chat_body, definition_json, message_json, response_of,
};
use crate::error::ErrorView;
use crate::json::JsonView;

verus! {

/// Whether a document has a member of a key.
pub open spec fn has_member(j: JsonView, key: Seq<char>) -> bool {
    j matches JsonView::Object(m) && m.dom().contains(key)
}

/// Whether a document has a text as a member of a key, where there is one, and no such member
/// otherwise.
pub open spec fn holds_text(j: JsonView, key: Seq<char>, text: Option<Seq<char>>) -> bool {
    match text {
        Some(s) => has_member(j, key) && j->Object_0[key] == JsonView::String(s),
        None => !has_member(j, key),
    }
}

/// A member of an object is what the object holds under its key; what is not there is null.
pub proof fn members_are_looked_up(m: Map<Seq<char>, JsonView>, j: JsonView, key: Seq<char>)
    ensures
        m.dom().contains(key) ==> at(JsonView::Object(m), key) == m[key],
        !m.dom().contains(key) ==> at(JsonView::Object(m), key) is Null,
        !(j is Object) ==> at(j, key) is Null,
{
}

proof fn lemma_message_keys()
    ensures
        "role"@ != "content"@,
        "role"@ != "tool_calls"@,
        "role"@ != "tool_call_id"@,
        "role"@ != "name"@,
        "content"@ != "tool_calls"@,
        "content"@ != "tool_call_id"@,
        "content"@ != "name"@,
        "tool_calls"@ != "tool_call_id"@,
        "tool_calls"@ != "name"@,
        "tool_call_id"@ != "name"@,
        "name"@ != "arguments"@,
        "name"@ != "description"@,
        "name"@ != "parameters"@,
        "description"@ != "parameters"@,
        "id"@ != "type"@,
        "id"@ != "function"@,
        "type"@ != "function"@,
        "model"@ != "messages"@,
        "model"@ != "tools"@,
        "messages"@ != "tools"@,
{
    reveal_strlit("role");
    reveal_strlit("content");
    reveal_strlit("tool_calls");
    reveal_strlit("tool_call_id");
    reveal_strlit("name");
    reveal_strlit("arguments");
    reveal_strlit("description");
    reveal_strlit("parameters");
    reveal_strlit("id");
    reveal_strlit("type");
    reveal_strlit("function");
    reveal_strlit("model");
    reveal_strlit("messages");
    reveal_strlit("tools");
    assert("role"@.len() == 4 && "content"@.len() == 7 && "tool_calls"@.len() == 10);
    assert("tool_call_id"@.len() == 12 && "name"@.len() == 4 && "arguments"@.len() == 9);
    assert("role"@[0] == 'r' && "name"@[0] == 'n');
    assert("description"@.len() == 11 && "parameters"@.len() == 10);
    assert("id"@.len() == 2 && "type"@.len() == 4 && "function"@.len() == 8);
    assert("model"@.len() == 5 && "messages"@.len() == 8 && "tools"@.len() == 5);
    assert("model"@[0] == 'm' && "tools"@[0] == 't');
}

/// The document of a tool call holds its identifier, its type, and the function with its name and
/// its arguments.
pub proof fn calls_are_written(c: ToolCallView)
    ensures
        holds_text(call_json(c), "id"@, Some(c.id)),
        holds_text(call_json(c), "type"@, Some(c.call_type)),
        has_member(call_json(c), "function"@),
        holds_text(at(call_json(c), "function"@), "name"@, Some(c.name)),
        holds_text(at(call_json(c), "function"@), "arguments"@, Some(c.arguments)),
{
    lemma_message_keys();
}

/// The document of a message holds the name of its role, and of the rest what the message has: its
/// text, its tool calls in order, the identifier of the call that it answers, and its name.
pub proof fn messages_are_written(m: ChatMessageView)
    ensures
        holds_text(
            message_json(m),
            "role"@,
            Some(
                match m.role {
                    ChatRole::System => "system"@,
                    ChatRole::User => "user"@,
                    ChatRole::Assistant => "assistant"@,
                    ChatRole::Tool => "tool"@,
                },
            ),
        ),
        holds_text(message_json(m), "content"@, m.content),
        holds_text(message_json(m), "tool_call_id"@, m.tool_call_id),
        holds_text(message_json(m), "name"@, m.name),
        match m.tool_calls {
            Some(calls) => has_member(message_json(m), "tool_calls"@) && (at(
                message_json(m),
                "tool_calls"@,
            ) matches JsonView::Array(written) && written.len() == calls.len() && forall|i: int|
                0 <= i < calls.len() ==> #[trigger] written[i] == call_json(calls[i])),
            None => !has_member(message_json(m), "tool_calls"@),
        },
{
    lemma_message_keys();
}

/// The document of a tool that is offered holds its type, and the function with its name, its
/// description and its parameters.
pub proof fn definitions_are_written(t: ChatToolDefinitionView)
    ensures
        holds_text(definition_json(t), "type"@, Some(t.tool_type)),
        has_member(definition_json(t), "function"@),
        holds_text(at(definition_json(t), "function"@), "name"@, Some(t.name)),
        holds_text(at(definition_json(t), "function"@), "description"@, Some(t.description)),
        has_member(at(definition_json(t), "function"@), "parameters"@),
        at(at(definition_json(t), "function"@), "parameters"@) == t.parameters,
{
    lemma_message_keys();
}

/// The body of a request holds the model, each message in order, and each tool in order, where
/// there are tools.
pub proof fn bodies_hold_model_messages_and_tools(
    model: Seq<char>,
    messages: Seq<ChatMessageView>,
    tools: Seq<ChatToolDefinitionView>,
)
    ensures
        holds_text(chat_body(model, messages, tools), "model"@, Some(model)),
        at(chat_body(model, messages, tools), "messages"@) matches JsonView::Array(written)
            && written.len() == messages.len() && forall|i: int|
            0 <= i < messages.len() ==> #[trigger] written[i] == message_json(messages[i]),
        tools.len() == 0 ==> !has_member(chat_body(model, messages, tools), "tools"@),
        tools.len() > 0 ==> (at(chat_body(model, messages, tools), "tools"@) matches JsonView::Array(
            written,
        ) && written.len() == tools.len() && forall|i: int|
            0 <= i < tools.len() ==> #[trigger] written[i] == definition_json(tools[i])),
{
    lemma_message_keys();
}

/// Without a choice a response is an error; otherwise its first choice counts, whatever the others
/// are: the role that its message names, or the assistant's; its text and its tool calls, where it
/// has them; and why the model finished, where the choice says so.
pub proof fn first_choices_count(j: JsonView)
    ensures
        match at(j, "choices"@) {
            JsonView::Array(choices) if choices.len() > 0 => {
                let message = at(choices[0], "message"@);
                &&& response_of(j) matches Ok(r)
                &&& r.message.role == if at(message, "role"@) == JsonView::String("system"@) {
                    ChatRole::System
                } else if at(message, "role"@) == JsonView::String("user"@) {
                    ChatRole::User
                } else if at(message, "role"@) == JsonView::String("tool"@) {
                    ChatRole::Tool
                } else {
                    ChatRole::Assistant
                }
                &&& forall|s: Seq<char>|
                    r.message.content == Some(s) <==> at(message, "content"@) == JsonView::String(s)
                &&& forall|s: Seq<char>|
                    r.finish_reason == Some(s) <==> at(choices[0], "finish_reason"@)
                        == JsonView::String(s)
                &&& r.message.tool_calls == calls_of(message)
                &&& r.message.tool_call_id is None
                &&& r.message.name is None
            },
            _ => response_of(j) matches Err(ErrorView::Runtime(text)) && text
                == "No choices in response"@,
        },
{
    reveal_strlit("system");
    reveal_strlit("user");
    reveal_strlit("tool");
    assert("system"@.len() == 6 && "user"@.len() == 4 && "tool"@.len() == 4);
    assert("user"@[0] == 'u' && "tool"@[0] == 't');
}

/// A document is a tool call where it has an identifier, and a function with a name and arguments,
/// all of them texts. A call without a type is that of a function.
pub proof fn calls_are_read(j: JsonView)
    ensures
        ({
            let id = at(j, "id"@);
            let name = at(at(j, "function"@), "name"@);
            let arguments = at(at(j, "function"@), "arguments"@);
            if id is String && name is String && arguments is String {
                call_of(j) matches Some(c) && {
                    &&& c.id == id->String_0
                    &&& c.name == name->String_0
                    &&& c.arguments == arguments->String_0
                    &&& at(j, "type"@) matches JsonView::String(t) ==> c.call_type == t
                    &&& !(at(j, "type"@) is String) ==> c.call_type == "function"@
                }
            } else {
                call_of(j) is None
            }
        }),
{
}

/// The tool calls of a message, one after the other: those that are none are passed over, and
/// without any there is no list of them.
pub proof fn calls_are_read_in_order(items: Seq<JsonView>, item: JsonView)
    ensures
        calls_in(Seq::empty()) is None,
        call_of(item) is None ==> calls_in(items.push(item)) == calls_in(items),
        call_of(item) matches Some(c) ==> calls_in(items.push(item)) == Some(
            match calls_in(items) {
                Some(before) => before.push(c),
                None => seq![c],
            },
        ),
{
    let all = items.push(item);
    let read = |j: JsonView| call_of(j);
    let holder = Map::<Seq<char>, JsonView>::empty();
    assert(all.drop_last() =~= items);
    assert(all.last() == item);
    let before = items.filter_map(read);
    let after = all.filter_map(read);
    assert(after == before + match call_of(item) {
        Some(c) => seq![c],
        None => Seq::empty(),
    });
    assert(at(
        JsonView::Object(holder.insert("tool_calls"@, JsonView::Array(items))),
        "tool_calls"@,
    ) == JsonView::Array(items));
    if let Some(c) = call_of(item) {
        assert(after =~= before.push(c));
        if before.len() == 0 {
            assert(after =~= seq![c]);
        }
    } else {
        assert(after =~= before);
    }
}

/// The tool calls of a message whose list of them is this.
pub open spec fn calls_in(items: Seq<JsonView>) -> Option<Seq<ToolCallView>> {
    calls_of(
        JsonView::Object(
            Map::<Seq<char>, JsonView>::empty().insert("tool_calls"@, JsonView::Array(items)),
        ),
    )
}

/// The tool calls of a message rest on its list of them alone; without such a list there are none.
pub proof fn calls_rest_on_their_list(message: JsonView)
    ensures
        match at(message, "tool_calls"@) {
            JsonView::Array(items) => calls_of(message) == calls_in(items),
            _ => calls_of(message) is None,
        },
{
}

/// A message asks for tools where it has at least one tool call.
pub proof fn messages_ask_for_tools(m: ChatMessageView)
    ensures
        m.tool_calls is None ==> !asks_for_tools(m),
        m.tool_calls matches Some(calls) ==> (asks_for_tools(m) <==> calls.len() > 0),
{
}

} // verus!
