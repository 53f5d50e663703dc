//! The chat completions API: where a chat is sent, the body of the request, and what the
//! response holds.
use serde_json::Value as Document;
use vstd::prelude::*;
use vstd::string::*;
use crate::chat::{
    calls_view, definitions_view, messages_view, plain_message, ChatMessage,
    ChatMessageView, ChatResponse, ChatResponseView, ChatRole, ChatToolDefinition,
    ChatToolDefinitionView, FunctionCall, ToolCall, ToolCallView,
};
use crate::error::{Error, ErrorView};
use crate::json::{
    array_view, from_outside, json_contents, lemma_array_view, member, no_members, set_member,
    set_text, set_text_if, with_text, Json, JsonView,
};
use crate::llm::{missing_openai_key, no_openai_key, Settings, SettingsView};
use crate::text::{opt_text, same_text};

verus! {

/// How many seconds the response may take.
pub const REQUEST_TIMEOUT_SECS: u64 = 120;

/// A chat to send.
#[derive(Debug)]
pub struct ChatCall {
    pub url: String,
    /// The value of the header that authorizes the request.
    pub authorization: String,
    pub model: String,
}

/// What a chat to send is, mathematically.
pub struct ChatCallView {
    pub url: Seq<char>,
    pub authorization: Seq<char>,
    pub model: Seq<char>,
}

impl View for ChatCall {
    type V = ChatCallView;

    open spec fn view(&self) -> ChatCallView {
        ChatCallView {
            url: self.url@,
            authorization: self.authorization@,
            model: self.model@,
        }
    }
}

/// How a chat is answered.
#[derive(Debug)]
pub enum ChatPlan {
    /// With this response.
    Mock(ChatResponse),
    /// By a request to an OpenAI-compatible API.
    Send(ChatCall),
}

/// How a chat is answered, mathematically.
pub enum ChatPlanView {
    Mock(ChatResponseView),
    Send(ChatCallView),
}

impl View for ChatPlan {
    type V = ChatPlanView;

    open spec fn view(&self) -> ChatPlanView {
        match *self {
            ChatPlan::Mock(r) => ChatPlanView::Mock(r@),
            ChatPlan::Send(c) => ChatPlanView::Send(c@),
        }
    }
}

/// What came of planning a chat.
pub open spec fn chat_plan_end(r: Result<ChatPlan, Error>) -> Result<ChatPlanView, ErrorView> {
    match r {
        Ok(p) => Ok(p@),
        Err(e) => Err(e@),
    }
}

/// Where OpenAI's own API is.
pub open spec fn openai_url() -> Seq<char> {
    "https://api.openai.com/v1"@
}

/// Whether requests to OpenAI go to another place than OpenAI's own API.
pub open spec fn custom_base(settings: SettingsView) -> bool {
    settings.openai_base_url matches Some(url) && url != openai_url()
}

/// A chat with a model, sent to the OpenAI-compatible API of the settings.
pub open spec fn send_to_openai(model: Seq<char>, settings: SettingsView) -> Result<
    ChatPlanView,
    ErrorView,
> {
    match settings.openai_key {
        Some(key) => Ok(
            ChatPlanView::Send(
                ChatCallView {
                    url: (match settings.openai_base_url {
                        Some(url) => url,
                        None => openai_url(),
                    }) + "/chat/completions"@,
                    authorization: "Bearer "@ + key,
                    model,
                },
            ),
        ),
        None => Err(no_openai_key()),
    }
}

/// The response to a chat where answers are made up.
pub open spec fn mock_response() -> ChatResponseView {
    ChatResponseView {
        message: plain_message(ChatRole::Assistant, "Mock response"@),
        finish_reason: Some("stop"@),
    }
}

/// How a chat is answered, by a model whose full name consists of a provider and a name. Behind
/// a custom base there may be a proxy for any provider, which is given the full name.
pub open spec fn chat_plan(
    model: Seq<char>,
    provider: Seq<char>,
    name: Seq<char>,
    settings: SettingsView,
) -> Result<ChatPlanView, ErrorView> {
    if settings.mock {
        Ok(ChatPlanView::Mock(mock_response()))
    } else if custom_base(settings) {
        send_to_openai(model, settings)
    } else if provider == "openai"@ {
        send_to_openai(name, settings)
    } else if provider == "anthropic"@ {
        Err(
            ErrorView::ConfigError(
                "Native tool calling not yet supported for Anthropic. Use OpenAI-compatible proxy with custom base_url, or use 'openai/model-name' prefix."@,
            ),
        )
    } else {
        Err(
            ErrorView::ConfigError(
                "Unknown LLM provider: "@ + provider
                    + ". Supported: openai (or use custom base_url for compatible APIs)"@,
            ),
        )
    }
}

/// A chat with a model, sent to the OpenAI-compatible API of the settings.
fn plan_openai(model: &str, settings: &Settings) -> (r: Result<ChatPlan, Error>)
    ensures
        chat_plan_end(r) == send_to_openai(model@, settings@),
{
    match &settings.openai_key {
        Some(key) => {
            let base = match &settings.openai_base_url {
                Some(url) => url.clone(),
                None => "https://api.openai.com/v1".to_string(),
            };
            Ok(
                ChatPlan::Send(
                    ChatCall {
                        url: base.concat("/chat/completions"),
                        authorization: "Bearer ".to_string().concat(key.as_str()),
                        model: model.to_string(),
                    },
                ),
            )
        },
        None => Err(missing_openai_key()),
    }
}

/// How a chat is answered.
pub fn plan_chat(model: &str, provider: &str, name: &str, settings: &Settings) -> (r: Result<
    ChatPlan,
    Error,
>)
    ensures
        chat_plan_end(r) == chat_plan(model@, provider@, name@, settings@),
{
    if settings.mock {
        return Ok(
            ChatPlan::Mock(
                ChatResponse {
                    message: ChatMessage::assistant("Mock response".to_string()),
                    finish_reason: Some("stop".to_string()),
                },
            ),
        );
    }
    let custom = match &settings.openai_base_url {
        Some(url) => !same_text(url.as_str(), "https://api.openai.com/v1"),
        None => false,
    };
    let effective = if custom {
        model
    } else {
        name
    };
    if same_text(provider, "openai") {
        plan_openai(effective, settings)
    } else if custom {
        plan_openai(model, settings)
    } else if same_text(provider, "anthropic") {
        Err(
            Error::ConfigError(
                "Native tool calling not yet supported for Anthropic. Use OpenAI-compatible proxy with custom base_url, or use 'openai/model-name' prefix.".to_string(),
            ),
        )
    } else {
        Err(
            Error::ConfigError(
                "Unknown LLM provider: ".to_string().concat(provider).concat(
                    ". Supported: openai (or use custom base_url for compatible APIs)",
                ),
            ),
        )
    }
}

/// The name of a role.
pub open spec fn role_name(role: ChatRole) -> Seq<char> {
    match role {
        ChatRole::System => "system"@,
        ChatRole::User => "user"@,
        ChatRole::Assistant => "assistant"@,
        ChatRole::Tool => "tool"@,
    }
}

/// A tool call, as JSON.
pub open spec fn call_json(c: ToolCallView) -> JsonView {
    JsonView::Object(
        Map::<Seq<char>, JsonView>::empty().insert("id"@, JsonView::String(c.id)).insert(
            "type"@,
            JsonView::String(c.call_type),
        ).insert(
            "function"@,
            JsonView::Object(
                Map::<Seq<char>, JsonView>::empty().insert("name"@, JsonView::String(c.name)).insert(
                    "arguments"@,
                    JsonView::String(c.arguments),
                ),
            ),
        ),
    )
}

/// A message, as JSON. What it does not have is left out.
pub open spec fn message_json(m: ChatMessageView) -> JsonView {
    let start = with_text(
        Map::<Seq<char>, JsonView>::empty().insert("role"@, JsonView::String(role_name(m.role))),
        "content"@,
        m.content,
    );
    let called = match m.tool_calls {
        Some(calls) => start.insert(
            "tool_calls"@,
            JsonView::Array(calls.map_values(|c: ToolCallView| call_json(c))),
        ),
        None => start,
    };
    JsonView::Object(
        with_text(with_text(called, "tool_call_id"@, m.tool_call_id), "name"@, m.name),
    )
}

/// The definition of a tool, as JSON.
pub open spec fn definition_json(t: ChatToolDefinitionView) -> JsonView {
    JsonView::Object(
        Map::<Seq<char>, JsonView>::empty().insert("type"@, JsonView::String(t.tool_type)).insert(
            "function"@,
            JsonView::Object(
                Map::<Seq<char>, JsonView>::empty().insert("name"@, JsonView::String(t.name)).insert(
                    "description"@,
                    JsonView::String(t.description),
                ).insert("parameters"@, t.parameters),
            ),
        ),
    )
}

/// The body of the request for a chat. Without tools there is no list of them.
pub open spec fn chat_body(
    model: Seq<char>,
    messages: Seq<ChatMessageView>,
    tools: Seq<ChatToolDefinitionView>,
) -> JsonView {
    let start = Map::<Seq<char>, JsonView>::empty().insert("model"@, JsonView::String(model)).insert(
        "messages"@,
        JsonView::Array(messages.map_values(|m: ChatMessageView| message_json(m))),
    );
    JsonView::Object(
        if tools.len() == 0 {
            start
        } else {
            start.insert(
                "tools"@,
                JsonView::Array(tools.map_values(|t: ChatToolDefinitionView| definition_json(t))),
            )
        },
    )
}

/// A tool call, as JSON.
fn json_of_call(c: &ToolCall) -> (r: Json)
    ensures
        r@ == call_json(c@),
{
    let mut function = no_members();
    set_text(&mut function, "name", c.function.name.as_str());
    set_text(&mut function, "arguments", c.function.arguments.as_str());
    let mut d = no_members();
    set_text(&mut d, "id", c.id.as_str());
    set_text(&mut d, "type", c.call_type.as_str());
    set_member(&mut d, "function".to_string(), Json::Object(function));
    Json::Object(d)
}

/// Tool calls, as JSON.
fn json_of_calls(calls: &Vec<ToolCall>) -> (r: Json)
    ensures
        r@ == JsonView::Array(calls_view(calls@).map_values(|c: ToolCallView| call_json(c))),
{
    let mut out: Vec<Json> = Vec::new();
    let mut i: usize = 0;
    while i < calls.len()
        invariant
            i <= calls@.len(),
            out@.len() == i,
            forall|j: int| 0 <= j < i ==> (#[trigger] out@[j])@ == call_json(calls@[j]@),
        decreases calls@.len() - i,
    {
        out.push(json_of_call(&calls[i]));
        i = i + 1;
    }
    proof {
        lemma_array_view(out@);
        assert(array_view(out@) =~= calls_view(calls@).map_values(|c: ToolCallView| call_json(c)));
    }
    Json::Array(out)
}

/// The name of a role.
fn name_of_role(role: ChatRole) -> (r: &'static str)
    ensures
        r@ == role_name(role),
{
    match role {
        ChatRole::System => "system",
        ChatRole::User => "user",
        ChatRole::Assistant => "assistant",
        ChatRole::Tool => "tool",
    }
}

/// A message, as JSON.
pub fn json_of_message(m: &ChatMessage) -> (r: Json)
    ensures
        r@ == message_json(m@),
{
    let mut d = no_members();
    set_text(&mut d, "role", name_of_role(m.role));
    set_text_if(&mut d, "content", &m.content);
    if let Some(calls) = &m.tool_calls {
        set_member(&mut d, "tool_calls".to_string(), json_of_calls(calls));
    }
    set_text_if(&mut d, "tool_call_id", &m.tool_call_id);
    set_text_if(&mut d, "name", &m.name);
    Json::Object(d)
}

/// Messages, as JSON.
pub fn json_of_messages(messages: &Vec<ChatMessage>) -> (r: Json)
    ensures
        r@ == JsonView::Array(
            messages_view(messages@).map_values(|m: ChatMessageView| message_json(m)),
        ),
{
    let mut out: Vec<Json> = Vec::new();
    let mut i: usize = 0;
    while i < messages.len()
        invariant
            i <= messages@.len(),
            out@.len() == i,
            forall|j: int| 0 <= j < i ==> (#[trigger] out@[j])@ == message_json(messages@[j]@),
        decreases messages@.len() - i,
    {
        out.push(json_of_message(&messages[i]));
        i = i + 1;
    }
    proof {
        lemma_array_view(out@);
        assert(array_view(out@) =~= messages_view(messages@).map_values(
            |m: ChatMessageView| message_json(m),
        ));
    }
    Json::Array(out)
}

/// The definition of a tool, as JSON.
fn json_of_definition(t: &ChatToolDefinition) -> (r: Json)
    ensures
        r@ == definition_json(t@),
{
    let mut function = no_members();
    set_text(&mut function, "name", t.function.name.as_str());
    set_text(&mut function, "description", t.function.description.as_str());
    set_member(&mut function, "parameters".to_string(), t.function.parameters.copy());
    let mut d = no_members();
    set_text(&mut d, "type", t.tool_type.as_str());
    set_member(&mut d, "function".to_string(), Json::Object(function));
    Json::Object(d)
}

/// The body of the request for a chat.
pub fn build_body(model: &str, messages: &Vec<ChatMessage>, tools: &Vec<ChatToolDefinition>) -> (r:
    Json)
    ensures
        r@ == chat_body(model@, messages_view(messages@), definitions_view(tools@)),
{
    let mut d = no_members();
    set_text(&mut d, "model", model);
    set_member(&mut d, "messages".to_string(), json_of_messages(messages));
    if tools.len() > 0 {
        let mut out: Vec<Json> = Vec::new();
        let mut i: usize = 0;
        while i < tools.len()
            invariant
                i <= tools@.len(),
                out@.len() == i,
                forall|j: int| 0 <= j < i ==> (#[trigger] out@[j])@ == definition_json(tools@[j]@),
            decreases tools@.len() - i,
        {
            out.push(json_of_definition(&tools[i]));
            i = i + 1;
        }
        proof {
            lemma_array_view(out@);
            assert(array_view(out@) =~= definitions_view(tools@).map_values(
                |t: ChatToolDefinitionView| definition_json(t),
            ));
        }
        set_member(&mut d, "tools".to_string(), Json::Array(out));
    }
    Json::Object(d)
}

/// A member of a document: null where the document is no object or does not have it.
pub open spec fn at(j: JsonView, key: Seq<char>) -> JsonView {
    match j {
        JsonView::Object(m) if m.dom().contains(key) => m[key],
        _ => JsonView::Null,
    }
}

/// The text that a document is.
pub open spec fn text_at(j: JsonView, key: Seq<char>) -> Option<Seq<char>> {
    match at(j, key) {
        JsonView::String(s) => Some(s),
        _ => None,
    }
}

/// The role of a name; the assistant where the name is none of a role.
pub open spec fn role_of(name: Option<Seq<char>>) -> ChatRole {
    if name == Some("system"@) {
        ChatRole::System
    } else if name == Some("user"@) {
        ChatRole::User
    } else if name == Some("tool"@) {
        ChatRole::Tool
    } else {
        ChatRole::Assistant
    }
}

/// A tool call in a response, if it has an identifier, a name and arguments.
pub open spec fn call_of(j: JsonView) -> Option<ToolCallView> {
    let function = at(j, "function"@);
    match (text_at(j, "id"@), text_at(function, "name"@), text_at(function, "arguments"@)) {
        (Some(id), Some(name), Some(arguments)) => Some(
            ToolCallView {
                id,
                call_type: match text_at(j, "type"@) {
                    Some(t) => t,
                    None => "function"@,
                },
                name,
                arguments,
            },
        ),
        _ => None,
    }
}

/// The tool calls in a message of a response, if there is any.
pub open spec fn calls_of(message: JsonView) -> Option<Seq<ToolCallView>> {
    match at(message, "tool_calls"@) {
        JsonView::Array(items) => {
            let calls = items.filter_map(|j: JsonView| call_of(j));
            if calls.len() == 0 {
                None
            } else {
                Some(calls)
            }
        },
        _ => None,
    }
}

/// What a response holds: the message of its first choice.
pub open spec fn response_of(j: JsonView) -> Result<ChatResponseView, ErrorView> {
    match at(j, "choices"@) {
        JsonView::Array(choices) if choices.len() > 0 => {
            let message = at(choices[0], "message"@);
            Ok(
                ChatResponseView {
                    message: ChatMessageView {
                        role: role_of(text_at(message, "role"@)),
                        content: text_at(message, "content"@),
                        tool_calls: calls_of(message),
                        tool_call_id: None,
                        name: None,
                    },
                    finish_reason: text_at(choices[0], "finish_reason"@),
                },
            )
        },
        _ => Err(ErrorView::Runtime("No choices in response"@)),
    }
}

/// A member of a document, if it is there.
fn member_at<'a>(j: &'a Json, key: &str) -> (r: Option<&'a Json>)
    ensures
        match r {
            Some(v) => v@ == at(j@, key@),
            None => at(j@, key@) is Null,
        },
{
    match j {
        Json::Object(d) => member(d, key),
        _ => None,
    }
}

/// The text that a member of a document is.
fn text_member(j: Option<&Json>, key: &str) -> (r: Option<String>)
    ensures
        opt_text(r) == match j {
            Some(v) => text_at(v@, key@),
            None => None,
        },
{
    match j {
        Some(v) => match member_at(v, key) {
            Some(Json::String(s)) => Some(s.clone()),
            _ => None,
        },
        None => None,
    }
}

/// The role of a name.
fn parse_role(name: &Option<String>) -> (r: ChatRole)
    ensures
        r == role_of(opt_text(*name)),
{
    match name {
        Some(s) => if same_text(s.as_str(), "system") {
            ChatRole::System
        } else if same_text(s.as_str(), "user") {
            ChatRole::User
        } else if same_text(s.as_str(), "tool") {
            ChatRole::Tool
        } else {
            ChatRole::Assistant
        },
        None => ChatRole::Assistant,
    }
}

/// A tool call in a response.
fn parse_call(j: &Json) -> (r: Option<ToolCall>)
    ensures
        match r {
            Some(c) => call_of(j@) == Some(c@),
            None => call_of(j@) is None,
        },
{
    let function = member_at(j, "function");
    match (
        text_member(Some(j), "id"),
        text_member(function, "name"),
        text_member(function, "arguments"),
    ) {
        (Some(id), Some(name), Some(arguments)) => Some(
            ToolCall {
                id,
                call_type: match text_member(Some(j), "type") {
                    Some(t) => t,
                    None => "function".to_string(),
                },
                function: FunctionCall { name, arguments },
            },
        ),
        _ => None,
    }
}

/// The tool calls in a message of a response.
fn parse_calls(message: &Json) -> (r: Option<Vec<ToolCall>>)
    ensures
        match r {
            Some(calls) => calls_of(message@) == Some(calls_view(calls@)),
            None => calls_of(message@) is None,
        },
{
    let items = match member_at(message, "tool_calls") {
        Some(Json::Array(items)) => items,
        _ => {
            return None;
        },
    };
    let mut out: Vec<ToolCall> = Vec::new();
    let mut i: usize = 0;
    let ghost all = array_view(items@);
    proof {
        lemma_array_view(items@);
        assert(all.take(0).filter_map(|j: JsonView| call_of(j)) =~= calls_view(out@));
    }
    while i < items.len()
        invariant
            i <= items@.len(),
            all == array_view(items@),
            all.len() == items@.len(),
            calls_view(out@) == all.take(i as int).filter_map(|j: JsonView| call_of(j)),
        decreases items@.len() - i,
    {
        let ghost before = out@;
        proof {
            lemma_array_view(items@);
            assert(all.take(i + 1).drop_last() =~= all.take(i as int));
            assert(all.take(i + 1).last() == items@[i as int]@);
        }
        if let Some(c) = parse_call(&items[i]) {
            out.push(c);
            assert(calls_view(out@) =~= calls_view(before) + seq![c@]);
        }
        i = i + 1;
    }
    assert(all.take(all.len() as int) =~= all);
    if out.len() == 0 {
        None
    } else {
        Some(out)
    }
}

/// What came of reading a response.
pub open spec fn response_end(r: Result<ChatResponse, Error>) -> Result<
    ChatResponseView,
    ErrorView,
> {
    match r {
        Ok(c) => Ok(c@),
        Err(e) => Err(e@),
    }
}

/// What a response holds.
pub fn parse_response(response: &Json) -> (r: Result<ChatResponse, Error>)
    ensures
        response_end(r) == response_of(response@),
{
    if let Some(Json::Array(choices)) = member_at(response, "choices") {
        proof {
            lemma_array_view(choices@);
        }
        if choices.len() > 0 {
            let choice = &choices[0];
            let null = Json::Null;
            let message = match member_at(choice, "message") {
                Some(m) => m,
                None => &null,
            };
            return Ok(
                ChatResponse {
                    message: ChatMessage {
                        role: parse_role(&text_member(Some(message), "role")),
                        content: text_member(Some(message), "content"),
                        tool_calls: parse_calls(message),
                        tool_call_id: None,
                        name: None,
                    },
                    finish_reason: text_member(Some(choice), "finish_reason"),
                },
            );
        }
    }
    Err(Error::Runtime("No choices in response".to_string()))
}

/// What a response of the API holds.
pub fn read_response(response: Document) -> (r: Result<ChatResponse, Error>)
    ensures
        response_end(r) == response_of(json_contents(response)),
{
    parse_response(&from_outside(response))
}

/// The error of a request that the API answers with another status than success.
pub fn status_error(status: &str, text: Option<String>) -> (r: Error)
    ensures
        r@ == ErrorView::Runtime(
            "OpenAI API error: "@ + status@ + " - "@ + match text {
                Some(t) => t@,
                None => "Unknown error"@,
            },
        ),
{
    let said = match text {
        Some(t) => t,
        None => "Unknown error".to_string(),
    };
    Error::Runtime(
        "OpenAI API error: ".to_string().concat(status).concat(" - ").concat(said.as_str()),
    )
}

/// A tool call that is written as JSON is read back as it was.
pub proof fn call_round_trip(c: ToolCallView)
    ensures
        call_of(call_json(c)) == Some(c),
{
    lemma_keys_differ();
}

/// A message that is written as JSON, and put into a response as its first choice, is read back
/// as it was: any message but one that answers a tool call, bears a name or has an empty list of
/// tool calls.
pub proof fn message_round_trip(m: ChatMessageView, response: JsonView)
    requires
        m.tool_call_id is None,
        m.name is None,
        m.tool_calls matches Some(calls) ==> calls.len() > 0,
        at(response, "choices"@) matches JsonView::Array(choices) && choices.len() > 0 && at(
            choices[0],
            "message"@,
        ) == message_json(m),
    ensures
        response_of(response) matches Ok(r) && r.message == m,
{
    lemma_keys_differ();
    let j = message_json(m);
    assert(at(j, "role"@) == JsonView::String(role_name(m.role)));
    assert(text_at(j, "content"@) == m.content);
    if let Some(calls) = m.tool_calls {
        let written = calls.map_values(|c: ToolCallView| call_json(c));
        assert(at(j, "tool_calls"@) == JsonView::Array(written));
        lemma_calls_round_trip(calls);
    }
}

proof fn lemma_calls_round_trip(calls: Seq<ToolCallView>)
    ensures
        calls.map_values(|c: ToolCallView| call_json(c)).filter_map(|j: JsonView| call_of(j))
            == calls,
    decreases calls.len(),
{
    let written = calls.map_values(|c: ToolCallView| call_json(c));
    if calls.len() > 0 {
        let shorter = calls.drop_last();
        lemma_calls_round_trip(shorter);
        call_round_trip(calls.last());
        assert(written.drop_last() =~= shorter.map_values(|c: ToolCallView| call_json(c)));
        assert(shorter + seq![calls.last()] =~= calls);
    } else {
        assert(written.filter_map(|j: JsonView| call_of(j)) =~= calls);
    }
}

proof fn lemma_keys_differ()
    ensures
        "id"@ != "type"@,
        "id"@ != "function"@,
        "type"@ != "function"@,
        "name"@ != "arguments"@,
        "role"@ != "content"@,
        "role"@ != "tool_calls"@,
        "content"@ != "tool_calls"@,
        "system"@ != "user"@,
        "system"@ != "assistant"@,
        "system"@ != "tool"@,
        "user"@ != "assistant"@,
        "user"@ != "tool"@,
        "assistant"@ != "tool"@,
{
    reveal_strlit("id");
    reveal_strlit("type");
    reveal_strlit("function");
    reveal_strlit("name");
    reveal_strlit("arguments");
    reveal_strlit("role");
    reveal_strlit("content");
    reveal_strlit("tool_calls");
    reveal_strlit("system");
    reveal_strlit("user");
    reveal_strlit("assistant");
    reveal_strlit("tool");
    assert("id"@.len() == 2 && "type"@.len() == 4 && "function"@.len() == 8);
    assert("name"@.len() == 4 && "arguments"@.len() == 9);
    assert("role"@.len() == 4 && "content"@.len() == 7 && "tool_calls"@.len() == 10);
    assert("system"@.len() == 6 && "assistant"@.len() == 9);
    assert("user"@[0] == 'u' && "tool"@[0] == 't');
}

/// With a custom base and a key every chat is sent there, whatever the provider, with the full
/// name of the model.
pub proof fn custom_base_serves_every_provider(
    model: Seq<char>,
    provider: Seq<char>,
    name: Seq<char>,
    settings: SettingsView,
)
    requires
        !settings.mock,
        custom_base(settings),
        settings.openai_key is Some,
    ensures
        chat_plan(model, provider, name, settings) matches Ok(ChatPlanView::Send(c)) && c.model
            == model && c.url == settings.openai_base_url->0 + "/chat/completions"@,
{
}

} // verus!
