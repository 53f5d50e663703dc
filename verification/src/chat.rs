//! Chat messages, tool definitions and responses, in the form of the chat completions API.
use vstd::prelude::*;
use crate::json::{Json, JsonView};
use crate::text::{copy_text, opt_text};

verus! {

/// Who a message is from.
#[derive(Clone, Copy, Debug, PartialEq, Eq, Structural)]
pub enum ChatRole {
    System,
    User,
    Assistant,
    Tool,
}

/// The function that a tool call names, with its arguments as JSON text.
#[derive(Debug)]
pub struct FunctionCall {
    pub name: String,
    pub arguments: String,
}

/// A tool call that the assistant asks for.
#[derive(Debug)]
pub struct ToolCall {
    pub id: String,
    pub call_type: String,
    pub function: FunctionCall,
}

/// A chat message.
#[derive(Debug)]
pub struct ChatMessage {
    pub role: ChatRole,
    pub content: Option<String>,
    pub tool_calls: Option<Vec<ToolCall>>,
    pub tool_call_id: Option<String>,
    pub name: Option<String>,
}

/// What a tool call is, mathematically.
pub struct ToolCallView {
    pub id: Seq<char>,
    pub call_type: Seq<char>,
    pub name: Seq<char>,
    pub arguments: Seq<char>,
}

impl View for ToolCall {
    type V = ToolCallView;

    open spec fn view(&self) -> ToolCallView {
        ToolCallView {
            id: self.id@,
            call_type: self.call_type@,
            name: self.function.name@,
            arguments: self.function.arguments@,
        }
    }
}

/// What a list of tool calls is.
pub open spec fn calls_view(calls: Seq<ToolCall>) -> Seq<ToolCallView> {
    calls.map_values(|c: ToolCall| c@)
}

/// What a message is, mathematically.
pub struct ChatMessageView {
    pub role: ChatRole,
    pub content: Option<Seq<char>>,
    pub tool_calls: Option<Seq<ToolCallView>>,
    pub tool_call_id: Option<Seq<char>>,
    pub name: Option<Seq<char>>,
}

impl View for ChatMessage {
    type V = ChatMessageView;

    open spec fn view(&self) -> ChatMessageView {
        ChatMessageView {
            role: self.role,
            content: opt_text(self.content),
            tool_calls: match self.tool_calls {
                Some(calls) => Some(calls_view(calls@)),
                None => None,
            },
            tool_call_id: opt_text(self.tool_call_id),
            name: opt_text(self.name),
        }
    }
}

/// What a list of messages is.
pub open spec fn messages_view(messages: Seq<ChatMessage>) -> Seq<ChatMessageView> {
    messages.map_values(|m: ChatMessage| m@)
}

impl Clone for ToolCall {
    fn clone(&self) -> (r: Self)
        ensures
            r@ == self@,
    {
        ToolCall {
            id: self.id.clone(),
            call_type: self.call_type.clone(),
            function: FunctionCall {
                name: self.function.name.clone(),
                arguments: self.function.arguments.clone(),
            },
        }
    }
}

/// A copy of a list of tool calls.
fn copy_calls(calls: &Vec<ToolCall>) -> (r: Vec<ToolCall>)
    ensures
        calls_view(r@) == calls_view(calls@),
{
    let mut out: Vec<ToolCall> = Vec::new();
    let mut i: usize = 0;
    while i < calls.len()
        invariant
            i <= calls@.len(),
            out@.len() == i,
            forall|j: int| 0 <= j < i ==> (#[trigger] out@[j])@ == calls@[j]@,
        decreases calls@.len() - i,
    {
        out.push(calls[i].clone());
        i = i + 1;
    }
    assert(calls_view(out@) =~= calls_view(calls@));
    out
}

impl Clone for ChatMessage {
    fn clone(&self) -> (r: Self)
        ensures
            r@ == self@,
    {
        ChatMessage {
            role: self.role,
            content: copy_text(&self.content),
            tool_calls: match &self.tool_calls {
                Some(calls) => Some(copy_calls(calls)),
                None => None,
            },
            tool_call_id: copy_text(&self.tool_call_id),
            name: copy_text(&self.name),
        }
    }
}

/// A message that holds a text and nothing else.
pub open spec fn plain_message(role: ChatRole, content: Seq<char>) -> ChatMessageView {
    ChatMessageView {
        role,
        content: Some(content),
        tool_calls: None,
        tool_call_id: None,
        name: None,
    }
}

/// The message that answers a tool call.
pub open spec fn result_message(id: Seq<char>, content: Seq<char>) -> ChatMessageView {
    ChatMessageView {
        role: ChatRole::Tool,
        content: Some(content),
        tool_calls: None,
        tool_call_id: Some(id),
        name: None,
    }
}

impl ChatMessage {
    /// A message from the system.
    pub fn system(content: String) -> (r: Self)
        ensures
            r@ == plain_message(ChatRole::System, content@),
    {
        ChatMessage {
            role: ChatRole::System,
            content: Some(content),
            tool_calls: None,
            tool_call_id: None,
            name: None,
        }
    }

    /// A message from the user.
    pub fn user(content: String) -> (r: Self)
        ensures
            r@ == plain_message(ChatRole::User, content@),
    {
        ChatMessage {
            role: ChatRole::User,
            content: Some(content),
            tool_calls: None,
            tool_call_id: None,
            name: None,
        }
    }

    /// A message from the assistant.
    pub fn assistant(content: String) -> (r: Self)
        ensures
            r@ == plain_message(ChatRole::Assistant, content@),
    {
        ChatMessage {
            role: ChatRole::Assistant,
            content: Some(content),
            tool_calls: None,
            tool_call_id: None,
            name: None,
        }
    }

    /// A message in which the assistant asks for tools to be called.
    pub fn assistant_with_tool_calls(tool_calls: Vec<ToolCall>) -> (r: Self)
        ensures
            r@ == (ChatMessageView {
                role: ChatRole::Assistant,
                content: None,
                tool_calls: Some(calls_view(tool_calls@)),
                tool_call_id: None,
                name: None,
            }),
    {
        ChatMessage {
            role: ChatRole::Assistant,
            content: None,
            tool_calls: Some(tool_calls),
            tool_call_id: None,
            name: None,
        }
    }

    /// The message that answers a tool call.
    pub fn tool_result(tool_call_id: String, content: String) -> (r: Self)
        ensures
            r@ == result_message(tool_call_id@, content@),
    {
        ChatMessage {
            role: ChatRole::Tool,
            content: Some(content),
            tool_calls: None,
            tool_call_id: Some(tool_call_id),
            name: None,
        }
    }
}

/// The function that a tool definition describes, with the schema of its parameters.
#[derive(Debug)]
pub struct FunctionDef {
    pub name: String,
    pub description: String,
    pub parameters: Json,
}

/// The definition of a tool.
#[derive(Debug)]
pub struct ChatToolDefinition {
    pub tool_type: String,
    pub function: FunctionDef,
}

/// What the definition of a tool is, mathematically.
pub struct ChatToolDefinitionView {
    pub tool_type: Seq<char>,
    pub name: Seq<char>,
    pub description: Seq<char>,
    pub parameters: JsonView,
}

impl View for ChatToolDefinition {
    type V = ChatToolDefinitionView;

    open spec fn view(&self) -> ChatToolDefinitionView {
        ChatToolDefinitionView {
            tool_type: self.tool_type@,
            name: self.function.name@,
            description: self.function.description@,
            parameters: self.function.parameters@,
        }
    }
}

impl Clone for ChatToolDefinition {
    fn clone(&self) -> (r: Self)
        ensures
            r@ == self@,
    {
        ChatToolDefinition {
            tool_type: self.tool_type.clone(),
            function: FunctionDef {
                name: self.function.name.clone(),
                description: self.function.description.clone(),
                parameters: self.function.parameters.copy(),
            },
        }
    }
}

/// What a list of tool definitions is.
pub open spec fn definitions_view(tools: Seq<ChatToolDefinition>) -> Seq<ChatToolDefinitionView> {
    tools.map_values(|t: ChatToolDefinition| t@)
}

impl ChatToolDefinition {
    /// The definition of a function.
    pub fn new(name: String, description: String, parameters: Json) -> (r: Self)
        ensures
            r@ == (ChatToolDefinitionView {
                tool_type: "function"@,
                name: name@,
                description: description@,
                parameters: parameters@,
            }),
    {
        ChatToolDefinition {
            tool_type: "function".to_string(),
            function: FunctionDef { name, description, parameters },
        }
    }
}

/// The response to a chat.
#[derive(Debug)]
pub struct ChatResponse {
    pub message: ChatMessage,
    pub finish_reason: Option<String>,
}

/// What a response is, mathematically.
pub struct ChatResponseView {
    pub message: ChatMessageView,
    pub finish_reason: Option<Seq<char>>,
}

impl View for ChatResponse {
    type V = ChatResponseView;

    open spec fn view(&self) -> ChatResponseView {
        ChatResponseView { message: self.message@, finish_reason: opt_text(self.finish_reason) }
    }
}

impl Clone for ChatResponse {
    fn clone(&self) -> (r: Self)
        ensures
            r@ == self@,
    {
        ChatResponse {
            message: self.message.clone(),
            finish_reason: copy_text(&self.finish_reason),
        }
    }
}

/// Whether a message asks for at least one tool call.
pub open spec fn asks_for_tools(m: ChatMessageView) -> bool {
    m.tool_calls matches Some(calls) && calls.len() > 0
}

impl ChatResponse {
    /// Whether the response asks for at least one tool call.
    pub fn has_tool_calls(&self) -> (r: bool)
        ensures
            r == asks_for_tools(self@.message),
    {
        match &self.message.tool_calls {
            Some(calls) => calls.len() > 0,
            None => false,
        }
    }

    /// The tool calls, if there is a list of them.
    pub fn tool_calls(&self) -> (r: Option<&[ToolCall]>)
        ensures
            match r {
                Some(calls) => self@.message.tool_calls == Some(calls_view(calls@)),
                None => self@.message.tool_calls is None,
            },
    {
        match &self.message.tool_calls {
            Some(calls) => Some(calls.as_slice()),
            None => None,
        }
    }

    /// The content, if there is one.
    pub fn content(&self) -> (r: Option<&str>)
        ensures
            match r {
                Some(s) => self@.message.content == Some(s@),
                None => self@.message.content is None,
            },
    {
        match &self.message.content {
            Some(s) => Some(s.as_str()),
            None => None,
        }
    }
}

} // verus!
