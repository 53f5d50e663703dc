//! Laws of what the parts of a program stand for: nothing of them is lost.
use std::sync::Arc;
use vstd::prelude::*;
use crate::chat::{ChatMessage, ChatResponse, ChatToolDefinition, ToolCall};
use crate::completions::ChatCall;
use crate::error::{Error, ErrorView, InterpreterError, InterpreterErrorView};
use crate::executor::no_defs;
use crate::ir::ExprIR;
use crate::llm::{unset_config, Completion, LlmConfig, Settings};
use crate::session::{Reply, ReplyView, Request, RequestView, Stop, StopView};
use crate::trace::{fresh_tracer, TraceRecord, TracerConfig, TracerConfigView};
use crate::value::{lemma_list_view, Value};

verus! {

/// Whether an optional text stands for another.
pub open spec fn same_text_if(view: Option<Seq<char>>, text: Option<String>) -> bool {
    match text {
        Some(s) => view == Some(s@),
        None => view is None,
    }
}

/// A tool call, a message, the definition of a tool and a response stand for each of their parts.
pub proof fn chats_stand_for_their_parts(
    c: ToolCall,
    m: ChatMessage,
    t: ChatToolDefinition,
    r: ChatResponse,
)
    ensures
        c@.id == c.id@,
        c@.call_type == c.call_type@,
        c@.name == c.function.name@,
        c@.arguments == c.function.arguments@,
        m@.role == m.role,
        same_text_if(m@.content, m.content),
        same_text_if(m@.tool_call_id, m.tool_call_id),
        same_text_if(m@.name, m.name),
        match m.tool_calls {
            Some(calls) => m@.tool_calls matches Some(views) && views.len() == calls@.len()
                && forall|i: int| 0 <= i < calls@.len() ==> #[trigger] views[i] == calls@[i]@,
            None => m@.tool_calls is None,
        },
        t@.tool_type == t.tool_type@,
        t@.name == t.function.name@,
        t@.description == t.function.description@,
        t@.parameters == t.function.parameters@,
        r@.message == r.message@,
        same_text_if(r@.finish_reason, r.finish_reason),
{
}

/// A configuration, settings, a completion and a chat to send stand for each of their parts.
pub proof fn queries_stand_for_their_parts(
    config: LlmConfig,
    settings: Settings,
    c: Completion,
    call: ChatCall,
)
    ensures
        same_text_if(config@.model, config.model),
        config@.temperature == config.temperature,
        config@.max_tokens == config.max_tokens,
        same_text_if(config@.system_prompt, config.system_prompt),
        settings@.mock == settings.mock,
        same_text_if(settings@.openai_key, settings.openai_key),
        same_text_if(settings@.openai_base_url, settings.openai_base_url),
        same_text_if(settings@.anthropic_key, settings.anthropic_key),
        same_text_if(settings@.anthropic_base_url, settings.anthropic_base_url),
        c@.api_key == c.api_key@,
        same_text_if(c@.base_url, c.base_url),
        c@.model == c.model@,
        c@.prompt == c.prompt@,
        same_text_if(c@.preamble, c.preamble),
        c@.temperature == c.temperature,
        c@.max_tokens == c.max_tokens,
        call@.url == call.url@,
        call@.authorization == call.authorization@,
        call@.model == call.model@,
{
}

/// A record and the configuration of a tracer stand for each of their parts.
pub proof fn traces_stand_for_their_parts(r: TraceRecord, config: TracerConfig)
    ensures
        r@.timestamp_ms == r.timestamp_ms,
        r@.level == r.level,
        r@.span_id == r.span_id@,
        same_text_if(r@.parent_span_id, r.parent_span_id),
        r@.event == r.event@,
        r@.duration_ms == r.duration_ms,
        config@.enabled == config.enabled,
        config@.output == config.output@,
        config@.include_bodies == config.include_bodies,
        config@.min_level == config.min_level,
{
}

/// A request stands for what it asks and what it asks it of.
pub proof fn requests_stand_for_what_they_ask(
    base: Option<String>,
    path: String,
    context: Value,
    expr: Arc<ExprIR>,
    error: InterpreterError,
    failure: Error,
)
    ensures
        (Request::ReadFile { base, path })@ matches RequestView::ReadFile { base: b, path: p }
            && same_text_if(b, base) && p == path@,
        (Request::Interpolate { template: path, context })@ == (RequestView::Interpolate {
            template: path@,
            context: context@,
        }),
        (Request::Shell { command: path })@ == (RequestView::Shell { command: path@ }),
        (Request::ShellBytes { command: path })@ == (RequestView::ShellBytes { command: path@ }),
        (Request::ParseInt { text: path })@ == (RequestView::ParseInt { text: path@ }),
        (Request::ParseFloat { text: path })@ == (RequestView::ParseFloat { text: path@ }),
        (Request::ParseBool { text: path })@ == (RequestView::ParseBool { text: path@ }),
        (Request::Pretty { value: context })@ == (RequestView::Pretty { value: context@ }),
        (Request::Describe { error })@ == (RequestView::Describe { error: error@ }),
        (Request::DescribeError { error: failure })@ == (RequestView::DescribeError {
            error: failure@,
        }),
        (Request::DescribeExpr { expr })@ == (RequestView::DescribeExpr { expr }),
        (Request::Complete { prompt: path })@ == (RequestView::Complete { prompt: path@ }),
        (Request::Clock)@ is Clock,
{
}

/// A request for a chat, a foreign call or a trace stands for each of its parts, in order.
pub proof fn longer_requests_stand_for_what_they_ask(
    started: u64,
    span: String,
    name: String,
    input: Value,
    output: Value,
    messages: Vec<ChatMessage>,
    tools: Vec<ChatToolDefinition>,
    response: ChatMessage,
    args: Vec<Value>,
)
    ensures
        (Request::TraceTool { started, span, tool: name, input, output })@ == (
        RequestView::TraceTool {
            started,
            span: span@,
            tool: name@,
            input: input@,
            output: output@,
        }),
        (Request::Chat { messages, tools })@ matches RequestView::Chat { messages: ms, tools: ts }
            && {
            &&& ms.len() == messages@.len()
            &&& forall|i: int| 0 <= i < ms.len() ==> #[trigger] ms[i] == messages@[i]@
            &&& ts.len() == tools@.len()
            &&& forall|i: int| 0 <= i < ts.len() ==> #[trigger] ts[i] == tools@[i]@
        },
        (Request::TraceChat { started, span, messages, response })@ matches RequestView::TraceChat {
            started: s,
            span: n,
            messages: ms,
            response: r,
        } && {
            &&& s == started
            &&& n == span@
            &&& r == response@
            &&& ms.len() == messages@.len()
            &&& forall|i: int| 0 <= i < ms.len() ==> #[trigger] ms[i] == messages@[i]@
        },
        (Request::Foreign { module: span, function: name, args })@ matches RequestView::Foreign {
            module: m,
            function: f,
            args: a,
        } && {
            &&& m == span@
            &&& f == name@
            &&& a.len() == args@.len()
            &&& forall|i: int| 0 <= i < a.len() ==> #[trigger] a[i] == args@[i]@
        },
{
    lemma_list_view(args@);
}

/// A reply stands for what it holds.
pub proof fn replies_stand_for_what_they_hold(r: Reply)
    ensures
        match r {
            Reply::Clock(t) => r@ == ReplyView::Clock(t),
            Reply::Text(s) => r@ == ReplyView::Text(s@),
            Reply::Output(Ok(s)) => r@ == ReplyView::Output(Ok(s@)),
            Reply::Output(Err(e)) => r@ == ReplyView::Output(Err(e@)),
            Reply::Bytes(Ok(b)) => r@ == ReplyView::Bytes(Ok(b@)),
            Reply::Bytes(Err(e)) => r@ == ReplyView::Bytes(Err(e@)),
            Reply::Int(Ok(i)) => r@ == ReplyView::Int(Ok(i)),
            Reply::Int(Err(e)) => r@ == ReplyView::Int(Err(e@)),
            Reply::Float(Ok(f)) => r@ == ReplyView::Float(Ok(f.bits)),
            Reply::Float(Err(e)) => r@ == ReplyView::Float(Err(e@)),
            Reply::Bool(Ok(b)) => r@ == ReplyView::Bool(Ok(b)),
            Reply::Bool(Err(e)) => r@ == ReplyView::Bool(Err(e@)),
            Reply::Value(Ok(v)) => r@ == ReplyView::Value(Ok(v@)),
            Reply::Value(Err(e)) => r@ == ReplyView::Value(Err(e@)),
            Reply::Flag(b) => r@ == ReplyView::Flag(b),
            Reply::Number(f) => r@ == ReplyView::Number(f.bits),
            Reply::Completion(Ok(s)) => r@ == ReplyView::Completion(Ok(s@)),
            Reply::Completion(Err(e)) => r@ == ReplyView::Completion(Err(e@)),
            Reply::Chat(Ok(c)) => r@ == ReplyView::Chat(Ok(c@)),
            Reply::Chat(Err(e)) => r@ == ReplyView::Chat(Err(e@)),
            Reply::Done => r@ is Done,
        },
{
}

/// Errors, and why a run stopped, stand for what they hold.
pub proof fn errors_stand_for_what_they_hold(s: Stop, e: InterpreterError, f: Error)
    ensures
        match s {
            Stop::Failed(error) => s@ == StopView::Failed(error@),
            Stop::Ask(request) => s@ == StopView::Ask(request@),
            Stop::Fault(fault) => s@ == StopView::Fault(fault),
            Stop::OutOfFuel => s@ is OutOfFuel,
        },
        match e {
            InterpreterError::Runtime(t) => e@ == InterpreterErrorView::Runtime(t@),
            InterpreterError::PreconditionFailed(t) => e@
                == InterpreterErrorView::PreconditionFailed(t@),
            InterpreterError::PostconditionFailed(t) => e@
                == InterpreterErrorView::PostconditionFailed(t@),
            InterpreterError::LlmError(t) => e@ == InterpreterErrorView::LlmError(t@),
            InterpreterError::ShellError(t) => e@ == InterpreterErrorView::ShellError(t@),
            InterpreterError::ToolNotFound(t) => e@ == InterpreterErrorView::ToolNotFound(t@),
            InterpreterError::VariableNotFound(t) => e@ == InterpreterErrorView::VariableNotFound(
                t@,
            ),
            InterpreterError::FieldNotFound { owner, field } => e@ == (
            InterpreterErrorView::FieldNotFound { owner: owner@, field: field@ }),
            InterpreterError::TypeMismatch { expected, actual } => e@ == (
            InterpreterErrorView::TypeMismatch { expected: expected@, actual: actual@ }),
            InterpreterError::Break => e@ is Break,
            InterpreterError::Continue => e@ is Continue,
        },
        match f {
            Error::ConfigError(t) => f@ == ErrorView::ConfigError(t@),
            Error::Runtime(t) => f@ == ErrorView::Runtime(t@),
        },
{
}

/// What is new is empty: a configuration sets nothing, an executor has nothing registered, and a
/// tracer has recorded nothing.
pub proof fn new_things_are_empty(config: TracerConfigView, name: Seq<char>)
    ensures
        unset_config().model is None,
        unset_config().temperature is None,
        unset_config().max_tokens is None,
        unset_config().system_prompt is None,
        !no_defs().tools.dom().contains(name),
        !no_defs().prompts.dom().contains(name),
        !no_defs().agents.dom().contains(name),
        !no_defs().pipelines.dom().contains(name),
        !no_defs().types.dom().contains(name),
        no_defs().base_path is None,
        fresh_tracer(config).config == config,
        fresh_tracer(config).records.len() == 0,
        fresh_tracer(config).unwritten.len() == 0,
{
}

} // verus!
