//! How a run talks to its host.
//!
//! A run is a function of the program and of the replies that the host has given so far. Where
//! it needs a reply that is not there it stops with the request; the host performs it and runs
//! again with one reply more.
use std::collections::VecDeque;
use std::sync::Arc;
use vstd::prelude::*;
use crate::chat::{
    definitions_view, messages_view, ChatMessage, ChatMessageView, ChatResponse, ChatResponseView,
    ChatToolDefinition, ChatToolDefinitionView,
};
use crate::error::{Error, ErrorView, InterpreterError, InterpreterErrorView};
use crate::ir::ExprIR;
use crate::value::{list_view, Float, Value, ValueView};

verus! {

/// A comparison of numbers.
#[derive(Clone, Copy, Debug, PartialEq, Eq, Structural)]
pub enum Comparison {
    Less,
    LessOrEqual,
    Greater,
    GreaterOrEqual,
}

/// An arithmetic operation.
#[derive(Clone, Copy, Debug, PartialEq, Eq, Structural)]
pub enum Arithmetic {
    Plus,
    Minus,
    Times,
    Over,
}

/// A number of either kind.
#[derive(Clone, Copy, Debug)]
pub enum Num {
    Int(i64),
    Float(Float),
}

/// What the host is asked to do.
#[derive(Debug)]
pub enum Request {
    /// Read the host's clock.
    Clock,
    /// Read a file; a relative path is taken from the base, where there is one. The error says
    /// which file, in quotes, and why.
    ReadFile { base: Option<String>, path: String },
    /// Fill a template from a value.
    Interpolate { template: String, context: Value },
    /// Run a command and give back what it prints, as text.
    Shell { command: String },
    /// Run a command and give back what it prints, as bytes.
    ShellBytes { command: String },
    /// Read an integer from a text.
    ParseInt { text: String },
    /// Read a floating-point number from a text.
    ParseFloat { text: String },
    /// Read a truth value from a text.
    ParseBool { text: String },
    /// Call a foreign function.
    Foreign { module: String, function: String, args: Vec<Value> },
    /// Compare two numbers as floating-point numbers.
    Compare { op: Comparison, left: Num, right: Num },
    /// Calculate with two numbers as floating-point numbers.
    Calculate { op: Arithmetic, left: Num, right: Num },
    /// Write a value as indented JSON.
    Pretty { value: Value },
    /// Write an error of the interpreter as text.
    Describe { error: InterpreterError },
    /// Write an error of the runtime as text.
    DescribeError { error: Error },
    /// Write an expression as text.
    DescribeExpr { expr: Arc<ExprIR> },
    /// Have the default model complete a prompt.
    Complete { prompt: String },
    /// Have the default model answer a chat.
    Chat { messages: Vec<ChatMessage>, tools: Vec<ChatToolDefinition> },
    /// Trace a tool call that began at the given time.
    TraceTool { started: u64, span: String, tool: String, input: Value, output: Value },
    /// Trace a chat that began at the given time: what was said, and what was answered.
    TraceChat {
        started: u64,
        span: String,
        messages: Vec<ChatMessage>,
        response: ChatMessage,
    },
}

/// What a request is, mathematically.
pub enum RequestView {
    Clock,
    ReadFile { base: Option<Seq<char>>, path: Seq<char> },
    Interpolate { template: Seq<char>, context: ValueView },
    Shell { command: Seq<char> },
    ShellBytes { command: Seq<char> },
    ParseInt { text: Seq<char> },
    ParseFloat { text: Seq<char> },
    ParseBool { text: Seq<char> },
    Foreign { module: Seq<char>, function: Seq<char>, args: Seq<ValueView> },
    Compare { op: Comparison, left: Num, right: Num },
    Calculate { op: Arithmetic, left: Num, right: Num },
    Pretty { value: ValueView },
    Describe { error: InterpreterErrorView },
    DescribeError { error: ErrorView },
    DescribeExpr { expr: Arc<ExprIR> },
    Complete { prompt: Seq<char> },
    Chat { messages: Seq<ChatMessageView>, tools: Seq<ChatToolDefinitionView> },
    TraceTool {
        started: u64,
        span: Seq<char>,
        tool: Seq<char>,
        input: ValueView,
        output: ValueView,
    },
    TraceChat {
        started: u64,
        span: Seq<char>,
        messages: Seq<ChatMessageView>,
        response: ChatMessageView,
    },
}

impl View for Request {
    type V = RequestView;

    open spec fn view(&self) -> RequestView {
        match *self {
            Request::Clock => RequestView::Clock,
            Request::ReadFile { base, path } => RequestView::ReadFile {
                base: match base {
                    Some(b) => Some(b@),
                    None => None,
                },
                path: path@,
            },
            Request::Interpolate { template, context } => RequestView::Interpolate {
                template: template@,
                context: context@,
            },
            Request::Shell { command } => RequestView::Shell { command: command@ },
            Request::ShellBytes { command } => RequestView::ShellBytes { command: command@ },
            Request::ParseInt { text } => RequestView::ParseInt { text: text@ },
            Request::ParseFloat { text } => RequestView::ParseFloat { text: text@ },
            Request::ParseBool { text } => RequestView::ParseBool { text: text@ },
            Request::Foreign { module, function, args } => RequestView::Foreign {
                module: module@,
                function: function@,
                args: list_view(args@),
            },
            Request::Compare { op, left, right } => RequestView::Compare { op, left, right },
            Request::Calculate { op, left, right } => RequestView::Calculate { op, left, right },
            Request::Pretty { value } => RequestView::Pretty { value: value@ },
            Request::Describe { error } => RequestView::Describe { error: error@ },
            Request::DescribeError { error } => RequestView::DescribeError { error: error@ },
            Request::DescribeExpr { expr } => RequestView::DescribeExpr { expr },
            Request::Complete { prompt } => RequestView::Complete { prompt: prompt@ },
            Request::Chat { messages, tools } => RequestView::Chat {
                messages: messages_view(messages@),
                tools: definitions_view(tools@),
            },
            Request::TraceTool { started, span, tool, input, output } => RequestView::TraceTool {
                started,
                span: span@,
                tool: tool@,
                input: input@,
                output: output@,
            },
            Request::TraceChat { started, span, messages, response } => RequestView::TraceChat {
                started,
                span: span@,
                messages: messages_view(messages@),
                response: response@,
            },
        }
    }
}

/// What the host answers. Where what it did can fail, the error comes as text.
#[derive(Debug)]
pub enum Reply {
    /// To `Clock`.
    Clock(u64),
    /// To `Pretty`, `Describe`, `DescribeError` and `DescribeExpr`.
    Text(String),
    /// To `ReadFile`, `Interpolate` and `Shell`.
    Output(Result<String, String>),
    /// To `ShellBytes`.
    Bytes(Result<Vec<u8>, String>),
    /// To `ParseInt`.
    Int(Result<i64, String>),
    /// To `ParseFloat`.
    Float(Result<Float, String>),
    /// To `ParseBool`.
    Bool(Result<bool, String>),
    /// To `Foreign`.
    Value(Result<Value, InterpreterError>),
    /// To `Compare`.
    Flag(bool),
    /// To `Calculate`.
    Number(Float),
    /// To `Complete`.
    Completion(Result<String, Error>),
    /// To `Chat`.
    Chat(Result<ChatResponse, Error>),
    /// To `TraceTool` and `TraceChat`.
    Done,
}

/// What a reply is, mathematically.
pub enum ReplyView {
    Clock(u64),
    Text(Seq<char>),
    Output(Result<Seq<char>, Seq<char>>),
    Bytes(Result<Seq<u8>, Seq<char>>),
    Int(Result<i64, Seq<char>>),
    Float(Result<u64, Seq<char>>),
    Bool(Result<bool, Seq<char>>),
    Value(Result<ValueView, InterpreterErrorView>),
    Flag(bool),
    Number(u64),
    Completion(Result<Seq<char>, ErrorView>),
    Chat(Result<ChatResponseView, ErrorView>),
    Done,
}

impl View for Reply {
    type V = ReplyView;

    open spec fn view(&self) -> ReplyView {
        match *self {
            Reply::Clock(t) => ReplyView::Clock(t),
            Reply::Text(s) => ReplyView::Text(s@),
            Reply::Output(Ok(s)) => ReplyView::Output(Ok(s@)),
            Reply::Output(Err(e)) => ReplyView::Output(Err(e@)),
            Reply::Bytes(Ok(b)) => ReplyView::Bytes(Ok(b@)),
            Reply::Bytes(Err(e)) => ReplyView::Bytes(Err(e@)),
            Reply::Int(Ok(i)) => ReplyView::Int(Ok(i)),
            Reply::Int(Err(e)) => ReplyView::Int(Err(e@)),
            Reply::Float(Ok(f)) => ReplyView::Float(Ok(f.bits)),
            Reply::Float(Err(e)) => ReplyView::Float(Err(e@)),
            Reply::Bool(Ok(b)) => ReplyView::Bool(Ok(b)),
            Reply::Bool(Err(e)) => ReplyView::Bool(Err(e@)),
            Reply::Value(Ok(v)) => ReplyView::Value(Ok(v@)),
            Reply::Value(Err(e)) => ReplyView::Value(Err(e@)),
            Reply::Flag(b) => ReplyView::Flag(b),
            Reply::Number(f) => ReplyView::Number(f.bits),
            Reply::Completion(Ok(s)) => ReplyView::Completion(Ok(s@)),
            Reply::Completion(Err(e)) => ReplyView::Completion(Err(e@)),
            Reply::Chat(Ok(c)) => ReplyView::Chat(Ok(c@)),
            Reply::Chat(Err(e)) => ReplyView::Chat(Err(e@)),
            Reply::Done => ReplyView::Done,
        }
    }
}

impl Clone for Reply {
    fn clone(&self) -> (r: Self)
        ensures
            r@ == self@,
    {
        match self {
            Reply::Clock(t) => Reply::Clock(*t),
            Reply::Text(s) => Reply::Text(s.clone()),
            Reply::Output(Ok(s)) => Reply::Output(Ok(s.clone())),
            Reply::Output(Err(e)) => Reply::Output(Err(e.clone())),
            Reply::Bytes(Ok(b)) => Reply::Bytes(Ok(b.clone())),
            Reply::Bytes(Err(e)) => Reply::Bytes(Err(e.clone())),
            Reply::Int(Ok(i)) => Reply::Int(Ok(*i)),
            Reply::Int(Err(e)) => Reply::Int(Err(e.clone())),
            Reply::Float(Ok(f)) => Reply::Float(Ok(*f)),
            Reply::Float(Err(e)) => Reply::Float(Err(e.clone())),
            Reply::Bool(Ok(b)) => Reply::Bool(Ok(*b)),
            Reply::Bool(Err(e)) => Reply::Bool(Err(e.clone())),
            Reply::Value(Ok(v)) => Reply::Value(Ok(v.clone())),
            Reply::Value(Err(e)) => Reply::Value(Err(e.clone())),
            Reply::Flag(b) => Reply::Flag(*b),
            Reply::Number(f) => Reply::Number(*f),
            Reply::Completion(Ok(s)) => Reply::Completion(Ok(s.clone())),
            Reply::Completion(Err(e)) => Reply::Completion(Err(e.clone())),
            Reply::Chat(Ok(c)) => Reply::Chat(Ok(c.clone())),
            Reply::Chat(Err(e)) => Reply::Chat(Err(e.clone())),
            Reply::Done => Reply::Done,
        }
    }
}

/// What cannot go on: the host is to panic.
#[derive(Clone, Copy, Debug, PartialEq, Eq, Structural)]
pub enum Fault {
    /// The result of an integer operation does not fit.
    Overflow,
    /// A code block's end stands before its start.
    BlockEnd,
    /// The reply is not one to the request.
    UnexpectedReply,
}

/// Why a run stopped without a value.
#[derive(Debug)]
pub enum Stop {
    /// It failed.
    Failed(InterpreterError),
    /// It needs one more reply, to this request.
    Ask(Request),
    /// It cannot go on.
    Fault(Fault),
    /// It used up its fuel.
    OutOfFuel,
}

/// Why a run stopped, mathematically.
pub enum StopView {
    Failed(InterpreterErrorView),
    Ask(RequestView),
    Fault(Fault),
    OutOfFuel,
}

impl View for Stop {
    type V = StopView;

    open spec fn view(&self) -> StopView {
        match *self {
            Stop::Failed(e) => StopView::Failed(e@),
            Stop::Ask(q) => StopView::Ask(q@),
            Stop::Fault(f) => StopView::Fault(f),
            Stop::OutOfFuel => StopView::OutOfFuel,
        }
    }
}

/// The end of a run, and the replies that it left unused.
pub type Outcome<T> = (Result<T, StopView>, Seq<ReplyView>);

/// What came of a run that gives a value.
pub open spec fn value_end(r: Result<Value, Stop>) -> Result<ValueView, StopView> {
    match r {
        Ok(v) => Ok(v@),
        Err(s) => Err(s@),
    }
}

/// What came of a run that gives a text.
pub open spec fn text_end(r: Result<String, Stop>) -> Result<Seq<char>, StopView> {
    match r {
        Ok(v) => Ok(v@),
        Err(s) => Err(s@),
    }
}

/// What came of asking for a reply.
pub open spec fn reply_end(r: Result<Reply, Stop>) -> Result<ReplyView, StopView> {
    match r {
        Ok(v) => Ok(v@),
        Err(s) => Err(s@),
    }
}

/// What came of a run that gives something plain.
pub open spec fn plain_end<T>(r: Result<T, Stop>) -> Result<T, StopView> {
    match r {
        Ok(v) => Ok(v),
        Err(s) => Err(s@),
    }
}

/// The next reply, if there is one; otherwise the run stops with the request.
pub open spec fn ask(rs: Seq<ReplyView>, request: RequestView) -> Outcome<ReplyView> {
    if rs.len() == 0 {
        (Err(StopView::Ask(request)), rs)
    } else {
        (Ok(rs[0]), rs.drop_first())
    }
}

/// What came of asking for a text or an error.
pub open spec fn output_end(r: Result<Result<String, String>, Stop>) -> Result<
    Result<Seq<char>, Seq<char>>,
    StopView,
> {
    match r {
        Ok(Ok(s)) => Ok(Ok(s@)),
        Ok(Err(e)) => Ok(Err(e@)),
        Err(s) => Err(s@),
    }
}

/// What came of asking for bytes or an error.
pub open spec fn bytes_end(r: Result<Result<Vec<u8>, String>, Stop>) -> Result<
    Result<Seq<u8>, Seq<char>>,
    StopView,
> {
    match r {
        Ok(Ok(b)) => Ok(Ok(b@)),
        Ok(Err(e)) => Ok(Err(e@)),
        Err(s) => Err(s@),
    }
}

/// What came of asking for something plain or an error.
pub open spec fn parsed_end<T>(r: Result<Result<T, String>, Stop>) -> Result<
    Result<T, Seq<char>>,
    StopView,
> {
    match r {
        Ok(Ok(x)) => Ok(Ok(x)),
        Ok(Err(e)) => Ok(Err(e@)),
        Err(s) => Err(s@),
    }
}

/// What came of asking for a floating-point number or an error.
pub open spec fn float_end(r: Result<Result<Float, String>, Stop>) -> Result<
    Result<u64, Seq<char>>,
    StopView,
> {
    match r {
        Ok(Ok(f)) => Ok(Ok(f.bits)),
        Ok(Err(e)) => Ok(Err(e@)),
        Err(s) => Err(s@),
    }
}

/// What came of asking for a number.
pub open spec fn number_end(r: Result<Float, Stop>) -> Result<u64, StopView> {
    match r {
        Ok(f) => Ok(f.bits),
        Err(s) => Err(s@),
    }
}

/// What came of asking a foreign function for a value.
pub open spec fn foreign_end(r: Result<Result<Value, InterpreterError>, Stop>) -> Result<
    Result<ValueView, InterpreterErrorView>,
    StopView,
> {
    match r {
        Ok(Ok(v)) => Ok(Ok(v@)),
        Ok(Err(e)) => Ok(Err(e@)),
        Err(s) => Err(s@),
    }
}

/// What came of asking for a completion.
pub open spec fn completion_end(r: Result<Result<String, Error>, Stop>) -> Result<
    Result<Seq<char>, ErrorView>,
    StopView,
> {
    match r {
        Ok(Ok(v)) => Ok(Ok(v@)),
        Ok(Err(e)) => Ok(Err(e@)),
        Err(s) => Err(s@),
    }
}

/// Asks for a time.
pub open spec fn ask_clock(rs: Seq<ReplyView>, request: RequestView) -> Outcome<u64> {
    match ask(rs, request) {
        (Ok(ReplyView::Clock(t)), rest) => (Ok(t), rest),
        (Ok(_), rest) => (Err(StopView::Fault(Fault::UnexpectedReply)), rest),
        (Err(e), rest) => (Err(e), rest),
    }
}

/// Asks for a text.
pub open spec fn ask_text(rs: Seq<ReplyView>, request: RequestView) -> Outcome<Seq<char>> {
    match ask(rs, request) {
        (Ok(ReplyView::Text(s)), rest) => (Ok(s), rest),
        (Ok(_), rest) => (Err(StopView::Fault(Fault::UnexpectedReply)), rest),
        (Err(e), rest) => (Err(e), rest),
    }
}

/// Asks for a text or an error.
pub open spec fn ask_output(
    rs: Seq<ReplyView>,
    request: RequestView,
) -> Outcome<Result<Seq<char>, Seq<char>>> {
    match ask(rs, request) {
        (Ok(ReplyView::Output(x)), rest) => (Ok(x), rest),
        (Ok(_), rest) => (Err(StopView::Fault(Fault::UnexpectedReply)), rest),
        (Err(e), rest) => (Err(e), rest),
    }
}

/// Asks for bytes or an error.
pub open spec fn ask_bytes(
    rs: Seq<ReplyView>,
    request: RequestView,
) -> Outcome<Result<Seq<u8>, Seq<char>>> {
    match ask(rs, request) {
        (Ok(ReplyView::Bytes(x)), rest) => (Ok(x), rest),
        (Ok(_), rest) => (Err(StopView::Fault(Fault::UnexpectedReply)), rest),
        (Err(e), rest) => (Err(e), rest),
    }
}

/// Asks for an integer or an error.
pub open spec fn ask_int(
    rs: Seq<ReplyView>,
    request: RequestView,
) -> Outcome<Result<i64, Seq<char>>> {
    match ask(rs, request) {
        (Ok(ReplyView::Int(x)), rest) => (Ok(x), rest),
        (Ok(_), rest) => (Err(StopView::Fault(Fault::UnexpectedReply)), rest),
        (Err(e), rest) => (Err(e), rest),
    }
}

/// Asks for a floating-point number or an error.
pub open spec fn ask_float(
    rs: Seq<ReplyView>,
    request: RequestView,
) -> Outcome<Result<u64, Seq<char>>> {
    match ask(rs, request) {
        (Ok(ReplyView::Float(x)), rest) => (Ok(x), rest),
        (Ok(_), rest) => (Err(StopView::Fault(Fault::UnexpectedReply)), rest),
        (Err(e), rest) => (Err(e), rest),
    }
}

/// Asks for a truth value or an error.
pub open spec fn ask_bool(
    rs: Seq<ReplyView>,
    request: RequestView,
) -> Outcome<Result<bool, Seq<char>>> {
    match ask(rs, request) {
        (Ok(ReplyView::Bool(x)), rest) => (Ok(x), rest),
        (Ok(_), rest) => (Err(StopView::Fault(Fault::UnexpectedReply)), rest),
        (Err(e), rest) => (Err(e), rest),
    }
}

/// Asks for a value or an error of the interpreter.
pub open spec fn ask_foreign(
    rs: Seq<ReplyView>,
    request: RequestView,
) -> Outcome<Result<ValueView, InterpreterErrorView>> {
    match ask(rs, request) {
        (Ok(ReplyView::Value(x)), rest) => (Ok(x), rest),
        (Ok(_), rest) => (Err(StopView::Fault(Fault::UnexpectedReply)), rest),
        (Err(e), rest) => (Err(e), rest),
    }
}

/// Asks for a truth value.
pub open spec fn ask_flag(rs: Seq<ReplyView>, request: RequestView) -> Outcome<bool> {
    match ask(rs, request) {
        (Ok(ReplyView::Flag(b)), rest) => (Ok(b), rest),
        (Ok(_), rest) => (Err(StopView::Fault(Fault::UnexpectedReply)), rest),
        (Err(e), rest) => (Err(e), rest),
    }
}

/// Asks for a number.
pub open spec fn ask_number(rs: Seq<ReplyView>, request: RequestView) -> Outcome<u64> {
    match ask(rs, request) {
        (Ok(ReplyView::Number(f)), rest) => (Ok(f), rest),
        (Ok(_), rest) => (Err(StopView::Fault(Fault::UnexpectedReply)), rest),
        (Err(e), rest) => (Err(e), rest),
    }
}

/// Asks for a completion or an error of the runtime.
pub open spec fn ask_completion(
    rs: Seq<ReplyView>,
    request: RequestView,
) -> Outcome<Result<Seq<char>, ErrorView>> {
    match ask(rs, request) {
        (Ok(ReplyView::Completion(x)), rest) => (Ok(x), rest),
        (Ok(_), rest) => (Err(StopView::Fault(Fault::UnexpectedReply)), rest),
        (Err(e), rest) => (Err(e), rest),
    }
}

/// Asks for a response or an error of the runtime.
pub open spec fn ask_chat(
    rs: Seq<ReplyView>,
    request: RequestView,
) -> Outcome<Result<ChatResponseView, ErrorView>> {
    match ask(rs, request) {
        (Ok(ReplyView::Chat(x)), rest) => (Ok(x), rest),
        (Ok(_), rest) => (Err(StopView::Fault(Fault::UnexpectedReply)), rest),
        (Err(e), rest) => (Err(e), rest),
    }
}

/// Asks for that something was done.
pub open spec fn ask_done(rs: Seq<ReplyView>, request: RequestView) -> Outcome<()> {
    match ask(rs, request) {
        (Ok(ReplyView::Done), rest) => (Ok(()), rest),
        (Ok(_), rest) => (Err(StopView::Fault(Fault::UnexpectedReply)), rest),
        (Err(e), rest) => (Err(e), rest),
    }
}

/// The end of a run whose model gave an error, which it holds as text.
pub open spec fn model_failure(error: ErrorView, rs: Seq<ReplyView>) -> Outcome<ValueView> {
    match ask_text(rs, RequestView::DescribeError { error }) {
        (Ok(text), rest) => (Err(StopView::Failed(InterpreterErrorView::LlmError(text))), rest),
        (Err(s), rest) => (Err(s), rest),
    }
}

/// What a list of replies is.
pub open spec fn replies_view(replies: Seq<Reply>) -> Seq<ReplyView> {
    replies.map_values(|r: Reply| r@)
}

/// The replies that the host has given and that a run has not used yet.
#[derive(Debug)]
pub struct Session {
    replies: VecDeque<Reply>,
}

impl View for Session {
    type V = Seq<ReplyView>;

    closed spec fn view(&self) -> Seq<ReplyView> {
        replies_view(self.replies@)
    }
}

impl Session {
    /// A session with the replies so far, in the order in which they were asked for.
    pub fn new(replies: VecDeque<Reply>) -> (r: Self)
        ensures
            r@ == replies_view(replies@),
    {
        Session { replies }
    }

    /// The next reply, if there is one.
    pub fn next(&mut self) -> (r: Option<Reply>)
        ensures
            match r {
                Some(x) => old(self)@.len() > 0 && x@ == old(self)@[0] && final(self)@ == old(
                    self,
                )@.drop_first(),
                None => old(self)@.len() == 0 && final(self)@ == old(self)@,
            },
    {
        let r = self.replies.pop_front();
        proof {
            if r is Some {
                assert(self@ =~= old(self)@.drop_first());
            }
        }
        r
    }

    /// The next reply; without one the run stops with the request.
    pub fn ask(&mut self, request: Request) -> (r: Result<Reply, Stop>)
        ensures
            (reply_end(r), final(self)@) == ask(old(self)@, request@),
    {
        match self.next() {
            Some(x) => Ok(x),
            None => Err(Stop::Ask(request)),
        }
    }

    /// Asks for a time.
    pub fn ask_clock(&mut self, request: Request) -> (r: Result<u64, Stop>)
        ensures
            (plain_end(r), final(self)@) == ask_clock(old(self)@, request@),
    {
        match self.ask(request) {
            Ok(Reply::Clock(t)) => Ok(t),
            Ok(_) => Err(Stop::Fault(Fault::UnexpectedReply)),
            Err(e) => Err(e),
        }
    }

    /// Asks for a text.
    pub fn ask_text(&mut self, request: Request) -> (r: Result<String, Stop>)
        ensures
            (text_end(r), final(self)@) == ask_text(old(self)@, request@),
    {
        match self.ask(request) {
            Ok(Reply::Text(s)) => Ok(s),
            Ok(_) => Err(Stop::Fault(Fault::UnexpectedReply)),
            Err(e) => Err(e),
        }
    }

    /// Asks for a text or an error.
    pub fn ask_output(&mut self, request: Request) -> (r: Result<Result<String, String>, Stop>)
        ensures
            (output_end(r), final(self)@) == ask_output(old(self)@, request@),
    {
        match self.ask(request) {
            Ok(Reply::Output(x)) => Ok(x),
            Ok(_) => Err(Stop::Fault(Fault::UnexpectedReply)),
            Err(e) => Err(e),
        }
    }

    /// Asks for bytes or an error.
    pub fn ask_bytes(&mut self, request: Request) -> (r: Result<Result<Vec<u8>, String>, Stop>)
        ensures
            (bytes_end(r), final(self)@) == ask_bytes(old(self)@, request@),
    {
        match self.ask(request) {
            Ok(Reply::Bytes(x)) => Ok(x),
            Ok(_) => Err(Stop::Fault(Fault::UnexpectedReply)),
            Err(e) => Err(e),
        }
    }

    /// Asks for an integer or an error.
    pub fn ask_int(&mut self, request: Request) -> (r: Result<Result<i64, String>, Stop>)
        ensures
            (parsed_end(r), final(self)@) == ask_int(old(self)@, request@),
    {
        match self.ask(request) {
            Ok(Reply::Int(x)) => Ok(x),
            Ok(_) => Err(Stop::Fault(Fault::UnexpectedReply)),
            Err(e) => Err(e),
        }
    }

    /// Asks for a floating-point number or an error.
    pub fn ask_float(&mut self, request: Request) -> (r: Result<Result<Float, String>, Stop>)
        ensures
            (float_end(r), final(self)@) == ask_float(old(self)@, request@),
    {
        match self.ask(request) {
            Ok(Reply::Float(x)) => Ok(x),
            Ok(_) => Err(Stop::Fault(Fault::UnexpectedReply)),
            Err(e) => Err(e),
        }
    }

    /// Asks for a truth value or an error.
    pub fn ask_bool(&mut self, request: Request) -> (r: Result<Result<bool, String>, Stop>)
        ensures
            (parsed_end(r), final(self)@) == ask_bool(old(self)@, request@),
    {
        match self.ask(request) {
            Ok(Reply::Bool(x)) => Ok(x),
            Ok(_) => Err(Stop::Fault(Fault::UnexpectedReply)),
            Err(e) => Err(e),
        }
    }

    /// Asks for a value or an error of the interpreter.
    pub fn ask_foreign(
        &mut self,
        request: Request,
    ) -> (r: Result<Result<Value, InterpreterError>, Stop>)
        ensures
            (foreign_end(r), final(self)@) == ask_foreign(old(self)@, request@),
    {
        match self.ask(request) {
            Ok(Reply::Value(x)) => Ok(x),
            Ok(_) => Err(Stop::Fault(Fault::UnexpectedReply)),
            Err(e) => Err(e),
        }
    }

    /// Asks for a truth value.
    pub fn ask_flag(&mut self, request: Request) -> (r: Result<bool, Stop>)
        ensures
            (plain_end(r), final(self)@) == ask_flag(old(self)@, request@),
    {
        match self.ask(request) {
            Ok(Reply::Flag(b)) => Ok(b),
            Ok(_) => Err(Stop::Fault(Fault::UnexpectedReply)),
            Err(e) => Err(e),
        }
    }

    /// Asks for a number.
    pub fn ask_number(&mut self, request: Request) -> (r: Result<Float, Stop>)
        ensures
            (number_end(r), final(self)@) == ask_number(old(self)@, request@),
    {
        match self.ask(request) {
            Ok(Reply::Number(f)) => Ok(f),
            Ok(_) => Err(Stop::Fault(Fault::UnexpectedReply)),
            Err(e) => Err(e),
        }
    }

    /// Asks for a completion or an error of the runtime.
    pub fn ask_completion(&mut self, request: Request) -> (r: Result<Result<String, Error>, Stop>)
        ensures
            (completion_end(r), final(self)@) == ask_completion(old(self)@, request@),
    {
        match self.ask(request) {
            Ok(Reply::Completion(x)) => Ok(x),
            Ok(_) => Err(Stop::Fault(Fault::UnexpectedReply)),
            Err(e) => Err(e),
        }
    }

    /// Why a run ends whose model gave an error.
    pub fn model_failure(&mut self, error: Error) -> (r: Stop)
        ensures
            (Err::<ValueView, StopView>(r@), final(self)@) == model_failure(error@, old(self)@),
    {
        match self.ask_text(Request::DescribeError { error }) {
            Ok(text) => Stop::Failed(InterpreterError::LlmError(text)),
            Err(s) => s,
        }
    }

    /// Asks for that something was done.
    pub fn ask_done(&mut self, request: Request) -> (r: Result<(), Stop>)
        ensures
            (plain_end(r), final(self)@) == ask_done(old(self)@, request@),
    {
        match self.ask(request) {
            Ok(Reply::Done) => Ok(()),
            Ok(_) => Err(Stop::Fault(Fault::UnexpectedReply)),
            Err(e) => Err(e),
        }
    }
}

} // verus!
