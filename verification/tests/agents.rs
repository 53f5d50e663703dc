//! Runs of agents, prompts and pipelines.
use scaffold::agent::{agent_answer, read_answer, tool_arguments};
use scaffold::chat::{ChatMessage, ChatResponse, ChatRole, FunctionCall, ToolCall};
use scaffold::dict::Dict;
use scaffold::error::{Error, InterpreterError};
use scaffold::executor::ToolExecutor;
use scaffold::ir::{
    AgentIR, LiteralIR, PipelineCallIR, PipelineIR, PipelineStepIR, PromptIR, StringOrFileIR,
    ToolExprIR, ToolIR, ToolImplIR, TypeDefIR, TypeIR,
};
use scaffold::json::Json;
use scaffold::llm::{answer_value, query_structured};
use scaffold::session::{Fault, Reply, Request, Session, Stop};
use scaffold::value::Value;
use std::collections::VecDeque;

const FUEL: u64 = 1000;

fn replies(list: Vec<Reply>) -> Session {
    Session::new(VecDeque::from(list))
}

fn s(text: &str) -> String {
    text.to_string()
}

fn text(t: &str) -> Value {
    Value::String(s(t))
}

fn dict(entries: Vec<(&str, Value)>) -> Value {
    let mut d = Dict::new();
    for (k, v) in entries {
        d.insert(s(k), v);
    }
    Value::Dict(d)
}

fn literal(t: &str) -> StringOrFileIR {
    StringOrFileIR::Literal { value: s(t) }
}

fn number(value: i64) -> ToolExprIR {
    ToolExprIR::Literal { value: LiteralIR::Int { value } }
}

fn ident(name: &str) -> ToolExprIR {
    ToolExprIR::Ident { name: s(name) }
}

fn tool(name: &str, expr: ToolExprIR) -> ToolIR {
    ToolIR {
        name: s(name),
        input: TypeIR::Struct { fields: vec![(s("n"), TypeIR::Int)] },
        output: TypeIR::Any,
        conditions: None,
        implementation: Some(ToolImplIR::Expr { expr }),
    }
}

fn agent(max_turns: Option<u64>) -> AgentIR {
    AgentIR {
        name: s("helper"),
        output: TypeIR::Struct { fields: vec![(s("answer"), TypeIR::Int)] },
        system: literal("Help."),
        tools: vec![s("echo"), s("unknown")],
        max_turns,
    }
}

fn call(id: &str, name: &str, arguments: &str) -> ToolCall {
    ToolCall {
        id: s(id),
        call_type: s("function"),
        function: FunctionCall { name: s(name), arguments: s(arguments) },
    }
}

fn says(content: &str) -> Reply {
    Reply::Chat(Ok(ChatResponse {
        message: ChatMessage::assistant(s(content)),
        finish_reason: Some(s("stop")),
    }))
}

fn asks(calls: Vec<ToolCall>) -> Reply {
    Reply::Chat(Ok(ChatResponse {
        message: ChatMessage::assistant_with_tool_calls(calls),
        finish_reason: None,
    }))
}

fn pretty(t: &str) -> Reply {
    Reply::Text(s(t))
}

fn run(max_turns: Option<u64>, given: Vec<Reply>) -> Result<Value, Stop> {
    let tools = vec![tool("echo", ident("n")), tool("fails", ident("missing"))];
    let mut executor = ToolExecutor::new();
    executor.register_tools(&tools);
    executor.execute_agent(&agent(max_turns), text("hi"), FUEL, &mut replies(given))
}

fn runtime(stop: Stop) -> String {
    match stop {
        Stop::Failed(InterpreterError::Runtime(m)) => m,
        other => panic!("{:?}", other),
    }
}

#[test]
fn an_agent_is_told_its_form_and_its_input() {
    let asked = run(None, vec![]).unwrap_err();
    assert!(matches!(asked, Stop::Ask(Request::Pretty { value }) if value == text("hi")));
    let asked = run(None, vec![pretty("\"hi\"")]).unwrap_err();
    assert!(matches!(asked, Stop::Ask(Request::Clock)));
    let asked = run(None, vec![pretty("\"hi\""), Reply::Clock(7)]).unwrap_err();
    let (messages, tools) = match asked {
        Stop::Ask(Request::Chat { messages, tools }) => (messages, tools),
        other => panic!("{:?}", other),
    };
    assert_eq!(messages.len(), 2);
    assert_eq!(messages[0].role, ChatRole::System);
    assert_eq!(
        messages[0].content.as_deref(),
        Some("Help.\n\n## Output Format\n\nWhen you are done and ready to respond to the user, you MUST output ONLY valid JSON matching this exact structure:\n\n{\"answer\": 42}\n\nDo NOT include any text before or after the JSON. Do NOT wrap it in markdown code blocks.")
    );
    assert_eq!(messages[1].role, ChatRole::User);
    assert_eq!(messages[1].content.as_deref(), Some("Input: \"hi\""));
    assert_eq!(tools.len(), 1);
    assert_eq!(tools[0].tool_type, "function");
    assert_eq!(tools[0].function.name, "echo");
    assert_eq!(tools[0].function.description, "Execute the echo tool");
    assert!(matches!(&tools[0].function.parameters, Json::Object(_)));
}

#[test]
fn an_agent_answers_in_json() {
    let given = vec![pretty("1"), Reply::Clock(7), says(" {\"answer\": 3} ")];
    let asked = run(None, given.clone()).unwrap_err();
    assert!(
        matches!(asked, Stop::Ask(Request::TraceChat { started: 7, span, messages, response })
            if span == "llm-helper-turn1"
                && messages.len() == 2
                && messages[1].content.as_deref() == Some("Input: 1")
                && response.content.as_deref() == Some(" {\"answer\": 3} "))
    );
    let mut given = given;
    given.push(Reply::Done);
    assert_eq!(run(None, given).unwrap(), dict(vec![("answer", Value::Int(3))]));
    let fenced = "```json\n{\"answer\": 4}\n```";
    let given = vec![pretty("1"), Reply::Clock(0), says(fenced), Reply::Done];
    assert_eq!(run(None, given).unwrap(), dict(vec![("answer", Value::Int(4))]));
}

#[test]
fn an_agent_that_does_not_answer_fails() {
    let empty = vec![pretty("1"), Reply::Clock(0), says(" \n\t"), Reply::Done];
    assert_eq!(runtime(run(None, empty).unwrap_err()), "Agent returned empty response");
    let nothing = Reply::Chat(Ok(ChatResponse {
        message: ChatMessage {
            role: ChatRole::Assistant,
            content: None,
            tool_calls: Some(vec![]),
            tool_call_id: None,
            name: None,
        },
        finish_reason: None,
    }));
    let given = vec![pretty("1"), Reply::Clock(0), nothing, Reply::Done];
    assert_eq!(runtime(run(None, given).unwrap_err()), "Agent returned empty response");
    let given = vec![pretty("1"), Reply::Clock(0), says("No JSON."), Reply::Done];
    let message = runtime(run(None, given).unwrap_err());
    assert!(message.starts_with("Failed to parse agent response as JSON: "));
    assert!(message.ends_with(". Response was: No JSON."));
    let refused = Reply::Chat(Err(Error::Runtime(s("down"))));
    let mut given = vec![pretty("1"), Reply::Clock(0), refused];
    let asked = run(None, given.clone()).unwrap_err();
    assert!(
        matches!(asked, Stop::Ask(Request::DescribeError { error: Error::Runtime(m) }) if m == "down")
    );
    given.push(Reply::Text(s("Runtime error: down")));
    let e = run(None, given).unwrap_err();
    assert!(
        matches!(e, Stop::Failed(InterpreterError::LlmError(m)) if m == "Runtime error: down")
    );
}

#[test]
fn a_fence_that_closes_nothing_is_a_fault() {
    let given = vec![pretty("1"), Reply::Clock(0), says("```json"), Reply::Done];
    assert!(matches!(run(None, given).unwrap_err(), Stop::Fault(Fault::BlockEnd)));
    assert!(matches!(read_answer(Some("```")).unwrap_err(), Stop::Fault(Fault::BlockEnd)));
}

#[test]
fn tools_are_called_and_their_results_told() {
    let calls = vec![
        call("c1", "echo", "{\"n\": 5}"),
        call("c2", "nowhere", "{}"),
        call("c3", "fails", "{}"),
    ];
    let given = vec![
        pretty("1"),
        Reply::Clock(0),
        asks(calls),
        Reply::Done,
        Reply::Clock(1),
        Reply::Done,
        pretty("5"),
        Reply::Clock(2),
        pretty("Variable not found: missing"),
        Reply::Clock(3),
    ];
    let asked = run(None, given.clone()).unwrap_err();
    let messages = match asked {
        Stop::Ask(Request::Chat { messages, .. }) => messages,
        other => panic!("{:?}", other),
    };
    assert_eq!(messages.len(), 6);
    assert_eq!(messages[2].tool_calls.as_ref().unwrap().len(), 3);
    let told: Vec<(&str, &str)> = messages[3..]
        .iter()
        .map(|m| (m.tool_call_id.as_deref().unwrap(), m.content.as_deref().unwrap()))
        .collect();
    assert_eq!(
        told,
        vec![
            ("c1", "5"),
            ("c2", "Error: Tool 'nowhere' not found"),
            ("c3", "Error: Variable not found: missing"),
        ]
    );
    assert!(messages[3..].iter().all(|m| m.role == ChatRole::Tool));
    let mut given = given;
    given.push(says("{}"));
    let asked = run(None, given.clone()).unwrap_err();
    assert!(
        matches!(asked, Stop::Ask(Request::TraceChat { started: 3, span, messages, response })
            if span == "llm-helper-turn2"
                && messages.len() == 6
                && response.content.as_deref() == Some("{}"))
    );
    given.push(Reply::Done);
    assert_eq!(run(None, given).unwrap(), dict(vec![]));
}

#[test]
fn the_error_of_a_tool_is_described_by_the_host() {
    let given = vec![
        pretty("1"),
        Reply::Clock(0),
        asks(vec![call("c", "fails", "{}")]),
        Reply::Done,
        Reply::Clock(1),
    ];
    let asked = run(None, given).unwrap_err();
    assert!(
        matches!(asked, Stop::Ask(Request::Describe { error: InterpreterError::VariableNotFound(n) }) if n == "missing")
    );
}

#[test]
fn arguments_that_are_not_json_end_the_run() {
    let given = vec![
        pretty("1"),
        Reply::Clock(0),
        asks(vec![call("c", "echo", "{n: 5}")]),
        Reply::Done,
    ];
    let message = runtime(run(None, given).unwrap_err());
    assert!(message.starts_with("Failed to parse tool 'echo' arguments as JSON: "));
    assert!(message.ends_with(". Raw arguments: {n: 5}"));
}

#[test]
fn turns_are_bounded() {
    let given = vec![pretty("1")];
    assert_eq!(runtime(run(Some(0), given).unwrap_err()), "Agent exceeded max_turns (0)");
    let turn = || {
        vec![
            Reply::Clock(0),
            asks(vec![call("c", "nowhere", "{}")]),
            Reply::Done,
        ]
    };
    let mut given = vec![pretty("1")];
    for _ in 0..10 {
        given.extend(turn());
    }
    assert_eq!(runtime(run(None, given).unwrap_err()), "Agent exceeded max_turns (10)");
    let mut given = vec![pretty("1")];
    given.extend(turn());
    assert_eq!(runtime(run(Some(1), given).unwrap_err()), "Agent exceeded max_turns (1)");
}

#[test]
fn endless_types_run_out_of_fuel() {
    let types = vec![TypeDefIR {
        name: s("List"),
        definition: TypeIR::List { element: Box::new(TypeIR::Named { name: s("List") }) },
    }];
    let mut executor = ToolExecutor::new();
    executor.register_types(&types);
    let a = AgentIR {
        name: s("a"),
        output: TypeIR::Named { name: s("List") },
        system: literal("x"),
        tools: vec![],
        max_turns: None,
    };
    let e = executor.execute_agent(&a, Value::Null, 100, &mut replies(vec![])).unwrap_err();
    assert!(matches!(e, Stop::OutOfFuel));
}

#[test]
fn what_follows_the_reading_of_json() {
    assert_eq!(tool_arguments(Ok(Json::Null), "t", "null").unwrap(), Value::Null);
    assert_eq!(
        runtime(tool_arguments(Err(s("bad")), "t", "raw").unwrap_err()),
        "Failed to parse tool 't' arguments as JSON: bad. Raw arguments: raw"
    );
    assert_eq!(agent_answer(Ok(Json::Bool(true)), "true").unwrap(), Value::Bool(true));
    assert_eq!(
        runtime(agent_answer(Err(s("bad")), "raw").unwrap_err()),
        "Failed to parse agent response as JSON: bad. Response was: raw"
    );
    assert_eq!(answer_value(Ok(Json::Bool(true)), "true").unwrap(), Value::Bool(true));
    let e = answer_value(Err(s("bad")), "raw").unwrap_err();
    assert!(
        matches!(e, Error::Runtime(m) if m == "Failed to parse LLM response as JSON: bad. Response was: raw")
    );
}

#[test]
fn structured_queries() {
    let asked = query_structured("Q?", "{ \"a\": integer }", &mut replies(vec![])).unwrap_err();
    assert!(
        matches!(asked, Stop::Ask(Request::Complete { prompt })
            if prompt == "Q?\n\nRespond with ONLY valid JSON matching this schema (no markdown, no explanation):\n{ \"a\": integer }")
    );
    let given = vec![Reply::Completion(Ok(s("Here: ```json\n{\"a\": 1}\n``` done")))];
    let v = query_structured("Q?", "x", &mut replies(given)).unwrap().unwrap();
    assert_eq!(v, dict(vec![("a", Value::Int(1))]));
    let given = vec![Reply::Completion(Ok(s("nothing")))];
    let e = query_structured("Q?", "x", &mut replies(given)).unwrap().unwrap_err();
    assert!(
        matches!(e, Error::Runtime(m) if m.starts_with("Failed to parse LLM response as JSON: ") && m.ends_with(". Response was: nothing"))
    );
    let given = vec![Reply::Completion(Err(Error::ConfigError(s("no key"))))];
    let e = query_structured("Q?", "x", &mut replies(given)).unwrap().unwrap_err();
    assert!(matches!(e, Error::ConfigError(m) if m == "no key"));
}

fn prompt(system: Option<StringOrFileIR>) -> PromptIR {
    PromptIR {
        name: s("ask"),
        input: TypeIR::Struct { fields: vec![(s("topic"), TypeIR::String)] },
        output: TypeIR::Struct { fields: vec![(s("a"), TypeIR::Int), (s("b"), TypeIR::String)] },
        system,
        template: StringOrFileIR::File { path: s("ask.md") },
    }
}

#[test]
fn prompts_are_filled_in_and_put_to_the_model() {
    let executor = ToolExecutor::new();
    let p = prompt(Some(literal("Be brief.")));
    let run = |given: Vec<Reply>| executor.execute_prompt(&p, Value::Int(1), &mut replies(given));
    let asked = run(vec![]).unwrap_err();
    assert!(matches!(asked, Stop::Ask(Request::ReadFile { path, .. }) if path == "ask.md"));
    let asked = run(vec![Reply::Output(Ok(s("About {topic}")))]).unwrap_err();
    assert!(
        matches!(asked, Stop::Ask(Request::Interpolate { template, context })
            if template == "About {topic}" && context == Value::Int(1))
    );
    let asked = run(vec![
        Reply::Output(Ok(s("About {topic}"))),
        Reply::Output(Ok(s("About Rust"))),
    ])
    .unwrap_err();
    assert!(
        matches!(asked, Stop::Ask(Request::Complete { prompt })
            if prompt == "Be brief.\n\nAbout Rust\n\nRespond with ONLY valid JSON matching this schema (no markdown, no explanation):\n{ \"a\": integer, \"b\": \"string\" }")
    );
    let v = run(vec![
        Reply::Output(Ok(s("About {topic}"))),
        Reply::Output(Ok(s("About Rust"))),
        Reply::Completion(Ok(s("{\"a\": 1}"))),
    ])
    .unwrap();
    assert_eq!(v, dict(vec![("a", Value::Int(1))]));
}

#[test]
fn prompts_fail_with_what_they_need() {
    let executor = ToolExecutor::new();
    let p = prompt(None);
    let run = |given: Vec<Reply>| executor.execute_prompt(&p, Value::Null, &mut replies(given));
    let e = run(vec![Reply::Output(Err(s("'ask.md': not found")))]).unwrap_err();
    assert_eq!(runtime(e), "Failed to read file 'ask.md': not found");
    let e = run(vec![Reply::Output(Ok(s("t"))), Reply::Output(Err(s("no topic")))]).unwrap_err();
    assert_eq!(runtime(e), "no topic");
    let e = run(vec![
        Reply::Output(Ok(s("t"))),
        Reply::Output(Ok(s("t"))),
        Reply::Completion(Err(Error::Runtime(s("down")))),
        Reply::Text(s("it is down")),
    ])
    .unwrap_err();
    assert!(matches!(e, Stop::Failed(InterpreterError::LlmError(m)) if m == "it is down"));
    let e = run(vec![
        Reply::Output(Ok(s("t"))),
        Reply::Output(Ok(s("t"))),
        Reply::Completion(Ok(s("oops"))),
    ])
    .unwrap_err();
    assert!(
        matches!(e, Stop::Ask(Request::DescribeError { error: Error::Runtime(m) })
            if m.ends_with("Response was: oops"))
    );
}

fn step(binding: Option<&str>, call: PipelineCallIR) -> PipelineStepIR {
    PipelineStepIR { binding: binding.map(s), call }
}

#[test]
fn pipelines_run_their_steps_in_order() {
    let tools = vec![tool("echo", ident("n"))];
    let prompts = vec![prompt(None)];
    let types = vec![TypeDefIR {
        name: s("Out"),
        definition: TypeIR::Struct { fields: vec![(s("x"), TypeIR::Int), (s("y"), TypeIR::Any)] },
    }];
    let mut executor = ToolExecutor::new();
    executor.register_tools(&tools);
    executor.register_prompts(&prompts);
    executor.register_types(&types);
    let pipeline = |output: TypeIR| PipelineIR {
        name: s("p"),
        output,
        steps: vec![
            step(Some("x"), PipelineCallIR::Tool { name: s("echo"), args: vec![number(4)] }),
            step(Some("y"), PipelineCallIR::Prompt { name: s("ask"), args: vec![ident("x"), ident("k")] }),
            step(None, PipelineCallIR::Expr { expr: ident("input") }),
        ],
    };
    let given = || {
        vec![
            Reply::Clock(0),
            Reply::Done,
            Reply::Output(Ok(s("t"))),
            Reply::Output(Ok(s("t"))),
            Reply::Completion(Ok(s("[1]"))),
        ]
    };
    let input = || dict(vec![("k", Value::Int(9))]);
    let run = |p: &PipelineIR, given: Vec<Reply>| {
        executor.execute_pipeline(p, input(), FUEL, &mut replies(given))
    };
    let named = pipeline(TypeIR::Named { name: s("Out") });
    let expected = dict(vec![("x", Value::Int(4)), ("y", Value::List(vec![Value::Int(1)]))]);
    assert_eq!(run(&named, given()).unwrap(), expected);
    let last = pipeline(TypeIR::Any);
    assert_eq!(run(&last, given()).unwrap(), input());
    let asked = run(&last, given().into_iter().take(3).collect()).unwrap_err();
    assert!(
        matches!(asked, Stop::Ask(Request::Interpolate { context, .. })
            if context == dict(vec![("topic", Value::Int(4)), ("arg1", Value::Int(9))]))
    );
}

#[test]
fn pipelines_need_what_they_name() {
    let executor = ToolExecutor::new();
    let pipeline = |call: PipelineCallIR| PipelineIR {
        name: s("p"),
        output: TypeIR::Any,
        steps: vec![step(None, call)],
    };
    let run = |p: PipelineIR| {
        executor.execute_pipeline(&p, Value::Null, FUEL, &mut replies(vec![]))
    };
    let e = run(pipeline(PipelineCallIR::Prompt { name: s("q"), args: vec![] })).unwrap_err();
    assert_eq!(runtime(e), "Prompt 'q' not found");
    let e = run(pipeline(PipelineCallIR::Tool { name: s("q"), args: vec![] })).unwrap_err();
    assert!(matches!(e, Stop::Failed(InterpreterError::ToolNotFound(n)) if n == "q"));
    let none = PipelineIR { name: s("p"), output: TypeIR::Any, steps: vec![] };
    assert_eq!(run(none).unwrap(), Value::Null);
}
