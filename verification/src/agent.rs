//! How agents run.
use vstd::prelude::*;
use vstd::string::*;
use crate::chat::{
    asks_for_tools, calls_view, definitions_view, messages_view, plain_message, result_message,
    ChatMessage, ChatMessageView, ChatRole, ChatToolDefinition,
    ChatToolDefinitionView, ToolCall, ToolCallView,
};
use crate::error::{InterpreterError, InterpreterErrorView};
use crate::executor::{Defs, ToolExecutor};
use crate::fence::{extract_whole, whole_block};
use crate::ir::{AgentIR, ToolIR, TypeDefIR};
use crate::json::{
    json_end, json_parsed, json_to_value, json_value, parse_json, Json, JsonView,
};
use crate::prompt::resolve;
use crate::run::run_tool;
use crate::schema::{example, generate_example_json, schema, type_to_json_schema_value};
use crate::session::{
    ask_chat, ask_clock, ask_done, ask_text, model_failure, text_end, value_end, Fault, Outcome,
    Reply, ReplyView, Request, RequestView, Session, Stop, StopView,
};
use crate::shell::runtime_error;
use crate::text::{decimal, decimal_text, trim, trimmed};
use crate::value::{Value, ValueView};

verus! {

/// What an agent is told: its own text, and the form that its answer is to have.
pub open spec fn system_content(system: Seq<char>, example: Seq<char>) -> Seq<char> {
    system
        + "\n\n## Output Format\n\nWhen you are done and ready to respond to the user, you MUST output ONLY valid JSON matching this exact structure:\n\n"@
        + example
        + "\n\nDo NOT include any text before or after the JSON. Do NOT wrap it in markdown code blocks."@
}

/// The definition of a tool that an agent may call.
pub open spec fn offered(tool: ToolIR, parameters: JsonView) -> ChatToolDefinitionView {
    ChatToolDefinitionView {
        tool_type: "function"@,
        name: tool.name@,
        description: "Execute the "@ + tool.name@ + " tool"@,
        parameters,
    }
}

/// The definitions of the tools that an agent may call; names of tools that are not registered
/// are passed over.
pub open spec fn tools_offered(
    tools: Map<Seq<char>, &ToolIR>,
    types: Map<Seq<char>, &TypeDefIR>,
    names: Seq<String>,
    fuel: nat,
) -> Option<Seq<ChatToolDefinitionView>>
    decreases names.len(),
{
    if names.len() == 0 {
        Some(Seq::empty())
    } else {
        let name = names.last()@;
        match tools_offered(tools, types, names.drop_last(), fuel) {
            Some(before) => if tools.dom().contains(name) {
                match schema(types, tools[name].input, fuel) {
                    Some(parameters) => Some(before.push(offered(*tools[name], parameters))),
                    None => None,
                }
            } else {
                Some(before)
            },
            None => None,
        }
    }
}

/// What an agent's arguments for a tool are once they were read as JSON.
pub open spec fn arguments_read(
    parsed: Result<JsonView, Seq<char>>,
    tool: Seq<char>,
    raw: Seq<char>,
) -> Result<ValueView, StopView> {
    match parsed {
        Ok(j) => Ok(json_value(j)),
        Err(e) => Err(
            runtime_error(
                "Failed to parse tool '"@ + tool + "' arguments as JSON: "@ + e
                    + ". Raw arguments: "@ + raw,
            ),
        ),
    }
}

/// What an agent is told of a tool that it called: what the tool gave, or the error.
pub open spec fn report(
    tools: Map<Seq<char>, &ToolIR>,
    tool: Seq<char>,
    args: ValueView,
    fuel: nat,
    rs: Seq<ReplyView>,
) -> Outcome<Seq<char>> {
    if tools.dom().contains(tool) {
        match run_tool(tools, *tools[tool], args, fuel, rs) {
            (Ok(value), rest) => ask_text(rest, RequestView::Pretty { value }),
            (Err(StopView::Failed(error)), rest) => match ask_text(
                rest,
                RequestView::Describe { error },
            ) {
                (Ok(text), rest) => (Ok("Error: "@ + text), rest),
                (Err(s), rest) => (Err(s), rest),
            },
            (Err(s), rest) => (Err(s), rest),
        }
    } else {
        (Ok("Error: Tool '"@ + tool + "' not found"@), rs)
    }
}

/// The tool calls from the `i`-th on, in order: the messages with one for the result of each.
pub open spec fn run_calls(
    tools: Map<Seq<char>, &ToolIR>,
    calls: Seq<ToolCallView>,
    i: nat,
    messages: Seq<ChatMessageView>,
    fuel: nat,
    rs: Seq<ReplyView>,
) -> Outcome<Seq<ChatMessageView>>
    decreases calls.len() - i,
{
    if i >= calls.len() {
        (Ok(messages), rs)
    } else {
        let call = calls[i as int];
        match arguments_read(json_parsed(call.arguments), call.name, call.arguments) {
            Ok(args) => match report(tools, call.name, args, fuel, rs) {
                (Ok(text), rest) => run_calls(
                    tools,
                    calls,
                    i + 1,
                    messages.push(result_message(call.id, text)),
                    fuel,
                    rest,
                ),
                (Err(s), rest) => (Err(s), rest),
            },
            Err(s) => (Err(s), rs),
        }
    }
}

/// What an agent's answer is once what stands in it was read as JSON.
pub open spec fn answer_read(parsed: Result<JsonView, Seq<char>>, content: Seq<char>) -> Result<
    ValueView,
    StopView,
> {
    match parsed {
        Ok(j) => Ok(json_value(j)),
        Err(e) => Err(
            runtime_error(
                "Failed to parse agent response as JSON: "@ + e + ". Response was: "@ + content,
            ),
        ),
    }
}

/// What an agent's answer is: the JSON that it consists of, but for a fence around it.
pub open spec fn answer(content: Option<Seq<char>>) -> Result<ValueView, StopView> {
    match content {
        Some(text) => if trimmed(text).len() == 0 {
            Err(runtime_error("Agent returned empty response"@))
        } else {
            match whole_block(trimmed(text)) {
                Some(block) => answer_read(json_parsed(block), text),
                None => Err(StopView::Fault(Fault::BlockEnd)),
            }
        },
        None => Err(runtime_error("Agent returned empty response"@)),
    }
}

/// An agent's turns after the first `turn`: as long as the model asks for tools it is told what
/// they gave, and what it says then is the answer.
pub open spec fn run_turns(
    tools: Map<Seq<char>, &ToolIR>,
    agent: Seq<char>,
    offers: Seq<ChatToolDefinitionView>,
    messages: Seq<ChatMessageView>,
    turn: nat,
    max_turns: nat,
    fuel: nat,
    rs: Seq<ReplyView>,
) -> Outcome<ValueView>
    decreases max_turns - turn,
{
    if turn >= max_turns {
        (Err(runtime_error("Agent exceeded max_turns ("@ + decimal(max_turns) + ")"@)), rs)
    } else {
        match ask_clock(rs, RequestView::Clock) {
            (Ok(started), rest) => match ask_chat(
                rest,
                RequestView::Chat { messages, tools: offers },
            ) {
                (Ok(Ok(response)), rest) => match ask_done(
                    rest,
                    RequestView::TraceChat {
                        started,
                        span: "llm-"@ + agent + "-turn"@ + decimal(turn + 1),
                        messages,
                        response: response.message,
                    },
                ) {
                    (Ok(_), rest) => if asks_for_tools(response.message) {
                        match run_calls(
                            tools,
                            response.message.tool_calls->0,
                            0,
                            messages.push(response.message),
                            fuel,
                            rest,
                        ) {
                            (Ok(messages), rest) => run_turns(
                                tools,
                                agent,
                                offers,
                                messages,
                                turn + 1,
                                max_turns,
                                fuel,
                                rest,
                            ),
                            (Err(s), rest) => (Err(s), rest),
                        }
                    } else {
                        (answer(response.message.content), rest)
                    },
                    (Err(s), rest) => (Err(s), rest),
                },
                (Ok(Err(e)), rest) => model_failure(e, rest),
                (Err(s), rest) => (Err(s), rest),
            },
            (Err(s), rest) => (Err(s), rest),
        }
    }
}

/// How many turns an agent has.
pub open spec fn turns_of(agent: AgentIR) -> u64 {
    match agent.max_turns {
        Some(n) => n,
        None => 10,
    }
}

/// The messages that a chat with an agent starts with.
pub open spec fn first_messages(
    system: Seq<char>,
    example: Seq<char>,
    input: Seq<char>,
) -> Seq<ChatMessageView> {
    seq![
        plain_message(ChatRole::System, system_content(system, example)),
        plain_message(ChatRole::User, "Input: "@ + input),
    ]
}

/// An agent.
pub open spec fn run_agent(
    defs: Defs,
    agent: AgentIR,
    input: ValueView,
    fuel: nat,
    rs: Seq<ReplyView>,
) -> Outcome<ValueView> {
    match resolve(defs.base_path, agent.system, rs) {
        (Ok(system), rest) => match (
            example(defs.types, agent.output, fuel),
            tools_offered(defs.tools, defs.types, agent.tools@, fuel),
        ) {
            (Some(example), Some(offers)) => match ask_text(
                rest,
                RequestView::Pretty { value: input },
            ) {
                (Ok(text), rest) => run_turns(
                    defs.tools,
                    agent.name@,
                    offers,
                    first_messages(system, example, text),
                    0,
                    turns_of(agent) as nat,
                    fuel,
                    rest,
                ),
                (Err(s), rest) => (Err(s), rest),
            },
            _ => (Err(StopView::OutOfFuel), rest),
        },
        (Err(s), rest) => (Err(s), rest),
    }
}

/// What an agent's arguments for a tool are once they were read as JSON.
pub fn tool_arguments(parsed: Result<Json, String>, tool: &str, raw: &str) -> (r: Result<
    Value,
    Stop,
>)
    ensures
        value_end(r) == arguments_read(json_end(parsed), tool@, raw@),
{
    match parsed {
        Ok(j) => Ok(json_to_value(j)),
        Err(e) => Err(
            Stop::Failed(
                InterpreterError::Runtime(
                    "Failed to parse tool '".to_string().concat(tool).concat(
                        "' arguments as JSON: ",
                    ).concat(e.as_str()).concat(". Raw arguments: ").concat(raw),
                ),
            ),
        ),
    }
}

/// What an agent's answer is once what stands in it was read as JSON.
pub fn agent_answer(parsed: Result<Json, String>, content: &str) -> (r: Result<Value, Stop>)
    ensures
        value_end(r) == answer_read(json_end(parsed), content@),
{
    match parsed {
        Ok(j) => Ok(json_to_value(j)),
        Err(e) => Err(
            Stop::Failed(
                InterpreterError::Runtime(
                    "Failed to parse agent response as JSON: ".to_string().concat(
                        e.as_str(),
                    ).concat(". Response was: ").concat(content),
                ),
            ),
        ),
    }
}

/// The error of an agent that says nothing.
fn empty_answer() -> (r: Stop)
    ensures
        r@ == runtime_error("Agent returned empty response"@),
{
    Stop::Failed(InterpreterError::Runtime("Agent returned empty response".to_string()))
}

/// What an agent's answer is.
pub fn read_answer(content: Option<&str>) -> (r: Result<Value, Stop>)
    ensures
        value_end(r) == answer(
            match content {
                Some(s) => Some(s@),
                None => None,
            },
        ),
{
    match content {
        Some(text) => {
            let said = trim(text);
            if crate::text::chars_of(said).len() == 0 {
                Err(empty_answer())
            } else {
                match extract_whole(said) {
                    Some(block) => agent_answer(parse_json(block), text),
                    None => Err(Stop::Fault(Fault::BlockEnd)),
                }
            }
        },
        None => Err(empty_answer()),
    }
}

/// What came of a run that gives messages.
pub open spec fn messages_end(r: Result<Vec<ChatMessage>, Stop>) -> Result<
    Seq<ChatMessageView>,
    StopView,
> {
    match r {
        Ok(m) => Ok(messages_view(m@)),
        Err(s) => Err(s@),
    }
}

/// What came of defining tools.
pub open spec fn offers_of(r: Option<Vec<ChatToolDefinition>>) -> Option<
    Seq<ChatToolDefinitionView>,
> {
    match r {
        Some(v) => Some(definitions_view(v@)),
        None => None,
    }
}

/// No definitions of the first tools, none of all of them.
proof fn lemma_tools_offered_none(
    tools: Map<Seq<char>, &ToolIR>,
    types: Map<Seq<char>, &TypeDefIR>,
    names: Seq<String>,
    i: int,
    fuel: nat,
)
    requires
        0 <= i <= names.len(),
        tools_offered(tools, types, names.take(i), fuel) is None,
    ensures
        tools_offered(tools, types, names, fuel) is None,
    decreases names.len(),
{
    if i == names.len() {
        assert(names.take(i) =~= names);
    } else {
        assert(names.drop_last().take(i) =~= names.take(i));
        lemma_tools_offered_none(tools, types, names.drop_last(), i, fuel);
    }
}

impl<'p, R> ToolExecutor<'p, R> {
    /// The definitions of the tools that an agent may call.
    pub fn tool_definitions(&self, names: &Vec<String>, fuel: u64) -> (r: Option<
        Vec<ChatToolDefinition>,
    >)
        ensures
            offers_of(r) == tools_offered(self@.tools, self@.types, names@, fuel as nat),
    {
        let mut out: Vec<ChatToolDefinition> = Vec::new();
        let mut i: usize = 0;
        assert(definitions_view(out@) =~= Seq::<ChatToolDefinitionView>::empty());
        assert(names@.take(0) =~= Seq::<String>::empty());
        while i < names.len()
            invariant
                i <= names@.len(),
                Some(definitions_view(out@)) == tools_offered(
                    self@.tools,
                    self@.types,
                    names@.take(i as int),
                    fuel as nat,
                ),
            decreases names@.len() - i,
        {
            assert(names@.take(i + 1).drop_last() =~= names@.take(i as int));
            if let Some(tool) = self.get_tool(names[i].as_str()) {
                match type_to_json_schema_value(self.type_definitions(), &tool.input, fuel) {
                    Some(parameters) => {
                        let ghost before = out@;
                        let description = "Execute the ".to_string().concat(
                            tool.name.as_str(),
                        ).concat(" tool");
                        let offer = ChatToolDefinition::new(
                            tool.name.clone(),
                            description,
                            parameters,
                        );
                        out.push(offer);
                        assert(definitions_view(out@) =~= definitions_view(before).push(offer@));
                    },
                    None => {
                        proof {
                            lemma_tools_offered_none(
                                self@.tools,
                                self@.types,
                                names@,
                                i + 1,
                                fuel as nat,
                            );
                        }
                        return None;
                    },
                }
            }
            i = i + 1;
        }
        assert(names@.take(names@.len() as int) =~= names@);
        Some(out)
    }

    /// What an agent is told of a tool that it called.
    fn report_of(&self, tool: &String, args: Value, fuel: u64, session: &mut Session) -> (r: Result<
        String,
        Stop,
    >)
        ensures
            (text_end(r), final(session)@) == report(
                self@.tools,
                tool@,
                args@,
                fuel as nat,
                old(session)@,
            ),
    {
        match self.get_tool(tool.as_str()) {
            Some(callee) => match self.execute(callee, args, fuel, session) {
                Ok(value) => session.ask_text(Request::Pretty { value }),
                Err(Stop::Failed(error)) => match session.ask_text(Request::Describe { error }) {
                    Ok(text) => Ok("Error: ".to_string().concat(text.as_str())),
                    Err(s) => Err(s),
                },
                Err(s) => Err(s),
            },
            None => Ok(
                "Error: Tool '".to_string().concat(tool.as_str()).concat("' not found"),
            ),
        }
    }

    /// Runs the tool calls that the model asks for.
    fn execute_calls(
        &self,
        calls: &[ToolCall],
        before: Vec<ChatMessage>,
        fuel: u64,
        session: &mut Session,
    ) -> (r: Result<Vec<ChatMessage>, Stop>)
        ensures
            (messages_end(r), final(session)@) == run_calls(
                self@.tools,
                calls_view(calls@),
                0,
                messages_view(before@),
                fuel as nat,
                old(session)@,
            ),
    {
        let mut messages = before;
        let mut i: usize = 0;
        while i < calls.len()
            invariant
                i <= calls@.len(),
                run_calls(
                    self@.tools,
                    calls_view(calls@),
                    0,
                    messages_view(before@),
                    fuel as nat,
                    old(session)@,
                ) == run_calls(
                    self@.tools,
                    calls_view(calls@),
                    i as nat,
                    messages_view(messages@),
                    fuel as nat,
                    session@,
                ),
            decreases calls@.len() - i,
        {
            let call = &calls[i];
            assert(calls_view(calls@)[i as int] == call@);
            let parsed = parse_json(call.function.arguments.as_str());
            let args = match tool_arguments(
                parsed,
                call.function.name.as_str(),
                call.function.arguments.as_str(),
            ) {
                Ok(v) => v,
                Err(s) => {
                    return Err(s);
                },
            };
            match self.report_of(&call.function.name, args, fuel, session) {
                Ok(text) => {
                    let ghost earlier = messages@;
                    let said = ChatMessage::tool_result(call.id.clone(), text);
                    messages.push(said);
                    assert(messages_view(messages@) =~= messages_view(earlier).push(said@));
                },
                Err(s) => {
                    return Err(s);
                },
            }
            i = i + 1;
        }
        Ok(messages)
    }

    /// Runs an agent's turns.
    fn execute_turns(
        &self,
        agent: &String,
        offers: Vec<ChatToolDefinition>,
        first: Vec<ChatMessage>,
        max_turns: u64,
        fuel: u64,
        session: &mut Session,
    ) -> (r: Result<Value, Stop>)
        ensures
            (value_end(r), final(session)@) == run_turns(
                self@.tools,
                agent@,
                definitions_view(offers@),
                messages_view(first@),
                0,
                max_turns as nat,
                fuel as nat,
                old(session)@,
            ),
    {
        let mut messages = first;
        let mut turn: u64 = 0;
        while turn < max_turns
            invariant
                turn <= max_turns,
                run_turns(
                    self@.tools,
                    agent@,
                    definitions_view(offers@),
                    messages_view(first@),
                    0,
                    max_turns as nat,
                    fuel as nat,
                    old(session)@,
                ) == run_turns(
                    self@.tools,
                    agent@,
                    definitions_view(offers@),
                    messages_view(messages@),
                    turn as nat,
                    max_turns as nat,
                    fuel as nat,
                    session@,
                ),
            decreases max_turns - turn,
        {
            turn = turn + 1;
            let started: u64 = match session.ask_clock(Request::Clock) {
                Ok(t) => t,
                Err(s) => {
                    return Err(s);
                },
            };
            let response = match session.next() {
                Some(Reply::Chat(Ok(r))) => r,
                Some(Reply::Chat(Err(e))) => {
                    return Err(session.model_failure(e));
                },
                Some(_) => {
                    return Err(Stop::Fault(Fault::UnexpectedReply));
                },
                None => {
                    return Err(Stop::Ask(Request::Chat { messages, tools: offers }));
                },
            };
            let span = "llm-".to_string().concat(agent.as_str()).concat("-turn").concat(
                decimal_text(turn).as_str(),
            );
            match session.next() {
                Some(Reply::Done) => {},
                Some(_) => {
                    return Err(Stop::Fault(Fault::UnexpectedReply));
                },
                None => {
                    return Err(
                        Stop::Ask(
                            Request::TraceChat {
                                started,
                                span,
                                messages,
                                response: response.message,
                            },
                        ),
                    );
                },
            }
            if !response.has_tool_calls() {
                return read_answer(response.content());
            }
            let ghost earlier = messages@;
            let said = response.message.clone();
            messages.push(said);
            assert(messages_view(messages@) =~= messages_view(earlier).push(said@));
            if let Some(calls) = response.tool_calls() {
                match self.execute_calls(calls, messages, fuel, session) {
                    Ok(m) => {
                        messages = m;
                    },
                    Err(s) => {
                        return Err(s);
                    },
                }
            }
        }
        Err(
            Stop::Failed(
                InterpreterError::Runtime(
                    "Agent exceeded max_turns (".to_string().concat(
                        decimal_text(max_turns).as_str(),
                    ).concat(")"),
                ),
            ),
        )
    }

    /// Runs an agent.
    pub fn execute_agent(
        &self,
        agent: &AgentIR,
        input: Value,
        fuel: u64,
        session: &mut Session,
    ) -> (r: Result<Value, Stop>)
        ensures
            (value_end(r), final(session)@) == run_agent(
                self@,
                *agent,
                input@,
                fuel as nat,
                old(session)@,
            ),
    {
        let system = match self.resolve_string_or_file(&agent.system, session) {
            Ok(s) => s,
            Err(s) => {
                return Err(s);
            },
        };
        let example = match generate_example_json(self.type_definitions(), &agent.output, fuel) {
            Some(e) => e,
            None => {
                return Err(Stop::OutOfFuel);
            },
        };
        let offers = match self.tool_definitions(&agent.tools, fuel) {
            Some(o) => o,
            None => {
                return Err(Stop::OutOfFuel);
            },
        };
        let text = match session.ask_text(Request::Pretty { value: input }) {
            Ok(t) => t,
            Err(s) => {
                return Err(s);
            },
        };
        let content = system.clone().concat(
            "\n\n## Output Format\n\nWhen you are done and ready to respond to the user, you MUST output ONLY valid JSON matching this exact structure:\n\n",
        ).concat(example.as_str()).concat(
            "\n\nDo NOT include any text before or after the JSON. Do NOT wrap it in markdown code blocks.",
        );
        let mut messages: Vec<ChatMessage> = Vec::new();
        messages.push(ChatMessage::system(content));
        messages.push(ChatMessage::user("Input: ".to_string().concat(text.as_str())));
        assert(messages_view(messages@) =~= first_messages(system@, example@, text@));
        let max_turns: u64 = match agent.max_turns {
            Some(n) => n,
            None => 10,
        };
        self.execute_turns(&agent.name, offers, messages, max_turns, fuel, session)
    }
}

/// A tool that fails does not end an agent's run: the agent is told of the error.
pub proof fn failure_of_a_tool_is_told(
    tools: Map<Seq<char>, &ToolIR>,
    tool: Seq<char>,
    args: ValueView,
    fuel: nat,
    rs: Seq<ReplyView>,
    error: InterpreterErrorView,
    text: Seq<char>,
)
    requires
        tools.dom().contains(tool),
        run_tool(tools, *tools[tool], args, fuel, rs).0 == Err::<ValueView, StopView>(
            StopView::Failed(error),
        ),
        run_tool(tools, *tools[tool], args, fuel, rs).1.len() > 0,
        run_tool(tools, *tools[tool], args, fuel, rs).1[0] == ReplyView::Text(text),
    ensures
        report(tools, tool, args, fuel, rs) == (
            Ok::<Seq<char>, StopView>("Error: "@ + text),
            run_tool(tools, *tools[tool], args, fuel, rs).1.drop_first(),
        ),
{
}

/// An agent is offered exactly the registered ones of the tools that it names.
pub proof fn offers_are_registered_tools(
    tools: Map<Seq<char>, &ToolIR>,
    types: Map<Seq<char>, &TypeDefIR>,
    names: Seq<String>,
    fuel: nat,
    tool: Seq<char>,
)
    requires
        tools_offered(tools, types, names, fuel) is Some,
        forall|k: Seq<char>| #[trigger] tools.dom().contains(k) ==> tools[k].name@ == k,
    ensures
        (exists|i: int|
            0 <= i < tools_offered(tools, types, names, fuel)->0.len() && (
            #[trigger] tools_offered(tools, types, names, fuel)->0[i]).name == tool) <==> (
        tools.dom().contains(tool) && exists|j: int|
            0 <= j < names.len() && (#[trigger] names[j])@ == tool),
    decreases names.len(),
{
    if names.len() > 0 {
        let shorter = names.drop_last();
        let before = tools_offered(tools, types, shorter, fuel)->0;
        let all = tools_offered(tools, types, names, fuel)->0;
        offers_are_registered_tools(tools, types, shorter, fuel, tool);
        if exists|i: int| 0 <= i < before.len() && (#[trigger] before[i]).name == tool {
            let i = choose|i: int| 0 <= i < before.len() && (#[trigger] before[i]).name == tool;
            assert(all[i].name == tool);
            let j = choose|j: int| 0 <= j < shorter.len() && (#[trigger] shorter[j])@ == tool;
            assert(names[j]@ == tool);
        } else if tools.dom().contains(tool) && names.last()@ == tool {
            assert(all[before.len() as int].name == tool);
            assert(names[names.len() - 1]@ == tool);
        } else {
            assert forall|i: int| 0 <= i < all.len() implies (#[trigger] all[i]).name != tool by {
                if i < before.len() {
                    assert(before[i] == all[i]);
                }
            }
            if tools.dom().contains(tool) {
                assert forall|j: int| 0 <= j < names.len() implies (#[trigger] names[j])@
                    != tool by {
                    if j < shorter.len() {
                        assert(shorter[j] == names[j]);
                    }
                }
            }
        }
    }
}

} // verus!
