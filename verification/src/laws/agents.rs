//! Laws of agents.
use vstd::prelude::*;
use vstd::string::*;
use crate::agent::{answer, report, run_agent, run_calls, run_turns, tools_offered};
use crate::chat::{
    result_message, ChatMessageView, ChatResponseView, ChatRole, ChatToolDefinitionView,
    ToolCallView,
};
use crate::error::{ErrorView, InterpreterErrorView};
use crate::executor::Defs;
use crate::fence::whole_block;
use crate::ir::{AgentIR, ToolIR, TypeDefIR, TypeIR};
use crate::json::{json_parsed, json_value, JsonView};
use crate::laws::schemas::{properties_of, structs_have_their_fields_as_properties};
use crate::laws::{asks, fails, gives, stops};
use crate::prompt::resolve;
use crate::run::run_tool;
use crate::schema::{example, schema};
use crate::session::{ReplyView, RequestView, StopView};
use crate::text::{decimal, trimmed};
use crate::value::ValueView;

verus! {

/// Whether a definition offers a tool: a function of the tool's name, whose parameters are the
/// schema of the tool's input.
pub open spec fn offers_tool(
    offer: ChatToolDefinitionView,
    tool: ToolIR,
    types: Map<Seq<char>, &TypeDefIR>,
    fuel: nat,
) -> bool {
    &&& offer.tool_type == "function"@
    &&& offer.name == tool.name@
    &&& offer.description == "Execute the "@ + tool.name@ + " tool"@
    &&& Some(offer.parameters) == schema(types, tool.input, fuel)
}

/// What an agent is offered for one name more: where the name is that of a registered tool, the
/// tool, behind the offers for the other names; otherwise nothing. Where there is no schema of the
/// tool's input, there are no offers at all.
pub proof fn offers_follow_the_names(
    tools: Map<Seq<char>, &ToolIR>,
    types: Map<Seq<char>, &TypeDefIR>,
    names: Seq<String>,
    name: String,
    fuel: nat,
)
    ensures
        tools_offered(tools, types, Seq::empty(), fuel) matches Some(o) && o.len() == 0,
        match (
            tools_offered(tools, types, names, fuel),
            tools_offered(tools, types, names.push(name), fuel),
        ) {
            (Some(before), Some(all)) => if tools.dom().contains(name@) {
                &&& all.len() == before.len() + 1
                &&& all.drop_last() == before
                &&& offers_tool(all.last(), *tools[name@], types, fuel)
            } else {
                all == before
            },
            (Some(before), None) => tools.dom().contains(name@) && schema(
                types,
                tools[name@].input,
                fuel,
            ) is None,
            (None, all) => all is None,
        },
{
    let longer = names.push(name);
    assert(longer.drop_last() =~= names);
    assert(longer.last() == name);
    if let (Some(before), Some(all)) = (
        tools_offered(tools, types, names, fuel),
        tools_offered(tools, types, longer, fuel),
    ) {
        if tools.dom().contains(name@) {
            assert(all.drop_last() =~= before);
        }
    }
}

/// Each tool that an agent names and that is registered is offered, with the schema of its input as
/// parameters, and nothing else is.
pub proof fn offers_have_the_schema_of_the_input(
    tools: Map<Seq<char>, &ToolIR>,
    types: Map<Seq<char>, &TypeDefIR>,
    names: Seq<String>,
    fuel: nat,
)
    requires
        tools_offered(tools, types, names, fuel) is Some,
    ensures
        ({
            let offers = tools_offered(tools, types, names, fuel)->0;
            &&& forall|j: int|
                0 <= j < names.len() && tools.dom().contains((#[trigger] names[j])@) ==> exists|
                    i: int,
                |
                    0 <= i < offers.len() && offers_tool(
                        #[trigger] offers[i],
                        *tools[names[j]@],
                        types,
                        fuel,
                    )
            &&& forall|i: int|
                0 <= i < offers.len() ==> exists|j: int|
                    {
                        &&& 0 <= j < names.len()
                        &&& tools.dom().contains((#[trigger] names[j])@)
                        &&& offers_tool(#[trigger] offers[i], *tools[names[j]@], types, fuel)
                    }
        }),
    decreases names.len(),
{
    if names.len() > 0 {
        let shorter = names.drop_last();
        let offers = tools_offered(tools, types, names, fuel)->0;
        assert(names =~= shorter.push(names.last()));
        offers_follow_the_names(tools, types, shorter, names.last(), fuel);
        offers_have_the_schema_of_the_input(tools, types, shorter, fuel);
        let before = tools_offered(tools, types, shorter, fuel)->0;
        assert forall|j: int|
            0 <= j < names.len() && tools.dom().contains((#[trigger] names[j])@) implies exists|
                i: int,
            |
                0 <= i < offers.len() && offers_tool(
                    #[trigger] offers[i],
                    *tools[names[j]@],
                    types,
                    fuel,
                ) by {
            if j < shorter.len() {
                assert(shorter[j] == names[j]);
                let i = choose|i: int|
                    0 <= i < before.len() && offers_tool(
                        #[trigger] before[i],
                        *tools[shorter[j]@],
                        types,
                        fuel,
                    );
                assert(offers[i] == before[i]) by {
                    if tools.dom().contains(names.last()@) {
                        assert(offers.drop_last()[i] == offers[i]);
                    }
                }
            } else {
                assert(offers[offers.len() - 1] == offers.last());
            }
        }
        assert forall|i: int| 0 <= i < offers.len() implies exists|j: int|
            {
                &&& 0 <= j < names.len()
                &&& tools.dom().contains((#[trigger] names[j])@)
                &&& offers_tool(#[trigger] offers[i], *tools[names[j]@], types, fuel)
            } by {
            if i < before.len() {
                assert(offers[i] == before[i]) by {
                    if tools.dom().contains(names.last()@) {
                        assert(offers.drop_last()[i] == offers[i]);
                    }
                }
                let j = choose|j: int|
                    {
                        &&& 0 <= j < shorter.len()
                        &&& tools.dom().contains((#[trigger] shorter[j])@)
                        &&& offers_tool(before[i], *tools[shorter[j]@], types, fuel)
                    };
                assert(names[j] == shorter[j]);
            } else {
                assert(names[names.len() - 1] == names.last());
            }
        }
    }
}

/// What an agent is offered does not change when tools give something else: it rests on their names
/// and their inputs alone.
pub proof fn offers_do_not_rest_on_outputs(
    tools: Map<Seq<char>, &ToolIR>,
    others: Map<Seq<char>, &ToolIR>,
    types: Map<Seq<char>, &TypeDefIR>,
    names: Seq<String>,
    fuel: nat,
)
    requires
        tools.dom() == others.dom(),
        forall|k: Seq<char>| #[trigger]
            tools.dom().contains(k) ==> tools[k].name@ == others[k].name@ && tools[k].input
                == others[k].input,
    ensures
        tools_offered(tools, types, names, fuel) == tools_offered(others, types, names, fuel),
    decreases names.len(),
{
    if names.len() > 0 {
        offers_do_not_rest_on_outputs(tools, others, types, names.drop_last(), fuel);
    }
}

/// Where the input of an offered tool is a struct, the parameters of the offer are the fields of
/// the struct: each property is a field, and each field a property with the schema of its type.
pub proof fn parameters_are_the_fields_of_the_input(
    offer: ChatToolDefinitionView,
    tool: ToolIR,
    types: Map<Seq<char>, &TypeDefIR>,
    fields: Vec<(String, TypeIR)>,
    fuel: nat,
)
    requires
        offers_tool(offer, tool, types, fuel),
        tool.input == (TypeIR::Struct { fields }),
    ensures
        offer.parameters matches JsonView::Object(m) && m.dom().contains("properties"@) && (
        m["properties"@] matches JsonView::Object(p) && properties_of(types, fields@, fuel, p)),
{
    structs_have_their_fields_as_properties(types, fields, fuel);
}

/// What an agent asks before its first turn: the host writes the input as text. Without a system
/// text, or without fuel for the example of its output or for the offers, it does not start.
pub proof fn agents_start_with_their_input(
    defs: Defs,
    agent: AgentIR,
    input: ValueView,
    fuel: nat,
    rs: Seq<ReplyView>,
)
    ensures
        ({
            let told = resolve(defs.base_path, agent.system, rs);
            let whole = run_agent(defs, agent, input, fuel, rs);
            let shown = example(defs.types, agent.output, fuel);
            let offers = tools_offered(defs.tools, defs.types, agent.tools@, fuel);
            match told.0 {
                Err(s) => whole == stops::<ValueView>(s, told.1),
                Ok(system) => if shown is None || offers is None {
                    whole == stops::<ValueView>(StopView::OutOfFuel, told.1)
                } else if told.1.len() == 0 {
                    whole == asks::<ValueView>(RequestView::Pretty { value: input })
                } else {
                    told.1[0] matches ReplyView::Text(text) ==> whole == run_turns(
                        defs.tools,
                        agent.name@,
                        offers->0,
                        seq![
                            says(
                                ChatRole::System,
                                system
                                    + "\n\n## Output Format\n\nWhen you are done and ready to respond to the user, you MUST output ONLY valid JSON matching this exact structure:\n\n"@
                                    + shown->0
                                    + "\n\nDo NOT include any text before or after the JSON. Do NOT wrap it in markdown code blocks."@,
                                None,
                            ),
                            says(ChatRole::User, "Input: "@ + text, None),
                        ],
                        0,
                        match agent.max_turns {
                            Some(n) => n as nat,
                            None => 10,
                        },
                        fuel,
                        told.1.drop_first(),
                    )
                },
            }
        }),
{
    let told = resolve(defs.base_path, agent.system, rs);
    if told.1.len() == 0 {
        assert(told.1 =~= Seq::<ReplyView>::empty());
    }
}

/// A message that says something, in answer to a tool call where it has an identifier.
pub open spec fn says(
    role: ChatRole,
    content: Seq<char>,
    id: Option<Seq<char>>,
) -> ChatMessageView {
    ChatMessageView {
        role,
        content: Some(content),
        tool_calls: None,
        tool_call_id: id,
        name: None,
    }
}

/// What a turn asks for, one after the other: the time, the chat with the messages so far and the
/// offers, and the trace of the response under the number of the turn.
pub proof fn turns_ask_for_a_chat(
    tools: Map<Seq<char>, &ToolIR>,
    agent: Seq<char>,
    offers: Seq<ChatToolDefinitionView>,
    messages: Seq<ChatMessageView>,
    turn: nat,
    max_turns: nat,
    fuel: nat,
    started: u64,
    response: ChatResponseView,
    error: ErrorView,
    text: Seq<char>,
    rest: Seq<ReplyView>,
)
    requires
        turn < max_turns,
    ensures
        run_turns(tools, agent, offers, messages, turn, max_turns, fuel, Seq::empty()) == asks::<
            ValueView,
        >(RequestView::Clock),
        run_turns(
            tools,
            agent,
            offers,
            messages,
            turn,
            max_turns,
            fuel,
            seq![ReplyView::Clock(started)],
        ) == asks::<ValueView>(RequestView::Chat { messages, tools: offers }),
        run_turns(
            tools,
            agent,
            offers,
            messages,
            turn,
            max_turns,
            fuel,
            seq![ReplyView::Clock(started), ReplyView::Chat(Ok(response))],
        ) == asks::<ValueView>(
            RequestView::TraceChat {
                started,
                span: "llm-"@ + agent + "-turn"@ + decimal(turn + 1),
                messages,
                response: response.message,
            },
        ),
        run_turns(
            tools,
            agent,
            offers,
            messages,
            turn,
            max_turns,
            fuel,
            seq![ReplyView::Clock(started), ReplyView::Chat(Err(error))],
        ) == asks::<ValueView>(RequestView::DescribeError { error }),
        run_turns(
            tools,
            agent,
            offers,
            messages,
            turn,
            max_turns,
            fuel,
            seq![ReplyView::Clock(started), ReplyView::Chat(Err(error)), ReplyView::Text(text)]
                + rest,
        ) == fails::<ValueView>(InterpreterErrorView::LlmError(text), rest),
{
    let clock = ReplyView::Clock(started);
    let good = ReplyView::Chat(Ok(response));
    let bad = ReplyView::Chat(Err(error));
    let none = Seq::<ReplyView>::empty();
    assert(seq![clock].drop_first() =~= none);
    assert(seq![clock, good].drop_first() =~= seq![good]);
    assert(seq![good].drop_first() =~= none);
    assert(seq![clock, bad].drop_first() =~= seq![bad]);
    assert(seq![bad].drop_first() =~= none);
    let failed = seq![clock, bad, ReplyView::Text(text)] + rest;
    assert(failed.drop_first() =~= seq![bad, ReplyView::Text(text)] + rest);
    assert(failed.drop_first().drop_first() =~= seq![ReplyView::Text(text)] + rest);
    assert(failed.drop_first().drop_first().drop_first() =~= rest);
}

/// What comes of a turn. Where the response asks for tools, they are called in order, and the next
/// turn has the messages so far, the response, and one message for the result of each call;
/// otherwise what the response says is the answer.
pub proof fn turns_call_tools_or_answer(
    tools: Map<Seq<char>, &ToolIR>,
    agent: Seq<char>,
    offers: Seq<ChatToolDefinitionView>,
    messages: Seq<ChatMessageView>,
    turn: nat,
    max_turns: nat,
    fuel: nat,
    started: u64,
    response: ChatResponseView,
    rest: Seq<ReplyView>,
)
    requires
        turn < max_turns,
    ensures
        ({
            let whole = run_turns(
                tools,
                agent,
                offers,
                messages,
                turn,
                max_turns,
                fuel,
                seq![ReplyView::Clock(started), ReplyView::Chat(Ok(response)), ReplyView::Done]
                    + rest,
            );
            match response.message.tool_calls {
                Some(calls) if calls.len() > 0 => {
                    let called = run_calls(
                        tools,
                        calls,
                        0,
                        messages.push(response.message),
                        fuel,
                        rest,
                    );
                    match called.0 {
                        Ok(more) => whole == run_turns(
                            tools,
                            agent,
                            offers,
                            more,
                            turn + 1,
                            max_turns,
                            fuel,
                            called.1,
                        ),
                        Err(s) => whole == stops::<ValueView>(s, called.1),
                    }
                },
                _ => whole.0 == answer(response.message.content) && whole.1 == rest,
            }
        }),
{
    let clock = ReplyView::Clock(started);
    let good = ReplyView::Chat(Ok(response));
    let all = seq![clock, good, ReplyView::Done] + rest;
    assert(all.drop_first() =~= seq![good, ReplyView::Done] + rest);
    assert(all.drop_first().drop_first() =~= seq![ReplyView::Done] + rest);
    assert(all.drop_first().drop_first().drop_first() =~= rest);
}

/// When its turns are used up, an agent fails and says how many they were.
pub proof fn turns_are_limited(
    tools: Map<Seq<char>, &ToolIR>,
    agent: Seq<char>,
    offers: Seq<ChatToolDefinitionView>,
    messages: Seq<ChatMessageView>,
    max_turns: nat,
    fuel: nat,
    rs: Seq<ReplyView>,
)
    ensures
        run_turns(tools, agent, offers, messages, max_turns, max_turns, fuel, rs) == fails::<
            ValueView,
        >(
            InterpreterErrorView::Runtime(
                "Agent exceeded max_turns ("@ + decimal(max_turns) + ")"@,
            ),
            rs,
        ),
{
}

/// What an agent says is its answer where it is JSON, but for a fence around it; it is an error to
/// say nothing, or nothing but white space, or something that is not JSON.
pub proof fn answers_are_json(text: Seq<char>, block: Seq<char>)
    requires
        trimmed(text).len() > 0,
        whole_block(trimmed(text)) == Some(block),
    ensures
        match json_parsed(block) {
            Ok(j) => answer(Some(text)) == Ok::<ValueView, StopView>(json_value(j)),
            Err(e) => answer(Some(text)) == Err::<ValueView, StopView>(
                StopView::Failed(
                    InterpreterErrorView::Runtime(
                        "Failed to parse agent response as JSON: "@ + e + ". Response was: "@
                            + text,
                    ),
                ),
            ),
        },
{
}

/// Without anything said there is no answer.
pub proof fn answers_are_not_empty(text: Seq<char>)
    requires
        trimmed(text).len() == 0,
    ensures
        answer(Some(text)) == answer(None),
        answer(None) == Err::<ValueView, StopView>(
            StopView::Failed(InterpreterErrorView::Runtime("Agent returned empty response"@)),
        ),
{
}

proof fn lemma_calls_from(
    tools: Map<Seq<char>, &ToolIR>,
    calls: Seq<ToolCallView>,
    i: nat,
    others: Seq<ToolCallView>,
    j: nat,
    messages: Seq<ChatMessageView>,
    fuel: nat,
    rs: Seq<ReplyView>,
)
    requires
        i <= calls.len(),
        j <= others.len(),
        calls.skip(i as int) == others.skip(j as int),
    ensures
        run_calls(tools, calls, i, messages, fuel, rs) == run_calls(
            tools,
            others,
            j,
            messages,
            fuel,
            rs,
        ),
    decreases calls.len() - i,
{
    assert(calls.skip(i as int).len() == calls.len() - i);
    assert(others.skip(j as int).len() == others.len() - j);
    if i < calls.len() {
        assert(calls.skip(i as int)[0] == calls[i as int]);
        assert(others.skip(j as int)[0] == others[j as int]);
        assert(calls.skip(i as int).drop_first() =~= calls.skip((i + 1) as int));
        assert(others.skip(j as int).drop_first() =~= others.skip((j + 1) as int));
        let call = calls[i as int];
        if let Ok(document) = json_parsed(call.arguments) {
            let told = report(tools, call.name, json_value(document), fuel, rs);
            if let Ok(text) = told.0 {
                let more = messages.push(result_message(call.id, text));
                lemma_calls_from(tools, calls, i + 1, others, j + 1, more, fuel, told.1);
            }
        }
    }
}

/// A tool call and others are made in that order. The call is made with what its arguments are as
/// JSON, and what is told of it stands in a message in answer to it, behind the messages so far.
/// Arguments that are not JSON end the run, as does a report that cannot be had.
pub proof fn calls_are_answered_in_order(
    tools: Map<Seq<char>, &ToolIR>,
    call: ToolCallView,
    others: Seq<ToolCallView>,
    messages: Seq<ChatMessageView>,
    fuel: nat,
    rs: Seq<ReplyView>,
)
    ensures
        run_calls(tools, Seq::empty(), 0, messages, fuel, rs) == gives(messages, rs),
        ({
            let whole = run_calls(tools, seq![call] + others, 0, messages, fuel, rs);
            match json_parsed(call.arguments) {
                Ok(document) => {
                    let told = report(tools, call.name, json_value(document), fuel, rs);
                    match told.0 {
                        Ok(text) => whole == run_calls(
                            tools,
                            others,
                            0,
                            messages.push(says(ChatRole::Tool, text, Some(call.id))),
                            fuel,
                            told.1,
                        ),
                        Err(s) => whole == stops::<Seq<ChatMessageView>>(s, told.1),
                    }
                },
                Err(e) => whole == fails::<Seq<ChatMessageView>>(
                    InterpreterErrorView::Runtime(
                        "Failed to parse tool '"@ + call.name + "' arguments as JSON: "@ + e
                            + ". Raw arguments: "@ + call.arguments,
                    ),
                    rs,
                ),
            }
        }),
{
    let all = seq![call] + others;
    assert(all.skip(1) =~= others.skip(0));
    if let Ok(document) = json_parsed(call.arguments) {
        let told = report(tools, call.name, json_value(document), fuel, rs);
        if let Ok(text) = told.0 {
            let more = messages.push(result_message(call.id, text));
            lemma_calls_from(tools, all, 1, others, 0, more, fuel, told.1);
        }
    }
}

/// What an agent is told of a call: what the tool gave, as the host writes it; of a tool that
/// fails, the error; of a tool that is not registered, that it was not found.
pub proof fn reports_tell_what_tools_give(
    tools: Map<Seq<char>, &ToolIR>,
    tool: Seq<char>,
    args: ValueView,
    fuel: nat,
    rs: Seq<ReplyView>,
)
    ensures
        !tools.dom().contains(tool) ==> report(tools, tool, args, fuel, rs) == gives(
            "Error: Tool '"@ + tool + "' not found"@,
            rs,
        ),
        tools.dom().contains(tool) ==> {
            let ran = run_tool(tools, *tools[tool], args, fuel, rs);
            let whole = report(tools, tool, args, fuel, rs);
            match ran.0 {
                Ok(value) => {
                    &&& ran.1.len() == 0 ==> whole == asks::<Seq<char>>(
                        RequestView::Pretty { value },
                    )
                    &&& ran.1.len() > 0 ==> (ran.1[0] matches ReplyView::Text(text) ==> whole
                        == gives(text, ran.1.drop_first()))
                },
                Err(StopView::Failed(error)) => {
                    &&& ran.1.len() == 0 ==> whole == asks::<Seq<char>>(
                        RequestView::Describe { error },
                    )
                    &&& ran.1.len() > 0 ==> (ran.1[0] matches ReplyView::Text(text) ==> whole
                        == gives("Error: "@ + text, ran.1.drop_first()))
                },
                Err(s) => whole == stops::<Seq<char>>(s, ran.1),
            }
        },
{
    if tools.dom().contains(tool) {
        let ran = run_tool(tools, *tools[tool], args, fuel, rs);
        if ran.1.len() == 0 {
            assert(ran.1 =~= Seq::<ReplyView>::empty());
        }
    }
}

} // verus!
