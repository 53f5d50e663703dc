//! When fuel is enough: a program whose calls nest no deeper than the fuel, and that has no loop
//! without a bound of its own, never runs out of it.
use std::sync::Arc;
use vstd::prelude::*;
use crate::agent::{
    arguments_read, first_messages, report, run_agent, run_calls, run_turns, tools_offered,
    turns_of,
};
use crate::chat::{
    asks_for_tools, result_message, ChatMessageView, ChatToolDefinitionView, ToolCallView,
};
use crate::executor::Defs;
use crate::expr::{eval, eval_all};
use crate::ir::{
    AgentIR, ExprIR, MatchArmIR, PipelineCallIR, PipelineIR, PipelineStepIR, StatementIR,
    ToolExprIR, ToolIR, ToolImplIR, TypeIR,
};
use crate::json::json_parsed;
use crate::pipeline::{run_call, run_pipeline, run_steps};
use crate::prompt::resolve;
use crate::run::{
    argument_name, bound, check, expression, loop_context, postconditions, preconditions,
    result_context, run_all, run_args, run_arms, run_expr, run_impl, run_items, run_statements,
    run_tool, start_bindings, Bindings,
};
use crate::schema::example;
use crate::session::{
    ask_chat, ask_clock, ask_done, ask_text, Outcome, ReplyView, RequestView, StopView,
};
use crate::text::decimal;
use crate::value::{values_equal, ValueView};

verus! {

/// Whether a run ended for another reason than a lack of fuel.
pub open spec fn fuel_was_enough<T>(o: Outcome<T>) -> bool {
    o.0 != Err::<T, StopView>(StopView::OutOfFuel)
}

/// Whether an expression nests at most so deep, with the tools that it calls.
pub open spec fn expr_fits(tools: Map<Seq<char>, &ToolIR>, e: ToolExprIR, n: nat) -> bool
    decreases n, 0nat,
{
    n > 0 && {
        let less = (n - 1) as nat;
        match e {
            ToolExprIR::FieldAccess { base, field: _ } => expr_fits(tools, *base, less),
            ToolExprIR::ForeignCall { args, .. } => exprs_fit(tools, args@, less),
            ToolExprIR::ToolCall { tool, args } => tools.dom().contains(tool@) ==> exprs_fit(
                tools,
                args@,
                less,
            ) && tool_fits(tools, *tools[tool@], less),
            ToolExprIR::Pipe { left, right } => expr_fits(tools, *left, less) && expr_fits(
                tools,
                *right,
                less,
            ),
            ToolExprIR::If { condition: _, then_branch, else_branch } => impl_fits(
                tools,
                *then_branch,
                less,
            ) && (else_branch matches Some(body) ==> impl_fits(tools, *body, less)),
            ToolExprIR::Match { scrutinee, arms } => expr_fits(tools, *scrutinee, less)
                && forall|i: int|
                0 <= i < arms@.len() ==> impl_fits(tools, (#[trigger] arms@[i]).body, less),
            ToolExprIR::For { variable: _, iterable, body } => expr_fits(tools, *iterable, less)
                && impl_fits(tools, *body, less),
            ToolExprIR::While { .. } => false,
            ToolExprIR::Loop { .. } => false,
            _ => true,
        }
    }
}

/// Whether each of the expressions nests at most so deep.
pub open spec fn exprs_fit(tools: Map<Seq<char>, &ToolIR>, es: Seq<ToolExprIR>, n: nat) -> bool
    decreases n, 1nat,
{
    forall|i: int| 0 <= i < es.len() ==> expr_fits(tools, #[trigger] es[i], n)
}

/// Whether the body of a tool nests at most so deep.
pub open spec fn impl_fits(tools: Map<Seq<char>, &ToolIR>, body: ToolImplIR, n: nat) -> bool
    decreases n, 0nat,
{
    n > 0 && {
        let less = (n - 1) as nat;
        match body {
            ToolImplIR::Expr { expr } => expr_fits(tools, expr, less),
            ToolImplIR::Sequence { statements } => statements_fit(tools, statements@, less),
            ToolImplIR::Parallel { statements } => statements_fit(tools, statements@, less),
        }
    }
}

/// Whether each of the statements nests at most so deep.
pub open spec fn statements_fit(
    tools: Map<Seq<char>, &ToolIR>,
    statements: Seq<StatementIR>,
    n: nat,
) -> bool
    decreases n, 1nat,
{
    forall|i: int|
        0 <= i < statements.len() ==> expr_fits(tools, (#[trigger] statements[i]).expr, n)
}

/// Whether a tool nests at most so deep, with the tools that it calls.
pub open spec fn tool_fits(tools: Map<Seq<char>, &ToolIR>, tool: ToolIR, n: nat) -> bool
    decreases n, 0nat,
{
    n > 0 && (tool.implementation matches Some(body) ==> impl_fits(tools, body, (n - 1) as nat))
}

proof fn lemma_eval(e: ExprIR, ctx: ValueView, rs: Seq<ReplyView>)
    ensures
        fuel_was_enough(eval(e, ctx, rs)),
    decreases e, 0nat,
{
    match e {
        ExprIR::FieldAccess { base, field: _ } => lemma_eval(*base, ctx, rs),
        ExprIR::Binary { left, op: _, right } => {
            lemma_eval(*left, ctx, rs);
            lemma_eval(*right, ctx, eval(*left, ctx, rs).1);
        },
        ExprIR::Call { function: _, args } => lemma_eval_all(args@, 0, Seq::empty(), ctx, rs),
        ExprIR::ForeignCall { args, .. } => lemma_eval_all(args@, 0, Seq::empty(), ctx, rs),
        _ => {},
    }
}

proof fn lemma_eval_all(
    es: Seq<ExprIR>,
    i: nat,
    done: Seq<ValueView>,
    ctx: ValueView,
    rs: Seq<ReplyView>,
)
    ensures
        fuel_was_enough(eval_all(es, i, done, ctx, rs)),
    decreases es, es.len() - i,
{
    if i < es.len() {
        lemma_eval(es[i as int], ctx, rs);
        if let (Ok(v), rest) = eval(es[i as int], ctx, rs) {
            lemma_eval_all(es, i + 1, done.push(v), ctx, rest);
        }
    }
}

proof fn lemma_check(
    conditions: Seq<Arc<ExprIR>>,
    i: nat,
    before: bool,
    ctx: ValueView,
    rs: Seq<ReplyView>,
)
    ensures
        fuel_was_enough(check(conditions, i, before, ctx, rs)),
    decreases conditions.len() - i,
{
    if i < conditions.len() {
        lemma_eval(expression(conditions[i as int]), ctx, rs);
        lemma_check(
            conditions,
            i + 1,
            before,
            ctx,
            eval(expression(conditions[i as int]), ctx, rs).1,
        );
    }
}

/// A tool that nests at most as deep as there is fuel, and that has no loop without a bound of
/// its own, does not run out of fuel, whatever its input and the replies.
pub proof fn fitting_tool_has_enough_fuel(
    tools: Map<Seq<char>, &ToolIR>,
    tool: ToolIR,
    input: ValueView,
    fuel: nat,
    rs: Seq<ReplyView>,
)
    requires
        tool_fits(tools, tool, fuel),
    ensures
        fuel_was_enough(run_tool(tools, tool, input, fuel, rs)),
    decreases fuel, 0nat,
{
    if let (Ok(_), rest) = ask_clock(rs, RequestView::Clock) {
        lemma_check(preconditions(tool), 0, true, input, rest);
        if let (Ok(_), rest) = check(preconditions(tool), 0, true, input, rest) {
            if let Some(body) = tool.implementation {
                let less = (fuel - 1) as nat;
                lemma_impl(tools, body, input, Some(&tool.output), less, rest);
                if let (Ok(output), rest) = run_impl(
                    tools,
                    body,
                    input,
                    Some(&tool.output),
                    less,
                    rest,
                ) {
                    lemma_check(
                        postconditions(tool),
                        0,
                        false,
                        result_context(input, output),
                        rest,
                    );
                }
            }
        }
    }
}

proof fn lemma_impl(
    tools: Map<Seq<char>, &ToolIR>,
    body: ToolImplIR,
    input: ValueView,
    expected: Option<&TypeIR>,
    fuel: nat,
    rs: Seq<ReplyView>,
)
    requires
        impl_fits(tools, body, fuel),
    ensures
        fuel_was_enough(run_impl(tools, body, input, expected, fuel, rs)),
    decreases fuel, 0nat,
{
    let less = (fuel - 1) as nat;
    let start = start_bindings(input);
    match body {
        ToolImplIR::Expr { expr } => lemma_expr(tools, expr, input, expected, less, rs),
        ToolImplIR::Sequence { statements } => lemma_statements(
            tools,
            statements@,
            0,
            start,
            ValueView::Null,
            less,
            rs,
        ),
        ToolImplIR::Parallel { statements } => lemma_statements(
            tools,
            statements@,
            0,
            start,
            ValueView::Null,
            less,
            rs,
        ),
    }
}

proof fn lemma_statements(
    tools: Map<Seq<char>, &ToolIR>,
    statements: Seq<StatementIR>,
    i: nat,
    bindings: Bindings,
    last: ValueView,
    fuel: nat,
    rs: Seq<ReplyView>,
)
    requires
        statements_fit(tools, statements, fuel),
    ensures
        fuel_was_enough(run_statements(tools, statements, i, bindings, last, fuel, rs)),
    decreases fuel, 1 + statements.len() - i,
{
    if i < statements.len() {
        let e = statements[i as int].expr;
        let ctx = ValueView::Dict(bindings);
        lemma_expr(tools, e, ctx, None, fuel, rs);
        if let (Ok(v), rest) = run_expr(tools, e, ctx, None, fuel, rs) {
            lemma_statements(
                tools,
                statements,
                i + 1,
                bound(bindings, statements[i as int].binding, v),
                v,
                fuel,
                rest,
            );
        }
    }
}

proof fn lemma_all(
    tools: Map<Seq<char>, &ToolIR>,
    args: Seq<ToolExprIR>,
    i: nat,
    done: Seq<ValueView>,
    ctx: ValueView,
    fuel: nat,
    rs: Seq<ReplyView>,
)
    requires
        exprs_fit(tools, args, fuel),
    ensures
        fuel_was_enough(run_all(tools, args, i, done, ctx, fuel, rs)),
    decreases fuel, 1 + args.len() - i,
{
    if i < args.len() {
        lemma_expr(tools, args[i as int], ctx, None, fuel, rs);
        if let (Ok(v), rest) = run_expr(tools, args[i as int], ctx, None, fuel, rs) {
            lemma_all(tools, args, i + 1, done.push(v), ctx, fuel, rest);
        }
    }
}

proof fn lemma_args(
    tools: Map<Seq<char>, &ToolIR>,
    input: TypeIR,
    args: Seq<ToolExprIR>,
    i: nat,
    done: Bindings,
    ctx: ValueView,
    fuel: nat,
    rs: Seq<ReplyView>,
)
    requires
        exprs_fit(tools, args, fuel),
    ensures
        fuel_was_enough(run_args(tools, input, args, i, done, ctx, fuel, rs)),
    decreases fuel, 1 + args.len() - i,
{
    if i < args.len() {
        lemma_expr(tools, args[i as int], ctx, None, fuel, rs);
        if let (Ok(v), rest) = run_expr(tools, args[i as int], ctx, None, fuel, rs) {
            lemma_args(
                tools,
                input,
                args,
                i + 1,
                done.insert(argument_name(input, i), v),
                ctx,
                fuel,
                rest,
            );
        }
    }
}

proof fn lemma_arms(
    tools: Map<Seq<char>, &ToolIR>,
    arms: Seq<MatchArmIR>,
    i: nat,
    value: ValueView,
    ctx: ValueView,
    expected: Option<&TypeIR>,
    fuel: nat,
    rs: Seq<ReplyView>,
)
    requires
        forall|i: int| 0 <= i < arms.len() ==> impl_fits(tools, (#[trigger] arms[i]).body, fuel),
    ensures
        fuel_was_enough(run_arms(tools, arms, i, value, ctx, expected, fuel, rs)),
    decreases fuel, 1 + arms.len() - i,
{
    if i < arms.len() {
        let arm = arms[i as int];
        lemma_eval(arm.pattern, ctx, rs);
        if let (Ok(pattern), rest) = eval(arm.pattern, ctx, rs) {
            if values_equal(value, pattern) {
                lemma_impl(tools, arm.body, ctx, expected, fuel, rest);
            } else {
                lemma_arms(tools, arms, i + 1, value, ctx, expected, fuel, rest);
            }
        }
    }
}

proof fn lemma_items(
    tools: Map<Seq<char>, &ToolIR>,
    variable: Seq<char>,
    items: Seq<ValueView>,
    i: nat,
    body: ToolImplIR,
    last: ValueView,
    ctx: ValueView,
    expected: Option<&TypeIR>,
    fuel: nat,
    rs: Seq<ReplyView>,
)
    requires
        impl_fits(tools, body, fuel),
    ensures
        fuel_was_enough(
            run_items(tools, variable, items, i, body, last, ctx, expected, fuel, rs),
        ),
    decreases fuel, 1 + items.len() - i,
{
    if i < items.len() {
        let round = loop_context(ctx, variable, items[i as int]);
        lemma_impl(tools, body, round, expected, fuel, rs);
        let (end, rest) = run_impl(tools, body, round, expected, fuel, rs);
        lemma_items(tools, variable, items, i + 1, body, last, ctx, expected, fuel, rest);
        if let Ok(v) = end {
            lemma_items(tools, variable, items, i + 1, body, v, ctx, expected, fuel, rest);
        }
    }
}

proof fn lemma_expr(
    tools: Map<Seq<char>, &ToolIR>,
    e: ToolExprIR,
    ctx: ValueView,
    expected: Option<&TypeIR>,
    fuel: nat,
    rs: Seq<ReplyView>,
)
    requires
        expr_fits(tools, e, fuel),
    ensures
        fuel_was_enough(run_expr(tools, e, ctx, expected, fuel, rs)),
    decreases fuel, 0nat,
{
    let less = (fuel - 1) as nat;
    match e {
        ToolExprIR::FieldAccess { base, field: _ } => lemma_expr(tools, *base, ctx, None, less, rs),
        ToolExprIR::ForeignCall { args, .. } => lemma_all(
            tools,
            args@,
            0,
            Seq::empty(),
            ctx,
            less,
            rs,
        ),
        ToolExprIR::ToolCall { tool, args } => if tools.dom().contains(tool@) {
            let callee = tools[tool@];
            lemma_args(tools, callee.input, args@, 0, Map::empty(), ctx, less, rs);
            if let (Ok(m), rest) = run_args(
                tools,
                callee.input,
                args@,
                0,
                Map::empty(),
                ctx,
                less,
                rs,
            ) {
                fitting_tool_has_enough_fuel(tools, *callee, ValueView::Dict(m), less, rest);
            }
        },
        ToolExprIR::Pipe { left, right } => {
            lemma_expr(tools, *left, ctx, None, less, rs);
            if let (Ok(v), rest) = run_expr(tools, *left, ctx, None, less, rs) {
                lemma_expr(tools, *right, v, expected, less, rest);
            }
        },
        ToolExprIR::If { condition, then_branch, else_branch } => {
            lemma_eval(condition, ctx, rs);
            if let (Ok(_), rest) = eval(condition, ctx, rs) {
                lemma_impl(tools, *then_branch, ctx, expected, less, rest);
                if let Some(body) = else_branch {
                    lemma_impl(tools, *body, ctx, expected, less, rest);
                }
            }
        },
        ToolExprIR::Match { scrutinee, arms } => {
            lemma_expr(tools, *scrutinee, ctx, None, less, rs);
            if let (Ok(v), rest) = run_expr(tools, *scrutinee, ctx, None, less, rs) {
                lemma_arms(tools, arms@, 0, v, ctx, expected, less, rest);
            }
        },
        ToolExprIR::For { variable, iterable, body } => {
            lemma_expr(tools, *iterable, ctx, None, less, rs);
            if let (Ok(ValueView::List(items)), rest) = run_expr(
                tools,
                *iterable,
                ctx,
                None,
                less,
                rs,
            ) {
                lemma_items(
                    tools,
                    variable@,
                    items,
                    0,
                    *body,
                    ValueView::Null,
                    ctx,
                    expected,
                    less,
                    rest,
                );
            }
        },
        ToolExprIR::Expr { expr } => lemma_eval(expr, ctx, rs),
        _ => {},
    }
}

/// Whether what one step of a pipeline runs nests at most so deep.
pub open spec fn call_fits(defs: Defs, call: PipelineCallIR, n: nat) -> bool {
    match call {
        PipelineCallIR::Prompt { name: _, args } => exprs_fit(defs.tools, args@, n),
        PipelineCallIR::Tool { name, args } => exprs_fit(defs.tools, args@, n) && (
        defs.tools.dom().contains(name@) ==> tool_fits(defs.tools, *defs.tools[name@], n)),
        PipelineCallIR::Expr { expr } => expr_fits(defs.tools, expr, n),
    }
}

proof fn lemma_steps(
    defs: Defs,
    steps: Seq<PipelineStepIR>,
    i: nat,
    bindings: Bindings,
    last: ValueView,
    fuel: nat,
    rs: Seq<ReplyView>,
)
    requires
        forall|i: int| 0 <= i < steps.len() ==> call_fits(defs, (#[trigger] steps[i]).call, fuel),
    ensures
        fuel_was_enough(run_steps(defs, steps, i, bindings, last, fuel, rs)),
    decreases steps.len() - i,
{
    if i < steps.len() {
        let step = steps[i as int];
        let ctx = ValueView::Dict(bindings);
        let none = Map::<Seq<char>, ValueView>::empty();
        match step.call {
            PipelineCallIR::Prompt { name, args } => if defs.prompts.dom().contains(name@) {
                let input = defs.prompts[name@].input;
                lemma_args(defs.tools, input, args@, 0, none, ctx, fuel, rs);
            },
            PipelineCallIR::Tool { name, args } => if defs.tools.dom().contains(name@) {
                let tool = defs.tools[name@];
                lemma_args(defs.tools, tool.input, args@, 0, none, ctx, fuel, rs);
                if let (Ok(m), rest) = run_args(
                    defs.tools,
                    tool.input,
                    args@,
                    0,
                    none,
                    ctx,
                    fuel,
                    rs,
                ) {
                    fitting_tool_has_enough_fuel(
                        defs.tools,
                        *tool,
                        ValueView::Dict(m),
                        fuel,
                        rest,
                    );
                }
            },
            PipelineCallIR::Expr { expr } => lemma_expr(defs.tools, expr, ctx, None, fuel, rs),
        }
        assert(fuel_was_enough(run_call(defs, step.call, ctx, fuel, rs)));
        if let (Ok(v), rest) = run_call(defs, step.call, ctx, fuel, rs) {
            lemma_steps(defs, steps, i + 1, bound(bindings, step.binding, v), v, fuel, rest);
        }
    }
}

/// A pipeline whose steps nest at most as deep as there is fuel, and that has no loop without a
/// bound of its own, does not run out of fuel.
pub proof fn fitting_pipeline_has_enough_fuel(
    defs: Defs,
    pipeline: PipelineIR,
    input: ValueView,
    fuel: nat,
    rs: Seq<ReplyView>,
)
    requires
        forall|i: int|
            0 <= i < pipeline.steps@.len() ==> call_fits(
                defs,
                (#[trigger] pipeline.steps@[i]).call,
                fuel,
            ),
    ensures
        fuel_was_enough(run_pipeline(defs, pipeline, input, fuel, rs)),
{
    lemma_steps(
        defs,
        pipeline.steps@,
        0,
        start_bindings(input),
        ValueView::Null,
        fuel,
        rs,
    );
}

/// Whether every registered tool nests at most so deep.
pub open spec fn tools_fit(tools: Map<Seq<char>, &ToolIR>, n: nat) -> bool {
    forall|name: Seq<char>| #[trigger]
        tools.dom().contains(name) ==> tool_fits(tools, *tools[name], n)
}

proof fn lemma_calls(
    tools: Map<Seq<char>, &ToolIR>,
    calls: Seq<ToolCallView>,
    i: nat,
    messages: Seq<ChatMessageView>,
    fuel: nat,
    rs: Seq<ReplyView>,
)
    requires
        tools_fit(tools, fuel),
    ensures
        fuel_was_enough(run_calls(tools, calls, i, messages, fuel, rs)),
    decreases calls.len() - i,
{
    if i < calls.len() {
        let call = calls[i as int];
        if let Ok(args) = arguments_read(json_parsed(call.arguments), call.name, call.arguments) {
            if tools.dom().contains(call.name) {
                fitting_tool_has_enough_fuel(tools, *tools[call.name], args, fuel, rs);
            }
            assert(fuel_was_enough(report(tools, call.name, args, fuel, rs)));
            if let (Ok(text), rest) = report(tools, call.name, args, fuel, rs) {
                lemma_calls(
                    tools,
                    calls,
                    i + 1,
                    messages.push(result_message(call.id, text)),
                    fuel,
                    rest,
                );
            }
        }
    }
}

proof fn lemma_turns(
    tools: Map<Seq<char>, &ToolIR>,
    agent: Seq<char>,
    offers: Seq<ChatToolDefinitionView>,
    messages: Seq<ChatMessageView>,
    turn: nat,
    max_turns: nat,
    fuel: nat,
    rs: Seq<ReplyView>,
)
    requires
        tools_fit(tools, fuel),
    ensures
        fuel_was_enough(run_turns(tools, agent, offers, messages, turn, max_turns, fuel, rs)),
    decreases max_turns - turn,
{
    if turn < max_turns {
        if let (Ok(started), rest) = ask_clock(rs, RequestView::Clock) {
            let chat = RequestView::Chat { messages, tools: offers };
            if let (Ok(Ok(response)), rest) = ask_chat(rest, chat) {
                let trace = RequestView::TraceChat {
                    started,
                    span: "llm-"@ + agent + "-turn"@ + decimal(turn + 1),
                    messages,
                    response: response.message,
                };
                if let (Ok(_), rest) = ask_done(rest, trace) {
                    if asks_for_tools(response.message) {
                        let calls = response.message.tool_calls->0;
                        let said = messages.push(response.message);
                        lemma_calls(tools, calls, 0, said, fuel, rest);
                        if let (Ok(told), rest) = run_calls(tools, calls, 0, said, fuel, rest) {
                            lemma_turns(
                                tools,
                                agent,
                                offers,
                                told,
                                turn + 1,
                                max_turns,
                                fuel,
                                rest,
                            );
                        }
                    }
                }
            }
        }
    }
}

/// An agent does not run out of fuel where every registered tool nests at most as deep as there
/// is fuel, without a loop that has no bound of its own, and where the fuel is enough for what
/// the agent is told of types.
pub proof fn fitting_agent_has_enough_fuel(
    defs: Defs,
    agent: AgentIR,
    input: ValueView,
    fuel: nat,
    rs: Seq<ReplyView>,
)
    requires
        tools_fit(defs.tools, fuel),
        example(defs.types, agent.output, fuel) is Some,
        tools_offered(defs.tools, defs.types, agent.tools@, fuel) is Some,
    ensures
        fuel_was_enough(run_agent(defs, agent, input, fuel, rs)),
{
    if let (Ok(system), rest) = resolve(defs.base_path, agent.system, rs) {
        let shown = example(defs.types, agent.output, fuel)->0;
        let offers = tools_offered(defs.tools, defs.types, agent.tools@, fuel)->0;
        if let (Ok(text), rest) = ask_text(rest, RequestView::Pretty { value: input }) {
            lemma_turns(
                defs.tools,
                agent.name@,
                offers,
                first_messages(system, shown, text),
                0,
                turns_of(agent) as nat,
                fuel,
                rest,
            );
        }
    }
}

} // verus!
