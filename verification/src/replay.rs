//! Why a run can be taken up again from its start: what it made of the replies that it had, it
//! makes of them again.
use std::sync::Arc;
use vstd::prelude::*;
use crate::agent::{
    arguments_read, first_messages, report, run_agent, run_calls, run_turns, tools_offered,
    turns_of,
};
use crate::chat::{
    asks_for_tools, result_message, ChatMessageView, ChatToolDefinitionView, ToolCallView,
};
use crate::executor::Defs;
use crate::expr::{binary_op, eval, eval_all, foreign};
use crate::ir::{
    AgentIR, ExprIR, MatchArmIR, PipelineCallIR, PipelineIR, PipelineStepIR, PromptIR, StatementIR,
    StringOrFileIR, ToolExprIR, ToolIR, ToolImplIR, TypeDefIR, TypeIR,
};
use crate::json::json_parsed;
use crate::llm::{ask_structured, structured_prompt};
use crate::pipeline::{run_call, run_pipeline, run_steps};
use crate::prompt::{full_prompt, resolve, resolve_system, run_prompt};
use crate::run::{
    argument_name, bound, check, expression, finish, loop_context, postconditions, preconditions,
    result_context, run_all, run_args, run_arms, run_expr, run_impl, run_items, run_loop,
    run_statements, run_tool, run_while, start_bindings, Bindings,
};
use crate::schema::{example, more_fuel_same_schema, outline};
use crate::session::{ask, Outcome, ReplyView, RequestView, StopView};
use crate::shell::{read_as, read_output, run_shell};
use crate::text::{decimal, trimmed};
use crate::value::{values_equal, ValueView};

verus! {

/// Whether a run came to an end that is its own: it neither asks nor ran out of fuel.
pub open spec fn settled<T>(o: Outcome<T>) -> bool {
    match o.0 {
        Err(StopView::Ask(_)) => false,
        Err(StopView::OutOfFuel) => false,
        _ => true,
    }
}

/// How a run relates to one that is given more: where it is settled the other ends in the same
/// way and leaves the additional replies, and where it asks it has used all its replies.
pub open spec fn carries_over<T>(
    first: Outcome<T>,
    second: Outcome<T>,
    extra: Seq<ReplyView>,
) -> bool {
    &&& settled(first) ==> second == (first.0, first.1 + extra)
    &&& first.0 matches Err(StopView::Ask(_)) ==> first.1.len() == 0
}

/// How many of the replies are to chats.
pub open spec fn chats(rs: Seq<ReplyView>) -> nat
    decreases rs.len(),
{
    if rs.len() == 0 {
        0
    } else {
        chats(rs.drop_first()) + if rs[0] is Chat {
            1nat
        } else {
            0nat
        }
    }
}

/// Whether a run had at most so many chats, counting the one that it asks for, unless it cannot
/// go on.
pub open spec fn at_most_chats<T>(o: Outcome<T>, rs: Seq<ReplyView>, n: nat) -> bool {
    match o.0 {
        Err(StopView::Fault(_)) => true,
        Err(StopView::Ask(RequestView::Chat { .. })) => chats(rs) < chats(o.1) + n,
        _ => chats(rs) <= chats(o.1) + n,
    }
}

/// How many turns there are after the first `turn`.
pub open spec fn turns_left(turn: nat, max_turns: nat) -> nat {
    if turn < max_turns {
        (max_turns - turn) as nat
    } else {
        0
    }
}

proof fn lemma_ask(rs: Seq<ReplyView>, request: RequestView, extra: Seq<ReplyView>)
    ensures
        carries_over(ask(rs, request), ask(rs + extra, request), extra),
        rs.len() > 0 ==> chats(rs) == chats(rs.drop_first()) + if rs[0] is Chat {
            1nat
        } else {
            0nat
        },
{
    if rs.len() > 0 {
        assert((rs + extra).drop_first() =~= rs.drop_first() + extra);
    }
}

proof fn lemma_binary_op(
    l: ValueView,
    op: Seq<char>,
    r: ValueView,
    rs: Seq<ReplyView>,
    extra: Seq<ReplyView>,
)
    ensures
        carries_over(binary_op(l, op, r, rs), binary_op(l, op, r, rs + extra), extra),
        at_most_chats(binary_op(l, op, r, rs), rs, 0),
{
    assert forall|request: RequestView|
        carries_over(#[trigger] ask(rs, request), ask(rs + extra, request), extra) by {
        lemma_ask(rs, request, extra);
    }
}

proof fn lemma_foreign(
    module: Seq<char>,
    function: Seq<char>,
    args: Seq<ValueView>,
    rs: Seq<ReplyView>,
    extra: Seq<ReplyView>,
)
    ensures
        carries_over(
            foreign(module, function, args, rs),
            foreign(module, function, args, rs + extra),
            extra,
        ),
        at_most_chats(foreign(module, function, args, rs), rs, 0),
{
    lemma_ask(rs, RequestView::Foreign { module, function, args }, extra);
}

/// The value of an expression does not depend on replies that it does not ask for, and an
/// expression has no chats.
pub proof fn expression_carries_over(
    e: ExprIR,
    ctx: ValueView,
    rs: Seq<ReplyView>,
    extra: Seq<ReplyView>,
)
    ensures
        carries_over(eval(e, ctx, rs), eval(e, ctx, rs + extra), extra),
        at_most_chats(eval(e, ctx, rs), rs, 0),
    decreases e, 0nat,
{
    match e {
        ExprIR::FieldAccess { base, field: _ } => expression_carries_over(*base, ctx, rs, extra),
        ExprIR::Binary { left, op, right } => {
            expression_carries_over(*left, ctx, rs, extra);
            if let (Ok(l), rest) = eval(*left, ctx, rs) {
                expression_carries_over(*right, ctx, rest, extra);
                if let (Ok(r), rest) = eval(*right, ctx, rest) {
                    lemma_binary_op(l, op@, r, rest, extra);
                }
            }
        },
        ExprIR::Call { function: _, args } => lemma_eval_all(
            args@,
            0,
            Seq::empty(),
            ctx,
            rs,
            extra,
        ),
        ExprIR::ForeignCall { module, function, args } => {
            lemma_eval_all(args@, 0, Seq::empty(), ctx, rs, extra);
            if let (Ok(vs), rest) = eval_all(args@, 0, Seq::empty(), ctx, rs) {
                lemma_foreign(module@, function@, vs, rest, extra);
            }
        },
        _ => {},
    }
}

proof fn lemma_eval_all(
    es: Seq<ExprIR>,
    i: nat,
    done: Seq<ValueView>,
    ctx: ValueView,
    rs: Seq<ReplyView>,
    extra: Seq<ReplyView>,
)
    ensures
        carries_over(
            eval_all(es, i, done, ctx, rs),
            eval_all(es, i, done, ctx, rs + extra),
            extra,
        ),
        at_most_chats(eval_all(es, i, done, ctx, rs), rs, 0),
    decreases es, es.len() - i,
{
    if i < es.len() {
        expression_carries_over(es[i as int], ctx, rs, extra);
        if let (Ok(v), rest) = eval(es[i as int], ctx, rs) {
            lemma_eval_all(es, i + 1, done.push(v), ctx, rest, extra);
        }
    }
}

proof fn lemma_read_as(ty: TypeIR, text: Seq<char>, rs: Seq<ReplyView>, extra: Seq<ReplyView>)
    ensures
        carries_over(read_as(ty, text, rs), read_as(ty, text, rs + extra), extra),
        at_most_chats(read_as(ty, text, rs), rs, 0),
{
    lemma_ask(rs, RequestView::ParseInt { text }, extra);
    lemma_ask(rs, RequestView::ParseFloat { text }, extra);
    lemma_ask(rs, RequestView::ParseBool { text }, extra);
}

proof fn lemma_read_output(
    expected: Option<&TypeIR>,
    output: Seq<char>,
    rs: Seq<ReplyView>,
    extra: Seq<ReplyView>,
)
    ensures
        carries_over(
            read_output(expected, output, rs),
            read_output(expected, output, rs + extra),
            extra,
        ),
        at_most_chats(read_output(expected, output, rs), rs, 0),
{
    if let Some(ty) = expected {
        lemma_read_as(*ty, trimmed(output), rs, extra);
        if let TypeIR::Struct { fields } = *ty {
            lemma_read_as(fields@[0].1, trimmed(output), rs, extra);
        }
    }
}

proof fn lemma_shell(
    command: Seq<char>,
    ctx: ValueView,
    expected: Option<&TypeIR>,
    rs: Seq<ReplyView>,
    extra: Seq<ReplyView>,
)
    ensures
        carries_over(
            run_shell(command, ctx, expected, rs),
            run_shell(command, ctx, expected, rs + extra),
            extra,
        ),
        at_most_chats(run_shell(command, ctx, expected, rs), rs, 0),
{
    let fill = RequestView::Interpolate { template: command, context: ctx };
    lemma_ask(rs, fill, extra);
    if let (Ok(ReplyView::Output(Ok(filled))), rest) = ask(rs, fill) {
        lemma_ask(rest, RequestView::ShellBytes { command: filled }, extra);
        lemma_ask(rest, RequestView::Shell { command: filled }, extra);
        if let (Ok(ReplyView::Output(Ok(output))), rest) = ask(
            rest,
            RequestView::Shell { command: filled },
        ) {
            lemma_read_output(expected, output, rest, extra);
        }
    }
}

proof fn lemma_check(
    conditions: Seq<Arc<ExprIR>>,
    i: nat,
    before: bool,
    ctx: ValueView,
    rs: Seq<ReplyView>,
    extra: Seq<ReplyView>,
)
    ensures
        carries_over(
            check(conditions, i, before, ctx, rs),
            check(conditions, i, before, ctx, rs + extra),
            extra,
        ),
        at_most_chats(check(conditions, i, before, ctx, rs), rs, 0),
    decreases conditions.len() - i,
{
    if i < conditions.len() {
        expression_carries_over(expression(conditions[i as int]), ctx, rs, extra);
        if let (Ok(_), rest) = eval(expression(conditions[i as int]), ctx, rs) {
            lemma_check(conditions, i + 1, before, ctx, rest, extra);
            lemma_ask(rest, RequestView::DescribeExpr { expr: conditions[i as int] }, extra);
        }
    }
}

proof fn lemma_finish(
    tool: ToolIR,
    started: u64,
    input: ValueView,
    output: ValueView,
    rs: Seq<ReplyView>,
    extra: Seq<ReplyView>,
)
    ensures
        carries_over(
            finish(tool, started, input, output, rs),
            finish(tool, started, input, output, rs + extra),
            extra,
        ),
        at_most_chats(finish(tool, started, input, output, rs), rs, 0),
{
    let ctx = result_context(input, output);
    lemma_check(postconditions(tool), 0, false, ctx, rs, extra);
    if let (Ok(_), rest) = check(postconditions(tool), 0, false, ctx, rs) {
        lemma_ask(
            rest,
            RequestView::TraceTool {
                started,
                span: "tool-"@ + tool.name@,
                tool: tool.name@,
                input,
                output,
            },
            extra,
        );
    }
}

/// A run of a tool that is settled ends in the same way when it is given more replies and more
/// fuel; one that asks has used all its replies. A tool has no chats.
pub proof fn tool_carries_over(
    tools: Map<Seq<char>, &ToolIR>,
    tool: ToolIR,
    input: ValueView,
    fuel: nat,
    more: nat,
    rs: Seq<ReplyView>,
    extra: Seq<ReplyView>,
)
    requires
        fuel <= more,
    ensures
        carries_over(
            run_tool(tools, tool, input, fuel, rs),
            run_tool(tools, tool, input, more, rs + extra),
            extra,
        ),
        at_most_chats(run_tool(tools, tool, input, fuel, rs), rs, 0),
    decreases fuel, 0nat,
{
    if fuel > 0 {
        lemma_ask(rs, RequestView::Clock, extra);
        if let (Ok(ReplyView::Clock(started)), rest) = ask(rs, RequestView::Clock) {
            lemma_check(preconditions(tool), 0, true, input, rest, extra);
            if let (Ok(_), rest) = check(preconditions(tool), 0, true, input, rest) {
                if let Some(body) = tool.implementation {
                    let less = (fuel - 1) as nat;
                    lemma_impl(
                        tools,
                        body,
                        input,
                        Some(&tool.output),
                        less,
                        (more - 1) as nat,
                        rest,
                        extra,
                    );
                    if let (Ok(output), rest) = run_impl(
                        tools,
                        body,
                        input,
                        Some(&tool.output),
                        less,
                        rest,
                    ) {
                        lemma_finish(tool, started, input, output, rest, extra);
                    }
                }
            }
        }
    }
}

proof fn lemma_impl(
    tools: Map<Seq<char>, &ToolIR>,
    body: ToolImplIR,
    input: ValueView,
    expected: Option<&TypeIR>,
    fuel: nat,
    more: nat,
    rs: Seq<ReplyView>,
    extra: Seq<ReplyView>,
)
    requires
        fuel <= more,
    ensures
        carries_over(
            run_impl(tools, body, input, expected, fuel, rs),
            run_impl(tools, body, input, expected, more, rs + extra),
            extra,
        ),
        at_most_chats(run_impl(tools, body, input, expected, fuel, rs), rs, 0),
    decreases fuel, 0nat,
{
    if fuel > 0 {
        let less = (fuel - 1) as nat;
        let still = (more - 1) as nat;
        let start = start_bindings(input);
        match body {
            ToolImplIR::Expr { expr } => lemma_expr(
                tools,
                expr,
                input,
                expected,
                less,
                still,
                rs,
                extra,
            ),
            ToolImplIR::Sequence { statements } => lemma_statements(
                tools,
                statements@,
                0,
                start,
                ValueView::Null,
                less,
                still,
                rs,
                extra,
            ),
            ToolImplIR::Parallel { statements } => lemma_statements(
                tools,
                statements@,
                0,
                start,
                ValueView::Null,
                less,
                still,
                rs,
                extra,
            ),
        }
    }
}

proof fn lemma_statements(
    tools: Map<Seq<char>, &ToolIR>,
    statements: Seq<StatementIR>,
    i: nat,
    bindings: Bindings,
    last: ValueView,
    fuel: nat,
    more: nat,
    rs: Seq<ReplyView>,
    extra: Seq<ReplyView>,
)
    requires
        fuel <= more,
    ensures
        carries_over(
            run_statements(tools, statements, i, bindings, last, fuel, rs),
            run_statements(tools, statements, i, bindings, last, more, rs + extra),
            extra,
        ),
        at_most_chats(run_statements(tools, statements, i, bindings, last, fuel, rs), rs, 0),
    decreases fuel, 1 + statements.len() - i,
{
    if i < statements.len() {
        let e = statements[i as int].expr;
        let ctx = ValueView::Dict(bindings);
        lemma_expr(tools, e, ctx, None, fuel, more, rs, extra);
        if let (Ok(v), rest) = run_expr(tools, e, ctx, None, fuel, rs) {
            lemma_statements(
                tools,
                statements,
                i + 1,
                bound(bindings, statements[i as int].binding, v),
                v,
                fuel,
                more,
                rest,
                extra,
            );
        }
    }
}

proof fn lemma_all(
    tools: Map<Seq<char>, &ToolIR>,
    args: Seq<ToolExprIR>,
    i: nat,
    done: Seq<ValueView>,
    ctx: ValueView,
    fuel: nat,
    more: nat,
    rs: Seq<ReplyView>,
    extra: Seq<ReplyView>,
)
    requires
        fuel <= more,
    ensures
        carries_over(
            run_all(tools, args, i, done, ctx, fuel, rs),
            run_all(tools, args, i, done, ctx, more, rs + extra),
            extra,
        ),
        at_most_chats(run_all(tools, args, i, done, ctx, fuel, rs), rs, 0),
    decreases fuel, 1 + args.len() - i,
{
    if i < args.len() {
        lemma_expr(tools, args[i as int], ctx, None, fuel, more, rs, extra);
        if let (Ok(v), rest) = run_expr(tools, args[i as int], ctx, None, fuel, rs) {
            lemma_all(tools, args, i + 1, done.push(v), ctx, fuel, more, rest, extra);
        }
    }
}

proof fn lemma_args(
    tools: Map<Seq<char>, &ToolIR>,
    input: TypeIR,
    args: Seq<ToolExprIR>,
    i: nat,
    done: Bindings,
    ctx: ValueView,
    fuel: nat,
    more: nat,
    rs: Seq<ReplyView>,
    extra: Seq<ReplyView>,
)
    requires
        fuel <= more,
    ensures
        carries_over(
            run_args(tools, input, args, i, done, ctx, fuel, rs),
            run_args(tools, input, args, i, done, ctx, more, rs + extra),
            extra,
        ),
        at_most_chats(run_args(tools, input, args, i, done, ctx, fuel, rs), rs, 0),
    decreases fuel, 1 + args.len() - i,
{
    if i < args.len() {
        lemma_expr(tools, args[i as int], ctx, None, fuel, more, rs, extra);
        if let (Ok(v), rest) = run_expr(tools, args[i as int], ctx, None, fuel, rs) {
            lemma_args(
                tools,
                input,
                args,
                i + 1,
                done.insert(argument_name(input, i), v),
                ctx,
                fuel,
                more,
                rest,
                extra,
            );
        }
    }
}

proof fn lemma_arms(
    tools: Map<Seq<char>, &ToolIR>,
    arms: Seq<MatchArmIR>,
    i: nat,
    value: ValueView,
    ctx: ValueView,
    expected: Option<&TypeIR>,
    fuel: nat,
    more: nat,
    rs: Seq<ReplyView>,
    extra: Seq<ReplyView>,
)
    requires
        fuel <= more,
    ensures
        carries_over(
            run_arms(tools, arms, i, value, ctx, expected, fuel, rs),
            run_arms(tools, arms, i, value, ctx, expected, more, rs + extra),
            extra,
        ),
        at_most_chats(run_arms(tools, arms, i, value, ctx, expected, fuel, rs), rs, 0),
    decreases fuel, 1 + arms.len() - i,
{
    if i < arms.len() {
        let arm = arms[i as int];
        expression_carries_over(arm.pattern, ctx, rs, extra);
        if let (Ok(pattern), rest) = eval(arm.pattern, ctx, rs) {
            if values_equal(value, pattern) {
                lemma_impl(tools, arm.body, ctx, expected, fuel, more, rest, extra);
            } else {
                lemma_arms(tools, arms, i + 1, value, ctx, expected, fuel, more, rest, extra);
            }
        }
    }
}

proof fn lemma_items(
    tools: Map<Seq<char>, &ToolIR>,
    variable: Seq<char>,
    items: Seq<ValueView>,
    i: nat,
    body: ToolImplIR,
    last: ValueView,
    ctx: ValueView,
    expected: Option<&TypeIR>,
    fuel: nat,
    more: nat,
    rs: Seq<ReplyView>,
    extra: Seq<ReplyView>,
)
    requires
        fuel <= more,
    ensures
        carries_over(
            run_items(tools, variable, items, i, body, last, ctx, expected, fuel, rs),
            run_items(tools, variable, items, i, body, last, ctx, expected, more, rs + extra),
            extra,
        ),
        at_most_chats(
            run_items(tools, variable, items, i, body, last, ctx, expected, fuel, rs),
            rs,
            0,
        ),
    decreases fuel, 1 + items.len() - i,
{
    if i < items.len() {
        let round = loop_context(ctx, variable, items[i as int]);
        lemma_impl(tools, body, round, expected, fuel, more, rs, extra);
        let (end, rest) = run_impl(tools, body, round, expected, fuel, rs);
        lemma_items(
            tools,
            variable,
            items,
            i + 1,
            body,
            last,
            ctx,
            expected,
            fuel,
            more,
            rest,
            extra,
        );
        if let Ok(v) = end {
            lemma_items(
                tools,
                variable,
                items,
                i + 1,
                body,
                v,
                ctx,
                expected,
                fuel,
                more,
                rest,
                extra,
            );
        }
    }
}

proof fn lemma_while(
    tools: Map<Seq<char>, &ToolIR>,
    condition: ExprIR,
    body: ToolImplIR,
    last: ValueView,
    ctx: ValueView,
    expected: Option<&TypeIR>,
    fuel: nat,
    more: nat,
    rs: Seq<ReplyView>,
    extra: Seq<ReplyView>,
)
    requires
        fuel <= more,
    ensures
        carries_over(
            run_while(tools, condition, body, last, ctx, expected, fuel, rs),
            run_while(tools, condition, body, last, ctx, expected, more, rs + extra),
            extra,
        ),
        at_most_chats(run_while(tools, condition, body, last, ctx, expected, fuel, rs), rs, 0),
    decreases fuel, 0nat,
{
    if fuel > 0 {
        let less = (fuel - 1) as nat;
        let still = (more - 1) as nat;
        expression_carries_over(condition, ctx, rs, extra);
        if let (Ok(_), rest) = eval(condition, ctx, rs) {
            lemma_impl(tools, body, ctx, expected, less, still, rest, extra);
            let (end, rest) = run_impl(tools, body, ctx, expected, less, rest);
            lemma_while(
                tools,
                condition,
                body,
                last,
                ctx,
                expected,
                less,
                still,
                rest,
                extra,
            );
            if let Ok(v) = end {
                lemma_while(
                    tools,
                    condition,
                    body,
                    v,
                    ctx,
                    expected,
                    less,
                    still,
                    rest,
                    extra,
                );
            }
        }
    }
}

proof fn lemma_loop(
    tools: Map<Seq<char>, &ToolIR>,
    body: ToolImplIR,
    last: ValueView,
    ctx: ValueView,
    expected: Option<&TypeIR>,
    fuel: nat,
    more: nat,
    rs: Seq<ReplyView>,
    extra: Seq<ReplyView>,
)
    requires
        fuel <= more,
    ensures
        carries_over(
            run_loop(tools, body, last, ctx, expected, fuel, rs),
            run_loop(tools, body, last, ctx, expected, more, rs + extra),
            extra,
        ),
        at_most_chats(run_loop(tools, body, last, ctx, expected, fuel, rs), rs, 0),
    decreases fuel, 0nat,
{
    if fuel > 0 {
        let less = (fuel - 1) as nat;
        let still = (more - 1) as nat;
        lemma_impl(tools, body, ctx, expected, less, still, rs, extra);
        let (end, rest) = run_impl(tools, body, ctx, expected, less, rs);
        lemma_loop(tools, body, last, ctx, expected, less, still, rest, extra);
        if let Ok(v) = end {
            lemma_loop(tools, body, v, ctx, expected, less, still, rest, extra);
        }
    }
}

proof fn lemma_expr(
    tools: Map<Seq<char>, &ToolIR>,
    e: ToolExprIR,
    ctx: ValueView,
    expected: Option<&TypeIR>,
    fuel: nat,
    more: nat,
    rs: Seq<ReplyView>,
    extra: Seq<ReplyView>,
)
    requires
        fuel <= more,
    ensures
        carries_over(
            run_expr(tools, e, ctx, expected, fuel, rs),
            run_expr(tools, e, ctx, expected, more, rs + extra),
            extra,
        ),
        at_most_chats(run_expr(tools, e, ctx, expected, fuel, rs), rs, 0),
    decreases fuel, 0nat,
{
    if fuel > 0 {
        let less = (fuel - 1) as nat;
        let still = (more - 1) as nat;
        match e {
            ToolExprIR::FieldAccess { base, field: _ } => lemma_expr(
                tools,
                *base,
                ctx,
                None,
                less,
                still,
                rs,
                extra,
            ),
            ToolExprIR::Shell { command } => lemma_shell(command@, ctx, expected, rs, extra),
            ToolExprIR::ForeignCall { module, function, args } => {
                lemma_all(tools, args@, 0, Seq::empty(), ctx, less, still, rs, extra);
                if let (Ok(vs), rest) = run_all(
                    tools,
                    args@,
                    0,
                    Seq::empty(),
                    ctx,
                    less,
                    rs,
                ) {
                    lemma_foreign(module@, function@, vs, rest, extra);
                }
            },
            ToolExprIR::ToolCall { tool, args } => if tools.dom().contains(tool@) {
                let callee = tools[tool@];
                lemma_args(
                    tools,
                    callee.input,
                    args@,
                    0,
                    Map::empty(),
                    ctx,
                    less,
                    still,
                    rs,
                    extra,
                );
                if let (Ok(m), rest) = run_args(
                    tools,
                    callee.input,
                    args@,
                    0,
                    Map::empty(),
                    ctx,
                    less,
                    rs,
                ) {
                    tool_carries_over(
                        tools,
                        *callee,
                        ValueView::Dict(m),
                        less,
                        still,
                        rest,
                        extra,
                    );
                }
            },
            ToolExprIR::Pipe { left, right } => {
                lemma_expr(tools, *left, ctx, None, less, still, rs, extra);
                if let (Ok(v), rest) = run_expr(tools, *left, ctx, None, less, rs) {
                    lemma_expr(tools, *right, v, expected, less, still, rest, extra);
                }
            },
            ToolExprIR::If { condition, then_branch, else_branch } => {
                expression_carries_over(condition, ctx, rs, extra);
                if let (Ok(_), rest) = eval(condition, ctx, rs) {
                    lemma_impl(tools, *then_branch, ctx, expected, less, still, rest, extra);
                    if let Some(body) = else_branch {
                        lemma_impl(tools, *body, ctx, expected, less, still, rest, extra);
                    }
                }
            },
            ToolExprIR::Match { scrutinee, arms } => {
                lemma_expr(tools, *scrutinee, ctx, None, less, still, rs, extra);
                if let (Ok(v), rest) = run_expr(tools, *scrutinee, ctx, None, less, rs) {
                    lemma_arms(tools, arms@, 0, v, ctx, expected, less, still, rest, extra);
                }
            },
            ToolExprIR::For { variable, iterable, body } => {
                lemma_expr(tools, *iterable, ctx, None, less, still, rs, extra);
                if let (Ok(ValueView::List(items)), rest) = run_expr(
                    tools,
                    *iterable,
                    ctx,
                    None,
                    less,
                    rs,
                ) {
                    lemma_items(
                        tools,
                        variable@,
                        items,
                        0,
                        *body,
                        ValueView::Null,
                        ctx,
                        expected,
                        less,
                        still,
                        rest,
                        extra,
                    );
                }
            },
            ToolExprIR::While { condition, body } => lemma_while(
                tools,
                condition,
                *body,
                ValueView::Null,
                ctx,
                expected,
                less,
                still,
                rs,
                extra,
            ),
            ToolExprIR::Loop { body } => lemma_loop(
                tools,
                *body,
                ValueView::Null,
                ctx,
                expected,
                less,
                still,
                rs,
                extra,
            ),
            ToolExprIR::Expr { expr } => expression_carries_over(expr, ctx, rs, extra),
            _ => {},
        }
    }
}

proof fn lemma_resolve(
    base: Option<Seq<char>>,
    text: StringOrFileIR,
    rs: Seq<ReplyView>,
    extra: Seq<ReplyView>,
)
    ensures
        carries_over(resolve(base, text, rs), resolve(base, text, rs + extra), extra),
        at_most_chats(resolve(base, text, rs), rs, 0),
{
    if let StringOrFileIR::File { path } = text {
        lemma_ask(rs, RequestView::ReadFile { base, path: path@ }, extra);
    }
}

proof fn lemma_structured(
    prompt: Seq<char>,
    schema: Seq<char>,
    rs: Seq<ReplyView>,
    extra: Seq<ReplyView>,
)
    ensures
        carries_over(
            ask_structured(prompt, schema, rs),
            ask_structured(prompt, schema, rs + extra),
            extra,
        ),
        at_most_chats(ask_structured(prompt, schema, rs), rs, 0),
{
    lemma_ask(
        rs,
        RequestView::Complete { prompt: structured_prompt(prompt, schema) },
        extra,
    );
}

/// A run of a prompt that is settled ends in the same way when it is given more replies; one
/// that asks has used all its replies. A prompt has no chats.
pub proof fn prompt_carries_over(
    base: Option<Seq<char>>,
    prompt: PromptIR,
    input: ValueView,
    rs: Seq<ReplyView>,
    extra: Seq<ReplyView>,
)
    ensures
        carries_over(
            run_prompt(base, prompt, input, rs),
            run_prompt(base, prompt, input, rs + extra),
            extra,
        ),
        at_most_chats(run_prompt(base, prompt, input, rs), rs, 0),
{
    if let Some(text) = prompt.system {
        lemma_resolve(base, text, rs, extra);
    }
    if let (Ok(system), rest) = resolve_system(base, prompt.system, rs) {
        lemma_resolve(base, prompt.template, rest, extra);
        if let (Ok(template), rest) = resolve(base, prompt.template, rest) {
            let fill = RequestView::Interpolate { template, context: input };
            lemma_ask(rest, fill, extra);
            if let (Ok(ReplyView::Output(Ok(rendered))), rest) = ask(rest, fill) {
                let full = full_prompt(system, rendered);
                let form = outline(prompt.output);
                lemma_structured(full, form, rest, extra);
                if let (Ok(Err(error)), rest) = ask_structured(full, form, rest) {
                    lemma_ask(rest, RequestView::DescribeError { error }, extra);
                }
            }
        }
    }
}

proof fn lemma_call(
    defs: Defs,
    call: PipelineCallIR,
    ctx: ValueView,
    fuel: nat,
    more: nat,
    rs: Seq<ReplyView>,
    extra: Seq<ReplyView>,
)
    requires
        fuel <= more,
    ensures
        carries_over(
            run_call(defs, call, ctx, fuel, rs),
            run_call(defs, call, ctx, more, rs + extra),
            extra,
        ),
        at_most_chats(run_call(defs, call, ctx, fuel, rs), rs, 0),
{
    let none = Map::<Seq<char>, ValueView>::empty();
    match call {
        PipelineCallIR::Prompt { name, args } => if defs.prompts.dom().contains(name@) {
            let prompt = defs.prompts[name@];
            lemma_args(defs.tools, prompt.input, args@, 0, none, ctx, fuel, more, rs, extra);
            if let (Ok(m), rest) = run_args(
                defs.tools,
                prompt.input,
                args@,
                0,
                none,
                ctx,
                fuel,
                rs,
            ) {
                prompt_carries_over(defs.base_path, *prompt, ValueView::Dict(m), rest, extra);
            }
        },
        PipelineCallIR::Tool { name, args } => if defs.tools.dom().contains(name@) {
            let tool = defs.tools[name@];
            lemma_args(defs.tools, tool.input, args@, 0, none, ctx, fuel, more, rs, extra);
            if let (Ok(m), rest) = run_args(
                defs.tools,
                tool.input,
                args@,
                0,
                none,
                ctx,
                fuel,
                rs,
            ) {
                tool_carries_over(
                    defs.tools,
                    *tool,
                    ValueView::Dict(m),
                    fuel,
                    more,
                    rest,
                    extra,
                );
            }
        },
        PipelineCallIR::Expr { expr } => lemma_expr(
            defs.tools,
            expr,
            ctx,
            None,
            fuel,
            more,
            rs,
            extra,
        ),
    }
}

proof fn lemma_steps(
    defs: Defs,
    steps: Seq<PipelineStepIR>,
    i: nat,
    bindings: Bindings,
    last: ValueView,
    fuel: nat,
    more: nat,
    rs: Seq<ReplyView>,
    extra: Seq<ReplyView>,
)
    requires
        fuel <= more,
    ensures
        carries_over(
            run_steps(defs, steps, i, bindings, last, fuel, rs),
            run_steps(defs, steps, i, bindings, last, more, rs + extra),
            extra,
        ),
        at_most_chats(run_steps(defs, steps, i, bindings, last, fuel, rs), rs, 0),
    decreases steps.len() - i,
{
    if i < steps.len() {
        let step = steps[i as int];
        let ctx = ValueView::Dict(bindings);
        lemma_call(defs, step.call, ctx, fuel, more, rs, extra);
        if let (Ok(v), rest) = run_call(defs, step.call, ctx, fuel, rs) {
            lemma_steps(
                defs,
                steps,
                i + 1,
                bound(bindings, step.binding, v),
                v,
                fuel,
                more,
                rest,
                extra,
            );
        }
    }
}

/// A run of a pipeline that is settled ends in the same way when it is given more replies and
/// more fuel; one that asks has used all its replies. A pipeline has no chats.
pub proof fn pipeline_carries_over(
    defs: Defs,
    pipeline: PipelineIR,
    input: ValueView,
    fuel: nat,
    more: nat,
    rs: Seq<ReplyView>,
    extra: Seq<ReplyView>,
)
    requires
        fuel <= more,
    ensures
        carries_over(
            run_pipeline(defs, pipeline, input, fuel, rs),
            run_pipeline(defs, pipeline, input, more, rs + extra),
            extra,
        ),
        at_most_chats(run_pipeline(defs, pipeline, input, fuel, rs), rs, 0),
{
    lemma_steps(
        defs,
        pipeline.steps@,
        0,
        start_bindings(input),
        ValueView::Null,
        fuel,
        more,
        rs,
        extra,
    );
}

proof fn lemma_report(
    tools: Map<Seq<char>, &ToolIR>,
    tool: Seq<char>,
    args: ValueView,
    fuel: nat,
    more: nat,
    rs: Seq<ReplyView>,
    extra: Seq<ReplyView>,
)
    requires
        fuel <= more,
    ensures
        carries_over(
            report(tools, tool, args, fuel, rs),
            report(tools, tool, args, more, rs + extra),
            extra,
        ),
        at_most_chats(report(tools, tool, args, fuel, rs), rs, 0),
{
    if tools.dom().contains(tool) {
        tool_carries_over(tools, *tools[tool], args, fuel, more, rs, extra);
        match run_tool(tools, *tools[tool], args, fuel, rs) {
            (Ok(value), rest) => lemma_ask(rest, RequestView::Pretty { value }, extra),
            (Err(StopView::Failed(error)), rest) => lemma_ask(
                rest,
                RequestView::Describe { error },
                extra,
            ),
            _ => {},
        }
    }
}

proof fn lemma_calls(
    tools: Map<Seq<char>, &ToolIR>,
    calls: Seq<ToolCallView>,
    i: nat,
    messages: Seq<ChatMessageView>,
    fuel: nat,
    more: nat,
    rs: Seq<ReplyView>,
    extra: Seq<ReplyView>,
)
    requires
        fuel <= more,
    ensures
        carries_over(
            run_calls(tools, calls, i, messages, fuel, rs),
            run_calls(tools, calls, i, messages, more, rs + extra),
            extra,
        ),
        at_most_chats(run_calls(tools, calls, i, messages, fuel, rs), rs, 0),
    decreases calls.len() - i,
{
    if i < calls.len() {
        let call = calls[i as int];
        if let Ok(args) = arguments_read(
            json_parsed(call.arguments),
            call.name,
            call.arguments,
        ) {
            lemma_report(tools, call.name, args, fuel, more, rs, extra);
            if let (Ok(text), rest) = report(tools, call.name, args, fuel, rs) {
                lemma_calls(
                    tools,
                    calls,
                    i + 1,
                    messages.push(result_message(call.id, text)),
                    fuel,
                    more,
                    rest,
                    extra,
                );
            }
        }
    }
}

proof fn lemma_turns(
    tools: Map<Seq<char>, &ToolIR>,
    agent: Seq<char>,
    offers: Seq<ChatToolDefinitionView>,
    messages: Seq<ChatMessageView>,
    turn: nat,
    max_turns: nat,
    fuel: nat,
    more: nat,
    rs: Seq<ReplyView>,
    extra: Seq<ReplyView>,
)
    requires
        fuel <= more,
    ensures
        carries_over(
            run_turns(tools, agent, offers, messages, turn, max_turns, fuel, rs),
            run_turns(tools, agent, offers, messages, turn, max_turns, more, rs + extra),
            extra,
        ),
        at_most_chats(
            run_turns(tools, agent, offers, messages, turn, max_turns, fuel, rs),
            rs,
            turns_left(turn, max_turns),
        ),
    decreases max_turns - turn,
{
    if turn < max_turns {
        lemma_ask(rs, RequestView::Clock, extra);
        if let (Ok(ReplyView::Clock(started)), rest) = ask(rs, RequestView::Clock) {
            let chat = RequestView::Chat { messages, tools: offers };
            lemma_ask(rest, chat, extra);
            if let (Ok(ReplyView::Chat(Err(error))), rest) = ask(rest, chat) {
                lemma_ask(rest, RequestView::DescribeError { error }, extra);
            }
            if let (Ok(ReplyView::Chat(Ok(response))), rest) = ask(rest, chat) {
                let trace = RequestView::TraceChat {
                    started,
                    span: "llm-"@ + agent + "-turn"@ + decimal(turn + 1),
                    messages,
                    response: response.message,
                };
                lemma_ask(rest, trace, extra);
                if let (Ok(ReplyView::Done), rest) = ask(rest, trace) {
                    if asks_for_tools(response.message) {
                        let calls = response.message.tool_calls->0;
                        let said = messages.push(response.message);
                        lemma_calls(tools, calls, 0, said, fuel, more, rest, extra);
                        if let (Ok(told), rest) = run_calls(tools, calls, 0, said, fuel, rest) {
                            lemma_turns(
                                tools,
                                agent,
                                offers,
                                told,
                                turn + 1,
                                max_turns,
                                fuel,
                                more,
                                rest,
                                extra,
                            );
                        }
                    }
                }
            }
        }
    }
}

proof fn lemma_offers(
    tools: Map<Seq<char>, &ToolIR>,
    types: Map<Seq<char>, &TypeDefIR>,
    names: Seq<String>,
    fuel: nat,
    more: nat,
)
    requires
        fuel <= more,
    ensures
        tools_offered(tools, types, names, fuel) is Some ==> tools_offered(
            tools,
            types,
            names,
            more,
        ) == tools_offered(tools, types, names, fuel),
    decreases names.len(),
{
    if names.len() > 0 {
        lemma_offers(tools, types, names.drop_last(), fuel, more);
        let name = names.last()@;
        if tools.dom().contains(name) {
            more_fuel_same_schema(types, tools[name].input, fuel, more);
        }
    }
}

/// A run of an agent that is settled ends in the same way when it is given more replies and more
/// fuel; one that asks has used all its replies. An agent has at most as many chats as it has
/// turns.
pub proof fn agent_carries_over(
    defs: Defs,
    agent: AgentIR,
    input: ValueView,
    fuel: nat,
    more: nat,
    rs: Seq<ReplyView>,
    extra: Seq<ReplyView>,
)
    requires
        fuel <= more,
    ensures
        carries_over(
            run_agent(defs, agent, input, fuel, rs),
            run_agent(defs, agent, input, more, rs + extra),
            extra,
        ),
        at_most_chats(run_agent(defs, agent, input, fuel, rs), rs, turns_of(agent) as nat),
{
    lemma_resolve(defs.base_path, agent.system, rs, extra);
    if let (Ok(system), rest) = resolve(defs.base_path, agent.system, rs) {
        more_fuel_same_schema(defs.types, agent.output, fuel, more);
        lemma_offers(defs.tools, defs.types, agent.tools@, fuel, more);
        if let (Some(shown), Some(offers)) = (
            example(defs.types, agent.output, fuel),
            tools_offered(defs.tools, defs.types, agent.tools@, fuel),
        ) {
            let pretty = RequestView::Pretty { value: input };
            lemma_ask(rest, pretty, extra);
            if let (Ok(ReplyView::Text(text)), rest) = ask(rest, pretty) {
                lemma_turns(
                    defs.tools,
                    agent.name@,
                    offers,
                    first_messages(system, shown, text),
                    0,
                    turns_of(agent) as nat,
                    fuel,
                    more,
                    rest,
                    extra,
                );
            }
        }
    }
}

} // verus!
