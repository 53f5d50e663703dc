//! Laws of tools: their conditions, their bodies, their arguments and what is traced of them.
use std::sync::Arc;
use vstd::prelude::*;
use vstd::string::*;
use crate::error::InterpreterErrorView;
use crate::expr::eval;
use crate::ir::{ExprIR, ToolExprIR, ToolIR, TypeIR};
use crate::laws::{asks, fails, gives, stops};
use crate::run::{
    argument_name, check, expression, postconditions, preconditions, replies_for, result_context,
    run_all, run_args, run_expr, run_impl, run_tool, Bindings,
};
use crate::session::{Fault, ReplyView, RequestView, StopView};
use crate::text::decimal;
use crate::value::ValueView;

verus! {

/// Whether the first `n` conditions are true, each on the replies that it gets.
pub open spec fn hold(
    conditions: Seq<Arc<ExprIR>>,
    n: nat,
    ctx: ValueView,
    rs: Seq<ReplyView>,
) -> bool {
    forall|j: nat|
        j < n ==> eval(
            *conditions[j as int],
            ctx,
            #[trigger] replies_for(conditions, 0, j, ctx, rs),
        ).0 == Ok::<ValueView, StopView>(ValueView::Bool(true))
}

proof fn lemma_replies_step(
    conditions: Seq<Arc<ExprIR>>,
    i: nat,
    j: nat,
    ctx: ValueView,
    rs: Seq<ReplyView>,
)
    requires
        i <= j,
    ensures
        replies_for(conditions, i, j + 1, ctx, rs) == eval(
            *conditions[j as int],
            ctx,
            replies_for(conditions, i, j, ctx, rs),
        ).1,
    decreases j - i,
{
    if i < j {
        let rest = eval(expression(conditions[i as int]), ctx, rs).1;
        lemma_replies_step(conditions, i + 1, j, ctx, rest);
    } else {
        reveal_with_fuel(replies_for, 2);
    }
}

proof fn lemma_check(
    conditions: Seq<Arc<ExprIR>>,
    i: nat,
    n: nat,
    before: bool,
    ctx: ValueView,
    rs: Seq<ReplyView>,
)
    requires
        i <= n <= conditions.len(),
        hold(conditions, n, ctx, rs),
    ensures
        check(conditions, i, before, ctx, replies_for(conditions, 0, i, ctx, rs)) == check(
            conditions,
            n,
            before,
            ctx,
            replies_for(conditions, 0, n, ctx, rs),
        ),
    decreases n - i,
{
    if i < n {
        lemma_replies_step(conditions, 0, i, ctx, rs);
        lemma_check(conditions, i + 1, n, before, ctx, rs);
    }
}

/// Where the conditions on the input are true, the body gives a value, and the conditions on that
/// value are true, the tool gives that value, once the host has traced the call: when it started,
/// and the tool's name, input and output.
pub proof fn tools_give_what_their_body_gives(
    tools: Map<Seq<char>, &ToolIR>,
    tool: ToolIR,
    input: ValueView,
    output: ValueView,
    fuel: nat,
    started: u64,
    rs: Seq<ReplyView>,
)
    requires
        tool.implementation is Some,
        rs.len() > 0,
        rs[0] == ReplyView::Clock(started),
        hold(preconditions(tool), preconditions(tool).len(), input, rs.drop_first()),
        ({
            let pre = preconditions(tool);
            let post = postconditions(tool);
            let left = replies_for(pre, 0, pre.len(), input, rs.drop_first());
            let ran = run_impl(
                tools,
                tool.implementation->0,
                input,
                Some(&tool.output),
                fuel,
                left,
            );
            &&& ran.0 == Ok::<ValueView, StopView>(output)
            &&& hold(post, post.len(), result_context(input, output), ran.1)
        }),
    ensures
        ({
            let pre = preconditions(tool);
            let post = postconditions(tool);
            let left = replies_for(pre, 0, pre.len(), input, rs.drop_first());
            let ran = run_impl(
                tools,
                tool.implementation->0,
                input,
                Some(&tool.output),
                fuel,
                left,
            );
            let rest = replies_for(post, 0, post.len(), result_context(input, output), ran.1);
            let whole = run_tool(tools, tool, input, fuel + 1, rs);
            &&& rest.len() == 0 ==> whole == asks::<ValueView>(
                RequestView::TraceTool {
                    started,
                    span: "tool-"@ + tool.name@,
                    tool: tool.name@,
                    input,
                    output,
                },
            )
            &&& rest.len() > 0 && rest[0] is Done ==> whole == gives(output, rest.drop_first())
        }),
{
    let pre = preconditions(tool);
    let post = postconditions(tool);
    lemma_check(pre, 0, pre.len(), true, input, rs.drop_first());
    let left = replies_for(pre, 0, pre.len(), input, rs.drop_first());
    let ran = run_impl(tools, tool.implementation->0, input, Some(&tool.output), fuel, left);
    let ctx = result_context(input, output);
    lemma_check(post, 0, post.len(), false, ctx, ran.1);
    let rest = replies_for(post, 0, post.len(), ctx, ran.1);
    if rest.len() == 0 {
        assert(rest =~= Seq::<ReplyView>::empty());
    }
}

/// The first condition on the input that is anything but true ends the run before the body: the
/// host writes the condition as text, and the error holds the text.
pub proof fn unmet_preconditions_are_the_error(
    tools: Map<Seq<char>, &ToolIR>,
    tool: ToolIR,
    n: nat,
    input: ValueView,
    value: ValueView,
    fuel: nat,
    rs: Seq<ReplyView>,
)
    requires
        rs.len() > 0,
        rs[0] is Clock,
        n < preconditions(tool).len(),
        hold(preconditions(tool), n, input, rs.drop_first()),
        eval(
            *preconditions(tool)[n as int],
            input,
            replies_for(preconditions(tool), 0, n, input, rs.drop_first()),
        ).0 == Ok::<ValueView, StopView>(value),
        value != ValueView::Bool(true),
    ensures
        ({
            let pre = preconditions(tool);
            let rest = replies_for(pre, 0, n + 1, input, rs.drop_first());
            let whole = run_tool(tools, tool, input, fuel + 1, rs);
            &&& rest.len() == 0 ==> whole == asks::<ValueView>(
                RequestView::DescribeExpr { expr: pre[n as int] },
            )
            &&& rest.len() > 0 ==> (rest[0] matches ReplyView::Text(text) ==> whole == fails::<
                ValueView,
            >(InterpreterErrorView::PreconditionFailed(text), rest.drop_first()))
        }),
{
    let pre = preconditions(tool);
    lemma_check(pre, 0, n, true, input, rs.drop_first());
    lemma_replies_step(pre, 0, n, input, rs.drop_first());
    let rest = replies_for(pre, 0, n + 1, input, rs.drop_first());
    if rest.len() == 0 {
        assert(rest =~= Seq::<ReplyView>::empty());
    }
}

/// The first condition on the output that is anything but true ends the run after the body, in the
/// same way.
pub proof fn unmet_postconditions_are_the_error(
    tools: Map<Seq<char>, &ToolIR>,
    tool: ToolIR,
    n: nat,
    input: ValueView,
    output: ValueView,
    value: ValueView,
    fuel: nat,
    rs: Seq<ReplyView>,
)
    requires
        tool.implementation is Some,
        rs.len() > 0,
        rs[0] is Clock,
        hold(preconditions(tool), preconditions(tool).len(), input, rs.drop_first()),
        n < postconditions(tool).len(),
        ({
            let pre = preconditions(tool);
            let post = postconditions(tool);
            let left = replies_for(pre, 0, pre.len(), input, rs.drop_first());
            let ran = run_impl(
                tools,
                tool.implementation->0,
                input,
                Some(&tool.output),
                fuel,
                left,
            );
            let ctx = result_context(input, output);
            &&& ran.0 == Ok::<ValueView, StopView>(output)
            &&& hold(post, n, ctx, ran.1)
            &&& eval(*post[n as int], ctx, replies_for(post, 0, n, ctx, ran.1)).0 == Ok::<
                ValueView,
                StopView,
            >(value)
        }),
        value != ValueView::Bool(true),
    ensures
        ({
            let pre = preconditions(tool);
            let post = postconditions(tool);
            let left = replies_for(pre, 0, pre.len(), input, rs.drop_first());
            let ran = run_impl(
                tools,
                tool.implementation->0,
                input,
                Some(&tool.output),
                fuel,
                left,
            );
            let rest = replies_for(post, 0, n + 1, result_context(input, output), ran.1);
            let whole = run_tool(tools, tool, input, fuel + 1, rs);
            &&& rest.len() == 0 ==> whole == asks::<ValueView>(
                RequestView::DescribeExpr { expr: post[n as int] },
            )
            &&& rest.len() > 0 ==> (rest[0] matches ReplyView::Text(text) ==> whole == fails::<
                ValueView,
            >(InterpreterErrorView::PostconditionFailed(text), rest.drop_first()))
        }),
{
    let pre = preconditions(tool);
    let post = postconditions(tool);
    lemma_check(pre, 0, pre.len(), true, input, rs.drop_first());
    let left = replies_for(pre, 0, pre.len(), input, rs.drop_first());
    let ran = run_impl(tools, tool.implementation->0, input, Some(&tool.output), fuel, left);
    let ctx = result_context(input, output);
    lemma_check(post, 0, n, false, ctx, ran.1);
    lemma_replies_step(post, 0, n, ctx, ran.1);
    let rest = replies_for(post, 0, n + 1, ctx, ran.1);
    if rest.len() == 0 {
        assert(rest =~= Seq::<ReplyView>::empty());
    }
}

/// A body that ends without a value ends the tool in the same way; a tool without a body fails, and
/// says which tool it is. Both only once the conditions on the input were true.
pub proof fn tools_end_as_their_body_does(
    tools: Map<Seq<char>, &ToolIR>,
    tool: ToolIR,
    input: ValueView,
    fuel: nat,
    rs: Seq<ReplyView>,
)
    requires
        rs.len() > 0,
        rs[0] is Clock,
        hold(preconditions(tool), preconditions(tool).len(), input, rs.drop_first()),
    ensures
        ({
            let pre = preconditions(tool);
            let left = replies_for(pre, 0, pre.len(), input, rs.drop_first());
            let whole = run_tool(tools, tool, input, fuel + 1, rs);
            match tool.implementation {
                Some(body) => {
                    let ran = run_impl(tools, body, input, Some(&tool.output), fuel, left);
                    ran.0 is Err ==> whole == ran
                },
                None => whole == fails::<ValueView>(
                    InterpreterErrorView::Runtime(
                        "Tool '"@ + tool.name@ + "' has no implementation"@,
                    ),
                    left,
                ),
            }
        }),
{
    let pre = preconditions(tool);
    lemma_check(pre, 0, pre.len(), true, input, rs.drop_first());
}

/// A condition that has no value ends the run as its evaluation does: one on the input before the
/// body runs, and one on the output after it.
pub proof fn conditions_without_a_value_end_the_run(
    tools: Map<Seq<char>, &ToolIR>,
    tool: ToolIR,
    n: nat,
    input: ValueView,
    output: ValueView,
    stop: StopView,
    fuel: nat,
    rs: Seq<ReplyView>,
)
    requires
        rs.len() > 0,
        rs[0] is Clock,
    ensures
        ({
            let pre = preconditions(tool);
            let here = replies_for(pre, 0, n, input, rs.drop_first());
            n < pre.len() && hold(pre, n, input, rs.drop_first()) && eval(
                *pre[n as int],
                input,
                here,
            ).0 == Err::<ValueView, StopView>(stop) ==> run_tool(
                tools,
                tool,
                input,
                fuel + 1,
                rs,
            ) == stops::<ValueView>(stop, eval(*pre[n as int], input, here).1)
        }),
        ({
            let pre = preconditions(tool);
            let post = postconditions(tool);
            let left = replies_for(pre, 0, pre.len(), input, rs.drop_first());
            let ran = run_impl(
                tools,
                tool.implementation->0,
                input,
                Some(&tool.output),
                fuel,
                left,
            );
            let ctx = result_context(input, output);
            let here = replies_for(post, 0, n, ctx, ran.1);
            tool.implementation is Some && hold(pre, pre.len(), input, rs.drop_first()) && ran.0
                == Ok::<ValueView, StopView>(output) && n < post.len() && hold(post, n, ctx, ran.1)
                && eval(*post[n as int], ctx, here).0 == Err::<ValueView, StopView>(stop)
                ==> run_tool(tools, tool, input, fuel + 1, rs) == stops::<ValueView>(
                stop,
                eval(*post[n as int], ctx, here).1,
            )
        }),
{
    let pre = preconditions(tool);
    let post = postconditions(tool);
    if n < pre.len() && hold(pre, n, input, rs.drop_first()) {
        lemma_check(pre, 0, n, true, input, rs.drop_first());
    }
    if hold(pre, pre.len(), input, rs.drop_first()) && tool.implementation is Some {
        lemma_check(pre, 0, pre.len(), true, input, rs.drop_first());
        let left = replies_for(pre, 0, pre.len(), input, rs.drop_first());
        let ran = run_impl(tools, tool.implementation->0, input, Some(&tool.output), fuel, left);
        let ctx = result_context(input, output);
        if n < post.len() && hold(post, n, ctx, ran.1) {
            lemma_check(post, 0, n, false, ctx, ran.1);
        }
    }
}

/// The conditions on the output speak of the input and the output, and of nothing else.
pub proof fn conditions_speak_of_input_and_output(input: ValueView, output: ValueView)
    ensures
        result_context(input, output) matches ValueView::Dict(m) && {
            &&& forall|k: Seq<char>| #[trigger]
                m.dom().contains(k) <==> k == "input"@ || k == "output"@
            &&& m["input"@] == input
            &&& m["output"@] == output
        },
{
    reveal_strlit("input");
    reveal_strlit("output");
    assert("input"@.len() == 5 && "output"@.len() == 6);
}

/// The conditions on the input are the preconditions that the tool has, and those on the output the
/// postconditions; a tool without a specification has none.
pub proof fn conditions_are_those_of_the_tool(tool: ToolIR)
    ensures
        tool.conditions matches Some(c) ==> preconditions(tool) == c.preconditions@
            && postconditions(tool) == c.postconditions@,
        tool.conditions is None ==> preconditions(tool).len() == 0 && postconditions(tool).len()
            == 0,
{
}

/// A tool asks for the time before anything else, and does not run without fuel.
pub proof fn tools_ask_for_the_time_first(
    tools: Map<Seq<char>, &ToolIR>,
    tool: ToolIR,
    input: ValueView,
    fuel: nat,
    rs: Seq<ReplyView>,
)
    ensures
        run_tool(tools, tool, input, fuel + 1, Seq::empty()) == asks::<ValueView>(
            RequestView::Clock,
        ),
        rs.len() > 0 && !(rs[0] is Clock) ==> run_tool(tools, tool, input, fuel + 1, rs) == stops::<
            ValueView,
        >(StopView::Fault(Fault::UnexpectedReply), rs.drop_first()),
        run_tool(tools, tool, input, 0, rs) == stops::<ValueView>(StopView::OutOfFuel, rs),
{
}

/// The name under which an argument is passed: that of the field of the input at its place, where
/// the input is a struct that has as many; otherwise `arg` and its place, counted from zero.
pub proof fn arguments_are_named_by_fields(input: TypeIR, i: nat)
    ensures
        match input {
            TypeIR::Struct { fields } => {
                &&& i < fields@.len() ==> argument_name(input, i) == fields@[i as int].0@
                &&& i >= fields@.len() ==> argument_name(input, i) == "arg"@ + decimal(i)
            },
            _ => argument_name(input, i) == "arg"@ + decimal(i),
        },
{
}

/// The replies that are left once the first `n` arguments were run in order, with nothing expected
/// of them.
pub open spec fn left_after_args(
    tools: Map<Seq<char>, &ToolIR>,
    args: Seq<ToolExprIR>,
    n: nat,
    ctx: ValueView,
    fuel: nat,
    rs: Seq<ReplyView>,
) -> Seq<ReplyView>
    decreases n,
{
    if n == 0 {
        rs
    } else {
        run_expr(
            tools,
            args[n - 1],
            ctx,
            None,
            fuel,
            left_after_args(tools, args, (n - 1) as nat, ctx, fuel, rs),
        ).1
    }
}

/// What an argument gives when the arguments are run in order.
pub open spec fn argument_end(
    tools: Map<Seq<char>, &ToolIR>,
    args: Seq<ToolExprIR>,
    j: nat,
    ctx: ValueView,
    fuel: nat,
    rs: Seq<ReplyView>,
) -> Result<ValueView, StopView> {
    run_expr(
        tools,
        args[j as int],
        ctx,
        None,
        fuel,
        left_after_args(tools, args, j, ctx, fuel, rs),
    ).0
}

/// Whether bindings are those of the first `n` arguments, each under its name: nothing else is
/// bound, and where several have the same name the last of them is.
pub open spec fn binds_arguments(
    m: Bindings,
    input: TypeIR,
    tools: Map<Seq<char>, &ToolIR>,
    args: Seq<ToolExprIR>,
    n: nat,
    ctx: ValueView,
    fuel: nat,
    rs: Seq<ReplyView>,
) -> bool {
    &&& forall|k: Seq<char>| #[trigger]
        m.dom().contains(k) ==> exists|j: nat| j < n && #[trigger] argument_name(input, j) == k
    &&& forall|j: nat|
        j < n ==> {
            let name = #[trigger] argument_name(input, j);
            &&& m.dom().contains(name)
            &&& (forall|l: nat| j < l < n ==> #[trigger] argument_name(input, l) != name) ==> Ok::<
                ValueView,
                StopView,
            >(m[name]) == argument_end(tools, args, j, ctx, fuel, rs)
        }
}

proof fn lemma_args(
    tools: Map<Seq<char>, &ToolIR>,
    input: TypeIR,
    args: Seq<ToolExprIR>,
    i: nat,
    n: nat,
    done: Bindings,
    ctx: ValueView,
    fuel: nat,
    rs: Seq<ReplyView>,
)
    requires
        i <= n <= args.len(),
        forall|j: nat|
            i <= j < n ==> (#[trigger] argument_end(tools, args, j, ctx, fuel, rs)) is Ok,
        binds_arguments(done, input, tools, args, i, ctx, fuel, rs),
    ensures
        exists|m: Bindings|
            {
                &&& #[trigger] binds_arguments(m, input, tools, args, n, ctx, fuel, rs)
                &&& run_args(
                    tools,
                    input,
                    args,
                    i,
                    done,
                    ctx,
                    fuel,
                    left_after_args(tools, args, i, ctx, fuel, rs),
                ) == run_args(
                    tools,
                    input,
                    args,
                    n,
                    m,
                    ctx,
                    fuel,
                    left_after_args(tools, args, n, ctx, fuel, rs),
                )
            },
    decreases n - i,
{
    if i == n {
        assert(binds_arguments(done, input, tools, args, n, ctx, fuel, rs));
    } else {
        assert(argument_end(tools, args, i, ctx, fuel, rs) is Ok);
        let v = argument_end(tools, args, i, ctx, fuel, rs)->Ok_0;
        let name = argument_name(input, i);
        let more = done.insert(name, v);
        assert(binds_arguments(more, input, tools, args, i + 1, ctx, fuel, rs)) by {
            assert forall|k: Seq<char>| #[trigger] more.dom().contains(k) implies exists|j: nat|
                j < i + 1 && #[trigger] argument_name(input, j) == k by {
                if k == name {
                    assert(argument_name(input, i) == k);
                } else {
                    assert(done.dom().contains(k));
                    let j = choose|j: nat| j < i && #[trigger] argument_name(input, j) == k;
                    assert(argument_name(input, j) == k);
                }
            }
            assert forall|j: nat| j < i + 1 implies {
                let other = #[trigger] argument_name(input, j);
                &&& more.dom().contains(other)
                &&& (forall|l: nat| j < l < i + 1 ==> #[trigger] argument_name(input, l) != other)
                    ==> Ok::<ValueView, StopView>(more[other]) == argument_end(
                    tools,
                    args,
                    j,
                    ctx,
                    fuel,
                    rs,
                )
            } by {
                let other = argument_name(input, j);
                if j < i {
                    if forall|l: nat| j < l < i + 1 ==> #[trigger] argument_name(input, l)
                        != other {
                        assert(argument_name(input, i) != other);
                    }
                }
            }
        }
        lemma_args(tools, input, args, i + 1, n, more, ctx, fuel, rs);
    }
}

/// A call of a registered tool runs the arguments in order, with nothing expected of them, and
/// then the tool, on a dictionary of what they gave under the names that the tool's input gives
/// them. The first argument that fails ends the call. A tool that is not registered is not found,
/// and nothing is run.
pub proof fn tool_calls_pass_arguments(
    tools: Map<Seq<char>, &ToolIR>,
    tool: String,
    args: Vec<ToolExprIR>,
    ctx: ValueView,
    expected: Option<&TypeIR>,
    fuel: nat,
    rs: Seq<ReplyView>,
)
    ensures
        ({
            let whole = run_expr(
                tools,
                ToolExprIR::ToolCall { tool, args },
                ctx,
                expected,
                fuel + 1,
                rs,
            );
            let n = args@.len();
            &&& !tools.dom().contains(tool@) ==> whole == fails::<ValueView>(
                InterpreterErrorView::ToolNotFound(tool@),
                rs,
            )
            &&& tools.dom().contains(tool@) && (forall|j: nat|
                j < n ==> (#[trigger] argument_end(tools, args@, j, ctx, fuel, rs)) is Ok)
                ==> exists|m: Bindings|
                {
                    &&& #[trigger] binds_arguments(
                        m,
                        tools[tool@].input,
                        tools,
                        args@,
                        n,
                        ctx,
                        fuel,
                        rs,
                    )
                    &&& whole == run_tool(
                        tools,
                        *tools[tool@],
                        ValueView::Dict(m),
                        fuel,
                        left_after_args(tools, args@, n, ctx, fuel, rs),
                    )
                }
        }),
{
    let n = args@.len();
    if tools.dom().contains(tool@) && (forall|j: nat|
        j < n ==> (#[trigger] argument_end(tools, args@, j, ctx, fuel, rs)) is Ok) {
        let input = tools[tool@].input;
        let none = Map::<Seq<char>, ValueView>::empty();
        assert(binds_arguments(none, input, tools, args@, 0, ctx, fuel, rs));
        lemma_args(tools, input, args@, 0, n, none, ctx, fuel, rs);
    }
}

/// Where each argument has a value, what is passed is bound to the names of the arguments; the
/// first argument that fails is the failure.
pub proof fn arguments_are_bound_to_their_names(
    tools: Map<Seq<char>, &ToolIR>,
    input: TypeIR,
    args: Seq<ToolExprIR>,
    n: nat,
    ctx: ValueView,
    fuel: nat,
    rs: Seq<ReplyView>,
)
    requires
        n <= args.len(),
        forall|j: nat| j < n ==> (#[trigger] argument_end(tools, args, j, ctx, fuel, rs)) is Ok,
        n < args.len() ==> argument_end(tools, args, n, ctx, fuel, rs) is Err,
    ensures
        ({
            let whole = run_args(tools, input, args, 0, Map::empty(), ctx, fuel, rs);
            if n < args.len() {
                whole == stops::<Bindings>(
                    argument_end(tools, args, n, ctx, fuel, rs)->Err_0,
                    left_after_args(tools, args, n + 1, ctx, fuel, rs),
                )
            } else {
                &&& whole.0 matches Ok(m) && binds_arguments(
                    m,
                    input,
                    tools,
                    args,
                    n,
                    ctx,
                    fuel,
                    rs,
                )
                &&& whole.1 == left_after_args(tools, args, n, ctx, fuel, rs)
            }
        }),
{
    let none = Map::<Seq<char>, ValueView>::empty();
    assert(binds_arguments(none, input, tools, args, 0, ctx, fuel, rs));
    lemma_args(tools, input, args, 0, n, none, ctx, fuel, rs);
}

proof fn lemma_all(
    tools: Map<Seq<char>, &ToolIR>,
    args: Seq<ToolExprIR>,
    i: nat,
    n: nat,
    done: Seq<ValueView>,
    ctx: ValueView,
    fuel: nat,
    rs: Seq<ReplyView>,
)
    requires
        i <= n <= args.len(),
        done.len() == i,
        forall|j: nat|
            j < n ==> (#[trigger] argument_end(tools, args, j, ctx, fuel, rs)) is Ok,
        forall|j: nat|
            j < i ==> #[trigger] argument_end(tools, args, j, ctx, fuel, rs) == Ok::<
                ValueView,
                StopView,
            >(done[j as int]),
    ensures
        run_all(
            tools,
            args,
            i,
            done,
            ctx,
            fuel,
            left_after_args(tools, args, i, ctx, fuel, rs),
        ) == run_all(
            tools,
            args,
            n,
            Seq::new(n, |j: int| argument_end(tools, args, j as nat, ctx, fuel, rs)->Ok_0),
            ctx,
            fuel,
            left_after_args(tools, args, n, ctx, fuel, rs),
        ),
    decreases n - i,
{
    let all = Seq::new(n, |j: int| argument_end(tools, args, j as nat, ctx, fuel, rs)->Ok_0);
    if i == n {
        assert forall|j: int| 0 <= j < n implies done[j] == all[j] by {
            assert(argument_end(tools, args, j as nat, ctx, fuel, rs) == Ok::<ValueView, StopView>(
                done[j],
            ));
        }
        assert(done =~= all);
    } else {
        assert(argument_end(tools, args, i, ctx, fuel, rs) is Ok);
        let v = argument_end(tools, args, i, ctx, fuel, rs)->Ok_0;
        let more = done.push(v);
        assert forall|j: nat| j < i + 1 implies #[trigger] argument_end(
            tools,
            args,
            j,
            ctx,
            fuel,
            rs,
        ) == Ok::<ValueView, StopView>(more[j as int]) by {
            if j < i {
                assert(more[j as int] == done[j as int]);
            }
        }
        lemma_all(tools, args, i + 1, n, more, ctx, fuel, rs);
    }
}

/// A foreign function in the body of a tool is called by the host, with the values of the
/// arguments in their order; its value is the value of the call, and its error is the error. The
/// first argument that fails ends the call.
pub proof fn foreign_calls_in_tools(
    tools: Map<Seq<char>, &ToolIR>,
    module: String,
    function: String,
    args: Vec<ToolExprIR>,
    n: nat,
    ctx: ValueView,
    expected: Option<&TypeIR>,
    fuel: nat,
    rs: Seq<ReplyView>,
)
    requires
        n <= args@.len(),
        forall|j: nat| j < n ==> (#[trigger] argument_end(tools, args@, j, ctx, fuel, rs)) is Ok,
        n < args@.len() ==> argument_end(tools, args@, n, ctx, fuel, rs) is Err,
    ensures
        ({
            let whole = run_expr(
                tools,
                ToolExprIR::ForeignCall { module, function, args },
                ctx,
                expected,
                fuel + 1,
                rs,
            );
            let rest = left_after_args(tools, args@, n, ctx, fuel, rs);
            if n < args@.len() {
                whole == stops::<ValueView>(
                    argument_end(tools, args@, n, ctx, fuel, rs)->Err_0,
                    left_after_args(tools, args@, n + 1, ctx, fuel, rs),
                )
            } else {
                &&& rest.len() == 0 ==> whole == asks::<ValueView>(
                    RequestView::Foreign {
                        module: module@,
                        function: function@,
                        args: Seq::new(
                            n,
                            |j: int| argument_end(tools, args@, j as nat, ctx, fuel, rs)->Ok_0,
                        ),
                    },
                )
                &&& rest.len() > 0 ==> (rest[0] matches ReplyView::Value(r) ==> match r {
                    Ok(v) => whole == gives(v, rest.drop_first()),
                    Err(e) => whole == fails::<ValueView>(e, rest.drop_first()),
                })
            }
        }),
{
    lemma_all(tools, args@, 0, n, Seq::empty(), ctx, fuel, rs);
    let rest = left_after_args(tools, args@, n, ctx, fuel, rs);
    if rest.len() == 0 {
        assert(rest =~= Seq::<ReplyView>::empty());
    }
}

} // verus!
