//! Laws of what stands in the body of a tool: loops, branches, matches, pipes and statements.
use vstd::prelude::*;
use vstd::string::*;
use crate::error::InterpreterErrorView;
use crate::expr::eval;
use crate::ir::{ExprIR, LiteralIR, MatchArmIR, StatementIR, ToolExprIR, ToolIR, ToolImplIR, TypeIR};
use crate::laws::expressions::kind_named;
use crate::laws::{fails, gives, stops};
use crate::run::{
    assembled, bound, fields_bound, loop_context, run_arms, run_expr, run_impl, run_items,
    run_loop, run_statements, run_while, start_bindings, Bindings,
};
use crate::session::{ReplyView, StopView};
use crate::shell::run_shell;
use crate::value::{values_equal, ValueView};

verus! {

proof fn lemma_items_from(
    tools: Map<Seq<char>, &ToolIR>,
    variable: Seq<char>,
    items: Seq<ValueView>,
    i: nat,
    others: Seq<ValueView>,
    j: nat,
    body: ToolImplIR,
    last: ValueView,
    ctx: ValueView,
    expected: Option<&TypeIR>,
    fuel: nat,
    rs: Seq<ReplyView>,
)
    requires
        i <= items.len(),
        j <= others.len(),
        items.skip(i as int) == others.skip(j as int),
    ensures
        run_items(tools, variable, items, i, body, last, ctx, expected, fuel, rs) == run_items(
            tools,
            variable,
            others,
            j,
            body,
            last,
            ctx,
            expected,
            fuel,
            rs,
        ),
    decreases items.len() - i,
{
    assert(items.skip(i as int).len() == items.len() - i);
    assert(others.skip(j as int).len() == others.len() - j);
    if i < items.len() {
        assert(items.skip(i as int)[0] == items[i as int]);
        assert(others.skip(j as int)[0] == others[j as int]);
        assert(items.skip(i as int).drop_first() =~= items.skip((i + 1) as int));
        assert(others.skip(j as int).drop_first() =~= others.skip((j + 1) as int));
        let round = run_impl(
            tools,
            body,
            loop_context(ctx, variable, items[i as int]),
            expected,
            fuel,
            rs,
        );
        let kept = match round.0 {
            Ok(v) => v,
            _ => last,
        };
        lemma_items_from(
            tools,
            variable,
            items,
            i + 1,
            others,
            j + 1,
            body,
            kept,
            ctx,
            expected,
            fuel,
            round.1,
        );
    }
}

/// The rounds of a loop over items from a place on are those of a loop over the items from that
/// place on: each item from there is visited, and none before.
pub proof fn loops_go_on_with_the_rest(
    tools: Map<Seq<char>, &ToolIR>,
    variable: Seq<char>,
    items: Seq<ValueView>,
    i: nat,
    body: ToolImplIR,
    last: ValueView,
    ctx: ValueView,
    expected: Option<&TypeIR>,
    fuel: nat,
    rs: Seq<ReplyView>,
)
    requires
        i <= items.len(),
    ensures
        run_items(tools, variable, items, i, body, last, ctx, expected, fuel, rs) == run_items(
            tools,
            variable,
            items.skip(i as int),
            0,
            body,
            last,
            ctx,
            expected,
            fuel,
            rs,
        ),
{
    assert(items.skip(i as int).skip(0) =~= items.skip(i as int));
    lemma_items_from(
        tools,
        variable,
        items,
        i,
        items.skip(i as int),
        0,
        body,
        last,
        ctx,
        expected,
        fuel,
        rs,
    );
}

/// What a loop over an item and others gives, by what its body gives for the item, in a context
/// that has the item under the name of the loop's variable beside what it had. A value is the last
/// value so far when the loop goes on with the others. A break ends the loop with the last value
/// so far. After a continue the loop goes on with the others as if the item had not been there.
/// Any other end is that of the loop. Over no items a loop gives the last value so far.
pub proof fn loops_visit_each_item(
    tools: Map<Seq<char>, &ToolIR>,
    variable: Seq<char>,
    item: ValueView,
    others: Seq<ValueView>,
    body: ToolImplIR,
    last: ValueView,
    ctx: ValueView,
    expected: Option<&TypeIR>,
    fuel: nat,
    rs: Seq<ReplyView>,
)
    ensures
        run_items(
            tools,
            variable,
            Seq::empty(),
            0,
            body,
            last,
            ctx,
            expected,
            fuel,
            rs,
        ) == gives(last, rs),
        ({
            let entries = match ctx {
                ValueView::Dict(m) => m,
                _ => Map::<Seq<char>, ValueView>::empty(),
            };
            let round = run_impl(
                tools,
                body,
                ValueView::Dict(entries.insert(variable, item)),
                expected,
                fuel,
                rs,
            );
            let whole = run_items(
                tools,
                variable,
                seq![item] + others,
                0,
                body,
                last,
                ctx,
                expected,
                fuel,
                rs,
            );
            match round.0 {
                Ok(v) => whole == run_items(
                    tools,
                    variable,
                    others,
                    0,
                    body,
                    v,
                    ctx,
                    expected,
                    fuel,
                    round.1,
                ),
                Err(StopView::Failed(InterpreterErrorView::Break)) => whole == gives(last, round.1),
                Err(StopView::Failed(InterpreterErrorView::Continue)) => whole == run_items(
                    tools,
                    variable,
                    others,
                    0,
                    body,
                    last,
                    ctx,
                    expected,
                    fuel,
                    round.1,
                ),
                Err(s) => whole == stops::<ValueView>(s, round.1),
            }
        }),
{
    let items = seq![item] + others;
    assert(items.skip(1) =~= others);
    let round = run_impl(
        tools,
        body,
        loop_context(ctx, variable, items[0]),
        expected,
        fuel,
        rs,
    );
    let kept = match round.0 {
        Ok(v) => v,
        _ => last,
    };
    loops_go_on_with_the_rest(
        tools,
        variable,
        items,
        1,
        body,
        kept,
        ctx,
        expected,
        fuel,
        round.1,
    );
}

/// A loop goes over the items of the list that its iterable gives, and starts without a value; over
/// anything but a list it fails.
pub proof fn loops_go_over_lists(
    tools: Map<Seq<char>, &ToolIR>,
    variable: String,
    iterable: Box<ToolExprIR>,
    body: Box<ToolImplIR>,
    ctx: ValueView,
    expected: Option<&TypeIR>,
    fuel: nat,
    rs: Seq<ReplyView>,
    kind: Seq<char>,
)
    ensures
        ({
            let over = run_expr(tools, *iterable, ctx, None, fuel, rs);
            let whole = run_expr(
                tools,
                ToolExprIR::For { variable, iterable, body },
                ctx,
                expected,
                fuel + 1,
                rs,
            );
            match over.0 {
                Ok(ValueView::List(items)) => whole == run_items(
                    tools,
                    variable@,
                    items,
                    0,
                    *body,
                    ValueView::Null,
                    ctx,
                    expected,
                    fuel,
                    over.1,
                ),
                Ok(v) => kind_named(v, kind) ==> whole == fails::<ValueView>(
                    InterpreterErrorView::TypeMismatch { expected: "list"@, actual: kind },
                    over.1,
                ),
                Err(s) => whole == stops::<ValueView>(s, over.1),
            }
        }),
{
}

/// Neither a break nor a continue leaves the loop over items that it is in.
pub proof fn loops_keep_break_and_continue(
    tools: Map<Seq<char>, &ToolIR>,
    variable: Seq<char>,
    items: Seq<ValueView>,
    i: nat,
    body: ToolImplIR,
    last: ValueView,
    ctx: ValueView,
    expected: Option<&TypeIR>,
    fuel: nat,
    rs: Seq<ReplyView>,
)
    ensures
        ({
            let end = run_items(tools, variable, items, i, body, last, ctx, expected, fuel, rs).0;
            &&& end != Err::<ValueView, StopView>(StopView::Failed(InterpreterErrorView::Break))
            &&& end != Err::<ValueView, StopView>(StopView::Failed(InterpreterErrorView::Continue))
        }),
    decreases items.len() - i,
{
    if i < items.len() {
        let round = run_impl(
            tools,
            body,
            loop_context(ctx, variable, items[i as int]),
            expected,
            fuel,
            rs,
        );
        let kept = match round.0 {
            Ok(v) => v,
            _ => last,
        };
        loops_keep_break_and_continue(
            tools,
            variable,
            items,
            i + 1,
            body,
            kept,
            ctx,
            expected,
            fuel,
            round.1,
        );
    }
}

/// What a loop with a condition gives: where the condition is anything but true, the last value so
/// far; otherwise its body runs in the same context. After a value or a continue the loop goes on,
/// with that value or with the last one so far; a break ends it with the last value so far; any
/// other end is that of the loop. Each round takes one unit of fuel.
pub proof fn while_goes_on_as_long_as_true(
    tools: Map<Seq<char>, &ToolIR>,
    condition: ExprIR,
    body: ToolImplIR,
    last: ValueView,
    ctx: ValueView,
    expected: Option<&TypeIR>,
    fuel: nat,
    rs: Seq<ReplyView>,
)
    ensures
        ({
            let whole = run_while(tools, condition, body, last, ctx, expected, fuel + 1, rs);
            let test = eval(condition, ctx, rs);
            let round = run_impl(tools, body, ctx, expected, fuel, test.1);
            &&& test.0 matches Err(s) ==> whole == stops::<ValueView>(s, test.1)
            &&& test.0 matches Ok(v) ==> (v != ValueView::Bool(true) ==> whole == gives(
                last,
                test.1,
            ))
            &&& test.0 == Ok::<ValueView, StopView>(ValueView::Bool(true)) ==> match round.0 {
                Ok(v) => whole == run_while(
                    tools,
                    condition,
                    body,
                    v,
                    ctx,
                    expected,
                    fuel,
                    round.1,
                ),
                Err(StopView::Failed(InterpreterErrorView::Break)) => whole == gives(last, round.1),
                Err(StopView::Failed(InterpreterErrorView::Continue)) => whole == run_while(
                    tools,
                    condition,
                    body,
                    last,
                    ctx,
                    expected,
                    fuel,
                    round.1,
                ),
                Err(s) => whole == stops::<ValueView>(s, round.1),
            }
        }),
{
}

/// What a loop without a condition gives, likewise.
pub proof fn loop_goes_on_until_a_break(
    tools: Map<Seq<char>, &ToolIR>,
    body: ToolImplIR,
    last: ValueView,
    ctx: ValueView,
    expected: Option<&TypeIR>,
    fuel: nat,
    rs: Seq<ReplyView>,
)
    ensures
        ({
            let whole = run_loop(tools, body, last, ctx, expected, fuel + 1, rs);
            let round = run_impl(tools, body, ctx, expected, fuel, rs);
            match round.0 {
                Ok(v) => whole == run_loop(tools, body, v, ctx, expected, fuel, round.1),
                Err(StopView::Failed(InterpreterErrorView::Break)) => whole == gives(last, round.1),
                Err(StopView::Failed(InterpreterErrorView::Continue)) => whole == run_loop(
                    tools,
                    body,
                    last,
                    ctx,
                    expected,
                    fuel,
                    round.1,
                ),
                Err(s) => whole == stops::<ValueView>(s, round.1),
            }
        }),
        run_loop(tools, body, last, ctx, expected, fuel, rs).0 is Ok ==> exists|
            at: Seq<ReplyView>,
            less: nat,
        |
            less < fuel && (#[trigger] run_impl(tools, body, ctx, expected, less, at)).0 == Err::<
                ValueView,
                StopView,
            >(StopView::Failed(InterpreterErrorView::Break)),
    decreases fuel,
{
    if fuel > 0 {
        let less = (fuel - 1) as nat;
        let round = run_impl(tools, body, ctx, expected, less, rs);
        if run_loop(tools, body, last, ctx, expected, fuel, rs).0 is Ok {
            match round.0 {
                Ok(v) => {
                    loop_goes_on_until_a_break(tools, body, v, ctx, expected, less, round.1);
                },
                Err(StopView::Failed(InterpreterErrorView::Continue)) => {
                    loop_goes_on_until_a_break(tools, body, last, ctx, expected, less, round.1);
                },
                _ => {},
            }
        }
    }
}

/// Loops with and without a condition start without a value, in the context that they stand in.
pub proof fn loops_start_without_a_value(
    tools: Map<Seq<char>, &ToolIR>,
    condition: ExprIR,
    body: Box<ToolImplIR>,
    ctx: ValueView,
    expected: Option<&TypeIR>,
    fuel: nat,
    rs: Seq<ReplyView>,
)
    ensures
        run_expr(tools, ToolExprIR::While { condition, body }, ctx, expected, fuel + 1, rs)
            == run_while(tools, condition, *body, ValueView::Null, ctx, expected, fuel, rs),
        run_expr(tools, ToolExprIR::Loop { body }, ctx, expected, fuel + 1, rs) == run_loop(
            tools,
            *body,
            ValueView::Null,
            ctx,
            expected,
            fuel,
            rs,
        ),
        run_expr(tools, ToolExprIR::Break, ctx, expected, fuel + 1, rs) == fails::<ValueView>(
            InterpreterErrorView::Break,
            rs,
        ),
        run_expr(tools, ToolExprIR::Continue, ctx, expected, fuel + 1, rs) == fails::<ValueView>(
            InterpreterErrorView::Continue,
            rs,
        ),
{
}

/// A branch takes its first body where its condition is true, and its second otherwise, in the same
/// context and with the same expectation; without a second it gives null.
pub proof fn branches_follow_their_condition(
    tools: Map<Seq<char>, &ToolIR>,
    condition: ExprIR,
    then_branch: Box<ToolImplIR>,
    else_branch: Option<Box<ToolImplIR>>,
    ctx: ValueView,
    expected: Option<&TypeIR>,
    fuel: nat,
    rs: Seq<ReplyView>,
)
    ensures
        ({
            let whole = run_expr(
                tools,
                ToolExprIR::If { condition, then_branch, else_branch },
                ctx,
                expected,
                fuel + 1,
                rs,
            );
            let test = eval(condition, ctx, rs);
            match test.0 {
                Err(s) => whole == stops::<ValueView>(s, test.1),
                Ok(v) => if v == ValueView::Bool(true) {
                    whole == run_impl(tools, *then_branch, ctx, expected, fuel, test.1)
                } else if else_branch is Some {
                    whole == run_impl(tools, *else_branch->0, ctx, expected, fuel, test.1)
                } else {
                    whole == gives(ValueView::Null, test.1)
                },
            }
        }),
{
}

/// The replies that are left once the first `n` patterns were evaluated in order.
pub open spec fn left_after_patterns(
    arms: Seq<MatchArmIR>,
    n: nat,
    ctx: ValueView,
    rs: Seq<ReplyView>,
) -> Seq<ReplyView>
    decreases n,
{
    if n == 0 {
        rs
    } else {
        eval(arms[n - 1].pattern, ctx, left_after_patterns(arms, (n - 1) as nat, ctx, rs)).1
    }
}

proof fn lemma_arms(
    tools: Map<Seq<char>, &ToolIR>,
    arms: Seq<MatchArmIR>,
    i: nat,
    n: nat,
    value: ValueView,
    ctx: ValueView,
    expected: Option<&TypeIR>,
    fuel: nat,
    rs: Seq<ReplyView>,
)
    requires
        i <= n <= arms.len(),
        forall|j: nat|
            i <= j < n ==> ((#[trigger] eval(
                arms[j as int].pattern,
                ctx,
                left_after_patterns(arms, j, ctx, rs),
            )).0 matches Ok(p) && !values_equal(value, p)),
    ensures
        run_arms(
            tools,
            arms,
            i,
            value,
            ctx,
            expected,
            fuel,
            left_after_patterns(arms, i, ctx, rs),
        ) == run_arms(
            tools,
            arms,
            n,
            value,
            ctx,
            expected,
            fuel,
            left_after_patterns(arms, n, ctx, rs),
        ),
    decreases n - i,
{
    if i < n {
        let here = eval(arms[i as int].pattern, ctx, left_after_patterns(arms, i, ctx, rs));
        assert(left_after_patterns(arms, i + 1, ctx, rs) == here.1);
        lemma_arms(tools, arms, i + 1, n, value, ctx, expected, fuel, rs);
    }
}

/// A match runs the body of the first arm whose pattern equals what is matched, and no other, in
/// the context that it stands in; where no pattern does, it gives null.
pub proof fn matches_take_the_first_equal(
    tools: Map<Seq<char>, &ToolIR>,
    scrutinee: Box<ToolExprIR>,
    arms: Vec<MatchArmIR>,
    n: nat,
    value: ValueView,
    ctx: ValueView,
    expected: Option<&TypeIR>,
    fuel: nat,
    rs: Seq<ReplyView>,
)
    requires
        n <= arms@.len(),
        run_expr(tools, *scrutinee, ctx, None, fuel, rs).0 == Ok::<ValueView, StopView>(value),
        ({
            let rest = run_expr(tools, *scrutinee, ctx, None, fuel, rs).1;
            &&& forall|j: nat|
                j < n ==> ((#[trigger] eval(
                    arms@[j as int].pattern,
                    ctx,
                    left_after_patterns(arms@, j, ctx, rest),
                )).0 matches Ok(p) && !values_equal(value, p))
        }),
    ensures
        ({
            let rest = run_expr(tools, *scrutinee, ctx, None, fuel, rs).1;
            let whole = run_expr(
                tools,
                ToolExprIR::Match { scrutinee, arms },
                ctx,
                expected,
                fuel + 1,
                rs,
            );
            let left = left_after_patterns(arms@, n, ctx, rest);
            if n == arms@.len() {
                whole == gives(ValueView::Null, left)
            } else {
                let pattern = eval(arms@[n as int].pattern, ctx, left);
                &&& pattern.0 matches Err(s) ==> whole == stops::<ValueView>(s, pattern.1)
                &&& pattern.0 matches Ok(p) ==> (values_equal(value, p) ==> whole == run_impl(
                    tools,
                    arms@[n as int].body,
                    ctx,
                    expected,
                    fuel,
                    pattern.1,
                ))
            }
        }),
{
    let rest = run_expr(tools, *scrutinee, ctx, None, fuel, rs).1;
    lemma_arms(tools, arms@, 0, n, value, ctx, expected, fuel, rest);
}

/// Without what is to be matched there is no match.
pub proof fn matches_need_a_value(
    tools: Map<Seq<char>, &ToolIR>,
    scrutinee: Box<ToolExprIR>,
    arms: Vec<MatchArmIR>,
    ctx: ValueView,
    expected: Option<&TypeIR>,
    fuel: nat,
    rs: Seq<ReplyView>,
)
    ensures
        run_expr(tools, *scrutinee, ctx, None, fuel, rs).0 is Err ==> run_expr(
            tools,
            ToolExprIR::Match { scrutinee, arms },
            ctx,
            expected,
            fuel + 1,
            rs,
        ) == run_expr(tools, *scrutinee, ctx, None, fuel, rs),
{
}

/// What stands before a pipe runs first, and what it gives is the context of what stands behind,
/// which alone is to give what is expected.
pub proof fn pipes_pass_values_on(
    tools: Map<Seq<char>, &ToolIR>,
    left: Box<ToolExprIR>,
    right: Box<ToolExprIR>,
    ctx: ValueView,
    expected: Option<&TypeIR>,
    fuel: nat,
    rs: Seq<ReplyView>,
)
    ensures
        ({
            let first = run_expr(tools, *left, ctx, None, fuel, rs);
            let whole = run_expr(
                tools,
                ToolExprIR::Pipe { left, right },
                ctx,
                expected,
                fuel + 1,
                rs,
            );
            match first.0 {
                Ok(v) => whole == run_expr(tools, *right, v, expected, fuel, first.1),
                Err(s) => whole == stops::<ValueView>(s, first.1),
            }
        }),
{
}

/// Literals, names, expressions and commands in the body of a tool are what they are elsewhere;
/// what a command is expected to give is what the tool is expected to give.
pub proof fn simple_expressions_are_the_same(
    tools: Map<Seq<char>, &ToolIR>,
    value: LiteralIR,
    name: String,
    expr: ExprIR,
    command: String,
    ctx: ValueView,
    expected: Option<&TypeIR>,
    fuel: nat,
    rs: Seq<ReplyView>,
)
    ensures
        run_expr(tools, ToolExprIR::Literal { value }, ctx, expected, fuel + 1, rs) == eval(
            ExprIR::Literal { value },
            ctx,
            rs,
        ),
        run_expr(tools, ToolExprIR::Ident { name }, ctx, expected, fuel + 1, rs) == eval(
            ExprIR::Ident { name },
            ctx,
            rs,
        ),
        run_expr(tools, ToolExprIR::Expr { expr }, ctx, expected, fuel + 1, rs) == eval(
            expr,
            ctx,
            rs,
        ),
        run_expr(tools, ToolExprIR::Shell { command }, ctx, expected, fuel + 1, rs) == run_shell(
            command@,
            ctx,
            expected,
            rs,
        ),
{
}

/// A field in the body of a tool is the entry or field of that name of what stands before it.
pub proof fn fields_are_entries_in_tools(
    tools: Map<Seq<char>, &ToolIR>,
    base: Box<ToolExprIR>,
    field: String,
    ctx: ValueView,
    expected: Option<&TypeIR>,
    fuel: nat,
    rs: Seq<ReplyView>,
    kind: Seq<char>,
)
    ensures
        ({
            let owner = run_expr(tools, *base, ctx, None, fuel, rs);
            let whole = run_expr(
                tools,
                ToolExprIR::FieldAccess { base, field },
                ctx,
                expected,
                fuel + 1,
                rs,
            );
            match owner.0 {
                Ok(ValueView::Dict(m)) if m.dom().contains(field@) => whole == gives(
                    m[field@],
                    owner.1,
                ),
                Ok(ValueView::Struct { name: _, fields }) if fields.dom().contains(field@) => whole
                    == gives(fields[field@], owner.1),
                Ok(ValueView::Struct { name, fields: _ }) => whole == fails::<ValueView>(
                    InterpreterErrorView::FieldNotFound { owner: name, field: field@ },
                    owner.1,
                ),
                Ok(v) => kind_named(v, kind) ==> whole == fails::<ValueView>(
                    InterpreterErrorView::FieldNotFound { owner: kind, field: field@ },
                    owner.1,
                ),
                Err(s) => whole == stops::<ValueView>(s, owner.1),
            }
        }),
{
}

/// Without fuel nothing runs.
pub proof fn nothing_runs_without_fuel(
    tools: Map<Seq<char>, &ToolIR>,
    e: ToolExprIR,
    body: ToolImplIR,
    condition: ExprIR,
    last: ValueView,
    ctx: ValueView,
    expected: Option<&TypeIR>,
    rs: Seq<ReplyView>,
)
    ensures
        run_while(tools, condition, body, last, ctx, expected, 0, rs) == stops::<ValueView>(
            StopView::OutOfFuel,
            rs,
        ),
        run_loop(tools, body, last, ctx, expected, 0, rs) == stops::<ValueView>(
            StopView::OutOfFuel,
            rs,
        ),
        run_expr(tools, e, ctx, expected, 0, rs) == stops::<ValueView>(StopView::OutOfFuel, rs),
        run_impl(tools, body, ctx, expected, 0, rs) == stops::<ValueView>(StopView::OutOfFuel, rs),
{
}

proof fn lemma_statements_from(
    tools: Map<Seq<char>, &ToolIR>,
    statements: Seq<StatementIR>,
    i: nat,
    others: Seq<StatementIR>,
    j: nat,
    bindings: Bindings,
    last: ValueView,
    fuel: nat,
    rs: Seq<ReplyView>,
)
    requires
        i <= statements.len(),
        j <= others.len(),
        statements.skip(i as int) == others.skip(j as int),
    ensures
        run_statements(tools, statements, i, bindings, last, fuel, rs) == run_statements(
            tools,
            others,
            j,
            bindings,
            last,
            fuel,
            rs,
        ),
    decreases statements.len() - i,
{
    assert(statements.skip(i as int).len() == statements.len() - i);
    assert(others.skip(j as int).len() == others.len() - j);
    if i < statements.len() {
        assert(statements.skip(i as int)[0] == statements[i as int]);
        assert(others.skip(j as int)[0] == others[j as int]);
        assert(statements.skip(i as int).drop_first() =~= statements.skip((i + 1) as int));
        assert(others.skip(j as int).drop_first() =~= others.skip((j + 1) as int));
        let ran = run_expr(
            tools,
            statements[i as int].expr,
            ValueView::Dict(bindings),
            None,
            fuel,
            rs,
        );
        if let Ok(v) = ran.0 {
            let more = bound(bindings, statements[i as int].binding, v);
            lemma_statements_from(
                tools,
                statements,
                i + 1,
                others,
                j + 1,
                more,
                v,
                fuel,
                ran.1,
            );
        }
    }
}

/// A statement and others run in that order. The statement runs in the context of what is bound so
/// far, and nothing is expected of it. Its value is the last value so far, whether or not it is
/// bound, and is bound for the others under the statement's name, where it has one. Where the
/// statement fails, the others do not run. No statements change nothing.
pub proof fn statements_run_in_order(
    tools: Map<Seq<char>, &ToolIR>,
    statement: StatementIR,
    others: Seq<StatementIR>,
    bindings: Bindings,
    last: ValueView,
    fuel: nat,
    rs: Seq<ReplyView>,
)
    ensures
        run_statements(tools, Seq::empty(), 0, bindings, last, fuel, rs) == gives(
            (bindings, last),
            rs,
        ),
        ({
            let first = run_expr(
                tools,
                statement.expr,
                ValueView::Dict(bindings),
                None,
                fuel,
                rs,
            );
            let whole = run_statements(
                tools,
                seq![statement] + others,
                0,
                bindings,
                last,
                fuel,
                rs,
            );
            match first.0 {
                Ok(v) => whole == run_statements(
                    tools,
                    others,
                    0,
                    match statement.binding {
                        Some(name) => bindings.insert(name@, v),
                        None => bindings,
                    },
                    v,
                    fuel,
                    first.1,
                ),
                Err(s) => whole == stops::<(Bindings, ValueView)>(s, first.1),
            }
        }),
{
    let all = seq![statement] + others;
    assert(all.skip(1) =~= others.skip(0));
    let ran = run_expr(tools, statement.expr, ValueView::Dict(bindings), None, fuel, rs);
    if let Ok(v) = ran.0 {
        let more = bound(bindings, statement.binding, v);
        lemma_statements_from(tools, all, 1, others, 0, more, v, fuel, ran.1);
    }
}

/// What is bound at the start of a body: the input, and the entries of the input under their own
/// names, where it is a dictionary.
pub proof fn bodies_start_with_the_input(input: ValueView, name: Seq<char>)
    ensures
        start_bindings(input).dom().contains("input"@),
        start_bindings(input)["input"@] == input,
        name != "input"@ ==> match input {
            ValueView::Dict(m) => {
                &&& start_bindings(input).dom().contains(name) == m.dom().contains(name)
                &&& m.dom().contains(name) ==> start_bindings(input)[name] == m[name]
            },
            _ => !start_bindings(input).dom().contains(name),
        },
{
}

/// A body of statements gives the value of its last statement, but where a struct is expected and
/// some of its fields are bound in the end: then it gives a dictionary of exactly those, with what
/// they are bound to. Parallel statements give the same.
pub proof fn bodies_give_their_last_value_or_fields(
    tools: Map<Seq<char>, &ToolIR>,
    statements: Vec<StatementIR>,
    input: ValueView,
    expected: Option<&TypeIR>,
    fuel: nat,
    rs: Seq<ReplyView>,
)
    ensures
        ({
            let ran = run_statements(
                tools,
                statements@,
                0,
                start_bindings(input),
                ValueView::Null,
                fuel,
                rs,
            );
            let whole = run_impl(
                tools,
                ToolImplIR::Sequence { statements },
                input,
                expected,
                fuel + 1,
                rs,
            );
            &&& whole == run_impl(
                tools,
                ToolImplIR::Parallel { statements },
                input,
                expected,
                fuel + 1,
                rs,
            )
            &&& match ran.0 {
                Err(s) => whole == stops::<ValueView>(s, ran.1),
                Ok((bindings, last)) => {
                    &&& whole.1 == ran.1
                    &&& gives_fields_or_last(expected, bindings, last, whole.0)
                },
            }
        }),
{
    let ran = run_statements(
        tools,
        statements@,
        0,
        start_bindings(input),
        ValueView::Null,
        fuel,
        rs,
    );
    if let (Ok((bindings, last)), _) = ran {
        lemma_fields_or_last(expected, bindings, last);
    }
}

/// Whether a result is what bindings and a last value give: where a struct is expected, and one of
/// its fields is bound, a dictionary of the bound fields and nothing else; otherwise the last
/// value.
pub open spec fn gives_fields_or_last(
    expected: Option<&TypeIR>,
    bindings: Bindings,
    last: ValueView,
    result: Result<ValueView, StopView>,
) -> bool {
    match expected {
        Some(ty) => match *ty {
            TypeIR::Struct { fields } => {
                let is_field = |k: Seq<char>|
                    exists|i: int| 0 <= i < fields@.len() && (#[trigger] fields@[i]).0@ == k;
                if exists|k: Seq<char>| #[trigger] bindings.dom().contains(k) && is_field(k) {
                    result matches Ok(ValueView::Dict(m)) && forall|k: Seq<char>|
                        {
                            &&& #[trigger] m.dom().contains(k) <==> bindings.dom().contains(k)
                                && is_field(k)
                            &&& m.dom().contains(k) ==> m[k] == bindings[k]
                        }
                } else {
                    result == Ok::<ValueView, StopView>(last)
                }
            },
            _ => result == Ok::<ValueView, StopView>(last),
        },
        None => result == Ok::<ValueView, StopView>(last),
    }
}

/// What is put together from bindings and a last value is the bound fields, or that value.
pub proof fn lemma_fields_or_last(expected: Option<&TypeIR>, bindings: Bindings, last: ValueView)
    ensures
        gives_fields_or_last(
            expected,
            bindings,
            last,
            Ok(assembled(expected, bindings, last)),
        ),
{
    if let Some(ty) = expected {
        if let TypeIR::Struct { fields } = *ty {
            let m = fields_bound(bindings, fields@);
            let is_field = |k: Seq<char>|
                exists|i: int| 0 <= i < fields@.len() && (#[trigger] fields@[i]).0@ == k;
            assert forall|k: Seq<char>| #[trigger] m.dom().contains(k) <==> bindings.dom().contains(
                k,
            ) && is_field(k) by {}
            if exists|k: Seq<char>| #[trigger] bindings.dom().contains(k) && is_field(k) {
                let k = choose|k: Seq<char>| #[trigger] bindings.dom().contains(k) && is_field(k);
                assert(m.dom().contains(k));
            } else {
                assert(m =~= Map::<Seq<char>, ValueView>::empty());
            }
        }
    }
}

/// A body that is one expression is that expression, in the context of the input.
pub proof fn bodies_of_one_expression(
    tools: Map<Seq<char>, &ToolIR>,
    expr: ToolExprIR,
    input: ValueView,
    expected: Option<&TypeIR>,
    fuel: nat,
    rs: Seq<ReplyView>,
)
    ensures
        run_impl(tools, ToolImplIR::Expr { expr }, input, expected, fuel + 1, rs) == run_expr(
            tools,
            expr,
            input,
            expected,
            fuel,
            rs,
        ),
{
}

} // verus!
