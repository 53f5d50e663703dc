//! How tools run.
use std::sync::Arc;
use vstd::prelude::*;
use vstd::string::*;
use crate::dict::Dict;
use crate::error::{InterpreterError, InterpreterErrorView};
use crate::executor::ToolExecutor;
use crate::expr::{
    call_foreign, eval, eval_expr, field_of, foreign, get_field, get_value, holds, is_true,
    list_end, literal_to_value, literal_value, or_fail, run_of, variable,
};
use crate::ir::{ExprIR, MatchArmIR, StatementIR, ToolExprIR, ToolIR, ToolImplIR, TypeIR};
use crate::session::{
    ask_clock, ask_done, ask_text, plain_end, value_end, Outcome, ReplyView, Request, RequestView,
    Session, Stop, StopView,
};
use crate::shell::{execute_shell, run_shell, runtime_error};
use crate::text::{decimal, decimal_text};
use crate::value::{
    copy_dict, dict_view, kind_of, lemma_list_view, list_view, look_up, no_entries, put,
    values_equal, Value, ValueView,
};

verus! {

/// Names and what they are bound to.
pub type Bindings = Map<Seq<char>, ValueView>;

/// What is bound at the start of a body: the entries of the input, where it is a dictionary, and
/// the input itself.
pub open spec fn start_bindings(input: ValueView) -> Bindings {
    match input {
        ValueView::Dict(m) => m.insert("input"@, input),
        _ => Map::<Seq<char>, ValueView>::empty().insert("input"@, input),
    }
}

/// Whether a struct has a field of a name.
pub open spec fn has_field(fields: Seq<(String, TypeIR)>, name: Seq<char>) -> bool {
    exists|i: int| 0 <= i < fields.len() && (#[trigger] fields[i]).0@ == name
}

/// The bindings whose names are fields of a struct.
pub open spec fn fields_bound(bindings: Bindings, fields: Seq<(String, TypeIR)>) -> Bindings {
    Map::new(
        |k: Seq<char>| bindings.dom().contains(k) && has_field(fields, k),
        |k: Seq<char>| bindings[k],
    )
}

/// What a body gives: where a struct is expected, the bindings that are its fields, if there is
/// any; otherwise its last value.
pub open spec fn assembled(
    expected: Option<&TypeIR>,
    bindings: Bindings,
    last: ValueView,
) -> ValueView {
    match expected {
        Some(ty) => match *ty {
            TypeIR::Struct { fields } => if fields_bound(bindings, fields@) == Map::<
                Seq<char>,
                ValueView,
            >::empty() {
                last
            } else {
                ValueView::Dict(fields_bound(bindings, fields@))
            },
            _ => last,
        },
        None => last,
    }
}

/// The name under which the `i`-th argument is passed: that of the input's `i`-th field, where
/// the input is a struct with as many fields.
pub open spec fn argument_name(input: TypeIR, i: nat) -> Seq<char> {
    match input {
        TypeIR::Struct { fields } if i < fields@.len() => fields@[i as int].0@,
        _ => "arg"@ + decimal(i),
    }
}

/// The context of a loop's body.
pub open spec fn loop_context(
    ctx: ValueView,
    variable: Seq<char>,
    item: ValueView,
) -> ValueView {
    match ctx {
        ValueView::Dict(m) => ValueView::Dict(m.insert(variable, item)),
        _ => ValueView::Dict(Map::<Seq<char>, ValueView>::empty().insert(variable, item)),
    }
}

/// The expression that a condition is.
pub open spec fn expression(condition: Arc<ExprIR>) -> ExprIR {
    *condition
}

/// The end of a run one of whose conditions is not true: the error holds the condition as text,
/// and says whether it was to hold before the run or after it.
pub open spec fn condition_failure(
    condition: Arc<ExprIR>,
    before: bool,
    rs: Seq<ReplyView>,
) -> Outcome<()> {
    match ask_text(rs, RequestView::DescribeExpr { expr: condition }) {
        (Ok(text), rest) => (
            Err(
                StopView::Failed(
                    if before {
                        InterpreterErrorView::PreconditionFailed(text)
                    } else {
                        InterpreterErrorView::PostconditionFailed(text)
                    },
                ),
            ),
            rest,
        ),
        (Err(s), rest) => (Err(s), rest),
    }
}

/// The conditions from the `i`-th on, in order: the first that is not true fails.
pub open spec fn check(
    conditions: Seq<Arc<ExprIR>>,
    i: nat,
    before: bool,
    ctx: ValueView,
    rs: Seq<ReplyView>,
) -> Outcome<()>
    decreases conditions.len() - i,
{
    if i >= conditions.len() {
        (Ok(()), rs)
    } else {
        match eval(expression(conditions[i as int]), ctx, rs) {
            (Ok(v), rest) => if is_true(v) {
                check(conditions, i + 1, before, ctx, rest)
            } else {
                condition_failure(conditions[i as int], before, rest)
            },
            (Err(s), rest) => (Err(s), rest),
        }
    }
}

/// What is to hold before a tool runs.
pub open spec fn preconditions(tool: ToolIR) -> Seq<Arc<ExprIR>> {
    match tool.conditions {
        Some(c) => c.preconditions@,
        None => Seq::empty(),
    }
}

/// What is to hold after a tool ran.
pub open spec fn postconditions(tool: ToolIR) -> Seq<Arc<ExprIR>> {
    match tool.conditions {
        Some(c) => c.postconditions@,
        None => Seq::empty(),
    }
}

/// The context of the conditions on what a tool gave.
pub open spec fn result_context(input: ValueView, output: ValueView) -> ValueView {
    ValueView::Dict(
        Map::<Seq<char>, ValueView>::empty().insert("output"@, output).insert("input"@, input),
    )
}

/// What is left to do once the body of a tool gave a value: the conditions on it, and the trace.
pub open spec fn finish(
    tool: ToolIR,
    started: u64,
    input: ValueView,
    output: ValueView,
    rs: Seq<ReplyView>,
) -> Outcome<ValueView> {
    match check(postconditions(tool), 0, false, result_context(input, output), rs) {
        (Ok(_), rest) => match ask_done(
            rest,
            RequestView::TraceTool {
                started,
                span: "tool-"@ + tool.name@,
                tool: tool.name@,
                input,
                output,
            },
        ) {
            (Ok(_), rest) => (Ok(output), rest),
            (Err(s), rest) => (Err(s), rest),
        },
        (Err(s), rest) => (Err(s), rest),
    }
}

/// A tool. Its conditions on the input hold, or it does not run; it has a body, or it fails;
/// and its conditions on the output hold, or it fails.
///
/// Fuel bounds how deep a run goes: each step into a tool, a body or an expression takes one
/// unit, and so does each round of a loop without a bound of its own.
pub open spec fn run_tool(
    tools: Map<Seq<char>, &ToolIR>,
    tool: ToolIR,
    input: ValueView,
    fuel: nat,
    rs: Seq<ReplyView>,
) -> Outcome<ValueView>
    decreases fuel, 0nat,
{
    if fuel == 0 {
        (Err(StopView::OutOfFuel), rs)
    } else {
        match ask_clock(rs, RequestView::Clock) {
            (Ok(started), rest) => match check(preconditions(tool), 0, true, input, rest) {
                (Ok(_), rest) => match tool.implementation {
                    Some(body) => match run_impl(
                        tools,
                        body,
                        input,
                        Some(&tool.output),
                        (fuel - 1) as nat,
                        rest,
                    ) {
                        (Ok(output), rest) => finish(tool, started, input, output, rest),
                        (Err(s), rest) => (Err(s), rest),
                    },
                    None => (
                        Err(runtime_error("Tool '"@ + tool.name@ + "' has no implementation"@)),
                        rest,
                    ),
                },
                (Err(s), rest) => (Err(s), rest),
            },
            (Err(s), rest) => (Err(s), rest),
        }
    }
}

/// The body of a tool. Parallel statements run one after another.
pub open spec fn run_impl(
    tools: Map<Seq<char>, &ToolIR>,
    body: ToolImplIR,
    input: ValueView,
    expected: Option<&TypeIR>,
    fuel: nat,
    rs: Seq<ReplyView>,
) -> Outcome<ValueView>
    decreases fuel, 0nat,
{
    if fuel == 0 {
        (Err(StopView::OutOfFuel), rs)
    } else {
        match body {
            ToolImplIR::Expr { expr } => run_expr(
                tools,
                expr,
                input,
                expected,
                (fuel - 1) as nat,
                rs,
            ),
            ToolImplIR::Sequence { statements } => match run_statements(
                tools,
                statements@,
                0,
                start_bindings(input),
                ValueView::Null,
                (fuel - 1) as nat,
                rs,
            ) {
                (Ok((bindings, last)), rest) => (Ok(assembled(expected, bindings, last)), rest),
                (Err(s), rest) => (Err(s), rest),
            },
            ToolImplIR::Parallel { statements } => match run_statements(
                tools,
                statements@,
                0,
                start_bindings(input),
                ValueView::Null,
                (fuel - 1) as nat,
                rs,
            ) {
                (Ok((bindings, last)), rest) => (Ok(assembled(expected, bindings, last)), rest),
                (Err(s), rest) => (Err(s), rest),
            },
        }
    }
}

/// What is bound once a statement gave a value.
pub open spec fn bound(bindings: Bindings, binding: Option<String>, v: ValueView) -> Bindings {
    match binding {
        Some(name) => bindings.insert(name@, v),
        None => bindings,
    }
}

/// The statements from the `i`-th on, each in the context of what is bound so far: what is bound
/// in the end, and the last value.
pub open spec fn run_statements(
    tools: Map<Seq<char>, &ToolIR>,
    statements: Seq<StatementIR>,
    i: nat,
    bindings: Bindings,
    last: ValueView,
    fuel: nat,
    rs: Seq<ReplyView>,
) -> Outcome<(Bindings, ValueView)>
    decreases fuel, 1 + statements.len() - i,
{
    if i >= statements.len() {
        (Ok((bindings, last)), rs)
    } else {
        match run_expr(
            tools,
            statements[i as int].expr,
            ValueView::Dict(bindings),
            None,
            fuel,
            rs,
        ) {
            (Ok(v), rest) => run_statements(
                tools,
                statements,
                i + 1,
                bound(bindings, statements[i as int].binding, v),
                v,
                fuel,
                rest,
            ),
            (Err(s), rest) => (Err(s), rest),
        }
    }
}

/// The arguments from the `i`-th on, in order, after those before.
pub open spec fn run_all(
    tools: Map<Seq<char>, &ToolIR>,
    args: Seq<ToolExprIR>,
    i: nat,
    done: Seq<ValueView>,
    ctx: ValueView,
    fuel: nat,
    rs: Seq<ReplyView>,
) -> Outcome<Seq<ValueView>>
    decreases fuel, 1 + args.len() - i,
{
    if i >= args.len() {
        (Ok(done), rs)
    } else {
        match run_expr(tools, args[i as int], ctx, None, fuel, rs) {
            (Ok(v), rest) => run_all(tools, args, i + 1, done.push(v), ctx, fuel, rest),
            (Err(s), rest) => (Err(s), rest),
        }
    }
}

/// The arguments from the `i`-th on, in order, under the names that an input type gives them,
/// after those before.
pub open spec fn run_args(
    tools: Map<Seq<char>, &ToolIR>,
    input: TypeIR,
    args: Seq<ToolExprIR>,
    i: nat,
    done: Bindings,
    ctx: ValueView,
    fuel: nat,
    rs: Seq<ReplyView>,
) -> Outcome<Bindings>
    decreases fuel, 1 + args.len() - i,
{
    if i >= args.len() {
        (Ok(done), rs)
    } else {
        match run_expr(tools, args[i as int], ctx, None, fuel, rs) {
            (Ok(v), rest) => run_args(
                tools,
                input,
                args,
                i + 1,
                done.insert(argument_name(input, i), v),
                ctx,
                fuel,
                rest,
            ),
            (Err(s), rest) => (Err(s), rest),
        }
    }
}

/// The arms of a match from the `i`-th on: the body of the first whose pattern equals the value,
/// and null where there is none.
pub open spec fn run_arms(
    tools: Map<Seq<char>, &ToolIR>,
    arms: Seq<MatchArmIR>,
    i: nat,
    value: ValueView,
    ctx: ValueView,
    expected: Option<&TypeIR>,
    fuel: nat,
    rs: Seq<ReplyView>,
) -> Outcome<ValueView>
    decreases fuel, 1 + arms.len() - i,
{
    if i >= arms.len() {
        (Ok(ValueView::Null), rs)
    } else {
        match eval(arms[i as int].pattern, ctx, rs) {
            (Ok(pattern), rest) => if values_equal(value, pattern) {
                run_impl(tools, arms[i as int].body, ctx, expected, fuel, rest)
            } else {
                run_arms(tools, arms, i + 1, value, ctx, expected, fuel, rest)
            },
            (Err(s), rest) => (Err(s), rest),
        }
    }
}

/// The rounds of a loop over items from the `i`-th on: the value of the last round that was not
/// left early.
pub open spec fn run_items(
    tools: Map<Seq<char>, &ToolIR>,
    variable: Seq<char>,
    items: Seq<ValueView>,
    i: nat,
    body: ToolImplIR,
    last: ValueView,
    ctx: ValueView,
    expected: Option<&TypeIR>,
    fuel: nat,
    rs: Seq<ReplyView>,
) -> Outcome<ValueView>
    decreases fuel, 1 + items.len() - i,
{
    if i >= items.len() {
        (Ok(last), rs)
    } else {
        match run_impl(
            tools,
            body,
            loop_context(ctx, variable, items[i as int]),
            expected,
            fuel,
            rs,
        ) {
            (Ok(v), rest) => run_items(
                tools,
                variable,
                items,
                i + 1,
                body,
                v,
                ctx,
                expected,
                fuel,
                rest,
            ),
            (Err(StopView::Failed(InterpreterErrorView::Break)), rest) => (Ok(last), rest),
            (Err(StopView::Failed(InterpreterErrorView::Continue)), rest) => run_items(
                tools,
                variable,
                items,
                i + 1,
                body,
                last,
                ctx,
                expected,
                fuel,
                rest,
            ),
            (Err(s), rest) => (Err(s), rest),
        }
    }
}

/// The rounds of a loop that goes on while a condition is true: the value of the last round that
/// was not left early.
pub open spec fn run_while(
    tools: Map<Seq<char>, &ToolIR>,
    condition: ExprIR,
    body: ToolImplIR,
    last: ValueView,
    ctx: ValueView,
    expected: Option<&TypeIR>,
    fuel: nat,
    rs: Seq<ReplyView>,
) -> Outcome<ValueView>
    decreases fuel, 0nat,
{
    if fuel == 0 {
        (Err(StopView::OutOfFuel), rs)
    } else {
        let less = (fuel - 1) as nat;
        match eval(condition, ctx, rs) {
            (Ok(v), rest) => if !is_true(v) {
                (Ok(last), rest)
            } else {
                match run_impl(tools, body, ctx, expected, less, rest) {
                    (Ok(v), rest) => run_while(
                        tools,
                        condition,
                        body,
                        v,
                        ctx,
                        expected,
                        less,
                        rest,
                    ),
                    (Err(StopView::Failed(InterpreterErrorView::Break)), rest) => (Ok(last), rest),
                    (Err(StopView::Failed(InterpreterErrorView::Continue)), rest) => run_while(
                        tools,
                        condition,
                        body,
                        last,
                        ctx,
                        expected,
                        less,
                        rest,
                    ),
                    (Err(s), rest) => (Err(s), rest),
                }
            },
            (Err(s), rest) => (Err(s), rest),
        }
    }
}

/// The rounds of a loop that only a break ends: the value of the last round that was not left
/// early.
pub open spec fn run_loop(
    tools: Map<Seq<char>, &ToolIR>,
    body: ToolImplIR,
    last: ValueView,
    ctx: ValueView,
    expected: Option<&TypeIR>,
    fuel: nat,
    rs: Seq<ReplyView>,
) -> Outcome<ValueView>
    decreases fuel, 0nat,
{
    if fuel == 0 {
        (Err(StopView::OutOfFuel), rs)
    } else {
        let less = (fuel - 1) as nat;
        match run_impl(tools, body, ctx, expected, less, rs) {
            (Ok(v), rest) => run_loop(tools, body, v, ctx, expected, less, rest),
            (Err(StopView::Failed(InterpreterErrorView::Break)), rest) => (Ok(last), rest),
            (Err(StopView::Failed(InterpreterErrorView::Continue)), rest) => run_loop(
                tools,
                body,
                last,
                ctx,
                expected,
                less,
                rest,
            ),
            (Err(s), rest) => (Err(s), rest),
        }
    }
}

/// An expression in the body of a tool.
pub open spec fn run_expr(
    tools: Map<Seq<char>, &ToolIR>,
    e: ToolExprIR,
    ctx: ValueView,
    expected: Option<&TypeIR>,
    fuel: nat,
    rs: Seq<ReplyView>,
) -> Outcome<ValueView>
    decreases fuel, 0nat,
{
    if fuel == 0 {
        (Err(StopView::OutOfFuel), rs)
    } else {
        let less = (fuel - 1) as nat;
        match e {
            ToolExprIR::Ident { name } => (or_fail(variable(ctx, name@)), rs),
            ToolExprIR::FieldAccess { base, field } => match run_expr(
                tools,
                *base,
                ctx,
                None,
                less,
                rs,
            ) {
                (Ok(v), rest) => (or_fail(field_of(v, field@)), rest),
                (Err(s), rest) => (Err(s), rest),
            },
            ToolExprIR::Literal { value } => (Ok(literal_value(value)), rs),
            ToolExprIR::Shell { command } => run_shell(command@, ctx, expected, rs),
            ToolExprIR::ForeignCall { module, function, args } => match run_all(
                tools,
                args@,
                0,
                Seq::empty(),
                ctx,
                less,
                rs,
            ) {
                (Ok(vs), rest) => foreign(module@, function@, vs, rest),
                (Err(s), rest) => (Err(s), rest),
            },
            ToolExprIR::ToolCall { tool, args } => if tools.dom().contains(tool@) {
                match run_args(
                    tools,
                    tools[tool@].input,
                    args@,
                    0,
                    Map::empty(),
                    ctx,
                    less,
                    rs,
                ) {
                    (Ok(m), rest) => run_tool(
                        tools,
                        *tools[tool@],
                        ValueView::Dict(m),
                        less,
                        rest,
                    ),
                    (Err(s), rest) => (Err(s), rest),
                }
            } else {
                (Err(StopView::Failed(InterpreterErrorView::ToolNotFound(tool@))), rs)
            },
            ToolExprIR::Pipe { left, right } => match run_expr(tools, *left, ctx, None, less, rs) {
                (Ok(v), rest) => run_expr(tools, *right, v, expected, less, rest),
                (Err(s), rest) => (Err(s), rest),
            },
            ToolExprIR::If { condition, then_branch, else_branch } => match eval(
                condition,
                ctx,
                rs,
            ) {
                (Ok(v), rest) => if is_true(v) {
                    run_impl(tools, *then_branch, ctx, expected, less, rest)
                } else {
                    match else_branch {
                        Some(body) => run_impl(tools, *body, ctx, expected, less, rest),
                        None => (Ok(ValueView::Null), rest),
                    }
                },
                (Err(s), rest) => (Err(s), rest),
            },
            ToolExprIR::Match { scrutinee, arms } => match run_expr(
                tools,
                *scrutinee,
                ctx,
                None,
                less,
                rs,
            ) {
                (Ok(v), rest) => run_arms(tools, arms@, 0, v, ctx, expected, less, rest),
                (Err(s), rest) => (Err(s), rest),
            },
            ToolExprIR::For { variable, iterable, body } => match run_expr(
                tools,
                *iterable,
                ctx,
                None,
                less,
                rs,
            ) {
                (Ok(ValueView::List(items)), rest) => run_items(
                    tools,
                    variable@,
                    items,
                    0,
                    *body,
                    ValueView::Null,
                    ctx,
                    expected,
                    less,
                    rest,
                ),
                (Ok(v), rest) => (
                    Err(
                        StopView::Failed(
                            InterpreterErrorView::TypeMismatch {
                                expected: "list"@,
                                actual: kind_of(v),
                            },
                        ),
                    ),
                    rest,
                ),
                (Err(s), rest) => (Err(s), rest),
            },
            ToolExprIR::While { condition, body } => run_while(
                tools,
                condition,
                *body,
                ValueView::Null,
                ctx,
                expected,
                less,
                rs,
            ),
            ToolExprIR::Loop { body } => run_loop(
                tools,
                *body,
                ValueView::Null,
                ctx,
                expected,
                less,
                rs,
            ),
            ToolExprIR::Break => (Err(StopView::Failed(InterpreterErrorView::Break)), rs),
            ToolExprIR::Continue => (Err(StopView::Failed(InterpreterErrorView::Continue)), rs),
            ToolExprIR::Expr { expr } => eval(expr, ctx, rs),
        }
    }
}

/// What is bound at the start of a body.
pub fn bindings_of(input: &Value) -> (r: Dict<Value>)
    ensures
        dict_view(r) == start_bindings(input@),
{
    let mut r = match input {
        Value::Dict(m) => copy_dict(m),
        _ => no_entries(),
    };
    put(&mut r, "input".to_string(), input.copy());
    r
}

/// The bindings whose names are fields of a struct.
fn bound_fields(bindings: &Dict<Value>, fields: &Vec<(String, TypeIR)>) -> (r: Dict<Value>)
    ensures
        dict_view(r) == fields_bound(dict_view(*bindings), fields@),
{
    let mut out = no_entries();
    let mut i: usize = 0;
    assert(dict_view(out) =~= fields_bound(dict_view(*bindings), fields@.take(0)));
    while i < fields.len()
        invariant
            i <= fields@.len(),
            dict_view(out) == fields_bound(dict_view(*bindings), fields@.take(i as int)),
        decreases fields@.len() - i,
    {
        let ghost bs = dict_view(*bindings);
        let ghost name = fields@[i as int].0@;
        proof {
            let before = fields@.take(i as int);
            let after = fields@.take(i + 1);
            assert(after[i as int].0@ == name);
            assert forall|k: Seq<char>| has_field(after, k) <==> has_field(before, k) || k
                == name by {
                if has_field(before, k) {
                    let j = choose|j: int|
                        0 <= j < before.len() && (#[trigger] before[j]).0@ == k;
                    assert(after[j].0@ == k);
                }
                if has_field(after, k) && k != name {
                    let j = choose|j: int| 0 <= j < after.len() && (#[trigger] after[j]).0@ == k;
                    assert(before[j].0@ == k);
                }
            }
            if bs.dom().contains(name) {
                assert(fields_bound(bs, after) =~= fields_bound(bs, before).insert(name, bs[name]));
            } else {
                assert(fields_bound(bs, after) =~= fields_bound(bs, before));
            }
        }
        if let Some(v) = look_up(bindings, &fields[i].0) {
            put(&mut out, fields[i].0.clone(), v.copy());
        }
        i = i + 1;
    }
    assert(fields@.take(fields@.len() as int) =~= fields@);
    out
}

/// Whether nothing is bound.
fn nothing_bound(d: &Dict<Value>) -> (r: bool)
    ensures
        r == (dict_view(*d) == Map::<Seq<char>, ValueView>::empty()),
{
    proof {
        crate::value::lemma_dict_view(*d);
        if d@ == Map::<Seq<char>, Value>::empty() {
            assert(dict_view(*d) =~= Map::<Seq<char>, ValueView>::empty());
        } else {
            assert(dict_view(*d).dom() =~= d@.dom());
            if dict_view(*d) == Map::<Seq<char>, ValueView>::empty() {
                assert(d@ =~= Map::<Seq<char>, Value>::empty());
            }
        }
    }
    d.is_empty()
}

/// What a body gives.
pub fn assemble(expected: Option<&TypeIR>, bindings: &Dict<Value>, last: Value) -> (r: Value)
    ensures
        r@ == assembled(expected, dict_view(*bindings), last@),
{
    if let Some(TypeIR::Struct { fields }) = expected {
        let out = bound_fields(bindings, fields);
        if !nothing_bound(&out) {
            return Value::Dict(out);
        }
    }
    last
}

/// The name under which an argument is passed.
pub fn name_of_argument(input: &TypeIR, i: usize) -> (r: String)
    ensures
        r@ == argument_name(*input, i as nat),
{
    if let TypeIR::Struct { fields } = input {
        if i < fields.len() {
            return fields[i].0.clone();
        }
    }
    "arg".to_string().concat(decimal_text(i as u64).as_str())
}

/// The context of a loop's body.
fn context_of_round(ctx: &Value, variable: &String, item: Value) -> (r: Value)
    ensures
        r@ == loop_context(ctx@, variable@, item@),
{
    let mut m = match ctx {
        Value::Dict(m) => copy_dict(m),
        _ => no_entries(),
    };
    put(&mut m, variable.clone(), item);
    Value::Dict(m)
}

/// Why a run ends one of whose conditions is not true.
fn fail_condition(condition: &Arc<ExprIR>, before: bool, session: &mut Session) -> (r: Stop)
    ensures
        (Err::<(), StopView>(r@), final(session)@) == condition_failure(
            *condition,
            before,
            old(session)@,
        ),
{
    match session.ask_text(Request::DescribeExpr { expr: condition.clone() }) {
        Ok(text) => Stop::Failed(
            if before {
                InterpreterError::PreconditionFailed(text)
            } else {
                InterpreterError::PostconditionFailed(text)
            },
        ),
        Err(s) => s,
    }
}

/// The conditions, in order.
fn check_all(conditions: &Vec<Arc<ExprIR>>, before: bool, ctx: &Value, session: &mut Session) -> (r:
    Result<(), Stop>)
    ensures
        (plain_end(r), final(session)@) == check(conditions@, 0, before, ctx@, old(session)@),
{
    let mut i: usize = 0;
    while i < conditions.len()
        invariant
            i <= conditions@.len(),
            check(conditions@, 0, before, ctx@, old(session)@) == check(
                conditions@,
                i as nat,
                before,
                ctx@,
                session@,
            ),
        decreases conditions@.len() - i,
    {
        match eval_expr(&*conditions[i], ctx, session) {
            Ok(v) => if !holds(&v) {
                return Err(fail_condition(&conditions[i], before, session));
            },
            Err(s) => {
                return Err(s);
            },
        }
        i = i + 1;
    }
    Ok(())
}

/// The conditions on the input of a tool.
fn check_before(tool: &ToolIR, input: &Value, session: &mut Session) -> (r: Result<(), Stop>)
    ensures
        (plain_end(r), final(session)@) == check(
            preconditions(*tool),
            0,
            true,
            input@,
            old(session)@,
        ),
{
    match &tool.conditions {
        Some(c) => check_all(&c.preconditions, true, input, session),
        None => Ok(()),
    }
}

/// What is left to do once the body of a tool gave a value.
fn finish_tool(
    tool: &ToolIR,
    started: u64,
    input: Value,
    output: Value,
    session: &mut Session,
) -> (r: Result<Value, Stop>)
    ensures
        (value_end(r), final(session)@) == finish(
            *tool,
            started,
            input@,
            output@,
            old(session)@,
        ),
{
    if let Some(c) = &tool.conditions {
        let mut m = no_entries();
        put(&mut m, "output".to_string(), output.copy());
        put(&mut m, "input".to_string(), input.copy());
        let ctx = Value::Dict(m);
        match check_all(&c.postconditions, false, &ctx, session) {
            Ok(_) => {},
            Err(s) => {
                return Err(s);
            },
        }
    }
    let request = Request::TraceTool {
        started,
        span: "tool-".to_string().concat(tool.name.as_str()),
        tool: tool.name.clone(),
        input,
        output: output.copy(),
    };
    match session.ask_done(request) {
        Ok(_) => Ok(output),
        Err(s) => Err(s),
    }
}

/// What came of a run that gives bindings and a value.
pub open spec fn body_end(r: Result<(Dict<Value>, Value), Stop>) -> Result<
    (Bindings, ValueView),
    StopView,
> {
    match r {
        Ok((d, v)) => Ok((dict_view(d), v@)),
        Err(s) => Err(s@),
    }
}

/// What came of a run that gives bindings.
pub open spec fn bindings_end(r: Result<Dict<Value>, Stop>) -> Result<Bindings, StopView> {
    match r {
        Ok(d) => Ok(dict_view(d)),
        Err(s) => Err(s@),
    }
}

impl<'p, R> ToolExecutor<'p, R> {
    /// Runs a tool.
    pub fn execute(&self, tool: &ToolIR, input: Value, fuel: u64, session: &mut Session) -> (r:
        Result<Value, Stop>)
        ensures
            (value_end(r), final(session)@) == run_tool(
                self@.tools,
                *tool,
                input@,
                fuel as nat,
                old(session)@,
            ),
        decreases fuel, 0nat,
    {
        if fuel == 0 {
            return Err(Stop::OutOfFuel);
        }
        let started: u64 = match session.ask_clock(Request::Clock) {
            Ok(t) => t,
            Err(s) => {
                return Err(s);
            },
        };
        match check_before(tool, &input, session) {
            Ok(_) => {},
            Err(s) => {
                return Err(s);
            },
        }
        match &tool.implementation {
            Some(body) => match self.execute_impl(
                body,
                &input,
                Some(&tool.output),
                fuel - 1,
                session,
            ) {
                Ok(output) => finish_tool(tool, started, input, output, session),
                Err(s) => Err(s),
            },
            None => Err(
                Stop::Failed(
                    InterpreterError::Runtime(
                        "Tool '".to_string().concat(tool.name.as_str()).concat(
                            "' has no implementation",
                        ),
                    ),
                ),
            ),
        }
    }

    /// Runs the body of a tool.
    pub fn execute_impl(
        &self,
        body: &ToolImplIR,
        input: &Value,
        expected: Option<&TypeIR>,
        fuel: u64,
        session: &mut Session,
    ) -> (r: Result<Value, Stop>)
        ensures
            (value_end(r), final(session)@) == run_impl(
                self@.tools,
                *body,
                input@,
                expected,
                fuel as nat,
                old(session)@,
            ),
        decreases fuel, 0nat,
    {
        if fuel == 0 {
            return Err(Stop::OutOfFuel);
        }
        let statements = match body {
            ToolImplIR::Expr { expr } => {
                return self.execute_tool_expr(expr, input, expected, fuel - 1, session);
            },
            ToolImplIR::Sequence { statements } => statements,
            ToolImplIR::Parallel { statements } => statements,
        };
        match self.execute_statements(statements, bindings_of(input), fuel - 1, session) {
            Ok((bindings, last)) => Ok(assemble(expected, &bindings, last)),
            Err(s) => Err(s),
        }
    }

    /// Runs statements.
    fn execute_statements(
        &self,
        statements: &Vec<StatementIR>,
        start: Dict<Value>,
        fuel: u64,
        session: &mut Session,
    ) -> (r: Result<(Dict<Value>, Value), Stop>)
        ensures
            (body_end(r), final(session)@) == run_statements(
                self@.tools,
                statements@,
                0,
                dict_view(start),
                ValueView::Null,
                fuel as nat,
                old(session)@,
            ),
        decreases fuel, 1nat,
    {
        let mut bindings = start;
        let mut last = Value::Null;
        let mut i: usize = 0;
        while i < statements.len()
            invariant
                i <= statements@.len(),
                run_statements(
                    self@.tools,
                    statements@,
                    0,
                    dict_view(start),
                    ValueView::Null,
                    fuel as nat,
                    old(session)@,
                ) == run_statements(
                    self@.tools,
                    statements@,
                    i as nat,
                    dict_view(bindings),
                    last@,
                    fuel as nat,
                    session@,
                ),
            decreases statements@.len() - i,
        {
            let ctx = Value::Dict(copy_dict(&bindings));
            match self.execute_tool_expr(&statements[i].expr, &ctx, None, fuel, session) {
                Ok(v) => {
                    if let Some(name) = &statements[i].binding {
                        put(&mut bindings, name.clone(), v.copy());
                    }
                    last = v;
                },
                Err(s) => {
                    return Err(s);
                },
            }
            i = i + 1;
        }
        Ok((bindings, last))
    }

    /// The values of arguments.
    fn execute_all(
        &self,
        args: &Vec<ToolExprIR>,
        ctx: &Value,
        fuel: u64,
        session: &mut Session,
    ) -> (r: Result<Vec<Value>, Stop>)
        ensures
            (list_end(r), final(session)@) == run_all(
                self@.tools,
                args@,
                0,
                Seq::empty(),
                ctx@,
                fuel as nat,
                old(session)@,
            ),
        decreases fuel, 1nat,
    {
        let mut out: Vec<Value> = Vec::new();
        let mut i: usize = 0;
        while i < args.len()
            invariant
                i <= args@.len(),
                run_all(
                    self@.tools,
                    args@,
                    0,
                    Seq::empty(),
                    ctx@,
                    fuel as nat,
                    old(session)@,
                ) == run_all(
                    self@.tools,
                    args@,
                    i as nat,
                    list_view(out@),
                    ctx@,
                    fuel as nat,
                    session@,
                ),
            decreases args@.len() - i,
        {
            match self.execute_tool_expr(&args[i], ctx, None, fuel, session) {
                Ok(v) => {
                    let ghost before = out@;
                    out.push(v);
                    assert(out@.drop_last() =~= before);
                },
                Err(s) => {
                    return Err(s);
                },
            }
            i = i + 1;
        }
        Ok(out)
    }

    /// The values of arguments, under the names that an input type gives them.
    pub fn execute_args(
        &self,
        input: &TypeIR,
        args: &Vec<ToolExprIR>,
        ctx: &Value,
        fuel: u64,
        session: &mut Session,
    ) -> (r: Result<Dict<Value>, Stop>)
        ensures
            (bindings_end(r), final(session)@) == run_args(
                self@.tools,
                *input,
                args@,
                0,
                Map::empty(),
                ctx@,
                fuel as nat,
                old(session)@,
            ),
        decreases fuel, 1nat,
    {
        let mut out = no_entries();
        let mut i: usize = 0;
        while i < args.len()
            invariant
                i <= args@.len(),
                run_args(
                    self@.tools,
                    *input,
                    args@,
                    0,
                    Map::empty(),
                    ctx@,
                    fuel as nat,
                    old(session)@,
                ) == run_args(
                    self@.tools,
                    *input,
                    args@,
                    i as nat,
                    dict_view(out),
                    ctx@,
                    fuel as nat,
                    session@,
                ),
            decreases args@.len() - i,
        {
            match self.execute_tool_expr(&args[i], ctx, None, fuel, session) {
                Ok(v) => {
                    put(&mut out, name_of_argument(input, i), v);
                },
                Err(s) => {
                    return Err(s);
                },
            }
            i = i + 1;
        }
        Ok(out)
    }

    /// Runs the arm that matches.
    fn execute_arms(
        &self,
        arms: &Vec<MatchArmIR>,
        value: &Value,
        ctx: &Value,
        expected: Option<&TypeIR>,
        fuel: u64,
        session: &mut Session,
    ) -> (r: Result<Value, Stop>)
        ensures
            (value_end(r), final(session)@) == run_arms(
                self@.tools,
                arms@,
                0,
                value@,
                ctx@,
                expected,
                fuel as nat,
                old(session)@,
            ),
        decreases fuel, 1nat,
    {
        let mut i: usize = 0;
        while i < arms.len()
            invariant
                i <= arms@.len(),
                run_arms(
                    self@.tools,
                    arms@,
                    0,
                    value@,
                    ctx@,
                    expected,
                    fuel as nat,
                    old(session)@,
                ) == run_arms(
                    self@.tools,
                    arms@,
                    i as nat,
                    value@,
                    ctx@,
                    expected,
                    fuel as nat,
                    session@,
                ),
            decreases arms@.len() - i,
        {
            match eval_expr(&arms[i].pattern, ctx, session) {
                Ok(pattern) => if value.same(&pattern) {
                    return self.execute_impl(&arms[i].body, ctx, expected, fuel, session);
                },
                Err(s) => {
                    return Err(s);
                },
            }
            i = i + 1;
        }
        Ok(Value::Null)
    }

    /// Runs the rounds of a loop over items.
    fn execute_items(
        &self,
        variable: &String,
        items: &Vec<Value>,
        body: &ToolImplIR,
        ctx: &Value,
        expected: Option<&TypeIR>,
        fuel: u64,
        session: &mut Session,
    ) -> (r: Result<Value, Stop>)
        ensures
            (value_end(r), final(session)@) == run_items(
                self@.tools,
                variable@,
                list_view(items@),
                0,
                *body,
                ValueView::Null,
                ctx@,
                expected,
                fuel as nat,
                old(session)@,
            ),
        decreases fuel, 1nat,
    {
        let mut last = Value::Null;
        let mut i: usize = 0;
        proof {
            lemma_list_view(items@);
        }
        while i < items.len()
            invariant
                i <= items@.len(),
                list_view(items@).len() == items@.len(),
                run_items(
                    self@.tools,
                    variable@,
                    list_view(items@),
                    0,
                    *body,
                    ValueView::Null,
                    ctx@,
                    expected,
                    fuel as nat,
                    old(session)@,
                ) == run_items(
                    self@.tools,
                    variable@,
                    list_view(items@),
                    i as nat,
                    *body,
                    last@,
                    ctx@,
                    expected,
                    fuel as nat,
                    session@,
                ),
            decreases items@.len() - i,
        {
            proof {
                lemma_list_view(items@);
            }
            let round = context_of_round(ctx, variable, items[i].copy());
            match self.execute_impl(body, &round, expected, fuel, session) {
                Ok(v) => {
                    last = v;
                },
                Err(Stop::Failed(InterpreterError::Break)) => {
                    return Ok(last);
                },
                Err(Stop::Failed(InterpreterError::Continue)) => {},
                Err(s) => {
                    return Err(s);
                },
            }
            i = i + 1;
        }
        Ok(last)
    }

    /// Runs the rounds of a loop that goes on while a condition is true.
    fn execute_while(
        &self,
        condition: &ExprIR,
        body: &ToolImplIR,
        ctx: &Value,
        expected: Option<&TypeIR>,
        fuel: u64,
        session: &mut Session,
    ) -> (r: Result<Value, Stop>)
        ensures
            (value_end(r), final(session)@) == run_while(
                self@.tools,
                *condition,
                *body,
                ValueView::Null,
                ctx@,
                expected,
                fuel as nat,
                old(session)@,
            ),
        decreases fuel, 0nat,
    {
        let mut last = Value::Null;
        let mut left: u64 = fuel;
        while left > 0
            invariant
                left <= fuel,
                run_while(
                    self@.tools,
                    *condition,
                    *body,
                    ValueView::Null,
                    ctx@,
                    expected,
                    fuel as nat,
                    old(session)@,
                ) == run_while(
                    self@.tools,
                    *condition,
                    *body,
                    last@,
                    ctx@,
                    expected,
                    left as nat,
                    session@,
                ),
            decreases left,
        {
            match eval_expr(condition, ctx, session) {
                Ok(v) => if !holds(&v) {
                    return Ok(last);
                },
                Err(s) => {
                    return Err(s);
                },
            }
            left = left - 1;
            match self.execute_impl(body, ctx, expected, left, session) {
                Ok(v) => {
                    last = v;
                },
                Err(Stop::Failed(InterpreterError::Break)) => {
                    return Ok(last);
                },
                Err(Stop::Failed(InterpreterError::Continue)) => {},
                Err(s) => {
                    return Err(s);
                },
            }
        }
        Err(Stop::OutOfFuel)
    }

    /// Runs the rounds of a loop that only a break ends.
    fn execute_loop(
        &self,
        body: &ToolImplIR,
        ctx: &Value,
        expected: Option<&TypeIR>,
        fuel: u64,
        session: &mut Session,
    ) -> (r: Result<Value, Stop>)
        ensures
            (value_end(r), final(session)@) == run_loop(
                self@.tools,
                *body,
                ValueView::Null,
                ctx@,
                expected,
                fuel as nat,
                old(session)@,
            ),
        decreases fuel, 0nat,
    {
        let mut last = Value::Null;
        let mut left: u64 = fuel;
        while left > 0
            invariant
                left <= fuel,
                run_loop(
                    self@.tools,
                    *body,
                    ValueView::Null,
                    ctx@,
                    expected,
                    fuel as nat,
                    old(session)@,
                ) == run_loop(
                    self@.tools,
                    *body,
                    last@,
                    ctx@,
                    expected,
                    left as nat,
                    session@,
                ),
            decreases left,
        {
            left = left - 1;
            match self.execute_impl(body, ctx, expected, left, session) {
                Ok(v) => {
                    last = v;
                },
                Err(Stop::Failed(InterpreterError::Break)) => {
                    return Ok(last);
                },
                Err(Stop::Failed(InterpreterError::Continue)) => {},
                Err(s) => {
                    return Err(s);
                },
            }
        }
        Err(Stop::OutOfFuel)
    }

    /// Runs an expression in the body of a tool.
    pub fn execute_tool_expr(
        &self,
        expr: &ToolExprIR,
        ctx: &Value,
        expected: Option<&TypeIR>,
        fuel: u64,
        session: &mut Session,
    ) -> (r: Result<Value, Stop>)
        ensures
            (value_end(r), final(session)@) == run_expr(
                self@.tools,
                *expr,
                ctx@,
                expected,
                fuel as nat,
                old(session)@,
            ),
        decreases fuel, 0nat,
    {
        if fuel == 0 {
            return Err(Stop::OutOfFuel);
        }
        match expr {
            ToolExprIR::Ident { name } => run_of(get_value(ctx, name)),
            ToolExprIR::FieldAccess { base, field } => match self.execute_tool_expr(
                base,
                ctx,
                None,
                fuel - 1,
                session,
            ) {
                Ok(v) => run_of(get_field(&v, field)),
                Err(s) => Err(s),
            },
            ToolExprIR::Literal { value } => Ok(literal_to_value(value)),
            ToolExprIR::Shell { command } => execute_shell(command, ctx, expected, session),
            ToolExprIR::ForeignCall { module, function, args } => match self.execute_all(
                args,
                ctx,
                fuel - 1,
                session,
            ) {
                Ok(vs) => call_foreign(module, function, vs, session),
                Err(s) => Err(s),
            },
            ToolExprIR::ToolCall { tool, args } => match self.get_tool(tool.as_str()) {
                Some(callee) => match self.execute_args(
                    &callee.input,
                    args,
                    ctx,
                    fuel - 1,
                    session,
                ) {
                    Ok(m) => self.execute(callee, Value::Dict(m), fuel - 1, session),
                    Err(s) => Err(s),
                },
                None => Err(Stop::Failed(InterpreterError::ToolNotFound(tool.clone()))),
            },
            ToolExprIR::Pipe { left, right } => match self.execute_tool_expr(
                left,
                ctx,
                None,
                fuel - 1,
                session,
            ) {
                Ok(v) => self.execute_tool_expr(right, &v, expected, fuel - 1, session),
                Err(s) => Err(s),
            },
            ToolExprIR::If { condition, then_branch, else_branch } => match eval_expr(
                condition,
                ctx,
                session,
            ) {
                Ok(v) => if holds(&v) {
                    self.execute_impl(then_branch, ctx, expected, fuel - 1, session)
                } else {
                    match else_branch {
                        Some(body) => self.execute_impl(body, ctx, expected, fuel - 1, session),
                        None => Ok(Value::Null),
                    }
                },
                Err(s) => Err(s),
            },
            ToolExprIR::Match { scrutinee, arms } => match self.execute_tool_expr(
                scrutinee,
                ctx,
                None,
                fuel - 1,
                session,
            ) {
                Ok(v) => self.execute_arms(arms, &v, ctx, expected, fuel - 1, session),
                Err(s) => Err(s),
            },
            ToolExprIR::For { variable, iterable, body } => match self.execute_tool_expr(
                iterable,
                ctx,
                None,
                fuel - 1,
                session,
            ) {
                Ok(Value::List(items)) => self.execute_items(
                    variable,
                    &items,
                    body,
                    ctx,
                    expected,
                    fuel - 1,
                    session,
                ),
                Ok(v) => Err(
                    Stop::Failed(
                        InterpreterError::TypeMismatch {
                            expected: "list".to_string(),
                            actual: v.kind().to_string(),
                        },
                    ),
                ),
                Err(s) => Err(s),
            },
            ToolExprIR::While { condition, body } => self.execute_while(
                condition,
                body,
                ctx,
                expected,
                fuel - 1,
                session,
            ),
            ToolExprIR::Loop { body } => self.execute_loop(body, ctx, expected, fuel - 1, session),
            ToolExprIR::Break => Err(Stop::Failed(InterpreterError::Break)),
            ToolExprIR::Continue => Err(Stop::Failed(InterpreterError::Continue)),
            ToolExprIR::Expr { expr } => eval_expr(expr, ctx, session),
        }
    }
}

/// A tool whose conditions on the input do not hold ends in their failure, whatever its body.
pub proof fn unmet_precondition_ends_the_run(
    tools: Map<Seq<char>, &ToolIR>,
    tool: ToolIR,
    body: Option<ToolImplIR>,
    input: ValueView,
    fuel: nat,
    started: u64,
    rs: Seq<ReplyView>,
)
    requires
        fuel > 0,
        rs.len() > 0,
        rs[0] == ReplyView::Clock(started),
        check(preconditions(tool), 0, true, input, rs.drop_first()).0 is Err,
    ensures
        run_tool(tools, ToolIR { implementation: body, ..tool }, input, fuel, rs).0 == Err::<
            ValueView,
            StopView,
        >(check(preconditions(tool), 0, true, input, rs.drop_first()).0->Err_0),
        run_tool(tools, ToolIR { implementation: body, ..tool }, input, fuel, rs).1 == check(
            preconditions(tool),
            0,
            true,
            input,
            rs.drop_first(),
        ).1,
{
    assert(preconditions(ToolIR { implementation: body, ..tool }) == preconditions(tool));
}

/// The replies that were left for the `j`-th condition when the conditions from the `i`-th on
/// were evaluated in order.
pub open spec fn replies_for(
    conditions: Seq<Arc<ExprIR>>,
    i: nat,
    j: nat,
    ctx: ValueView,
    rs: Seq<ReplyView>,
) -> Seq<ReplyView>
    decreases j - i,
{
    if i >= j {
        rs
    } else {
        replies_for(conditions, i + 1, j, ctx, eval(expression(conditions[i as int]), ctx, rs).1)
    }
}

/// Of conditions that were checked without failure each was true on the replies that it got, and
/// what the last one left is left.
pub proof fn checked_conditions_are_true(
    conditions: Seq<Arc<ExprIR>>,
    i: nat,
    before: bool,
    ctx: ValueView,
    rs: Seq<ReplyView>,
)
    requires
        i <= conditions.len(),
        check(conditions, i, before, ctx, rs).0 is Ok,
    ensures
        forall|j: nat|
            i <= j < conditions.len() ==> (eval(
                expression(conditions[j as int]),
                ctx,
                #[trigger] replies_for(conditions, i, j, ctx, rs),
            ).0 matches Ok(v) && is_true(v)),
        check(conditions, i, before, ctx, rs).1 == replies_for(
            conditions,
            i,
            conditions.len(),
            ctx,
            rs,
        ),
    decreases conditions.len() - i,
{
    if i < conditions.len() {
        let rest = eval(expression(conditions[i as int]), ctx, rs).1;
        checked_conditions_are_true(conditions, i + 1, before, ctx, rest);
        assert forall|j: nat| i <= j < conditions.len() implies (eval(
            expression(conditions[j as int]),
            ctx,
            #[trigger] replies_for(conditions, i, j, ctx, rs),
        ).0 matches Ok(v) && is_true(v)) by {
            if i < j {
                assert(replies_for(conditions, i, j, ctx, rs) == replies_for(
                    conditions,
                    i + 1,
                    j,
                    ctx,
                    rest,
                ));
            }
        }
    }
}

/// A tool that gives a value has a body, which gave that value from the input; and it met each
/// of its conditions: those on the input on the replies that came before the body's, and those
/// on the output on the replies that the body left.
pub proof fn value_means_conditions_met(
    tools: Map<Seq<char>, &ToolIR>,
    tool: ToolIR,
    input: ValueView,
    fuel: nat,
    rs: Seq<ReplyView>,
    output: ValueView,
)
    requires
        run_tool(tools, tool, input, fuel, rs).0 == Ok::<ValueView, StopView>(output),
    ensures
        fuel > 0,
        rs.len() > 0,
        tool.implementation is Some,
        ({
            let first = rs.drop_first();
            let pre = preconditions(tool);
            let post = postconditions(tool);
            let left = replies_for(pre, 0, pre.len(), input, first);
            let ran = run_impl(
                tools,
                tool.implementation->0,
                input,
                Some(&tool.output),
                (fuel - 1) as nat,
                left,
            );
            let ctx = result_context(input, output);
            &&& ran.0 == Ok::<ValueView, StopView>(output)
            &&& forall|j: nat|
                j < pre.len() ==> (eval(
                    expression(pre[j as int]),
                    input,
                    #[trigger] replies_for(pre, 0, j, input, first),
                ).0 matches Ok(v) && is_true(v))
            &&& forall|j: nat|
                j < post.len() ==> (eval(
                    expression(post[j as int]),
                    ctx,
                    #[trigger] replies_for(post, 0, j, ctx, ran.1),
                ).0 matches Ok(v) && is_true(v))
        }),
{
    let pre = preconditions(tool);
    let post = postconditions(tool);
    let first = rs.drop_first();
    checked_conditions_are_true(pre, 0, true, input, first);
    let ran = run_impl(
        tools,
        tool.implementation->0,
        input,
        Some(&tool.output),
        (fuel - 1) as nat,
        replies_for(pre, 0, pre.len(), input, first),
    );
    checked_conditions_are_true(post, 0, false, result_context(input, output), ran.1);
}

/// Parallel statements give what the same statements give in sequence.
pub proof fn parallel_is_sequential(
    tools: Map<Seq<char>, &ToolIR>,
    statements: Vec<StatementIR>,
    input: ValueView,
    expected: Option<&TypeIR>,
    fuel: nat,
    rs: Seq<ReplyView>,
)
    ensures
        run_impl(tools, ToolImplIR::Parallel { statements }, input, expected, fuel, rs)
            == run_impl(tools, ToolImplIR::Sequence { statements }, input, expected, fuel, rs),
{
}

/// In the statements of a body, and in the conditions on what a tool gave, `input` stands for
/// the tool's input.
pub proof fn input_is_the_input(input: ValueView, output: ValueView)
    ensures
        variable(ValueView::Dict(start_bindings(input)), "input"@) == Ok::<
            ValueView,
            InterpreterErrorView,
        >(input),
        variable(result_context(input, output), "input"@) == Ok::<ValueView, InterpreterErrorView>(
            input,
        ),
        variable(result_context(input, output), "output"@) == Ok::<ValueView, InterpreterErrorView>(
            output,
        ),
{
    reveal_strlit("input");
    reveal_strlit("output");
    assert("input"@.len() == 5 && "output"@.len() == 6);
}

} // verus!
