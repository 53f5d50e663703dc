//! Runs of tools.
use scaffold::dict::Dict;
use scaffold::error::InterpreterError;
use scaffold::executor::ToolExecutor;
use scaffold::ir::{
    ExprIR, LiteralIR, MatchArmIR, StatementIR, ToolExprIR, ToolIR, ToolImplIR, ToolSpecIR, TypeIR,
};
use scaffold::session::{Fault, Reply, Request, Session, Stop};
use scaffold::shell::json_or_text;
use scaffold::json::{parse_json, Json};
use scaffold::value::{Float, Value};
use std::collections::VecDeque;
use std::sync::Arc;

const FUEL: u64 = 1000;

fn replies(list: Vec<Reply>) -> Session {
    Session::new(VecDeque::from(list))
}

fn s(text: &str) -> String {
    text.to_string()
}

fn text(t: &str) -> Value {
    Value::String(s(t))
}

fn dict(entries: Vec<(&str, Value)>) -> Value {
    let mut d = Dict::new();
    for (k, v) in entries {
        d.insert(s(k), v);
    }
    Value::Dict(d)
}

fn ident(name: &str) -> ToolExprIR {
    ToolExprIR::Ident { name: s(name) }
}

fn number(value: i64) -> ToolExprIR {
    ToolExprIR::Literal { value: LiteralIR::Int { value } }
}

fn expr_ident(name: &str) -> ExprIR {
    ExprIR::Ident { name: s(name) }
}

fn expr_number(value: i64) -> ExprIR {
    ExprIR::Literal { value: LiteralIR::Int { value } }
}

fn truth(value: bool) -> ExprIR {
    ExprIR::Literal { value: LiteralIR::Bool { value } }
}

fn operation(left: ExprIR, op: &str, right: ExprIR) -> ExprIR {
    ExprIR::Binary { left: Box::new(left), op: s(op), right: Box::new(right) }
}

fn body(expr: ToolExprIR) -> ToolImplIR {
    ToolImplIR::Expr { expr }
}

fn bind(name: &str, expr: ToolExprIR) -> StatementIR {
    StatementIR { binding: Some(s(name)), expr }
}

fn unbound(expr: ToolExprIR) -> StatementIR {
    StatementIR { binding: None, expr }
}

fn shell(command: &str) -> ToolExprIR {
    ToolExprIR::Shell { command: s(command) }
}

fn run_expr(e: ToolExprIR, ctx: Value, given: Vec<Reply>) -> Result<Value, Stop> {
    ToolExecutor::new().execute_tool_expr(&e, &ctx, None, FUEL, &mut replies(given))
}

fn run_expecting(e: ToolExprIR, ty: TypeIR, given: Vec<Reply>) -> Result<Value, Stop> {
    ToolExecutor::new().execute_tool_expr(&e, &dict(vec![]), Some(&ty), FUEL, &mut replies(given))
}

fn run_body(b: ToolImplIR, input: Value, expected: Option<&TypeIR>, given: Vec<Reply>) -> Result<Value, Stop> {
    ToolExecutor::new().execute_impl(&b, &input, expected, FUEL, &mut replies(given))
}

fn tool(name: &str, input: TypeIR, output: TypeIR, implementation: Option<ToolImplIR>) -> ToolIR {
    ToolIR { name: s(name), input, output, conditions: None, implementation }
}

fn ok(output: &str) -> Reply {
    Reply::Output(Ok(s(output)))
}

#[test]
fn a_tool_asks_for_the_time_first_and_is_traced_last() {
    let t = tool("one", TypeIR::Any, TypeIR::Int, Some(body(number(1))));
    let executor = ToolExecutor::new();
    let first = executor.execute(&t, Value::Null, FUEL, &mut replies(vec![])).unwrap_err();
    assert!(matches!(first, Stop::Ask(Request::Clock)));
    let second = executor
        .execute(&t, text("in"), FUEL, &mut replies(vec![Reply::Clock(5)]))
        .unwrap_err();
    assert!(
        matches!(second, Stop::Ask(Request::TraceTool { started: 5, span, tool, input, output })
            if span == "tool-one" && tool == "one" && input == text("in") && output == Value::Int(1))
    );
    let mut session = replies(vec![Reply::Clock(5), Reply::Done]);
    let third = executor.execute(&t, text("in"), FUEL, &mut session).unwrap();
    assert_eq!(third, Value::Int(1));
}

#[test]
fn a_tool_without_a_body_fails() {
    let t = tool("empty", TypeIR::Any, TypeIR::Any, None);
    let e = ToolExecutor::new()
        .execute(&t, Value::Null, FUEL, &mut replies(vec![Reply::Clock(0)]))
        .unwrap_err();
    assert!(
        matches!(e, Stop::Failed(InterpreterError::Runtime(m)) if m == "Tool 'empty' has no implementation")
    );
}

#[test]
fn conditions_guard_a_tool() {
    let positive = Arc::new(operation(expr_ident("n"), ">", expr_number(0)));
    let grows = Arc::new(operation(
        expr_ident("output"),
        ">",
        ExprIR::FieldAccess { base: Box::new(expr_ident("input")), field: s("n") },
    ));
    let t = ToolIR {
        name: s("next"),
        input: TypeIR::Struct { fields: vec![(s("n"), TypeIR::Int)] },
        output: TypeIR::Int,
        conditions: Some(ToolSpecIR {
            preconditions: vec![positive.clone()],
            postconditions: vec![grows.clone()],
        }),
        implementation: Some(body(ToolExprIR::Expr {
            expr: operation(expr_ident("n"), "*", expr_ident("n")),
        })),
    };
    let executor = ToolExecutor::new();
    let run = |n: i64, given: Vec<Reply>| {
        executor.execute(&t, dict(vec![("n", Value::Int(n))]), FUEL, &mut replies(given))
    };
    assert_eq!(run(3, vec![Reply::Clock(0), Reply::Done]).unwrap(), Value::Int(9));
    let asked = run(-3, vec![Reply::Clock(0)]).unwrap_err();
    assert!(
        matches!(asked, Stop::Ask(Request::DescribeExpr { expr }) if Arc::ptr_eq(&expr, &positive))
    );
    let before = run(-3, vec![Reply::Clock(0), Reply::Text(s("n > 0"))]).unwrap_err();
    assert!(
        matches!(before, Stop::Failed(InterpreterError::PreconditionFailed(e)) if e == "n > 0")
    );
    let asked = run(1, vec![Reply::Clock(0)]).unwrap_err();
    assert!(
        matches!(asked, Stop::Ask(Request::DescribeExpr { expr }) if Arc::ptr_eq(&expr, &grows))
    );
    let after = run(1, vec![Reply::Clock(0), Reply::Text(s("it grows"))]).unwrap_err();
    assert!(
        matches!(after, Stop::Failed(InterpreterError::PostconditionFailed(e)) if e == "it grows")
    );
}

#[test]
fn conditions_that_are_not_truth_values_fail() {
    let number = Arc::new(expr_number(1));
    let t = ToolIR {
        name: s("t"),
        input: TypeIR::Any,
        output: TypeIR::Any,
        conditions: Some(ToolSpecIR { preconditions: vec![number], postconditions: vec![] }),
        implementation: None,
    };
    let e = ToolExecutor::new()
        .execute(&t, Value::Null, FUEL, &mut replies(vec![Reply::Clock(0), Reply::Text(s("1"))]))
        .unwrap_err();
    assert!(matches!(e, Stop::Failed(InterpreterError::PreconditionFailed(e)) if e == "1"));
}

#[test]
fn statements_see_what_was_bound_before_them() {
    let statements = vec![
        bind("a", number(2)),
        bind("b", ToolExprIR::Expr { expr: operation(expr_ident("a"), "+", expr_ident("x")) }),
        unbound(ToolExprIR::Expr { expr: operation(expr_ident("b"), "*", expr_number(10)) }),
    ];
    let input = dict(vec![("x", Value::Int(3))]);
    let r = run_body(ToolImplIR::Sequence { statements }, input, None, vec![]).unwrap();
    assert_eq!(r, Value::Int(50));
}

#[test]
fn parallel_statements_run_in_order() {
    let statements = vec![
        bind("a", number(2)),
        bind("b", ToolExprIR::Expr { expr: operation(expr_ident("a"), "+", expr_number(1)) }),
    ];
    let r = run_body(ToolImplIR::Parallel { statements }, Value::Null, None, vec![]).unwrap();
    assert_eq!(r, Value::Int(3));
}

#[test]
fn a_body_without_statements_gives_null() {
    let r = run_body(ToolImplIR::Sequence { statements: vec![] }, Value::Int(1), None, vec![]).unwrap();
    assert_eq!(r, Value::Null);
}

#[test]
fn a_struct_is_put_together_from_bindings() {
    let point = TypeIR::Struct {
        fields: vec![(s("x"), TypeIR::Int), (s("y"), TypeIR::Int), (s("z"), TypeIR::Int)],
    };
    let make = || ToolImplIR::Sequence {
        statements: vec![bind("x", number(1)), bind("other", number(5)), bind("y", number(2))],
    };
    let r = run_body(make(), Value::Null, Some(&point), vec![]).unwrap();
    assert_eq!(r, dict(vec![("x", Value::Int(1)), ("y", Value::Int(2))]));
    let none = TypeIR::Struct { fields: vec![(s("q"), TypeIR::Int)] };
    assert_eq!(run_body(make(), Value::Null, Some(&none), vec![]).unwrap(), Value::Int(2));
    assert_eq!(run_body(make(), Value::Null, Some(&TypeIR::Int), vec![]).unwrap(), Value::Int(2));
}

#[test]
fn input_stands_for_the_input_in_a_body() {
    let statements = vec![bind("a", number(1)), unbound(ident("input"))];
    let r = run_body(ToolImplIR::Sequence { statements }, Value::Int(8), None, vec![]).unwrap();
    assert_eq!(r, Value::Int(8));
}

#[test]
fn fields_literals_and_pipes() {
    let access = ToolExprIR::FieldAccess { base: Box::new(ident("p")), field: s("x") };
    let ctx = dict(vec![("p", dict(vec![("x", Value::Int(4))]))]);
    assert_eq!(run_expr(access, ctx, vec![]).unwrap(), Value::Int(4));
    let pipe = ToolExprIR::Pipe {
        left: Box::new(ident("p")),
        right: Box::new(ident("x")),
    };
    let ctx = dict(vec![("p", dict(vec![("x", Value::Int(6))]))]);
    assert_eq!(run_expr(pipe, ctx, vec![]).unwrap(), Value::Int(6));
}

#[test]
fn branches() {
    let branch = |condition: ExprIR, with_else: bool| ToolExprIR::If {
        condition,
        then_branch: Box::new(body(number(1))),
        else_branch: if with_else { Some(Box::new(body(number(2)))) } else { None },
    };
    let run = |e: ToolExprIR| run_expr(e, dict(vec![]), vec![]).unwrap();
    assert_eq!(run(branch(truth(true), true)), Value::Int(1));
    assert_eq!(run(branch(truth(false), true)), Value::Int(2));
    assert_eq!(run(branch(expr_number(1), true)), Value::Int(2));
    assert_eq!(run(branch(truth(false), false)), Value::Null);
}

#[test]
fn the_first_equal_arm_is_taken() {
    let matching = |n: i64| ToolExprIR::Match {
        scrutinee: Box::new(number(n)),
        arms: vec![
            MatchArmIR { pattern: expr_number(1), body: body(number(10)) },
            MatchArmIR { pattern: expr_number(2), body: body(number(20)) },
            MatchArmIR { pattern: expr_number(2), body: body(number(30)) },
        ],
    };
    assert_eq!(run_expr(matching(2), dict(vec![]), vec![]).unwrap(), Value::Int(20));
    assert_eq!(run_expr(matching(3), dict(vec![]), vec![]).unwrap(), Value::Null);
}

#[test]
fn loops_over_items() {
    let each = |b: ToolImplIR| ToolExprIR::For {
        variable: s("i"),
        iterable: Box::new(ident("items")),
        body: Box::new(b),
    };
    let items = || {
        dict(vec![
            ("items", Value::List(vec![Value::Int(1), Value::Int(2), Value::Int(3)])),
            ("k", Value::Int(10)),
        ])
    };
    let product = body(ToolExprIR::Expr { expr: operation(expr_ident("i"), "*", expr_ident("k")) });
    assert_eq!(run_expr(each(product), items(), vec![]).unwrap(), Value::Int(30));
    let leave = |at: i64, how: ToolExprIR| {
        body(ToolExprIR::If {
            condition: operation(expr_ident("i"), "==", expr_number(at)),
            then_branch: Box::new(body(how)),
            else_branch: Some(Box::new(body(ident("i")))),
        })
    };
    assert_eq!(run_expr(each(leave(2, ToolExprIR::Break)), items(), vec![]).unwrap(), Value::Int(1));
    assert_eq!(run_expr(each(leave(3, ToolExprIR::Continue)), items(), vec![]).unwrap(), Value::Int(2));
    assert_eq!(run_expr(each(leave(1, ToolExprIR::Break)), items(), vec![]).unwrap(), Value::Null);
    let wrong = dict(vec![("items", Value::Int(3))]);
    let e = run_expr(each(body(number(1))), wrong, vec![]).unwrap_err();
    assert!(
        matches!(e, Stop::Failed(InterpreterError::TypeMismatch { expected, actual })
            if expected == "list" && actual == "int")
    );
    let failing = run_expr(each(body(ident("nothing"))), items(), vec![]).unwrap_err();
    assert!(matches!(failing, Stop::Failed(InterpreterError::VariableNotFound(n)) if n == "nothing"));
}

#[test]
fn loops_over_items_in_a_context_that_is_no_dictionary() {
    let each = ToolExprIR::For {
        variable: s("i"),
        iterable: Box::new(ident("input")),
        body: Box::new(body(ident("i"))),
    };
    let ctx = Value::List(vec![Value::Int(4), Value::Int(5)]);
    assert_eq!(run_expr(each, ctx, vec![]).unwrap(), Value::Int(5));
}

#[test]
fn loops_while_a_condition_is_true() {
    let more = || ExprIR::ForeignCall { module: s("m"), function: s("more"), args: vec![] };
    let step = || body(ToolExprIR::ForeignCall { module: s("m"), function: s("step"), args: vec![] });
    let looping = || ToolExprIR::While { condition: more(), body: Box::new(step()) };
    let given = vec![
        Reply::Value(Ok(Value::Bool(true))),
        Reply::Value(Ok(Value::Int(1))),
        Reply::Value(Ok(Value::Bool(true))),
        Reply::Value(Err(InterpreterError::Continue)),
        Reply::Value(Ok(Value::Bool(false))),
    ];
    assert_eq!(run_expr(looping(), dict(vec![]), given).unwrap(), Value::Int(1));
    let never = vec![Reply::Value(Ok(Value::Bool(false)))];
    assert_eq!(run_expr(looping(), dict(vec![]), never).unwrap(), Value::Null);
    let left = vec![
        Reply::Value(Ok(Value::Bool(true))),
        Reply::Value(Err(InterpreterError::Break)),
    ];
    assert_eq!(run_expr(looping(), dict(vec![]), left).unwrap(), Value::Null);
}

#[test]
fn loops_that_only_a_break_ends() {
    let step = body(ToolExprIR::ForeignCall { module: s("m"), function: s("step"), args: vec![] });
    let looping = ToolExprIR::Loop { body: Box::new(step) };
    let given = vec![
        Reply::Value(Ok(Value::Int(1))),
        Reply::Value(Ok(Value::Int(2))),
        Reply::Value(Err(InterpreterError::Break)),
    ];
    assert_eq!(run_expr(looping, dict(vec![]), given).unwrap(), Value::Int(2));
}

#[test]
fn endless_loops_run_out_of_fuel() {
    let looping = ToolExprIR::Loop { body: Box::new(body(number(1))) };
    let e = run_expr(looping, dict(vec![]), vec![]).unwrap_err();
    assert!(matches!(e, Stop::OutOfFuel));
    let looping = ToolExprIR::While { condition: truth(true), body: Box::new(body(ToolExprIR::Continue)) };
    let e = run_expr(looping, dict(vec![]), vec![]).unwrap_err();
    assert!(matches!(e, Stop::OutOfFuel));
}

#[test]
fn break_outside_a_loop_is_an_error() {
    let e = run_expr(ToolExprIR::Break, dict(vec![]), vec![]).unwrap_err();
    assert!(matches!(e, Stop::Failed(InterpreterError::Break)));
    let e = run_expr(ToolExprIR::Continue, dict(vec![]), vec![]).unwrap_err();
    assert!(matches!(e, Stop::Failed(InterpreterError::Continue)));
}

#[test]
fn tool_calls_name_their_arguments_by_the_fields_of_the_input() {
    let tools = vec![tool(
        "pair",
        TypeIR::Struct { fields: vec![(s("first"), TypeIR::Int), (s("second"), TypeIR::Int)] },
        TypeIR::Any,
        Some(body(ident("input"))),
    )];
    let mut executor = ToolExecutor::new();
    executor.register_tools(&tools);
    let call = ToolExprIR::ToolCall { tool: s("pair"), args: vec![number(1), number(2), number(3)] };
    let mut session = replies(vec![Reply::Clock(0), Reply::Done]);
    let r = executor.execute_tool_expr(&call, &Value::Null, None, FUEL, &mut session).unwrap();
    assert_eq!(
        r,
        dict(vec![("first", Value::Int(1)), ("second", Value::Int(2)), ("arg2", Value::Int(3))])
    );
    let missing = ToolExprIR::ToolCall { tool: s("none"), args: vec![] };
    let e = executor
        .execute_tool_expr(&missing, &Value::Null, None, FUEL, &mut replies(vec![]))
        .unwrap_err();
    assert!(matches!(e, Stop::Failed(InterpreterError::ToolNotFound(n)) if n == "none"));
}

#[test]
fn arguments_without_fields_are_numbered() {
    let tools = vec![tool("any", TypeIR::Any, TypeIR::Any, Some(body(ident("input"))))];
    let mut executor = ToolExecutor::new();
    executor.register_tools(&tools);
    let args: Vec<ToolExprIR> = (0..12).map(number).collect();
    let call = ToolExprIR::ToolCall { tool: s("any"), args };
    let mut session = replies(vec![Reply::Clock(0), Reply::Done]);
    let r = executor.execute_tool_expr(&call, &Value::Null, None, FUEL, &mut session).unwrap();
    let arg = |k: &str| scaffold::expr::get_field(&r, &s(k)).unwrap();
    assert_eq!(arg("arg0"), Value::Int(0));
    assert_eq!(arg("arg11"), Value::Int(11));
}

#[test]
fn tools_that_call_themselves_run_out_of_fuel() {
    let tools = vec![tool(
        "again",
        TypeIR::Any,
        TypeIR::Any,
        Some(body(ToolExprIR::ToolCall { tool: s("again"), args: vec![] })),
    )];
    let mut executor = ToolExecutor::new();
    executor.register_tools(&tools);
    let given = (0..100).map(|_| Reply::Clock(0)).collect();
    let e = executor.execute(&tools[0], Value::Null, 100, &mut replies(given)).unwrap_err();
    assert!(matches!(e, Stop::OutOfFuel));
}

#[test]
fn commands_are_filled_in_and_run() {
    let asked = run_expr(shell("echo {x}"), dict(vec![("x", Value::Int(1))]), vec![]).unwrap_err();
    assert!(
        matches!(asked, Stop::Ask(Request::Interpolate { template, context })
            if template == "echo {x}" && context == dict(vec![("x", Value::Int(1))]))
    );
    let asked = run_expr(shell("echo {x}"), dict(vec![]), vec![ok("echo 1")]).unwrap_err();
    assert!(matches!(asked, Stop::Ask(Request::Shell { command }) if command == "echo 1"));
    let r = run_expr(shell("echo {x}"), dict(vec![]), vec![ok("echo 1"), ok(" 1\n")]).unwrap();
    assert_eq!(r, text(" 1\n"));
    let e = run_expr(shell("c"), dict(vec![]), vec![Reply::Output(Err(s("no x")))]).unwrap_err();
    assert!(matches!(e, Stop::Failed(InterpreterError::Runtime(m)) if m == "no x"));
    let e = run_expr(shell("c"), dict(vec![]), vec![ok("c"), Reply::Output(Err(s("exit 1")))]).unwrap_err();
    assert!(matches!(e, Stop::Failed(InterpreterError::ShellError(m)) if m == "exit 1"));
}

#[test]
fn output_is_read_as_the_expected_type() {
    let run = |ty: TypeIR, given: Vec<Reply>| run_expecting(shell("c"), ty, given);
    let asked = run(TypeIR::Int, vec![ok("c"), ok(" 42 \n")]).unwrap_err();
    assert!(matches!(asked, Stop::Ask(Request::ParseInt { text }) if text == "42"));
    let r = run(TypeIR::Int, vec![ok("c"), ok(" 42 \n"), Reply::Int(Ok(42))]).unwrap();
    assert_eq!(r, Value::Int(42));
    let e = run(TypeIR::Int, vec![ok("c"), ok("x"), Reply::Int(Err(s("bad int")))]).unwrap_err();
    assert!(matches!(e, Stop::Failed(InterpreterError::Runtime(m)) if m == "bad int"));
    let two = Float { bits: 2.5f64.to_bits() };
    let r = run(TypeIR::Float, vec![ok("c"), ok("2.5"), Reply::Float(Ok(two))]).unwrap();
    assert_eq!(r, Value::Float(two));
    let e = run(TypeIR::Float, vec![ok("c"), ok("x"), Reply::Float(Err(s("bad float")))]).unwrap_err();
    assert!(matches!(e, Stop::Failed(InterpreterError::Runtime(m)) if m == "bad float"));
    let r = run(TypeIR::Bool, vec![ok("c"), ok("yes"), Reply::Bool(Ok(true))]).unwrap();
    assert_eq!(r, Value::Bool(true));
    let e = run(TypeIR::Bool, vec![ok("c"), ok("x"), Reply::Bool(Err(s("bad bool")))]).unwrap_err();
    assert!(matches!(e, Stop::Failed(InterpreterError::Runtime(m)) if m == "bad bool"));
    let r = run(TypeIR::String, vec![ok("c"), ok("\t a b \n")]).unwrap();
    assert_eq!(r, text("a b"));
    let r = run(TypeIR::Bytes, vec![ok("c"), Reply::Bytes(Ok(vec![0, 255]))]).unwrap();
    assert_eq!(r, Value::Bytes(vec![0, 255]));
    let e = run(TypeIR::Bytes, vec![ok("c"), Reply::Bytes(Err(s("exit 2")))]).unwrap_err();
    assert!(matches!(e, Stop::Failed(InterpreterError::ShellError(m)) if m == "exit 2"));
    let r = run(TypeIR::Any, vec![ok("c"), ok(" 1 ")]).unwrap();
    assert_eq!(r, text(" 1 "));
}

#[test]
fn output_is_read_as_a_struct() {
    let one = |ty: TypeIR| TypeIR::Struct { fields: vec![(s("v"), ty)] };
    let run = |ty: TypeIR, given: Vec<Reply>| run_expecting(shell("c"), ty, given).unwrap();
    let r = run(one(TypeIR::Int), vec![ok("c"), ok(" 7\n"), Reply::Int(Ok(7))]);
    assert_eq!(r, dict(vec![("v", Value::Int(7))]));
    let r = run(one(TypeIR::String), vec![ok("c"), ok(" 7\n")]);
    assert_eq!(r, dict(vec![("v", text("7"))]));
    let r = run(one(TypeIR::Any), vec![ok("c"), ok(" [1, \"a\"]\n")]);
    assert_eq!(r, dict(vec![("v", Value::List(vec![Value::Int(1), text("a")]))]));
    let r = run(one(TypeIR::Any), vec![ok("c"), ok(" not json \n")]);
    assert_eq!(r, dict(vec![("v", text("not json"))]));
    let two = || TypeIR::Struct { fields: vec![(s("a"), TypeIR::Int), (s("b"), TypeIR::Int)] };
    let r = run(two(), vec![ok("c"), ok(" {\"a\": 1, \"b\": 2}\n")]);
    assert_eq!(r, dict(vec![("a", Value::Int(1)), ("b", Value::Int(2))]));
    let r = run(two(), vec![ok("c"), ok(" not json \n")]);
    assert_eq!(r, text(" not json \n"));
}

#[test]
fn what_was_read_as_json_or_not() {
    assert_eq!(json_or_text(Ok(Json::Bool(true)), "x"), Value::Bool(true));
    assert_eq!(json_or_text(Err(s("error")), "x"), text("x"));
    assert_eq!(json_or_text(parse_json("null"), "x"), Value::Null);
}

#[test]
fn foreign_calls_take_values() {
    let call = ToolExprIR::ForeignCall { module: s("m"), function: s("f"), args: vec![number(1), ident("x")] };
    let asked = run_expr(call, dict(vec![("x", text("a"))]), vec![]).unwrap_err();
    assert!(
        matches!(asked, Stop::Ask(Request::Foreign { module, function, args })
            if module == "m" && function == "f" && args == vec![Value::Int(1), text("a")])
    );
}

#[test]
fn an_unexpected_reply_ends_the_run() {
    let t = tool("one", TypeIR::Any, TypeIR::Int, Some(body(number(1))));
    let e = ToolExecutor::new()
        .execute(&t, Value::Null, FUEL, &mut replies(vec![Reply::Done]))
        .unwrap_err();
    assert!(matches!(e, Stop::Fault(Fault::UnexpectedReply)));
}

#[test]
fn more_replies_and_more_fuel_change_nothing() {
    let t = tool("one", TypeIR::Any, TypeIR::Int, Some(body(shell("c"))));
    let executor = ToolExecutor::new();
    let given = || vec![Reply::Clock(0), ok("c"), ok("5"), Reply::Int(Ok(5)), Reply::Done];
    let few = executor.execute(&t, Value::Null, 10, &mut replies(given())).unwrap();
    let mut more = given();
    more.push(Reply::Clock(9));
    let mut session = replies(more);
    let many = executor.execute(&t, Value::Null, 100, &mut session).unwrap();
    assert_eq!(few, many);
    assert!(matches!(session.next(), Some(Reply::Clock(9))));
    assert!(session.next().is_none());
    for n in 0..5 {
        let part: Vec<Reply> = given().into_iter().take(n).collect();
        let stopped = executor.execute(&t, Value::Null, 10, &mut replies(part)).unwrap_err();
        assert!(matches!(stopped, Stop::Ask(_)));
    }
}
