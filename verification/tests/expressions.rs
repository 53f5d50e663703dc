//! Evaluation of expressions.
use scaffold::dict::Dict;
use scaffold::error::InterpreterError;
use scaffold::expr::{eval_builtin, eval_binary_op, eval_expr, get_field, get_value};
use scaffold::ir::{ExprIR, LiteralIR};
use scaffold::session::{Arithmetic, Comparison, Fault, Num, Reply, Request, Session, Stop};
use scaffold::value::{Float, Value};

fn no_replies() -> Session {
    Session::new(Vec::new().into())
}

fn replies(list: Vec<Reply>) -> Session {
    Session::new(list.into())
}

fn text(s: &str) -> Value {
    Value::String(s.to_string())
}

fn float(f: f64) -> Value {
    Value::Float(Float { bits: f.to_bits() })
}

fn empty() -> Value {
    Value::Dict(Dict::new())
}

fn int_literal(value: i64) -> ExprIR {
    ExprIR::Literal { value: LiteralIR::Int { value } }
}

fn binary(l: Value, op: &str, r: Value) -> Value {
    eval_binary_op(&l, op, &r, &mut no_replies()).unwrap()
}

fn binary_error(l: Value, op: &str, r: Value) -> Stop {
    eval_binary_op(&l, op, &r, &mut no_replies()).unwrap_err()
}

#[test]
fn test_eval_literal() {
    let ctx = empty();
    let expr = ExprIR::Literal { value: LiteralIR::Int { value: 42 } };
    let result = eval_expr(&expr, &ctx, &mut no_replies()).unwrap();
    assert_eq!(result, Value::Int(42));
}

#[test]
fn test_eval_binary() {
    let ctx = empty();
    let expr = ExprIR::Binary {
        left: Box::new(ExprIR::Literal { value: LiteralIR::Int { value: 10 } }),
        op: "+".to_string(),
        right: Box::new(ExprIR::Literal { value: LiteralIR::Int { value: 5 } }),
    };
    let result = eval_expr(&expr, &ctx, &mut no_replies()).unwrap();
    assert_eq!(result, Value::Int(15));
}

#[test]
fn test_eval_comparison() {
    let ctx = empty();
    let expr = ExprIR::Binary {
        left: Box::new(ExprIR::Literal { value: LiteralIR::Int { value: 10 } }),
        op: ">".to_string(),
        right: Box::new(ExprIR::Literal { value: LiteralIR::Int { value: 5 } }),
    };
    let result = eval_expr(&expr, &ctx, &mut no_replies()).unwrap();
    assert_eq!(result, Value::Bool(true));
}

#[test]
fn test_get_field() {
    let mut fields = Dict::new();
    fields.insert("x".to_string(), Value::Int(10));
    fields.insert("y".to_string(), Value::Int(20));
    let ctx = Value::Struct { name: "Point".to_string(), fields };

    let expr = ExprIR::FieldAccess {
        base: Box::new(ExprIR::Ident { name: "input".to_string() }),
        field: "x".to_string(),
    };

    // Wrap in map for lookup
    let mut wrapper = Dict::new();
    wrapper.insert("input".to_string(), ctx);
    let result = eval_expr(&expr, &Value::Dict(wrapper), &mut no_replies()).unwrap();
    assert_eq!(result, Value::Int(10));
}

#[test]
fn input_is_the_whole_context_where_no_entry_has_that_name() {
    let mut entries = Dict::new();
    entries.insert("a".to_string(), Value::Int(1));
    let ctx = Value::Dict(entries);
    assert_eq!(get_value(&ctx, &"input".to_string()).unwrap(), ctx);
    assert_eq!(get_value(&Value::Int(7), &"input".to_string()).unwrap(), Value::Int(7));
    let mut fields = Dict::new();
    fields.insert("input".to_string(), Value::Int(1));
    let point = Value::Struct { name: "Point".to_string(), fields };
    assert_eq!(get_value(&point, &"input".to_string()).unwrap(), point);
}

#[test]
fn names_come_from_entries_and_fields() {
    let mut entries = Dict::new();
    entries.insert("a".to_string(), Value::Int(1));
    let ctx = Value::Dict(entries);
    assert_eq!(get_value(&ctx, &"a".to_string()).unwrap(), Value::Int(1));
    let missing = get_value(&ctx, &"b".to_string()).unwrap_err();
    assert!(matches!(missing, InterpreterError::VariableNotFound(n) if n == "b"));
    let nowhere = get_value(&Value::Int(3), &"b".to_string()).unwrap_err();
    assert!(matches!(nowhere, InterpreterError::VariableNotFound(n) if n == "b"));
}

#[test]
fn missing_fields_name_their_owner() {
    let of_map = get_field(&empty(), &"f".to_string()).unwrap_err();
    assert!(
        matches!(of_map, InterpreterError::FieldNotFound { owner, field } if owner == "map" && field == "f")
    );
    let point = Value::Struct { name: "Point".to_string(), fields: Dict::new() };
    let of_struct = get_field(&point, &"f".to_string()).unwrap_err();
    assert!(matches!(of_struct, InterpreterError::FieldNotFound { owner, .. } if owner == "Point"));
    let of_int = get_field(&Value::Int(1), &"f".to_string()).unwrap_err();
    assert!(matches!(of_int, InterpreterError::FieldNotFound { owner, .. } if owner == "int"));
}

#[test]
fn integer_arithmetic() {
    assert_eq!(binary(Value::Int(7), "-", Value::Int(9)), Value::Int(-2));
    assert_eq!(binary(Value::Int(7), "*", Value::Int(-3)), Value::Int(-21));
    assert_eq!(binary(Value::Int(7), "/", Value::Int(2)), Value::Int(3));
    assert_eq!(binary(Value::Int(-7), "/", Value::Int(2)), Value::Int(-3));
    assert_eq!(binary(Value::Int(7), "/", Value::Int(-2)), Value::Int(-3));
    assert_eq!(binary(Value::Int(-7), "/", Value::Int(-2)), Value::Int(3));
    assert_eq!(binary(Value::Int(0), "/", Value::Int(-2)), Value::Int(0));
}

#[test]
fn integer_results_that_do_not_fit() {
    let max = i64::MAX;
    let min = i64::MIN;
    assert!(matches!(binary_error(Value::Int(max), "+", Value::Int(1)), Stop::Fault(Fault::Overflow)));
    assert!(matches!(binary_error(Value::Int(min), "-", Value::Int(1)), Stop::Fault(Fault::Overflow)));
    assert!(matches!(binary_error(Value::Int(max), "*", Value::Int(2)), Stop::Fault(Fault::Overflow)));
    assert!(matches!(binary_error(Value::Int(min), "/", Value::Int(-1)), Stop::Fault(Fault::Overflow)));
    let abs = eval_builtin("abs", &vec![Value::Int(min)]).unwrap_err();
    assert!(matches!(abs, Stop::Fault(Fault::Overflow)));
}

#[test]
fn division_by_zero_is_an_error() {
    let e = binary_error(Value::Int(1), "/", Value::Int(0));
    assert!(matches!(e, Stop::Failed(InterpreterError::Runtime(m)) if m == "Division error"));
    let e = binary_error(text("a"), "/", Value::Int(2));
    assert!(matches!(e, Stop::Failed(InterpreterError::Runtime(m)) if m == "Division error"));
}

#[test]
fn texts_are_put_together() {
    assert_eq!(binary(text("ab"), "+", text("cd")), text("abcd"));
    let e = binary_error(text("ab"), "+", Value::Int(1));
    assert!(
        matches!(e, Stop::Failed(InterpreterError::TypeMismatch { expected, actual })
            if expected == "number or string" && actual == "string, int")
    );
    let e = binary_error(text("ab"), "-", text("b"));
    assert!(
        matches!(e, Stop::Failed(InterpreterError::TypeMismatch { expected, actual })
            if expected == "number" && actual == "string, string")
    );
}

#[test]
fn floating_point_numbers_are_compared_by_value() {
    assert_eq!(binary(float(1.5), "<", float(2.5)), Value::Bool(true));
    assert_eq!(binary(float(-1.5), "<", float(-2.5)), Value::Bool(false));
    assert_eq!(binary(float(-1.0), "<", float(0.0)), Value::Bool(true));
    assert_eq!(binary(float(0.0), "<=", float(-0.0)), Value::Bool(true));
    assert_eq!(binary(float(0.0), "<", float(-0.0)), Value::Bool(false));
    assert_eq!(binary(float(f64::INFINITY), ">", float(1e300)), Value::Bool(true));
    assert_eq!(binary(float(f64::NAN), ">=", float(1.0)), Value::Bool(false));
    assert_eq!(binary(float(f64::NAN), "<", float(1.0)), Value::Bool(false));
    assert_eq!(binary(float(0.0), "==", float(-0.0)), Value::Bool(true));
    assert_eq!(binary(float(f64::NAN), "==", float(f64::NAN)), Value::Bool(false));
    assert_eq!(binary(float(f64::NAN), "!=", float(f64::NAN)), Value::Bool(true));
    let cases = [0.0, -0.0, 1.0, -1.0, 0.1, 1e-310, -1e-310, 3.5e9, f64::MAX, f64::MIN, f64::INFINITY];
    for a in cases {
        for b in cases {
            assert_eq!(binary(float(a), "<", float(b)), Value::Bool(a < b), "{} < {}", a, b);
            assert_eq!(binary(float(a), ">=", float(b)), Value::Bool(a >= b), "{} >= {}", a, b);
            assert_eq!(binary(float(a), "==", float(b)), Value::Bool(a == b), "{} == {}", a, b);
        }
    }
}

#[test]
fn mixed_numbers_are_left_to_the_host() {
    let asked = binary_error(Value::Int(1), "<", float(1.5));
    assert!(
        matches!(asked, Stop::Ask(Request::Compare { op: Comparison::Less, left: Num::Int(1), right: Num::Float(f) })
            if f.bits == 1.5f64.to_bits())
    );
    let mut session = replies(vec![Reply::Flag(true)]);
    let r = eval_binary_op(&Value::Int(1), "<", &float(1.5), &mut session).unwrap();
    assert_eq!(r, Value::Bool(true));

    let asked = binary_error(float(1.5), "*", Value::Int(2));
    assert!(
        matches!(asked, Stop::Ask(Request::Calculate { op: Arithmetic::Times, left: Num::Float(_), right: Num::Int(2) }))
    );
    let mut session = replies(vec![Reply::Number(Float { bits: 3.0f64.to_bits() })]);
    let r = eval_binary_op(&float(1.5), "*", &Value::Int(2), &mut session).unwrap();
    assert_eq!(r, float(3.0));
}

#[test]
fn a_reply_of_another_kind_is_a_fault() {
    let mut session = replies(vec![Reply::Done]);
    let r = eval_binary_op(&Value::Int(1), "<", &float(1.5), &mut session).unwrap_err();
    assert!(matches!(r, Stop::Fault(Fault::UnexpectedReply)));
}

#[test]
fn only_true_counts_as_true() {
    assert_eq!(binary(Value::Bool(true), "&&", Value::Bool(true)), Value::Bool(true));
    assert_eq!(binary(Value::Bool(true), "and", Value::Int(1)), Value::Bool(false));
    assert_eq!(binary(Value::Null, "||", Value::Bool(true)), Value::Bool(true));
    assert_eq!(binary(text("true"), "or", Value::Int(1)), Value::Bool(false));
}

#[test]
fn comparison_of_other_values_fails() {
    let e = binary_error(text("a"), "<", Value::Null);
    assert!(
        matches!(e, Stop::Failed(InterpreterError::TypeMismatch { expected, actual })
            if expected == "number" && actual == "string, null")
    );
}

#[test]
fn unknown_operators_and_functions_fail() {
    let e = binary_error(Value::Int(1), "%", Value::Int(2));
    assert!(matches!(e, Stop::Failed(InterpreterError::Runtime(m)) if m == "Unknown operator: %"));
    let e = eval_builtin("max", &vec![]).unwrap_err();
    assert!(matches!(e, Stop::Failed(InterpreterError::Runtime(m)) if m == "Unknown function: max"));
}

#[test]
fn built_in_functions() {
    let call = |name: &str, args: Vec<Value>| eval_builtin(name, &args).unwrap();
    assert_eq!(call("len", vec![text("h\u{e9}")]), Value::Int(3));
    assert_eq!(call("length", vec![Value::List(vec![Value::Null, Value::Null])]), Value::Int(2));
    assert_eq!(call("len", vec![Value::Bytes(vec![1, 2, 3, 4])]), Value::Int(4));
    assert_eq!(call("len", vec![Value::Int(7)]), Value::Int(0));
    assert_eq!(call("len", vec![]), Value::Int(0));
    assert_eq!(call("is_some", vec![Value::Int(7)]), Value::Bool(true));
    assert_eq!(call("is_some", vec![Value::Null]), Value::Bool(false));
    assert_eq!(call("is_some", vec![]), Value::Bool(false));
    assert_eq!(call("is_none", vec![]), Value::Bool(true));
    assert_eq!(call("is_none", vec![Value::Null]), Value::Bool(true));
    assert_eq!(call("is_none", vec![Value::Int(0)]), Value::Bool(false));
    assert_eq!(call("not", vec![Value::Bool(true)]), Value::Bool(false));
    assert_eq!(call("not", vec![]), Value::Bool(true));
    assert_eq!(call("not", vec![Value::Int(1)]), Value::Bool(true));
    assert_eq!(call("abs", vec![Value::Int(-7)]), Value::Int(7));
    assert_eq!(call("abs", vec![Value::Int(7)]), Value::Int(7));
    assert_eq!(call("abs", vec![float(-2.5)]), float(2.5));
    assert_eq!(call("abs", vec![float(2.5)]), float(2.5));
    assert_eq!(call("abs", vec![text("-7")]), Value::Int(0));
    assert_eq!(call("abs", vec![]), Value::Int(0));
}

#[test]
fn calls_evaluate_their_arguments_in_order() {
    let call = ExprIR::Call {
        function: "len".to_string(),
        args: vec![ExprIR::Literal { value: LiteralIR::String { value: "abc".to_string() } }],
    };
    assert_eq!(eval_expr(&call, &empty(), &mut no_replies()).unwrap(), Value::Int(3));
    let failing = ExprIR::Call {
        function: "len".to_string(),
        args: vec![
            ExprIR::Ident { name: "a".to_string() },
            ExprIR::Ident { name: "b".to_string() },
        ],
    };
    let e = eval_expr(&failing, &empty(), &mut no_replies()).unwrap_err();
    assert!(matches!(e, Stop::Failed(InterpreterError::VariableNotFound(n)) if n == "a"));
}

#[test]
fn foreign_calls_are_left_to_the_host() {
    let call = ExprIR::ForeignCall {
        module: "math".to_string(),
        function: "sum".to_string(),
        args: vec![int_literal(1), int_literal(2)],
    };
    let asked = eval_expr(&call, &empty(), &mut no_replies()).unwrap_err();
    assert!(
        matches!(asked, Stop::Ask(Request::Foreign { module, function, args })
            if module == "math" && function == "sum" && args == vec![Value::Int(1), Value::Int(2)])
    );
    let mut given = replies(vec![Reply::Value(Ok(Value::Int(3)))]);
    assert_eq!(eval_expr(&call, &empty(), &mut given).unwrap(), Value::Int(3));
    let mut refused = replies(vec![Reply::Value(Err(InterpreterError::Runtime("no".to_string())))]);
    let e = eval_expr(&call, &empty(), &mut refused).unwrap_err();
    assert!(matches!(e, Stop::Failed(InterpreterError::Runtime(m)) if m == "no"));
}

#[test]
fn literals_of_every_kind() {
    let value = |lit: LiteralIR| {
        eval_expr(&ExprIR::Literal { value: lit }, &empty(), &mut no_replies()).unwrap()
    };
    assert_eq!(value(LiteralIR::Bool { value: true }), Value::Bool(true));
    assert_eq!(value(LiteralIR::Null), Value::Null);
    assert_eq!(value(LiteralIR::String { value: "s".to_string() }), text("s"));
    assert_eq!(value(LiteralIR::Float { value: Float { bits: 2.5f64.to_bits() } }), float(2.5));
}

#[test]
fn equality_of_dictionaries_does_not_depend_on_order() {
    let mut a = Dict::new();
    a.insert("x".to_string(), Value::Int(1));
    a.insert("y".to_string(), Value::List(vec![Value::Null]));
    let mut b = Dict::new();
    b.insert("y".to_string(), Value::List(vec![Value::Null]));
    b.insert("x".to_string(), Value::Int(1));
    assert_eq!(Value::Dict(a), Value::Dict(b));
    let mut c = Dict::new();
    c.insert("x".to_string(), Value::Int(1));
    let mut d = Dict::new();
    d.insert("x".to_string(), Value::Int(1));
    d.insert("y".to_string(), Value::Null);
    assert_ne!(Value::Dict(c), Value::Dict(d));
    assert_ne!(Value::Int(1), float(1.0));
    assert_eq!(Value::Bytes(vec![1, 2]), Value::Bytes(vec![1, 2]));
    assert_ne!(Value::Bytes(vec![1, 2]), Value::Bytes(vec![1, 3]));
}
