//! Evaluation of expressions.
use vstd::prelude::*;
use vstd::string::*;
use vstd::utf8::encode_utf8;
use crate::error::{InterpreterError, InterpreterErrorView};
use crate::ir::{ExprIR, LiteralIR};
use crate::session::{
    ask_flag, ask_foreign, ask_number, value_end, Arithmetic, Comparison, Fault, Num, Outcome,
    ReplyView, Request, RequestView, Session, Stop, StopView,
};
use crate::text::same_text;
use crate::value::{
    bool_of, float_is_nan, kind_of, list_view, look_up, values_equal, Float, Value, ValueView,
};

verus! {

/// The value of a literal.
pub open spec fn literal_value(lit: LiteralIR) -> ValueView {
    match lit {
        LiteralIR::Int { value } => ValueView::Int(value),
        LiteralIR::Float { value } => ValueView::Float(value.bits),
        LiteralIR::String { value } => ValueView::String(value@),
        LiteralIR::Bool { value } => ValueView::Bool(value),
        LiteralIR::Null => ValueView::Null,
    }
}

/// What a name stands for in a context: one of its entries or fields. The name `input` stands
/// for the entry of that name, and for the whole context where there is no such entry.
pub open spec fn variable(
    ctx: ValueView,
    name: Seq<char>,
) -> Result<ValueView, InterpreterErrorView> {
    match ctx {
        ValueView::Dict(m) if m.dom().contains(name) => Ok(m[name]),
        _ if name == "input"@ => Ok(ctx),
        ValueView::Struct { name: _, fields } if fields.dom().contains(name) => Ok(fields[name]),
        _ => Err(InterpreterErrorView::VariableNotFound(name)),
    }
}

/// A field of a value.
pub open spec fn field_of(
    v: ValueView,
    field: Seq<char>,
) -> Result<ValueView, InterpreterErrorView> {
    match v {
        ValueView::Dict(m) if m.dom().contains(field) => Ok(m[field]),
        ValueView::Struct { name: _, fields } if fields.dom().contains(field) => Ok(fields[field]),
        ValueView::Struct { name, fields: _ } => Err(
            InterpreterErrorView::FieldNotFound { owner: name, field },
        ),
        _ => Err(InterpreterErrorView::FieldNotFound { owner: kind_of(v), field }),
    }
}

/// The end of a run that fails where `r` is an error.
pub open spec fn or_fail<T>(r: Result<T, InterpreterErrorView>) -> Result<T, StopView> {
    match r {
        Ok(v) => Ok(v),
        Err(e) => Err(StopView::Failed(e)),
    }
}

/// Where a number stands among the numbers: its magnitude, counted in steps from zero, with its
/// sign.
pub open spec fn float_place(bits: u64) -> int {
    if bits < 0x8000_0000_0000_0000 {
        bits as int
    } else {
        0x8000_0000_0000_0000 - bits
    }
}

/// A comparison of integers.
pub open spec fn int_compares(op: Comparison, l: int, r: int) -> bool {
    match op {
        Comparison::Less => l < r,
        Comparison::LessOrEqual => l <= r,
        Comparison::Greater => l > r,
        Comparison::GreaterOrEqual => l >= r,
    }
}

/// A comparison of floating-point numbers: false where either is not a number.
pub open spec fn float_compares(op: Comparison, l: u64, r: u64) -> bool {
    !float_is_nan(l) && !float_is_nan(r) && int_compares(op, float_place(l), float_place(r))
}

/// The number that a value is.
pub open spec fn num_of(v: ValueView) -> Option<Num> {
    match v {
        ValueView::Int(i) => Some(Num::Int(i)),
        ValueView::Float(bits) => Some(Num::Float(Float { bits })),
        _ => None,
    }
}

/// The error of an operation on values of the wrong kind.
pub open spec fn mismatch(expected: Seq<char>, l: ValueView, r: ValueView) -> StopView {
    StopView::Failed(
        InterpreterErrorView::TypeMismatch { expected, actual: kind_of(l) + ", "@ + kind_of(r) },
    )
}

/// A comparison of values. An integer and a floating-point number are compared as
/// floating-point numbers, by the host.
pub open spec fn compare_values(
    op: Comparison,
    l: ValueView,
    r: ValueView,
    rs: Seq<ReplyView>,
) -> Outcome<ValueView> {
    match (num_of(l), num_of(r)) {
        (Some(Num::Int(a)), Some(Num::Int(b))) => (
            Ok(ValueView::Bool(int_compares(op, a as int, b as int))),
            rs,
        ),
        (Some(Num::Float(a)), Some(Num::Float(b))) => (
            Ok(ValueView::Bool(float_compares(op, a.bits, b.bits))),
            rs,
        ),
        (Some(left), Some(right)) => match ask_flag(rs, RequestView::Compare { op, left, right }) {
            (Ok(b), rest) => (Ok(ValueView::Bool(b)), rest),
            (Err(e), rest) => (Err(e), rest),
        },
        _ => (Err(mismatch("number"@, l, r)), rs),
    }
}

/// The quotient of two integers, rounded toward zero.
pub open spec fn quotient(a: int, b: int) -> int
    recommends
        b != 0,
{
    if a >= 0 && b > 0 {
        a / b
    } else if a >= 0 {
        -(a / (-b))
    } else if b > 0 {
        -((-a) / b)
    } else {
        (-a) / (-b)
    }
}

/// An operation on integers, before it is known whether the result fits.
pub open spec fn int_result(op: Arithmetic, a: int, b: int) -> int {
    match op {
        Arithmetic::Plus => a + b,
        Arithmetic::Minus => a - b,
        Arithmetic::Times => a * b,
        Arithmetic::Over => quotient(a, b),
    }
}

/// The error of an arithmetic operation on values that it is not for.
pub open spec fn arithmetic_error(op: Arithmetic, l: ValueView, r: ValueView) -> StopView {
    match op {
        Arithmetic::Plus => mismatch("number or string"@, l, r),
        Arithmetic::Minus => mismatch("number"@, l, r),
        Arithmetic::Times => mismatch("number"@, l, r),
        Arithmetic::Over => StopView::Failed(InterpreterErrorView::Runtime("Division error"@)),
    }
}

/// An arithmetic operation. Integers give an integer, which has to fit; two texts are put
/// together by addition; where a floating-point number takes part, the host calculates.
pub open spec fn arithmetic(
    op: Arithmetic,
    l: ValueView,
    r: ValueView,
    rs: Seq<ReplyView>,
) -> Outcome<ValueView> {
    match (l, r) {
        (ValueView::String(a), ValueView::String(b)) if op == Arithmetic::Plus => (
            Ok(ValueView::String(a + b)),
            rs,
        ),
        _ => match (num_of(l), num_of(r)) {
            (Some(Num::Int(a)), Some(Num::Int(b))) => if op == Arithmetic::Over && b == 0 {
                (Err(arithmetic_error(op, l, r)), rs)
            } else {
                let x = int_result(op, a as int, b as int);
                if i64::MIN <= x <= i64::MAX {
                    (Ok(ValueView::Int(x as i64)), rs)
                } else {
                    (Err(StopView::Fault(Fault::Overflow)), rs)
                }
            },
            (Some(left), Some(right)) => match ask_number(
                rs,
                RequestView::Calculate { op, left, right },
            ) {
                (Ok(bits), rest) => (Ok(ValueView::Float(bits)), rest),
                (Err(e), rest) => (Err(e), rest),
            },
            _ => (Err(arithmetic_error(op, l, r)), rs),
        },
    }
}

/// Whether a value is the truth value true.
pub open spec fn is_true(v: ValueView) -> bool {
    bool_of(v) == Some(true)
}

/// A binary operation.
pub open spec fn binary_op(
    l: ValueView,
    op: Seq<char>,
    r: ValueView,
    rs: Seq<ReplyView>,
) -> Outcome<ValueView> {
    if op == "=="@ {
        (Ok(ValueView::Bool(values_equal(l, r))), rs)
    } else if op == "!="@ {
        (Ok(ValueView::Bool(!values_equal(l, r))), rs)
    } else if op == "<"@ {
        compare_values(Comparison::Less, l, r, rs)
    } else if op == "<="@ {
        compare_values(Comparison::LessOrEqual, l, r, rs)
    } else if op == ">"@ {
        compare_values(Comparison::Greater, l, r, rs)
    } else if op == ">="@ {
        compare_values(Comparison::GreaterOrEqual, l, r, rs)
    } else if op == "+"@ {
        arithmetic(Arithmetic::Plus, l, r, rs)
    } else if op == "-"@ {
        arithmetic(Arithmetic::Minus, l, r, rs)
    } else if op == "*"@ {
        arithmetic(Arithmetic::Times, l, r, rs)
    } else if op == "/"@ {
        arithmetic(Arithmetic::Over, l, r, rs)
    } else if op == "&&"@ || op == "and"@ {
        (Ok(ValueView::Bool(is_true(l) && is_true(r))), rs)
    } else if op == "||"@ || op == "or"@ {
        (Ok(ValueView::Bool(is_true(l) || is_true(r))), rs)
    } else {
        (Err(StopView::Failed(InterpreterErrorView::Runtime("Unknown operator: "@ + op))), rs)
    }
}

/// The length of a text in bytes, of a list in items, and of bytes; nothing else has one.
pub open spec fn length_of(v: ValueView) -> i64 {
    match v {
        ValueView::String(s) => (encode_utf8(s).len() as usize) as i64,
        ValueView::List(l) => (l.len() as usize) as i64,
        ValueView::Bytes(b) => (b.len() as usize) as i64,
        _ => 0,
    }
}

/// A built-in function.
pub open spec fn builtin(name: Seq<char>, args: Seq<ValueView>) -> Result<ValueView, StopView> {
    let first = if args.len() > 0 {
        args[0]
    } else {
        ValueView::Null
    };
    if name == "len"@ || name == "length"@ {
        Ok(ValueView::Int(length_of(first)))
    } else if name == "is_some"@ {
        Ok(ValueView::Bool(!(first is Null)))
    } else if name == "is_none"@ {
        Ok(ValueView::Bool(first is Null))
    } else if name == "not"@ {
        Ok(ValueView::Bool(!is_true(first)))
    } else if name == "abs"@ {
        match first {
            ValueView::Int(i) if i == i64::MIN => Err(StopView::Fault(Fault::Overflow)),
            ValueView::Int(i) if i < 0 => Ok(ValueView::Int((-i) as i64)),
            ValueView::Int(i) => Ok(ValueView::Int(i)),
            ValueView::Float(bits) => Ok(
                ValueView::Float(((bits as int) % 0x8000_0000_0000_0000) as u64),
            ),
            _ => Ok(ValueView::Int(0)),
        }
    } else {
        Err(StopView::Failed(InterpreterErrorView::Runtime("Unknown function: "@ + name)))
    }
}

/// The value of an expression.
pub open spec fn eval(e: ExprIR, ctx: ValueView, rs: Seq<ReplyView>) -> Outcome<ValueView>
    decreases e, 0nat,
{
    match e {
        ExprIR::Literal { value } => (Ok(literal_value(value)), rs),
        ExprIR::Ident { name } => (or_fail(variable(ctx, name@)), rs),
        ExprIR::FieldAccess { base, field } => match eval(*base, ctx, rs) {
            (Ok(v), rest) => (or_fail(field_of(v, field@)), rest),
            (Err(s), rest) => (Err(s), rest),
        },
        ExprIR::Binary { left, op, right } => match eval(*left, ctx, rs) {
            (Ok(l), rest) => match eval(*right, ctx, rest) {
                (Ok(r), rest) => binary_op(l, op@, r, rest),
                (Err(s), rest) => (Err(s), rest),
            },
            (Err(s), rest) => (Err(s), rest),
        },
        ExprIR::Call { function, args } => match eval_all(args@, 0, Seq::empty(), ctx, rs) {
            (Ok(vs), rest) => (builtin(function@, vs), rest),
            (Err(s), rest) => (Err(s), rest),
        },
        ExprIR::ForeignCall { module, function, args } => match eval_all(
            args@,
            0,
            Seq::empty(),
            ctx,
            rs,
        ) {
            (Ok(vs), rest) => foreign(module@, function@, vs, rest),
            (Err(s), rest) => (Err(s), rest),
        },
    }
}

/// The values of the expressions from the `i`-th on, in order, after those of the ones before.
pub open spec fn eval_all(
    es: Seq<ExprIR>,
    i: nat,
    done: Seq<ValueView>,
    ctx: ValueView,
    rs: Seq<ReplyView>,
) -> Outcome<Seq<ValueView>>
    decreases es, es.len() - i,
{
    if i >= es.len() {
        (Ok(done), rs)
    } else {
        match eval(es[i as int], ctx, rs) {
            (Ok(v), rest) => eval_all(es, i + 1, done.push(v), ctx, rest),
            (Err(s), rest) => (Err(s), rest),
        }
    }
}

/// A call of a foreign function, which the host makes.
pub open spec fn foreign(
    module: Seq<char>,
    function: Seq<char>,
    args: Seq<ValueView>,
    rs: Seq<ReplyView>,
) -> Outcome<ValueView> {
    match ask_foreign(rs, RequestView::Foreign { module, function, args }) {
        (Ok(r), rest) => (or_fail(r), rest),
        (Err(s), rest) => (Err(s), rest),
    }
}

/// The value of a literal.
pub fn literal_to_value(lit: &LiteralIR) -> (r: Value)
    ensures
        r@ == literal_value(*lit),
{
    match lit {
        LiteralIR::Int { value } => Value::Int(*value),
        LiteralIR::Float { value } => Value::Float(*value),
        LiteralIR::String { value } => Value::String(value.clone()),
        LiteralIR::Bool { value } => Value::Bool(*value),
        LiteralIR::Null => Value::Null,
    }
}

/// What came of an attempt that can fail.
pub open spec fn attempt(r: Result<Value, InterpreterError>) -> Result<
    ValueView,
    InterpreterErrorView,
> {
    match r {
        Ok(v) => Ok(v@),
        Err(e) => Err(e@),
    }
}

/// What a name stands for in a context.
pub fn get_value(ctx: &Value, name: &String) -> (r: Result<Value, InterpreterError>)
    ensures
        attempt(r) == variable(ctx@, name@),
{
    if let Value::Dict(m) = ctx {
        if let Some(v) = look_up(m, name) {
            return Ok(v.copy());
        }
    }
    if same_text(name.as_str(), "input") {
        return Ok(ctx.copy());
    }
    if let Value::Struct { name: _, fields } = ctx {
        if let Some(v) = look_up(fields, name) {
            return Ok(v.copy());
        }
    }
    Err(InterpreterError::VariableNotFound(name.clone()))
}

/// A field of a value.
pub fn get_field(val: &Value, field: &String) -> (r: Result<Value, InterpreterError>)
    ensures
        attempt(r) == field_of(val@, field@),
{
    match val {
        Value::Dict(m) => match look_up(m, field) {
            Some(v) => Ok(v.copy()),
            None => Err(
                InterpreterError::FieldNotFound { owner: "map".to_string(), field: field.clone() },
            ),
        },
        Value::Struct { name, fields } => match look_up(fields, field) {
            Some(v) => Ok(v.copy()),
            None => Err(
                InterpreterError::FieldNotFound { owner: name.clone(), field: field.clone() },
            ),
        },
        _ => Err(
            InterpreterError::FieldNotFound {
                owner: val.kind().to_string(),
                field: field.clone(),
            },
        ),
    }
}

/// The error of an operation on values of the wrong kind.
fn mismatch_error(expected: &str, l: &Value, r: &Value) -> (s: Stop)
    ensures
        s@ == mismatch(expected@, l@, r@),
{
    Stop::Failed(
        InterpreterError::TypeMismatch {
            expected: expected.to_string(),
            actual: l.kind().to_string().concat(", ").concat(r.kind()),
        },
    )
}

/// The number that a value is.
fn number_in(v: &Value) -> (r: Option<Num>)
    ensures
        r == num_of(v@),
{
    match v {
        Value::Int(i) => Some(Num::Int(*i)),
        Value::Float(f) => Some(Num::Float(*f)),
        _ => None,
    }
}

/// A comparison of integers.
fn compare_ints(op: Comparison, l: i64, r: i64) -> (b: bool)
    ensures
        b == int_compares(op, l as int, r as int),
{
    match op {
        Comparison::Less => l < r,
        Comparison::LessOrEqual => l <= r,
        Comparison::Greater => l > r,
        Comparison::GreaterOrEqual => l >= r,
    }
}

/// Where a number that is one stands among the numbers.
fn place_of(f: Float) -> (r: i64)
    requires
        !float_is_nan(f.bits),
    ensures
        r == float_place(f.bits),
{
    if f.bits < 0x8000_0000_0000_0000 {
        f.bits as i64
    } else {
        let magnitude: u64 = f.bits - 0x8000_0000_0000_0000;
        -(magnitude as i64)
    }
}

/// A comparison of floating-point numbers.
fn compare_floats(op: Comparison, l: Float, r: Float) -> (b: bool)
    ensures
        b == float_compares(op, l.bits, r.bits),
{
    if l.is_nan() || r.is_nan() {
        false
    } else {
        compare_ints(op, place_of(l), place_of(r))
    }
}

/// A comparison of values.
pub fn eval_comparison(op: Comparison, left: &Value, right: &Value, session: &mut Session) -> (r:
    Result<Value, Stop>)
    ensures
        (value_end(r), final(session)@) == compare_values(op, left@, right@, old(session)@),
{
    match (number_in(left), number_in(right)) {
        (Some(Num::Int(a)), Some(Num::Int(b))) => Ok(Value::Bool(compare_ints(op, a, b))),
        (Some(Num::Float(a)), Some(Num::Float(b))) => Ok(Value::Bool(compare_floats(op, a, b))),
        (Some(a), Some(b)) => match session.ask_flag(
            Request::Compare { op, left: a, right: b },
        ) {
            Ok(b) => Ok(Value::Bool(b)),
            Err(e) => Err(e),
        },
        _ => Err(mismatch_error("number", left, right)),
    }
}

/// An operation on integers, where it is defined and the result fits.
fn int_operation(op: Arithmetic, a: i64, b: i64) -> (r: Option<i64>)
    requires
        !(op == Arithmetic::Over && b == 0),
    ensures
        match r {
            Some(x) => x == int_result(op, a as int, b as int),
            None => !(i64::MIN <= int_result(op, a as int, b as int) <= i64::MAX),
        },
{
    match op {
        Arithmetic::Plus => a.checked_add(b),
        Arithmetic::Minus => a.checked_sub(b),
        Arithmetic::Times => a.checked_mul(b),
        Arithmetic::Over => {
            proof {
                if a == 0 && b < 0 {
                    assert(0int / (-b) == 0) by (nonlinear_arith)
                        requires
                            b < 0,
                    ;
                }
                if a == 0 && b > 0 {
                    assert(0int / (b as int) == 0) by (nonlinear_arith)
                        requires
                            b > 0,
                    ;
                }
            }
            a.checked_div(b)
        },
    }
}

/// The error of an arithmetic operation on values that it is not for.
fn operation_error(op: Arithmetic, l: &Value, r: &Value) -> (s: Stop)
    ensures
        s@ == arithmetic_error(op, l@, r@),
{
    match op {
        Arithmetic::Plus => mismatch_error("number or string", l, r),
        Arithmetic::Minus => mismatch_error("number", l, r),
        Arithmetic::Times => mismatch_error("number", l, r),
        Arithmetic::Over => Stop::Failed(InterpreterError::Runtime("Division error".to_string())),
    }
}

/// An arithmetic operation.
pub fn eval_arithmetic(op: Arithmetic, left: &Value, right: &Value, session: &mut Session) -> (r:
    Result<Value, Stop>)
    ensures
        (value_end(r), final(session)@) == arithmetic(op, left@, right@, old(session)@),
{
    if op == Arithmetic::Plus {
        if let (Value::String(a), Value::String(b)) = (left, right) {
            return Ok(Value::String(a.clone().concat(b.as_str())));
        }
    }
    match (number_in(left), number_in(right)) {
        (Some(Num::Int(a)), Some(Num::Int(b))) => if op == Arithmetic::Over && b == 0 {
            Err(operation_error(op, left, right))
        } else {
            match int_operation(op, a, b) {
                Some(x) => Ok(Value::Int(x)),
                None => Err(Stop::Fault(Fault::Overflow)),
            }
        },
        (Some(a), Some(b)) => match session.ask_number(
            Request::Calculate { op, left: a, right: b },
        ) {
            Ok(f) => Ok(Value::Float(f)),
            Err(e) => Err(e),
        },
        _ => Err(operation_error(op, left, right)),
    }
}

/// Whether a value is the truth value true.
pub fn holds(v: &Value) -> (r: bool)
    ensures
        r == is_true(v@),
{
    match v.as_bool() {
        Some(b) => b,
        None => false,
    }
}

/// A binary operation.
pub fn eval_binary_op(left: &Value, op: &str, right: &Value, session: &mut Session) -> (r: Result<
    Value,
    Stop,
>)
    ensures
        (value_end(r), final(session)@) == binary_op(left@, op@, right@, old(session)@),
{
    if same_text(op, "==") {
        Ok(Value::Bool(left.same(right)))
    } else if same_text(op, "!=") {
        Ok(Value::Bool(!left.same(right)))
    } else if same_text(op, "<") {
        eval_comparison(Comparison::Less, left, right, session)
    } else if same_text(op, "<=") {
        eval_comparison(Comparison::LessOrEqual, left, right, session)
    } else if same_text(op, ">") {
        eval_comparison(Comparison::Greater, left, right, session)
    } else if same_text(op, ">=") {
        eval_comparison(Comparison::GreaterOrEqual, left, right, session)
    } else if same_text(op, "+") {
        eval_arithmetic(Arithmetic::Plus, left, right, session)
    } else if same_text(op, "-") {
        eval_arithmetic(Arithmetic::Minus, left, right, session)
    } else if same_text(op, "*") {
        eval_arithmetic(Arithmetic::Times, left, right, session)
    } else if same_text(op, "/") {
        eval_arithmetic(Arithmetic::Over, left, right, session)
    } else if same_text(op, "&&") || same_text(op, "and") {
        Ok(Value::Bool(holds(left) && holds(right)))
    } else if same_text(op, "||") || same_text(op, "or") {
        Ok(Value::Bool(holds(left) || holds(right)))
    } else {
        Err(
            Stop::Failed(
                InterpreterError::Runtime("Unknown operator: ".to_string().concat(op)),
            ),
        )
    }
}

/// The length of a value, as `len` gives it.
fn length(v: &Value) -> (r: i64)
    ensures
        r == length_of(v@),
{
    match v {
        Value::String(s) => s.as_str().len() as i64,
        Value::List(l) => {
            proof {
                crate::value::lemma_list_view(l@);
            }
            l.len() as i64
        },
        Value::Bytes(b) => b.len() as i64,
        _ => 0,
    }
}

/// The first argument, if there is one.
fn first_argument(args: &Vec<Value>) -> (r: Option<&Value>)
    ensures
        match r {
            Some(v) => list_view(args@).len() > 0 && v@ == list_view(args@)[0],
            None => list_view(args@).len() == 0,
        },
{
    proof {
        crate::value::lemma_list_view(args@);
    }
    if args.len() > 0 {
        Some(&args[0])
    } else {
        None
    }
}

/// A built-in function.
pub fn eval_builtin(name: &str, args: &Vec<Value>) -> (r: Result<Value, Stop>)
    ensures
        value_end(r) == builtin(name@, list_view(args@)),
{
    let null = Value::Null;
    let first = match first_argument(args) {
        Some(v) => v,
        None => &null,
    };
    if same_text(name, "len") || same_text(name, "length") {
        Ok(Value::Int(length(first)))
    } else if same_text(name, "is_some") {
        Ok(
            Value::Bool(
                match first {
                    Value::Null => false,
                    _ => true,
                },
            ),
        )
    } else if same_text(name, "is_none") {
        Ok(
            Value::Bool(
                match first {
                    Value::Null => true,
                    _ => false,
                },
            ),
        )
    } else if same_text(name, "not") {
        Ok(Value::Bool(!holds(first)))
    } else if same_text(name, "abs") {
        match first {
            Value::Int(i) => if *i == i64::MIN {
                Err(Stop::Fault(Fault::Overflow))
            } else if *i < 0 {
                Ok(Value::Int(-*i))
            } else {
                Ok(Value::Int(*i))
            },
            Value::Float(f) => Ok(Value::Float(Float { bits: f.bits % 0x8000_0000_0000_0000 })),
            _ => Ok(Value::Int(0)),
        }
    } else {
        Err(
            Stop::Failed(
                InterpreterError::Runtime("Unknown function: ".to_string().concat(name)),
            ),
        )
    }
}

/// A call of a foreign function.
pub fn call_foreign(
    module: &String,
    function: &String,
    args: Vec<Value>,
    session: &mut Session,
) -> (r: Result<Value, Stop>)
    ensures
        (value_end(r), final(session)@) == foreign(
            module@,
            function@,
            list_view(args@),
            old(session)@,
        ),
{
    match session.ask_foreign(
        Request::Foreign { module: module.clone(), function: function.clone(), args },
    ) {
        Ok(Ok(v)) => Ok(v),
        Ok(Err(e)) => Err(Stop::Failed(e)),
        Err(s) => Err(s),
    }
}

/// An attempt, as a run.
pub fn run_of(r: Result<Value, InterpreterError>) -> (s: Result<Value, Stop>)
    ensures
        value_end(s) == or_fail(attempt(r)),
{
    match r {
        Ok(v) => Ok(v),
        Err(e) => Err(Stop::Failed(e)),
    }
}

/// The value of an expression.
pub fn eval_expr(expr: &ExprIR, ctx: &Value, session: &mut Session) -> (r: Result<Value, Stop>)
    ensures
        (value_end(r), final(session)@) == eval(*expr, ctx@, old(session)@),
    decreases expr, 0nat,
{
    match expr {
        ExprIR::Literal { value } => Ok(literal_to_value(value)),
        ExprIR::Ident { name } => run_of(get_value(ctx, name)),
        ExprIR::FieldAccess { base, field } => match eval_expr(base, ctx, session) {
            Ok(v) => run_of(get_field(&v, field)),
            Err(s) => Err(s),
        },
        ExprIR::Binary { left, op, right } => match eval_expr(left, ctx, session) {
            Ok(l) => match eval_expr(right, ctx, session) {
                Ok(r) => eval_binary_op(&l, op.as_str(), &r, session),
                Err(s) => Err(s),
            },
            Err(s) => Err(s),
        },
        ExprIR::Call { function, args } => match eval_args(args, ctx, session) {
            Ok(vs) => eval_builtin(function.as_str(), &vs),
            Err(s) => Err(s),
        },
        ExprIR::ForeignCall { module, function, args } => match eval_args(args, ctx, session) {
            Ok(vs) => call_foreign(module, function, vs, session),
            Err(s) => Err(s),
        },
    }
}

/// What came of a run that gives a list of values.
pub open spec fn list_end(r: Result<Vec<Value>, Stop>) -> Result<Seq<ValueView>, StopView> {
    match r {
        Ok(v) => Ok(list_view(v@)),
        Err(s) => Err(s@),
    }
}

/// The values of expressions, in order.
fn eval_args(args: &Vec<ExprIR>, ctx: &Value, session: &mut Session) -> (r: Result<
    Vec<Value>,
    Stop,
>)
    ensures
        (list_end(r), final(session)@) == eval_all(
            args@,
            0,
            Seq::empty(),
            ctx@,
            old(session)@,
        ),
    decreases args, 0nat,
{
    let mut out: Vec<Value> = Vec::new();
    let mut i: usize = 0;
    while i < args.len()
        invariant
            i <= args@.len(),
            eval_all(args@, 0, Seq::empty(), ctx@, old(session)@) == eval_all(
                args@,
                i as nat,
                list_view(out@),
                ctx@,
                session@,
            ),
        decreases args@.len() - i,
    {
        match eval_expr(&args[i], ctx, session) {
            Ok(v) => {
                let ghost before = out@;
                out.push(v);
                assert(out@.drop_last() =~= before);
            },
            Err(s) => {
                return Err(s);
            },
        }
        i = i + 1;
    }
    Ok(out)
}

/// The name `input` always stands for something: for the entry of that name, or for the whole
/// context.
pub proof fn input_is_always_there(ctx: ValueView, rs: Seq<ReplyView>, name: String)
    requires
        name@ == "input"@,
    ensures
        eval(ExprIR::Ident { name }, ctx, rs) == (
            Ok::<ValueView, StopView>(
                match ctx {
                    ValueView::Dict(m) if m.dom().contains("input"@) => m["input"@],
                    _ => ctx,
                },
            ),
            rs,
        ),
{
}

/// The logical operators and the built-in `not` take every value but true for false.
pub proof fn only_true_is_true(l: ValueView, r: ValueView, rs: Seq<ReplyView>)
    ensures
        binary_op(l, "&&"@, r, rs) == (
            Ok::<ValueView, StopView>(ValueView::Bool(is_true(l) && is_true(r))),
            rs,
        ),
        binary_op(l, "||"@, r, rs) == (
            Ok::<ValueView, StopView>(ValueView::Bool(is_true(l) || is_true(r))),
            rs,
        ),
        builtin("not"@, seq![l]) == Ok::<ValueView, StopView>(ValueView::Bool(!is_true(l))),
{
    lemma_names_differ();
}

/// Of `is_some` and `is_none` exactly one holds.
pub proof fn some_or_none(args: Seq<ValueView>)
    ensures
        builtin("is_some"@, args) matches Ok(ValueView::Bool(a)) && builtin("is_none"@, args)
            matches Ok(ValueView::Bool(b)) && a != b,
{
    lemma_names_differ();
}

proof fn lemma_names_differ()
    ensures
        forall|op: Seq<char>| #![trigger op.len()]
            (op == "&&"@ || op == "||"@) ==> op != "=="@ && op != "!="@ && op != "<"@ && op != "<="@
                && op != ">"@ && op != ">="@ && op != "+"@ && op != "-"@ && op != "*"@ && op
                != "/"@,
        "&&"@ != "||"@,
        "||"@ != "and"@,
        "not"@ != "len"@,
        "not"@ != "length"@,
        "not"@ != "is_some"@,
        "not"@ != "is_none"@,
        "is_some"@ != "len"@,
        "is_some"@ != "length"@,
        "is_none"@ != "len"@,
        "is_none"@ != "length"@,
        "is_none"@ != "is_some"@,
{
    reveal_strlit("&&");
    reveal_strlit("||");
    reveal_strlit("and");
    reveal_strlit("==");
    reveal_strlit("!=");
    reveal_strlit("<");
    reveal_strlit("<=");
    reveal_strlit(">");
    reveal_strlit(">=");
    reveal_strlit("+");
    reveal_strlit("-");
    reveal_strlit("*");
    reveal_strlit("/");
    reveal_strlit("not");
    reveal_strlit("len");
    reveal_strlit("length");
    reveal_strlit("is_some");
    reveal_strlit("is_none");
    assert("&&"@[0] == '&' && "||"@[0] == '|' && "=="@[0] == '=' && "!="@[0] == '!');
    assert("<="@[0] == '<' && ">="@[0] == '>');
    assert("not"@[0] == 'n' && "len"@[0] == 'l');
    assert("is_some"@[3] == 's' && "is_none"@[3] == 'n');
}

} // verus!
