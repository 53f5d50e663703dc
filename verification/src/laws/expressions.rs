//! Laws of expressions: operators, built-in functions, names, fields and calls.
use vstd::arithmetic::div_mod::lemma_fundamental_div_mod;
use vstd::prelude::*;
use vstd::string::*;
use vstd::utf8::encode_utf8;
use crate::error::InterpreterErrorView;
use crate::expr::{binary_op, builtin, eval, eval_all, quotient};
use crate::ir::{ExprIR, LiteralIR};
use crate::laws::{asks, fails, gives, stops};
use crate::session::{Arithmetic, Comparison, Fault, Num, ReplyView, RequestView, StopView};
use crate::value::{values_equal, Float, ValueView};

verus! {

/// What the operators are spelled with.
proof fn lemma_operators()
    ensures
        "=="@.len() == 2 && "=="@[0] == '=' && "=="@[1] == '=',
        "!="@.len() == 2 && "!="@[0] == '!' && "!="@[1] == '=',
        "<"@.len() == 1 && "<"@[0] == '<',
        "<="@.len() == 2 && "<="@[0] == '<' && "<="@[1] == '=',
        ">"@.len() == 1 && ">"@[0] == '>',
        ">="@.len() == 2 && ">="@[0] == '>' && ">="@[1] == '=',
        "+"@.len() == 1 && "+"@[0] == '+',
        "-"@.len() == 1 && "-"@[0] == '-',
        "*"@.len() == 1 && "*"@[0] == '*',
        "/"@.len() == 1 && "/"@[0] == '/',
        "&&"@.len() == 2 && "&&"@[0] == '&',
        "and"@.len() == 3 && "and"@[0] == 'a',
        "||"@.len() == 2 && "||"@[0] == '|',
        "or"@.len() == 2 && "or"@[0] == 'o',
{
    reveal_strlit("==");
    reveal_strlit("!=");
    reveal_strlit("<");
    reveal_strlit("<=");
    reveal_strlit(">");
    reveal_strlit(">=");
    reveal_strlit("+");
    reveal_strlit("-");
    reveal_strlit("*");
    reveal_strlit("/");
    reveal_strlit("&&");
    reveal_strlit("and");
    reveal_strlit("||");
    reveal_strlit("or");
}

/// What the built-in functions are spelled with.
proof fn lemma_builtins()
    ensures
        "len"@.len() == 3 && "len"@[0] == 'l',
        "length"@.len() == 6,
        "is_some"@.len() == 7 && "is_some"@[3] == 's',
        "is_none"@.len() == 7 && "is_none"@[3] == 'n',
        "not"@.len() == 3 && "not"@[0] == 'n',
        "abs"@.len() == 3 && "abs"@[0] == 'a',
{
    reveal_strlit("len");
    reveal_strlit("length");
    reveal_strlit("is_some");
    reveal_strlit("is_none");
    reveal_strlit("not");
    reveal_strlit("abs");
}

/// Integers are compared as the numbers that they are, and no reply is used.
pub proof fn integers_compare_as_numbers(a: i64, b: i64, rs: Seq<ReplyView>)
    ensures
        binary_op(ValueView::Int(a), "<"@, ValueView::Int(b), rs) == gives(
            ValueView::Bool(a < b),
            rs,
        ),
        binary_op(ValueView::Int(a), "<="@, ValueView::Int(b), rs) == gives(
            ValueView::Bool(a <= b),
            rs,
        ),
        binary_op(ValueView::Int(a), ">"@, ValueView::Int(b), rs) == gives(
            ValueView::Bool(a > b),
            rs,
        ),
        binary_op(ValueView::Int(a), ">="@, ValueView::Int(b), rs) == gives(
            ValueView::Bool(a >= b),
            rs,
        ),
        binary_op(ValueView::Int(a), "=="@, ValueView::Int(b), rs) == gives(
            ValueView::Bool(a == b),
            rs,
        ),
        binary_op(ValueView::Int(a), "!="@, ValueView::Int(b), rs) == gives(
            ValueView::Bool(a != b),
            rs,
        ),
{
    lemma_operators();
}

/// Floating-point numbers that are no NaN are ordered by sign and magnitude: the bit patterns of
/// numbers without a sign are in order, those of negative numbers are in reverse order, and a
/// negative number is below one without a sign, but for the two zeros, which are equal.
pub proof fn floats_compare_as_numbers(x: u64, y: u64, rs: Seq<ReplyView>)
    requires
        x as int % 0x8000_0000_0000_0000 <= 0x7ff0_0000_0000_0000,
        y as int % 0x8000_0000_0000_0000 <= 0x7ff0_0000_0000_0000,
    ensures
        ({
            let sign: u64 = 0x8000_0000_0000_0000;
            let less = if x < sign && y < sign {
                x < y
            } else if x >= sign && y >= sign {
                x > y
            } else {
                x >= sign && !(x == sign && y == 0)
            };
            let same = x == y || (x % sign == 0 && y % sign == 0);
            let l = ValueView::Float(x);
            let r = ValueView::Float(y);
            &&& binary_op(l, "<"@, r, rs) == gives(ValueView::Bool(less), rs)
            &&& binary_op(l, "=="@, r, rs) == gives(ValueView::Bool(same), rs)
            &&& binary_op(l, "!="@, r, rs) == gives(ValueView::Bool(!same), rs)
            &&& binary_op(l, "<="@, r, rs) == gives(ValueView::Bool(less || same), rs)
            &&& binary_op(l, ">"@, r, rs) == gives(ValueView::Bool(!less && !same), rs)
            &&& binary_op(l, ">="@, r, rs) == gives(ValueView::Bool(!less), rs)
        }),
{
    lemma_operators();
}

/// What is not a number is neither below nor above nor equal to anything.
pub proof fn nan_compares_with_nothing(x: u64, y: u64, rs: Seq<ReplyView>)
    requires
        x as int % 0x8000_0000_0000_0000 > 0x7ff0_0000_0000_0000 || y as int
            % 0x8000_0000_0000_0000 > 0x7ff0_0000_0000_0000,
    ensures
        ({
            let l = ValueView::Float(x);
            let r = ValueView::Float(y);
            &&& binary_op(l, "<"@, r, rs) == gives(ValueView::Bool(false), rs)
            &&& binary_op(l, "<="@, r, rs) == gives(ValueView::Bool(false), rs)
            &&& binary_op(l, ">"@, r, rs) == gives(ValueView::Bool(false), rs)
            &&& binary_op(l, ">="@, r, rs) == gives(ValueView::Bool(false), rs)
            &&& binary_op(l, "=="@, r, rs) == gives(ValueView::Bool(false), rs)
            &&& binary_op(l, "!="@, r, rs) == gives(ValueView::Bool(true), rs)
        }),
{
    lemma_operators();
}

/// A comparison on numbers of any kind relates to the one with the operands the other way round,
/// where the host need not be asked, and `<=` holds exactly where `<` or `==` does, on numbers of
/// one kind.
pub proof fn comparisons_agree(l: ValueView, r: ValueView, rs: Seq<ReplyView>)
    requires
        (l is Int && r is Int) || (l is Float && r is Float),
    ensures
        binary_op(l, "<"@, r, rs) == binary_op(r, ">"@, l, rs),
        binary_op(l, "<="@, r, rs) == binary_op(r, ">="@, l, rs),
        binary_op(l, "<="@, r, rs) == gives(ValueView::Bool(true), rs) <==> (binary_op(
            l,
            "<"@,
            r,
            rs,
        ) == gives(ValueView::Bool(true), rs) || binary_op(l, "=="@, r, rs) == gives(
            ValueView::Bool(true),
            rs,
        )),
{
    lemma_operators();
}

/// The comparison that an operator stands for.
pub open spec fn comparison_named(op: Seq<char>, c: Comparison) -> bool {
    ||| op == "<"@ && c == Comparison::Less
    ||| op == "<="@ && c == Comparison::LessOrEqual
    ||| op == ">"@ && c == Comparison::Greater
    ||| op == ">="@ && c == Comparison::GreaterOrEqual
}

/// An integer and a floating-point number are compared by the host, which is given both in their
/// places, and its answer is the result.
pub proof fn mixed_numbers_are_compared_by_the_host(
    op: Seq<char>,
    c: Comparison,
    i: i64,
    x: u64,
    rs: Seq<ReplyView>,
)
    requires
        comparison_named(op, c),
    ensures
        ({
            let whole = Num::Int(i);
            let float = Num::Float(Float { bits: x });
            let nothing = Seq::<ReplyView>::empty();
            &&& binary_op(ValueView::Int(i), op, ValueView::Float(x), nothing) == asks::<ValueView>(
                RequestView::Compare { op: c, left: whole, right: float },
            )
            &&& binary_op(ValueView::Float(x), op, ValueView::Int(i), nothing) == asks::<ValueView>(
                RequestView::Compare { op: c, left: float, right: whole },
            )
        }),
        rs.len() > 0 ==> (rs[0] matches ReplyView::Flag(b) ==> binary_op(
            ValueView::Int(i),
            op,
            ValueView::Float(x),
            rs,
        ) == gives(ValueView::Bool(b), rs.drop_first()) && binary_op(
            ValueView::Float(x),
            op,
            ValueView::Int(i),
            rs,
        ) == gives(ValueView::Bool(b), rs.drop_first())),
{
    lemma_operators();
}

/// What kind of value it is, as errors say it.
pub open spec fn kind_named(v: ValueView, kind: Seq<char>) -> bool {
    match v {
        ValueView::Null => kind == "null"@,
        ValueView::Bool(_) => kind == "bool"@,
        ValueView::Int(_) => kind == "int"@,
        ValueView::Float(_) => kind == "float"@,
        ValueView::String(_) => kind == "string"@,
        ValueView::Bytes(_) => kind == "bytes"@,
        ValueView::List(_) => kind == "list"@,
        ValueView::Dict(_) => kind == "map"@,
        ValueView::Struct { .. } => kind == "struct"@,
    }
}

/// Only numbers are compared: with anything else on either side a comparison fails, and says
/// which kinds it was given, in their order.
pub proof fn only_numbers_compare(
    op: Seq<char>,
    c: Comparison,
    l: ValueView,
    r: ValueView,
    rs: Seq<ReplyView>,
    a: Seq<char>,
    b: Seq<char>,
)
    requires
        comparison_named(op, c),
        !(l is Int || l is Float) || !(r is Int || r is Float),
        kind_named(l, a),
        kind_named(r, b),
    ensures
        binary_op(l, op, r, rs) == fails::<ValueView>(
            InterpreterErrorView::TypeMismatch { expected: "number"@, actual: a + ", "@ + b },
            rs,
        ),
{
    lemma_operators();
}

/// Equality never fails and uses no reply. Values of different kinds are not equal; truth values,
/// integers, texts and bytes are equal where they are the same; null equals null; lists are equal
/// where they are as long and equal item by item; dictionaries where they have the same keys and
/// equal entries; and structs where they have the same name too. `!=` is the opposite.
pub proof fn equality_is_that_of_contents(l: ValueView, r: ValueView, rs: Seq<ReplyView>)
    ensures
        ({
            let equal = binary_op(l, "=="@, r, rs) == gives(ValueView::Bool(true), rs);
            &&& !equal ==> binary_op(l, "=="@, r, rs) == gives(ValueView::Bool(false), rs)
            &&& binary_op(l, "!="@, r, rs) == gives(ValueView::Bool(!equal), rs)
            &&& l is Null ==> (equal <==> r is Null)
            &&& l is Bool ==> (equal <==> l == r)
            &&& l is Int ==> (equal <==> l == r)
            &&& l is String ==> (equal <==> l == r)
            &&& l is Bytes ==> (equal <==> l == r)
            &&& l is Float ==> (equal ==> r is Float)
            &&& l matches ValueView::List(x) ==> (equal <==> (r matches ValueView::List(y)
                && x.len() == y.len() && forall|i: int|
                0 <= i < x.len() ==> binary_op(#[trigger] x[i], "=="@, y[i], rs) == gives(
                    ValueView::Bool(true),
                    rs,
                )))
            &&& l matches ValueView::Dict(x) ==> (equal <==> (r matches ValueView::Dict(y)
                && x.dom() == y.dom() && forall|k: Seq<char>|
                x.dom().contains(k) ==> binary_op(#[trigger] x[k], "=="@, y[k], rs) == gives(
                    ValueView::Bool(true),
                    rs,
                )))
            &&& l matches ValueView::Struct { name: n, fields: x } ==> (equal <==> (
            r matches ValueView::Struct { name: m, fields: y } && n == m && x.dom() == y.dom()
                && forall|k: Seq<char>|
                x.dom().contains(k) ==> binary_op(#[trigger] x[k], "=="@, y[k], rs) == gives(
                    ValueView::Bool(true),
                    rs,
                )))
        }),
{
    lemma_operators();
    if let (ValueView::List(x), ValueView::List(y)) = (l, r) {
        assert forall|i: int| 0 <= i < x.len() implies values_equal(#[trigger] x[i], y[i])
            == (binary_op(x[i], "=="@, y[i], rs) == gives(ValueView::Bool(true), rs)) by {}
    }
    if let (ValueView::Dict(x), ValueView::Dict(y)) = (l, r) {
        assert forall|k: Seq<char>| x.dom().contains(k) implies values_equal(#[trigger] x[k], y[k])
            == (binary_op(x[k], "=="@, y[k], rs) == gives(ValueView::Bool(true), rs)) by {}
    }
    if let (
        ValueView::Struct { name: _, fields: x },
        ValueView::Struct { name: _, fields: y },
    ) = (l, r) {
        assert forall|k: Seq<char>| x.dom().contains(k) implies values_equal(#[trigger] x[k], y[k])
            == (binary_op(x[k], "=="@, y[k], rs) == gives(ValueView::Bool(true), rs)) by {}
    }
}

/// Sums, differences and products of integers are those of the numbers, where they fit; where they
/// do not, the run cannot go on.
pub proof fn integers_calculate_as_numbers(a: i64, b: i64, rs: Seq<ReplyView>)
    ensures
        ({
            let l = ValueView::Int(a);
            let r = ValueView::Int(b);
            let overflow = stops::<ValueView>(StopView::Fault(Fault::Overflow), rs);
            &&& binary_op(l, "+"@, r, rs) == if i64::MIN <= a + b <= i64::MAX {
                gives(ValueView::Int((a + b) as i64), rs)
            } else {
                overflow
            }
            &&& binary_op(l, "-"@, r, rs) == if i64::MIN <= a - b <= i64::MAX {
                gives(ValueView::Int((a - b) as i64), rs)
            } else {
                overflow
            }
            &&& binary_op(l, "*"@, r, rs) == if i64::MIN <= a * b <= i64::MAX {
                gives(ValueView::Int((a * b) as i64), rs)
            } else {
                overflow
            }
        }),
{
    lemma_operators();
}

/// The quotient of integers leaves a rest that is smaller than the divisor and has the sign of
/// the dividend: it is rounded toward zero. Nothing is divided by zero, and the one quotient that
/// does not fit stops the run.
pub proof fn integers_divide_toward_zero(a: i64, b: i64, rs: Seq<ReplyView>)
    ensures
        b == 0 ==> binary_op(ValueView::Int(a), "/"@, ValueView::Int(b), rs) == fails::<ValueView>(
            InterpreterErrorView::Runtime("Division error"@),
            rs,
        ),
        a == i64::MIN && b == -1 ==> binary_op(ValueView::Int(a), "/"@, ValueView::Int(b), rs)
            == stops::<ValueView>(StopView::Fault(Fault::Overflow), rs),
        b != 0 && !(a == i64::MIN && b == -1) ==> match binary_op(
            ValueView::Int(a),
            "/"@,
            ValueView::Int(b),
            rs,
        ) {
            (Ok(ValueView::Int(q)), rest) => {
                let over = a - b * q;
                &&& rest == rs
                &&& (b > 0 ==> -b < over < b)
                &&& (b < 0 ==> b < over < -b)
                &&& (a >= 0 ==> over >= 0)
                &&& (a <= 0 ==> over <= 0)
            },
            _ => false,
        },
{
    lemma_operators();
    if b != 0 {
        lemma_quotient(a as int, b as int);
    }
}

proof fn lemma_quotient(a: int, b: int)
    requires
        b != 0,
        i64::MIN <= a <= i64::MAX,
        i64::MIN <= b <= i64::MAX,
    ensures
        ({
            let q = quotient(a, b);
            let rest = a - b * q;
            &&& (b > 0 ==> -b < rest < b)
            &&& (b < 0 ==> b < rest < -b)
            &&& (a >= 0 ==> rest >= 0)
            &&& (a <= 0 ==> rest <= 0)
            &&& !(a == i64::MIN && b == -1) ==> i64::MIN <= q <= i64::MAX
            &&& a == i64::MIN && b == -1 ==> q > i64::MAX
        }),
{
    let x = if a >= 0 {
        a
    } else {
        -a
    };
    let d = if b > 0 {
        b
    } else {
        -b
    };
    let w = x / d;
    lemma_fundamental_div_mod(x, d);
    assert(0 <= x % d < d);
    assert(0 <= w <= x && (d > 1 && x > 0 ==> w < x) && (d == 1 ==> w == x)) by (nonlinear_arith)
        requires
            x >= 0,
            d >= 1,
            x == d * w + x % d,
            0 <= x % d < d,
    ;
    assert(d * w == (-d) * (-w)) by (nonlinear_arith);
    assert(-(d * w) == d * (-w)) by (nonlinear_arith);
    assert(-(d * w) == (-d) * w) by (nonlinear_arith);
}

/// Addition puts texts one behind the other.
pub proof fn texts_are_put_together(a: Seq<char>, b: Seq<char>, rs: Seq<ReplyView>)
    ensures
        binary_op(ValueView::String(a), "+"@, ValueView::String(b), rs) == gives(
            ValueView::String(a + b),
            rs,
        ),
{
    lemma_operators();
}

/// The arithmetic operation that an operator stands for.
pub open spec fn arithmetic_named(op: Seq<char>, c: Arithmetic) -> bool {
    ||| op == "+"@ && c == Arithmetic::Plus
    ||| op == "-"@ && c == Arithmetic::Minus
    ||| op == "*"@ && c == Arithmetic::Times
    ||| op == "/"@ && c == Arithmetic::Over
}

/// Whether a value is a number, and which.
pub open spec fn is_number(v: ValueView, n: Num) -> bool {
    match n {
        Num::Int(i) => v == ValueView::Int(i),
        Num::Float(f) => v == ValueView::Float(f.bits),
    }
}

/// Where a floating-point number takes part the host calculates: it is given both numbers in
/// their places, and its answer is the result.
pub proof fn floats_are_calculated_by_the_host(
    op: Seq<char>,
    c: Arithmetic,
    l: ValueView,
    left: Num,
    r: ValueView,
    right: Num,
    rs: Seq<ReplyView>,
)
    requires
        arithmetic_named(op, c),
        is_number(l, left),
        is_number(r, right),
        l is Float || r is Float,
    ensures
        binary_op(l, op, r, Seq::empty()) == asks::<ValueView>(
            RequestView::Calculate { op: c, left, right },
        ),
        rs.len() > 0 ==> (rs[0] matches ReplyView::Number(x) ==> binary_op(l, op, r, rs) == gives(
            ValueView::Float(x),
            rs.drop_first(),
        )),
{
    lemma_operators();
}

/// Arithmetic on anything but two numbers, or two texts that are added, fails; all but division
/// say which kinds they were given, in their order.
pub proof fn only_numbers_calculate(
    op: Seq<char>,
    c: Arithmetic,
    l: ValueView,
    r: ValueView,
    rs: Seq<ReplyView>,
    a: Seq<char>,
    b: Seq<char>,
)
    requires
        arithmetic_named(op, c),
        !(l is Int || l is Float) || !(r is Int || r is Float),
        !(op == "+"@ && l is String && r is String),
        kind_named(l, a),
        kind_named(r, b),
    ensures
        binary_op(l, op, r, rs) == fails::<ValueView>(
            if op == "/"@ {
                InterpreterErrorView::Runtime("Division error"@)
            } else {
                InterpreterErrorView::TypeMismatch {
                    expected: if op == "+"@ {
                        "number or string"@
                    } else {
                        "number"@
                    },
                    actual: a + ", "@ + b,
                }
            },
            rs,
        ),
{
    lemma_operators();
}

/// The logical operators, in either spelling, take true for true and everything else for false.
pub proof fn logic_is_that_of_truth(l: ValueView, r: ValueView, rs: Seq<ReplyView>)
    ensures
        ({
            let a = l == ValueView::Bool(true);
            let b = r == ValueView::Bool(true);
            &&& binary_op(l, "&&"@, r, rs) == gives(ValueView::Bool(a && b), rs)
            &&& binary_op(l, "and"@, r, rs) == gives(ValueView::Bool(a && b), rs)
            &&& binary_op(l, "||"@, r, rs) == gives(ValueView::Bool(a || b), rs)
            &&& binary_op(l, "or"@, r, rs) == gives(ValueView::Bool(a || b), rs)
        }),
{
    lemma_operators();
}

/// Any other operator is unknown.
pub proof fn other_operators_are_unknown(
    l: ValueView,
    op: Seq<char>,
    r: ValueView,
    rs: Seq<ReplyView>,
)
    requires
        !seq![
            "=="@,
            "!="@,
            "<"@,
            "<="@,
            ">"@,
            ">="@,
            "+"@,
            "-"@,
            "*"@,
            "/"@,
            "&&"@,
            "and"@,
            "||"@,
            "or"@,
        ].contains(op),
    ensures
        binary_op(l, op, r, rs) == fails::<ValueView>(
            InterpreterErrorView::Runtime("Unknown operator: "@ + op),
            rs,
        ),
{
    let known = seq![
        "=="@,
        "!="@,
        "<"@,
        "<="@,
        ">"@,
        ">="@,
        "+"@,
        "-"@,
        "*"@,
        "/"@,
        "&&"@,
        "and"@,
        "||"@,
        "or"@,
    ];
    assert(known[0] != op && known[1] != op && known[2] != op && known[3] != op && known[4] != op);
    assert(known[5] != op && known[6] != op && known[7] != op && known[8] != op && known[9] != op);
    assert(known[10] != op && known[11] != op && known[12] != op && known[13] != op);
}

/// `len` and `length` give how many bytes a text takes, how many items a list has and how many
/// bytes there are; anything else, or nothing, has length zero. Further arguments do not count.
pub proof fn lengths_count(args: Seq<ValueView>)
    ensures
        builtin("len"@, args) == builtin("length"@, args),
        args.len() > 0 ==> match args[0] {
            ValueView::String(s) => encode_utf8(s).len() <= usize::MAX && encode_utf8(s).len()
                <= i64::MAX ==> (builtin("len"@, args) matches Ok(ValueView::Int(n)) && n
                == encode_utf8(s).len()),
            ValueView::List(l) => l.len() <= usize::MAX && l.len() <= i64::MAX ==> (builtin(
                "len"@,
                args,
            ) matches Ok(ValueView::Int(n)) && n == l.len()),
            ValueView::Bytes(b) => b.len() <= usize::MAX && b.len() <= i64::MAX ==> (builtin(
                "len"@,
                args,
            ) matches Ok(ValueView::Int(n)) && n == b.len()),
            _ => builtin("len"@, args) == Ok::<ValueView, StopView>(ValueView::Int(0)),
        },
        args.len() == 0 ==> builtin("len"@, args) == Ok::<ValueView, StopView>(ValueView::Int(0)),
{
    lemma_builtins();
}

/// `is_none` holds exactly of null and of nothing, `is_some` of everything else, and `not` of
/// everything but true.
pub proof fn tests_of_values(args: Seq<ValueView>)
    ensures
        ({
            let none = args.len() == 0 || args[0] is Null;
            let holds = args.len() > 0 && args[0] == ValueView::Bool(true);
            &&& builtin("is_none"@, args) == Ok::<ValueView, StopView>(ValueView::Bool(none))
            &&& builtin("is_some"@, args) == Ok::<ValueView, StopView>(ValueView::Bool(!none))
            &&& builtin("not"@, args) == Ok::<ValueView, StopView>(ValueView::Bool(!holds))
        }),
{
    lemma_builtins();
}

/// `abs` gives a number that is not negative and equal to the argument but for the sign; the
/// smallest integer has none that fits. Of anything that is no number it gives zero.
pub proof fn absolute_values(args: Seq<ValueView>)
    ensures
        args.len() > 0 ==> match args[0] {
            ValueView::Int(i) => if i == i64::MIN {
                builtin("abs"@, args) == Err::<ValueView, StopView>(
                    StopView::Fault(Fault::Overflow),
                )
            } else {
                builtin("abs"@, args) matches Ok(ValueView::Int(n)) && n >= 0 && (n == i || n == -i)
            },
            ValueView::Float(x) => builtin("abs"@, args) matches Ok(ValueView::Float(y)) && y
                < 0x8000_0000_0000_0000 && (y == x || y + 0x8000_0000_0000_0000 == x),
            _ => builtin("abs"@, args) == Ok::<ValueView, StopView>(ValueView::Int(0)),
        },
        args.len() == 0 ==> builtin("abs"@, args) == Ok::<ValueView, StopView>(ValueView::Int(0)),
{
    lemma_builtins();
}

/// Any other function is unknown.
pub proof fn other_functions_are_unknown(name: Seq<char>, args: Seq<ValueView>)
    requires
        name != "len"@,
        name != "length"@,
        name != "is_some"@,
        name != "is_none"@,
        name != "not"@,
        name != "abs"@,
    ensures
        builtin(name, args) == Err::<ValueView, StopView>(
            StopView::Failed(InterpreterErrorView::Runtime("Unknown function: "@ + name)),
        ),
{
}

/// A literal is the value that it is written as.
pub proof fn literals_are_their_values(value: LiteralIR, ctx: ValueView, rs: Seq<ReplyView>)
    ensures
        eval(ExprIR::Literal { value }, ctx, rs) == gives(
            match value {
                LiteralIR::Null => ValueView::Null,
                LiteralIR::Bool { value: b } => ValueView::Bool(b),
                LiteralIR::Int { value: i } => ValueView::Int(i),
                LiteralIR::Float { value: f } => ValueView::Float(f.bits),
                LiteralIR::String { value: s } => ValueView::String(s@),
            },
            rs,
        ),
{
}

/// A name stands for the entry of a dictionary or the field of a struct that has it; one that
/// nothing has is not found, but for `input`, which is then the whole context.
pub proof fn names_stand_for_entries(name: String, ctx: ValueView, rs: Seq<ReplyView>)
    ensures
        ({
            let value = eval(ExprIR::Ident { name }, ctx, rs);
            let unknown = fails::<ValueView>(InterpreterErrorView::VariableNotFound(name@), rs);
            match ctx {
                ValueView::Dict(m) => {
                    &&& m.dom().contains(name@) ==> value == gives(m[name@], rs)
                    &&& !m.dom().contains(name@) && name@ != "input"@ ==> value == unknown
                },
                ValueView::Struct { name: _, fields } => name@ != "input"@ ==> value == (
                if fields.dom().contains(name@) {
                    gives(fields[name@], rs)
                } else {
                    unknown
                }),
                _ => name@ != "input"@ ==> value == unknown,
            }
        }),
        name@ == "input"@ ==> eval(ExprIR::Ident { name }, ctx, rs) == gives(
            match ctx {
                ValueView::Dict(m) if m.dom().contains(name@) => m[name@],
                _ => ctx,
            },
            rs,
        ),
{
}

/// A field is the entry or field of that name of what stands before it; where there is none, the
/// error says of what.
pub proof fn fields_are_entries(
    base: Box<ExprIR>,
    field: String,
    ctx: ValueView,
    rs: Seq<ReplyView>,
    kind: Seq<char>,
)
    ensures
        match eval(*base, ctx, rs) {
            (Ok(v), rest) => {
                let value = eval(ExprIR::FieldAccess { base, field }, ctx, rs);
                match v {
                    ValueView::Dict(m) if m.dom().contains(field@) => value == gives(
                        m[field@],
                        rest,
                    ),
                    ValueView::Struct { name: _, fields } if fields.dom().contains(field@) => value
                        == gives(fields[field@], rest),
                    ValueView::Struct { name, fields: _ } => value == fails::<ValueView>(
                        InterpreterErrorView::FieldNotFound { owner: name, field: field@ },
                        rest,
                    ),
                    _ => kind_named(v, kind) ==> value == fails::<ValueView>(
                        InterpreterErrorView::FieldNotFound { owner: kind, field: field@ },
                        rest,
                    ),
                }
            },
            (Err(s), rest) => eval(ExprIR::FieldAccess { base, field }, ctx, rs) == stops::<
                ValueView,
            >(s, rest),
        },
{
}

/// Both sides of an operator are evaluated, the left one first, and the operator is applied to
/// what they gave, in their places. The first side that fails ends the evaluation.
pub proof fn operators_take_both_sides(
    left: Box<ExprIR>,
    op: String,
    right: Box<ExprIR>,
    ctx: ValueView,
    rs: Seq<ReplyView>,
)
    ensures
        ({
            let whole = eval(ExprIR::Binary { left, op, right }, ctx, rs);
            let first = eval(*left, ctx, rs);
            let second = eval(*right, ctx, first.1);
            &&& first.0 matches Err(s) ==> whole == stops::<ValueView>(s, first.1)
            &&& first.0 is Ok && second.0 is Err ==> whole == stops::<ValueView>(
                second.0->Err_0,
                second.1,
            )
            &&& first.0 is Ok && second.0 is Ok ==> whole == binary_op(
                first.0->Ok_0,
                op@,
                second.0->Ok_0,
                second.1,
            )
        }),
{
}

/// The replies that are left once the first `n` expressions were evaluated in order.
pub open spec fn left_after(
    es: Seq<ExprIR>,
    n: nat,
    ctx: ValueView,
    rs: Seq<ReplyView>,
) -> Seq<ReplyView>
    decreases n,
{
    if n == 0 {
        rs
    } else {
        eval(es[n - 1], ctx, left_after(es, (n - 1) as nat, ctx, rs)).1
    }
}

proof fn lemma_eval_all(
    es: Seq<ExprIR>,
    i: nat,
    done: Seq<ValueView>,
    n: nat,
    ctx: ValueView,
    rs: Seq<ReplyView>,
)
    requires
        i <= n <= es.len(),
        done.len() == i,
        forall|j: nat|
            i <= j < n ==> (#[trigger] eval(es[j as int], ctx, left_after(es, j, ctx, rs))).0 is Ok,
        forall|j: int|
            0 <= j < i ==> eval(es[j], ctx, #[trigger] left_after(es, j as nat, ctx, rs)).0 == Ok::<
                ValueView,
                StopView,
            >(done[j]),
    ensures
        exists|vs: Seq<ValueView>|
            {
                &&& #[trigger] vs.len() == n
                &&& forall|j: int|
                    0 <= j < n ==> eval(es[j], ctx, #[trigger] left_after(es, j as nat, ctx, rs)).0
                        == Ok::<ValueView, StopView>(vs[j])
                &&& eval_all(es, i, done, ctx, left_after(es, i, ctx, rs)) == eval_all(
                    es,
                    n,
                    vs,
                    ctx,
                    left_after(es, n, ctx, rs),
                )
            },
    decreases n - i,
{
    if i == n {
        assert(done.len() == n);
    } else {
        let here = eval(es[i as int], ctx, left_after(es, i, ctx, rs));
        assert(here.0 is Ok);
        let v = here.0->Ok_0;
        assert(left_after(es, i + 1, ctx, rs) == here.1);
        let more = done.push(v);
        assert forall|j: int| 0 <= j < i + 1 implies eval(
            es[j],
            ctx,
            #[trigger] left_after(es, j as nat, ctx, rs),
        ).0 == Ok::<ValueView, StopView>(more[j]) by {
            if j < i {
                assert(more[j] == done[j]);
            }
        }
        lemma_eval_all(es, i + 1, more, n, ctx, rs);
    }
}

/// Where each argument has a value, a foreign function is called by the host, with the values of
/// the arguments in their order; its value is the value of the call, and its error is the error.
pub proof fn foreign_calls_take_their_arguments(
    module: String,
    function: String,
    args: Vec<ExprIR>,
    ctx: ValueView,
    rs: Seq<ReplyView>,
)
    requires
        forall|j: nat|
            j < args@.len() ==> (#[trigger] eval(
                args@[j as int],
                ctx,
                left_after(args@, j, ctx, rs),
            )).0 is Ok,
    ensures
        ({
            let whole = eval(ExprIR::ForeignCall { module, function, args }, ctx, rs);
            let rest = left_after(args@, args@.len(), ctx, rs);
            &&& rest.len() == 0 ==> (exists|vs: Seq<ValueView>|
                {
                    &&& #[trigger] vs.len() == args@.len()
                    &&& forall|j: int|
                        0 <= j < args@.len() ==> eval(
                            args@[j],
                            ctx,
                            #[trigger] left_after(args@, j as nat, ctx, rs),
                        ).0 == Ok::<ValueView, StopView>(vs[j])
                    &&& whole == asks::<ValueView>(
                        RequestView::Foreign { module: module@, function: function@, args: vs },
                    )
                })
            &&& rest.len() > 0 ==> match rest[0] {
                ReplyView::Value(Ok(v)) => whole == gives(v, rest.drop_first()),
                ReplyView::Value(Err(e)) => whole == fails::<ValueView>(e, rest.drop_first()),
                _ => whole == stops::<ValueView>(
                    StopView::Fault(Fault::UnexpectedReply),
                    rest.drop_first(),
                ),
            }
        }),
{
    lemma_eval_all(args@, 0, Seq::empty(), args@.len(), ctx, rs);
    let rest = left_after(args@, args@.len(), ctx, rs);
    let vs = choose|vs: Seq<ValueView>|
        {
            &&& #[trigger] vs.len() == args@.len()
            &&& forall|j: int|
                0 <= j < args@.len() ==> eval(
                    args@[j],
                    ctx,
                    #[trigger] left_after(args@, j as nat, ctx, rs),
                ).0 == Ok::<ValueView, StopView>(vs[j])
            &&& eval_all(args@, 0, Seq::empty(), ctx, left_after(args@, 0, ctx, rs)) == eval_all(
                args@,
                args@.len(),
                vs,
                ctx,
                rest,
            )
        };
    assert(vs.len() == args@.len());
    if rest.len() == 0 {
        assert(rest =~= Seq::<ReplyView>::empty());
    }
}

/// Where each argument has a value, a built-in function is applied to the values of the
/// arguments, in their order, and uses no reply of its own.
pub proof fn calls_take_their_arguments(
    function: String,
    args: Vec<ExprIR>,
    ctx: ValueView,
    rs: Seq<ReplyView>,
)
    requires
        forall|j: nat|
            j < args@.len() ==> (#[trigger] eval(
                args@[j as int],
                ctx,
                left_after(args@, j, ctx, rs),
            )).0 is Ok,
    ensures
        exists|vs: Seq<ValueView>|
            {
                &&& #[trigger] vs.len() == args@.len()
                &&& forall|j: int|
                    0 <= j < args@.len() ==> eval(
                        args@[j],
                        ctx,
                        #[trigger] left_after(args@, j as nat, ctx, rs),
                    ).0 == Ok::<ValueView, StopView>(vs[j])
                &&& eval(ExprIR::Call { function, args }, ctx, rs) == (
                    builtin(function@, vs),
                    left_after(args@, args@.len(), ctx, rs),
                )
            },
{
    lemma_eval_all(args@, 0, Seq::empty(), args@.len(), ctx, rs);
    let rest = left_after(args@, args@.len(), ctx, rs);
    let vs = choose|vs: Seq<ValueView>|
        {
            &&& #[trigger] vs.len() == args@.len()
            &&& forall|j: int|
                0 <= j < args@.len() ==> eval(
                    args@[j],
                    ctx,
                    #[trigger] left_after(args@, j as nat, ctx, rs),
                ).0 == Ok::<ValueView, StopView>(vs[j])
            &&& eval_all(args@, 0, Seq::empty(), ctx, left_after(args@, 0, ctx, rs)) == eval_all(
                args@,
                args@.len(),
                vs,
                ctx,
                rest,
            )
        };
    assert(vs.len() == args@.len());
}

/// The first argument that fails ends a call, with its error and what it left of the replies.
pub proof fn failing_arguments_end_calls(
    module: String,
    function: String,
    args: Vec<ExprIR>,
    n: nat,
    ctx: ValueView,
    rs: Seq<ReplyView>,
)
    requires
        n < args@.len(),
        forall|j: nat|
            j < n ==> (#[trigger] eval(args@[j as int], ctx, left_after(args@, j, ctx, rs))).0 is Ok,
        eval(args@[n as int], ctx, left_after(args@, n, ctx, rs)).0 is Err,
    ensures
        ({
            let failed = eval(args@[n as int], ctx, left_after(args@, n, ctx, rs));
            &&& eval(ExprIR::Call { function, args }, ctx, rs) == failed
            &&& eval(ExprIR::ForeignCall { module, function, args }, ctx, rs) == failed
        }),
{
    lemma_eval_all(args@, 0, Seq::empty(), n, ctx, rs);
}

} // verus!
