//! What is made of the output of a command.
use vstd::prelude::*;
use vstd::string::*;
use crate::error::{InterpreterError, InterpreterErrorView};
use crate::ir::TypeIR;
use crate::json::{json_end, json_parsed, json_to_value, json_value, parse_json, Json, JsonView};
use crate::session::{
    ask_bool, ask_bytes, ask_float, ask_int, ask_output, value_end, Outcome, ReplyView, Request,
    RequestView, Session, Stop, StopView,
};
use crate::text::{trim, trimmed};
use crate::value::{no_entries, put, Value, ValueView};

verus! {

/// The end of a run that fails with a message.
pub open spec fn runtime_error(message: Seq<char>) -> StopView {
    StopView::Failed(InterpreterErrorView::Runtime(message))
}

/// What a text is once it was read as JSON: the value it holds, or another text where it holds
/// none.
pub open spec fn structured(
    parsed: Result<JsonView, Seq<char>>,
    otherwise: Seq<char>,
) -> ValueView {
    match parsed {
        Ok(j) => json_value(j),
        Err(_) => ValueView::String(otherwise),
    }
}

/// A text read as a value of a type: numbers and truth values by the host, a text as it is, and
/// anything else as JSON, where it is JSON.
pub open spec fn read_as(ty: TypeIR, text: Seq<char>, rs: Seq<ReplyView>) -> Outcome<ValueView> {
    match ty {
        TypeIR::Int => match ask_int(rs, RequestView::ParseInt { text }) {
            (Ok(Ok(i)), rest) => (Ok(ValueView::Int(i)), rest),
            (Ok(Err(e)), rest) => (Err(runtime_error(e)), rest),
            (Err(s), rest) => (Err(s), rest),
        },
        TypeIR::Float => match ask_float(rs, RequestView::ParseFloat { text }) {
            (Ok(Ok(f)), rest) => (Ok(ValueView::Float(f)), rest),
            (Ok(Err(e)), rest) => (Err(runtime_error(e)), rest),
            (Err(s), rest) => (Err(s), rest),
        },
        TypeIR::Bool => match ask_bool(rs, RequestView::ParseBool { text }) {
            (Ok(Ok(b)), rest) => (Ok(ValueView::Bool(b)), rest),
            (Ok(Err(e)), rest) => (Err(runtime_error(e)), rest),
            (Err(s), rest) => (Err(s), rest),
        },
        TypeIR::String => (Ok(ValueView::String(text)), rs),
        _ => (Ok(structured(json_parsed(text), text)), rs),
    }
}

/// What a command printed, as a value of the type that is expected. A struct of one field holds
/// the whole output in it; one of several is read as JSON. White space at the ends does not
/// count, but where the output stays as it is.
pub open spec fn read_output(
    expected: Option<&TypeIR>,
    output: Seq<char>,
    rs: Seq<ReplyView>,
) -> Outcome<ValueView> {
    match expected {
        Some(ty) => match *ty {
            TypeIR::Int => read_as(*ty, trimmed(output), rs),
            TypeIR::Float => read_as(*ty, trimmed(output), rs),
            TypeIR::Bool => read_as(*ty, trimmed(output), rs),
            TypeIR::String => read_as(*ty, trimmed(output), rs),
            TypeIR::Struct { fields } => if fields@.len() == 1 {
                match read_as(fields@[0].1, trimmed(output), rs) {
                    (Ok(v), rest) => (
                        Ok(
                            ValueView::Dict(
                                Map::<Seq<char>, ValueView>::empty().insert(fields@[0].0@, v),
                            ),
                        ),
                        rest,
                    ),
                    (Err(s), rest) => (Err(s), rest),
                }
            } else {
                (Ok(structured(json_parsed(trimmed(output)), output)), rs)
            },
            _ => (Ok(ValueView::String(output)), rs),
        },
        None => (Ok(ValueView::String(output)), rs),
    }
}

/// A command: it is filled in from the context and run, and what it prints is read as a value of
/// the type that is expected.
pub open spec fn run_shell(
    command: Seq<char>,
    ctx: ValueView,
    expected: Option<&TypeIR>,
    rs: Seq<ReplyView>,
) -> Outcome<ValueView> {
    match ask_output(rs, RequestView::Interpolate { template: command, context: ctx }) {
        (Ok(Ok(command)), rest) => if expected matches Some(ty) && *ty is Bytes {
            match ask_bytes(rest, RequestView::ShellBytes { command }) {
                (Ok(Ok(bytes)), rest) => (Ok(ValueView::Bytes(bytes)), rest),
                (Ok(Err(e)), rest) => (
                    Err(StopView::Failed(InterpreterErrorView::ShellError(e))),
                    rest,
                ),
                (Err(s), rest) => (Err(s), rest),
            }
        } else {
            match ask_output(rest, RequestView::Shell { command }) {
                (Ok(Ok(output)), rest) => read_output(expected, output, rest),
                (Ok(Err(e)), rest) => (
                    Err(StopView::Failed(InterpreterErrorView::ShellError(e))),
                    rest,
                ),
                (Err(s), rest) => (Err(s), rest),
            }
        },
        (Ok(Err(e)), rest) => (Err(runtime_error(e)), rest),
        (Err(s), rest) => (Err(s), rest),
    }
}

/// What a text is once it was read as JSON.
pub fn json_or_text(parsed: Result<Json, String>, otherwise: &str) -> (r: Value)
    ensures
        r@ == structured(json_end(parsed), otherwise@),
{
    match parsed {
        Ok(j) => json_to_value(j),
        Err(_) => Value::String(otherwise.to_string()),
    }
}

/// A text read as a value of a type.
pub fn parse_as(ty: &TypeIR, text: &str, session: &mut Session) -> (r: Result<Value, Stop>)
    ensures
        (value_end(r), final(session)@) == read_as(*ty, text@, old(session)@),
{
    match ty {
        TypeIR::Int => match session.ask_int(Request::ParseInt { text: text.to_string() }) {
            Ok(Ok(i)) => Ok(Value::Int(i)),
            Ok(Err(e)) => Err(Stop::Failed(InterpreterError::Runtime(e))),
            Err(s) => Err(s),
        },
        TypeIR::Float => match session.ask_float(Request::ParseFloat { text: text.to_string() }) {
            Ok(Ok(f)) => Ok(Value::Float(f)),
            Ok(Err(e)) => Err(Stop::Failed(InterpreterError::Runtime(e))),
            Err(s) => Err(s),
        },
        TypeIR::Bool => match session.ask_bool(Request::ParseBool { text: text.to_string() }) {
            Ok(Ok(b)) => Ok(Value::Bool(b)),
            Ok(Err(e)) => Err(Stop::Failed(InterpreterError::Runtime(e))),
            Err(s) => Err(s),
        },
        TypeIR::String => Ok(Value::String(text.to_string())),
        _ => Ok(json_or_text(parse_json(text), text)),
    }
}

/// What a command printed, as a value of the type that is expected.
pub fn parse_output(expected: Option<&TypeIR>, output: String, session: &mut Session) -> (r: Result<
    Value,
    Stop,
>)
    ensures
        (value_end(r), final(session)@) == read_output(expected, output@, old(session)@),
{
    match expected {
        Some(ty) => match ty {
            TypeIR::Int => parse_as(ty, trim(output.as_str()), session),
            TypeIR::Float => parse_as(ty, trim(output.as_str()), session),
            TypeIR::Bool => parse_as(ty, trim(output.as_str()), session),
            TypeIR::String => parse_as(ty, trim(output.as_str()), session),
            TypeIR::Struct { fields } => if fields.len() == 1 {
                match parse_as(&fields[0].1, trim(output.as_str()), session) {
                    Ok(v) => {
                        let mut m = no_entries();
                        put(&mut m, fields[0].0.clone(), v);
                        Ok(Value::Dict(m))
                    },
                    Err(s) => Err(s),
                }
            } else {
                Ok(json_or_text(parse_json(trim(output.as_str())), output.as_str()))
            },
            _ => Ok(Value::String(output)),
        },
        None => Ok(Value::String(output)),
    }
}

/// Runs a command.
pub fn execute_shell(
    command: &String,
    ctx: &Value,
    expected: Option<&TypeIR>,
    session: &mut Session,
) -> (r: Result<Value, Stop>)
    ensures
        (value_end(r), final(session)@) == run_shell(command@, ctx@, expected, old(session)@),
{
    let filled = match session.ask_output(
        Request::Interpolate { template: command.clone(), context: ctx.copy() },
    ) {
        Ok(Ok(c)) => c,
        Ok(Err(e)) => {
            return Err(Stop::Failed(InterpreterError::Runtime(e)));
        },
        Err(s) => {
            return Err(s);
        },
    };
    let as_bytes = match expected {
        Some(TypeIR::Bytes) => true,
        _ => false,
    };
    if as_bytes {
        match session.ask_bytes(Request::ShellBytes { command: filled }) {
            Ok(Ok(bytes)) => Ok(Value::Bytes(bytes)),
            Ok(Err(e)) => Err(Stop::Failed(InterpreterError::ShellError(e))),
            Err(s) => Err(s),
        }
    } else {
        match session.ask_output(Request::Shell { command: filled }) {
            Ok(Ok(output)) => parse_output(expected, output, session),
            Ok(Err(e)) => Err(Stop::Failed(InterpreterError::ShellError(e))),
            Err(s) => Err(s),
        }
    }
}

} // verus!
