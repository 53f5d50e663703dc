//! Laws of commands: what is run, and how what it prints is read.
use vstd::prelude::*;
use crate::error::InterpreterErrorView;
use crate::ir::TypeIR;
use crate::json::{json_parsed, json_value};
use crate::laws::{asks, fails, gives, stops};
use crate::session::{Fault, ReplyView, RequestView, StopView};
use crate::shell::run_shell;
use crate::text::trimmed;
use crate::value::ValueView;

verus! {

/// A command is filled in from the context by the host, and what it was filled in to is run: for
/// its bytes where bytes are expected, and for its text otherwise. Where filling in fails, the run
/// fails with the message.
pub proof fn commands_are_filled_in_and_run(
    command: Seq<char>,
    ctx: ValueView,
    expected: Option<&TypeIR>,
    filled: Seq<char>,
    message: Seq<char>,
    rest: Seq<ReplyView>,
)
    ensures
        run_shell(command, ctx, expected, Seq::empty()) == asks::<ValueView>(
            RequestView::Interpolate { template: command, context: ctx },
        ),
        run_shell(command, ctx, expected, seq![ReplyView::Output(Ok(filled))]) == asks::<ValueView>(
            if expected matches Some(ty) && *ty is Bytes {
                RequestView::ShellBytes { command: filled }
            } else {
                RequestView::Shell { command: filled }
            },
        ),
        run_shell(command, ctx, expected, seq![ReplyView::Output(Err(message))] + rest) == fails::<
            ValueView,
        >(InterpreterErrorView::Runtime(message), rest),
{
    let one = seq![ReplyView::Output(Ok(filled))];
    assert(one.drop_first() =~= Seq::<ReplyView>::empty());
    let failed = seq![ReplyView::Output(Err(message))] + rest;
    assert(failed.drop_first() =~= rest);
}

/// A command that fails ends the run with what the host says of it, whatever is expected.
pub proof fn failing_commands_end_the_run(
    command: Seq<char>,
    ctx: ValueView,
    expected: Option<&TypeIR>,
    filled: Seq<char>,
    message: Seq<char>,
    rest: Seq<ReplyView>,
)
    ensures
        ({
            let reply = if expected matches Some(ty) && *ty is Bytes {
                ReplyView::Bytes(Err(message))
            } else {
                ReplyView::Output(Err(message))
            };
            run_shell(command, ctx, expected, seq![ReplyView::Output(Ok(filled)), reply] + rest)
                == fails::<ValueView>(InterpreterErrorView::ShellError(message), rest)
        }),
{
    let reply = if expected matches Some(ty) && *ty is Bytes {
        ReplyView::Bytes(Err(message))
    } else {
        ReplyView::Output(Err(message))
    };
    lemma_two(ReplyView::Output(Ok(filled)), reply, rest);
}

proof fn lemma_two(a: ReplyView, b: ReplyView, rest: Seq<ReplyView>)
    ensures
        (seq![a, b] + rest)[0] == a,
        (seq![a, b] + rest).len() == rest.len() + 2,
        (seq![a, b] + rest).drop_first() == seq![b] + rest,
        (seq![b] + rest)[0] == b,
        (seq![b] + rest).len() == rest.len() + 1,
        (seq![b] + rest).drop_first() == rest,
{
    assert((seq![a, b] + rest).drop_first() =~= seq![b] + rest);
    assert((seq![b] + rest).drop_first() =~= rest);
}

/// The replies to a command that was filled in and printed something.
pub open spec fn printed(
    filled: Seq<char>,
    output: Seq<char>,
    rest: Seq<ReplyView>,
) -> Seq<ReplyView> {
    seq![ReplyView::Output(Ok(filled)), ReplyView::Output(Ok(output))] + rest
}

/// Where bytes are expected, they are what the command printed.
pub proof fn bytes_are_kept(
    command: Seq<char>,
    ctx: ValueView,
    ty: &TypeIR,
    filled: Seq<char>,
    bytes: Seq<u8>,
    rest: Seq<ReplyView>,
)
    requires
        *ty is Bytes,
    ensures
        run_shell(
            command,
            ctx,
            Some(ty),
            seq![ReplyView::Output(Ok(filled)), ReplyView::Bytes(Ok(bytes))] + rest,
        ) == gives(ValueView::Bytes(bytes), rest),
{
    lemma_two(ReplyView::Output(Ok(filled)), ReplyView::Bytes(Ok(bytes)), rest);
}

/// Where a text is expected, it is what the command printed without white space at its ends; where
/// nothing is expected, or a list, a dictionary, an option, a result, a name or anything, it is
/// what was printed, as it is.
pub proof fn texts_are_kept(
    command: Seq<char>,
    ctx: ValueView,
    expected: Option<&TypeIR>,
    filled: Seq<char>,
    output: Seq<char>,
    rest: Seq<ReplyView>,
)
    ensures
        expected matches Some(ty) && *ty is String ==> run_shell(
            command,
            ctx,
            expected,
            printed(filled, output, rest),
        ) == gives(ValueView::String(trimmed(output)), rest),
        (match expected {
            None => true,
            Some(ty) => *ty is Any || *ty is List || *ty is Dict || *ty is Option || *ty is Result
                || *ty is Named,
        }) ==> run_shell(command, ctx, expected, printed(filled, output, rest)) == gives(
            ValueView::String(output),
            rest,
        ),
{
    lemma_two(ReplyView::Output(Ok(filled)), ReplyView::Output(Ok(output)), rest);
}

/// The request that has a text read as a number or a truth value.
pub open spec fn parse_request(ty: TypeIR, text: Seq<char>) -> RequestView {
    match ty {
        TypeIR::Int => RequestView::ParseInt { text },
        TypeIR::Float => RequestView::ParseFloat { text },
        _ => RequestView::ParseBool { text },
    }
}

/// The value that a reply to a request for a number or a truth value holds.
pub open spec fn read_reply(ty: TypeIR, reply: ReplyView) -> Option<ValueView> {
    match (ty, reply) {
        (TypeIR::Int, ReplyView::Int(Ok(i))) => Some(ValueView::Int(i)),
        (TypeIR::Float, ReplyView::Float(Ok(f))) => Some(ValueView::Float(f)),
        (TypeIR::Bool, ReplyView::Bool(Ok(b))) => Some(ValueView::Bool(b)),
        _ => None,
    }
}

/// The message that a reply to such a request holds.
pub open spec fn refused(ty: TypeIR, reply: ReplyView) -> Option<Seq<char>> {
    match (ty, reply) {
        (TypeIR::Int, ReplyView::Int(Err(e))) => Some(e),
        (TypeIR::Float, ReplyView::Float(Err(e))) => Some(e),
        (TypeIR::Bool, ReplyView::Bool(Err(e))) => Some(e),
        _ => None,
    }
}

/// A number or a truth value that is expected is read by the host from what was printed, without
/// white space at its ends. What the host reads is the result, true as well as false; what it
/// refuses ends the run with its message.
pub proof fn numbers_and_truth_values_are_read(
    command: Seq<char>,
    ctx: ValueView,
    ty: &TypeIR,
    filled: Seq<char>,
    output: Seq<char>,
    reply: ReplyView,
    rest: Seq<ReplyView>,
)
    requires
        *ty is Int || *ty is Float || *ty is Bool,
    ensures
        run_shell(command, ctx, Some(ty), printed(filled, output, Seq::empty())) == asks::<
            ValueView,
        >(parse_request(*ty, trimmed(output))),
        ({
            let whole = run_shell(
                command,
                ctx,
                Some(ty),
                printed(filled, output, seq![reply] + rest),
            );
            &&& read_reply(*ty, reply) matches Some(v) ==> whole == gives(v, rest)
            &&& refused(*ty, reply) matches Some(e) ==> whole == fails::<ValueView>(
                InterpreterErrorView::Runtime(e),
                rest,
            )
            &&& read_reply(*ty, reply) is None && refused(*ty, reply) is None ==> whole == stops::<
                ValueView,
            >(StopView::Fault(Fault::UnexpectedReply), rest)
        }),
{
    lemma_two(
        ReplyView::Output(Ok(filled)),
        ReplyView::Output(Ok(output)),
        Seq::empty(),
    );
    lemma_two(ReplyView::Output(Ok(filled)), ReplyView::Output(Ok(output)), seq![reply] + rest);
    lemma_two(reply, reply, rest);
}

/// Outputs that the host reads as different truth values give different results.
pub proof fn different_truth_values_stay_different(
    command: Seq<char>,
    ctx: ValueView,
    ty: &TypeIR,
    filled: Seq<char>,
    output: Seq<char>,
    rest: Seq<ReplyView>,
)
    requires
        *ty is Bool,
    ensures
        run_shell(
            command,
            ctx,
            Some(ty),
            printed(filled, output, seq![ReplyView::Bool(Ok(true))] + rest),
        ) != run_shell(
            command,
            ctx,
            Some(ty),
            printed(filled, output, seq![ReplyView::Bool(Ok(false))] + rest),
        ),
{
    numbers_and_truth_values_are_read(
        command,
        ctx,
        ty,
        filled,
        output,
        ReplyView::Bool(Ok(true)),
        rest,
    );
    numbers_and_truth_values_are_read(
        command,
        ctx,
        ty,
        filled,
        output,
        ReplyView::Bool(Ok(false)),
        rest,
    );
}

/// A struct of one field is a dictionary with that field alone, which holds what was printed, read
/// as the type of the field: a number or a truth value by the host, a text as it is, and anything
/// else as JSON, or as a text where it is no JSON. White space at the ends does not count.
pub proof fn one_field_holds_the_output(
    command: Seq<char>,
    ctx: ValueView,
    ty: &TypeIR,
    fields: Vec<(String, TypeIR)>,
    filled: Seq<char>,
    output: Seq<char>,
    reply: ReplyView,
    rest: Seq<ReplyView>,
)
    requires
        *ty == (TypeIR::Struct { fields }),
        fields@.len() == 1,
    ensures
        ({
            let name = fields@[0].0@;
            let inner = fields@[0].1;
            let by_host = inner is Int || inner is Float || inner is Bool;
            let direct = run_shell(command, ctx, Some(ty), printed(filled, output, rest));
            let asked = run_shell(
                command,
                ctx,
                Some(ty),
                printed(filled, output, seq![reply] + rest),
            );
            let nothing = Map::<Seq<char>, ValueView>::empty();
            &&& by_host ==> run_shell(
                command,
                ctx,
                Some(ty),
                printed(filled, output, Seq::empty()),
            ) == asks::<ValueView>(parse_request(inner, trimmed(output)))
            &&& by_host ==> (read_reply(inner, reply) matches Some(v) ==> asked == gives(
                ValueView::Dict(nothing.insert(name, v)),
                rest,
            ))
            &&& by_host ==> (refused(inner, reply) matches Some(e) ==> asked == fails::<ValueView>(
                InterpreterErrorView::Runtime(e),
                rest,
            ))
            &&& inner is String ==> direct == gives(
                ValueView::Dict(nothing.insert(name, ValueView::String(trimmed(output)))),
                rest,
            )
            &&& !by_host && !(inner is String) ==> direct == gives(
                ValueView::Dict(
                    nothing.insert(
                        name,
                        match json_parsed(trimmed(output)) {
                            Ok(j) => json_value(j),
                            Err(_) => ValueView::String(trimmed(output)),
                        },
                    ),
                ),
                rest,
            )
        }),
{
    lemma_two(
        ReplyView::Output(Ok(filled)),
        ReplyView::Output(Ok(output)),
        Seq::empty(),
    );
    lemma_two(ReplyView::Output(Ok(filled)), ReplyView::Output(Ok(output)), rest);
    lemma_two(ReplyView::Output(Ok(filled)), ReplyView::Output(Ok(output)), seq![reply] + rest);
    lemma_two(reply, reply, rest);
}

/// A struct of several fields, or of none, is the JSON that was printed, whatever white space is
/// around it; what is no JSON is kept as a text, as it was printed.
pub proof fn several_fields_are_read_as_json(
    command: Seq<char>,
    ctx: ValueView,
    ty: &TypeIR,
    fields: Vec<(String, TypeIR)>,
    filled: Seq<char>,
    output: Seq<char>,
    rest: Seq<ReplyView>,
)
    requires
        *ty == (TypeIR::Struct { fields }),
        fields@.len() != 1,
    ensures
        run_shell(command, ctx, Some(ty), printed(filled, output, rest)) == gives(
            match json_parsed(trimmed(output)) {
                Ok(j) => json_value(j),
                Err(_) => ValueView::String(output),
            },
            rest,
        ),
{
    lemma_two(ReplyView::Output(Ok(filled)), ReplyView::Output(Ok(output)), rest);
}

} // verus!
