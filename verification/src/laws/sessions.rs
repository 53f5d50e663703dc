//! Laws of what a run asks the host for.
use vstd::prelude::*;
use crate::error::{ErrorView, InterpreterErrorView};
use crate::laws::{asks, fails, gives, stops};
use crate::session::{
    ask_bool, ask_bytes, ask_chat, ask_clock, ask_completion, ask_done, ask_flag, ask_float,
    ask_foreign, ask_int, ask_number, ask_output, ask_text, model_failure, Fault, ReplyView,
    RequestView, StopView,
};
use crate::value::ValueView;

verus! {

/// Without a reply a run ends with its request.
pub proof fn requests_wait_for_replies(request: RequestView)
    ensures
        ask_clock(Seq::empty(), request) == asks::<u64>(request),
        ask_text(Seq::empty(), request) == asks::<Seq<char>>(request),
        ask_output(Seq::empty(), request) == asks::<Result<Seq<char>, Seq<char>>>(request),
        ask_bytes(Seq::empty(), request) == asks::<Result<Seq<u8>, Seq<char>>>(request),
        ask_int(Seq::empty(), request) == asks::<Result<i64, Seq<char>>>(request),
        ask_float(Seq::empty(), request) == asks::<Result<u64, Seq<char>>>(request),
        ask_bool(Seq::empty(), request) == asks::<Result<bool, Seq<char>>>(request),
        ask_foreign(Seq::empty(), request) == asks::<Result<ValueView, InterpreterErrorView>>(
            request,
        ),
        ask_flag(Seq::empty(), request) == asks::<bool>(request),
        ask_number(Seq::empty(), request) == asks::<u64>(request),
        ask_completion(Seq::empty(), request) == asks::<Result<Seq<char>, ErrorView>>(request),
        ask_done(Seq::empty(), request) == asks::<()>(request),
        ask_chat(Seq::empty(), request).0 is Err,
        ask_chat(Seq::empty(), request).0->Err_0 == StopView::Ask(request),
{
}

/// The first reply that is left is the reply to a request, and is used up: what it holds is what
/// was asked for, where it is of the kind that answers the request, and it is a fault otherwise.
pub proof fn replies_are_used_in_order(request: RequestView, rs: Seq<ReplyView>)
    requires
        rs.len() > 0,
    ensures
        ({
            let rest = rs.drop_first();
            let fault = StopView::Fault(Fault::UnexpectedReply);
            &&& ask_clock(rs, request) == match rs[0] {
                ReplyView::Clock(x) => gives(x, rest),
                _ => stops(fault, rest),
            }
            &&& ask_text(rs, request) == match rs[0] {
                ReplyView::Text(x) => gives(x, rest),
                _ => stops(fault, rest),
            }
            &&& ask_output(rs, request) == match rs[0] {
                ReplyView::Output(x) => gives(x, rest),
                _ => stops(fault, rest),
            }
            &&& ask_bytes(rs, request) == match rs[0] {
                ReplyView::Bytes(x) => gives(x, rest),
                _ => stops(fault, rest),
            }
            &&& ask_int(rs, request) == match rs[0] {
                ReplyView::Int(x) => gives(x, rest),
                _ => stops(fault, rest),
            }
            &&& ask_float(rs, request) == match rs[0] {
                ReplyView::Float(x) => gives(x, rest),
                _ => stops(fault, rest),
            }
            &&& ask_bool(rs, request) == match rs[0] {
                ReplyView::Bool(x) => gives(x, rest),
                _ => stops(fault, rest),
            }
            &&& ask_foreign(rs, request) == match rs[0] {
                ReplyView::Value(x) => gives(x, rest),
                _ => stops(fault, rest),
            }
            &&& ask_flag(rs, request) == match rs[0] {
                ReplyView::Flag(x) => gives(x, rest),
                _ => stops(fault, rest),
            }
            &&& ask_number(rs, request) == match rs[0] {
                ReplyView::Number(x) => gives(x, rest),
                _ => stops(fault, rest),
            }
            &&& ask_completion(rs, request) == match rs[0] {
                ReplyView::Completion(x) => gives(x, rest),
                _ => stops(fault, rest),
            }
            &&& ask_chat(rs, request) == match rs[0] {
                ReplyView::Chat(x) => gives(x, rest),
                _ => stops(fault, rest),
            }
            &&& ask_done(rs, request) == match rs[0] {
                ReplyView::Done => gives((), rest),
                _ => stops(fault, rest),
            }
        }),
{
}

/// An error of a model is the error of the run, as the host writes it.
pub proof fn errors_of_models_are_told(error: ErrorView, text: Seq<char>, rest: Seq<ReplyView>)
    ensures
        model_failure(error, Seq::empty()) == asks::<ValueView>(
            RequestView::DescribeError { error },
        ),
        model_failure(error, seq![ReplyView::Text(text)] + rest) == fails::<ValueView>(
            InterpreterErrorView::LlmError(text),
            rest,
        ),
{
    assert((seq![ReplyView::Text(text)] + rest).drop_first() =~= rest);
}

} // verus!
