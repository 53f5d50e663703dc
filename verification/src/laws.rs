//! What the library promises of its operations, over all inputs.
//!
//! Each law is a proof function. Its statement says what a result is in terms of the inputs, or
//! how the results of several calls relate.
use vstd::prelude::*;
use crate::error::InterpreterErrorView;
use crate::session::{Outcome, ReplyView, RequestView, StopView};

pub mod agents;
pub mod chats;
pub mod commands;
pub mod expressions;
pub mod loops;
pub mod numbers;
pub mod pipelines;
pub mod prompts;
pub mod records;
pub mod schemas;
pub mod sessions;
pub mod texts;
pub mod tools;
pub mod traces;
pub mod values;
pub mod views;

verus! {

/// The end of a run that gives a value, and the replies that it left.
pub open spec fn gives<T>(value: T, rest: Seq<ReplyView>) -> Outcome<T> {
    (Ok(value), rest)
}

/// The end of a run that fails, and the replies that it left.
pub open spec fn fails<T>(error: InterpreterErrorView, rest: Seq<ReplyView>) -> Outcome<T> {
    (Err(StopView::Failed(error)), rest)
}

/// The end of a run that needs a reply to a request, and the replies that it left: none.
pub open spec fn asks<T>(request: RequestView) -> Outcome<T> {
    (Err(StopView::Ask(request)), Seq::empty())
}

/// The end of a run that cannot be had otherwise than by stopping as another did.
pub open spec fn stops<T>(stop: StopView, rest: Seq<ReplyView>) -> Outcome<T> {
    (Err(stop), rest)
}

} // verus!
