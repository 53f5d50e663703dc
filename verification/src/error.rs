//! Errors.
use vstd::prelude::*;

verus! {

/// An error of the runtime.
#[derive(Debug)]
pub enum Error {
    ConfigError(String),
    Runtime(String),
}

/// What an error of the runtime is, mathematically.
pub enum ErrorView {
    ConfigError(Seq<char>),
    Runtime(Seq<char>),
}

impl View for Error {
    type V = ErrorView;

    open spec fn view(&self) -> ErrorView {
        match *self {
            Error::ConfigError(s) => ErrorView::ConfigError(s@),
            Error::Runtime(s) => ErrorView::Runtime(s@),
        }
    }
}

impl Clone for Error {
    fn clone(&self) -> (r: Self)
        ensures
            r@ == self@,
    {
        match self {
            Error::ConfigError(s) => Error::ConfigError(s.clone()),
            Error::Runtime(s) => Error::Runtime(s.clone()),
        }
    }
}

/// An error of the interpreter. A condition that failed and an error of a model are held as text.
/// `Break` and `Continue` are how a loop's body leaves it.
#[derive(Debug)]
pub enum InterpreterError {
    Runtime(String),
    PreconditionFailed(String),
    PostconditionFailed(String),
    LlmError(String),
    ShellError(String),
    ToolNotFound(String),
    VariableNotFound(String),
    FieldNotFound { owner: String, field: String },
    TypeMismatch { expected: String, actual: String },
    Break,
    Continue,
}

/// What an error of the interpreter is, mathematically.
pub enum InterpreterErrorView {
    Runtime(Seq<char>),
    PreconditionFailed(Seq<char>),
    PostconditionFailed(Seq<char>),
    LlmError(Seq<char>),
    ShellError(Seq<char>),
    ToolNotFound(Seq<char>),
    VariableNotFound(Seq<char>),
    FieldNotFound { owner: Seq<char>, field: Seq<char> },
    TypeMismatch { expected: Seq<char>, actual: Seq<char> },
    Break,
    Continue,
}

impl View for InterpreterError {
    type V = InterpreterErrorView;

    open spec fn view(&self) -> InterpreterErrorView {
        match *self {
            InterpreterError::Runtime(s) => InterpreterErrorView::Runtime(s@),
            InterpreterError::PreconditionFailed(s) => InterpreterErrorView::PreconditionFailed(s@),
            InterpreterError::PostconditionFailed(s) => {
                InterpreterErrorView::PostconditionFailed(s@)
            },
            InterpreterError::LlmError(s) => InterpreterErrorView::LlmError(s@),
            InterpreterError::ShellError(s) => InterpreterErrorView::ShellError(s@),
            InterpreterError::ToolNotFound(s) => InterpreterErrorView::ToolNotFound(s@),
            InterpreterError::VariableNotFound(s) => InterpreterErrorView::VariableNotFound(s@),
            InterpreterError::FieldNotFound { owner, field } => InterpreterErrorView::FieldNotFound {
                owner: owner@,
                field: field@,
            },
            InterpreterError::TypeMismatch { expected, actual } => InterpreterErrorView::TypeMismatch {
                expected: expected@,
                actual: actual@,
            },
            InterpreterError::Break => InterpreterErrorView::Break,
            InterpreterError::Continue => InterpreterErrorView::Continue,
        }
    }
}

impl Clone for InterpreterError {
    fn clone(&self) -> (r: Self)
        ensures
            r@ == self@,
    {
        match self {
            InterpreterError::Runtime(s) => InterpreterError::Runtime(s.clone()),
            InterpreterError::PreconditionFailed(s) => InterpreterError::PreconditionFailed(
                s.clone(),
            ),
            InterpreterError::PostconditionFailed(s) => InterpreterError::PostconditionFailed(
                s.clone(),
            ),
            InterpreterError::LlmError(s) => InterpreterError::LlmError(s.clone()),
            InterpreterError::ShellError(s) => InterpreterError::ShellError(s.clone()),
            InterpreterError::ToolNotFound(s) => InterpreterError::ToolNotFound(s.clone()),
            InterpreterError::VariableNotFound(s) => InterpreterError::VariableNotFound(s.clone()),
            InterpreterError::FieldNotFound { owner, field } => InterpreterError::FieldNotFound {
                owner: owner.clone(),
                field: field.clone(),
            },
            InterpreterError::TypeMismatch { expected, actual } => InterpreterError::TypeMismatch {
                expected: expected.clone(),
                actual: actual.clone(),
            },
            InterpreterError::Break => InterpreterError::Break,
            InterpreterError::Continue => InterpreterError::Continue,
        }
    }
}

} // verus!
