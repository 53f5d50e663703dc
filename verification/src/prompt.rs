//! How prompts run.
use vstd::prelude::*;
use vstd::string::*;
use crate::error::InterpreterError;
use crate::executor::ToolExecutor;
use crate::ir::{PromptIR, StringOrFileIR};
use crate::llm::{ask_structured, query_structured};
use crate::schema::{outline, type_to_json_schema};
use crate::session::{
    ask_output, model_failure, text_end, value_end, Outcome, ReplyView, Request, RequestView,
    Session, Stop, StopView,
};
use crate::shell::runtime_error;
use crate::value::{Value, ValueView};

verus! {

/// A text that is given in place, or read from a file.
pub open spec fn resolve(
    base: Option<Seq<char>>,
    text: StringOrFileIR,
    rs: Seq<ReplyView>,
) -> Outcome<Seq<char>> {
    match text {
        StringOrFileIR::Literal { value } => (Ok(value@), rs),
        StringOrFileIR::File { path } => match ask_output(
            rs,
            RequestView::ReadFile { base, path: path@ },
        ) {
            (Ok(Ok(s)), rest) => (Ok(s), rest),
            (Ok(Err(e)), rest) => (Err(runtime_error("Failed to read file "@ + e)), rest),
            (Err(s), rest) => (Err(s), rest),
        },
    }
}

/// The system text of a prompt, where it has one.
pub open spec fn resolve_system(
    base: Option<Seq<char>>,
    system: Option<StringOrFileIR>,
    rs: Seq<ReplyView>,
) -> Outcome<Option<Seq<char>>> {
    match system {
        Some(text) => match resolve(base, text, rs) {
            (Ok(s), rest) => (Ok(Some(s)), rest),
            (Err(s), rest) => (Err(s), rest),
        },
        None => (Ok(None), rs),
    }
}

/// The text that a prompt puts to the model.
pub open spec fn full_prompt(system: Option<Seq<char>>, rendered: Seq<char>) -> Seq<char> {
    match system {
        Some(s) => s + "\n\n"@ + rendered,
        None => rendered,
    }
}

/// What is put to the model, and what is made of its answer.
pub open spec fn put_to_model(
    prompt: PromptIR,
    system: Option<Seq<char>>,
    rendered: Seq<char>,
    rs: Seq<ReplyView>,
) -> Outcome<ValueView> {
    match ask_structured(full_prompt(system, rendered), outline(prompt.output), rs) {
        (Ok(Ok(v)), rest) => (Ok(v), rest),
        (Ok(Err(e)), rest) => model_failure(e, rest),
        (Err(s), rest) => (Err(s), rest),
    }
}

/// A prompt: its template is filled in from the input, and the model answers in the form of its
/// output type.
pub open spec fn run_prompt(
    base: Option<Seq<char>>,
    prompt: PromptIR,
    input: ValueView,
    rs: Seq<ReplyView>,
) -> Outcome<ValueView> {
    match resolve_system(base, prompt.system, rs) {
        (Ok(system), rest) => match resolve(base, prompt.template, rest) {
            (Ok(template), rest) => match ask_output(
                rest,
                RequestView::Interpolate { template, context: input },
            ) {
                (Ok(Ok(rendered)), rest) => put_to_model(prompt, system, rendered, rest),
                (Ok(Err(e)), rest) => (Err(runtime_error(e)), rest),
                (Err(s), rest) => (Err(s), rest),
            },
            (Err(s), rest) => (Err(s), rest),
        },
        (Err(s), rest) => (Err(s), rest),
    }
}

/// What came of a run that may give a text.
pub open spec fn maybe_text_end(r: Result<Option<String>, Stop>) -> Result<
    Option<Seq<char>>,
    StopView,
> {
    match r {
        Ok(Some(s)) => Ok(Some(s@)),
        Ok(None) => Ok(None),
        Err(s) => Err(s@),
    }
}

impl<'p, R> ToolExecutor<'p, R> {
    /// A text that is given in place, or read from a file.
    pub fn resolve_string_or_file(
        &self,
        text: &StringOrFileIR,
        session: &mut Session,
    ) -> (r: Result<String, Stop>)
        ensures
            (text_end(r), final(session)@) == resolve(self@.base_path, *text, old(session)@),
    {
        match text {
            StringOrFileIR::Literal { value } => Ok(value.clone()),
            StringOrFileIR::File { path } => match session.ask_output(
                Request::ReadFile { base: self.base(), path: path.clone() },
            ) {
                Ok(Ok(s)) => Ok(s),
                Ok(Err(e)) => Err(
                    Stop::Failed(
                        InterpreterError::Runtime(
                            "Failed to read file ".to_string().concat(e.as_str()),
                        ),
                    ),
                ),
                Err(s) => Err(s),
            },
        }
    }

    /// The system text of a prompt, where it has one.
    fn resolve_optional(&self, text: &Option<StringOrFileIR>, session: &mut Session) -> (r: Result<
        Option<String>,
        Stop,
    >)
        ensures
            (maybe_text_end(r), final(session)@) == resolve_system(
                self@.base_path,
                *text,
                old(session)@,
            ),
    {
        match text {
            Some(t) => match self.resolve_string_or_file(t, session) {
                Ok(s) => Ok(Some(s)),
                Err(s) => Err(s),
            },
            None => Ok(None),
        }
    }

    /// Runs a prompt.
    pub fn execute_prompt(
        &self,
        prompt: &PromptIR,
        input: Value,
        session: &mut Session,
    ) -> (r: Result<Value, Stop>)
        ensures
            (value_end(r), final(session)@) == run_prompt(
                self@.base_path,
                *prompt,
                input@,
                old(session)@,
            ),
    {
        let system = match self.resolve_optional(&prompt.system, session) {
            Ok(s) => s,
            Err(s) => {
                return Err(s);
            },
        };
        let template = match self.resolve_string_or_file(&prompt.template, session) {
            Ok(t) => t,
            Err(s) => {
                return Err(s);
            },
        };
        let rendered = match session.ask_output(Request::Interpolate { template, context: input }) {
            Ok(Ok(t)) => t,
            Ok(Err(e)) => {
                return Err(Stop::Failed(InterpreterError::Runtime(e)));
            },
            Err(s) => {
                return Err(s);
            },
        };
        let schema = type_to_json_schema(&prompt.output);
        let full = match system {
            Some(s) => s.concat("\n\n").concat(rendered.as_str()),
            None => rendered,
        };
        match query_structured(full.as_str(), schema.as_str(), session) {
            Ok(Ok(v)) => Ok(v),
            Ok(Err(e)) => Err(session.model_failure(e)),
            Err(s) => Err(s),
        }
    }
}

} // verus!
