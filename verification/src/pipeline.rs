//! How pipelines run.
use vstd::prelude::*;
use vstd::string::*;
use crate::dict::Dict;
use crate::error::{InterpreterError, InterpreterErrorView};
use crate::executor::{Defs, ToolExecutor};
use crate::ir::{PipelineCallIR, PipelineIR, PipelineStepIR, TypeDefIR, TypeIR};
use crate::prompt::run_prompt;
use crate::run::{
    assemble, assembled, bindings_of, body_end, bound, run_args, run_expr, run_tool,
    start_bindings, Bindings,
};
use crate::session::{value_end, Outcome, ReplyView, Session, Stop, StopView};
use crate::shell::runtime_error;
use crate::value::{copy_dict, dict_view, put, Value, ValueView};

verus! {

/// What a named type stands for, where it is defined; any other type is itself.
pub open spec fn resolved<'a>(types: Map<Seq<char>, &'a TypeDefIR>, ty: &'a TypeIR) -> &'a TypeIR {
    match *ty {
        TypeIR::Named { name } => if types.dom().contains(name@) {
            &types[name@].definition
        } else {
            ty
        },
        _ => ty,
    }
}

/// What one step of a pipeline runs: a prompt or a tool with arguments, or an expression.
pub open spec fn run_call(
    defs: Defs,
    call: PipelineCallIR,
    ctx: ValueView,
    fuel: nat,
    rs: Seq<ReplyView>,
) -> Outcome<ValueView> {
    match call {
        PipelineCallIR::Prompt { name, args } => if defs.prompts.dom().contains(name@) {
            let prompt = defs.prompts[name@];
            match run_args(defs.tools, prompt.input, args@, 0, Map::empty(), ctx, fuel, rs) {
                (Ok(m), rest) => run_prompt(defs.base_path, *prompt, ValueView::Dict(m), rest),
                (Err(s), rest) => (Err(s), rest),
            }
        } else {
            (Err(runtime_error("Prompt '"@ + name@ + "' not found"@)), rs)
        },
        PipelineCallIR::Tool { name, args } => if defs.tools.dom().contains(name@) {
            let tool = defs.tools[name@];
            match run_args(defs.tools, tool.input, args@, 0, Map::empty(), ctx, fuel, rs) {
                (Ok(m), rest) => run_tool(defs.tools, *tool, ValueView::Dict(m), fuel, rest),
                (Err(s), rest) => (Err(s), rest),
            }
        } else {
            (Err(StopView::Failed(InterpreterErrorView::ToolNotFound(name@))), rs)
        },
        PipelineCallIR::Expr { expr } => run_expr(defs.tools, expr, ctx, None, fuel, rs),
    }
}

/// The steps of a pipeline from the `i`-th on, each in the context of what is bound so far: what
/// is bound in the end, and the last value.
pub open spec fn run_steps(
    defs: Defs,
    steps: Seq<PipelineStepIR>,
    i: nat,
    bindings: Bindings,
    last: ValueView,
    fuel: nat,
    rs: Seq<ReplyView>,
) -> Outcome<(Bindings, ValueView)>
    decreases steps.len() - i,
{
    if i >= steps.len() {
        (Ok((bindings, last)), rs)
    } else {
        match run_call(defs, steps[i as int].call, ValueView::Dict(bindings), fuel, rs) {
            (Ok(v), rest) => run_steps(
                defs,
                steps,
                i + 1,
                bound(bindings, steps[i as int].binding, v),
                v,
                fuel,
                rest,
            ),
            (Err(s), rest) => (Err(s), rest),
        }
    }
}

/// A pipeline. Where its output is a struct, or a name for one, it gives the bindings that are
/// the struct's fields, if there is any; otherwise the value of its last step.
pub open spec fn run_pipeline(
    defs: Defs,
    pipeline: PipelineIR,
    input: ValueView,
    fuel: nat,
    rs: Seq<ReplyView>,
) -> Outcome<ValueView> {
    match run_steps(
        defs,
        pipeline.steps@,
        0,
        start_bindings(input),
        ValueView::Null,
        fuel,
        rs,
    ) {
        (Ok((bindings, last)), rest) => (
            Ok(assembled(Some(resolved(defs.types, &pipeline.output)), bindings, last)),
            rest,
        ),
        (Err(s), rest) => (Err(s), rest),
    }
}

impl<'p, R> ToolExecutor<'p, R> {
    /// What a named type stands for, where it is defined.
    pub fn resolve_type<'a>(&'a self, ty: &'a TypeIR) -> (r: &'a TypeIR)
        ensures
            r == resolved(self@.types, ty),
    {
        match ty {
            TypeIR::Named { name } => match self.type_definitions().get(name) {
                Some(def) => &def.definition,
                None => ty,
            },
            _ => ty,
        }
    }

    /// Runs what one step of a pipeline runs.
    fn execute_call(
        &self,
        call: &PipelineCallIR,
        ctx: &Value,
        fuel: u64,
        session: &mut Session,
    ) -> (r: Result<Value, Stop>)
        ensures
            (value_end(r), final(session)@) == run_call(
                self@,
                *call,
                ctx@,
                fuel as nat,
                old(session)@,
            ),
    {
        match call {
            PipelineCallIR::Prompt { name, args } => match self.get_prompt(name.as_str()) {
                Some(prompt) => match self.execute_args(&prompt.input, args, ctx, fuel, session) {
                    Ok(m) => self.execute_prompt(prompt, Value::Dict(m), session),
                    Err(s) => Err(s),
                },
                None => Err(
                    Stop::Failed(
                        InterpreterError::Runtime(
                            "Prompt '".to_string().concat(name.as_str()).concat("' not found"),
                        ),
                    ),
                ),
            },
            PipelineCallIR::Tool { name, args } => match self.get_tool(name.as_str()) {
                Some(tool) => match self.execute_args(&tool.input, args, ctx, fuel, session) {
                    Ok(m) => self.execute(tool, Value::Dict(m), fuel, session),
                    Err(s) => Err(s),
                },
                None => Err(Stop::Failed(InterpreterError::ToolNotFound(name.clone()))),
            },
            PipelineCallIR::Expr { expr } => self.execute_tool_expr(expr, ctx, None, fuel, session),
        }
    }

    /// Runs the steps of a pipeline.
    fn execute_steps(
        &self,
        steps: &Vec<PipelineStepIR>,
        start: Dict<Value>,
        fuel: u64,
        session: &mut Session,
    ) -> (r: Result<(Dict<Value>, Value), Stop>)
        ensures
            (body_end(r), final(session)@) == run_steps(
                self@,
                steps@,
                0,
                dict_view(start),
                ValueView::Null,
                fuel as nat,
                old(session)@,
            ),
    {
        let mut bindings = start;
        let mut last = Value::Null;
        let mut i: usize = 0;
        while i < steps.len()
            invariant
                i <= steps@.len(),
                run_steps(
                    self@,
                    steps@,
                    0,
                    dict_view(start),
                    ValueView::Null,
                    fuel as nat,
                    old(session)@,
                ) == run_steps(
                    self@,
                    steps@,
                    i as nat,
                    dict_view(bindings),
                    last@,
                    fuel as nat,
                    session@,
                ),
            decreases steps@.len() - i,
        {
            let ctx = Value::Dict(copy_dict(&bindings));
            match self.execute_call(&steps[i].call, &ctx, fuel, session) {
                Ok(v) => {
                    if let Some(name) = &steps[i].binding {
                        put(&mut bindings, name.clone(), v.copy());
                    }
                    last = v;
                },
                Err(s) => {
                    return Err(s);
                },
            }
            i = i + 1;
        }
        Ok((bindings, last))
    }

    /// Runs a pipeline.
    pub fn execute_pipeline(
        &self,
        pipeline: &PipelineIR,
        input: Value,
        fuel: u64,
        session: &mut Session,
    ) -> (r: Result<Value, Stop>)
        ensures
            (value_end(r), final(session)@) == run_pipeline(
                self@,
                *pipeline,
                input@,
                fuel as nat,
                old(session)@,
            ),
    {
        match self.execute_steps(&pipeline.steps, bindings_of(&input), fuel, session) {
            Ok((bindings, last)) => Ok(
                assemble(Some(self.resolve_type(&pipeline.output)), &bindings, last),
            ),
            Err(s) => Err(s),
        }
    }
}

} // verus!
