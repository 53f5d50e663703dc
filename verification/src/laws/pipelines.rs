//! Laws of pipelines.
use vstd::prelude::*;
use vstd::string::*;
use crate::error::InterpreterErrorView;
use crate::executor::Defs;
use crate::ir::{PipelineCallIR, PipelineIR, PipelineStepIR, ToolExprIR, TypeDefIR, TypeIR};
use crate::laws::loops::{gives_fields_or_last, lemma_fields_or_last};
use crate::laws::tools::{
    argument_end, arguments_are_bound_to_their_names, binds_arguments, left_after_args,
};
use crate::laws::{fails, gives, stops};
use crate::pipeline::{run_call, run_pipeline, run_steps};
use crate::prompt::run_prompt;
use crate::run::{bound, run_expr, run_tool, start_bindings, Bindings};
use crate::session::ReplyView;
use crate::value::ValueView;

verus! {

proof fn lemma_steps_from(
    defs: Defs,
    steps: Seq<PipelineStepIR>,
    i: nat,
    others: Seq<PipelineStepIR>,
    j: nat,
    bindings: Bindings,
    last: ValueView,
    fuel: nat,
    rs: Seq<ReplyView>,
)
    requires
        i <= steps.len(),
        j <= others.len(),
        steps.skip(i as int) == others.skip(j as int),
    ensures
        run_steps(defs, steps, i, bindings, last, fuel, rs) == run_steps(
            defs,
            others,
            j,
            bindings,
            last,
            fuel,
            rs,
        ),
    decreases steps.len() - i,
{
    assert(steps.skip(i as int).len() == steps.len() - i);
    assert(others.skip(j as int).len() == others.len() - j);
    if i < steps.len() {
        assert(steps.skip(i as int)[0] == steps[i as int]);
        assert(others.skip(j as int)[0] == others[j as int]);
        assert(steps.skip(i as int).drop_first() =~= steps.skip((i + 1) as int));
        assert(others.skip(j as int).drop_first() =~= others.skip((j + 1) as int));
        let ran = run_call(defs, steps[i as int].call, ValueView::Dict(bindings), fuel, rs);
        if let Ok(v) = ran.0 {
            let more = bound(bindings, steps[i as int].binding, v);
            lemma_steps_from(defs, steps, i + 1, others, j + 1, more, v, fuel, ran.1);
        }
    }
}

/// A step and others run in that order. The step runs in the context of what is bound so far. Its
/// value is the last value so far, whether or not it is bound, and is bound for the others under
/// the step's name, where it has one. Where the step fails, the others do not run. No steps change
/// nothing.
pub proof fn steps_run_in_order(
    defs: Defs,
    step: PipelineStepIR,
    others: Seq<PipelineStepIR>,
    bindings: Bindings,
    last: ValueView,
    fuel: nat,
    rs: Seq<ReplyView>,
)
    ensures
        run_steps(defs, Seq::empty(), 0, bindings, last, fuel, rs) == gives((bindings, last), rs),
        ({
            let first = run_call(defs, step.call, ValueView::Dict(bindings), fuel, rs);
            let whole = run_steps(defs, seq![step] + others, 0, bindings, last, fuel, rs);
            match first.0 {
                Ok(v) => whole == run_steps(
                    defs,
                    others,
                    0,
                    match step.binding {
                        Some(name) => bindings.insert(name@, v),
                        None => bindings,
                    },
                    v,
                    fuel,
                    first.1,
                ),
                Err(s) => whole == stops::<(Bindings, ValueView)>(s, first.1),
            }
        }),
{
    let all = seq![step] + others;
    assert(all.skip(1) =~= others.skip(0));
    let ran = run_call(defs, step.call, ValueView::Dict(bindings), fuel, rs);
    if let Ok(v) = ran.0 {
        let more = bound(bindings, step.binding, v);
        lemma_steps_from(defs, all, 1, others, 0, more, v, fuel, ran.1);
    }
}

/// Steps and more steps: the second run where the first ended, with what they bound and their last
/// value.
pub proof fn steps_go_on(
    defs: Defs,
    first: Seq<PipelineStepIR>,
    second: Seq<PipelineStepIR>,
    bindings: Bindings,
    last: ValueView,
    fuel: nat,
    rs: Seq<ReplyView>,
)
    ensures
        ({
            let before = run_steps(defs, first, 0, bindings, last, fuel, rs);
            let whole = run_steps(defs, first + second, 0, bindings, last, fuel, rs);
            match before.0 {
                Ok((so_far, v)) => whole == run_steps(defs, second, 0, so_far, v, fuel, before.1),
                Err(s) => whole == stops::<(Bindings, ValueView)>(s, before.1),
            }
        }),
    decreases first.len(),
{
    if first.len() == 0 {
        assert(first =~= Seq::empty());
        assert(first + second =~= second);
    } else {
        let rest = first.drop_first();
        assert(first =~= seq![first[0]] + rest);
        assert(first + second =~= seq![first[0]] + (rest + second));
        steps_run_in_order(defs, first[0], rest, bindings, last, fuel, rs);
        steps_run_in_order(defs, first[0], rest + second, bindings, last, fuel, rs);
        let ran = run_call(defs, first[0].call, ValueView::Dict(bindings), fuel, rs);
        if let Ok(v) = ran.0 {
            let more = bound(bindings, first[0].binding, v);
            steps_go_on(defs, rest, second, more, v, fuel, ran.1);
        }
    }
}

/// What a pipeline is to give: what its output type stands for, where it is the name of a defined
/// type, and the output type itself otherwise.
pub open spec fn output_type(types: Map<Seq<char>, &TypeDefIR>, ty: TypeIR) -> TypeIR {
    if ty is Named && types.dom().contains(ty->name@) {
        types[ty->name@].definition
    } else {
        ty
    }
}

/// A pipeline runs its steps from what its input binds, and gives the value of its last step, but
/// where its output is a struct and some of the fields are bound in the end: then it gives a
/// dictionary of exactly those, with what they are bound to.
pub proof fn pipelines_give_their_last_value_or_fields(
    defs: Defs,
    pipeline: PipelineIR,
    input: ValueView,
    fuel: nat,
    rs: Seq<ReplyView>,
)
    ensures
        ({
            let ran = run_steps(
                defs,
                pipeline.steps@,
                0,
                start_bindings(input),
                ValueView::Null,
                fuel,
                rs,
            );
            let whole = run_pipeline(defs, pipeline, input, fuel, rs);
            match ran.0 {
                Err(s) => whole == stops::<ValueView>(s, ran.1),
                Ok((bindings, last)) => {
                    &&& whole.1 == ran.1
                    &&& gives_fields_or_last(
                        Some(&output_type(defs.types, pipeline.output)),
                        bindings,
                        last,
                        whole.0,
                    )
                },
            }
        }),
{
    let ran = run_steps(defs, pipeline.steps@, 0, start_bindings(input), ValueView::Null, fuel, rs);
    if let Ok((bindings, last)) = ran.0 {
        lemma_fields_or_last(
            Some(&output_type(defs.types, pipeline.output)),
            bindings,
            last,
        );
    }
}

/// Where the output of a pipeline is no struct, the pipeline gives what its last step gives,
/// whether or not the step binds it.
pub proof fn pipelines_give_what_the_last_step_gives(
    defs: Defs,
    pipeline: PipelineIR,
    first: Seq<PipelineStepIR>,
    step: PipelineStepIR,
    input: ValueView,
    fuel: nat,
    rs: Seq<ReplyView>,
)
    requires
        pipeline.steps@ == first.push(step),
        !(output_type(defs.types, pipeline.output) is Struct),
    ensures
        ({
            let before = run_steps(
                defs,
                first,
                0,
                start_bindings(input),
                ValueView::Null,
                fuel,
                rs,
            );
            let whole = run_pipeline(defs, pipeline, input, fuel, rs);
            match before.0 {
                Ok((so_far, _)) => whole == run_call(
                    defs,
                    step.call,
                    ValueView::Dict(so_far),
                    fuel,
                    before.1,
                ),
                Err(s) => whole == stops::<ValueView>(s, before.1),
            }
        }),
{
    let start = start_bindings(input);
    assert(pipeline.steps@ =~= first + seq![step]);
    assert(seq![step] + Seq::<PipelineStepIR>::empty() =~= seq![step]);
    steps_go_on(defs, first, seq![step], start, ValueView::Null, fuel, rs);
    let before = run_steps(defs, first, 0, start, ValueView::Null, fuel, rs);
    if let Ok((so_far, v)) = before.0 {
        steps_run_in_order(defs, step, Seq::empty(), so_far, v, fuel, before.1);
        let ran = run_call(defs, step.call, ValueView::Dict(so_far), fuel, before.1);
        if let Ok(w) = ran.0 {
            let more = bound(so_far, step.binding, w);
            steps_run_in_order(defs, step, Seq::empty(), more, w, fuel, ran.1);
        }
    }
}

/// Where the output of two pipelines is no struct, and they differ in nothing but what the last
/// step is bound to, they give the same.
pub proof fn binding_of_the_last_step_is_no_matter(
    defs: Defs,
    pipeline: PipelineIR,
    other: PipelineIR,
    first: Seq<PipelineStepIR>,
    step: PipelineStepIR,
    binding: Option<String>,
    input: ValueView,
    fuel: nat,
    rs: Seq<ReplyView>,
)
    requires
        pipeline.steps@ == first.push(step),
        other.steps@ == first.push(PipelineStepIR { binding, ..step }),
        pipeline.output == other.output,
        !(output_type(defs.types, pipeline.output) is Struct),
    ensures
        run_pipeline(defs, pipeline, input, fuel, rs) == run_pipeline(
            defs,
            other,
            input,
            fuel,
            rs,
        ),
{
    pipelines_give_what_the_last_step_gives(defs, pipeline, first, step, input, fuel, rs);
    pipelines_give_what_the_last_step_gives(
        defs,
        other,
        first,
        PipelineStepIR { binding, ..step },
        input,
        fuel,
        rs,
    );
}

/// A step that calls a prompt runs the arguments in order, and then the prompt on a dictionary of
/// what they gave under the names that the prompt's input gives them; one that calls a tool runs
/// the tool likewise. The first argument that fails ends the step. What is not registered is not
/// found, and nothing runs. Any other step is its expression, of which nothing is expected.
pub proof fn steps_run_prompts_tools_and_expressions(
    defs: Defs,
    name: String,
    args: Vec<ToolExprIR>,
    expr: ToolExprIR,
    n: nat,
    ctx: ValueView,
    fuel: nat,
    rs: Seq<ReplyView>,
)
    requires
        n <= args@.len(),
        forall|j: nat|
            j < n ==> (#[trigger] argument_end(defs.tools, args@, j, ctx, fuel, rs)) is Ok,
        n < args@.len() ==> argument_end(defs.tools, args@, n, ctx, fuel, rs) is Err,
    ensures
        run_call(defs, PipelineCallIR::Expr { expr }, ctx, fuel, rs) == run_expr(
            defs.tools,
            expr,
            ctx,
            None,
            fuel,
            rs,
        ),
        ({
            let prompted = run_call(defs, PipelineCallIR::Prompt { name, args }, ctx, fuel, rs);
            let called = run_call(defs, PipelineCallIR::Tool { name, args }, ctx, fuel, rs);
            let left = left_after_args(defs.tools, args@, n, ctx, fuel, rs);
            let refused = stops::<ValueView>(
                argument_end(defs.tools, args@, n, ctx, fuel, rs)->Err_0,
                left_after_args(defs.tools, args@, n + 1, ctx, fuel, rs),
            );
            &&& !defs.prompts.dom().contains(name@) ==> prompted == fails::<ValueView>(
                InterpreterErrorView::Runtime("Prompt '"@ + name@ + "' not found"@),
                rs,
            )
            &&& !defs.tools.dom().contains(name@) ==> called == fails::<ValueView>(
                InterpreterErrorView::ToolNotFound(name@),
                rs,
            )
            &&& defs.prompts.dom().contains(name@) && n < args@.len() ==> prompted == refused
            &&& defs.tools.dom().contains(name@) && n < args@.len() ==> called == refused
            &&& defs.prompts.dom().contains(name@) && n == args@.len() ==> exists|m: Bindings|
                {
                    &&& #[trigger] binds_arguments(
                        m,
                        defs.prompts[name@].input,
                        defs.tools,
                        args@,
                        n,
                        ctx,
                        fuel,
                        rs,
                    )
                    &&& prompted == run_prompt(
                        defs.base_path,
                        *defs.prompts[name@],
                        ValueView::Dict(m),
                        left,
                    )
                }
            &&& defs.tools.dom().contains(name@) && n == args@.len() ==> exists|m: Bindings|
                {
                    &&& #[trigger] binds_arguments(
                        m,
                        defs.tools[name@].input,
                        defs.tools,
                        args@,
                        n,
                        ctx,
                        fuel,
                        rs,
                    )
                    &&& called == run_tool(
                        defs.tools,
                        *defs.tools[name@],
                        ValueView::Dict(m),
                        fuel,
                        left,
                    )
                }
        }),
{
    if defs.prompts.dom().contains(name@) {
        let input = defs.prompts[name@].input;
        arguments_are_bound_to_their_names(defs.tools, input, args@, n, ctx, fuel, rs);
    }
    if defs.tools.dom().contains(name@) {
        let input = defs.tools[name@].input;
        arguments_are_bound_to_their_names(defs.tools, input, args@, n, ctx, fuel, rs);
    }
}

} // verus!
