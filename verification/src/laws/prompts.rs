//! Laws of prompts and of queries to language models.
use vstd::prelude::*;
use vstd::string::*;
use crate::completions::{chat_plan, ChatPlanView};
use crate::error::{ErrorView, InterpreterErrorView};
use crate::fence::inner_block;
use crate::ir::{PromptIR, StringOrFileIR};
use crate::json::{json_parsed, json_value};
use crate::laws::{asks, fails, gives, stops};
use crate::llm::{
    ask_structured, model_of, query_plan, LlmConfigView, QueryPlanView, SettingsView,
};
use crate::prompt::{resolve, run_prompt};
use crate::schema::outline;
use crate::session::{ReplyView, RequestView, StopView};
use crate::value::ValueView;

verus! {

/// A text that is given in place is that text, and nothing is asked for. One that stands in a file
/// is what the host reads from there; what cannot be read is an error that says so.
pub proof fn texts_are_given_or_read(
    base: Option<Seq<char>>,
    value: String,
    path: String,
    text: Seq<char>,
    error: Seq<char>,
    rest: Seq<ReplyView>,
)
    ensures
        resolve(base, StringOrFileIR::Literal { value }, rest) == gives(value@, rest),
        resolve(base, StringOrFileIR::File { path }, Seq::empty()) == asks::<Seq<char>>(
            RequestView::ReadFile { base, path: path@ },
        ),
        resolve(
            base,
            StringOrFileIR::File { path },
            seq![ReplyView::Output(Ok(text))] + rest,
        ) == gives(text, rest),
        resolve(
            base,
            StringOrFileIR::File { path },
            seq![ReplyView::Output(Err(error))] + rest,
        ) == fails::<Seq<char>>(
            InterpreterErrorView::Runtime("Failed to read file "@ + error),
            rest,
        ),
{
    assert((seq![ReplyView::Output(Ok(text))] + rest).drop_first() =~= rest);
    assert((seq![ReplyView::Output(Err(error))] + rest).drop_first() =~= rest);
}

/// What is asked of the model for an answer of a form: the question, with a request for that form
/// behind it. The answer is the value of the JSON that stands in the response; a response without
/// any is an error, and so is that of the model.
pub proof fn answers_are_of_a_form(
    prompt: Seq<char>,
    form: Seq<char>,
    response: Seq<char>,
    error: ErrorView,
    rest: Seq<ReplyView>,
)
    ensures
        ask_structured(prompt, form, Seq::empty()) == asks::<Result<ValueView, ErrorView>>(
            RequestView::Complete {
                prompt: prompt
                    + "\n\nRespond with ONLY valid JSON matching this schema (no markdown, no explanation):\n"@
                    + form,
            },
        ),
        ({
            let whole = ask_structured(
                prompt,
                form,
                seq![ReplyView::Completion(Ok(response))] + rest,
            );
            match json_parsed(inner_block(response)) {
                Ok(j) => whole == gives(Ok::<ValueView, ErrorView>(json_value(j)), rest),
                Err(e) => whole == gives(
                    Err::<ValueView, ErrorView>(
                        ErrorView::Runtime(
                            "Failed to parse LLM response as JSON: "@ + e + ". Response was: "@
                                + response,
                        ),
                    ),
                    rest,
                ),
            }
        }),
        ask_structured(prompt, form, seq![ReplyView::Completion(Err(error))] + rest) == gives(
            Err::<ValueView, ErrorView>(error),
            rest,
        ),
{
    assert((seq![ReplyView::Completion(Ok(response))] + rest).drop_first() =~= rest);
    assert((seq![ReplyView::Completion(Err(error))] + rest).drop_first() =~= rest);
}

/// A prompt takes its system text, where it has one, and then its template; the host fills the
/// template in from the input. What cannot be had or filled in ends the run.
pub proof fn prompts_are_filled_in(
    base: Option<Seq<char>>,
    prompt: PromptIR,
    input: ValueView,
    rs: Seq<ReplyView>,
)
    ensures
        ({
            let told = resolve(base, prompt.system->0, rs);
            let left = if prompt.system is Some {
                told.1
            } else {
                rs
            };
            let template = resolve(base, prompt.template, left);
            let whole = run_prompt(base, prompt, input, rs);
            if prompt.system is Some && told.0 is Err {
                whole == stops::<ValueView>(told.0->Err_0, told.1)
            } else {
                match template.0 {
                    Err(s) => whole == stops::<ValueView>(s, template.1),
                    Ok(text) => {
                        &&& template.1.len() == 0 ==> whole == asks::<ValueView>(
                            RequestView::Interpolate { template: text, context: input },
                        )
                        &&& template.1.len() > 0 ==> (template.1[0] matches ReplyView::Output(
                            Err(e),
                        ) ==> whole == fails::<ValueView>(
                            InterpreterErrorView::Runtime(e),
                            template.1.drop_first(),
                        ))
                        &&& template.1.len() > 0 ==> (template.1[0] matches ReplyView::Output(
                            Ok(filled),
                        ) ==> is_answer_to(
                            prompt,
                            if prompt.system is Some {
                                told.0->Ok_0 + "\n\n"@ + filled
                            } else {
                                filled
                            },
                            template.1.drop_first(),
                            whole,
                        ))
                    },
                }
            }
        }),
{
    let left = if prompt.system is Some {
        resolve(base, prompt.system->0, rs).1
    } else {
        rs
    };
    let template = resolve(base, prompt.template, left);
    if template.1.len() == 0 {
        assert(template.1 =~= Seq::<ReplyView>::empty());
    } else {
        let rest = template.1.drop_first();
        if rest.len() > 0 {
            if rest.drop_first().len() == 0 {
                assert(rest.drop_first() =~= Seq::<ReplyView>::empty());
            }
        }
    }
}

/// Whether a run is that of a question put to the model for an answer in the form of a prompt's
/// output: the value of the answer, or an error of the model as the host writes it.
pub open spec fn is_answer_to(
    prompt: PromptIR,
    question: Seq<char>,
    rs: Seq<ReplyView>,
    whole: (Result<ValueView, StopView>, Seq<ReplyView>),
) -> bool {
    let said = ask_structured(question, outline(prompt.output), rs);
    match said.0 {
        Err(s) => whole == stops::<ValueView>(s, said.1),
        Ok(Ok(v)) => whole == gives(v, said.1),
        Ok(Err(error)) => {
            &&& said.1.len() == 0 ==> whole == asks::<ValueView>(
                RequestView::DescribeError { error },
            )
            &&& said.1.len() > 0 ==> (said.1[0] matches ReplyView::Text(text) ==> whole == fails::<
                ValueView,
            >(InterpreterErrorView::LlmError(text), said.1.drop_first()))
        },
    }
}

/// A query goes to the provider of its name, with the key and the place that the settings have for
/// that provider, and with the model, the prompt and the configuration as they are; where answers
/// are made up, it goes nowhere, and the answer holds the prompt.
pub proof fn queries_go_to_their_provider(
    provider: Seq<char>,
    model: Seq<char>,
    prompt: Seq<char>,
    config: LlmConfigView,
    settings: SettingsView,
)
    ensures
        ({
            let plan = query_plan(provider, model, prompt, config, settings);
            if settings.mock {
                plan matches Ok(QueryPlanView::Mock(text)) && text == "Mock LLM response for: "@
                    + prompt
            } else {
                &&& provider == "openai"@ && settings.openai_key is Some ==> (plan matches Ok(
                    QueryPlanView::OpenAi(c),
                ) && {
                    &&& c.api_key == settings.openai_key->0
                    &&& c.base_url == settings.openai_base_url
                    &&& c.model == model
                    &&& c.prompt == prompt
                    &&& c.preamble == config.system_prompt
                    &&& c.temperature == config.temperature
                    &&& c.max_tokens is Some == config.max_tokens is Some
                    &&& config.max_tokens is Some ==> c.max_tokens->0 == config.max_tokens->0
                })
                &&& provider == "anthropic"@ && settings.anthropic_key is Some ==> (plan matches Ok(
                    QueryPlanView::Anthropic(c),
                ) && {
                    &&& c.api_key == settings.anthropic_key->0
                    &&& c.base_url == settings.anthropic_base_url
                    &&& c.model == model
                    &&& c.prompt == prompt
                    &&& c.preamble == config.system_prompt
                    &&& c.temperature == config.temperature
                    &&& c.max_tokens is Some == config.max_tokens is Some
                    &&& config.max_tokens is Some ==> c.max_tokens->0 == config.max_tokens->0
                })
                &&& provider == "openai"@ && settings.openai_key is None ==> plan == Err::<
                    QueryPlanView,
                    ErrorView,
                >(
                    ErrorView::ConfigError(
                        "OpenAI API key not found. Set OPENAI_API_KEY env var or add to ~/.scaffold/config.toml"@,
                    ),
                )
                &&& provider == "anthropic"@ && settings.anthropic_key is None ==> plan == Err::<
                    QueryPlanView,
                    ErrorView,
                >(
                    ErrorView::ConfigError(
                        "Anthropic API key not found. Set ANTHROPIC_API_KEY env var or add to ~/.scaffold/config.toml"@,
                    ),
                )
                &&& provider != "openai"@ && provider != "anthropic"@ ==> plan == Err::<
                    QueryPlanView,
                    ErrorView,
                >(
                    ErrorView::ConfigError(
                        "Unknown LLM provider: "@ + provider + ". Supported: openai, anthropic"@,
                    ),
                )
            }
        }),
{
    reveal_strlit("openai");
    reveal_strlit("anthropic");
    assert("openai"@.len() == 6 && "anthropic"@.len() == 9);
}

/// The model of a query is that of its configuration, and the default one where that has none.
pub proof fn models_are_chosen(config: LlmConfigView, default_model: Seq<char>)
    ensures
        config.model is Some ==> Some(model_of(config, default_model)) == config.model,
        config.model is None ==> model_of(config, default_model) == default_model,
{
}

/// A chat is sent to the place that the settings have for OpenAI, or to OpenAI's own, with the key
/// of the settings. At OpenAI's own place the model has its own name, and only OpenAI serves;
/// anywhere else it has its full name, and every provider is served. Without a key it is not sent;
/// where answers are made up, it is not sent either.
pub proof fn chats_are_sent_to_openai(
    model: Seq<char>,
    provider: Seq<char>,
    name: Seq<char>,
    settings: SettingsView,
)
    ensures
        ({
            let plan = chat_plan(model, provider, name, settings);
            let place = match settings.openai_base_url {
                Some(url) => url,
                None => "https://api.openai.com/v1"@,
            };
            let own = place == "https://api.openai.com/v1"@;
            if settings.mock {
                plan matches Ok(ChatPlanView::Mock(r)) && {
                    &&& r.message.content == Some("Mock response"@)
                    &&& r.message.role is Assistant
                    &&& r.message.tool_calls is None
                    &&& r.finish_reason == Some("stop"@)
                }
            } else if own && provider == "anthropic"@ {
                plan == Err::<ChatPlanView, ErrorView>(
                    ErrorView::ConfigError(
                        "Native tool calling not yet supported for Anthropic. Use OpenAI-compatible proxy with custom base_url, or use 'openai/model-name' prefix."@,
                    ),
                )
            } else if own && provider != "openai"@ {
                plan == Err::<ChatPlanView, ErrorView>(
                    ErrorView::ConfigError(
                        "Unknown LLM provider: "@ + provider
                            + ". Supported: openai (or use custom base_url for compatible APIs)"@,
                    ),
                )
            } else if settings.openai_key is None {
                plan == Err::<ChatPlanView, ErrorView>(
                    ErrorView::ConfigError(
                        "OpenAI API key not found. Set OPENAI_API_KEY env var or add to ~/.scaffold/config.toml"@,
                    ),
                )
            } else {
                plan matches Ok(ChatPlanView::Send(c)) && {
                    &&& c.url == place + "/chat/completions"@
                    &&& c.authorization == "Bearer "@ + settings.openai_key->0
                    &&& c.model == if own {
                        name
                    } else {
                        model
                    }
                }
            }
        }),
{
    reveal_strlit("openai");
    reveal_strlit("anthropic");
    assert("openai"@.len() == 6 && "anthropic"@.len() == 9);
}

} // verus!
