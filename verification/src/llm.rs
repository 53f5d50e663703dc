//! Queries to language models: how they are configured, which provider they go to, and what is
//! made of the answer.
use vstd::prelude::*;
use vstd::string::*;
use crate::error::{Error, ErrorView};
use crate::fence::{extract_inner, inner_block};
use crate::json::{json_end, json_parsed, json_to_value, json_value, parse_json, Json, JsonView};
use crate::session::{
    ask_completion, Outcome, ReplyView, Request, RequestView, Session, Stop, StopView,
};
use crate::text::{copy_text, opt_text, same_text};
use crate::value::{Value, ValueView};

verus! {

/// A single-precision number, held as its bit pattern.
#[derive(Clone, Copy, Debug, PartialEq, Eq, Structural)]
pub struct Single {
    pub bits: u32,
}

/// How a language model is called.
#[derive(Debug)]
pub struct LlmConfig {
    /// The model; the default one where there is none.
    pub model: Option<String>,
    pub temperature: Option<Single>,
    pub max_tokens: Option<u32>,
    pub system_prompt: Option<String>,
}

/// What a configuration is, mathematically.
pub struct LlmConfigView {
    pub model: Option<Seq<char>>,
    pub temperature: Option<Single>,
    pub max_tokens: Option<u32>,
    pub system_prompt: Option<Seq<char>>,
}

impl View for LlmConfig {
    type V = LlmConfigView;

    open spec fn view(&self) -> LlmConfigView {
        LlmConfigView {
            model: opt_text(self.model),
            temperature: self.temperature,
            max_tokens: self.max_tokens,
            system_prompt: opt_text(self.system_prompt),
        }
    }
}

/// The configuration that sets nothing.
pub open spec fn unset_config() -> LlmConfigView {
    LlmConfigView { model: None, temperature: None, max_tokens: None, system_prompt: None }
}

impl Clone for LlmConfig {
    fn clone(&self) -> (r: Self)
        ensures
            r@ == self@,
    {
        LlmConfig {
            model: copy_text(&self.model),
            temperature: self.temperature,
            max_tokens: self.max_tokens,
            system_prompt: copy_text(&self.system_prompt),
        }
    }
}

impl Default for LlmConfig {
    fn default() -> (r: Self)
        ensures
            r@ == unset_config(),
    {
        LlmConfig { model: None, temperature: None, max_tokens: None, system_prompt: None }
    }
}

impl LlmConfig {
    /// A configuration that sets nothing.
    pub fn new() -> (r: Self)
        ensures
            r@ == unset_config(),
    {
        LlmConfig { model: None, temperature: None, max_tokens: None, system_prompt: None }
    }

    /// The configuration with a model.
    pub fn with_model(self, model: String) -> (r: Self)
        ensures
            r@ == (LlmConfigView { model: Some(model@), ..self@ }),
    {
        let mut r = self;
        r.model = Some(model);
        r
    }

    /// The configuration with a temperature.
    pub fn with_temperature(self, temp: Single) -> (r: Self)
        ensures
            r@ == (LlmConfigView { temperature: Some(temp), ..self@ }),
    {
        let mut r = self;
        r.temperature = Some(temp);
        r
    }

    /// The configuration with a bound on the number of tokens.
    pub fn with_max_tokens(self, tokens: u32) -> (r: Self)
        ensures
            r@ == (LlmConfigView { max_tokens: Some(tokens), ..self@ }),
    {
        let mut r = self;
        r.max_tokens = Some(tokens);
        r
    }

    /// The configuration with a system prompt.
    pub fn with_system_prompt(self, prompt: String) -> (r: Self)
        ensures
            r@ == (LlmConfigView { system_prompt: Some(prompt@), ..self@ }),
    {
        let mut r = self;
        r.system_prompt = Some(prompt);
        r
    }
}

/// Puts an agent together.
#[derive(Debug)]
pub struct AgentBuilder {
    model: String,
    system_prompt: Option<String>,
    temperature: Option<Single>,
    max_tokens: Option<u32>,
}

/// A builder stands for the configuration that it builds.
impl View for AgentBuilder {
    type V = LlmConfigView;

    closed spec fn view(&self) -> LlmConfigView {
        LlmConfigView {
            model: Some(self.model@),
            temperature: self.temperature,
            max_tokens: self.max_tokens,
            system_prompt: opt_text(self.system_prompt),
        }
    }
}

impl Clone for AgentBuilder {
    fn clone(&self) -> (r: Self)
        ensures
            r@ == self@,
    {
        AgentBuilder {
            model: self.model.clone(),
            system_prompt: copy_text(&self.system_prompt),
            temperature: self.temperature,
            max_tokens: self.max_tokens,
        }
    }
}

impl AgentBuilder {
    /// A builder of an agent for a model.
    pub fn new(model: String) -> (r: Self)
        ensures
            r@ == (LlmConfigView { model: Some(model@), ..unset_config() }),
    {
        AgentBuilder { model, system_prompt: None, temperature: None, max_tokens: None }
    }

    /// The builder with a system prompt.
    pub fn system_prompt(self, prompt: String) -> (r: Self)
        ensures
            r@ == (LlmConfigView { system_prompt: Some(prompt@), ..self@ }),
    {
        let mut r = self;
        r.system_prompt = Some(prompt);
        r
    }

    /// The builder with a temperature.
    pub fn temperature(self, temp: Single) -> (r: Self)
        ensures
            r@ == (LlmConfigView { temperature: Some(temp), ..self@ }),
    {
        let mut r = self;
        r.temperature = Some(temp);
        r
    }

    /// The builder with a bound on the number of tokens.
    pub fn max_tokens(self, tokens: u32) -> (r: Self)
        ensures
            r@ == (LlmConfigView { max_tokens: Some(tokens), ..self@ }),
    {
        let mut r = self;
        r.max_tokens = Some(tokens);
        r
    }

    /// The configuration of the agent.
    pub fn build_config(&self) -> (r: LlmConfig)
        ensures
            r@ == self@,
    {
        LlmConfig {
            model: Some(self.model.clone()),
            temperature: self.temperature,
            max_tokens: self.max_tokens,
            system_prompt: copy_text(&self.system_prompt),
        }
    }

    /// The agent.
    pub fn build(self) -> (r: Agent)
        ensures
            r@ == self@,
    {
        Agent { config: self.build_config() }
    }
}

/// A language model with its configuration.
#[derive(Debug)]
pub struct Agent {
    config: LlmConfig,
}

/// An agent stands for its configuration.
impl View for Agent {
    type V = LlmConfigView;

    closed spec fn view(&self) -> LlmConfigView {
        self.config@
    }
}

impl Clone for Agent {
    fn clone(&self) -> (r: Self)
        ensures
            r@ == self@,
    {
        Agent { config: self.config.clone() }
    }
}

impl Agent {
    /// An agent for a model.
    pub fn new(model: String) -> (r: Self)
        ensures
            r@ == (LlmConfigView { model: Some(model@), ..unset_config() }),
    {
        Agent { config: LlmConfig::new().with_model(model) }
    }

    /// The agent's configuration.
    pub fn config(&self) -> (r: &LlmConfig)
        ensures
            r@ == self@,
    {
        &self.config
    }

    /// The model.
    pub fn model(&self) -> (r: Option<&str>)
        ensures
            match r {
                Some(m) => self@.model == Some(m@),
                None => self@.model is None,
            },
    {
        match &self.config.model {
            Some(m) => Some(m.as_str()),
            None => None,
        }
    }

    /// The system prompt.
    pub fn system_prompt(&self) -> (r: Option<&str>)
        ensures
            match r {
                Some(p) => self@.system_prompt == Some(p@),
                None => self@.system_prompt is None,
            },
    {
        match &self.config.system_prompt {
            Some(p) => Some(p.as_str()),
            None => None,
        }
    }
}

/// What the environment and the configuration file say of providers.
#[derive(Debug)]
pub struct Settings {
    /// Whether answers are made up in place of asking a model.
    pub mock: bool,
    pub openai_key: Option<String>,
    pub openai_base_url: Option<String>,
    pub anthropic_key: Option<String>,
    pub anthropic_base_url: Option<String>,
}

/// What settings are, mathematically.
pub struct SettingsView {
    pub mock: bool,
    pub openai_key: Option<Seq<char>>,
    pub openai_base_url: Option<Seq<char>>,
    pub anthropic_key: Option<Seq<char>>,
    pub anthropic_base_url: Option<Seq<char>>,
}

impl View for Settings {
    type V = SettingsView;

    open spec fn view(&self) -> SettingsView {
        SettingsView {
            mock: self.mock,
            openai_key: opt_text(self.openai_key),
            openai_base_url: opt_text(self.openai_base_url),
            anthropic_key: opt_text(self.anthropic_key),
            anthropic_base_url: opt_text(self.anthropic_base_url),
        }
    }
}

/// A completion to ask a provider for.
#[derive(Debug)]
pub struct Completion {
    pub api_key: String,
    pub base_url: Option<String>,
    pub model: String,
    pub prompt: String,
    pub preamble: Option<String>,
    pub temperature: Option<Single>,
    pub max_tokens: Option<u64>,
}

/// What a completion to ask for is, mathematically.
pub struct CompletionView {
    pub api_key: Seq<char>,
    pub base_url: Option<Seq<char>>,
    pub model: Seq<char>,
    pub prompt: Seq<char>,
    pub preamble: Option<Seq<char>>,
    pub temperature: Option<Single>,
    pub max_tokens: Option<u64>,
}

impl View for Completion {
    type V = CompletionView;

    open spec fn view(&self) -> CompletionView {
        CompletionView {
            api_key: self.api_key@,
            base_url: opt_text(self.base_url),
            model: self.model@,
            prompt: self.prompt@,
            preamble: opt_text(self.preamble),
            temperature: self.temperature,
            max_tokens: self.max_tokens,
        }
    }
}

/// How a query is answered.
#[derive(Debug)]
pub enum QueryPlan {
    /// With this text.
    Mock(String),
    /// By OpenAI.
    OpenAi(Completion),
    /// By Anthropic.
    Anthropic(Completion),
}

/// How a query is answered, mathematically.
pub enum QueryPlanView {
    Mock(Seq<char>),
    OpenAi(CompletionView),
    Anthropic(CompletionView),
}

impl View for QueryPlan {
    type V = QueryPlanView;

    open spec fn view(&self) -> QueryPlanView {
        match *self {
            QueryPlan::Mock(s) => QueryPlanView::Mock(s@),
            QueryPlan::OpenAi(c) => QueryPlanView::OpenAi(c@),
            QueryPlan::Anthropic(c) => QueryPlanView::Anthropic(c@),
        }
    }
}

/// What came of planning a query.
pub open spec fn plan_end(r: Result<QueryPlan, Error>) -> Result<QueryPlanView, ErrorView> {
    match r {
        Ok(p) => Ok(p@),
        Err(e) => Err(e@),
    }
}

/// The model of a configuration.
pub open spec fn model_of(config: LlmConfigView, default_model: Seq<char>) -> Seq<char> {
    match config.model {
        Some(m) => m,
        None => default_model,
    }
}

/// The completion that a query asks a provider for.
pub open spec fn completion_for(
    api_key: Seq<char>,
    base_url: Option<Seq<char>>,
    model: Seq<char>,
    prompt: Seq<char>,
    config: LlmConfigView,
) -> CompletionView {
    CompletionView {
        api_key,
        base_url,
        model,
        prompt,
        preamble: config.system_prompt,
        temperature: config.temperature,
        max_tokens: match config.max_tokens {
            Some(n) => Some(n as u64),
            None => None,
        },
    }
}

/// The error of a query to OpenAI without a key.
pub open spec fn no_openai_key() -> ErrorView {
    ErrorView::ConfigError(
        "OpenAI API key not found. Set OPENAI_API_KEY env var or add to ~/.scaffold/config.toml"@,
    )
}

/// How a query is answered, by a model of a provider.
pub open spec fn query_plan(
    provider: Seq<char>,
    model: Seq<char>,
    prompt: Seq<char>,
    config: LlmConfigView,
    settings: SettingsView,
) -> Result<QueryPlanView, ErrorView> {
    if settings.mock {
        Ok(QueryPlanView::Mock("Mock LLM response for: "@ + prompt))
    } else if provider == "openai"@ {
        match settings.openai_key {
            Some(key) => Ok(
                QueryPlanView::OpenAi(
                    completion_for(key, settings.openai_base_url, model, prompt, config),
                ),
            ),
            None => Err(no_openai_key()),
        }
    } else if provider == "anthropic"@ {
        match settings.anthropic_key {
            Some(key) => Ok(
                QueryPlanView::Anthropic(
                    completion_for(key, settings.anthropic_base_url, model, prompt, config),
                ),
            ),
            None => Err(
                ErrorView::ConfigError(
                    "Anthropic API key not found. Set ANTHROPIC_API_KEY env var or add to ~/.scaffold/config.toml"@,
                ),
            ),
        }
    } else {
        Err(
            ErrorView::ConfigError(
                "Unknown LLM provider: "@ + provider + ". Supported: openai, anthropic"@,
            ),
        )
    }
}

/// The model of a configuration.
pub fn chosen_model(config: &LlmConfig, default_model: &str) -> (r: String)
    ensures
        r@ == model_of(config@, default_model@),
{
    match &config.model {
        Some(m) => m.clone(),
        None => default_model.to_string(),
    }
}

/// The completion that a query asks a provider for.
fn ask_for(
    api_key: &String,
    base_url: &Option<String>,
    model: &str,
    prompt: &str,
    config: &LlmConfig,
) -> (r: Completion)
    ensures
        r@ == completion_for(api_key@, opt_text(*base_url), model@, prompt@, config@),
{
    Completion {
        api_key: api_key.clone(),
        base_url: copy_text(base_url),
        model: model.to_string(),
        prompt: prompt.to_string(),
        preamble: copy_text(&config.system_prompt),
        temperature: config.temperature,
        max_tokens: match config.max_tokens {
            Some(n) => Some(n as u64),
            None => None,
        },
    }
}

/// The error of a query to OpenAI without a key.
pub fn missing_openai_key() -> (r: Error)
    ensures
        r@ == no_openai_key(),
{
    Error::ConfigError(
        "OpenAI API key not found. Set OPENAI_API_KEY env var or add to ~/.scaffold/config.toml".to_string(),
    )
}

/// How a query is answered, by a model of a provider.
pub fn plan_query(
    provider: &str,
    model: &str,
    prompt: &str,
    config: &LlmConfig,
    settings: &Settings,
) -> (r: Result<QueryPlan, Error>)
    ensures
        plan_end(r) == query_plan(provider@, model@, prompt@, config@, settings@),
{
    if settings.mock {
        Ok(QueryPlan::Mock("Mock LLM response for: ".to_string().concat(prompt)))
    } else if same_text(provider, "openai") {
        match &settings.openai_key {
            Some(key) => Ok(
                QueryPlan::OpenAi(ask_for(key, &settings.openai_base_url, model, prompt, config)),
            ),
            None => Err(missing_openai_key()),
        }
    } else if same_text(provider, "anthropic") {
        match &settings.anthropic_key {
            Some(key) => Ok(
                QueryPlan::Anthropic(
                    ask_for(key, &settings.anthropic_base_url, model, prompt, config),
                ),
            ),
            None => Err(
                Error::ConfigError(
                    "Anthropic API key not found. Set ANTHROPIC_API_KEY env var or add to ~/.scaffold/config.toml".to_string(),
                ),
            ),
        }
    } else {
        Err(
            Error::ConfigError(
                "Unknown LLM provider: ".to_string().concat(provider).concat(
                    ". Supported: openai, anthropic",
                ),
            ),
        )
    }
}

/// What a model's answer holds.
#[derive(Debug)]
pub enum Content {
    Text(String),
    /// Something else, such as an image.
    Other,
}

/// The text of an answer; nothing where it is not a text.
pub fn extract_text(content: Content) -> (r: String)
    ensures
        r@ == match content {
            Content::Text(s) => s@,
            Content::Other => Seq::empty(),
        },
{
    match content {
        Content::Text(s) => s,
        Content::Other => {
            let empty = String::new();
            assert(empty@ =~= Seq::<char>::empty());
            empty
        },
    }
}

/// A prompt that asks for an answer of a given form.
pub open spec fn structured_prompt(prompt: Seq<char>, schema: Seq<char>) -> Seq<char> {
    prompt
        + "\n\nRespond with ONLY valid JSON matching this schema (no markdown, no explanation):\n"@
        + schema
}

/// What an answer is once what stands in it was read as JSON.
pub open spec fn structured_answer(
    parsed: Result<JsonView, Seq<char>>,
    response: Seq<char>,
) -> Result<ValueView, ErrorView> {
    match parsed {
        Ok(j) => Ok(json_value(j)),
        Err(e) => Err(
            ErrorView::Runtime(
                "Failed to parse LLM response as JSON: "@ + e + ". Response was: "@ + response,
            ),
        ),
    }
}

/// A query to the default model for an answer of a given form, which may stand in a fenced block.
pub open spec fn ask_structured(
    prompt: Seq<char>,
    schema: Seq<char>,
    rs: Seq<ReplyView>,
) -> Outcome<Result<ValueView, ErrorView>> {
    match ask_completion(rs, RequestView::Complete { prompt: structured_prompt(prompt, schema) }) {
        (Ok(Ok(response)), rest) => (
            Ok(structured_answer(json_parsed(inner_block(response)), response)),
            rest,
        ),
        (Ok(Err(e)), rest) => (Ok(Err(e)), rest),
        (Err(s), rest) => (Err(s), rest),
    }
}

/// What came of an answer.
pub open spec fn answer_end(r: Result<Value, Error>) -> Result<ValueView, ErrorView> {
    match r {
        Ok(v) => Ok(v@),
        Err(e) => Err(e@),
    }
}

/// What came of a query for an answer.
pub open spec fn answered_end(r: Result<Result<Value, Error>, Stop>) -> Result<
    Result<ValueView, ErrorView>,
    StopView,
> {
    match r {
        Ok(a) => Ok(answer_end(a)),
        Err(s) => Err(s@),
    }
}

/// What an answer is once what stands in it was read as JSON.
pub fn answer_value(parsed: Result<Json, String>, response: &str) -> (r: Result<Value, Error>)
    ensures
        answer_end(r) == structured_answer(json_end(parsed), response@),
{
    match parsed {
        Ok(j) => Ok(json_to_value(j)),
        Err(e) => Err(
            Error::Runtime(
                "Failed to parse LLM response as JSON: ".to_string().concat(e.as_str()).concat(
                    ". Response was: ",
                ).concat(response),
            ),
        ),
    }
}

/// Queries the default model for an answer of a given form.
pub fn query_structured(prompt: &str, schema: &str, session: &mut Session) -> (r: Result<
    Result<Value, Error>,
    Stop,
>)
    ensures
        (answered_end(r), final(session)@) == ask_structured(prompt@, schema@, old(session)@),
{
    let full = prompt.to_string().concat(
        "\n\nRespond with ONLY valid JSON matching this schema (no markdown, no explanation):\n",
    ).concat(schema);
    match session.ask_completion(Request::Complete { prompt: full }) {
        Ok(Ok(response)) => Ok(
            answer_value(parse_json(extract_inner(response.as_str())), response.as_str()),
        ),
        Ok(Err(e)) => Ok(Err(e)),
        Err(s) => Err(s),
    }
}

/// The error of an answer that is not the JSON that was asked for.
pub fn query_json_error(message: &str) -> (r: Error)
    ensures
        r@ == ErrorView::Runtime("Failed to parse LLM response as JSON: "@ + message@),
{
    Error::Runtime("Failed to parse LLM response as JSON: ".to_string().concat(message))
}

/// The error of an agent's answer that is not the JSON that was asked for.
pub fn prompt_json_error(message: &str) -> (r: Error)
    ensures
        r@ == ErrorView::Runtime("Failed to parse response as JSON: "@ + message@),
{
    Error::Runtime("Failed to parse response as JSON: ".to_string().concat(message))
}

} // verus!
