//! Configuration of language models, plans of queries and chats, and responses.
use scaffold::chat::{ChatMessage, ChatRole, ChatToolDefinition, FunctionCall, ToolCall};
use scaffold::completions::{
    build_body, parse_response, plan_chat, read_response, status_error, ChatPlan,
    REQUEST_TIMEOUT_SECS,
};
use scaffold::error::Error;
use scaffold::json::Json;
use scaffold::llm::{
    chosen_model, extract_text, plan_query, prompt_json_error, query_json_error, Agent,
    AgentBuilder, Content, LlmConfig, QueryPlan, Settings, Single,
};
use serde_json::Value as Document;

fn s(text: &str) -> String {
    text.to_string()
}

fn single(f: f32) -> Single {
    Single { bits: f.to_bits() }
}

fn settings() -> Settings {
    Settings {
        mock: false,
        openai_key: Some(s("ok")),
        openai_base_url: None,
        anthropic_key: Some(s("ak")),
        anthropic_base_url: Some(s("https://proxy")),
    }
}

fn document(j: &Json) -> Document {
    match j {
        Json::Null => Document::Null,
        Json::Bool(b) => Document::Bool(*b),
        Json::Number { whole, .. } => Document::from(whole.unwrap()),
        Json::String(t) => Document::String(t.clone()),
        Json::Array(a) => Document::Array(a.iter().map(document).collect()),
        Json::Object(d) => {
            Document::Object(d.list().iter().map(|(k, v)| (k.clone(), document(v))).collect())
        }
    }
}

fn read(text: &str) -> Document {
    serde_json::from_str(text).unwrap()
}

fn config_error(e: Error) -> String {
    match e {
        Error::ConfigError(m) => m,
        other => panic!("{:?}", other),
    }
}

#[test]
fn test_agent_builder() {
    let agent = AgentBuilder::new("gpt-4o".to_string())
        .system_prompt("You are helpful.".to_string())
        .temperature(single(0.7))
        .max_tokens(1000)
        .build();

    assert_eq!(agent.model(), Some("gpt-4o"));
    assert_eq!(agent.system_prompt(), Some("You are helpful."));
}

#[test]
fn test_llm_config_builder() {
    let config = LlmConfig::new()
        .with_model("gpt-4o-mini".to_string())
        .with_temperature(single(0.5))
        .with_max_tokens(2000);

    assert_eq!(config.model, Some("gpt-4o-mini".to_string()));
    assert_eq!(config.temperature, Some(single(0.5)));
    assert_eq!(config.max_tokens, Some(2000));
}

#[test]
fn test_mock_query() {
    let mut mocked = settings();
    mocked.mock = true;
    let plan = plan_query("openai", "gpt-4", "test prompt", &LlmConfig::new(), &mocked).unwrap();
    let result = match plan {
        QueryPlan::Mock(text) => text,
        other => panic!("{:?}", other),
    };
    assert!(result.contains("Mock LLM response"));
    assert_eq!(result, "Mock LLM response for: test prompt");
}

#[test]
fn builders_keep_what_was_set() {
    let builder = AgentBuilder::new(s("m")).max_tokens(5).temperature(single(0.25));
    let config = builder.build_config();
    assert_eq!(config.model.as_deref(), Some("m"));
    assert_eq!(config.max_tokens, Some(5));
    assert_eq!(config.temperature, Some(single(0.25)));
    assert_eq!(config.system_prompt, None);
    let agent = Agent::new(s("n"));
    assert_eq!(agent.model(), Some("n"));
    assert_eq!(agent.system_prompt(), None);
    assert_eq!(agent.config().max_tokens, None);
    let config = LlmConfig::default().with_system_prompt(s("p"));
    assert_eq!(config.system_prompt.as_deref(), Some("p"));
    assert_eq!(config.model, None);
}

#[test]
fn the_default_model_is_used_where_none_is_set() {
    assert_eq!(chosen_model(&LlmConfig::new(), "d"), "d");
    assert_eq!(chosen_model(&LlmConfig::new().with_model(s("m")), "d"), "m");
}

#[test]
fn queries_go_to_their_provider() {
    let config = LlmConfig::new()
        .with_system_prompt(s("sys"))
        .with_temperature(single(0.5))
        .with_max_tokens(7);
    match plan_query("openai", "gpt-4", "hello", &config, &settings()).unwrap() {
        QueryPlan::OpenAi(c) => {
            assert_eq!(c.api_key, "ok");
            assert_eq!(c.base_url, None);
            assert_eq!(c.model, "gpt-4");
            assert_eq!(c.prompt, "hello");
            assert_eq!(c.preamble.as_deref(), Some("sys"));
            assert_eq!(c.temperature, Some(single(0.5)));
            assert_eq!(c.max_tokens, Some(7));
        }
        other => panic!("{:?}", other),
    }
    match plan_query("anthropic", "sonnet", "hello", &LlmConfig::new(), &settings()).unwrap() {
        QueryPlan::Anthropic(c) => {
            assert_eq!(c.api_key, "ak");
            assert_eq!(c.base_url.as_deref(), Some("https://proxy"));
            assert_eq!(c.preamble, None);
            assert_eq!(c.temperature, None);
            assert_eq!(c.max_tokens, None);
        }
        other => panic!("{:?}", other),
    }
}

#[test]
fn queries_need_a_provider_and_a_key() {
    let mut none = settings();
    none.openai_key = None;
    none.anthropic_key = None;
    let config = LlmConfig::new();
    assert_eq!(
        config_error(plan_query("openai", "m", "p", &config, &none).unwrap_err()),
        "OpenAI API key not found. Set OPENAI_API_KEY env var or add to ~/.scaffold/config.toml"
    );
    assert_eq!(
        config_error(plan_query("anthropic", "m", "p", &config, &none).unwrap_err()),
        "Anthropic API key not found. Set ANTHROPIC_API_KEY env var or add to ~/.scaffold/config.toml"
    );
    assert_eq!(
        config_error(plan_query("mistral", "m", "p", &config, &settings()).unwrap_err()),
        "Unknown LLM provider: mistral. Supported: openai, anthropic"
    );
}

#[test]
fn only_text_is_taken_from_an_answer() {
    assert_eq!(extract_text(Content::Text(s("hi"))), "hi");
    assert_eq!(extract_text(Content::Other), "");
}

#[test]
fn errors_of_typed_answers() {
    assert!(
        matches!(query_json_error("bad"), Error::Runtime(m) if m == "Failed to parse LLM response as JSON: bad")
    );
    assert!(
        matches!(prompt_json_error("bad"), Error::Runtime(m) if m == "Failed to parse response as JSON: bad")
    );
    assert!(
        matches!(status_error("500 Internal Server Error", Some(s("x"))), Error::Runtime(m)
            if m == "OpenAI API error: 500 Internal Server Error - x")
    );
    assert!(
        matches!(status_error("500", None), Error::Runtime(m) if m == "OpenAI API error: 500 - Unknown error")
    );
}

fn sent(model: &str, provider: &str, name: &str, settings: &Settings) -> (String, String, String) {
    match plan_chat(model, provider, name, settings).unwrap() {
        ChatPlan::Send(c) => (c.url, c.authorization, c.model),
        other => panic!("{:?}", other),
    }
}

#[test]
fn chats_go_to_openai_or_to_the_custom_base() {
    let mut given = settings();
    let direct = sent("openai/gpt-4", "openai", "gpt-4", &given);
    assert_eq!(
        direct,
        (s("https://api.openai.com/v1/chat/completions"), s("Bearer ok"), s("gpt-4"))
    );
    given.openai_base_url = Some(s("https://api.openai.com/v1"));
    assert_eq!(sent("openai/gpt-4", "openai", "gpt-4", &given), direct);
    given.openai_base_url = Some(s("https://proxy/v1"));
    for provider in ["openai", "anthropic", "mistral"] {
        let through = sent("full/name", provider, "name", &given);
        assert_eq!(through.0, "https://proxy/v1/chat/completions");
        assert_eq!(through.2, "full/name");
    }
    assert_eq!(REQUEST_TIMEOUT_SECS, 120);
}

#[test]
fn chats_need_a_provider_and_a_key() {
    let given = settings();
    assert_eq!(
        config_error(plan_chat("anthropic/c", "anthropic", "c", &given).unwrap_err()),
        "Native tool calling not yet supported for Anthropic. Use OpenAI-compatible proxy with custom base_url, or use 'openai/model-name' prefix."
    );
    assert_eq!(
        config_error(plan_chat("x/c", "x", "c", &given).unwrap_err()),
        "Unknown LLM provider: x. Supported: openai (or use custom base_url for compatible APIs)"
    );
    let mut none = settings();
    none.openai_key = None;
    assert_eq!(
        config_error(plan_chat("openai/c", "openai", "c", &none).unwrap_err()),
        "OpenAI API key not found. Set OPENAI_API_KEY env var or add to ~/.scaffold/config.toml"
    );
}

#[test]
fn chats_can_be_mocked() {
    let mut mocked = settings();
    mocked.mock = true;
    match plan_chat("x/c", "x", "c", &mocked).unwrap() {
        ChatPlan::Mock(r) => {
            assert_eq!(r.message.role, ChatRole::Assistant);
            assert_eq!(r.content(), Some("Mock response"));
            assert_eq!(r.finish_reason.as_deref(), Some("stop"));
            assert!(!r.has_tool_calls());
        }
        other => panic!("{:?}", other),
    }
}

fn call(id: &str) -> ToolCall {
    ToolCall {
        id: s(id),
        call_type: s("function"),
        function: FunctionCall { name: s("f"), arguments: s("{}") },
    }
}

#[test]
fn bodies_hold_messages_and_tools() {
    let messages = vec![
        ChatMessage::system(s("sys")),
        ChatMessage::user(s("hi")),
        ChatMessage::assistant_with_tool_calls(vec![call("c1")]),
        ChatMessage::tool_result(s("c1"), s("done")),
    ];
    let body = build_body("gpt-4", &messages, &vec![]);
    assert_eq!(
        document(&body),
        read(
            r#"{"model": "gpt-4", "messages": [
                {"role": "system", "content": "sys"},
                {"role": "user", "content": "hi"},
                {"role": "assistant", "tool_calls": [
                    {"id": "c1", "type": "function", "function": {"name": "f", "arguments": "{}"}}]},
                {"role": "tool", "content": "done", "tool_call_id": "c1"}]}"#
        )
    );
    let parameters = scaffold::json::parse_json(r#"{"type": "object"}"#).unwrap();
    let tools = vec![ChatToolDefinition::new(s("t"), s("does"), parameters)];
    let body = build_body("m", &vec![], &tools);
    assert_eq!(
        document(&body),
        read(
            r#"{"model": "m", "messages": [], "tools": [
                {"type": "function",
                 "function": {"name": "t", "description": "does", "parameters": {"type": "object"}}}]}"#
        )
    );
}

#[test]
fn responses_hold_the_first_choice() {
    let r = read_response(read(
        r#"{"choices": [
            {"finish_reason": "tool_calls", "message": {"role": "assistant", "content": null, "tool_calls": [
                {"id": "a", "type": "function", "function": {"name": "f", "arguments": "{\"x\": 1}"}},
                {"id": 5, "function": {"name": "g", "arguments": "{}"}},
                {"id": "b", "function": {"name": "h", "arguments": "{}"}},
                {"id": "c", "function": {"name": "i"}}]}},
            {"message": {"content": "second"}}]}"#,
    ))
    .unwrap();
    assert_eq!(r.finish_reason.as_deref(), Some("tool_calls"));
    assert_eq!(r.message.role, ChatRole::Assistant);
    assert_eq!(r.content(), None);
    assert!(r.has_tool_calls());
    let calls = r.tool_calls().unwrap();
    assert_eq!(calls.len(), 2);
    assert_eq!(calls[0].id, "a");
    assert_eq!(calls[0].function.arguments, "{\"x\": 1}");
    assert_eq!(calls[1].id, "b");
    assert_eq!(calls[1].call_type, "function");
    assert_eq!(calls[1].function.name, "h");
}

#[test]
fn responses_without_what_is_needed() {
    let missing = |text: &str| match read_response(read(text)).unwrap_err() {
        Error::Runtime(m) => m,
        other => panic!("{:?}", other),
    };
    assert_eq!(missing("{}"), "No choices in response");
    assert_eq!(missing("[]"), "No choices in response");
    assert_eq!(missing(r#"{"choices": []}"#), "No choices in response");
    assert_eq!(missing(r#"{"choices": {"0": 1}}"#), "No choices in response");
    let r = read_response(read(r#"{"choices": [1]}"#)).unwrap();
    assert_eq!(r.message.role, ChatRole::Assistant);
    assert_eq!(r.content(), None);
    assert!(r.tool_calls().is_none());
    assert_eq!(r.finish_reason, None);
    let r = read_response(read(r#"{"choices": [{"message": {"tool_calls": [{}]}}]}"#)).unwrap();
    assert!(r.tool_calls().is_none());
}

#[test]
fn roles_in_responses() {
    let role = |name: &str| {
        let text = format!(r#"{{"choices": [{{"message": {{"role": "{}"}}}}]}}"#, name);
        read_response(read(&text)).unwrap().message.role
    };
    assert_eq!(role("assistant"), ChatRole::Assistant);
    assert_eq!(role("system"), ChatRole::System);
    assert_eq!(role("user"), ChatRole::User);
    assert_eq!(role("tool"), ChatRole::Tool);
    assert_eq!(role("developer"), ChatRole::Assistant);
}

#[test]
fn messages_are_read_back_as_they_were_written() {
    let messages = vec![ChatMessage {
        role: ChatRole::User,
        content: Some(s("text")),
        tool_calls: Some(vec![call("1"), call("2")]),
        tool_call_id: None,
        name: None,
    }];
    let body = document(&build_body("m", &messages, &vec![]));
    let mut choice = serde_json::Map::new();
    choice.insert(s("message"), body["messages"][0].clone());
    let mut response = serde_json::Map::new();
    response.insert(s("choices"), Document::Array(vec![Document::Object(choice)]));
    let r = read_response(Document::Object(response)).unwrap();
    assert_eq!(r.message.role, ChatRole::User);
    assert_eq!(r.message.content.as_deref(), Some("text"));
    let calls = r.message.tool_calls.unwrap();
    assert_eq!(calls.iter().map(|c| c.id.as_str()).collect::<Vec<_>>(), vec!["1", "2"]);
    assert!(calls.iter().all(|c| c.call_type == "function" && c.function.name == "f"));
}

#[test]
fn plain_messages() {
    let m = ChatMessage::assistant(s("a"));
    assert_eq!(m.role, ChatRole::Assistant);
    assert_eq!(m.content.as_deref(), Some("a"));
    assert!(m.tool_calls.is_none() && m.tool_call_id.is_none() && m.name.is_none());
    let json = scaffold::json::parse_json(r#"{"choices": [{"message": {"content": "x"}}]}"#).unwrap();
    assert_eq!(parse_response(&json).unwrap().content(), Some("x"));
}
