//! Trace records as JSON, as they are written one a line.
use vstd::prelude::*;
use vstd::string::*;
use crate::dict::{distinct_keys, entries_map, keys_of, lemma_entry_in_map, Dict};
use crate::json::{
    array_ordered, entry, is_new, lemma_array_ordered, lemma_new_to_both, lemma_new_to_entry, no_members,
    object_ordered, ordered, ordered_text, set_member, set_text, set_text_if, Json, OrderedJson,
};
use crate::number::{float_of_natural, float_of_whole, natural_bits, whole_bits};
use crate::text::opt_text;
use crate::trace::{MetricValue, TaskStatus, TraceEvent, TraceLevel, TraceRecord};
use crate::value::Float;

verus! {

broadcast use {lemma_new_to_both, lemma_new_to_entry};

/// Members in their order.
pub type Members = Seq<(Seq<char>, OrderedJson)>;

/// An unsigned number.
pub open spec fn natural_json(n: u64) -> OrderedJson {
    OrderedJson::Number {
        whole: if n <= i64::MAX {
            Some(n as i64)
        } else {
            None
        },
        natural: Some(n),
        float: natural_bits(n as nat) as u64,
    }
}

/// A signed number.
pub open spec fn whole_json(i: i64) -> OrderedJson {
    OrderedJson::Number {
        whole: Some(i),
        natural: if i >= 0 {
            Some(i as u64)
        } else {
            None
        },
        float: whole_bits(i as int) as u64,
    }
}

/// A floating-point number; null where it is not finite.
pub open spec fn float_json(f: Float) -> OrderedJson {
    if (f.bits as int) % 0x8000_0000_0000_0000 < 0x7ff0_0000_0000_0000 {
        OrderedJson::Number { whole: None, natural: None, float: f.bits }
    } else {
        OrderedJson::Null
    }
}

/// The name of a level.
pub open spec fn level_name(level: TraceLevel) -> Seq<char> {
    match level {
        TraceLevel::Debug => "debug"@,
        TraceLevel::Info => "info"@,
        TraceLevel::Warn => "warn"@,
        TraceLevel::Error => "error"@,
    }
}

/// The name of how a task ended.
pub open spec fn status_name(status: TaskStatus) -> Seq<char> {
    match status {
        TaskStatus::Completed => "completed"@,
        TaskStatus::Failed => "failed"@,
        TaskStatus::Timeout => "timeout"@,
        TaskStatus::Skipped => "skipped"@,
    }
}

/// The value of a metric.
pub open spec fn metric_json(v: MetricValue) -> OrderedJson {
    match v {
        MetricValue::Counter(i) => whole_json(i),
        MetricValue::Gauge(f) => float_json(f),
        MetricValue::Histogram(fs) => OrderedJson::Array(
            fs@.map_values(|f: Float| float_json(f)),
        ),
    }
}

/// A list of names.
pub open spec fn names_json(names: Seq<String>) -> OrderedJson {
    OrderedJson::Array(names.map_values(|s: String| OrderedJson::String(s@)))
}

/// Tags, in their order.
pub open spec fn tags_json(tags: Dict<String>) -> OrderedJson {
    OrderedJson::Object(
        tags.keys().map_values(|k: Seq<char>| (k, OrderedJson::String(tags@[k]@))),
    )
}

/// A text that is there.
pub open spec fn text_json(s: Seq<char>) -> Option<OrderedJson> {
    Some(OrderedJson::String(s))
}

/// A document, where there is one.
pub open spec fn body_json(o: Option<Json>) -> Option<OrderedJson> {
    match o {
        Some(j) => Some(ordered(j)),
        None => None,
    }
}

/// An unsigned number, where there is one.
pub open spec fn opt_natural_json(o: Option<u64>) -> Option<OrderedJson> {
    match o {
        Some(n) => Some(natural_json(n)),
        None => None,
    }
}

/// What an event starts with: its kind, and the name of what it is about.
pub open spec fn event_start(kind: Seq<char>, key: Seq<char>, name: Seq<char>) -> Members {
    entry("type"@, text_json(kind)) + entry(key, text_json(name))
}

/// The members of an event, in their order. What it does not have is left out.
pub open spec fn event_members(e: TraceEvent) -> Members {
    match e {
        TraceEvent::LlmCall { model, prompt, response, input_tokens, output_tokens, error } => {
            event_start("llm_call"@, "model"@, model@)
                + entry("prompt"@, body_json(prompt))
                + entry("response"@, body_json(response))
                + entry("input_tokens"@, opt_natural_json(input_tokens))
                + entry("output_tokens"@, opt_natural_json(output_tokens))
                + entry("error"@, ordered_text(opt_text(error)))
        },
        TraceEvent::ToolCall { tool_name, input, output, error } => {
            event_start("tool_call"@, "tool_name"@, tool_name@)
                + entry("input"@, body_json(input))
                + entry("output"@, body_json(output))
                + entry("error"@, ordered_text(opt_text(error)))
        },
        TraceEvent::AgentTurn { agent_name, turn_number, tool_calls, completed } => {
            event_start("agent_turn"@, "agent_name"@, agent_name@)
                + entry("turn_number"@, Some(natural_json(turn_number)))
                + entry(
                "tool_calls"@,
                match tool_calls {
                    Some(names) => Some(names_json(names@)),
                    None => None,
                },
            ) + entry(
                "completed"@,
                match completed {
                    Some(b) => Some(OrderedJson::Bool(b)),
                    None => None,
                },
            )
        },
        TraceEvent::PromptExecution { prompt_name, input, output, error } => {
            event_start("prompt_execution"@, "prompt_name"@, prompt_name@)
                + entry("input"@, body_json(input))
                + entry("output"@, body_json(output))
                + entry("error"@, ordered_text(opt_text(error)))
        },
        TraceEvent::TaskComplete { task_name, status, reward, error } => {
            event_start("task_complete"@, "task_name"@, task_name@)
                + entry("status"@, text_json(status_name(status)))
                + entry(
                "reward"@,
                match reward {
                    Some(f) => Some(float_json(f)),
                    None => None,
                },
            ) + entry("error"@, ordered_text(opt_text(error)))
        },
        TraceEvent::Metric { name, value, tags } => {
            event_start("metric"@, "name"@, name@)
                + entry("value"@, Some(metric_json(value)))
                + entry(
                "tags"@,
                match tags {
                    Some(t) => Some(tags_json(t)),
                    None => None,
                },
            )
        },
    }
}

/// The members of a record, in their order. What it does not have is left out.
pub open spec fn record_members(r: TraceRecord) -> Members {
    entry("timestamp_ms"@, Some(natural_json(r.timestamp_ms)))
        + entry("level"@, text_json(level_name(r.level)))
        + entry("span_id"@, text_json(r.span_id@))
        + entry("parent_span_id"@, ordered_text(opt_text(r.parent_span_id)))
        + entry("event"@, Some(OrderedJson::Object(event_members(r.event))))
        + entry("duration_ms"@, opt_natural_json(r.duration_ms))
}

/// An unsigned number.
fn json_of_natural(n: u64) -> (r: Json)
    ensures
        ordered(r) == natural_json(n),
{
    Json::Number {
        whole: if n <= i64::MAX as u64 {
            Some(n as i64)
        } else {
            None
        },
        natural: Some(n),
        float: float_of_natural(n),
    }
}

/// A signed number.
fn json_of_whole(i: i64) -> (r: Json)
    ensures
        ordered(r) == whole_json(i),
{
    Json::Number {
        whole: Some(i),
        natural: if i >= 0 {
            Some(i as u64)
        } else {
            None
        },
        float: float_of_whole(i),
    }
}

/// A floating-point number.
fn json_of_float(f: Float) -> (r: Json)
    ensures
        ordered(r) == float_json(f),
{
    if f.bits % 0x8000_0000_0000_0000 < 0x7ff0_0000_0000_0000 {
        Json::Number { whole: None, natural: None, float: f }
    } else {
        Json::Null
    }
}

/// The name of a level.
fn name_of_level(level: TraceLevel) -> (r: &'static str)
    ensures
        r@ == level_name(level),
{
    match level {
        TraceLevel::Debug => "debug",
        TraceLevel::Info => "info",
        TraceLevel::Warn => "warn",
        TraceLevel::Error => "error",
    }
}

/// The name of how a task ended.
fn name_of_status(status: TaskStatus) -> (r: &'static str)
    ensures
        r@ == status_name(status),
{
    match status {
        TaskStatus::Completed => "completed",
        TaskStatus::Failed => "failed",
        TaskStatus::Timeout => "timeout",
        TaskStatus::Skipped => "skipped",
    }
}

/// The value of a metric.
fn json_of_metric(v: &MetricValue) -> (r: Json)
    ensures
        ordered(r) == metric_json(*v),
{
    match v {
        MetricValue::Counter(i) => json_of_whole(*i),
        MetricValue::Gauge(f) => json_of_float(*f),
        MetricValue::Histogram(fs) => {
            let mut out: Vec<Json> = Vec::new();
            let mut i: usize = 0;
            while i < fs.len()
                invariant
                    i <= fs@.len(),
                    out@.len() == i,
                    forall|j: int| 0 <= j < i ==> ordered(#[trigger] out@[j]) == float_json(fs@[j]),
                decreases fs@.len() - i,
            {
                out.push(json_of_float(fs[i]));
                i = i + 1;
            }
            proof {
                lemma_array_ordered(out@);
                assert(array_ordered(out@) =~= fs@.map_values(|f: Float| float_json(f)));
            }
            Json::Array(out)
        },
    }
}

/// Sets a new member of an object, where there is something to set it to.
fn set_member_if(d: &mut Dict<Json>, key: &str, value: &Option<Json>)
    requires
        is_new(object_ordered(*old(d)), key@),
    ensures
        object_ordered(*final(d)) == object_ordered(*old(d)) + entry(key@, body_json(*value)),
{
    if let Some(v) = value {
        set_member(d, key.to_string(), v.copy());
    }
}

/// Sets a new number member of an object, where there is a number.
fn set_natural_if(d: &mut Dict<Json>, key: &str, value: Option<u64>)
    requires
        is_new(object_ordered(*old(d)), key@),
    ensures
        object_ordered(*final(d)) == object_ordered(*old(d)) + entry(key@, opt_natural_json(value)),
{
    if let Some(n) = value {
        set_member(d, key.to_string(), json_of_natural(n));
    }
}

/// What an event starts with.
fn start_event(kind: &str, key: &str, name: &str) -> (r: Dict<Json>)
    requires
        key@ != "type"@,
    ensures
        object_ordered(r) == event_start(kind@, key@, name@),
{
    let mut d = no_members();
    set_text(&mut d, "type", kind);
    assert(object_ordered(d) =~= entry("type"@, text_json(kind@)));
    set_text(&mut d, key, name);
    d
}

/// A list of names.
fn json_of_names(names: &Vec<String>) -> (r: Json)
    ensures
        ordered(r) == names_json(names@),
{
    let mut out: Vec<Json> = Vec::new();
    let mut i: usize = 0;
    while i < names.len()
        invariant
            i <= names@.len(),
            out@.len() == i,
            forall|j: int|
                0 <= j < i ==> ordered(#[trigger] out@[j]) == OrderedJson::String(names@[j]@),
        decreases names@.len() - i,
    {
        out.push(Json::String(names[i].clone()));
        i = i + 1;
    }
    proof {
        lemma_array_ordered(out@);
        assert(array_ordered(out@) =~= names@.map_values(|s: String| OrderedJson::String(s@)));
    }
    Json::Array(out)
}

/// Tags, in their order.
fn json_of_tags(tags: &Dict<String>) -> (r: Json)
    ensures
        ordered(r) == tags_json(*tags),
{
    let list = tags.list();
    let ghost all = tags_json(*tags)->Object_0;
    let mut out = no_members();
    let mut i: usize = 0;
    while i < list.len()
        invariant
            i <= list@.len(),
            distinct_keys(list@),
            tags@ == entries_map(list@),
            tags.keys() == keys_of(list@),
            all == tags_json(*tags)->Object_0,
            object_ordered(out) == all.take(i as int),
        decreases list@.len() - i,
    {
        let ghost before = object_ordered(out);
        proof {
            lemma_entry_in_map(list@, i as int);
            assert forall|j: int| 0 <= j < before.len() implies (#[trigger] before[j]).0
                != list@[i as int].0@ by {
                assert(before[j].0 == keys_of(list@)[j]);
                assert(list@[j].0@ != list@[i as int].0@);
            }
        }
        set_text(&mut out, list[i].0.as_str(), list[i].1.as_str());
        assert(object_ordered(out) =~= all.take(i + 1));
        i = i + 1;
    }
    assert(all.take(list@.len() as int) =~= all);
    Json::Object(out)
}

/// The keys of an event differ: in their lengths, or in what they are.
proof fn lemma_event_keys()
    ensures
        "type"@.len() == 4,
        "model"@.len() == 5,
        "prompt"@.len() == 6,
        "response"@.len() == 8,
        "input_tokens"@.len() == 12,
        "output_tokens"@.len() == 13,
        "error"@.len() == 5,
        "tool_name"@.len() == 9,
        "input"@.len() == 5,
        "output"@.len() == 6,
        "agent_name"@.len() == 10,
        "turn_number"@.len() == 11,
        "tool_calls"@.len() == 10,
        "completed"@.len() == 9,
        "prompt_name"@.len() == 11,
        "task_name"@.len() == 9,
        "status"@.len() == 6,
        "reward"@.len() == 6,
        "name"@.len() == 4,
        "value"@.len() == 5,
        "tags"@.len() == 4,
        "model"@ != "error"@,
        "input"@ != "error"@,
        "agent_name"@ != "tool_calls"@,
        "status"@ != "reward"@,
        "type"@ != "name"@,
        "type"@ != "tags"@,
        "name"@ != "tags"@,
{
    reveal_strlit("type");
    reveal_strlit("model");
    reveal_strlit("prompt");
    reveal_strlit("response");
    reveal_strlit("input_tokens");
    reveal_strlit("output_tokens");
    reveal_strlit("error");
    reveal_strlit("tool_name");
    reveal_strlit("input");
    reveal_strlit("output");
    reveal_strlit("agent_name");
    reveal_strlit("turn_number");
    reveal_strlit("tool_calls");
    reveal_strlit("completed");
    reveal_strlit("prompt_name");
    reveal_strlit("task_name");
    reveal_strlit("status");
    reveal_strlit("reward");
    reveal_strlit("name");
    reveal_strlit("value");
    reveal_strlit("tags");
    assert("model"@[0] != "error"@[0]);
    assert("input"@[0] != "error"@[0]);
    assert("agent_name"@[0] != "tool_calls"@[0]);
    assert("status"@[0] != "reward"@[0]);
    assert("type"@[0] != "name"@[0]);
    assert("type"@[1] != "tags"@[1]);
    assert("name"@[0] != "tags"@[0]);
}

/// The keys of a record differ: in their lengths, or in what they are.
proof fn lemma_record_keys()
    ensures
        "timestamp_ms"@.len() == 12,
        "level"@.len() == 5,
        "span_id"@.len() == 7,
        "parent_span_id"@.len() == 14,
        "event"@.len() == 5,
        "duration_ms"@.len() == 11,
        "level"@ != "event"@,
{
    reveal_strlit("timestamp_ms");
    reveal_strlit("level");
    reveal_strlit("span_id");
    reveal_strlit("parent_span_id");
    reveal_strlit("event");
    reveal_strlit("duration_ms");
    assert("level"@[0] != "event"@[0]);
}

/// The members of an event, in their order.
fn members_of_event(e: &TraceEvent) -> (r: Dict<Json>)
    ensures
        object_ordered(r) == event_members(*e),
{
    proof {
        lemma_event_keys();
    }
    match e {
        TraceEvent::LlmCall { model, prompt, response, input_tokens, output_tokens, error } => {
            let mut d = start_event("llm_call", "model", model.as_str());
            set_member_if(&mut d, "prompt", prompt);
            set_member_if(&mut d, "response", response);
            set_natural_if(&mut d, "input_tokens", *input_tokens);
            set_natural_if(&mut d, "output_tokens", *output_tokens);
            set_text_if(&mut d, "error", error);
            d
        },
        TraceEvent::ToolCall { tool_name, input, output, error } => {
            let mut d = start_event("tool_call", "tool_name", tool_name.as_str());
            set_member_if(&mut d, "input", input);
            set_member_if(&mut d, "output", output);
            set_text_if(&mut d, "error", error);
            d
        },
        TraceEvent::AgentTurn { agent_name, turn_number, tool_calls, completed } => {
            let mut d = start_event("agent_turn", "agent_name", agent_name.as_str());
            set_member(&mut d, "turn_number".to_string(), json_of_natural(*turn_number));
            if let Some(names) = tool_calls {
                set_member(&mut d, "tool_calls".to_string(), json_of_names(names));
            }
            if let Some(b) = completed {
                set_member(&mut d, "completed".to_string(), Json::Bool(*b));
            }
            d
        },
        TraceEvent::PromptExecution { prompt_name, input, output, error } => {
            let mut d = start_event("prompt_execution", "prompt_name", prompt_name.as_str());
            set_member_if(&mut d, "input", input);
            set_member_if(&mut d, "output", output);
            set_text_if(&mut d, "error", error);
            d
        },
        TraceEvent::TaskComplete { task_name, status, reward, error } => {
            let mut d = start_event("task_complete", "task_name", task_name.as_str());
            set_text(&mut d, "status", name_of_status(*status));
            if let Some(f) = reward {
                set_member(&mut d, "reward".to_string(), json_of_float(*f));
            }
            set_text_if(&mut d, "error", error);
            d
        },
        TraceEvent::Metric { name, value, tags } => {
            let mut d = start_event("metric", "name", name.as_str());
            set_member(&mut d, "value".to_string(), json_of_metric(value));
            if let Some(t) = tags {
                set_member(&mut d, "tags".to_string(), json_of_tags(t));
            }
            d
        },
    }
}

/// A record, as JSON, with its members in their order.
pub fn json_of_record(record: &TraceRecord) -> (r: Json)
    ensures
        ordered(r) == OrderedJson::Object(record_members(*record)),
{
    proof {
        lemma_record_keys();
    }
    let mut d = no_members();
    set_member(&mut d, "timestamp_ms".to_string(), json_of_natural(record.timestamp_ms));
    assert(object_ordered(d) =~= entry("timestamp_ms"@, Some(natural_json(record.timestamp_ms))));
    set_text(&mut d, "level", name_of_level(record.level));
    set_text(&mut d, "span_id", record.span_id.as_str());
    set_text_if(&mut d, "parent_span_id", &record.parent_span_id);
    set_member(&mut d, "event".to_string(), Json::Object(members_of_event(&record.event)));
    set_natural_if(&mut d, "duration_ms", record.duration_ms);
    Json::Object(d)
}

} // verus!
