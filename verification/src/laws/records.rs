//! Laws of the documents that records are written as.
use vstd::prelude::*;
use vstd::string::*;
use crate::dict::Dict;
use crate::json::{entry, ordered, Json, OrderedJson};
use crate::jsonl::{
    event_members, float_json, metric_json, natural_json, record_members, tags_json, whole_json,
    Members,
};
use crate::number::{natural_bits, whole_bits};
use crate::trace::{MetricValue, TaskStatus, TraceEvent, TraceLevel, TraceRecord};
use crate::value::Float;

verus! {

/// The keys of members, in their order.
pub open spec fn keys(members: Members) -> Seq<Seq<char>> {
    members.map_values(|m: (Seq<char>, OrderedJson)| m.0)
}

/// What members hold under a key: the last one of that key.
pub open spec fn look(members: Members, key: Seq<char>) -> Option<OrderedJson>
    decreases members.len(),
{
    if members.len() == 0 {
        None
    } else if members.last().0 == key {
        Some(members.last().1)
    } else {
        look(members.drop_last(), key)
    }
}

broadcast proof fn lemma_look_both(a: Members, b: Members, key: Seq<char>)
    ensures
        #[trigger] look(a + b, key) == match look(b, key) {
            Some(v) => Some(v),
            None => look(a, key),
        },
    decreases b.len(),
{
    if b.len() > 0 {
        assert((a + b).last() == b.last());
        assert((a + b).drop_last() =~= a + b.drop_last());
        lemma_look_both(a, b.drop_last(), key);
    } else {
        assert(a + b =~= a);
    }
}

broadcast proof fn lemma_look_entry(other: Seq<char>, value: Option<OrderedJson>, key: Seq<char>)
    ensures
        #[trigger] look(entry(other, value), key) == if other == key {
            value
        } else {
            None
        },
{
    reveal_with_fuel(look, 2);
    if value is Some {
        assert(entry(other, value).drop_last() =~= Seq::empty());
    }
}

/// A text as a member.
pub open spec fn text_member(text: Seq<char>) -> Option<OrderedJson> {
    Some(OrderedJson::String(text))
}

/// An optional text as a member.
pub open spec fn opt_member(text: Option<String>) -> Option<OrderedJson> {
    match text {
        Some(s) => Some(OrderedJson::String(s@)),
        None => None,
    }
}

/// An optional document as a member.
pub open spec fn body_member(body: Option<Json>) -> Option<OrderedJson> {
    match body {
        Some(j) => Some(ordered(j)),
        None => None,
    }
}

/// An optional number as a member.
pub open spec fn number_member(n: Option<u64>) -> Option<OrderedJson> {
    match n {
        Some(n) => Some(natural_json(n)),
        None => None,
    }
}

proof fn lemma_record_keys()
    ensures
        "timestamp_ms"@.len() == 12,
        "level"@.len() == 5,
        "span_id"@.len() == 7,
        "parent_span_id"@.len() == 14,
        "event"@.len() == 5,
        "duration_ms"@.len() == 11,
        "level"@ != "event"@,
{
    reveal_strlit("timestamp_ms");
    reveal_strlit("level");
    reveal_strlit("span_id");
    reveal_strlit("parent_span_id");
    reveal_strlit("event");
    reveal_strlit("duration_ms");
    assert("level"@[0] == 'l' && "event"@[0] == 'e');
}

/// The document of a record holds when it was recorded, its level by name, its span, the span
/// around it where there is one, the event, and how long it took where it is over.
pub proof fn records_hold_what_was_recorded(r: TraceRecord)
    ensures
        look(record_members(r), "timestamp_ms"@) == Some(natural_json(r.timestamp_ms)),
        look(record_members(r), "level"@) == text_member(
            match r.level {
                TraceLevel::Debug => "debug"@,
                TraceLevel::Info => "info"@,
                TraceLevel::Warn => "warn"@,
                TraceLevel::Error => "error"@,
            },
        ),
        look(record_members(r), "span_id"@) == text_member(r.span_id@),
        look(record_members(r), "parent_span_id"@) == opt_member(r.parent_span_id),
        look(record_members(r), "event"@) == Some(OrderedJson::Object(event_members(r.event))),
        look(record_members(r), "duration_ms"@) == number_member(r.duration_ms),
{
    broadcast use {lemma_look_both, lemma_look_entry};

    lemma_record_keys();
}

/// The members of a record stand in their order.
pub proof fn records_are_in_order(r: TraceRecord)
    ensures
        keys(record_members(r)) == seq!["timestamp_ms"@, "level"@, "span_id"@] + (
        if r.parent_span_id is Some {
            seq!["parent_span_id"@]
        } else {
            Seq::empty()
        }) + seq!["event"@] + (if r.duration_ms is Some {
            seq!["duration_ms"@]
        } else {
            Seq::empty()
        }),
{
    assert(keys(record_members(r)) =~= seq!["timestamp_ms"@, "level"@, "span_id"@] + (
    if r.parent_span_id is Some {
        seq!["parent_span_id"@]
    } else {
        Seq::empty()
    }) + seq!["event"@] + (if r.duration_ms is Some {
        seq!["duration_ms"@]
    } else {
        Seq::empty()
    }));
}

proof fn lemma_event_keys()
    ensures
        "type"@.len() == 4,
        "model"@.len() == 5,
        "prompt"@.len() == 6,
        "response"@.len() == 8,
        "input_tokens"@.len() == 12,
        "output_tokens"@.len() == 13,
        "error"@.len() == 5,
        "tool_name"@.len() == 9,
        "input"@.len() == 5,
        "output"@.len() == 6,
        "agent_name"@.len() == 10,
        "turn_number"@.len() == 11,
        "tool_calls"@.len() == 10,
        "completed"@.len() == 9,
        "prompt_name"@.len() == 11,
        "task_name"@.len() == 9,
        "status"@.len() == 6,
        "reward"@.len() == 6,
        "name"@.len() == 4,
        "value"@.len() == 5,
        "tags"@.len() == 4,
        "model"@ != "error"@,
        "input"@ != "error"@,
        "agent_name"@ != "tool_calls"@,
        "status"@ != "reward"@,
        "type"@ != "name"@,
        "type"@ != "tags"@,
        "name"@ != "tags"@,
{
    reveal_strlit("type");
    reveal_strlit("model");
    reveal_strlit("prompt");
    reveal_strlit("response");
    reveal_strlit("input_tokens");
    reveal_strlit("output_tokens");
    reveal_strlit("error");
    reveal_strlit("tool_name");
    reveal_strlit("input");
    reveal_strlit("output");
    reveal_strlit("agent_name");
    reveal_strlit("turn_number");
    reveal_strlit("tool_calls");
    reveal_strlit("completed");
    reveal_strlit("prompt_name");
    reveal_strlit("task_name");
    reveal_strlit("status");
    reveal_strlit("reward");
    reveal_strlit("name");
    reveal_strlit("value");
    reveal_strlit("tags");
    assert("model"@[0] == 'm' && "error"@[0] == 'e' && "input"@[0] == 'i');
    assert("agent_name"@[0] == 'a' && "tool_calls"@[0] == 't');
    assert("status"@[0] == 's' && "reward"@[0] == 'r');
    assert("type"@[1] == 'y' && "name"@[1] == 'a' && "tags"@[1] == 'a');
    assert("name"@[0] == 'n' && "tags"@[0] == 't');
}

/// The document of a call of a model holds the model, what was put to it and what came back, how
/// many tokens there were, and the error, as far as the event has them.
pub proof fn model_calls_are_written(
    model: String,
    prompt: Option<Json>,
    response: Option<Json>,
    input_tokens: Option<u64>,
    output_tokens: Option<u64>,
    error: Option<String>,
)
    ensures
        ({
            let m = event_members(
                TraceEvent::LlmCall { model, prompt, response, input_tokens, output_tokens, error },
            );
            &&& look(m, "type"@) == text_member("llm_call"@)
            &&& look(m, "model"@) == text_member(model@)
            &&& look(m, "prompt"@) == body_member(prompt)
            &&& look(m, "response"@) == body_member(response)
            &&& look(m, "input_tokens"@) == number_member(input_tokens)
            &&& look(m, "output_tokens"@) == number_member(output_tokens)
            &&& look(m, "error"@) == opt_member(error)
        }),
{
    broadcast use {lemma_look_both, lemma_look_entry};

    lemma_event_keys();
}

/// The document of a call of a tool, or of a run of a prompt, holds the name, what was put in and
/// what came out, and the error, as far as the event has them.
pub proof fn tool_calls_and_prompts_are_written(
    name: String,
    input: Option<Json>,
    output: Option<Json>,
    error: Option<String>,
)
    ensures
        ({
            let m = event_members(TraceEvent::ToolCall { tool_name: name, input, output, error });
            &&& look(m, "type"@) == text_member("tool_call"@)
            &&& look(m, "tool_name"@) == text_member(name@)
            &&& look(m, "input"@) == body_member(input)
            &&& look(m, "output"@) == body_member(output)
            &&& look(m, "error"@) == opt_member(error)
        }),
        ({
            let m = event_members(
                TraceEvent::PromptExecution { prompt_name: name, input, output, error },
            );
            &&& look(m, "type"@) == text_member("prompt_execution"@)
            &&& look(m, "prompt_name"@) == text_member(name@)
            &&& look(m, "input"@) == body_member(input)
            &&& look(m, "output"@) == body_member(output)
            &&& look(m, "error"@) == opt_member(error)
        }),
{
    broadcast use {lemma_look_both, lemma_look_entry};

    lemma_event_keys();
}

/// The document of a turn of an agent holds the agent, the number of the turn, the names of the
/// tools that were called, in order, and whether the agent is done, as far as the event has them.
pub proof fn turns_are_written(
    agent_name: String,
    turn_number: u64,
    tool_calls: Option<Vec<String>>,
    completed: Option<bool>,
)
    ensures
        ({
            let m = event_members(
                TraceEvent::AgentTurn { agent_name, turn_number, tool_calls, completed },
            );
            &&& look(m, "type"@) == text_member("agent_turn"@)
            &&& look(m, "agent_name"@) == text_member(agent_name@)
            &&& look(m, "turn_number"@) == Some(natural_json(turn_number))
            &&& completed is None ==> look(m, "completed"@) is None
            &&& completed matches Some(b) ==> look(m, "completed"@) == Some(OrderedJson::Bool(b))
            &&& tool_calls is None ==> look(m, "tool_calls"@) is None
            &&& tool_calls matches Some(names) ==> (look(m, "tool_calls"@) matches Some(
                OrderedJson::Array(written),
            ) && written.len() == names@.len() && forall|i: int|
                0 <= i < names@.len() ==> #[trigger] written[i] == OrderedJson::String(names@[i]@))
        }),
{
    broadcast use {lemma_look_both, lemma_look_entry};

    lemma_event_keys();
}

/// The document of the end of a task holds the task, how it ended by name, the reward and the
/// error, as far as the event has them.
pub proof fn tasks_are_written(
    task_name: String,
    status: TaskStatus,
    reward: Option<Float>,
    error: Option<String>,
)
    ensures
        ({
            let m = event_members(TraceEvent::TaskComplete { task_name, status, reward, error });
            &&& look(m, "type"@) == text_member("task_complete"@)
            &&& look(m, "task_name"@) == text_member(task_name@)
            &&& look(m, "status"@) == text_member(
                match status {
                    TaskStatus::Completed => "completed"@,
                    TaskStatus::Failed => "failed"@,
                    TaskStatus::Timeout => "timeout"@,
                    TaskStatus::Skipped => "skipped"@,
                },
            )
            &&& reward is None ==> look(m, "reward"@) is None
            &&& reward matches Some(f) ==> look(m, "reward"@) == Some(float_json(f))
            &&& look(m, "error"@) == opt_member(error)
        }),
{
    broadcast use {lemma_look_both, lemma_look_entry};

    lemma_event_keys();
}

/// The document of a metric holds its name, its value, and its tags where it has them.
pub proof fn metrics_are_written(name: String, value: MetricValue, tags: Option<Dict<String>>)
    ensures
        ({
            let m = event_members(TraceEvent::Metric { name, value, tags });
            &&& look(m, "type"@) == text_member("metric"@)
            &&& look(m, "name"@) == text_member(name@)
            &&& look(m, "value"@) == Some(metric_json(value))
            &&& tags is None ==> look(m, "tags"@) is None
            &&& tags matches Some(t) ==> look(m, "tags"@) == Some(tags_json(t))
        }),
{
    broadcast use {lemma_look_both, lemma_look_entry};

    lemma_event_keys();
}

/// A key, where there is something under it.
pub open spec fn key_if(there: bool, key: Seq<char>) -> Seq<Seq<char>> {
    if there {
        seq![key]
    } else {
        Seq::empty()
    }
}

/// The members of an event stand in their order: the kind, the name, and what else there is.
pub proof fn events_are_in_order(e: TraceEvent)
    ensures
        keys(event_members(e)) == match e {
            TraceEvent::LlmCall { prompt, response, input_tokens, output_tokens, error, .. } => {
                seq!["type"@, "model"@] + key_if(prompt is Some, "prompt"@) + key_if(
                    response is Some,
                    "response"@,
                ) + key_if(input_tokens is Some, "input_tokens"@) + key_if(
                    output_tokens is Some,
                    "output_tokens"@,
                ) + key_if(error is Some, "error"@)
            },
            TraceEvent::ToolCall { input, output, error, .. } => {
                seq!["type"@, "tool_name"@] + key_if(input is Some, "input"@) + key_if(
                    output is Some,
                    "output"@,
                ) + key_if(error is Some, "error"@)
            },
            TraceEvent::AgentTurn { tool_calls, completed, .. } => {
                seq!["type"@, "agent_name"@, "turn_number"@] + key_if(
                    tool_calls is Some,
                    "tool_calls"@,
                ) + key_if(completed is Some, "completed"@)
            },
            TraceEvent::PromptExecution { input, output, error, .. } => {
                seq!["type"@, "prompt_name"@] + key_if(input is Some, "input"@) + key_if(
                    output is Some,
                    "output"@,
                ) + key_if(error is Some, "error"@)
            },
            TraceEvent::TaskComplete { reward, error, .. } => {
                seq!["type"@, "task_name"@, "status"@] + key_if(reward is Some, "reward"@)
                    + key_if(error is Some, "error"@)
            },
            TraceEvent::Metric { tags, .. } => {
                seq!["type"@, "name"@, "value"@] + key_if(tags is Some, "tags"@)
            },
        },
{
}

/// The value of a counter is a number, that of a gauge one or null, and that of a histogram a list
/// of them in order.
pub proof fn metric_values_are_numbers(i: i64, f: Float, fs: Vec<Float>)
    ensures
        metric_json(MetricValue::Counter(i)) == whole_json(i),
        metric_json(MetricValue::Gauge(f)) == float_json(f),
        metric_json(MetricValue::Histogram(fs)) matches OrderedJson::Array(written) && written.len()
            == fs@.len() && forall|j: int|
            0 <= j < fs@.len() ==> #[trigger] written[j] == float_json(fs@[j]),
{
}

/// The tags of a metric stand in their order, each with its text.
pub proof fn tags_are_texts(tags: Dict<String>)
    ensures
        tags_json(tags) matches OrderedJson::Object(written) && keys(written) == tags.keys()
            && forall|i: int|
            0 <= i < written.len() ==> (#[trigger] written[i]).1 == OrderedJson::String(
                tags@[tags.keys()[i]]@,
            ),
{
    let written = tags_json(tags)->Object_0;
    assert(keys(written) =~= tags.keys());
}

/// A number that is written is held in each of its forms: as an unsigned integer and as a signed
/// one, where it is one, and as the nearest floating-point number. A floating-point number is held
/// as that alone, and is null where it is not finite.
pub proof fn numbers_are_written_in_their_forms(n: u64, i: i64, f: Float)
    ensures
        natural_json(n) matches OrderedJson::Number { whole, natural, float } && {
            &&& natural == Some(n)
            &&& n < 0x8000_0000_0000_0000 ==> whole is Some && whole->0 == n
            &&& n >= 0x8000_0000_0000_0000 ==> whole is None
            &&& float == natural_bits(n as nat) as u64
        },
        whole_json(i) matches OrderedJson::Number { whole, natural, float } && {
            &&& whole == Some(i)
            &&& i >= 0 ==> natural is Some && natural->0 == i
            &&& i < 0 ==> natural is None
            &&& float == whole_bits(i as int) as u64
        },
        f.bits < 0x7ff0_0000_0000_0000 || 0x8000_0000_0000_0000 <= f.bits < 0xfff0_0000_0000_0000
            ==> float_json(f) == (OrderedJson::Number {
            whole: None,
            natural: None,
            float: f.bits,
        }),
        0x7ff0_0000_0000_0000 <= f.bits < 0x8000_0000_0000_0000 || f.bits >= 0xfff0_0000_0000_0000
            ==> float_json(f) is Null,
{
}

} // verus!
