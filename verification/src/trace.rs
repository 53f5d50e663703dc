//! Traces of what a program does: calls of models and tools, turns of agents, tasks and metrics.
//!
//! A tracer that is to write its records keeps them until the host takes them and writes them,
//! one JSON document a line.
use vstd::prelude::*;
use vstd::string::*;
use crate::dict::{entries_map, lemma_view, Dict};
use crate::json::{Json, JsonView};
use crate::text::{
    chars_of, copy_text, digit, hexadecimal, hexadecimal_text, opt_text,
};
use crate::value::Float;

verus! {

/// Where records go.
#[derive(Debug)]
pub enum TraceOutput {
    /// To the standard error stream.
    Stderr,
    /// To the end of a file.
    File(String),
    /// Into memory.
    Memory,
}

/// Where records go, mathematically.
pub enum TraceOutputView {
    Stderr,
    File(Seq<char>),
    Memory,
}

impl View for TraceOutput {
    type V = TraceOutputView;

    open spec fn view(&self) -> TraceOutputView {
        match *self {
            TraceOutput::Stderr => TraceOutputView::Stderr,
            TraceOutput::File(path) => TraceOutputView::File(path@),
            TraceOutput::Memory => TraceOutputView::Memory,
        }
    }
}

impl Clone for TraceOutput {
    fn clone(&self) -> (r: Self)
        ensures
            r@ == self@,
    {
        match self {
            TraceOutput::Stderr => TraceOutput::Stderr,
            TraceOutput::File(path) => TraceOutput::File(path.clone()),
            TraceOutput::Memory => TraceOutput::Memory,
        }
    }
}

/// How severe an event is.
#[derive(Clone, Copy, Debug, PartialEq, Eq, PartialOrd, Ord, Structural)]
pub enum TraceLevel {
    Debug,
    Info,
    Warn,
    Error,
}

/// How severe a level is, as a number.
pub open spec fn severity(level: TraceLevel) -> int {
    match level {
        TraceLevel::Debug => 0,
        TraceLevel::Info => 1,
        TraceLevel::Warn => 2,
        TraceLevel::Error => 3,
    }
}

impl TraceLevel {
    /// How severe the level is, as a number.
    pub fn severity(self) -> (r: u8)
        ensures
            r == severity(self),
    {
        match self {
            TraceLevel::Debug => 0,
            TraceLevel::Info => 1,
            TraceLevel::Warn => 2,
            TraceLevel::Error => 3,
        }
    }
}

/// How a tracer is configured.
#[derive(Debug)]
pub struct TracerConfig {
    /// Whether anything is recorded.
    pub enabled: bool,
    pub output: TraceOutput,
    /// Whether requests and responses are recorded in full.
    pub include_bodies: bool,
    /// The level below which nothing is recorded.
    pub min_level: TraceLevel,
}

/// What a tracer's configuration is, mathematically.
pub struct TracerConfigView {
    pub enabled: bool,
    pub output: TraceOutputView,
    pub include_bodies: bool,
    pub min_level: TraceLevel,
}

impl View for TracerConfig {
    type V = TracerConfigView;

    open spec fn view(&self) -> TracerConfigView {
        TracerConfigView {
            enabled: self.enabled,
            output: self.output@,
            include_bodies: self.include_bodies,
            min_level: self.min_level,
        }
    }
}

impl Clone for TracerConfig {
    fn clone(&self) -> (r: Self)
        ensures
            r@ == self@,
    {
        TracerConfig {
            enabled: self.enabled,
            output: self.output.clone(),
            include_bodies: self.include_bodies,
            min_level: self.min_level,
        }
    }
}

/// A setting that is there and not empty.
pub open spec fn set_to(setting: Option<Seq<char>>) -> Option<Seq<char>> {
    match setting {
        Some(s) if s.len() > 0 => Some(s),
        _ => None,
    }
}

/// The configuration that two settings give: a file to trace to, and whether to trace to the
/// standard error stream. Without either nothing is traced.
pub open spec fn config_from(
    file: Option<Seq<char>>,
    stderr: Option<Seq<char>>,
) -> TracerConfigView {
    TracerConfigView {
        enabled: set_to(file) is Some || set_to(stderr) is Some,
        output: match set_to(file) {
            Some(path) => TraceOutputView::File(path),
            None => TraceOutputView::Stderr,
        },
        include_bodies: true,
        min_level: TraceLevel::Info,
    }
}

/// A setting that is there and not empty.
fn non_empty(setting: Option<String>) -> (r: Option<String>)
    ensures
        opt_text(r) == set_to(opt_text(setting)),
{
    match setting {
        Some(s) => {
            if chars_of(s.as_str()).len() > 0 {
                Some(s)
            } else {
                None
            }
        },
        None => None,
    }
}

impl TracerConfig {
    /// The configuration that the settings `SCAFFOLD_TRACE_FILE` and `SCAFFOLD_TRACE_STDERR`
    /// give.
    pub fn from_settings(file: Option<String>, stderr: Option<String>) -> (r: Self)
        ensures
            r@ == config_from(opt_text(file), opt_text(stderr)),
    {
        let to_stderr = non_empty(stderr).is_some();
        let (enabled, output) = match non_empty(file) {
            Some(path) => (true, TraceOutput::File(path)),
            None => (to_stderr, TraceOutput::Stderr),
        };
        TracerConfig { enabled, output, include_bodies: true, min_level: TraceLevel::Info }
    }
}

/// How a task ended.
#[derive(Clone, Copy, Debug, PartialEq, Eq, Structural)]
pub enum TaskStatus {
    Completed,
    Failed,
    Timeout,
    Skipped,
}

/// The value of a metric.
#[derive(Debug)]
pub enum MetricValue {
    Counter(i64),
    Gauge(Float),
    Histogram(Vec<Float>),
}

/// What the value of a metric is, mathematically.
pub enum MetricValueView {
    Counter(i64),
    Gauge(Float),
    Histogram(Seq<Float>),
}

impl View for MetricValue {
    type V = MetricValueView;

    open spec fn view(&self) -> MetricValueView {
        match *self {
            MetricValue::Counter(i) => MetricValueView::Counter(i),
            MetricValue::Gauge(f) => MetricValueView::Gauge(f),
            MetricValue::Histogram(v) => MetricValueView::Histogram(v@),
        }
    }
}

impl Clone for MetricValue {
    fn clone(&self) -> (r: Self)
        ensures
            r@ == self@,
    {
        match self {
            MetricValue::Counter(i) => MetricValue::Counter(*i),
            MetricValue::Gauge(f) => MetricValue::Gauge(*f),
            MetricValue::Histogram(v) => {
                let mut out: Vec<Float> = Vec::new();
                let mut i: usize = 0;
                while i < v.len()
                    invariant
                        i <= v@.len(),
                        out@ == v@.take(i as int),
                    decreases v@.len() - i,
                {
                    out.push(v[i]);
                    assert(v@.take(i + 1) =~= v@.take(i as int).push(v@[i as int]));
                    i = i + 1;
                }
                assert(v@.take(v@.len() as int) =~= v@);
                MetricValue::Histogram(out)
            },
        }
    }
}

/// What happened.
#[derive(Debug)]
pub enum TraceEvent {
    /// A call of a language model.
    LlmCall {
        model: String,
        prompt: Option<Json>,
        response: Option<Json>,
        input_tokens: Option<u64>,
        output_tokens: Option<u64>,
        error: Option<String>,
    },
    /// A call of a tool.
    ToolCall {
        tool_name: String,
        input: Option<Json>,
        output: Option<Json>,
        error: Option<String>,
    },
    /// One turn of an agent.
    AgentTurn {
        agent_name: String,
        turn_number: u64,
        tool_calls: Option<Vec<String>>,
        completed: Option<bool>,
    },
    /// A run of a prompt.
    PromptExecution {
        prompt_name: String,
        input: Option<Json>,
        output: Option<Json>,
        error: Option<String>,
    },
    /// The end of a task.
    TaskComplete {
        task_name: String,
        status: TaskStatus,
        reward: Option<Float>,
        error: Option<String>,
    },
    /// A metric.
    Metric { name: String, value: MetricValue, tags: Option<Dict<String>> },
}

/// What happened, mathematically.
pub enum TraceEventView {
    LlmCall {
        model: Seq<char>,
        prompt: Option<JsonView>,
        response: Option<JsonView>,
        input_tokens: Option<u64>,
        output_tokens: Option<u64>,
        error: Option<Seq<char>>,
    },
    ToolCall {
        tool_name: Seq<char>,
        input: Option<JsonView>,
        output: Option<JsonView>,
        error: Option<Seq<char>>,
    },
    AgentTurn {
        agent_name: Seq<char>,
        turn_number: u64,
        tool_calls: Option<Seq<Seq<char>>>,
        completed: Option<bool>,
    },
    PromptExecution {
        prompt_name: Seq<char>,
        input: Option<JsonView>,
        output: Option<JsonView>,
        error: Option<Seq<char>>,
    },
    TaskComplete {
        task_name: Seq<char>,
        status: TaskStatus,
        reward: Option<Float>,
        error: Option<Seq<char>>,
    },
    Metric {
        name: Seq<char>,
        value: MetricValueView,
        tags: Option<Map<Seq<char>, Seq<char>>>,
    },
}

/// What an optional document is.
pub open spec fn opt_json(o: Option<Json>) -> Option<JsonView> {
    match o {
        Some(j) => Some(j@),
        None => None,
    }
}

/// What a list of names is.
pub open spec fn names_view(names: Seq<String>) -> Seq<Seq<char>> {
    names.map_values(|s: String| s@)
}

/// What a map of texts is.
pub open spec fn texts_view(m: Map<Seq<char>, String>) -> Map<Seq<char>, Seq<char>> {
    m.map_values(|s: String| s@)
}

impl View for TraceEvent {
    type V = TraceEventView;

    open spec fn view(&self) -> TraceEventView {
        match *self {
            TraceEvent::LlmCall {
                model,
                prompt,
                response,
                input_tokens,
                output_tokens,
                error,
            } => TraceEventView::LlmCall {
                model: model@,
                prompt: opt_json(prompt),
                response: opt_json(response),
                input_tokens,
                output_tokens,
                error: opt_text(error),
            },
            TraceEvent::ToolCall { tool_name, input, output, error } => TraceEventView::ToolCall {
                tool_name: tool_name@,
                input: opt_json(input),
                output: opt_json(output),
                error: opt_text(error),
            },
            TraceEvent::AgentTurn { agent_name, turn_number, tool_calls, completed } => {
                TraceEventView::AgentTurn {
                    agent_name: agent_name@,
                    turn_number,
                    tool_calls: match tool_calls {
                        Some(names) => Some(names_view(names@)),
                        None => None,
                    },
                    completed,
                }
            },
            TraceEvent::PromptExecution { prompt_name, input, output, error } => {
                TraceEventView::PromptExecution {
                    prompt_name: prompt_name@,
                    input: opt_json(input),
                    output: opt_json(output),
                    error: opt_text(error),
                }
            },
            TraceEvent::TaskComplete { task_name, status, reward, error } => {
                TraceEventView::TaskComplete {
                    task_name: task_name@,
                    status,
                    reward,
                    error: opt_text(error),
                }
            },
            TraceEvent::Metric { name, value, tags } => TraceEventView::Metric {
                name: name@,
                value: value@,
                tags: match tags {
                    Some(d) => Some(texts_view(d@)),
                    None => None,
                },
            },
        }
    }
}

/// A copy of an optional document.
fn copy_json(o: &Option<Json>) -> (r: Option<Json>)
    ensures
        opt_json(r) == opt_json(*o),
{
    match o {
        Some(j) => Some(j.copy()),
        None => None,
    }
}

/// A copy of a list of names.
fn copy_names(names: &Vec<String>) -> (r: Vec<String>)
    ensures
        names_view(r@) == names_view(names@),
{
    let mut out: Vec<String> = Vec::new();
    let mut i: usize = 0;
    while i < names.len()
        invariant
            i <= names@.len(),
            out@.len() == i,
            forall|j: int| 0 <= j < i ==> (#[trigger] out@[j])@ == names@[j]@,
        decreases names@.len() - i,
    {
        out.push(names[i].clone());
        i = i + 1;
    }
    assert(names_view(out@) =~= names_view(names@));
    out
}

/// A copy of tags.
fn copy_tags(tags: &Dict<String>) -> (r: Dict<String>)
    ensures
        texts_view(r@) == texts_view(tags@),
{
    let mut out: Dict<String> = Dict::new();
    let mut i: usize = 0;
    proof {
        lemma_view(*tags);
        assert(texts_view(out@) =~= texts_view(entries_map(tags.entries@.take(0))));
    }
    while i < tags.entries.len()
        invariant
            i <= tags.entries@.len(),
            texts_view(out@) == texts_view(entries_map(tags.entries@.take(i as int))),
        decreases tags.entries@.len() - i,
    {
        let ghost before = out@;
        let ghost earlier = entries_map(tags.entries@.take(i as int));
        let ghost entry = tags.entries@[i as int];
        out.insert(tags.entries[i].0.clone(), tags.entries[i].1.clone());
        proof {
            assert(tags.entries@.take(i + 1).drop_last() =~= tags.entries@.take(i as int));
            assert(texts_view(earlier.insert(entry.0@, entry.1)) =~= texts_view(earlier).insert(
                entry.0@,
                entry.1@,
            ));
            assert(texts_view(out@) =~= texts_view(before).insert(entry.0@, entry.1@));
        }
        i = i + 1;
    }
    assert(tags.entries@.take(tags.entries@.len() as int) =~= tags.entries@);
    out
}

impl Clone for TraceEvent {
    fn clone(&self) -> (r: Self)
        ensures
            r@ == self@,
    {
        match self {
            TraceEvent::LlmCall {
                model,
                prompt,
                response,
                input_tokens,
                output_tokens,
                error,
            } => TraceEvent::LlmCall {
                model: model.clone(),
                prompt: copy_json(prompt),
                response: copy_json(response),
                input_tokens: *input_tokens,
                output_tokens: *output_tokens,
                error: copy_text(error),
            },
            TraceEvent::ToolCall { tool_name, input, output, error } => TraceEvent::ToolCall {
                tool_name: tool_name.clone(),
                input: copy_json(input),
                output: copy_json(output),
                error: copy_text(error),
            },
            TraceEvent::AgentTurn { agent_name, turn_number, tool_calls, completed } => {
                TraceEvent::AgentTurn {
                    agent_name: agent_name.clone(),
                    turn_number: *turn_number,
                    tool_calls: match tool_calls {
                        Some(names) => Some(copy_names(names)),
                        None => None,
                    },
                    completed: *completed,
                }
            },
            TraceEvent::PromptExecution { prompt_name, input, output, error } => {
                TraceEvent::PromptExecution {
                    prompt_name: prompt_name.clone(),
                    input: copy_json(input),
                    output: copy_json(output),
                    error: copy_text(error),
                }
            },
            TraceEvent::TaskComplete { task_name, status, reward, error } => {
                TraceEvent::TaskComplete {
                    task_name: task_name.clone(),
                    status: *status,
                    reward: *reward,
                    error: copy_text(error),
                }
            },
            TraceEvent::Metric { name, value, tags } => TraceEvent::Metric {
                name: name.clone(),
                value: value.clone(),
                tags: match tags {
                    Some(d) => Some(copy_tags(d)),
                    None => None,
                },
            },
        }
    }
}

/// A record of what happened.
#[derive(Debug)]
pub struct TraceRecord {
    /// When it was recorded, in milliseconds since the start of 1970.
    pub timestamp_ms: u64,
    pub level: TraceLevel,
    /// What the records of one span have in common.
    pub span_id: String,
    pub parent_span_id: Option<String>,
    pub event: TraceEvent,
    /// How long it took, where it is over.
    pub duration_ms: Option<u64>,
}

/// What a record is, mathematically.
pub struct TraceRecordView {
    pub timestamp_ms: u64,
    pub level: TraceLevel,
    pub span_id: Seq<char>,
    pub parent_span_id: Option<Seq<char>>,
    pub event: TraceEventView,
    pub duration_ms: Option<u64>,
}

impl View for TraceRecord {
    type V = TraceRecordView;

    open spec fn view(&self) -> TraceRecordView {
        TraceRecordView {
            timestamp_ms: self.timestamp_ms,
            level: self.level,
            span_id: self.span_id@,
            parent_span_id: opt_text(self.parent_span_id),
            event: self.event@,
            duration_ms: self.duration_ms,
        }
    }
}

impl Clone for TraceRecord {
    fn clone(&self) -> (r: Self)
        ensures
            r@ == self@,
    {
        TraceRecord {
            timestamp_ms: self.timestamp_ms,
            level: self.level,
            span_id: self.span_id.clone(),
            parent_span_id: copy_text(&self.parent_span_id),
            event: self.event.clone(),
            duration_ms: self.duration_ms,
        }
    }
}

/// What a list of records is.
pub open spec fn records_view(records: Seq<TraceRecord>) -> Seq<TraceRecordView> {
    records.map_values(|r: TraceRecord| r@)
}

/// `n` in hexadecimal, with zeros put before it where it has fewer digits than asked for.
pub open spec fn padded(n: nat, digits: nat) -> Seq<char> {
    let h = hexadecimal(n);
    if h.len() < digits {
        Seq::new((digits - h.len()) as nat, |i: int| '0') + h
    } else {
        h
    }
}

/// The identifier of a span: the time and a count, in hexadecimal, the count with at least four
/// digits.
pub open spec fn span_name(now: u64, count: u64) -> Seq<char> {
    hexadecimal(now as nat) + "-"@ + padded(count as nat, 4)
}

/// Gives out identifiers of spans.
#[derive(Debug)]
pub struct SpanIds {
    count: u64,
}

impl View for SpanIds {
    type V = u64;

    closed spec fn view(&self) -> u64 {
        self.count
    }
}

/// The count after a count, which starts again at zero after the largest.
pub open spec fn next_count(count: u64) -> u64 {
    if count == u64::MAX {
        0
    } else {
        (count + 1) as u64
    }
}

impl SpanIds {
    /// Counts from zero.
    pub fn new() -> (r: Self)
        ensures
            r@ == 0,
    {
        SpanIds { count: 0 }
    }

    /// The identifier of the next span.
    pub fn generate_span_id(&mut self, now: u64) -> (r: String)
        ensures
            r@ == span_name(now, old(self)@),
            final(self)@ == next_count(old(self)@),
    {
        let count: u64 = self.count;
        self.count = if count == u64::MAX {
            0
        } else {
            count + 1
        };
        let mut text = hexadecimal_text(now);
        text.append("-");
        let ghost start = text@;
        let zeros = if count < 16 {
            "000"
        } else if count < 256 {
            "00"
        } else if count < 4096 {
            "0"
        } else {
            ""
        };
        text.append(zeros);
        text.append(hexadecimal_text(count).as_str());
        proof {
            reveal_strlit("000");
            reveal_strlit("00");
            reveal_strlit("0");
            reveal_strlit("");
            lemma_length(count as nat);
            assert(zeros@ + hexadecimal(count as nat) =~= padded(count as nat, 4));
            assert(text@ =~= start + padded(count as nat, 4));
        }
        text
    }
}

/// Records what happens.
#[derive(Debug)]
pub struct Tracer {
    config: TracerConfig,
    records: Vec<TraceRecord>,
    unwritten: Vec<TraceRecord>,
}

/// What a tracer is, mathematically.
pub struct TracerView {
    pub config: TracerConfigView,
    /// What is in memory.
    pub records: Seq<TraceRecordView>,
    /// What the host has not written yet.
    pub unwritten: Seq<TraceRecordView>,
}

impl View for Tracer {
    type V = TracerView;

    closed spec fn view(&self) -> TracerView {
        TracerView {
            config: self.config@,
            records: records_view(self.records@),
            unwritten: records_view(self.unwritten@),
        }
    }
}

/// A tracer that recorded nothing.
pub open spec fn fresh_tracer(config: TracerConfigView) -> TracerView {
    TracerView { config, records: Seq::empty(), unwritten: Seq::empty() }
}

/// An event without the bodies of requests and responses: what was put to a model, a tool or a
/// prompt, and what came back.
pub open spec fn without_bodies(event: TraceEventView) -> TraceEventView {
    match event {
        TraceEventView::LlmCall {
            model,
            prompt: _,
            response: _,
            input_tokens,
            output_tokens,
            error,
        } => TraceEventView::LlmCall {
            model,
            prompt: None,
            response: None,
            input_tokens,
            output_tokens,
            error,
        },
        TraceEventView::ToolCall { tool_name, input: _, output: _, error } => {
            TraceEventView::ToolCall { tool_name, input: None, output: None, error }
        },
        TraceEventView::PromptExecution { prompt_name, input: _, output: _, error } => {
            TraceEventView::PromptExecution { prompt_name, input: None, output: None, error }
        },
        _ => event,
    }
}

/// What a tracer keeps of an event.
pub open spec fn kept(config: TracerConfigView, event: TraceEventView) -> TraceEventView {
    if config.include_bodies {
        event
    } else {
        without_bodies(event)
    }
}

/// A tracer once a record went where its records go, with what the tracer keeps of its event.
pub open spec fn emitted(t: TracerView, record: TraceRecordView) -> TracerView {
    let stored = TraceRecordView { event: kept(t.config, record.event), ..record };
    if t.config.output is Memory {
        TracerView { records: t.records.push(stored), ..t }
    } else {
        TracerView { unwritten: t.unwritten.push(stored), ..t }
    }
}

/// Whether a tracer records events of a level.
pub open spec fn records_level(t: TracerView, level: TraceLevel) -> bool {
    t.config.enabled && severity(level) >= severity(t.config.min_level)
}

/// A record of an event that just happened.
pub open spec fn started_record(
    now: u64,
    level: TraceLevel,
    span_id: Seq<char>,
    event: TraceEventView,
) -> TraceRecordView {
    TraceRecordView {
        timestamp_ms: now,
        level,
        span_id,
        parent_span_id: None,
        event,
        duration_ms: None,
    }
}

/// A record of an event that is over.
pub open spec fn completed_record(
    now: u64,
    span_id: Seq<char>,
    event: TraceEventView,
    duration_ms: u64,
) -> TraceRecordView {
    TraceRecordView {
        timestamp_ms: now,
        level: TraceLevel::Info,
        span_id,
        parent_span_id: None,
        event,
        duration_ms: Some(duration_ms),
    }
}

/// A tracer once an event that is over was recorded, where the tracer records events of its
/// level.
pub open spec fn after_completed(
    t: TracerView,
    now: u64,
    span_id: Seq<char>,
    event: TraceEventView,
    duration_ms: u64,
) -> TracerView {
    if records_level(t, TraceLevel::Info) {
        emitted(t, completed_record(now, span_id, event, duration_ms))
    } else {
        t
    }
}

/// An event without the bodies of requests and responses.
fn strip_bodies(event: TraceEvent) -> (r: TraceEvent)
    ensures
        r@ == without_bodies(event@),
{
    match event {
        TraceEvent::LlmCall {
            model,
            prompt: _,
            response: _,
            input_tokens,
            output_tokens,
            error,
        } => TraceEvent::LlmCall {
            model,
            prompt: None,
            response: None,
            input_tokens,
            output_tokens,
            error,
        },
        TraceEvent::ToolCall { tool_name, input: _, output: _, error } => TraceEvent::ToolCall {
            tool_name,
            input: None,
            output: None,
            error,
        },
        TraceEvent::PromptExecution { prompt_name, input: _, output: _, error } => {
            TraceEvent::PromptExecution { prompt_name, input: None, output: None, error }
        },
        other => other,
    }
}

impl Tracer {
    /// A tracer with the configuration that settings give.
    pub fn new(file: Option<String>, stderr: Option<String>) -> (r: Self)
        ensures
            r@ == fresh_tracer(config_from(opt_text(file), opt_text(stderr))),
    {
        Tracer::with_config(TracerConfig::from_settings(file, stderr))
    }

    /// A tracer with a configuration.
    pub fn with_config(config: TracerConfig) -> (r: Self)
        ensures
            r@ == fresh_tracer(config@),
    {
        let r = Tracer { config, records: Vec::new(), unwritten: Vec::new() };
        assert(records_view(r.records@) =~= Seq::<TraceRecordView>::empty());
        assert(records_view(r.unwritten@) =~= Seq::<TraceRecordView>::empty());
        r
    }

    /// Whether anything is recorded.
    pub fn is_enabled(&self) -> (r: bool)
        ensures
            r == self@.config.enabled,
    {
        self.config.enabled
    }

    /// Whether events of a level are recorded.
    fn wants(&self, level: TraceLevel) -> (r: bool)
        ensures
            r == records_level(self@, level),
    {
        self.config.enabled && level.severity() >= self.config.min_level.severity()
    }

    /// Where records go.
    pub fn output(&self) -> (r: &TraceOutput)
        ensures
            r@ == self@.config.output,
    {
        &self.config.output
    }

    /// Records an event, and gives the identifier of its span; an empty one where the tracer
    /// does not record it.
    pub fn record(&mut self, event: TraceEvent, now: u64, ids: &mut SpanIds) -> (r: String)
        ensures
            if records_level(old(self)@, TraceLevel::Info) {
                &&& r@ == span_name(now, old(ids)@)
                &&& final(ids)@ == next_count(old(ids)@)
                &&& final(self)@ == emitted(
                    old(self)@,
                    started_record(now, TraceLevel::Info, r@, event@),
                )
            } else {
                r@.len() == 0 && final(ids)@ == old(ids)@ && final(self)@ == old(self)@
            },
    {
        self.record_with_level(TraceLevel::Info, event, now, ids)
    }

    /// Records an event of a level, and gives the identifier of its span; an empty one where the
    /// tracer does not record it.
    pub fn record_with_level(
        &mut self,
        level: TraceLevel,
        event: TraceEvent,
        now: u64,
        ids: &mut SpanIds,
    ) -> (r: String)
        ensures
            if records_level(old(self)@, level) {
                &&& r@ == span_name(now, old(ids)@)
                &&& final(ids)@ == next_count(old(ids)@)
                &&& final(self)@ == emitted(
                    old(self)@,
                    started_record(now, level, r@, event@),
                )
            } else {
                r@.len() == 0 && final(ids)@ == old(ids)@ && final(self)@ == old(self)@
            },
    {
        if !self.wants(level) {
            return String::new();
        }
        let span_id = ids.generate_span_id(now);
        let record = TraceRecord {
            timestamp_ms: now,
            level,
            span_id: span_id.clone(),
            parent_span_id: None,
            event,
            duration_ms: None,
        };
        self.emit(record);
        span_id
    }

    /// Records an event that is over.
    pub fn record_completed(&mut self, span_id: &str, event: TraceEvent, duration_ms: u64, now: u64)
        ensures
            final(self)@ == after_completed(old(self)@, now, span_id@, event@, duration_ms),
    {
        if !self.wants(TraceLevel::Info) {
            return;
        }
        let record = TraceRecord {
            timestamp_ms: now,
            level: TraceLevel::Info,
            span_id: span_id.to_string(),
            parent_span_id: None,
            event,
            duration_ms: Some(duration_ms),
        };
        self.emit(record);
    }

    /// Starts a span: records an event, and gives a guard that times the span from a reading of
    /// a clock, in nanoseconds, on.
    pub fn span(&mut self, event: TraceEvent, now: u64, clock: u64, ids: &mut SpanIds) -> (r:
        SpanGuard)
        ensures
            r@.begun == clock,
            if records_level(old(self)@, TraceLevel::Info) {
                &&& r@.id == span_name(now, old(ids)@)
                &&& final(ids)@ == next_count(old(ids)@)
                &&& final(self)@ == emitted(
                    old(self)@,
                    started_record(now, TraceLevel::Info, r@.id, event@),
                )
            } else {
                r@.id.len() == 0 && final(ids)@ == old(ids)@ && final(self)@ == old(self)@
            },
    {
        SpanGuard { span_id: self.record(event, now, ids), begun: clock }
    }

    /// Lets a record go where records go.
    fn emit(&mut self, record: TraceRecord)
        ensures
            final(self)@ == emitted(old(self)@, record@),
    {
        let record = if self.config.include_bodies {
            record
        } else {
            TraceRecord {
                timestamp_ms: record.timestamp_ms,
                level: record.level,
                span_id: record.span_id,
                parent_span_id: record.parent_span_id,
                event: strip_bodies(record.event),
                duration_ms: record.duration_ms,
            }
        };
        let in_memory = match self.config.output {
            TraceOutput::Memory => true,
            _ => false,
        };
        if in_memory {
            self.records.push(record);
            assert(records_view(self.records@) =~= records_view(old(self).records@).push(record@));
        } else {
            self.unwritten.push(record);
            assert(records_view(self.unwritten@) =~= records_view(old(self).unwritten@).push(
                record@,
            ));
        }
    }

    /// What the host has to write, which it takes.
    pub fn take_unwritten(&mut self) -> (r: Vec<TraceRecord>)
        ensures
            records_view(r@) == old(self)@.unwritten,
            final(self)@ == (TracerView { unwritten: Seq::empty(), ..old(self)@ }),
    {
        let mut out: Vec<TraceRecord> = Vec::new();
        std::mem::swap(&mut out, &mut self.unwritten);
        assert(records_view(self.unwritten@) =~= Seq::<TraceRecordView>::empty());
        out
    }

    /// The records in memory.
    pub fn get_records(&self) -> (r: Vec<TraceRecord>)
        ensures
            records_view(r@) == self@.records,
    {
        let mut out: Vec<TraceRecord> = Vec::new();
        let mut i: usize = 0;
        while i < self.records.len()
            invariant
                i <= self.records@.len(),
                out@.len() == i,
                forall|j: int| 0 <= j < i ==> (#[trigger] out@[j])@ == self.records@[j]@,
            decreases self.records@.len() - i,
        {
            out.push(self.records[i].clone());
            i = i + 1;
        }
        assert(records_view(out@) =~= records_view(self.records@));
        out
    }

    /// Forgets the records in memory.
    pub fn clear(&mut self)
        ensures
            final(self)@ == (TracerView { records: Seq::empty(), ..old(self)@ }),
    {
        self.records.clear();
        assert(records_view(self.records@) =~= Seq::<TraceRecordView>::empty());
    }
}

/// A span that was started: its identifier, and the reading of a clock, in nanoseconds, when it
/// began.
#[derive(Debug)]
pub struct SpanGuard {
    span_id: String,
    begun: u64,
}

/// What a span is, mathematically.
pub struct SpanView {
    pub id: Seq<char>,
    pub begun: u64,
}

impl View for SpanGuard {
    type V = SpanView;

    closed spec fn view(&self) -> SpanView {
        SpanView { id: self.span_id@, begun: self.begun }
    }
}

/// How many whole milliseconds there are from one reading of a clock, in nanoseconds, to another;
/// none where the clock went back.
pub open spec fn elapsed_ms(begun: u64, clock: u64) -> u64 {
    if clock >= begun {
        ((clock - begun) / 1_000_000) as u64
    } else {
        0
    }
}

impl SpanGuard {
    /// The identifier of the span.
    pub fn span_id(&self) -> (r: &str)
        ensures
            r@ == self@.id,
    {
        self.span_id.as_str()
    }

    /// Completes the span with an event, at a reading of the clock by which it began: the record
    /// holds how many whole milliseconds the span took.
    pub fn complete(self, tracer: &mut Tracer, event: TraceEvent, clock: u64, now: u64)
        ensures
            final(tracer)@ == after_completed(
                old(tracer)@,
                now,
                self@.id,
                event@,
                elapsed_ms(self@.begun, clock),
            ),
    {
        let duration_ms: u64 = if clock >= self.begun {
            (clock - self.begun) / 1_000_000
        } else {
            0
        };
        tracer.record_completed(self.span_id.as_str(), event, duration_ms, now);
    }
}

/// Sets the tracer of a program, where it is not set yet.
pub fn init_tracer(slot: &mut Option<Tracer>, config: TracerConfig)
    ensures
        match *old(slot) {
            Some(_) => *final(slot) == *old(slot),
            None => *final(slot) matches Some(t) && t@ == fresh_tracer(config@),
        },
{
    if slot.is_none() {
        *slot = Some(Tracer::with_config(config));
    }
}

/// The tracer of a program; where it is not set yet, it is set to one with the configuration
/// that settings give.
pub fn tracer(
    slot: &mut Option<Tracer>,
    file: Option<String>,
    stderr: Option<String>,
) -> (r: &mut Tracer)
    ensures
        match *old(slot) {
            Some(t) => *r == t,
            None => r@ == fresh_tracer(config_from(opt_text(file), opt_text(stderr))),
        },
        *final(slot) == Some(*final(r)),
{
    slot.get_or_insert(Tracer::new(file, stderr))
}

proof fn lemma_digit(a: nat, b: nat)
    requires
        a < 16,
        b < 16,
    ensures
        digit(a) == digit(b) ==> a == b,
        digit(a) != '-',
{
}

proof fn lemma_hexadecimal(a: nat, b: nat)
    ensures
        hexadecimal(a).len() > 0,
        hexadecimal(a) == hexadecimal(b) ==> a == b,
    decreases a,
{
    lemma_digit(a % 16, b % 16);
    if a >= 16 {
        lemma_hexadecimal(a / 16, b / 16);
        lemma_hexadecimal_length(b / 16);
        if b >= 16 && hexadecimal(a) == hexadecimal(b) {
            assert(hexadecimal(a).drop_last() =~= hexadecimal(a / 16));
            assert(hexadecimal(b).drop_last() =~= hexadecimal(b / 16));
            assert(hexadecimal(a).last() == digit(a % 16));
            assert(hexadecimal(b).last() == digit(b % 16));
        }
        if b < 16 {
            assert(hexadecimal(b).len() == 1);
        }
    } else if b >= 16 {
        lemma_hexadecimal_length(b / 16);
        assert(hexadecimal(a).len() == 1);
    } else if hexadecimal(a) == hexadecimal(b) {
        assert(hexadecimal(a)[0] == digit(a));
        assert(hexadecimal(b)[0] == digit(b));
    }
}

proof fn lemma_hexadecimal_length(n: nat)
    ensures
        hexadecimal(n).len() > 0,
    decreases n,
{
    if n >= 16 {
        lemma_hexadecimal_length(n / 16);
    }
}

/// How many digits small numbers have.
proof fn lemma_length(n: nat)
    ensures
        n < 16 ==> hexadecimal(n).len() == 1,
        16 <= n < 256 ==> hexadecimal(n).len() == 2,
        256 <= n < 4096 ==> hexadecimal(n).len() == 3,
        4096 <= n ==> hexadecimal(n).len() >= 4,
{
    let a = n / 16;
    let b = a / 16;
    let c = b / 16;
    lemma_hexadecimal_length(c);
    if n >= 16 {
        assert(hexadecimal(n).len() == hexadecimal(a).len() + 1);
    }
    if a >= 16 {
        assert(hexadecimal(a).len() == hexadecimal(b).len() + 1);
    }
    if b >= 16 {
        assert(hexadecimal(b).len() == hexadecimal(c).len() + 1);
    }
}

/// No digit is a hyphen.
proof fn lemma_no_hyphen(n: nat, i: int)
    requires
        0 <= i < hexadecimal(n).len(),
    ensures
        hexadecimal(n)[i] != '-',
    decreases n,
{
    lemma_digit(n % 16, 0);
    if n >= 16 && i < hexadecimal(n).len() - 1 {
        lemma_no_hyphen(n / 16, i);
    }
}

/// The last digit of a padded number stands behind the others, padded.
proof fn lemma_padded_step(n: nat, digits: nat)
    requires
        digits > 1,
    ensures
        padded(n, digits) == padded(n / 16, (digits - 1) as nat).push(digit(n % 16)),
{
    lemma_hexadecimal_length(n);
    lemma_hexadecimal_length(n / 16);
    assert(padded(n, digits) =~= padded(n / 16, (digits - 1) as nat).push(digit(n % 16)));
}

/// Different numbers stay different when they are padded.
proof fn lemma_padded(a: nat, b: nat, digits: nat)
    ensures
        padded(a, digits) == padded(b, digits) ==> a == b,
    decreases digits,
{
    if digits <= 1 {
        lemma_hexadecimal(a, b);
        lemma_hexadecimal(b, a);
    } else {
        let less = (digits - 1) as nat;
        lemma_padded_step(a, digits);
        lemma_padded_step(b, digits);
        lemma_padded(a / 16, b / 16, less);
        lemma_digit(a % 16, b % 16);
        let x = padded(a / 16, less);
        let y = padded(b / 16, less);
        if padded(a, digits) == padded(b, digits) {
            assert(x.push(digit(a % 16)).drop_last() =~= x);
            assert(y.push(digit(b % 16)).drop_last() =~= y);
            assert(x.push(digit(a % 16)).last() == digit(a % 16));
            assert(y.push(digit(b % 16)).last() == digit(b % 16));
        }
    }
}

/// Spans of different times or different counts have different identifiers.
pub proof fn span_names_differ(t: u64, c: u64, u: u64, d: u64)
    requires
        t != u || c != d,
    ensures
        span_name(t, c) != span_name(u, d),
{
    reveal_strlit("-");
    let x = span_name(t, c);
    let y = span_name(u, d);
    if x == y {
        let h = hexadecimal(t as nat);
        let g = hexadecimal(u as nat);
        let p = padded(c as nat, 4);
        let q = padded(d as nat, 4);
        let m = h.len() as int;
        let n = g.len() as int;
        assert(x[m] == '-' && y[n] == '-');
        if m < n {
            assert(y[m] == g[m]);
            lemma_no_hyphen(u as nat, m);
        }
        if n < m {
            assert(x[n] == h[n]);
            lemma_no_hyphen(t as nat, n);
        }
        assert(x.subrange(0, m) =~= h);
        assert(y.subrange(0, n) =~= g);
        lemma_hexadecimal(t as nat, u as nat);
        assert(x.subrange(m + 1, x.len() as int) =~= p);
        assert(y.subrange(n + 1, y.len() as int) =~= q);
        lemma_padded(c as nat, d as nat, 4);
    }
}

/// The count after so many more identifiers were given out.
pub open spec fn count_after(count: u64, more: nat) -> u64
    decreases more,
{
    if more == 0 {
        count
    } else {
        next_count(count_after(count, (more - 1) as nat))
    }
}

proof fn lemma_count_after(count: u64, more: nat)
    requires
        more <= u64::MAX,
    ensures
        count_after(count, more) == if count + more <= u64::MAX {
            count + more
        } else {
            count + more - u64::MAX - 1
        },
    decreases more,
{
    if more > 0 {
        lemma_count_after(count, (more - 1) as nat);
    }
}

/// Two identifiers that were given out one after the other differ, whatever the times, and
/// however many were given out in between, up to the number at which the count starts again.
pub proof fn given_identifiers_differ(count: u64, t: u64, more: nat, u: u64)
    requires
        0 < more <= u64::MAX,
    ensures
        span_name(t, count) != span_name(u, count_after(count, more)),
{
    lemma_count_after(count, more);
    span_names_differ(t, count, u, count_after(count, more));
}

/// Whether a record is one that a tracer of a configuration may hold: of a level that is
/// recorded, and without bodies where they are not to be included.
pub open spec fn may_hold(config: TracerConfigView, record: TraceRecordView) -> bool {
    &&& config.enabled
    &&& severity(record.level) >= severity(config.min_level)
    &&& !config.include_bodies ==> record.event == without_bodies(record.event)
}

/// Whether a tracer holds only what its configuration allows.
pub open spec fn honours_config(t: TracerView) -> bool {
    &&& forall|i: int| 0 <= i < t.records.len() ==> may_hold(t.config, #[trigger] t.records[i])
    &&& forall|i: int|
        0 <= i < t.unwritten.len() ==> may_hold(t.config, #[trigger] t.unwritten[i])
}

/// A tracer holds only what its configuration allows: a new one does, and what it records keeps
/// it so.
pub proof fn tracer_honours_its_config(
    config: TracerConfigView,
    t: TracerView,
    now: u64,
    level: TraceLevel,
    span_id: Seq<char>,
    event: TraceEventView,
    duration_ms: u64,
)
    ensures
        honours_config(fresh_tracer(config)),
        honours_config(t) && records_level(t, level) ==> honours_config(
            emitted(t, started_record(now, level, span_id, event)),
        ),
        honours_config(t) ==> honours_config(
            after_completed(t, now, span_id, event, duration_ms),
        ),
        honours_config(t) ==> honours_config(TracerView { records: Seq::empty(), ..t }),
        honours_config(t) ==> honours_config(TracerView { unwritten: Seq::empty(), ..t }),
{
}

/// Without settings a tracer records nothing.
pub proof fn not_enabled_without_settings(level: TraceLevel)
    ensures
        !records_level(fresh_tracer(config_from(None, None)), level),
        !records_level(fresh_tracer(config_from(Some(Seq::empty()), Some(Seq::empty()))), level),
{
}

} // verus!
