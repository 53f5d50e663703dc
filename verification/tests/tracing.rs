//! Traces.
use scaffold::dict::Dict;
use scaffold::json::{json_to_value, parse_json, Json};
use scaffold::jsonl::json_of_record;
use scaffold::number::float_of_natural;
use scaffold::trace::{
    init_tracer, tracer, MetricValue, SpanIds, TaskStatus, TraceEvent, TraceLevel, TraceOutput,
    TraceRecord, Tracer, TracerConfig,
};
use scaffold::value::{Float, Value};
use serde_json::Value as Document;

fn s(text: &str) -> String {
    text.to_string()
}

fn config(enabled: bool, output: TraceOutput, min_level: TraceLevel) -> TracerConfig {
    TracerConfig { enabled, output, include_bodies: true, min_level }
}

fn event(name: &str) -> TraceEvent {
    TraceEvent::PromptExecution { prompt_name: s(name), input: None, output: None, error: None }
}

fn name_of(event: &TraceEvent) -> &str {
    match event {
        TraceEvent::PromptExecution { prompt_name, .. } => prompt_name,
        other => panic!("{:?}", other),
    }
}

#[test]
fn test_tracer_disabled_by_default() {
    let tracer = Tracer::new(None, None);
    // Without SCAFFOLD_TRACE_FILE env var, tracing should be disabled
    assert!(!tracer.is_enabled());
}

#[test]
fn test_tracer_memory_output() {
    let mut tracer = Tracer::with_config(TracerConfig {
        enabled: true,
        output: TraceOutput::Memory,
        include_bodies: true,
        min_level: TraceLevel::Debug,
    });

    let mut input = Dict::new();
    input.insert("x".to_string(), Json::Number { whole: Some(1), natural: Some(1), float: float_of_natural(1) });
    tracer.record(
        TraceEvent::ToolCall {
            tool_name: "test_tool".to_string(),
            input: Some(Json::Object(input)),
            output: None,
            error: None,
        },
        0,
        &mut SpanIds::new(),
    );

    let records = tracer.get_records();
    assert_eq!(records.len(), 1);
    assert!(
        matches!(&records[0].event, TraceEvent::ToolCall { tool_name, .. } if tool_name == "test_tool")
    );
}

#[test]
fn settings_enable_a_tracer() {
    let to_file = Tracer::new(Some(s("/tmp/t.jsonl")), Some(s("1")));
    assert!(to_file.is_enabled());
    assert!(matches!(to_file.output(), TraceOutput::File(p) if p == "/tmp/t.jsonl"));
    let to_stderr = Tracer::new(None, Some(s("1")));
    assert!(to_stderr.is_enabled());
    assert!(matches!(to_stderr.output(), TraceOutput::Stderr));
    let empty = Tracer::new(Some(s("")), Some(s("")));
    assert!(!empty.is_enabled());
    let half = Tracer::new(Some(s("")), Some(s("0")));
    assert!(half.is_enabled());
    assert!(matches!(half.output(), TraceOutput::Stderr));
    let c = TracerConfig::from_settings(None, Some(s("1")));
    assert!(c.include_bodies);
    assert_eq!(c.min_level, TraceLevel::Info);
}

#[test]
fn records_hold_what_was_recorded() {
    let mut t = Tracer::with_config(config(true, TraceOutput::Memory, TraceLevel::Info));
    let mut ids = SpanIds::new();
    let id = t.record(event("a"), 0x18c, &mut ids);
    assert_eq!(id, "18c-0000");
    let second = t.record_with_level(TraceLevel::Warn, event("b"), 0x18c, &mut ids);
    assert_eq!(second, "18c-0001");
    t.record_completed("mine", event("c"), 250, 0x200);
    let records = t.get_records();
    assert_eq!(records.len(), 3);
    assert_eq!(records[0].timestamp_ms, 0x18c);
    assert_eq!(records[0].level, TraceLevel::Info);
    assert_eq!(records[0].span_id, "18c-0000");
    assert_eq!(records[0].parent_span_id, None);
    assert_eq!(records[0].duration_ms, None);
    assert_eq!(records[1].level, TraceLevel::Warn);
    assert_eq!(records[2].span_id, "mine");
    assert_eq!(records[2].duration_ms, Some(250));
    assert_eq!(records[2].timestamp_ms, 0x200);
    assert_eq!(records.iter().map(|r| name_of(&r.event)).collect::<Vec<_>>(), vec!["a", "b", "c"]);
    assert!(t.take_unwritten().is_empty());
    t.clear();
    assert!(t.get_records().is_empty());
}

#[test]
fn what_is_below_the_level_is_not_recorded() {
    let mut t = Tracer::with_config(config(true, TraceOutput::Memory, TraceLevel::Warn));
    let mut ids = SpanIds::new();
    assert_eq!(t.record(event("a"), 1, &mut ids), "");
    assert_eq!(t.record_with_level(TraceLevel::Debug, event("a"), 1, &mut ids), "");
    assert_eq!(t.record_with_level(TraceLevel::Warn, event("b"), 1, &mut ids), "1-0000");
    assert_eq!(t.record_with_level(TraceLevel::Error, event("c"), 1, &mut ids), "1-0001");
    assert_eq!(t.get_records().len(), 2);
    t.record_completed("s", event("d"), 5, 1);
    t.span(event("e"), 1, 0, &mut ids).complete(&mut t, event("f"), 9, 2);
    assert_eq!(t.get_records().len(), 2);
    assert!(TraceLevel::Debug < TraceLevel::Info && TraceLevel::Warn < TraceLevel::Error);
    assert!(TraceLevel::Info.severity() < TraceLevel::Warn.severity());
}

#[test]
fn bodies_are_left_out_where_they_are_not_included() {
    let body = || Some(Json::String(s("full body")));
    let events = || {
        vec![
            TraceEvent::LlmCall {
                model: s("m"),
                prompt: body(),
                response: body(),
                input_tokens: Some(3),
                output_tokens: Some(4),
                error: Some(s("e")),
            },
            TraceEvent::ToolCall { tool_name: s("t"), input: body(), output: body(), error: None },
            TraceEvent::PromptExecution {
                prompt_name: s("p"),
                input: body(),
                output: body(),
                error: None,
            },
        ]
    };
    for include_bodies in [true, false] {
        let mut t = Tracer::with_config(TracerConfig {
            enabled: true,
            output: TraceOutput::Memory,
            include_bodies,
            min_level: TraceLevel::Debug,
        });
        for e in events() {
            t.record(e, 1, &mut SpanIds::new());
        }
        for e in events() {
            t.record_completed("s", e, 1, 1);
        }
        let records = t.get_records();
        assert_eq!(records.len(), 6);
        for r in &records {
            let (a, b) = match &r.event {
                TraceEvent::LlmCall { model, prompt, response, input_tokens, output_tokens, error } => {
                    assert_eq!(model, "m");
                    assert_eq!((*input_tokens, *output_tokens), (Some(3), Some(4)));
                    assert_eq!(error.as_deref(), Some("e"));
                    (prompt, response)
                }
                TraceEvent::ToolCall { input, output, .. } => (input, output),
                TraceEvent::PromptExecution { input, output, .. } => (input, output),
                other => panic!("{:?}", other),
            };
            assert_eq!(a.is_some(), include_bodies);
            assert_eq!(b.is_some(), include_bodies);
        }
    }
}

#[test]
fn a_disabled_tracer_records_nothing() {
    let mut t = Tracer::with_config(config(false, TraceOutput::Memory, TraceLevel::Debug));
    let mut ids = SpanIds::new();
    assert_eq!(t.record_with_level(TraceLevel::Error, event("a"), 1, &mut ids), "");
    t.record_completed("x", event("b"), 1, 2);
    assert!(t.get_records().is_empty());
    assert!(t.take_unwritten().is_empty());
    assert_eq!(ids.generate_span_id(1), "1-0000");
}

#[test]
fn records_to_be_written_are_kept_until_taken() {
    for output in [TraceOutput::Stderr, TraceOutput::File(s("f"))] {
        let mut t = Tracer::with_config(config(true, output, TraceLevel::Info));
        t.record(event("a"), 1, &mut SpanIds::new());
        t.record_completed("x", event("b"), 1, 2);
        assert!(t.get_records().is_empty());
        let taken = t.take_unwritten();
        assert_eq!(taken.iter().map(|r| name_of(&r.event)).collect::<Vec<_>>(), vec!["a", "b"]);
        assert!(t.take_unwritten().is_empty());
    }
}

#[test]
fn spans_are_completed_under_their_identifier() {
    let mut t = Tracer::with_config(config(true, TraceOutput::Memory, TraceLevel::Info));
    let mut ids = SpanIds::new();
    let span = t.span(event("start"), 0xabc, 900_000, &mut ids);
    assert_eq!(span.span_id(), "abc-0000");
    span.complete(&mut t, event("end"), 12_900_000, 0xac8);
    let records = t.get_records();
    assert_eq!(records.len(), 2);
    assert_eq!(records[1].span_id, "abc-0000");
    assert_eq!(records[1].duration_ms, Some(12));
    assert_eq!(name_of(&records[1].event), "end");
    let back = t.span(event("start"), 1, 1000, &mut ids);
    back.complete(&mut t, event("end"), 999, 1);
    assert_eq!(t.get_records()[3].duration_ms, Some(0));
    let short = t.span(event("start"), 1, 900_000, &mut ids);
    short.complete(&mut t, event("end"), 1_100_000, 1);
    assert_eq!(t.get_records()[5].duration_ms, Some(0));
    let almost = t.span(event("start"), 1, 1, &mut ids);
    almost.complete(&mut t, event("end"), 2_000_000, 1);
    assert_eq!(t.get_records()[7].duration_ms, Some(1));
}

#[test]
fn identifiers_of_spans() {
    let mut ids = SpanIds::new();
    assert_eq!(ids.generate_span_id(0), format!("{:x}-{:04x}", 0, 0));
    let mut seen = Vec::new();
    for count in 1u64..70000 {
        let id = ids.generate_span_id(1700000000000);
        if count < 5000 || count % 997 == 0 || count > 65530 && count < 65540 {
            assert_eq!(id, format!("{:x}-{:04x}", 1700000000000u64, count));
        }
        seen.push(id);
    }
    let n = seen.len();
    seen.sort();
    seen.dedup();
    assert_eq!(seen.len(), n);
    assert_eq!(ids.generate_span_id(u64::MAX).split('-').next().unwrap(), "ffffffffffffffff");
}

#[test]
fn the_tracer_of_a_program_is_set_once() {
    let mut slot = None;
    init_tracer(&mut slot, config(true, TraceOutput::Memory, TraceLevel::Error));
    init_tracer(&mut slot, config(false, TraceOutput::Stderr, TraceLevel::Debug));
    assert!(tracer(&mut slot, None, None).is_enabled());
    let mut other = None;
    assert!(!tracer(&mut other, None, None).is_enabled());
    init_tracer(&mut other, config(true, TraceOutput::Memory, TraceLevel::Error));
    assert!(!tracer(&mut other, Some(s("f")), None).is_enabled());
    tracer(&mut slot, None, None).record_with_level(TraceLevel::Error, event("e"), 1, &mut SpanIds::new());
    assert_eq!(tracer(&mut slot, None, None).get_records().len(), 1);
}

#[test]
fn events_of_every_kind_are_copied() {
    let mut t = Tracer::with_config(config(true, TraceOutput::Memory, TraceLevel::Debug));
    let mut ids = SpanIds::new();
    let mut tags = Dict::new();
    tags.insert(s("env"), s("test"));
    let half = Float { bits: 0.5f64.to_bits() };
    let events = vec![
        TraceEvent::LlmCall {
            model: s("m"),
            prompt: Some(Json::String(s("p"))),
            response: None,
            input_tokens: Some(3),
            output_tokens: None,
            error: Some(s("e")),
        },
        TraceEvent::AgentTurn {
            agent_name: s("a"),
            turn_number: 2,
            tool_calls: Some(vec![s("t"), s("u")]),
            completed: Some(false),
        },
        TraceEvent::TaskComplete {
            task_name: s("k"),
            status: TaskStatus::Timeout,
            reward: Some(half),
            error: None,
        },
        TraceEvent::Metric { name: s("c"), value: MetricValue::Counter(4), tags: Some(tags) },
        TraceEvent::Metric { name: s("h"), value: MetricValue::Histogram(vec![half, half]), tags: None },
        TraceEvent::Metric { name: s("g"), value: MetricValue::Gauge(half), tags: None },
    ];
    for e in events {
        t.record(e, 1, &mut ids);
    }
    let r = t.get_records();
    assert!(
        matches!(&r[0].event, TraceEvent::LlmCall { model, prompt: Some(Json::String(p)), response: None, input_tokens: Some(3), error: Some(e), .. }
            if model == "m" && p == "p" && e == "e")
    );
    assert!(
        matches!(&r[1].event, TraceEvent::AgentTurn { turn_number: 2, tool_calls: Some(calls), completed: Some(false), .. }
            if calls == &vec![s("t"), s("u")])
    );
    assert!(
        matches!(&r[2].event, TraceEvent::TaskComplete { status: TaskStatus::Timeout, reward: Some(f), .. }
            if f.bits == half.bits)
    );
    assert!(
        matches!(&r[3].event, TraceEvent::Metric { value: MetricValue::Counter(4), tags: Some(d), .. }
            if d.get(&s("env")) == Some(&s("test")))
    );
    assert!(
        matches!(&r[4].event, TraceEvent::Metric { value: MetricValue::Histogram(v), .. } if v.len() == 2)
    );
    assert!(
        matches!(&r[5].event, TraceEvent::Metric { value: MetricValue::Gauge(f), .. } if f.bits == half.bits)
    );
}

fn document(j: &Json) -> Document {
    match j {
        Json::Null => Document::Null,
        Json::Bool(b) => Document::Bool(*b),
        Json::Number { natural: Some(n), .. } => Document::from(*n),
        Json::Number { whole: Some(i), .. } => Document::from(*i),
        Json::Number { float, .. } => Document::from(f64::from_bits(float.bits)),
        Json::String(t) => Document::String(t.clone()),
        Json::Array(a) => Document::Array(a.iter().map(document).collect()),
        Json::Object(d) => {
            Document::Object(d.list().iter().map(|(k, v)| (k.clone(), document(v))).collect())
        }
    }
}

fn read(text: &str) -> Document {
    serde_json::from_str(text).unwrap()
}

fn written(event: TraceEvent) -> Document {
    let record = TraceRecord {
        timestamp_ms: 0,
        level: TraceLevel::Debug,
        span_id: s("i"),
        parent_span_id: Some(s("p")),
        event,
        duration_ms: None,
    };
    let d = document(&json_of_record(&record));
    assert_eq!(d["timestamp_ms"], Document::from(0));
    assert_eq!(d["level"], Document::from("debug"));
    assert_eq!(d["parent_span_id"], Document::from("p"));
    assert!(d.get("duration_ms").is_none());
    d["event"].clone()
}

#[test]
fn test_trace_record_serialization() {
    let record = TraceRecord {
        timestamp_ms: 1234567890,
        level: TraceLevel::Info,
        span_id: "abc-123".to_string(),
        parent_span_id: None,
        event: TraceEvent::LlmCall {
            model: "gpt-4".to_string(),
            prompt: Some(parse_json(r#"{"role": "user", "content": "Hello"}"#).unwrap()),
            response: Some(parse_json(r#"{"role": "assistant", "content": "Hi there!"}"#).unwrap()),
            input_tokens: Some(10),
            output_tokens: Some(5),
            error: None,
        },
        duration_ms: Some(150),
    };

    let json = serde_json::to_string(&document(&json_of_record(&record))).unwrap();
    assert!(json.contains("llm_call"));
    assert!(json.contains("gpt-4"));
    assert_eq!(
        read(&json),
        read(
            r#"{"timestamp_ms": 1234567890, "level": "info", "span_id": "abc-123",
                "event": {"type": "llm_call", "model": "gpt-4",
                    "prompt": {"role": "user", "content": "Hello"},
                    "response": {"role": "assistant", "content": "Hi there!"},
                    "input_tokens": 10, "output_tokens": 5},
                "duration_ms": 150}"#
        )
    );
}

#[test]
fn events_are_written_without_what_they_do_not_have() {
    let half = Float { bits: 0.5f64.to_bits() };
    let nan = Float { bits: f64::NAN.to_bits() };
    let infinite = Float { bits: f64::NEG_INFINITY.to_bits() };
    assert_eq!(
        written(TraceEvent::ToolCall {
            tool_name: s("t"),
            input: Some(Json::Null),
            output: None,
            error: Some(s("e")),
        }),
        read(r#"{"type": "tool_call", "tool_name": "t", "input": null, "error": "e"}"#)
    );
    assert_eq!(
        written(TraceEvent::AgentTurn {
            agent_name: s("a"),
            turn_number: u64::MAX,
            tool_calls: Some(vec![s("x"), s("y")]),
            completed: Some(true),
        }),
        read(
            r#"{"type": "agent_turn", "agent_name": "a", "turn_number": 18446744073709551615,
                "tool_calls": ["x", "y"], "completed": true}"#
        )
    );
    assert_eq!(
        written(event("p")),
        read(r#"{"type": "prompt_execution", "prompt_name": "p"}"#)
    );
    assert_eq!(
        written(TraceEvent::TaskComplete {
            task_name: s("k"),
            status: TaskStatus::Skipped,
            reward: Some(half),
            error: None,
        }),
        read(r#"{"type": "task_complete", "task_name": "k", "status": "skipped", "reward": 0.5}"#)
    );
    let mut tags = Dict::new();
    tags.insert(s("env"), s("test"));
    assert_eq!(
        written(TraceEvent::Metric {
            name: s("m"),
            value: MetricValue::Histogram(vec![half, nan, infinite]),
            tags: Some(tags),
        }),
        read(r#"{"type": "metric", "name": "m", "value": [0.5, null, null], "tags": {"env": "test"}}"#)
    );
    assert_eq!(
        written(TraceEvent::Metric { name: s("m"), value: MetricValue::Counter(-3), tags: None }),
        read(r#"{"type": "metric", "name": "m", "value": -3}"#)
    );
    assert_eq!(
        written(TraceEvent::Metric { name: s("m"), value: MetricValue::Gauge(half), tags: None }),
        read(r#"{"type": "metric", "name": "m", "value": 0.5}"#)
    );
}

fn keys(j: &Json) -> Vec<String> {
    match j {
        Json::Object(d) => d.list().iter().map(|(k, _)| k.clone()).collect(),
        other => panic!("{:?}", other),
    }
}

#[test]
fn members_of_a_line_stand_in_their_order() {
    let mut tags = Dict::new();
    tags.insert(s("z"), s("1"));
    tags.insert(s("a"), s("2"));
    tags.insert(s("z"), s("3"));
    let mut body = Dict::new();
    body.insert(s("role"), Json::Null);
    body.insert(s("content"), Json::Null);
    let events = vec![
        (
            TraceEvent::LlmCall {
                model: s("m"),
                prompt: Some(Json::Object(body)),
                response: None,
                input_tokens: Some(u64::MAX),
                output_tokens: Some(2),
                error: Some(s("e")),
            },
            vec!["type", "model", "prompt", "input_tokens", "output_tokens", "error"],
        ),
        (
            TraceEvent::ToolCall {
                tool_name: s("t"),
                input: Some(Json::Null),
                output: Some(Json::Null),
                error: None,
            },
            vec!["type", "tool_name", "input", "output"],
        ),
        (
            TraceEvent::Metric { name: s("n"), value: MetricValue::Counter(1), tags: Some(tags) },
            vec!["type", "name", "value", "tags"],
        ),
    ];
    for (event, expected) in events {
        let record = TraceRecord {
            timestamp_ms: 1,
            level: TraceLevel::Info,
            span_id: s("i"),
            parent_span_id: Some(s("p")),
            event,
            duration_ms: Some(4),
        };
        let line = json_of_record(&record);
        assert_eq!(
            keys(&line),
            vec!["timestamp_ms", "level", "span_id", "parent_span_id", "event", "duration_ms"]
        );
        let Json::Object(members) = &line else { panic!("{:?}", line) };
        let event = members.get(&s("event")).unwrap();
        assert_eq!(keys(event), expected);
        let Json::Object(members) = event else { panic!("{:?}", event) };
        if let Some(tags) = members.get(&s("tags")) {
            assert_eq!(keys(tags), vec!["z", "a"]);
        }
        if let Some(prompt) = members.get(&s("prompt")) {
            assert_eq!(keys(prompt), vec!["role", "content"]);
        }
        if let Some(tokens) = members.get(&s("input_tokens")) {
            assert_eq!(
                json_to_value(tokens.copy()),
                Value::Float(Float { bits: (u64::MAX as f64).to_bits() })
            );
        }
    }
}
