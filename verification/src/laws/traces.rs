//! Laws of traces.
use vstd::prelude::*;
use vstd::string::*;
use crate::laws::texts::{digit_value, hexadecimals_read_back, read_number};
use crate::text::hexadecimal;
use crate::trace::{
    after_completed, config_from, elapsed_ms, emitted, kept, next_count, padded, records_level,
    severity, span_name, started_record, TraceEventView, TraceLevel, TraceOutputView,
    TraceRecordView, TracerConfigView, TracerView,
};

verus! {

/// Each level is more severe than those before it.
pub proof fn levels_are_ordered()
    ensures
        severity(TraceLevel::Debug) < severity(TraceLevel::Info),
        severity(TraceLevel::Info) < severity(TraceLevel::Warn),
        severity(TraceLevel::Warn) < severity(TraceLevel::Error),
        severity(TraceLevel::Debug) >= 0,
        severity(TraceLevel::Error) <= 3,
{
}

/// A tracer that is enabled records its lowest level and every level that is more severe, and none
/// below; one that is not records nothing.
pub proof fn levels_are_recorded_from_the_lowest_on(t: TracerView, level: TraceLevel)
    ensures
        !t.config.enabled ==> !records_level(t, level),
        t.config.enabled ==> (records_level(t, level) <==> match (t.config.min_level, level) {
            (TraceLevel::Debug, _) => true,
            (TraceLevel::Info, l) => !(l is Debug),
            (TraceLevel::Warn, l) => l is Warn || l is Error,
            (TraceLevel::Error, l) => l is Error,
        }),
{
}

/// A file that is set is where records go, whatever else is set; otherwise they go to the standard
/// error stream, where that is set. A setting that is empty is none. Bodies are recorded, and
/// events from the level of information on.
pub proof fn settings_say_where_records_go(file: Option<Seq<char>>, stderr: Option<Seq<char>>)
    ensures
        ({
            let config = config_from(file, stderr);
            let to_file = file matches Some(path) && path.len() > 0;
            let to_stderr = stderr matches Some(s) && s.len() > 0;
            &&& config.enabled <==> to_file || to_stderr
            &&& to_file ==> config.output == TraceOutputView::File(file->0)
            &&& !to_file ==> config.output == TraceOutputView::Stderr
            &&& config.include_bodies
            &&& config.min_level is Info
        }),
{
}

/// Whether an event is another, but for the bodies of requests and responses, which it does not
/// have.
pub open spec fn same_but_for_bodies(e: TraceEventView, all: TraceEventView) -> bool {
    match (e, all) {
        (
            TraceEventView::LlmCall {
                model,
                prompt,
                response,
                input_tokens,
                output_tokens,
                error,
            },
            TraceEventView::LlmCall {
                model: m,
                prompt: _,
                response: _,
                input_tokens: i,
                output_tokens: o,
                error: x,
            },
        ) => {
            &&& model == m && input_tokens == i && output_tokens == o && error == x
            &&& prompt is None && response is None
        },
        (
            TraceEventView::ToolCall { tool_name, input, output, error },
            TraceEventView::ToolCall { tool_name: n, input: _, output: _, error: x },
        ) => tool_name == n && error == x && input is None && output is None,
        (
            TraceEventView::PromptExecution { prompt_name, input, output, error },
            TraceEventView::PromptExecution { prompt_name: n, input: _, output: _, error: x },
        ) => prompt_name == n && error == x && input is None && output is None,
        (TraceEventView::AgentTurn { .. }, _) => e == all,
        (TraceEventView::TaskComplete { .. }, _) => e == all,
        (TraceEventView::Metric { .. }, _) => e == all,
        _ => false,
    }
}

/// An event is kept as it is where bodies are recorded, and without them otherwise.
pub proof fn bodies_are_kept_or_left_out(config: TracerConfigView, event: TraceEventView)
    ensures
        config.include_bodies ==> kept(config, event) == event,
        !config.include_bodies ==> same_but_for_bodies(kept(config, event), event),
{
}

/// Whether a record is another, but for what a tracer of a configuration leaves out.
pub open spec fn stored_as(
    config: TracerConfigView,
    stored: TraceRecordView,
    record: TraceRecordView,
) -> bool {
    &&& stored.timestamp_ms == record.timestamp_ms
    &&& stored.level == record.level
    &&& stored.span_id == record.span_id
    &&& stored.parent_span_id == record.parent_span_id
    &&& stored.duration_ms == record.duration_ms
    &&& config.include_bodies ==> stored.event == record.event
    &&& !config.include_bodies ==> same_but_for_bodies(stored.event, record.event)
}

/// A record goes behind those before it, in memory or to be written, as the tracer's output says;
/// nothing else changes.
pub proof fn records_are_added_at_the_end(t: TracerView, record: TraceRecordView)
    ensures
        ({
            let after = emitted(t, record);
            &&& after.config == t.config
            &&& t.config.output is Memory ==> {
                &&& after.unwritten == t.unwritten
                &&& after.records.len() == t.records.len() + 1
                &&& after.records.drop_last() == t.records
                &&& stored_as(t.config, after.records.last(), record)
            }
            &&& !(t.config.output is Memory) ==> {
                &&& after.records == t.records
                &&& after.unwritten.len() == t.unwritten.len() + 1
                &&& after.unwritten.drop_last() == t.unwritten
                &&& stored_as(t.config, after.unwritten.last(), record)
            }
        }),
{
    let after = emitted(t, record);
    if t.config.output is Memory {
        assert(after.records.drop_last() =~= t.records);
    } else {
        assert(after.unwritten.drop_last() =~= t.unwritten);
    }
}

/// The record of an event that just happened holds when that was, the level, the span and the
/// event, and no duration.
pub proof fn started_records_hold_the_event(
    now: u64,
    level: TraceLevel,
    span_id: Seq<char>,
    event: TraceEventView,
)
    ensures
        ({
            let r = started_record(now, level, span_id, event);
            &&& r.timestamp_ms == now
            &&& r.level == level
            &&& r.span_id == span_id
            &&& r.event == event
            &&& r.parent_span_id is None
            &&& r.duration_ms is None
        }),
{
}

/// An event that is over is recorded as information, with its span and how long it took, where the
/// tracer records information; otherwise nothing changes.
pub proof fn completed_events_are_recorded(
    t: TracerView,
    now: u64,
    span_id: Seq<char>,
    event: TraceEventView,
    duration_ms: u64,
)
    ensures
        ({
            let after = after_completed(t, now, span_id, event, duration_ms);
            if t.config.enabled && (t.config.min_level is Debug || t.config.min_level is Info) {
                after == emitted(
                    t,
                    TraceRecordView {
                        timestamp_ms: now,
                        level: TraceLevel::Info,
                        span_id,
                        parent_span_id: None,
                        event,
                        duration_ms: Some(duration_ms),
                    },
                )
            } else {
                after == t
            }
        }),
{
}

/// The milliseconds of a span are those that are over: so many fit between the two readings of the
/// clock, and one more does not. A clock that went back gives none.
pub proof fn durations_are_whole_milliseconds(begun: u64, clock: u64)
    ensures
        clock < begun ==> elapsed_ms(begun, clock) == 0,
        clock >= begun ==> {
            &&& elapsed_ms(begun, clock) * 1_000_000 <= clock - begun
            &&& clock - begun < (elapsed_ms(begun, clock) + 1) * 1_000_000
        },
{
}

proof fn lemma_zeros(zeros: nat, digits: Seq<char>)
    ensures
        read_number(Seq::new(zeros, |i: int| '0') + digits, 16) == read_number(digits, 16),
    decreases digits.len(), zeros,
{
    let all = Seq::new(zeros, |i: int| '0') + digits;
    if digits.len() > 0 {
        assert(all.drop_last() =~= Seq::new(zeros, |i: int| '0') + digits.drop_last());
        assert(all.last() == digits.last());
        lemma_zeros(zeros, digits.drop_last());
    } else if zeros > 0 {
        assert(all.drop_last() =~= Seq::new((zeros - 1) as nat, |i: int| '0') + digits);
        assert(all.last() == '0');
        lemma_zeros((zeros - 1) as nat, digits);
        assert(digit_value('0') == 0);
    } else {
        assert(all =~= digits);
    }
}

/// The identifier of a span is the time and the count, both in hexadecimal, with a hyphen between;
/// the count has at least four digits, and no more than it needs beyond that.
pub proof fn span_names_hold_time_and_count(now: u64, count: u64)
    ensures
        ({
            let name = span_name(now, count);
            let n = hexadecimal(now as nat).len() as int;
            let time = name.subrange(0, n);
            let number = name.subrange(n + 1, name.len() as int);
            &&& n + 5 <= name.len()
            &&& name[n] == '-'
            &&& read_number(time, 16) == now
            &&& read_number(number, 16) == count
            &&& number.len() > 4 ==> number[0] != '0'
            &&& now > 0 ==> time[0] != '0'
        }),
{
    reveal_strlit("-");
    let name = span_name(now, count);
    let h = hexadecimal(now as nat);
    let c = hexadecimal(count as nat);
    let p = padded(count as nat, 4);
    let n = h.len() as int;
    hexadecimals_read_back(now as nat);
    hexadecimals_read_back(count as nat);
    assert(name.subrange(0, n) =~= h);
    assert(name.subrange(n + 1, name.len() as int) =~= p);
    if c.len() < 4 {
        lemma_zeros((4 - c.len()) as nat, c);
    } else if c.len() > 4 {
        if count == 0 {
            assert(hexadecimal(0).len() == 1);
        }
    }
}

/// Counts follow each other, and start again at zero after the largest.
pub proof fn counts_follow_each_other(count: u64)
    ensures
        count < u64::MAX ==> next_count(count) == count + 1,
        count == u64::MAX ==> next_count(count) == 0,
{
}

} // verus!
