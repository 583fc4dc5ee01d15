//! What the agent records in its session log for each conversation message,
//! and the time stamps of those records.

use vstd::prelude::*;
use crate::text::concat_str;
use crate::turn::json_parses;
use crate::types::{LLMMessage, Role};

verus! {

#[verifier::external_type_specification]
#[verifier::external_body]
pub struct ExSystemTime(std::time::SystemTime);

/// `SystemTime::now()`: the wall clock now. Nothing is stated of it.
#[verifier::external_body]
fn system_now() -> (t: std::time::SystemTime) {
    std::time::SystemTime::now()
}

/// `t.duration_since(UNIX_EPOCH)`, as an option: the time since the epoch,
/// `None` for a time before it. Nothing is stated of its value.
#[verifier::external_body]
fn since_epoch(t: &std::time::SystemTime) -> (d: Option<std::time::Duration>) {
    t.duration_since(std::time::UNIX_EPOCH).ok()
}

/// `Duration::as_millis`: whole milliseconds. Nothing is stated of its value.
#[verifier::external_body]
fn duration_millis(d: &std::time::Duration) -> (n: u128) {
    d.as_millis()
}

/// Milliseconds since the epoch by the wall clock, cut to 64 bits; 0 when
/// the clock is before the epoch.
pub fn now_ts() -> (t: u64) {
    match since_epoch(&system_now()) {
        Some(d) => {
            let ms: u128 = duration_millis(&d);
            #[verifier::truncate]
            (ms as u64)
        },
        None => 0,
    }
}

/// Milliseconds since the epoch by the wall clock as a signed stamp: 0
/// when the clock is before the epoch, the largest `i64` past its range.
pub fn epoch_millis() -> (t: i64)
    ensures
        t >= 0,
{
    match since_epoch(&system_now()) {
        Some(d) => {
            let ms: u128 = duration_millis(&d);
            if ms <= 9_223_372_036_854_775_807u128 {
                ms as i64
            } else {
                i64::MAX
            }
        },
        None => 0,
    }
}

/// An entry of the session log.
#[derive(Debug, Clone)]
pub enum SessionEvent {
    UserMessage { text: String, ts: u64 },
    AssistantMessage { text: String, ts: u64 },
    /// A tool call, its arguments as JSON text.
    ToolCall { id: String, name: String, args_json: String, ts: u64 },
    /// A tool result, logged as a JSON string holding `value`.
    ToolResult { id: String, name: String, value: String, error: Option<String>, ts: u64 },
}

pub open spec fn text_of(s: Option<String>) -> Seq<char> {
    match s {
        Some(x) => x@,
        None => Seq::empty(),
    }
}

/// The logged arguments of a call: its arguments when they are JSON, else an
/// empty object.
pub open spec fn logged_args(args: Seq<char>) -> Seq<char> {
    if json_parses(args) { args } else { "{}"@ }
}

/// The log entry of a tool call.
pub open spec fn call_entry(e: SessionEvent, c: crate::types::ToolCall, ts: u64) -> bool {
    e matches SessionEvent::ToolCall { id, name, args_json, ts: t } && id@ == match c.id {
        Some(x) => x@,
        None => "call"@,
    } && name@ == c.function.name@ && args_json@ == logged_args(c.function.arguments@) && t == ts
}

/// The log entries of a message at time `ts`: a user message is logged as
/// such; an assistant message as its text, when not empty, then one entry
/// per tool call; a tool message as a tool result; a system message not at
/// all.
pub open spec fn logged_as(m: LLMMessage, es: Seq<SessionEvent>, ts: u64) -> bool {
    match m.role {
        Role::User => es.len() == 1 && (es[0] matches SessionEvent::UserMessage { text, ts: t } && text@ == text_of(
            m.content,
        ) && t == ts),
        Role::Assistant => {
            let off: int = if text_of(m.content).len() > 0 { 1 } else { 0 };
            let calls: Seq<crate::types::ToolCall> = match m.tool_calls {
                Some(v) => v@,
                None => Seq::empty(),
            };
            &&& es.len() == off + calls.len()
            &&& off == 1 ==> (es[0] matches SessionEvent::AssistantMessage { text, ts: t } && text@ == text_of(
                m.content,
            ) && t == ts)
            &&& forall|i: int| 0 <= i < calls.len() ==> call_entry(#[trigger] es[off + i], calls[i], ts)
        },
        Role::Tool => es.len() == 1 && (es[0] matches SessionEvent::ToolResult { id, name, value, error, ts: t } && id@
            == match m.tool_call_id {
            Some(x) => x@,
            None => "tool-"@ + text_of(m.name),
        } && name@ == text_of(m.name) && value@ == text_of(m.content) && error is None && t == ts),
        Role::System => es.len() == 0,
    }
}

fn text_or_empty(s: &Option<String>) -> (r: String)
    ensures
        r@ == text_of(*s),
{
    match s {
        Some(x) => x.clone(),
        None => String::new(),
    }
}

/// The log entries for `message`, stamped `ts`.
pub fn llm_message_to_events(message: &LLMMessage, ts: u64) -> (es: Vec<SessionEvent>)
    ensures
        logged_as(*message, es@, ts),
{
    let mut es: Vec<SessionEvent> = Vec::new();
    match message.role {
        Role::User => {
            es.push(SessionEvent::UserMessage { text: text_or_empty(&message.content), ts });
        },
        Role::Assistant => {
            let text = text_or_empty(&message.content);
            let off: usize = if text.as_str().is_empty() { 0 } else { 1 };
            if off == 1 {
                es.push(SessionEvent::AssistantMessage { text, ts });
            }
            match &message.tool_calls {
                Some(calls) => {
                    let mut i: usize = 0;
                    while i < calls.len()
                        invariant
                            i <= calls@.len(),
                            es@.len() == off + i,
                            off == 1 ==> (es@[0] matches SessionEvent::AssistantMessage { text, ts: t } && text@
                                == text_of(message.content) && t == ts),
                            off as int == if text_of(message.content).len() > 0 { 1int } else { 0int },
                            forall|k: int| 0 <= k < i ==> call_entry(#[trigger] es@[off + k], calls@[k], ts),
                        decreases calls@.len() - i,
                    {
                        let c = &calls[i];
                        let id = match &c.id {
                            Some(x) => x.clone(),
                            None => String::from_str("call"),
                        };
                        let args_json = if crate::turn::parses_as_json(c.function.arguments.as_str()) {
                            c.function.arguments.clone()
                        } else {
                            String::from_str("{}")
                        };
                        es.push(SessionEvent::ToolCall { id, name: c.function.name.clone(), args_json, ts });
                        i = i + 1;
                    }
                },
                None => {},
            }
        },
        Role::Tool => {
            let name = text_or_empty(&message.name);
            let id = match &message.tool_call_id {
                Some(x) => x.clone(),
                None => concat_str("tool-", name.as_str()),
            };
            es.push(
                SessionEvent::ToolResult { id, name, value: text_or_empty(&message.content), error: None, ts },
            );
        },
        Role::System => {},
    }
    es
}

/// Whether an event shows the model at work: an assistant message or a
/// tool call.
pub open spec fn promotes(e: SessionEvent) -> bool {
    e is AssistantMessage || e is ToolCall
}

/// A session is bootstrapping until the model has answered or called a
/// tool.
pub fn in_bootstrap(events: &Vec<SessionEvent>) -> (b: bool)
    ensures
        b == !exists|i: int| 0 <= i < events@.len() && promotes(#[trigger] events@[i]),
{
    let mut i: usize = 0;
    while i < events.len()
        invariant
            i <= events.len(),
            forall|k: int| 0 <= k < i ==> !promotes(#[trigger] events@[k]),
        decreases events.len() - i,
    {
        match &events[i] {
            SessionEvent::AssistantMessage { .. } => return false,
            SessionEvent::ToolCall { .. } => return false,
            _ => {},
        }
        i = i + 1;
    }
    true
}

} // verus!
