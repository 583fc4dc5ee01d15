//! The streamed reply of an OpenAI-compatible chat completion: each decoded
//! event becomes the chunks the agent loop reads, and a transport failure
//! becomes either an interruption sentinel or an error, depending on
//! whether any content had arrived.

use vstd::prelude::*;
use crate::config::opt_view;
use crate::error::ArrowError;
use crate::llm::{calls_from_wire, reasoning_of, tool_calls_from_wire, OpenAIDelta, OpenAIUsage};
use crate::text::concat_str;
use crate::types::{LLMChunk, LLMMessage, LLMUsage, Role};

verus! {

/// One choice of a streamed event.
#[derive(Debug, Clone)]
pub struct OpenAIStreamChoice {
    pub index: u32,
    pub delta: OpenAIDelta,
    pub finish_reason: Option<String>,
}

/// One decoded event of the stream. The last event, asked for with
/// `include_usage`, carries the usage totals and may have no choice.
#[derive(Debug, Clone)]
pub struct OpenAIStreamChunk {
    pub id: String,
    pub object: String,
    pub created: u64,
    pub model: String,
    pub choices: Vec<OpenAIStreamChoice>,
    pub usage: Option<OpenAIUsage>,
}

/// The usage as the conversation records it.
pub open spec fn usage_of(u: OpenAIUsage) -> LLMUsage {
    LLMUsage {
        prompt_tokens: u.prompt_tokens,
        completion_tokens: u.completion_tokens,
        total_tokens: Some(u.total_tokens),
        cache_hit_tokens: match u.prompt_tokens_details {
            Some(d) => Some(d.cached_tokens),
            None => None,
        },
        reasoning_tokens: None,
    }
}

/// `m` is the assistant message a delta carries: its text and calls as
/// sent, the reasoning from whichever field holds it, nothing else.
pub open spec fn delta_message(d: OpenAIDelta, m: LLMMessage) -> bool {
    &&& m.role == Role::Assistant
    &&& m.content == d.content
    &&& opt_view(m.reasoning_content) == reasoning_of(opt_view(d.reasoning_content), opt_view(d.reasoning))
    &&& calls_from_wire(d.tool_calls, m.tool_calls)
    &&& m.images is None && m.injected is None && m.name is None && m.tool_call_id is None
    &&& m.reasoning_state is None && m.reasoning_signature is None && m.reasoning_message_id is None
    &&& m.message_id@.len() == 36
}

/// The chunk of an event's first choice: its delta as an assistant message,
/// no usage; `None` for an event without a choice.
pub fn convert_stream_chunk(choices: Vec<OpenAIStreamChoice>) -> (r: Option<LLMChunk>)
    ensures
        choices@.len() == 0 ==> r is None,
        choices@.len() > 0 ==> (r matches Some(c) && delta_message(choices@[0].delta, c.message)
            && c.usage is None && c.correlation_id is None && c.finish_reason is None
            && !c.stream_interrupted),
{
    let mut choices = choices;
    if choices.len() == 0 {
        return None;
    }
    let first = choices.remove(0);
    let d = first.delta;
    let reasoning: Option<String> = match d.reasoning_text() {
        Some(t) => Some(t.to_string()),
        None => None,
    };
    let mut m = LLMMessage::assistant(String::new());
    m.content = d.content;
    m.reasoning_content = reasoning;
    match d.tool_calls {
        Some(calls) => {
            m.tool_calls = Some(tool_calls_from_wire(calls));
        },
        None => {},
    }
    Some(LLMChunk::new(m, None))
}

/// The state of one streamed reply: whether any content chunk has been
/// handed out yet.
#[derive(Debug, Clone, Copy)]
pub struct OpenAIStream {
    pub saw_content: bool,
}

impl OpenAIStream {
    /// Nothing received yet.
    pub fn new() -> (s: Self)
        ensures
            !s.saw_content,
    {
        OpenAIStream { saw_content: false }
    }

    /// The chunks one event gives, in order: a usage chunk (an empty
    /// assistant message with the totals) when the event reports usage, then
    /// the chunk of its first choice when it has one. Content has been seen
    /// once an event with a choice has been absorbed.
    pub fn absorb(&mut self, chunk: OpenAIStreamChunk) -> (out: Vec<LLMChunk>)
        ensures
            final(self).saw_content == (old(self).saw_content || chunk.choices@.len() > 0),
            out@.len() == (if chunk.usage is Some { 1int } else { 0int }) + (if chunk.choices@.len() > 0 {
                1int
            } else {
                0int
            }),
            chunk.usage matches Some(u) ==> {
                &&& out@[0].message.is_plain(Role::Assistant, Seq::empty())
                &&& out@[0].usage == Some(usage_of(u))
                &&& out@[0].finish_reason is None && !out@[0].stream_interrupted
            },
            chunk.choices@.len() > 0 ==> {
                let c = out@[out@.len() - 1];
                &&& delta_message(chunk.choices@[0].delta, c.message)
                &&& c.usage is None && c.finish_reason is None && !c.stream_interrupted
            },
    {
        let mut out: Vec<LLMChunk> = Vec::new();
        match chunk.usage {
            Some(u) => {
                out.push(LLMChunk::new(LLMMessage::assistant(String::new()), Some(u.to_llm_usage())));
            },
            None => {},
        }
        match convert_stream_chunk(chunk.choices) {
            Some(c) => {
                self.saw_content = true;
                out.push(c);
            },
            None => {},
        }
        out
    }

    /// What a transport failure ends the stream with: after content, the
    /// interruption sentinel, so the loop can retry; before any, a backend
    /// error `"Stream error: "` followed by the failure's text.
    pub fn on_transport_error(&self, error: &str) -> (r: Result<LLMChunk, ArrowError>)
        ensures
            self.saw_content ==> (r matches Ok(c) && c.stream_interrupted && c.usage is None
                && c.message.is_plain(Role::Assistant, Seq::empty())),
            !self.saw_content ==> (r matches Err(ArrowError::Backend(e)) && e@ == "Stream error: "@ + error@),
    {
        if self.saw_content {
            Ok(LLMChunk::interrupted())
        } else {
            Err(ArrowError::Backend(concat_str("Stream error: ", error)))
        }
    }
}

} // verus!
