//! What the model backends compute around their HTTP calls: which backend a
//! provider kind selects, endpoint URLs, DeepSeek's reasoning settings, the
//! wire form of a conversation, token usage, and the classification of a
//! failed request.
//!
//! Sending requests, reading streams and (de)serialising the wire structs
//! are done by the host.

use vstd::prelude::*;
use crate::agent::{ascii_lowercase, to_ascii_lowercase};
use crate::config::{opt_view, ModelConfig};
use crate::error::ArrowError;
use crate::text::{
    chars_of, concat_str, contains_chars, contains_seq, same_text, string_from_chars, trim, trim_chars,
    trim_end, trim_end_chars,
};
use crate::types::{FunctionCall, LLMChunk, LLMMessage, LLMUsage, Role, ToolCall};

verus! {

/// The backend implementations.
#[derive(Debug, Clone, Copy, PartialEq, Eq, Structural)]
pub enum BackendKind {
    OpenAi,
    DeepSeekChat,
    DeepSeekResponses,
}

/// The backend a provider kind selects, or a configuration error naming an
/// unknown kind.
pub fn init_backend(kind: &str) -> (r: Result<BackendKind, ArrowError>)
    ensures
        kind@ == "openai"@ || kind@ == "openai-compatible"@ ==> r == Ok::<BackendKind, ArrowError>(BackendKind::OpenAi),
        kind@ == "deepseek"@ ==> r == Ok::<BackendKind, ArrowError>(BackendKind::DeepSeekChat),
        kind@ == "deepseek-responses"@ ==> r == Ok::<BackendKind, ArrowError>(BackendKind::DeepSeekResponses),
        !(kind@ == "openai"@ || kind@ == "openai-compatible"@ || kind@ == "deepseek"@ || kind@
            == "deepseek-responses"@) ==> (r matches Err(ArrowError::Config(m)) && m@ == "Unknown backend: "@
            + kind@
            + ". Supported backends: openai, openai-compatible, anthropic, deepseek-chat, deepseek-responses"@),
{
    proof {
        reveal_strlit("openai");
        reveal_strlit("openai-compatible");
        reveal_strlit("deepseek");
        reveal_strlit("deepseek-responses");
        assert("openai"@.len() == 6 && "openai-compatible"@.len() == 17 && "deepseek"@.len() == 8);
        assert("deepseek-responses"@.len() == 18);
    }
    if same_text(kind, "openai") || same_text(kind, "openai-compatible") {
        Ok(BackendKind::OpenAi)
    } else if same_text(kind, "deepseek") {
        Ok(BackendKind::DeepSeekChat)
    } else if same_text(kind, "deepseek-responses") {
        Ok(BackendKind::DeepSeekResponses)
    } else {
        let a = concat_str("Unknown backend: ", kind);
        Err(
            ArrowError::Config(
                concat_str(
                    a.as_str(),
                    ". Supported backends: openai, openai-compatible, anthropic, deepseek-chat, deepseek-responses",
                ),
            ),
        )
    }
}

/// `api_base` without trailing slashes, followed by `path`.
pub fn endpoint_url(api_base: &str, path: &str) -> (s: String)
    ensures
        s@ == trim_end(api_base@, '/') + path@,
{
    let cs = chars_of(api_base);
    let t = trim_end_chars(cs.as_slice(), '/');
    let base = string_from_chars(t.as_slice());
    concat_str(base.as_str(), path)
}

/// The chat-completions URL of a provider.
pub fn chat_url(api_base: &str) -> (s: String)
    ensures
        s@ == trim_end(api_base@, '/') + "/chat/completions"@,
{
    endpoint_url(api_base, "/chat/completions")
}

/// The Responses-API URL of a provider.
pub fn responses_url(api_base: &str) -> (s: String)
    ensures
        s@ == trim_end(api_base@, '/') + "/responses"@,
{
    endpoint_url(api_base, "/responses")
}

/// DeepSeek's reasoning effort for a model: its `reasoning_effort`, trimmed
/// and lower-cased, `high` when unset; only `off`, `high` and `max` are
/// accepted.
pub open spec fn deepseek_effort(effort: Option<Seq<char>>) -> Seq<char> {
    match effort {
        Some(e) => ascii_lowercase(trim(e)),
        None => "high"@,
    }
}

pub open spec fn deepseek_effort_ok(e: Seq<char>) -> bool {
    e == "off"@ || e == "high"@ || e == "max"@
}

/// DeepSeek's reasoning effort for `model`, or a configuration error for a
/// value outside `off`, `high`, `max`.
pub fn reasoning_effort(model: &ModelConfig) -> (r: Result<String, ArrowError>)
    ensures
        ({
            let e = deepseek_effort(opt_view(model.reasoning_effort));
            &&& deepseek_effort_ok(e) ==> (r matches Ok(s) && s@ == e)
            &&& !deepseek_effort_ok(e) ==> (r matches Err(ArrowError::Config(m)) && m@
                == "DeepSeek does not support reasoning effort `"@ + e
                + "`; allowed values are `off`, `high`, `max`"@)
        }),
{
    proof {
        reveal_strlit("high");
    }
    let raw = match &model.reasoning_effort {
        Some(e) => e.clone(),
        None => String::from_str("high"),
    };
    let cs = chars_of(raw.as_str());
    let t = trim_chars(cs.as_slice());
    let lc = to_ascii_lowercase(t.as_slice());
    let normalized = string_from_chars(lc.as_slice());
    proof {
        let hi = "high"@;
        if model.reasoning_effort is None {
            assert(trim(hi) =~= hi) by {
                crate::text::lemma_lead_count_unique(hi, true, ' ', 0);
                crate::text::lemma_trail_count_unique(hi, true, ' ', 0);
                assert(hi.skip(0) =~= hi);
                assert(hi.take(hi.len() as int) =~= hi);
            }
            assert(ascii_lowercase(hi) =~= hi);
        }
    }
    if same_text(normalized.as_str(), "off") || same_text(normalized.as_str(), "high") || same_text(
        normalized.as_str(),
        "max",
    ) {
        Ok(normalized)
    } else {
        let a = concat_str("DeepSeek does not support reasoning effort `", normalized.as_str());
        Err(ArrowError::Config(concat_str(a.as_str(), "`; allowed values are `off`, `high`, `max`")))
    }
}

/// DeepSeek's `thinking` request block.
#[derive(Debug, Clone)]
pub struct DeepSeekThinking {
    /// `enabled` or `disabled`.
    pub kind: String,
    pub reasoning_effort: Option<String>,
}

/// The `thinking` block as text: kind and effort.
pub open spec fn thinking_view(t: Option<DeepSeekThinking>) -> Option<(Seq<char>, Option<Seq<char>>)> {
    match t {
        Some(x) => Some((x.kind@, opt_view(x.reasoning_effort))),
        None => None,
    }
}

/// The `thinking` block a model asks for, given its accepted effort `e`.
pub open spec fn expected_thinking(model: ModelConfig, e: Seq<char>) -> Option<(Seq<char>, Option<Seq<char>>)> {
    if model.thinking is None {
        None
    } else if e == "off"@ {
        Some(("disabled"@, None))
    } else {
        Some(("enabled"@, Some(e)))
    }
}

/// The `thinking` block for `model`: none when the model does not set
/// `thinking`; `disabled` without an effort when the effort is `off`;
/// otherwise `enabled` with the effort. An unsupported effort is an error.
pub fn deepseek_thinking(model: &ModelConfig) -> (r: Result<Option<DeepSeekThinking>, ArrowError>)
    ensures
        !deepseek_effort_ok(deepseek_effort(opt_view(model.reasoning_effort))) ==> (r matches Err(
            ArrowError::Config(m),
        ) && m@ == "DeepSeek does not support reasoning effort `"@ + deepseek_effort(
            opt_view(model.reasoning_effort),
        ) + "`; allowed values are `off`, `high`, `max`"@),
        deepseek_effort_ok(deepseek_effort(opt_view(model.reasoning_effort))) ==> (r matches Ok(t)
            && thinking_view(t) == expected_thinking(*model, deepseek_effort(opt_view(model.reasoning_effort)))),
{
    let effort = match reasoning_effort(model) {
        Ok(e) => e,
        Err(err) => {
            return Err(err);
        },
    };
    if model.thinking.is_none() {
        Ok(None)
    } else if same_text(effort.as_str(), "off") {
        Ok(Some(DeepSeekThinking { kind: String::from_str("disabled"), reasoning_effort: None }))
    } else {
        Ok(Some(DeepSeekThinking { kind: String::from_str("enabled"), reasoning_effort: Some(effort) }))
    }
}

/// Token usage of a DeepSeek chat completion.
#[derive(Debug, Clone, Copy)]
pub struct DeepSeekChatUsage {
    pub prompt_tokens: u32,
    pub completion_tokens: u32,
    pub prompt_cache_hit_tokens: Option<u32>,
    pub completion_tokens_details: Option<DeepSeekCompletionDetails>,
}

#[derive(Debug, Clone, Copy)]
pub struct DeepSeekCompletionDetails {
    pub reasoning_tokens: Option<u32>,
}

/// Token usage of a DeepSeek Responses-API call.
#[derive(Debug, Clone, Copy)]
pub struct DeepSeekResponsesUsage {
    pub input_tokens: u32,
    pub output_tokens: u32,
    pub input_tokens_details: Option<DeepSeekInputTokensDetails>,
    pub output_tokens_details: Option<DeepSeekOutputTokensDetails>,
}

#[derive(Debug, Clone, Copy)]
pub struct DeepSeekInputTokensDetails {
    pub cached_tokens: Option<u32>,
}

#[derive(Debug, Clone, Copy)]
pub struct DeepSeekOutputTokensDetails {
    pub reasoning_tokens: Option<u32>,
}

/// `a - b`, or 0 when `b` is larger.
pub open spec fn sat_sub(a: u32, b: u32) -> u32 {
    if a >= b {
        (a - b) as u32
    } else {
        0
    }
}

/// Usage of a chat completion, as `chat_usage` reports it.
pub open spec fn chat_usage_spec(u: DeepSeekChatUsage) -> LLMUsage {
    LLMUsage {
        prompt_tokens: match u.prompt_cache_hit_tokens {
            Some(hit) => sat_sub(u.prompt_tokens, hit),
            None => u.prompt_tokens,
        },
        completion_tokens: u.completion_tokens,
        cache_hit_tokens: u.prompt_cache_hit_tokens,
        reasoning_tokens: match u.completion_tokens_details {
            Some(d) => d.reasoning_tokens,
            None => None,
        },
        total_tokens: Some((u.prompt_tokens + u.completion_tokens) as u32),
    }
}

/// Usage of a chat completion. DeepSeek's prompt count includes the cached
/// part, which is reported apart: the prompt tokens are the uncached ones.
pub fn chat_usage(u: DeepSeekChatUsage) -> (r: LLMUsage)
    requires
        u.prompt_tokens + u.completion_tokens <= u32::MAX,
    ensures
        r == chat_usage_spec(u),
        r.prompt_tokens == match u.prompt_cache_hit_tokens {
            Some(hit) => sat_sub(u.prompt_tokens, hit),
            None => u.prompt_tokens,
        },
        r.completion_tokens == u.completion_tokens,
        r.cache_hit_tokens == u.prompt_cache_hit_tokens,
        r.reasoning_tokens == match u.completion_tokens_details {
            Some(d) => d.reasoning_tokens,
            None => None,
        },
        r.total_tokens == Some((u.prompt_tokens + u.completion_tokens) as u32),
{
    let reasoning_tokens = match u.completion_tokens_details {
        Some(d) => d.reasoning_tokens,
        None => None,
    };
    let prompt_tokens = match u.prompt_cache_hit_tokens {
        Some(hit) => if u.prompt_tokens >= hit { u.prompt_tokens - hit } else { 0 },
        None => u.prompt_tokens,
    };
    LLMUsage {
        prompt_tokens,
        completion_tokens: u.completion_tokens,
        cache_hit_tokens: u.prompt_cache_hit_tokens,
        reasoning_tokens,
        total_tokens: Some(u.prompt_tokens + u.completion_tokens),
    }
}

/// Usage of a Responses-API call, normalised as for chat completions.
/// Usage of a Responses-API call, as `responses_usage` reports it.
pub open spec fn responses_usage_spec(u: DeepSeekResponsesUsage) -> LLMUsage {
    let hit = match u.input_tokens_details {
        Some(d) => d.cached_tokens,
        None => None,
    };
    LLMUsage {
        prompt_tokens: match hit {
            Some(h) => sat_sub(u.input_tokens, h),
            None => u.input_tokens,
        },
        completion_tokens: u.output_tokens,
        cache_hit_tokens: hit,
        reasoning_tokens: match u.output_tokens_details {
            Some(d) => d.reasoning_tokens,
            None => None,
        },
        total_tokens: Some((u.input_tokens + u.output_tokens) as u32),
    }
}

pub fn responses_usage(u: DeepSeekResponsesUsage) -> (r: LLMUsage)
    requires
        u.input_tokens + u.output_tokens <= u32::MAX,
    ensures
        r == responses_usage_spec(u),
        ({
            let hit = match u.input_tokens_details {
                Some(d) => d.cached_tokens,
                None => None,
            };
            &&& r.cache_hit_tokens == hit
            &&& r.prompt_tokens == match hit {
                Some(h) => sat_sub(u.input_tokens, h),
                None => u.input_tokens,
            }
        }),
        r.completion_tokens == u.output_tokens,
        r.reasoning_tokens == match u.output_tokens_details {
            Some(d) => d.reasoning_tokens,
            None => None,
        },
        r.total_tokens == Some((u.input_tokens + u.output_tokens) as u32),
{
    let cache_hit_tokens = match u.input_tokens_details {
        Some(d) => d.cached_tokens,
        None => None,
    };
    let reasoning_tokens = match u.output_tokens_details {
        Some(d) => d.reasoning_tokens,
        None => None,
    };
    let prompt_tokens = match cache_hit_tokens {
        Some(hit) => if u.input_tokens >= hit { u.input_tokens - hit } else { 0 },
        None => u.input_tokens,
    };
    LLMUsage {
        prompt_tokens,
        completion_tokens: u.output_tokens,
        cache_hit_tokens,
        reasoning_tokens,
        total_tokens: Some(u.input_tokens + u.output_tokens),
    }
}

/// Token usage of an OpenAI-compatible call.
#[derive(Debug, Clone, Copy)]
pub struct OpenAIUsage {
    pub prompt_tokens: u32,
    pub completion_tokens: u32,
    pub total_tokens: u32,
    pub prompt_tokens_details: Option<OpenAIPromptTokensDetails>,
}

#[derive(Debug, Clone, Copy)]
pub struct OpenAIPromptTokensDetails {
    pub cached_tokens: u32,
}

impl OpenAIUsage {
    /// The usage as reported, with the cached prompt tokens when present.
    pub fn to_llm_usage(&self) -> (r: LLMUsage)
        ensures
            r.prompt_tokens == self.prompt_tokens,
            r.completion_tokens == self.completion_tokens,
            r.total_tokens == Some(self.total_tokens),
            r.cache_hit_tokens == match self.prompt_tokens_details {
                Some(d) => Some(d.cached_tokens),
                None => None,
            },
            r.reasoning_tokens is None,
    {
        LLMUsage {
            prompt_tokens: self.prompt_tokens,
            completion_tokens: self.completion_tokens,
            total_tokens: Some(self.total_tokens),
            cache_hit_tokens: match self.prompt_tokens_details {
                Some(d) => Some(d.cached_tokens),
                None => None,
            },
            reasoning_tokens: None,
        }
    }
}

/// A streamed delta of an OpenAI-compatible chat completion.
#[derive(Debug, Clone)]
pub struct OpenAIDelta {
    pub role: Option<String>,
    pub content: Option<String>,
    pub tool_calls: Option<Vec<OpenAIToolCall>>,
    /// DeepSeek and OpenAI reasoning streams.
    pub reasoning_content: Option<String>,
    /// Qwen and vLLM reasoning streams.
    pub reasoning: Option<String>,
}

/// The reasoning text of a delta: a non-empty `reasoning_content`, else a
/// non-empty `reasoning`, else whichever is present.
pub open spec fn reasoning_of(rc: Option<Seq<char>>, r: Option<Seq<char>>) -> Option<Seq<char>> {
    if rc matches Some(a) && a.len() > 0 {
        rc
    } else if r matches Some(b) && b.len() > 0 {
        r
    } else if rc is Some {
        rc
    } else {
        r
    }
}

impl OpenAIDelta {
    pub fn reasoning_text(&self) -> (t: Option<&str>)
        ensures
            match t {
                Some(s) => Some(s@) == reasoning_of(opt_view(self.reasoning_content), opt_view(self.reasoning)),
                None => reasoning_of(opt_view(self.reasoning_content), opt_view(self.reasoning)) is None,
            },
    {
        match &self.reasoning_content {
            Some(a) => {
                if !a.as_str().is_empty() {
                    return Some(a.as_str());
                }
            },
            None => {},
        }
        match &self.reasoning {
            Some(b) => {
                if !b.as_str().is_empty() {
                    return Some(b.as_str());
                }
            },
            None => {},
        }
        match &self.reasoning_content {
            Some(a) => Some(a.as_str()),
            None => match &self.reasoning {
                Some(b) => Some(b.as_str()),
                None => None,
            },
        }
    }
}

/// The class of a failed DeepSeek request.
pub open spec fn error_category(status: u16, body: Seq<char>) -> Seq<char> {
    if status == 401 || status == 403 {
        "[AUTH]"@
    } else if status == 429 {
        "[RATE_LIMIT]"@
    } else if status == 400 {
        if contains_seq(body, "maximum context length"@) || (contains_seq(body, "token"@) && contains_seq(
            body,
            "exceed"@,
        )) {
            "[CONTEXT_LENGTH]"@
        } else {
            "[INVALID_REQUEST]"@
        }
    } else if status == 408 {
        "[INVALID_REQUEST]"@
    } else if 500 <= status <= 599 {
        "[SERVER]"@
    } else {
        "[UNKNOWN]"@
    }
}

/// The class of a failed DeepSeek request, from its status and body.
pub fn categorize(status: u16, body: &str) -> (c: &'static str)
    ensures
        c@ == error_category(status, body@),
{
    if status == 401 || status == 403 {
        "[AUTH]"
    } else if status == 429 {
        "[RATE_LIMIT]"
    } else if status == 400 {
        let b = chars_of(body);
        let mcl = chars_of("maximum context length");
        let tok = chars_of("token");
        let exc = chars_of("exceed");
        if contains_chars(b.as_slice(), mcl.as_slice()) || (contains_chars(b.as_slice(), tok.as_slice())
            && contains_chars(b.as_slice(), exc.as_slice())) {
            "[CONTEXT_LENGTH]"
        } else {
            "[INVALID_REQUEST]"
        }
    } else if status == 408 {
        "[INVALID_REQUEST]"
    } else if 500 <= status && status <= 599 {
        "[SERVER]"
    } else {
        "[UNKNOWN]"
    }
}

/// The backend error for a failed DeepSeek request, given the status line
/// (`status_text`) that `reqwest` displays for the status.
pub fn request_failure(status: u16, status_text: &str, body: &str) -> (e: ArrowError)
    ensures
        e matches ArrowError::Backend(m) && m@ == "DeepSeek request failed "@ + error_category(status, body@)
            + ": "@ + status_text@ + " - "@ + body@,
{
    let cat = categorize(status, body);
    let a = concat_str("DeepSeek request failed ", cat);
    let b = concat_str(a.as_str(), ": ");
    let c = concat_str(b.as_str(), status_text);
    let d = concat_str(c.as_str(), " - ");
    ArrowError::Backend(concat_str(d.as_str(), body))
}

/// What `reqwest::StatusCode` displays for a status code: the code and its
/// reason phrase.
pub uninterp spec fn status_display(code: u16) -> Seq<char>;

/// `reqwest::StatusCode::from_u16(code)` formatted with `Display`
/// (`"{code} {canonical reason}"`). Codes outside 100..=999 are not status
/// codes and are excluded. What the reason phrase is for each code is not
/// stated here.
#[verifier::external_body]
fn status_text(code: u16) -> (s: String)
    requires
        100 <= code <= 999,
    ensures
        s@ == status_display(code),
{
    match reqwest::StatusCode::from_u16(code) {
        Ok(status) => status.to_string(),
        Err(_) => String::new(),
    }
}

/// The backend error for a failed DeepSeek request with HTTP `status`.
pub fn categorize_error(status: u16, body: &str) -> (e: ArrowError)
    requires
        100 <= status <= 999,
    ensures
        e matches ArrowError::Backend(m) && m@ == "DeepSeek request failed "@ + error_category(status, body@)
            + ": "@ + status_display(status) + " - "@ + body@,
{
    let text = status_text(status);
    request_failure(status, text.as_str(), body)
}

/// A tool call as sent to DeepSeek's chat API.
#[derive(Debug, Clone)]
pub struct DeepSeekToolCall {
    pub id: Option<String>,
    /// The wire `type` field.
    pub kind: Option<String>,
    pub function: DeepSeekFunctionCall,
}

#[derive(Debug, Clone)]
pub struct DeepSeekFunctionCall {
    pub name: String,
    pub arguments: String,
}

/// A message as sent to DeepSeek's chat API.
#[derive(Debug, Clone)]
pub struct DeepSeekChatMessage {
    pub role: String,
    pub content: Option<String>,
    pub reasoning_content: Option<String>,
    pub tool_calls: Option<Vec<DeepSeekToolCall>>,
    pub tool_call_id: Option<String>,
    pub name: Option<String>,
}

/// Whether an assistant message carries at least one tool call.
pub open spec fn has_tool_calls(m: LLMMessage) -> bool {
    m.tool_calls matches Some(c) && c@.len() > 0
}

/// The text of an optional string, empty when absent.
pub open spec fn text_or_empty(o: Option<String>) -> Seq<char> {
    match o {
        Some(s) => s@,
        None => Seq::empty(),
    }
}

pub open spec fn ds_calls_match(calls: Option<Vec<ToolCall>>, wire: Option<Vec<DeepSeekToolCall>>) -> bool {
    match calls {
        Some(c) => wire matches Some(w) && w@.len() == c@.len() && forall|i: int|
            0 <= i < c@.len() ==> {
                &&& (#[trigger] w@[i]).id == c@[i].id
                &&& w@[i].kind == c@[i].call_type
                &&& w@[i].function.name == c@[i].function.name
                &&& w@[i].function.arguments == c@[i].function.arguments
            },
        None => wire is None,
    }
}

/// How a conversation message goes on DeepSeek's chat wire.
pub open spec fn ds_wire(m: LLMMessage, w: DeepSeekChatMessage) -> bool {
    match m.role {
        Role::System => w.role@ == "system"@ && w.content == m.content && w.reasoning_content is None
            && w.tool_calls is None && w.tool_call_id is None && w.name is None,
        Role::User => w.role@ == "user"@ && w.content == m.content && w.reasoning_content is None
            && w.tool_calls is None && w.tool_call_id is None && w.name is None,
        Role::Assistant => {
            &&& w.role@ == "assistant"@
            &&& ds_calls_match(m.tool_calls, w.tool_calls)
            &&& if has_tool_calls(m) {
                opt_view(w.content) == Some(text_or_empty(m.content)) && w.reasoning_content
                    == m.reasoning_content
            } else {
                w.content == m.content && w.reasoning_content is None
            }
            &&& w.tool_call_id is None && w.name is None
        },
        Role::Tool => w.role@ == "tool"@ && w.content == m.content && w.reasoning_content is None
            && w.tool_calls is None && w.tool_call_id == m.tool_call_id && w.name == m.name,
    }
}

fn ds_tool_calls(calls: &Vec<ToolCall>) -> (r: Vec<DeepSeekToolCall>)
    ensures
        ds_calls_match(Some(*calls), Some(r)),
{
    let mut r: Vec<DeepSeekToolCall> = Vec::new();
    let mut i: usize = 0;
    while i < calls.len()
        invariant
            i <= calls@.len(),
            r@.len() == i,
            forall|k: int|
                0 <= k < i ==> {
                    &&& (#[trigger] r@[k]).id == calls@[k].id
                    &&& r@[k].kind == calls@[k].call_type
                    &&& r@[k].function.name == calls@[k].function.name
                    &&& r@[k].function.arguments == calls@[k].function.arguments
                },
        decreases calls@.len() - i,
    {
        let c = &calls[i];
        r.push(
            DeepSeekToolCall {
                id: c.id.clone(),
                kind: c.call_type.clone(),
                function: DeepSeekFunctionCall {
                    name: c.function.name.clone(),
                    arguments: c.function.arguments.clone(),
                },
            },
        );
        i = i + 1;
    }
    r
}

fn content_or_empty(o: &Option<String>) -> (s: String)
    ensures
        s@ == text_or_empty(*o),
{
    match o {
        Some(s) => s.clone(),
        None => String::new(),
    }
}

fn ds_message(m: &LLMMessage) -> (w: DeepSeekChatMessage)
    ensures
        ds_wire(*m, w),
{
    match m.role {
        Role::System => DeepSeekChatMessage {
            role: String::from_str("system"),
            content: m.content.clone(),
            reasoning_content: None,
            tool_calls: None,
            tool_call_id: None,
            name: None,
        },
        Role::User => DeepSeekChatMessage {
            role: String::from_str("user"),
            content: m.content.clone(),
            reasoning_content: None,
            tool_calls: None,
            tool_call_id: None,
            name: None,
        },
        Role::Assistant => {
            let tool_calls = match &m.tool_calls {
                Some(calls) => Some(ds_tool_calls(calls)),
                None => None,
            };
            let has_calls = match &m.tool_calls {
                Some(calls) => calls.len() > 0,
                None => false,
            };
            let content = if has_calls {
                Some(content_or_empty(&m.content))
            } else {
                m.content.clone()
            };
            DeepSeekChatMessage {
                role: String::from_str("assistant"),
                content,
                reasoning_content: if has_calls {
                    m.reasoning_content.clone()
                } else {
                    None
                },
                tool_calls,
                tool_call_id: None,
                name: None,
            }
        },
        Role::Tool => DeepSeekChatMessage {
            role: String::from_str("tool"),
            content: m.content.clone(),
            reasoning_content: None,
            tool_calls: None,
            tool_call_id: m.tool_call_id.clone(),
            name: m.name.clone(),
        },
    }
}

/// The conversation on DeepSeek's chat wire, message for message. An
/// assistant turn with tool calls never has a null content, and echoes its
/// reasoning only then.
pub fn deepseek_chat_messages(messages: &Vec<LLMMessage>) -> (r: Vec<DeepSeekChatMessage>)
    ensures
        r@.len() == messages@.len(),
        forall|i: int| 0 <= i < r@.len() ==> ds_wire(messages@[i], #[trigger] r@[i]),
{
    let mut r: Vec<DeepSeekChatMessage> = Vec::new();
    let mut i: usize = 0;
    while i < messages.len()
        invariant
            i <= messages@.len(),
            r@.len() == i,
            forall|k: int| 0 <= k < i ==> ds_wire(messages@[k], #[trigger] r@[k]),
        decreases messages@.len() - i,
    {
        r.push(ds_message(&messages[i]));
        i = i + 1;
    }
    r
}

/// A tool call as sent to an OpenAI-compatible API.
#[derive(Debug)]
pub struct OpenAIToolCall {
    pub id: Option<String>,
    /// The wire `type` field.
    pub tool_type: Option<String>,
    pub index: Option<usize>,
    pub function: OpenAIFunctionCall,
}

impl Clone for OpenAIToolCall {
    fn clone(&self) -> (r: Self)
        ensures
            r == *self,
    {
        OpenAIToolCall {
            id: self.id.clone(),
            tool_type: self.tool_type.clone(),
            index: self.index,
            function: self.function.clone(),
        }
    }
}

#[derive(Debug)]
pub struct OpenAIFunctionCall {
    pub name: String,
    pub arguments: String,
}

impl Clone for OpenAIFunctionCall {
    fn clone(&self) -> (r: Self)
        ensures
            r == *self,
    {
        OpenAIFunctionCall { name: self.name.clone(), arguments: self.arguments.clone() }
    }
}

/// A message as sent to an OpenAI-compatible API, tagged by role.
#[derive(Debug, Clone)]
pub enum OpenAIMessage {
    System { content: String },
    User { content: String },
    Assistant {
        content: Option<String>,
        tool_calls: Option<Vec<OpenAIToolCall>>,
        reasoning_content: Option<String>,
    },
    Tool { content: String, tool_call_id: String },
}

pub open spec fn oa_calls_match(calls: Option<Vec<ToolCall>>, wire: Option<Vec<OpenAIToolCall>>) -> bool {
    match calls {
        Some(c) => wire matches Some(w) && w@.len() == c@.len() && forall|i: int|
            0 <= i < c@.len() ==> {
                &&& (#[trigger] w@[i]).id == c@[i].id
                &&& w@[i].tool_type == c@[i].call_type
                &&& w@[i].index == c@[i].index
                &&& w@[i].function.name == c@[i].function.name
                &&& w@[i].function.arguments == c@[i].function.arguments
            },
        None => wire is None,
    }
}

/// How a conversation message goes on an OpenAI-compatible wire.
pub open spec fn oa_wire(m: LLMMessage, w: OpenAIMessage) -> bool {
    match m.role {
        Role::System => w matches OpenAIMessage::System { content } && content@ == text_or_empty(m.content),
        Role::User => w matches OpenAIMessage::User { content } && content@ == text_or_empty(m.content),
        Role::Assistant => match w {
            OpenAIMessage::Assistant { content, tool_calls, reasoning_content } => {
                &&& oa_calls_match(m.tool_calls, tool_calls)
                &&& if has_tool_calls(m) {
                    opt_view(content) == Some(text_or_empty(m.content)) && reasoning_content
                        == m.reasoning_content
                } else {
                    content == m.content && reasoning_content is None
                }
            },
            _ => false,
        },
        Role::Tool => w matches OpenAIMessage::Tool { content, tool_call_id } && content@ == text_or_empty(
            m.content,
        ) && tool_call_id@ == text_or_empty(m.tool_call_id),
    }
}

fn oa_tool_calls(calls: &Vec<ToolCall>) -> (r: Vec<OpenAIToolCall>)
    ensures
        oa_calls_match(Some(*calls), Some(r)),
{
    let mut r: Vec<OpenAIToolCall> = Vec::new();
    let mut i: usize = 0;
    while i < calls.len()
        invariant
            i <= calls@.len(),
            r@.len() == i,
            forall|k: int|
                0 <= k < i ==> {
                    &&& (#[trigger] r@[k]).id == calls@[k].id
                    &&& r@[k].tool_type == calls@[k].call_type
                    &&& r@[k].index == calls@[k].index
                    &&& r@[k].function.name == calls@[k].function.name
                    &&& r@[k].function.arguments == calls@[k].function.arguments
                },
        decreases calls@.len() - i,
    {
        let c = &calls[i];
        r.push(
            OpenAIToolCall {
                id: c.id.clone(),
                tool_type: c.call_type.clone(),
                index: c.index,
                function: OpenAIFunctionCall {
                    name: c.function.name.clone(),
                    arguments: c.function.arguments.clone(),
                },
            },
        );
        i = i + 1;
    }
    r
}

fn oa_message(m: &LLMMessage) -> (w: OpenAIMessage)
    ensures
        oa_wire(*m, w),
{
    match m.role {
        Role::System => OpenAIMessage::System { content: content_or_empty(&m.content) },
        Role::User => OpenAIMessage::User { content: content_or_empty(&m.content) },
        Role::Assistant => {
            let tool_calls = match &m.tool_calls {
                Some(calls) => Some(oa_tool_calls(calls)),
                None => None,
            };
            let has_calls = match &m.tool_calls {
                Some(calls) => calls.len() > 0,
                None => false,
            };
            let content = if has_calls {
                Some(content_or_empty(&m.content))
            } else {
                m.content.clone()
            };
            OpenAIMessage::Assistant {
                content,
                tool_calls,
                reasoning_content: if has_calls {
                    m.reasoning_content.clone()
                } else {
                    None
                },
            }
        },
        Role::Tool => OpenAIMessage::Tool {
            content: content_or_empty(&m.content),
            tool_call_id: content_or_empty(&m.tool_call_id),
        },
    }
}

/// The conversation on an OpenAI-compatible wire, message for message.
pub fn convert_messages(messages: &Vec<LLMMessage>) -> (r: Vec<OpenAIMessage>)
    ensures
        r@.len() == messages@.len(),
        forall|i: int| 0 <= i < r@.len() ==> oa_wire(messages@[i], #[trigger] r@[i]),
{
    let mut r: Vec<OpenAIMessage> = Vec::new();
    let mut i: usize = 0;
    while i < messages.len()
        invariant
            i <= messages@.len(),
            r@.len() == i,
            forall|k: int| 0 <= k < i ==> oa_wire(messages@[k], #[trigger] r@[k]),
        decreases messages@.len() - i,
    {
        r.push(oa_message(&messages[i]));
        i = i + 1;
    }
    r
}

/// The calls of a reply as the conversation holds them, field for field.
pub open spec fn calls_from_wire(wire: Option<Vec<OpenAIToolCall>>, calls: Option<Vec<ToolCall>>) -> bool {
    oa_calls_match(calls, wire)
}

pub(crate) fn tool_calls_from_wire(wire: Vec<OpenAIToolCall>) -> (r: Vec<ToolCall>)
    ensures
        oa_calls_match(Some(r), Some(wire)),
{
    let mut r: Vec<ToolCall> = Vec::new();
    let mut i: usize = 0;
    while i < wire.len()
        invariant
            i <= wire@.len(),
            r@.len() == i,
            forall|k: int|
                0 <= k < i ==> {
                    &&& (#[trigger] wire@[k]).id == r@[k].id
                    &&& wire@[k].tool_type == r@[k].call_type
                    &&& wire@[k].index == r@[k].index
                    &&& wire@[k].function.name == r@[k].function.name
                    &&& wire@[k].function.arguments == r@[k].function.arguments
                },
        decreases wire@.len() - i,
    {
        let w = wire[i].clone();
        r.push(
            ToolCall {
                id: w.id,
                index: w.index,
                function: FunctionCall { name: w.function.name, arguments: w.function.arguments },
                call_type: w.tool_type,
            },
        );
        i = i + 1;
    }
    r
}

/// How a message read from an OpenAI-compatible reply enters the
/// conversation: system, user and tool messages as plain messages (a tool
/// result named `tool`), an assistant message with its text (empty when
/// absent), reasoning and calls.
pub open spec fn from_wire(w: OpenAIMessage, m: LLMMessage) -> bool {
    match w {
        OpenAIMessage::System { content } => m.is_plain(Role::System, content@),
        OpenAIMessage::User { content } => m.is_plain(Role::User, content@),
        OpenAIMessage::Assistant { content, tool_calls, reasoning_content } => {
            &&& m.role == Role::Assistant
            &&& m.content matches Some(c) && c@ == text_or_empty(content)
            &&& m.reasoning_content == reasoning_content
            &&& calls_from_wire(tool_calls, m.tool_calls)
            &&& m.images is None && m.injected is None && m.name is None && m.tool_call_id is None
            &&& m.reasoning_state is None && m.reasoning_signature is None && m.reasoning_message_id is None
            &&& m.message_id@.len() == 36
        },
        OpenAIMessage::Tool { content, tool_call_id } => {
            &&& m.role == Role::Tool
            &&& m.content == Some(content)
            &&& m.tool_call_id == Some(tool_call_id)
            &&& m.name matches Some(n) && n@ == "tool"@
            &&& m.tool_calls is None && m.reasoning_content is None
        },
    }
}

/// A message of an OpenAI-compatible reply as a conversation message.
pub fn convert_openai_message(w: OpenAIMessage) -> (m: LLMMessage)
    ensures
        from_wire(w, m),
{
    match w {
        OpenAIMessage::System { content } => LLMMessage::system(content),
        OpenAIMessage::User { content } => LLMMessage::user(content),
        OpenAIMessage::Assistant { content, tool_calls, reasoning_content } => {
            let text = match content {
                Some(c) => c,
                None => String::new(),
            };
            let mut m = LLMMessage::assistant(text);
            m.reasoning_content = reasoning_content;
            match tool_calls {
                Some(calls) => {
                    m.tool_calls = Some(tool_calls_from_wire(calls));
                },
                None => {},
            }
            m
        },
        OpenAIMessage::Tool { content, tool_call_id } => LLMMessage::tool(
            content,
            tool_call_id,
            String::from_str("tool"),
        ),
    }
}

/// The chunk a non-streamed OpenAI-compatible reply gives: its first
/// choice, with the usage when reported; a backend error when there is no
/// choice.
pub fn convert_response(choices: Vec<OpenAIMessage>, usage: Option<OpenAIUsage>) -> (r: Result<LLMChunk, ArrowError>)
    ensures
        choices@.len() == 0 ==> (r matches Err(ArrowError::Backend(e)) && e@ == "No choices in response"@),
        choices@.len() > 0 ==> (r matches Ok(c) && from_wire(choices@[0], c.message) && c.usage == match usage {
            Some(u) => Some(
                LLMUsage {
                    prompt_tokens: u.prompt_tokens,
                    completion_tokens: u.completion_tokens,
                    total_tokens: Some(u.total_tokens),
                    cache_hit_tokens: match u.prompt_tokens_details {
                        Some(d) => Some(d.cached_tokens),
                        None => None,
                    },
                    reasoning_tokens: None,
                },
            ),
            None => None,
        } && c.finish_reason is None && !c.stream_interrupted),
{
    let mut choices = choices;
    if choices.len() == 0 {
        return Err(ArrowError::Backend(String::from_str("No choices in response")));
    }
    let first = choices.remove(0);
    let message = convert_openai_message(first);
    let u = match usage {
        Some(u) => Some(u.to_llm_usage()),
        None => None,
    };
    Ok(LLMChunk::new(message, u))
}

} // verus!
