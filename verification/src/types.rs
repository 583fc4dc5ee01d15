//! Conversation message types, token usage and turn events.

use vstd::prelude::*;

verus! {

/// Author of a message.
#[derive(Debug, Clone, Copy, PartialEq, Eq, Structural)]
pub enum Role {
    System,
    User,
    Assistant,
    Tool,
}

/// A file attached to a message as an image.
#[derive(Debug)]
pub struct ImageAttachment {
    pub path: String,
    pub alias: String,
    pub mime_type: String,
}

impl Clone for ImageAttachment {
    fn clone(&self) -> (r: Self)
        ensures
            r == *self,
    {
        ImageAttachment {
            path: self.path.clone(),
            alias: self.alias.clone(),
            mime_type: self.mime_type.clone(),
        }
    }
}

/// Name and JSON-encoded arguments of a requested function call.
#[derive(Debug)]
pub struct FunctionCall {
    pub name: String,
    pub arguments: String,
}

impl Clone for FunctionCall {
    fn clone(&self) -> (r: Self)
        ensures
            r == *self,
    {
        FunctionCall { name: self.name.clone(), arguments: self.arguments.clone() }
    }
}

/// A tool call carried by an assistant message. `call_type` is the wire
/// `type` field.
#[derive(Debug)]
pub struct ToolCall {
    pub id: Option<String>,
    pub index: Option<usize>,
    pub function: FunctionCall,
    pub call_type: Option<String>,
}

impl Clone for ToolCall {
    fn clone(&self) -> (r: Self)
        ensures
            r == *self,
    {
        ToolCall {
            id: self.id.clone(),
            index: self.index,
            function: self.function.clone(),
            call_type: self.call_type.clone(),
        }
    }
}


/// A fresh random message identifier: a hyphenated version-4 UUID
/// (`Uuid::new_v4().to_string()`), 36 characters long.
#[verifier::external_body]
fn fresh_message_id() -> (id: String)
    ensures
        id@.len() == 36,
{
    uuid::Uuid::new_v4().to_string()
}

/// One message of a conversation.
#[derive(Debug, Clone)]
pub struct LLMMessage {
    pub role: Role,
    pub content: Option<String>,
    pub images: Option<Vec<ImageAttachment>>,
    pub injected: Option<bool>,
    pub reasoning_content: Option<String>,
    pub reasoning_state: Option<Vec<String>>,
    pub reasoning_signature: Option<String>,
    pub reasoning_message_id: Option<String>,
    pub tool_calls: Option<Vec<ToolCall>>,
    pub name: Option<String>,
    pub tool_call_id: Option<String>,
    pub message_id: String,
}

impl LLMMessage {
    /// A plain message: `role` and `content` set, a fresh id, every optional
    /// field empty.
    pub open spec fn is_plain(&self, role: Role, content: Seq<char>) -> bool {
        &&& self.role == role
        &&& self.content matches Some(c) && c@ == content
        &&& self.images is None
        &&& self.injected is None
        &&& self.reasoning_content is None
        &&& self.reasoning_state is None
        &&& self.reasoning_signature is None
        &&& self.reasoning_message_id is None
        &&& self.tool_calls is None
        &&& self.name is None
        &&& self.tool_call_id is None
        &&& self.message_id@.len() == 36
    }

    pub fn new(role: Role, content: String) -> (m: Self)
        ensures
            m.is_plain(role, content@),
    {
        LLMMessage {
            role,
            content: Some(content),
            images: None,
            injected: None,
            reasoning_content: None,
            reasoning_state: None,
            reasoning_signature: None,
            reasoning_message_id: None,
            tool_calls: None,
            name: None,
            tool_call_id: None,
            message_id: fresh_message_id(),
        }
    }

    pub fn system(content: String) -> (m: Self)
        ensures
            m.is_plain(Role::System, content@),
    {
        Self::new(Role::System, content)
    }

    pub fn user(content: String) -> (m: Self)
        ensures
            m.is_plain(Role::User, content@),
    {
        Self::new(Role::User, content)
    }

    pub fn assistant(content: String) -> (m: Self)
        ensures
            m.is_plain(Role::Assistant, content@),
    {
        Self::new(Role::Assistant, content)
    }

    /// A tool-result message answering the call `tool_call_id` of tool `name`.
    pub fn tool(content: String, tool_call_id: String, name: String) -> (m: Self)
        ensures
            m.role == Role::Tool,
            m.content == Some(content),
            m.tool_call_id == Some(tool_call_id),
            m.name == Some(name),
            m.images is None,
            m.injected is None,
            m.reasoning_content is None,
            m.reasoning_state is None,
            m.reasoning_signature is None,
            m.reasoning_message_id is None,
            m.tool_calls is None,
            m.message_id@.len() == 36,
    {
        LLMMessage {
            role: Role::Tool,
            content: Some(content),
            tool_call_id: Some(tool_call_id),
            name: Some(name),
            message_id: fresh_message_id(),
            images: None,
            injected: None,
            reasoning_content: None,
            reasoning_state: None,
            reasoning_signature: None,
            reasoning_message_id: None,
            tool_calls: None,
        }
    }
}

/// Identifier of one tool execution (a call and its result).
#[derive(Debug, Eq, Hash)]
pub struct ToolExecId(pub String);

/// Two identifiers are equal when their texts are.
impl PartialEq for ToolExecId {
    fn eq(&self, other: &Self) -> (r: bool) {
        self.0 == other.0
    }
}

impl vstd::std_specs::cmp::PartialEqSpecImpl for ToolExecId {
    open spec fn obeys_eq_spec() -> bool {
        true
    }

    open spec fn eq_spec(&self, other: &Self) -> bool {
        self.0@ == other.0@
    }
}

/// The identifier with text `s`.
impl From<String> for ToolExecId {
    fn from(s: String) -> (r: Self) {
        ToolExecId(s)
    }
}

impl vstd::std_specs::convert::FromSpecImpl<String> for ToolExecId {
    open spec fn obeys_from_spec() -> bool {
        true
    }

    open spec fn from_spec(v: String) -> Self {
        ToolExecId(v)
    }
}

/// The identifier with the text of `s`.
impl From<&str> for ToolExecId {
    fn from(s: &str) -> (r: Self)
        ensures
            r.0@ == s@,
    {
        ToolExecId(String::from_str(s))
    }
}

impl vstd::std_specs::convert::FromSpecImpl<&str> for ToolExecId {
    open spec fn obeys_from_spec() -> bool {
        false
    }

    open spec fn from_spec(v: &str) -> Self {
        vstd::pervasive::arbitrary()
    }
}

impl ToolExecId {
    pub fn new(id: String) -> (r: Self)
        ensures
            r.0 == id,
    {
        ToolExecId(id)
    }

    pub fn as_str(&self) -> (s: &str)
        ensures
            s@ == self.0@,
    {
        self.0.as_str()
    }
}

impl Clone for ToolExecId {
    fn clone(&self) -> (r: Self)
        ensures
            r == *self,
    {
        ToolExecId(self.0.clone())
    }
}

/// Token usage reported for one model call.
#[derive(Debug, Clone, Copy)]
pub struct LLMUsage {
    pub prompt_tokens: u32,
    pub completion_tokens: u32,
    /// Prompt tokens served from the provider's cache.
    pub cache_hit_tokens: Option<u32>,
    /// Completion tokens spent on reasoning.
    pub reasoning_tokens: Option<u32>,
    /// Prompt plus completion, when the provider reports it.
    pub total_tokens: Option<u32>,
}

impl Default for LLMUsage {
    fn default() -> (r: Self)
        ensures
            r.prompt_tokens == 0,
            r.completion_tokens == 0,
            r.cache_hit_tokens is None,
            r.reasoning_tokens is None,
            r.total_tokens is None,
    {
        LLMUsage {
            prompt_tokens: 0,
            completion_tokens: 0,
            cache_hit_tokens: None,
            reasoning_tokens: None,
            total_tokens: None,
        }
    }
}

/// One response (or streamed piece) from a model.
#[derive(Debug)]
pub struct LLMChunk {
    pub message: LLMMessage,
    pub usage: Option<LLMUsage>,
    pub correlation_id: Option<String>,
    /// Wire `finish_reason` of the final chunk (`stop`, `length`, ...).
    pub finish_reason: Option<String>,
    /// Set on the sentinel chunk that reports a stream cut off before its
    /// terminator.
    pub stream_interrupted: bool,
}

impl LLMChunk {
    pub fn new(message: LLMMessage, usage: Option<LLMUsage>) -> (c: Self)
        ensures
            c.message == message,
            c.usage == usage,
            c.correlation_id is None,
            c.finish_reason is None,
            !c.stream_interrupted,
    {
        LLMChunk { message, usage, correlation_id: None, finish_reason: None, stream_interrupted: false }
    }

    /// A chunk carrying a terminal `finish_reason`.
    pub fn with_finish_reason(message: LLMMessage, usage: Option<LLMUsage>, finish_reason: String) -> (c: Self)
        ensures
            c.message == message,
            c.usage == usage,
            c.correlation_id is None,
            c.finish_reason == Some(finish_reason),
            !c.stream_interrupted,
    {
        LLMChunk {
            message,
            usage,
            correlation_id: None,
            finish_reason: Some(finish_reason),
            stream_interrupted: false,
        }
    }

    /// The sentinel reporting a stream that was cut before a clean terminator:
    /// an empty assistant message, no usage, `finish_reason`
    /// `"stream_interrupted"`.
    pub fn interrupted() -> (c: Self)
        ensures
            c.message.is_plain(Role::Assistant, Seq::empty()),
            c.usage is None,
            c.correlation_id is None,
            c.finish_reason matches Some(f) && f@ == "stream_interrupted"@,
            c.stream_interrupted,
    {
        let reason = String::from_str("stream_interrupted");
        proof {
            reveal_strlit("stream_interrupted");
        }
        LLMChunk {
            message: LLMMessage::assistant(String::new()),
            usage: None,
            correlation_id: None,
            finish_reason: Some(reason),
            stream_interrupted: true,
        }
    }
}

/// Structured input handed to the agent.
#[derive(Debug)]
pub enum UserInput {
    /// A message, optionally referencing file or directory paths.
    Message { content: String, references: Vec<String> },
    /// A slash command with its arguments.
    Command { name: String, args: Vec<String> },
}

/// Session-wide token totals folded from each model call.
#[derive(Debug, Clone, Copy)]
pub struct SessionTokens {
    pub session_prompt_tokens: u64,
    pub session_completion_tokens: u64,
    pub session_total_tokens: u64,
    pub session_cache_hit_tokens: u64,
    pub session_reasoning_tokens: u64,
}

/// The tokens one usage report adds to the session total.
pub open spec fn usage_total(u: LLMUsage) -> int {
    match u.total_tokens {
        Some(t) => t as int,
        None => (u.prompt_tokens + u.completion_tokens) as u32 as int,
    }
}

/// `s` after folding in `u`.
pub open spec fn record_usage_spec(s: SessionTokens, u: LLMUsage) -> SessionTokens {
    SessionTokens {
        session_prompt_tokens: (s.session_prompt_tokens + u.prompt_tokens) as u64,
        session_completion_tokens: (s.session_completion_tokens + u.completion_tokens) as u64,
        session_total_tokens: (s.session_total_tokens + usage_total(u)) as u64,
        session_cache_hit_tokens: match u.cache_hit_tokens {
            Some(c) => (s.session_cache_hit_tokens + c) as u64,
            None => s.session_cache_hit_tokens,
        },
        session_reasoning_tokens: match u.reasoning_tokens {
            Some(r) => (s.session_reasoning_tokens + r) as u64,
            None => s.session_reasoning_tokens,
        },
    }
}

impl SessionTokens {
    pub fn new() -> (s: Self)
        ensures
            s.session_prompt_tokens == 0,
            s.session_completion_tokens == 0,
            s.session_total_tokens == 0,
            s.session_cache_hit_tokens == 0,
            s.session_reasoning_tokens == 0,
    {
        SessionTokens {
            session_prompt_tokens: 0,
            session_completion_tokens: 0,
            session_total_tokens: 0,
            session_cache_hit_tokens: 0,
            session_reasoning_tokens: 0,
        }
    }

    /// Folding `u` in keeps every total within `u64`.
    pub open spec fn can_record(&self, u: LLMUsage) -> bool {
        &&& self.session_prompt_tokens + u.prompt_tokens <= u64::MAX
        &&& self.session_completion_tokens + u.completion_tokens <= u64::MAX
        &&& u.total_tokens is None ==> u.prompt_tokens + u.completion_tokens <= u32::MAX
        &&& self.session_total_tokens + usage_total(u) <= u64::MAX
        &&& u.cache_hit_tokens matches Some(c) ==> self.session_cache_hit_tokens + c <= u64::MAX
        &&& u.reasoning_tokens matches Some(r) ==> self.session_reasoning_tokens + r <= u64::MAX
    }

    /// Fold one call's usage into the session totals. The total uses the
    /// provider's `total_tokens` when reported, else prompt + completion.
    pub fn record_usage(&mut self, usage: LLMUsage)
        requires
            old(self).can_record(usage),
        ensures
            *final(self) == record_usage_spec(*old(self), usage),
    {
        self.session_prompt_tokens = self.session_prompt_tokens + usage.prompt_tokens as u64;
        self.session_completion_tokens = self.session_completion_tokens + usage.completion_tokens as u64;
        let t: u32 = match usage.total_tokens {
            Some(t) => t,
            None => usage.prompt_tokens + usage.completion_tokens,
        };
        self.session_total_tokens = self.session_total_tokens + t as u64;
        if let Some(c) = usage.cache_hit_tokens {
            self.session_cache_hit_tokens = self.session_cache_hit_tokens + c as u64;
        }
        if let Some(r) = usage.reasoning_tokens {
            self.session_reasoning_tokens = self.session_reasoning_tokens + r as u64;
        }
    }

    /// Prompt plus completion tokens of the session.
    pub fn session_total_llm_tokens(&self) -> (t: u64)
        requires
            self.session_prompt_tokens + self.session_completion_tokens <= u64::MAX,
        ensures
            t == self.session_prompt_tokens + self.session_completion_tokens,
    {
        self.session_prompt_tokens + self.session_completion_tokens
    }
}

/// Recording usage never lowers a session total, and raises the prompt and
/// completion totals by exactly the reported counts.
pub proof fn law_record_usage_accumulates(s: SessionTokens, u: LLMUsage)
    requires
        s.can_record(u),
    ensures
        record_usage_spec(s, u).session_prompt_tokens == s.session_prompt_tokens + u.prompt_tokens,
        record_usage_spec(s, u).session_completion_tokens == s.session_completion_tokens
            + u.completion_tokens,
        record_usage_spec(s, u).session_total_tokens >= s.session_total_tokens,
        record_usage_spec(s, u).session_cache_hit_tokens >= s.session_cache_hit_tokens,
        record_usage_spec(s, u).session_reasoning_tokens >= s.session_reasoning_tokens,
{
}

/// Heuristic split of projected context tokens by source.
#[derive(Debug, Clone, Copy)]
pub struct ContextBreakdown {
    pub system: u64,
    pub tools: u64,
    pub messages: u64,
}

impl ContextBreakdown {
    pub fn total(&self) -> (t: u64)
        requires
            self.system + self.tools + self.messages <= u64::MAX,
        ensures
            t == self.system + self.tools + self.messages,
    {
        self.system + self.tools + self.messages
    }
}

/// An incremental piece of assistant text.
#[derive(Debug, Clone)]
pub struct AssistantTextEvent {
    pub content: String,
}

/// A user message entered the conversation.
#[derive(Debug, Clone)]
pub struct UserMessageEvent {
    pub content: String,
    pub message_id: String,
}

/// The final assistant message of a turn.
#[derive(Debug, Clone)]
pub struct AssistantEvent {
    pub content: String,
    pub stopped_by_middleware: bool,
    pub message_id: Option<String>,
}

/// Output streamed by a running tool.
#[derive(Debug, Clone)]
pub struct ToolStreamEvent {
    pub tool_name: String,
    pub message: String,
    pub tool_call_id: String,
}

/// Compaction started.
#[derive(Debug, Clone, Copy)]
pub struct CompactStartEvent {
    pub old_token_count: u64,
}

/// Compaction finished with a summary.
#[derive(Debug, Clone)]
pub struct CompactEndEvent {
    pub new_token_count: u64,
    pub summary: String,
}

/// Reasoning text produced by the model.
#[derive(Debug, Clone)]
pub struct ReasoningEvent {
    pub content: String,
}

/// Who launched the agent.
#[derive(Debug, Clone)]
pub struct EntrypointMetadata {
    pub agent_entrypoint: String,
    pub agent_version: String,
    pub client_name: String,
    pub client_version: String,
}

/// Identity of a session and its client.
#[derive(Debug, Clone)]
pub struct SessionMetadata {
    pub session_id: String,
    pub agent_entrypoint: String,
    pub agent_version: String,
    pub client_name: String,
    pub client_version: String,
}

/// Name and version of a client.
#[derive(Debug, Clone)]
pub struct ClientMetadata {
    pub name: String,
    pub version: String,
}

/// Output format of a non-interactive run.
#[derive(Debug, Clone, Copy, PartialEq, Eq, Structural)]
pub enum OutputFormat {
    Text,
    Json,
    Streaming,
}

} // verus!
