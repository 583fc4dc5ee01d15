//! DeepSeek's Responses API: how a conversation becomes the request's typed
//! input items and instructions, how a whole response becomes one chunk,
//! and how the semantic events of a streamed response become chunks.

use vstd::prelude::*;
use crate::chat_stream::{bare_assistant, opt_text, shows, Piece};
use crate::config::ModelConfig;
use crate::error::ArrowError;
use crate::llm::{reasoning_effort, responses_usage, responses_usage_spec, DeepSeekResponsesUsage};
use crate::text::{concat_str, same_text};
use crate::types::{FunctionCall, LLMChunk, LLMMessage, LLMUsage, Role, ToolCall};

verus! {

/// An item of a Responses-API request.
#[derive(Debug)]
pub enum InputItem {
    /// A message of `role` holding one text part.
    Message { role: String, text: String },
    FunctionCall { call_id: String, name: String, arguments: String },
    FunctionCallOutput { call_id: String, output: String },
}

/// An input item as text.
pub enum ItemView {
    Message(Seq<char>, Seq<char>),
    FunctionCall(Seq<char>, Seq<char>, Seq<char>),
    FunctionCallOutput(Seq<char>, Seq<char>),
}

pub open spec fn item_view(i: InputItem) -> ItemView {
    match i {
        InputItem::Message { role, text } => ItemView::Message(role@, text@),
        InputItem::FunctionCall { call_id, name, arguments } => ItemView::FunctionCall(
            call_id@,
            name@,
            arguments@,
        ),
        InputItem::FunctionCallOutput { call_id, output } => ItemView::FunctionCallOutput(call_id@, output@),
    }
}

pub open spec fn items_view(v: Seq<InputItem>) -> Seq<ItemView> {
    v.map_values(|i: InputItem| item_view(i))
}

pub open spec fn text_or_empty(o: Option<String>) -> Seq<char> {
    match o {
        Some(s) => s@,
        None => Seq::empty(),
    }
}

/// The instructions, the items so far, and the calls of the last assistant
/// message, which wait to be placed until the next assistant message or
/// the end.
pub struct InputState {
    pub instructions: Option<Seq<char>>,
    pub input: Seq<ItemView>,
    pub pending: Seq<ItemView>,
}

/// The function-call items of an assistant message's calls.
pub open spec fn call_items(calls: Seq<ToolCall>) -> Seq<ItemView> {
    calls.map_values(
        |c: ToolCall|
            ItemView::FunctionCall(text_or_empty(c.id), c.function.name@, c.function.arguments@),
    )
}

/// One message's effect: the first system message with text gives the
/// instructions; a user message and a tool result become items; an
/// assistant message first places the waiting calls, then leaves its own
/// calls waiting, or, without calls, becomes an item.
pub open spec fn input_step(st: InputState, m: LLMMessage) -> InputState {
    match m.role {
        Role::System => if st.instructions is None {
            InputState { instructions: opt_text(m.content), ..st }
        } else {
            st
        },
        Role::User => InputState {
            input: st.input.push(ItemView::Message("user"@, text_or_empty(m.content))),
            ..st
        },
        Role::Assistant => {
            let placed = st.input + st.pending;
            match m.tool_calls {
                Some(calls) => InputState { input: placed, pending: call_items(calls@), ..st },
                None => InputState {
                    input: placed.push(ItemView::Message("assistant"@, text_or_empty(m.content))),
                    pending: Seq::empty(),
                    ..st
                },
            }
        },
        Role::Tool => InputState {
            input: st.input.push(
                ItemView::FunctionCallOutput(text_or_empty(m.tool_call_id), text_or_empty(m.content)),
            ),
            ..st
        },
    }
}

pub open spec fn input_fold(ms: Seq<LLMMessage>) -> InputState
    decreases ms.len(),
{
    if ms.len() == 0 {
        InputState { instructions: None, input: Seq::empty(), pending: Seq::empty() }
    } else {
        input_step(input_fold(ms.drop_last()), ms.last())
    }
}

fn owned_or_empty(o: &Option<String>) -> (s: String)
    ensures
        s@ == text_or_empty(*o),
{
    match o {
        Some(x) => x.clone(),
        None => String::new(),
    }
}

/// The instructions and input items of a conversation: the calls still
/// waiting at the end are placed last.
pub fn responses_input(messages: &Vec<LLMMessage>) -> (r: (Option<String>, Vec<InputItem>))
    ensures
        opt_text(r.0) == input_fold(messages@).instructions,
        items_view(r.1@) == input_fold(messages@).input + input_fold(messages@).pending,
{
    let mut instructions: Option<String> = None;
    let mut input: Vec<InputItem> = Vec::new();
    let mut pending: Vec<InputItem> = Vec::new();
    let mut i: usize = 0;
    while i < messages.len()
        invariant
            i <= messages.len(),
            opt_text(instructions) == input_fold(messages@.take(i as int)).instructions,
            items_view(input@) == input_fold(messages@.take(i as int)).input,
            items_view(pending@) == input_fold(messages@.take(i as int)).pending,
        decreases messages.len() - i,
    {
        let m = &messages[i];
        proof {
            assert(messages@.take(i + 1).drop_last() =~= messages@.take(i as int));
        }
        let ghost in0 = items_view(input@);
        let ghost pe0 = items_view(pending@);
        match m.role {
            Role::System => {
                if instructions.is_none() {
                    instructions = match &m.content {
                        Some(c) => Some(c.clone()),
                        None => None,
                    };
                }
            },
            Role::User => {
                input.push(InputItem::Message { role: String::from_str("user"), text: owned_or_empty(&m.content) });
                proof {
                    assert(items_view(input@) =~= in0.push(ItemView::Message("user"@, text_or_empty(m.content))));
                }
            },
            Role::Assistant => {
                input.append(&mut pending);
                proof {
                    assert(items_view(input@) =~= in0 + pe0);
                }
                let ghost placed = items_view(input@);
                match &m.tool_calls {
                    Some(calls) => {
                        let mut k: usize = 0;
                        while k < calls.len()
                            invariant
                                k <= calls.len(),
                                items_view(pending@) == call_items(calls@.take(k as int)),
                            decreases calls.len() - k,
                        {
                            let c = &calls[k];
                            let item = InputItem::FunctionCall {
                                call_id: owned_or_empty(&c.id),
                                name: c.function.name.clone(),
                                arguments: c.function.arguments.clone(),
                            };
                            let ghost prev = items_view(pending@);
                            pending.push(item);
                            k = k + 1;
                            proof {
                                assert(items_view(pending@) =~= prev.push(item_view(item)));
                                assert(call_items(calls@.take(k as int)) =~= call_items(calls@.take(k - 1)).push(
                                    item_view(item),
                                ));
                            }
                        }
                        proof {
                            assert(calls@.take(calls.len() as int) =~= calls@);
                        }
                    },
                    None => {
                        input.push(
                            InputItem::Message {
                                role: String::from_str("assistant"),
                                text: owned_or_empty(&m.content),
                            },
                        );
                        proof {
                            assert(items_view(input@) =~= placed.push(
                                ItemView::Message("assistant"@, text_or_empty(m.content)),
                            ));
                            assert(items_view(pending@) =~= Seq::<ItemView>::empty());
                        }
                    },
                }
            },
            Role::Tool => {
                input.push(
                    InputItem::FunctionCallOutput {
                        call_id: owned_or_empty(&m.tool_call_id),
                        output: owned_or_empty(&m.content),
                    },
                );
                proof {
                    assert(items_view(input@) =~= in0.push(
                        ItemView::FunctionCallOutput(text_or_empty(m.tool_call_id), text_or_empty(m.content)),
                    ));
                }
            },
        }
        i = i + 1;
    }
    proof {
        assert(messages@.take(messages.len() as int) =~= messages@);
    }
    let ghost in0 = items_view(input@);
    let ghost pe0 = items_view(pending@);
    input.append(&mut pending);
    proof {
        assert(items_view(input@) =~= in0 + pe0);
    }
    (instructions, input)
}

/// The reasoning setting of a Responses-API request: the model's effort
/// when it sets `thinking`, none otherwise; an unsupported effort is an
/// error either way.
pub fn responses_reasoning(model: &ModelConfig) -> (r: Result<Option<String>, ArrowError>)
    ensures
        match r {
            Ok(o) => reasoning_effort_result(model, o),
            Err(e) => reasoning_effort_error(model, e),
        },
{
    let effort = match reasoning_effort(model) {
        Ok(e) => e,
        Err(e) => return Err(e),
    };
    if model.thinking.is_none() {
        Ok(None)
    } else {
        Ok(Some(effort))
    }
}

pub open spec fn reasoning_effort_result(model: &ModelConfig, o: Option<String>) -> bool {
    let e = crate::llm::deepseek_effort(crate::config::opt_view(model.reasoning_effort));
    &&& crate::llm::deepseek_effort_ok(e)
    &&& match o {
        Some(s) => model.thinking is Some && s@ == e,
        None => model.thinking is None,
    }
}

pub open spec fn reasoning_effort_error(model: &ModelConfig, err: ArrowError) -> bool {
    let e = crate::llm::deepseek_effort(crate::config::opt_view(model.reasoning_effort));
    &&& !crate::llm::deepseek_effort_ok(e)
    &&& err matches ArrowError::Config(m) && m@ == "DeepSeek does not support reasoning effort `"@ + e
        + "`; allowed values are `off`, `high`, `max`"@
}

/// An item of a whole response.
#[derive(Debug)]
pub enum OutputItem {
    /// A message: the texts of its parts.
    Message { texts: Vec<Option<String>> },
    /// Reasoning: the texts of its summary parts.
    Reasoning { summary: Option<Vec<Option<String>>> },
    FunctionCall { call_id: Option<String>, id: Option<String>, name: String, arguments: String },
}

/// The texts present among `parts`, joined.
pub open spec fn joined_parts(parts: Seq<Option<String>>) -> Seq<char>
    decreases parts.len(),
{
    if parts.len() == 0 {
        Seq::empty()
    } else {
        joined_parts(parts.drop_last()) + text_or_empty(parts.last())
    }
}

/// The text of a response's message items, in order.
pub open spec fn output_text(items: Seq<OutputItem>) -> Seq<char>
    decreases items.len(),
{
    if items.len() == 0 {
        Seq::empty()
    } else {
        output_text(items.drop_last()) + match items.last() {
            OutputItem::Message { texts } => joined_parts(texts@),
            _ => Seq::empty(),
        }
    }
}

/// The text of a response's reasoning summaries, in order.
pub open spec fn output_reasoning(items: Seq<OutputItem>) -> Seq<char>
    decreases items.len(),
{
    if items.len() == 0 {
        Seq::empty()
    } else {
        output_reasoning(items.drop_last()) + match items.last() {
            OutputItem::Reasoning { summary } => match summary {
                Some(ps) => joined_parts(ps@),
                None => Seq::empty(),
            },
            _ => Seq::empty(),
        }
    }
}

/// A call of a response as a tool call: its call id, else its item id.
pub open spec fn call_of(call_id: Option<String>, id: Option<String>, name: String, arguments: String, c: ToolCall) -> bool {
    &&& c.id == match call_id {
        Some(x) => Some(x),
        None => id,
    }
    &&& c.index is None
    &&& c.function.name == name
    &&& c.function.arguments == arguments
    &&& c.call_type matches Some(t) && t@ == "function"@
}

/// The calls of a response's function-call items, in order.
pub open spec fn output_calls(items: Seq<OutputItem>, calls: Seq<ToolCall>) -> bool
    decreases items.len(),
{
    if items.len() == 0 {
        calls.len() == 0
    } else {
        match items.last() {
            OutputItem::FunctionCall { call_id, id, name, arguments } => calls.len() > 0 && output_calls(
                items.drop_last(),
                calls.drop_last(),
            ) && call_of(call_id, id, name, arguments, calls.last()),
            _ => output_calls(items.drop_last(), calls),
        }
    }
}

fn append_parts(acc: &mut String, parts: &Vec<Option<String>>)
    ensures
        final(acc)@ == old(acc)@ + joined_parts(parts@),
{
    let ghost start = acc@;
    let mut i: usize = 0;
    while i < parts.len()
        invariant
            i <= parts.len(),
            acc@ == start + joined_parts(parts@.take(i as int)),
        decreases parts.len() - i,
    {
        proof {
            assert(parts@.take(i + 1).drop_last() =~= parts@.take(i as int));
        }
        match &parts[i] {
            Some(t) => {
                *acc = concat_str(acc.as_str(), t.as_str());
            },
            None => {},
        }
        i = i + 1;
        proof {
            assert(acc@ =~= start + joined_parts(parts@.take(i as int)));
        }
    }
    proof {
        assert(parts@.take(parts.len() as int) =~= parts@);
    }
}

/// A whole response as one chunk: the text of its messages, its reasoning
/// when there is any, its calls when there are any, its usage, and finish
/// reason `completed`.
pub fn responses_reply(output: &Vec<OutputItem>, usage: Option<DeepSeekResponsesUsage>) -> (c: LLMChunk)
    requires
        usage matches Some(u) ==> u.input_tokens + u.output_tokens <= u32::MAX,
    ensures
        bare_assistant(c.message),
        c.message.content matches Some(t) && t@ == output_text(output@),
        opt_text(c.message.reasoning_content) == if output_reasoning(output@).len() == 0 {
            None
        } else {
            Some(output_reasoning(output@))
        },
        match c.message.tool_calls {
            Some(v) => v@.len() > 0 && output_calls(output@, v@),
            None => output_calls(output@, Seq::empty()),
        },
        c.usage == match usage {
            Some(u) => Some(responses_usage_spec(u)),
            None => None::<LLMUsage>,
        },
        c.finish_reason matches Some(f) && f@ == "completed"@,
        !c.stream_interrupted,
{
    let mut text = String::new();
    let mut reasoning = String::new();
    let mut calls: Vec<ToolCall> = Vec::new();
    let mut i: usize = 0;
    while i < output.len()
        invariant
            i <= output.len(),
            text@ == output_text(output@.take(i as int)),
            reasoning@ == output_reasoning(output@.take(i as int)),
            output_calls(output@.take(i as int), calls@),
        decreases output.len() - i,
    {
        proof {
            assert(output@.take(i + 1).drop_last() =~= output@.take(i as int));
        }
        let ghost calls0 = calls@;
        match &output[i] {
            OutputItem::Message { texts } => {
                append_parts(&mut text, texts);
            },
            OutputItem::Reasoning { summary } => {
                match summary {
                    Some(ps) => append_parts(&mut reasoning, ps),
                    None => {
                        proof {
                            assert(reasoning@ + Seq::<char>::empty() =~= reasoning@);
                        }
                    },
                }
            },
            OutputItem::FunctionCall { call_id, id, name, arguments } => {
                let cid = match call_id {
                    Some(x) => Some(x.clone()),
                    None => match id {
                        Some(y) => Some(y.clone()),
                        None => None,
                    },
                };
                calls.push(
                    ToolCall {
                        id: cid,
                        index: None,
                        function: FunctionCall { name: name.clone(), arguments: arguments.clone() },
                        call_type: Some(String::from_str("function")),
                    },
                );
                proof {
                    assert(calls@.drop_last() =~= calls0);
                }
            },
        }
        i = i + 1;
        proof {
            match output@[i - 1] {
                OutputItem::Message { .. } => {
                    assert(reasoning@ + Seq::<char>::empty() =~= reasoning@);
                },
                OutputItem::Reasoning { .. } => {
                    assert(text@ + Seq::<char>::empty() =~= text@);
                },
                OutputItem::FunctionCall { .. } => {
                    assert(text@ + Seq::<char>::empty() =~= text@);
                    assert(reasoning@ + Seq::<char>::empty() =~= reasoning@);
                },
            }
        }
    }
    proof {
        assert(output@.take(output.len() as int) =~= output@);
        assert(output_calls(output@, calls@));
    }
    let ghost cv = calls@;
    let mut m = LLMMessage::assistant(text);
    m.reasoning_content = if reasoning.as_str().is_empty() {
        None
    } else {
        Some(reasoning)
    };
    if calls.len() > 0 {
        m.tool_calls = Some(calls);
    } else {
        proof {
            assert(cv =~= Seq::<ToolCall>::empty());
        }
    }
    let u: Option<LLMUsage> = match usage {
        Some(x) => Some(responses_usage(x)),
        None => None,
    };
    LLMChunk::with_finish_reason(m, u, String::from_str("completed"))
}

/// The item a streamed event names.
#[derive(Debug)]
pub struct StreamItem {
    pub id: Option<String>,
    pub call_id: Option<String>,
    pub name: Option<String>,
}

/// One event of a streamed response: its type, its delta, the item it
/// names, and, for the completion event, the response's usage and status.
#[derive(Debug)]
pub struct ResponseEvent {
    pub event_type: String,
    pub delta: Option<String>,
    pub item: Option<StreamItem>,
    pub usage: Option<DeepSeekResponsesUsage>,
    pub status: Option<String>,
}

/// The function call being streamed: ids, name, arguments so far, and
/// whether one was announced.
pub type CallState = (Option<Seq<char>>, Option<Seq<char>>, Option<Seq<char>>, Seq<char>, bool);

/// The state of a streamed response.
#[derive(Debug)]
pub struct ResponsesStream {
    fn_id: Option<String>,
    fn_call_id: Option<String>,
    fn_name: Option<String>,
    fn_args: String,
    fn_open: bool,
}

/// The kinds of streamed events the stream acts on.
pub enum EventKind {
    ItemAdded,
    TextDelta,
    ReasoningDelta,
    ArgumentsDelta,
    Completed,
    Other,
}

pub open spec fn event_kind(t: Seq<char>) -> EventKind {
    if t == "response.output_item.added"@ {
        EventKind::ItemAdded
    } else if t == "response.output_text.delta"@ {
        EventKind::TextDelta
    } else if t == "response.reasoning_text.delta"@ {
        EventKind::ReasoningDelta
    } else if t == "response.function_call_arguments.delta"@ {
        EventKind::ArgumentsDelta
    } else if t == "response.completed"@ {
        EventKind::Completed
    } else {
        EventKind::Other
    }
}

/// The state after an event: an announced function call starts afresh, an
/// arguments delta extends it; other events leave it.
pub open spec fn next_call_state(st: CallState, e: ResponseEvent) -> CallState {
    match event_kind(e.event_type@) {
        EventKind::ItemAdded => match e.item {
            Some(it) => if it.call_id is Some || it.name is Some {
                (opt_text(it.id), opt_text(it.call_id), opt_text(it.name), Seq::empty(), true)
            } else {
                st
            },
            None => st,
        },
        EventKind::ArgumentsDelta => match e.delta {
            Some(d) => (st.0, st.1, st.2, st.3 + d@, st.4),
            None => st,
        },
        _ => st,
    }
}

/// The chunk that ends a streamed response: no text, the announced call
/// (its call id, else its item id; its name, or empty; its arguments) when
/// there is one, the usage, and the status, or `completed`.
pub open spec fn shows_completion(c: LLMChunk, st: CallState, e: ResponseEvent) -> bool {
    &&& bare_assistant(c.message)
    &&& c.message.content is None
    &&& c.message.reasoning_content is None
    &&& if st.4 {
        c.message.tool_calls matches Some(v) && v@.len() == 1 && ({
            let k = v@[0];
            &&& opt_text(k.id) == match st.1 {
                Some(x) => Some(x),
                None => st.0,
            }
            &&& k.index is None
            &&& k.function.name@ == match st.2 {
                Some(n) => n,
                None => Seq::empty(),
            }
            &&& k.function.arguments@ == st.3
            &&& k.call_type matches Some(t) && t@ == "function"@
        })
    } else {
        c.message.tool_calls is None
    }
    &&& c.usage == match e.usage {
        Some(u) => Some(responses_usage_spec(u)),
        None => None::<LLMUsage>,
    }
    &&& c.finish_reason matches Some(f) && f@ == match e.status {
        Some(x) => x@,
        None => "completed"@,
    }
    &&& !c.stream_interrupted
}

/// What an event shows: a text or reasoning delta as a chunk, the
/// completion as the final chunk, nothing otherwise.
pub open spec fn event_shows(r: Option<LLMChunk>, st: CallState, e: ResponseEvent) -> bool {
    match event_kind(e.event_type@) {
        EventKind::TextDelta => match e.delta {
            Some(d) => r matches Some(c) && shows(c, Piece::Text(d@)),
            None => r is None,
        },
        EventKind::ReasoningDelta => match e.delta {
            Some(d) => r matches Some(c) && shows(c, Piece::Reasoning(d@)),
            None => r is None,
        },
        EventKind::Completed => r matches Some(c) && shows_completion(c, st, e),
        _ => r is None,
    }
}

impl ResponsesStream {
    pub closed spec fn state(&self) -> CallState {
        (opt_text(self.fn_id), opt_text(self.fn_call_id), opt_text(self.fn_name), self.fn_args@, self.fn_open)
    }

    pub fn new() -> (s: Self)
        ensures
            s.state() == (None::<Seq<char>>, None::<Seq<char>>, None::<Seq<char>>, Seq::<char>::empty(), false),
    {
        ResponsesStream { fn_id: None, fn_call_id: None, fn_name: None, fn_args: String::new(), fn_open: false }
    }

    /// Take in one event of the stream.
    pub fn absorb(&mut self, event: ResponseEvent) -> (r: Option<LLMChunk>)
        requires
            event.usage matches Some(u) ==> u.input_tokens + u.output_tokens <= u32::MAX,
        ensures
            final(self).state() == next_call_state(old(self).state(), event),
            event_shows(r, old(self).state(), event),
    {
        proof {
            reveal_strlit("response.output_item.added");
            reveal_strlit("response.output_text.delta");
            reveal_strlit("response.reasoning_text.delta");
            reveal_strlit("response.function_call_arguments.delta");
            reveal_strlit("response.completed");
        }
        let ResponseEvent { event_type, delta, item, usage, status } = event;
        let t = event_type.as_str();
        if same_text(t, "response.output_item.added") {
            match item {
                Some(it) => {
                    if it.call_id.is_some() || it.name.is_some() {
                        self.fn_id = it.id;
                        self.fn_call_id = it.call_id;
                        self.fn_name = it.name;
                        self.fn_args = String::new();
                        self.fn_open = true;
                    }
                },
                None => {},
            }
            None
        } else if same_text(t, "response.output_text.delta") {
            match delta {
                Some(d) => Some(LLMChunk::new(LLMMessage::assistant(d), None)),
                None => None,
            }
        } else if same_text(t, "response.reasoning_text.delta") {
            match delta {
                Some(d) => {
                    let mut m = LLMMessage::assistant(String::new());
                    m.content = None;
                    m.reasoning_content = Some(d);
                    Some(LLMChunk::new(m, None))
                },
                None => None,
            }
        } else if same_text(t, "response.function_call_arguments.delta") {
            match delta {
                Some(d) => {
                    self.fn_args = concat_str(self.fn_args.as_str(), d.as_str());
                },
                None => {},
            }
            None
        } else if same_text(t, "response.completed") {
            let u: Option<LLMUsage> = match usage {
                Some(x) => Some(responses_usage(x)),
                None => None,
            };
            let mut m = LLMMessage::assistant(String::new());
            m.content = None;
            m.reasoning_content = None;
            if self.fn_open {
                let id = match &self.fn_call_id {
                    Some(x) => Some(x.clone()),
                    None => match &self.fn_id {
                        Some(y) => Some(y.clone()),
                        None => None,
                    },
                };
                let name = match &self.fn_name {
                    Some(n) => n.clone(),
                    None => String::new(),
                };
                let mut v: Vec<ToolCall> = Vec::new();
                v.push(
                    ToolCall {
                        id,
                        index: None,
                        function: FunctionCall { name, arguments: self.fn_args.clone() },
                        call_type: Some(String::from_str("function")),
                    },
                );
                m.tool_calls = Some(v);
            }
            let f = match status {
                Some(x) => x,
                None => String::from_str("completed"),
            };
            Some(LLMChunk::with_finish_reason(m, u, f))
        } else {
            None
        }
    }
}

} // verus!
