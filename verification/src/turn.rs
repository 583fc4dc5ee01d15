//! The decisions of one agent turn.
//!
//! A turn alternates model calls, tool runs and waits on the user; the host
//! performs those and hands back what happened, and the functions here decide
//! what comes next: how the middleware answer opens the turn, how streamed
//! chunks build the reply, what an interrupted stream leads to, and which
//! checks a tool call passes before it runs.

use vstd::prelude::*;
use crate::agent::{degrade_request, degraded, MAX_STREAM_RETRIES};
use crate::config::{opt_view, ModelConfig};
use crate::middleware::{MiddlewareAction, MiddlewareResult};
use crate::text::{all_ws, chars_of, concat_str, decimal, decimal_string, is_blank, same_text, strings_view};
use crate::tui_app::{ApprovalResponse, ApprovalType};
use crate::estimate::{estimate_spec, estimate_tokens};
use crate::types::{LLMChunk, LLMMessage, LLMUsage, Role, SessionTokens, ToolCall};

verus! {

/// How the middleware answer opens a turn.
#[derive(Debug, Clone)]
pub enum TurnOpening {
    /// End the turn with this error.
    Fail(String),
    /// Add this system message, then call the model.
    Inject(String),
    /// Compact the context, recording this old token count, then call the model.
    Compact(u64),
    /// Call the model.
    Proceed,
}

/// The opening of a turn after the middlewares answered `r`: a stop fails
/// the turn with its reason (or a default one), an injection adds its
/// message when there is one, a compaction is run with the recorded token
/// count (0 when none was recorded), and anything else proceeds.
pub fn open_turn(r: &MiddlewareResult) -> (o: TurnOpening)
    ensures
        r.action == MiddlewareAction::Stop ==> (o matches TurnOpening::Fail(m) && m@ == match r.reason {
            Some(x) => x@,
            None => "Middleware stopped the turn."@,
        }),
        r.action == MiddlewareAction::InjectMessage ==> match r.message {
            Some(x) => o matches TurnOpening::Inject(m) && m == x,
            None => o is Proceed,
        },
        r.action == MiddlewareAction::Compact ==> (o matches TurnOpening::Compact(n) && n == match r.old_tokens {
            Some(t) => t,
            None => 0,
        }),
        r.action == MiddlewareAction::Continue ==> o is Proceed,
{
    match r.action {
        MiddlewareAction::Stop => match &r.reason {
            Some(x) => TurnOpening::Fail(x.clone()),
            None => TurnOpening::Fail(String::from_str("Middleware stopped the turn.")),
        },
        MiddlewareAction::InjectMessage => match &r.message {
            Some(x) => TurnOpening::Inject(x.clone()),
            None => TurnOpening::Proceed,
        },
        MiddlewareAction::Compact => TurnOpening::Compact(
            match r.old_tokens {
                Some(t) => t,
                None => 0,
            },
        ),
        MiddlewareAction::Continue => TurnOpening::Proceed,
    }
}

/// The error ending a turn whose compaction failed with `err`.
pub fn compaction_failure(err: &str) -> (m: String)
    ensures
        m@ == "Context compaction failed: "@ + err@,
{
    concat_str("Context compaction failed: ", err)
}

/// The error ending a turn whose model call failed with `err`.
pub fn llm_failure(err: &str) -> (m: String)
    ensures
        m@ == "LLM error: "@ + err@,
{
    concat_str("LLM error: ", err)
}

/// Whether a reply cut by its output cap (`finish_reason` `length`) calls
/// for a compaction before the loop goes on.
pub fn truncated_by_length(finish_reason: &Option<String>) -> (b: bool)
    ensures
        b == (opt_view(*finish_reason) == Some("length"@)),
{
    match finish_reason {
        Some(f) => same_text(f.as_str(), "length"),
        None => false,
    }
}

/// Whether a reply asks for tools: it carries a non-empty list of calls.
pub fn wants_tools(calls: &Option<Vec<ToolCall>>) -> (b: bool)
    ensures
        b == (calls matches Some(v) && v@.len() > 0),
{
    match calls {
        Some(v) => v.len() > 0,
        None => false,
    }
}

/// The reasoning to show as its own block: the reply's reasoning unless it
/// is absent or blank.
pub fn surfaced_reasoning(reasoning: &Option<String>) -> (r: Option<String>)
    ensures
        match *reasoning {
            Some(x) => if all_ws(x@) { r is None } else { r == Some(x) },
            None => r is None,
        },
{
    match reasoning {
        Some(x) => {
            let cs = chars_of(x.as_str());
            if is_blank(cs.as_slice()) {
                None
            } else {
                Some(x.clone())
            }
        },
        None => None,
    }
}

/// The id of the tool call at `index`: its own id, else `call-<index>`.
pub fn tool_call_id(id: &Option<String>, index: usize) -> (s: String)
    ensures
        s@ == match *id {
            Some(x) => x@,
            None => "call-"@ + decimal(index as nat),
        },
{
    match id {
        Some(x) => x.clone(),
        None => {
            let n = decimal_string(index as u64);
            concat_str("call-", n.as_str())
        },
    }
}

/// A tool call as text: id, stream index, name, arguments, wire type.
pub type CallView = (Option<Seq<char>>, Option<usize>, Seq<char>, Seq<char>, Option<Seq<char>>);

pub open spec fn call_view(c: ToolCall) -> CallView {
    (opt_view(c.id), c.index, c.function.name@, c.function.arguments@, opt_view(c.call_type))
}

pub open spec fn calls_view(s: Seq<ToolCall>) -> Seq<CallView> {
    s.map_values(|c: ToolCall| call_view(c))
}

/// `i` is the first accumulated call with stream index `idx`.
pub open spec fn first_with_index(acc: Seq<CallView>, idx: Option<usize>, i: int) -> bool {
    &&& 0 <= i < acc.len()
    &&& acc[i].1 == idx
    &&& forall|j: int| 0 <= j < i ==> (#[trigger] acc[j]).1 != idx
}

/// A streamed delta `d` folded into the call it continues: a non-empty id
/// and a non-empty name replace the old ones, the arguments are appended.
pub open spec fn merged_into(old: CallView, d: CallView) -> CallView {
    (
        if d.0 matches Some(x) && x.len() > 0 { d.0 } else { old.0 },
        old.1,
        if d.2.len() > 0 { d.2 } else { old.2 },
        old.3 + d.3,
        old.4,
    )
}

/// The calls after delta `d`: folded into the first call with the same
/// stream index, or added as a new call.
pub open spec fn merge_call(acc: Seq<CallView>, d: CallView) -> Seq<CallView> {
    if exists|i: int| first_with_index(acc, d.1, i) {
        let i = choose|i: int| first_with_index(acc, d.1, i);
        acc.update(i, merged_into(acc[i], d))
    } else {
        acc.push(d)
    }
}

/// The calls after the deltas `ds`, in order.
pub open spec fn merge_calls(acc: Seq<CallView>, ds: Seq<CallView>) -> Seq<CallView>
    decreases ds.len(),
{
    if ds.len() == 0 {
        acc
    } else {
        merge_call(merge_calls(acc, ds.drop_last()), ds.last())
    }
}

proof fn lemma_first_with_index_unique(acc: Seq<CallView>, idx: Option<usize>, i: int, j: int)
    requires
        first_with_index(acc, idx, i),
        first_with_index(acc, idx, j),
    ensures
        i == j,
{
    if i < j {
        assert(acc[i].1 != idx);
    } else if j < i {
        assert(acc[j].1 != idx);
    }
}

fn merge_tool_call(acc: &mut Vec<ToolCall>, d: ToolCall)
    ensures
        calls_view(final(acc)@) == merge_call(calls_view(old(acc)@), call_view(d)),
{
    let ghost a = calls_view(acc@);
    let mut i: usize = 0;
    while i < acc.len()
        invariant
            *acc == *old(acc),
            a == calls_view(acc@),
            i <= acc@.len(),
            forall|j: int| 0 <= j < i ==> (#[trigger] a[j]).1 != d.index,
        decreases acc@.len() - i,
    {
        if acc[i].index == d.index {
            assert(first_with_index(a, d.index, i as int));
            let old_call = acc[i].clone();
            let id = match &d.id {
                Some(x) => if !x.as_str().is_empty() { Some(x.clone()) } else { old_call.id },
                None => old_call.id,
            };
            let name = if !d.function.name.as_str().is_empty() { d.function.name } else { old_call.function.name };
            let mut arguments = old_call.function.arguments;
            arguments.append(d.function.arguments.as_str());
            let merged = ToolCall {
                id,
                index: old_call.index,
                function: crate::types::FunctionCall { name, arguments },
                call_type: old_call.call_type,
            };
            assert(old_call == acc@[i as int]);
            assert(call_view(merged).0 == merged_into(a[i as int], call_view(d)).0);
            assert(call_view(merged).2 == merged_into(a[i as int], call_view(d)).2);
            assert(call_view(merged).3 == merged_into(a[i as int], call_view(d)).3);
            assert(call_view(merged) == merged_into(a[i as int], call_view(d)));
            acc.set(i, merged);
            proof {
                let k = choose|k: int| first_with_index(a, d.index, k);
                assert(first_with_index(a, call_view(d).1, i as int));
                lemma_first_with_index_unique(a, d.index, i as int, k);
                assert(merge_call(a, call_view(d)) == a.update(i as int, merged_into(a[i as int], call_view(d))));
                assert(calls_view(acc@) =~= a.update(i as int, merged_into(a[i as int], call_view(d))));
            }
            return;
        }
        i = i + 1;
    }
    acc.push(d);
    assert(calls_view(acc@) =~= a.push(call_view(d)));
}

/// The reply assembled from a model's stream.
#[derive(Debug)]
pub struct StreamReply {
    /// The reply text so far.
    pub content: String,
    /// The last text delta taken, to drop an identical repeat.
    pub last_text: Option<String>,
    /// The last reasoning delta taken, to drop an identical repeat.
    pub last_reasoning: Option<String>,
    pub has_tool_calls: bool,
    /// Tool calls assembled from their deltas.
    pub tool_calls: Vec<ToolCall>,
    pub usage: Option<LLMUsage>,
    pub finish_reason: Option<String>,
    /// The stream was cut before its terminator.
    pub interrupted: bool,
}

/// What a chunk hands to the interface as it arrives.
#[derive(Debug, Clone)]
pub struct ChunkOutput {
    pub text: Option<String>,
    pub reasoning: Option<String>,
}

/// `s` holds a non-empty string.
pub open spec fn non_empty(s: Option<String>) -> bool {
    s matches Some(x) && x@.len() > 0
}

/// The reply after a chunk that is not the interruption sentinel. A new
/// finish reason is kept. A text delta identical to the previous one is a
/// repeat: the rest of the chunk is dropped. Otherwise the text is appended;
/// then a reasoning delta identical to the previous one drops the rest of the
/// chunk; otherwise the tool-call deltas are merged and a reported usage
/// kept.
pub open spec fn absorbed(a: StreamReply, b: StreamReply, c: LLMChunk, out: ChunkOutput) -> bool {
    let text = c.message.content;
    let reasoning = c.message.reasoning_content;
    let fr = if c.finish_reason is Some { c.finish_reason } else { a.finish_reason };
    let text_repeat = non_empty(text) && opt_view(text) == opt_view(a.last_text);
    let content = if non_empty(text) { a.content@ + text.unwrap()@ } else { a.content@ };
    let last_text = if non_empty(text) { opt_view(text) } else { opt_view(a.last_text) };
    let reasoning_repeat = non_empty(reasoning) && opt_view(reasoning) == opt_view(a.last_reasoning);
    if text_repeat {
        &&& b == (StreamReply { finish_reason: fr, ..a })
        &&& out.text is None && out.reasoning is None
    } else if reasoning_repeat {
        &&& b.content@ == content && opt_view(b.last_text) == last_text
        &&& b.last_reasoning == a.last_reasoning
        &&& b.has_tool_calls == a.has_tool_calls && b.tool_calls == a.tool_calls
        &&& b.usage == a.usage && b.finish_reason == fr && !b.interrupted
        &&& out.text == if non_empty(text) { text } else { None }
        &&& out.reasoning is None
    } else {
        &&& b.content@ == content && opt_view(b.last_text) == last_text
        &&& b.last_reasoning == if non_empty(reasoning) { reasoning } else { a.last_reasoning }
        &&& b.has_tool_calls == (a.has_tool_calls || c.message.tool_calls is Some)
        &&& calls_view(b.tool_calls@) == match c.message.tool_calls {
            Some(ds) => merge_calls(calls_view(a.tool_calls@), calls_view(ds@)),
            None => calls_view(a.tool_calls@),
        }
        &&& b.usage == if c.usage is Some { c.usage } else { a.usage }
        &&& b.finish_reason == fr && !b.interrupted
        &&& out.text == if non_empty(text) { text } else { None }
        &&& out.reasoning == if non_empty(reasoning) { reasoning } else { None }
    }
}

fn opt_same(a: &Option<String>, b: &String) -> (r: bool)
    ensures
        r == (opt_view(*a) == Some(b@)),
{
    match a {
        Some(x) => same_text(x.as_str(), b.as_str()),
        None => false,
    }
}

impl StreamReply {
    /// Nothing received yet.
    pub fn new() -> (r: Self)
        ensures
            r.content@.len() == 0,
            r.last_text is None && r.last_reasoning is None,
            !r.has_tool_calls && r.tool_calls@.len() == 0,
            r.usage is None && r.finish_reason is None && !r.interrupted,
    {
        StreamReply {
            content: String::new(),
            last_text: None,
            last_reasoning: None,
            has_tool_calls: false,
            tool_calls: Vec::new(),
            usage: None,
            finish_reason: None,
            interrupted: false,
        }
    }

    /// Take in one chunk of the stream and say what to show of it. The
    /// interruption sentinel only marks the reply as cut; the host stops
    /// reading after it.
    pub fn absorb(&mut self, chunk: LLMChunk) -> (out: ChunkOutput)
        requires
            !old(self).interrupted,
        ensures
            chunk.stream_interrupted ==> *final(self) == (StreamReply { interrupted: true, ..*old(self) })
                && out.text is None && out.reasoning is None,
            !chunk.stream_interrupted ==> absorbed(*old(self), *final(self), chunk, out),
    {
        let none = ChunkOutput { text: None, reasoning: None };
        if chunk.stream_interrupted {
            self.interrupted = true;
            return none;
        }
        let ghost c0 = chunk;
        let LLMChunk { message, usage, finish_reason, .. } = chunk;
        if finish_reason.is_some() {
            self.finish_reason = finish_reason;
        }
        let mut out_text: Option<String> = None;
        match &message.content {
            Some(text) => {
                if !text.as_str().is_empty() {
                    if opt_same(&self.last_text, text) {
                        return none;
                    }
                    self.last_text = Some(text.clone());
                    self.content.append(text.as_str());
                    out_text = Some(text.clone());
                }
            },
            None => {},
        }
        let mut out_reasoning: Option<String> = None;
        match &message.reasoning_content {
            Some(r) => {
                if !r.as_str().is_empty() {
                    if opt_same(&self.last_reasoning, r) {
                        return ChunkOutput { text: out_text, reasoning: None };
                    }
                    self.last_reasoning = Some(r.clone());
                    out_reasoning = Some(r.clone());
                }
            },
            None => {},
        }
        match message.tool_calls {
            Some(ds) => {
                let ghost dv = calls_view(ds@);
                let ghost start = calls_view(self.tool_calls@);
                let ghost pre = *self;
                let mut k: usize = 0;
                while k < ds.len()
                    invariant
                        *self == (StreamReply { tool_calls: self.tool_calls, ..pre }),
                        k <= ds@.len(),
                        dv == calls_view(ds@),
                        calls_view(self.tool_calls@) == merge_calls(start, dv.take(k as int)),
                    decreases ds@.len() - k,
                {
                    let d = ds[k].clone();
                    merge_tool_call(&mut self.tool_calls, d);
                    assert(dv.take(k + 1).drop_last() =~= dv.take(k as int));
                    k = k + 1;
                }
                assert(dv.take(k as int) =~= dv);
                self.has_tool_calls = true;
            },
            None => {},
        }
        if usage.is_some() {
            self.usage = usage;
        }
        ChunkOutput { text: out_text, reasoning: out_reasoning }
    }
}

/// Whether `serde_json` reads `s` as a JSON value.
pub uninterp spec fn json_parses(s: Seq<char>) -> bool;

/// `serde_json::from_str::<serde_json::Value>(s).is_ok()`: whether `s` is one
/// JSON value, optionally surrounded by white space. Which strings those are
/// (the JSON grammar) is not stated here.
#[verifier::external_body]
pub(crate) fn parses_as_json(s: &str) -> (b: bool)
    ensures
        b == json_parses(s@),
{
    serde_json::from_str::<serde_json::Value>(s).is_ok()
}

/// A streamed tool call that can run: it has a name and non-blank
/// arguments that parse as JSON.
pub open spec fn call_complete(c: CallView) -> bool {
    c.2.len() > 0 && !all_ws(c.3) && json_parses(c.3)
}

/// Every assembled tool call of `r` can run, and there is at least one.
pub open spec fn calls_complete(r: StreamReply) -> bool {
    &&& r.has_tool_calls
    &&& r.tool_calls@.len() > 0
    &&& forall|i: int| 0 <= i < r.tool_calls@.len() ==> call_complete(#[trigger] calls_view(r.tool_calls@)[i])
}

/// What follows a stream cut before its terminator.
#[derive(Debug, Clone)]
pub enum AfterCut {
    /// The tool calls survived whole: run them.
    RunTools,
    /// Send the request again, as retry `attempt`, with this softened model.
    Retry { attempt: u32, model: ModelConfig },
    /// End the turn with this error.
    GiveUp(String),
}

/// The error ending a turn after `retries` interrupted attempts.
pub open spec fn give_up_message(retries: nat) -> Seq<char> {
    "Stream interrupted "@ + decimal(retries) + " time(s) without a complete response; giving up."@
}

/// Whether every call of `calls` can run.
fn all_calls_complete(calls: &Vec<ToolCall>) -> (b: bool)
    ensures
        b == forall|i: int| 0 <= i < calls@.len() ==> call_complete(#[trigger] calls_view(calls@)[i]),
{
    let mut i: usize = 0;
    while i < calls.len()
        invariant
            i <= calls@.len(),
            forall|k: int| 0 <= k < i ==> call_complete(#[trigger] calls_view(calls@)[k]),
        decreases calls@.len() - i,
    {
        let c = &calls[i];
        let args = chars_of(c.function.arguments.as_str());
        let ok = !c.function.name.as_str().is_empty() && !is_blank(args.as_slice())
            && parses_as_json(c.function.arguments.as_str());
        assert(calls_view(calls@)[i as int] == call_view(calls@[i as int]));
        if !ok {
            return false;
        }
        i = i + 1;
    }
    true
}

/// What to do after the stream of `reply` was cut, `retries` retries into
/// the turn: run the tool calls if they all survived whole; otherwise retry
/// with a softened request while retries remain and no stop was asked;
/// otherwise give up.
pub fn after_interruption(reply: &StreamReply, retries: u32, abort: bool, model: &ModelConfig) -> (d: AfterCut)
    requires
        retries <= MAX_STREAM_RETRIES,
    ensures
        calls_complete(*reply) ==> d is RunTools,
        !calls_complete(*reply) && retries < MAX_STREAM_RETRIES && !abort ==> (d matches AfterCut::Retry {
            attempt,
            model: m,
        } && attempt == retries + 1 && degraded(*model, attempt as int, m)),
        !calls_complete(*reply) && (retries == MAX_STREAM_RETRIES || abort) ==> (d matches AfterCut::GiveUp(e)
            && e@ == give_up_message(retries as nat)),
{
    if reply.has_tool_calls && reply.tool_calls.len() > 0 && all_calls_complete(&reply.tool_calls) {
        return AfterCut::RunTools;
    }
    if retries < MAX_STREAM_RETRIES && !abort {
        let attempt = retries + 1;
        let m = degrade_request(model, attempt);
        AfterCut::Retry { attempt, model: m }
    } else {
        let n = decimal_string(retries as u64);
        let a = concat_str("Stream interrupted ", n.as_str());
        AfterCut::GiveUp(concat_str(a.as_str(), " time(s) without a complete response; giving up."))
    }
}

/// What the tool pipeline's pre-hooks made of a call.
#[derive(Debug, Clone)]
pub enum PipelineFlow {
    /// No hook decided: go on to the permission check.
    Pass,
    /// A hook refused the call, with this reason.
    Deny(String),
    /// A hook ran the call itself; its output stands.
    Allow,
}

/// What the permission check made of a call.
#[derive(Debug, Clone)]
pub enum PermissionCheck {
    Allow,
    Deny(String),
    /// Ask the user.
    Confirm,
}

/// What the host has learned about a tool call.
#[derive(Debug, Clone)]
pub enum ToolCheck {
    /// The arguments were read (`parse_error` when they are not JSON) and a
    /// tool with the call's name was looked up.
    Args { parse_error: Option<String>, found: bool },
    Pipeline(PipelineFlow),
    Permission(PermissionCheck),
    /// The user's answer to a confirmation.
    Answer(ApprovalResponse, ApprovalType),
}

/// What the host does next with a tool call.
#[derive(Debug, Clone)]
pub enum ToolNext {
    /// Do not run it: this error is its result; `counted` says whether it
    /// counts as a failed tool call.
    Reject { error: String, counted: bool },
    RunPipeline,
    /// Take the output the pipeline produced.
    UsePipelineOutput,
    CheckPermission,
    AskUser,
    /// Run the tool; `remember` approves it for the rest of the session.
    Invoke { remember: bool },
}

/// The result handed to the model for a call whose arguments `name` could
/// not read.
pub open spec fn invalid_args_message(name: Seq<char>, err: Seq<char>) -> Seq<char> {
    "Invalid JSON arguments for tool '"@ + name + "': "@ + err
        + ". The 'arguments' field must be a single valid JSON object. Please re-generate the tool call with correct arguments."@
}

/// The next step for a call of tool `name` once `check` is known: bad
/// arguments and an unknown tool reject it; the pipeline may refuse it,
/// produce its output or pass it on to the permission check; the check
/// allows it, refuses it or asks the user; the user's yes runs it (and a
/// session-wide or permanent yes remembers the tool), a no rejects it.
pub fn next_tool_step(name: &str, check: ToolCheck) -> (n: ToolNext)
    ensures
        match check {
            ToolCheck::Args { parse_error, found } => match parse_error {
                Some(e) => n matches ToolNext::Reject { error, counted } && error@ == invalid_args_message(name@, e@)
                    && counted,
                None => if found {
                    n is RunPipeline
                } else {
                    n matches ToolNext::Reject { error, counted } && error@ == "Tool '"@ + name@ + "' not found"@
                        && !counted
                },
            },
            ToolCheck::Pipeline(f) => match f {
                PipelineFlow::Pass => n is CheckPermission,
                PipelineFlow::Deny(r) => n matches ToolNext::Reject { error, counted } && error == r && !counted,
                PipelineFlow::Allow => n is UsePipelineOutput,
            },
            ToolCheck::Permission(p) => match p {
                PermissionCheck::Allow => n matches ToolNext::Invoke { remember } && !remember,
                PermissionCheck::Deny(r) => n matches ToolNext::Reject { error, counted } && error@
                    == "Permission denied: "@ + r@ && counted,
                PermissionCheck::Confirm => n is AskUser,
            },
            ToolCheck::Answer(resp, kind) => if resp == ApprovalResponse::Yes {
                n matches ToolNext::Invoke { remember } && remember == (kind != ApprovalType::Once)
            } else {
                n matches ToolNext::Reject { error, counted } && error@ == "Tool invocation was not approved"@
                    && counted
            },
        },
{
    match check {
        ToolCheck::Args { parse_error, found } => match parse_error {
            Some(e) => {
                let a = concat_str("Invalid JSON arguments for tool '", name);
                let b = concat_str(a.as_str(), "': ");
                let c = concat_str(b.as_str(), e.as_str());
                let error = concat_str(
                    c.as_str(),
                    ". The 'arguments' field must be a single valid JSON object. Please re-generate the tool call with correct arguments.",
                );
                ToolNext::Reject { error, counted: true }
            },
            None => if found {
                ToolNext::RunPipeline
            } else {
                let a = concat_str("Tool '", name);
                ToolNext::Reject { error: concat_str(a.as_str(), "' not found"), counted: false }
            },
        },
        ToolCheck::Pipeline(f) => match f {
            PipelineFlow::Pass => ToolNext::CheckPermission,
            PipelineFlow::Deny(r) => ToolNext::Reject { error: r, counted: false },
            PipelineFlow::Allow => ToolNext::UsePipelineOutput,
        },
        ToolCheck::Permission(p) => match p {
            PermissionCheck::Allow => ToolNext::Invoke { remember: false },
            PermissionCheck::Deny(r) => ToolNext::Reject {
                error: concat_str("Permission denied: ", r.as_str()),
                counted: true,
            },
            PermissionCheck::Confirm => ToolNext::AskUser,
        },
        ToolCheck::Answer(resp, kind) => match resp {
            ApprovalResponse::Yes => ToolNext::Invoke {
                remember: match kind {
                    ApprovalType::Once => false,
                    _ => true,
                },
            },
            ApprovalResponse::No => ToolNext::Reject {
                error: String::from_str("Tool invocation was not approved"),
                counted: true,
            },
        },
    }
}

/// The messages sent to the model: all but the system messages, in order.
pub fn backend_messages(messages: Vec<LLMMessage>) -> (r: Vec<LLMMessage>)
    ensures
        r@ == messages@.filter(|m: LLMMessage| m.role != Role::System),
{
    let ghost orig = messages@;
    let ghost keep = |m: LLMMessage| m.role != Role::System;
    let mut rest = messages;
    let n = rest.len();
    let mut rev: Vec<LLMMessage> = Vec::new();
    while rest.len() > 0
        invariant
            rest@.len() + rev@.len() == n,
            n == orig.len(),
            forall|k: int| 0 <= k < rest@.len() ==> rest@[k] == orig[k],
            forall|k: int| 0 <= k < rev@.len() ==> rev@[k] == orig[n - 1 - k],
        decreases rest@.len(),
    {
        let m = rest.pop().unwrap();
        rev.push(m);
    }
    let mut out: Vec<LLMMessage> = Vec::new();
    let mut done: usize = 0;
    assert(orig.take(0) =~= Seq::<LLMMessage>::empty());
    while rev.len() > 0
        invariant
            done + rev@.len() == n,
            n == orig.len(),
            keep == (|m: LLMMessage| m.role != Role::System),
            forall|k: int| 0 <= k < rev@.len() ==> rev@[k] == orig[n - 1 - k],
            out@ == orig.take(done as int).filter(keep),
        decreases rev@.len(),
    {
        let m = rev.pop().unwrap();
        proof {
            reveal_with_fuel(Seq::filter, 1);
            assert(orig.take(done + 1).drop_last() =~= orig.take(done as int));
            assert(orig.take(done + 1).last() == m);
        }
        if m.role != Role::System {
            out.push(m);
        }
        done = done + 1;
    }
    assert(orig.take(done as int) =~= orig);
    out
}

/// The estimated tokens of the messages' contents (an absent content
/// counts as empty).
pub open spec fn content_tokens(ms: Seq<LLMMessage>) -> nat
    decreases ms.len(),
{
    if ms.len() == 0 {
        0
    } else {
        content_tokens(ms.drop_last()) + estimate_spec(
            match ms.last().content {
                Some(c) => c@,
                None => Seq::empty(),
            },
        )
    }
}

/// Each tool's name followed by its description, all run together.
pub open spec fn tools_text(ts: Seq<(String, String)>) -> Seq<char>
    decreases ts.len(),
{
    if ts.len() == 0 {
        Seq::empty()
    } else {
        tools_text(ts.drop_last()) + ts.last().0@ + ts.last().1@
    }
}

/// The tokens a request takes before the reply: the messages' contents and,
/// when tools are offered, their names and descriptions estimated as one
/// text.
pub open spec fn request_tokens_spec(ms: Seq<LLMMessage>, ts: Seq<(String, String)>) -> nat {
    content_tokens(ms) + if ts.len() > 0 { estimate_spec(tools_text(ts)) } else { 0 }
}

/// The tokens a request of `messages` offering `tools` (name and
/// description of each) takes, used to cap the reply; `u64::MAX` when the
/// count does not fit.
pub fn request_tokens(messages: &Vec<LLMMessage>, tools: &Vec<(String, String)>) -> (t: u64)
    ensures
        t == if request_tokens_spec(messages@, tools@) <= u64::MAX {
            request_tokens_spec(messages@, tools@)
        } else {
            u64::MAX as nat
        },
{
    let mut total: u64 = 0;
    let mut overflow = false;
    let mut i: usize = 0;
    while i < messages.len()
        invariant
            i <= messages@.len(),
            overflow ==> content_tokens(messages@.take(i as int)) > u64::MAX && total == u64::MAX,
            !overflow ==> total == content_tokens(messages@.take(i as int)),
        decreases messages@.len() - i,
    {
        assert(messages@.take(i + 1).drop_last() =~= messages@.take(i as int));
        let e = match &messages[i].content {
            Some(c) => estimate_tokens(c.as_str()),
            None => estimate_tokens(""),
        };
        proof {
            reveal_strlit("");
        }
        if overflow || total > u64::MAX - e {
            overflow = true;
            total = u64::MAX;
        } else {
            total = total + e;
        }
        i = i + 1;
    }
    assert(messages@.take(i as int) =~= messages@);
    if tools.len() > 0 {
        let mut text = String::new();
        let mut k: usize = 0;
        while k < tools.len()
            invariant
                k <= tools@.len(),
                text@ == tools_text(tools@.take(k as int)),
            decreases tools@.len() - k,
        {
            assert(tools@.take(k + 1).drop_last() =~= tools@.take(k as int));
            text.append(tools[k].0.as_str());
            text.append(tools[k].1.as_str());
            k = k + 1;
        }
        assert(tools@.take(k as int) =~= tools@);
        let e = estimate_tokens(text.as_str());
        if overflow || total > u64::MAX - e {
            total = u64::MAX;
        } else {
            total = total + e;
        }
    }
    total
}

/// Stream indices of the calls are pairwise distinct.
pub open spec fn distinct_indices(acc: Seq<CallView>) -> bool {
    forall|i: int, j: int| 0 <= i < j < acc.len() ==> (#[trigger] acc[i]).1 != (#[trigger] acc[j]).1
}

proof fn lemma_first_exists(acc: Seq<CallView>, idx: Option<usize>, k: int)
    requires
        0 <= k < acc.len(),
        acc[k].1 == idx,
    ensures
        exists|i: int| first_with_index(acc, idx, i),
    decreases k,
{
    if exists|j: int| 0 <= j < k && (#[trigger] acc[j]).1 == idx {
        let j = choose|j: int| 0 <= j < k && (#[trigger] acc[j]).1 == idx;
        lemma_first_exists(acc, idx, j);
    } else {
        assert(first_with_index(acc, idx, k));
    }
}

/// Folding streamed deltas into the calls keeps one call per stream index:
/// a delta either continues the call with its index or starts a new one.
pub proof fn law_merge_keeps_one_call_per_index(acc: Seq<CallView>, ds: Seq<CallView>)
    requires
        distinct_indices(acc),
    ensures
        distinct_indices(merge_calls(acc, ds)),
        merge_calls(acc, ds).len() >= acc.len(),
    decreases ds.len(),
{
    if ds.len() > 0 {
        law_merge_keeps_one_call_per_index(acc, ds.drop_last());
        let prev = merge_calls(acc, ds.drop_last());
        let d = ds.last();
        if exists|i: int| first_with_index(prev, d.1, i) {
            let i = choose|i: int| first_with_index(prev, d.1, i);
            let next = prev.update(i, merged_into(prev[i], d));
            assert forall|a: int, b: int| 0 <= a < b < next.len() implies (#[trigger] next[a]).1 != (
            #[trigger] next[b]).1 by {
                assert(next[a].1 == prev[a].1);
                assert(next[b].1 == prev[b].1);
            }
        } else {
            let next = prev.push(d);
            assert forall|a: int, b: int| 0 <= a < b < next.len() implies (#[trigger] next[a]).1 != (
            #[trigger] next[b]).1 by {
                if b == prev.len() {
                    if next[a].1 == d.1 {
                        assert(prev[a].1 == d.1);
                        lemma_first_exists(prev, d.1, a);
                    }
                } else {
                    assert(next[a] == prev[a] && next[b] == prev[b]);
                }
            }
        }
    }
}

/// The assistant message a streamed reply becomes when it asks for tools:
/// its text (none when empty) and the assembled calls, under a fresh id.
pub fn assistant_with_calls(content: String, calls: Vec<ToolCall>) -> (m: LLMMessage)
    ensures
        m.role == Role::Assistant,
        m.content == if content@.len() == 0 { None } else { Some(content) },
        m.tool_calls == Some(calls),
        m.images is None && m.injected is None,
        m.reasoning_content is None && m.reasoning_state is None,
        m.reasoning_signature is None && m.reasoning_message_id is None,
        m.name is None && m.tool_call_id is None,
        m.message_id@.len() == 36,
{
    let base = LLMMessage::assistant(String::new());
    LLMMessage {
        content: if content.as_str().is_empty() { None } else { Some(content) },
        tool_calls: Some(calls),
        ..base
    }
}

/// The id a call is answered under: its own id, else `call-<index>`.
pub open spec fn call_id_text(id: Option<String>, index: int) -> Seq<char> {
    match id {
        Some(x) => x@,
        None => "call-"@ + decimal(index as nat),
    }
}

/// `m` answers call `index` of a round with `result`: a tool message under
/// the call's id and name, holding the result.
pub open spec fn answers(m: LLMMessage, c: ToolCall, index: int, result: String) -> bool {
    &&& m.role == Role::Tool
    &&& m.content == Some(result)
    &&& m.tool_call_id matches Some(i) && i@ == call_id_text(c.id, index)
    &&& m.name == Some(c.function.name)
    &&& m.tool_calls is None
}

/// The messages a tool round adds to the conversation: the assistant
/// message carrying the calls, then one result per call, in the calls'
/// order, and nothing else.
pub open spec fn round_messages(ms: Seq<LLMMessage>, content: String, calls: Seq<ToolCall>, results: Seq<String>) -> bool {
    &&& ms.len() == calls.len() + 1
    &&& ms[0].role == Role::Assistant
    &&& ms[0].content == if content@.len() == 0 { None } else { Some(content) }
    &&& ms[0].tool_calls matches Some(v) && v@ == calls
    &&& forall|i: int| 0 <= i < calls.len() ==> answers(#[trigger] ms[i + 1], calls[i], i, results[i])
}

/// The conversation messages of a tool round: the reply with its calls,
/// then each call's result, paired with the call by its id.
pub fn tool_round(content: String, calls: Vec<ToolCall>, results: Vec<String>) -> (ms: Vec<LLMMessage>)
    requires
        results.len() == calls.len(),
    ensures
        round_messages(ms@, content, calls@, results@),
{
    let ghost cv = calls@;
    let ghost rv = results@;
    let mut answers_v: Vec<LLMMessage> = Vec::new();
    let mut rest = results;
    let mut i: usize = 0;
    while i < calls.len()
        invariant
            i <= calls.len(),
            calls@ == cv,
            rv.len() == cv.len(),
            rest@ == rv.skip(i as int),
            answers_v@.len() == i,
            forall|k: int| 0 <= k < i ==> answers(#[trigger] answers_v@[k], cv[k], k, rv[k]),
        decreases calls.len() - i,
    {
        let r = rest.remove(0);
        proof {
            assert(r == rv[i as int]);
        }
        let c = &calls[i];
        let id = tool_call_id(&c.id, i);
        let m = LLMMessage::tool(r, id, c.function.name.clone());
        answers_v.push(m);
        i = i + 1;
        proof {
            assert(rv.skip(i as int) =~= rv.skip(i - 1).drop_first());
        }
    }
    let head = assistant_with_calls(content, calls);
    let ghost av = answers_v@;
    let mut ms: Vec<LLMMessage> = Vec::new();
    ms.push(head);
    ms.append(&mut answers_v);
    proof {
        assert forall|k: int| 0 <= k < cv.len() implies answers(#[trigger] ms@[k + 1], cv[k], k, rv[k]) by {
            assert(ms@[k + 1] == av[k]);
        }
    }
    ms
}

/// `m` offers a call whose id reads `id`.
pub open spec fn offers_id(m: LLMMessage, id: Seq<char>) -> bool {
    m.tool_calls matches Some(v) && exists|k: int|
        0 <= k < v@.len() && ((#[trigger] v@[k]).id matches Some(x) && x@ == id)
}

/// Message `i` of `ms` is a tool result whose id is offered by message `j`,
/// the last assistant message before it.
pub open spec fn answered_by(ms: Seq<LLMMessage>, i: int, j: int) -> bool {
    &&& 0 <= j < i
    &&& ms[j].role == Role::Assistant
    &&& forall|k: int| j < k < i ==> (#[trigger] ms[k]).role != Role::Assistant
    &&& ms[i].tool_call_id matches Some(t) && offers_id(ms[j], t@)
}

/// Every tool result in `ms` answers a call of the nearest assistant
/// message before it.
pub open spec fn tool_paired(ms: Seq<LLMMessage>) -> bool {
    forall|i: int| 0 <= i < ms.len() && (#[trigger] ms[i]).role == Role::Tool ==> exists|j: int|
        answered_by(ms, i, j)
}

/// A conversation whose tool results all answer their calls stays so when a
/// tool round is appended whose calls all carry ids: each appended result
/// answers a call of the round's own assistant message.
pub proof fn law_round_keeps_pairing(
    ms: Seq<LLMMessage>,
    round: Seq<LLMMessage>,
    content: String,
    calls: Seq<ToolCall>,
    results: Seq<String>,
)
    requires
        tool_paired(ms),
        round_messages(round, content, calls, results),
        forall|k: int| 0 <= k < calls.len() ==> (#[trigger] calls[k]).id is Some,
    ensures
        tool_paired(ms + round),
{
    let all = ms + round;
    let n = ms.len() as int;
    assert forall|i: int| 0 <= i < all.len() && (#[trigger] all[i]).role == Role::Tool implies exists|j: int|
        answered_by(all, i, j) by {
        if i < n {
            assert(all[i] == ms[i]);
            let j = choose|j: int| answered_by(ms, i, j);
            assert forall|k: int| j < k < i implies (#[trigger] all[k]).role != Role::Assistant by {
                assert(all[k] == ms[k]);
            }
            assert(all[j] == ms[j]);
            assert(answered_by(all, i, j));
        } else {
            let q = i - n - 1;
            assert(all[n] == round[0]);
            assert(i != n);
            assert(0 <= q < calls.len());
            assert(all[i] == round[q + 1]);
            assert(answers(round[q + 1], calls[q], q, results[q]));
            assert(calls[q].id is Some);
            let v = round[0].tool_calls->0;
            assert(v@[q] == calls[q]);
            assert(offers_id(all[n], call_id_text(calls[q].id, q)));
            assert forall|k: int| n < k < i implies (#[trigger] all[k]).role != Role::Assistant by {
                let p = k - n - 1;
                assert(all[k] == round[p + 1]);
                assert(answers(round[p + 1], calls[p], p, results[p]));
            }
            assert(answered_by(all, i, n));
        }
    }
}

/// What a finished reply leads to: a tool round with its text and calls,
/// or the turn's final answer.
#[derive(Debug)]
pub enum ReplyEnd {
    RunTools { content: String, calls: Vec<ToolCall> },
    Answer(String),
}

impl StreamReply {
    /// A reply that asked for tools and assembled at least one call runs
    /// them; any other reply is the final answer.
    pub fn finish(self) -> (e: ReplyEnd)
        ensures
            self.has_tool_calls && self.tool_calls@.len() > 0 ==> (e matches ReplyEnd::RunTools { content, calls }
                && content == self.content && calls == self.tool_calls),
            !(self.has_tool_calls && self.tool_calls@.len() > 0) ==> e == ReplyEnd::Answer(self.content),
    {
        if self.has_tool_calls && self.tool_calls.len() > 0 {
            ReplyEnd::RunTools { content: self.content, calls: self.tool_calls }
        } else {
            ReplyEnd::Answer(self.content)
        }
    }
}

/// The opening system prompt of an agent profile.
pub fn profile_prompt(display_name: &str, description: &str, guidelines: &str) -> (s: String)
    ensures
        s@ == "You are the '"@ + display_name@ + "' agent. "@ + description@ + "\n\n"@ + guidelines@,
{
    let a = concat_str("You are the '", display_name);
    let b = concat_str(a.as_str(), "' agent. ");
    let c = concat_str(b.as_str(), description);
    let d = concat_str(c.as_str(), "\n\n");
    concat_str(d.as_str(), guidelines)
}

/// The file a tool call is about to change, to snapshot for undo: the
/// `path` argument of `write_file`, `edit` and `delete`; nothing for other
/// tools (a shell command's files are not predicted).
pub fn snapshot_target(tool_name: &str, path_arg: Option<String>) -> (r: Option<String>)
    ensures
        (tool_name@ == "write_file"@ || tool_name@ == "edit"@ || tool_name@ == "delete"@) ==> r == path_arg,
        !(tool_name@ == "write_file"@ || tool_name@ == "edit"@ || tool_name@ == "delete"@) ==> r is None,
{
    if same_text(tool_name, "write_file") || same_text(tool_name, "edit") || same_text(tool_name, "delete") {
        path_arg
    } else {
        None
    }
}

/// Token counts of one turn.
#[derive(Debug, Clone, Copy, PartialEq, Eq, Structural)]
pub struct TurnTokens {
    pub prompt_tokens: u64,
    pub completion_tokens: u64,
    pub cache_hit_tokens: u64,
    pub reasoning_tokens: u64,
    /// Prompt plus completion.
    pub total_tokens: u64,
}

/// `a - b`, or 0 when `b` is larger.
pub open spec fn sat_sub(a: u64, b: u64) -> u64 {
    if a >= b { (a - b) as u64 } else { 0 }
}

/// What a turn used: the session totals now less those when the turn
/// began (never below 0), and their prompt plus completion.
pub open spec fn turn_tokens_spec(now: SessionTokens, base: SessionTokens) -> TurnTokens {
    let p = sat_sub(now.session_prompt_tokens, base.session_prompt_tokens);
    let c = sat_sub(now.session_completion_tokens, base.session_completion_tokens);
    TurnTokens {
        prompt_tokens: p,
        completion_tokens: c,
        cache_hit_tokens: sat_sub(now.session_cache_hit_tokens, base.session_cache_hit_tokens),
        reasoning_tokens: sat_sub(now.session_reasoning_tokens, base.session_reasoning_tokens),
        total_tokens: (p + c) as u64,
    }
}

/// The tokens of the turn that began at `base` and ends at `now`.
pub fn turn_tokens(now: &SessionTokens, base: &SessionTokens) -> (t: TurnTokens)
    requires
        sat_sub(now.session_prompt_tokens, base.session_prompt_tokens) + sat_sub(
            now.session_completion_tokens,
            base.session_completion_tokens,
        ) <= u64::MAX,
    ensures
        t == turn_tokens_spec(*now, *base),
{
    let p = now.session_prompt_tokens.saturating_sub(base.session_prompt_tokens);
    let c = now.session_completion_tokens.saturating_sub(base.session_completion_tokens);
    TurnTokens {
        prompt_tokens: p,
        completion_tokens: c,
        cache_hit_tokens: now.session_cache_hit_tokens.saturating_sub(base.session_cache_hit_tokens),
        reasoning_tokens: now.session_reasoning_tokens.saturating_sub(base.session_reasoning_tokens),
        total_tokens: p + c,
    }
}

/// A command a session runs in place of a turn.
#[derive(Debug, Clone, Copy, PartialEq, Eq, Structural)]
pub enum SessionCommand {
    Compact,
    Undo,
}

/// The command named `name` (without its `/`), or the error for an
/// unknown one.
pub fn session_command(name: &str) -> (r: Result<SessionCommand, String>)
    ensures
        name@ == "compact"@ ==> r == Ok::<SessionCommand, String>(SessionCommand::Compact),
        name@ == "undo"@ ==> r == Ok::<SessionCommand, String>(SessionCommand::Undo),
        name@ != "compact"@ && name@ != "undo"@ ==> (r matches Err(e) && e@ == "Unknown command: /"@ + name@),
{
    proof {
        reveal_strlit("compact");
        reveal_strlit("undo");
        assert("compact"@.len() == 7 && "undo"@.len() == 4);
    }
    if same_text(name, "compact") {
        Ok(SessionCommand::Compact)
    } else if same_text(name, "undo") {
        Ok(SessionCommand::Undo)
    } else {
        Err(concat_str("Unknown command: /", name))
    }
}

/// The arguments streamed for stream index `idx`, in arrival order.
pub open spec fn args_for(ds: Seq<CallView>, idx: Option<usize>) -> Seq<char>
    decreases ds.len(),
{
    if ds.len() == 0 {
        Seq::empty()
    } else {
        args_for(ds.drop_last(), idx) + if ds.last().1 == idx { ds.last().3 } else { Seq::empty() }
    }
}

proof fn lemma_args_for_absent(ds: Seq<CallView>, idx: Option<usize>)
    requires
        forall|j: int| 0 <= j < ds.len() ==> (#[trigger] ds[j]).1 != idx,
    ensures
        args_for(ds, idx) == Seq::<char>::empty(),
    decreases ds.len(),
{
    if ds.len() > 0 {
        let p = ds.drop_last();
        assert forall|j: int| 0 <= j < p.len() implies (#[trigger] p[j]).1 != idx by {
            assert(p[j] == ds[j]);
        }
        lemma_args_for_absent(p, idx);
        assert(ds[ds.len() - 1].1 != idx);
        assert(args_for(ds, idx) =~= Seq::<char>::empty());
    }
}

/// Assembling a stream's tool-call deltas gives one call per stream index,
/// a call for every index streamed, and, for each call, the arguments of all
/// its deltas joined in arrival order.
pub proof fn law_assembled_arguments(ds: Seq<CallView>)
    ensures
        distinct_indices(merge_calls(Seq::empty(), ds)),
        forall|i: int|
            0 <= i < merge_calls(Seq::empty(), ds).len() ==> (#[trigger] merge_calls(Seq::empty(), ds)[i]).3
                == args_for(ds, merge_calls(Seq::empty(), ds)[i].1),
        forall|j: int|
            0 <= j < ds.len() ==> exists|i: int|
                0 <= i < merge_calls(Seq::empty(), ds).len() && merge_calls(Seq::empty(), ds)[i].1
                    == (#[trigger] ds[j]).1,
    decreases ds.len(),
{
    let e = Seq::<CallView>::empty();
    if ds.len() == 0 {
        assert(merge_calls(e, ds) == e);
    } else {
        let p = ds.drop_last();
        let d = ds.last();
        law_assembled_arguments(p);
        law_merge_keeps_one_call_per_index(e, ds);
        let prev = merge_calls(e, p);
        let r = merge_calls(e, ds);
        assert(r == merge_call(prev, d));
        if exists|i: int| first_with_index(prev, d.1, i) {
            let i = choose|i: int| first_with_index(prev, d.1, i);
            assert(r == prev.update(i, merged_into(prev[i], d)));
            assert forall|k: int| 0 <= k < r.len() implies (#[trigger] r[k]).3 == args_for(ds, r[k].1) by {
                if k == i {
                    assert(args_for(ds, d.1) == args_for(p, d.1) + d.3);
                } else {
                    assert(r[k] == prev[k]);
                    assert(prev[k].1 != prev[i].1);
                    assert(args_for(ds, r[k].1) =~= args_for(p, r[k].1));
                }
            }
            assert forall|j: int| 0 <= j < ds.len() implies exists|k: int|
                0 <= k < r.len() && r[k].1 == (#[trigger] ds[j]).1 by {
                if j < p.len() {
                    assert(ds[j] == p[j]);
                    let k = choose|k: int| 0 <= k < prev.len() && prev[k].1 == p[j].1;
                    assert(r[k].1 == prev[k].1);
                } else {
                    assert(r[i].1 == d.1);
                }
            }
        } else {
            assert(r == prev.push(d));
            assert forall|k: int| 0 <= k < prev.len() implies (#[trigger] prev[k]).1 != d.1 by {
                if prev[k].1 == d.1 {
                    lemma_first_exists(prev, d.1, k);
                }
            }
            assert forall|j: int| 0 <= j < p.len() implies (#[trigger] p[j]).1 != d.1 by {
                let k = choose|k: int| 0 <= k < prev.len() && prev[k].1 == p[j].1;
                assert(prev[k].1 != d.1);
            }
            lemma_args_for_absent(p, d.1);
            assert forall|k: int| 0 <= k < r.len() implies (#[trigger] r[k]).3 == args_for(ds, r[k].1) by {
                if k == prev.len() {
                    assert(args_for(ds, d.1) =~= d.3);
                } else {
                    assert(r[k] == prev[k]);
                    assert(args_for(ds, r[k].1) =~= args_for(p, r[k].1));
                }
            }
            assert forall|j: int| 0 <= j < ds.len() implies exists|k: int|
                0 <= k < r.len() && r[k].1 == (#[trigger] ds[j]).1 by {
                if j < p.len() {
                    assert(ds[j] == p[j]);
                    let k = choose|k: int| 0 <= k < prev.len() && prev[k].1 == p[j].1;
                    assert(r[k] == prev[k]);
                } else {
                    assert(r[prev.len() as int] == d);
                }
            }
        }
    }
}

/// How a call that needs confirmation is settled without asking: with
/// auto-approval it runs once; with no interface to ask it is refused once;
/// otherwise (`None`) the user is asked.
pub fn settle_without_asking(auto_approve: bool, can_ask: bool) -> (r: Option<(ApprovalResponse, ApprovalType)>)
    ensures
        r == if auto_approve {
            Some((ApprovalResponse::Yes, ApprovalType::Once))
        } else if can_ask {
            None
        } else {
            Some((ApprovalResponse::No, ApprovalType::Once))
        },
{
    if auto_approve {
        Some((ApprovalResponse::Yes, ApprovalType::Once))
    } else if can_ask {
        None
    } else {
        Some((ApprovalResponse::No, ApprovalType::Once))
    }
}

/// What the system prompt of a session's first turn is made from.
#[derive(Debug, Clone)]
pub struct OpeningParts {
    /// The minimal persona used while the session bootstraps.
    pub minimal_persona: String,
    /// The formatting guidelines appended to a persona.
    pub guidelines: String,
    /// Display name and description of the active profile, if any.
    pub profile: Option<(String, String)>,
    /// The active profile's read-only reminder, if any.
    pub reminder: Option<String>,
    /// The default skill's instructions, if installed.
    pub default_skills: Option<String>,
    /// The skills hint, if any skill may be loaded.
    pub skills_hint: Option<String>,
}

pub open spec fn some_text(o: Option<String>) -> Seq<Seq<char>> {
    match o {
        Some(s) => seq![s@],
        None => Seq::empty(),
    }
}

/// The system messages that open a session: none after the first turn;
/// while bootstrapping only the minimal persona with the guidelines;
/// otherwise the profile's prompt, its reminder, the default skill and the
/// skills hint, each when there is one.
pub open spec fn opening_messages(first_turn: bool, bootstrap: bool, p: OpeningParts) -> Seq<Seq<char>> {
    if !first_turn {
        Seq::empty()
    } else if bootstrap {
        seq![p.minimal_persona@ + "\n\n"@ + p.guidelines@]
    } else {
        let persona = match p.profile {
            Some(pr) => seq![
                "You are the '"@ + pr.0@ + "' agent. "@ + pr.1@ + "\n\n"@ + p.guidelines@,
            ],
            None => Seq::empty(),
        };
        persona + some_text(p.reminder) + some_text(p.default_skills) + some_text(p.skills_hint)
    }
}

/// The system messages that open a session, in order.
pub fn opening_system_messages(first_turn: bool, bootstrap: bool, parts: OpeningParts) -> (v: Vec<String>)
    ensures
        strings_view(v@) == opening_messages(first_turn, bootstrap, parts),
{
    broadcast use crate::text::lemma_strings_push;

    let mut v: Vec<String> = Vec::new();
    if !first_turn {
        return v;
    }
    if bootstrap {
        let a = concat_str(parts.minimal_persona.as_str(), "\n\n");
        v.push(concat_str(a.as_str(), parts.guidelines.as_str()));
        proof {
            assert(strings_view(v@) =~= opening_messages(first_turn, bootstrap, parts));
        }
        return v;
    }
    match &parts.profile {
        Some(pr) => v.push(profile_prompt(pr.0.as_str(), pr.1.as_str(), parts.guidelines.as_str())),
        None => {},
    }
    match &parts.reminder {
        Some(r) => v.push(r.clone()),
        None => {},
    }
    match &parts.default_skills {
        Some(d) => v.push(d.clone()),
        None => {},
    }
    match &parts.skills_hint {
        Some(h) => v.push(h.clone()),
        None => {},
    }
    proof {
        assert(strings_view(v@) =~= opening_messages(first_turn, bootstrap, parts));
    }
    v
}

} // verus!
