//! DeepSeek chat completions as replies: a streamed completion is assembled
//! event by event (each reasoning and text delta becomes a chunk as it
//! arrives, tool-call fragments are gathered per call index, and the event
//! that ends the reply hands over the assembled calls in index order with
//! the usage and finish reason); a whole completion becomes one chunk.

use vstd::prelude::*;
use std::collections::BTreeMap;
use vstd::std_specs::iter::IteratorSpec;
use crate::error::ArrowError;
use crate::llm::{chat_usage, chat_usage_spec, DeepSeekChatUsage};
use crate::text::concat_str;
use crate::types::{FunctionCall, LLMChunk, LLMMessage, LLMUsage, Role, ToolCall};

verus! {

broadcast use vstd::std_specs::btree::group_btree_axioms;

/// A fragment of a streamed function call.
#[derive(Debug)]
pub struct StreamFunction {
    pub name: Option<String>,
    pub arguments: Option<String>,
}

/// A fragment of a streamed tool call; fragments of one call share its
/// index.
#[derive(Debug)]
pub struct StreamToolCall {
    pub index: Option<u32>,
    pub id: Option<String>,
    pub function: Option<StreamFunction>,
}

/// What one choice of a streamed event adds to the reply.
#[derive(Debug)]
pub struct ChunkDelta {
    pub content: Option<String>,
    pub reasoning_content: Option<String>,
    pub tool_calls: Option<Vec<StreamToolCall>>,
}

#[derive(Debug)]
pub struct ChunkChoice {
    pub delta: Option<ChunkDelta>,
    pub finish_reason: Option<String>,
}

/// One event of a streamed chat completion.
#[derive(Debug)]
pub struct ChatStreamEvent {
    pub choices: Vec<ChunkChoice>,
    pub usage: Option<DeepSeekChatUsage>,
}

/// The fragments gathered so far for one call.
#[derive(Debug)]
pub struct ToolBuffer {
    pub id: Option<String>,
    pub name: Option<String>,
    pub args: String,
}

/// A gathered call as text: id, name, arguments.
pub type BufView = (Option<Seq<char>>, Option<Seq<char>>, Seq<char>);

pub open spec fn opt_text(o: Option<String>) -> Option<Seq<char>> {
    match o {
        Some(s) => Some(s@),
        None => None,
    }
}

pub open spec fn buf_view(b: ToolBuffer) -> BufView {
    (opt_text(b.id), opt_text(b.name), b.args@)
}

/// The gathered calls, by call index.
pub open spec fn calls_view(m: BTreeMap<usize, ToolBuffer>) -> Map<usize, BufView> {
    m@.map_values(|b: ToolBuffer| buf_view(b))
}

/// The call index a fragment belongs to (0 when it names none).
pub open spec fn delta_index(tc: StreamToolCall) -> usize {
    match tc.index {
        Some(i) => i as usize,
        None => 0,
    }
}

pub open spec fn fresh_buf() -> BufView {
    (None, None, Seq::empty())
}

/// A gathered call with one more fragment: a new id replaces the old, a
/// name fragment is appended to the name, an arguments fragment to the
/// arguments.
pub open spec fn merged(b: BufView, tc: StreamToolCall) -> BufView {
    let id = match tc.id {
        Some(x) => Some(x@),
        None => b.0,
    };
    match tc.function {
        Some(f) => (
            id,
            match f.name {
                Some(n) => match b.1 {
                    Some(e) => Some(e + n@),
                    None => Some(n@),
                },
                None => b.1,
            },
            b.2 + match f.arguments {
                Some(a) => a@,
                None => Seq::empty(),
            },
        ),
        None => (id, b.1, b.2),
    }
}

/// The gathered calls with one more fragment: it joins the call of its
/// index, or starts that call.
pub open spec fn apply_fragment(m: Map<usize, BufView>, tc: StreamToolCall) -> Map<usize, BufView> {
    let idx = delta_index(tc);
    let cur = if m.contains_key(idx) { m[idx] } else { fresh_buf() };
    m.insert(idx, merged(cur, tc))
}

/// The gathered calls after the fragments `tcs`, in order.
pub open spec fn apply_fragments(m: Map<usize, BufView>, tcs: Seq<StreamToolCall>) -> Map<usize, BufView>
    decreases tcs.len(),
{
    if tcs.len() == 0 {
        m
    } else {
        apply_fragment(apply_fragments(m, tcs.drop_last()), tcs.last())
    }
}

/// The keys a `BTreeMap` walk yields come in increasing order.
proof fn lemma_increasing_keys(keys: Seq<usize>)
    requires
        vstd::std_specs::btree::increasing_seq(keys),
    ensures
        forall|i: int, j: int| 0 <= i < j < keys.len() ==> keys[i] < keys[j],
{
    broadcast use vstd::laws_cmp::group_laws_cmp;

    assert(vstd::laws_cmp::obeys_cmp::<usize>());
    assert forall|i: int, j: int| 0 <= i < j < keys.len() implies keys[i] < keys[j] by {
        assert(vstd::std_specs::cmp::OrdSpec::cmp_spec(&keys[i], &keys[j]) is Less);
    }
}

/// Add one fragment to a gathered call.
fn merge_fragment(b: &mut ToolBuffer, tc: StreamToolCall)
    ensures
        buf_view(*final(b)) == merged(buf_view(*old(b)), tc),
{
    match tc.id {
        Some(x) => {
            b.id = Some(x);
        },
        None => {},
    }
    match tc.function {
        Some(f) => {
            match f.name {
                Some(n) => {
                    let name = match &b.name {
                        Some(e) => concat_str(e.as_str(), n.as_str()),
                        None => n,
                    };
                    b.name = Some(name);
                },
                None => {},
            }
            match f.arguments {
                Some(a) => {
                    b.args = concat_str(b.args.as_str(), a.as_str());
                },
                None => {
                    proof {
                        assert(b.args@ + Seq::<char>::empty() =~= b.args@);
                    }
                },
            }
        },
        None => {},
    }
}

/// Add one fragment to the gathered calls.
fn apply_tool_fragment(calls: &mut BTreeMap<usize, ToolBuffer>, tc: StreamToolCall)
    ensures
        calls_view(*final(calls)) == apply_fragment(calls_view(*old(calls)), tc),
{
    let idx: usize = match tc.index {
        Some(i) => i as usize,
        None => 0,
    };
    let mut b = match calls.remove(&idx) {
        Some(b) => b,
        None => ToolBuffer { id: None, name: None, args: String::new() },
    };
    merge_fragment(&mut b, tc);
    calls.insert(idx, b);
    proof {
        assert(calls_view(*calls) =~= apply_fragment(calls_view(*old(calls)), tc));
    }
}

/// What a streamed event shows before its end: reasoning or reply text.
pub enum Piece {
    Reasoning(Seq<char>),
    Text(Seq<char>),
}

/// The pieces of one choice: its reasoning delta, then its text delta.
pub open spec fn delta_pieces(d: Option<ChunkDelta>) -> Seq<Piece> {
    match d {
        Some(x) => (match x.reasoning_content {
            Some(r) => seq![Piece::Reasoning(r@)],
            None => Seq::empty(),
        }) + (match x.content {
            Some(t) => seq![Piece::Text(t@)],
            None => Seq::empty(),
        }),
        None => Seq::empty(),
    }
}

/// The pieces of an event's choices, in order.
pub open spec fn event_pieces(cs: Seq<ChunkChoice>) -> Seq<Piece>
    decreases cs.len(),
{
    if cs.len() == 0 {
        Seq::empty()
    } else {
        event_pieces(cs.drop_last()) + delta_pieces(cs.last().delta)
    }
}

/// The tool-call fragments of one choice.
pub open spec fn delta_fragments(d: Option<ChunkDelta>) -> Seq<StreamToolCall> {
    match d {
        Some(x) => match x.tool_calls {
            Some(v) => v@,
            None => Seq::empty(),
        },
        None => Seq::empty(),
    }
}

/// The gathered calls after an event's choices.
pub open spec fn event_calls(s: Map<usize, BufView>, cs: Seq<ChunkChoice>) -> Map<usize, BufView>
    decreases cs.len(),
{
    if cs.len() == 0 {
        s
    } else {
        apply_fragments(event_calls(s, cs.drop_last()), delta_fragments(cs.last().delta))
    }
}

/// The finish reason of an event: that of its first choice.
pub open spec fn event_finish(e: ChatStreamEvent) -> Option<String> {
    if e.choices@.len() > 0 {
        e.choices@[0].finish_reason
    } else {
        None
    }
}

/// An event ends the reply when it carries the usage or a finish reason.
pub open spec fn ends_reply(e: ChatStreamEvent) -> bool {
    e.usage is Some || event_finish(e) is Some
}

/// An assistant message carrying nothing but what is given.
pub open spec fn bare_assistant(m: LLMMessage) -> bool {
    &&& m.role == Role::Assistant
    &&& m.images is None
    &&& m.injected is None
    &&& m.reasoning_state is None
    &&& m.reasoning_signature is None
    &&& m.reasoning_message_id is None
    &&& m.name is None
    &&& m.tool_call_id is None
}

/// The chunk that shows a piece.
pub open spec fn shows(c: LLMChunk, p: Piece) -> bool {
    &&& bare_assistant(c.message)
    &&& c.message.tool_calls is None
    &&& c.usage is None
    &&& c.finish_reason is None
    &&& !c.stream_interrupted
    &&& match p {
        Piece::Reasoning(r) => c.message.content is None && (c.message.reasoning_content matches Some(x) && x@ == r),
        Piece::Text(t) => c.message.reasoning_content is None && (c.message.content matches Some(x) && x@ == t),
    }
}

/// The call gathered at index `k` as the reply's tool call: its index, id,
/// name (empty when none arrived) and arguments, typed `function`.
pub open spec fn as_call(k: usize, b: BufView, c: ToolCall) -> bool {
    &&& c.index == Some(k)
    &&& opt_text(c.id) == b.0
    &&& c.function.name@ == match b.1 {
        Some(n) => n,
        None => Seq::empty(),
    }
    &&& c.function.arguments@ == b.2
    &&& c.call_type matches Some(t) && t@ == "function"@
}

/// `v` hands over the calls of `m`: each one once, in increasing index
/// order.
pub open spec fn handed_over(v: Seq<ToolCall>, m: Map<usize, BufView>) -> bool {
    &&& forall|i: int|
        0 <= i < v.len() ==> ((#[trigger] v[i]).index matches Some(k) && m.contains_key(k) && as_call(
            k,
            m[k],
            v[i],
        ))
    &&& forall|i: int, j: int| 0 <= i < j < v.len() ==> v[i].index->0 < v[j].index->0
    &&& forall|k: usize| #[trigger] m.contains_key(k) ==> exists|i: int| 0 <= i < v.len() && v[i].index == Some(k)
}

/// The chunk that ends the reply: no text, the gathered calls in index
/// order (none when there are none), the usage, and the finish reason, or
/// `stop`.
pub open spec fn shows_end(c: LLMChunk, calls: Map<usize, BufView>, e: ChatStreamEvent) -> bool {
    &&& bare_assistant(c.message)
    &&& c.message.content is None
    &&& c.message.reasoning_content is None
    &&& if calls.dom().len() == 0 {
        c.message.tool_calls is None
    } else {
        c.message.tool_calls matches Some(v) && handed_over(v@, calls)
    }
    &&& c.usage == match e.usage {
        Some(u) => Some(chat_usage_spec(u)),
        None => None::<LLMUsage>,
    }
    &&& c.finish_reason matches Some(f) && f@ == match event_finish(e) {
        Some(x) => x@,
        None => "stop"@,
    }
    &&& !c.stream_interrupted
}

/// The counts of an event's usage add up within `u32`.
pub open spec fn usage_fits(e: ChatStreamEvent) -> bool {
    e.usage matches Some(u) ==> u.prompt_tokens + u.completion_tokens <= u32::MAX
}

/// The state of a streamed chat completion: the tool calls gathered so far.
#[derive(Debug)]
pub struct ChatStream {
    calls: BTreeMap<usize, ToolBuffer>,
}

fn reasoning_chunk(r: String) -> (c: LLMChunk)
    ensures
        shows(c, Piece::Reasoning(r@)),
{
    let mut m = LLMMessage::assistant(String::new());
    m.content = None;
    m.reasoning_content = Some(r);
    LLMChunk::new(m, None)
}

fn text_chunk(t: String) -> (c: LLMChunk)
    ensures
        shows(c, Piece::Text(t@)),
{
    LLMChunk::new(LLMMessage::assistant(t), None)
}

impl ChatStream {
    /// The calls gathered so far, by call index.
    pub closed spec fn calls(&self) -> Map<usize, BufView> {
        calls_view(self.calls)
    }

    pub fn new() -> (s: Self)
        ensures
            s.calls() == Map::<usize, BufView>::empty(),
    {
        let s = ChatStream { calls: BTreeMap::new() };
        assert(s.calls() =~= Map::<usize, BufView>::empty());
        s
    }

    /// The gathered calls as the reply's tool calls, in index order.
    fn assembled(&self) -> (v: Vec<ToolCall>)
        ensures
            handed_over(v@, self.calls()),
            v@.len() == 0 <==> self.calls().dom().len() == 0,
    {
        let mut v: Vec<ToolCall> = Vec::new();
        let ghost m = self.calls();
        for kv in it: self.calls.iter()
            invariant
                it.seq() == vstd::std_specs::btree::spec_btree_map_iter(&self.calls).remaining(),
                m == self.calls(),
                v@.len() == it.index(),
                forall|i: int|
                    0 <= i < it.index() ==> (#[trigger] v@[i]).index == Some(*it.seq()[i].0) && as_call(
                        *it.seq()[i].0,
                        m[*it.seq()[i].0],
                        v@[i],
                    ),
        {
            let (k, b) = kv;
            proof {
                let i0 = it.index();
                assert(kv == it.seq()[i0 as int]);
                assert(self.calls@.contains_key(*k) && self.calls@[*k] == *b);
            }
            let name = match &b.name {
                Some(n) => n.clone(),
                None => String::new(),
            };
            let id = match &b.id {
                Some(x) => Some(x.clone()),
                None => None,
            };
            let call = ToolCall {
                id,
                index: Some(*k),
                function: FunctionCall { name, arguments: b.args.clone() },
                call_type: Some(String::from_str("function")),
            };
            v.push(call);
        }
        proof {
            let sq = vstd::std_specs::btree::spec_btree_map_iter(&self.calls).remaining();
            let keys = sq.map_values(|kv: (&usize, &ToolBuffer)| *kv.0);
            assert(vstd::std_specs::btree::increasing_seq(keys));
            lemma_increasing_keys(keys);
            assert forall|i: int, j: int| 0 <= i < j < v@.len() implies v@[i].index->0 < v@[j].index->0 by {
                assert(keys[i] == *sq[i].0 && keys[j] == *sq[j].0);
            }
            assert forall|i: int| 0 <= i < v@.len() implies ((#[trigger] v@[i]).index matches Some(k) && m.contains_key(k)
                && as_call(k, m[k], v@[i])) by {
                assert(self.calls@.contains_key(*sq[i].0));
            }
            assert forall|k: usize| #[trigger] m.contains_key(k) implies exists|i: int|
                0 <= i < v@.len() && v@[i].index == Some(k) by {
                assert(self.calls@.contains_key(k));
                assert(sq.contains((&k, &self.calls@[k])));
                let i = choose|i: int| 0 <= i < sq.len() && sq[i] == (&k, &self.calls@[k]);
                assert(v@[i].index == Some(k));
            }
            if v@.len() == 0 {
                assert(sq.len() == 0);
                assert(m.dom() =~= Set::<usize>::empty()) by {
                    assert forall|k: usize| !m.contains_key(k) by {
                        if m.contains_key(k) {
                            assert(self.calls@.contains_key(k));
                            assert(sq.contains((&k, &self.calls@[k])));
                        }
                    }
                }
            } else {
                assert(m.contains_key(*sq[0].0));
                assert(self.calls@.dom().finite());
                assert(m.dom() =~= self.calls@.dom());
                assert(m.dom().contains(*sq[0].0));
                assert(m.dom().len() != 0) by {
                    if m.dom().len() == 0 {
                        m.dom().lemma_len0_is_empty();
                    }
                }
            }
        }
        v
    }

    /// Take in one event: a chunk for each reasoning and text delta of its
    /// choices, in order, then, when the event ends the reply, the chunk
    /// that hands over the gathered calls.
    pub fn absorb(&mut self, event: ChatStreamEvent) -> (out: Vec<LLMChunk>)
        requires
            usage_fits(event),
        ensures
            ({
                let pieces = event_pieces(event.choices@);
                let calls = event_calls(old(self).calls(), event.choices@);
                &&& final(self).calls() == calls
                &&& out@.len() == pieces.len() + if ends_reply(event) { 1int } else { 0int }
                &&& forall|i: int| 0 <= i < pieces.len() ==> shows(#[trigger] out@[i], pieces[i])
                &&& ends_reply(event) ==> shows_end(out@.last(), calls, event)
            }),
    {
        let ghost e0 = event;
        let finish: Option<String> = if event.choices.len() > 0 {
            match &event.choices[0].finish_reason {
                Some(f) => Some(f.clone()),
                None => None,
            }
        } else {
            None
        };
        let ChatStreamEvent { choices, usage } = event;
        let ghost cs = choices@;
        let ghost start = self.calls();
        let mut out: Vec<LLMChunk> = Vec::new();
        let mut rest = choices;
        let mut n: usize = 0;
        while rest.len() > 0
            invariant
                n + rest@.len() == cs.len(),
                cs.len() <= usize::MAX,
                rest@ == cs.skip(n as int),
                self.calls() == event_calls(start, cs.take(n as int)),
                out@.len() == event_pieces(cs.take(n as int)).len(),
                forall|i: int|
                    0 <= i < out@.len() ==> shows(#[trigger] out@[i], event_pieces(cs.take(n as int))[i]),
            decreases rest@.len(),
        {
            let choice = rest.remove(0);
            proof {
                assert(choice == cs[n as int]);
                assert(cs.take(n + 1).drop_last() =~= cs.take(n as int));
                assert(cs.take(n + 1).last() == cs[n as int]);
            }
            let ghost before = out@;
            let ghost calls_before = self.calls();
            match choice.delta {
                Some(d) => {
                    let ChunkDelta { content, reasoning_content, tool_calls } = d;
                    match reasoning_content {
                        Some(r) => out.push(reasoning_chunk(r)),
                        None => {},
                    }
                    match content {
                        Some(t) => out.push(text_chunk(t)),
                        None => {},
                    }
                    match tool_calls {
                        Some(tcs) => {
                            let ghost fr = tcs@;
                            let count: usize = tcs.len();
                            let mut pending = tcs;
                            let mut k: usize = 0;
                            while pending.len() > 0
                                invariant
                                    k + pending@.len() == fr.len(),
                                    fr.len() == count,
                                    pending@ == fr.skip(k as int),
                                    self.calls() == apply_fragments(calls_before, fr.take(k as int)),
                                decreases pending@.len(),
                            {
                                let tc = pending.remove(0);
                                proof {
                                    assert(tc == fr[k as int]);
                                    assert(fr.take(k + 1).drop_last() =~= fr.take(k as int));
                                    assert(fr.take(k + 1).last() == fr[k as int]);
                                }
                                apply_tool_fragment(&mut self.calls, tc);
                                k = k + 1;
                                proof {
                                    assert(fr.skip(k as int) =~= fr.skip(k - 1).drop_first());
                                }
                            }
                            proof {
                                assert(fr.take(fr.len() as int) =~= fr);
                            }
                        },
                        None => {},
                    }
                },
                None => {},
            }
            n = n + 1;
            proof {
                assert(cs.skip(n as int) =~= cs.skip(n - 1).drop_first());
                let ps = event_pieces(cs.take(n as int));
                assert(ps =~= event_pieces(cs.take(n - 1)) + delta_pieces(cs[n - 1].delta));
                assert(out@.len() == ps.len());
                assert forall|i: int| 0 <= i < out@.len() implies shows(#[trigger] out@[i], ps[i]) by {
                    if i < before.len() {
                        assert(out@[i] == before[i]);
                    }
                }
            }
        }
        proof {
            assert(cs.take(cs.len() as int) =~= cs);
        }
        let terminal = match usage {
            Some(_) => true,
            None => finish.is_some(),
        };
        if terminal {
            let calls = self.assembled();
            let mut m = LLMMessage::assistant(String::new());
            m.content = None;
            m.reasoning_content = None;
            if calls.len() > 0 {
                m.tool_calls = Some(calls);
            }
            let u: Option<LLMUsage> = match usage {
                Some(x) => Some(chat_usage(x)),
                None => None,
            };
            let f = match finish {
                Some(x) => x,
                None => String::from_str("stop"),
            };
            let ghost before = out@;
            out.push(LLMChunk::with_finish_reason(m, u, f));
            proof {
                assert forall|i: int|
                    0 <= i < event_pieces(cs).len() implies shows(#[trigger] out@[i], event_pieces(cs)[i]) by {
                    assert(out@[i] == before[i]);
                }
            }
        }
        out
    }
}

/// A tool call of a whole completion.
#[derive(Debug)]
pub struct ReplyToolCall {
    pub id: Option<String>,
    pub call_type: Option<String>,
    pub name: String,
    pub arguments: String,
}

/// The message of a whole completion.
#[derive(Debug)]
pub struct ReplyMessage {
    pub content: Option<String>,
    pub reasoning_content: Option<String>,
    pub tool_calls: Option<Vec<ReplyToolCall>>,
}

#[derive(Debug)]
pub struct ReplyChoice {
    pub message: ReplyMessage,
    pub finish_reason: Option<String>,
}

/// A whole chat completion.
#[derive(Debug)]
pub struct ChatReply {
    pub choices: Vec<ReplyChoice>,
    pub usage: Option<DeepSeekChatUsage>,
}

/// The `i`-th call of a completion as the reply's tool call: numbered by
/// its position, typed `function` unless it says otherwise.
pub open spec fn reply_call(i: int, w: ReplyToolCall, c: ToolCall) -> bool {
    &&& c.index == Some(i as usize)
    &&& c.id == w.id
    &&& c.function.name == w.name
    &&& c.function.arguments == w.arguments
    &&& match w.call_type {
        Some(t) => c.call_type == Some(t),
        None => c.call_type matches Some(t) && t@ == "function"@,
    }
}

/// The chunk of a whole completion: the first choice's message (its text,
/// or empty; its reasoning; its calls), the usage and the finish reason,
/// or `stop`.
pub open spec fn reply_chunk(c: LLMChunk, r: ChatReply) -> bool {
    let ch = r.choices@[0];
    let m = ch.message;
    &&& bare_assistant(c.message)
    &&& c.message.content matches Some(x) && x@ == match m.content {
        Some(t) => t@,
        None => Seq::empty(),
    }
    &&& c.message.reasoning_content == m.reasoning_content
    &&& match m.tool_calls {
        Some(ws) => c.message.tool_calls matches Some(v) && v@.len() == ws@.len() && forall|i: int|
            0 <= i < ws@.len() ==> reply_call(i, ws@[i], #[trigger] v@[i]),
        None => c.message.tool_calls is None,
    }
    &&& c.usage == match r.usage {
        Some(u) => Some(chat_usage_spec(u)),
        None => None::<LLMUsage>,
    }
    &&& c.finish_reason matches Some(f) && f@ == match ch.finish_reason {
        Some(x) => x@,
        None => "stop"@,
    }
    &&& !c.stream_interrupted
}

/// A whole completion as one chunk; a completion without choices is a
/// backend error.
pub fn chat_reply(reply: ChatReply) -> (r: Result<LLMChunk, ArrowError>)
    requires
        reply.usage matches Some(u) ==> u.prompt_tokens + u.completion_tokens <= u32::MAX,
    ensures
        reply.choices@.len() == 0 <==> r is Err,
        r matches Err(e) ==> (e matches ArrowError::Backend(m) && m@ == "DeepSeek response had no choices"@),
        r matches Ok(c) ==> reply_chunk(c, reply),
{
    let ghost r0 = reply;
    let ChatReply { choices, usage } = reply;
    if choices.len() == 0 {
        return Err(ArrowError::Backend(String::from_str("DeepSeek response had no choices")));
    }
    let mut choices = choices;
    let ReplyChoice { message, finish_reason } = choices.remove(0);
    let ReplyMessage { content, reasoning_content, tool_calls } = message;
    let text = match content {
        Some(t) => t,
        None => String::new(),
    };
    let mut m = LLMMessage::assistant(text);
    m.reasoning_content = reasoning_content;
    match tool_calls {
        Some(ws) => {
            let ghost wv = ws@;
            let count: usize = ws.len();
            let mut pending = ws;
            let mut calls: Vec<ToolCall> = Vec::new();
            let mut i: usize = 0;
            while pending.len() > 0
                invariant
                    i + pending@.len() == wv.len(),
                    wv.len() == count,
                    pending@ == wv.skip(i as int),
                    calls@.len() == i,
                    forall|k: int| 0 <= k < i ==> reply_call(k, wv[k], #[trigger] calls@[k]),
                decreases pending@.len(),
            {
                let w = pending.remove(0);
                proof {
                    assert(w == wv[i as int]);
                }
                let ReplyToolCall { id, call_type, name, arguments } = w;
                let t = match call_type {
                    Some(t) => t,
                    None => String::from_str("function"),
                };
                calls.push(ToolCall { id, index: Some(i), function: FunctionCall { name, arguments }, call_type: Some(t) });
                i = i + 1;
                proof {
                    assert(wv.skip(i as int) =~= wv.skip(i - 1).drop_first());
                }
            }
            m.tool_calls = Some(calls);
        },
        None => {},
    }
    let u: Option<LLMUsage> = match usage {
        Some(x) => Some(chat_usage(x)),
        None => None,
    };
    let f = match finish_reason {
        Some(x) => x,
        None => String::from_str("stop"),
    };
    Ok(LLMChunk::with_finish_reason(m, u, f))
}

} // verus!
