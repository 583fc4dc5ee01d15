//! Request shaping for the agent loop: the output-token budget left by the
//! context window, the softened request used when a stream is cut and
//! retried, the tool set offered while a session bootstraps, and the text of
//! referenced files and directories.
//!
//! Driving the turn (model calls, tool execution, the event log) is the
//! host's part; it asks these functions what to send.

use vstd::prelude::*;
use crate::config::ModelConfig;
use crate::text::{
    chars_of, concat_str, decimal, decimal_string, lines_spec, same_text, string_from_chars, strings_view, text_lines,
    trim, trim_chars,
};
use crate::cli_project::{join_strings, joined};
use crate::user_doc::{DocBlock, RefKind, RefRange, UserDoc};
use crate::repository::first_named;
use crate::vibe::VibeConfig;

verus! {

/// How many times a streaming request is retried after the stream is cut.
pub const MAX_STREAM_RETRIES: u32 = 3;

/// Limits of an agent loop. The price limit, a floating-point amount, is
/// kept by the host.
#[derive(Debug, Clone, Copy)]
pub struct AgentLoopConfig {
    pub max_turns: Option<u64>,
    /// Context window of the model in use.
    pub max_session_tokens: Option<u64>,
    pub auto_compact_threshold: Option<u64>,
}

impl Default for AgentLoopConfig {
    fn default() -> (c: Self)
        ensures
            c.max_turns is None,
            c.max_session_tokens is None,
            c.auto_compact_threshold is None,
    {
        AgentLoopConfig { max_turns: None, max_session_tokens: None, auto_compact_threshold: None }
    }
}

/// The window assumed when none is configured.
pub open spec fn window_of(c: AgentLoopConfig) -> nat {
    match c.max_session_tokens {
        Some(w) => w as nat,
        None => 128000,
    }
}

/// The safety margin kept free: a twentieth of the window, at least 256.
pub open spec fn safety_margin(window: nat) -> nat {
    if window / 20 > 256 {
        window / 20
    } else {
        256
    }
}

/// Output tokens the window still allows: what is left after the tokens in
/// use and the margin, at least 1.
pub open spec fn token_room(window: nat, used: nat) -> nat {
    let left = window - used - safety_margin(window);
    if left >= 1 {
        left as nat
    } else {
        1
    }
}

impl AgentLoopConfig {
    /// The output-token cap for a request: the requested cap, or none,
    /// clamped to the room the window leaves after `used_tokens` and a
    /// safety margin, never below 1. The value is narrowed to `u32` as is.
    pub fn effective_max_tokens(&self, requested: Option<u32>, used_tokens: u64) -> (r: Option<u32>)
        ensures
            ({
                let cap = token_room(window_of(*self), used_tokens as nat);
                r == Some(
                    match requested {
                        Some(q) => if (q as nat) < cap { q } else { cap as u32 },
                        None => cap as u32,
                    },
                )
            }),
    {
        let window: u64 = match self.max_session_tokens {
            Some(w) => w,
            None => 128000,
        };
        let margin: u64 = if window / 20 > 256 { window / 20 } else { 256 };
        let after_used: u64 = if window > used_tokens { window - used_tokens } else { 0 };
        let remaining: u64 = if after_used > margin { after_used - margin } else { 0 };
        let cap: u64 = if remaining >= 1 { remaining } else { 1 };
        match requested {
            Some(q) => {
                let q64: u64 = q as u64;
                Some(if q64 < cap { q } else { cap as u32 })
            },
            None => Some(cap as u32),
        }
    }
}

/// A request never asks for more output than the window leaves, whenever
/// that room is larger than the 1-token floor.
pub proof fn law_max_tokens_within_room(window: nat, used: nat, q: u32)
    requires
        window >= used + safety_margin(window) + 1,
    ensures
        ({
            let cap = token_room(window, used);
            &&& cap == window - used - safety_margin(window)
            &&& (if (q as nat) < cap { q as nat } else { cap }) <= window - used
        }),
{
}

/// ASCII upper-case letters made lower case; everything else unchanged.
pub open spec fn ascii_lower(c: char) -> char {
    if 65 <= (c as int) <= 90 {
        ((c as int) + 32) as char
    } else {
        c
    }
}

pub open spec fn ascii_lowercase(s: Seq<char>) -> Seq<char> {
    s.map_values(|c: char| ascii_lower(c))
}

pub(crate) fn lower_char(c: char) -> (r: char)
    ensures
        r == ascii_lower(c),
{
    if 'A' <= c && c <= 'Z' {
        let u: u32 = c as u32;
        let b: u8 = (u + 32) as u8;
        b as char
    } else {
        c
    }
}

/// `str::to_ascii_lowercase`.
pub fn to_ascii_lowercase(s: &[char]) -> (r: Vec<char>)
    ensures
        r@ == ascii_lowercase(s@),
{
    let mut r: Vec<char> = Vec::new();
    let mut i: usize = 0;
    while i < s.len()
        invariant
            i <= s@.len(),
            r@ == ascii_lowercase(s@.take(i as int)),
        decreases s@.len() - i,
    {
        r.push(lower_char(s[i]));
        assert(ascii_lowercase(s@.take(i + 1)) =~= ascii_lowercase(s@.take(i as int)).push(ascii_lower(s@[i as int])));
        i = i + 1;
    }
    assert(s@.take(i as int) =~= s@);
    r
}

/// The reasoning-effort ladder, weakest first.
pub open spec fn effort_ladder() -> Seq<Seq<char>> {
    seq!["low"@, "medium"@, "high"@]
}

/// Where an effort stands on the ladder; values off it count as `high`.
pub open spec fn effort_rank(effort: Seq<char>) -> int {
    let e = ascii_lowercase(trim(effort));
    if e == "low"@ {
        0
    } else if e == "medium"@ {
        1
    } else {
        2
    }
}

/// The rank used on retry `attempt`: the first retry keeps the strength
/// (capped at `high`), each later one steps down, never below `low`.
pub open spec fn degraded_rank(effort: Seq<char>, attempt: int) -> int {
    let n = effort_rank(effort) - (attempt - 1);
    if n > 0 {
        n
    } else {
        0
    }
}

/// `m` is `model` as retry `attempt` sends it: reasoning effort stepped
/// down the ladder, output cap halved but kept at least 512; everything else
/// unchanged.
pub open spec fn degraded(model: ModelConfig, attempt: int, m: ModelConfig) -> bool {
    &&& m == (ModelConfig { reasoning_effort: m.reasoning_effort, max_tokens: m.max_tokens, ..model })
    &&& match model.reasoning_effort {
        Some(e) => m.reasoning_effort matches Some(x) && x@ == effort_ladder()[degraded_rank(e@, attempt)],
        None => m.reasoning_effort is None,
    }
    &&& m.max_tokens == match model.max_tokens {
        Some(t) => Some(if t / 2 > 512 { (t / 2) as u32 } else { 512u32 }),
        None => None,
    }
}

/// The request for stream retry `attempt` (counted from 1): reasoning
/// effort stepped down the ladder, output cap halved but kept at least 512;
/// everything else as in `model`. Attempt 0 steps an effort one rung up,
/// which the ladder allows only below `high`.
pub fn degrade_request(model: &ModelConfig, attempt: u32) -> (m: ModelConfig)
    requires
        attempt <= i32::MAX,
        attempt == 0 ==> (model.reasoning_effort matches Some(e) ==> effort_rank(e@) < 2),
    ensures
        degraded(*model, attempt as int, m),
{
    let mut m = model.clone();
    proof {
        reveal_strlit("low");
        reveal_strlit("medium");
        reveal_strlit("high");
    }
    if let Some(effort) = &model.reasoning_effort {
        let cs = chars_of(effort.as_str());
        let t = trim_chars(cs.as_slice());
        let lc = to_ascii_lowercase(t.as_slice());
        let cur = string_from_chars(lc.as_slice());
        let cur_idx: i64 = if same_text(cur.as_str(), "low") {
            0
        } else if same_text(cur.as_str(), "medium") {
            1
        } else {
            2
        };
        let stepped: i64 = cur_idx - (attempt as i64 - 1);
        let next_idx: i64 = if stepped > 0 { stepped } else { 0 };
        let next = if next_idx == 0 {
            "low"
        } else if next_idx == 1 {
            "medium"
        } else {
            "high"
        };
        m.reasoning_effort = Some(String::from_str(next));
    }
    if let Some(mt) = model.max_tokens {
        let half: u32 = mt / 2;
        m.max_tokens = Some(if half > 512 { half } else { 512 });
    }
    m
}

/// The core tools offered on a session's opening requests.
pub fn minimal_tools() -> (r: Vec<&'static str>)
    ensures
        r@.len() == 2,
        r@[0]@ == "bash"@,
        r@[1]@ == "str_replace_editor"@,
{
    let mut r: Vec<&'static str> = Vec::new();
    r.push("bash");
    r.push("str_replace_editor");
    r
}

pub open spec fn is_minimal(name: Seq<char>) -> bool {
    name == "bash"@ || name == "str_replace_editor"@
}

/// The tools to offer on the next request, by name. While the session
/// bootstraps, only the core tools among `all_tools`, in their order, or all
/// of them when none of the core tools is there; afterwards, all of them.
pub fn tools_for_request(in_bootstrap: bool, all_tools: Vec<String>) -> (r: Vec<String>)
    ensures
        ({
            let minimal = all_tools@.filter(|t: String| is_minimal(t@));
            r@ == if in_bootstrap && minimal.len() > 0 {
                minimal
            } else {
                all_tools@
            }
        }),
{
    if !in_bootstrap {
        return all_tools;
    }
    let ghost p = |t: String| is_minimal(t@);
    let mut minimal: Vec<String> = Vec::new();
    let mut i: usize = 0;
    assert(all_tools@.take(0) =~= Seq::<String>::empty());
    while i < all_tools.len()
        invariant
            i <= all_tools@.len(),
            p == (|t: String| is_minimal(t@)),
            minimal@ == all_tools@.take(i as int).filter(p),
        decreases all_tools@.len() - i,
    {
        proof {
            reveal_with_fuel(Seq::filter, 1);
            assert(all_tools@.take(i + 1).drop_last() =~= all_tools@.take(i as int));
        }
        if same_text(all_tools[i].as_str(), "bash") || same_text(all_tools[i].as_str(), "str_replace_editor") {
            minimal.push(all_tools[i].clone());
        }
        i = i + 1;
    }
    assert(all_tools@.take(i as int) =~= all_tools@);
    if minimal.len() == 0 {
        all_tools
    } else {
        minimal
    }
}

/// The header naming a reference in the expanded message.
pub open spec fn ref_header(kind: RefKind, raw: Seq<char>, range: Option<RefRange>) -> Seq<char> {
    match kind {
        RefKind::Dir => "<referenced directory: "@ + raw + ">"@,
        RefKind::Image => "<referenced image: "@ + raw + ">"@,
        RefKind::Selection => match range {
            Some(r) => "<referenced selection: "@ + raw + " (lines "@ + decimal(r.start as nat) + "-"@
                + decimal(r.end as nat) + ")>"@,
            None => "<referenced selection: "@ + raw + ">"@,
        },
        RefKind::File => "<referenced file: "@ + raw + ">"@,
    }
}

/// The header naming a reference in the expanded message.
pub fn reference_header(kind: RefKind, raw: &str, range: Option<RefRange>) -> (s: String)
    ensures
        s@ == ref_header(kind, raw@, range),
{
    let (head, tail) = match kind {
        RefKind::Dir => ("<referenced directory: ", String::from_str(">")),
        RefKind::Image => ("<referenced image: ", String::from_str(">")),
        RefKind::File => ("<referenced file: ", String::from_str(">")),
        RefKind::Selection => match range {
            Some(r) => {
                let a = decimal_string(r.start as u64);
                let b = decimal_string(r.end as u64);
                let t1 = concat_str(" (lines ", a.as_str());
                let t2 = concat_str(t1.as_str(), "-");
                let t3 = concat_str(t2.as_str(), b.as_str());
                ("<referenced selection: ", concat_str(t3.as_str(), ")>"))
            },
            None => ("<referenced selection: ", String::from_str(">")),
        },
    };
    let h = concat_str(head, raw);
    let s = concat_str(h.as_str(), tail.as_str());
    proof {
        match kind {
            RefKind::Selection => match range {
                Some(r) => {
                    assert(s@ =~= ref_header(kind, raw@, range));
                },
                None => {},
            },
            _ => {},
        }
    }
    s
}

/// A reference's content fenced under its header.
pub open spec fn fenced(header: Seq<char>, body: Seq<char>) -> Seq<char> {
    "\n\n```"@ + header + "\n"@ + body + "\n```"@
}

/// A reference's content fenced under its header, as it is inserted into the
/// user's message.
pub fn fence(header: &str, body: &str) -> (s: String)
    ensures
        s@ == fenced(header@, body@),
{
    let a = concat_str("\n\n```", header);
    let b = concat_str(a.as_str(), "\n");
    let c = concat_str(b.as_str(), body);
    concat_str(c.as_str(), "\n```")
}

/// The placeholder body of an image reference, which is attached to the
/// message rather than inlined.
pub fn image_placeholder(raw: &str) -> (s: String)
    ensures
        s@ == "<image: "@ + raw@ + ">"@,
{
    let a = concat_str("<image: ", raw);
    concat_str(a.as_str(), ">")
}

/// The body of a reference that could not be read.
pub fn unreadable(error: &str) -> (s: String)
    ensures
        s@ == "<unreadable: "@ + error@ + ">"@,
{
    let a = concat_str("<unreadable: ", error);
    concat_str(a.as_str(), ">")
}

/// `depth` levels of two-space indentation.
pub open spec fn indent(depth: nat) -> Seq<char>
    decreases depth,
{
    if depth == 0 {
        Seq::empty()
    } else {
        indent((depth - 1) as nat) + "  "@
    }
}

/// Whether a directory entry is listed: hidden entries (leading `.`) are
/// not.
pub open spec fn listed(name: Seq<char>) -> bool {
    !(name.len() > 0 && name[0] == '.')
}

/// The line of a directory listing for an entry at `depth`: indented, with a
/// trailing `/` for a directory; nothing for a hidden entry.
pub open spec fn listing_line(depth: nat, name: Seq<char>, is_dir: bool) -> Seq<char> {
    if !listed(name) {
        Seq::empty()
    } else if is_dir {
        indent(depth) + name + "/\n"@
    } else {
        indent(depth) + name + "\n"@
    }
}

/// The line of a directory listing for one entry.
pub fn dir_entry_line(depth: usize, name: &str, is_dir: bool) -> (s: String)
    ensures
        s@ == listing_line(depth as nat, name@, is_dir),
{
    let cs = chars_of(name);
    if cs.len() > 0 && cs[0] == '.' {
        return String::new();
    }
    let mut pad = String::new();
    let mut i: usize = 0;
    while i < depth
        invariant
            i <= depth,
            pad@ == indent(i as nat),
        decreases depth - i,
    {
        pad = concat_str(pad.as_str(), "  ");
        i = i + 1;
    }
    let a = concat_str(pad.as_str(), name);
    if is_dir {
        concat_str(a.as_str(), "/\n")
    } else {
        concat_str(a.as_str(), "\n")
    }
}

/// Index of the first model named `alias`, if any.
pub fn find_named(models: &Vec<ModelConfig>, alias: &str) -> (r: Option<usize>)
    ensures
        match r {
            Some(i) => first_named(models@, alias@, i as int),
            None => !exists|k: int| first_named(models@, alias@, k),
        },
{
    let mut i: usize = 0;
    while i < models.len()
        invariant
            i <= models@.len(),
            forall|j: int| 0 <= j < i ==> (#[trigger] models@[j]).name@ != alias@,
        decreases models@.len() - i,
    {
        if same_text(models[i].name.as_str(), alias) {
            return Some(i);
        }
        i = i + 1;
    }
    assert(!exists|k: int| first_named(models@, alias@, k)) by {
        if exists|k: int| first_named(models@, alias@, k) {
            let k = choose|k: int| first_named(models@, alias@, k);
            assert(models@[k].name@ == alias@);
        }
    }
    None
}

/// A model name resolves to one model only.
proof fn lemma_first_named_unique(models: Seq<ModelConfig>, alias: Seq<char>, i: int, k: int)
    requires
        first_named(models, alias, i),
        first_named(models, alias, k),
    ensures
        i == k,
{
    if i < k {
        assert(models[i].name@ != alias);
    }
    if k < i {
        assert(models[k].name@ != alias);
    }
}

/// What the next turn changes in the loop's model settings.
#[derive(Debug, Clone)]
pub enum ModelUpdate {
    Keep,
    /// Switch to this model.
    SetModel(ModelConfig),
    /// Keep the model, with this reasoning effort.
    SetEffort(String),
}

/// Model and effort changes queued for the next turn.
#[derive(Debug, Clone)]
pub struct AgentSession {
    pending_model: Option<String>,
    pending_effort: Option<String>,
}

impl AgentSession {
    pub closed spec fn model_alias(&self) -> Option<String> {
        self.pending_model
    }

    pub closed spec fn effort(&self) -> Option<String> {
        self.pending_effort
    }

    /// Nothing queued.
    pub fn new() -> (s: Self)
        ensures
            s.model_alias() is None,
            s.effort() is None,
    {
        AgentSession { pending_model: None, pending_effort: None }
    }

    /// Queue a model alias for the next turn.
    pub fn set_pending_model(&mut self, alias: String)
        ensures
            final(self).model_alias() == Some(alias),
            final(self).effort() == old(self).effort(),
    {
        self.pending_model = Some(alias);
    }

    /// Queue a reasoning effort for the next turn.
    pub fn set_pending_effort(&mut self, effort: String)
        ensures
            final(self).effort() == Some(effort),
            final(self).model_alias() == old(self).model_alias(),
    {
        self.pending_effort = Some(effort);
    }

    pub fn pending_model(&self) -> (r: Option<&str>)
        ensures
            match r {
                Some(s) => self.model_alias() matches Some(a) && s@ == a@,
                None => self.model_alias() is None,
            },
    {
        match &self.pending_model {
            Some(a) => Some(a.as_str()),
            None => None,
        }
    }

    pub fn pending_effort(&self) -> (r: Option<&str>)
        ensures
            match r {
                Some(s) => self.effort() matches Some(e) && s@ == e@,
                None => self.effort() is None,
            },
    {
        match &self.pending_effort {
            Some(e) => Some(e.as_str()),
            None => None,
        }
    }

    /// Resolve what is queued against `cfg` and clear it: the queued model,
    /// found by name, with the queued effort when there is one; else the
    /// queued effort alone; else nothing.
    pub fn apply_pending_config(&mut self, cfg: &VibeConfig) -> (u: ModelUpdate)
        ensures
            final(self).model_alias() is None,
            final(self).effort() is None,
            ({
                let found = match old(self).model_alias() {
                    Some(a) => exists|i: int| first_named(cfg.models@, a@, i),
                    None => false,
                };
                if found {
                    let i = choose|i: int| first_named(cfg.models@, old(self).model_alias().unwrap()@, i);
                    u matches ModelUpdate::SetModel(m) && m == (ModelConfig {
                        reasoning_effort: match old(self).effort() {
                            Some(e) => Some(e),
                            None => cfg.models@[i].reasoning_effort,
                        },
                        ..cfg.models@[i]
                    })
                } else {
                    match old(self).effort() {
                        Some(e) => u matches ModelUpdate::SetEffort(x) && x == e,
                        None => u is Keep,
                    }
                }
            }),
    {
        let found: Option<ModelConfig> = match &self.pending_model {
            Some(alias) => match find_named(&cfg.models, alias.as_str()) {
                Some(i) => Some(cfg.models[i].clone()),
                None => None,
            },
            None => None,
        };
        let u = match found {
            Some(mut model) => {
                match &self.pending_effort {
                    Some(e) => {
                        model.reasoning_effort = Some(e.clone());
                    },
                    None => {},
                }
                ModelUpdate::SetModel(model)
            },
            None => match &self.pending_effort {
                Some(e) => ModelUpdate::SetEffort(e.clone()),
                None => ModelUpdate::Keep,
            },
        };
        proof {
            match old(self).model_alias() {
                Some(a) => {
                    if exists|i: int| first_named(cfg.models@, a@, i) {
                        let i = choose|i: int| first_named(cfg.models@, a@, i);
                        let j = choose|j: int| first_named(cfg.models@, a@, j);
                        lemma_first_named_unique(cfg.models@, a@, i, j);
                    }
                },
                None => {},
            }
        }
        self.pending_model = None;
        self.pending_effort = None;
        u
    }
}

/// A lower-case ladder word is its own normal form.
proof fn lemma_ladder_rank(k: int)
    requires
        0 <= k < 3,
    ensures
        effort_rank(effort_ladder()[k]) == k,
{
    reveal_strlit("low");
    reveal_strlit("medium");
    reveal_strlit("high");
    let w = effort_ladder()[k];
    assert(w.len() > 0);
    assert(!crate::text::is_ws(w[0]) && !crate::text::is_ws(w[w.len() - 1]));
    crate::text::lemma_lead_count_unique(w, true, ' ', 0);
    crate::text::lemma_trail_count_unique(w, true, ' ', 0);
    assert(w.skip(0) =~= w);
    assert(w.skip(0).take(w.len() as int) =~= w);
    assert(ascii_lowercase(w) =~= w);
    assert("low"@.len() == 3 && "medium"@.len() == 6 && "high"@.len() == 4);
}

/// A stream retry never asks for more reasoning than the request it
/// softens, and never lowers the output cap below 512 tokens.
pub proof fn law_retry_never_raises_effort(model: ModelConfig, attempt: int, m: ModelConfig)
    requires
        attempt >= 1,
        degraded(model, attempt, m),
    ensures
        model.reasoning_effort matches Some(e) ==> (m.reasoning_effort matches Some(x) && effort_rank(x@)
            <= effort_rank(e@)),
        m.max_tokens matches Some(t) ==> t >= 512,
{
    if let Some(e) = model.reasoning_effort {
        let k = degraded_rank(e@, attempt);
        lemma_ladder_rank(k);
    }
}

/// Retrying a cut stream as many times as allowed, each retry softening
/// the previous request, ends at the lowest reasoning effort.
pub proof fn law_last_retry_is_low(m0: ModelConfig, m1: ModelConfig, m2: ModelConfig, m3: ModelConfig)
    requires
        degraded(m0, 1, m1),
        degraded(m1, 2, m2),
        degraded(m2, 3, m3),
        m0.reasoning_effort is Some,
    ensures
        m3.reasoning_effort matches Some(x) && x@ == "low"@,
{
    let e0 = m0.reasoning_effort.unwrap();
    lemma_ladder_rank(degraded_rank(e0@, 1));
    let e1 = m1.reasoning_effort.unwrap();
    lemma_ladder_rank(degraded_rank(e1@, 2));
    reveal_strlit("low");
}

/// The lines `range` names of a file's text, 1-based and inclusive, cut to
/// the lines the text has, joined with line feeds; empty when none remain.
pub open spec fn range_text(text: Seq<char>, range: RefRange) -> Seq<char> {
    let ls = lines_spec(text);
    let lo: int = if range.start >= 1 { range.start - 1 } else { 0 };
    let hi: int = if (range.end as int) < ls.len() { range.end as int } else { ls.len() as int };
    if lo >= hi {
        Seq::empty()
    } else {
        joined(ls.subrange(lo, hi), "\n"@)
    }
}

/// The selected lines of a referenced file's text.
pub fn line_range(text: &str, range: RefRange) -> (s: String)
    ensures
        s@ == range_text(text@, range),
{
    let ls = text_lines(text);
    let lo: usize = if range.start >= 1 { range.start - 1 } else { 0 };
    let hi: usize = if range.end < ls.len() { range.end } else { ls.len() };
    if lo >= hi {
        return String::new();
    }
    let mut part: Vec<String> = Vec::new();
    let mut i: usize = lo;
    while i < hi
        invariant
            lo <= i <= hi <= ls.len(),
            strings_view(part@) == strings_view(ls@).subrange(lo as int, i as int),
        decreases hi - i,
    {
        let item = ls[i].clone();
        let ghost prev = part@;
        part.push(item);
        i = i + 1;
        proof {
            assert(strings_view(part@) =~= strings_view(prev).push(ls@[i - 1]@));
            assert(strings_view(ls@).subrange(lo as int, i as int) =~= strings_view(ls@).subrange(
                lo as int,
                i - 1,
            ).push(ls@[i - 1]@));
        }
    }
    join_strings(&part, "\n")
}

/// The reminder a read-only profile adds to a turn: the planning profile
/// may not change anything, the chat profile only when asked; other
/// profiles, and no profile, add none.
pub open spec fn reminder_for(profile: Option<Seq<char>>) -> Option<Seq<char>> {
    match profile {
        Some(p) => if p == "plan"@ {
            Some(
                "You are in read-only planning mode. Explore and reason about the codebase, but do not write files, edit files, or execute shell commands."@,
            )
        } else if p == "chat"@ {
            Some(
                "You are in chat mode. Answer questions and discuss the codebase. Do not modify files or run commands unless the user explicitly asks."@,
            )
        } else {
            None
        },
        None => None,
    }
}

/// The reminder the active profile, if any, adds to a turn.
pub fn read_only_reminder(profile: Option<&str>) -> (r: Option<String>)
    ensures
        match r {
            Some(s) => reminder_for(match profile { Some(p) => Some(p@), None => None }) == Some(s@),
            None => reminder_for(match profile { Some(p) => Some(p@), None => None }) is None,
        },
{
    match profile {
        Some(p) => {
            if same_text(p, "plan") {
                Some(
                    String::from_str(
                        "You are in read-only planning mode. Explore and reason about the codebase, but do not write files, edit files, or execute shell commands.",
                    ),
                )
            } else if same_text(p, "chat") {
                Some(
                    String::from_str(
                        "You are in chat mode. Answer questions and discuss the codebase. Do not modify files or run commands unless the user explicitly asks.",
                    ),
                )
            } else {
                None
            }
        },
        None => None,
    }
}

/// A skill as the hint lists it.
#[derive(Debug, Clone)]
pub struct SkillSummary {
    pub name: String,
    pub description: String,
    /// Whether the model may load it by itself.
    pub user_invocable: bool,
}

/// `name - description` of each skill the model may load, in order.
pub open spec fn invocable_entries(skills: Seq<SkillSummary>) -> Seq<Seq<char>>
    decreases skills.len(),
{
    if skills.len() == 0 {
        Seq::empty()
    } else {
        let rest = invocable_entries(skills.drop_last());
        let s = skills.last();
        if s.user_invocable {
            rest.push(s.name@ + " - "@ + s.description@)
        } else {
            rest
        }
    }
}

/// The hint that lists the skills the model may load, and how to load one;
/// none when there is no such skill.
pub open spec fn skills_hint_text(skills: Seq<SkillSummary>) -> Option<Seq<char>> {
    let entries = invocable_entries(skills);
    if entries.len() == 0 {
        None
    } else {
        Some(
            "Available skills:\n"@ + joined(entries, "\n"@)
                + "\n\nIf a task matches one of these skills, call `skill` with {\"name\": \"<skill>\"} to load detailed instructions before acting."@,
        )
    }
}

/// The skills hint for `skills`, in the order the skill manager gives them.
pub fn skills_hint(skills: &Vec<SkillSummary>) -> (r: Option<String>)
    ensures
        match r {
            Some(s) => skills_hint_text(skills@) == Some(s@),
            None => skills_hint_text(skills@) is None,
        },
{
    let mut entries: Vec<String> = Vec::new();
    let mut i: usize = 0;
    while i < skills.len()
        invariant
            i <= skills.len(),
            strings_view(entries@) == invocable_entries(skills@.take(i as int)),
        decreases skills.len() - i,
    {
        proof {
            assert(skills@.take(i + 1).drop_last() =~= skills@.take(i as int));
        }
        if skills[i].user_invocable {
            let a = concat_str(skills[i].name.as_str(), " - ");
            let e = concat_str(a.as_str(), skills[i].description.as_str());
            let ghost prev = entries@;
            entries.push(e);
            proof {
                assert(strings_view(entries@) =~= strings_view(prev).push(e@));
            }
        }
        i = i + 1;
    }
    proof {
        assert(skills@.take(skills.len() as int) =~= skills@);
    }
    if entries.len() == 0 {
        return None;
    }
    let list = join_strings(&entries, "\n");
    let a = concat_str("Available skills:\n", list.as_str());
    let s = concat_str(
        a.as_str(),
        "\n\nIf a task matches one of these skills, call `skill` with {\"name\": \"<skill>\"} to load detailed instructions before acting.",
    );
    Some(s)
}

/// The system message that follows a `skill` call whose result carries
/// non-empty `content`; no message for other tools or empty content.
pub fn skill_result_message(tool_name: &str, content: Option<&str>) -> (r: Option<String>)
    ensures
        match r {
            Some(s) => {
                &&& tool_name@ == "skill"@
                &&& content matches Some(c)
                &&& c@.len() > 0
                &&& s@ == "Skill loaded. Follow these instructions for the current task:\n\n"@ + c@
            },
            None => tool_name@ != "skill"@ || content is None || (content matches Some(c) && c@.len()
                == 0),
        },
{
    if !same_text(tool_name, "skill") {
        return None;
    }
    match content {
        Some(c) => {
            if c.is_empty() {
                None
            } else {
                Some(concat_str("Skill loaded. Follow these instructions for the current task:\n\n", c))
            }
        },
        None => None,
    }
}

pub open spec fn text_or_empty(o: Option<String>) -> Seq<char> {
    match o {
        Some(s) => s@,
        None => Seq::empty(),
    }
}

/// The fenced text a reference expands to, given what the host read for
/// it: the text of a file, the listing of a directory, or the error that
/// stopped the read. An image is never read: it becomes a placeholder. A
/// selection with a valid range takes those lines of the file's text when
/// the file was read, and otherwise the snippet captured with it, if any.
pub open spec fn expanded_ref(
    kind: RefKind,
    raw: Seq<char>,
    range: Option<RefRange>,
    snippet: Option<String>,
    read: Result<String, String>,
) -> Seq<char> {
    let header = ref_header(kind, raw, range);
    match kind {
        RefKind::Image => fenced(header, "<image: "@ + raw + ">"@),
        RefKind::Selection => fenced(
            header,
            match range {
                Some(r) => if r.start >= 1 && r.end >= r.start && read is Ok {
                    range_text(read->Ok_0@, r)
                } else {
                    text_or_empty(snippet)
                },
                None => text_or_empty(snippet),
            },
        ),
        _ => match read {
            Ok(t) => fenced(header, t@),
            Err(e) => fenced(header, "<unreadable: "@ + e@ + ">"@),
        },
    }
}

/// Whether the host reads the file behind a selection: only for a valid
/// range over a regular file.
pub fn selection_reads_file(range: Option<RefRange>, is_file: bool) -> (b: bool)
    ensures
        b == (is_file && (range matches Some(r) && r.start >= 1 && r.end >= r.start)),
{
    match range {
        Some(r) => is_file && r.is_valid(),
        None => false,
    }
}

/// The text a reference expands to, from what the host read for it.
pub fn expand_ref_block(
    kind: RefKind,
    raw: &str,
    range: Option<RefRange>,
    snippet: Option<String>,
    read: Result<String, String>,
) -> (s: String)
    ensures
        s@ == expanded_ref(kind, raw@, range, snippet, read),
{
    let header = reference_header(kind, raw, range);
    match kind {
        RefKind::Image => fence(header.as_str(), image_placeholder(raw).as_str()),
        RefKind::Selection => {
            let body = match range {
                Some(r) => {
                    if r.is_valid() {
                        match read {
                            Ok(t) => line_range(t.as_str(), r),
                            Err(_) => match snippet {
                                Some(x) => x,
                                None => String::new(),
                            },
                        }
                    } else {
                        match snippet {
                            Some(x) => x,
                            None => String::new(),
                        }
                    }
                },
                None => match snippet {
                    Some(x) => x,
                    None => String::new(),
                },
            };
            fence(header.as_str(), body.as_str())
        },
        _ => match read {
            Ok(t) => fence(header.as_str(), t.as_str()),
            Err(e) => fence(header.as_str(), unreadable(e.as_str()).as_str()),
        },
    }
}

/// A document's text with every reference expanded: plain text as it is,
/// the `j`-th block, a reference, by what the host read for it, `reads[j]`.
pub open spec fn expanded_doc(blocks: Seq<DocBlock>, reads: Seq<Result<String, String>>) -> Seq<char>
    decreases blocks.len(),
{
    if blocks.len() == 0 {
        Seq::empty()
    } else {
        let n = (blocks.len() - 1) as int;
        expanded_doc(blocks.drop_last(), reads) + match blocks[n] {
            DocBlock::Text { text } => text@,
            DocBlock::Ref { kind, path, range, snippet, depth } => expanded_ref(
                kind,
                path@,
                range,
                snippet,
                reads[n],
            ),
        }
    }
}

/// The text a document is sent as, given what the host read for each of
/// its blocks (`reads[j]` for block `j`; ignored for text blocks).
pub fn expand_doc(doc: &UserDoc, reads: Vec<Result<String, String>>) -> (s: String)
    requires
        reads.len() == doc.blocks.len(),
    ensures
        s@ == expanded_doc(doc.blocks@, reads@),
{
    let mut out = String::new();
    let mut i: usize = 0;
    while i < doc.blocks.len()
        invariant
            i <= doc.blocks.len(),
            reads.len() == doc.blocks.len(),
            out@ == expanded_doc(doc.blocks@.take(i as int), reads@),
        decreases doc.blocks.len() - i,
    {
        proof {
            assert(doc.blocks@.take(i + 1).drop_last() =~= doc.blocks@.take(i as int));
        }
        match &doc.blocks[i] {
            DocBlock::Text { text } => {
                out = concat_str(out.as_str(), text.as_str());
            },
            DocBlock::Ref { kind, path, range, snippet, depth } => {
                let snip: Option<String> = match snippet {
                    Some(x) => Some(x.clone()),
                    None => None,
                };
                let read: Result<String, String> = match &reads[i] {
                    Ok(t) => Ok(t.clone()),
                    Err(e) => Err(e.clone()),
                };
                let part = expand_ref_block(*kind, path.as_str(), *range, snip, read);
                out = concat_str(out.as_str(), part.as_str());
            },
        }
        i = i + 1;
    }
    proof {
        assert(doc.blocks@.take(doc.blocks.len() as int) =~= doc.blocks@);
    }
    out
}

} // verus!
