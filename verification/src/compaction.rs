//! When to compact a conversation, and the model-free rule that bounds
//! oversized tool results before they are handed to the model.
//!
//! Producing the summary itself is a model call made by the host.

use vstd::prelude::*;
use vstd::utf8::encode_scalar;
use crate::text::{
    byte_count, byte_len, char_width, concat_str, decimal, decimal_string, lemma_byte_len_prefix_le,
    lemma_byte_len_step,
};
use crate::types::{LLMMessage, Role};

verus! {

/// Compaction policy driven by token pressure.
#[derive(Debug, Clone, Copy)]
pub struct TokenPressureCompactor {
    /// Compaction triggers once the context holds this many tokens; `0`
    /// disables it.
    pub threshold: u64,
}

impl TokenPressureCompactor {
    pub fn new(threshold: u64) -> (c: Self)
        ensures
            c.threshold == threshold,
    {
        TokenPressureCompactor { threshold }
    }

    /// Whether to compact a context of `context_tokens` tokens, for a model
    /// whose context window is `max_context_tokens`: once a non-zero
    /// threshold is reached; never when the threshold is `0`.
    pub fn should_compact(&self, context_tokens: u64, max_context_tokens: u64) -> (b: bool)
        ensures
            b == (self.threshold > 0 && context_tokens >= self.threshold),
    {
        self.threshold > 0 && context_tokens >= self.threshold
    }
}

/// How many leading characters of `s` fit in `max` bytes.
pub open spec fn fit_count(s: Seq<char>, max: nat) -> nat
    decreases s.len(),
{
    if byte_len(s) <= max || s.len() == 0 {
        s.len()
    } else {
        fit_count(s.drop_last(), max)
    }
}

/// A tool result cut to its longest prefix of whole characters within `max`
/// bytes, with a note of how many bytes were dropped.
pub open spec fn pruned_text(s: Seq<char>, max: nat) -> Seq<char> {
    let kept = s.take(fit_count(s, max) as int);
    kept + "...\n[pruned: tool result too large, truncated "@ + decimal((byte_len(s) - byte_len(kept)) as nat)
        + " bytes]"@
}

/// Whether `m` is a tool result of more than `max` bytes.
pub open spec fn oversized(m: LLMMessage, max: nat) -> bool {
    &&& m.role == Role::Tool
    &&& m.content matches Some(c) && byte_len(c@) > max
}

/// `after` is `before` with its content replaced by the pruned text when it
/// is oversized, and otherwise unchanged.
pub open spec fn pruned_message(before: LLMMessage, after: LLMMessage, max: nat) -> bool {
    if oversized(before, max) {
        &&& after.content matches Some(c) && c@ == pruned_text(before.content.unwrap()@, max)
        &&& after == LLMMessage { content: after.content, ..before }
    } else {
        after == before
    }
}

/// Default cap, in bytes, on a tool result handed to the model.
pub const DEFAULT_PRUNE_BYTES: usize = 64000;

/// `k` is the longest prefix within `max` bytes.
proof fn lemma_fit_count(s: Seq<char>, max: nat, k: int)
    requires
        0 <= k <= s.len(),
        byte_len(s.take(k)) <= max,
        k < s.len() ==> byte_len(s.take(k + 1)) > max,
    ensures
        fit_count(s, max) == k,
    decreases s.len(),
{
    if k == s.len() {
        assert(s.take(k) =~= s);
    } else {
        lemma_byte_len_prefix_le(s, k + 1, s.len() as int);
        assert(s.take(s.len() as int) =~= s);
        let d = s.drop_last();
        assert(d.take(k) =~= s.take(k));
        if k + 1 <= d.len() {
            assert(d.take(k as int + 1) =~= s.take(k as int + 1));
        }
        lemma_fit_count(d, max, k);
    }
}

/// Number of leading characters of `s` that fit in `max` bytes, and their
/// byte length.
fn fit_prefix(s: &Vec<char>, max: usize) -> (r: (usize, usize))
    ensures
        r.0 == fit_count(s@, max as nat),
        r.0 <= s@.len(),
        r.1 == byte_len(s@.take(r.0 as int)),
{
    let mut k: usize = 0;
    let mut bytes: usize = 0;
    assert(s@.take(0) =~= Seq::<char>::empty());
    while k < s.len()
        invariant_except_break
            k <= s@.len(),
            bytes == byte_len(s@.take(k as int)),
            bytes <= max,
        ensures
            k <= s@.len(),
            bytes == byte_len(s@.take(k as int)),
            bytes <= max,
            k < s@.len() ==> byte_len(s@.take(k + 1)) > max,
        decreases s@.len() - k,
    {
        let w = char_width(s[k]);
        proof {
            lemma_byte_len_step(s@, k as int);
        }
        if w > max - bytes {
            break;
        }
        bytes = bytes + w;
        k = k + 1;
    }
    proof {
        lemma_fit_count(s@, max as nat, k as int);
    }
    (k, bytes)
}

/// The content of an oversized tool result, pruned to `max_bytes`.
fn prune_text(content: &str, max_bytes: usize) -> (r: String)
    requires
        byte_len(content@) > max_bytes,
    ensures
        r@ == pruned_text(content@, max_bytes as nat),
{
    let chars = crate::text::chars_of(content);
    let total = byte_count(content);
    let (k, cut) = fit_prefix(&chars, max_bytes);
    proof {
        lemma_byte_len_prefix_le(content@, k as int, content@.len() as int);
        assert(content@.take(content@.len() as int) =~= content@);
    }
    let kept = crate::text::string_from_chars(vstd::slice::slice_subrange(chars.as_slice(), 0, k));
    let head = concat_str(kept.as_str(), "...\n[pruned: tool result too large, truncated ");
    let n = decimal_string((total - cut) as u64);
    let with_n = concat_str(head.as_str(), n.as_str());
    let r = concat_str(with_n.as_str(), " bytes]");
    proof {
        assert(chars@.subrange(0, k as int) =~= content@.take(k as int));
    }
    r
}

/// The longest prefix of `s`, in whole characters, that fits in
/// `max_bytes` bytes.
pub fn safe_truncate(s: &str, max_bytes: usize) -> (r: String)
    ensures
        r@ == s@.take(fit_count(s@, max_bytes as nat) as int),
{
    let chars = crate::text::chars_of(s);
    let (k, _cut) = fit_prefix(&chars, max_bytes);
    proof {
        assert(chars@.subrange(0, k as int) =~= s@.take(k as int));
    }
    crate::text::string_from_chars(vstd::slice::slice_subrange(chars.as_slice(), 0, k))
}

/// Bound the content of each tool result of more than `max_bytes` bytes to
/// its longest prefix of whole characters within `max_bytes`, followed by a
/// note of how many bytes were dropped; every other message is unchanged.
pub fn prune_messages(messages: Vec<LLMMessage>, max_bytes: usize) -> (r: Vec<LLMMessage>)
    ensures
        r@.len() == messages@.len(),
        forall|i: int| 0 <= i < r@.len() ==> pruned_message(messages@[i], #[trigger] r@[i], max_bytes as nat),
{
    let mut rest = messages;
    let ghost orig = rest@;
    let mut rev: Vec<LLMMessage> = Vec::new();
    let n = rest.len();
    while rest.len() > 0
        invariant
            rest@.len() + rev@.len() == n,
            n == orig.len(),
            forall|k: int| 0 <= k < rest@.len() ==> rest@[k] == orig[k],
            forall|k: int| 0 <= k < rev@.len() ==> rev@[k] == orig[n - 1 - k],
        decreases rest@.len(),
    {
        let m = rest.pop().unwrap();
        rev.push(m);
    }
    let mut out: Vec<LLMMessage> = Vec::new();
    while rev.len() > 0
        invariant
            out@.len() + rev@.len() == n,
            n == orig.len(),
            forall|k: int| 0 <= k < rev@.len() ==> rev@[k] == orig[n - 1 - k],
            forall|k: int| 0 <= k < out@.len() ==> pruned_message(orig[k], #[trigger] out@[k], max_bytes as nat),
        decreases rev@.len(),
    {
        let mut m = rev.pop().unwrap();
        let ghost before = m;
        let is_tool = match m.role {
            Role::Tool => true,
            _ => false,
        };
        if is_tool {
            let new_content = match &m.content {
                Some(c) => {
                    if byte_count(c.as_str()) > max_bytes {
                        Some(prune_text(c.as_str(), max_bytes))
                    } else {
                        None
                    }
                },
                None => None,
            };
            if new_content.is_some() {
                m.content = new_content;
            }
        }
        assert(pruned_message(before, m, max_bytes as nat));
        out.push(m);
    }
    out
}

/// The kept part of a pruned tool result is a prefix of it that fits in the
/// byte budget, and no longer prefix fits.
pub proof fn law_pruned_prefix_fits(s: Seq<char>, max: nat)
    ensures
        fit_count(s, max) <= s.len(),
        byte_len(s.take(fit_count(s, max) as int)) <= max,
        fit_count(s, max) < s.len() ==> byte_len(s.take(fit_count(s, max) as int + 1)) > max,
    decreases s.len(),
{
    if byte_len(s) <= max || s.len() == 0 {
        assert(s.take(s.len() as int) =~= s);
    } else {
        let d = s.drop_last();
        law_pruned_prefix_fits(d, max);
        let k = fit_count(d, max);
        assert(d.take(k as int) =~= s.take(k as int));
        if k < d.len() {
            assert(d.take(k as int + 1) =~= s.take(k as int + 1));
        } else {
            assert(s.take(k as int + 1) =~= s);
        }
    }
}

/// The lower-case name of a role, as it heads a transcript entry.
pub open spec fn role_name(r: Role) -> Seq<char> {
    match r {
        Role::System => "system"@,
        Role::User => "user"@,
        Role::Assistant => "assistant"@,
        Role::Tool => "tool"@,
    }
}

fn role_label(r: Role) -> (s: &'static str)
    ensures
        s@ == role_name(r),
{
    match r {
        Role::System => "system",
        Role::User => "user",
        Role::Assistant => "assistant",
        Role::Tool => "tool",
    }
}

/// One transcript entry: `role: content`, `[no content]` standing for an
/// absent content.
pub open spec fn transcript_entry(m: LLMMessage) -> Seq<char> {
    role_name(m.role) + ": "@ + match m.content {
        Some(c) => c@,
        None => "[no content]"@,
    }
}

/// The transcript handed to the model to summarize: the entries joined by
/// a `---` separator between blank lines.
pub open spec fn summary_transcript(ms: Seq<LLMMessage>) -> Seq<char>
    decreases ms.len(),
{
    if ms.len() == 0 {
        Seq::empty()
    } else if ms.len() == 1 {
        transcript_entry(ms[0])
    } else {
        summary_transcript(ms.drop_last()) + "\n\n---\n\n"@ + transcript_entry(ms.last())
    }
}

/// The transcript of `messages` to summarize.
pub fn transcript_for_summary(messages: &Vec<LLMMessage>) -> (s: String)
    ensures
        s@ == summary_transcript(messages@),
{
    let mut s = String::new();
    let mut i: usize = 0;
    while i < messages.len()
        invariant
            i <= messages@.len(),
            s@ == summary_transcript(messages@.take(i as int)),
        decreases messages@.len() - i,
    {
        assert(messages@.take(i + 1).drop_last() =~= messages@.take(i as int));
        let m = &messages[i];
        if i > 0 {
            s.append("\n\n---\n\n");
        }
        s.append(role_label(m.role));
        s.append(": ");
        match &m.content {
            Some(c) => s.append(c.as_str()),
            None => s.append("[no content]"),
        }
        i = i + 1;
    }
    assert(messages@.take(i as int) =~= messages@);
    s
}

/// The stored summary: the prefix, a blank line, and the model's summary.
pub fn summary_with_prefix(prefix: &str, summary: &str) -> (s: String)
    ensures
        s@ == prefix@ + "\n\n"@ + summary@,
{
    let a = concat_str(prefix, "\n\n");
    concat_str(a.as_str(), summary)
}

/// The rough size of a text for the shrink check: a quarter of its
/// characters.
pub open spec fn quarter_chars(s: Seq<char>) -> nat {
    s.len() / 4
}

/// The rough size of the summarized messages.
pub open spec fn quarter_chars_all(ms: Seq<LLMMessage>) -> nat
    decreases ms.len(),
{
    if ms.len() == 0 {
        0
    } else {
        quarter_chars_all(ms.drop_last()) + quarter_chars(
            match ms.last().content {
                Some(c) => c@,
                None => Seq::empty(),
            },
        )
    }
}

/// Whether a summary is worth keeping: its rough size is below that of the
/// messages it replaces.
pub fn summary_shrinks(messages: &Vec<LLMMessage>, summary: &str) -> (b: bool)
    ensures
        b == (quarter_chars(summary@) < quarter_chars_all(messages@)),
{
    let mut old_est: u64 = 0;
    let mut big = false;
    let mut i: usize = 0;
    while i < messages.len()
        invariant
            i <= messages@.len(),
            big ==> quarter_chars_all(messages@.take(i as int)) > u64::MAX,
            !big ==> old_est == quarter_chars_all(messages@.take(i as int)),
        decreases messages@.len() - i,
    {
        assert(messages@.take(i + 1).drop_last() =~= messages@.take(i as int));
        let n: usize = match &messages[i].content {
            Some(c) => crate::text::chars_of(c.as_str()).len(),
            None => 0,
        };
        let q: u64 = (n / 4) as u64;
        if big || old_est > u64::MAX - q {
            big = true;
        } else {
            old_est = old_est + q;
        }
        i = i + 1;
    }
    assert(messages@.take(i as int) =~= messages@);
    let new_est: u64 = (crate::text::chars_of(summary).len() / 4) as u64;
    big || new_est < old_est
}

} // verus!
