//! Decisions taken before each turn (turn, token and compaction limits) and
//! the rules by which a pipeline of middlewares combines its members'
//! answers.
//!
//! The price limit and the context warning compare floating-point values and
//! are kept by the host; so is awaiting user-supplied hooks, whose answers are
//! combined here.

use vstd::prelude::*;
use crate::compaction::TokenPressureCompactor;
use crate::text::{concat_str, decimal, decimal_string};
use crate::types::LLMMessage;

verus! {

/// What a middleware asks of the loop before a turn.
#[derive(Debug, Clone, Copy, PartialEq, Eq, Structural)]
pub enum MiddlewareAction {
    Continue,
    Stop,
    Compact,
    InjectMessage,
}

/// Why middleware state is reset.
#[derive(Debug, Clone, Copy, PartialEq, Eq, Structural)]
pub enum ResetReason {
    Stop,
    Compact,
}

/// A snapshot of the loop when a turn is about to end.
#[derive(Debug, Clone)]
pub struct TurnStoppingContext {
    pub working_dir: String,
    pub session_dir: Option<String>,
    pub auto_approve: bool,
    pub transcript_len: usize,
}

/// What a turn-stopping hook decides: carry on, add a follow-up message, or
/// abort the turn with a reason.
#[derive(Debug)]
pub enum TurnStoppingDecision {
    Continue,
    Inject(LLMMessage),
    Abort(String),
}

/// The counters the middlewares read before a turn.
#[derive(Debug, Clone, Copy)]
pub struct ConversationContext {
    /// Turns taken so far.
    pub steps: u32,
    /// Tokens billed over the whole session.
    pub session_total_llm_tokens: u64,
    /// Tokens in the live context.
    pub context_tokens: u64,
    /// Context window of the model.
    pub max_context_tokens: u64,
}

/// A middleware's answer. `old_tokens` is the context size recorded when a
/// compaction is requested.
#[derive(Debug, Clone)]
pub struct MiddlewareResult {
    pub action: MiddlewareAction,
    pub message: Option<String>,
    pub reason: Option<String>,
    pub old_tokens: Option<u64>,
}

pub open spec fn is_continue(r: MiddlewareResult) -> bool {
    &&& r.action == MiddlewareAction::Continue
    &&& r.message is None
    &&& r.reason is None
    &&& r.old_tokens is None
}

impl Default for MiddlewareResult {
    fn default() -> (r: Self)
        ensures
            is_continue(r),
    {
        MiddlewareResult { action: MiddlewareAction::Continue, message: None, reason: None, old_tokens: None }
    }
}

/// Stops the loop after a number of turns.
#[derive(Debug, Clone, Copy)]
pub struct TurnLimitMiddleware {
    max_turns: u32,
}

impl TurnLimitMiddleware {
    pub closed spec fn max_turns(&self) -> u32 {
        self.max_turns
    }

    pub fn new(max_turns: u32) -> (m: Self)
        ensures
            m.max_turns() == max_turns,
    {
        TurnLimitMiddleware { max_turns }
    }

    /// Stop once `max_turns` turns have been taken.
    pub fn before_turn(&self, context: &ConversationContext) -> (r: MiddlewareResult)
        ensures
            context.steps >= self.max_turns() ==> {
                &&& r.action == MiddlewareAction::Stop
                &&& r.reason matches Some(m) && m@ == "Turn limit of "@ + decimal(self.max_turns() as nat)
                    + " reached"@
                &&& r.message is None && r.old_tokens is None
            },
            context.steps < self.max_turns() ==> is_continue(r),
    {
        if context.steps >= self.max_turns {
            let n = decimal_string(self.max_turns as u64);
            let head = concat_str("Turn limit of ", n.as_str());
            MiddlewareResult {
                action: MiddlewareAction::Stop,
                message: None,
                reason: Some(concat_str(head.as_str(), " reached")),
                old_tokens: None,
            }
        } else {
            MiddlewareResult::default()
        }
    }
}

/// Stops the loop once the session has used more tokens than allowed.
#[derive(Debug, Clone, Copy)]
pub struct TokenLimitMiddleware {
    max_tokens: u64,
}

impl TokenLimitMiddleware {
    pub closed spec fn max_tokens(&self) -> u64 {
        self.max_tokens
    }

    pub fn new(max_tokens: u64) -> (m: Self)
        ensures
            m.max_tokens() == max_tokens,
    {
        TokenLimitMiddleware { max_tokens }
    }

    /// Stop once the session total exceeds `max_tokens`.
    pub fn before_turn(&self, context: &ConversationContext) -> (r: MiddlewareResult)
        ensures
            context.session_total_llm_tokens > self.max_tokens() ==> {
                &&& r.action == MiddlewareAction::Stop
                &&& r.reason matches Some(m) && m@ == "Token limit exceeded: "@ + decimal(
                    context.session_total_llm_tokens as nat,
                ) + " > "@ + decimal(self.max_tokens() as nat)
                &&& r.message is None && r.old_tokens is None
            },
            context.session_total_llm_tokens <= self.max_tokens() ==> is_continue(r),
    {
        if context.session_total_llm_tokens > self.max_tokens {
            let used = decimal_string(context.session_total_llm_tokens);
            let cap = decimal_string(self.max_tokens);
            let a = concat_str("Token limit exceeded: ", used.as_str());
            let b = concat_str(a.as_str(), " > ");
            MiddlewareResult {
                action: MiddlewareAction::Stop,
                message: None,
                reason: Some(concat_str(b.as_str(), cap.as_str())),
                old_tokens: None,
            }
        } else {
            MiddlewareResult::default()
        }
    }
}

/// Requests a compaction when the compactor says so.
#[derive(Debug, Clone, Copy)]
pub struct AutoCompactMiddleware {
    compactor: TokenPressureCompactor,
}

impl AutoCompactMiddleware {
    pub closed spec fn compactor(&self) -> TokenPressureCompactor {
        self.compactor
    }

    pub fn new(compactor: TokenPressureCompactor) -> (m: Self)
        ensures
            m.compactor() == compactor,
    {
        AutoCompactMiddleware { compactor }
    }

    /// Backed by a token-pressure compactor with `threshold`.
    pub fn with_threshold(threshold: u64) -> (m: Self)
        ensures
            m.compactor().threshold == threshold,
    {
        Self::new(TokenPressureCompactor::new(threshold))
    }

    /// Ask for a compaction, recording the current context size, when the
    /// compactor's threshold is reached.
    pub fn before_turn(&self, context: &ConversationContext) -> (r: MiddlewareResult)
        ensures
            ({
                let t = self.compactor().threshold;
                if t > 0 && context.context_tokens >= t {
                    &&& r.action == MiddlewareAction::Compact
                    &&& r.old_tokens == Some(context.context_tokens)
                    &&& r.message is None && r.reason is None
                } else {
                    is_continue(r)
                }
            }),
    {
        if self.compactor.should_compact(context.context_tokens, context.max_context_tokens) {
            MiddlewareResult {
                action: MiddlewareAction::Compact,
                message: None,
                reason: None,
                old_tokens: Some(context.context_tokens),
            }
        } else {
            MiddlewareResult::default()
        }
    }
}

/// `i` is the first answer that is not `Continue`.
pub open spec fn is_first_decisive(results: Seq<MiddlewareResult>, i: int) -> bool {
    &&& 0 <= i < results.len()
    &&& results[i].action != MiddlewareAction::Continue
    &&& forall|j: int| 0 <= j < i ==> (#[trigger] results[j]).action == MiddlewareAction::Continue
}

/// Index of the first answer that is not `Continue`, if any.
pub open spec fn first_decisive(results: Seq<MiddlewareResult>) -> Option<int> {
    if exists|i: int| is_first_decisive(results, i) {
        Some(choose|i: int| is_first_decisive(results, i))
    } else {
        None
    }
}

/// The answer of a sequence of turn-stopping hooks: the first abort, else
/// the last injected message, else carry on.
pub open spec fn turn_stopping_outcome(decisions: Seq<TurnStoppingDecision>) -> TurnStoppingDecision
    decreases decisions.len(),
{
    if decisions.len() == 0 {
        TurnStoppingDecision::Continue
    } else {
        let rest = turn_stopping_outcome(decisions.drop_last());
        match rest {
            TurnStoppingDecision::Abort(r) => TurnStoppingDecision::Abort(r),
            _ => match decisions.last() {
                TurnStoppingDecision::Abort(r) => TurnStoppingDecision::Abort(r),
                TurnStoppingDecision::Inject(m) => TurnStoppingDecision::Inject(m),
                TurnStoppingDecision::Continue => rest,
            },
        }
    }
}

/// The middlewares' combining rules.
pub struct MiddlewarePipeline;

impl MiddlewarePipeline {
    /// The answers of the middlewares, in order, combined: the first that is
    /// not `Continue` wins; when all continue, so does the pipeline.
    pub fn run_before_turn(results: Vec<MiddlewareResult>) -> (r: MiddlewareResult)
        ensures
            match first_decisive(results@) {
                Some(i) => r == results@[i],
                None => is_continue(r),
            },
    {
        let ghost orig = results@;
        let mut rest = results;
        let n = rest.len();
        let mut rev: Vec<MiddlewareResult> = Vec::new();
        while rest.len() > 0
            invariant
                rest@.len() + rev@.len() == n,
                n == orig.len(),
                forall|k: int| 0 <= k < rest@.len() ==> rest@[k] == orig[k],
                forall|k: int| 0 <= k < rev@.len() ==> rev@[k] == orig[n - 1 - k],
            decreases rest@.len(),
        {
            let x = rest.pop().unwrap();
            rev.push(x);
        }
        let mut done: usize = 0;
        while rev.len() > 0
            invariant
                done + rev@.len() == n,
                n == orig.len(),
                orig == results@,
                forall|k: int| 0 <= k < rev@.len() ==> rev@[k] == orig[n - 1 - k],
                forall|j: int| 0 <= j < done ==> (#[trigger] orig[j]).action == MiddlewareAction::Continue,
            decreases rev@.len(),
        {
            let ghost len0 = rev@.len();
            let x = rev.pop().unwrap();
            assert(x == orig[n - 1 - (len0 - 1)]);
            match x.action {
                MiddlewareAction::Continue => {},
                _ => {
                    proof {
                        assert(is_first_decisive(orig, done as int));
                        let i = choose|i: int| is_first_decisive(orig, i);
                        if i < done {
                            assert(orig[i].action == MiddlewareAction::Continue);
                        }
                        if i > done {
                            assert(orig[done as int].action == MiddlewareAction::Continue);
                        }
                    }
                    return x;
                },
            }
            done = done + 1;
        }
        assert(!exists|i: int| is_first_decisive(orig, i)) by {
            if exists|i: int| is_first_decisive(orig, i) {
                let i = choose|i: int| is_first_decisive(orig, i);
                assert(orig[i].action == MiddlewareAction::Continue);
            }
        }
        MiddlewareResult::default()
    }

    /// The decisions of the turn-stopping hooks, in order, combined: an
    /// abort ends the turn, the last injected message is kept, and when every
    /// hook carries on so does the pipeline.
    pub fn run_turn_stopping(decisions: Vec<TurnStoppingDecision>) -> (r: TurnStoppingDecision)
        ensures
            r == turn_stopping_outcome(decisions@),
    {
        let ghost orig = decisions@;
        let mut rest = decisions;
        let n = rest.len();
        let mut rev: Vec<TurnStoppingDecision> = Vec::new();
        while rest.len() > 0
            invariant
                rest@.len() + rev@.len() == n,
                n == orig.len(),
                forall|k: int| 0 <= k < rest@.len() ==> rest@[k] == orig[k],
                forall|k: int| 0 <= k < rev@.len() ==> rev@[k] == orig[n - 1 - k],
            decreases rest@.len(),
        {
            let x = rest.pop().unwrap();
            rev.push(x);
        }
        let mut injected: Option<LLMMessage> = None;
        let mut done: usize = 0;
        while rev.len() > 0
            invariant
                done + rev@.len() == n,
                n == orig.len(),
                orig == decisions@,
                forall|k: int| 0 <= k < rev@.len() ==> rev@[k] == orig[n - 1 - k],
                turn_stopping_outcome(orig.take(done as int)) == match injected {
                    Some(m) => TurnStoppingDecision::Inject(m),
                    None => TurnStoppingDecision::Continue,
                },
            decreases rev@.len(),
        {
            let ghost len0 = rev@.len();
            let x = rev.pop().unwrap();
            assert(x == orig[n - 1 - (len0 - 1)]);
            proof {
                assert(orig.take(done + 1).drop_last() =~= orig.take(done as int));
                assert(orig.take(done + 1).last() == orig[done as int]);
            }
            match x {
                TurnStoppingDecision::Abort(reason) => {
                    proof {
                        assert(turn_stopping_outcome(orig.take(done + 1)) == TurnStoppingDecision::Abort(reason));
                        lemma_abort_stays(orig, done as int + 1);
                    }
                    return TurnStoppingDecision::Abort(reason);
                },
                TurnStoppingDecision::Inject(msg) => {
                    injected = Some(msg);
                },
                TurnStoppingDecision::Continue => {},
            }
            done = done + 1;
        }
        assert(orig.take(done as int) =~= orig);
        match injected {
            Some(msg) => TurnStoppingDecision::Inject(msg),
            None => TurnStoppingDecision::Continue,
        }
    }
}

/// Once the hooks so far have aborted, later hooks change nothing.
proof fn lemma_abort_stays(d: Seq<TurnStoppingDecision>, k: int)
    requires
        0 <= k <= d.len(),
        turn_stopping_outcome(d.take(k)) is Abort,
    ensures
        turn_stopping_outcome(d) == turn_stopping_outcome(d.take(k)),
    decreases d.len() - k,
{
    if k == d.len() {
        assert(d.take(k) =~= d);
    } else {
        assert(d.take(k + 1).drop_last() =~= d.take(k));
        lemma_abort_stays(d, k + 1);
    }
}

/// An abort by any hook decides the pipeline's answer.
pub proof fn law_abort_wins(decisions: Seq<TurnStoppingDecision>, i: int)
    requires
        0 <= i < decisions.len(),
        decisions[i] is Abort,
    ensures
        turn_stopping_outcome(decisions) is Abort,
    decreases decisions.len(),
{
    if i < decisions.len() - 1 {
        law_abort_wins(decisions.drop_last(), i);
    }
}

} // verus!
