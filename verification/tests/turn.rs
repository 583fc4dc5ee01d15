use arrow_coder::config::ModelConfig;
use arrow_coder::middleware::{MiddlewareAction, MiddlewareResult};
use arrow_coder::tui_app::{ApprovalResponse, ApprovalType};
use arrow_coder::turn::{
    after_interruption, assistant_with_calls, backend_messages, compaction_failure, llm_failure, next_tool_step,
    open_turn, profile_prompt, request_tokens, session_command, snapshot_target, surfaced_reasoning,
    tool_call_id, truncated_by_length, turn_tokens, wants_tools, AfterCut, PermissionCheck, PipelineFlow,
    SessionCommand, StreamReply, ToolCheck, ToolNext, TurnOpening,
};
use arrow_coder::types::{FunctionCall, LLMChunk, LLMMessage, LLMUsage, Role, SessionTokens, ToolCall};

fn result(action: MiddlewareAction, message: Option<&str>, reason: Option<&str>, old: Option<u64>) -> MiddlewareResult {
    MiddlewareResult {
        action,
        message: message.map(|s| s.to_string()),
        reason: reason.map(|s| s.to_string()),
        old_tokens: old,
    }
}

#[test]
fn turn_opening_follows_the_middleware() {
    match open_turn(&result(MiddlewareAction::Stop, None, Some("too many"), None)) {
        TurnOpening::Fail(m) => assert_eq!(m, "too many"),
        other => panic!("unexpected {:?}", other),
    }
    match open_turn(&result(MiddlewareAction::Stop, None, None, None)) {
        TurnOpening::Fail(m) => assert_eq!(m, "Middleware stopped the turn."),
        other => panic!("unexpected {:?}", other),
    }
    assert!(matches!(
        open_turn(&result(MiddlewareAction::InjectMessage, Some("note"), None, None)),
        TurnOpening::Inject(ref m) if m == "note"
    ));
    assert!(matches!(open_turn(&result(MiddlewareAction::InjectMessage, None, None, None)), TurnOpening::Proceed));
    assert!(matches!(open_turn(&result(MiddlewareAction::Compact, None, None, None)), TurnOpening::Compact(0)));
    assert!(matches!(open_turn(&result(MiddlewareAction::Compact, None, None, Some(9))), TurnOpening::Compact(9)));
    assert!(matches!(open_turn(&MiddlewareResult::default()), TurnOpening::Proceed));
}

#[test]
fn turn_error_messages() {
    assert_eq!(compaction_failure("boom"), "Context compaction failed: boom");
    assert_eq!(llm_failure("timeout"), "LLM error: timeout");
    assert_eq!(session_command("compact"), Ok(SessionCommand::Compact));
    assert_eq!(session_command("undo"), Ok(SessionCommand::Undo));
    assert_eq!(session_command("dance"), Err("Unknown command: /dance".to_string()));
}

fn call(id: Option<&str>, index: Option<usize>, name: &str, args: &str) -> ToolCall {
    ToolCall {
        id: id.map(|s| s.to_string()),
        index,
        function: FunctionCall { name: name.to_string(), arguments: args.to_string() },
        call_type: None,
    }
}

#[test]
fn reply_classification() {
    assert!(truncated_by_length(&Some("length".to_string())));
    assert!(!truncated_by_length(&Some("stop".to_string())));
    assert!(!truncated_by_length(&None));
    assert!(!wants_tools(&None));
    assert!(!wants_tools(&Some(vec![])));
    assert!(wants_tools(&Some(vec![call(None, None, "ls", "{}")])));
    assert_eq!(surfaced_reasoning(&Some("  \n".to_string())), None);
    assert_eq!(surfaced_reasoning(&Some("why".to_string())), Some("why".to_string()));
    assert_eq!(tool_call_id(&None, 7), "call-7");
    assert_eq!(tool_call_id(&Some("abc".to_string()), 7), "abc");
}

fn text_chunk(text: &str) -> LLMChunk {
    LLMChunk::new(LLMMessage::assistant(text.to_string()), None)
}

#[test]
fn stream_reply_drops_repeated_deltas() {
    let mut r = StreamReply::new();
    assert_eq!(r.absorb(text_chunk("Hel")).text.as_deref(), Some("Hel"));
    // An identical delta right after is a repeat.
    assert_eq!(r.absorb(text_chunk("Hel")).text, None);
    assert_eq!(r.absorb(text_chunk("lo")).text.as_deref(), Some("lo"));
    assert_eq!(r.content, "Hello");
    let mut m = LLMMessage::assistant(String::new());
    m.reasoning_content = Some("think".to_string());
    let out = r.absorb(LLMChunk::new(m, Some(LLMUsage::default())));
    assert_eq!(out.reasoning.as_deref(), Some("think"));
    assert!(r.usage.is_some());
    let fin = LLMChunk::with_finish_reason(LLMMessage::assistant(String::new()), None, "stop".to_string());
    r.absorb(fin);
    assert_eq!(r.finish_reason.as_deref(), Some("stop"));
    r.absorb(LLMChunk::interrupted());
    assert!(r.interrupted);
}

fn calls_chunk(calls: Vec<ToolCall>) -> LLMChunk {
    let mut m = LLMMessage::assistant(String::new());
    m.tool_calls = Some(calls);
    LLMChunk::new(m, None)
}

#[test]
fn stream_reply_assembles_tool_calls_by_index() {
    let mut r = StreamReply::new();
    r.absorb(calls_chunk(vec![call(Some("c1"), Some(0), "read", "{\"pa")]));
    r.absorb(calls_chunk(vec![call(None, Some(0), "", "th\":1}"), call(Some("c2"), Some(1), "ls", "{}")]));
    r.absorb(calls_chunk(vec![call(Some(""), Some(1), "", "")]));
    assert!(r.has_tool_calls);
    assert_eq!(r.tool_calls.len(), 2);
    assert_eq!(r.tool_calls[0].id.as_deref(), Some("c1"));
    assert_eq!(r.tool_calls[0].function.name, "read");
    assert_eq!(r.tool_calls[0].function.arguments, "{\"path\":1}");
    assert_eq!(r.tool_calls[1].id.as_deref(), Some("c2"));
}

#[test]
fn interruption_runs_complete_calls_else_retries_then_gives_up() {
    let model = {
        let mut m = ModelConfig::new("m".to_string(), "m".to_string(), "p".to_string());
        m.reasoning_effort = Some("high".to_string());
        m.max_tokens = Some(4096);
        m
    };
    let mut done = StreamReply::new();
    done.absorb(calls_chunk(vec![call(Some("c"), Some(0), "ls", "{\"a\": 1}")]));
    assert!(matches!(after_interruption(&done, 0, false, &model), AfterCut::RunTools));

    let mut partial = StreamReply::new();
    partial.absorb(calls_chunk(vec![call(Some("c"), Some(0), "ls", "{\"a\": ")]));
    match after_interruption(&partial, 0, false, &model) {
        AfterCut::Retry { attempt, model: m } => {
            assert_eq!(attempt, 1);
            assert_eq!(m.reasoning_effort.as_deref(), Some("high"));
            assert_eq!(m.max_tokens, Some(2048));
        },
        other => panic!("unexpected {:?}", other),
    }
    match after_interruption(&partial, 3, false, &model) {
        AfterCut::GiveUp(e) => {
            assert_eq!(e, "Stream interrupted 3 time(s) without a complete response; giving up.")
        },
        other => panic!("unexpected {:?}", other),
    }
    assert!(matches!(after_interruption(&StreamReply::new(), 1, true, &model), AfterCut::GiveUp(_)));
}

#[test]
fn tool_gate_steps() {
    match next_tool_step("grep", ToolCheck::Args { parse_error: Some("EOF".to_string()), found: true }) {
        ToolNext::Reject { error, counted } => {
            assert!(counted);
            assert_eq!(
                error,
                "Invalid JSON arguments for tool 'grep': EOF. The 'arguments' field must be a single valid JSON object. Please re-generate the tool call with correct arguments."
            );
        },
        other => panic!("unexpected {:?}", other),
    }
    match next_tool_step("nope", ToolCheck::Args { parse_error: None, found: false }) {
        ToolNext::Reject { error, counted } => {
            assert!(!counted);
            assert_eq!(error, "Tool 'nope' not found");
        },
        other => panic!("unexpected {:?}", other),
    }
    assert!(matches!(next_tool_step("x", ToolCheck::Args { parse_error: None, found: true }), ToolNext::RunPipeline));
    assert!(matches!(next_tool_step("x", ToolCheck::Pipeline(PipelineFlow::Pass)), ToolNext::CheckPermission));
    assert!(matches!(next_tool_step("x", ToolCheck::Pipeline(PipelineFlow::Allow)), ToolNext::UsePipelineOutput));
    assert!(matches!(
        next_tool_step("x", ToolCheck::Pipeline(PipelineFlow::Deny("hook".to_string()))),
        ToolNext::Reject { ref error, counted: false } if error == "hook"
    ));
    assert!(matches!(
        next_tool_step("x", ToolCheck::Permission(PermissionCheck::Allow)),
        ToolNext::Invoke { remember: false }
    ));
    assert!(matches!(
        next_tool_step("x", ToolCheck::Permission(PermissionCheck::Deny("ro".to_string()))),
        ToolNext::Reject { ref error, counted: true } if error == "Permission denied: ro"
    ));
    assert!(matches!(next_tool_step("x", ToolCheck::Permission(PermissionCheck::Confirm)), ToolNext::AskUser));
    assert!(matches!(
        next_tool_step("x", ToolCheck::Answer(ApprovalResponse::Yes, ApprovalType::Session)),
        ToolNext::Invoke { remember: true }
    ));
    assert!(matches!(
        next_tool_step("x", ToolCheck::Answer(ApprovalResponse::Yes, ApprovalType::Once)),
        ToolNext::Invoke { remember: false }
    ));
    assert!(matches!(
        next_tool_step("x", ToolCheck::Answer(ApprovalResponse::No, ApprovalType::Always)),
        ToolNext::Reject { ref error, counted: true } if error == "Tool invocation was not approved"
    ));
}

#[test]
fn request_token_count() {
    let msgs = backend_messages(vec![
        LLMMessage::system("ignored system prompt".to_string()),
        LLMMessage::user("abcdefgh".to_string()),
        LLMMessage::assistant("中文字".to_string()),
    ]);
    assert_eq!(msgs.len(), 2);
    assert_eq!(msgs[0].role, Role::User);
    // 8/4 = 2 and (3+1)/2 = 2.
    assert_eq!(request_tokens(&msgs, &vec![]), 4);
    // Tools: "lsList files" is 12 characters, 3 tokens.
    assert_eq!(request_tokens(&msgs, &vec![("ls".to_string(), "List files".to_string())]), 7);
}

#[test]
fn snapshot_targets_and_turn_tokens() {
    assert_eq!(snapshot_target("edit", Some("a.rs".to_string())), Some("a.rs".to_string()));
    assert_eq!(snapshot_target("bash", Some("a.rs".to_string())), None);
    let now = SessionTokens {
        session_prompt_tokens: 150,
        session_completion_tokens: 40,
        session_total_tokens: 190,
        session_cache_hit_tokens: 10,
        session_reasoning_tokens: 5,
    };
    let base = SessionTokens {
        session_prompt_tokens: 100,
        session_completion_tokens: 50,
        session_total_tokens: 150,
        session_cache_hit_tokens: 0,
        session_reasoning_tokens: 0,
    };
    let t = turn_tokens(&now, &base);
    assert_eq!(t.prompt_tokens, 50);
    assert_eq!(t.completion_tokens, 0);
    assert_eq!(t.total_tokens, 50);
    assert_eq!(t.cache_hit_tokens, 10);
}

#[test]
fn assistant_message_with_calls() {
    let m = assistant_with_calls(String::new(), vec![call(Some("c"), Some(0), "ls", "{}")]);
    assert_eq!(m.role, Role::Assistant);
    assert_eq!(m.content, None);
    assert_eq!(m.tool_calls.as_ref().unwrap().len(), 1);
    let m = assistant_with_calls("text".to_string(), vec![]);
    assert_eq!(m.content.as_deref(), Some("text"));
    assert_eq!(profile_prompt("Coder", "Writes code.", "Be brief."), "You are the 'Coder' agent. Writes code.\n\nBe brief.");
}

use arrow_coder::session_log::{llm_message_to_events, now_ts, SessionEvent};

#[test]
fn messages_become_log_entries() {
    let es = llm_message_to_events(&LLMMessage::user("hi".to_string()), 7);
    assert!(matches!(&es[..], [SessionEvent::UserMessage { text, ts: 7 }] if text == "hi"));
    let mut a = LLMMessage::assistant(String::new());
    a.tool_calls = Some(vec![call(None, Some(0), "ls", "{\"p\":1}"), call(Some("c2"), Some(1), "rm", "{oops")]);
    let es = llm_message_to_events(&a, 1);
    assert_eq!(es.len(), 2);
    match (&es[0], &es[1]) {
        (
            SessionEvent::ToolCall { id: id0, args_json: a0, .. },
            SessionEvent::ToolCall { id: id1, args_json: a1, name, .. },
        ) => {
            assert_eq!(id0, "call");
            assert_eq!(a0, "{\"p\":1}");
            assert_eq!(id1, "c2");
            assert_eq!(name, "rm");
            // Arguments that are not JSON are logged as an empty object.
            assert_eq!(a1, "{}");
        },
        other => panic!("unexpected {:?}", other),
    }
    let mut t = LLMMessage::tool("out".to_string(), "x".to_string(), "ls".to_string());
    t.tool_call_id = None;
    match &llm_message_to_events(&t, 2)[..] {
        [SessionEvent::ToolResult { id, name, value, error: None, .. }] => {
            assert_eq!(id, "tool-ls");
            assert_eq!(name, "ls");
            assert_eq!(value, "out");
        },
        other => panic!("unexpected {:?}", other),
    }
    assert!(llm_message_to_events(&LLMMessage::system("s".to_string()), 0).is_empty());
    assert!(now_ts() > 1_600_000_000_000);
}

use arrow_coder::turn::{tool_round, ReplyEnd};

#[test]
fn tool_round_pairs_each_call_with_its_result() {
    let calls = vec![call(Some("a"), Some(0), "read", "{}"), call(None, Some(1), "ls", "{}")];
    let ms = tool_round("looking".to_string(), calls, vec!["one".to_string(), "two".to_string()]);
    assert_eq!(ms.len(), 3);
    assert_eq!(ms[0].role, Role::Assistant);
    assert_eq!(ms[0].content.as_deref(), Some("looking"));
    assert_eq!(ms[0].tool_calls.as_ref().map(|v| v.len()), Some(2));
    assert_eq!(ms[1].role, Role::Tool);
    assert_eq!(ms[1].content.as_deref(), Some("one"));
    assert_eq!(ms[1].tool_call_id.as_deref(), Some("a"));
    assert_eq!(ms[2].content.as_deref(), Some("two"));
    assert_eq!(ms[2].tool_call_id.as_deref(), Some("call-1"));
    assert_eq!(ms[2].name.as_deref(), Some("ls"));
    let empty = tool_round(String::new(), vec![call(Some("z"), None, "x", "")], vec!["r".to_string()]);
    assert_eq!(empty[0].content, None);
}

#[test]
fn finished_reply_runs_tools_or_answers() {
    let mut r = StreamReply::new();
    r.absorb(calls_chunk(vec![call(Some("c1"), Some(0), "read", "{}")]));
    match r.finish() {
        ReplyEnd::RunTools { calls, .. } => assert_eq!(calls[0].function.name, "read"),
        other => panic!("unexpected {:?}", other),
    }
    let mut t = StreamReply::new();
    t.absorb(text_chunk("done"));
    match t.finish() {
        ReplyEnd::Answer(text) => assert_eq!(text, "done"),
        other => panic!("unexpected {:?}", other),
    }
}

fn paired(ms: &[LLMMessage]) -> bool {
    ms.iter().enumerate().all(|(i, m)| {
        if m.role != Role::Tool {
            return true;
        }
        match ms[..i].iter().rposition(|p| p.role == Role::Assistant) {
            Some(j) => ms[j]
                .tool_calls
                .as_ref()
                .map_or(false, |v| v.iter().any(|c| c.id.is_some() && c.id == m.tool_call_id)),
            None => false,
        }
    })
}

#[test]
fn appended_rounds_keep_results_paired() {
    let mut conv = vec![LLMMessage::user("go".to_string())];
    conv.extend(tool_round(
        String::new(),
        vec![call(Some("call-a"), Some(0), "echo", "{}"), call(Some("call-b"), Some(1), "echo", "{}")],
        vec!["A".to_string(), "B".to_string()],
    ));
    assert!(paired(&conv));
    conv.extend(tool_round("again".to_string(), vec![call(Some("call-c"), Some(0), "ls", "{}")], vec!["C".to_string()]));
    assert!(paired(&conv));
    let ids: Vec<_> = conv.iter().filter(|m| m.role == Role::Tool).map(|m| m.tool_call_id.clone().unwrap()).collect();
    assert_eq!(ids, vec!["call-a", "call-b", "call-c"]);
}
