use arrow_coder::agent::{degrade_request, minimal_tools, tools_for_request, AgentLoopConfig};
use arrow_coder::config::ModelConfig;
use arrow_coder::types::{LLMChunk, LLMMessage};

fn names(v: &[&str]) -> Vec<String> {
    v.iter().map(|s| s.to_string()).collect()
}

#[test]
fn test_minimal_mode_sends_core_tools_during_bootstrap() {
    let all = names(&["bash", "str_replace_editor", "grep", "websearch"]);
    let selected = tools_for_request(true, all);
    assert_eq!(
        selected,
        vec!["bash".to_string(), "str_replace_editor".to_string()],
        "bootstrap phase must send only the core set"
    );
}

#[test]
fn test_minimal_mode_promotes_on_first_tool_call() {
    let all = names(&["bash", "str_replace_editor", "grep"]);
    // Once a tool call is recorded the session has left its bootstrap phase.
    let selected = tools_for_request(false, all);
    assert_eq!(
        selected,
        vec!["bash".to_string(), "str_replace_editor".to_string(), "grep".to_string()],
        "after the first tool call the full tool directory must be available"
    );
}

#[test]
fn test_minimal_mode_promotes_on_first_assistant_message() {
    let all = names(&["bash", "str_replace_editor", "grep"]);
    let selected = tools_for_request(false, all);
    assert_eq!(selected.len(), 3);
}

#[test]
fn test_minimal_mode_falls_back_when_core_absent() {
    let all = names(&["grep", "ls"]);
    let selected = tools_for_request(true, all);
    assert_eq!(selected, vec!["grep".to_string(), "ls".to_string()]);
}

#[test]
fn test_minimal_tools_constant_is_stable() {
    assert_eq!(minimal_tools(), vec!["bash", "str_replace_editor"]);
}

#[test]
fn test_effective_max_tokens_clamps_to_context_window() {
    let mut c = AgentLoopConfig::default();
    c.max_session_tokens = Some(100_000);
    c.auto_compact_threshold = None;

    let capped = c.effective_max_tokens(Some(4096), 95_000).unwrap();
    assert!(capped <= (100_000 - 95_000), "must not exceed remaining window");

    let ok = c.effective_max_tokens(Some(4096), 1_000).unwrap();
    assert_eq!(ok, 4096);

    let no_req = c.effective_max_tokens(None, 95_000).unwrap();
    assert!(no_req <= (100_000 - 95_000));

    let full = c.effective_max_tokens(Some(4096), 100_000).unwrap();
    assert_eq!(full, 1);

    c.max_session_tokens = Some(128_000);
    let m = c.effective_max_tokens(None, 60_000).unwrap();
    assert_eq!(m, 128_000 - 60_000 - 6_400);
}

#[test]
fn effective_max_tokens_defaults_to_a_128k_window() {
    let c = AgentLoopConfig::default();
    // 128000 - 0 - 6400 room; the request is smaller.
    assert_eq!(c.effective_max_tokens(Some(1000), 0), Some(1000));
    assert_eq!(c.effective_max_tokens(None, 0), Some(121_600));
}

#[test]
fn effective_max_tokens_small_window_keeps_256_margin() {
    let mut c = AgentLoopConfig::default();
    c.max_session_tokens = Some(1000);
    // margin max(50, 256) = 256: 1000 - 100 - 256 = 644.
    assert_eq!(c.effective_max_tokens(None, 100), Some(644));
    // used beyond the window: floor at 1.
    assert_eq!(c.effective_max_tokens(Some(10), 5000), Some(1));
}

fn model(name: &str, provider: &str, effort: Option<&str>, max_tokens: Option<u32>) -> ModelConfig {
    let mut m = ModelConfig::new(name.to_string(), String::new(), provider.to_string());
    m.reasoning_effort = effort.map(|s| s.to_string());
    m.max_tokens = max_tokens;
    m
}

#[test]
fn test_degrade_request_steps_down_reasoning_effort() {
    let base = model("qwen3.8", "qwen", Some("xhigh"), Some(8192));

    let r1 = degrade_request(&base, 1);
    assert_eq!(r1.reasoning_effort.as_deref(), Some("high"));
    let r2 = degrade_request(&r1, 2);
    assert_eq!(r2.reasoning_effort.as_deref(), Some("medium"));
    let r3 = degrade_request(&r2, 3);
    assert_eq!(r3.reasoning_effort.as_deref(), Some("low"));
    let r4 = degrade_request(&r3, 4);
    assert_eq!(r4.reasoning_effort.as_deref(), Some("low"));

    assert_eq!(r1.max_tokens, Some(4096));
    assert_eq!(r2.max_tokens, Some(2048));
    assert_eq!(r4.max_tokens, Some(512));

    assert_eq!(base.reasoning_effort.as_deref(), Some("xhigh"));
    assert_eq!(base.max_tokens, Some(8192));
}

#[test]
fn test_degrade_request_no_effort_leaves_config_alone() {
    let base = model("plain", "openai", None, Some(2048));
    let r = degrade_request(&base, 1);
    assert_eq!(r.reasoning_effort, None);
    assert_eq!(r.max_tokens, Some(1024));
}

#[test]
fn degrade_request_normalizes_case_and_keeps_other_fields() {
    let mut base = model("m", "p", Some("  MEDIUM "), None);
    base.top_k = Some(7);
    let r = degrade_request(&base, 1);
    assert_eq!(r.reasoning_effort.as_deref(), Some("medium"));
    assert_eq!(r.max_tokens, None);
    assert_eq!(r.top_k, Some(7));
    assert_eq!(r.name, "m");
}

#[test]
fn test_interrupted_sentinel_flag() {
    let c = LLMChunk::interrupted();
    assert!(c.stream_interrupted);
    assert_eq!(c.finish_reason.as_deref(), Some("stream_interrupted"));
    let normal = LLMChunk::new(LLMMessage::assistant("hi".to_string()), None);
    assert!(!normal.stream_interrupted);
}

#[test]
fn message_ids_are_fresh_uuids() {
    let a = LLMMessage::user("x".to_string());
    let b = LLMMessage::user("x".to_string());
    assert_eq!(a.message_id.len(), 36);
    assert_ne!(a.message_id, b.message_id);
}

#[test]
fn degrade_request_attempt_zero_raises_a_low_effort() {
    let base = model("m", "qwen", Some("low"), Some(2048));
    let r = degrade_request(&base, 0);
    assert_eq!(r.reasoning_effort.as_deref(), Some("medium"));
    assert_eq!(r.max_tokens, Some(1024));
}
