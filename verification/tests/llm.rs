use arrow_coder::config::ModelConfig;
use arrow_coder::error::ArrowError;
use arrow_coder::llm::{
    categorize, categorize_error, chat_url, deepseek_thinking, init_backend, reasoning_effort, responses_url,
    BackendKind, OpenAIDelta, OpenAIPromptTokensDetails, OpenAIUsage,
};

fn model(reasoning_effort: Option<&str>, thinking: Option<&str>) -> ModelConfig {
    let mut m = ModelConfig::new("deepseek-chat".to_string(), "deepseek-chat".to_string(), "deepseek".to_string());
    m.thinking = thinking.map(|s| s.to_string());
    m.reasoning_effort = reasoning_effort.map(|s| s.to_string());
    m
}

#[test]
fn reasoning_effort_accepts_closed_set() {
    assert_eq!(reasoning_effort(&model(Some("off"), None)).unwrap(), "off");
    assert_eq!(reasoning_effort(&model(Some("high"), None)).unwrap(), "high");
    assert_eq!(reasoning_effort(&model(Some("max"), None)).unwrap(), "max");
    assert_eq!(reasoning_effort(&model(Some("HIGH"), None)).unwrap(), "high");
    assert_eq!(reasoning_effort(&model(Some("  max  "), None)).unwrap(), "max");
}

#[test]
fn reasoning_effort_defaults_to_high() {
    assert_eq!(reasoning_effort(&model(None, None)).unwrap(), "high");
    assert_eq!(reasoning_effort(&model(None, Some("enabled"))).unwrap(), "high");
}

#[test]
fn reasoning_effort_rejects_unsupported_values() {
    for bad in ["low", "medium", "minimal", "thinking", ""] {
        let err = reasoning_effort(&model(Some(bad), None));
        assert!(matches!(err, Err(ArrowError::Config(_))), "expected Config error for `{bad}`, got {err:?}");
    }
}

#[test]
fn reasoning_effort_error_message() {
    match reasoning_effort(&model(Some(" Low "), None)) {
        Err(ArrowError::Config(m)) => assert_eq!(
            m,
            "DeepSeek does not support reasoning effort `low`; allowed values are `off`, `high`, `max`"
        ),
        other => panic!("unexpected {:?}", other),
    }
}

#[test]
fn deepseek_thinking_block() {
    assert!(deepseek_thinking(&model(Some("high"), None)).unwrap().is_none());
    let off = deepseek_thinking(&model(Some("off"), Some("enabled"))).unwrap().unwrap();
    assert_eq!(off.kind, "disabled");
    assert_eq!(off.reasoning_effort, None);
    let on = deepseek_thinking(&model(Some("MAX"), Some("enabled"))).unwrap().unwrap();
    assert_eq!(on.kind, "enabled");
    assert_eq!(on.reasoning_effort.as_deref(), Some("max"));
    assert!(deepseek_thinking(&model(Some("low"), Some("enabled"))).is_err());
}

#[test]
fn usage_parses_cache_hit_tokens() {
    let usage = OpenAIUsage {
        prompt_tokens: 1000,
        completion_tokens: 200,
        total_tokens: 1200,
        prompt_tokens_details: Some(OpenAIPromptTokensDetails { cached_tokens: 700 }),
    };
    let llm = usage.to_llm_usage();
    assert_eq!(llm.prompt_tokens, 1000);
    assert_eq!(llm.completion_tokens, 200);
    assert_eq!(llm.total_tokens, Some(1200));
    assert_eq!(llm.cache_hit_tokens, Some(700), "cached tokens must be extracted");

    let plain = OpenAIUsage { prompt_tokens: 5, completion_tokens: 5, total_tokens: 10, prompt_tokens_details: None };
    let llm = plain.to_llm_usage();
    assert_eq!(llm.cache_hit_tokens, None);
}

#[test]
fn delta_reasoning_field_is_normalized() {
    let delta = OpenAIDelta { role: None, content: None, tool_calls: None, reasoning_content: None, reasoning: Some("** statements".to_string()) };
    assert_eq!(
        delta.reasoning_text(),
        Some("** statements"),
        "Qwen `delta.reasoning` must be surfaced as reasoning_content"
    );
}

#[test]
fn delta_prefers_non_empty_reasoning_content() {
    let d = OpenAIDelta {
        role: None,
        content: None,
        tool_calls: None,
        reasoning_content: Some(String::new()),
        reasoning: Some("r".to_string()),
    };
    assert_eq!(d.reasoning_text(), Some("r"));
    let d = OpenAIDelta { role: None, content: None, tool_calls: None, reasoning_content: Some("a".to_string()), reasoning: Some("r".to_string()) };
    assert_eq!(d.reasoning_text(), Some("a"));
    let d = OpenAIDelta { role: None, content: None, tool_calls: None, reasoning_content: None, reasoning: None };
    assert_eq!(d.reasoning_text(), None);
}

#[test]
fn backend_selection() {
    assert_eq!(init_backend("openai").unwrap(), BackendKind::OpenAi);
    assert_eq!(init_backend("openai-compatible").unwrap(), BackendKind::OpenAi);
    assert_eq!(init_backend("deepseek").unwrap(), BackendKind::DeepSeekChat);
    assert_eq!(init_backend("deepseek-responses").unwrap(), BackendKind::DeepSeekResponses);
    match init_backend("carrier-pigeon") {
        Err(ArrowError::Config(m)) => assert_eq!(
            m,
            "Unknown backend: carrier-pigeon. Supported backends: openai, openai-compatible, anthropic, deepseek-chat, deepseek-responses"
        ),
        other => panic!("unexpected {:?}", other),
    }
}

#[test]
fn urls_drop_trailing_slashes() {
    assert_eq!(chat_url("https://api.deepseek.com/"), "https://api.deepseek.com/chat/completions");
    assert_eq!(responses_url("https://x.y//"), "https://x.y/responses");
}

#[test]
fn error_categories() {
    assert_eq!(categorize(401, ""), "[AUTH]");
    assert_eq!(categorize(429, ""), "[RATE_LIMIT]");
    assert_eq!(categorize(400, "maximum context length is 64k"), "[CONTEXT_LENGTH]");
    assert_eq!(categorize(400, "tokens exceed the limit"), "[CONTEXT_LENGTH]");
    assert_eq!(categorize(400, "bad json"), "[INVALID_REQUEST]");
    assert_eq!(categorize(503, ""), "[SERVER]");
    assert_eq!(categorize(302, ""), "[UNKNOWN]");
}

#[test]
fn categorize_error_uses_the_status_line() {
    match categorize_error(404, "gone") {
        ArrowError::Backend(m) => assert_eq!(m, "DeepSeek request failed [UNKNOWN]: 404 Not Found - gone"),
        other => panic!("unexpected {:?}", other),
    }
}

use arrow_coder::llm::{convert_response, OpenAIFunctionCall, OpenAIMessage, OpenAIToolCall};
use arrow_coder::types::Role;

#[test]
fn convert_response_takes_the_first_choice() {
    match convert_response(vec![], None) {
        Err(ArrowError::Backend(m)) => assert_eq!(m, "No choices in response"),
        other => panic!("unexpected {:?}", other),
    }
    let reply = OpenAIMessage::Assistant {
        content: None,
        tool_calls: Some(vec![OpenAIToolCall {
            id: Some("c1".to_string()),
            tool_type: Some("function".to_string()),
            index: Some(0),
            function: OpenAIFunctionCall { name: "ls".to_string(), arguments: "{}".to_string() },
        }]),
        reasoning_content: Some("hmm".to_string()),
    };
    let usage = OpenAIUsage { prompt_tokens: 3, completion_tokens: 4, total_tokens: 7, prompt_tokens_details: None };
    let chunk = convert_response(vec![reply, OpenAIMessage::User { content: "u".to_string() }], Some(usage)).unwrap();
    assert_eq!(chunk.message.role, Role::Assistant);
    assert_eq!(chunk.message.content.as_deref(), Some(""));
    assert_eq!(chunk.message.reasoning_content.as_deref(), Some("hmm"));
    let calls = chunk.message.tool_calls.unwrap();
    assert_eq!(calls[0].id.as_deref(), Some("c1"));
    assert_eq!(calls[0].call_type.as_deref(), Some("function"));
    assert_eq!(chunk.usage.unwrap().total_tokens, Some(7));
    let tool = convert_response(
        vec![OpenAIMessage::Tool { content: "out".to_string(), tool_call_id: "c1".to_string() }],
        None,
    )
    .unwrap();
    assert_eq!(tool.message.name.as_deref(), Some("tool"));
    assert_eq!(tool.message.tool_call_id.as_deref(), Some("c1"));
}
