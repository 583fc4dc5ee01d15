use arrow_coder::chat_stream::{
    chat_reply, ChatReply, ChatStream, ChatStreamEvent, ChunkChoice, ChunkDelta, ReplyChoice, ReplyMessage,
    ReplyToolCall, StreamFunction, StreamToolCall,
};
use arrow_coder::error::ArrowError;
use arrow_coder::llm::DeepSeekChatUsage;
use arrow_coder::responses::{
    responses_input, responses_reply, OutputItem, ResponseEvent, ResponsesStream, StreamItem,
};
use arrow_coder::sse::{chat_line_data, line_data, openai_line_data, SseLines};
use arrow_coder::types::{FunctionCall, LLMMessage, ToolCall};

#[test]
fn sse_lines_wait_for_line_feeds() {
    let mut r = SseLines::new();
    assert!(r.push_text("data: {\"a\"").is_empty());
    assert_eq!(r.push_text(":1}\r\n\ndata: x"), vec!["data: {\"a\":1}".to_string(), String::new()]);
    assert_eq!(r.push_bytes(b" y\n"), vec!["data: x y".to_string()]);
    assert!(r.push_text("").is_empty());
}

#[test]
fn data_fields() {
    assert_eq!(line_data("data:  {\"x\":1}"), Some("{\"x\":1}".to_string()));
    assert_eq!(line_data("event: ping"), None);
    assert_eq!(line_data(""), None);
    assert_eq!(chat_line_data("data: [DONE]"), None);
    assert_eq!(chat_line_data("data:[DONE]"), None);
    assert_eq!(chat_line_data("data: {}"), Some("{}".to_string()));
    assert_eq!(openai_line_data("data: [DONE]"), None);
    assert_eq!(openai_line_data("data: {}"), Some("{}".to_string()));
    assert_eq!(openai_line_data("data:{}"), None);
    assert_eq!(openai_line_data("error: boom"), None);
}

fn frag(index: u32, id: Option<&str>, name: Option<&str>, args: Option<&str>) -> StreamToolCall {
    StreamToolCall {
        index: Some(index),
        id: id.map(String::from),
        function: Some(StreamFunction { name: name.map(String::from), arguments: args.map(String::from) }),
    }
}

fn event(delta: Option<ChunkDelta>, finish: Option<&str>, usage: Option<DeepSeekChatUsage>) -> ChatStreamEvent {
    ChatStreamEvent { choices: vec![ChunkChoice { delta, finish_reason: finish.map(String::from) }], usage }
}

#[test]
fn chat_stream_assembles_calls_in_index_order() {
    let mut s = ChatStream::new();
    let out = s.absorb(event(
        Some(ChunkDelta {
            content: Some("Hi".to_string()),
            reasoning_content: Some("think".to_string()),
            tool_calls: Some(vec![frag(1, Some("b"), Some("wr"), Some("{\"p\""))]),
        }),
        None,
        None,
    ));
    assert_eq!(out.len(), 2);
    assert_eq!(out[0].message.reasoning_content.as_deref(), Some("think"));
    assert_eq!(out[0].message.content, None);
    assert_eq!(out[1].message.content.as_deref(), Some("Hi"));
    let out = s.absorb(event(
        Some(ChunkDelta {
            content: None,
            reasoning_content: None,
            tool_calls: Some(vec![frag(0, Some("a"), Some("read"), Some("{}")), frag(1, None, Some("ite"), Some(":1}"))]),
        }),
        None,
        None,
    ));
    assert!(out.is_empty());
    let usage = DeepSeekChatUsage {
        prompt_tokens: 10,
        completion_tokens: 5,
        prompt_cache_hit_tokens: Some(4),
        completion_tokens_details: None,
    };
    let out = s.absorb(event(None, Some("tool_calls"), Some(usage)));
    assert_eq!(out.len(), 1);
    let end = &out[0];
    assert_eq!(end.finish_reason.as_deref(), Some("tool_calls"));
    assert_eq!(end.message.content, None);
    let calls = end.message.tool_calls.as_ref().unwrap();
    assert_eq!(calls.len(), 2);
    assert_eq!(calls[0].index, Some(0));
    assert_eq!(calls[0].id.as_deref(), Some("a"));
    assert_eq!(calls[0].function.name, "read");
    assert_eq!(calls[1].function.name, "write");
    assert_eq!(calls[1].function.arguments, "{\"p\":1}");
    assert_eq!(calls[1].call_type.as_deref(), Some("function"));
    let u = end.usage.unwrap();
    assert_eq!(u.prompt_tokens, 6);
    assert_eq!(u.total_tokens, Some(15));
}

#[test]
fn chat_stream_finish_without_calls_defaults_to_stop() {
    let mut s = ChatStream::new();
    let usage = DeepSeekChatUsage { prompt_tokens: 1, completion_tokens: 1, prompt_cache_hit_tokens: None, completion_tokens_details: None };
    let out = s.absorb(ChatStreamEvent { choices: vec![], usage: Some(usage) });
    assert_eq!(out.len(), 1);
    assert_eq!(out[0].finish_reason.as_deref(), Some("stop"));
    assert!(out[0].message.tool_calls.is_none());
}

#[test]
fn whole_chat_reply() {
    let reply = ChatReply {
        choices: vec![ReplyChoice {
            message: ReplyMessage {
                content: None,
                reasoning_content: Some("r".to_string()),
                tool_calls: Some(vec![ReplyToolCall {
                    id: Some("c1".to_string()),
                    call_type: None,
                    name: "bash".to_string(),
                    arguments: "{}".to_string(),
                }]),
            },
            finish_reason: None,
        }],
        usage: None,
    };
    let c = chat_reply(reply).unwrap();
    assert_eq!(c.message.content.as_deref(), Some(""));
    assert_eq!(c.message.reasoning_content.as_deref(), Some("r"));
    let calls = c.message.tool_calls.unwrap();
    assert_eq!(calls[0].index, Some(0));
    assert_eq!(calls[0].call_type.as_deref(), Some("function"));
    assert_eq!(c.finish_reason.as_deref(), Some("stop"));
    match chat_reply(ChatReply { choices: vec![], usage: None }) {
        Err(ArrowError::Backend(m)) => assert_eq!(m, "DeepSeek response had no choices"),
        _ => panic!("expected a backend error"),
    }
}

fn call(id: &str, name: &str) -> ToolCall {
    ToolCall {
        id: Some(id.to_string()),
        index: None,
        function: FunctionCall { name: name.to_string(), arguments: "{}".to_string() },
        call_type: None,
    }
}

#[test]
fn responses_input_places_calls_after_results() {
    let mut asst = LLMMessage::assistant(String::new());
    asst.tool_calls = Some(vec![call("c1", "bash")]);
    let msgs = vec![
        LLMMessage::system("sys".to_string()),
        LLMMessage::system("other".to_string()),
        LLMMessage::user("hi".to_string()),
        asst,
        LLMMessage::tool("ok".to_string(), "c1".to_string(), "bash".to_string()),
        LLMMessage::assistant("done".to_string()),
    ];
    let (instructions, items) = responses_input(&msgs);
    assert_eq!(instructions.as_deref(), Some("sys"));
    let kinds: Vec<String> = items
        .iter()
        .map(|i| match i {
            arrow_coder::responses::InputItem::Message { role, text } => format!("{}:{}", role, text),
            arrow_coder::responses::InputItem::FunctionCall { call_id, name, .. } => format!("call {} {}", call_id, name),
            arrow_coder::responses::InputItem::FunctionCallOutput { call_id, output } => format!("out {} {}", call_id, output),
        })
        .collect();
    assert_eq!(kinds, vec!["user:hi", "out c1 ok", "call c1 bash", "assistant:done"]);
}

#[test]
fn whole_responses_reply() {
    let out = vec![
        OutputItem::Reasoning { summary: Some(vec![Some("a".to_string()), None, Some("b".to_string())]) },
        OutputItem::Message { texts: vec![Some("Hel".to_string()), Some("lo".to_string())] },
        OutputItem::FunctionCall { call_id: None, id: Some("i1".to_string()), name: "f".to_string(), arguments: "{}".to_string() },
    ];
    let c = responses_reply(&out, None);
    assert_eq!(c.message.content.as_deref(), Some("Hello"));
    assert_eq!(c.message.reasoning_content.as_deref(), Some("ab"));
    let calls = c.message.tool_calls.unwrap();
    assert_eq!(calls.len(), 1);
    assert_eq!(calls[0].id.as_deref(), Some("i1"));
    assert_eq!(c.finish_reason.as_deref(), Some("completed"));
    let c = responses_reply(&vec![], None);
    assert_eq!(c.message.content.as_deref(), Some(""));
    assert!(c.message.reasoning_content.is_none() && c.message.tool_calls.is_none());
}

fn ev(t: &str, delta: Option<&str>, item: Option<StreamItem>) -> ResponseEvent {
    ResponseEvent { event_type: t.to_string(), delta: delta.map(String::from), item, usage: None, status: None }
}

#[test]
fn responses_stream_events() {
    let mut s = ResponsesStream::new();
    assert!(s.absorb(ev("response.created", None, None)).is_none());
    let t = s.absorb(ev("response.output_text.delta", Some("Hi"), None)).unwrap();
    assert_eq!(t.message.content.as_deref(), Some("Hi"));
    let r = s.absorb(ev("response.reasoning_text.delta", Some("hm"), None)).unwrap();
    assert_eq!(r.message.reasoning_content.as_deref(), Some("hm"));
    let item = StreamItem { id: Some("it".to_string()), call_id: Some("cid".to_string()), name: Some("bash".to_string()) };
    assert!(s.absorb(ev("response.output_item.added", None, Some(item))).is_none());
    assert!(s.absorb(ev("response.function_call_arguments.delta", Some("{\"c\":"), None)).is_none());
    assert!(s.absorb(ev("response.function_call_arguments.delta", Some("1}"), None)).is_none());
    let end = s.absorb(ev("response.completed", None, None)).unwrap();
    assert_eq!(end.finish_reason.as_deref(), Some("completed"));
    let calls = end.message.tool_calls.unwrap();
    assert_eq!(calls[0].id.as_deref(), Some("cid"));
    assert_eq!(calls[0].function.name, "bash");
    assert_eq!(calls[0].function.arguments, "{\"c\":1}");
}

use arrow_coder::llm::{OpenAIDelta, OpenAIFunctionCall, OpenAIPromptTokensDetails, OpenAIToolCall, OpenAIUsage};
use arrow_coder::openai_stream::{convert_stream_chunk, OpenAIStream, OpenAIStreamChoice, OpenAIStreamChunk};

fn oa_delta(content: Option<&str>, reasoning_content: Option<&str>, reasoning: Option<&str>) -> OpenAIDelta {
    OpenAIDelta {
        role: Some("assistant".to_string()),
        content: content.map(|s| s.to_string()),
        tool_calls: None,
        reasoning_content: reasoning_content.map(|s| s.to_string()),
        reasoning: reasoning.map(|s| s.to_string()),
    }
}

fn oa_event(choices: Vec<OpenAIDelta>, usage: Option<OpenAIUsage>) -> OpenAIStreamChunk {
    OpenAIStreamChunk {
        id: "x".to_string(),
        object: "chat.completion.chunk".to_string(),
        created: 0,
        model: "m".to_string(),
        choices: choices
            .into_iter()
            .enumerate()
            .map(|(i, delta)| OpenAIStreamChoice { index: i as u32, delta, finish_reason: None })
            .collect(),
        usage,
    }
}

#[test]
fn openai_stream_usage_comes_before_the_delta() {
    let mut s = OpenAIStream::new();
    let usage = OpenAIUsage {
        prompt_tokens: 10,
        completion_tokens: 5,
        total_tokens: 15,
        prompt_tokens_details: Some(OpenAIPromptTokensDetails { cached_tokens: 4 }),
    };
    let out = s.absorb(oa_event(vec![oa_delta(Some("hi"), None, None)], Some(usage)));
    assert_eq!(out.len(), 2);
    let u = out[0].usage.unwrap();
    assert_eq!((u.prompt_tokens, u.completion_tokens, u.total_tokens, u.cache_hit_tokens), (10, 5, Some(15), Some(4)));
    assert_eq!(out[0].message.content.as_deref(), Some(""));
    assert_eq!(out[1].message.content.as_deref(), Some("hi"));
    assert!(out[1].usage.is_none());
    assert!(s.saw_content);
}

#[test]
fn openai_stream_usage_only_event() {
    let mut s = OpenAIStream::new();
    let usage = OpenAIUsage { prompt_tokens: 1, completion_tokens: 2, total_tokens: 3, prompt_tokens_details: None };
    let out = s.absorb(oa_event(vec![], Some(usage)));
    assert_eq!(out.len(), 1);
    assert_eq!(out[0].usage.unwrap().cache_hit_tokens, None);
    assert!(!s.saw_content);
    assert!(s.absorb(oa_event(vec![], None)).is_empty());
}

#[test]
fn openai_stream_reasoning_and_calls() {
    let c = convert_stream_chunk(oa_event(vec![oa_delta(None, Some(""), Some("think"))], None).choices).unwrap();
    assert_eq!(c.message.reasoning_content.as_deref(), Some("think"));
    assert_eq!(c.message.content, None);
    let mut d = oa_delta(None, Some("a"), Some("b"));
    d.tool_calls = Some(vec![OpenAIToolCall {
        id: Some("c1".to_string()),
        tool_type: Some("function".to_string()),
        index: Some(0),
        function: OpenAIFunctionCall { name: "read".to_string(), arguments: "{}".to_string() },
    }]);
    let c = convert_stream_chunk(oa_event(vec![d], None).choices).unwrap();
    assert_eq!(c.message.reasoning_content.as_deref(), Some("a"));
    let calls = c.message.tool_calls.unwrap();
    assert_eq!(calls[0].id.as_deref(), Some("c1"));
    assert_eq!(calls[0].function.name, "read");
    assert!(convert_stream_chunk(vec![]).is_none());
}

#[test]
fn openai_stream_cut_after_content_is_an_interruption() {
    let mut s = OpenAIStream::new();
    match s.on_transport_error("reset") {
        Err(ArrowError::Backend(m)) => assert_eq!(m, "Stream error: reset"),
        other => panic!("unexpected {:?}", other),
    }
    s.absorb(oa_event(vec![oa_delta(Some("x"), None, None)], None));
    let c = s.on_transport_error("reset").unwrap();
    assert!(c.stream_interrupted);
    assert_eq!(c.finish_reason.as_deref(), Some("stream_interrupted"));
}
