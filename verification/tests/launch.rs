use arrow_coder::config::ModelConfig;
use arrow_coder::error::ArrowError;
use arrow_coder::launch::{
    missing_skill_error, model_list_lines, require_active_model, require_prompt, run_loop_config,
    session_not_found, skill_request_message, working_dir_choice,
};
use arrow_coder::vibe::VibeConfig;

fn config_text(e: ArrowError) -> String {
    match e {
        ArrowError::Config(m) => m,
        _ => panic!("expected a configuration error"),
    }
}

#[test]
fn run_limits_default_to_ten_turns_and_model_cap() {
    let mut model = ModelConfig::new("m".to_string(), "id".to_string(), "openai".to_string());
    model.max_tokens = Some(4096);
    model.auto_compact_threshold = Some(90000);
    let c = run_loop_config(None, None, &model);
    assert_eq!(c.max_turns, Some(10));
    assert_eq!(c.max_session_tokens, Some(4096));
    assert_eq!(c.auto_compact_threshold, Some(90000));
}

#[test]
fn run_limits_from_command_line_win() {
    let mut model = ModelConfig::new("m".to_string(), "id".to_string(), "openai".to_string());
    model.max_tokens = Some(4096);
    let c = run_loop_config(Some(3), Some(50000), &model);
    assert_eq!(c.max_turns, Some(3));
    assert_eq!(c.max_session_tokens, Some(50000));
    assert_eq!(c.auto_compact_threshold, None);
}

#[test]
fn run_limits_without_any_token_cap() {
    let model = ModelConfig::new("m".to_string(), "id".to_string(), "openai".to_string());
    let c = run_loop_config(None, None, &model);
    assert_eq!(c.max_session_tokens, None);
}

#[test]
fn working_dir_prefers_argument_then_current() {
    assert_eq!(working_dir_choice(Some("/a".to_string()), Some("/b".to_string())), "/a");
    assert_eq!(working_dir_choice(None, Some("/b".to_string())), "/b");
    assert_eq!(working_dir_choice(None, None), ".");
}

#[test]
fn missing_prompt_and_model_are_config_errors() {
    assert_eq!(require_prompt(Some("hi".to_string())).unwrap(), "hi");
    assert_eq!(config_text(require_prompt(None).unwrap_err()), "No prompt provided");
    let model = ModelConfig::new("m".to_string(), "id".to_string(), "openai".to_string());
    assert_eq!(require_active_model(Some(model)).unwrap().name, "m");
    assert_eq!(
        config_text(require_active_model(None).unwrap_err()),
        "No active model configured. Please set 'active_model' in your config file."
    );
}

#[test]
fn resume_of_unknown_session_names_it() {
    assert_eq!(config_text(session_not_found("abc")), "Session not found: abc");
}

#[test]
fn skill_messages() {
    assert_eq!(
        skill_request_message("review", "Do it."),
        "Skill 'review' was requested via --skill. Follow these instructions:\n\nDo it."
    );
    assert_eq!(
        config_text(missing_skill_error("x", &vec![])),
        "Skill 'x' not found. Available skills: none"
    );
    assert_eq!(
        config_text(missing_skill_error("x", &vec!["a".to_string(), "b".to_string()])),
        "Skill 'x' not found. Available skills: a, b"
    );
}

#[test]
fn model_listing_marks_the_active_model() {
    let mut cfg = VibeConfig::with_defaults();
    cfg.models = vec![
        ModelConfig::new("one".to_string(), "id-1".to_string(), "openai".to_string()),
        ModelConfig::new("two".to_string(), "id-2".to_string(), "deepseek".to_string()),
    ];
    cfg.active_model = Some("two".to_string());
    let lines = model_list_lines(&cfg);
    assert_eq!(lines, vec![
        "  one (model_id: id-1, provider: openai)".to_string(),
        "* two (model_id: id-2, provider: deepseek)".to_string(),
    ]);
}

use arrow_coder::cli_config::LlmConfig;

#[test]
fn client_options_need_a_key_and_keep_order() {
    let mut c = LlmConfig::default();
    c.api_key = String::new();
    assert_eq!(
        c.client_options().unwrap_err(),
        "API key is required. Set it in config file or ARROW_API_KEY environment variable."
    );
    c.api_key = "k".to_string();
    c.thinking = true;
    c.reasoning_effort = Some("high".to_string());
    c.extra_options = vec![("seed".to_string(), "7".to_string())];
    assert_eq!(
        c.client_options().unwrap(),
        vec![
            ("thinking".to_string(), "enabled".to_string()),
            ("reasoning_effort".to_string(), "high".to_string()),
            ("seed".to_string(), "7".to_string()),
        ]
    );
    c.thinking = false;
    c.reasoning_effort = None;
    c.extra_options = vec![];
    assert!(c.client_options().unwrap().is_empty());
}
