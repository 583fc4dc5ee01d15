use arrow_coder::cli_config::{AppConfig, LlmConfig};
use arrow_coder::config::{builtin_provider, ModelConfig, ToolPermission};
use arrow_coder::error::ArrowError;
use arrow_coder::repository::{ConfigDomain, LocalConfigRepository};
use arrow_coder::vibe::{parse_bool, VibeConfig};

fn base_config() -> VibeConfig {
    let mut cfg = VibeConfig::with_defaults();
    for m in &mut cfg.models {
        m.api_key = Some("test-key".to_string());
    }
    cfg
}

fn find(cfg: &VibeConfig, name: &str) -> ModelConfig {
    cfg.models.iter().find(|m| m.name == name).unwrap().clone()
}

#[test]
fn resolve_provider_deepseek_defaults() {
    let cfg = base_config();
    let model = find(&cfg, "deepseek-flash");
    let resolved = cfg.resolve_provider(&model).unwrap();

    assert_eq!(resolved.api_base, "https://api.deepseek.com");
    // The configured key variable is unset in this test.
    assert_eq!(resolved.get_api_key(None, None).as_deref(), Some("test-key"));
    assert_eq!(resolved.kind(), "deepseek-chat");
    assert_eq!(resolved.reasoning_field_name.as_deref(), Some("reasoning_content"));
}

#[test]
fn resolve_provider_deepseek_honors_custom_endpoint() {
    let cfg = base_config();
    let mut model = find(&cfg, "deepseek-pro");
    model.endpoint = Some("https://gateway.example.com".to_string());
    model.api_key = Some("inline-key".to_string());
    let resolved = cfg.resolve_provider(&model).unwrap();

    assert_eq!(resolved.api_base, "https://gateway.example.com");
    assert_eq!(resolved.get_api_key(None, None).as_deref(), Some("inline-key"));
    assert_eq!(resolved.kind(), "deepseek-chat");
}

#[test]
fn resolve_provider_openai_compatible_uses_endpoint() {
    let cfg = base_config();
    let mut model = find(&cfg, "local");
    model.endpoint = Some("https://gateway.example.com/v1".to_string());
    let resolved = cfg.resolve_provider(&model).unwrap();
    assert_eq!(resolved.api_base, "https://gateway.example.com/v1");
    assert_eq!(resolved.kind(), "openai-chat");
}

#[test]
fn resolve_provider_openai_falls_back_to_default_url() {
    let cfg = base_config();
    let mut model = find(&cfg, "local");
    model.endpoint = None;
    let resolved = cfg.resolve_provider(&model).unwrap();
    assert_eq!(resolved.api_base, "https://api.openai.com/v1");
}

#[test]
fn resolve_provider_anthropic_preset() {
    let cfg = base_config();
    let mut model = cfg.models[0].clone();
    model.provider = "anthropic".to_string();
    let resolved = cfg.resolve_provider(&model).unwrap();
    assert_eq!(resolved.kind(), "anthropic");
    assert_eq!(resolved.api_base, "https://api.anthropic.com");
    assert_eq!(resolved.api_key_env_var.as_deref(), Some("ANTHROPIC_API_KEY"));
    assert_eq!(resolved.reasoning_field_name, None);
}

#[test]
fn resolve_provider_injects_capabilities() {
    let cfg = base_config();
    let model = find(&cfg, "deepseek-flash");
    let ds = cfg.resolve_provider(&model).unwrap();
    assert!(ds.rejects_penalty);
    assert_eq!(ds.cache_hit_field_name.as_deref(), Some("prompt_cache_hit_tokens"));
    assert!(ds.supports_thinking);
    assert_eq!(ds.context_window, 64000);
    assert!(ds.supports_cache_hit());

    let model = find(&cfg, "gpt4o");
    let oa = cfg.resolve_provider(&model).unwrap();
    assert!(!oa.rejects_penalty);
    assert_eq!(oa.cache_hit_field_name, None);
    assert!(!oa.supports_thinking);
    assert!(!oa.supports_cache_hit());
    assert_eq!(oa.context_window, 128000);
}

#[test]
fn model_config_effective_context_window_inherits_provider() {
    let cfg = base_config();
    let ds = find(&cfg, "deepseek-flash");
    assert_eq!(ds.effective_context_window(), 64000);

    let mut custom = ds.clone();
    custom.context_window = Some(32768);
    assert_eq!(custom.effective_context_window(), 32768);
}

#[test]
fn model_config_effective_max_tokens_capped_by_hard_limit() {
    let cfg = base_config();
    let ds = find(&cfg, "deepseek-flash");
    assert_eq!(ds.effective_max_tokens(), Some(64000));

    let mut capped = ds.clone();
    capped.max_output_tokens = Some(8192);
    assert_eq!(capped.effective_max_tokens(), Some(8192));
}

#[test]
fn resolve_provider_unknown_falls_back_to_openai() {
    let cfg = base_config();
    let mut model = cfg.models[0].clone();
    model.provider = "some-future-provider".to_string();
    let resolved = cfg.resolve_provider(&model).unwrap();
    assert_eq!(resolved.kind(), "openai-chat");
    assert_eq!(resolved.api_base, "https://api.openai.com/v1");
}

#[test]
fn api_key_priority_and_fallback_variable() {
    let cfg = base_config();
    let mut model = find(&cfg, "deepseek-flash");
    let p = cfg.resolve_provider(&model).unwrap();
    // The configured variable wins over the inline key.
    assert_eq!(p.get_api_key(Some("env-key".to_string()), None).as_deref(), Some("env-key"));
    model.api_key = None;
    let p = cfg.resolve_provider(&model).unwrap();
    assert_eq!(p.get_api_key(None, Some("fallback".to_string())).as_deref(), Some("fallback"));
    assert_eq!(p.get_api_key(None, None), None);
    // The fallback variable is the upper-cased provider name.
    assert_eq!(p.default_key_env_var(), "DEEPSEEK_API_KEY");
}

#[test]
fn builtin_provider_presets() {
    let ds = builtin_provider("deepseek");
    assert_eq!(ds.api_base, "https://api.deepseek.com");
    assert_eq!(ds.context_window, 64000);
    let unknown = builtin_provider("nope");
    assert_eq!(unknown.api_base, "https://api.openai.com/v1");
}

#[test]
fn tool_permission_confirmation_implies_execution() {
    for p in [ToolPermission::Always, ToolPermission::Ask, ToolPermission::Never] {
        if p.requires_confirmation() {
            assert!(p.allows_execution());
        }
    }
    assert!(ToolPermission::Ask.requires_confirmation());
    assert!(!ToolPermission::Never.allows_execution());
}

#[test]
fn parse_bool_accepts_true_and_false_only() {
    assert_eq!(parse_bool("true"), Some(true));
    assert_eq!(parse_bool("false"), Some(false));
    assert_eq!(parse_bool("0"), None);
    assert_eq!(parse_bool("maybe"), None);
}

#[test]
fn merge_vec_unions_without_duplicates() {
    let base = vec!["a".to_string(), "b".to_string()];
    let over = vec!["b".to_string(), "c".to_string()];
    assert_eq!(VibeConfig::merge_vec(base.clone(), over), vec!["a", "b", "c"]);
    assert_eq!(VibeConfig::merge_vec(base.clone(), base.clone()), base);
}

#[test]
fn merge_models_replaces_by_name() {
    let mut cfg = VibeConfig::with_defaults();
    let mut m = ModelConfig::new("local".to_string(), "other".to_string(), "openai_compatible".to_string());
    m.max_tokens = Some(1);
    let extra = ModelConfig::new("extra".to_string(), "deepseek-chat".to_string(), "deepseek".to_string());
    cfg.merge_models_file(vec![m, extra]);
    assert_eq!(cfg.models.len(), 5);
    let local = find(&cfg, "local");
    assert_eq!(local.model_id, "other");
    assert_eq!(cfg.models[4].name, "extra");
}

fn test_repo() -> LocalConfigRepository {
    LocalConfigRepository::new(VibeConfig::with_defaults(), "config.toml".to_string(), None)
}

#[test]
fn list_and_resolve_active() {
    let repo = test_repo();
    let models = repo.list_models();
    assert!(!models.is_empty(), "default config should expose models");
    let agent = repo.current_agent_config();
    if let Some(active) = agent.default_model {
        let m = repo.resolve_model(&active).unwrap();
        assert_eq!(m.name, active);
    }
}

#[test]
fn resolve_unknown_errors() {
    let repo = test_repo();
    assert!(repo.resolve_model("__no_such_model__").is_err());
}

#[test]
fn resolve_unknown_names_the_alias() {
    let repo = test_repo();
    match repo.resolve_model("zzz") {
        Err(ArrowError::Config(m)) => assert_eq!(m, "unknown model alias: zzz"),
        other => panic!("unexpected {:?}", other),
    }
    assert_eq!(repo.resolve_model("gpt4o").unwrap().model_id, "gpt-4o");
}

#[test]
fn set_models_broadcasts_and_updates() {
    let mut repo = test_repo();
    let alias = repo.list_models()[0].name.clone();
    let mut m = repo.resolve_model(&alias).unwrap();
    m.model_id = "changed-id".to_string();
    let change = repo.set_models(vec![m.clone()]);
    let changed = repo.list_models();
    assert_eq!(changed.len(), 1);
    assert_eq!(changed[0].model_id, "changed-id");
    assert_eq!(change.domain, ConfigDomain::Model);
}

#[test]
fn set_active_model_broadcasts_and_updates() {
    let mut repo = test_repo();
    let change = repo.set_active_model(Some("m_test".to_string()));
    assert_eq!(repo.current_agent_config().default_model, Some("m_test".to_string()));
    assert_eq!(change.domain, ConfigDomain::Agent);
}

#[test]
fn test_default_config() {
    let llm = LlmConfig::default();
    assert_eq!(llm.provider, "deepseek");
    assert_eq!(llm.model, "deepseek-chat");
    assert_eq!(llm.timeout, 120);
}

#[test]
fn llm_config_merge_prefers_set_values() {
    let mut base = LlmConfig::default();
    let mut over = LlmConfig::default();
    over.provider = String::new();
    over.model = "gpt-4o".to_string();
    over.timeout = 0;
    over.thinking = true;
    base.merge(over);
    assert_eq!(base.provider, "deepseek");
    assert_eq!(base.model, "gpt-4o");
    assert_eq!(base.timeout, 120);
    assert!(base.thinking);
}

#[test]
fn app_config_merge_twice_is_merge_once() {
    let mut a = AppConfig::default();
    let b = AppConfig::default();
    a.merge(b.clone());
    let once = a.clone();
    a.merge(b);
    assert_eq!(format!("{:?}", a), format!("{:?}", once));
}
