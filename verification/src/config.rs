//! Provider presets, the built-in model catalog, resolution of a model's
//! provider settings, tool permissions, and configuration merging.
//!
//! Sampling defaults (temperature, top-p) are floating point and are kept by
//! the host next to these presets.

use vstd::prelude::*;
use crate::text::{concat_str, same_text, strings_view};

verus! {

/// A built-in provider preset: the backend protocol family, default API base
/// URL, reasoning and cache-hit fields, capabilities, default context
/// window, API key variable and default output cap.
#[derive(Debug, Clone, Copy)]
pub struct BuiltinProvider {
    pub kind: &'static str,
    pub api_base: &'static str,
    pub reasoning_field: Option<&'static str>,
    pub cache_hit_field: Option<&'static str>,
    pub rejects_penalty: bool,
    pub supports_thinking: bool,
    pub context_window: u32,
    pub api_key_env_var: &'static str,
    pub max_tokens: u32,
}

/// Which preset a provider name selects. Unknown names, including the
/// legacy `openai_compatible`, select the OpenAI preset.
#[derive(Debug, Clone, Copy, PartialEq, Eq, Structural)]
pub enum PresetId {
    DeepSeek,
    DeepSeekResponses,
    OpenAi,
    Anthropic,
    Local,
}

pub open spec fn preset_id(name: Seq<char>) -> PresetId {
    if name == "deepseek"@ {
        PresetId::DeepSeek
    } else if name == "deepseek-responses"@ {
        PresetId::DeepSeekResponses
    } else if name == "anthropic"@ {
        PresetId::Anthropic
    } else if name == "local"@ {
        PresetId::Local
    } else {
        PresetId::OpenAi
    }
}

/// The preset values, by preset.
pub open spec fn preset(id: PresetId) -> BuiltinProvider {
    match id {
        PresetId::DeepSeek => BuiltinProvider {
            kind: "deepseek-chat",
            api_base: "https://api.deepseek.com",
            reasoning_field: Some("reasoning_content"),
            cache_hit_field: Some("prompt_cache_hit_tokens"),
            rejects_penalty: true,
            supports_thinking: true,
            context_window: 64000,
            api_key_env_var: "DEEPSEEK_API_KEY",
            max_tokens: 64000,
        },
        PresetId::DeepSeekResponses => BuiltinProvider {
            kind: "deepseek-responses",
            api_base: "https://api.deepseek.com",
            reasoning_field: Some("reasoning"),
            cache_hit_field: None,
            rejects_penalty: false,
            supports_thinking: true,
            context_window: 64000,
            api_key_env_var: "DEEPSEEK_API_KEY",
            max_tokens: 64000,
        },
        PresetId::OpenAi => BuiltinProvider {
            kind: "openai-chat",
            api_base: "https://api.openai.com/v1",
            reasoning_field: Some("reasoning"),
            cache_hit_field: None,
            rejects_penalty: false,
            supports_thinking: false,
            context_window: 128000,
            api_key_env_var: "OPENAI_API_KEY",
            max_tokens: 8192,
        },
        PresetId::Anthropic => BuiltinProvider {
            kind: "anthropic",
            api_base: "https://api.anthropic.com",
            reasoning_field: None,
            cache_hit_field: None,
            rejects_penalty: false,
            supports_thinking: true,
            context_window: 200000,
            api_key_env_var: "ANTHROPIC_API_KEY",
            max_tokens: 8192,
        },
        PresetId::Local => BuiltinProvider {
            kind: "openai-chat",
            api_base: "http://127.0.0.1:8080/v1",
            reasoning_field: None,
            cache_hit_field: None,
            rejects_penalty: false,
            supports_thinking: false,
            context_window: 32768,
            api_key_env_var: "OPENAI_API_KEY",
            max_tokens: 4096,
        },
    }
}

/// The preset a provider name selects.
pub fn preset_for(name: &str) -> (id: PresetId)
    ensures
        id == preset_id(name@),
{
    if same_text(name, "deepseek") {
        PresetId::DeepSeek
    } else if same_text(name, "deepseek-responses") {
        PresetId::DeepSeekResponses
    } else if same_text(name, "anthropic") {
        PresetId::Anthropic
    } else if same_text(name, "local") {
        PresetId::Local
    } else {
        PresetId::OpenAi
    }
}

/// Look up a built-in provider preset by name.
pub fn builtin_provider(name: &str) -> (p: BuiltinProvider)
    ensures
        p == preset(preset_id(name@)),
{
    match preset_for(name) {
        PresetId::DeepSeek => BuiltinProvider {
            kind: "deepseek-chat",
            api_base: "https://api.deepseek.com",
            reasoning_field: Some("reasoning_content"),
            cache_hit_field: Some("prompt_cache_hit_tokens"),
            rejects_penalty: true,
            supports_thinking: true,
            context_window: 64000,
            api_key_env_var: "DEEPSEEK_API_KEY",
            max_tokens: 64000,
        },
        PresetId::DeepSeekResponses => BuiltinProvider {
            kind: "deepseek-responses",
            api_base: "https://api.deepseek.com",
            reasoning_field: Some("reasoning"),
            cache_hit_field: None,
            rejects_penalty: false,
            supports_thinking: true,
            context_window: 64000,
            api_key_env_var: "DEEPSEEK_API_KEY",
            max_tokens: 64000,
        },
        PresetId::OpenAi => BuiltinProvider {
            kind: "openai-chat",
            api_base: "https://api.openai.com/v1",
            reasoning_field: Some("reasoning"),
            cache_hit_field: None,
            rejects_penalty: false,
            supports_thinking: false,
            context_window: 128000,
            api_key_env_var: "OPENAI_API_KEY",
            max_tokens: 8192,
        },
        PresetId::Anthropic => BuiltinProvider {
            kind: "anthropic",
            api_base: "https://api.anthropic.com",
            reasoning_field: None,
            cache_hit_field: None,
            rejects_penalty: false,
            supports_thinking: true,
            context_window: 200000,
            api_key_env_var: "ANTHROPIC_API_KEY",
            max_tokens: 8192,
        },
        PresetId::Local => BuiltinProvider {
            kind: "openai-chat",
            api_base: "http://127.0.0.1:8080/v1",
            reasoning_field: None,
            cache_hit_field: None,
            rejects_penalty: false,
            supports_thinking: false,
            context_window: 32768,
            api_key_env_var: "OPENAI_API_KEY",
            max_tokens: 4096,
        },
    }
}


/// A model offered by a provider in the built-in catalog.
#[derive(Debug, Clone)]
pub struct BuiltinModel {
    /// Model id sent to the API.
    pub model_id: String,
    /// Label shown in the picker.
    pub label: String,
    /// Suggested `thinking` preset.
    pub thinking: Option<String>,
    /// Suggested `reasoning_effort`.
    pub reasoning_effort: Option<String>,
}

/// A provider of the built-in catalog and its models.
#[derive(Debug, Clone)]
pub struct BuiltinProviderModels {
    /// Provider preset name.
    pub provider: String,
    /// Environment variable the key is read from.
    pub key_env: String,
    pub models: Vec<BuiltinModel>,
}

/// A catalog model as plain text: id, label, thinking, reasoning effort.
pub type CatalogModel = (Seq<char>, Seq<char>, Option<Seq<char>>, Option<Seq<char>>);

pub open spec fn opt_view(o: Option<String>) -> Option<Seq<char>> {
    match o {
        Some(s) => Some(s@),
        None => None,
    }
}

pub open spec fn model_view(m: BuiltinModel) -> CatalogModel {
    (m.model_id@, m.label@, opt_view(m.thinking), opt_view(m.reasoning_effort))
}

/// The catalog as plain text: provider, key variable, models.
pub open spec fn catalog_spec() -> Seq<(Seq<char>, Seq<char>, Seq<CatalogModel>)> {
    seq![
        ("deepseek"@, "DEEPSEEK_API_KEY"@, seq![
            ("deepseek-v4-flash"@, "DeepSeek V4 Flash"@, Some("high"@), Some("high"@)),
            ("deepseek-v4-pro"@, "DeepSeek V4 Pro"@, Some("high"@), Some("high"@)),
            ("deepseek-v4-flash-vision-exp"@, "DeepSeek V4 Flash Vision (exp)"@, Some("high"@), Some("high"@)),
            ("deepseek-chat"@, "DeepSeek Chat"@, None, None),
            ("deepseek-reasoner"@, "DeepSeek Reasoner"@, Some("high"@), Some("max"@)),
        ]),
        ("openai"@, "OPENAI_API_KEY"@, seq![
            ("gpt-4o"@, "GPT-4o"@, None, None),
            ("gpt-4o-mini"@, "GPT-4o mini"@, None, None),
            ("o3-mini"@, "o3-mini"@, None, Some("medium"@)),
        ]),
        ("anthropic"@, "ANTHROPIC_API_KEY"@, Seq::empty()),
        ("local"@, "OPENAI_API_KEY"@, seq![
            ("local-model"@, "Local Model (自定义)"@, None, None),
        ]),
    ]
}

pub(crate) fn opt_string(s: Option<&str>) -> (r: Option<String>)
    ensures
        match s {
            Some(x) => r matches Some(y) && y@ == x@,
            None => r is None,
        },
{
    match s {
        Some(x) => Some(String::from_str(x)),
        None => None,
    }
}

fn catalog_model(id: &str, label: &str, thinking: Option<&str>, effort: Option<&str>) -> (m: BuiltinModel)
    ensures
        model_view(m) == (id@, label@, match thinking { Some(x) => Some(x@), None => None }, match effort {
            Some(x) => Some(x@),
            None => None,
        }),
{
    BuiltinModel {
        model_id: String::from_str(id),
        label: String::from_str(label),
        thinking: opt_string(thinking),
        reasoning_effort: opt_string(effort),
    }
}

fn catalog_entry(provider: &str, models: Vec<BuiltinModel>) -> (e: BuiltinProviderModels)
    ensures
        e.provider@ == provider@,
        e.key_env@ == preset(preset_id(provider@)).api_key_env_var@,
        e.models == models,
{
    BuiltinProviderModels {
        provider: String::from_str(provider),
        key_env: String::from_str(builtin_provider(provider).api_key_env_var),
        models,
    }
}

/// The full built-in catalog: every shipped provider preset with the models
/// it offers, in picker order. The anthropic entry carries its provider and
/// key variable; its model list is left empty here.
pub fn builtin_model_catalog() -> (r: Vec<BuiltinProviderModels>)
    ensures
        r@.len() == catalog_spec().len(),
        forall|i: int|
            0 <= i < r@.len() ==> (#[trigger] r@[i]).provider@ == catalog_spec()[i].0 && r@[i].key_env@
                == catalog_spec()[i].1 && r@[i].models@.map_values(|m: BuiltinModel| model_view(m))
                == catalog_spec()[i].2,
{
    proof {
        reveal_strlit("deepseek");
        reveal_strlit("openai");
        reveal_strlit("anthropic");
        reveal_strlit("local");
        reveal_strlit("deepseek-responses");
    }
    let mut ds: Vec<BuiltinModel> = Vec::new();
    ds.push(catalog_model("deepseek-v4-flash", "DeepSeek V4 Flash", Some("high"), Some("high")));
    ds.push(catalog_model("deepseek-v4-pro", "DeepSeek V4 Pro", Some("high"), Some("high")));
    ds.push(catalog_model("deepseek-v4-flash-vision-exp", "DeepSeek V4 Flash Vision (exp)", Some("high"), Some("high")));
    ds.push(catalog_model("deepseek-chat", "DeepSeek Chat", None, None));
    ds.push(catalog_model("deepseek-reasoner", "DeepSeek Reasoner", Some("high"), Some("max")));
    let mut oa: Vec<BuiltinModel> = Vec::new();
    oa.push(catalog_model("gpt-4o", "GPT-4o", None, None));
    oa.push(catalog_model("gpt-4o-mini", "GPT-4o mini", None, None));
    oa.push(catalog_model("o3-mini", "o3-mini", None, Some("medium")));
    let an: Vec<BuiltinModel> = Vec::new();
    let mut lo: Vec<BuiltinModel> = Vec::new();
    lo.push(catalog_model("local-model", "Local Model (自定义)", None, None));
    let mut r: Vec<BuiltinProviderModels> = Vec::new();
    r.push(catalog_entry("deepseek", ds));
    r.push(catalog_entry("openai", oa));
    r.push(catalog_entry("anthropic", an));
    r.push(catalog_entry("local", lo));
    assert("openai"@.len() == 6 && "anthropic"@.len() == 9 && "deepseek"@.len() == 8 && "local"@.len() == 5);
    assert("deepseek-responses"@.len() == 18);
    assert(preset_id("deepseek"@) == PresetId::DeepSeek);
    assert(preset_id("openai"@) == PresetId::OpenAi);
    assert(preset_id("anthropic"@) == PresetId::Anthropic);
    assert(preset_id("local"@) == PresetId::Local);
    assert(r@[0].models@.map_values(|m: BuiltinModel| model_view(m)) =~= catalog_spec()[0].2);
    assert(r@[1].models@.map_values(|m: BuiltinModel| model_view(m)) =~= catalog_spec()[1].2);
    assert(r@[2].models@.map_values(|m: BuiltinModel| model_view(m)) =~= catalog_spec()[2].2);
    assert(r@[3].models@.map_values(|m: BuiltinModel| model_view(m)) =~= catalog_spec()[3].2);
    r
}

/// Runtime backend settings resolved from a model and its provider preset.
#[derive(Debug, Clone)]
pub struct ProviderConfig {
    /// Provider preset name as configured on the model.
    pub name: String,
    /// Backend protocol family.
    pub kind: String,
    pub reasoning_field_name: Option<String>,
    pub cache_hit_field_name: Option<String>,
    pub rejects_penalty: bool,
    pub supports_thinking: bool,
    pub context_window: u32,
    pub api_base: String,
    /// Environment variable holding the API key.
    pub api_key_env_var: Option<String>,
    /// API key given directly.
    pub api_key: Option<String>,
}

/// `ProviderConfig` as a model resolves it: the preset's kind, fields,
/// capabilities and key variable, the model's endpoint over the preset's base
/// URL, and the model's inline key.
pub open spec fn resolved(
    p: ProviderConfig,
    provider: Seq<char>,
    endpoint: Option<Seq<char>>,
    api_key: Option<Seq<char>>,
) -> bool {
    let pre = preset(preset_id(provider));
    &&& p.name@ == provider
    &&& p.kind@ == pre.kind@
    &&& opt_view(p.reasoning_field_name) == match pre.reasoning_field { Some(f) => Some(f@), None => None }
    &&& opt_view(p.cache_hit_field_name) == match pre.cache_hit_field { Some(f) => Some(f@), None => None }
    &&& p.rejects_penalty == pre.rejects_penalty
    &&& p.supports_thinking == pre.supports_thinking
    &&& p.context_window == pre.context_window
    &&& p.api_base@ == match endpoint { Some(e) => e, None => pre.api_base@ }
    &&& opt_view(p.api_key_env_var) == Some(pre.api_key_env_var@)
    &&& opt_view(p.api_key) == api_key
}

/// What `str::to_uppercase` makes of a string.
pub uninterp spec fn uppercase(s: Seq<char>) -> Seq<char>;

/// ASCII lower-case letters made upper case; everything else unchanged.
pub open spec fn ascii_upper(c: char) -> char {
    if 97 <= (c as int) <= 122 {
        ((c as int) - 32) as char
    } else {
        c
    }
}

/// `s.to_uppercase()`: Unicode upper-case mapping of every character; on
/// ASCII text that is ASCII upper-casing (`a`..`z` to `A`..`Z`, the rest
/// unchanged), as the Unicode tables map those characters.
#[verifier::external_body]
fn to_uppercase(s: &str) -> (r: String)
    ensures
        r@ == uppercase(s@),
        crate::cli_event::all_ascii(s@) ==> r@ == s@.map_values(|c: char| ascii_upper(c)),
{
    s.to_uppercase()
}

impl ProviderConfig {
    /// The backend kind to use.
    pub fn kind(&self) -> (k: &str)
        ensures
            k@ == self.kind@,
    {
        self.kind.as_str()
    }

    /// Whether the provider reports prompt-cache hits.
    pub fn supports_cache_hit(&self) -> (b: bool)
        ensures
            b == (self.cache_hit_field_name is Some),
    {
        self.cache_hit_field_name.is_some()
    }

    /// Name of the fallback key variable: the upper-cased provider name
    /// followed by `_API_KEY`.
    pub fn default_key_env_var(&self) -> (v: String)
        ensures
            v@ == uppercase(self.name@) + "_API_KEY"@,
    {
        let up = to_uppercase(self.name.as_str());
        concat_str(up.as_str(), "_API_KEY")
    }

    /// The API key, by priority: the value of the configured key variable,
    /// then the inline key, then the value of the fallback variable.
    /// `env_value` is the configured variable's value (`None` when unset or
    /// when no variable is configured) and `default_env_value` the fallback
    /// variable's.
    pub fn get_api_key(&self, env_value: Option<String>, default_env_value: Option<String>) -> (k: Option<String>)
        ensures
            self.api_key_env_var is Some && env_value is Some ==> k == env_value,
            !(self.api_key_env_var is Some && env_value is Some) && self.api_key is Some ==> k
                == self.api_key,
            !(self.api_key_env_var is Some && env_value is Some) && self.api_key is None ==> k
                == default_env_value,
    {
        if self.api_key_env_var.is_some() {
            if let Some(key) = env_value {
                return Some(key);
            }
        }
        if let Some(key) = &self.api_key {
            return Some(key.clone());
        }
        default_env_value
    }
}

/// A configured model. It references a provider preset by name and
/// overrides only what differs from it. Sampling floats (temperature, top-p,
/// presence penalty) and vendor extension parameters are kept by the host.
#[derive(Debug)]
pub struct ModelConfig {
    /// Display identifier used in the model selector.
    pub name: String,
    /// Model id sent to the API.
    pub model_id: String,
    /// Provider preset name.
    pub provider: String,
    /// API base URL overriding the preset's.
    pub endpoint: Option<String>,
    /// Inline API key.
    pub api_key: Option<String>,
    pub thinking: Option<String>,
    pub reasoning_effort: Option<String>,
    /// Sampling cap on output tokens.
    pub max_tokens: Option<u32>,
    pub top_k: Option<u32>,
    pub auto_compact_threshold: Option<u64>,
    /// Intrinsic context window of the model.
    pub context_window: Option<u32>,
    /// Hard ceiling on output tokens.
    pub max_output_tokens: Option<u32>,
    pub supports_reasoning: Option<bool>,
    pub supports_vision: Option<bool>,
    pub supports_tools: Option<bool>,
}

impl Clone for ModelConfig {
    fn clone(&self) -> (r: Self)
        ensures
            r == *self,
    {
        ModelConfig {
            name: self.name.clone(),
            model_id: self.model_id.clone(),
            provider: self.provider.clone(),
            endpoint: self.endpoint.clone(),
            api_key: self.api_key.clone(),
            thinking: self.thinking.clone(),
            reasoning_effort: self.reasoning_effort.clone(),
            max_tokens: self.max_tokens,
            top_k: self.top_k,
            auto_compact_threshold: self.auto_compact_threshold,
            context_window: self.context_window,
            max_output_tokens: self.max_output_tokens,
            supports_reasoning: self.supports_reasoning,
            supports_vision: self.supports_vision,
            supports_tools: self.supports_tools,
        }
    }
}

impl ModelConfig {
    /// A model of `provider` with nothing overridden.
    pub fn new(name: String, model_id: String, provider: String) -> (m: ModelConfig)
        ensures
            m.name == name,
            m.model_id == model_id,
            m.provider == provider,
            m.endpoint is None && m.api_key is None && m.thinking is None,
            m.reasoning_effort is None && m.max_tokens is None && m.top_k is None,
            m.auto_compact_threshold is None && m.context_window is None,
            m.max_output_tokens is None && m.supports_reasoning is None,
            m.supports_vision is None && m.supports_tools is None,
    {
        ModelConfig {
            name,
            model_id,
            provider,
            endpoint: None,
            api_key: None,
            thinking: None,
            reasoning_effort: None,
            max_tokens: None,
            top_k: None,
            auto_compact_threshold: None,
            context_window: None,
            max_output_tokens: None,
            supports_reasoning: None,
            supports_vision: None,
            supports_tools: None,
        }
    }

    /// Effective max output tokens: the model's own `max_tokens`, else the
    /// preset's, capped by `max_output_tokens` when that is set.
    pub fn effective_max_tokens(&self) -> (r: Option<u32>)
        ensures
            ({
                let base: u32 = match self.max_tokens {
                    Some(m) => m,
                    None => preset(preset_id(self.provider@)).max_tokens,
                };
                r == Some(match self.max_output_tokens {
                    Some(cap) => if base < cap { base } else { cap },
                    None => base,
                })
            }),
            self.max_output_tokens matches Some(cap) ==> r.unwrap() <= cap,
    {
        let base = match self.max_tokens {
            Some(m) => m,
            None => builtin_provider(self.provider.as_str()).max_tokens,
        };
        match self.max_output_tokens {
            Some(cap) => Some(if base < cap { base } else { cap }),
            None => Some(base),
        }
    }

    /// Effective context window: the model's own, else the preset's.
    pub fn effective_context_window(&self) -> (r: u32)
        ensures
            r == match self.context_window {
                Some(w) => w,
                None => preset(preset_id(self.provider@)).context_window,
            },
    {
        match self.context_window {
            Some(w) => w,
            None => builtin_provider(self.provider.as_str()).context_window,
        }
    }

    /// Whether the model supports reasoning: its own setting, else the
    /// preset's.
    pub fn effective_supports_reasoning(&self) -> (r: bool)
        ensures
            r == match self.supports_reasoning {
                Some(b) => b,
                None => preset(preset_id(self.provider@)).supports_thinking,
            },
    {
        match self.supports_reasoning {
            Some(b) => b,
            None => builtin_provider(self.provider.as_str()).supports_thinking,
        }
    }
}

/// Permission level of a tool.
#[derive(Debug, Clone, Copy, PartialEq, Eq, Structural)]
pub enum ToolPermission {
    /// Run without confirmation.
    Always,
    /// Never run.
    Never,
    /// Ask before running.
    Ask,
    /// Run within the session directory only.
    SessionOnly,
    /// Run within the working directory only.
    WorkingDirOnly,
}

impl Default for ToolPermission {
    fn default() -> (p: Self)
        ensures
            p == ToolPermission::Ask,
    {
        ToolPermission::Ask
    }
}

impl ToolPermission {
    /// Only `Ask` needs the user's confirmation.
    pub fn requires_confirmation(&self) -> (b: bool)
        ensures
            b == (*self == ToolPermission::Ask),
    {
        match self {
            ToolPermission::Ask => true,
            _ => false,
        }
    }

    /// Everything but `Never` may run.
    pub fn allows_execution(&self) -> (b: bool)
        ensures
            b == (*self != ToolPermission::Never),
    {
        match self {
            ToolPermission::Never => false,
            _ => true,
        }
    }
}

/// A permission that asks for confirmation allows execution.
pub proof fn law_confirmation_implies_execution(p: ToolPermission)
    ensures
        p == ToolPermission::Ask ==> p != ToolPermission::Never,
{
}

/// Permission and pattern lists of one tool.
#[derive(Debug, Clone)]
pub struct ToolConfig {
    pub permission: ToolPermission,
    pub allowlist: Vec<String>,
    pub denylist: Vec<String>,
    pub sensitive_patterns: Vec<String>,
}

impl Default for ToolConfig {
    fn default() -> (c: Self)
        ensures
            c.permission == ToolPermission::Ask,
            c.allowlist@.len() == 0,
            c.denylist@.len() == 0,
            c.sensitive_patterns@.len() == 0,
    {
        ToolConfig {
            permission: ToolPermission::Ask,
            allowlist: Vec::new(),
            denylist: Vec::new(),
            sensitive_patterns: Vec::new(),
        }
    }
}

/// `base` without the items whose key occurs in `over`, followed by `over`.
pub open spec fn merge_by_key_spec<T>(base: Seq<(T, Seq<char>)>, over: Seq<(T, Seq<char>)>) -> Seq<(T, Seq<char>)> {
    base.filter(|p: (T, Seq<char>)| !over.map_values(|q: (T, Seq<char>)| q.1).contains(p.1)) + over
}

pub open spec fn keyed<T>(items: Seq<T>, keys: Seq<String>) -> Seq<(T, Seq<char>)> {
    Seq::new(items.len(), |i: int| (items[i], keys[i]@))
}

pub(crate) fn key_in(keys: &Vec<String>, k: &String) -> (r: bool)
    ensures
        r == strings_view(keys@).contains(k@),
{
    let mut i: usize = 0;
    while i < keys.len()
        invariant
            i <= keys@.len(),
            forall|j: int| 0 <= j < i ==> keys@[j]@ != k@,
        decreases keys@.len() - i,
    {
        if same_text(keys[i].as_str(), k.as_str()) {
            assert(strings_view(keys@)[i as int] == k@);
            return true;
        }
        i = i + 1;
    }
    assert(!strings_view(keys@).contains(k@)) by {
        if strings_view(keys@).contains(k@) {
            let j = choose|j: int| 0 <= j < strings_view(keys@).len() && strings_view(keys@)[j] == k@;
            assert(keys@[j]@ == k@);
        }
    }
    false
}

/// Merge two lists whose items are identified by `*_keys[i]`: items of
/// `base` whose key occurs in `over` are replaced, and `over` follows.
pub fn merge_by_key<T>(base: Vec<T>, base_keys: Vec<String>, over: Vec<T>, over_keys: Vec<String>) -> (r: Vec<T>)
    requires
        base_keys@.len() == base@.len(),
        over_keys@.len() == over@.len(),
    ensures
        r@ == merge_by_key_spec(keyed(base@, base_keys@), keyed(over@, over_keys@)).map_values(
            |p: (T, Seq<char>)| p.0,
        ),
{
    let ghost ob = keyed(base@, base_keys@);
    let ghost oo = keyed(over@, over_keys@);
    let ghost over_v = over@;
    let ghost okeys = oo.map_values(|q: (T, Seq<char>)| q.1);
    assert(okeys =~= strings_view(over_keys@));
    let ghost pred = |p: (T, Seq<char>)| !okeys.contains(p.1);
    let mut b = base;
    let mut bk = base_keys;
    let mut rev: Vec<T> = Vec::new();
    let mut rev_keys: Vec<String> = Vec::new();
    let n = b.len();
    while b.len() > 0
        invariant
            b@.len() == bk@.len(),
            b@.len() + rev@.len() == n,
            rev@.len() == rev_keys@.len(),
            n == ob.len(),
            forall|k: int| 0 <= k < b@.len() ==> (#[trigger] b@[k]) == ob[k].0 && bk@[k]@ == ob[k].1,
            forall|k: int| 0 <= k < rev@.len() ==> (#[trigger] rev@[k]) == ob[n - 1 - k].0 && rev_keys@[k]@ == ob[n - 1 - k].1,
        decreases b@.len(),
    {
        let x = b.pop().unwrap();
        let k = bk.pop().unwrap();
        rev.push(x);
        rev_keys.push(k);
    }
    let mut kept: Vec<T> = Vec::new();
    let mut done: usize = 0;
    while rev.len() > 0
        invariant
            rev@.len() == rev_keys@.len(),
            done + rev@.len() == n,
            n == ob.len(),
            okeys == strings_view(over_keys@),
            pred == (|p: (T, Seq<char>)| !okeys.contains(p.1)),
            forall|k: int| 0 <= k < rev@.len() ==> (#[trigger] rev@[k]) == ob[n - 1 - k].0 && rev_keys@[k]@ == ob[n - 1 - k].1,
            kept@ == ob.take(done as int).filter(pred).map_values(|p: (T, Seq<char>)| p.0),
        decreases rev@.len(),
    {
        let x = rev.pop().unwrap();
        let k = rev_keys.pop().unwrap();
        proof {
            reveal_with_fuel(Seq::filter, 1);
            assert(ob.take(done + 1).drop_last() =~= ob.take(done as int));
            assert(ob.take(done + 1).last() == ob[done as int]);
        }
        let ghost k0 = kept@;
        if !key_in(&over_keys, &k) {
            kept.push(x);
            assert(kept@ =~= ob.take(done + 1).filter(pred).map_values(|p: (T, Seq<char>)| p.0));
        } else {
            assert(kept@ =~= ob.take(done + 1).filter(pred).map_values(|p: (T, Seq<char>)| p.0));
        }
        done = done + 1;
    }
    assert(ob.take(done as int) =~= ob);
    let mut over = over;
    let ghost kept_v = kept@;
    kept.append(&mut over);
    assert(oo.map_values(|p: (T, Seq<char>)| p.0) =~= over_v);
    assert(kept@ =~= merge_by_key_spec(ob, oo).map_values(|p: (T, Seq<char>)| p.0));
    kept
}

/// Merging a keyed list over itself leaves it unchanged.
pub proof fn law_merge_by_key_with_self<T>(items: Seq<(T, Seq<char>)>)
    ensures
        merge_by_key_spec(items, items) == items,
{
    let ks = items.map_values(|q: (T, Seq<char>)| q.1);
    let p = |p: (T, Seq<char>)| !ks.contains(p.1);
    assert(items.filter(p) =~= Seq::<(T, Seq<char>)>::empty()) by {
        if items.filter(p).len() > 0 {
            items.lemma_filter_pred(p, 0);
            let x = items.filter(p)[0];
            items.lemma_filter_contains_rev(p, x);
            let j = choose|j: int| 0 <= j < items.len() && items[j] == x;
            assert(ks[j] == x.1);
        }
    }
    assert(Seq::<(T, Seq<char>)>::empty() + items =~= items);
}

} // verus!
