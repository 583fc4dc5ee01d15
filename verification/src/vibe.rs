//! The main agent configuration: its defaults, the layering of a user and a
//! project configuration, environment overrides, and provider resolution.
//!
//! Reading and writing the TOML files, locating them, and the MCP server and
//! custom agent tables are the host's part.

use vstd::prelude::*;
use crate::config::{
    builtin_provider, keyed, key_in, merge_by_key, merge_by_key_spec, opt_string, opt_view,
    resolved, ModelConfig, ProviderConfig, ToolConfig,
};
use crate::error::ArrowError;
use crate::sorted::{sort_dedup, strictly_sorted};
use crate::text::{same_text, strings_view};

verus! {

/// The main configuration.
#[derive(Debug)]
pub struct VibeConfig {
    pub default_agent: String,
    /// Standalone model-definition file, relative to the config file or
    /// absolute.
    pub models_file: Option<String>,
    pub models: Vec<ModelConfig>,
    /// Name of the model in use.
    pub active_model: Option<String>,
    /// Per-tool settings, by tool name.
    pub tools: Vec<(String, ToolConfig)>,
    pub disabled_tools: Vec<String>,
    pub enabled_tools: Option<Vec<String>>,
    pub bypass_tool_permissions: bool,
    pub context_warnings: bool,
    pub installed_agents: Option<Vec<String>>,
    pub enabled_agents: Option<Vec<String>>,
    pub disabled_agents: Vec<String>,
    pub skill_paths: Vec<String>,
    pub enabled_skills: Vec<String>,
    pub disabled_skills: Vec<String>,
}

pub open spec fn names_of(models: Seq<ModelConfig>) -> Seq<String> {
    models.map_values(|m: ModelConfig| m.name)
}

pub open spec fn tool_names(tools: Seq<(String, ToolConfig)>) -> Seq<String> {
    tools.map_values(|t: (String, ToolConfig)| t.0)
}

/// Models of `over` replace the models of `base` with the same name and
/// follow the remaining ones.
pub open spec fn merged_models(base: Seq<ModelConfig>, over: Seq<ModelConfig>) -> Seq<ModelConfig> {
    merge_by_key_spec(keyed(base, names_of(base)), keyed(over, names_of(over))).map_values(
        |p: (ModelConfig, Seq<char>)| p.0,
    )
}

pub open spec fn merged_tools(base: Seq<(String, ToolConfig)>, over: Seq<(String, ToolConfig)>) -> Seq<
    (String, ToolConfig),
> {
    merge_by_key_spec(keyed(base, tool_names(base)), keyed(over, tool_names(over))).map_values(
        |p: ((String, ToolConfig), Seq<char>)| p.0,
    )
}

/// `base` followed by each item of `over` that is not yet present.
pub open spec fn merge_vec_spec(base: Seq<Seq<char>>, over: Seq<Seq<char>>) -> Seq<Seq<char>>
    decreases over.len(),
{
    if over.len() == 0 {
        base
    } else {
        let acc = merge_vec_spec(base, over.drop_last());
        if acc.contains(over.last()) {
            acc
        } else {
            acc.push(over.last())
        }
    }
}

pub open spec fn opt_strings(o: Option<Vec<String>>) -> Option<Seq<Seq<char>>> {
    match o {
        Some(v) => Some(strings_view(v@)),
        None => None,
    }
}

/// What `str::parse::<bool>` gives: `true` and `false` only.
pub open spec fn parse_bool_spec(s: Seq<char>) -> Option<bool> {
    if s == "true"@ {
        Some(true)
    } else if s == "false"@ {
        Some(false)
    } else {
        None
    }
}

/// The text of a model: name, id, provider, endpoint, inline key, thinking,
/// reasoning effort, max tokens and auto-compact threshold.
pub type ModelText = (
    Seq<char>,
    Seq<char>,
    Seq<char>,
    Option<Seq<char>>,
    Option<Seq<char>>,
    Option<Seq<char>>,
    Option<Seq<char>>,
    Option<u32>,
    Option<u64>,
);

pub open spec fn model_text(m: ModelConfig) -> ModelText {
    (
        m.name@,
        m.model_id@,
        m.provider@,
        opt_view(m.endpoint),
        opt_view(m.api_key),
        opt_view(m.thinking),
        opt_view(m.reasoning_effort),
        m.max_tokens,
        m.auto_compact_threshold,
    )
}

/// No override beyond the fields of `model_text`.
pub open spec fn only_text_fields(m: ModelConfig) -> bool {
    &&& m.top_k is None
    &&& m.context_window is None
    &&& m.max_output_tokens is None
    &&& m.supports_reasoning is None
    &&& m.supports_vision is None
    &&& m.supports_tools is None
}

/// The built-in models of the default configuration.
pub open spec fn default_models() -> Seq<ModelText> {
    seq![
        ("deepseek-flash"@, "deepseek-chat"@, "deepseek"@, None, None, Some("high"@), Some("high"@), Some(64000u32), Some(64000u64)),
        ("deepseek-pro"@, "deepseek-reasoner"@, "deepseek"@, None, None, Some("high"@), Some("max"@), Some(64000u32), Some(64000u64)),
        ("gpt4o"@, "gpt-4o"@, "openai_compatible"@, None, None, None, None, Some(8192u32), Some(16000u64)),
        ("local"@, "local"@, "openai_compatible"@, Some("http://127.0.0.1:8080/v1"@), None, None, None, Some(4096u32), Some(8000u64)),
    ]
}

/// The empty configuration: the `default` agent, no models, context warnings on.
pub open spec fn is_default_config(c: VibeConfig) -> bool {
    c.models@.len() == 0 && default_settings(c)
}

/// Every setting but the models as in the empty configuration.
pub open spec fn default_settings(c: VibeConfig) -> bool {
    &&& c.default_agent@ == "default"@
    &&& c.models_file is None
    &&& c.active_model is None
    &&& c.tools@.len() == 0
    &&& c.disabled_tools@.len() == 0
    &&& c.enabled_tools is None
    &&& !c.bypass_tool_permissions
    &&& c.context_warnings
    &&& c.installed_agents is None
    &&& c.enabled_agents is None
    &&& c.disabled_agents@.len() == 0
    &&& c.skill_paths@.len() == 0
    &&& c.enabled_skills@.len() == 0
    &&& c.disabled_skills@.len() == 0
}

impl Default for VibeConfig {
    fn default() -> (c: Self)
        ensures
            is_default_config(c),
    {
        VibeConfig {
            default_agent: String::from_str("default"),
            models_file: None,
            models: Vec::new(),
            active_model: None,
            tools: Vec::new(),
            disabled_tools: Vec::new(),
            enabled_tools: None,
            bypass_tool_permissions: false,
            context_warnings: true,
            installed_agents: None,
            enabled_agents: None,
            disabled_agents: Vec::new(),
            skill_paths: Vec::new(),
            enabled_skills: Vec::new(),
            disabled_skills: Vec::new(),
        }
    }
}

fn model_names(models: &Vec<ModelConfig>) -> (r: Vec<String>)
    ensures
        r@ == names_of(models@),
{
    let mut r: Vec<String> = Vec::new();
    let mut i: usize = 0;
    while i < models.len()
        invariant
            i <= models@.len(),
            r@ == names_of(models@).take(i as int),
        decreases models@.len() - i,
    {
        r.push(models[i].name.clone());
        assert(names_of(models@).take(i + 1) =~= names_of(models@).take(i as int).push(models@[i as int].name));
        i = i + 1;
    }
    assert(names_of(models@).take(i as int) =~= names_of(models@));
    r
}

fn tool_keys(tools: &Vec<(String, ToolConfig)>) -> (r: Vec<String>)
    ensures
        r@ == tool_names(tools@),
{
    let mut r: Vec<String> = Vec::new();
    let mut i: usize = 0;
    while i < tools.len()
        invariant
            i <= tools@.len(),
            r@ == tool_names(tools@).take(i as int),
        decreases tools@.len() - i,
    {
        r.push(tools[i].0.clone());
        assert(tool_names(tools@).take(i + 1) =~= tool_names(tools@).take(i as int).push(tools@[i as int].0));
        i = i + 1;
    }
    assert(tool_names(tools@).take(i as int) =~= tool_names(tools@));
    r
}

/// Parse `true` or `false`.
pub fn parse_bool(s: &str) -> (r: Option<bool>)
    ensures
        r == parse_bool_spec(s@),
{
    if same_text(s, "true") {
        Some(true)
    } else if same_text(s, "false") {
        Some(false)
    } else {
        None
    }
}

fn default_model(
    name: &str,
    model_id: &str,
    provider: &str,
    endpoint: Option<&str>,
    thinking: Option<&str>,
    effort: Option<&str>,
    max_tokens: u32,
    auto_compact: u64,
) -> (m: ModelConfig)
    ensures
        model_text(m) == (
            name@,
            model_id@,
            provider@,
            match endpoint { Some(x) => Some(x@), None => None },
            None::<Seq<char>>,
            match thinking { Some(x) => Some(x@), None => None },
            match effort { Some(x) => Some(x@), None => None },
            Some(max_tokens),
            Some(auto_compact),
        ),
        only_text_fields(m),
{
    ModelConfig {
        name: String::from_str(name),
        model_id: String::from_str(model_id),
        provider: String::from_str(provider),
        endpoint: opt_string(endpoint),
        api_key: None,
        thinking: opt_string(thinking),
        reasoning_effort: opt_string(effort),
        max_tokens: Some(max_tokens),
        top_k: None,
        auto_compact_threshold: Some(auto_compact),
        context_window: None,
        max_output_tokens: None,
        supports_reasoning: None,
        supports_vision: None,
        supports_tools: None,
    }
}

impl VibeConfig {
    /// The runtime backend settings of `model`: its provider preset's kind,
    /// fields, capabilities and key variable, its own endpoint over the
    /// preset's base URL, and its inline key.
    pub fn resolve_provider(&self, model: &ModelConfig) -> (r: Result<ProviderConfig, ArrowError>)
        ensures
            r matches Ok(p) && resolved(p, model.provider@, opt_view(model.endpoint), opt_view(model.api_key)),
    {
        let pre = builtin_provider(model.provider.as_str());
        let api_base = match &model.endpoint {
            Some(e) => e.clone(),
            None => String::from_str(pre.api_base),
        };
        Ok(ProviderConfig {
            name: model.provider.clone(),
            kind: String::from_str(pre.kind),
            reasoning_field_name: opt_string(pre.reasoning_field),
            cache_hit_field_name: opt_string(pre.cache_hit_field),
            rejects_penalty: pre.rejects_penalty,
            supports_thinking: pre.supports_thinking,
            context_window: pre.context_window,
            api_base,
            api_key_env_var: Some(String::from_str(pre.api_key_env_var)),
            api_key: model.api_key.clone(),
        })
    }

    /// `base` followed by each item of `over` not already present.
    pub fn merge_vec(base: Vec<String>, over: Vec<String>) -> (r: Vec<String>)
        ensures
            strings_view(r@) == merge_vec_spec(strings_view(base@), strings_view(over@)),
    {
        let mut merged = base;
        let ghost b = strings_view(merged@);
        let mut i: usize = 0;
        assert(strings_view(over@).take(0) =~= Seq::<Seq<char>>::empty());
        while i < over.len()
            invariant
                i <= over@.len(),
                strings_view(merged@) == merge_vec_spec(b, strings_view(over@).take(i as int)),
            decreases over@.len() - i,
        {
            let ghost o = strings_view(over@).take(i + 1);
            assert(o.drop_last() =~= strings_view(over@).take(i as int));
            assert(o.last() == over@[i as int]@);
            if !key_in(&merged, &over[i]) {
                merged.push(over[i].clone());
                assert(strings_view(merged@) =~= merge_vec_spec(b, strings_view(over@).take(i as int)).push(over@[i as int]@));
            }
            i = i + 1;
        }
        assert(strings_view(over@).take(i as int) =~= strings_view(over@));
        merged
    }

    /// Models of `over` replace the models of `base` with the same name and
    /// follow the rest.
    pub fn merge_vec_by_key(base: Vec<ModelConfig>, over: Vec<ModelConfig>) -> (r: Vec<ModelConfig>)
        ensures
            r@ == merged_models(base@, over@),
    {
        let bk = model_names(&base);
        let ok = model_names(&over);
        merge_by_key(base, bk, over, ok)
    }

    /// Layer `over` on `base`: a non-default agent, a models file, an active
    /// model, enabled
    /// lists and bypassing permissions of `over` win; models and tools of
    /// `over` replace those of the same name; disabled lists and skill paths
    /// are united; installed agents are united, sorted and deduplicated when
    /// `over` lists any; context warnings follow `over`.
    pub fn merge_configs(base: Self, over: Self) -> (r: Self)
        ensures
            r.default_agent@ == if over.default_agent@ != "default"@ {
                over.default_agent@
            } else {
                base.default_agent@
            },
            opt_view(r.models_file) == match over.models_file {
                Some(f) => Some(f@),
                None => opt_view(base.models_file),
            },
            r.models@ == merged_models(base.models@, over.models@),
            opt_view(r.active_model) == match over.active_model {
                Some(a) => Some(a@),
                None => opt_view(base.active_model),
            },
            r.tools@ == merged_tools(base.tools@, over.tools@),
            strings_view(r.disabled_tools@) == merge_vec_spec(
                strings_view(base.disabled_tools@),
                strings_view(over.disabled_tools@),
            ),
            opt_strings(r.enabled_tools) == match over.enabled_tools {
                Some(v) => Some(strings_view(v@)),
                None => opt_strings(base.enabled_tools),
            },
            r.bypass_tool_permissions == (over.bypass_tool_permissions || base.bypass_tool_permissions),
            r.context_warnings == over.context_warnings,
            r.installed_agents is Some,
            over.installed_agents is None ==> opt_strings(r.installed_agents) == Some(
                match base.installed_agents {
                    Some(v) => strings_view(v@),
                    None => Seq::<Seq<char>>::empty(),
                },
            ),
            over.installed_agents matches Some(o) ==> ({
                let all = match base.installed_agents {
                    Some(v) => strings_view(v@),
                    None => Seq::<Seq<char>>::empty(),
                } + strings_view(o@);
                &&& strictly_sorted(strings_view(r.installed_agents.unwrap()@))
                &&& strings_view(r.installed_agents.unwrap()@).to_set() == all.to_set()
            }),
            opt_strings(r.enabled_agents) == match over.enabled_agents {
                Some(v) => Some(strings_view(v@)),
                None => opt_strings(base.enabled_agents),
            },
            strings_view(r.disabled_agents@) == merge_vec_spec(
                strings_view(base.disabled_agents@),
                strings_view(over.disabled_agents@),
            ),
            strings_view(r.skill_paths@) == merge_vec_spec(
                strings_view(base.skill_paths@),
                strings_view(over.skill_paths@),
            ),
            strings_view(r.enabled_skills@) == if over.enabled_skills@.len() == 0 {
                strings_view(base.enabled_skills@)
            } else {
                strings_view(over.enabled_skills@)
            },
            strings_view(r.disabled_skills@) == merge_vec_spec(
                strings_view(base.disabled_skills@),
                strings_view(over.disabled_skills@),
            ),
    {
        proof {
            reveal_strlit("default");
        }
        let default_agent = if !same_text(over.default_agent.as_str(), "default") {
            over.default_agent
        } else {
            base.default_agent
        };
        let models_file = match over.models_file {
            Some(f) => Some(f),
            None => base.models_file,
        };
        let models = Self::merge_vec_by_key(base.models, over.models);
        let active_model = match over.active_model {
            Some(a) => Some(a),
            None => base.active_model,
        };
        let bt = tool_keys(&base.tools);
        let ot = tool_keys(&over.tools);
        let tools = merge_by_key(base.tools, bt, over.tools, ot);
        let enabled_tools = match over.enabled_tools {
            Some(v) => Some(v),
            None => base.enabled_tools,
        };
        let installed = match base.installed_agents {
            Some(v) => v,
            None => Vec::new(),
        };
        let ghost installed_v = strings_view(installed@);
        let installed_agents = match over.installed_agents {
            Some(o) => {
                let mut all = installed;
                let mut o = o;
                let ghost ov = strings_view(o@);
                all.append(&mut o);
                assert(strings_view(all@) =~= installed_v + ov);
                Some(sort_dedup(all))
            },
            None => Some(installed),
        };
        let enabled_agents = match over.enabled_agents {
            Some(v) => Some(v),
            None => base.enabled_agents,
        };
        let enabled_skills = if over.enabled_skills.len() == 0 {
            base.enabled_skills
        } else {
            over.enabled_skills
        };
        VibeConfig {
            default_agent,
            models_file,
            models,
            active_model,
            tools,
            disabled_tools: Self::merge_vec(base.disabled_tools, over.disabled_tools),
            enabled_tools,
            bypass_tool_permissions: over.bypass_tool_permissions || base.bypass_tool_permissions,
            context_warnings: over.context_warnings,
            installed_agents,
            enabled_agents,
            disabled_agents: Self::merge_vec(base.disabled_agents, over.disabled_agents),
            skill_paths: Self::merge_vec(base.skill_paths, over.skill_paths),
            enabled_skills,
            disabled_skills: Self::merge_vec(base.disabled_skills, over.disabled_skills),
        }
    }

    /// Merge the models of a standalone model file: they replace inline
    /// models of the same name.
    pub fn merge_models_file(&mut self, file_models: Vec<ModelConfig>)
        ensures
            final(self).models@ == merged_models(old(self).models@, file_models@),
            final(self).default_agent == old(self).default_agent,
            final(self).models_file == old(self).models_file,
    {
        let mut models: Vec<ModelConfig> = Vec::new();
        std::mem::swap(&mut models, &mut self.models);
        self.models = Self::merge_vec_by_key(models, file_models);
    }

    /// Apply the environment overrides, given the values of
    /// `VIBE_DEFAULT_AGENT`, `VIBE_BYPASS_TOOL_PERMISSIONS` and
    /// `VIBE_CONTEXT_WARNINGS` (`None` when unset). A value that is not
    /// `true` or `false` counts as `false` for bypassing and `true` for
    /// warnings.
    pub fn apply_env_overrides(
        &mut self,
        default_agent: Option<String>,
        bypass_tool_permissions: Option<String>,
        context_warnings: Option<String>,
    )
        ensures
            final(self).default_agent@ == match default_agent {
                Some(a) => a@,
                None => old(self).default_agent@,
            },
            final(self).bypass_tool_permissions == match bypass_tool_permissions {
                Some(v) => match parse_bool_spec(v@) {
                    Some(b) => b,
                    None => false,
                },
                None => old(self).bypass_tool_permissions,
            },
            final(self).context_warnings == match context_warnings {
                Some(v) => match parse_bool_spec(v@) {
                    Some(b) => b,
                    None => true,
                },
                None => old(self).context_warnings,
            },
            final(self).models == old(self).models,
            final(self).tools == old(self).tools,
    {
        if let Some(agent) = default_agent {
            self.default_agent = agent;
        }
        if let Some(val) = bypass_tool_permissions {
            self.bypass_tool_permissions = match parse_bool(val.as_str()) {
                Some(b) => b,
                None => false,
            };
        }
        if let Some(val) = context_warnings {
            self.context_warnings = match parse_bool(val.as_str()) {
                Some(b) => b,
                None => true,
            };
        }
    }

    /// The default configuration with the built-in models: two DeepSeek
    /// models, GPT-4o and a local OpenAI-compatible server.
    pub fn with_defaults() -> (c: Self)
        ensures
            c.models@.map_values(|m: ModelConfig| model_text(m)) == default_models(),
            forall|i: int| 0 <= i < c.models@.len() ==> only_text_fields(#[trigger] c.models@[i]),
            default_settings(c),
    {
        let mut config = Self::default();
        let mut models: Vec<ModelConfig> = Vec::new();
        models.push(default_model("deepseek-flash", "deepseek-chat", "deepseek", None, Some("high"), Some("high"), 64000, 64000));
        models.push(default_model("deepseek-pro", "deepseek-reasoner", "deepseek", None, Some("high"), Some("max"), 64000, 64000));
        models.push(default_model("gpt4o", "gpt-4o", "openai_compatible", None, None, None, 8192, 16000));
        models.push(default_model("local", "local", "openai_compatible", Some("http://127.0.0.1:8080/v1"), None, None, 4096, 8000));
        config.models = models;
        assert(config.models@.map_values(|m: ModelConfig| model_text(m)) =~= default_models());
        config
    }
}

/// Uniting a list with itself leaves it unchanged.
pub proof fn law_merge_vec_with_self(items: Seq<Seq<char>>)
    ensures
        merge_vec_spec(items, items) == items,
{
    lemma_merge_vec_known(items, items);
}

proof fn lemma_merge_vec_known(base: Seq<Seq<char>>, over: Seq<Seq<char>>)
    requires
        forall|i: int| 0 <= i < over.len() ==> base.contains(#[trigger] over[i]),
    ensures
        merge_vec_spec(base, over) == base,
    decreases over.len(),
{
    if over.len() > 0 {
        lemma_merge_vec_known(base, over.drop_last());
        assert(base.contains(over[over.len() - 1]));
    }
}

/// Every item of either list is in the union, and nothing else.
pub proof fn law_merge_vec_union(base: Seq<Seq<char>>, over: Seq<Seq<char>>)
    ensures
        merge_vec_spec(base, over).to_set() == base.to_set().union(over.to_set()),
        merge_vec_spec(base, over).len() >= base.len(),
        merge_vec_spec(base, over).take(base.len() as int) == base,
    decreases over.len(),
{
    if over.len() == 0 {
        assert(base.to_set().union(over.to_set()) =~= base.to_set());
        assert(base.take(base.len() as int) =~= base);
    } else {
        law_merge_vec_union(base, over.drop_last());
        let acc = merge_vec_spec(base, over.drop_last());
        assert(over =~= over.drop_last().push(over.last()));
        over.drop_last().lemma_push_to_set_commute(over.last());
        if acc.contains(over.last()) {
            assert(base.to_set().union(over.to_set()) =~= base.to_set().union(over.drop_last().to_set()));
        } else {
            acc.lemma_push_to_set_commute(over.last());
            assert(acc.push(over.last()).to_set() =~= base.to_set().union(over.to_set()));
            assert(acc.push(over.last()).take(base.len() as int) =~= acc.take(base.len() as int));
        }
    }
}

} // verus!
