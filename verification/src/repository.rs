//! The configuration repository: the one place that resolves model aliases,
//! lists models and applies writes, each write naming the domain it touches.
//!
//! Persisting a write and announcing the change to subscribers is done by the
//! host with the `ConfigChange` that each write returns.

use vstd::prelude::*;
use crate::config::{opt_view, ModelConfig};
use crate::error::ArrowError;
use crate::text::{concat_str, same_text};
use crate::vibe::VibeConfig;

verus! {

/// The configuration domain a write touches.
#[derive(Debug, Clone, Copy, PartialEq, Eq, Structural)]
pub enum ConfigDomain {
    /// The model registry.
    Model,
    /// The agent runtime settings (active model, default agent).
    Agent,
}

/// Notice of a configuration change.
#[derive(Debug, Clone, Copy, PartialEq, Eq, Structural)]
pub struct ConfigChange {
    pub domain: ConfigDomain,
}

/// What a model list shows of a model: no key, no endpoint.
#[derive(Debug, Clone, PartialEq, Eq)]
pub struct ModelSummary {
    pub name: String,
    pub model_id: String,
    pub provider: String,
}

/// The agent runtime settings.
#[derive(Debug, Clone, PartialEq, Eq)]
pub struct AgentConfig {
    pub default_agent: String,
    pub default_model: Option<String>,
}

/// A repository over a resolved configuration and the paths it is saved to.
pub struct LocalConfigRepository {
    config: VibeConfig,
    config_path: String,
    models_path: Option<String>,
}

/// The first model named `alias`.
pub open spec fn first_named(models: Seq<ModelConfig>, alias: Seq<char>, i: int) -> bool {
    &&& 0 <= i < models.len()
    &&& models[i].name@ == alias
    &&& forall|j: int| 0 <= j < i ==> (#[trigger] models[j]).name@ != alias
}

impl LocalConfigRepository {
    pub closed spec fn config(&self) -> VibeConfig {
        self.config
    }

    pub closed spec fn config_path(&self) -> Seq<char> {
        self.config_path@
    }

    pub closed spec fn models_path(&self) -> Option<Seq<char>> {
        opt_view(self.models_path)
    }

    pub fn new(config: VibeConfig, config_path: String, models_path: Option<String>) -> (r: Self)
        ensures
            r.config() == config,
            r.config_path() == config_path@,
            r.models_path() == opt_view(models_path),
    {
        LocalConfigRepository { config, config_path, models_path }
    }

    /// The configuration held.
    pub fn snapshot(&self) -> (c: &VibeConfig)
        ensures
            *c == self.config(),
    {
        &self.config
    }

    /// The main configuration file's path, for display.
    pub fn config_path_display(&self) -> (s: String)
        ensures
            s@ == self.config_path(),
    {
        self.config_path.clone()
    }

    /// The standalone model file's path, for display, if one is configured.
    pub fn models_path_display(&self) -> (s: Option<String>)
        ensures
            opt_view(s) == self.models_path(),
    {
        self.models_path.clone()
    }

    /// The first model named `alias`, or a configuration error naming the
    /// alias when there is none.
    pub fn resolve_model(&self, alias: &str) -> (r: Result<ModelConfig, ArrowError>)
        ensures
            r matches Ok(m) ==> exists|i: int| first_named(self.config().models@, alias@, i) && m == self.config().models@[i],
            r is Err <==> forall|j: int| 0 <= j < self.config().models@.len() ==> (#[trigger] self.config().models@[j]).name@ != alias@,
            r matches Err(e) ==> e matches ArrowError::Config(msg) && msg@ == "unknown model alias: "@ + alias@,
    {
        let models = &self.config.models;
        let mut i: usize = 0;
        while i < models.len()
            invariant
                i <= models@.len(),
                models == &self.config.models,
                forall|j: int| 0 <= j < i ==> (#[trigger] models@[j]).name@ != alias@,
            decreases models@.len() - i,
        {
            if same_text(models[i].name.as_str(), alias) {
                assert(first_named(models@, alias@, i as int));
                return Ok(models[i].clone());
            }
            i = i + 1;
        }
        proof {
            reveal_strlit("unknown model alias: ");
        }
        Err(ArrowError::Config(concat_str("unknown model alias: ", alias)))
    }

    /// A summary of every model, in order.
    pub fn list_models(&self) -> (r: Vec<ModelSummary>)
        ensures
            r@.len() == self.config().models@.len(),
            forall|i: int|
                0 <= i < r@.len() ==> (#[trigger] r@[i]).name == self.config().models@[i].name && r@[i].model_id
                    == self.config().models@[i].model_id && r@[i].provider == self.config().models@[i].provider,
    {
        let models = &self.config.models;
        let mut r: Vec<ModelSummary> = Vec::new();
        let mut i: usize = 0;
        while i < models.len()
            invariant
                i <= models@.len(),
                models == &self.config.models,
                r@.len() == i,
                forall|k: int|
                    0 <= k < i ==> (#[trigger] r@[k]).name == models@[k].name && r@[k].model_id == models@[k].model_id
                        && r@[k].provider == models@[k].provider,
            decreases models@.len() - i,
        {
            r.push(
                ModelSummary {
                    name: models[i].name.clone(),
                    model_id: models[i].model_id.clone(),
                    provider: models[i].provider.clone(),
                },
            );
            i = i + 1;
        }
        r
    }

    /// The default agent and the active model.
    pub fn current_agent_config(&self) -> (a: AgentConfig)
        ensures
            a.default_agent == self.config().default_agent,
            a.default_model == self.config().active_model,
    {
        AgentConfig {
            default_agent: self.config.default_agent.clone(),
            default_model: self.config.active_model.clone(),
        }
    }

    /// Replace the model registry. The change to persist and announce is in
    /// the `Model` domain.
    pub fn set_models(&mut self, models: Vec<ModelConfig>) -> (c: ConfigChange)
        ensures
            final(self).config().models == models,
            final(self).config().active_model == old(self).config().active_model,
            final(self).config().default_agent == old(self).config().default_agent,
            final(self).config_path() == old(self).config_path(),
            final(self).models_path() == old(self).models_path(),
            c.domain == ConfigDomain::Model,
    {
        self.config.models = models;
        ConfigChange { domain: ConfigDomain::Model }
    }

    /// Set or clear the active model. The change to persist and announce is
    /// in the `Agent` domain.
    pub fn set_active_model(&mut self, alias: Option<String>) -> (c: ConfigChange)
        ensures
            final(self).config().active_model == alias,
            final(self).config().models == old(self).config().models,
            final(self).config().default_agent == old(self).config().default_agent,
            final(self).config_path() == old(self).config_path(),
            final(self).models_path() == old(self).models_path(),
            c.domain == ConfigDomain::Agent,
    {
        self.config.active_model = alias;
        ConfigChange { domain: ConfigDomain::Agent }
    }
}

} // verus!
