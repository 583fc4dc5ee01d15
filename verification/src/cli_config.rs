//! Settings of the terminal front end and of its model client: defaults,
//! layering of one configuration over another, environment overrides, and
//! the commented default configuration file.
//!
//! Locating, reading and writing the file, the sampling floats and building
//! the client are the host's part.

use vstd::prelude::*;
use crate::config::{keyed, merge_by_key, merge_by_key_spec, opt_view};
use crate::text::same_text;

verus! {

/// Settings of the model client.
#[derive(Debug, Clone)]
pub struct LlmConfig {
    /// `deepseek`, `openai` or `custom`.
    pub provider: String,
    pub api_key: String,
    pub endpoint: Option<String>,
    pub model: String,
    /// Request timeout in seconds.
    pub timeout: u64,
    pub max_tokens: Option<i32>,
    /// DeepSeek thinking mode.
    pub thinking: bool,
    pub reasoning_effort: Option<String>,
    /// Provider-specific options, by name.
    pub extra_options: Vec<(String, String)>,
}

pub open spec fn option_names(o: Seq<(String, String)>) -> Seq<String> {
    o.map_values(|p: (String, String)| p.0)
}

/// Options of `over` replace those of `base` with the same name and follow
/// the rest.
pub open spec fn merged_options(base: Seq<(String, String)>, over: Seq<(String, String)>) -> Seq<(String, String)> {
    merge_by_key_spec(keyed(base, option_names(base)), keyed(over, option_names(over))).map_values(
        |p: ((String, String), Seq<char>)| p.0,
    )
}

impl Default for LlmConfig {
    fn default() -> (c: Self)
        ensures
            c.provider@ == "deepseek"@,
            c.api_key@.len() == 0,
            c.endpoint is None,
            c.model@ == "deepseek-chat"@,
            c.timeout == 120,
            c.max_tokens is None,
            !c.thinking,
            c.reasoning_effort is None,
            c.extra_options@.len() == 0,
    {
        LlmConfig {
            provider: String::from_str("deepseek"),
            api_key: String::new(),
            endpoint: None,
            model: String::from_str("deepseek-chat"),
            timeout: 120,
            max_tokens: None,
            thinking: false,
            reasoning_effort: None,
            extra_options: Vec::new(),
        }
    }
}

fn option_keys(o: &Vec<(String, String)>) -> (r: Vec<String>)
    ensures
        r@ == option_names(o@),
{
    let mut r: Vec<String> = Vec::new();
    let mut i: usize = 0;
    while i < o.len()
        invariant
            i <= o@.len(),
            r@ == option_names(o@).take(i as int),
        decreases o@.len() - i,
    {
        r.push(o[i].0.clone());
        assert(option_names(o@).take(i + 1) =~= option_names(o@).take(i as int).push(o@[i as int].0));
        i = i + 1;
    }
    assert(option_names(o@).take(i as int) =~= option_names(o@));
    r
}

impl LlmConfig {
    /// Layer `other` on this: its non-empty provider, key and model, its
    /// endpoint, non-zero timeout, output cap and reasoning effort when set,
    /// and thinking when on, win; its options replace those of the same name.
    pub fn merge(&mut self, other: LlmConfig)
        ensures
            final(self).provider == if other.provider@.len() > 0 { other.provider } else { old(self).provider },
            final(self).api_key == if other.api_key@.len() > 0 { other.api_key } else { old(self).api_key },
            final(self).endpoint == if other.endpoint is Some { other.endpoint } else { old(self).endpoint },
            final(self).model == if other.model@.len() > 0 { other.model } else { old(self).model },
            final(self).timeout == if other.timeout != 0 { other.timeout } else { old(self).timeout },
            final(self).max_tokens == if other.max_tokens is Some { other.max_tokens } else { old(self).max_tokens },
            final(self).thinking == (other.thinking || old(self).thinking),
            final(self).reasoning_effort == if other.reasoning_effort is Some {
                other.reasoning_effort
            } else {
                old(self).reasoning_effort
            },
            final(self).extra_options@ == merged_options(old(self).extra_options@, other.extra_options@),
    {
        if !other.provider.as_str().is_empty() {
            self.provider = other.provider;
        }
        if !other.api_key.as_str().is_empty() {
            self.api_key = other.api_key;
        }
        if other.endpoint.is_some() {
            self.endpoint = other.endpoint;
        }
        if !other.model.as_str().is_empty() {
            self.model = other.model;
        }
        if other.timeout != 0 {
            self.timeout = other.timeout;
        }
        if other.max_tokens.is_some() {
            self.max_tokens = other.max_tokens;
        }
        if other.thinking {
            self.thinking = other.thinking;
        }
        if other.reasoning_effort.is_some() {
            self.reasoning_effort = other.reasoning_effort;
        }
        let mut base: Vec<(String, String)> = Vec::new();
        std::mem::swap(&mut base, &mut self.extra_options);
        let bk = option_keys(&base);
        let ok = option_keys(&other.extra_options);
        self.extra_options = merge_by_key(base, bk, other.extra_options, ok);
    }

    /// Apply the environment overrides, given the values of `ARROW_API_KEY`,
    /// `ARROW_LLM_PROVIDER`, `ARROW_LLM_MODEL` and `ARROW_LLM_ENDPOINT`
    /// (`None` when unset); empty values are ignored.
    pub fn apply_env(
        &mut self,
        api_key: Option<String>,
        provider: Option<String>,
        model: Option<String>,
        endpoint: Option<String>,
    )
        ensures
            final(self).api_key == match api_key {
                Some(k) => if k@.len() > 0 { k } else { old(self).api_key },
                None => old(self).api_key,
            },
            final(self).provider == match provider {
                Some(p) => if p@.len() > 0 { p } else { old(self).provider },
                None => old(self).provider,
            },
            final(self).model == match model {
                Some(m) => if m@.len() > 0 { m } else { old(self).model },
                None => old(self).model,
            },
            final(self).endpoint == match endpoint {
                Some(e) => if e@.len() > 0 { Some(e) } else { old(self).endpoint },
                None => old(self).endpoint,
            },
            final(self).timeout == old(self).timeout,
            final(self).max_tokens == old(self).max_tokens,
            final(self).thinking == old(self).thinking,
            final(self).reasoning_effort == old(self).reasoning_effort,
            final(self).extra_options == old(self).extra_options,
    {
        if let Some(k) = api_key {
            if !k.as_str().is_empty() {
                self.api_key = k;
            }
        }
        if let Some(p) = provider {
            if !p.as_str().is_empty() {
                self.provider = p;
            }
        }
        if let Some(m) = model {
            if !m.as_str().is_empty() {
                self.model = m;
            }
        }
        if let Some(e) = endpoint {
            if !e.as_str().is_empty() {
                self.endpoint = Some(e);
            }
        }
    }
}

/// Settings of the front end.
#[derive(Debug, Clone)]
pub struct AppConfig {
    /// `trace`, `debug`, `info`, `warn` or `error`.
    pub log_level: String,
    pub tui_enabled: bool,
    pub auto_save: bool,
    pub max_history: usize,
}

impl Default for AppConfig {
    fn default() -> (c: Self)
        ensures
            c.log_level@ == "info"@,
            c.tui_enabled,
            c.auto_save,
            c.max_history == 100,
    {
        AppConfig { log_level: String::from_str("info"), tui_enabled: true, auto_save: true, max_history: 100 }
    }
}

impl AppConfig {
    /// Layer `other` on this: a non-empty log level and a non-zero history
    /// size win; the two switches always follow `other`.
    pub fn merge(&mut self, other: AppConfig)
        ensures
            final(self).log_level == if other.log_level@.len() > 0 { other.log_level } else { old(self).log_level },
            final(self).tui_enabled == other.tui_enabled,
            final(self).auto_save == other.auto_save,
            final(self).max_history == if other.max_history != 0 {
                other.max_history
            } else {
                old(self).max_history
            },
    {
        if !other.log_level.as_str().is_empty() {
            self.log_level = other.log_level;
        }
        self.tui_enabled = other.tui_enabled;
        self.auto_save = other.auto_save;
        if other.max_history != 0 {
            self.max_history = other.max_history;
        }
    }
}

/// The front end's settings after `other` is layered on `base`.
pub open spec fn app_merged(base: AppConfig, other: AppConfig) -> AppConfig {
    AppConfig {
        log_level: if other.log_level@.len() > 0 { other.log_level } else { base.log_level },
        tui_enabled: other.tui_enabled,
        auto_save: other.auto_save,
        max_history: if other.max_history != 0 { other.max_history } else { base.max_history },
    }
}

/// Layering settings over themselves changes nothing, and layering twice
/// is layering once.
pub proof fn law_app_merge_idempotent(a: AppConfig, b: AppConfig)
    ensures
        app_merged(a, a) == a,
        app_merged(app_merged(a, b), b) == app_merged(a, b),
{
}

/// The commented default configuration file.
pub open spec fn default_config_text() -> Seq<char> {
    "# Arrow Coder Configuration File
# Place this file at ~/.config/arrowcoder/config.toml

[llm]
# Provider type: \"deepseek\", \"openai\", or \"custom\"
provider = \"deepseek\"

# API key (can also be set via ARROW_API_KEY environment variable)
api_key = \"\"

# API endpoint (optional, uses provider default if not set)
# endpoint = \"https://api.deepseek.com\"

# Model name
model = \"deepseek-chat\"

# Request timeout in seconds
timeout = 120

# Temperature (0.0 - 2.0, optional)
# temperature = 0.7

# Maximum tokens (optional)
# max_tokens = 2048

# Top-p sampling (optional)
# top_p = 1.0

# Enable thinking mode (DeepSeek reasoning models)
thinking = false

# Reasoning effort level: \"low\", \"medium\", \"high\" (DeepSeek)
# reasoning_effort = \"medium\"

[app]
# Log level: trace, debug, info, warn, error
log_level = \"info\"

# Enable TUI by default
tui_enabled = true

# Auto-save sessions
auto_save = true

# Maximum history entries
max_history = 100
"@
}

/// The commented default configuration file.
pub fn default_config_content() -> (s: String)
    ensures
        s@ == default_config_text(),
{
    String::from_str(
        "# Arrow Coder Configuration File
# Place this file at ~/.config/arrowcoder/config.toml

[llm]
# Provider type: \"deepseek\", \"openai\", or \"custom\"
provider = \"deepseek\"

# API key (can also be set via ARROW_API_KEY environment variable)
api_key = \"\"

# API endpoint (optional, uses provider default if not set)
# endpoint = \"https://api.deepseek.com\"

# Model name
model = \"deepseek-chat\"

# Request timeout in seconds
timeout = 120

# Temperature (0.0 - 2.0, optional)
# temperature = 0.7

# Maximum tokens (optional)
# max_tokens = 2048

# Top-p sampling (optional)
# top_p = 1.0

# Enable thinking mode (DeepSeek reasoning models)
thinking = false

# Reasoning effort level: \"low\", \"medium\", \"high\" (DeepSeek)
# reasoning_effort = \"medium\"

[app]
# Log level: trace, debug, info, warn, error
log_level = \"info\"

# Enable TUI by default
tui_enabled = true

# Auto-save sessions
auto_save = true

# Maximum history entries
max_history = 100
",
    )
}

/// How the API key is reported in the log: `NOT SET` when empty, otherwise
/// its first whole characters within 8 bytes followed by `...`.
pub fn api_key_status(key: &str) -> (s: String)
    ensures
        key@.len() == 0 ==> s@ == "NOT SET"@,
        key@.len() > 0 ==> s@ == key@.take(crate::compaction::fit_count(key@, 8) as int) + "..."@,
{
    if key.is_empty() {
        String::from_str("NOT SET")
    } else {
        let preview = crate::compaction::safe_truncate(key, 8);
        crate::text::concat_str(preview.as_str(), "...")
    }
}

/// The provider options a client for `c` is built with, in the order they
/// are handed over: thinking when on, the reasoning effort when set, then
/// the configured options.
pub open spec fn client_options_spec(c: LlmConfig) -> Seq<(Seq<char>, Seq<char>)> {
    let thinking = if c.thinking { seq![("thinking"@, "enabled"@)] } else { Seq::empty() };
    let effort = match c.reasoning_effort {
        Some(e) => seq![("reasoning_effort"@, e@)],
        None => Seq::empty(),
    };
    thinking + effort + c.extra_options@.map_values(|p: (String, String)| (p.0@, p.1@))
}

pub open spec fn pairs_view(v: Seq<(String, String)>) -> Seq<(Seq<char>, Seq<char>)> {
    v.map_values(|p: (String, String)| (p.0@, p.1@))
}

impl LlmConfig {
    /// What a client is built from, once the configuration has a key: the
    /// provider options in order. Without an API key no client can be made.
    pub fn client_options(&self) -> (r: Result<Vec<(String, String)>, String>)
        ensures
            self.api_key@.len() == 0 <==> r is Err,
            r matches Err(e) ==> e@
                == "API key is required. Set it in config file or ARROW_API_KEY environment variable."@,
            r matches Ok(v) ==> pairs_view(v@) == client_options_spec(*self),
    {
        if self.api_key.as_str().is_empty() {
            return Err(
                String::from_str(
                    "API key is required. Set it in config file or ARROW_API_KEY environment variable.",
                ),
            );
        }
        let mut v: Vec<(String, String)> = Vec::new();
        if self.thinking {
            v.push((String::from_str("thinking"), String::from_str("enabled")));
        }
        match &self.reasoning_effort {
            Some(e) => v.push((String::from_str("reasoning_effort"), e.clone())),
            None => {},
        }
        let ghost head = pairs_view(v@);
        let mut i: usize = 0;
        while i < self.extra_options.len()
            invariant
                i <= self.extra_options.len(),
                pairs_view(v@) == head + pairs_view(self.extra_options@.take(i as int)),
            decreases self.extra_options.len() - i,
        {
            let k = self.extra_options[i].0.clone();
            let x = self.extra_options[i].1.clone();
            let ghost prev = v@;
            v.push((k, x));
            i = i + 1;
            proof {
                assert(pairs_view(v@) =~= pairs_view(prev).push((k@, x@)));
                assert(pairs_view(self.extra_options@.take(i as int)) =~= pairs_view(
                    self.extra_options@.take(i - 1),
                ).push((k@, x@)));
            }
        }
        proof {
            assert(self.extra_options@.take(self.extra_options.len() as int) =~= self.extra_options@);
            assert(pairs_view(v@) =~= client_options_spec(*self));
        }
        Ok(v)
    }
}

} // verus!
