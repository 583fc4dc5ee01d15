//! What the command line decides before a run starts: the limits handed to
//! the agent loop, the working directory, the errors that stop a run, the
//! message that pre-loads a requested skill, and the model listing.

use vstd::prelude::*;
use crate::agent::AgentLoopConfig;
use crate::cli_project::{join_strings, joined};
use crate::config::ModelConfig;
use crate::error::ArrowError;
use crate::text::{concat_str, same_text, strings_view};
use crate::vibe::VibeConfig;

verus! {

/// Turns allowed to a run when the command line sets no limit.
pub const DEFAULT_RUN_TURNS: u64 = 10;

/// The loop limits of a run: the turn limit given on the command line or
/// ten; the token limit given on the command line, else the model's output
/// cap; the model's auto-compaction threshold.
pub fn run_loop_config(max_turns: Option<u64>, max_tokens: Option<u64>, model: &ModelConfig) -> (c:
    AgentLoopConfig)
    ensures
        c.max_turns == Some(
            match max_turns {
                Some(t) => t,
                None => 10u64,
            },
        ),
        c.max_session_tokens == match max_tokens {
            Some(t) => Some(t),
            None => match model.max_tokens {
                Some(m) => Some(m as u64),
                None => None,
            },
        },
        c.auto_compact_threshold == model.auto_compact_threshold,
{
    let turns: u64 = match max_turns {
        Some(t) => t,
        None => DEFAULT_RUN_TURNS,
    };
    let tokens: Option<u64> = match max_tokens {
        Some(t) => Some(t),
        None => match model.max_tokens {
            Some(m) => Some(m as u64),
            None => None,
        },
    };
    AgentLoopConfig {
        max_turns: Some(turns),
        max_session_tokens: tokens,
        auto_compact_threshold: model.auto_compact_threshold,
    }
}

/// The working directory of a run: the one given on the command line, else
/// the process's current directory, else `"."`.
pub fn working_dir_choice(given: Option<String>, current: Option<String>) -> (d: String)
    ensures
        d@ == match given {
            Some(g) => g@,
            None => match current {
                Some(c) => c@,
                None => seq!['.'],
            },
        },
{
    match given {
        Some(g) => g,
        None => match current {
            Some(c) => c,
            None => {
                proof {
                    reveal_strlit(".");
                }
                String::from_str(".")
            },
        },
    }
}

pub open spec fn config_error(e: ArrowError, text: Seq<char>) -> bool {
    e matches ArrowError::Config(m) && m@ == text
}

/// The prompt of a non-interactive run; a run without one stops with a
/// configuration error.
pub fn require_prompt(prompt: Option<String>) -> (r: Result<String, ArrowError>)
    ensures
        match prompt {
            Some(p) => r == Ok::<String, ArrowError>(p),
            None => r matches Err(e) && config_error(e, "No prompt provided"@),
        },
{
    match prompt {
        Some(p) => Ok(p),
        None => Err(ArrowError::Config(String::from_str("No prompt provided"))),
    }
}

/// The model of a run; a run without an active model stops with a
/// configuration error that says how to set one.
pub fn require_active_model(model: Option<ModelConfig>) -> (r: Result<ModelConfig, ArrowError>)
    ensures
        match model {
            Some(m) => r == Ok::<ModelConfig, ArrowError>(m),
            None => r matches Err(e) && config_error(
                e,
                "No active model configured. Please set 'active_model' in your config file."@,
            ),
        },
{
    match model {
        Some(m) => Ok(m),
        None => Err(
            ArrowError::Config(
                String::from_str(
                    "No active model configured. Please set 'active_model' in your config file.",
                ),
            ),
        ),
    }
}

/// The error of a resume request whose session cannot be found.
pub fn session_not_found(resume_id: &str) -> (e: ArrowError)
    ensures
        config_error(e, "Session not found: "@ + resume_id@),
{
    ArrowError::Config(concat_str("Session not found: ", resume_id))
}

pub open spec fn skill_request_text(name: Seq<char>, content: Seq<char>) -> Seq<char> {
    "Skill '"@ + name + "' was requested via --skill. Follow these instructions:\n\n"@ + content
}

/// The system message that pre-loads a skill requested on the command line.
pub fn skill_request_message(name: &str, content: &str) -> (s: String)
    ensures
        s@ == skill_request_text(name@, content@),
{
    let head = concat_str("Skill '", name);
    let mid = concat_str(head.as_str(), "' was requested via --skill. Follow these instructions:\n\n");
    let s = concat_str(mid.as_str(), content);
    proof {
        assert(s@ =~= skill_request_text(name@, content@));
    }
    s
}

pub open spec fn available_text(names: Seq<Seq<char>>) -> Seq<char> {
    if names.len() == 0 {
        "none"@
    } else {
        joined(names, ", "@)
    }
}

/// The error of a requested skill that is not installed: it names the
/// skill and lists the installed ones, or says `none`.
pub fn missing_skill_error(name: &str, available: &Vec<String>) -> (e: ArrowError)
    ensures
        config_error(
            e,
            "Skill '"@ + name@ + "' not found. Available skills: "@ + available_text(
                strings_view(available@),
            ),
        ),
{
    let list = if available.len() == 0 {
        String::from_str("none")
    } else {
        join_strings(available, ", ")
    };
    let head = concat_str("Skill '", name);
    let mid = concat_str(head.as_str(), "' not found. Available skills: ");
    let text = concat_str(mid.as_str(), list.as_str());
    proof {
        assert(text@ =~= "Skill '"@ + name@ + "' not found. Available skills: "@ + available_text(
            strings_view(available@),
        ));
    }
    ArrowError::Config(text)
}

/// Whether `name` is the configured active model.
pub open spec fn is_active(name: Seq<char>, active: Option<String>) -> bool {
    active matches Some(a) && a@ == name
}

/// A line of the model listing: `*` before the active model, a blank
/// before the others, then the name, the model id and the provider.
pub open spec fn model_line(m: ModelConfig, active: Option<String>) -> Seq<char> {
    (if is_active(m.name@, active) { "*"@ } else { " "@ }) + " "@ + m.name@ + " (model_id: "@
        + m.model_id@ + ", provider: "@ + m.provider@ + ")"@
}

/// The model listing of a configuration, one line per model, in order.
pub fn model_list_lines(config: &VibeConfig) -> (v: Vec<String>)
    ensures
        v.len() == config.models.len(),
        forall|i: int|
            0 <= i < v.len() ==> #[trigger] v@[i]@ == model_line(config.models@[i], config.active_model),
{
    let mut v: Vec<String> = Vec::new();
    let mut i: usize = 0;
    while i < config.models.len()
        invariant
            i <= config.models.len(),
            v.len() == i,
            forall|k: int|
                0 <= k < i ==> #[trigger] v@[k]@ == model_line(config.models@[k], config.active_model),
        decreases config.models.len() - i,
    {
        let m = &config.models[i];
        let active = match &config.active_model {
            Some(a) => same_text(a.as_str(), m.name.as_str()),
            None => false,
        };
        let marker = if active { "* " } else { "  " };
        let a = concat_str(marker, m.name.as_str());
        let b = concat_str(a.as_str(), " (model_id: ");
        let c = concat_str(b.as_str(), m.model_id.as_str());
        let d = concat_str(c.as_str(), ", provider: ");
        let e = concat_str(d.as_str(), m.provider.as_str());
        let line = concat_str(e.as_str(), ")");
        proof {
            reveal_strlit("* ");
            reveal_strlit("  ");
            reveal_strlit("*");
            reveal_strlit(" ");
            assert(line@ =~= model_line(config.models@[i as int], config.active_model));
        }
        v.push(line);
        i = i + 1;
    }
    v
}

} // verus!
