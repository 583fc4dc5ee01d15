//! Verified core of the arrow coding agent: message types, token estimation,
//! structured user documents, file checkpoints, provider presets, compaction
//! and middleware decisions, request shaping, and the terminal front-end state.

pub mod text;
pub mod types;
pub mod estimate;
pub mod commands;
pub mod user_doc;
pub mod error;
pub mod rewind;
pub mod config;
pub mod sorted;
pub mod vibe;
pub mod repository;
pub mod compaction;
pub mod middleware;
pub mod agent;
pub mod llm;
pub mod line_edit;
pub mod cli_app;
pub mod cli_event;
pub mod cli_config;
pub mod cli_project;
pub mod tui_app;
pub mod tui_ui;
pub mod task;
pub mod turn;
pub mod session_log;
pub mod launch;
pub mod cli_ui;
pub mod sse;
pub mod chat_stream;
pub mod responses;
pub mod openai_stream;
