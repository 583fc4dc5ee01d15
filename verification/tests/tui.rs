use arrow_coder::tui_app::{
    translate_key, AgentEvent, App, AppState, ApprovalResponse, ApprovalType, Event, HostRequest, KeyPress,
    SlashRequest, TuiKey,
};
use arrow_coder::tui_ui::Ui;
use arrow_coder::types::Role;
use arrow_coder::vibe::VibeConfig;

fn app() -> App {
    App::new(VibeConfig::default())
}

fn press(code: TuiKey) -> Event {
    Event::Key(KeyPress { code, ctrl: false, shift: false })
}

fn type_text(a: &mut App, s: &str) {
    for c in s.chars() {
        a.handle_event(press(TuiKey::Char(c)));
    }
}

#[test]
fn new_app_shows_default_model() {
    let a = app();
    assert_eq!(a.current_model, "default");
    assert_eq!(a.state, AppState::Running);
    let mut cfg = VibeConfig::default();
    cfg.active_model = Some("gpt4o".to_string());
    assert_eq!(App::new(cfg).current_model, "gpt4o");
}

#[test]
fn key_translation() {
    let k = |code, ctrl, shift| KeyPress { code, ctrl, shift };
    assert!(matches!(translate_key(k(TuiKey::Char('c'), true, false)), Event::Cancel));
    assert!(matches!(translate_key(k(TuiKey::Char('C'), true, true)), Event::Copy));
    assert!(matches!(translate_key(k(TuiKey::Char('q'), true, false)), Event::Quit));
    assert!(matches!(translate_key(k(TuiKey::Char('h'), true, false)), Event::ToggleHelp));
    assert!(matches!(translate_key(k(TuiKey::Up, false, false)), Event::ScrollUp));
    assert!(matches!(translate_key(k(TuiKey::Up, true, false)), Event::Key(_)));
    assert!(matches!(translate_key(k(TuiKey::PageDown, false, false)), Event::ScrollDown));
}

#[test]
fn submit_without_agent_echoes() {
    let mut a = app();
    type_text(&mut a, "  hi  ");
    let out = a.handle_event(press(TuiKey::Enter));
    assert_eq!(out.submitted.as_deref(), Some("hi"));
    assert!(matches!(out.request, HostRequest::Nothing));
    assert_eq!(a.input, "");
    assert_eq!(a.input_history, vec!["hi".to_string()]);
    assert_eq!(a.messages.len(), 1);
    assert_eq!(a.messages[0].role, Role::User);
    assert_eq!(a.messages[0].content, "hi");
    a.process_agent_events(out.queued);
    assert_eq!(a.messages.len(), 2);
    assert_eq!(a.messages[1].content, "Echo: hi\n\n(Note: No agent configured)");
}

#[test]
fn submit_with_agent_runs_it() {
    let mut a = app().with_agent_loop();
    type_text(&mut a, "do it");
    let out = a.handle_event(press(TuiKey::Enter));
    match out.request {
        HostRequest::RunAgent(s) => assert_eq!(s, "do it"),
        other => panic!("unexpected {:?}", other),
    }
    assert_eq!(a.state, AppState::Processing);
    assert_eq!(a.status_message.as_deref(), Some("Agent is thinking..."));
}

#[test]
fn slash_input_is_queued_as_command() {
    let mut a = app();
    type_text(&mut a, "/help");
    let out = a.handle_event(press(TuiKey::Enter));
    assert_eq!(out.submitted.as_deref(), Some("/help"));
    assert_eq!(a.pending_command.as_deref(), Some("/help"));
    assert!(a.messages.is_empty());
}

#[test]
fn agent_chunks_build_one_reply() {
    let mut a = app();
    a.process_agent_events(vec![
        AgentEvent::AssistantChunk("Hel".to_string()),
        AgentEvent::AssistantChunk("lo".to_string()),
    ]);
    assert_eq!(a.messages.len(), 1);
    assert_eq!(a.messages[0].role, Role::Assistant);
    assert_eq!(a.messages[0].content, "Hello");
}

#[test]
fn slash_commands() {
    let mut a = app();
    assert_eq!(a.handle_slash_command("/undo"), SlashRequest::Nothing);
    assert_eq!(a.messages.last().unwrap().content, "No agent configured.");
    assert!(a.messages.last().unwrap().is_error);
    assert_eq!(a.handle_slash_command("/clear"), SlashRequest::Nothing);
    assert_eq!(a.messages.len(), 1);
    assert_eq!(a.messages[0].content, "Conversation cleared.");
    assert_eq!(a.handle_slash_command("/nope"), SlashRequest::Nothing);
    assert_eq!(a.messages.last().unwrap().content, "Unknown command: /nope");
    assert_eq!(a.handle_slash_command("/quit"), SlashRequest::Nothing);
    assert_eq!(a.state, AppState::Quitting);
    let mut b = app().with_agent_loop();
    assert_eq!(b.handle_slash_command("/undo"), SlashRequest::UndoTurn);
    assert_eq!(b.handle_slash_command("/clear"), SlashRequest::ClearAgent);
}

#[test]
fn undo_reports() {
    let mut a = app();
    a.report_undo(Ok((true, vec!["a.rs".to_string(), "b.rs".to_string()])));
    assert_eq!(
        a.messages[0].content,
        "Last turn undone, but some files could not be restored: a.rs; b.rs"
    );
    a.report_undo(Ok((false, vec![])));
    assert_eq!(a.messages[1].content, "Nothing to undo.");
    a.report_undo(Err("boom".to_string()));
    assert_eq!(a.messages[2].content, "Undo failed: boom");
}

#[test]
fn permission_answers() {
    let mut a = app();
    a.process_permission_requests(true);
    assert_eq!(a.state, AppState::ConfirmingPermission);
    let out = a.handle_event(press(TuiKey::Char('2')));
    match out.request {
        HostRequest::Respond(r, t) => {
            assert_eq!(r, ApprovalResponse::Yes);
            assert_eq!(t, ApprovalType::Session);
        },
        other => panic!("unexpected {:?}", other),
    }
    assert_eq!(a.state, AppState::Processing);
    assert!(!a.pending_permission);
}

#[test]
fn history_browsing_restores_draft() {
    let mut a = app();
    a.push_input_history("first");
    a.push_input_history("second");
    type_text(&mut a, "draft");
    a.history_prev();
    assert_eq!(a.input, "second");
    a.history_prev();
    assert_eq!(a.input, "first");
    a.history_next();
    assert_eq!(a.input, "second");
    a.history_next();
    assert_eq!(a.input, "draft");
}

#[test]
fn delete_word_and_complete() {
    let mut a = app();
    type_text(&mut a, "hello big world");
    a.delete_word_before_cursor();
    assert_eq!(a.input, "hello big ");
    let mut b = app();
    type_text(&mut b, "/he");
    b.complete_slash_command();
    assert_eq!(b.input, "/help");
}

#[test]
fn ui_texts() {
    let ui = Ui::new();
    let mut a = app();
    assert_eq!(ui.status_line(&a), "Ready | Model: default | Ctrl+H for help");
    a.state = AppState::Processing;
    assert_eq!(ui.status_line(&a), "Processing... | Model: default");
    assert_eq!(ui.message_label(Role::System, true), "Error");
    assert_eq!(ui.message_label(Role::User, false), "You");
}

#[test]
fn cursor_column_counts_wide_characters() {
    let ui = Ui::new();
    // CJK characters take two columns each.
    assert_eq!(ui.cursor_column("中文ab", 3), Some(5));
    assert_eq!(ui.cursor_column("ab", 10), Some(2));
    assert_eq!(ui.cursor_column("", 0), Some(0));
}

use arrow_coder::tui_app::{UiMessage, UiMessageRole, UiTurnStats};

fn ui(role: UiMessageRole, text: &str) -> UiMessage {
    UiMessage { role, text: text.to_string(), think: None, tool_name: None, tool_result: None, turn_stats: None }
}

#[test]
fn sync_messages_projects_the_agent_transcript() {
    let mut a = app();
    a.add_system_message("stale".to_string());
    let mut think = ui(UiMessageRole::Think, "");
    think.think = Some("pondering".to_string());
    let mut tool = ui(UiMessageRole::Tool, "");
    tool.tool_name = Some("ls".to_string());
    tool.tool_result = Some("a b".to_string());
    let mut stats = ui(UiMessageRole::Stats, "");
    stats.turn_stats = Some(UiTurnStats { total_tokens: 1200, duration_ms: 3500 });
    a.sync_messages_from_agent(vec![ui(UiMessageRole::User, "hi"), think, tool, stats]);
    let shown: Vec<(Role, String)> = a.messages.iter().map(|m| (m.role, m.content.clone())).collect();
    assert_eq!(
        shown,
        vec![
            (Role::User, "hi".to_string()),
            (Role::Assistant, "💭 pondering".to_string()),
            (Role::Assistant, "🛠 [ls] a b".to_string()),
            (Role::System, "📊 本轮 1200 tokens · 3s".to_string()),
        ]
    );
}

#[test]
fn cursor_end_counts_characters() {
    let mut a = app();
    a.input = "é".to_string();
    a.cursor_position = 0;
    a.move_cursor_end();
    assert_eq!(a.cursor_position, 1);
    a.input = "añb".to_string();
    a.cursor_position = 0;
    a.move_cursor_end();
    assert_eq!(a.cursor_position, 3);
}
