use arrow_coder::cli_app::{App, CommandAction, ConfirmationDialog};
use arrow_coder::cli_event::{
    handle_command, handle_input, handle_key_event, join_with_spaces, split_whitespace, Action, KeyCode, KeyInput,
};

fn key(code: KeyCode) -> KeyInput {
    KeyInput { code, ctrl: false }
}

fn ctrl(c: char) -> KeyInput {
    KeyInput { code: KeyCode::Char(c), ctrl: true }
}

fn app() -> App {
    App::new("proj".to_string(), "sess".to_string())
}

#[test]
fn typing_and_enter_submits() {
    let mut a = app();
    for c in "hi é".chars() {
        assert_eq!(handle_key_event(&mut a, key(KeyCode::Char(c))), Action::Idle);
    }
    assert_eq!(a.input, "hi é");
    assert_eq!(a.cursor_pos, 5);
    handle_key_event(&mut a, key(KeyCode::Left));
    assert_eq!(a.cursor_pos, 3);
    handle_key_event(&mut a, key(KeyCode::Backspace));
    assert_eq!(a.input, "hié");
    assert_eq!(handle_key_event(&mut a, key(KeyCode::Enter)), Action::Submit("hié".to_string()));
    assert_eq!(a.input, "");
    assert_eq!(a.cursor_pos, 0);
    assert_eq!(a.get_output_text(), "");
}

#[test]
fn ctrl_c_twice_cancels_and_ctrl_d_quits() {
    let mut a = app();
    assert_eq!(handle_key_event(&mut a, ctrl('c')), Action::Idle);
    assert_eq!(handle_key_event(&mut a, ctrl('c')), Action::Cancel);
    assert_eq!(handle_key_event(&mut a, ctrl('d')), Action::Quit);
}

#[test]
fn commands_quit_and_unknown() {
    let mut a = app();
    assert_eq!(handle_command(&mut a, "/quit"), Action::Quit);
    let mut a = app();
    assert_eq!(handle_command(&mut a, "/frobnicate"), Action::Idle);
    assert_eq!(a.get_output_text(), "[arrow] Unknown command: /frobnicate");
}

#[test]
fn confirm_command_lowercases_its_action() {
    let mut a = app();
    handle_command(&mut a, "/confirm c1 APPROVE");
    match a.take_pending_command() {
        Some(CommandAction::Confirm { confirmation_id, action, feedback }) => {
            assert_eq!(confirmation_id, "c1");
            assert_eq!(action, "approve");
            assert_eq!(feedback, None);
        },
        other => panic!("unexpected {:?}", other),
    }
    assert_eq!(a.get_output_text(), "[system] Confirming c1 with approval...");
}

#[test]
fn confirm_edit_joins_feedback() {
    let mut a = app();
    handle_command(&mut a, "/confirm c2 e  use   tabs");
    match a.take_pending_command() {
        Some(CommandAction::Confirm { action, feedback, .. }) => {
            assert_eq!(action, "edit");
            assert_eq!(feedback.as_deref(), Some("use tabs"));
        },
        other => panic!("unexpected {:?}", other),
    }
}

#[test]
fn plain_input_submits() {
    let mut a = app();
    a.input = "hello".to_string();
    a.cursor_pos = 5;
    assert_eq!(handle_input(&mut a, "hello"), Action::Submit("hello".to_string()));
}

#[test]
fn words_split_like_split_whitespace() {
    let ws = split_whitespace("  a  bc\td ");
    assert_eq!(ws, vec!["a", "bc", "d"]);
    assert_eq!(join_with_spaces(&ws, 1), "bc d");
}

#[test]
fn output_log_keeps_last_thousand_lines() {
    let mut a = app();
    for i in 0..1005 {
        a.add_output(format!("line {}", i));
    }
    assert_eq!(a.output_lines.len(), 1000);
    assert_eq!(a.output_lines[0], "line 5");
    assert_eq!(a.scroll, 999);
}

#[test]
fn confirmation_dialog_accept() {
    let mut a = app();
    a.show_confirmation("c9".to_string(), "edit files".to_string(), vec!["a.rs".to_string()], None);
    assert!(a.is_confirmation_visible());
    let r = a.accept_confirmation();
    assert!(matches!(r, Some(CommandAction::Confirm { .. })));
    assert!(!a.is_confirmation_visible());
    assert_eq!(a.get_output_text(), "[system] ✅ Accepted all changes (1 files)");
    let d = ConfirmationDialog::new("x".to_string(), "d".to_string(), vec![], None);
    assert!(d.is_visible());
}

use arrow_coder::cli_project::{
    confirm_action, display_project_info, display_project_list, display_project_metadata, handle_engine_response,
    AnalysisLayerStatus, ConfirmAction, EngineResponse, ProjectInfo, ProjectMetadata,
};

const RULE: &str = "═══════════════════════════════════════";

fn metadata() -> ProjectMetadata {
    ProjectMetadata {
        name: "demo".to_string(),
        root_path: "/src/demo".to_string(),
        language: "Rust".to_string(),
        frameworks: vec!["tokio".to_string(), "axum".to_string()],
        created_at: "2024-01-01".to_string(),
        last_accessed: "2024-02-02".to_string(),
        layer0_status: AnalysisLayerStatus::Completed,
        layer1_status: AnalysisLayerStatus::InProgress,
        last_analysis_time: None,
        needs_refresh: true,
        skills: vec![],
    }
}

fn lines(a: &App) -> Vec<String> {
    a.output_lines.iter().cloned().collect()
}

#[test]
fn project_info_is_summarized() {
    let mut a = app();
    let info = ProjectInfo { id: "p1".to_string(), exists: false, metadata: metadata() };
    display_project_info(&mut a, &info);
    let expected: Vec<String> = vec![
        RULE.to_string(),
        "  Project: demo".to_string(),
        "  Path: /src/demo".to_string(),
        "  Language: Rust".to_string(),
        "  Frameworks: tokio, axum".to_string(),
        "  Status: Analyzing...".to_string(),
        "  ⚠ Project needs refresh".to_string(),
        RULE.to_string(),
        "New project initialized. Analysis will run in background.".to_string(),
    ]
    .into_iter()
    .map(|l| format!("[system] {}", l))
    .collect();
    assert_eq!(lines(&a), expected);
}

#[test]
fn project_metadata_and_list() {
    let mut a = app();
    display_project_metadata(&mut a, &metadata());
    let l = lines(&a);
    assert!(l.contains(&"[system]   Layer 0 (Files): Completed".to_string()));
    assert!(l.contains(&"[system]   Layer 1 (Symbols): In Progress".to_string()));
    assert!(l.contains(&"[system]   ⚠ Needs refresh".to_string()));
    let mut b = app();
    display_project_list(&mut b, &vec![]);
    assert_eq!(lines(&b)[1], "[system]   Total projects: 0");
    assert_eq!(lines(&b)[3], "[system]   No projects found");
    let mut c = app();
    let info = ProjectInfo { id: "p1".to_string(), exists: true, metadata: metadata() };
    display_project_list(&mut c, &vec![info]);
    assert_eq!(lines(&c)[3], "[system]   1. demo");
    assert_eq!(lines(&c)[7], "[system] ");
}

#[test]
fn engine_responses_are_shown() {
    let mut a = app();
    handle_engine_response(&mut a, EngineResponse::Text("hello".to_string()));
    handle_engine_response(&mut a, EngineResponse::Error("bad".to_string()));
    handle_engine_response(
        &mut a,
        EngineResponse::PlanCreated { plan_id: "p".to_string(), message: "m".to_string() },
    );
    assert_eq!(lines(&a), vec!["[arrow] hello", "[error] Error: bad", "[system] Plan created: p (m)"]);
    handle_engine_response(
        &mut a,
        EngineResponse::NeedConfirmation {
            confirmation_id: "c".to_string(),
            description: "d".to_string(),
            files: vec!["x".to_string(), "y".to_string()],
            preview: None,
        },
    );
    assert!(a.is_confirmation_visible());
    assert_eq!(
        lines(&a).last().unwrap(),
        "[system] 🔒 Pending confirmation: 2 files to modify (press Y to accept, N to reject)"
    );
    handle_engine_response(
        &mut a,
        EngineResponse::NeedContinuation {
            session_id: "s".to_string(),
            current_iteration: 5,
            max_iterations: 5,
            progress: String::new(),
        },
    );
    assert!(a.is_continuation_visible());
    assert_eq!(
        lines(&a).last().unwrap(),
        "[system] ⏸️ Task reached iteration limit (5/5). Press C to continue or S to stop."
    );
}

#[test]
fn confirm_actions() {
    assert_eq!(confirm_action("approve", None), ConfirmAction::Approve);
    assert_eq!(confirm_action("reject", None), ConfirmAction::Reject);
    assert_eq!(confirm_action("edit", Some("tabs".to_string())), ConfirmAction::Edit("tabs".to_string()));
    assert_eq!(confirm_action("edit", None), ConfirmAction::Edit(String::new()));
    assert_eq!(confirm_action("other", None), ConfirmAction::Approve);
}

use arrow_coder::cli_config::api_key_status;
use arrow_coder::cli_project::{convert_response, ProcessInputResponse};

#[test]
fn ide_responses_and_key_status() {
    match convert_response(EngineResponse::NeedContinuation {
        session_id: "s1".to_string(),
        current_iteration: 3,
        max_iterations: 10,
        progress: "half".to_string(),
    }) {
        ProcessInputResponse::Text { content } => {
            assert_eq!(content, "Task reached iteration limit (3/10). Progress: half\n\nSession: s1")
        },
        other => panic!("unexpected {:?}", other),
    }
    assert!(matches!(
        convert_response(EngineResponse::Error("e".to_string())),
        ProcessInputResponse::Error { ref message } if message == "e"
    ));
    assert_eq!(api_key_status(""), "NOT SET");
    assert_eq!(api_key_status("sk-1234567890"), "sk-12345...");
    // A key with multi-byte characters is cut at a character boundary.
    assert_eq!(api_key_status("密钥密钥"), "密钥...");
}

#[test]
fn dismissed_confirmation_keeps_its_contents() {
    let mut d = ConfirmationDialog::new("c1".to_string(), "edit".to_string(), vec!["a.rs".to_string()], None);
    d.dismiss();
    assert!(!d.is_visible());
    d.dismiss();
    assert!(!d.is_visible());
    assert_eq!((d.id.as_str(), d.description.as_str(), d.files.len()), ("c1", "edit", 1));
    d.show();
    assert!(d.is_visible());
}
