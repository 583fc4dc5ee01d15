use arrow_coder::cli_app::{App, ConfirmationDialog, ContinuationDialog};
use arrow_coder::cli_ui::{
    confirmation_lines, confirmation_title, continuation_description, continuation_status, input_cursor,
    input_line, input_title, output_title,
};
use arrow_coder::text::text_lines;
use arrow_coder::tui_app::DisplayMessage;
use arrow_coder::tui_ui::Ui;
use arrow_coder::types::Role;

fn lines_as_std(s: &str) -> Vec<String> {
    s.lines().map(|l| l.to_string()).collect()
}

#[test]
fn text_lines_agree_with_str_lines() {
    for s in ["", "a", "a\n", "a\nb", "a\r\nb\r\n", "\n", "\n\n", "x\r", "a\rb\n", "one\n\ntwo\n"] {
        assert_eq!(text_lines(s), lines_as_std(s), "input {:?}", s);
    }
}

#[test]
fn text_lines_examples() {
    assert_eq!(text_lines("a\r\nb\n"), vec!["a".to_string(), "b".to_string()]);
    assert_eq!(text_lines("\n"), vec!["".to_string()]);
    assert!(text_lines("").is_empty());
    assert_eq!(text_lines("end\r"), vec!["end\r".to_string()]);
}

#[test]
fn pane_titles() {
    let mut app = App::new("proj".to_string(), "s1".to_string());
    assert_eq!(output_title(&app), "Arrow Coder  proj (Session: s1)");
    assert_eq!(input_title(&app), format!("Input | {}", app.status));
    app.cancel_counter = 2;
    assert_eq!(input_title(&app), "Input | Cancelling... (2)");
    app.input = "hello".to_string();
    assert_eq!(input_line(&app), "> hello");
}

#[test]
fn cursor_inside_and_outside_the_pane() {
    assert_eq!(input_cursor(0, 10, 20, 3, 4), Some((7, 11)));
    assert_eq!(input_cursor(0, 10, 20, 3, 16), None);
    assert_eq!(input_cursor(0, 10, 20, 3, 15), Some((18, 11)));
    assert_eq!(input_cursor(0, 10, 20, 2, 1), None);
}

#[test]
fn confirmation_dialog_text() {
    let d = ConfirmationDialog::new(
        "c1".to_string(),
        "Apply edits".to_string(),
        vec!["src/a.rs".to_string(), "src/b.rs".to_string()],
        Some("+ line\r\n- old\n".to_string()),
    );
    assert_eq!(confirmation_title(&d), "⚠️  Pending Changes - 2 files");
    assert_eq!(
        confirmation_lines(&d),
        vec!["Files to modify:", "", "  1. src/a.rs", "  2. src/b.rs", "", "Preview:", "+ line", "- old"]
            .into_iter()
            .map(String::from)
            .collect::<Vec<_>>()
    );
    let d2 = ConfirmationDialog::new("c2".to_string(), String::new(), vec![], None);
    assert_eq!(confirmation_lines(&d2), vec!["Files to modify:".to_string(), String::new()]);
}

#[test]
fn continuation_dialog_text() {
    let d = ContinuationDialog::new("s".to_string(), 10, 10, "half done".to_string());
    assert_eq!(
        continuation_description(&d),
        "The task has reached the maximum number of iterations (10/10).\n\nProgress:\nhalf done"
    );
    assert_eq!(continuation_status(&d), "Iteration 10/10");
}

#[test]
fn message_body_lines() {
    let ui = Ui::new();
    let m = DisplayMessage::new(Role::Assistant, "first\nsecond\n".to_string());
    assert_eq!(ui.message_body(&m), vec!["first".to_string(), "second".to_string(), String::new()]);
}

#[test]
fn permission_dialog_text() {
    let ui = Ui::new();
    let args = "{\n  \"path\": \"a.txt\"\n}";
    let lines = ui.permission_dialog_lines("write_file", &vec!["Write files".to_string()], args);
    let expected: Vec<String> = vec![
        "",
        "Tool: write_file",
        "",
        "Required Permissions:",
        "  • Write files",
        "",
        "Arguments:",
        "  {",
        "    \"path\": \"a.txt\"",
        "  }",
        "",
        "Options:",
        "  [1] Yes (allow once)",
        "  [2] Yes, for the remainder of this session",
        "  [3] Always allow",
        "  [4] No (deny)",
    ]
    .into_iter()
    .map(String::from)
    .collect();
    assert_eq!(lines, expected);
}

#[test]
fn permission_dialog_keeps_ten_argument_lines() {
    let ui = Ui::new();
    let args: String = (0..15).map(|i| format!("l{}\n", i)).collect();
    let lines = ui.permission_dialog_lines("t", &vec![], &args);
    assert_eq!(lines[3], "Arguments:");
    assert_eq!(lines[4], "  l0");
    assert_eq!(lines[13], "  l9");
    assert_eq!(lines[14], "");
    assert_eq!(lines.len(), 3 + 1 + 10 + 1 + 5);
}
