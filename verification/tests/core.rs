use arrow_coder::commands::{builtin_slash_commands, slash_commands_help};
use arrow_coder::compaction::{prune_messages, safe_truncate, TokenPressureCompactor};
use arrow_coder::estimate::estimate_tokens;
use arrow_coder::rewind::{Checkpoint, FileCheckpointer, FileSnapshot};
use arrow_coder::types::{LLMMessage, Role};

#[test]
fn test_builtin_commands() {
    let names: Vec<&str> = builtin_slash_commands().iter().map(|c| c.name).collect();
    assert!(names.contains(&"compact"));
    assert!(names.contains(&"undo"));
    assert!(names.contains(&"help"));
}

#[test]
fn test_help_text_lists_all() {
    let help = slash_commands_help();
    for c in builtin_slash_commands() {
        assert!(help.contains(&format!("/{}", c.name)));
    }
}

#[test]
fn help_text_is_exact() {
    assert_eq!(
        slash_commands_help(),
        "**可用命令**\n- `/compact` — 压缩上下文，释放上下文空间\n- `/undo` — 撤销上一轮\n- `/help` — 显示可用命令\n"
    );
}

#[test]
fn empty_is_zero() {
    assert_eq!(estimate_tokens(""), 0);
}

#[test]
fn ascii_roughly_four_per_token() {
    let s = "fn main() { let x = 1; }";
    let t = estimate_tokens(s);
    assert!(t >= 5 && t <= 8, "got {t}");
}

#[test]
fn cjk_is_denser() {
    let s = "我们需要修复这个上下文压缩的问题";
    let t = estimate_tokens(s);
    assert!(t >= 8 && t <= 12, "got {t}");
}

#[test]
fn estimate_exact_values() {
    // 24 ASCII characters: 24 / 4.
    assert_eq!(estimate_tokens("fn main() { let x = 1; }"), 6);
    // 16 CJK characters: ceil(16 / 1.5).
    assert_eq!(estimate_tokens("我们需要修复这个上下文压缩的问题"), 11);
    assert_eq!(estimate_tokens("我们"), 2);
    assert_eq!(estimate_tokens("我"), 1);
    assert_eq!(estimate_tokens("我们需"), 2);
    // mixed: 3 CJK -> 2, 5 other -> 1.
    assert_eq!(estimate_tokens("中文字hello"), 3);
}

#[test]
fn test_file_snapshot() {
    let snapshot = FileSnapshot::new("/test/path".to_string(), Some(vec![1, 2, 3]));
    assert_eq!(snapshot.path, "/test/path");
    assert_eq!(snapshot.content, Some(vec![1, 2, 3]));
}

#[test]
fn test_checkpoint() {
    let mut checkpoint = Checkpoint::new(5);
    checkpoint.add_snapshot(FileSnapshot::new("file1".to_string(), Some(vec![1])));
    checkpoint.add_snapshot(FileSnapshot::new("file2".to_string(), Some(vec![2])));
    assert_eq!(checkpoint.message_index, 5);
    assert_eq!(checkpoint.files.len(), 2);
}

#[test]
fn checkpointer_pop_returns_latest_and_keeps_first_snapshot() {
    let mut cp = FileCheckpointer::new();
    cp.create_checkpoint(1);
    cp.snapshot_file("test.txt".to_string(), Some(b"v0".to_vec()));
    cp.create_checkpoint(3);
    cp.snapshot_file("test.txt".to_string(), Some(b"v1".to_vec()));
    // A second snapshot of the same path in one checkpoint is ignored.
    cp.snapshot_file("test.txt".to_string(), Some(b"v9".to_vec()));

    let top = cp.pop_for_restore().unwrap();
    assert_eq!(top.message_index, 3);
    assert_eq!(top.files.len(), 1);
    assert_eq!(top.files[0].content, Some(b"v1".to_vec()));
    assert_eq!(cp.checkpoint_count(), 1);

    let top = cp.pop_for_restore().unwrap();
    assert_eq!(top.message_index, 1);
    assert_eq!(top.files[0].content, Some(b"v0".to_vec()));
    assert_eq!(cp.checkpoint_count(), 0);

    let err = cp.pop_for_restore().unwrap_err();
    assert_eq!(err.message, "No checkpoint to restore");
}

#[test]
fn checkpointer_records_absent_file() {
    let mut cp = FileCheckpointer::new();
    cp.create_checkpoint(0);
    cp.snapshot_file("new.txt".to_string(), None);
    let top = cp.pop_for_restore().unwrap();
    assert_eq!(top.message_index, 0);
    assert_eq!(top.files[0].content, None);
}

#[test]
fn checkpointer_without_checkpoint_records_nothing() {
    let mut cp = FileCheckpointer::new();
    cp.snapshot_file("a.txt".to_string(), None);
    assert_eq!(cp.checkpoint_count(), 0);
}

#[test]
fn checkpointer_locate_and_drop_single_file() {
    let mut cp = FileCheckpointer::new();
    assert_eq!(cp.locate_snapshot("a.txt").unwrap_err().message, "No checkpoint to restore from");
    cp.create_checkpoint(1);
    cp.snapshot_files(vec![
        ("a.txt".to_string(), Some(b"a0".to_vec())),
        ("b.txt".to_string(), Some(b"b0".to_vec())),
    ]);
    let i = cp.locate_snapshot("a.txt").unwrap();
    assert_eq!(i, 0);
    cp.drop_snapshot(i);
    assert_eq!(cp.checkpoints()[0].files.len(), 1);
    assert_eq!(cp.checkpoints()[0].files[0].path, "b.txt");
    assert_eq!(cp.locate_snapshot("nope.txt").unwrap_err().message, "No snapshot for nope.txt");
}

#[test]
fn pop_drops_checkpoints_at_or_after_the_popped_index() {
    let mut cp = FileCheckpointer::new();
    cp.create_checkpoint(5);
    cp.create_checkpoint(2);
    cp.create_checkpoint(3);
    let top = cp.pop_for_restore().unwrap();
    assert_eq!(top.message_index, 3);
    // The checkpoint at 5 lies after the restored point and is dropped.
    assert_eq!(cp.checkpoint_count(), 1);
    assert_eq!(cp.checkpoints()[0].message_index, 2);
}

#[test]
fn test_should_compact_threshold() {
    let c = TokenPressureCompactor::new(1000);
    assert!(!c.should_compact(999, 128_000));
    assert!(c.should_compact(1000, 128_000));
    // A zero threshold disables compaction.
    assert!(!TokenPressureCompactor::new(0).should_compact(1000, 128_000));
    assert!(!TokenPressureCompactor::new(0).should_compact(102_400, 128_000));
    assert!(!TokenPressureCompactor::new(0).should_compact(u64::MAX, 128_000));
    // Whatever the window.
    assert!(!TokenPressureCompactor::new(0).should_compact(5, 0));
}

#[test]
fn test_prune_messages_truncates_oversized_tool_result() {
    let big = "x".repeat(100_000);
    let msgs = vec![LLMMessage::tool(big, "t1".to_string(), "read".to_string())];
    let pruned = prune_messages(msgs, 1000);
    assert!(pruned[0].content.as_deref().unwrap().contains("[pruned"));
    assert!(pruned[0].content.as_deref().unwrap().len() <= 1100);
}

#[test]
fn test_prune_messages_leaves_small_untouched() {
    let msgs = vec![LLMMessage::tool("small".to_string(), "t1".to_string(), "read".to_string())];
    let pruned = prune_messages(msgs, 1000);
    assert_eq!(pruned[0].content.as_deref(), Some("small"));
}

#[test]
fn prune_messages_exact_note_and_other_roles() {
    let msgs = vec![
        LLMMessage::tool("abcdefghij".to_string(), "t1".to_string(), "read".to_string()),
        LLMMessage::new(Role::User, "abcdefghij".to_string()),
    ];
    let pruned = prune_messages(msgs, 4);
    assert_eq!(
        pruned[0].content.as_deref(),
        Some("abcd...\n[pruned: tool result too large, truncated 6 bytes]")
    );
    assert_eq!(pruned[1].content.as_deref(), Some("abcdefghij"));
}

#[test]
fn safe_truncate_keeps_whole_characters() {
    // Each CJK character takes three bytes.
    assert_eq!(safe_truncate("中文字", 7), "中文");
    assert_eq!(safe_truncate("abc", 10), "abc");
    assert_eq!(safe_truncate("abc", 0), "");
}

use arrow_coder::compaction::{summary_shrinks, summary_with_prefix, transcript_for_summary};

#[test]
fn summary_transcript_and_shrink_check() {
    let mut tool = LLMMessage::tool("out".to_string(), "t".to_string(), "ls".to_string());
    tool.content = None;
    let msgs = vec![LLMMessage::user("hello there".to_string()), tool];
    assert_eq!(transcript_for_summary(&msgs), "user: hello there\n\n---\n\ntool: [no content]");
    assert_eq!(summary_with_prefix("Summary:", "short"), "Summary:\n\nshort");
    // 11 characters count as 2; a 4-character summary as 1.
    assert!(summary_shrinks(&msgs, "abcd"));
    assert!(!summary_shrinks(&msgs, "abcdefgh"));
}

use arrow_coder::types::ToolExecId;

#[test]
fn tool_exec_id_conversions_and_equality() {
    let a = ToolExecId::new("t-1".to_string());
    assert_eq!(a.as_str(), "t-1");
    assert!(ToolExecId::from("t-1") == a);
    assert!(ToolExecId::from("t-1".to_string()) == a);
    assert!(ToolExecId::new("t-2".to_string()) != a);
}
