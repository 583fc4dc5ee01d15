use arrow_coder::compaction::TokenPressureCompactor;
use arrow_coder::error::ArrowError;
use arrow_coder::middleware::{
    AutoCompactMiddleware, ConversationContext, MiddlewareAction, MiddlewarePipeline, MiddlewareResult,
    TokenLimitMiddleware, TurnLimitMiddleware, TurnStoppingDecision,
};
use arrow_coder::rewind::{diff_lines, split_lines, FileCheckpointer, FileSnapshot, RewindManager};
use arrow_coder::sorted::sort_dedup;
use arrow_coder::task::{TaskGraph, TaskNode, TaskStatus};
use arrow_coder::types::{LLMMessage, Role};
use arrow_coder::user_doc::{DocBlock, UserDoc};

fn ctx(steps: u32, total: u64, context: u64, max: u64) -> ConversationContext {
    ConversationContext { steps, session_total_llm_tokens: total, context_tokens: context, max_context_tokens: max }
}

#[test]
fn turn_limit_stops_at_the_limit() {
    let m = TurnLimitMiddleware::new(3);
    assert_eq!(m.before_turn(&ctx(2, 0, 0, 0)).action, MiddlewareAction::Continue);
    let r = m.before_turn(&ctx(3, 0, 0, 0));
    assert_eq!(r.action, MiddlewareAction::Stop);
    assert_eq!(r.reason.as_deref(), Some("Turn limit of 3 reached"));
}

#[test]
fn token_limit_stops_above_the_limit() {
    let m = TokenLimitMiddleware::new(100);
    assert_eq!(m.before_turn(&ctx(0, 100, 0, 0)).action, MiddlewareAction::Continue);
    let r = m.before_turn(&ctx(0, 101, 0, 0));
    assert_eq!(r.action, MiddlewareAction::Stop);
    assert_eq!(r.reason.as_deref(), Some("Token limit exceeded: 101 > 100"));
}

#[test]
fn auto_compact_records_old_tokens() {
    let m = AutoCompactMiddleware::with_threshold(80_000);
    let r = m.before_turn(&ctx(0, 0, 80_000, 100_000));
    assert_eq!(r.action, MiddlewareAction::Compact);
    assert_eq!(r.old_tokens, Some(80_000));
    let r = m.before_turn(&ctx(0, 0, 79_999, 100_000));
    assert_eq!(r.action, MiddlewareAction::Continue);
    // A zero threshold disables compaction.
    let r = AutoCompactMiddleware::new(TokenPressureCompactor::new(0)).before_turn(&ctx(0, 0, 99_999, 100_000));
    assert_eq!(r.action, MiddlewareAction::Continue);
}

#[test]
fn pipeline_first_decisive_answer_wins() {
    let stop = TurnLimitMiddleware::new(0).before_turn(&ctx(0, 0, 0, 0));
    let compact = AutoCompactMiddleware::with_threshold(1).before_turn(&ctx(0, 0, 5, 10));
    let r = MiddlewarePipeline::run_before_turn(vec![MiddlewareResult::default(), compact, stop]);
    assert_eq!(r.action, MiddlewareAction::Compact);
    let r = MiddlewarePipeline::run_before_turn(vec![MiddlewareResult::default()]);
    assert_eq!(r.action, MiddlewareAction::Continue);
}

#[test]
fn turn_stopping_abort_wins_and_last_inject_kept() {
    let d = MiddlewarePipeline::run_turn_stopping(vec![
        TurnStoppingDecision::Inject(LLMMessage::user("one".to_string())),
        TurnStoppingDecision::Abort("stop".to_string()),
        TurnStoppingDecision::Inject(LLMMessage::user("two".to_string())),
    ]);
    assert!(matches!(d, TurnStoppingDecision::Abort(ref r) if r == "stop"));
    let d = MiddlewarePipeline::run_turn_stopping(vec![
        TurnStoppingDecision::Inject(LLMMessage::user("one".to_string())),
        TurnStoppingDecision::Continue,
        TurnStoppingDecision::Inject(LLMMessage::user("two".to_string())),
    ]);
    match d {
        TurnStoppingDecision::Inject(m) => assert_eq!(m.content.as_deref(), Some("two")),
        other => panic!("unexpected {:?}", other),
    }
    assert!(matches!(MiddlewarePipeline::run_turn_stopping(vec![]), TurnStoppingDecision::Continue));
}

#[test]
fn task_graph_tracks_status() {
    let mut g = TaskGraph::new();
    let parent = TaskNode::new("parent".to_string(), None);
    let pid = g.add(parent);
    let child = TaskNode::new("child".to_string(), Some(pid));
    let cid = g.add(child);
    assert_ne!(pid, cid);
    assert_eq!(g.get(&cid).unwrap().status, TaskStatus::Pending);
    assert!(g.update_status(&cid, TaskStatus::Completed));
    assert!(g.get(&cid).unwrap().finished_at.is_some());
    assert!(!g.update_status(&12345, TaskStatus::Failed));
    let kids = g.children(&pid);
    assert_eq!(kids.len(), 1);
    assert_eq!(kids[0].description, "child");
}

#[test]
fn task_complete_and_fail() {
    let mut t = TaskNode::new("t".to_string(), None);
    t.complete("done".to_string());
    assert_eq!(t.status, TaskStatus::Completed);
    assert_eq!(t.result_summary.as_deref(), Some("done"));
    t.fail("broke".to_string());
    assert_eq!(t.status, TaskStatus::Failed);
    assert_eq!(t.result_summary.as_deref(), Some("broke"));
}

#[test]
fn user_doc_from_text() {
    let d = UserDoc::from_text("look at @/src/a.rs please\n", &["/src/a.rs".to_string()]);
    assert_eq!(d.blocks.len(), 2);
    match &d.blocks[0] {
        DocBlock::Text { text } => assert!(text.contains("please") && !text.contains("@/src/a.rs")),
        other => panic!("unexpected {:?}", other),
    }
    assert!(d.blocks[1].is_ref());
    assert_eq!(d.refs().len(), 1);
    assert!(!d.is_empty());
    assert!(UserDoc::from_blocks(vec![DocBlock::text("  ".to_string())]).is_empty());
}

#[test]
fn lines_and_diffs() {
    let lines = split_lines(b"a\r\nb\nc");
    assert_eq!(lines, vec![b"a".to_vec(), b"b".to_vec(), b"c".to_vec()]);
    let old = b"a\nb\nc".to_vec();
    let new = b"a\nc\nd\ne".to_vec();
    assert_eq!(diff_lines(Some(&old), Some(&new)), (2, 1));
    assert_eq!(diff_lines(None, Some(&new)), (4, 0));
}

#[test]
fn file_changes_report_original_text() {
    let mut cp = FileCheckpointer::new();
    cp.create_checkpoint(1);
    cp.snapshot_file("a.txt".to_string(), Some(b"one\ntwo".to_vec()));
    cp.snapshot_file("b.txt".to_string(), None);
    let changes = cp.get_file_changes(&vec![Some(b"one\nthree".to_vec()), Some(b"x".to_vec())]);
    assert_eq!(changes.len(), 2);
    assert_eq!(changes[0], ("a.txt".to_string(), 1, 1, Some("one\ntwo".to_string())));
    assert_eq!(changes[1], ("b.txt".to_string(), 1, 0, None));
}

#[test]
fn rewind_manager_checkpoints_and_rewind() {
    let mut messages = vec![
        LLMMessage::new(Role::User, "Hello".to_string()),
        LLMMessage::new(Role::Assistant, "Hi".to_string()),
        LLMMessage::new(Role::User, "Again".to_string()),
    ];
    let mut m = RewindManager::new();
    m.create_checkpoint(1, vec![FileSnapshot::new("f".to_string(), None)]);
    m.create_checkpoint(3, vec![]);
    assert_eq!(m.checkpoints().len(), 2);
    assert_eq!(m.checkpoints()[0].message_index, 1);
    let r = RewindManager::get_rewindable_messages(&messages);
    assert_eq!(r, vec![(0, "Hello".to_string()), (2, "Again".to_string())]);
    assert_eq!(RewindManager::rewind_target(&messages, 2).unwrap(), "Again");
    match RewindManager::rewind_target(&messages, 1) {
        Err(ArrowError::Session(s)) => assert_eq!(s, "Message at index 1 is not a user message"),
        other => panic!("unexpected {:?}", other),
    }
    match RewindManager::rewind_target(&messages, 9) {
        Err(ArrowError::Session(s)) => assert_eq!(s, "Invalid message index: 9"),
        other => panic!("unexpected {:?}", other),
    }
    m.finish_rewind(2, &mut messages);
    assert_eq!(messages.len(), 2);
    assert_eq!(m.checkpoints().len(), 1);
    m.clear_checkpoints();
    assert_eq!(m.checkpoints().len(), 0);
}

#[test]
fn sort_dedup_sorts_and_removes_duplicates() {
    let r = sort_dedup(vec!["b".to_string(), "a".to_string(), "b".to_string(), "ab".to_string()]);
    assert_eq!(r, vec!["a", "ab", "b"]);
}

#[test]
fn task_graph_lists_all_tasks() {
    let mut g = TaskGraph::new();
    let a = g.add(TaskNode::new("a".to_string(), None));
    let b = g.add(TaskNode::new("b".to_string(), None));
    let all = g.all();
    assert_eq!(all.len(), 2);
    assert_eq!(all[&a].description, "a");
    assert_eq!(all[&b].description, "b");
}

#[test]
fn task_graph_get_mut_changes_in_place() {
    let mut g = TaskGraph::new();
    let a = g.add(TaskNode::new("a".to_string(), None));
    match g.get_mut(&a) {
        Some(t) => t.description = "changed".to_string(),
        None => panic!("task should be there"),
    }
    assert_eq!(g.get(&a).unwrap().description, "changed");
    assert!(g.get_mut(&(a.wrapping_add(1))).is_none());
    assert_eq!(g.all().len(), 1);
}

#[test]
fn epoch_millis_reads_the_wall_clock() {
    let a = arrow_coder::session_log::epoch_millis();
    let b = arrow_coder::session_log::now_ts();
    assert!(a > 1_600_000_000_000);
    assert!((b as i64) >= a);
}
