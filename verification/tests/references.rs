use arrow_coder::agent::{
    expand_doc, expand_ref_block, line_range, read_only_reminder, selection_reads_file, skill_result_message,
    skills_hint, SkillSummary,
};
use arrow_coder::session_log::{in_bootstrap, SessionEvent};
use arrow_coder::tui_app::{ApprovalResponse, ApprovalType};
use arrow_coder::turn::settle_without_asking;
use arrow_coder::user_doc::{DocBlock, RefKind, RefRange, UserDoc};

const TEXT: &str = "one\ntwo\r\nthree\nfour\n";

#[test]
fn line_range_takes_inclusive_one_based_lines() {
    assert_eq!(line_range(TEXT, RefRange { start: 2, end: 3 }), "two\nthree");
    assert_eq!(line_range(TEXT, RefRange { start: 1, end: 1 }), "one");
    assert_eq!(line_range(TEXT, RefRange { start: 3, end: 99 }), "three\nfour");
    assert_eq!(line_range(TEXT, RefRange { start: 0, end: 2 }), "one\ntwo");
    assert_eq!(line_range(TEXT, RefRange { start: 5, end: 9 }), "");
    assert_eq!(line_range(TEXT, RefRange { start: 3, end: 2 }), "");
}

#[test]
fn selection_is_read_only_for_valid_range_over_file() {
    assert!(selection_reads_file(Some(RefRange { start: 1, end: 2 }), true));
    assert!(!selection_reads_file(Some(RefRange { start: 1, end: 2 }), false));
    assert!(!selection_reads_file(Some(RefRange { start: 0, end: 2 }), true));
    assert!(!selection_reads_file(Some(RefRange { start: 3, end: 2 }), true));
    assert!(!selection_reads_file(None, true));
}

#[test]
fn reference_blocks_expand_by_kind() {
    assert_eq!(
        expand_ref_block(RefKind::File, "a.rs", None, None, Ok("fn main() {}".to_string())),
        "\n\n```<referenced file: a.rs>\nfn main() {}\n```"
    );
    assert_eq!(
        expand_ref_block(RefKind::File, "gone.rs", None, None, Err("path does not exist".to_string())),
        "\n\n```<referenced file: gone.rs>\n<unreadable: path does not exist>\n```"
    );
    assert_eq!(
        expand_ref_block(RefKind::Dir, "src", None, None, Ok("a.rs\n".to_string())),
        "\n\n```<referenced directory: src>\na.rs\n\n```"
    );
    assert_eq!(
        expand_ref_block(RefKind::Image, "p.png", None, None, Err(String::new())),
        "\n\n```<referenced image: p.png>\n<image: p.png>\n```"
    );
    let r = Some(RefRange { start: 2, end: 3 });
    assert_eq!(
        expand_ref_block(RefKind::Selection, "t.txt", r, Some("old".to_string()), Ok(TEXT.to_string())),
        "\n\n```<referenced selection: t.txt (lines 2-3)>\ntwo\nthree\n```"
    );
    assert_eq!(
        expand_ref_block(RefKind::Selection, "t.txt", r, Some("old".to_string()), Err("moved".to_string())),
        "\n\n```<referenced selection: t.txt (lines 2-3)>\nold\n```"
    );
    assert_eq!(
        expand_ref_block(RefKind::Selection, "t.txt", None, None, Ok(TEXT.to_string())),
        "\n\n```<referenced selection: t.txt>\n\n```"
    );
}

#[test]
fn documents_expand_block_by_block() {
    let doc = UserDoc {
        blocks: vec![
            DocBlock::Text { text: "Look at ".to_string() },
            DocBlock::Ref { kind: RefKind::File, path: "a.rs".to_string(), range: None, snippet: None, depth: None },
            DocBlock::Text { text: " please".to_string() },
        ],
    };
    let reads = vec![Err(String::new()), Ok("x".to_string()), Err(String::new())];
    assert_eq!(expand_doc(&doc, reads), "Look at \n\n```<referenced file: a.rs>\nx\n``` please");
}

#[test]
fn read_only_profiles_get_a_reminder() {
    assert!(read_only_reminder(Some("plan")).unwrap().starts_with("You are in read-only planning mode."));
    assert!(read_only_reminder(Some("chat")).unwrap().starts_with("You are in chat mode."));
    assert_eq!(read_only_reminder(Some("default")), None);
    assert_eq!(read_only_reminder(None), None);
}

#[test]
fn skills_hint_lists_invocable_skills() {
    let skills = vec![
        SkillSummary { name: "review".to_string(), description: "Review code".to_string(), user_invocable: true },
        SkillSummary { name: "hidden".to_string(), description: "x".to_string(), user_invocable: false },
        SkillSummary { name: "tests".to_string(), description: "Write tests".to_string(), user_invocable: true },
    ];
    assert_eq!(
        skills_hint(&skills).unwrap(),
        "Available skills:\nreview - Review code\ntests - Write tests\n\nIf a task matches one of these skills, call `skill` with {\"name\": \"<skill>\"} to load detailed instructions before acting."
    );
    assert_eq!(skills_hint(&vec![]), None);
    assert_eq!(skills_hint(&vec![skills[1].clone()]), None);
}

#[test]
fn skill_results_become_instructions() {
    assert_eq!(
        skill_result_message("skill", Some("Do X")).unwrap(),
        "Skill loaded. Follow these instructions for the current task:\n\nDo X"
    );
    assert_eq!(skill_result_message("skill", Some("")), None);
    assert_eq!(skill_result_message("skill", None), None);
    assert_eq!(skill_result_message("read_file", Some("Do X")), None);
}

#[test]
fn bootstrap_lasts_until_the_model_acts() {
    assert!(in_bootstrap(&vec![]));
    assert!(in_bootstrap(&vec![SessionEvent::UserMessage { text: "hi".to_string(), ts: 1 }]));
    assert!(!in_bootstrap(&vec![
        SessionEvent::UserMessage { text: "hi".to_string(), ts: 1 },
        SessionEvent::AssistantMessage { text: "hello".to_string(), ts: 2 },
    ]));
    assert!(!in_bootstrap(&vec![SessionEvent::ToolCall {
        id: "c".to_string(),
        name: "bash".to_string(),
        args_json: "{}".to_string(),
        ts: 3,
    }]));
}

#[test]
fn confirmation_without_asking() {
    assert_eq!(settle_without_asking(true, true), Some((ApprovalResponse::Yes, ApprovalType::Once)));
    assert_eq!(settle_without_asking(true, false), Some((ApprovalResponse::Yes, ApprovalType::Once)));
    assert_eq!(settle_without_asking(false, true), None);
    assert_eq!(settle_without_asking(false, false), Some((ApprovalResponse::No, ApprovalType::Once)));
}

use arrow_coder::turn::{opening_system_messages, OpeningParts};

fn parts() -> OpeningParts {
    OpeningParts {
        minimal_persona: "Be brief.".to_string(),
        guidelines: "Use markdown.".to_string(),
        profile: Some(("Planner".to_string(), "Plans work.".to_string())),
        reminder: Some("Read only.".to_string()),
        default_skills: None,
        skills_hint: Some("Available skills: x".to_string()),
    }
}

#[test]
fn opening_messages_by_phase() {
    assert!(opening_system_messages(false, true, parts()).is_empty());
    assert_eq!(opening_system_messages(true, true, parts()), vec!["Be brief.\n\nUse markdown.".to_string()]);
    assert_eq!(
        opening_system_messages(true, false, parts()),
        vec![
            "You are the 'Planner' agent. Plans work.\n\nUse markdown.".to_string(),
            "Read only.".to_string(),
            "Available skills: x".to_string(),
        ]
    );
}
