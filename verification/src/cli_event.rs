//! What a key press or a typed command does to the front end.
//!
//! Reading the terminal and running the engine's commands is the host's
//! part; it hands each key here and carries out the returned action and
//! pending command.

use vstd::prelude::*;
use crate::cli_app::{last_index, log_after, log_after_all, App, CommandAction};
use crate::text::{byte_len, chars_of, concat_str, is_whitespace, is_ws, same_text, string_from_chars, strings_view};

verus! {

/// What the front end must do after a key.
#[derive(Debug, Clone, PartialEq, Eq)]
pub enum Action {
    Idle,
    /// Send the text to the engine.
    Submit(String),
    /// Cancel the current operation.
    Cancel,
    Quit,
}

/// The keys the front end reacts to.
#[derive(Debug, Clone, Copy, PartialEq, Eq, Structural)]
pub enum KeyCode {
    Char(char),
    Enter,
    Up,
    Down,
    PageUp,
    PageDown,
    Left,
    Right,
    Home,
    End,
    Backspace,
    Delete,
    Esc,
    Other,
}

/// A key press: the key and whether Control was held.
#[derive(Debug, Clone, Copy, PartialEq, Eq, Structural)]
pub struct KeyInput {
    pub code: KeyCode,
    pub ctrl: bool,
}

/// The words of `s`: maximal runs of non-white-space characters, in order
/// (`str::split_whitespace`).
pub open spec fn split_state(s: Seq<char>) -> (Seq<Seq<char>>, Seq<char>)
    decreases s.len(),
{
    if s.len() == 0 {
        (Seq::empty(), Seq::empty())
    } else {
        let (done, cur) = split_state(s.drop_last());
        if is_ws(s.last()) {
            if cur.len() > 0 {
                (done.push(cur), Seq::empty())
            } else {
                (done, cur)
            }
        } else {
            (done, cur.push(s.last()))
        }
    }
}

pub open spec fn words(s: Seq<char>) -> Seq<Seq<char>> {
    let (done, cur) = split_state(s);
    if cur.len() > 0 {
        done.push(cur)
    } else {
        done
    }
}

/// Words joined with single spaces.
pub open spec fn join_words(ws: Seq<Seq<char>>) -> Seq<char>
    decreases ws.len(),
{
    if ws.len() == 0 {
        Seq::empty()
    } else if ws.len() == 1 {
        ws[0]
    } else {
        join_words(ws.drop_last()) + " "@ + ws.last()
    }
}

/// The words of `s`.
pub fn split_whitespace(s: &str) -> (r: Vec<String>)
    ensures
        strings_view(r@) == words(s@),
{
    let cs = chars_of(s);
    let mut done: Vec<String> = Vec::new();
    let mut cur: Vec<char> = Vec::new();
    let mut i: usize = 0;
    assert(cs@.take(0) =~= Seq::<char>::empty());
    while i < cs.len()
        invariant
            i <= cs@.len(),
            (strings_view(done@), cur@) == split_state(cs@.take(i as int)),
        decreases cs@.len() - i,
    {
        let c = cs[i];
        assert(cs@.take(i + 1).drop_last() =~= cs@.take(i as int));
        assert(cs@.take(i + 1).last() == c);
        if is_whitespace(c) {
            if cur.len() > 0 {
                let w = string_from_chars(cur.as_slice());
                done.push(w);
                assert(strings_view(done@) =~= split_state(cs@.take(i as int)).0.push(cur@));
                cur = Vec::new();
            }
        } else {
            cur.push(c);
        }
        i = i + 1;
    }
    assert(cs@.take(i as int) =~= cs@);
    if cur.len() > 0 {
        let w = string_from_chars(cur.as_slice());
        done.push(w);
        assert(strings_view(done@) =~= split_state(cs@).0.push(cur@));
    }
    done
}

/// The given words joined with single spaces.
pub fn join_with_spaces(ws: &Vec<String>, from: usize) -> (s: String)
    requires
        from <= ws@.len(),
    ensures
        s@ == join_words(strings_view(ws@).skip(from as int)),
{
    let mut s = String::new();
    let mut i: usize = from;
    assert(strings_view(ws@).skip(from as int).take(0) =~= Seq::<Seq<char>>::empty());
    while i < ws.len()
        invariant
            from <= i <= ws@.len(),
            s@ == join_words(strings_view(ws@).skip(from as int).take(i - from)),
        decreases ws@.len() - i,
    {
        let ghost part = strings_view(ws@).skip(from as int);
        if i > from {
            s = concat_str(s.as_str(), " ");
        }
        s = concat_str(s.as_str(), ws[i].as_str());
        assert(part.take(i + 1 - from).drop_last() =~= part.take(i - from));
        assert(part.take(i + 1 - from).last() == ws@[i as int]@);
        i = i + 1;
    }
    assert(strings_view(ws@).skip(from as int).take(i - from) =~= strings_view(ws@).skip(from as int));
    s
}

/// What `str::to_lowercase` makes of a string.
pub uninterp spec fn lowercase(s: Seq<char>) -> Seq<char>;

/// Every character of `s` is ASCII.
pub open spec fn all_ascii(s: Seq<char>) -> bool {
    forall|i: int| 0 <= i < s.len() ==> (#[trigger] s[i] as u32) < 128
}

/// A word lower-cased as `str::to_lowercase` does it: ASCII lower-casing
/// for ASCII text, the Unicode mapping otherwise.
pub open spec fn lower_word(s: Seq<char>) -> Seq<char> {
    if all_ascii(s) {
        crate::agent::ascii_lowercase(s)
    } else {
        lowercase(s)
    }
}

/// `s.to_lowercase()`: Unicode lower-case mapping of every character; on
/// ASCII text that is ASCII lower-casing (`A`..`Z` to `a`..`z`, the rest
/// unchanged), as the Unicode tables map those characters.
#[verifier::external_body]
pub(crate) fn to_lowercase(s: &str) -> (r: String)
    ensures
        r@ == lowercase(s@),
        all_ascii(s@) ==> r@ == crate::agent::ascii_lowercase(s@),
{
    s.to_lowercase()
}

/// Everything but the log, its scroll position and the pending command is
/// unchanged.
pub open spec fn only_log_and_pending(a: App, b: App) -> bool {
    b == (App { output_lines: b.output_lines, scroll: b.scroll, pending_command: b.pending_command, ..a })
}

pub open spec fn arrow(m: Seq<char>) -> Seq<char> {
    "[arrow] "@ + m
}

pub open spec fn system(m: Seq<char>) -> Seq<char> {
    "[system] "@ + m
}

pub open spec fn error(m: Seq<char>) -> Seq<char> {
    "[error] "@ + m
}

/// The help listing.
pub open spec fn help_lines() -> Seq<Seq<char>> {
    seq![
        arrow("Available commands:"@),
        arrow("  /open <path>       - Open a project"@),
        arrow("  /refresh           - Refresh current project analysis"@),
        arrow("  /project info      - Show current project info"@),
        arrow("  /project refresh   - Refresh project analysis"@),
        arrow("  /project list      - List all projects"@),
        arrow("  /confirm <id> [a|r|e <feedback>] - Confirm authorization"@),
        arrow("  /exit, /quit, /q   - Exit the application"@),
        arrow("  /cancel            - Cancel current step"@),
        arrow("  /resume            - Resume plan"@),
        arrow("  /plan status       - Show plan status"@),
    ]
}

/// The scroll position after logging `lines`: the last line when any was
/// logged, else where it was.
pub open spec fn scrolled(a: App, b: App, lines: Seq<Seq<char>>) -> bool {
    b.scroll == if lines.len() > 0 { last_index(b.log().len()) } else { a.scroll as nat }
}

/// The front end after logging `lines`, scrolled to the last line when any
/// was logged.
pub open spec fn logged(a: App, b: App, lines: Seq<Seq<char>>) -> bool {
    &&& only_log_and_pending(a, b)
    &&& b.log() == log_after_all(a.log(), lines)
    &&& scrolled(a, b, lines)
}

/// Logged `lines` and left the pending command as it was.
pub open spec fn logged_only(a: App, b: App, lines: Seq<Seq<char>>) -> bool {
    logged(a, b, lines) && b.pending_command == a.pending_command
}

/// The effect of the `/confirm` command with words `ws` (at least two).
pub open spec fn confirm_effect(a: App, b: App, ws: Seq<Seq<char>>) -> bool {
    let id = ws[1];
    let act = if ws.len() > 2 {
        lower_word(ws[2])
    } else {
        "approve"@
    };
    if act == "approve"@ || act == "a"@ || act == "yes"@ || act == "y"@ {
        &&& logged(a, b, seq![system("Confirming "@ + id + " with approval..."@)])
        &&& b.pending_command matches Some(CommandAction::Confirm { confirmation_id, action, feedback })
            && confirmation_id@ == id && action@ == "approve"@ && feedback is None
    } else if act == "reject"@ || act == "r"@ || act == "no"@ || act == "n"@ {
        &&& logged(a, b, seq![system("Confirming "@ + id + " with rejection..."@)])
        &&& b.pending_command matches Some(CommandAction::Confirm { confirmation_id, action, feedback })
            && confirmation_id@ == id && action@ == "reject"@ && feedback is None
    } else if act == "edit"@ || act == "e"@ || act == "modify"@ || act == "m"@ {
        if ws.len() > 3 {
            &&& logged(a, b, seq![system("Confirming "@ + id + " with edits..."@)])
            &&& b.pending_command matches Some(CommandAction::Confirm { confirmation_id, action, feedback })
                && confirmation_id@ == id && action@ == "edit"@ && (feedback matches Some(f) && f@ == join_words(
                ws.skip(3),
            ))
        } else {
            logged_only(a, b, seq![error("Usage: /confirm <id> edit <feedback>"@)])
        }
    } else {
        logged_only(a, b, seq![error("Unknown action: "@ + act + ". Use approve, reject, or edit"@)])
    }
}

/// The effect of the `/project` command with words `ws` (at least two).
pub open spec fn project_effect(a: App, b: App, ws: Seq<Seq<char>>) -> bool {
    let sub = ws[1];
    if sub == "info"@ {
        match a.current_project_id {
            Some(p) => logged(a, b, Seq::empty()) && (b.pending_command matches Some(CommandAction::GetProjectInfo(x))
                && x == p),
            None => logged_only(a, b, seq![error("No project currently open"@)]),
        }
    } else if sub == "refresh"@ {
        match a.current_project_id {
            Some(p) => logged(a, b, seq![system("Refreshing project analysis..."@)]) && (b.pending_command matches Some(
                CommandAction::RefreshProject(x),
            ) && x == p),
            None => logged_only(a, b, seq![error("No project currently open"@)]),
        }
    } else if sub == "list"@ {
        logged(a, b, seq![system("Listing all projects..."@)]) && (b.pending_command matches Some(
            CommandAction::ListProjects,
        ))
    } else {
        logged_only(a, b, seq![error("Unknown project subcommand: "@ + sub)])
    }
}

/// The effect of a command line whose words are `ws`, and its action.
pub open spec fn command_effect(a: App, b: App, ws: Seq<Seq<char>>, r: Action) -> bool {
    if ws.len() == 0 {
        b == a && r == Action::Idle
    } else {
        let head = ws[0];
        if head == "/help"@ || head == "/h"@ {
            logged_only(a, b, help_lines()) && r == Action::Idle
        } else if head == "/exit"@ || head == "/quit"@ || head == "/q"@ {
            b == a && r == Action::Quit
        } else if head == "/cancel"@ {
            logged_only(a, b, seq![arrow("Cancelling current step..."@)]) && r == Action::Cancel
        } else if head == "/resume"@ {
            logged_only(a, b, seq![arrow("Resuming plan..."@)]) && r == Action::Idle
        } else if head == "/open"@ {
            &&& r == Action::Idle
            &&& if ws.len() < 2 {
                logged_only(a, b, seq![error("Usage: /open <path>"@)])
            } else {
                &&& logged(a, b, seq![system("Opening project: "@ + join_words(ws.skip(1)))])
                &&& b.pending_command matches Some(CommandAction::OpenProject(p)) && p@ == join_words(ws.skip(1))
            }
        } else if head == "/refresh"@ {
            &&& r == Action::Idle
            &&& match a.current_project_id {
                Some(p) => logged(a, b, seq![system("Refreshing project analysis..."@)]) && (b.pending_command matches Some(
                    CommandAction::RefreshProject(x),
                ) && x == p),
                None => logged_only(
                    a,
                    b,
                    seq![error("No project currently open. Use /open <path> to open a project first."@)],
                ),
            }
        } else if head == "/project"@ {
            &&& r == Action::Idle
            &&& if ws.len() < 2 {
                logged_only(a, b, seq![error("Usage: /project <info|refresh|list>"@)])
            } else {
                project_effect(a, b, ws)
            }
        } else if head == "/plan"@ {
            &&& r == Action::Idle
            &&& if ws.len() > 1 && ws[1] == "status"@ {
                match a.current_plan_id {
                    Some(p) => logged_only(a, b, seq![arrow("Current plan: "@ + p@)]),
                    None => logged_only(a, b, seq![arrow("No active plan"@)]),
                }
            } else {
                b == a
            }
        } else if head == "/confirm"@ {
            &&& r == Action::Idle
            &&& if ws.len() < 2 {
                logged_only(
                    a,
                    b,
                    seq![error("Usage: /confirm <confirmation_id> [approve|reject|edit <feedback>]"@)],
                )
            } else {
                confirm_effect(a, b, ws)
            }
        } else {
            logged_only(a, b, seq![arrow("Unknown command: "@ + head)]) && r == Action::Idle
        }
    }
}

proof fn lemma_log_one(log: Seq<Seq<char>>, line: Seq<char>)
    ensures
        log_after_all(log, seq![line]) == log_after(log, line),
{
    assert(seq![line].drop_last() =~= Seq::<Seq<char>>::empty());
    assert(log_after_all(log, Seq::<Seq<char>>::empty()) == log);
}

proof fn lemma_log_push(log: Seq<Seq<char>>, lines: Seq<Seq<char>>, line: Seq<char>)
    ensures
        log_after_all(log, lines.push(line)) == log_after(log_after_all(log, lines), line),
{
    assert(lines.push(line).drop_last() =~= lines);
}

fn help(app: &mut App)
    ensures
        logged_only(*old(app), *final(app), help_lines()),
{
    let ghost a = *app;
    let ghost lines = help_lines();
    proof {
        assert(lines.take(0) =~= Seq::<Seq<char>>::empty());
    }
    app.add_arrow_message("Available commands:");
    proof { lemma_log_push(a.log(), lines.take(0), lines[0]); assert(lines.take(0).push(lines[0]) =~= lines.take(1)); }
    app.add_arrow_message("  /open <path>       - Open a project");
    proof { lemma_log_push(a.log(), lines.take(1), lines[1]); assert(lines.take(1).push(lines[1]) =~= lines.take(2)); }
    app.add_arrow_message("  /refresh           - Refresh current project analysis");
    proof { lemma_log_push(a.log(), lines.take(2), lines[2]); assert(lines.take(2).push(lines[2]) =~= lines.take(3)); }
    app.add_arrow_message("  /project info      - Show current project info");
    proof { lemma_log_push(a.log(), lines.take(3), lines[3]); assert(lines.take(3).push(lines[3]) =~= lines.take(4)); }
    app.add_arrow_message("  /project refresh   - Refresh project analysis");
    proof { lemma_log_push(a.log(), lines.take(4), lines[4]); assert(lines.take(4).push(lines[4]) =~= lines.take(5)); }
    app.add_arrow_message("  /project list      - List all projects");
    proof { lemma_log_push(a.log(), lines.take(5), lines[5]); assert(lines.take(5).push(lines[5]) =~= lines.take(6)); }
    app.add_arrow_message("  /confirm <id> [a|r|e <feedback>] - Confirm authorization");
    proof { lemma_log_push(a.log(), lines.take(6), lines[6]); assert(lines.take(6).push(lines[6]) =~= lines.take(7)); }
    app.add_arrow_message("  /exit, /quit, /q   - Exit the application");
    proof { lemma_log_push(a.log(), lines.take(7), lines[7]); assert(lines.take(7).push(lines[7]) =~= lines.take(8)); }
    app.add_arrow_message("  /cancel            - Cancel current step");
    proof { lemma_log_push(a.log(), lines.take(8), lines[8]); assert(lines.take(8).push(lines[8]) =~= lines.take(9)); }
    app.add_arrow_message("  /resume            - Resume plan");
    proof { lemma_log_push(a.log(), lines.take(9), lines[9]); assert(lines.take(9).push(lines[9]) =~= lines.take(10)); }
    app.add_arrow_message("  /plan status       - Show plan status");
    proof { lemma_log_push(a.log(), lines.take(10), lines[10]); assert(lines.take(10).push(lines[10]) =~= lines); }
}

fn project_command(app: &mut App, ws: &Vec<String>)
    requires
        strings_view(ws@).len() >= 2,
    ensures
        project_effect(*old(app), *final(app), strings_view(ws@)),
{
    let ghost a = *app;
    let sub = ws[1].as_str();
    if same_text(sub, "info") {
        match app.current_project_id.clone() {
            Some(p) => {
                app.pending_command = Some(CommandAction::GetProjectInfo(p));
                assert(Seq::<Seq<char>>::empty() =~= Seq::<Seq<char>>::empty());
            },
            None => {
                app.add_error_message("No project currently open");
                proof { lemma_log_one(a.log(), error("No project currently open"@)); }
            },
        }
    } else if same_text(sub, "refresh") {
        match app.current_project_id.clone() {
            Some(p) => {
                app.add_system_message("Refreshing project analysis...");
                app.pending_command = Some(CommandAction::RefreshProject(p));
                proof { lemma_log_one(a.log(), system("Refreshing project analysis..."@)); }
            },
            None => {
                app.add_error_message("No project currently open");
                proof { lemma_log_one(a.log(), error("No project currently open"@)); }
            },
        }
    } else if same_text(sub, "list") {
        app.add_system_message("Listing all projects...");
        app.pending_command = Some(CommandAction::ListProjects);
        proof { lemma_log_one(a.log(), system("Listing all projects..."@)); }
    } else {
        let m = concat_str("Unknown project subcommand: ", sub);
        app.add_error_message(m.as_str());
        proof { lemma_log_one(a.log(), error("Unknown project subcommand: "@ + sub@)); }
    }
}

fn confirm_command(app: &mut App, ws: &Vec<String>)
    requires
        strings_view(ws@).len() >= 2,
    ensures
        confirm_effect(*old(app), *final(app), strings_view(ws@)),
{
    let ghost a = *app;
    let ghost w = strings_view(ws@);
    let confirmation_id = ws[1].clone();
    let action = if ws.len() > 2 {
        to_lowercase(ws[2].as_str())
    } else {
        String::from_str("approve")
    };
    let act = action.as_str();
    if same_text(act, "approve") || same_text(act, "a") || same_text(act, "yes") || same_text(act, "y") {
        let m1 = concat_str("Confirming ", confirmation_id.as_str());
        let m = concat_str(m1.as_str(), " with approval...");
        app.add_system_message(m.as_str());
        proof { lemma_log_one(a.log(), system("Confirming "@ + w[1] + " with approval..."@)); }
        app.pending_command = Some(CommandAction::Confirm {
            confirmation_id,
            action: String::from_str("approve"),
            feedback: None,
        });
    } else if same_text(act, "reject") || same_text(act, "r") || same_text(act, "no") || same_text(act, "n") {
        let m1 = concat_str("Confirming ", confirmation_id.as_str());
        let m = concat_str(m1.as_str(), " with rejection...");
        app.add_system_message(m.as_str());
        proof { lemma_log_one(a.log(), system("Confirming "@ + w[1] + " with rejection..."@)); }
        app.pending_command = Some(CommandAction::Confirm {
            confirmation_id,
            action: String::from_str("reject"),
            feedback: None,
        });
    } else if same_text(act, "edit") || same_text(act, "e") || same_text(act, "modify") || same_text(act, "m") {
        if ws.len() > 3 {
            let feedback = join_with_spaces(ws, 3);
            let m1 = concat_str("Confirming ", confirmation_id.as_str());
            let m = concat_str(m1.as_str(), " with edits...");
            app.add_system_message(m.as_str());
            proof { lemma_log_one(a.log(), system("Confirming "@ + w[1] + " with edits..."@)); }
            app.pending_command = Some(CommandAction::Confirm {
                confirmation_id,
                action: String::from_str("edit"),
                feedback: Some(feedback),
            });
        } else {
            app.add_error_message("Usage: /confirm <id> edit <feedback>");
            proof { lemma_log_one(a.log(), error("Usage: /confirm <id> edit <feedback>"@)); }
        }
    } else {
        let m1 = concat_str("Unknown action: ", act);
        let m = concat_str(m1.as_str(), ". Use approve, reject, or edit");
        app.add_error_message(m.as_str());
        proof { lemma_log_one(a.log(), error("Unknown action: "@ + act@ + ". Use approve, reject, or edit"@)); }
    }
}

/// Run a command line (`/help`, `/open <path>`, `/confirm <id> [action]`,
/// ...): log what it does, set the pending command for the engine, and say
/// whether to quit or cancel.
pub fn handle_command(app: &mut App, cmd: &str) -> (r: Action)
    ensures
        command_effect(*old(app), *final(app), words(cmd@), r),
{
    let ghost a = *app;
    let parts = split_whitespace(cmd);
    let ghost ws = strings_view(parts@);
    if parts.len() == 0 {
        return Action::Idle;
    }
    let head = parts[0].as_str();
    if same_text(head, "/help") || same_text(head, "/h") {
        help(app);
        Action::Idle
    } else if same_text(head, "/exit") || same_text(head, "/quit") || same_text(head, "/q") {
        Action::Quit
    } else if same_text(head, "/cancel") {
        app.add_arrow_message("Cancelling current step...");
        proof { lemma_log_one(a.log(), arrow("Cancelling current step..."@)); }
        Action::Cancel
    } else if same_text(head, "/resume") {
        app.add_arrow_message("Resuming plan...");
        proof { lemma_log_one(a.log(), arrow("Resuming plan..."@)); }
        Action::Idle
    } else if same_text(head, "/open") {
        if parts.len() < 2 {
            app.add_error_message("Usage: /open <path>");
            proof { lemma_log_one(a.log(), error("Usage: /open <path>"@)); }
        } else {
            let path = join_with_spaces(&parts, 1);
            let m = concat_str("Opening project: ", path.as_str());
            app.add_system_message(m.as_str());
            proof { lemma_log_one(a.log(), system("Opening project: "@ + path@)); }
            app.pending_command = Some(CommandAction::OpenProject(path));
        }
        Action::Idle
    } else if same_text(head, "/refresh") {
        match app.current_project_id.clone() {
            Some(p) => {
                app.add_system_message("Refreshing project analysis...");
                proof { lemma_log_one(a.log(), system("Refreshing project analysis..."@)); }
                app.pending_command = Some(CommandAction::RefreshProject(p));
            },
            None => {
                app.add_error_message("No project currently open. Use /open <path> to open a project first.");
                proof {
                    lemma_log_one(a.log(), error("No project currently open. Use /open <path> to open a project first."@));
                }
            },
        }
        Action::Idle
    } else if same_text(head, "/project") {
        if parts.len() < 2 {
            app.add_error_message("Usage: /project <info|refresh|list>");
            proof { lemma_log_one(a.log(), error("Usage: /project <info|refresh|list>"@)); }
        } else {
            project_command(app, &parts);
        }
        Action::Idle
    } else if same_text(head, "/plan") {
        if parts.len() > 1 && same_text(parts[1].as_str(), "status") {
            match &app.current_plan_id {
                Some(plan_id) => {
                    let m = concat_str("Current plan: ", plan_id.as_str());
                    app.add_arrow_message(m.as_str());
                    proof { lemma_log_one(a.log(), arrow("Current plan: "@ + a.current_plan_id.unwrap()@)); }
                },
                None => {
                    app.add_arrow_message("No active plan");
                    proof { lemma_log_one(a.log(), arrow("No active plan"@)); }
                },
            }
        }
        Action::Idle
    } else if same_text(head, "/confirm") {
        if parts.len() < 2 {
            app.add_error_message("Usage: /confirm <confirmation_id> [approve|reject|edit <feedback>]");
            proof {
                lemma_log_one(a.log(), error("Usage: /confirm <confirmation_id> [approve|reject|edit <feedback>]"@));
            }
        } else {
            confirm_command(app, &parts);
        }
        Action::Idle
    } else {
        let m = concat_str("Unknown command: ", head);
        app.add_arrow_message(m.as_str());
        proof { lemma_log_one(a.log(), arrow("Unknown command: "@ + head@)); }
        Action::Idle
    }
}

/// Submitted text: a command when it starts with `/`, otherwise input for
/// the engine.
pub fn handle_input(app: &mut App, input: &str) -> (r: Action)
    ensures
        input@.len() > 0 && input@[0] == '/' ==> command_effect(*old(app), *final(app), words(input@), r),
        !(input@.len() > 0 && input@[0] == '/') ==> *final(app) == *old(app) && (r matches Action::Submit(s)
            && s@ == input@),
{
    let cs = chars_of(input);
    if cs.len() > 0 && cs[0] == '/' {
        handle_command(app, input)
    } else {
        Action::Submit(String::from_str(input))
    }
}

/// Keys while the confirmation dialog is shown: `y` accepts, `n` rejects
/// (either case), Esc hides the dialog with a note.
pub fn handle_confirmation_keys(app: &mut App, key: KeyInput) -> (r: Action)
    ensures
        r == Action::Idle,
        (key.code == KeyCode::Char('y') || key.code == KeyCode::Char('Y')) ==> match old(app).confirmation_dialog {
            Some(d) => final(app).confirmation_dialog is None && (final(app).pending_command matches Some(
                CommandAction::Confirm { confirmation_id, action, feedback },
            ) && confirmation_id == d.id && action@ == "approve"@ && feedback is None),
            None => *final(app) == *old(app),
        },
        (key.code == KeyCode::Char('n') || key.code == KeyCode::Char('N')) ==> match old(app).confirmation_dialog {
            Some(d) => final(app).confirmation_dialog is None && (final(app).pending_command matches Some(
                CommandAction::Confirm { confirmation_id, action, feedback },
            ) && confirmation_id == d.id && action@ == "reject"@ && feedback is None),
            None => *final(app) == *old(app),
        },
        key.code == KeyCode::Esc ==> {
            &&& final(app).log() == log_after(
                old(app).log(),
                system("Confirmation cancelled. Use /confirm command to review later."@),
            )
            &&& match old(app).confirmation_dialog {
                Some(d) => final(app).confirmation_dialog matches Some(e) && e.id == d.id && !e.visible,
                None => final(app).confirmation_dialog is None,
            }
            &&& final(app).pending_command == old(app).pending_command
        },
        !(key.code == KeyCode::Char('y') || key.code == KeyCode::Char('Y') || key.code == KeyCode::Char('n')
            || key.code == KeyCode::Char('N') || key.code == KeyCode::Esc) ==> *final(app) == *old(app),
{
    match key.code {
        KeyCode::Char('y') | KeyCode::Char('Y') => {
            if let Some(action) = app.accept_confirmation() {
                app.pending_command = Some(action);
            }
        },
        KeyCode::Char('n') | KeyCode::Char('N') => {
            if let Some(action) = app.reject_confirmation() {
                app.pending_command = Some(action);
            }
        },
        KeyCode::Esc => {
            app.hide_confirmation();
            app.add_system_message("Confirmation cancelled. Use /confirm command to review later.");
        },
        _ => {},
    }
    Action::Idle
}

/// Keys while the continuation dialog is shown: `c` continues, `s` or Esc
/// stops (either case).
pub fn handle_continuation_keys(app: &mut App, key: KeyInput) -> (r: Action)
    ensures
        r == Action::Idle,
        (key.code == KeyCode::Char('c') || key.code == KeyCode::Char('C')) ==> match old(app).continuation_dialog {
            Some(d) => final(app).continuation_dialog is None && (final(app).pending_command matches Some(
                CommandAction::Continue { session_id },
            ) && session_id == d.session_id),
            None => *final(app) == *old(app),
        },
        (key.code == KeyCode::Char('s') || key.code == KeyCode::Char('S') || key.code == KeyCode::Esc) ==> match old(
            app,
        ).continuation_dialog {
            Some(d) => final(app).continuation_dialog is None && (final(app).pending_command matches Some(
                CommandAction::Stop { session_id },
            ) && session_id == d.session_id),
            None => *final(app) == *old(app),
        },
        !(key.code == KeyCode::Char('c') || key.code == KeyCode::Char('C') || key.code == KeyCode::Char('s')
            || key.code == KeyCode::Char('S') || key.code == KeyCode::Esc) ==> *final(app) == *old(app),
{
    match key.code {
        KeyCode::Char('c') | KeyCode::Char('C') => {
            if let Some(action) = app.continue_task() {
                app.pending_command = Some(action);
            }
        },
        KeyCode::Char('s') | KeyCode::Char('S') | KeyCode::Esc => {
            if let Some(action) = app.stop_task() {
                app.pending_command = Some(action);
            }
        },
        _ => {},
    }
    Action::Idle
}

/// A key press on the main screen (no dialog shown).
pub open spec fn main_key_effect(a: App, b: App, key: KeyInput, r: Action) -> bool {
    match key.code {
        KeyCode::Char(c) => if key.ctrl && c == 'd' {
            b == a && r == Action::Quit
        } else if key.ctrl && c == 'c' {
            if a.cancel_counter + 1 >= 2 {
                &&& r == Action::Cancel
                &&& logged_only(a, App { cancel_counter: a.cancel_counter, ..b }, seq![arrow("Plan cancelled by user"@)])
                &&& b.cancel_counter == 0
            } else {
                &&& r == Action::Idle
                &&& logged_only(
                    a,
                    App { cancel_counter: a.cancel_counter, ..b },
                    seq![arrow("Cancelling step... (press Ctrl+C again to cancel plan)"@)],
                )
                &&& b.cancel_counter == a.cancel_counter + 1
            }
        } else if key.ctrl {
            b == a && r == Action::Idle
        } else {
            &&& r == Action::Idle
            &&& b.wf()
            &&& b.input@ == a.input@.take(a.cursor_index()) + seq![c] + a.input@.skip(a.cursor_index())
            &&& b.cursor_index() == a.cursor_index() + 1
            &&& b == (App { input: b.input, cursor_pos: b.cursor_pos, ..a })
        },
        KeyCode::Enter => if a.input@.len() == 0 {
            b == (App { input: b.input, cursor_pos: 0, ..a }) && b.input@.len() == 0 && r == Action::Idle
        } else {
            let cleared = App { input: b.input, cursor_pos: 0, ..a };
            &&& b.input@.len() == 0
            &&& if a.input@[0] == '/' {
                command_effect(cleared, App { input: b.input, ..b }, words(a.input@), r)
            } else {
                b == cleared && (r matches Action::Submit(s) && s@ == a.input@)
            }
        },
        _ => r == Action::Idle && b.wf(),
    }
}

/// What a key press does: dialogs take keys first; otherwise Ctrl+D quits,
/// Ctrl+C twice cancels, Enter submits the input, arrows, Page keys,
/// Home and End move, Backspace and Delete edit, and characters are
/// inserted.
pub fn handle_key_event(app: &mut App, key: KeyInput) -> (r: Action)
    requires
        old(app).wf(),
        old(app).cancel_counter < 255,
        byte_len(old(app).input@) + 4 <= usize::MAX,
    ensures
        old(app).confirmation_dialog matches Some(d) && d.visible ==> r == Action::Idle,
        !(old(app).confirmation_dialog matches Some(d) && d.visible) && (old(app).continuation_dialog matches Some(
            d,
        ) && d.visible) ==> r == Action::Idle,
        !(old(app).confirmation_dialog matches Some(d) && d.visible) && !(old(app).continuation_dialog matches Some(
            d,
        ) && d.visible) ==> main_key_effect(*old(app), *final(app), key, r),
{
    if app.is_confirmation_visible() {
        return handle_confirmation_keys(app, key);
    }
    if app.is_continuation_visible() {
        return handle_continuation_keys(app, key);
    }
    let ghost a = *app;
    match key.code {
        KeyCode::Char(c) => {
            if key.ctrl && c == 'd' {
                return Action::Quit;
            } else if key.ctrl && c == 'c' {
                app.cancel_counter = app.cancel_counter + 1;
                if app.cancel_counter >= 2 {
                    app.add_arrow_message("Plan cancelled by user");
                    app.cancel_counter = 0;
                    proof { lemma_log_one(a.log(), arrow("Plan cancelled by user"@)); }
                    return Action::Cancel;
                } else {
                    app.add_arrow_message("Cancelling step... (press Ctrl+C again to cancel plan)");
                    proof {
                        lemma_log_one(a.log(), arrow("Cancelling step... (press Ctrl+C again to cancel plan)"@));
                    }
                }
            } else if !key.ctrl {
                app.insert_char(c);
            }
        },
        KeyCode::Enter => {
            let input = app.take_input();
            if !input.as_str().is_empty() {
                let ghost cleared = *app;
                let r = handle_input(app, input.as_str());
                return r;
            }
        },
        KeyCode::Up => app.scroll_up(1),
        KeyCode::Down => app.scroll_down(1),
        KeyCode::PageUp => app.scroll_up(10),
        KeyCode::PageDown => app.scroll_down(10),
        KeyCode::Left => app.move_cursor_left(),
        KeyCode::Right => app.move_cursor_right(),
        KeyCode::Home => app.move_cursor_start(),
        KeyCode::End => app.move_cursor_end(),
        KeyCode::Backspace => app.backspace(),
        KeyCode::Delete => app.delete(),
        _ => {},
    }
    Action::Idle
}

} // verus!
