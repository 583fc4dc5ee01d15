//! State of the terminal front end: the output log, the input line and its
//! cursor, and the confirmation and continuation dialogs.

use vstd::prelude::*;
use std::collections::VecDeque;
use crate::line_edit::{
    boundary_at, boundary_left, boundary_right, char_index, insert_at, is_boundary, lemma_end_is_boundary,
    lemma_start_is_boundary, remove_at, remove_before,
};
use crate::text::{byte_count, byte_len, concat_str, decimal, decimal_string, strings_view};

verus! {

/// A request for the engine, produced by a key or a command.
#[derive(Debug, Clone)]
pub enum CommandAction {
    OpenProject(String),
    RefreshProject(String),
    GetProjectInfo(String),
    ListProjects,
    /// Answer a confirmation: `approve`, `reject` or `edit` with feedback.
    Confirm { confirmation_id: String, action: String, feedback: Option<String> },
    /// Go on past the iteration limit.
    Continue { session_id: String },
    /// Stop at the iteration limit.
    Stop { session_id: String },
}

/// A pending change set awaiting the user's approval.
#[derive(Debug, Clone)]
pub struct ConfirmationDialog {
    pub id: String,
    pub description: String,
    /// Files to be modified.
    pub files: Vec<String>,
    pub preview: Option<String>,
    pub visible: bool,
}

impl ConfirmationDialog {
    /// A visible dialog.
    pub fn new(id: String, description: String, files: Vec<String>, preview: Option<String>) -> (d: Self)
        ensures
            d.id == id,
            d.description == description,
            d.files == files,
            d.preview == preview,
            d.visible,
    {
        ConfirmationDialog { id, description, files, preview, visible: true }
    }

    /// Closes the dialog; what it shows is kept, so `show` opens it again
    /// as it was.
    pub fn dismiss(&mut self)
        ensures
            *final(self) == (ConfirmationDialog { visible: false, ..*old(self) }),
    {
        self.visible = false;
    }

    pub fn show(&mut self)
        ensures
            *final(self) == (ConfirmationDialog { visible: true, ..*old(self) }),
    {
        self.visible = true;
    }

    pub fn is_visible(&self) -> (b: bool)
        ensures
            b == self.visible,
    {
        self.visible
    }

    /// How many files the change set touches, as a sentence.
    pub fn summary(&self) -> (s: String)
        ensures
            s@ == decimal(self.files@.len()) + " files to modify"@,
    {
        let n = decimal_string(self.files.len() as u64);
        concat_str(n.as_str(), " files to modify")
    }
}

/// Closing a dialog keeps what it shows; closing it again changes nothing,
/// and showing it afterwards gives back the open dialog.
pub proof fn law_dismiss_then_show(d: ConfirmationDialog)
    ensures
        ({
            let closed = ConfirmationDialog { visible: false, ..d };
            &&& !closed.visible
            &&& closed.id == d.id && closed.description == d.description
            &&& closed.files == d.files && closed.preview == d.preview
            &&& (ConfirmationDialog { visible: false, ..closed }) == closed
            &&& (ConfirmationDialog { visible: true, ..closed }) == (ConfirmationDialog { visible: true, ..d })
        }),
{
}

/// The prompt shown when a task reaches its iteration limit.
#[derive(Debug, Clone)]
pub struct ContinuationDialog {
    pub session_id: String,
    pub current_iteration: usize,
    pub max_iterations: usize,
    pub progress: String,
    pub visible: bool,
}

impl ContinuationDialog {
    /// A visible dialog.
    pub fn new(session_id: String, current_iteration: usize, max_iterations: usize, progress: String) -> (d: Self)
        ensures
            d.session_id == session_id,
            d.current_iteration == current_iteration,
            d.max_iterations == max_iterations,
            d.progress == progress,
            d.visible,
    {
        ContinuationDialog { session_id, current_iteration, max_iterations, progress, visible: true }
    }

    /// Closes the dialog, keeping what it shows.
    pub fn dismiss(&mut self)
        ensures
            *final(self) == (ContinuationDialog { visible: false, ..*old(self) }),
    {
        self.visible = false;
    }

    pub fn is_visible(&self) -> (b: bool)
        ensures
            b == self.visible,
    {
        self.visible
    }
}

/// The most lines the output log keeps.
pub const MAX_OUTPUT_LINES: usize = 1000;

/// The last `n` items of `s`.
pub open spec fn keep_last<T>(s: Seq<T>, n: nat) -> Seq<T> {
    if s.len() > n {
        s.skip(s.len() - n)
    } else {
        s
    }
}

/// The log after a line is added: the line appended, only the last 1000
/// lines kept.
pub open spec fn log_after(log: Seq<Seq<char>>, line: Seq<char>) -> Seq<Seq<char>> {
    keep_last(log.push(line), 1000)
}

/// The log after several lines are added, in order.
pub open spec fn log_after_all(log: Seq<Seq<char>>, lines: Seq<Seq<char>>) -> Seq<Seq<char>>
    decreases lines.len(),
{
    if lines.len() == 0 {
        log
    } else {
        log_after(log_after_all(log, lines.drop_last()), lines.last())
    }
}

/// `n - 1`, or 0.
pub open spec fn last_index(n: nat) -> nat {
    if n >= 1 {
        (n - 1) as nat
    } else {
        0
    }
}

/// The state of the front end.
pub struct App {
    pub project_name: String,
    pub current_project_id: Option<String>,
    pub session_id: String,
    /// The output log, oldest first.
    pub output_lines: VecDeque<String>,
    pub input: String,
    /// Byte offset of the cursor in `input`.
    pub cursor_pos: usize,
    /// First line shown of the output log.
    pub scroll: usize,
    pub connected: bool,
    pub current_plan_id: Option<String>,
    pub status: String,
    pub should_exit: bool,
    /// Ctrl+C presses since the last cancellation.
    pub cancel_counter: u8,
    pub pending_command: Option<CommandAction>,
    pub confirmation_dialog: Option<ConfirmationDialog>,
    pub continuation_dialog: Option<ContinuationDialog>,
}

impl App {
    /// The output log as text.
    pub open spec fn log(&self) -> Seq<Seq<char>> {
        strings_view(self.output_lines@)
    }

    /// The cursor is on a character boundary of the input.
    pub open spec fn wf(&self) -> bool {
        is_boundary(self.input@, self.cursor_pos as nat)
    }

    /// The character index of the cursor.
    pub open spec fn cursor_index(&self) -> int {
        char_index(self.input@, self.cursor_pos as nat)
    }

    /// A front end for a project and session: empty log and input, status
    /// `Ready`, connected, no dialog.
    pub fn new(project_name: String, session_id: String) -> (a: Self)
        ensures
            a.wf(),
            a.project_name == project_name,
            a.session_id == session_id,
            a.current_project_id is None,
            a.log().len() == 0,
            a.input@.len() == 0,
            a.cursor_pos == 0,
            a.scroll == 0,
            a.connected,
            a.current_plan_id is None,
            a.status@ == "Ready"@,
            !a.should_exit,
            a.cancel_counter == 0,
            a.pending_command is None,
            a.confirmation_dialog is None,
            a.continuation_dialog is None,
    {
        let a = App {
            project_name,
            current_project_id: None,
            session_id,
            output_lines: VecDeque::with_capacity(1000),
            input: String::new(),
            cursor_pos: 0,
            scroll: 0,
            connected: true,
            current_plan_id: None,
            status: String::from_str("Ready"),
            should_exit: false,
            cancel_counter: 0,
            pending_command: None,
            confirmation_dialog: None,
            continuation_dialog: None,
        };
        proof {
            lemma_start_is_boundary(a.input@);
            assert(a.log() =~= Seq::<Seq<char>>::empty());
        }
        a
    }

    pub fn show_confirmation(&mut self, id: String, description: String, files: Vec<String>, preview: Option<String>)
        ensures
            final(self).confirmation_dialog matches Some(d) && d.id == id && d.description == description
                && d.files == files && d.preview == preview && d.visible,
            *final(self) == (App { confirmation_dialog: final(self).confirmation_dialog, ..*old(self) }),
    {
        self.confirmation_dialog = Some(ConfirmationDialog::new(id, description, files, preview));
    }

    pub fn hide_confirmation(&mut self)
        ensures
            match old(self).confirmation_dialog {
                Some(d) => final(self).confirmation_dialog == Some(ConfirmationDialog { visible: false, ..d }),
                None => final(self).confirmation_dialog is None,
            },
            *final(self) == (App { confirmation_dialog: final(self).confirmation_dialog, ..*old(self) }),
    {
        match &mut self.confirmation_dialog {
            Some(d) => d.dismiss(),
            None => {},
        }
    }

    pub fn is_confirmation_visible(&self) -> (b: bool)
        ensures
            b == (self.confirmation_dialog matches Some(d) && d.visible),
    {
        match &self.confirmation_dialog {
            Some(d) => d.is_visible(),
            None => false,
        }
    }

    /// Close the confirmation dialog approving every change.
    pub fn accept_confirmation(&mut self) -> (r: Option<CommandAction>)
        ensures
            old(self).confirmation_dialog is None ==> r is None && *final(self) == *old(self),
            old(self).confirmation_dialog matches Some(d) ==> {
                &&& r matches Some(CommandAction::Confirm { confirmation_id, action, feedback })
                    && confirmation_id == d.id && action@ == "approve"@ && feedback is None
                &&& final(self).confirmation_dialog is None
                &&& final(self).log() == log_after(
                    old(self).log(),
                    "[system] "@ + ("✅ Accepted all changes ("@ + decimal(d.files@.len()) + " files)"@),
                )
                &&& final(self).scroll == last_index(final(self).log().len())
                &&& final(self).input == old(self).input && final(self).cursor_pos == old(self).cursor_pos
                &&& final(self).pending_command == old(self).pending_command
                &&& final(self).continuation_dialog == old(self).continuation_dialog
            },
    {
        match self.confirmation_dialog.take() {
            Some(dialog) => {
                let n = decimal_string(dialog.files.len() as u64);
                let a = concat_str("✅ Accepted all changes (", n.as_str());
                let msg = concat_str(a.as_str(), " files)");
                self.add_system_message(msg.as_str());
                Some(CommandAction::Confirm {
                    confirmation_id: dialog.id,
                    action: String::from_str("approve"),
                    feedback: None,
                })
            },
            None => None,
        }
    }

    /// Close the confirmation dialog rejecting every change.
    pub fn reject_confirmation(&mut self) -> (r: Option<CommandAction>)
        ensures
            old(self).confirmation_dialog is None ==> r is None && *final(self) == *old(self),
            old(self).confirmation_dialog matches Some(d) ==> {
                &&& r matches Some(CommandAction::Confirm { confirmation_id, action, feedback })
                    && confirmation_id == d.id && action@ == "reject"@ && feedback is None
                &&& final(self).confirmation_dialog is None
                &&& final(self).log() == log_after(
                    old(self).log(),
                    "[system] "@ + ("❌ Rejected all changes ("@ + decimal(d.files@.len()) + " files)"@),
                )
                &&& final(self).scroll == last_index(final(self).log().len())
                &&& final(self).input == old(self).input && final(self).cursor_pos == old(self).cursor_pos
                &&& final(self).pending_command == old(self).pending_command
                &&& final(self).continuation_dialog == old(self).continuation_dialog
            },
    {
        match self.confirmation_dialog.take() {
            Some(dialog) => {
                let n = decimal_string(dialog.files.len() as u64);
                let a = concat_str("❌ Rejected all changes (", n.as_str());
                let msg = concat_str(a.as_str(), " files)");
                self.add_system_message(msg.as_str());
                Some(CommandAction::Confirm {
                    confirmation_id: dialog.id,
                    action: String::from_str("reject"),
                    feedback: None,
                })
            },
            None => None,
        }
    }

    pub fn show_continuation_dialog(
        &mut self,
        session_id: String,
        current_iteration: usize,
        max_iterations: usize,
        progress: String,
    )
        ensures
            final(self).continuation_dialog matches Some(d) && d.session_id == session_id
                && d.current_iteration == current_iteration && d.max_iterations == max_iterations
                && d.progress == progress && d.visible,
            *final(self) == (App { continuation_dialog: final(self).continuation_dialog, ..*old(self) }),
    {
        self.continuation_dialog = Some(
            ContinuationDialog::new(session_id, current_iteration, max_iterations, progress),
        );
    }

    pub fn is_continuation_visible(&self) -> (b: bool)
        ensures
            b == (self.continuation_dialog matches Some(d) && d.visible),
    {
        match &self.continuation_dialog {
            Some(d) => d.is_visible(),
            None => false,
        }
    }

    /// Close the continuation dialog choosing to go on.
    pub fn continue_task(&mut self) -> (r: Option<CommandAction>)
        ensures
            old(self).continuation_dialog is None ==> r is None && *final(self) == *old(self),
            old(self).continuation_dialog matches Some(d) ==> {
                &&& r matches Some(CommandAction::Continue { session_id }) && session_id == d.session_id
                &&& final(self).continuation_dialog is None
                &&& final(self).log() == log_after(
                    old(self).log(),
                    "[system] "@ + ("▶️ Continuing task (iteration "@ + decimal(d.current_iteration as nat) + "/"@
                        + decimal(d.max_iterations as nat) + ")"@),
                )
                &&& final(self).scroll == last_index(final(self).log().len())
                &&& final(self).input == old(self).input && final(self).cursor_pos == old(self).cursor_pos
                &&& final(self).pending_command == old(self).pending_command
                &&& final(self).confirmation_dialog == old(self).confirmation_dialog
            },
    {
        match self.continuation_dialog.take() {
            Some(dialog) => {
                let a = decimal_string(dialog.current_iteration as u64);
                let b = decimal_string(dialog.max_iterations as u64);
                let m1 = concat_str("▶️ Continuing task (iteration ", a.as_str());
                let m2 = concat_str(m1.as_str(), "/");
                let m3 = concat_str(m2.as_str(), b.as_str());
                let msg = concat_str(m3.as_str(), ")");
                self.add_system_message(msg.as_str());
                Some(CommandAction::Continue { session_id: dialog.session_id })
            },
            None => None,
        }
    }

    /// Close the continuation dialog choosing to stop.
    pub fn stop_task(&mut self) -> (r: Option<CommandAction>)
        ensures
            old(self).continuation_dialog is None ==> r is None && *final(self) == *old(self),
            old(self).continuation_dialog matches Some(d) ==> {
                &&& r matches Some(CommandAction::Stop { session_id }) && session_id == d.session_id
                &&& final(self).continuation_dialog is None
                &&& final(self).log() == log_after(
                    old(self).log(),
                    "[system] "@ + ("⏹️ Task stopped at iteration "@ + decimal(d.current_iteration as nat) + "/"@
                        + decimal(d.max_iterations as nat)),
                )
                &&& final(self).scroll == last_index(final(self).log().len())
                &&& final(self).input == old(self).input && final(self).cursor_pos == old(self).cursor_pos
                &&& final(self).pending_command == old(self).pending_command
                &&& final(self).confirmation_dialog == old(self).confirmation_dialog
            },
    {
        match self.continuation_dialog.take() {
            Some(dialog) => {
                let a = decimal_string(dialog.current_iteration as u64);
                let b = decimal_string(dialog.max_iterations as u64);
                let m1 = concat_str("⏹️ Task stopped at iteration ", a.as_str());
                let m2 = concat_str(m1.as_str(), "/");
                let msg = concat_str(m2.as_str(), b.as_str());
                self.add_system_message(msg.as_str());
                Some(CommandAction::Stop { session_id: dialog.session_id })
            },
            None => None,
        }
    }

    /// Record the open project; the status names it.
    pub fn set_project(&mut self, id: String, name: String)
        ensures
            final(self).current_project_id == Some(id),
            final(self).project_name == name,
            final(self).status@ == "Project: "@ + name@,
            final(self).output_lines == old(self).output_lines,
            final(self).input == old(self).input,
            final(self).cursor_pos == old(self).cursor_pos,
    {
        self.status = concat_str("Project: ", name.as_str());
        self.current_project_id = Some(id);
        self.project_name = name;
    }

    /// Append a line to the log, which keeps its last 1000 lines, and scroll
    /// to the bottom.
    pub fn add_output(&mut self, line: String)
        ensures
            final(self).log() == log_after(old(self).log(), line@),
            final(self).scroll == last_index(final(self).log().len()),
            *final(self) == (App {
                output_lines: final(self).output_lines,
                scroll: final(self).scroll,
                ..*old(self)
            }),
    {
        let ghost before = self.log();
        self.output_lines.push_back(line);
        let ghost snap = *self;
        assert(strings_view(self.output_lines@) =~= before.push(line@));
        while self.output_lines.len() > 1000
            invariant
                *self == (App { output_lines: self.output_lines, ..snap }),
                self.log() =~= keep_last(before.push(line@), self.log().len()),
                self.log().len() >= 1000 || self.log().len() == before.len() + 1,
            decreases self.output_lines@.len(),
        {
            let ghost prev = self.log();
            let _ = self.output_lines.pop_front();
            assert(self.log() =~= prev.skip(1));
            assert(self.log() =~= keep_last(before.push(line@), self.log().len()));
        }
        proof {
            if before.push(line@).len() <= 1000 {
                assert(self.log().len() == before.len() + 1);
            }
        }
        let n = self.output_lines.len();
        self.scroll = if n >= 1 { n - 1 } else { 0 };
    }

    pub fn add_arrow_message(&mut self, msg: &str)
        ensures
            final(self).log() == log_after(old(self).log(), "[arrow] "@ + msg@),
            final(self).scroll == last_index(final(self).log().len()),
            *final(self) == (App {
                output_lines: final(self).output_lines,
                scroll: final(self).scroll,
                ..*old(self)
            }),
    {
        self.add_output(concat_str("[arrow] ", msg));
    }

    pub fn add_user_message(&mut self, msg: &str)
        ensures
            final(self).log() == log_after(old(self).log(), "> "@ + msg@),
            final(self).scroll == last_index(final(self).log().len()),
            *final(self) == (App {
                output_lines: final(self).output_lines,
                scroll: final(self).scroll,
                ..*old(self)
            }),
    {
        self.add_output(concat_str("> ", msg));
    }

    pub fn add_system_message(&mut self, msg: &str)
        ensures
            final(self).log() == log_after(old(self).log(), "[system] "@ + msg@),
            final(self).scroll == last_index(final(self).log().len()),
            *final(self) == (App {
                output_lines: final(self).output_lines,
                scroll: final(self).scroll,
                ..*old(self)
            }),
    {
        self.add_output(concat_str("[system] ", msg));
    }

    pub fn add_error_message(&mut self, msg: &str)
        ensures
            final(self).log() == log_after(old(self).log(), "[error] "@ + msg@),
            final(self).scroll == last_index(final(self).log().len()),
            *final(self) == (App {
                output_lines: final(self).output_lines,
                scroll: final(self).scroll,
                ..*old(self)
            }),
    {
        self.add_output(concat_str("[error] ", msg));
    }

    /// Insert `c` at the cursor, which moves past it.
    pub fn insert_char(&mut self, c: char)
        requires
            old(self).wf(),
            byte_len(old(self).input@) + 4 <= usize::MAX,
        ensures
            final(self).wf(),
            final(self).input@ == old(self).input@.take(old(self).cursor_index()) + seq![c]
                + old(self).input@.skip(old(self).cursor_index()),
            final(self).cursor_index() == old(self).cursor_index() + 1,
            *final(self) == (App { input: final(self).input, cursor_pos: final(self).cursor_pos, ..*old(self) }),
    {
        let r = insert_at(&self.input, self.cursor_pos, c);
        self.input = r.text;
        self.cursor_pos = r.cursor;
        proof {
            crate::line_edit::lemma_boundary_unique(self.input@, self.cursor_pos as nat, old(self).cursor_index() + 1);
        }
    }

    /// Delete the character before the cursor, which moves back over it.
    pub fn backspace(&mut self)
        requires
            old(self).wf(),
        ensures
            final(self).wf(),
            old(self).cursor_pos == 0 ==> final(self).input@ == old(self).input@ && final(self).cursor_pos == 0,
            old(self).cursor_pos > 0 ==> final(self).input@ == old(self).input@.take(old(self).cursor_index() - 1)
                + old(self).input@.skip(old(self).cursor_index()) && final(self).cursor_index()
                == old(self).cursor_index() - 1,
            *final(self) == (App { input: final(self).input, cursor_pos: final(self).cursor_pos, ..*old(self) }),
    {
        if self.cursor_pos > 0 {
            let r = remove_before(&self.input, self.cursor_pos);
            self.input = r.text;
            self.cursor_pos = r.cursor;
            proof {
                crate::line_edit::lemma_boundary_unique(self.input@, self.cursor_pos as nat, old(self).cursor_index() - 1);
            }
        }
    }

    /// Delete the character at the cursor.
    pub fn delete(&mut self)
        requires
            old(self).wf(),
        ensures
            final(self).wf(),
            final(self).cursor_pos == old(self).cursor_pos,
            old(self).cursor_index() < old(self).input@.len() ==> final(self).input@ == old(self).input@.take(
                old(self).cursor_index(),
            ) + old(self).input@.skip(old(self).cursor_index() + 1),
            old(self).cursor_index() >= old(self).input@.len() ==> final(self).input@ == old(self).input@,
            *final(self) == (App { input: final(self).input, ..*old(self) }),
    {
        let total = byte_count(self.input.as_str());
        if self.cursor_pos < total {
            let r = remove_at(&self.input, self.cursor_pos);
            self.input = r.text;
            proof {
                crate::line_edit::lemma_boundary_unique(self.input@, self.cursor_pos as nat, old(self).cursor_index());
            }
        } else {
            proof {
                crate::line_edit::lemma_boundary_unique(self.input@, self.cursor_pos as nat, self.cursor_index());
                if self.cursor_index() < self.input@.len() {
                    crate::line_edit::lemma_byte_len_prefix_lt(
                        self.input@,
                        self.cursor_index(),
                        self.input@.len() as int,
                    );
                    assert(self.input@.take(self.input@.len() as int) =~= self.input@);
                }
            }
        }
    }

    /// Move the cursor one character left.
    pub fn move_cursor_left(&mut self)
        requires
            old(self).wf(),
        ensures
            final(self).wf(),
            old(self).cursor_pos == 0 ==> final(self).cursor_pos == 0,
            old(self).cursor_pos > 0 ==> final(self).cursor_index() == old(self).cursor_index() - 1,
            *final(self) == (App { cursor_pos: final(self).cursor_pos, ..*old(self) }),
    {
        if self.cursor_pos > 0 {
            let k = boundary_left(&self.input, self.cursor_pos);
            self.cursor_pos = k;
            proof {
                crate::line_edit::lemma_boundary_unique(self.input@, k as nat, old(self).cursor_index() - 1);
            }
        }
    }

    /// Move the cursor one character right.
    pub fn move_cursor_right(&mut self)
        requires
            old(self).wf(),
        ensures
            final(self).wf(),
            old(self).cursor_index() < old(self).input@.len() ==> final(self).cursor_index() == old(
                self,
            ).cursor_index() + 1,
            old(self).cursor_index() >= old(self).input@.len() ==> final(self).cursor_pos == old(self).cursor_pos,
            *final(self) == (App { cursor_pos: final(self).cursor_pos, ..*old(self) }),
    {
        let total = byte_count(self.input.as_str());
        if self.cursor_pos < total {
            let k = boundary_right(&self.input, self.cursor_pos);
            proof {
                let i = old(self).cursor_index();
                crate::line_edit::lemma_boundary_unique(self.input@, self.cursor_pos as nat, i);
                if i >= self.input@.len() {
                    assert(self.input@.take(i) =~= self.input@);
                }
                crate::line_edit::lemma_boundary_unique(self.input@, k as nat, i + 1);
            }
            self.cursor_pos = k;
        } else {
            proof {
                let i = old(self).cursor_index();
                crate::line_edit::lemma_boundary_unique(self.input@, self.cursor_pos as nat, i);
                if i < self.input@.len() {
                    crate::line_edit::lemma_byte_len_prefix_lt(self.input@, i, self.input@.len() as int);
                    assert(self.input@.take(self.input@.len() as int) =~= self.input@);
                }
            }
        }
    }

    /// Move the cursor to the start of the input.
    pub fn move_cursor_start(&mut self)
        ensures
            final(self).wf(),
            final(self).cursor_pos == 0,
            *final(self) == (App { cursor_pos: 0, ..*old(self) }),
    {
        self.cursor_pos = 0;
        proof {
            lemma_start_is_boundary(self.input@);
        }
    }

    /// Move the cursor to the end of the input.
    pub fn move_cursor_end(&mut self)
        ensures
            final(self).wf(),
            final(self).cursor_pos == byte_len(old(self).input@),
            *final(self) == (App { cursor_pos: final(self).cursor_pos, ..*old(self) }),
    {
        self.cursor_pos = byte_count(self.input.as_str());
        proof {
            lemma_end_is_boundary(self.input@);
        }
    }

    /// Empty the input.
    pub fn clear_input(&mut self)
        ensures
            final(self).wf(),
            final(self).input@.len() == 0,
            final(self).cursor_pos == 0,
            *final(self) == (App { input: final(self).input, cursor_pos: 0, ..*old(self) }),
    {
        self.input = String::new();
        self.cursor_pos = 0;
        proof {
            lemma_start_is_boundary(self.input@);
        }
    }

    /// The input, which is emptied.
    pub fn take_input(&mut self) -> (s: String)
        ensures
            s == old(self).input,
            final(self).wf(),
            final(self).input@.len() == 0,
            final(self).cursor_pos == 0,
            *final(self) == (App { input: final(self).input, cursor_pos: 0, ..*old(self) }),
    {
        let input = self.input.clone();
        self.clear_input();
        input
    }

    /// The pending command, which is cleared.
    pub fn take_pending_command(&mut self) -> (c: Option<CommandAction>)
        ensures
            c == old(self).pending_command,
            *final(self) == (App { pending_command: None, ..*old(self) }),
    {
        self.pending_command.take()
    }

    /// Scroll up by `amount` lines, stopping at the top.
    pub fn scroll_up(&mut self, amount: usize)
        ensures
            final(self).scroll == if old(self).scroll >= amount { (old(self).scroll - amount) as usize } else { 0 },
            *final(self) == (App { scroll: final(self).scroll, ..*old(self) }),
    {
        self.scroll = if self.scroll >= amount { self.scroll - amount } else { 0 };
    }

    /// Scroll down by `amount` lines, stopping at the last line.
    pub fn scroll_down(&mut self, amount: usize)
        ensures
            ({
                let max = last_index(old(self).output_lines@.len());
                final(self).scroll == if old(self).scroll + amount < max { old(self).scroll + amount } else { max as int }
            }),
            *final(self) == (App { scroll: final(self).scroll, ..*old(self) }),
    {
        let n = self.output_lines.len();
        let max_scroll: usize = if n >= 1 { n - 1 } else { 0 };
        self.scroll = if self.scroll < max_scroll && amount < max_scroll - self.scroll {
            self.scroll + amount
        } else {
            max_scroll
        };
    }

    /// The log joined with newlines.
    pub fn get_output_text(&self) -> (s: String)
        ensures
            s@ == join_lines(self.log()),
    {
        let mut s = String::new();
        let mut i: usize = 0;
        while i < self.output_lines.len()
            invariant
                i <= self.output_lines@.len(),
                s@ == join_lines(self.log().take(i as int)),
            decreases self.output_lines@.len() - i,
        {
            let ghost before = s@;
            if i > 0 {
                s = concat_str(s.as_str(), "\n");
            }
            s = concat_str(s.as_str(), self.output_lines[i].as_str());
            assert(self.log().take(i + 1).drop_last() =~= self.log().take(i as int));
            i = i + 1;
        }
        assert(self.log().take(i as int) =~= self.log());
        s
    }

    pub fn set_status(&mut self, status: String)
        ensures
            *final(self) == (App { status, ..*old(self) }),
    {
        self.status = status;
    }

    /// Mark the front end for exit.
    pub fn exit(&mut self)
        ensures
            *final(self) == (App { should_exit: true, ..*old(self) }),
    {
        self.should_exit = true;
    }

    pub fn should_exit(&self) -> (b: bool)
        ensures
            b == self.should_exit,
    {
        self.should_exit
    }
}

/// Lines joined with newlines.
pub open spec fn join_lines(lines: Seq<Seq<char>>) -> Seq<char>
    decreases lines.len(),
{
    if lines.len() == 0 {
        Seq::empty()
    } else if lines.len() == 1 {
        lines[0]
    } else {
        join_lines(lines.drop_last()) + "\n"@ + lines.last()
    }
}

/// The log never holds more than 1000 lines, and the newest line is last.
pub proof fn law_log_bounded(log: Seq<Seq<char>>, line: Seq<char>)
    requires
        log.len() <= 1000,
    ensures
        log_after(log, line).len() <= 1000,
        log_after(log, line).last() == line,
        log.len() < 1000 ==> log_after(log, line) == log.push(line),
{
}

} // verus!
