//! The text of the project front end's screen: the titles of the output and
//! input panes, where the input cursor goes, and the contents of the
//! pending-changes and iteration-limit dialogs. Laying them out and drawing
//! them is the terminal's part.

use vstd::prelude::*;
use crate::cli_app::{App, ConfirmationDialog, ContinuationDialog};
use crate::text::{concat_str, decimal, decimal_string, lines_spec, strings_view, text_lines};

verus! {

/// Title of the output pane: the project and the session.
pub fn output_title(app: &App) -> (s: String)
    ensures
        s@ == "Arrow Coder  "@ + app.project_name@ + " (Session: "@ + app.session_id@ + ")"@,
{
    let a = concat_str("Arrow Coder  ", app.project_name.as_str());
    let b = concat_str(a.as_str(), " (Session: ");
    let c = concat_str(b.as_str(), app.session_id.as_str());
    concat_str(c.as_str(), ")")
}

/// What the input pane's title reports: the Ctrl+C count while a
/// cancellation is under way, otherwise the status.
pub open spec fn input_status(app: App) -> Seq<char> {
    if app.cancel_counter > 0 {
        "Cancelling... ("@ + decimal(app.cancel_counter as nat) + ")"@
    } else {
        app.status@
    }
}

/// Title of the input pane.
pub fn input_title(app: &App) -> (s: String)
    ensures
        s@ == "Input | "@ + input_status(*app),
{
    let status = if app.cancel_counter > 0 {
        let n = decimal_string(app.cancel_counter as u64);
        let a = concat_str("Cancelling... (", n.as_str());
        concat_str(a.as_str(), ")")
    } else {
        app.status.clone()
    };
    concat_str("Input | ", status.as_str())
}

/// The input line as shown: a prompt, then the input.
pub fn input_line(app: &App) -> (s: String)
    ensures
        s@ == "> "@ + app.input@,
{
    concat_str("> ", app.input.as_str())
}

/// Where the terminal cursor goes in an input pane at `x`, `y` of `width`
/// by `height`: past the border and the prompt, `cursor_pos` columns in
/// (narrowed to `u16` as is), and only while that lies inside the borders.
pub fn input_cursor(x: u16, y: u16, width: u16, height: u16, cursor_pos: usize) -> (r: Option<(u16, u16)>)
    requires
        x + 3 + (cursor_pos as u16) <= u16::MAX,
        y + 1 <= u16::MAX,
        1 <= x + width <= u16::MAX,
        1 <= y + height <= u16::MAX,
    ensures
        ({
            let cx = x + 3 + (cursor_pos as u16);
            let cy = y + 1;
            r == if cx >= x + 1 && cx < x + width - 1 && cy >= y + 1 && cy < y + height - 1 {
                Some((cx as u16, cy as u16))
            } else {
                None::<(u16, u16)>
            }
        }),
{
    let cursor_x: u16 = x + 1 + 2 + cursor_pos as u16;
    let cursor_y: u16 = y + 1;
    if cursor_x >= x + 1 && cursor_x < x + width - 1 && cursor_y >= y + 1 && cursor_y < y + height - 1 {
        Some((cursor_x, cursor_y))
    } else {
        None
    }
}

/// Title of the pending-changes dialog.
pub fn confirmation_title(dialog: &ConfirmationDialog) -> (s: String)
    ensures
        s@ == "⚠️  Pending Changes - "@ + decimal(dialog.files.len() as nat) + " files"@,
{
    let n = decimal_string(dialog.files.len() as u64);
    let a = concat_str("⚠️  Pending Changes - ", n.as_str());
    concat_str(a.as_str(), " files")
}

/// A numbered entry of the file list.
pub open spec fn file_entry(i: nat, file: Seq<char>) -> Seq<char> {
    "  "@ + decimal(i + 1) + ". "@ + file
}

pub open spec fn file_entries(files: Seq<Seq<char>>) -> Seq<Seq<char>> {
    Seq::new(files.len(), |i: int| file_entry(i as nat, files[i]))
}

/// The body of the pending-changes dialog: the numbered files, then the
/// lines of the preview when there is one.
pub open spec fn confirmation_body(files: Seq<Seq<char>>, preview: Option<Seq<char>>) -> Seq<Seq<char>> {
    let head = seq!["Files to modify:"@, Seq::<char>::empty()] + file_entries(files);
    match preview {
        Some(p) => head + seq![Seq::<char>::empty(), "Preview:"@] + lines_spec(p),
        None => head,
    }
}

pub open spec fn opt_text(o: Option<String>) -> Option<Seq<char>> {
    match o {
        Some(s) => Some(s@),
        None => None,
    }
}

/// The lines of the pending-changes dialog's body.
pub fn confirmation_lines(dialog: &ConfirmationDialog) -> (v: Vec<String>)
    ensures
        strings_view(v@) == confirmation_body(strings_view(dialog.files@), opt_text(dialog.preview)),
{
    let mut v: Vec<String> = Vec::new();
    v.push(String::from_str("Files to modify:"));
    v.push(String::new());
    let ghost files = strings_view(dialog.files@);
    let mut i: usize = 0;
    while i < dialog.files.len()
        invariant
            i <= dialog.files.len(),
            files == strings_view(dialog.files@),
            strings_view(v@) == seq!["Files to modify:"@, Seq::<char>::empty()] + file_entries(
                files.take(i as int),
            ),
        decreases dialog.files.len() - i,
    {
        let num = decimal_string((i as u64) + 1);
        let a = concat_str("  ", num.as_str());
        let b = concat_str(a.as_str(), ". ");
        let line = concat_str(b.as_str(), dialog.files[i].as_str());
        proof {
            assert(line@ == file_entry(i as nat, files[i as int]));
        }
        let ghost prev = v@;
        v.push(line);
        i = i + 1;
        proof {
            assert(strings_view(v@) =~= strings_view(prev).push(file_entry((i - 1) as nat, files[i - 1])));
            assert(file_entries(files.take(i as int)) =~= file_entries(files.take(i - 1)).push(
                file_entry((i - 1) as nat, files[i - 1]),
            ));
            assert(strings_view(v@) =~= seq!["Files to modify:"@, Seq::<char>::empty()]
                + file_entries(files.take(i as int)));
        }
    }
    proof {
        assert(files.take(dialog.files.len() as int) =~= files);
    }
    match &dialog.preview {
        Some(p) => {
            v.push(String::new());
            v.push(String::from_str("Preview:"));
            let ls = text_lines(p.as_str());
            let ghost before = strings_view(v@);
            let mut k: usize = 0;
            while k < ls.len()
                invariant
                    k <= ls.len(),
                    strings_view(v@) == before + strings_view(ls@).take(k as int),
                decreases ls.len() - k,
            {
                let ghost prev = v@;
                let item = ls[k].clone();
                v.push(item);
                k = k + 1;
                proof {
                    assert(strings_view(v@) =~= strings_view(prev).push(ls@[k - 1]@));
                    assert(strings_view(ls@).take(k as int) =~= strings_view(ls@).take(k - 1).push(ls@[k - 1]@));
                    assert(strings_view(v@) =~= before + strings_view(ls@).take(k as int));
                }
            }
            proof {
                assert(strings_view(ls@).take(ls.len() as int) =~= strings_view(ls@));
                assert(strings_view(v@) =~= confirmation_body(files, opt_text(dialog.preview)));
            }
        },
        None => {},
    }
    v
}

/// The iteration count as `current/max`.
pub open spec fn iteration_text(d: ContinuationDialog) -> Seq<char> {
    decimal(d.current_iteration as nat) + "/"@ + decimal(d.max_iterations as nat)
}

/// The description of the iteration-limit dialog: the count reached and
/// the progress so far.
pub fn continuation_description(dialog: &ContinuationDialog) -> (s: String)
    ensures
        s@ == "The task has reached the maximum number of iterations ("@ + iteration_text(*dialog)
            + ").\n\nProgress:\n"@ + dialog.progress@,
{
    let count = iteration_count(dialog);
    let a = concat_str("The task has reached the maximum number of iterations (", count.as_str());
    let b = concat_str(a.as_str(), ").\n\nProgress:\n");
    concat_str(b.as_str(), dialog.progress.as_str())
}

fn iteration_count(dialog: &ContinuationDialog) -> (s: String)
    ensures
        s@ == iteration_text(*dialog),
{
    let cur = decimal_string(dialog.current_iteration as u64);
    let max = decimal_string(dialog.max_iterations as u64);
    let a = concat_str(cur.as_str(), "/");
    concat_str(a.as_str(), max.as_str())
}

/// The status line of the iteration-limit dialog.
pub fn continuation_status(dialog: &ContinuationDialog) -> (s: String)
    ensures
        s@ == "Iteration "@ + iteration_text(*dialog),
{
    let count = iteration_count(dialog);
    concat_str("Iteration ", count.as_str())
}

} // verus!
