//! What the agent's terminal interface shows, as text: the status bar, the
//! label and lines of each transcript entry, the permission dialog, and
//! where the input cursor stands on screen. Laying out and drawing the widgets is the host's part.

use vstd::prelude::*;
use crate::text::{chars_of, concat_str, lines_spec, strings_view, text_lines};
use crate::tui_app::{App, AppState, DisplayMessage};
use crate::types::Role;

verus! {

/// The renderer of the interface.
#[derive(Debug, Clone, Copy)]
pub struct Ui;

/// How many columns `unicode-width` gives a character, `None` for a control
/// character.
pub uninterp spec fn char_columns(c: char) -> Option<usize>;

/// `UnicodeWidthChar::width(c)` of `unicode-width`: `None` exactly for the
/// control characters below U+0020 and from U+007F to U+009F, one column for
/// the other ASCII characters, and never more than three columns. The width
/// of the other characters, read from the crate's tables, is not stated here.
#[verifier::external_body]
fn columns_of(c: char) -> (r: Option<usize>)
    ensures
        r == char_columns(c),
        r is None <==> ((c as u32) < 0x20 || (0x7F <= (c as u32) && (c as u32) < 0xA0)),
        0x20 <= (c as u32) && (c as u32) < 0x7F ==> r == Some(1usize),
        r matches Some(w) ==> w <= 3,
{
    unicode_width::UnicodeWidthChar::width(c)
}

/// Columns a character takes on screen: its width, or one for a control
/// character.
pub open spec fn shown_columns(c: char) -> nat {
    match char_columns(c) {
        Some(w) => w as nat,
        None => 1,
    }
}

/// Columns taken by the first characters of the input.
pub open spec fn columns_before(s: Seq<char>) -> nat
    decreases s.len(),
{
    if s.len() == 0 {
        0
    } else {
        columns_before(s.drop_last()) + shown_columns(s.last())
    }
}

proof fn lemma_columns_monotone(s: Seq<char>, k: int)
    requires
        0 <= k <= s.len(),
    ensures
        columns_before(s.take(k)) <= columns_before(s),
    decreases s.len() - k,
{
    if k < s.len() {
        lemma_columns_monotone(s, k + 1);
        assert(s.take(k + 1).drop_last() =~= s.take(k));
    } else {
        assert(s.take(k) =~= s);
    }
}

impl Ui {
    pub fn new() -> (u: Self) {
        Ui
    }

    /// The status bar: the status message when there is one, otherwise the
    /// model with what the interface is doing.
    pub fn status_line(&self, app: &App) -> (s: String)
        ensures
            s@ == match app.status_message {
                Some(m) => m@,
                None => if app.state == AppState::Processing {
                    "Processing... | Model: "@ + app.current_model@
                } else {
                    "Ready | Model: "@ + app.current_model@ + " | Ctrl+H for help"@
                },
            },
    {
        match &app.status_message {
            Some(m) => m.clone(),
            None => {
                if app.state == AppState::Processing {
                    concat_str("Processing... | Model: ", app.current_model.as_str())
                } else {
                    let a = concat_str("Ready | Model: ", app.current_model.as_str());
                    concat_str(a.as_str(), " | Ctrl+H for help")
                }
            },
        }
    }

    /// The label of a transcript entry.
    pub fn message_label(&self, role: Role, is_error: bool) -> (s: &'static str)
        ensures
            s@ == match role {
                Role::User => "You"@,
                Role::Assistant => "AI"@,
                Role::System => if is_error { "Error"@ } else { "System"@ },
                _ => "Unknown"@,
            },
    {
        match role {
            Role::User => "You",
            Role::Assistant => "AI",
            Role::System => if is_error { "Error" } else { "System" },
            _ => "Unknown",
        }
    }

    /// The screen column of the input cursor, relative to the input's first
    /// column: the columns of the characters before it. `None` when that
    /// does not fit in a terminal coordinate.
    pub fn cursor_column(&self, input: &str, cursor_position: usize) -> (r: Option<u16>)
        ensures
            ({
                let n = if (cursor_position as int) < input@.len() { cursor_position as int } else { input@.len() as int };
                let cols = columns_before(input@.take(n));
                r == if cols <= u16::MAX { Some(cols as u16) } else { None::<u16> }
            }),
    {
        let cs = chars_of(input);
        let n: usize = if cursor_position < cs.len() { cursor_position } else { cs.len() };
        let mut total: u64 = 0;
        let mut i: usize = 0;
        assert(cs@.take(0) =~= Seq::<char>::empty());
        while i < n
            invariant
                i <= n <= cs@.len(),
                cs@ == input@,
                n as int == if (cursor_position as int) < input@.len() { cursor_position as int } else { input@.len() as int },
                total == columns_before(cs@.take(i as int)),
                total <= 65535,
            decreases n - i,
        {
            let w: usize = match columns_of(cs[i]) {
                Some(w) => w,
                None => 1,
            };
            assert(cs@.take(i + 1).drop_last() =~= cs@.take(i as int));
            total = total + w as u64;
            i = i + 1;
            if total > 65535 {
                proof {
                    lemma_columns_monotone(cs@.take(n as int), i as int);
                    assert(cs@.take(n as int).take(i as int) =~= cs@.take(i as int));
                }
                return None;
            }
        }
        Some(total as u16)
    }
}

/// The first lines of an argument listing, at most `n`.
pub open spec fn first_lines(s: Seq<char>, n: nat) -> Seq<Seq<char>> {
    let ls = lines_spec(s);
    if ls.len() <= n { ls } else { ls.take(n as int) }
}

pub open spec fn indented(ls: Seq<Seq<char>>, prefix: Seq<char>) -> Seq<Seq<char>> {
    ls.map_values(|l: Seq<char>| prefix + l)
}

/// The permission dialog: the tool, the permissions it needs when there
/// are any, the first ten lines of its arguments, and the four answers.
pub open spec fn permission_text(tool: Seq<char>, permissions: Seq<Seq<char>>, args: Seq<char>) -> Seq<
    Seq<char>,
> {
    let head = seq![Seq::<char>::empty(), "Tool: "@ + tool, Seq::<char>::empty()];
    let perms = if permissions.len() == 0 {
        Seq::<Seq<char>>::empty()
    } else {
        seq!["Required Permissions:"@] + indented(permissions, "  \u{2022} "@) + seq![Seq::<char>::empty()]
    };
    head + perms + seq!["Arguments:"@] + indented(first_lines(args, 10), "  "@) + seq![
        Seq::<char>::empty(),
        "Options:"@,
        "  [1] Yes (allow once)"@,
        "  [2] Yes, for the remainder of this session"@,
        "  [3] Always allow"@,
        "  [4] No (deny)"@,
    ]
}

/// Pushes `prefix` before each of `items` onto `v`.
fn push_indented(v: &mut Vec<String>, items: &Vec<String>, limit: usize, prefix: &str)
    ensures
        ({
            let its = strings_view(items@);
            let taken = if its.len() <= limit { its } else { its.take(limit as int) };
            strings_view(final(v)@) == strings_view(old(v)@) + indented(taken, prefix@)
        }),
{
    let ghost start = strings_view(v@);
    let ghost its = strings_view(items@);
    let n: usize = if items.len() <= limit { items.len() } else { limit };
    let mut i: usize = 0;
    while i < n
        invariant
            i <= n <= items.len(),
            n == (if items.len() <= limit { items.len() } else { limit }),
            its == strings_view(items@),
            strings_view(v@) == start + indented(its.take(i as int), prefix@),
        decreases n - i,
    {
        let line = concat_str(prefix, items[i].as_str());
        let ghost prev = v@;
        v.push(line);
        i = i + 1;
        proof {
            assert(strings_view(v@) =~= strings_view(prev).push(prefix@ + its[i - 1]));
            assert(indented(its.take(i as int), prefix@) =~= indented(its.take(i - 1), prefix@).push(
                prefix@ + its[i - 1],
            ));
        }
    }
    proof {
        let taken = if its.len() <= limit { its } else { its.take(limit as int) };
        assert(its.take(n as int) =~= taken);
    }
}

impl Ui {
    /// The lines of a transcript entry below its header: the lines of its
    /// content, then an empty line.
    pub fn message_body(&self, msg: &DisplayMessage) -> (v: Vec<String>)
        ensures
            strings_view(v@) == lines_spec(msg.content@).push(Seq::<char>::empty()),
    {
        let mut v = text_lines(msg.content.as_str());
        let ghost prev = v@;
        v.push(String::new());
        proof {
            assert(strings_view(v@) =~= strings_view(prev).push(Seq::<char>::empty()));
        }
        v
    }

    /// The lines of the permission dialog for a call of `tool` that needs
    /// `permissions`, with `args` its arguments as pretty-printed JSON.
    pub fn permission_dialog_lines(&self, tool: &str, permissions: &Vec<String>, args: &str) -> (v: Vec<
        String,
    >)
        ensures
            strings_view(v@) == permission_text(tool@, strings_view(permissions@), args@),
    {
        broadcast use crate::text::lemma_strings_push;

        let mut v: Vec<String> = Vec::new();
        v.push(String::new());
        v.push(concat_str("Tool: ", tool));
        v.push(String::new());
        if permissions.len() > 0 {
            v.push(String::from_str("Required Permissions:"));
            push_indented(&mut v, permissions, permissions.len(), "  \u{2022} ");
            v.push(String::new());
        }
        v.push(String::from_str("Arguments:"));
        let arg_lines = text_lines(args);
        push_indented(&mut v, &arg_lines, 10, "  ");
        v.push(String::new());
        v.push(String::from_str("Options:"));
        v.push(String::from_str("  [1] Yes (allow once)"));
        v.push(String::from_str("  [2] Yes, for the remainder of this session"));
        v.push(String::from_str("  [3] Always allow"));
        v.push(String::from_str("  [4] No (deny)"));
        proof {
            let ps = strings_view(permissions@);
            assert(ps.take(ps.len() as int) =~= ps);
            assert(strings_view(v@) =~= permission_text(tool@, ps, args@));
        }
        v
    }
}

} // verus!
