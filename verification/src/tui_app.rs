//! State of the agent's terminal interface: the transcript, the input line
//! with its history, the agent's progress, and the permission prompt, with
//! what each event does to them.
//!
//! Drawing, reading the terminal, running the agent and answering the
//! agent's permission requests are the host's part: it feeds events here and
//! carries out the returned requests.

use vstd::prelude::*;
use crate::agent::ascii_lower;
use crate::cli_event::lower_word;
use crate::commands::{builtin_commands_spec, help_text, slash_commands_help};
use crate::text::{
    chars_of, concat_str, decimal, decimal_string, is_whitespace, is_ws, same_text, starts_with, string_from_chars,
    strings_view, trim, trim_chars,
};
use crate::types::Role;
use crate::session_log::epoch_millis;
use crate::vibe::VibeConfig;

verus! {

/// Where the interface is.
#[derive(Debug, Clone, Copy, PartialEq, Eq, Structural)]
pub enum AppState {
    Running,
    Help,
    /// Waiting for the model.
    Processing,
    /// Asking the user to approve a tool call.
    ConfirmingPermission,
    Quitting,
}

/// What the running agent reports.
#[derive(Debug, Clone)]
pub enum AgentEvent {
    /// A streamed piece of the assistant's reply.
    AssistantChunk(String),
    /// The assistant's reply, whole.
    AssistantMessage(String),
    /// A tool started.
    ToolStart(String),
    /// A tool finished: name and result.
    ToolComplete(String, String),
    /// Progress of a tool: name and message.
    ToolStream(String, String),
    TurnComplete,
    Error(String),
}

/// The user's answer to a permission request.
#[derive(Debug, Clone, Copy, PartialEq, Eq, Structural)]
pub enum ApprovalResponse {
    Yes,
    No,
}

/// How long an approval lasts.
#[derive(Debug, Clone, Copy, PartialEq, Eq, Structural)]
pub enum ApprovalType {
    Once,
    Session,
    Always,
}

/// The keys the interface reacts to.
#[derive(Debug, Clone, Copy, PartialEq, Eq, Structural)]
pub enum TuiKey {
    Char(char),
    Enter,
    Backspace,
    Delete,
    Left,
    Right,
    Up,
    Down,
    Home,
    End,
    PageUp,
    PageDown,
    Tab,
    Esc,
    Other,
}

/// A key press with its modifiers.
#[derive(Debug, Clone, Copy, PartialEq, Eq, Structural)]
pub struct KeyPress {
    pub code: TuiKey,
    pub ctrl: bool,
    pub shift: bool,
}

/// An interface event.
#[derive(Debug, Clone)]
pub enum Event {
    Tick,
    Key(KeyPress),
    Mouse,
    Resize(u16, u16),
    Quit,
    /// Cancel the running task.
    Cancel,
    Submit(String),
    ScrollUp,
    ScrollDown,
    ToggleHelp,
    /// Copy the last reply.
    Copy,
    PermissionApproved,
    PermissionDenied,
}

/// The event a key press stands for: Ctrl+C cancels, Ctrl+Shift+C copies,
/// Ctrl+D and Ctrl+Q quit, Ctrl+H toggles help, plain Up/Down and the Page
/// keys scroll; any other key is passed on.
pub open spec fn key_event(k: KeyPress) -> Event {
    match k.code {
        TuiKey::Char(c) => if c == 'c' && k.ctrl && !k.shift {
            Event::Cancel
        } else if c == 'C' && k.ctrl && k.shift {
            Event::Copy
        } else if (c == 'd' || c == 'q') && k.ctrl && !k.shift {
            Event::Quit
        } else if c == 'h' && k.ctrl && !k.shift {
            Event::ToggleHelp
        } else {
            Event::Key(k)
        },
        TuiKey::Up => if !k.ctrl { Event::ScrollUp } else { Event::Key(k) },
        TuiKey::Down => if !k.ctrl { Event::ScrollDown } else { Event::Key(k) },
        TuiKey::PageUp => Event::ScrollUp,
        TuiKey::PageDown => Event::ScrollDown,
        _ => Event::Key(k),
    }
}

/// The event a key press stands for.
pub fn translate_key(k: KeyPress) -> (e: Event)
    ensures
        e == key_event(k),
{
    match k.code {
        TuiKey::Char(c) => {
            if c == 'c' && k.ctrl && !k.shift {
                Event::Cancel
            } else if c == 'C' && k.ctrl && k.shift {
                Event::Copy
            } else if (c == 'd' || c == 'q') && k.ctrl && !k.shift {
                Event::Quit
            } else if c == 'h' && k.ctrl && !k.shift {
                Event::ToggleHelp
            } else {
                Event::Key(k)
            }
        },
        TuiKey::Up => if !k.ctrl { Event::ScrollUp } else { Event::Key(k) },
        TuiKey::Down => if !k.ctrl { Event::ScrollDown } else { Event::Key(k) },
        TuiKey::PageUp => Event::ScrollUp,
        TuiKey::PageDown => Event::ScrollDown,
        _ => Event::Key(k),
    }
}

/// A transcript entry.
#[derive(Debug, Clone)]
pub struct DisplayMessage {
    pub role: Role,
    pub content: String,
    /// When it was added, in milliseconds since the epoch.
    pub timestamp: i64,
    pub is_error: bool,
}

impl DisplayMessage {
    /// An entry stamped with the current time.
    pub fn new(role: Role, content: String) -> (m: Self)
        ensures
            m.role == role,
            m.content == content,
            !m.is_error,
    {
        DisplayMessage { role, content, timestamp: epoch_millis(), is_error: false }
    }

    /// An error entry, shown as a system message.
    pub fn error(content: String) -> (m: Self)
        ensures
            m.role == Role::System,
            m.content == content,
            m.is_error,
    {
        DisplayMessage { role: Role::System, content, timestamp: epoch_millis(), is_error: true }
    }
}

/// A transcript entry without its time stamp.
pub open spec fn entry(m: DisplayMessage) -> (Role, Seq<char>, bool) {
    (m.role, m.content@, m.is_error)
}

pub open spec fn entries(ms: Seq<DisplayMessage>) -> Seq<(Role, Seq<char>, bool)> {
    ms.map_values(|m: DisplayMessage| entry(m))
}

/// What the host must do after an event.
#[derive(Debug, Clone)]
pub enum HostRequest {
    Nothing,
    /// Answer the pending permission request.
    Respond(ApprovalResponse, ApprovalType),
    /// Abort the running agent task.
    AbortTask,
    /// Run a turn of the agent on this input.
    RunAgent(String),
}

/// The result of an event: the submitted text, the host's task, and agent
/// events to queue.
#[derive(Debug, Clone)]
pub struct EventOutcome {
    pub submitted: Option<String>,
    pub request: HostRequest,
    pub queued: Vec<AgentEvent>,
}

/// The interface state.
pub struct App {
    pub state: AppState,
    pub messages: Vec<DisplayMessage>,
    pub input: String,
    /// Cursor position in `input`, in characters.
    pub cursor_position: usize,
    /// Lines scrolled up from the bottom.
    pub scroll_offset: usize,
    pub config: VibeConfig,
    pub show_help: bool,
    pub current_model: String,
    pub status_message: Option<String>,
    /// Tools running now.
    pub pending_tools: Vec<String>,
    /// An agent is attached.
    pub has_agent: bool,
    pub agent_running: bool,
    /// A permission request waits for an answer.
    pub pending_permission: bool,
    /// A slash command waiting to be run.
    pub pending_command: Option<String>,
    /// An agent task is running.
    pub has_task: bool,
    pub input_history: Vec<String>,
    /// Position in the history while browsing it.
    pub input_history_index: Option<usize>,
    /// The input saved when history browsing began.
    pub input_draft: String,
    pub clipboard_content: Option<String>,
}

/// The transcript after an entry is added.
pub open spec fn with_entry(a: App, role: Role, content: Seq<char>, is_error: bool) -> Seq<(Role, Seq<char>, bool)> {
    entries(a.messages@).push((role, content, is_error))
}

pub open spec fn reply_set(a: App, b: App, content: Seq<char>) -> bool {
    &&& (({
                let ms = entries(a.messages@);
                if ms.len() > 0 && ms.last().0 == Role::Assistant {
                    entries(b.messages@) == ms.update(ms.len() - 1, (Role::Assistant, content, ms.last().2))
                        && b.scroll_offset == a.scroll_offset
                } else {
                    entries(b.messages@) == ms.push((Role::Assistant, content, false))
                        && b.scroll_offset == 0
                }
            }))
    &&& (b == (App {
                messages: b.messages,
                scroll_offset: b.scroll_offset,
                ..a
            }))
}

pub open spec fn chunk_appended(a: App, b: App, chunk: Seq<char>) -> bool {
    &&& (({
                let ms = entries(a.messages@);
                if ms.len() > 0 && ms.last().0 == Role::Assistant {
                    entries(b.messages@) == ms.update(
                        ms.len() - 1,
                        (Role::Assistant, ms.last().1 + chunk, ms.last().2),
                    ) && b.scroll_offset == a.scroll_offset
                } else {
                    entries(b.messages@) == ms.push((Role::Assistant, chunk, false))
                        && b.scroll_offset == 0
                }
            }))
    &&& (b == (App {
                messages: b.messages,
                scroll_offset: b.scroll_offset,
                ..a
            }))
}

impl App {
    /// An interface for `config`: running, empty, showing the active model
    /// (`default` when none is set).
    pub fn new(config: VibeConfig) -> (a: Self)
        ensures
            a.state == AppState::Running,
            a.messages@.len() == 0,
            a.input@.len() == 0,
            a.cursor_position == 0,
            a.scroll_offset == 0,
            !a.show_help,
            a.current_model@ == match config.active_model {
                Some(m) => m@,
                None => "default"@,
            },
            a.status_message is None,
            a.pending_tools@.len() == 0,
            !a.has_agent && !a.agent_running && !a.pending_permission && !a.has_task,
            a.pending_command is None,
            a.input_history@.len() == 0,
            a.input_history_index is None,
            a.input_draft@.len() == 0,
            a.clipboard_content is None,
    {
        let current_model = match &config.active_model {
            Some(m) => m.clone(),
            None => String::from_str("default"),
        };
        App {
            state: AppState::Running,
            messages: Vec::new(),
            input: String::new(),
            cursor_position: 0,
            scroll_offset: 0,
            config,
            show_help: false,
            current_model,
            status_message: None,
            pending_tools: Vec::new(),
            has_agent: false,
            agent_running: false,
            pending_permission: false,
            pending_command: None,
            has_task: false,
            input_history: Vec::new(),
            input_history_index: None,
            input_draft: String::new(),
            clipboard_content: None,
        }
    }

    /// Attach an agent.
    pub fn with_agent_loop(self) -> (a: Self)
        ensures
            a == (App { has_agent: true, ..self }),
    {
        App { has_agent: true, ..self }
    }

    /// Take up a waiting permission request, if the host has one.
    pub fn process_permission_requests(&mut self, has_request: bool)
        ensures
            has_request ==> *final(self) == (App {
                pending_permission: true,
                state: AppState::ConfirmingPermission,
                ..*old(self)
            }),
            !has_request ==> *final(self) == *old(self),
    {
        if has_request {
            self.pending_permission = true;
            self.state = AppState::ConfirmingPermission;
        }
    }

    /// Answer the waiting permission request, if any, and go back to
    /// processing.
    pub fn handle_permission_response(&mut self, response: ApprovalResponse, approval_type: ApprovalType) -> (r: HostRequest)
        ensures
            *final(self) == (App { pending_permission: false, state: AppState::Processing, ..*old(self) }),
            old(self).pending_permission ==> (r matches HostRequest::Respond(x, y) && x == response && y == approval_type),
            !old(self).pending_permission ==> r is Nothing,
    {
        let r = if self.pending_permission {
            HostRequest::Respond(response, approval_type)
        } else {
            HostRequest::Nothing
        };
        self.pending_permission = false;
        self.state = AppState::Processing;
        r
    }

    /// Greet the user, naming the model.
    pub fn add_welcome_message(&mut self)
        ensures
            entries(final(self).messages@) == with_entry(
                *old(self),
                Role::System,
                "Welcome to Arrow Code! Model: "@ + old(self).current_model@
                    + "\nPress Ctrl+H for help, Ctrl+C to quit."@,
                false,
            ),
            *final(self) == (App { messages: final(self).messages, ..*old(self) }),
    {
        let a = concat_str("Welcome to Arrow Code! Model: ", self.current_model.as_str());
        let text = concat_str(a.as_str(), "\nPress Ctrl+H for help, Ctrl+C to quit.");
        self.messages.push(DisplayMessage::new(Role::System, text));
        assert(entries(self.messages@) =~= with_entry(
            *old(self),
            Role::System,
            "Welcome to Arrow Code! Model: "@ + old(self).current_model@ + "\nPress Ctrl+H for help, Ctrl+C to quit."@,
            false,
        ));
    }

    fn push_entry(&mut self, m: DisplayMessage)
        ensures
            entries(final(self).messages@) == entries(old(self).messages@).push(entry(m)),
            final(self).scroll_offset == 0,
            *final(self) == (App { messages: final(self).messages, scroll_offset: 0, ..*old(self) }),
    {
        self.messages.push(m);
        assert(entries(self.messages@) =~= entries(old(self).messages@).push(entry(m)));
        self.scroll_to_bottom();
    }

    pub fn add_user_message(&mut self, content: String)
        ensures
            entries(final(self).messages@) == with_entry(*old(self), Role::User, content@, false),
            *final(self) == (App { messages: final(self).messages, scroll_offset: 0, ..*old(self) }),
    {
        self.push_entry(DisplayMessage::new(Role::User, content));
    }

    pub fn add_assistant_message(&mut self, content: String)
        ensures
            entries(final(self).messages@) == with_entry(*old(self), Role::Assistant, content@, false),
            *final(self) == (App { messages: final(self).messages, scroll_offset: 0, ..*old(self) }),
    {
        self.push_entry(DisplayMessage::new(Role::Assistant, content));
    }

    pub fn add_system_message(&mut self, content: String)
        ensures
            entries(final(self).messages@) == with_entry(*old(self), Role::System, content@, false),
            *final(self) == (App { messages: final(self).messages, scroll_offset: 0, ..*old(self) }),
    {
        self.push_entry(DisplayMessage::new(Role::System, content));
    }

    pub fn add_error_message(&mut self, content: String)
        ensures
            entries(final(self).messages@) == with_entry(*old(self), Role::System, content@, true),
            *final(self) == (App { messages: final(self).messages, scroll_offset: 0, ..*old(self) }),
    {
        self.push_entry(DisplayMessage::error(content));
    }

    /// Replace the last entry's text when it is the assistant's, else add an
    /// assistant entry.
    pub fn update_last_assistant_message(&mut self, content: String)
        ensures
            reply_set(*old(self), *final(self), content@),

    {
        let n = self.messages.len();
        if n > 0 && self.messages[n - 1].role == Role::Assistant {
            let mut last = self.messages.pop().unwrap();
            last.content = content;
            self.messages.push(last);
            assert(entries(self.messages@) =~= entries(old(self).messages@).update(
                n - 1,
                (Role::Assistant, content@, entries(old(self).messages@).last().2),
            ));
        } else {
            self.add_assistant_message(content);
        }
    }

    /// Append a streamed piece to the last entry when it is the assistant's,
    /// else add an assistant entry with it.
    pub fn append_to_last_assistant_message(&mut self, chunk: &str)
        ensures
            chunk_appended(*old(self), *final(self), chunk@),

    {
        let n = self.messages.len();
        if n > 0 && self.messages[n - 1].role == Role::Assistant {
            let mut last = self.messages.pop().unwrap();
            last.content = concat_str(last.content.as_str(), chunk);
            self.messages.push(last);
            assert(entries(self.messages@) =~= entries(old(self).messages@).update(
                n - 1,
                (Role::Assistant, entries(old(self).messages@).last().1 + chunk@, entries(old(self).messages@).last().2),
            ));
        } else {
            self.add_assistant_message(String::from_str(chunk));
        }
    }

    pub fn scroll_to_bottom(&mut self)
        ensures
            *final(self) == (App { scroll_offset: 0, ..*old(self) }),
    {
        self.scroll_offset = 0;
    }

    /// One line further up, saturating.
    pub fn scroll_up(&mut self)
        ensures
            *final(self) == (App {
                scroll_offset: if old(self).scroll_offset < usize::MAX {
                    (old(self).scroll_offset + 1) as usize
                } else {
                    usize::MAX
                },
                ..*old(self)
            }),
    {
        self.scroll_offset = if self.scroll_offset < usize::MAX { self.scroll_offset + 1 } else { usize::MAX };
    }

    /// One line further down, stopping at the bottom.
    pub fn scroll_down(&mut self)
        ensures
            *final(self) == (App {
                scroll_offset: if old(self).scroll_offset > 0 { (old(self).scroll_offset - 1) as usize } else { 0 },
                ..*old(self)
            }),
    {
        self.scroll_offset = if self.scroll_offset > 0 { self.scroll_offset - 1 } else { 0 };
    }

    pub fn set_status(&mut self, status: String)
        ensures
            *final(self) == (App { status_message: Some(status), ..*old(self) }),
    {
        self.status_message = Some(status);
    }

    pub fn clear_status(&mut self)
        ensures
            *final(self) == (App { status_message: None, ..*old(self) }),
    {
        self.status_message = None;
    }

    pub fn clear_messages(&mut self)
        ensures
            final(self).messages@.len() == 0,
            *final(self) == (App { messages: final(self).messages, scroll_offset: 0, ..*old(self) }),
    {
        self.messages = Vec::new();
        self.scroll_offset = 0;
    }

    pub fn should_quit(&self) -> (b: bool)
        ensures
            b == (self.state == AppState::Quitting),
    {
        self.state == AppState::Quitting
    }
}

/// `s` with `c` inserted before character `k`, or appended when `k` is past
/// the end.
pub open spec fn insert_char_at(s: Seq<char>, k: int, c: char) -> Seq<char> {
    if k < s.len() {
        s.take(k) + seq![c] + s.skip(k)
    } else {
        s.push(c)
    }
}

fn chars_insert(s: &Vec<char>, k: usize, c: char) -> (r: Vec<char>)
    ensures
        r@ == insert_char_at(s@, k as int, c),
{
    let mut out: Vec<char> = Vec::new();
    let mut i: usize = 0;
    while i < s.len()
        invariant
            i <= s@.len(),
            out@ == if (i as int) <= (k as int) {
                s@.take(i as int)
            } else {
                s@.take(k as int) + seq![c] + s@.subrange(k as int, i as int)
            },
        decreases s@.len() - i,
    {
        if i == k {
            out.push(c);
        }
        out.push(s[i]);
        i = i + 1;
        assert(out@ =~= if (i as int) <= (k as int) {
            s@.take(i as int)
        } else {
            s@.take(k as int) + seq![c] + s@.subrange(k as int, i as int)
        });
    }
    if k >= s.len() {
        out.push(c);
        assert(out@ =~= s@.push(c));
    } else {
        assert(out@ =~= s@.take(k as int) + seq![c] + s@.skip(k as int));
    }
    out
}

fn chars_remove(s: &Vec<char>, k: usize) -> (r: Vec<char>)
    requires
        k < s@.len(),
    ensures
        r@ == s@.remove(k as int),
{
    let mut out: Vec<char> = Vec::new();
    let mut i: usize = 0;
    while i < s.len()
        invariant
            k < s@.len(),
            i <= s@.len(),
            out@ == if (k as int) < (i as int) {
                s@.take(i as int).remove(k as int)
            } else {
                s@.take(i as int)
            },
        decreases s@.len() - i,
    {
        if i != k {
            out.push(s[i]);
        }
        i = i + 1;
        assert(out@ =~= if (k as int) < (i as int) {
            s@.take(i as int).remove(k as int)
        } else {
            s@.take(i as int)
        });
    }
    assert(s@.take(i as int) =~= s@);
    out
}

/// White space directly before position `end`, counted backwards.
pub open spec fn ws_before(s: Seq<char>, end: int) -> int
    decreases end,
{
    if end > 0 && end <= s.len() && is_ws(s[end - 1]) {
        1 + ws_before(s, end - 1)
    } else {
        0
    }
}

/// Non-white-space directly before position `end`, counted backwards.
pub open spec fn word_before(s: Seq<char>, end: int) -> int
    decreases end,
{
    if end > 0 && end <= s.len() && !is_ws(s[end - 1]) {
        1 + word_before(s, end - 1)
    } else {
        0
    }
}

/// The characters `[start, end)` removed by a word deletion at `cursor`:
/// the white space before the cursor and the word before that.
pub open spec fn word_span(s: Seq<char>, cursor: int) -> (int, int) {
    let end = cursor - ws_before(s, cursor);
    (end - word_before(s, end), end)
}

proof fn lemma_ws_before_bound(s: Seq<char>, end: int)
    requires
        0 <= end <= s.len(),
    ensures
        0 <= ws_before(s, end) <= end,
        0 <= word_before(s, end) <= end,
    decreases end,
{
    if end > 0 {
        lemma_ws_before_bound(s, end - 1);
    }
}

/// The history position, when browsing, is within the history.
pub open spec fn history_ok(a: App) -> bool {
    a.input_history_index matches Some(i) ==> i < a.input_history@.len()
}

/// The interface after history browsing stops: the saved draft comes back.
pub open spec fn reset_history(a: App) -> App {
    if a.input_history_index is Some {
        App { input: a.input_draft, input_history_index: None, ..a }
    } else {
        a
    }
}

/// The interface after stepping back in the history.
pub open spec fn history_prev_spec(a: App) -> App {
    let h = a.input_history@;
    if h.len() == 0 {
        a
    } else {
        let idx: int = match a.input_history_index {
            None => h.len() - 1,
            Some(i) => if i > 0 { i - 1 } else { i as int },
        };
        let draft = match a.input_history_index {
            None => a.input,
            Some(_) => a.input_draft,
        };
        App {
            input_draft: draft,
            input_history_index: Some(idx as usize),
            input: h[idx],
            cursor_position: h[idx]@.len() as usize,
            ..a
        }
    }
}

/// The interface after stepping forward in the history.
pub open spec fn history_next_spec(a: App) -> App {
    let h = a.input_history@;
    if h.len() == 0 {
        a
    } else {
        match a.input_history_index {
            None => a,
            Some(i) => if i + 1 >= h.len() {
                let r = reset_history(a);
                App { cursor_position: r.input@.len() as usize, ..r }
            } else {
                App { input_history_index: Some((i + 1) as usize), input: h[i + 1], cursor_position: h[i + 1]@.len() as usize, ..a }
            },
        }
    }
}

/// The commands Tab completes.
pub open spec fn completable() -> Seq<Seq<char>> {
    seq!["/help"@, "/clear"@, "/undo"@, "/quit"@, "/exit"@]
}

/// The first command extending `prefix`, if any.
pub open spec fn first_completion(prefix: Seq<char>, i: int) -> Option<Seq<char>>
    decreases 5 - i,
{
    if i >= 5 || i < 0 {
        None
    } else if starts_with(completable()[i], prefix) && completable()[i].len() > prefix.len() {
        Some(completable()[i])
    } else {
        first_completion(prefix, i + 1)
    }
}

/// The last assistant entry, if any.
pub open spec fn last_assistant(ms: Seq<DisplayMessage>) -> Option<int>
    decreases ms.len(),
{
    if ms.len() == 0 {
        None
    } else if ms.last().role == Role::Assistant {
        Some(ms.len() - 1)
    } else {
        last_assistant(ms.drop_last())
    }
}

pub open spec fn inserted(a: App, b: App, c: char) -> bool {
    &&& (b.input@ == insert_char_at(a.input@, a.cursor_position as int, c))
    &&& (b.cursor_position == a.cursor_position + 1)
    &&& (b == (App { input: b.input, cursor_position: b.cursor_position, ..a }))
}

pub open spec fn backspaced(a: App, b: App) -> bool {
    &&& (a.cursor_position == 0 ==> b == a)
    &&& (a.cursor_position > 0 ==> {
                let k = a.cursor_position - 1;
                &&& b.cursor_position == k
                &&& b.input@ == if k < a.input@.len() {
                    a.input@.remove(k)
                } else {
                    a.input@
                }
            })
    &&& (b == (App { input: b.input, cursor_position: b.cursor_position, ..a }))
}

pub open spec fn char_deleted(a: App, b: App) -> bool {
    &&& (b.input@ == if (a.cursor_position as int) < a.input@.len() {
                a.input@.remove(a.cursor_position as int)
            } else {
                a.input@
            })
    &&& (b == (App { input: b.input, ..a }))
}

pub open spec fn history_pushed(a: App, b: App, input: Seq<char>) -> bool {
    &&& (trim(input).len() == 0 ==> b == a)
    &&& (trim(input).len() > 0 ==> {
                let h = a.input_history@;
                &&& strings_view(b.input_history@) == if h.len() > 0 && h.last()@ == trim(input) {
                    strings_view(h)
                } else {
                    strings_view(h).push(trim(input))
                }
                &&& b.input_history_index is None
                &&& b.input_draft@.len() == 0
                &&& b == (App {
                    input_history: b.input_history,
                    input_history_index: None,
                    input_draft: b.input_draft,
                    ..a
                })
            })
}

pub open spec fn word_deleted(a: App, b: App) -> bool {
    &&& (a.cursor_position == 0 ==> b == a)
    &&& (a.cursor_position > 0 ==> {
                let (start, end) = word_span(a.input@, a.cursor_position as int);
                &&& b.input@ == a.input@.take(start) + a.input@.skip(end)
                &&& b.cursor_position == start
                &&& b == (App {
                    input: b.input,
                    cursor_position: b.cursor_position,
                    ..a
                })
            })
}

pub open spec fn completed(a: App, b: App) -> bool {
    &&& (({
                let s = a.input@;
                if s.len() > 0 && s[0] == '/' {
                    match first_completion(lower_word(s), 0) {
                        Some(cmd) => b.input@ == cmd && b.cursor_position == cmd.len()
                            && b == (App {
                            input: b.input,
                            cursor_position: b.cursor_position,
                            ..a
                        }),
                        None => b == a,
                    }
                } else {
                    b == a
                }
            }))
}

pub open spec fn copied(a: App, b: App) -> bool {
    &&& (match last_assistant(a.messages@) {
                Some(i) => b.clipboard_content == Some(a.messages@[i].content)
                    && (b.status_message matches Some(m) && m@ == "Copied last assistant message to clipboard"@),
                None => b.clipboard_content == a.clipboard_content
                    && (b.status_message matches Some(m) && m@ == "No assistant message to copy"@),
            })
    &&& (b == (App {
                clipboard_content: b.clipboard_content,
                status_message: b.status_message,
                ..a
            }))
}

impl App {
    /// Insert `c` at the cursor (at the end when the cursor is past it).
    pub fn insert_char(&mut self, c: char)
        requires
            old(self).cursor_position < usize::MAX,
        ensures
            inserted(*old(self), *final(self), c),

    {
        let cs = chars_of(self.input.as_str());
        let r = chars_insert(&cs, self.cursor_position, c);
        self.input = string_from_chars(r.as_slice());
        self.cursor_position = self.cursor_position + 1;
    }

    /// Step back over the character before the cursor, deleting it.
    pub fn backspace(&mut self)
        ensures
            backspaced(*old(self), *final(self)),

    {
        if self.cursor_position > 0 {
            self.cursor_position = self.cursor_position - 1;
            let cs = chars_of(self.input.as_str());
            if self.cursor_position < cs.len() {
                let r = chars_remove(&cs, self.cursor_position);
                self.input = string_from_chars(r.as_slice());
            }
        }
    }

    /// Delete the character at the cursor.
    pub fn delete_char(&mut self)
        ensures
            char_deleted(*old(self), *final(self)),

    {
        let cs = chars_of(self.input.as_str());
        if self.cursor_position < cs.len() {
            let r = chars_remove(&cs, self.cursor_position);
            self.input = string_from_chars(r.as_slice());
        }
    }

    pub fn move_cursor_left(&mut self)
        ensures
            *final(self) == (App {
                cursor_position: if old(self).cursor_position > 0 {
                    (old(self).cursor_position - 1) as usize
                } else {
                    0
                },
                ..*old(self)
            }),
    {
        self.cursor_position = if self.cursor_position > 0 { self.cursor_position - 1 } else { 0 };
    }

    pub fn move_cursor_right(&mut self)
        ensures
            *final(self) == (App {
                cursor_position: if (old(self).cursor_position as int) < old(self).input@.len() {
                    (old(self).cursor_position + 1) as usize
                } else {
                    old(self).cursor_position
                },
                ..*old(self)
            }),
    {
        let cs = chars_of(self.input.as_str());
        if self.cursor_position < cs.len() {
            self.cursor_position = self.cursor_position + 1;
        }
    }

    pub fn move_cursor_start(&mut self)
        ensures
            *final(self) == (App { cursor_position: 0, ..*old(self) }),
    {
        self.cursor_position = 0;
    }

    /// Put the cursor after the input's last character.
    pub fn move_cursor_end(&mut self)
        ensures
            *final(self) == (App { cursor_position: old(self).input@.len() as usize, ..*old(self) }),
    {
        let cs = chars_of(self.input.as_str());
        self.cursor_position = cs.len();
    }

    /// Stop browsing the history, bringing the draft back.
    pub fn reset_history_browsing(&mut self)
        ensures
            *final(self) == reset_history(*old(self)),
    {
        if self.input_history_index.is_some() {
            self.input = self.input_draft.clone();
            self.input_history_index = None;
        }
    }

    /// Recall the previous history item.
    pub fn history_prev(&mut self)
        requires
            history_ok(*old(self)),
        ensures
            history_ok(*final(self)),
            *final(self) == history_prev_spec(*old(self)),
    {
        if self.input_history.len() == 0 {
            return;
        }
        match self.input_history_index {
            None => {
                self.input_draft = self.input.clone();
                self.input_history_index = Some(self.input_history.len() - 1);
            },
            Some(idx) => {
                if idx > 0 {
                    self.input_history_index = Some(idx - 1);
                }
            },
        }
        match self.input_history_index {
            Some(idx) => {
                self.input = self.input_history[idx].clone();
                let cs = chars_of(self.input.as_str());
                self.cursor_position = cs.len();
            },
            None => {},
        }
    }

    /// Recall the next history item, or the draft after the newest.
    pub fn history_next(&mut self)
        requires
            history_ok(*old(self)),
        ensures
            history_ok(*final(self)),
            *final(self) == history_next_spec(*old(self)),
    {
        if self.input_history.len() == 0 {
            return;
        }
        match self.input_history_index {
            None => {},
            Some(idx) => {
                if idx + 1 >= self.input_history.len() {
                    self.reset_history_browsing();
                    let cs = chars_of(self.input.as_str());
                    self.cursor_position = cs.len();
                } else {
                    self.input_history_index = Some(idx + 1);
                    self.input = self.input_history[idx + 1].clone();
                    let cs = chars_of(self.input.as_str());
                    self.cursor_position = cs.len();
                }
            },
        }
    }

    /// Save a submitted input, trimmed, unless it is blank or repeats the
    /// newest entry; browsing stops and the draft is emptied.
    pub fn push_input_history(&mut self, input: &str)
        ensures
            history_pushed(*old(self), *final(self), input@),

    {
        let cs = chars_of(input);
        let t = trim_chars(cs.as_slice());
        if t.len() == 0 {
            return;
        }
        let trimmed = string_from_chars(t.as_slice());
        let n = self.input_history.len();
        let repeat = n > 0 && same_text(self.input_history[n - 1].as_str(), trimmed.as_str());
        if !repeat {
            self.input_history.push(trimmed);
            assert(strings_view(self.input_history@) =~= strings_view(old(self).input_history@).push(trim(input@)));
        }
        self.input_history_index = None;
        self.input_draft = String::new();
    }

    /// Delete the white space before the cursor and the word before it.
    pub fn delete_word_before_cursor(&mut self)
        requires
            old(self).cursor_position <= old(self).input@.len(),
        ensures
            word_deleted(*old(self), *final(self)),

    {
        if self.cursor_position == 0 {
            return;
        }
        let chars = chars_of(self.input.as_str());
        let ghost s = chars@;
        let mut end = self.cursor_position;
        proof {
            lemma_ws_before_bound(s, end as int);
        }
        while end > 0 && is_whitespace(chars[end - 1])
            invariant
                end <= old(self).cursor_position <= s.len(),
                s == chars@,
                ws_before(s, old(self).cursor_position as int) == (old(self).cursor_position - end) + ws_before(s, end as int),
            decreases end,
        {
            end = end - 1;
        }
        let mut start = end;
        while start > 0 && !is_whitespace(chars[start - 1])
            invariant
                start <= end <= s.len(),
                s == chars@,
                word_before(s, end as int) == (end - start) + word_before(s, start as int),
            decreases start,
        {
            start = start - 1;
        }
        let mut out: Vec<char> = Vec::new();
        let mut i: usize = 0;
        while i < start
            invariant
                i <= start <= s.len(),
                s == chars@,
                out@ == s.take(i as int),
            decreases start - i,
        {
            out.push(chars[i]);
            i = i + 1;
            assert(out@ =~= s.take(i as int));
        }
        let mut j: usize = end;
        while j < chars.len()
            invariant
                start <= end <= j <= s.len(),
                s == chars@,
                out@ == s.take(start as int) + s.subrange(end as int, j as int),
            decreases s.len() - j,
        {
            out.push(chars[j]);
            j = j + 1;
            assert(out@ =~= s.take(start as int) + s.subrange(end as int, j as int));
        }
        assert(s.subrange(end as int, j as int) =~= s.skip(end as int));
        self.input = string_from_chars(out.as_slice());
        self.cursor_position = start;
    }

    /// Complete a slash command: an input starting with `/` whose lower-case
    /// form begins a longer known command becomes that command.
    pub fn complete_slash_command(&mut self)
        ensures
            completed(*old(self), *final(self)),

    {
        let cs = chars_of(self.input.as_str());
        if !(cs.len() > 0 && cs[0] == '/') {
            return;
        }
        let prefix = crate::cli_event::to_lowercase(self.input.as_str());
        let p = chars_of(prefix.as_str());
        proof {
            reveal_strlit("/help");
            reveal_strlit("/clear");
            reveal_strlit("/undo");
            reveal_strlit("/quit");
            reveal_strlit("/exit");
        }
        let mut commands: Vec<&'static str> = Vec::new();
        commands.push("/help");
        commands.push("/clear");
        commands.push("/undo");
        commands.push("/quit");
        commands.push("/exit");
        let mut i: usize = 0;
        while i < 5
            invariant
                i <= 5,
                *self == *old(self),
                cs@ == old(self).input@,
                cs@.len() > 0 && cs@[0] == '/',
                commands@.len() == 5,
                forall|k: int| 0 <= k < 5 ==> (#[trigger] commands@[k])@ == completable()[k],
                p@ == lower_word(cs@),
                first_completion(p@, 0) == first_completion(p@, i as int),
            decreases 5 - i,
        {
            let c = chars_of(commands[i]);
            proof {
                assert(c@ == completable()[i as int]);
            }
            if crate::text::starts_with_chars(c.as_slice(), p.as_slice()) && c.len() > p.len() {
                self.input = String::from_str(commands[i]);
                self.cursor_position = c.len();
                assert(first_completion(p@, i as int) == Some(completable()[i as int]));
                return;
            }
            i = i + 1;
        }
        assert(first_completion(p@, 5) is None);
    }

    /// Copy the newest assistant entry to the clipboard, saying so.
    pub fn copy_last_assistant_message(&mut self)
        ensures
            copied(*old(self), *final(self)),

    {
        let mut i = self.messages.len();
        assert(self.messages@.take(i as int) =~= self.messages@);
        while i > 0
            invariant
                i <= self.messages@.len(),
                *self == *old(self),
                last_assistant(self.messages@) == last_assistant(self.messages@.take(i as int)),
            decreases i,
        {
            proof {
                assert(self.messages@.take(i as int).drop_last() =~= self.messages@.take(i - 1));
            }
            if self.messages[i - 1].role == Role::Assistant {
                self.clipboard_content = Some(self.messages[i - 1].content.clone());
                self.set_status(String::from_str("Copied last assistant message to clipboard"));
                return;
            }
            i = i - 1;
        }
        assert(self.messages@.take(0) =~= Seq::<DisplayMessage>::empty());
        self.set_status(String::from_str("No assistant message to copy"));
    }
}


/// The echo reply given when no agent is attached.
pub open spec fn echo_text(input: Seq<char>) -> Seq<char> {
    "Echo: "@ + input + "\n\n(Note: No agent configured)"@
}

/// A turn of the agent begun on `input`: with an agent, the interface
/// waits for it and an empty reply is queued; without one, an echo reply
/// and the end of the turn are queued.
pub open spec fn agent_started(a: App, b: App, input: Seq<char>, request: HostRequest, queued: Seq<AgentEvent>) -> bool {
    if a.has_agent {
        &&& b == (App {
            agent_running: true,
            state: AppState::Processing,
            status_message: b.status_message,
            has_task: true,
            ..a
        })
        &&& (b.status_message matches Some(m) && m@ == "Agent is thinking..."@)
        &&& (request matches HostRequest::RunAgent(x) && x@ == input)
        &&& queued.len() == 1
        &&& (queued[0] matches AgentEvent::AssistantMessage(t) && t@.len() == 0)
    } else {
        &&& b == a
        &&& request is Nothing
        &&& queued.len() == 2
        &&& (queued[0] matches AgentEvent::AssistantMessage(t) && t@ == echo_text(input))
        &&& queued[1] is TurnComplete
    }
}

/// What submitting the input does: blank input is ignored; otherwise the
/// trimmed text is recorded in the history and either queued as a slash
/// command or shown as the user's message and handed to the agent.
pub open spec fn submitted(a: App, b: App, out: EventOutcome) -> bool {
    let t = trim(a.input@);
    if t.len() == 0 {
        b == a && out.submitted is None && out.request is Nothing && out.queued@.len() == 0
    } else {
        let h = a.input_history@;
        &&& b.input@.len() == 0
        &&& b.cursor_position == 0
        &&& strings_view(b.input_history@) == if h.len() > 0 && h.last()@ == t {
            strings_view(h)
        } else {
            strings_view(h).push(t)
        }
        &&& b.input_history_index is None
        &&& b.input_draft@.len() == 0
        &&& (out.submitted matches Some(x) && x@ == t)
        &&& if t[0] == '/' {
            &&& (b.pending_command matches Some(c) && c@ == t)
            &&& out.request is Nothing
            &&& out.queued@.len() == 0
            &&& b == (App {
                input: b.input,
                cursor_position: 0,
                input_history: b.input_history,
                input_history_index: None,
                input_draft: b.input_draft,
                pending_command: b.pending_command,
                ..a
            })
        } else {
            let m = App {
                input: b.input,
                cursor_position: 0,
                input_history: b.input_history,
                input_history_index: None,
                input_draft: b.input_draft,
                messages: b.messages,
                scroll_offset: 0,
                ..a
            };
            &&& entries(b.messages@) == with_entry(a, Role::User, t, false)
            &&& agent_started(m, b, t, out.request, out.queued@)
        }
    }
}

/// What an agent report does to the interface.
pub open spec fn event_applied(a: App, b: App, e: AgentEvent) -> bool {
    match e {
        AgentEvent::AssistantChunk(c) => chunk_appended(a, b, c@),
        AgentEvent::AssistantMessage(c) => reply_set(a, b, c@),
        AgentEvent::ToolStart(name) => {
            &&& b.pending_tools@ == a.pending_tools@.push(name)
            &&& (b.status_message matches Some(m) && m@ == "Running tool: "@ + name@)
            &&& b == (App { pending_tools: b.pending_tools, status_message: b.status_message, ..a })
        },
        AgentEvent::ToolComplete(name, _result) => {
            let rest = a.pending_tools@.filter(|t: String| t@ != name@);
            &&& b.pending_tools@ == rest
            &&& b.status_message == if rest.len() == 0 {
                b.status_message
            } else {
                a.status_message
            }
            &&& (rest.len() == 0 ==> (b.status_message matches Some(m) && m@ == "Processing..."@))
            &&& b == (App { pending_tools: b.pending_tools, status_message: b.status_message, ..a })
        },
        AgentEvent::ToolStream(name, message) => {
            &&& (b.status_message matches Some(m) && m@ == "Running tool: "@ + name@ + " | "@ + message@)
            &&& b == (App { status_message: b.status_message, ..a })
        },
        AgentEvent::TurnComplete => b == (App {
            agent_running: false,
            state: AppState::Running,
            has_task: false,
            status_message: None,
            ..a
        }),
        AgentEvent::Error(err) => {
            &&& entries(b.messages@) == with_entry(a, Role::System, "Error: "@ + err@, true)
            &&& b == (App {
                messages: b.messages,
                scroll_offset: 0,
                agent_running: false,
                state: AppState::Running,
                has_task: false,
                status_message: None,
                ..a
            })
        },
    }
}

/// `states` are the interface before and after each of `es`.
pub open spec fn steps_ok(states: Seq<App>, es: Seq<AgentEvent>) -> bool {
    &&& states.len() == es.len() + 1
    &&& forall|i: int| 0 <= i < es.len() ==> #[trigger] event_applied(states[i], states[i + 1], es[i])
}

/// `b` is reached from `a` by applying `es` in order.
pub open spec fn events_applied(a: App, b: App, es: Seq<AgentEvent>) -> bool {
    exists|states: Seq<App>| #[trigger] steps_ok(states, es) && states[0] == a && states.last() == b
}

/// What a key press does on the main screen.
pub open spec fn key_effect(a: App, b: App, k: KeyPress, out: EventOutcome) -> bool {
    match k.code {
        TuiKey::Enter => submitted(a, b, out),
        _ => {
            &&& out.submitted is None
            &&& out.request is Nothing
            &&& out.queued@.len() == 0
            &&& match k.code {
                TuiKey::Char(c) => if k.ctrl {
                    let l = ascii_lower(c);
                    if l == 'w' {
                        word_deleted(a, b)
                    } else if l == 'p' {
                        b == history_prev_spec(a)
                    } else if l == 'n' {
                        b == history_next_spec(a)
                    } else {
                        b == a
                    }
                } else {
                    inserted(reset_history(a), b, c)
                },
                TuiKey::Backspace => if k.ctrl || k.shift {
                    word_deleted(a, b)
                } else {
                    backspaced(reset_history(a), b)
                },
                TuiKey::Delete => char_deleted(reset_history(a), b),
                TuiKey::Left => b == (App {
                    cursor_position: if a.cursor_position > 0 { (a.cursor_position - 1) as usize } else { 0 },
                    ..a
                }),
                TuiKey::Right => b == (App {
                    cursor_position: if (a.cursor_position as int) < a.input@.len() {
                        (a.cursor_position + 1) as usize
                    } else {
                        a.cursor_position
                    },
                    ..a
                }),
                TuiKey::Up => if k.ctrl { b == history_prev_spec(a) } else { b == a },
                TuiKey::Down => if k.ctrl { b == history_next_spec(a) } else { b == a },
                TuiKey::Home => b == (App { cursor_position: 0, ..a }),
                TuiKey::End => b == (App { cursor_position: a.input@.len() as usize, ..a }),
                TuiKey::Tab => completed(a, b),
                TuiKey::Esc => if a.show_help {
                    b == (App { show_help: false, ..a })
                } else if a.input_history_index is Some {
                    b == (App { input: a.input_draft, cursor_position: 0, input_history_index: None, ..a })
                } else {
                    b == (App { input: b.input, cursor_position: 0, ..a }) && b.input@.len() == 0
                },
                _ => b == a,
            }
        },
    }
}

/// The answer a key or event gives to a permission request.
pub open spec fn permission_answer(e: Event) -> Option<(ApprovalResponse, ApprovalType)> {
    match e {
        Event::Key(k) => match k.code {
            TuiKey::Char(c) => if c == '1' {
                Some((ApprovalResponse::Yes, ApprovalType::Once))
            } else if c == '2' {
                Some((ApprovalResponse::Yes, ApprovalType::Session))
            } else if c == '3' {
                Some((ApprovalResponse::Yes, ApprovalType::Always))
            } else if c == '4' || c == 'n' || c == 'N' {
                Some((ApprovalResponse::No, ApprovalType::Once))
            } else {
                None
            },
            _ => None,
        },
        Event::PermissionApproved => Some((ApprovalResponse::Yes, ApprovalType::Once)),
        Event::PermissionDenied => Some((ApprovalResponse::No, ApprovalType::Once)),
        _ => None,
    }
}

/// Nothing submitted, requested or queued.
pub open spec fn quiet(out: EventOutcome) -> bool {
    out.submitted is None && out.request is Nothing && out.queued@.len() == 0
}

/// What an event does to the interface.
pub open spec fn event_effect(a: App, b: App, e: Event, out: EventOutcome) -> bool {
    if a.state == AppState::ConfirmingPermission {
        match permission_answer(e) {
            Some((r, t)) => {
                &&& b == (App { pending_permission: false, state: AppState::Processing, ..a })
                &&& out.submitted is None && out.queued@.len() == 0
                &&& if a.pending_permission {
                    out.request matches HostRequest::Respond(x, y) && x == r && y == t
                } else {
                    out.request is Nothing
                }
            },
            None => b == a && quiet(out),
        }
    } else if a.agent_running && e is Key {
        b == a && quiet(out)
    } else {
        match e {
            Event::Quit => b == (App { state: AppState::Quitting, ..a }) && quiet(out),
            Event::Cancel => if a.has_task {
                &&& entries(b.messages@) == with_entry(a, Role::System, "Current task cancelled."@, false)
                &&& b.pending_tools@.len() == 0
                &&& b == (App {
                    messages: b.messages,
                    scroll_offset: 0,
                    has_task: false,
                    agent_running: false,
                    state: AppState::Running,
                    pending_tools: b.pending_tools,
                    status_message: None,
                    ..a
                })
                &&& out.submitted is None && out.queued@.len() == 0 && out.request is AbortTask
            } else {
                b == a && quiet(out)
            },
            Event::ToggleHelp => b == (App { show_help: !a.show_help, ..a }) && quiet(out),
            Event::ScrollUp => b == (App {
                scroll_offset: if a.scroll_offset < usize::MAX { (a.scroll_offset + 1) as usize } else { usize::MAX },
                ..a
            }) && quiet(out),
            Event::ScrollDown => b == (App {
                scroll_offset: if a.scroll_offset > 0 { (a.scroll_offset - 1) as usize } else { 0 },
                ..a
            }) && quiet(out),
            Event::Key(k) => key_effect(a, b, k, out),
            Event::Copy => copied(a, b) && quiet(out),
            _ => b == a && quiet(out),
        }
    }
}

/// What the host does for a slash command.
#[derive(Debug, Clone, Copy, PartialEq, Eq, Structural)]
pub enum SlashRequest {
    Nothing,
    /// Clear the agent's conversation and checkpoints.
    ClearAgent,
    /// Undo the agent's last turn and report the result.
    UndoTurn,
}

/// The help text of the interface: the shared commands, then the ones of
/// the terminal interface and its keys.
pub open spec fn tui_help_text() -> Seq<char> {
    help_text(builtin_commands_spec())
        + "\n**TUI 专属命令**\n- `/clear` — 清空对话\n- `/quit` `/exit` — 退出\n\n快捷键: Ctrl+C 取消任务, Ctrl+D/Q 退出, Ctrl+H 帮助, Ctrl+Shift+C 复制回复, Ctrl+Up/Down 历史, Tab 补全 /cmds, Esc 清空输入, Ctrl+W/Ctrl+Backspace 删除单词"@
}

/// The errors of an undo, joined with `; `.
pub open spec fn join_errors(es: Seq<Seq<char>>) -> Seq<char>
    decreases es.len(),
{
    if es.len() == 0 {
        Seq::empty()
    } else if es.len() == 1 {
        es[0]
    } else {
        join_errors(es.drop_last()) + "; "@ + es.last()
    }
}

impl App {
    /// Empty the input.
    fn clear_input(&mut self)
        ensures
            final(self).input@.len() == 0,
            *final(self) == (App { input: final(self).input, cursor_position: 0, ..*old(self) }),
    {
        self.input = String::new();
        self.cursor_position = 0;
    }

    /// Begin a turn of the agent on `user_input`.
    pub fn send_to_agent(&mut self, user_input: String) -> (r: (HostRequest, Vec<AgentEvent>))
        ensures
            agent_started(*old(self), *final(self), user_input@, r.0, r.1@),
    {
        let mut queued: Vec<AgentEvent> = Vec::new();
        if self.has_agent {
            self.agent_running = true;
            self.state = AppState::Processing;
            self.set_status(String::from_str("Agent is thinking..."));
            self.has_task = true;
            queued.push(AgentEvent::AssistantMessage(String::new()));
            (HostRequest::RunAgent(user_input), queued)
        } else {
            let a = concat_str("Echo: ", user_input.as_str());
            let text = concat_str(a.as_str(), "\n\n(Note: No agent configured)");
            queued.push(AgentEvent::AssistantMessage(text));
            queued.push(AgentEvent::TurnComplete);
            (HostRequest::Nothing, queued)
        }
    }

    /// Submit the input: record it and queue it as a slash command, or show
    /// it and hand it to the agent.
    pub fn submit_input(&mut self) -> (out: EventOutcome)
        ensures
            submitted(*old(self), *final(self), out),
    {
        let cs = chars_of(self.input.as_str());
        let t = trim_chars(cs.as_slice());
        if t.len() == 0 {
            return EventOutcome { submitted: None, request: HostRequest::Nothing, queued: Vec::new() };
        }
        let content = string_from_chars(t.as_slice());
        let raw = self.input.clone();
        self.clear_input();
        self.push_input_history(raw.as_str());
        if t[0] == '/' {
            self.pending_command = Some(content.clone());
            return EventOutcome { submitted: Some(content), request: HostRequest::Nothing, queued: Vec::new() };
        }
        self.add_user_message(content.clone());
        let (request, queued) = self.send_to_agent(content.clone());
        EventOutcome { submitted: Some(content), request, queued }
    }

    /// Apply one report of the agent.
    pub fn apply_agent_event(&mut self, e: AgentEvent)
        ensures
            event_applied(*old(self), *final(self), e),
    {
        match e {
            AgentEvent::AssistantChunk(chunk) => {
                self.append_to_last_assistant_message(chunk.as_str());
            },
            AgentEvent::AssistantMessage(content) => {
                self.update_last_assistant_message(content);
            },
            AgentEvent::ToolStart(name) => {
                self.set_status(concat_str("Running tool: ", name.as_str()));
                self.pending_tools.push(name);
            },
            AgentEvent::ToolComplete(name, _result) => {
                let ghost pred = |t: String| t@ != name@;
                let mut kept: Vec<String> = Vec::new();
                let mut i: usize = 0;
                while i < self.pending_tools.len()
                    invariant
                        i <= self.pending_tools@.len(),
                        *self == *old(self),
                        pred == (|t: String| t@ != name@),
                        kept@ == self.pending_tools@.take(i as int).filter(pred),
                    decreases self.pending_tools@.len() - i,
                {
                    proof {
                        reveal_with_fuel(Seq::filter, 1);
                        assert(self.pending_tools@.take(i + 1).drop_last() =~= self.pending_tools@.take(i as int));
                    }
                    if !same_text(self.pending_tools[i].as_str(), name.as_str()) {
                        kept.push(self.pending_tools[i].clone());
                    }
                    i = i + 1;
                }
                assert(self.pending_tools@.take(i as int) =~= self.pending_tools@);
                self.pending_tools = kept;
                if self.pending_tools.len() == 0 {
                    self.set_status(String::from_str("Processing..."));
                }
            },
            AgentEvent::ToolStream(name, message) => {
                let a = concat_str("Running tool: ", name.as_str());
                let b = concat_str(a.as_str(), " | ");
                self.set_status(concat_str(b.as_str(), message.as_str()));
            },
            AgentEvent::TurnComplete => {
                self.agent_running = false;
                self.state = AppState::Running;
                self.has_task = false;
                self.clear_status();
            },
            AgentEvent::Error(err) => {
                self.add_error_message(concat_str("Error: ", err.as_str()));
                self.agent_running = false;
                self.state = AppState::Running;
                self.has_task = false;
                self.clear_status();
            },
        }
    }

    /// Apply the agent's reports, in order.
    pub fn process_agent_events(&mut self, events: Vec<AgentEvent>)
        ensures
            events_applied(*old(self), *final(self), events@),
    {
        let ghost es = events@;
        let mut rest = events;
        let n = rest.len();
        let mut rev: Vec<AgentEvent> = Vec::new();
        while rest.len() > 0
            invariant
                rest@.len() + rev@.len() == n,
                n == es.len(),
                *self == *old(self),
                forall|k: int| 0 <= k < rest@.len() ==> rest@[k] == es[k],
                forall|k: int| 0 <= k < rev@.len() ==> rev@[k] == es[n - 1 - k],
            decreases rest@.len(),
        {
            let x = rest.pop().unwrap();
            rev.push(x);
        }
        let mut done: usize = 0;
        let ghost mut states: Seq<App> = seq![*self];
        while rev.len() > 0
            invariant
                done + rev@.len() == n,
                n == es.len(),
                forall|k: int| 0 <= k < rev@.len() ==> rev@[k] == es[n - 1 - k],
                steps_ok(states, es.take(done as int)),
                states[0] == *old(self),
                states.last() == *self,
            decreases rev@.len(),
        {
            let ghost len0 = rev@.len();
            let ghost before = *self;
            let e = rev.pop().unwrap();
            assert(e == es[n - 1 - (len0 - 1)]);
            self.apply_agent_event(e);
            proof {
                let prev = states;
                states = states.push(*self);
                assert forall|i: int| 0 <= i < es.take(done + 1).len() implies #[trigger] event_applied(
                    states[i],
                    states[i + 1],
                    es.take(done + 1)[i],
                ) by {
                    if i < done {
                        assert(event_applied(prev[i], prev[i + 1], es.take(done as int)[i]));
                    }
                }
            }
            done = done + 1;
        }
        assert(es.take(done as int) =~= es);
        assert(steps_ok(states, es));
    }

    /// Run a slash command of the interface: `/clear`, `/undo`, `/help`,
    /// `/quit` and `/exit`; anything else is reported unknown.
    pub fn handle_slash_command(&mut self, command: &str) -> (r: SlashRequest)
        ensures
            command@ == "/clear"@ ==> r == (if old(self).has_agent { SlashRequest::ClearAgent } else { SlashRequest::Nothing })
                && entries(final(self).messages@) == seq![(Role::System, "Conversation cleared."@, false)]
                && *final(self) == (App { messages: final(self).messages, scroll_offset: 0, ..*old(self) }),
            command@ == "/undo"@ ==> if old(self).has_agent {
                r == SlashRequest::UndoTurn && *final(self) == *old(self)
            } else {
                r == SlashRequest::Nothing && entries(final(self).messages@) == with_entry(
                    *old(self),
                    Role::System,
                    "No agent configured."@,
                    true,
                ) && *final(self) == (App { messages: final(self).messages, scroll_offset: 0, ..*old(self) })
            },
            command@ == "/help"@ ==> r == SlashRequest::Nothing && entries(final(self).messages@) == with_entry(
                *old(self),
                Role::System,
                tui_help_text(),
                false,
            ) && *final(self) == (App { messages: final(self).messages, scroll_offset: 0, ..*old(self) }),
            command@ == "/quit"@ || command@ == "/exit"@ ==> r == SlashRequest::Nothing && *final(self) == (App {
                state: AppState::Quitting,
                ..*old(self)
            }),
            !(command@ == "/clear"@ || command@ == "/undo"@ || command@ == "/help"@ || command@ == "/quit"@
                || command@ == "/exit"@) ==> r == SlashRequest::Nothing && entries(final(self).messages@)
                == with_entry(*old(self), Role::System, "Unknown command: "@ + command@, true) && *final(self) == (App {
                messages: final(self).messages,
                scroll_offset: 0,
                ..*old(self)
            }),
    {
        proof {
            reveal_strlit("/clear");
            reveal_strlit("/undo");
            reveal_strlit("/help");
            reveal_strlit("/quit");
            reveal_strlit("/exit");
            assert("/clear"@.len() == 6 && "/undo"@.len() == 5 && "/help"@.len() == 5);
            assert("/quit"@.len() == 5 && "/exit"@.len() == 5);
            assert("/undo"@[1] != "/help"@[1] && "/undo"@[1] != "/quit"@[1] && "/undo"@[1] != "/exit"@[1]);
            assert("/help"@[1] != "/quit"@[1] && "/help"@[1] != "/exit"@[1] && "/quit"@[1] != "/exit"@[1]);
        }
        if same_text(command, "/clear") {
            self.clear_messages();
            self.add_system_message(String::from_str("Conversation cleared."));
            assert(entries(self.messages@) =~= seq![(Role::System, "Conversation cleared."@, false)]);
            if self.has_agent { SlashRequest::ClearAgent } else { SlashRequest::Nothing }
        } else if same_text(command, "/undo") {
            if self.has_agent {
                SlashRequest::UndoTurn
            } else {
                self.add_error_message(String::from_str("No agent configured."));
                SlashRequest::Nothing
            }
        } else if same_text(command, "/help") {
            let shared = slash_commands_help();
            let text = concat_str(
                shared.as_str(),
                "\n**TUI 专属命令**\n- `/clear` — 清空对话\n- `/quit` `/exit` — 退出\n\n快捷键: Ctrl+C 取消任务, Ctrl+D/Q 退出, Ctrl+H 帮助, Ctrl+Shift+C 复制回复, Ctrl+Up/Down 历史, Tab 补全 /cmds, Esc 清空输入, Ctrl+W/Ctrl+Backspace 删除单词",
            );
            self.add_system_message(text);
            SlashRequest::Nothing
        } else if same_text(command, "/quit") || same_text(command, "/exit") {
            self.state = AppState::Quitting;
            SlashRequest::Nothing
        } else {
            self.add_error_message(concat_str("Unknown command: ", command));
            SlashRequest::Nothing
        }
    }

    /// Report the outcome of an undo: whether a turn was undone and the
    /// files that could not be restored, or the failure.
    pub fn report_undo(&mut self, result: Result<(bool, Vec<String>), String>)
        ensures
            match result {
                Ok((true, errors)) => if errors@.len() == 0 {
                    entries(final(self).messages@) == with_entry(*old(self), Role::System, "Last turn undone."@, false)
                } else {
                    entries(final(self).messages@) == with_entry(
                        *old(self),
                        Role::System,
                        "Last turn undone, but some files could not be restored: "@ + join_errors(strings_view(errors@)),
                        true,
                    )
                },
                Ok((false, _)) => entries(final(self).messages@) == with_entry(
                    *old(self),
                    Role::System,
                    "Nothing to undo."@,
                    true,
                ),
                Err(e) => entries(final(self).messages@) == with_entry(
                    *old(self),
                    Role::System,
                    "Undo failed: "@ + e@,
                    true,
                ),
            },
            *final(self) == (App { messages: final(self).messages, scroll_offset: 0, ..*old(self) }),
    {
        match result {
            Ok((true, errors)) => {
                if errors.len() == 0 {
                    self.add_system_message(String::from_str("Last turn undone."));
                } else {
                    let mut joined = String::new();
                    let mut i: usize = 0;
                    while i < errors.len()
                        invariant
                            i <= errors@.len(),
                            joined@ == join_errors(strings_view(errors@).take(i as int)),
                        decreases errors@.len() - i,
                    {
                        if i > 0 {
                            joined = concat_str(joined.as_str(), "; ");
                        }
                        joined = concat_str(joined.as_str(), errors[i].as_str());
                        assert(strings_view(errors@).take(i + 1).drop_last() =~= strings_view(errors@).take(i as int));
                        i = i + 1;
                    }
                    assert(strings_view(errors@).take(i as int) =~= strings_view(errors@));
                    self.add_error_message(
                        concat_str("Last turn undone, but some files could not be restored: ", joined.as_str()),
                    );
                }
            },
            Ok((false, _)) => {
                self.add_error_message(String::from_str("Nothing to undo."));
            },
            Err(e) => {
                self.add_error_message(concat_str("Undo failed: ", e.as_str()));
            },
        }
    }

    /// Handle an interface event. While a permission request is shown only
    /// its answers count; while the agent runs, keys are ignored.
    pub fn handle_event(&mut self, event: Event) -> (out: EventOutcome)
        requires
            history_ok(*old(self)),
            old(self).cursor_position < usize::MAX,
            (event matches Event::Key(k) && (k.code == TuiKey::Backspace && (k.ctrl || k.shift) || (k.ctrl
                && (k.code matches TuiKey::Char(c) && ascii_lower(c) == 'w')))) ==> old(self).cursor_position
                <= old(self).input@.len(),
        ensures
            event_effect(*old(self), *final(self), event, out),
    {
        let quiet_out = EventOutcome { submitted: None, request: HostRequest::Nothing, queued: Vec::new() };
        if self.state == AppState::ConfirmingPermission {
            let answer: Option<(ApprovalResponse, ApprovalType)> = match &event {
                Event::Key(k) => match k.code {
                    TuiKey::Char(c) => {
                        if c == '1' {
                            Some((ApprovalResponse::Yes, ApprovalType::Once))
                        } else if c == '2' {
                            Some((ApprovalResponse::Yes, ApprovalType::Session))
                        } else if c == '3' {
                            Some((ApprovalResponse::Yes, ApprovalType::Always))
                        } else if c == '4' || c == 'n' || c == 'N' {
                            Some((ApprovalResponse::No, ApprovalType::Once))
                        } else {
                            None
                        }
                    },
                    _ => None,
                },
                Event::PermissionApproved => Some((ApprovalResponse::Yes, ApprovalType::Once)),
                Event::PermissionDenied => Some((ApprovalResponse::No, ApprovalType::Once)),
                _ => None,
            };
            return match answer {
                Some((r, t)) => {
                    let request = self.handle_permission_response(r, t);
                    EventOutcome { submitted: None, request, queued: Vec::new() }
                },
                None => quiet_out,
            };
        }
        let is_key = match &event {
            Event::Key(_) => true,
            _ => false,
        };
        if self.agent_running && is_key {
            return quiet_out;
        }
        match event {
            Event::Quit => {
                self.state = AppState::Quitting;
                quiet_out
            },
            Event::Cancel => {
                if self.has_task {
                    self.has_task = false;
                    self.agent_running = false;
                    self.state = AppState::Running;
                    self.pending_tools = Vec::new();
                    self.clear_status();
                    self.add_system_message(String::from_str("Current task cancelled."));
                    EventOutcome { submitted: None, request: HostRequest::AbortTask, queued: Vec::new() }
                } else {
                    quiet_out
                }
            },
            Event::ToggleHelp => {
                self.show_help = !self.show_help;
                quiet_out
            },
            Event::ScrollUp => {
                self.scroll_up();
                quiet_out
            },
            Event::ScrollDown => {
                self.scroll_down();
                quiet_out
            },
            Event::Key(k) => self.handle_key(k),
            Event::Copy => {
                self.copy_last_assistant_message();
                quiet_out
            },
            _ => quiet_out,
        }
    }

    fn handle_key(&mut self, k: KeyPress) -> (out: EventOutcome)
        requires
            history_ok(*old(self)),
            old(self).cursor_position < usize::MAX,
            (k.code == TuiKey::Backspace && (k.ctrl || k.shift) || (k.ctrl && (k.code matches TuiKey::Char(c)
                && ascii_lower(c) == 'w'))) ==> old(self).cursor_position <= old(self).input@.len(),
        ensures
            key_effect(*old(self), *final(self), k, out),
    {
        let quiet_out = EventOutcome { submitted: None, request: HostRequest::Nothing, queued: Vec::new() };
        match k.code {
            TuiKey::Enter => self.submit_input(),
            TuiKey::Char(c) => {
                if k.ctrl {
                    let l = crate::agent::lower_char(c);
                    if l == 'w' {
                        self.delete_word_before_cursor();
                    } else if l == 'p' {
                        self.history_prev();
                    } else if l == 'n' {
                        self.history_next();
                    }
                } else {
                    self.reset_history_browsing();
                    self.insert_char(c);
                }
                quiet_out
            },
            TuiKey::Backspace => {
                if k.ctrl || k.shift {
                    self.delete_word_before_cursor();
                } else {
                    self.reset_history_browsing();
                    self.backspace();
                }
                quiet_out
            },
            TuiKey::Delete => {
                self.reset_history_browsing();
                self.delete_char();
                quiet_out
            },
            TuiKey::Left => {
                self.move_cursor_left();
                quiet_out
            },
            TuiKey::Right => {
                self.move_cursor_right();
                quiet_out
            },
            TuiKey::Up => {
                if k.ctrl {
                    self.history_prev();
                }
                quiet_out
            },
            TuiKey::Down => {
                if k.ctrl {
                    self.history_next();
                }
                quiet_out
            },
            TuiKey::Home => {
                self.move_cursor_start();
                quiet_out
            },
            TuiKey::End => {
                self.move_cursor_end();
                quiet_out
            },
            TuiKey::Tab => {
                self.complete_slash_command();
                quiet_out
            },
            TuiKey::Esc => {
                if self.show_help {
                    self.show_help = false;
                } else {
                    self.clear_input();
                    self.reset_history_browsing();
                }
                quiet_out
            },
            _ => quiet_out,
        }
    }
}

/// The role of an entry of the agent's own transcript.
#[derive(Debug, Clone, Copy, PartialEq, Eq, Structural)]
pub enum UiMessageRole {
    User,
    Assistant,
    /// The model's reasoning.
    Think,
    /// A tool's result.
    Tool,
    /// A turn's usage.
    Stats,
    System,
}

/// Usage of a turn as the transcript shows it.
#[derive(Debug, Clone, Copy)]
pub struct UiTurnStats {
    pub total_tokens: u64,
    pub duration_ms: u64,
}

/// An entry of the agent's own transcript.
#[derive(Debug, Clone)]
pub struct UiMessage {
    pub role: UiMessageRole,
    pub text: String,
    pub think: Option<String>,
    pub tool_name: Option<String>,
    pub tool_result: Option<String>,
    pub turn_stats: Option<UiTurnStats>,
}

pub open spec fn text_or_empty(s: Option<String>) -> Seq<char> {
    match s {
        Some(x) => x@,
        None => Seq::empty(),
    }
}

/// How an agent transcript entry is shown: role and text.
pub open spec fn shown_entry(m: UiMessage) -> (Role, Seq<char>, bool) {
    match m.role {
        UiMessageRole::User => (Role::User, m.text@, false),
        UiMessageRole::Assistant => (Role::Assistant, m.text@, false),
        UiMessageRole::Think => (Role::Assistant, "💭 "@ + text_or_empty(m.think), false),
        UiMessageRole::Tool => (
            Role::Assistant,
            "🛠 ["@ + text_or_empty(m.tool_name) + "] "@ + text_or_empty(m.tool_result),
            false,
        ),
        UiMessageRole::Stats => (
            Role::System,
            "📊 "@ + match m.turn_stats {
                Some(s) => "本轮 "@ + decimal(s.total_tokens as nat) + " tokens · "@ + decimal(
                    (s.duration_ms / 1000) as nat,
                ) + "s"@,
                None => Seq::empty(),
            },
            false,
        ),
        UiMessageRole::System => (Role::System, m.text@, false),
    }
}

fn opt_text(s: Option<String>) -> (r: String)
    ensures
        r@ == text_or_empty(s),
{
    match s {
        Some(x) => x,
        None => String::new(),
    }
}

/// The entry showing one agent transcript entry.
pub fn display_of(m: UiMessage) -> (d: DisplayMessage)
    ensures
        entry(d) == shown_entry(m),
{
    match m.role {
        UiMessageRole::User => DisplayMessage::new(Role::User, m.text),
        UiMessageRole::Assistant => DisplayMessage::new(Role::Assistant, m.text),
        UiMessageRole::Think => DisplayMessage::new(Role::Assistant, concat_str("💭 ", opt_text(m.think).as_str())),
        UiMessageRole::Tool => {
            let a = concat_str("🛠 [", opt_text(m.tool_name).as_str());
            let b = concat_str(a.as_str(), "] ");
            DisplayMessage::new(Role::Assistant, concat_str(b.as_str(), opt_text(m.tool_result).as_str()))
        },
        UiMessageRole::Stats => {
            let s = match m.turn_stats {
                Some(st) => {
                    let t = decimal_string(st.total_tokens);
                    let secs = decimal_string(st.duration_ms / 1000);
                    let a = concat_str("本轮 ", t.as_str());
                    let b = concat_str(a.as_str(), " tokens · ");
                    let c = concat_str(b.as_str(), secs.as_str());
                    concat_str(c.as_str(), "s")
                },
                None => String::new(),
            };
            DisplayMessage::new(Role::System, concat_str("📊 ", s.as_str()))
        },
        UiMessageRole::System => DisplayMessage::new(Role::System, m.text),
    }
}

impl App {
    /// Replace the transcript by the agent's own, entry for entry.
    pub fn sync_messages_from_agent(&mut self, transcript: Vec<UiMessage>)
        ensures
            entries(final(self).messages@) == transcript@.map_values(|m: UiMessage| shown_entry(m)),
            *final(self) == (App { messages: final(self).messages, ..*old(self) }),
    {
        let ghost t = transcript@;
        let mut rest = transcript;
        let n = rest.len();
        let mut rev: Vec<UiMessage> = Vec::new();
        while rest.len() > 0
            invariant
                rest@.len() + rev@.len() == n,
                n == t.len(),
                forall|k: int| 0 <= k < rest@.len() ==> rest@[k] == t[k],
                forall|k: int| 0 <= k < rev@.len() ==> rev@[k] == t[n - 1 - k],
            decreases rest@.len(),
        {
            let m = rest.pop().unwrap();
            rev.push(m);
        }
        let mut out: Vec<DisplayMessage> = Vec::new();
        while rev.len() > 0
            invariant
                out@.len() + rev@.len() == n,
                n == t.len(),
                forall|k: int| 0 <= k < rev@.len() ==> rev@[k] == t[n - 1 - k],
                forall|k: int| 0 <= k < out@.len() ==> entry(#[trigger] out@[k]) == shown_entry(t[k]),
            decreases rev@.len(),
        {
            let m = rev.pop().unwrap();
            out.push(display_of(m));
        }
        self.messages = out;
        assert(entries(self.messages@) =~= t.map_values(|m: UiMessage| shown_entry(m)));
    }
}

/// Stepping back into the history and forward again brings back the text
/// that was being typed.
pub proof fn law_history_round_trip(a: App)
    requires
        a.input_history@.len() > 0,
        a.input_history_index is None,
    ensures
        history_next_spec(history_prev_spec(a)).input == a.input,
        history_next_spec(history_prev_spec(a)).input_history_index is None,
{
    let h = a.input_history@;
    assert(h.len() == a.input_history.len());
    let b = history_prev_spec(a);
    assert(b.input_history_index == Some((h.len() - 1) as usize));
    assert(b.input_draft == a.input);
    assert(b.input_history == a.input_history);
    let r = reset_history(b);
    assert(r.input == a.input);
}

/// While browsing the history at entry `i`, showing that entry, one step
/// back and one step forward return to exactly the same state: the step
/// forward lands on the entry right after the one stepped back to.
pub proof fn law_history_next_undoes_prev(a: App, i: usize)
    requires
        a.input_history_index == Some(i),
        1 <= i < a.input_history@.len(),
        a.input == a.input_history@[i as int],
        a.cursor_position == a.input_history@[i as int]@.len() as usize,
    ensures
        history_prev_spec(a).input_history_index == Some((i - 1) as usize),
        history_next_spec(history_prev_spec(a)) == a,
{
    let b = history_prev_spec(a);
    assert(b.input_history == a.input_history);
    assert(b.input_history_index == Some((i - 1) as usize));
}

/// While browsing the history at entry `i` with a newer entry after it,
/// one step forward shows entry `i + 1`, and one step back returns to
/// exactly the same state.
pub proof fn law_history_prev_undoes_next(a: App, i: usize)
    requires
        a.input_history_index == Some(i),
        i + 1 < a.input_history@.len(),
        a.input == a.input_history@[i as int],
        a.cursor_position == a.input_history@[i as int]@.len() as usize,
    ensures
        history_next_spec(a).input_history_index == Some((i + 1) as usize),
        history_next_spec(a).input == a.input_history@[i + 1],
        history_prev_spec(history_next_spec(a)) == a,
{
    assert(a.input_history@.len() == a.input_history.len());
    let b = history_next_spec(a);
    assert(b.input_history == a.input_history);
    assert(b.input_history_index == Some((i + 1) as usize));
    let c = history_prev_spec(b);
    assert(c.input_history_index == Some(i));
    assert(c.input_draft == a.input_draft);
    assert(c.input == a.input);
}

} // verus!
