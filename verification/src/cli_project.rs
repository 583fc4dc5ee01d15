//! What the front end shows of projects and engine answers: the project
//! summary, details and list, and the handling of each engine response.
//!
//! The engine itself, and formatting its paths and time stamps, are the
//! host's part; it hands the values in as text.

use vstd::prelude::*;
use crate::cli_app::{log_after, log_after_all, last_index, App};
use crate::cli_event::{error, system};
use crate::text::{concat_str, decimal, decimal_string, strings_view};

verus! {

/// Progress of one analysis layer of a project.
#[derive(Debug, Clone, Copy, PartialEq, Eq, Structural)]
pub enum AnalysisLayerStatus {
    Pending,
    InProgress,
    Completed,
    Failed,
}

/// What the engine knows of a project, as displayed text.
#[derive(Debug, Clone)]
pub struct ProjectMetadata {
    pub name: String,
    pub root_path: String,
    pub language: String,
    pub frameworks: Vec<String>,
    pub created_at: String,
    pub last_accessed: String,
    /// File scan.
    pub layer0_status: AnalysisLayerStatus,
    /// Symbol analysis.
    pub layer1_status: AnalysisLayerStatus,
    pub last_analysis_time: Option<String>,
    pub needs_refresh: bool,
    pub skills: Vec<String>,
}

/// An opened project.
#[derive(Debug, Clone)]
pub struct ProjectInfo {
    pub id: String,
    /// The project was known before it was opened.
    pub exists: bool,
    pub metadata: ProjectMetadata,
}

/// An answer of the engine.
#[derive(Debug, Clone)]
pub enum EngineResponse {
    Text(String),
    PlanCreated { plan_id: String, message: String },
    StepCompleted { step: String, result: String },
    WaitingForInput { prompt: String },
    PlanFinished { message: String },
    Error(String),
    NeedConfirmation { confirmation_id: String, description: String, files: Vec<String>, preview: Option<String> },
    NeedContinuation { session_id: String, current_iteration: usize, max_iterations: usize, progress: String },
}

/// How the engine is told to settle a confirmation.
#[derive(Debug, Clone, PartialEq, Eq)]
pub enum ConfirmAction {
    Approve,
    Reject,
    Edit(String),
}

/// The separator line around project blocks.
pub open spec fn rule() -> Seq<char> {
    "═══════════════════════════════════════"@
}

/// `items` joined with `sep` between them.
pub open spec fn joined(items: Seq<Seq<char>>, sep: Seq<char>) -> Seq<char>
    decreases items.len(),
{
    if items.len() == 0 {
        Seq::empty()
    } else if items.len() == 1 {
        items[0]
    } else {
        joined(items.drop_last(), sep) + sep + items.last()
    }
}

/// `items` joined with `sep`, as `[String]::join` does.
pub fn join_strings(items: &Vec<String>, sep: &str) -> (s: String)
    ensures
        s@ == joined(strings_view(items@), sep@),
{
    let mut s = String::new();
    let mut i: usize = 0;
    while i < items.len()
        invariant
            i <= items@.len(),
            s@ == joined(strings_view(items@).take(i as int), sep@),
        decreases items@.len() - i,
    {
        assert(strings_view(items@).take(i + 1).drop_last() =~= strings_view(items@).take(i as int));
        if i > 0 {
            s.append(sep);
        }
        s.append(items[i].as_str());
        i = i + 1;
    }
    assert(strings_view(items@).take(i as int) =~= strings_view(items@));
    s
}

/// The overall analysis state of a project from its two layers.
pub open spec fn analysis_status_text(l0: AnalysisLayerStatus, l1: AnalysisLayerStatus) -> Seq<char> {
    if l0 == AnalysisLayerStatus::Completed && l1 == AnalysisLayerStatus::Completed {
        "Ready"@
    } else if l0 == AnalysisLayerStatus::InProgress || l1 == AnalysisLayerStatus::InProgress {
        "Analyzing..."@
    } else if l0 == AnalysisLayerStatus::Failed || l1 == AnalysisLayerStatus::Failed {
        "Analysis Failed"@
    } else {
        "Pending Analysis"@
    }
}

pub fn analysis_status(l0: AnalysisLayerStatus, l1: AnalysisLayerStatus) -> (s: &'static str)
    ensures
        s@ == analysis_status_text(l0, l1),
{
    if l0 == AnalysisLayerStatus::Completed && l1 == AnalysisLayerStatus::Completed {
        "Ready"
    } else if l0 == AnalysisLayerStatus::InProgress || l1 == AnalysisLayerStatus::InProgress {
        "Analyzing..."
    } else if l0 == AnalysisLayerStatus::Failed || l1 == AnalysisLayerStatus::Failed {
        "Analysis Failed"
    } else {
        "Pending Analysis"
    }
}

pub open spec fn layer_text(s: AnalysisLayerStatus) -> Seq<char> {
    match s {
        AnalysisLayerStatus::Pending => "Pending"@,
        AnalysisLayerStatus::InProgress => "In Progress"@,
        AnalysisLayerStatus::Completed => "Completed"@,
        AnalysisLayerStatus::Failed => "Failed"@,
    }
}

pub fn layer_label(s: AnalysisLayerStatus) -> (r: &'static str)
    ensures
        r@ == layer_text(s),
{
    match s {
        AnalysisLayerStatus::Pending => "Pending",
        AnalysisLayerStatus::InProgress => "In Progress",
        AnalysisLayerStatus::Completed => "Completed",
        AnalysisLayerStatus::Failed => "Failed",
    }
}

/// `line` when `cond` holds, else nothing.
pub open spec fn when(cond: bool, line: Seq<char>) -> Seq<Seq<char>> {
    if cond { seq![line] } else { Seq::empty() }
}

/// The name, path and language lines of a project.
pub open spec fn head_lines(m: ProjectMetadata) -> Seq<Seq<char>> {
    seq![rule(), "  Project: "@ + m.name@, "  Path: "@ + m.root_path@, "  Language: "@ + m.language@]
        + when(m.frameworks@.len() > 0, "  Frameworks: "@ + joined(strings_view(m.frameworks@), ", "@))
}

/// The summary shown when a project is opened.
pub open spec fn project_info_text(p: ProjectInfo) -> Seq<Seq<char>> {
    let m = p.metadata;
    head_lines(m) + seq!["  Status: "@ + analysis_status_text(m.layer0_status, m.layer1_status)]
        + when(m.needs_refresh, "  ⚠ Project needs refresh"@) + seq![rule()]
        + when(!p.exists, "New project initialized. Analysis will run in background."@)
}

/// The details shown for a project.
pub open spec fn metadata_text(m: ProjectMetadata) -> Seq<Seq<char>> {
    head_lines(m) + seq![
        "  Created: "@ + m.created_at@,
        "  Last accessed: "@ + m.last_accessed@,
        "  Layer 0 (Files): "@ + layer_text(m.layer0_status),
        "  Layer 1 (Symbols): "@ + layer_text(m.layer1_status),
    ] + match m.last_analysis_time {
        Some(t) => seq!["  Last analysis: "@ + t@],
        None => Seq::empty(),
    } + when(m.needs_refresh, "  ⚠ Needs refresh"@) + when(
        m.skills@.len() > 0,
        "  Skills: "@ + joined(strings_view(m.skills@), ", "@),
    ) + seq![rule()]
}

/// The lines of the `i`-th project (counted from 0) of a list.
pub open spec fn list_entry(i: nat, p: ProjectInfo) -> Seq<Seq<char>> {
    seq![
        "  "@ + decimal(i + 1) + ". "@ + p.metadata.name@,
        "     Path: "@ + p.metadata.root_path@,
        "     Language: "@ + p.metadata.language@,
        "     Last accessed: "@ + p.metadata.last_accessed@,
        Seq::empty(),
    ]
}

/// The entries of `ps`, from position `start`.
pub open spec fn list_entries(ps: Seq<ProjectInfo>) -> Seq<Seq<char>>
    decreases ps.len(),
{
    if ps.len() == 0 {
        Seq::empty()
    } else {
        list_entries(ps.drop_last()) + list_entry((ps.len() - 1) as nat, ps.last())
    }
}

/// The project list.
pub open spec fn project_list_text(ps: Seq<ProjectInfo>) -> Seq<Seq<char>> {
    seq![rule(), "  Total projects: "@ + decimal(ps.len()), rule()] + list_entries(ps) + when(
        ps.len() == 0,
        "  No projects found"@,
    ) + seq![rule()]
}

/// The front end after `lines` are logged as system messages: only the log
/// and the scroll position change.
pub open spec fn logged_system(a: App, b: App, lines: Seq<Seq<char>>) -> bool {
    &&& b == (App { output_lines: b.output_lines, scroll: b.scroll, ..a })
    &&& b.log() == log_after_all(a.log(), lines.map_values(|l: Seq<char>| system(l)))
    &&& b.scroll == if lines.len() > 0 { last_index(b.log().len()) } else { a.scroll as nat }
}

proof fn lemma_log_all_push(log: Seq<Seq<char>>, lines: Seq<Seq<char>>, line: Seq<char>)
    ensures
        log_after_all(log, lines.push(line)) == log_after(log_after_all(log, lines), line),
{
    assert(lines.push(line).drop_last() =~= lines);
}

/// Log each of `lines` as a system message, in order.
pub fn add_system_lines(app: &mut App, lines: &Vec<String>)
    ensures
        logged_system(*old(app), *final(app), strings_view(lines@)),
{
    let ghost a = *app;
    let ghost ls = strings_view(lines@);
    let mut i: usize = 0;
    assert(ls.take(0).map_values(|l: Seq<char>| system(l)) =~= Seq::<Seq<char>>::empty());
    while i < lines.len()
        invariant
            i <= lines@.len(),
            ls == strings_view(lines@),
            *app == (App { output_lines: app.output_lines, scroll: app.scroll, ..a }),
            app.log() == log_after_all(a.log(), ls.take(i as int).map_values(|l: Seq<char>| system(l))),
            app.scroll == if i > 0 { last_index(app.log().len()) } else { a.scroll as nat },
        decreases lines@.len() - i,
    {
        app.add_system_message(lines[i].as_str());
        proof {
            let prev = ls.take(i as int).map_values(|l: Seq<char>| system(l));
            assert(ls.take(i + 1).map_values(|l: Seq<char>| system(l)) =~= prev.push(system(ls[i as int])));
            lemma_log_all_push(a.log(), prev, system(ls[i as int]));
        }
        i = i + 1;
    }
    assert(ls.take(i as int) =~= ls);
}

fn push_str(v: &mut Vec<String>, a: &str, b: &str)
    ensures
        strings_view(final(v)@) == strings_view(old(v)@).push(a@ + b@),
{
    v.push(concat_str(a, b));
    assert(strings_view(v@) =~= strings_view(old(v)@).push(a@ + b@));
}

fn push_line(v: &mut Vec<String>, a: &str)
    ensures
        strings_view(final(v)@) == strings_view(old(v)@).push(a@),
{
    v.push(String::from_str(a));
    assert(strings_view(v@) =~= strings_view(old(v)@).push(a@));
}

fn head(m: &ProjectMetadata) -> (v: Vec<String>)
    ensures
        strings_view(v@) == head_lines(*m),
{
    proof {
        reveal_strlit("═══════════════════════════════════════");
    }
    let mut v: Vec<String> = Vec::new();
    push_line(&mut v, "═══════════════════════════════════════");
    push_str(&mut v, "  Project: ", m.name.as_str());
    push_str(&mut v, "  Path: ", m.root_path.as_str());
    push_str(&mut v, "  Language: ", m.language.as_str());
    if m.frameworks.len() > 0 {
        let j = join_strings(&m.frameworks, ", ");
        push_str(&mut v, "  Frameworks: ", j.as_str());
    }
    assert(strings_view(v@) =~= head_lines(*m));
    v
}

/// The summary lines of an opened project.
pub fn project_info_lines(p: &ProjectInfo) -> (v: Vec<String>)
    ensures
        strings_view(v@) == project_info_text(*p),
{
    let m = &p.metadata;
    let mut v = head(m);
    let ghost h = strings_view(v@);
    push_str(&mut v, "  Status: ", analysis_status(m.layer0_status, m.layer1_status));
    if m.needs_refresh {
        push_line(&mut v, "  ⚠ Project needs refresh");
    }
    push_line(&mut v, "═══════════════════════════════════════");
    if !p.exists {
        push_line(&mut v, "New project initialized. Analysis will run in background.");
    }
    assert(strings_view(v@) =~= project_info_text(*p));
    v
}

/// The detail lines of a project.
pub fn metadata_lines(m: &ProjectMetadata) -> (v: Vec<String>)
    ensures
        strings_view(v@) == metadata_text(*m),
{
    let mut v = head(m);
    push_str(&mut v, "  Created: ", m.created_at.as_str());
    push_str(&mut v, "  Last accessed: ", m.last_accessed.as_str());
    push_str(&mut v, "  Layer 0 (Files): ", layer_label(m.layer0_status));
    push_str(&mut v, "  Layer 1 (Symbols): ", layer_label(m.layer1_status));
    match &m.last_analysis_time {
        Some(t) => push_str(&mut v, "  Last analysis: ", t.as_str()),
        None => {},
    }
    if m.needs_refresh {
        push_line(&mut v, "  ⚠ Needs refresh");
    }
    if m.skills.len() > 0 {
        let j = join_strings(&m.skills, ", ");
        push_str(&mut v, "  Skills: ", j.as_str());
    }
    push_line(&mut v, "═══════════════════════════════════════");
    assert(strings_view(v@) =~= metadata_text(*m));
    v
}

/// The lines of a project list.
pub fn project_list_lines(ps: &Vec<ProjectInfo>) -> (v: Vec<String>)
    ensures
        strings_view(v@) == project_list_text(ps@),
{
    let mut v: Vec<String> = Vec::new();
    push_line(&mut v, "═══════════════════════════════════════");
    let n = decimal_string(ps.len() as u64);
    push_str(&mut v, "  Total projects: ", n.as_str());
    push_line(&mut v, "═══════════════════════════════════════");
    let ghost start = strings_view(v@);
    let mut i: usize = 0;
    while i < ps.len()
        invariant
            i <= ps@.len(),
            strings_view(v@) == start + list_entries(ps@.take(i as int)),
        decreases ps@.len() - i,
    {
        assert(ps@.take(i + 1).drop_last() =~= ps@.take(i as int));
        let m = &ps[i].metadata;
        let ghost prev = strings_view(v@);
        let k = decimal_string((i + 1) as u64);
        let a = concat_str("  ", k.as_str());
        let b = concat_str(a.as_str(), ". ");
        push_str(&mut v, b.as_str(), m.name.as_str());
        push_str(&mut v, "     Path: ", m.root_path.as_str());
        push_str(&mut v, "     Language: ", m.language.as_str());
        push_str(&mut v, "     Last accessed: ", m.last_accessed.as_str());
        push_line(&mut v, "");
        proof {
            reveal_strlit("");
            assert(list_entries(ps@.take(i + 1)) =~= list_entries(ps@.take(i as int)) + list_entry(
                i as nat,
                ps@[i as int],
            ));
            let e = list_entry(i as nat, ps@[i as int]);
            assert(e[0] == b@ + m.name@);
            assert(e[4] == ""@);
            assert(strings_view(v@) =~= prev + e);
            assert(strings_view(v@) =~= start + list_entries(ps@.take(i + 1)));
        }
        i = i + 1;
    }
    assert(ps@.take(i as int) =~= ps@);
    if ps.len() == 0 {
        push_line(&mut v, "  No projects found");
    }
    push_line(&mut v, "═══════════════════════════════════════");
    assert(strings_view(v@) =~= project_list_text(ps@));
    v
}

/// Show an opened project.
pub fn display_project_info(app: &mut App, p: &ProjectInfo)
    ensures
        logged_system(*old(app), *final(app), project_info_text(*p)),
{
    let lines = project_info_lines(p);
    add_system_lines(app, &lines);
}

/// Show a project's details.
pub fn display_project_metadata(app: &mut App, m: &ProjectMetadata)
    ensures
        logged_system(*old(app), *final(app), metadata_text(*m)),
{
    let lines = metadata_lines(m);
    add_system_lines(app, &lines);
}

/// Show the known projects.
pub fn display_project_list(app: &mut App, ps: &Vec<ProjectInfo>)
    ensures
        logged_system(*old(app), *final(app), project_list_text(ps@)),
{
    let lines = project_list_lines(ps);
    add_system_lines(app, &lines);
}

/// How a `/confirm` action word settles a confirmation: `approve`,
/// `reject`, `edit` with the feedback (empty when none); anything else
/// approves.
pub fn confirm_action(action: &str, feedback: Option<String>) -> (c: ConfirmAction)
    ensures
        action@ == "reject"@ ==> c == ConfirmAction::Reject,
        action@ == "edit"@ ==> (c matches ConfirmAction::Edit(f) && f@ == match feedback {
            Some(x) => x@,
            None => Seq::<char>::empty(),
        }),
        action@ != "reject"@ && action@ != "edit"@ ==> c == ConfirmAction::Approve,
{
    proof {
        reveal_strlit("approve");
        reveal_strlit("reject");
        reveal_strlit("edit");
        assert("approve"@.len() == 7 && "reject"@.len() == 6 && "edit"@.len() == 4);
    }
    if crate::text::same_text(action, "approve") {
        ConfirmAction::Approve
    } else if crate::text::same_text(action, "reject") {
        ConfirmAction::Reject
    } else if crate::text::same_text(action, "edit") {
        ConfirmAction::Edit(
            match feedback {
                Some(x) => x,
                None => String::new(),
            },
        )
    } else {
        ConfirmAction::Approve
    }
}

/// The front end after an engine answer: text is logged as the engine's
/// message, errors as errors, plan progress as system messages, and a
/// request for confirmation or continuation opens its dialog and logs a
/// prompt.
pub open spec fn response_shown(a: App, b: App, r: EngineResponse) -> bool {
    match r {
        EngineResponse::Text(t) => b.log() == log_after(a.log(), "[arrow] "@ + t@) && b == (App {
            output_lines: b.output_lines,
            scroll: b.scroll,
            ..a
        }),
        EngineResponse::PlanCreated { plan_id, message } => logged_system(
            a,
            b,
            seq!["Plan created: "@ + plan_id@ + " ("@ + message@ + ")"@],
        ),
        EngineResponse::StepCompleted { step, result } => logged_system(
            a,
            b,
            seq!["Step completed: "@ + step@ + " - "@ + result@],
        ),
        EngineResponse::WaitingForInput { prompt } => logged_system(a, b, seq!["Waiting for input: "@ + prompt@]),
        EngineResponse::PlanFinished { message } => logged_system(a, b, seq!["Plan finished: "@ + message@]),
        EngineResponse::Error(e) => b.log() == log_after(a.log(), error("Error: "@ + e@)) && b == (App {
            output_lines: b.output_lines,
            scroll: b.scroll,
            ..a
        }),
        EngineResponse::NeedConfirmation { confirmation_id, description, files, preview } => {
            &&& b.confirmation_dialog matches Some(d) && d.id == confirmation_id && d.description == description
                && d.files == files && d.preview == preview && d.visible
            &&& logged_system(
                App { confirmation_dialog: b.confirmation_dialog, ..a },
                b,
                seq![
                    "🔒 Pending confirmation: "@ + decimal(files@.len())
                        + " files to modify (press Y to accept, N to reject)"@,
                ],
            )
        },
        EngineResponse::NeedContinuation { session_id, current_iteration, max_iterations, progress } => {
            &&& b.continuation_dialog matches Some(d) && d.session_id == session_id && d.current_iteration
                == current_iteration && d.max_iterations == max_iterations && d.progress == progress && d.visible
            &&& logged_system(
                App { continuation_dialog: b.continuation_dialog, ..a },
                b,
                seq![
                    "⏸️ Task reached iteration limit ("@ + decimal(current_iteration as nat) + "/"@ + decimal(
                        max_iterations as nat,
                    ) + "). Press C to continue or S to stop."@,
                ],
            )
        },
    }
}

proof fn lemma_log_one(log: Seq<Seq<char>>, line: Seq<char>)
    ensures
        log_after_all(log, seq![line]) == log_after(log, line),
{
    assert(seq![line].drop_last() =~= Seq::<Seq<char>>::empty());
    assert(log_after_all(log, Seq::<Seq<char>>::empty()) == log);
}

fn system_line(app: &mut App, text: String)
    ensures
        logged_system(*old(app), *final(app), seq![text@]),
{
    app.add_system_message(text.as_str());
    proof {
        assert(seq![text@].map_values(|l: Seq<char>| system(l)) =~= seq![system(text@)]);
        lemma_log_one(old(app).log(), system(text@));
    }
}

/// Show an answer of the engine.
pub fn handle_engine_response(app: &mut App, response: EngineResponse)
    ensures
        response_shown(*old(app), *final(app), response),
{
    match response {
        EngineResponse::Text(text) => {
            app.add_arrow_message(text.as_str());
        },
        EngineResponse::PlanCreated { plan_id, message } => {
            let a = concat_str("Plan created: ", plan_id.as_str());
            let b = concat_str(a.as_str(), " (");
            let c = concat_str(b.as_str(), message.as_str());
            system_line(app, concat_str(c.as_str(), ")"));
        },
        EngineResponse::StepCompleted { step, result } => {
            let a = concat_str("Step completed: ", step.as_str());
            let b = concat_str(a.as_str(), " - ");
            system_line(app, concat_str(b.as_str(), result.as_str()));
        },
        EngineResponse::WaitingForInput { prompt } => {
            system_line(app, concat_str("Waiting for input: ", prompt.as_str()));
        },
        EngineResponse::PlanFinished { message } => {
            system_line(app, concat_str("Plan finished: ", message.as_str()));
        },
        EngineResponse::Error(e) => {
            let m = concat_str("Error: ", e.as_str());
            app.add_error_message(m.as_str());
        },
        EngineResponse::NeedConfirmation { confirmation_id, description, files, preview } => {
            let n = decimal_string(files.len() as u64);
            app.show_confirmation(confirmation_id, description, files, preview);
            let a = concat_str("🔒 Pending confirmation: ", n.as_str());
            system_line(app, concat_str(a.as_str(), " files to modify (press Y to accept, N to reject)"));
        },
        EngineResponse::NeedContinuation { session_id, current_iteration, max_iterations, progress } => {
            app.show_continuation_dialog(session_id, current_iteration, max_iterations, progress);
            let c = decimal_string(current_iteration as u64);
            let m = decimal_string(max_iterations as u64);
            let a = concat_str("⏸️ Task reached iteration limit (", c.as_str());
            let b = concat_str(a.as_str(), "/");
            let d = concat_str(b.as_str(), m.as_str());
            system_line(app, concat_str(d.as_str(), "). Press C to continue or S to stop."));
        },
    }
}

/// An engine answer as the IDE protocol reports it.
#[derive(Debug, Clone)]
pub enum ProcessInputResponse {
    Text { content: String },
    PlanCreated { plan_id: String, message: String },
    StepCompleted { step: String, result: String },
    WaitingForInput { prompt: String },
    PlanFinished { message: String },
    Error { message: String },
    NeedConfirmation { confirmation_id: String, description: String, files: Vec<String>, preview: Option<String> },
}

/// An engine answer for the IDE protocol: the same answer, except that a
/// request to continue past the iteration limit becomes a text naming the
/// iteration, the progress and the session.
pub fn convert_response(r: EngineResponse) -> (p: ProcessInputResponse)
    ensures
        match r {
            EngineResponse::Text(t) => p == ProcessInputResponse::Text { content: t },
            EngineResponse::PlanCreated { plan_id, message } => p == ProcessInputResponse::PlanCreated {
                plan_id,
                message,
            },
            EngineResponse::StepCompleted { step, result } => p == ProcessInputResponse::StepCompleted {
                step,
                result,
            },
            EngineResponse::WaitingForInput { prompt } => p == ProcessInputResponse::WaitingForInput { prompt },
            EngineResponse::PlanFinished { message } => p == ProcessInputResponse::PlanFinished { message },
            EngineResponse::Error(e) => p == ProcessInputResponse::Error { message: e },
            EngineResponse::NeedConfirmation { confirmation_id, description, files, preview } => p
                == ProcessInputResponse::NeedConfirmation { confirmation_id, description, files, preview },
            EngineResponse::NeedContinuation { session_id, current_iteration, max_iterations, progress } => p matches ProcessInputResponse::Text {
                content,
            } && content@ == "Task reached iteration limit ("@ + decimal(current_iteration as nat) + "/"@
                + decimal(max_iterations as nat) + "). Progress: "@ + progress@ + "\n\nSession: "@ + session_id@,
        },
{
    match r {
        EngineResponse::Text(t) => ProcessInputResponse::Text { content: t },
        EngineResponse::PlanCreated { plan_id, message } => ProcessInputResponse::PlanCreated { plan_id, message },
        EngineResponse::StepCompleted { step, result } => ProcessInputResponse::StepCompleted { step, result },
        EngineResponse::WaitingForInput { prompt } => ProcessInputResponse::WaitingForInput { prompt },
        EngineResponse::PlanFinished { message } => ProcessInputResponse::PlanFinished { message },
        EngineResponse::Error(e) => ProcessInputResponse::Error { message: e },
        EngineResponse::NeedConfirmation { confirmation_id, description, files, preview } => {
            ProcessInputResponse::NeedConfirmation { confirmation_id, description, files, preview }
        },
        EngineResponse::NeedContinuation { session_id, current_iteration, max_iterations, progress } => {
            let c = decimal_string(current_iteration as u64);
            let m = decimal_string(max_iterations as u64);
            let a = concat_str("Task reached iteration limit (", c.as_str());
            let b = concat_str(a.as_str(), "/");
            let d = concat_str(b.as_str(), m.as_str());
            let e = concat_str(d.as_str(), "). Progress: ");
            let f = concat_str(e.as_str(), progress.as_str());
            let g = concat_str(f.as_str(), "\n\nSession: ");
            ProcessInputResponse::Text { content: concat_str(g.as_str(), session_id.as_str()) }
        },
    }
}

} // verus!
