//! The Things 3 commands. Each command is a request: a script to run and
//! what the library waits for. Running a script is left to the caller, who
//! hands its output (or its failure) back to `Pending::advance`; that either
//! finishes the command with its answer or asks for one more script.
use vstd::prelude::*;
use crate::models::{
    Area, AreaView, CreateTask, CreateTaskView, Project, ProjectView, Tag, Task, TaskView,
    UpdateTask, UpdateTaskView, res_view, views,
};
use crate::records::{
    area_records, areas_from_output, output_lines, project_records, projects_from_output,
    tags_from_output, tags_output, task_from_output, task_output, tasks_from_output, tasks_output,
};
use crate::scripts::{
    complete_script, complete_script_text, create_script, create_script_text, delete_script,
    delete_script_text, tasks_script, tasks_script_text, task_script, task_script_text,
    update_changes, update_changes_text, update_script, update_script_text, AREAS_SCRIPT,
    EMPTY_TRASH_SCRIPT, PROJECTS_SCRIPT, TAGS_SCRIPT,
};
use crate::text::{
    append_str, chars_of, contains, free_of, join, lemma_contains_middle, lemma_contains_within,
    lemma_join_contains, opt_text, string_of, terminated_lines, trim, trimmed,
};
use crate::escape::{escaped, law_escape_reads_back, literal_value};
use crate::records::{law_output_lines_read_back, law_page_whole, task_records};
use crate::scripts::{
    move_list_name, quoted_list_text, MOVE_TO_LIST, OF_THINGS, UPDATE_SCRIPT_MID, UPDATE_SCRIPT_TAIL,
    UPDATE_SEP, SET_NAME, SET_NOTES, CLEAR_DUE, SET_DUE, DATE_END, SET_TAGS, LIST_END,
    MOVE_TO_PROJECT, QUOTE, TODAY_FILTER, UPCOMING_FILTER, ANYTIME_FILTER, SOMEDAY_FILTER,
    TODAY_NAME, UPCOMING_NAME, ANYTIME_NAME, SOMEDAY_NAME, INBOX_NAME, due_change_text,
    create_move_text, create_props_text, create_tags_text, create_checklist_text, INBOX_FILTER,
    TASK_SCRIPT_HEAD, TASK_SCRIPT_TAIL,
};

verus! {

/// What a command waits for from the script it asked to run.
#[derive(Debug, Clone, PartialEq, Eq)]
pub enum Pending {
    /// Task records, one per line, to be paged.
    TaskList { limit: Option<usize>, offset: Option<usize> },
    /// One task record.
    SingleTask,
    /// The id of a task just created.
    CreatedId,
    /// The end of a change to a task, after which the task is read again.
    Modified { task_id: String },
    /// The end of a removal.
    Removed,
    /// Project records, one per line.
    ProjectList,
    /// Tag names, one per line.
    TagList,
    /// Area records, one per line.
    AreaList,
}

/// A script to run, and what the command then waits for.
#[derive(Debug, Clone, PartialEq, Eq)]
pub struct Request {
    pub script: String,
    pub pending: Pending,
}

/// The answer of a finished command.
#[derive(Debug, Clone, PartialEq, Eq)]
pub enum Reply {
    Tasks(Vec<Task>),
    Task(Task),
    Projects(Vec<Project>),
    Tags(Vec<Tag>),
    Areas(Vec<Area>),
    Done,
}

/// What a command does next: run one more script, or finish.
#[derive(Debug, PartialEq, Eq)]
pub enum Progress {
    Run(Request),
    Finished(Result<Reply, String>),
}

// ---------------------------------------------------------------------------
// Views
// ---------------------------------------------------------------------------

/// What a command waits for.
pub enum PendingView {
    TaskList { limit: Option<usize>, offset: Option<usize> },
    SingleTask,
    CreatedId,
    Modified { task_id: Seq<char> },
    Removed,
    ProjectList,
    TagList,
    AreaList,
}

/// A script to run and what follows it.
pub struct RequestView {
    pub script: Seq<char>,
    pub pending: PendingView,
}

/// The answer of a finished command.
pub enum ReplyView {
    Tasks(Seq<TaskView>),
    Task(TaskView),
    Projects(Seq<ProjectView>),
    Tags(Seq<Seq<char>>),
    Areas(Seq<AreaView>),
    Done,
}

/// What a command does next.
pub enum ProgressView {
    Run(RequestView),
    Finished(Result<ReplyView, Seq<char>>),
}

impl View for Pending {
    type V = PendingView;

    open spec fn view(&self) -> PendingView {
        match self {
            Pending::TaskList { limit, offset } => PendingView::TaskList {
                limit: *limit,
                offset: *offset,
            },
            Pending::SingleTask => PendingView::SingleTask,
            Pending::CreatedId => PendingView::CreatedId,
            Pending::Modified { task_id } => PendingView::Modified { task_id: task_id@ },
            Pending::Removed => PendingView::Removed,
            Pending::ProjectList => PendingView::ProjectList,
            Pending::TagList => PendingView::TagList,
            Pending::AreaList => PendingView::AreaList,
        }
    }
}

impl View for Request {
    type V = RequestView;

    open spec fn view(&self) -> RequestView {
        RequestView { script: self.script@, pending: self.pending@ }
    }
}

impl View for Reply {
    type V = ReplyView;

    open spec fn view(&self) -> ReplyView {
        match self {
            Reply::Tasks(ts) => ReplyView::Tasks(views(ts@)),
            Reply::Task(t) => ReplyView::Task(t@),
            Reply::Projects(ps) => ReplyView::Projects(views(ps@)),
            Reply::Tags(ts) => ReplyView::Tags(views(ts@)),
            Reply::Areas(a) => ReplyView::Areas(views(a@)),
            Reply::Done => ReplyView::Done,
        }
    }
}

impl View for Progress {
    type V = ProgressView;

    open spec fn view(&self) -> ProgressView {
        match self {
            Progress::Run(r) => ProgressView::Run(r@),
            Progress::Finished(Ok(r)) => ProgressView::Finished(Ok(r@)),
            Progress::Finished(Err(e)) => ProgressView::Finished(Err(e@)),
        }
    }
}

// ---------------------------------------------------------------------------
// Definitions
// ---------------------------------------------------------------------------

/// Listing the tasks of a list, paged.
pub open spec fn tasks_request(
    filter: Option<Seq<char>>,
    limit: Option<usize>,
    offset: Option<usize>,
) -> RequestView {
    RequestView {
        script: tasks_script_text(filter),
        pending: PendingView::TaskList { limit, offset },
    }
}

/// Reading one task.
pub open spec fn task_request(id: Seq<char>) -> RequestView {
    RequestView { script: task_script_text(id), pending: PendingView::SingleTask }
}

/// Creating a task, which is then read by the id the creation printed.
pub open spec fn create_request(p: CreateTaskView) -> RequestView {
    RequestView { script: create_script_text(p), pending: PendingView::CreatedId }
}

/// Updating a task: with no change asked for, just reading it; else
/// applying the changes, then reading it.
pub open spec fn update_request(id: Seq<char>, p: UpdateTaskView) -> RequestView {
    let changes = update_changes_text(p);
    if changes.len() == 0 {
        task_request(id)
    } else {
        RequestView {
            script: update_script_text(id, changes),
            pending: PendingView::Modified { task_id: id },
        }
    }
}

/// Completing a task, then reading it.
pub open spec fn complete_request(id: Seq<char>) -> RequestView {
    RequestView {
        script: complete_script_text(id),
        pending: PendingView::Modified { task_id: id },
    }
}

/// Deleting a task.
pub open spec fn delete_request(id: Seq<char>) -> RequestView {
    RequestView { script: delete_script_text(id), pending: PendingView::Removed }
}

/// Listing the projects.
pub open spec fn projects_request() -> RequestView {
    RequestView { script: PROJECTS_SCRIPT@, pending: PendingView::ProjectList }
}

/// Listing the tags.
pub open spec fn tags_request() -> RequestView {
    RequestView { script: TAGS_SCRIPT@, pending: PendingView::TagList }
}

/// Listing the areas.
pub open spec fn areas_request() -> RequestView {
    RequestView { script: AREAS_SCRIPT@, pending: PendingView::AreaList }
}

/// Emptying the trash.
pub open spec fn empty_trash_request() -> RequestView {
    RequestView { script: EMPTY_TRASH_SCRIPT@, pending: PendingView::Removed }
}

/// A finished command whose answer is read from the script's output.
pub open spec fn finish_with<V>(r: Result<V, Seq<char>>, wrap: spec_fn(V) -> ReplyView) -> ProgressView {
    match r {
        Ok(v) => ProgressView::Finished(Ok(wrap(v))),
        Err(e) => ProgressView::Finished(Err(e)),
    }
}

/// What follows when the script asked for gives `output`: a failure ends the
/// command with that failure; else the output is read as `pending` says.
pub open spec fn next_step(pending: PendingView, output: Result<Seq<char>, Seq<char>>) -> ProgressView {
    match output {
        Err(e) => ProgressView::Finished(Err(e)),
        Ok(raw) => match pending {
            PendingView::TaskList { limit, offset } => finish_with(
                tasks_output(raw, limit, offset),
                |ts: Seq<TaskView>| ReplyView::Tasks(ts),
            ),
            PendingView::SingleTask => finish_with(
                task_output(raw),
                |t: TaskView| ReplyView::Task(t),
            ),
            PendingView::CreatedId => ProgressView::Run(task_request(trim(raw))),
            PendingView::Modified { task_id } => ProgressView::Run(task_request(task_id)),
            PendingView::Removed => ProgressView::Finished(Ok(ReplyView::Done)),
            PendingView::ProjectList => finish_with(
                project_records(output_lines(raw)),
                |ps: Seq<ProjectView>| ReplyView::Projects(ps),
            ),
            PendingView::TagList => ProgressView::Finished(Ok(ReplyView::Tags(tags_output(raw)))),
            PendingView::AreaList => finish_with(
                area_records(output_lines(raw)),
                |a: Seq<AreaView>| ReplyView::Areas(a),
            ),
        },
    }
}

// ---------------------------------------------------------------------------
// Laws
// ---------------------------------------------------------------------------

/// A script that fails ends the command with that failure, whatever the
/// command waited for.
pub proof fn law_failure_ends_command(pending: PendingView, e: Seq<char>)
    ensures
        next_step(pending, Err(e)) == ProgressView::Finished(Err::<ReplyView, Seq<char>>(e)),
{
}

/// Creating a task answers what reading the task by the id that the
/// creation printed (trimmed) answers.
pub proof fn law_created_task_is_read_back(
    p: CreateTaskView,
    created: Seq<char>,
    fetched: Result<Seq<char>, Seq<char>>,
)
    ensures
        create_request(p).pending == PendingView::CreatedId,
        next_step(PendingView::CreatedId, Ok(created)) == ProgressView::Run(task_request(trim(created))),
        next_step(task_request(trim(created)).pending, fetched) == next_step(
            PendingView::SingleTask,
            fetched,
        ),
{
}

/// Completing a task, or updating it with a change, reads the task again
/// once the change is made.
pub proof fn law_changed_task_is_read_back(id: Seq<char>, p: UpdateTaskView, out: Seq<char>)
    ensures
        complete_request(id).pending == (PendingView::Modified { task_id: id }),
        update_changes_text(p).len() > 0 ==> update_request(id, p).pending == (PendingView::Modified {
            task_id: id,
        }),
        next_step(PendingView::Modified { task_id: id }, Ok(out)) == ProgressView::Run(task_request(id)),
{
}

/// An update that asks for no change (all of title, notes, due date, tags,
/// project and list absent) just reads the task; any of them present makes
/// it change the task first.
pub proof fn law_update_without_changes_reads(id: Seq<char>, p: UpdateTaskView)
    ensures
        (p.title is None && p.notes is None && p.due_date is None && p.tags is None && p.project is None
            && p.list is None) ==> update_request(id, p) == task_request(id),
        !(p.title is None && p.notes is None && p.due_date is None && p.tags is None && p.project
            is None && p.list is None) ==> update_request(id, p).pending == (PendingView::Modified {
            task_id: id,
        }),
{
}

/// Deleting a task and emptying the trash answer nothing once their script
/// has run.
pub proof fn law_removal_answers_done(id: Seq<char>, out: Seq<char>)
    ensures
        delete_request(id).pending == PendingView::Removed,
        empty_trash_request().pending == PendingView::Removed,
        next_step(PendingView::Removed, Ok(out)) == ProgressView::Finished(
            Ok::<ReplyView, Seq<char>>(ReplyView::Done),
        ),
{
}

/// Listing with no filter, with an empty filter, and with `inbox` reads the
/// same list: the Inbox.
pub proof fn law_inbox_is_the_default()
    ensures
        tasks_script_text(None) == tasks_script_text(Some(Seq::<char>::empty())),
        tasks_script_text(None) == tasks_script_text(Some(INBOX_FILTER@)),
{
}

/// An unpaged listing answers every record that the script printed, one
/// per line, read as a task (or the first record that does not read).
pub proof fn law_listing_reads_each_record(records: Seq<Seq<char>>)
    requires
        forall|i: int| 0 <= i < records.len() ==> free_of(#[trigger] records[i], '\n'),
        forall|i: int| 0 <= i < records.len() ==> (#[trigger] records[i]).len() > 0,
        forall|i: int| 0 <= i < records.len() ==> (#[trigger] records[i]).last() != '\r',
    ensures
        next_step(PendingView::TaskList { limit: None, offset: None }, Ok(terminated_lines(records)))
            == (match task_records(records) {
            Ok(ts) => ProgressView::Finished(Ok(ReplyView::Tasks(ts))),
            Err(e) => ProgressView::Finished(Err(e)),
        }),
{
    law_output_lines_read_back(records);
    if let Ok(ts) = task_records(records) {
        law_page_whole(ts);
    }
}

/// When a new task names a project, the list it names makes no difference:
/// the project takes priority.
pub proof fn law_project_takes_priority(p: CreateTaskView, list: Option<Seq<char>>)
    requires
        p.project is Some,
    ensures
        create_script_text(p) == create_script_text(CreateTaskView { list, ..p }),
{
    let q = CreateTaskView { list, ..p };
    assert(create_move_text(p) == create_move_text(q));
    assert(create_props_text(p) == create_props_text(q));
    assert(create_tags_text(p) == create_tags_text(q));
    assert(create_checklist_text(p) == create_checklist_text(q));
}

/// The script that reads a task names it by a string literal whose value,
/// as AppleScript reads it, is the task id, whatever the id holds.
pub proof fn law_task_id_is_quoted_exactly(id: Seq<char>)
    ensures
        exists|t: Seq<char>|
            task_request(id).script == TASK_SCRIPT_HEAD@ + t + TASK_SCRIPT_TAIL@ && literal_value(t)
                == Some(id),
{
    law_escape_reads_back(id);
    assert(task_request(id).script == TASK_SCRIPT_HEAD@ + escaped(id) + TASK_SCRIPT_TAIL@);
}

proof fn lemma_change_in_script(id: Seq<char>, p: UpdateTaskView, k: int)
    requires
        0 <= k < update_changes_text(p).len(),
    ensures
        contains(update_request(id, p).script, update_changes_text(p)[k]),
{
    let changes = update_changes_text(p);
    let j = join(changes, UPDATE_SEP@);
    lemma_join_contains(changes, UPDATE_SEP@, k);
    let a = TASK_SCRIPT_HEAD@ + escaped(id) + UPDATE_SCRIPT_MID@;
    lemma_contains_within(a, j, UPDATE_SCRIPT_TAIL@, changes[k]);
}

proof fn lemma_move_statements()
    ensures
        MOVE_TO_LIST@ + TODAY_NAME@ + OF_THINGS@ == "move t to list \"Today\" of application \"Things3\""@,
        MOVE_TO_LIST@ + UPCOMING_NAME@ + OF_THINGS@ == "move t to list \"Upcoming\" of application \"Things3\""@,
        MOVE_TO_LIST@ + ANYTIME_NAME@ + OF_THINGS@ == "move t to list \"Anytime\" of application \"Things3\""@,
        MOVE_TO_LIST@ + SOMEDAY_NAME@ + OF_THINGS@ == "move t to list \"Someday\" of application \"Things3\""@,
        MOVE_TO_LIST@ + INBOX_NAME@ + OF_THINGS@ == "move t to list \"Inbox\" of application \"Things3\""@,
{
    reveal_strlit("move t to list \"");
    reveal_strlit("\" of application \"Things3\"");
    reveal_strlit("Today");
    reveal_strlit("move t to list \"Today\" of application \"Things3\"");
    assert(MOVE_TO_LIST@ + TODAY_NAME@ + OF_THINGS@ =~= "move t to list \"Today\" of application \"Things3\""@);
    reveal_strlit("Upcoming");
    reveal_strlit("move t to list \"Upcoming\" of application \"Things3\"");
    assert(MOVE_TO_LIST@ + UPCOMING_NAME@ + OF_THINGS@ =~= "move t to list \"Upcoming\" of application \"Things3\""@);
    reveal_strlit("Anytime");
    reveal_strlit("move t to list \"Anytime\" of application \"Things3\"");
    assert(MOVE_TO_LIST@ + ANYTIME_NAME@ + OF_THINGS@ =~= "move t to list \"Anytime\" of application \"Things3\""@);
    reveal_strlit("Someday");
    reveal_strlit("move t to list \"Someday\" of application \"Things3\"");
    assert(MOVE_TO_LIST@ + SOMEDAY_NAME@ + OF_THINGS@ =~= "move t to list \"Someday\" of application \"Things3\""@);
    reveal_strlit("Inbox");
    reveal_strlit("move t to list \"Inbox\" of application \"Things3\"");
    assert(MOVE_TO_LIST@ + INBOX_NAME@ + OF_THINGS@ =~= "move t to list \"Inbox\" of application \"Things3\""@);
}

/// An update applies every change it asks for, to the task it names: the
/// new title, notes and tags; the due date set, or cleared when empty; the
/// move to the named project; and the move to the list the filter names
/// (Today, Upcoming, Anytime or Someday, the Inbox for anything else).
pub proof fn law_update_applies_each_change(id: Seq<char>, p: UpdateTaskView)
    ensures
        p.title matches Some(t) ==> contains(
            update_request(id, p).script,
            "set name of t to \""@ + escaped(t) + "\""@,
        ),
        p.notes matches Some(n) ==> contains(
            update_request(id, p).script,
            "set notes of t to \""@ + escaped(n) + "\""@,
        ),
        p.due_date == Some(Seq::<char>::empty()) ==> contains(
            update_request(id, p).script,
            "set due date of t to missing value"@,
        ),
        p.due_date matches Some(d) ==> (d.len() > 0 ==> contains(
            update_request(id, p).script,
            "set due date of t to (date \""@ + escaped(d) + "\")"@,
        )),
        p.tags matches Some(ts) ==> contains(
            update_request(id, p).script,
            "set tag names of t to {"@ + quoted_list_text(ts) + "}"@,
        ),
        p.project matches Some(pr) ==> contains(
            update_request(id, p).script,
            "move t to project \""@ + escaped(pr) + "\" of application \"Things3\""@,
        ),
        p.list == Some("today"@) ==> contains(
            update_request(id, p).script,
            "move t to list \"Today\" of application \"Things3\""@,
        ),
        p.list == Some("upcoming"@) ==> contains(
            update_request(id, p).script,
            "move t to list \"Upcoming\" of application \"Things3\""@,
        ),
        p.list == Some("anytime"@) ==> contains(
            update_request(id, p).script,
            "move t to list \"Anytime\" of application \"Things3\""@,
        ),
        p.list == Some("someday"@) ==> contains(
            update_request(id, p).script,
            "move t to list \"Someday\" of application \"Things3\""@,
        ),
        p.list matches Some(l) ==> (l != "today"@ && l != "upcoming"@ && l != "anytime"@ && l
            != "someday"@ ==> contains(
            update_request(id, p).script,
            "move t to list \"Inbox\" of application \"Things3\""@,
        )),
{
    let changes = update_changes_text(p);
    let e = Seq::<Seq<char>>::empty();
    let tl = match p.title { Some(t) => seq![SET_NAME@ + escaped(t) + QUOTE@], None => e };
    let nt = match p.notes { Some(n) => seq![SET_NOTES@ + escaped(n) + QUOTE@], None => e };
    let du = match p.due_date { Some(d) => seq![due_change_text(d)], None => e };
    let tg = match p.tags { Some(ts) => seq![SET_TAGS@ + quoted_list_text(ts) + LIST_END@], None => e };
    let pj = match p.project {
        Some(pr) => seq![MOVE_TO_PROJECT@ + escaped(pr) + OF_THINGS@],
        None => e,
    };
    let ls = match p.list { Some(l) => seq![MOVE_TO_LIST@ + move_list_name(l) + OF_THINGS@], None => e };
    assert(changes == tl + nt + du + tg + pj + ls);
    assert(SET_NAME@ == "set name of t to \""@);
    assert(SET_NOTES@ == "set notes of t to \""@);
    assert(QUOTE@ == "\""@);
    assert(CLEAR_DUE@ == "set due date of t to missing value"@);
    assert(SET_DUE@ == "set due date of t to (date \""@);
    assert(DATE_END@ == "\")"@);
    assert(SET_TAGS@ == "set tag names of t to {"@);
    assert(LIST_END@ == "}"@);
    assert(MOVE_TO_PROJECT@ == "move t to project \""@);
    assert(OF_THINGS@ == "\" of application \"Things3\""@);
    assert(MOVE_TO_LIST@ == "move t to list \""@);
    assert(TODAY_FILTER@ == "today"@ && TODAY_NAME@ == "Today"@);
    assert(UPCOMING_FILTER@ == "upcoming"@ && UPCOMING_NAME@ == "Upcoming"@);
    assert(ANYTIME_FILTER@ == "anytime"@ && ANYTIME_NAME@ == "Anytime"@);
    assert(SOMEDAY_FILTER@ == "someday"@ && SOMEDAY_NAME@ == "Someday"@);
    assert(INBOX_NAME@ == "Inbox"@);
    let k1 = tl.len() as int;
    let k2 = k1 + nt.len();
    let k3 = k2 + du.len();
    let k4 = k3 + tg.len();
    let k5 = k4 + pj.len();
    if p.title is Some {
        assert(changes[0] == tl[0]);
        lemma_change_in_script(id, p, 0);
    }
    if p.notes is Some {
        assert(changes[k1] == nt[0]);
        lemma_change_in_script(id, p, k1);
    }
    if let Some(d) = p.due_date {
        assert(changes[k2] == du[0]);
        lemma_change_in_script(id, p, k2);
    }
    if p.tags is Some {
        assert(changes[k3] == tg[0]);
        lemma_change_in_script(id, p, k3);
    }
    if p.project is Some {
        assert(changes[k4] == pj[0]);
        lemma_change_in_script(id, p, k4);
    }
    if let Some(l) = p.list {
        assert(changes[k5] == ls[0]);
        lemma_change_in_script(id, p, k5);
        crate::scripts::lemma_filters_distinct();
        lemma_move_statements();
    }
}

// ---------------------------------------------------------------------------
// Commands
// ---------------------------------------------------------------------------

fn fixed(script: &str, pending: Pending) -> (r: Request)
    ensures
        r.script@ == script@,
        r.pending == pending,
{
    let mut s = String::new();
    append_str(&mut s, script);
    Request { script: s, pending }
}

/// Lists the tasks of a Things 3 list (the Inbox by default), skipping
/// `offset` of them and keeping at most `limit`.
pub fn get_tasks(list_filter: Option<&str>, limit: Option<usize>, offset: Option<usize>) -> (r:
    Request)
    ensures
        r@ == tasks_request(opt_text(list_filter), limit, offset),
{
    Request { script: tasks_script(list_filter), pending: Pending::TaskList { limit, offset } }
}

/// Reads one task by its id.
pub fn get_task_by_id(task_id: &str) -> (r: Request)
    ensures
        r@ == task_request(task_id@),
{
    Request { script: task_script(task_id), pending: Pending::SingleTask }
}

/// Creates a task; the answer is the task as Things 3 then holds it.
pub fn create_task(payload: &CreateTask) -> (r: Request)
    ensures
        r@ == create_request(payload@),
{
    Request { script: create_script(payload), pending: Pending::CreatedId }
}

/// Changes a task; the answer is the task as Things 3 then holds it.
pub fn update_task(task_id: &str, payload: &UpdateTask) -> (r: Request)
    ensures
        r@ == update_request(task_id@, payload@),
{
    let changes = update_changes(payload);
    if changes.len() == 0 {
        return get_task_by_id(task_id);
    }
    let mut id = String::new();
    append_str(&mut id, task_id);
    Request { script: update_script(task_id, &changes), pending: Pending::Modified { task_id: id } }
}

/// Marks a task completed; the answer is the task as Things 3 then holds it.
pub fn complete_task(task_id: &str) -> (r: Request)
    ensures
        r@ == complete_request(task_id@),
{
    let mut id = String::new();
    append_str(&mut id, task_id);
    Request { script: complete_script(task_id), pending: Pending::Modified { task_id: id } }
}

/// Deletes a task.
pub fn delete_task(task_id: &str) -> (r: Request)
    ensures
        r@ == delete_request(task_id@),
{
    Request { script: delete_script(task_id), pending: Pending::Removed }
}

/// Lists the projects.
pub fn get_projects() -> (r: Request)
    ensures
        r@ == projects_request(),
{
    fixed(PROJECTS_SCRIPT, Pending::ProjectList)
}

/// Lists the tags.
pub fn get_tags() -> (r: Request)
    ensures
        r@ == tags_request(),
{
    fixed(TAGS_SCRIPT, Pending::TagList)
}

/// Lists the areas.
pub fn get_areas() -> (r: Request)
    ensures
        r@ == areas_request(),
{
    fixed(AREAS_SCRIPT, Pending::AreaList)
}

/// Empties the trash of Things 3.
pub fn empty_trash() -> (r: Request)
    ensures
        r@ == empty_trash_request(),
{
    fixed(EMPTY_TRASH_SCRIPT, Pending::Removed)
}

impl Pending {
    /// Takes the output of the script that was run for this command (or the
    /// failure to run it) and says what follows.
    pub fn advance(self, output: Result<String, String>) -> (p: Progress)
        ensures
            p@ == next_step(self@, res_view(output)),
    {
        match output {
            Err(e) => Progress::Finished(Err(e)),
            Ok(raw) => match self {
                Pending::TaskList { limit, offset } => match tasks_from_output(
                    raw.as_str(),
                    limit,
                    offset,
                ) {
                    Ok(ts) => Progress::Finished(Ok(Reply::Tasks(ts))),
                    Err(e) => Progress::Finished(Err(e)),
                },
                Pending::SingleTask => match task_from_output(raw.as_str()) {
                    Ok(t) => Progress::Finished(Ok(Reply::Task(t))),
                    Err(e) => Progress::Finished(Err(e)),
                },
                Pending::CreatedId => {
                    let v = chars_of(raw.as_str());
                    let t = trimmed(&v);
                    let id = string_of(&t);
                    Progress::Run(get_task_by_id(id.as_str()))
                },
                Pending::Modified { task_id } => Progress::Run(get_task_by_id(task_id.as_str())),
                Pending::Removed => Progress::Finished(Ok(Reply::Done)),
                Pending::ProjectList => match projects_from_output(raw.as_str()) {
                    Ok(ps) => Progress::Finished(Ok(Reply::Projects(ps))),
                    Err(e) => Progress::Finished(Err(e)),
                },
                Pending::TagList => Progress::Finished(Ok(Reply::Tags(tags_from_output(raw.as_str())))),
                Pending::AreaList => match areas_from_output(raw.as_str()) {
                    Ok(a) => Progress::Finished(Ok(Reply::Areas(a))),
                    Err(e) => Progress::Finished(Err(e)),
                },
            },
        }
    }
}

} // verus!
