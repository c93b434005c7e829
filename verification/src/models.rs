//! The records that the library reads from Things 3 and the requests it
//! builds scripts from, each with its mathematical view.
use vstd::prelude::*;
use crate::text::{opt_str, strs};

verus! {

/// A to-do of Things 3.
#[derive(Debug, Clone, PartialEq, Eq)]
pub struct Task {
    pub id: String,
    pub title: String,
    pub notes: Option<String>,
    pub due_date: Option<String>,
    pub list: Option<String>,
    pub project: Option<String>,
    pub area: Option<String>,
    pub tags: Vec<String>,
    pub checklist_items: Vec<ChecklistItem>,
    pub completed: bool,
    pub canceled: bool,
    pub creation_date: Option<String>,
    pub completion_date: Option<String>,
}

/// One item of a to-do's checklist.
#[derive(Debug, Clone, PartialEq, Eq)]
pub struct ChecklistItem {
    pub title: String,
    pub completed: bool,
}

/// A project of Things 3.
#[derive(Debug, Clone, PartialEq, Eq)]
pub struct Project {
    pub id: String,
    pub title: String,
    pub notes: Option<String>,
    pub area: Option<String>,
    pub tags: Vec<String>,
    pub completed: bool,
    pub canceled: bool,
}

/// A tag of Things 3.
#[derive(Debug, Clone, PartialEq, Eq)]
pub struct Tag {
    pub name: String,
}

/// An area of Things 3.
#[derive(Debug, Clone, PartialEq, Eq)]
pub struct Area {
    pub id: String,
    pub title: String,
    pub tags: Vec<String>,
}

/// Which to-dos a listing asks for.
#[derive(Debug, Clone, PartialEq, Eq)]
pub struct TasksQuery {
    /// Which Things 3 list to read from. One of `inbox`, `today`, `upcoming`, `anytime`, `someday`, `logbook`, `trash`. Defaults to `inbox`.
    pub list: Option<String>,
    /// Maximum number of tasks to return.
    pub limit: Option<usize>,
    /// Number of tasks to skip from the start of the list.
    pub offset: Option<usize>,
}

/// The fields of a to-do to create.
#[derive(Debug, Clone, PartialEq, Eq)]
pub struct CreateTask {
    pub title: String,
    pub notes: Option<String>,
    /// Date string parseable by AppleScript, e.g. `"March 25, 2026"`.
    pub due_date: Option<String>,
    /// One of `inbox`, `today`, `upcoming`, `anytime`, `someday`.
    pub list: Option<String>,
    pub tags: Option<Vec<String>>,
    /// Exact project name. Takes priority over `list`.
    pub project: Option<String>,
    pub checklist_items: Option<Vec<String>>,
}

/// The fields of a to-do to change; `None` leaves a field as it is.
#[derive(Debug, Clone, PartialEq, Eq)]
pub struct UpdateTask {
    pub title: Option<String>,
    pub notes: Option<String>,
    /// New due date. Empty string clears it.
    pub due_date: Option<String>,
    /// Move to list: `inbox`, `today`, `upcoming`, `anytime`, `someday`.
    pub list: Option<String>,
    pub tags: Option<Vec<String>>,
    /// Move to project (by name).
    pub project: Option<String>,
    pub completed: Option<bool>,
}

/// The answer to a health check.
#[derive(Debug, Clone, PartialEq, Eq)]
pub struct HealthResponse {
    pub status: String,
    pub version: String,
}

/// The body of an error answer.
#[derive(Debug, Clone, PartialEq, Eq)]
pub struct ErrorResponse {
    pub error: String,
}

// ---------------------------------------------------------------------------
// Views
// ---------------------------------------------------------------------------

/// What a checklist item is: its title and whether it is done.
pub struct ChecklistItemView {
    pub title: Seq<char>,
    pub completed: bool,
}

/// What a task is, each text as its characters.
pub struct TaskView {
    pub id: Seq<char>,
    pub title: Seq<char>,
    pub notes: Option<Seq<char>>,
    pub due_date: Option<Seq<char>>,
    pub list: Option<Seq<char>>,
    pub project: Option<Seq<char>>,
    pub area: Option<Seq<char>>,
    pub tags: Seq<Seq<char>>,
    pub checklist_items: Seq<ChecklistItemView>,
    pub completed: bool,
    pub canceled: bool,
    pub creation_date: Option<Seq<char>>,
    pub completion_date: Option<Seq<char>>,
}

/// What a project is, each text as its characters.
pub struct ProjectView {
    pub id: Seq<char>,
    pub title: Seq<char>,
    pub notes: Option<Seq<char>>,
    pub area: Option<Seq<char>>,
    pub tags: Seq<Seq<char>>,
    pub completed: bool,
    pub canceled: bool,
}

/// What an area is, each text as its characters.
pub struct AreaView {
    pub id: Seq<char>,
    pub title: Seq<char>,
    pub tags: Seq<Seq<char>>,
}

/// What a creation request asks for.
pub struct CreateTaskView {
    pub title: Seq<char>,
    pub notes: Option<Seq<char>>,
    pub due_date: Option<Seq<char>>,
    pub list: Option<Seq<char>>,
    pub tags: Option<Seq<Seq<char>>>,
    pub project: Option<Seq<char>>,
    pub checklist_items: Option<Seq<Seq<char>>>,
}

/// What an update request asks for.
pub struct UpdateTaskView {
    pub title: Option<Seq<char>>,
    pub notes: Option<Seq<char>>,
    pub due_date: Option<Seq<char>>,
    pub list: Option<Seq<char>>,
    pub tags: Option<Seq<Seq<char>>>,
    pub project: Option<Seq<char>>,
    pub completed: Option<bool>,
}

/// The view of an optional list of strings.
pub open spec fn opt_strs(o: Option<Vec<String>>) -> Option<Seq<Seq<char>>> {
    match o {
        Some(v) => Some(strs(v@)),
        None => None,
    }
}

impl View for ChecklistItem {
    type V = ChecklistItemView;

    open spec fn view(&self) -> ChecklistItemView {
        ChecklistItemView { title: self.title@, completed: self.completed }
    }
}

impl View for Task {
    type V = TaskView;

    open spec fn view(&self) -> TaskView {
        TaskView {
            id: self.id@,
            title: self.title@,
            notes: opt_str(self.notes),
            due_date: opt_str(self.due_date),
            list: opt_str(self.list),
            project: opt_str(self.project),
            area: opt_str(self.area),
            tags: strs(self.tags@),
            checklist_items: self.checklist_items@.map_values(|c: ChecklistItem| c@),
            completed: self.completed,
            canceled: self.canceled,
            creation_date: opt_str(self.creation_date),
            completion_date: opt_str(self.completion_date),
        }
    }
}

impl View for Project {
    type V = ProjectView;

    open spec fn view(&self) -> ProjectView {
        ProjectView {
            id: self.id@,
            title: self.title@,
            notes: opt_str(self.notes),
            area: opt_str(self.area),
            tags: strs(self.tags@),
            completed: self.completed,
            canceled: self.canceled,
        }
    }
}

impl View for Tag {
    type V = Seq<char>;

    open spec fn view(&self) -> Seq<char> {
        self.name@
    }
}

impl View for Area {
    type V = AreaView;

    open spec fn view(&self) -> AreaView {
        AreaView { id: self.id@, title: self.title@, tags: strs(self.tags@) }
    }
}

impl View for CreateTask {
    type V = CreateTaskView;

    open spec fn view(&self) -> CreateTaskView {
        CreateTaskView {
            title: self.title@,
            notes: opt_str(self.notes),
            due_date: opt_str(self.due_date),
            list: opt_str(self.list),
            tags: opt_strs(self.tags),
            project: opt_str(self.project),
            checklist_items: opt_strs(self.checklist_items),
        }
    }
}

impl View for UpdateTask {
    type V = UpdateTaskView;

    open spec fn view(&self) -> UpdateTaskView {
        UpdateTaskView {
            title: opt_str(self.title),
            notes: opt_str(self.notes),
            due_date: opt_str(self.due_date),
            list: opt_str(self.list),
            tags: opt_strs(self.tags),
            project: opt_str(self.project),
            completed: self.completed,
        }
    }
}

/// The views of the members of a sequence.
pub open spec fn views<T: View>(v: Seq<T>) -> Seq<T::V> {
    v.map_values(|t: T| t@)
}

/// The view of a result whose error is a message.
pub open spec fn res_view<T: View>(r: Result<T, String>) -> Result<T::V, Seq<char>> {
    match r {
        Ok(t) => Ok(t@),
        Err(e) => Err(e@),
    }
}

/// The view of a result that holds a list, or an error message.
pub open spec fn list_res_view<T: View>(r: Result<Vec<T>, String>) -> Result<Seq<T::V>, Seq<char>> {
    match r {
        Ok(v) => Ok(views(v@)),
        Err(e) => Err(e@),
    }
}

} // verus!
