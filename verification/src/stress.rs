//! What the load test sends and keeps: the tasks it creates (tagged
//! `stress-test` and titled with the run id), the ids it keeps for cleanup,
//! and the rotation over the read endpoints.
use vstd::prelude::*;
use crate::models::{CreateTask, CreateTaskView};
use crate::server::opt_text_of;
use crate::text::{append_decimal, append_str, decimal_text, opt_text, push_char};

verus! {

/// The tag that marks every task the load test creates.
pub const STRESS_TAG: &'static str = "stress-test";

/// The start of a load-test task's title, up to the run id.
pub const STRESS_TITLE_HEAD: &'static str = "[stress ";

/// Between the worker number and the task number of a title.
pub const STRESS_TITLE_MID: &'static str = "] task ";

pub const TASKS_PATH: &'static str = "/tasks";

pub const PROJECTS_PATH: &'static str = "/projects";

pub const TAGS_PATH: &'static str = "/tags";

pub const AREAS_PATH: &'static str = "/areas";

/// The title of the `n`-th task that a worker creates:
/// `[stress {run} w{worker}] task {n}`, with `m` in place of `w` in the
/// mixed scenario.
pub open spec fn stress_title(run_id: Seq<char>, worker: u64, n: u64, mixed: bool) -> Seq<char> {
    STRESS_TITLE_HEAD@ + run_id + seq![' ', if mixed { 'm' } else { 'w' }] + decimal_text(
        worker as nat,
    ) + STRESS_TITLE_MID@ + decimal_text(n as nat)
}

/// The endpoint that the `i`-th read of a worker asks for: the task, project,
/// tag and area listings in turn.
pub open spec fn read_path_text(i: usize) -> Seq<char> {
    if i % 4 == 0 {
        TASKS_PATH@
    } else if i % 4 == 1 {
        PROJECTS_PATH@
    } else if i % 4 == 2 {
        TAGS_PATH@
    } else {
        AREAS_PATH@
    }
}

/// The task that a worker of the load test creates: titled with the run, the
/// worker and its count, tagged `stress-test`, and nothing else.
pub fn stress_task(run_id: &str, worker: u64, n: u64, mixed: bool) -> (t: CreateTask)
    ensures
        t@.title == stress_title(run_id@, worker, n, mixed),
        t@.tags == Some(seq![STRESS_TAG@]),
        t@.notes is None,
        t@.due_date is None,
        t@.list is None,
        t@.project is None,
        t@.checklist_items is None,
{
    let mut title = String::new();
    append_str(&mut title, STRESS_TITLE_HEAD);
    append_str(&mut title, run_id);
    push_char(&mut title, ' ');
    push_char(&mut title, if mixed { 'm' } else { 'w' });
    append_decimal(&mut title, worker);
    append_str(&mut title, STRESS_TITLE_MID);
    append_decimal(&mut title, n);
    assert(title@ =~= stress_title(run_id@, worker, n, mixed));
    let mut tag = String::new();
    append_str(&mut tag, STRESS_TAG);
    let mut tags: Vec<String> = Vec::new();
    tags.push(tag);
    let t = CreateTask {
        title,
        notes: None,
        due_date: None,
        list: None,
        tags: Some(tags),
        project: None,
        checklist_items: None,
    };
    assert(t@.tags == Some(seq![STRESS_TAG@])) by {
        assert(crate::text::strs(tags@) =~= seq![STRESS_TAG@]);
    }
    t
}

/// The id of a created task that the load test keeps for cleanup: the id in
/// the answer, when the answer is a success (2xx).
pub fn created_id(status: u16, id: Option<&str>) -> (r: Option<String>)
    ensures
        opt_text_of(r) == (if 200 <= status && status <= 299 {
            opt_text(id)
        } else {
            None
        }),
{
    if 200 <= status && status <= 299 {
        match id {
            Some(i) => {
                let mut s = String::new();
                append_str(&mut s, i);
                Some(s)
            },
            None => None,
        }
    } else {
        None
    }
}

/// The endpoint of the `i`-th read of a worker.
pub fn read_path(i: usize) -> (p: &'static str)
    ensures
        p@ == read_path_text(i),
{
    let k = i % 4;
    if k == 0 {
        TASKS_PATH
    } else if k == 1 {
        PROJECTS_PATH
    } else if k == 2 {
        TAGS_PATH
    } else {
        AREAS_PATH
    }
}

} // verus!
