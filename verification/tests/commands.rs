use things_api::commands::{
    complete_task, create_task, delete_task, empty_trash, get_areas, get_projects, get_task_by_id,
    get_tags, get_tasks, update_task, Pending, Progress, Reply,
};
use things_api::models::{CreateTask, UpdateTask};

// The scripts written out with `format!`, for comparison.
fn expected_esc(s: &str) -> String {
    s.replace('\\', "\\\\").replace('"', "\\\"")
}

fn expected_tasks_script(list_filter: Option<&str>) -> String {
    let list_spec = match list_filter {
        None | Some("inbox") | Some("") => "list \"Inbox\"".to_string(),
        Some("today") => "list \"Today\"".to_string(),
        Some("upcoming") => "list \"Upcoming\"".to_string(),
        Some("anytime") => "list \"Anytime\"".to_string(),
        Some("someday") => "list \"Someday\"".to_string(),
        Some("logbook") => "list \"Logbook\"".to_string(),
        Some(other) => format!("list \"{}\"", expected_esc(other)),
    };
    format!(
        r#"tell application "Things3"
    set output to ""
    set theTasks to to dos of {list_spec}
    repeat with t in theTasks
        set tid to id of t
        set ttitle to name of t
        set tnotes to notes of t
        if tnotes is missing value then set tnotes to ""
        set tdue to due date of t
        if tdue is missing value then
            set tdue to ""
        else
            set tdue to (tdue as string)
        end if
        set tproject to ""
        if project of t is not missing value then set tproject to name of project of t
        set tarea to ""
        if area of t is not missing value then set tarea to name of area of t
        set ttags to ""
        set tagList to tags of t
        repeat with tg in tagList
            if ttags is "" then
                set ttags to name of tg
            else
                set ttags to ttags & "," & name of tg
            end if
        end repeat
        set tcompleted to (status of t is completed)
        set tcanceled to (status of t is canceled)
        set tcreation to creation date of t
        if tcreation is missing value then
            set tcreation to ""
        else
            set tcreation to (tcreation as string)
        end if
        set tcompletion to completion date of t
        if tcompletion is missing value then
            set tcompletion to ""
        else
            set tcompletion to (tcompletion as string)
        end if
        set output to output & tid & "|" & ttitle & "|" & tnotes & "|" & tdue & "|" & tproject & "|" & tarea & "|" & ttags & "|" & tcompleted & "|" & tcanceled & "|" & tcreation & "|" & tcompletion & "\n"
    end repeat
    return output
end tell"#
    )
}

fn expected_task_script(task_id: &str) -> String {
    format!(
        r#"tell application "Things3"
    set t to to do id "{id}"
    set tid to id of t
    set ttitle to name of t
    set tnotes to notes of t
    if tnotes is missing value then set tnotes to ""
    set tdue to due date of t
    if tdue is missing value then
        set tdue to ""
    else
        set tdue to (tdue as string)
    end if
    set tproject to ""
    if project of t is not missing value then set tproject to name of project of t
    set tarea to ""
    if area of t is not missing value then set tarea to name of area of t
    set ttags to ""
    set tagList to tags of t
    repeat with tg in tagList
        if ttags is "" then
            set ttags to name of tg
        else
            set ttags to ttags & "," & name of tg
        end if
    end repeat
    set tcompleted to (status of t is completed)
    set tcanceled to (status of t is canceled)
    set tcreation to creation date of t
    if tcreation is missing value then
        set tcreation to ""
    else
        set tcreation to (tcreation as string)
    end if
    set tcompletion to completion date of t
    if tcompletion is missing value then
        set tcompletion to ""
    else
        set tcompletion to (tcompletion as string)
    end if
    return tid & "|" & ttitle & "|" & tnotes & "|" & tdue & "|" & tproject & "|" & tarea & "|" & ttags & "|" & tcompleted & "|" & tcanceled & "|" & tcreation & "|" & tcompletion
end tell"#,
        id = expected_esc(task_id)
    )
}

fn expected_create_script(payload: &CreateTask) -> String {
    let title = expected_esc(&payload.title);
    let notes = payload.notes.as_deref().map(expected_esc).unwrap_or_default();
    let due_date = payload.due_date.as_deref().unwrap_or("").to_string();
    let mut props = format!("name:\"{title}\"");
    if !notes.is_empty() {
        props.push_str(&format!(", notes:\"{notes}\""));
    }
    if !due_date.is_empty() {
        props.push_str(&format!(", due date:(date \"{due_date}\")"));
    }
    let tags_script = if let Some(tags) = &payload.tags {
        if tags.is_empty() {
            String::new()
        } else {
            let tag_list = tags
                .iter()
                .map(|t| format!("\"{}\"", expected_esc(t)))
                .collect::<Vec<_>>()
                .join(", ");
            format!("\n    set tag names of newTask to {{{tag_list}}}")
        }
    } else {
        String::new()
    };
    let checklist_script = if let Some(items) = &payload.checklist_items {
        items
            .iter()
            .map(|item| {
                format!(
                    "\n    make new checklist item at end of checklist items of newTask with properties {{name:\"{}\"}}",
                    expected_esc(item)
                )
            })
            .collect::<Vec<_>>()
            .join("")
    } else {
        String::new()
    };
    let move_script = if let Some(project) = &payload.project {
        format!(
            "\n    set theProject to project \"{}\"\n    move newTask to theProject",
            expected_esc(project)
        )
    } else {
        match payload.list.as_deref() {
            Some("today") => "\n    set activation date of newTask to (current date)".to_string(),
            Some("someday") => "\n    set status of newTask to someday".to_string(),
            Some("upcoming") => {
                "\n    move newTask to list \"Upcoming\" of application \"Things3\"".to_string()
            }
            Some("anytime") => {
                "\n    move newTask to list \"Anytime\" of application \"Things3\"".to_string()
            }
            _ => String::new(),
        }
    };
    format!(
        r#"tell application "Things3"
    set newTask to make new to do with properties {{{props}}}{move_script}{tags_script}{checklist_script}
    return id of newTask
end tell"#
    )
}

fn expected_update_script(task_id: &str, payload: &UpdateTask) -> Option<String> {
    let mut updates = vec![];
    if let Some(title) = &payload.title {
        updates.push(format!("set name of t to \"{}\"", expected_esc(title)));
    }
    if let Some(notes) = &payload.notes {
        updates.push(format!("set notes of t to \"{}\"", expected_esc(notes)));
    }
    if let Some(due_date) = &payload.due_date {
        if due_date.is_empty() {
            updates.push("set due date of t to missing value".to_string());
        } else {
            updates.push(format!("set due date of t to (date \"{}\")", expected_esc(due_date)));
        }
    }
    if let Some(tags) = &payload.tags {
        let tag_list = tags
            .iter()
            .map(|t| format!("\"{}\"", expected_esc(t)))
            .collect::<Vec<_>>()
            .join(", ");
        updates.push(format!("set tag names of t to {{{tag_list}}}"));
    }
    if let Some(project) = &payload.project {
        updates.push(format!(
            "move t to project \"{}\" of application \"Things3\"",
            expected_esc(project)
        ));
    }
    if let Some(list) = &payload.list {
        let list_name = match list.as_str() {
            "today" => "Today",
            "upcoming" => "Upcoming",
            "anytime" => "Anytime",
            "someday" => "Someday",
            _ => "Inbox",
        };
        updates.push(format!("move t to list \"{}\" of application \"Things3\"", list_name));
    }
    if updates.is_empty() {
        return None;
    }
    let update_body = updates.join("\n    ");
    Some(format!(
        r#"tell application "Things3"
    set t to to do id "{id}"
    {update_body}
end tell"#,
        id = expected_esc(task_id),
    ))
}

fn expected_complete_script(task_id: &str) -> String {
    format!(
        r#"tell application "Things3"
    set t to to do id "{id}"
    set status of t to completed
end tell"#,
        id = expected_esc(task_id)
    )
}

fn expected_delete_script(task_id: &str) -> String {
    format!(
        r#"tell application "Things3"
    delete (to do id "{id}")
end tell"#,
        id = expected_esc(task_id)
    )
}

const PROJECTS_SCRIPT: &str = r#"tell application "Things3"
    set output to ""
    set theProjects to projects
    repeat with p in theProjects
        set pid to id of p
        set ptitle to name of p
        set pnotes to notes of p
        if pnotes is missing value then set pnotes to ""
        set parea to ""
        if area of p is not missing value then set parea to name of area of p
        set ptags to ""
        set tagList to tags of p
        repeat with tg in tagList
            if ptags is "" then
                set ptags to name of tg
            else
                set ptags to ptags & "," & name of tg
            end if
        end repeat
        set pcompleted to (status of p is completed)
        set pcanceled to (status of p is canceled)
        set output to output & pid & "|" & ptitle & "|" & pnotes & "|" & parea & "|" & ptags & "|" & pcompleted & "|" & pcanceled & "\n"
    end repeat
    return output
end tell"#;

const TAGS_SCRIPT: &str = r#"tell application "Things3"
    set output to ""
    set theTags to tags
    repeat with t in theTags
        set output to output & name of t & "\n"
    end repeat
    return output
end tell"#;

const AREAS_SCRIPT: &str = r#"tell application "Things3"
    set output to ""
    set theAreas to areas
    repeat with a in theAreas
        set aid to id of a
        set atitle to name of a
        set atags to ""
        set tagList to tags of a
        repeat with tg in tagList
            if atags is "" then
                set atags to name of tg
            else
                set atags to atags & "," & name of tg
            end if
        end repeat
        set output to output & aid & "|" & atitle & "|" & atags & "\n"
    end repeat
    return output
end tell"#;

fn task_line(id: &str) -> String {
    format!("{id}|Title|notes|||Area|a,b|false|false||")
}

fn blank_create(title: &str) -> CreateTask {
    CreateTask {
        title: title.to_string(),
        notes: None,
        due_date: None,
        list: None,
        tags: None,
        project: None,
        checklist_items: None,
    }
}

fn blank_update() -> UpdateTask {
    UpdateTask {
        title: None,
        notes: None,
        due_date: None,
        list: None,
        tags: None,
        project: None,
        completed: None,
    }
}

#[test]
fn listing_scripts_match_for_every_filter() {
    for f in [
        None,
        Some(""),
        Some("inbox"),
        Some("today"),
        Some("upcoming"),
        Some("anytime"),
        Some("someday"),
        Some("logbook"),
        Some("trash"),
        Some("My \"odd\" list\\"),
    ] {
        let r = get_tasks(f, None, None);
        assert_eq!(r.script, expected_tasks_script(f), "filter {:?}", f);
        assert_eq!(r.pending, Pending::TaskList { limit: None, offset: None });
    }
}

#[test]
fn inbox_is_the_default_list() {
    let none = get_tasks(None, None, None).script;
    assert_eq!(none, get_tasks(Some(""), None, None).script);
    assert_eq!(none, get_tasks(Some("inbox"), None, None).script);
    assert!(none.contains("set theTasks to to dos of list \"Inbox\""));
}

#[test]
fn single_task_script_matches() {
    for id in ["ABC", "", "x\"y\\z"] {
        let r = get_task_by_id(id);
        assert_eq!(r.script, expected_task_script(id));
        assert_eq!(r.pending, Pending::SingleTask);
    }
}

#[test]
fn create_scripts_match() {
    let mut full = blank_create("Prepare \"quarterly\" report");
    full.notes = Some("Include Q1 metrics".to_string());
    full.due_date = Some("March 31, 2026".to_string());
    full.list = Some("today".to_string());
    full.tags = Some(vec!["work".to_string(), "prio\"rity".to_string()]);
    full.checklist_items = Some(vec!["Gather data".to_string(), "Write draft".to_string()]);
    let mut in_project = blank_create("t");
    in_project.project = Some("Home".to_string());
    in_project.list = Some("someday".to_string());
    let mut someday = blank_create("t");
    someday.list = Some("someday".to_string());
    someday.tags = Some(vec![]);
    someday.notes = Some(String::new());
    someday.checklist_items = Some(vec![]);
    let mut upcoming = blank_create("t");
    upcoming.list = Some("upcoming".to_string());
    let mut anytime = blank_create("t");
    anytime.list = Some("anytime".to_string());
    let mut inbox = blank_create("t");
    inbox.list = Some("inbox".to_string());
    for p in [blank_create("Buy milk"), full, in_project, someday, upcoming, anytime, inbox] {
        let r = create_task(&p);
        assert_eq!(r.script, expected_create_script(&p));
        assert_eq!(r.pending, Pending::CreatedId);
    }
}

#[test]
fn new_tasks_are_placed_in_upcoming_and_anytime() {
    let mut p = blank_create("T");
    p.list = Some("upcoming".to_string());
    assert!(create_task(&p)
        .script
        .contains("\n    move newTask to list \"Upcoming\" of application \"Things3\""));
    p.list = Some("anytime".to_string());
    assert!(create_task(&p)
        .script
        .contains("\n    move newTask to list \"Anytime\" of application \"Things3\""));
    p.list = Some("inbox".to_string());
    assert!(!create_task(&p).script.contains("move newTask"));
}

#[test]
fn project_takes_priority_over_list() {
    let mut a = blank_create("t");
    a.project = Some("P".to_string());
    a.list = Some("today".to_string());
    let mut b = blank_create("t");
    b.project = Some("P".to_string());
    assert_eq!(create_task(&a).script, create_task(&b).script);
}

#[test]
fn update_scripts_match() {
    let mut all = blank_update();
    all.title = Some("New \"title\"".to_string());
    all.notes = Some("n".to_string());
    all.due_date = Some("April 1, 2026".to_string());
    all.tags = Some(vec!["work".to_string()]);
    all.project = Some("Home".to_string());
    all.list = Some("logbook".to_string());
    let mut clear = blank_update();
    clear.due_date = Some(String::new());
    let mut empty_tags = blank_update();
    empty_tags.tags = Some(vec![]);
    let mut listed = blank_update();
    listed.list = Some("anytime".to_string());
    for p in [all, clear, empty_tags, listed] {
        let r = update_task("ID\"1", &p);
        assert_eq!(Some(r.script), expected_update_script("ID\"1", &p));
        assert_eq!(r.pending, Pending::Modified { task_id: "ID\"1".to_string() });
    }
}

#[test]
fn update_without_changes_reads_the_task() {
    let mut p = blank_update();
    p.completed = Some(true);
    assert_eq!(expected_update_script("X", &p), None);
    assert_eq!(update_task("X", &p), get_task_by_id("X"));
}

#[test]
fn complete_and_delete_scripts_match() {
    let r = complete_task("A\\B");
    assert_eq!(r.script, expected_complete_script("A\\B"));
    assert_eq!(r.pending, Pending::Modified { task_id: "A\\B".to_string() });
    let r = delete_task("A\\B");
    assert_eq!(r.script, expected_delete_script("A\\B"));
    assert_eq!(r.pending, Pending::Removed);
}

#[test]
fn fixed_scripts_match() {
    assert_eq!(get_projects().script, PROJECTS_SCRIPT);
    assert_eq!(get_projects().pending, Pending::ProjectList);
    assert_eq!(get_tags().script, TAGS_SCRIPT);
    assert_eq!(get_tags().pending, Pending::TagList);
    assert_eq!(get_areas().script, AREAS_SCRIPT);
    assert_eq!(get_areas().pending, Pending::AreaList);
    let t = empty_trash();
    assert_eq!(t.script, "tell application \"Things3\"\n    empty trash\nend tell");
    assert_eq!(t.pending, Pending::Removed);
}

#[test]
fn failures_end_every_command() {
    for p in [
        Pending::TaskList { limit: None, offset: None },
        Pending::SingleTask,
        Pending::CreatedId,
        Pending::Modified { task_id: "x".to_string() },
        Pending::Removed,
        Pending::ProjectList,
        Pending::TagList,
        Pending::AreaList,
    ] {
        assert_eq!(
            p.advance(Err("AppleScript error: boom".to_string())),
            Progress::Finished(Err("AppleScript error: boom".to_string()))
        );
    }
}

#[test]
fn creation_reads_back_the_new_task() {
    let next = Pending::CreatedId.advance(Ok("  NEWID \n".to_string()));
    assert_eq!(next, Progress::Run(get_task_by_id("NEWID")));
    let fetched = match next {
        Progress::Run(r) => r.pending.advance(Ok(task_line("NEWID"))),
        _ => unreachable!(),
    };
    match fetched {
        Progress::Finished(Ok(Reply::Task(t))) => {
            assert_eq!(t.id, "NEWID");
            assert_eq!(t.tags, vec!["a".to_string(), "b".to_string()]);
        }
        other => panic!("unexpected {:?}", other),
    }
}

#[test]
fn changes_read_back_the_task() {
    let next = Pending::Modified { task_id: "T1".to_string() }.advance(Ok(String::new()));
    assert_eq!(next, Progress::Run(get_task_by_id("T1")));
}

#[test]
fn removal_answers_done() {
    assert_eq!(Pending::Removed.advance(Ok("whatever".to_string())), Progress::Finished(Ok(Reply::Done)));
}

#[test]
fn listings_read_their_output() {
    let raw = format!("{}\n{}\n{}\n", task_line("1"), task_line("2"), task_line("3"));
    match (Pending::TaskList { limit: Some(2), offset: Some(1) }).advance(Ok(raw)) {
        Progress::Finished(Ok(Reply::Tasks(ts))) => {
            let ids: Vec<&str> = ts.iter().map(|t| t.id.as_str()).collect();
            assert_eq!(ids, vec!["2", "3"]);
        }
        other => panic!("unexpected {:?}", other),
    }
    match Pending::TagList.advance(Ok("work\nerrands\n".to_string())) {
        Progress::Finished(Ok(Reply::Tags(ts))) => assert_eq!(ts.len(), 2),
        other => panic!("unexpected {:?}", other),
    }
    match Pending::AreaList.advance(Ok("A1|Personal|\n".to_string())) {
        Progress::Finished(Ok(Reply::Areas(a))) => {
            assert_eq!(a[0].title, "Personal");
            assert!(a[0].tags.is_empty());
        }
        other => panic!("unexpected {:?}", other),
    }
    match Pending::ProjectList.advance(Ok("broken\n".to_string())) {
        Progress::Finished(Err(e)) => assert_eq!(e, "Unexpected project format: broken"),
        other => panic!("unexpected {:?}", other),
    }
    match Pending::SingleTask.advance(Ok("nope".to_string())) {
        Progress::Finished(Err(e)) => assert_eq!(e, "Unexpected task format: nope"),
        other => panic!("unexpected {:?}", other),
    }
}
