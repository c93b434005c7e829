//! The AppleScript programs that the library hands to `osascript`: fixed
//! texts, and texts built from a request with every piece of user text
//! escaped (but for a new task's due date, which is passed on as given).
use vstd::prelude::*;
use crate::escape::{esc, esc_char, escaped};
use crate::models::{CreateTask, CreateTaskView, UpdateTask, UpdateTaskView};
use crate::text::{
    append_joined, append_str, chars_of, contains, join, lemma_contains_middle, lemma_contains_within,
    lemma_join_contains, opt_text, same_text, strs,
};

verus! {

/// The listing script up to the list it reads.
pub const TASKS_SCRIPT_HEAD: &'static str = "tell application \"Things3\"\n    set output to \"\"\n    set theTasks to to dos of ";

/// The listing script after the list it reads: it prints one task record per line.
pub const TASKS_SCRIPT_TAIL: &'static str = "\n    repeat with t in theTasks\n        set tid to id of t\n        set ttitle to name of t\n        set tnotes to notes of t\n        if tnotes is missing value then set tnotes to \"\"\n        set tdue to due date of t\n        if tdue is missing value then\n            set tdue to \"\"\n        else\n            set tdue to (tdue as string)\n        end if\n        set tproject to \"\"\n        if project of t is not missing value then set tproject to name of project of t\n        set tarea to \"\"\n        if area of t is not missing value then set tarea to name of area of t\n        set ttags to \"\"\n        set tagList to tags of t\n        repeat with tg in tagList\n            if ttags is \"\" then\n                set ttags to name of tg\n            else\n                set ttags to ttags & \",\" & name of tg\n            end if\n        end repeat\n        set tcompleted to (status of t is completed)\n        set tcanceled to (status of t is canceled)\n        set tcreation to creation date of t\n        if tcreation is missing value then\n            set tcreation to \"\"\n        else\n            set tcreation to (tcreation as string)\n        end if\n        set tcompletion to completion date of t\n        if tcompletion is missing value then\n            set tcompletion to \"\"\n        else\n            set tcompletion to (tcompletion as string)\n        end if\n        set output to output & tid & \"|\" & ttitle & \"|\" & tnotes & \"|\" & tdue & \"|\" & tproject & \"|\" & tarea & \"|\" & ttags & \"|\" & tcompleted & \"|\" & tcanceled & \"|\" & tcreation & \"|\" & tcompletion & \"\\n\"\n    end repeat\n    return output\nend tell";

/// A script about one task, up to the task id.
pub const TASK_SCRIPT_HEAD: &'static str = "tell application \"Things3\"\n    set t to to do id \"";

/// The single-task script after the task id: it prints one task record.
pub const TASK_SCRIPT_TAIL: &'static str = "\"\n    set tid to id of t\n    set ttitle to name of t\n    set tnotes to notes of t\n    if tnotes is missing value then set tnotes to \"\"\n    set tdue to due date of t\n    if tdue is missing value then\n        set tdue to \"\"\n    else\n        set tdue to (tdue as string)\n    end if\n    set tproject to \"\"\n    if project of t is not missing value then set tproject to name of project of t\n    set tarea to \"\"\n    if area of t is not missing value then set tarea to name of area of t\n    set ttags to \"\"\n    set tagList to tags of t\n    repeat with tg in tagList\n        if ttags is \"\" then\n            set ttags to name of tg\n        else\n            set ttags to ttags & \",\" & name of tg\n        end if\n    end repeat\n    set tcompleted to (status of t is completed)\n    set tcanceled to (status of t is canceled)\n    set tcreation to creation date of t\n    if tcreation is missing value then\n        set tcreation to \"\"\n    else\n        set tcreation to (tcreation as string)\n    end if\n    set tcompletion to completion date of t\n    if tcompletion is missing value then\n        set tcompletion to \"\"\n    else\n        set tcompletion to (tcompletion as string)\n    end if\n    return tid & \"|\" & ttitle & \"|\" & tnotes & \"|\" & tdue & \"|\" & tproject & \"|\" & tarea & \"|\" & ttags & \"|\" & tcompleted & \"|\" & tcanceled & \"|\" & tcreation & \"|\" & tcompletion\nend tell";

/// The script that prints one project record per line.
pub const PROJECTS_SCRIPT: &'static str = "tell application \"Things3\"\n    set output to \"\"\n    set theProjects to projects\n    repeat with p in theProjects\n        set pid to id of p\n        set ptitle to name of p\n        set pnotes to notes of p\n        if pnotes is missing value then set pnotes to \"\"\n        set parea to \"\"\n        if area of p is not missing value then set parea to name of area of p\n        set ptags to \"\"\n        set tagList to tags of p\n        repeat with tg in tagList\n            if ptags is \"\" then\n                set ptags to name of tg\n            else\n                set ptags to ptags & \",\" & name of tg\n            end if\n        end repeat\n        set pcompleted to (status of p is completed)\n        set pcanceled to (status of p is canceled)\n        set output to output & pid & \"|\" & ptitle & \"|\" & pnotes & \"|\" & parea & \"|\" & ptags & \"|\" & pcompleted & \"|\" & pcanceled & \"\\n\"\n    end repeat\n    return output\nend tell";

/// The script that prints one tag name per line.
pub const TAGS_SCRIPT: &'static str = "tell application \"Things3\"\n    set output to \"\"\n    set theTags to tags\n    repeat with t in theTags\n        set output to output & name of t & \"\\n\"\n    end repeat\n    return output\nend tell";

/// The script that prints one area record per line.
pub const AREAS_SCRIPT: &'static str = "tell application \"Things3\"\n    set output to \"\"\n    set theAreas to areas\n    repeat with a in theAreas\n        set aid to id of a\n        set atitle to name of a\n        set atags to \"\"\n        set tagList to tags of a\n        repeat with tg in tagList\n            if atags is \"\" then\n                set atags to name of tg\n            else\n                set atags to atags & \",\" & name of tg\n            end if\n        end repeat\n        set output to output & aid & \"|\" & atitle & \"|\" & atags & \"\\n\"\n    end repeat\n    return output\nend tell";

/// The script that empties the trash of Things 3.
pub const EMPTY_TRASH_SCRIPT: &'static str = "tell application \"Things3\"\n    empty trash\nend tell";

/// The completion script after the task id.
pub const COMPLETE_SCRIPT_TAIL: &'static str = "\"\n    set status of t to completed\nend tell";

/// The deletion script up to the task id.
pub const DELETE_SCRIPT_HEAD: &'static str = "tell application \"Things3\"\n    delete (to do id \"";

/// The deletion script after the task id.
pub const DELETE_SCRIPT_TAIL: &'static str = "\")\nend tell";

/// Between the task id and the first change of an update script.
pub const UPDATE_SCRIPT_MID: &'static str = "\"\n    ";

/// Between two changes of an update script.
pub const UPDATE_SEP: &'static str = "\n    ";

/// The end of an update script.
pub const UPDATE_SCRIPT_TAIL: &'static str = "\nend tell";

/// The creation script up to the new task's properties.
pub const CREATE_SCRIPT_HEAD: &'static str = "tell application \"Things3\"\n    set newTask to make new to do with properties {";

/// The end of the new task's properties.
pub const CREATE_PROPS_END: &'static str = "}";

/// The end of the creation script: it prints the new task's id.
pub const CREATE_SCRIPT_TAIL: &'static str = "\n    return id of newTask\nend tell";

/// The name property, up to its value.
pub const NAME_PROP: &'static str = "name:\"";

/// The notes property, up to its value.
pub const NOTES_PROP: &'static str = ", notes:\"";

/// The due date property, up to its value.
pub const DUE_PROP: &'static str = ", due date:(date \"";

/// The end of a date value.
pub const DATE_END: &'static str = "\")";

/// A double quote.
pub const QUOTE: &'static str = "\"";

/// Between two tag names of a list.
pub const TAG_SEP: &'static str = ", ";

/// The end of an AppleScript list.
pub const LIST_END: &'static str = "}";

/// Moving a new task into a project, up to the project name.
pub const MOVE_TO_PROJECT_HEAD: &'static str = "\n    set theProject to project \"";

/// Moving a new task into a project, after the project name.
pub const MOVE_TO_PROJECT_TAIL: &'static str = "\"\n    move newTask to theProject";

/// Putting a new task on Today.
pub const SCHEDULE_TODAY: &'static str = "\n    set activation date of newTask to (current date)";

/// Putting a new task on Someday.
pub const SCHEDULE_SOMEDAY: &'static str = "\n    set status of newTask to someday";

/// Moving a new task into a list, up to the list name.
pub const PLACE_IN_LIST: &'static str = "\n    move newTask to list \"";

/// Setting a new task's tags, up to the list.
pub const SET_NEW_TAGS: &'static str = "\n    set tag names of newTask to {";

/// Adding a checklist item, up to its name.
pub const CHECKLIST_ITEM_HEAD: &'static str = "\n    make new checklist item at end of checklist items of newTask with properties {name:\"";

/// Adding a checklist item, after its name.
pub const CHECKLIST_ITEM_TAIL: &'static str = "\"}";

/// Renaming a task, up to the name.
pub const SET_NAME: &'static str = "set name of t to \"";

/// Changing a task's notes, up to the notes.
pub const SET_NOTES: &'static str = "set notes of t to \"";

/// Clearing a task's due date.
pub const CLEAR_DUE: &'static str = "set due date of t to missing value";

/// Changing a task's due date, up to the date.
pub const SET_DUE: &'static str = "set due date of t to (date \"";

/// Replacing a task's tags, up to the list.
pub const SET_TAGS: &'static str = "set tag names of t to {";

/// Moving a task to a project, up to the project name.
pub const MOVE_TO_PROJECT: &'static str = "move t to project \"";

/// Moving a task to a list, up to the list name.
pub const MOVE_TO_LIST: &'static str = "move t to list \"";

/// The end of a move of a task.
pub const OF_THINGS: &'static str = "\" of application \"Things3\"";

/// A list reference, up to its name.
pub const LIST_HEAD: &'static str = "list \"";

/// The name of the Inbox list.
pub const INBOX_NAME: &'static str = "Inbox";

/// The filter that selects the Inbox list.
pub const INBOX_FILTER: &'static str = "inbox";

/// The name of the Today list.
pub const TODAY_NAME: &'static str = "Today";

/// The filter that selects the Today list.
pub const TODAY_FILTER: &'static str = "today";

/// The name of the Upcoming list.
pub const UPCOMING_NAME: &'static str = "Upcoming";

/// The filter that selects the Upcoming list.
pub const UPCOMING_FILTER: &'static str = "upcoming";

/// The name of the Anytime list.
pub const ANYTIME_NAME: &'static str = "Anytime";

/// The filter that selects the Anytime list.
pub const ANYTIME_FILTER: &'static str = "anytime";

/// The name of the Someday list.
pub const SOMEDAY_NAME: &'static str = "Someday";

/// The filter that selects the Someday list.
pub const SOMEDAY_FILTER: &'static str = "someday";

/// The name of the Logbook list.
pub const LOGBOOK_NAME: &'static str = "Logbook";

/// The filter that selects the Logbook list.
pub const LOGBOOK_FILTER: &'static str = "logbook";


// ---------------------------------------------------------------------------
// Definitions
// ---------------------------------------------------------------------------

/// `t` escaped and put between double quotes.
pub open spec fn quoted_text(t: Seq<char>) -> Seq<char> {
    QUOTE@ + escaped(t) + QUOTE@
}

/// The list that a known filter names: an empty filter and `inbox` name
/// the Inbox; `today`, `upcoming`, `anytime`, `someday` and `logbook` name
/// their lists.
pub open spec fn known_list(f: Seq<char>) -> Option<Seq<char>> {
    if f.len() == 0 || f == INBOX_FILTER@ {
        Some(INBOX_NAME@)
    } else if f == TODAY_FILTER@ {
        Some(TODAY_NAME@)
    } else if f == UPCOMING_FILTER@ {
        Some(UPCOMING_NAME@)
    } else if f == ANYTIME_FILTER@ {
        Some(ANYTIME_NAME@)
    } else if f == SOMEDAY_FILTER@ {
        Some(SOMEDAY_NAME@)
    } else if f == LOGBOOK_FILTER@ {
        Some(LOGBOOK_NAME@)
    } else {
        None
    }
}

/// The list reference for a filter: the Inbox when there is none, the named
/// list for a known filter, else a list named by the filter itself.
pub open spec fn list_ref_text(filter: Option<Seq<char>>) -> Seq<char> {
    let name = match filter {
        None => INBOX_NAME@,
        Some(f) => match known_list(f) {
            Some(n) => n,
            None => escaped(f),
        },
    };
    LIST_HEAD@ + name + QUOTE@
}

/// The script that prints the tasks of a list.
pub open spec fn tasks_script_text(filter: Option<Seq<char>>) -> Seq<char> {
    TASKS_SCRIPT_HEAD@ + list_ref_text(filter) + TASKS_SCRIPT_TAIL@
}

/// The script that prints one task.
pub open spec fn task_script_text(id: Seq<char>) -> Seq<char> {
    TASK_SCRIPT_HEAD@ + escaped(id) + TASK_SCRIPT_TAIL@
}

/// The script that marks a task completed.
pub open spec fn complete_script_text(id: Seq<char>) -> Seq<char> {
    TASK_SCRIPT_HEAD@ + escaped(id) + COMPLETE_SCRIPT_TAIL@
}

/// The script that deletes a task.
pub open spec fn delete_script_text(id: Seq<char>) -> Seq<char> {
    DELETE_SCRIPT_HEAD@ + escaped(id) + DELETE_SCRIPT_TAIL@
}

/// Tag names, each quoted, with `, ` between them.
pub open spec fn quoted_list_text(ts: Seq<Seq<char>>) -> Seq<char> {
    join(ts.map_values(|t: Seq<char>| quoted_text(t)), TAG_SEP@)
}

/// The properties of a new task: its name, its notes when they are not
/// empty, its due date (as given) when it is not empty.
pub open spec fn create_props_text(p: CreateTaskView) -> Seq<char> {
    let notes = match p.notes {
        Some(n) => escaped(n),
        None => Seq::<char>::empty(),
    };
    let due = match p.due_date {
        Some(d) => d,
        None => Seq::<char>::empty(),
    };
    NAME_PROP@ + escaped(p.title) + QUOTE@ + (if notes.len() > 0 {
        NOTES_PROP@ + notes + QUOTE@
    } else {
        Seq::<char>::empty()
    }) + (if due.len() > 0 {
        DUE_PROP@ + due + DATE_END@
    } else {
        Seq::<char>::empty()
    })
}

/// Where a new task goes: into its project when one is named, else on
/// Today or Someday when the list says so (by its activation date or its
/// status), else into Upcoming or Anytime when the list names one of them,
/// else nowhere special (the Inbox).
pub open spec fn create_move_text(p: CreateTaskView) -> Seq<char> {
    match p.project {
        Some(pr) => MOVE_TO_PROJECT_HEAD@ + escaped(pr) + MOVE_TO_PROJECT_TAIL@,
        None => match p.list {
            Some(l) => if l == TODAY_FILTER@ {
                SCHEDULE_TODAY@
            } else if l == SOMEDAY_FILTER@ {
                SCHEDULE_SOMEDAY@
            } else if l == UPCOMING_FILTER@ {
                PLACE_IN_LIST@ + UPCOMING_NAME@ + OF_THINGS@
            } else if l == ANYTIME_FILTER@ {
                PLACE_IN_LIST@ + ANYTIME_NAME@ + OF_THINGS@
            } else {
                Seq::<char>::empty()
            },
            None => Seq::<char>::empty(),
        },
    }
}

/// The tags of a new task, set when there is at least one.
pub open spec fn create_tags_text(p: CreateTaskView) -> Seq<char> {
    match p.tags {
        Some(ts) => if ts.len() > 0 {
            SET_NEW_TAGS@ + quoted_list_text(ts) + LIST_END@
        } else {
            Seq::<char>::empty()
        },
        None => Seq::<char>::empty(),
    }
}

/// One checklist line of a new task.
pub open spec fn checklist_item_text(item: Seq<char>) -> Seq<char> {
    CHECKLIST_ITEM_HEAD@ + escaped(item) + CHECKLIST_ITEM_TAIL@
}

/// The checklist of a new task, one line per item.
pub open spec fn create_checklist_text(p: CreateTaskView) -> Seq<char> {
    match p.checklist_items {
        Some(items) => join(
            items.map_values(|i: Seq<char>| checklist_item_text(i)),
            Seq::<char>::empty(),
        ),
        None => Seq::<char>::empty(),
    }
}

/// The script that creates a task and prints its id.
pub open spec fn create_script_text(p: CreateTaskView) -> Seq<char> {
    CREATE_SCRIPT_HEAD@ + create_props_text(p) + CREATE_PROPS_END@ + create_move_text(p)
        + create_tags_text(p) + create_checklist_text(p) + CREATE_SCRIPT_TAIL@
}

/// The name of the list that an update moves a task to: Today, Upcoming,
/// Anytime or Someday by name, the Inbox for anything else.
pub open spec fn move_list_name(l: Seq<char>) -> Seq<char> {
    if l == TODAY_FILTER@ {
        TODAY_NAME@
    } else if l == UPCOMING_FILTER@ {
        UPCOMING_NAME@
    } else if l == ANYTIME_FILTER@ {
        ANYTIME_NAME@
    } else if l == SOMEDAY_FILTER@ {
        SOMEDAY_NAME@
    } else {
        INBOX_NAME@
    }
}

/// The due-date change of an update: an empty date clears it.
pub open spec fn due_change_text(d: Seq<char>) -> Seq<char> {
    if d.len() == 0 {
        CLEAR_DUE@
    } else {
        SET_DUE@ + escaped(d) + DATE_END@
    }
}

/// The changes that an update asks for, one statement each, in the order
/// title, notes, due date, tags, project, list.
pub open spec fn update_changes_text(p: UpdateTaskView) -> Seq<Seq<char>> {
    let title = match p.title {
        Some(t) => seq![SET_NAME@ + escaped(t) + QUOTE@],
        None => Seq::<Seq<char>>::empty(),
    };
    let notes = match p.notes {
        Some(n) => seq![SET_NOTES@ + escaped(n) + QUOTE@],
        None => Seq::<Seq<char>>::empty(),
    };
    let due = match p.due_date {
        Some(d) => seq![due_change_text(d)],
        None => Seq::<Seq<char>>::empty(),
    };
    let tags = match p.tags {
        Some(ts) => seq![SET_TAGS@ + quoted_list_text(ts) + LIST_END@],
        None => Seq::<Seq<char>>::empty(),
    };
    let project = match p.project {
        Some(pr) => seq![MOVE_TO_PROJECT@ + escaped(pr) + OF_THINGS@],
        None => Seq::<Seq<char>>::empty(),
    };
    let list = match p.list {
        Some(l) => seq![MOVE_TO_LIST@ + move_list_name(l) + OF_THINGS@],
        None => Seq::<Seq<char>>::empty(),
    };
    title + notes + due + tags + project + list
}

/// The script that applies changes to a task.
pub open spec fn update_script_text(id: Seq<char>, changes: Seq<Seq<char>>) -> Seq<char> {
    TASK_SCRIPT_HEAD@ + escaped(id) + UPDATE_SCRIPT_MID@ + join(changes, UPDATE_SEP@)
        + UPDATE_SCRIPT_TAIL@
}

/// The list filters are the words `today`, `someday`, `upcoming` and
/// `anytime`, all different.
pub proof fn lemma_filters_distinct()
    ensures
        TODAY_FILTER@ == "today"@,
        SOMEDAY_FILTER@ == "someday"@,
        UPCOMING_FILTER@ == "upcoming"@,
        ANYTIME_FILTER@ == "anytime"@,
        TODAY_FILTER@ != SOMEDAY_FILTER@,
        TODAY_FILTER@ != UPCOMING_FILTER@,
        TODAY_FILTER@ != ANYTIME_FILTER@,
        SOMEDAY_FILTER@ != UPCOMING_FILTER@,
        SOMEDAY_FILTER@ != ANYTIME_FILTER@,
        UPCOMING_FILTER@ != ANYTIME_FILTER@,
{
    reveal_strlit("today");
    reveal_strlit("someday");
    reveal_strlit("upcoming");
    reveal_strlit("anytime");
    assert(TODAY_FILTER@[0] == 't');
    assert(SOMEDAY_FILTER@[0] == 's');
    assert(UPCOMING_FILTER@[0] == 'u');
    assert(ANYTIME_FILTER@[0] == 'a');
}

/// A new task with no project is placed by its list: on Today, on Someday,
/// or moved into Upcoming or Anytime; any other list (the Inbox among them)
/// leaves it where Things 3 puts new tasks.
pub proof fn law_create_places_by_list(p: CreateTaskView)
    requires
        p.project is None,
    ensures
        p.list == Some(TODAY_FILTER@) ==> create_move_text(p) == SCHEDULE_TODAY@,
        p.list == Some(SOMEDAY_FILTER@) ==> create_move_text(p) == SCHEDULE_SOMEDAY@,
        p.list == Some(UPCOMING_FILTER@) ==> create_move_text(p) == PLACE_IN_LIST@
            + UPCOMING_NAME@ + OF_THINGS@,
        p.list == Some(ANYTIME_FILTER@) ==> create_move_text(p) == PLACE_IN_LIST@ + ANYTIME_NAME@
            + OF_THINGS@,
        p.list is None ==> create_move_text(p) == Seq::<char>::empty(),
{
    reveal_strlit("today");
    reveal_strlit("someday");
    reveal_strlit("upcoming");
    reveal_strlit("anytime");
    assert(TODAY_FILTER@ == "today"@);
    assert(SOMEDAY_FILTER@ == "someday"@);
    assert(UPCOMING_FILTER@ == "upcoming"@);
    assert(ANYTIME_FILTER@ == "anytime"@);
    assert(TODAY_FILTER@ != SOMEDAY_FILTER@);
    assert(TODAY_FILTER@ != UPCOMING_FILTER@);
    assert(SOMEDAY_FILTER@ != UPCOMING_FILTER@);
    assert(TODAY_FILTER@ != ANYTIME_FILTER@);
    assert(SOMEDAY_FILTER@[0] != ANYTIME_FILTER@[0]);
    assert(UPCOMING_FILTER@ != ANYTIME_FILTER@);
}

spec fn notes_part(p: CreateTaskView) -> Seq<char> {
    let notes = match p.notes {
        Some(n) => escaped(n),
        None => Seq::<char>::empty(),
    };
    if notes.len() > 0 {
        NOTES_PROP@ + notes + QUOTE@
    } else {
        Seq::<char>::empty()
    }
}

spec fn due_part(p: CreateTaskView) -> Seq<char> {
    let due = match p.due_date {
        Some(d) => d,
        None => Seq::<char>::empty(),
    };
    if due.len() > 0 {
        DUE_PROP@ + due + DATE_END@
    } else {
        Seq::<char>::empty()
    }
}

spec fn name_part(p: CreateTaskView) -> Seq<char> {
    NAME_PROP@ + escaped(p.title) + QUOTE@
}

spec fn after_props(p: CreateTaskView) -> Seq<char> {
    CREATE_PROPS_END@ + create_move_text(p) + create_tags_text(p) + create_checklist_text(p)
        + CREATE_SCRIPT_TAIL@
}

proof fn lemma_create_script_parts(p: CreateTaskView)
    ensures
        create_script_text(p) == CREATE_SCRIPT_HEAD@ + name_part(p) + notes_part(p) + due_part(p)
            + after_props(p),
        create_script_text(p) == CREATE_SCRIPT_HEAD@ + create_props_text(p) + CREATE_PROPS_END@
            + create_move_text(p) + create_tags_text(p) + create_checklist_text(p)
            + CREATE_SCRIPT_TAIL@,
{
    assert(create_props_text(p) == name_part(p) + notes_part(p) + due_part(p));
    assert(create_script_text(p) =~= CREATE_SCRIPT_HEAD@ + name_part(p) + notes_part(p) + due_part(
        p,
    ) + after_props(p));
}

/// A creation script names the new task by its title, quoted exactly.
pub proof fn law_create_script_names_task(p: CreateTaskView)
    ensures
        contains(create_script_text(p), "name:\""@ + escaped(p.title) + "\""@),
{
    assert(NAME_PROP@ == "name:\""@);
    assert(QUOTE@ == "\""@);
    lemma_create_script_parts(p);
    let head = CREATE_SCRIPT_HEAD@;
    let c = notes_part(p) + due_part(p) + after_props(p);
    assert(create_script_text(p) =~= head + name_part(p) + c);
    lemma_contains_middle(head, name_part(p), c);
}

/// A creation script gives the new task its notes whenever they are not
/// empty, whatever the other fields hold.
pub proof fn law_create_script_sets_notes(p: CreateTaskView)
    ensures
        p.notes matches Some(n) ==> (n.len() > 0 ==> contains(
            create_script_text(p),
            ", notes:\""@ + escaped(n) + "\""@,
        )),
{
    if let Some(n) = p.notes {
        if n.len() > 0 {
            assert(NOTES_PROP@ == ", notes:\""@);
            assert(QUOTE@ == "\""@);
            assert(escaped(n).len() > 0) by {
                assert(esc_char(n[0]).len() > 0);
            }
            lemma_create_script_parts(p);
            let a = CREATE_SCRIPT_HEAD@ + name_part(p);
            let c = due_part(p) + after_props(p);
            assert(create_script_text(p) =~= a + notes_part(p) + c);
            lemma_contains_middle(a, notes_part(p), c);
        }
    }
}

/// A creation script gives the new task its due date whenever it is not
/// empty, with or without notes.
pub proof fn law_create_script_sets_due_date(p: CreateTaskView)
    ensures
        p.due_date matches Some(d) ==> (d.len() > 0 ==> contains(
            create_script_text(p),
            ", due date:(date \""@ + d + "\")"@,
        )),
{
    if let Some(d) = p.due_date {
        if d.len() > 0 {
            assert(DUE_PROP@ == ", due date:(date \""@);
            assert(DATE_END@ == "\")"@);
            lemma_create_script_parts(p);
            let a = CREATE_SCRIPT_HEAD@ + name_part(p) + notes_part(p);
            let c = after_props(p);
            assert(create_script_text(p) =~= a + due_part(p) + c);
            lemma_contains_middle(a, due_part(p), c);
        }
    }
}

/// A creation script moves the new task into the project it names.
pub proof fn law_create_script_moves_to_project(p: CreateTaskView)
    ensures
        p.project matches Some(pr) ==> contains(
            create_script_text(p),
            "\n    set theProject to project \""@ + escaped(pr) + "\"\n    move newTask to theProject"@,
        ),
{
    if let Some(pr) = p.project {
        assert(MOVE_TO_PROJECT_HEAD@ == "\n    set theProject to project \""@);
        assert(MOVE_TO_PROJECT_TAIL@ == "\"\n    move newTask to theProject"@);
        lemma_create_script_parts(p);
        let a = CREATE_SCRIPT_HEAD@ + create_props_text(p) + CREATE_PROPS_END@;
        let c = create_tags_text(p) + create_checklist_text(p) + CREATE_SCRIPT_TAIL@;
        assert(create_script_text(p) =~= a + create_move_text(p) + c);
        lemma_contains_middle(a, create_move_text(p), c);
    }
}

/// A creation script sets the new task's tags when there are any, each tag
/// quoted exactly.
pub proof fn law_create_script_sets_tags(p: CreateTaskView)
    ensures
        p.tags matches Some(ts) ==> (ts.len() > 0 ==> (contains(
            create_script_text(p),
            "\n    set tag names of newTask to {"@ + quoted_list_text(ts) + "}"@,
        ) && forall|i: int|
            0 <= i < ts.len() ==> contains(create_script_text(p), #[trigger] quoted_text(ts[i])))),
{
    if let Some(ts) = p.tags {
        if ts.len() > 0 {
            assert(SET_NEW_TAGS@ == "\n    set tag names of newTask to {"@);
            assert(LIST_END@ == "}"@);
            lemma_create_script_parts(p);
            let a = CREATE_SCRIPT_HEAD@ + create_props_text(p) + CREATE_PROPS_END@ + create_move_text(
                p,
            );
            let tg = create_tags_text(p);
            let c = create_checklist_text(p) + CREATE_SCRIPT_TAIL@;
            assert(create_script_text(p) =~= a + tg + c);
            lemma_contains_middle(a, tg, c);
            let parts = ts.map_values(|t: Seq<char>| quoted_text(t));
            assert forall|i: int| 0 <= i < ts.len() implies contains(
                create_script_text(p),
                #[trigger] quoted_text(ts[i]),
            ) by {
                lemma_join_contains(parts, TAG_SEP@, i);
                assert(parts[i] == quoted_text(ts[i]));
                lemma_contains_within(SET_NEW_TAGS@, quoted_list_text(ts), LIST_END@, quoted_text(ts[i]));
                lemma_contains_within(a, tg, c, quoted_text(ts[i]));
            }
        }
    }
}

/// A creation script adds one checklist line for each item, named exactly.
pub proof fn law_create_script_adds_checklist(p: CreateTaskView)
    ensures
        p.checklist_items matches Some(items) ==> forall|i: int|
            0 <= i < items.len() ==> contains(
                create_script_text(p),
                "\n    make new checklist item at end of checklist items of newTask with properties {name:\""@
                    + escaped(#[trigger] items[i]) + "\"}"@,
            ),
{
    if let Some(items) = p.checklist_items {
        assert(CHECKLIST_ITEM_HEAD@
            == "\n    make new checklist item at end of checklist items of newTask with properties {name:\""@);
        assert(CHECKLIST_ITEM_TAIL@ == "\"}"@);
        lemma_create_script_parts(p);
        let a = CREATE_SCRIPT_HEAD@ + create_props_text(p) + CREATE_PROPS_END@ + create_move_text(p)
            + create_tags_text(p);
        let ck = create_checklist_text(p);
        assert(create_script_text(p) =~= a + ck + CREATE_SCRIPT_TAIL@);
        let parts = items.map_values(|i: Seq<char>| checklist_item_text(i));
        assert forall|i: int| 0 <= i < items.len() implies contains(
            create_script_text(p),
            "\n    make new checklist item at end of checklist items of newTask with properties {name:\""@
                + escaped(#[trigger] items[i]) + "\"}"@,
        ) by {
            lemma_join_contains(parts, Seq::<char>::empty(), i);
            assert(parts[i] == checklist_item_text(items[i]));
            lemma_contains_within(a, ck, CREATE_SCRIPT_TAIL@, checklist_item_text(items[i]));
        }
    }
}

/// An update whose due date is the empty string clears the due date; any
/// other due date is set, escaped, as a date.
pub proof fn law_empty_due_date_clears(p: UpdateTaskView)
    requires
        p.due_date is Some,
    ensures
        update_changes_text(p).contains(
            if p.due_date->0.len() == 0 {
                CLEAR_DUE@
            } else {
                SET_DUE@ + escaped(p.due_date->0) + DATE_END@
            },
        ),
{
    let c = update_changes_text(p);
    let k: int = (if p.title is Some { 1int } else { 0int }) + (if p.notes is Some { 1int } else { 0int });
    assert(c[k] == due_change_text(p.due_date->0));
}

// ---------------------------------------------------------------------------
// Executable functions
// ---------------------------------------------------------------------------

fn known_list_of(f: &str) -> (r: Option<&'static str>)
    ensures
        match r {
            Some(n) => known_list(f@) == Some(n@),
            None => known_list(f@) is None,
        },
{
    let v = chars_of(f);
    if v.len() == 0 || same_text(&v, INBOX_FILTER) {
        Some(INBOX_NAME)
    } else if same_text(&v, TODAY_FILTER) {
        Some(TODAY_NAME)
    } else if same_text(&v, UPCOMING_FILTER) {
        Some(UPCOMING_NAME)
    } else if same_text(&v, ANYTIME_FILTER) {
        Some(ANYTIME_NAME)
    } else if same_text(&v, SOMEDAY_FILTER) {
        Some(SOMEDAY_NAME)
    } else if same_text(&v, LOGBOOK_FILTER) {
        Some(LOGBOOK_NAME)
    } else {
        None
    }
}

/// The list reference for a filter.
pub fn list_ref(filter: Option<&str>) -> (s: String)
    ensures
        s@ == list_ref_text(opt_text(filter)),
{
    let mut s = String::new();
    append_str(&mut s, LIST_HEAD);
    match filter {
        None => append_str(&mut s, INBOX_NAME),
        Some(f) => match known_list_of(f) {
            Some(n) => append_str(&mut s, n),
            None => {
                let e = esc(f);
                append_str(&mut s, e.as_str());
            },
        },
    }
    append_str(&mut s, QUOTE);
    s
}

/// The script that prints the tasks of a list.
pub fn tasks_script(filter: Option<&str>) -> (s: String)
    ensures
        s@ == tasks_script_text(opt_text(filter)),
{
    let mut s = String::new();
    append_str(&mut s, TASKS_SCRIPT_HEAD);
    let l = list_ref(filter);
    append_str(&mut s, l.as_str());
    append_str(&mut s, TASKS_SCRIPT_TAIL);
    s
}

fn around_id(head: &str, id: &str, tail: &str) -> (s: String)
    ensures
        s@ == head@ + escaped(id@) + tail@,
{
    let mut s = String::new();
    append_str(&mut s, head);
    let e = esc(id);
    append_str(&mut s, e.as_str());
    append_str(&mut s, tail);
    s
}

/// The script that prints one task.
pub fn task_script(id: &str) -> (s: String)
    ensures
        s@ == task_script_text(id@),
{
    around_id(TASK_SCRIPT_HEAD, id, TASK_SCRIPT_TAIL)
}

/// The script that marks a task completed.
pub fn complete_script(id: &str) -> (s: String)
    ensures
        s@ == complete_script_text(id@),
{
    around_id(TASK_SCRIPT_HEAD, id, COMPLETE_SCRIPT_TAIL)
}

/// The script that deletes a task.
pub fn delete_script(id: &str) -> (s: String)
    ensures
        s@ == delete_script_text(id@),
{
    around_id(DELETE_SCRIPT_HEAD, id, DELETE_SCRIPT_TAIL)
}

fn quoted(t: &str) -> (s: String)
    ensures
        s@ == quoted_text(t@),
{
    around_id(QUOTE, t, QUOTE)
}

/// Tag names, each quoted, with `, ` between them.
fn quoted_list(ts: &Vec<String>) -> (s: String)
    ensures
        s@ == quoted_list_text(strs(ts@)),
{
    let ghost src = strs(ts@);
    let n = ts.len();
    let mut q: Vec<String> = Vec::new();
    for i in 0..n
        invariant
            n == ts@.len(),
            src == strs(ts@),
            strs(q@) == src.take(i as int).map_values(|t: Seq<char>| quoted_text(t)),
    {
        let one = quoted(ts[i].as_str());
        let ghost prev = strs(q@);
        q.push(one);
        assert(strs(q@) =~= prev.push(quoted_text(src[i as int])));
        assert(src.take(i + 1).map_values(|t: Seq<char>| quoted_text(t)) =~= src.take(
            i as int,
        ).map_values(|t: Seq<char>| quoted_text(t)).push(quoted_text(src[i as int])));
    }
    assert(src.take(n as int) =~= src);
    let mut s = String::new();
    append_joined(&mut s, &q, TAG_SEP);
    s
}

fn checklist(items: &Vec<String>) -> (s: String)
    ensures
        s@ == join(
            strs(items@).map_values(|i: Seq<char>| checklist_item_text(i)),
            Seq::<char>::empty(),
        ),
{
    let ghost src = strs(items@);
    let n = items.len();
    let mut q: Vec<String> = Vec::new();
    for i in 0..n
        invariant
            n == items@.len(),
            src == strs(items@),
            strs(q@) == src.take(i as int).map_values(|t: Seq<char>| checklist_item_text(t)),
    {
        let one = around_id(CHECKLIST_ITEM_HEAD, items[i].as_str(), CHECKLIST_ITEM_TAIL);
        let ghost prev = strs(q@);
        q.push(one);
        assert(strs(q@) =~= prev.push(checklist_item_text(src[i as int])));
        assert(src.take(i + 1).map_values(|t: Seq<char>| checklist_item_text(t)) =~= src.take(
            i as int,
        ).map_values(|t: Seq<char>| checklist_item_text(t)).push(checklist_item_text(src[i as int])));
    }
    assert(src.take(n as int) =~= src);
    let mut s = String::new();
    assert(""@ =~= Seq::<char>::empty()) by {
        reveal_strlit("");
    }
    append_joined(&mut s, &q, "");
    s
}

fn create_props(p: &CreateTask) -> (s: String)
    ensures
        s@ == create_props_text(p@),
{
    let mut s = String::new();
    append_str(&mut s, NAME_PROP);
    let title = esc(p.title.as_str());
    append_str(&mut s, title.as_str());
    append_str(&mut s, QUOTE);
    let ghost base = s@;
    match &p.notes {
        Some(n) => {
            let notes = esc(n.as_str());
            if notes.as_str().unicode_len() > 0 {
                append_str(&mut s, NOTES_PROP);
                append_str(&mut s, notes.as_str());
                append_str(&mut s, QUOTE);
            }
        },
        None => {},
    }
    let ghost with_notes = s@;
    match &p.due_date {
        Some(d) => {
            if d.as_str().unicode_len() > 0 {
                append_str(&mut s, DUE_PROP);
                append_str(&mut s, d.as_str());
                append_str(&mut s, DATE_END);
            }
        },
        None => {},
    }
    assert(s@ =~= create_props_text(p@));
    s
}

fn create_move(p: &CreateTask) -> (s: String)
    ensures
        s@ == create_move_text(p@),
{
    let mut s = String::new();
    match &p.project {
        Some(pr) => {
            let m = around_id(MOVE_TO_PROJECT_HEAD, pr.as_str(), MOVE_TO_PROJECT_TAIL);
            append_str(&mut s, m.as_str());
        },
        None => match &p.list {
            Some(l) => {
                let v = chars_of(l.as_str());
                if same_text(&v, TODAY_FILTER) {
                    append_str(&mut s, SCHEDULE_TODAY);
                } else if same_text(&v, SOMEDAY_FILTER) {
                    append_str(&mut s, SCHEDULE_SOMEDAY);
                } else if same_text(&v, UPCOMING_FILTER) {
                    append_str(&mut s, PLACE_IN_LIST);
                    append_str(&mut s, UPCOMING_NAME);
                    append_str(&mut s, OF_THINGS);
                } else if same_text(&v, ANYTIME_FILTER) {
                    append_str(&mut s, PLACE_IN_LIST);
                    append_str(&mut s, ANYTIME_NAME);
                    append_str(&mut s, OF_THINGS);
                }
            },
            None => {},
        },
    }
    assert(s@ =~= create_move_text(p@));
    s
}

/// The script that creates a task and prints its id.
pub fn create_script(p: &CreateTask) -> (s: String)
    ensures
        s@ == create_script_text(p@),
{
    let mut s = String::new();
    append_str(&mut s, CREATE_SCRIPT_HEAD);
    let props = create_props(p);
    append_str(&mut s, props.as_str());
    append_str(&mut s, CREATE_PROPS_END);
    let mv = create_move(p);
    append_str(&mut s, mv.as_str());
    match &p.tags {
        Some(ts) => {
            if ts.len() > 0 {
                append_str(&mut s, SET_NEW_TAGS);
                let q = quoted_list(ts);
                append_str(&mut s, q.as_str());
                append_str(&mut s, LIST_END);
            }
        },
        None => {},
    }
    match &p.checklist_items {
        Some(items) => {
            let c = checklist(items);
            append_str(&mut s, c.as_str());
        },
        None => {},
    }
    append_str(&mut s, CREATE_SCRIPT_TAIL);
    assert(s@ =~= create_script_text(p@));
    s
}

fn move_list_name_of(l: &str) -> (r: &'static str)
    ensures
        r@ == move_list_name(l@),
{
    let v = chars_of(l);
    if same_text(&v, TODAY_FILTER) {
        TODAY_NAME
    } else if same_text(&v, UPCOMING_FILTER) {
        UPCOMING_NAME
    } else if same_text(&v, ANYTIME_FILTER) {
        ANYTIME_NAME
    } else if same_text(&v, SOMEDAY_FILTER) {
        SOMEDAY_NAME
    } else {
        INBOX_NAME
    }
}

/// The changes that an update asks for, one statement each.
pub fn update_changes(p: &UpdateTask) -> (out: Vec<String>)
    ensures
        strs(out@) == update_changes_text(p@),
{
    let mut out: Vec<String> = Vec::new();
    let ghost v = p@;
    let ghost e = Seq::<Seq<char>>::empty();
    assert(strs(out@) =~= e);
    if let Some(t) = &p.title {
        let c = around_id(SET_NAME, t.as_str(), QUOTE);
        out.push(c);
    }
    assert(strs(out@) =~= match v.title {
        Some(t) => seq![SET_NAME@ + escaped(t) + QUOTE@],
        None => e,
    });
    let ghost acc1 = strs(out@);
    if let Some(n) = &p.notes {
        let c = around_id(SET_NOTES, n.as_str(), QUOTE);
        out.push(c);
    }
    assert(strs(out@) =~= acc1 + match v.notes {
        Some(n) => seq![SET_NOTES@ + escaped(n) + QUOTE@],
        None => e,
    });
    let ghost acc2 = strs(out@);
    if let Some(d) = &p.due_date {
        if d.as_str().unicode_len() == 0 {
            let mut c = String::new();
            append_str(&mut c, CLEAR_DUE);
            out.push(c);
        } else {
            let c = around_id(SET_DUE, d.as_str(), DATE_END);
            out.push(c);
        }
    }
    assert(strs(out@) =~= acc2 + match v.due_date {
        Some(d) => seq![due_change_text(d)],
        None => e,
    });
    let ghost acc3 = strs(out@);
    if let Some(ts) = &p.tags {
        let mut c = String::new();
        append_str(&mut c, SET_TAGS);
        let q = quoted_list(ts);
        append_str(&mut c, q.as_str());
        append_str(&mut c, LIST_END);
        out.push(c);
    }
    assert(strs(out@) =~= acc3 + match v.tags {
        Some(ts) => seq![SET_TAGS@ + quoted_list_text(ts) + LIST_END@],
        None => e,
    });
    let ghost acc4 = strs(out@);
    if let Some(pr) = &p.project {
        let c = around_id(MOVE_TO_PROJECT, pr.as_str(), OF_THINGS);
        out.push(c);
    }
    assert(strs(out@) =~= acc4 + match v.project {
        Some(pr) => seq![MOVE_TO_PROJECT@ + escaped(pr) + OF_THINGS@],
        None => e,
    });
    let ghost acc5 = strs(out@);
    if let Some(l) = &p.list {
        let mut c = String::new();
        append_str(&mut c, MOVE_TO_LIST);
        append_str(&mut c, move_list_name_of(l.as_str()));
        append_str(&mut c, OF_THINGS);
        out.push(c);
    }
    assert(strs(out@) =~= acc5 + match v.list {
        Some(l) => seq![MOVE_TO_LIST@ + move_list_name(l) + OF_THINGS@],
        None => e,
    });
    assert(strs(out@) =~= update_changes_text(p@));
    out
}

/// The script that applies changes to a task.
pub fn update_script(id: &str, changes: &Vec<String>) -> (s: String)
    ensures
        s@ == update_script_text(id@, strs(changes@)),
{
    let mut s = String::new();
    append_str(&mut s, TASK_SCRIPT_HEAD);
    let e = esc(id);
    append_str(&mut s, e.as_str());
    append_str(&mut s, UPDATE_SCRIPT_MID);
    append_joined(&mut s, changes, UPDATE_SEP);
    append_str(&mut s, UPDATE_SCRIPT_TAIL);
    s
}

} // verus!
