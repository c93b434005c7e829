//! What the listings answer for what the scripts print: every record that a
//! script prints, one per line, comes back as the record it describes, and
//! nothing else comes back.
use vstd::prelude::*;
use crate::commands::{next_step, PendingView, ProgressView, ReplyView};
use crate::models::{AreaView, ChecklistItemView, ProjectView, TaskView};
use crate::records::{
    area_record, area_records, flag_field, law_page_is_a_run, law_page_whole, tasks_output, law_output_lines_read_back, law_tags_read_back,
    optional_field, output_lines, project_record, project_records, tag_field, task_record,
    task_records, MISSING_VALUE, TRUE_TEXT,
};
use crate::text::{
    free_of, is_ws, join, lemma_splitn_join, terminated_lines, trim, trim_end, trim_start,
};

verus! {

// ---------------------------------------------------------------------------
// What the scripts print
// ---------------------------------------------------------------------------

/// A text field that a record can hold as it is: no `|` and no line feed.
pub open spec fn field_ok(t: Seq<char>) -> bool {
    free_of(t, '|') && free_of(t, '\n')
}

/// Text that neither starts nor ends with whitespace and is not empty.
pub open spec fn tight(t: Seq<char>) -> bool {
    t.len() > 0 && !is_ws(t[0]) && !is_ws(t.last())
}

/// An optional value that reads back as itself: absent, or a tight field
/// that is not `missing value`.
pub open spec fn opt_ok(o: Option<Seq<char>>) -> bool {
    match o {
        Some(t) => field_ok(t) && tight(t) && t != "missing value"@,
        None => true,
    }
}

/// Tag names that read back as themselves: tight fields without commas.
pub open spec fn tags_ok(ts: Seq<Seq<char>>) -> bool {
    forall|i: int| 0 <= i < ts.len() ==> field_ok(#[trigger] ts[i]) && free_of(ts[i], ',') && tight(
        ts[i],
    )
}

/// How a script prints an optional value: the text, or nothing.
pub open spec fn printed_opt(o: Option<Seq<char>>) -> Seq<char> {
    match o {
        Some(t) => t,
        None => Seq::<char>::empty(),
    }
}

/// How AppleScript prints a boolean.
pub open spec fn printed_flag(b: bool) -> Seq<char> {
    if b {
        "true"@
    } else {
        "false"@
    }
}

/// How a script prints tag names: separated by commas.
pub open spec fn printed_tags(ts: Seq<Seq<char>>) -> Seq<char> {
    join(ts, seq![','])
}

/// The line that the project script prints for a project.
pub open spec fn project_line(p: ProjectView) -> Seq<char> {
    join(
        seq![
            p.id,
            p.title,
            printed_opt(p.notes),
            printed_opt(p.area),
            printed_tags(p.tags),
            printed_flag(p.completed),
            printed_flag(p.canceled),
        ],
        seq!['|'],
    )
}

/// A project whose line reads back as the project.
pub open spec fn project_printable(p: ProjectView) -> bool {
    field_ok(p.id) && field_ok(p.title) && opt_ok(p.notes) && opt_ok(p.area) && tags_ok(p.tags)
}

/// The line that the area script prints for an area.
pub open spec fn area_line(a: AreaView) -> Seq<char> {
    join(seq![a.id, a.title, printed_tags(a.tags)], seq!['|'])
}

/// An area whose line reads back as the area.
pub open spec fn area_printable(a: AreaView) -> bool {
    field_ok(a.id) && field_ok(a.title) && tags_ok(a.tags)
}

/// The line that the task scripts print for a task.
pub open spec fn task_line(t: TaskView) -> Seq<char> {
    join(
        seq![
            t.id,
            t.title,
            printed_opt(t.notes),
            printed_opt(t.due_date),
            printed_opt(t.project),
            printed_opt(t.area),
            printed_tags(t.tags),
            printed_flag(t.completed),
            printed_flag(t.canceled),
            printed_opt(t.creation_date),
            printed_opt(t.completion_date),
        ],
        seq!['|'],
    )
}

/// A task whose line reads back as the task: its texts can be printed, and
/// it has no list and no checklist (the scripts print neither).
pub open spec fn task_printable(t: TaskView) -> bool {
    field_ok(t.id) && field_ok(t.title) && opt_ok(t.notes) && opt_ok(t.due_date) && opt_ok(
        t.project,
    ) && opt_ok(t.area) && tags_ok(t.tags) && opt_ok(t.creation_date) && opt_ok(t.completion_date)
        && t.list is None && t.checklist_items.len() == 0
}

// ---------------------------------------------------------------------------
// Lemmas
// ---------------------------------------------------------------------------

proof fn lemma_trim_tight(t: Seq<char>)
    requires
        tight(t),
    ensures
        trim(t) == t,
{
    assert(trim_start(t) == t);
    assert(trim_end(t) == t);
}

proof fn lemma_optional_reads_back(o: Option<Seq<char>>)
    requires
        opt_ok(o),
    ensures
        optional_field(printed_opt(o)) == o,
{
    reveal_strlit("missing value");
    assert(MISSING_VALUE@ == "missing value"@);
    match o {
        Some(t) => {
            lemma_trim_tight(t);
        },
        None => {
            assert(trim(Seq::<char>::empty()) == Seq::<char>::empty());
        },
    }
}

proof fn lemma_flag_reads_back(b: bool)
    ensures
        flag_field(printed_flag(b)) == b,
        printed_flag(b).len() > 0,
        free_of(printed_flag(b), '|'),
        free_of(printed_flag(b), '\n'),
        printed_flag(b).last() != '\r',
{
    reveal_strlit("true");
    reveal_strlit("false");
    assert(TRUE_TEXT@ == "true"@);
    let t = printed_flag(b);
    assert(tight(t));
    lemma_trim_tight(t);
    assert("false"@ != "true"@);
}

proof fn lemma_free_join(ps: Seq<Seq<char>>, s: char, c: char)
    requires
        s != c,
        forall|i: int| 0 <= i < ps.len() ==> free_of(#[trigger] ps[i], c),
    ensures
        free_of(join(ps, seq![s]), c),
    decreases ps.len(),
{
    if ps.len() >= 2 {
        let init = ps.drop_last();
        assert forall|i: int| 0 <= i < init.len() implies free_of(#[trigger] init[i], c) by {
            assert(init[i] == ps[i]);
        }
        lemma_free_join(init, s, c);
        let a = join(init, seq![s]);
        let j = join(ps, seq![s]);
        assert(j == a + seq![s] + ps.last());
        assert(free_of(ps.last(), c));
        assert forall|i: int| 0 <= i < j.len() implies j[i] != c by {
            if i < a.len() {
                assert(j[i] == a[i]);
            } else if i == a.len() {
                assert(j[i] == s);
            } else {
                assert(j[i] == ps.last()[i - a.len() - 1]);
            }
        }
    } else if ps.len() == 1 {
        assert(free_of(ps[0], c));
    }
}

proof fn lemma_tags_read_back(ts: Seq<Seq<char>>)
    requires
        tags_ok(ts),
    ensures
        tag_field(printed_tags(ts)) == ts,
        free_of(printed_tags(ts), '|'),
        free_of(printed_tags(ts), '\n'),
        printed_tags(ts).len() == 0 || !is_ws(printed_tags(ts).last()),
{
    assert forall|i: int| 0 <= i < ts.len() implies free_of(#[trigger] ts[i], '|') by {}
    assert forall|i: int| 0 <= i < ts.len() implies free_of(#[trigger] ts[i], '\n') by {}
    lemma_free_join(ts, ',', '|');
    lemma_free_join(ts, ',', '\n');
    if ts.len() == 0 {
        assert(printed_tags(ts) == Seq::<char>::empty());
        assert(tag_field(Seq::<char>::empty()) =~= ts);
    } else {
        let j = printed_tags(ts);
        if ts.len() == 1 {
            assert(j == ts[0]);
        } else {
            assert(j == join(ts.drop_last(), seq![',']) + seq![','] + ts.last());
            assert(tight(ts[ts.len() - 1]));
        }
        assert(j.len() > 0);
        assert forall|i: int| 0 <= i < ts.len() implies free_of(#[trigger] ts[i], ',') by {}
        law_tags_read_back(ts);
        assert forall|i: int| 0 <= i < ts.len() implies trim(#[trigger] ts[i]) == ts[i] by {
            lemma_trim_tight(ts[i]);
        }
        assert(ts.map_values(|t: Seq<char>| trim(t)) =~= ts);
    }
}

/// The last character of pieces joined by `|`, when the last piece is empty.
proof fn lemma_join_shape(ps: Seq<Seq<char>>)
    requires
        ps.len() >= 2,
    ensures
        join(ps, seq!['|']) == join(ps.drop_last(), seq!['|']) + seq!['|'] + ps.last(),
        join(ps, seq!['|']).len() > 0,
        ps.last().len() == 0 ==> join(ps, seq!['|']).last() == '|',
        ps.last().len() > 0 ==> join(ps, seq!['|']).last() == ps.last().last(),
{
}

// ---------------------------------------------------------------------------
// Records read back
// ---------------------------------------------------------------------------

proof fn lemma_project_line(p: ProjectView)
    requires
        project_printable(p),
    ensures
        project_record(project_line(p)) == Ok::<ProjectView, Seq<char>>(p),
        free_of(project_line(p), '\n'),
        project_line(p).len() > 0,
        project_line(p).last() != '\r',
{
    let fields = seq![
        p.id,
        p.title,
        printed_opt(p.notes),
        printed_opt(p.area),
        printed_tags(p.tags),
        printed_flag(p.completed),
        printed_flag(p.canceled),
    ];
    lemma_tags_read_back(p.tags);
    lemma_flag_reads_back(p.completed);
    lemma_flag_reads_back(p.canceled);
    lemma_optional_reads_back(p.notes);
    lemma_optional_reads_back(p.area);
    assert forall|i: int| 0 <= i < 7 implies free_of(#[trigger] fields[i], '|') && free_of(
        fields[i],
        '\n',
    ) by {}
    lemma_splitn_join(fields, 7, '|');
    lemma_free_join(fields, '|', '\n');
    lemma_join_shape(fields);
}

proof fn lemma_area_line(a: AreaView)
    requires
        area_printable(a),
    ensures
        area_record(area_line(a)) == Ok::<AreaView, Seq<char>>(a),
        free_of(area_line(a), '\n'),
        area_line(a).len() > 0,
        area_line(a).last() != '\r',
{
    let fields = seq![a.id, a.title, printed_tags(a.tags)];
    lemma_tags_read_back(a.tags);
    assert forall|i: int| 0 <= i < 3 implies free_of(#[trigger] fields[i], '|') && free_of(
        fields[i],
        '\n',
    ) by {}
    lemma_splitn_join(fields, 3, '|');
    lemma_free_join(fields, '|', '\n');
    lemma_join_shape(fields);
}

proof fn lemma_task_line(t: TaskView)
    requires
        task_printable(t),
    ensures
        task_record(task_line(t)) == Ok::<TaskView, Seq<char>>(t),
        free_of(task_line(t), '\n'),
        task_line(t).len() > 0,
        task_line(t).last() != '\r',
{
    let fields = seq![
        t.id,
        t.title,
        printed_opt(t.notes),
        printed_opt(t.due_date),
        printed_opt(t.project),
        printed_opt(t.area),
        printed_tags(t.tags),
        printed_flag(t.completed),
        printed_flag(t.canceled),
        printed_opt(t.creation_date),
        printed_opt(t.completion_date),
    ];
    lemma_tags_read_back(t.tags);
    lemma_flag_reads_back(t.completed);
    lemma_flag_reads_back(t.canceled);
    lemma_optional_reads_back(t.notes);
    lemma_optional_reads_back(t.due_date);
    lemma_optional_reads_back(t.project);
    lemma_optional_reads_back(t.area);
    lemma_optional_reads_back(t.creation_date);
    lemma_optional_reads_back(t.completion_date);
    assert forall|i: int| 0 <= i < 11 implies free_of(#[trigger] fields[i], '|') && free_of(
        fields[i],
        '\n',
    ) by {}
    lemma_splitn_join(fields, 11, '|');
    lemma_free_join(fields, '|', '\n');
    lemma_join_shape(fields);
    let last = printed_opt(t.completion_date);
    if last.len() > 0 {
        assert(opt_ok(t.completion_date));
        assert(tight(last));
    }
    assert(t.checklist_items =~= Seq::<ChecklistItemView>::empty());
}

proof fn lemma_projects_collect(ps: Seq<ProjectView>)
    requires
        forall|i: int| 0 <= i < ps.len() ==> project_printable(#[trigger] ps[i]),
    ensures
        project_records(ps.map_values(|p: ProjectView| project_line(p))) == Ok::<
            Seq<ProjectView>,
            Seq<char>,
        >(ps),
    decreases ps.len(),
{
    let ls = ps.map_values(|p: ProjectView| project_line(p));
    if ps.len() > 0 {
        let init = ps.drop_last();
        assert forall|i: int| 0 <= i < init.len() implies project_printable(#[trigger] init[i]) by {
            assert(init[i] == ps[i]);
        }
        lemma_projects_collect(init);
        assert(ls.drop_last() =~= init.map_values(|p: ProjectView| project_line(p)));
        lemma_project_line(ps.last());
        assert(init.push(ps.last()) =~= ps);
    } else {
        assert(ps =~= Seq::<ProjectView>::empty());
    }
}

proof fn lemma_areas_collect(a: Seq<AreaView>)
    requires
        forall|i: int| 0 <= i < a.len() ==> area_printable(#[trigger] a[i]),
    ensures
        area_records(a.map_values(|x: AreaView| area_line(x))) == Ok::<Seq<AreaView>, Seq<char>>(a),
    decreases a.len(),
{
    let ls = a.map_values(|x: AreaView| area_line(x));
    if a.len() > 0 {
        let init = a.drop_last();
        assert forall|i: int| 0 <= i < init.len() implies area_printable(#[trigger] init[i]) by {
            assert(init[i] == a[i]);
        }
        lemma_areas_collect(init);
        assert(ls.drop_last() =~= init.map_values(|x: AreaView| area_line(x)));
        lemma_area_line(a.last());
        assert(init.push(a.last()) =~= a);
    } else {
        assert(a =~= Seq::<AreaView>::empty());
    }
}

proof fn lemma_tasks_collect(ts: Seq<TaskView>)
    requires
        forall|i: int| 0 <= i < ts.len() ==> task_printable(#[trigger] ts[i]),
    ensures
        task_records(ts.map_values(|t: TaskView| task_line(t))) == Ok::<Seq<TaskView>, Seq<char>>(
            ts,
        ),
    decreases ts.len(),
{
    let ls = ts.map_values(|t: TaskView| task_line(t));
    if ts.len() > 0 {
        let init = ts.drop_last();
        assert forall|i: int| 0 <= i < init.len() implies task_printable(#[trigger] init[i]) by {
            assert(init[i] == ts[i]);
        }
        lemma_tasks_collect(init);
        assert(ls.drop_last() =~= init.map_values(|t: TaskView| task_line(t)));
        lemma_task_line(ts.last());
        assert(init.push(ts.last()) =~= ts);
    } else {
        assert(ts =~= Seq::<TaskView>::empty());
    }
}

/// Listing projects answers exactly the projects that the script printed,
/// one per line, in order: each with its id, title, notes, area, tags and
/// status, and no project more or less.
pub proof fn law_project_listing_reads_back(ps: Seq<ProjectView>)
    requires
        forall|i: int| 0 <= i < ps.len() ==> project_printable(#[trigger] ps[i]),
    ensures
        next_step(
            PendingView::ProjectList,
            Ok(terminated_lines(ps.map_values(|p: ProjectView| project_line(p)))),
        ) == ProgressView::Finished(Ok::<ReplyView, Seq<char>>(ReplyView::Projects(ps))),
{
    let ls = ps.map_values(|p: ProjectView| project_line(p));
    assert forall|i: int| 0 <= i < ls.len() implies free_of(#[trigger] ls[i], '\n') && ls[i].len()
        > 0 && ls[i].last() != '\r' by {
        lemma_project_line(ps[i]);
    }
    law_output_lines_read_back(ls);
    lemma_projects_collect(ps);
}

/// Listing areas answers exactly the areas that the script printed, one per
/// line, in order, each with its id, title and tags.
pub proof fn law_area_listing_reads_back(a: Seq<AreaView>)
    requires
        forall|i: int| 0 <= i < a.len() ==> area_printable(#[trigger] a[i]),
    ensures
        next_step(
            PendingView::AreaList,
            Ok(terminated_lines(a.map_values(|x: AreaView| area_line(x)))),
        ) == ProgressView::Finished(Ok::<ReplyView, Seq<char>>(ReplyView::Areas(a))),
{
    let ls = a.map_values(|x: AreaView| area_line(x));
    assert forall|i: int| 0 <= i < ls.len() implies free_of(#[trigger] ls[i], '\n') && ls[i].len()
        > 0 && ls[i].last() != '\r' by {
        lemma_area_line(a[i]);
    }
    law_output_lines_read_back(ls);
    lemma_areas_collect(a);
}

/// Listing tasks without a limit or an offset answers exactly the tasks
/// that the script printed, one per line, in order, with all their fields.
pub proof fn law_task_listing_reads_back(ts: Seq<TaskView>)
    requires
        forall|i: int| 0 <= i < ts.len() ==> task_printable(#[trigger] ts[i]),
    ensures
        next_step(
            PendingView::TaskList { limit: None, offset: None },
            Ok(terminated_lines(ts.map_values(|t: TaskView| task_line(t)))),
        ) == ProgressView::Finished(Ok::<ReplyView, Seq<char>>(ReplyView::Tasks(ts))),
{
    let ls = ts.map_values(|t: TaskView| task_line(t));
    assert forall|i: int| 0 <= i < ls.len() implies free_of(#[trigger] ls[i], '\n') && ls[i].len()
        > 0 && ls[i].last() != '\r' by {
        lemma_task_line(ts[i]);
    }
    law_output_lines_read_back(ls);
    lemma_tasks_collect(ts);
    assert(ts.skip(0) =~= ts);
}

/// Reading one task answers the task that the script printed, whatever
/// line feed follows it.
pub proof fn law_single_task_reads_back(t: TaskView)
    requires
        task_printable(t),
        tight(t.id),
    ensures
        next_step(PendingView::SingleTask, Ok(task_line(t).push('\n'))) == ProgressView::Finished(
            Ok::<ReplyView, Seq<char>>(ReplyView::Task(t)),
        ),
{
    lemma_task_line(t);
    let l = task_line(t);
    let fields = seq![
        t.id,
        t.title,
        printed_opt(t.notes),
        printed_opt(t.due_date),
        printed_opt(t.project),
        printed_opt(t.area),
        printed_tags(t.tags),
        printed_flag(t.completed),
        printed_flag(t.canceled),
        printed_opt(t.creation_date),
        printed_opt(t.completion_date),
    ];
    lemma_join_shape(fields);
    crate::text::lemma_join_first(fields, seq!['|']);
    assert(l[0] == t.id[0]);
    let last = printed_opt(t.completion_date);
    if last.len() > 0 {
        assert(tight(last));
    }
    assert(!is_ws(l.last()));
    let r = l.push('\n');
    assert(trim_start(r) == r);
    assert(r.drop_last() =~= l);
    assert(trim_end(r) == trim_end(l));
    assert(trim_end(l) == l);
}

/// Listing tag names answers each name that the script printed, one per
/// line, in order.
pub proof fn law_tag_listing_reads_back(names: Seq<Seq<char>>)
    requires
        forall|i: int| 0 <= i < names.len() ==> free_of(#[trigger] names[i], '\n') && tight(names[i]),
    ensures
        next_step(PendingView::TagList, Ok(terminated_lines(names))) == ProgressView::Finished(
            Ok::<ReplyView, Seq<char>>(ReplyView::Tags(names)),
        ),
{
    assert forall|i: int| 0 <= i < names.len() implies free_of(#[trigger] names[i], '\n')
        && names[i].len() > 0 && names[i].last() != '\r' by {}
    law_output_lines_read_back(names);
    assert forall|i: int| 0 <= i < names.len() implies trim(#[trigger] names[i]) == names[i] by {
        lemma_trim_tight(names[i]);
    }
    assert(names.map_values(|l: Seq<char>| trim(l)) =~= names);
}

/// A paged listing answers the run of the whole listing that starts at the
/// offset (the start when there is none) and holds as many tasks as the
/// limit allows (all that are left when there is none); a listing that
/// fails, fails the same way whatever the paging.
pub proof fn law_listing_is_paged(raw: Seq<char>, limit: Option<usize>, offset: Option<usize>)
    ensures
        match next_step(PendingView::TaskList { limit: None, offset: None }, Ok(raw)) {
            ProgressView::Finished(Ok(ReplyView::Tasks(all))) => {
                let o: int = match offset {
                    Some(o) => o as int,
                    None => 0,
                };
                let avail: int = if o <= all.len() {
                    all.len() - o
                } else {
                    0
                };
                let n: int = match limit {
                    Some(l) => if l < avail {
                        l as int
                    } else {
                        avail
                    },
                    None => avail,
                };
                next_step(PendingView::TaskList { limit, offset }, Ok(raw)) matches ProgressView::Finished(
                    Ok(ReplyView::Tasks(ts)),
                ) && ts.len() == n && (forall|i: int| 0 <= i < n ==> ts[i] == all[o + i])
            },
            ProgressView::Finished(Err(e)) => next_step(PendingView::TaskList { limit, offset }, Ok(raw))
                == ProgressView::Finished(Err::<ReplyView, Seq<char>>(e)),
            _ => false,
        },
{
    match task_records(output_lines(raw)) {
        Ok(ts) => {
            law_page_whole(ts);
            law_page_is_a_run(ts, limit, offset);
        },
        Err(e) => {},
    }
}

} // verus!
