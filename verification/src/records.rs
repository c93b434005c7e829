//! Reading the pipe-delimited records that the Things 3 scripts print.
use vstd::prelude::*;
use crate::models::{
    Area, AreaView, ChecklistItem, ChecklistItemView, Project, ProjectView, Tag, Task, TaskView,
    list_res_view, res_view, views,
};
use crate::text::{
    free_of, is_ws, law_trim_is_idempotent, lemma_split_on_join, lemma_splitn_join, law_lines_read_back, strip_cr,
    terminated_lines, join, append_chars, append_str, chars_of, lines, lines_of, non_empty, non_empty_of, opt_str, seqs,
    split_on, split_on_char, splitn, splitn_char, same_text, string_of, strs, trim, trimmed,
};

verus! {

/// What AppleScript prints for an absent value.
pub const MISSING_VALUE: &'static str = "missing value";

/// What AppleScript prints for a true boolean.
pub const TRUE_TEXT: &'static str = "true";

pub const TASK_FORMAT_ERROR: &'static str = "Unexpected task format: ";

pub const PROJECT_FORMAT_ERROR: &'static str = "Unexpected project format: ";

pub const AREA_FORMAT_ERROR: &'static str = "Unexpected area format: ";

// ---------------------------------------------------------------------------
// Definitions
// ---------------------------------------------------------------------------

/// An optional field: absent when it is blank or reads `missing value`,
/// else its trimmed text.
pub open spec fn optional_field(s: Seq<char>) -> Option<Seq<char>> {
    let t = trim(s);
    if t.len() == 0 || t == MISSING_VALUE@ {
        None
    } else {
        Some(t)
    }
}

/// A comma-separated tag field: no tags when empty, else each piece trimmed.
pub open spec fn tag_field(s: Seq<char>) -> Seq<Seq<char>> {
    if s.len() == 0 {
        Seq::<Seq<char>>::empty()
    } else {
        split_on(s, ',').map_values(|p: Seq<char>| trim(p))
    }
}

/// A boolean field: true exactly when its trimmed text is `true`.
pub open spec fn flag_field(s: Seq<char>) -> bool {
    trim(s) == TRUE_TEXT@
}

/// A task record: `id|title|notes|due_date|project|area|tags|completed|canceled|creation_date|completion_date`.
pub open spec fn task_record(line: Seq<char>) -> Result<TaskView, Seq<char>> {
    let p = splitn(line, 11, '|');
    if p.len() < 11 {
        Err(TASK_FORMAT_ERROR@ + line)
    } else {
        Ok(
            TaskView {
                id: p[0],
                title: p[1],
                notes: optional_field(p[2]),
                due_date: optional_field(p[3]),
                list: None,
                project: optional_field(p[4]),
                area: optional_field(p[5]),
                tags: tag_field(p[6]),
                checklist_items: Seq::<ChecklistItemView>::empty(),
                completed: flag_field(p[7]),
                canceled: flag_field(p[8]),
                creation_date: optional_field(p[9]),
                completion_date: optional_field(p[10]),
            },
        )
    }
}

/// A project record: `id|title|notes|area|tags|completed|canceled`.
pub open spec fn project_record(line: Seq<char>) -> Result<ProjectView, Seq<char>> {
    let p = splitn(line, 7, '|');
    if p.len() < 7 {
        Err(PROJECT_FORMAT_ERROR@ + line)
    } else {
        Ok(
            ProjectView {
                id: p[0],
                title: p[1],
                notes: optional_field(p[2]),
                area: optional_field(p[3]),
                tags: tag_field(p[4]),
                completed: flag_field(p[5]),
                canceled: flag_field(p[6]),
            },
        )
    }
}

/// An area record: `id|title|tags`.
pub open spec fn area_record(line: Seq<char>) -> Result<AreaView, Seq<char>> {
    let p = splitn(line, 3, '|');
    if p.len() < 3 {
        Err(AREA_FORMAT_ERROR@ + line)
    } else {
        Ok(AreaView { id: p[0], title: p[1], tags: tag_field(p[2]) })
    }
}

/// Each line read by `f`, in order; the first line that fails gives the error.
pub open spec fn collect_records<V>(
    ls: Seq<Seq<char>>,
    f: spec_fn(Seq<char>) -> Result<V, Seq<char>>,
) -> Result<Seq<V>, Seq<char>>
    decreases ls.len(),
{
    if ls.len() == 0 {
        Ok(Seq::<V>::empty())
    } else {
        match collect_records(ls.drop_last(), f) {
            Err(e) => Err(e),
            Ok(vs) => match f(ls.last()) {
                Ok(v) => Ok(vs.push(v)),
                Err(e) => Err(e),
            },
        }
    }
}

pub open spec fn task_records(ls: Seq<Seq<char>>) -> Result<Seq<TaskView>, Seq<char>> {
    collect_records(ls, |l: Seq<char>| task_record(l))
}

pub open spec fn project_records(ls: Seq<Seq<char>>) -> Result<Seq<ProjectView>, Seq<char>> {
    collect_records(ls, |l: Seq<char>| project_record(l))
}

pub open spec fn area_records(ls: Seq<Seq<char>>) -> Result<Seq<AreaView>, Seq<char>> {
    collect_records(ls, |l: Seq<char>| area_record(l))
}

/// The non-empty lines of a script's output.
pub open spec fn output_lines(raw: Seq<char>) -> Seq<Seq<char>> {
    non_empty(lines(raw))
}

/// The tasks after skipping `offset` of them (none skipped when absent) and
/// keeping at most `limit` (all when absent).
pub open spec fn page<A>(ts: Seq<A>, limit: Option<usize>, offset: Option<usize>) -> Seq<A> {
    let o: int = match offset {
        Some(o) => o as int,
        None => 0,
    };
    let rest = if o <= ts.len() {
        ts.skip(o)
    } else {
        Seq::<A>::empty()
    };
    match limit {
        Some(l) => if l < rest.len() {
            rest.take(l as int)
        } else {
            rest
        },
        None => rest,
    }
}

/// The tasks that a listing script printed, paged.
pub open spec fn tasks_output(raw: Seq<char>, limit: Option<usize>, offset: Option<usize>) -> Result<
    Seq<TaskView>,
    Seq<char>,
> {
    match task_records(output_lines(raw)) {
        Ok(ts) => Ok(page(ts, limit, offset)),
        Err(e) => Err(e),
    }
}

/// The task that a single-task script printed.
pub open spec fn task_output(raw: Seq<char>) -> Result<TaskView, Seq<char>> {
    task_record(trim(raw))
}

/// The tags that the tag script printed: one per non-empty line, trimmed.
pub open spec fn tags_output(raw: Seq<char>) -> Seq<Seq<char>> {
    output_lines(raw).map_values(|l: Seq<char>| trim(l))
}

// ---------------------------------------------------------------------------
// Lemmas
// ---------------------------------------------------------------------------

pub proof fn lemma_collect_error_sticks<V>(
    ls: Seq<Seq<char>>,
    k: int,
    f: spec_fn(Seq<char>) -> Result<V, Seq<char>>,
)
    requires
        0 <= k <= ls.len(),
        collect_records(ls.take(k), f) is Err,
    ensures
        collect_records(ls, f) == collect_records(ls.take(k), f),
    decreases ls.len() - k,
{
    if k < ls.len() {
        assert(ls.take(k + 1).drop_last() =~= ls.take(k));
        lemma_collect_error_sticks(ls, k + 1, f);
    } else {
        assert(ls.take(k) =~= ls);
    }
}

/// A task record read back: eleven fields joined by `|`, none of the first
/// ten holding a `|`, read as those fields.
pub proof fn law_task_record_reads_fields(fields: Seq<Seq<char>>)
    requires
        fields.len() == 11,
        forall|i: int| 0 <= i < 10 ==> free_of(#[trigger] fields[i], '|'),
    ensures
        task_record(join(fields, seq!['|'])) == Ok::<TaskView, Seq<char>>(
            TaskView {
                id: fields[0],
                title: fields[1],
                notes: optional_field(fields[2]),
                due_date: optional_field(fields[3]),
                list: None,
                project: optional_field(fields[4]),
                area: optional_field(fields[5]),
                tags: tag_field(fields[6]),
                checklist_items: Seq::<ChecklistItemView>::empty(),
                completed: flag_field(fields[7]),
                canceled: flag_field(fields[8]),
                creation_date: optional_field(fields[9]),
                completion_date: optional_field(fields[10]),
            },
        ),
{
    lemma_splitn_join(fields, 11, '|');
}

/// A project record read back: seven fields joined by `|`, none of the first
/// six holding a `|`, read as those fields.
pub proof fn law_project_record_reads_fields(fields: Seq<Seq<char>>)
    requires
        fields.len() == 7,
        forall|i: int| 0 <= i < 6 ==> free_of(#[trigger] fields[i], '|'),
    ensures
        project_record(join(fields, seq!['|'])) == Ok::<ProjectView, Seq<char>>(
            ProjectView {
                id: fields[0],
                title: fields[1],
                notes: optional_field(fields[2]),
                area: optional_field(fields[3]),
                tags: tag_field(fields[4]),
                completed: flag_field(fields[5]),
                canceled: flag_field(fields[6]),
            },
        ),
{
    lemma_splitn_join(fields, 7, '|');
}

/// An area record read back: three fields joined by `|`, none of the first
/// two holding a `|`, read as those fields.
pub proof fn law_area_record_reads_fields(fields: Seq<Seq<char>>)
    requires
        fields.len() == 3,
        forall|i: int| 0 <= i < 2 ==> free_of(#[trigger] fields[i], '|'),
    ensures
        area_record(join(fields, seq!['|'])) == Ok::<AreaView, Seq<char>>(
            AreaView { id: fields[0], title: fields[1], tags: tag_field(fields[2]) },
        ),
{
    lemma_splitn_join(fields, 3, '|');
}

/// Tag names joined by commas read back as the names, trimmed, when no name
/// holds a comma and the joined text is not empty.
pub proof fn law_tags_read_back(tags: Seq<Seq<char>>)
    requires
        tags.len() >= 1,
        forall|i: int| 0 <= i < tags.len() ==> free_of(#[trigger] tags[i], ','),
        join(tags, seq![',']).len() > 0,
    ensures
        tag_field(join(tags, seq![','])) == tags.map_values(|t: Seq<char>| trim(t)),
{
    lemma_split_on_join(tags, ',');
}

/// What an optional field holds, when present, is neither blank nor
/// surrounded by whitespace, and is not `missing value`.
pub proof fn law_optional_fields_are_trimmed(s: Seq<char>)
    ensures
        optional_field(s) matches Some(t) ==> t.len() > 0 && !is_ws(t[0]) && !is_ws(t.last())
            && t != MISSING_VALUE@ && trim(t) == t,
{
    law_trim_is_idempotent(s);
}

proof fn lemma_non_empty_all(ls: Seq<Seq<char>>)
    requires
        forall|i: int| 0 <= i < ls.len() ==> (#[trigger] ls[i]).len() > 0,
    ensures
        non_empty(ls) == ls,
    decreases ls.len(),
{
    if ls.len() > 0 {
        let init = ls.drop_last();
        assert forall|i: int| 0 <= i < init.len() implies (#[trigger] init[i]).len() > 0 by {
            assert(init[i] == ls[i]);
        }
        lemma_non_empty_all(init);
        assert(init.push(ls.last()) =~= ls);
    }
}

/// Records printed one per line read back as those records, when none is
/// empty, holds a line feed, or ends with a carriage return.
pub proof fn law_output_lines_read_back(records: Seq<Seq<char>>)
    requires
        forall|i: int| 0 <= i < records.len() ==> free_of(#[trigger] records[i], '\n'),
        forall|i: int| 0 <= i < records.len() ==> (#[trigger] records[i]).len() > 0,
        forall|i: int| 0 <= i < records.len() ==> (#[trigger] records[i]).last() != '\r',
    ensures
        output_lines(terminated_lines(records)) == records,
{
    law_lines_read_back(records);
    assert(records.map_values(|l: Seq<char>| strip_cr(l)) =~= records);
    lemma_non_empty_all(records);
}

/// Without a limit or an offset, a listing keeps every task.
pub proof fn law_page_whole<A>(ts: Seq<A>)
    ensures
        page(ts, None, None) == ts,
{
    assert(ts.skip(0) =~= ts);
}

/// A page is the run of tasks that starts at the offset, as long as the
/// limit allows and the tasks last.
pub proof fn law_page_is_a_run<A>(ts: Seq<A>, limit: Option<usize>, offset: Option<usize>)
    ensures
        ({
            let o: int = match offset {
                Some(o) => o as int,
                None => 0,
            };
            let p = page(ts, limit, offset);
            let avail: int = if o <= ts.len() { ts.len() - o } else { 0 };
            &&& p.len() == (match limit {
                Some(l) => if l < avail { l as int } else { avail },
                None => avail,
            })
            &&& forall|i: int| 0 <= i < p.len() ==> p[i] == ts[o + i]
        }),
{
}

// ---------------------------------------------------------------------------
// Executable functions
// ---------------------------------------------------------------------------

fn optional_of(v: &Vec<char>) -> (o: Option<String>)
    ensures
        opt_str(o) == optional_field(v@),
{
    let t = trimmed(v);
    if t.len() == 0 || same_text(&t, MISSING_VALUE) {
        None
    } else {
        Some(string_of(&t))
    }
}

/// Parse `missing value` returns from AppleScript into Option<String>.
pub fn parse_optional(s: &str) -> (o: Option<String>)
    ensures
        opt_str(o) == optional_field(s@),
{
    let v = chars_of(s);
    optional_of(&v)
}

fn tags_of(v: &Vec<char>) -> (out: Vec<String>)
    ensures
        strs(out@) == tag_field(v@),
{
    let mut out: Vec<String> = Vec::new();
    if v.len() == 0 {
        assert(strs(out@) =~= tag_field(v@));
        return out;
    }
    let parts = split_on_char(v, ',');
    let ghost ps = seqs(parts@);
    let n = parts.len();
    for i in 0..n
        invariant
            n == parts@.len(),
            ps == seqs(parts@),
            strs(out@) == ps.take(i as int).map_values(|p: Seq<char>| trim(p)),
    {
        let t = trimmed(&parts[i]);
        let s = string_of(&t);
        let ghost prev = strs(out@);
        out.push(s);
        assert(strs(out@) =~= prev.push(trim(ps[i as int])));
        assert(ps.take(i + 1).map_values(|p: Seq<char>| trim(p)) =~= ps.take(i as int).map_values(
            |p: Seq<char>| trim(p),
        ).push(trim(ps[i as int])));
    }
    assert(ps.take(n as int) =~= ps);
    out
}

fn flag_of(v: &Vec<char>) -> (b: bool)
    ensures
        b == flag_field(v@),
{
    let t = trimmed(v);
    same_text(&t, TRUE_TEXT)
}

fn format_error(prefix: &str, line: &Vec<char>) -> (e: String)
    ensures
        e@ == prefix@ + line@,
{
    let mut e = String::new();
    append_str(&mut e, prefix);
    append_chars(&mut e, line);
    e
}

fn task_of(line: &Vec<char>) -> (r: Result<Task, String>)
    ensures
        res_view(r) == task_record(line@),
{
    let p = splitn_char(line, 11, '|');
    if p.len() < 11 {
        return Err(format_error(TASK_FORMAT_ERROR, line));
    }
    let t = Task {
        id: string_of(&p[0]),
        title: string_of(&p[1]),
        notes: optional_of(&p[2]),
        due_date: optional_of(&p[3]),
        project: optional_of(&p[4]),
        area: optional_of(&p[5]),
        list: None,
        tags: tags_of(&p[6]),
        checklist_items: Vec::new(),
        completed: flag_of(&p[7]),
        canceled: flag_of(&p[8]),
        creation_date: optional_of(&p[9]),
        completion_date: optional_of(&p[10]),
    };
    assert(t.checklist_items@.map_values(|c: ChecklistItem| c@) =~= Seq::<ChecklistItemView>::empty());
    Ok(t)
}

fn project_of(line: &Vec<char>) -> (r: Result<Project, String>)
    ensures
        res_view(r) == project_record(line@),
{
    let p = splitn_char(line, 7, '|');
    if p.len() < 7 {
        return Err(format_error(PROJECT_FORMAT_ERROR, line));
    }
    Ok(
        Project {
            id: string_of(&p[0]),
            title: string_of(&p[1]),
            notes: optional_of(&p[2]),
            area: optional_of(&p[3]),
            tags: tags_of(&p[4]),
            completed: flag_of(&p[5]),
            canceled: flag_of(&p[6]),
        },
    )
}

fn area_of(line: &Vec<char>) -> (r: Result<Area, String>)
    ensures
        res_view(r) == area_record(line@),
{
    let p = splitn_char(line, 3, '|');
    if p.len() < 3 {
        return Err(format_error(AREA_FORMAT_ERROR, line));
    }
    Ok(Area { id: string_of(&p[0]), title: string_of(&p[1]), tags: tags_of(&p[2]) })
}

/// Reads one task record.
pub fn parse_task_line(line: &str) -> (r: Result<Task, String>)
    ensures
        res_view(r) == task_record(line@),
{
    let v = chars_of(line);
    task_of(&v)
}

/// Reads one project record.
pub fn parse_project_line(line: &str) -> (r: Result<Project, String>)
    ensures
        res_view(r) == project_record(line@),
{
    let v = chars_of(line);
    project_of(&v)
}

/// Reads one area record.
pub fn parse_area_line(line: &str) -> (r: Result<Area, String>)
    ensures
        res_view(r) == area_record(line@),
{
    let v = chars_of(line);
    area_of(&v)
}

fn output_lines_of(raw: &str) -> (out: Vec<Vec<char>>)
    ensures
        seqs(out@) == output_lines(raw@),
{
    let v = chars_of(raw);
    let ls = lines_of(&v);
    non_empty_of(&ls)
}

fn tasks_of_lines(ls: &Vec<Vec<char>>) -> (r: Result<Vec<Task>, String>)
    ensures
        list_res_view(r) == task_records(seqs(ls@)),
{
    let ghost s = seqs(ls@);
    let ghost f = |l: Seq<char>| task_record(l);
    let n = ls.len();
    let mut out: Vec<Task> = Vec::new();
    assert(s.take(0) =~= Seq::<Seq<char>>::empty());
    assert(views(out@) =~= Seq::<TaskView>::empty());
    for i in 0..n
        invariant
            n == ls@.len(),
            s == seqs(ls@),
            f == (|l: Seq<char>| task_record(l)),
            collect_records(s.take(i as int), f) == Ok::<Seq<TaskView>, Seq<char>>(views(out@)),
    {
        assert(s.take(i + 1).drop_last() =~= s.take(i as int));
        assert(s.take(i + 1).last() == s[i as int]);
        match task_of(&ls[i]) {
            Ok(t) => {
                let ghost prev = views(out@);
                out.push(t);
                assert(views(out@) =~= prev.push(t@));
                assert(f(s.take(i + 1).last()) == res_view(Ok::<_, String>(t)));
            },
            Err(e) => {
                proof {
                    lemma_collect_error_sticks(s, i + 1, f);
                }
                return Err(e);
            },
        }
    }
    assert(s.take(n as int) =~= s);
    Ok(out)
}

fn projects_of_lines(ls: &Vec<Vec<char>>) -> (r: Result<Vec<Project>, String>)
    ensures
        list_res_view(r) == project_records(seqs(ls@)),
{
    let ghost s = seqs(ls@);
    let ghost f = |l: Seq<char>| project_record(l);
    let n = ls.len();
    let mut out: Vec<Project> = Vec::new();
    assert(s.take(0) =~= Seq::<Seq<char>>::empty());
    assert(views(out@) =~= Seq::<ProjectView>::empty());
    for i in 0..n
        invariant
            n == ls@.len(),
            s == seqs(ls@),
            f == (|l: Seq<char>| project_record(l)),
            collect_records(s.take(i as int), f) == Ok::<Seq<ProjectView>, Seq<char>>(views(out@)),
    {
        assert(s.take(i + 1).drop_last() =~= s.take(i as int));
        assert(s.take(i + 1).last() == s[i as int]);
        match project_of(&ls[i]) {
            Ok(t) => {
                let ghost prev = views(out@);
                out.push(t);
                assert(views(out@) =~= prev.push(t@));
                assert(f(s.take(i + 1).last()) == res_view(Ok::<_, String>(t)));
            },
            Err(e) => {
                proof {
                    lemma_collect_error_sticks(s, i + 1, f);
                }
                return Err(e);
            },
        }
    }
    assert(s.take(n as int) =~= s);
    Ok(out)
}

fn areas_of_lines(ls: &Vec<Vec<char>>) -> (r: Result<Vec<Area>, String>)
    ensures
        list_res_view(r) == area_records(seqs(ls@)),
{
    let ghost s = seqs(ls@);
    let ghost f = |l: Seq<char>| area_record(l);
    let n = ls.len();
    let mut out: Vec<Area> = Vec::new();
    assert(s.take(0) =~= Seq::<Seq<char>>::empty());
    assert(views(out@) =~= Seq::<AreaView>::empty());
    for i in 0..n
        invariant
            n == ls@.len(),
            s == seqs(ls@),
            f == (|l: Seq<char>| area_record(l)),
            collect_records(s.take(i as int), f) == Ok::<Seq<AreaView>, Seq<char>>(views(out@)),
    {
        assert(s.take(i + 1).drop_last() =~= s.take(i as int));
        assert(s.take(i + 1).last() == s[i as int]);
        match area_of(&ls[i]) {
            Ok(t) => {
                let ghost prev = views(out@);
                out.push(t);
                assert(views(out@) =~= prev.push(t@));
                assert(f(s.take(i + 1).last()) == res_view(Ok::<_, String>(t)));
            },
            Err(e) => {
                proof {
                    lemma_collect_error_sticks(s, i + 1, f);
                }
                return Err(e);
            },
        }
    }
    assert(s.take(n as int) =~= s);
    Ok(out)
}

/// Skips `offset` tasks (none when absent) and keeps at most `limit` (all
/// when absent).
pub fn paginate(tasks: Vec<Task>, limit: Option<usize>, offset: Option<usize>) -> (out: Vec<Task>)
    ensures
        views(out@) == page(views(tasks@), limit, offset),
{
    let n = tasks.len();
    let o: usize = match offset {
        Some(o) => o,
        None => 0,
    };
    let mut tasks = tasks;
    if o >= n {
        let out: Vec<Task> = Vec::new();
        assert(views(out@) =~= page(views(tasks@), limit, offset));
        return out;
    }
    let avail = n - o;
    let count: usize = match limit {
        Some(l) => if l < avail {
            l
        } else {
            avail
        },
        None => avail,
    };
    let ghost all = tasks@;
    let mut rest = tasks.split_off(o);
    rest.truncate(count);
    assert(rest@ =~= all.subrange(o as int, (o + count) as int));
    assert(views(rest@) =~= page(views(all), limit, offset));
    rest
}

/// The tasks that a listing script printed, paged.
pub fn tasks_from_output(raw: &str, limit: Option<usize>, offset: Option<usize>) -> (r: Result<
    Vec<Task>,
    String,
>)
    ensures
        list_res_view(r) == tasks_output(raw@, limit, offset),
{
    let ls = output_lines_of(raw);
    match tasks_of_lines(&ls) {
        Ok(ts) => Ok(paginate(ts, limit, offset)),
        Err(e) => Err(e),
    }
}

/// The task that a single-task script printed.
pub fn task_from_output(raw: &str) -> (r: Result<Task, String>)
    ensures
        res_view(r) == task_output(raw@),
{
    let v = chars_of(raw);
    let t = trimmed(&v);
    task_of(&t)
}

/// The projects that the project script printed.
pub fn projects_from_output(raw: &str) -> (r: Result<Vec<Project>, String>)
    ensures
        list_res_view(r) == project_records(output_lines(raw@)),
{
    let ls = output_lines_of(raw);
    projects_of_lines(&ls)
}

/// The areas that the area script printed.
pub fn areas_from_output(raw: &str) -> (r: Result<Vec<Area>, String>)
    ensures
        list_res_view(r) == area_records(output_lines(raw@)),
{
    let ls = output_lines_of(raw);
    areas_of_lines(&ls)
}

/// The tags that the tag script printed.
pub fn tags_from_output(raw: &str) -> (out: Vec<Tag>)
    ensures
        views(out@) == tags_output(raw@),
{
    let ls = output_lines_of(raw);
    let ghost s = seqs(ls@);
    let n = ls.len();
    let mut out: Vec<Tag> = Vec::new();
    for i in 0..n
        invariant
            n == ls@.len(),
            s == seqs(ls@),
            views(out@) == s.take(i as int).map_values(|l: Seq<char>| trim(l)),
    {
        let t = trimmed(&ls[i]);
        let tag = Tag { name: string_of(&t) };
        let ghost prev = views(out@);
        out.push(tag);
        assert(views(out@) =~= prev.push(trim(s[i as int])));
        assert(s.take(i + 1).map_values(|l: Seq<char>| trim(l)) =~= s.take(i as int).map_values(
            |l: Seq<char>| trim(l),
        ).push(trim(s[i as int])));
    }
    assert(s.take(n as int) =~= s);
    out
}

} // verus!
