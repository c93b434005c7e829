use things_api::models::Task;
use things_api::records::{
    paginate, parse_area_line, parse_optional, parse_project_line, parse_task_line,
    projects_from_output, tags_from_output, task_from_output, tasks_from_output,
};

fn record(fields: &[&str]) -> String {
    fields.join("|")
}

#[test]
fn parse_optional_treats_blank_and_missing_value_as_absent() {
    assert_eq!(parse_optional(""), None);
    assert_eq!(parse_optional("   "), None);
    assert_eq!(parse_optional("missing value"), None);
    assert_eq!(parse_optional("  missing value \n"), None);
    assert_eq!(parse_optional(" Home "), Some("Home".to_string()));
    assert_eq!(parse_optional("missing values"), Some("missing values".to_string()));
}

#[test]
fn parse_task_line_reads_every_field() {
    let line = record(&[
        "ABC123",
        " Buy groceries ",
        "Milk, eggs",
        "",
        "missing value",
        "Personal",
        "errands, home",
        "false",
        " true ",
        "Sunday, March 1, 2026 at 10:00:00 AM",
        "a|b",
    ]);
    let t = parse_task_line(&line).unwrap();
    assert_eq!(t.id, "ABC123");
    assert_eq!(t.title, " Buy groceries ");
    assert_eq!(t.notes.as_deref(), Some("Milk, eggs"));
    assert_eq!(t.due_date, None);
    assert_eq!(t.project, None);
    assert_eq!(t.area.as_deref(), Some("Personal"));
    assert_eq!(t.list, None);
    assert_eq!(t.tags, vec!["errands".to_string(), "home".to_string()]);
    assert!(t.checklist_items.is_empty());
    assert!(!t.completed);
    assert!(t.canceled);
    assert_eq!(t.creation_date.as_deref(), Some("Sunday, March 1, 2026 at 10:00:00 AM"));
    // The last field keeps whatever pipes it holds.
    assert_eq!(t.completion_date.as_deref(), Some("a|b"));
}

#[test]
fn parse_task_line_rejects_short_records() {
    let line = "a|b|c|d|e|f|g|h|i|j";
    assert_eq!(
        parse_task_line(line),
        Err("Unexpected task format: a|b|c|d|e|f|g|h|i|j".to_string())
    );
    assert_eq!(parse_task_line(""), Err("Unexpected task format: ".to_string()));
}

#[test]
fn empty_tag_field_gives_no_tags_but_blank_pieces_are_kept() {
    let t = parse_task_line("i|t|||||||false|false||").unwrap();
    assert!(t.tags.is_empty());
    let t = parse_task_line("i|t||||| a ,,|false|false||").unwrap();
    assert_eq!(t.tags, vec!["a".to_string(), "".to_string(), "".to_string()]);
}

#[test]
fn flags_are_true_only_for_true() {
    let t = parse_task_line("i|t||||||True|yes||").unwrap();
    assert!(!t.completed);
    assert!(!t.canceled);
}

#[test]
fn parse_project_line_reads_every_field() {
    let p = parse_project_line("XYZ789|Home Renovation|Q2 2026|Home||false|false").unwrap();
    assert_eq!(p.id, "XYZ789");
    assert_eq!(p.title, "Home Renovation");
    assert_eq!(p.notes.as_deref(), Some("Q2 2026"));
    assert_eq!(p.area.as_deref(), Some("Home"));
    assert!(p.tags.is_empty());
    assert!(!p.completed);
    assert!(!p.canceled);
    assert_eq!(
        parse_project_line("x|y"),
        Err("Unexpected project format: x|y".to_string())
    );
}

#[test]
fn parse_area_line_reads_every_field() {
    let a = parse_area_line("AREA123|Personal|a,b").unwrap();
    assert_eq!(a.id, "AREA123");
    assert_eq!(a.title, "Personal");
    assert_eq!(a.tags, vec!["a".to_string(), "b".to_string()]);
    assert_eq!(parse_area_line("AREA123"), Err("Unexpected area format: AREA123".to_string()));
}

fn task_line(id: &str) -> String {
    format!("{id}|title {id}|||||||false|false||")
}

#[test]
fn tasks_output_skips_empty_lines_and_pages() {
    let raw = format!("{}\n\n{}\r\n{}\n", task_line("a"), task_line("b"), task_line("c"));
    let all = tasks_from_output(&raw, None, None).unwrap();
    let ids: Vec<&str> = all.iter().map(|t| t.id.as_str()).collect();
    assert_eq!(ids, vec!["a", "b", "c"]);
    let page = tasks_from_output(&raw, Some(1), Some(1)).unwrap();
    assert_eq!(page.len(), 1);
    assert_eq!(page[0].id, "b");
    assert!(tasks_from_output(&raw, None, Some(3)).unwrap().is_empty());
    assert!(tasks_from_output(&raw, None, Some(10)).unwrap().is_empty());
    assert_eq!(tasks_from_output(&raw, Some(10), None).unwrap().len(), 3);
    assert!(tasks_from_output(&raw, Some(0), None).unwrap().is_empty());
    assert!(tasks_from_output("", None, None).unwrap().is_empty());
}

#[test]
fn tasks_output_fails_on_first_bad_line() {
    let raw = format!("{}\nbad one\nbad two\n", task_line("a"));
    assert_eq!(
        tasks_from_output(&raw, None, None),
        Err("Unexpected task format: bad one".to_string())
    );
}

#[test]
fn task_output_is_trimmed_before_reading() {
    let raw = format!("  {}\n", task_line("a"));
    assert_eq!(task_from_output(&raw).unwrap().id, "a");
}

#[test]
fn tags_output_trims_names() {
    let tags = tags_from_output("work\n errands \n\n   \n");
    let names: Vec<&str> = tags.iter().map(|t| t.name.as_str()).collect();
    assert_eq!(names, vec!["work", "errands", ""]);
}

#[test]
fn projects_output_reads_each_line() {
    let ps = projects_from_output("p1|One||||true|false\np2|Two||||false|true\n").unwrap();
    assert_eq!(ps.len(), 2);
    assert!(ps[0].completed);
    assert!(ps[1].canceled);
}

#[test]
fn paginate_keeps_a_run() {
    let ts: Vec<Task> = (0..5).map(|i| parse_task_line(&task_line(&i.to_string())).unwrap()).collect();
    let p = paginate(ts.clone(), Some(2), Some(2));
    assert_eq!(p, ts[2..4].to_vec());
    assert_eq!(paginate(ts.clone(), None, None), ts);
}
