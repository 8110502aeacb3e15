use stalker::listfile::{entry_line, render_list, split_lines};
use stalker::store::{list_entries, needs_list_created, remove_entries, ListError};

fn strings(items: &[&str]) -> Vec<String> {
    items.iter().map(|s| s.to_string()).collect()
}

#[test]
fn split_lines_reads_each_record() {
    assert_eq!(split_lines("a\nb\n"), strings(&["a", "b"]));
}

#[test]
fn split_lines_of_empty_text_is_empty() {
    assert!(split_lines("").is_empty());
}

#[test]
fn split_lines_keeps_unterminated_last_line() {
    assert_eq!(split_lines("a\nb"), strings(&["a", "b"]));
}

#[test]
fn split_lines_drops_crlf_endings() {
    assert_eq!(split_lines("a\r\nb\r\n"), strings(&["a", "b"]));
}

#[test]
fn split_lines_keeps_empty_records() {
    assert_eq!(split_lines("\n"), strings(&[""]));
    assert_eq!(split_lines("a\n\nb\n"), strings(&["a", "", "b"]));
}

#[test]
fn entry_line_ends_with_newline() {
    assert_eq!(entry_line("/tmp/watched"), "/tmp/watched\n");
}

#[test]
fn render_list_writes_one_line_per_record() {
    assert_eq!(render_list(&strings(&["x", "y", "x"])), "x\ny\nx\n");
    assert_eq!(render_list(&Vec::new()), "");
}

#[test]
fn adds_are_listed_in_order_with_duplicates() {
    let adds = ["/tmp/b", "/tmp/a", "/tmp/b", "ünïcode path"];
    let mut file = String::new();
    for a in adds.iter() {
        file.push_str(&entry_line(a));
    }
    assert_eq!(list_entries(Some(&file)), Ok(strings(&adds)));
    assert_eq!(split_lines(&render_list(&strings(&adds))), strings(&adds));
}

#[test]
fn listing_a_missing_list_is_not_found() {
    assert_eq!(list_entries(None), Err(ListError::InstanceNotFound));
}

#[test]
fn listing_an_empty_list_yields_nothing() {
    assert_eq!(list_entries(Some("")), Ok(Vec::new()));
}

#[test]
fn remove_drops_every_occurrence() {
    let r = remove_entries(Some("a\nb\na\nc\na\n"), &strings(&["a"])).ok().unwrap();
    assert_eq!(r.kept, strings(&["b", "c"]));
    assert_eq!(r.removed, strings(&["a"]));
}

#[test]
fn remove_of_absent_value_changes_nothing() {
    let r = remove_entries(Some("a\nb\n"), &strings(&["z"])).ok().unwrap();
    assert_eq!(r.kept, strings(&["a", "b"]));
    assert!(r.removed.is_empty());
}

#[test]
fn remove_from_missing_list_is_not_found() {
    assert!(matches!(
        remove_entries(None, &strings(&["a"])),
        Err(ListError::InstanceNotFound)
    ));
}

#[test]
fn remove_from_empty_list_is_list_empty() {
    assert!(matches!(
        remove_entries(Some(""), &strings(&["a"])),
        Err(ListError::ListEmpty)
    ));
}

#[test]
fn remove_reports_each_target_once_in_request_order() {
    let r = remove_entries(Some("a\nb\nc\n"), &strings(&["c", "z", "a", "c"])).ok().unwrap();
    assert_eq!(r.kept, strings(&["b"]));
    assert_eq!(r.removed, strings(&["c", "a"]));
}

#[test]
fn remove_keeps_order_of_survivors() {
    let r = remove_entries(Some("d\nb\nx\na\nx\nc\n"), &strings(&["x"])).ok().unwrap();
    assert_eq!(render_list(&r.kept), "d\nb\na\nc\n");
}

#[test]
fn add_needs_instance_and_creates_missing_list() {
    assert_eq!(needs_list_created(false, false), Err(ListError::InstanceNotFound));
    assert_eq!(needs_list_created(false, true), Err(ListError::InstanceNotFound));
    assert_eq!(needs_list_created(true, false), Ok(true));
    assert_eq!(needs_list_created(true, true), Ok(false));
}
