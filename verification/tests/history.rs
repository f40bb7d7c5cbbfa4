use quickterm::error::QuicktermError;
use quickterm::history::{
    history_text, load_ordered_shells, parse_history, reorder_shells, validate_history,
};
use quickterm::strmap::StringSet;

fn set_of(names: &[&str]) -> StringSet {
    StringSet::from_strings(&strings(names))
}

fn strings(names: &[&str]) -> Vec<String> {
    names.iter().map(|s| s.to_string()).collect()
}

#[test]
fn sets_ignore_repeats_and_order() {
    let mut s = StringSet::new();
    s.insert("b".to_string());
    s.insert("a".to_string());
    s.insert("b".to_string());
    assert_eq!(s.len(), 2);
    assert!(s.contains("a"));
    assert!(!s.contains("c"));
    assert_eq!(s.to_sorted_vec(), strings(&["a", "b"]));
}

#[test]
fn history_is_reordered_with_selected_shell_first() {
    let result = reorder_shells(
        vec!["js".to_string(), "python".to_string(), "shell".to_string()],
        "shell",
    );

    assert_eq!(result, vec!["shell", "js", "python"]);
}

#[test]
fn history_is_rejected_if_shell_set_changes() {
    let known: StringSet = set_of(&["js", "python"]);
    let loaded = vec!["js".to_string(), "python".to_string(), "shell".to_string()];

    assert!(validate_history(&loaded, &known).is_none());
}

#[test]
fn history_with_same_names_is_kept_in_its_order() {
    let known = set_of(&["js", "python", "shell"]);
    let loaded = strings(&["shell", "js", "python"]);
    assert_eq!(validate_history(&loaded, &known), Some(strings(&["shell", "js", "python"])));
    let missing = strings(&["shell", "js"]);
    assert!(validate_history(&missing, &known).is_none());
}

#[test]
fn reordering_twice_is_reordering_once() {
    let once = reorder_shells(strings(&["a", "b", "c"]), "b");
    let twice = reorder_shells(once.clone(), "b");
    assert_eq!(once, strings(&["b", "a", "c"]));
    assert_eq!(twice, once);
}

#[test]
fn reordering_a_new_name_adds_it_in_front() {
    let r = reorder_shells(strings(&["a", "b"]), "z");
    assert_eq!(r, strings(&["z", "a", "b"]));
    let dup = reorder_shells(strings(&["a", "b", "a"]), "a");
    assert_eq!(dup, strings(&["a", "b"]));
}

#[test]
fn reordered_history_is_still_valid() {
    let known = set_of(&["js", "python", "shell"]);
    let order = strings(&["python", "shell", "js"]);
    let r = reorder_shells(order, "js");
    assert!(validate_history(&r, &known).is_some());
}

#[test]
fn shells_are_sorted_without_history() {
    let known = set_of(&["shell", "js", "python", "haskell"]);
    assert_eq!(load_ordered_shells(&known, None), strings(&["haskell", "js", "python", "shell"]));
    let stale = strings(&["js"]);
    assert_eq!(
        load_ordered_shells(&known, Some(stale)),
        strings(&["haskell", "js", "python", "shell"])
    );
    let good = strings(&["shell", "python", "js", "haskell"]);
    assert_eq!(load_ordered_shells(&known, Some(good.clone())), good);
}

#[test]
fn malformed_history_text_is_ignored() {
    assert_eq!(parse_history("not-json"), None);
    assert_eq!(parse_history(""), None);
    assert_eq!(parse_history(" \n\t"), None);
    assert_eq!(parse_history("{\"a\": 1}"), None);
}

#[test]
fn history_text_reads_back() {
    let order = strings(&["shell", "js", "quote\"d"]);
    let text = history_text(&order).unwrap();
    assert_eq!(text, "[\"shell\",\"js\",\"quote\\\"d\"]");
    assert_eq!(parse_history(&text), Some(order));
    assert_eq!(parse_history("  [\"a\"]\n"), Some(strings(&["a"])));
}

#[test]
fn empty_history_text_reads_back() {
    let text = history_text(&[]).unwrap();
    assert_eq!(text, "[]");
    assert_eq!(parse_history(&text), Some(Vec::new()));
    let r: Result<String, QuicktermError> = history_text(&strings(&["x"]));
    assert!(r.is_ok());
}
