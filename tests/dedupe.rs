use rustychat::dedupe::filter_duplicates;
use std::collections::HashSet;

fn strings(xs: &[&str]) -> Vec<String> {
    xs.iter().map(|s| s.to_string()).collect()
}

#[test]
fn keeps_first_occurrence_in_order() {
    let xs = strings(&["b", "a", "b", "c", "a"]);
    assert_eq!(filter_duplicates(xs), strings(&["b", "a", "c"]));
}

#[test]
fn empty_history_stays_empty() {
    assert_eq!(filter_duplicates(Vec::new()), Vec::<String>::new());
}

#[test]
fn all_equal_lines_leave_one() {
    assert_eq!(filter_duplicates(strings(&["x", "x", "x"])), strings(&["x"]));
}

#[test]
fn dedupe_is_idempotent() {
    let xs = strings(&["a", "b", "a", "c", "b", "d"]);
    let once = filter_duplicates(xs);
    assert_eq!(filter_duplicates(once.clone()), once);
}

#[test]
fn dedupe_keeps_the_same_set() {
    let xs = strings(&["q", "p", "q", "r", "p"]);
    let out = filter_duplicates(xs.clone());
    let a: HashSet<String> = xs.into_iter().collect();
    let b: HashSet<String> = out.into_iter().collect();
    assert_eq!(a, b);
}
