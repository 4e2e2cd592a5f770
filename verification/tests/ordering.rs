//! The lexicographic name order and the name sort.

use clash_tui::sort_names;
use clash_tui::str_le;

fn names(list: &[&str]) -> Vec<String> {
    list.iter().map(|s| s.to_string()).collect()
}

#[test]
fn str_le_orders_names() {
    assert!(str_le("a", "b"));
    assert!(!str_le("b", "a"));
    assert!(str_le("a", "a"));
    assert!(str_le("a", "ab"));
    assert!(!str_le("ab", "a"));
    assert!(str_le("", "a"));
    assert!(str_le("A", "a"));
    assert!(str_le("Direct", "auto"));
}

#[test]
fn sort_names_sorts() {
    let sorted = sort_names(&names(&["b", "a", "ab"]));
    assert_eq!(sorted, names(&["a", "ab", "b"]));
}

#[test]
fn sort_names_keeps_duplicates() {
    let sorted = sort_names(&names(&["x", "m", "x", "a"]));
    assert_eq!(sorted, names(&["a", "m", "x", "x"]));
}

#[test]
fn sort_names_empty() {
    assert_eq!(sort_names(&Vec::new()), Vec::<String>::new());
}
