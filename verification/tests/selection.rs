use navi::nix::NodeName;
use navi::selection::Selection;

fn name(n: &str) -> NodeName {
    NodeName::new(n.to_string()).unwrap()
}

fn sorted(s: &Selection) -> Vec<String> {
    let mut v: Vec<String> = s.to_vec().iter().map(|n| n.as_str().to_string()).collect();
    v.sort();
    v
}

#[test]
fn insert_remove_and_contains() {
    let mut s = Selection::new();
    assert_eq!(s.len(), 0);
    s.insert(name("a"));
    s.insert(name("a"));
    s.insert(name("b"));
    assert_eq!(s.len(), 2);
    assert!(s.contains(&name("a")));
    s.remove(&name("a"));
    assert!(!s.contains(&name("a")));
    assert_eq!(sorted(&s), vec!["b"]);
    s.remove(&name("zz"));
    assert_eq!(s.len(), 1);
    s.clear();
    assert_eq!(s.len(), 0);
}

#[test]
fn toggling_a_node_twice_restores_it() {
    let mut s = Selection::new();
    s.insert(name("a"));
    s.toggle_node(name("b"));
    assert_eq!(sorted(&s), vec!["a", "b"]);
    s.toggle_node(name("b"));
    assert_eq!(sorted(&s), vec!["a"]);
}

#[test]
fn group_toggle_selects_all_then_none() {
    let mut s = Selection::new();
    s.insert(name("a"));
    let group = vec![name("a"), name("b"), name("c")];
    s.toggle_group(&group);
    assert_eq!(sorted(&s), vec!["a", "b", "c"]);
    s.toggle_group(&group);
    assert!(sorted(&s).is_empty());
}

#[test]
fn group_toggle_keeps_other_nodes() {
    let mut s = Selection::new();
    s.insert(name("x"));
    s.toggle_group(&vec![name("a"), name("b")]);
    assert_eq!(sorted(&s), vec!["a", "b", "x"]);
    s.toggle_group(&vec![name("a"), name("b")]);
    assert_eq!(sorted(&s), vec!["x"]);
}

#[test]
fn empty_group_changes_nothing() {
    let mut s = Selection::new();
    s.insert(name("x"));
    s.toggle_group(&vec![]);
    assert_eq!(sorted(&s), vec!["x"]);
}

#[test]
fn select_all_adds_every_node() {
    let mut s = Selection::new();
    s.insert(name("x"));
    s.select_all(&vec![name("a"), name("x"), name("b")]);
    assert_eq!(sorted(&s), vec!["a", "b", "x"]);
    assert_eq!(s.len(), 3);
}
