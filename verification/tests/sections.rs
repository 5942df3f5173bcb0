use navi::list::{link_label, section_keys, section_rows, sections, sort_by_name, summary_line, GroupBy, Row};
use navi::nix::{NodeConfig, NodeName, Provider};

fn row(name: &str, prov: Option<&str>, tags: &[&str]) -> Row {
    let provider = Provider::Ssh;
    let link = link_label(&provider);
    Row {
        name: name.to_string(),
        host: None,
        prov: prov.map(str::to_string),
        provider,
        link,
        tags: tags.iter().map(|s| s.to_string()).collect(),
    }
}

#[test]
fn sections_by_tag_put_untagged_last() {
    let rows = vec![row("a", None, &["web", "db"]), row("b", None, &[]), row("c", None, &["db"])];
    assert_eq!(section_keys(&rows, GroupBy::Tag), vec!["db", "web", "(untagged)"]);
    let s = sections(&rows, GroupBy::Tag);
    assert_eq!(s.len(), 3);
    assert_eq!(s[0], ("db".to_string(), vec![0, 2]));
    assert_eq!(s[1], ("web".to_string(), vec![0]));
    assert_eq!(s[2], ("(untagged)".to_string(), vec![1]));
}

#[test]
fn repeated_tag_lists_the_row_twice() {
    let rows = vec![row("a", None, &["x", "x"])];
    assert_eq!(section_rows(&rows, GroupBy::Tag, "x"), vec![0, 0]);
}

#[test]
fn sections_by_provisioner() {
    let rows = vec![row("a", Some("tf"), &[]), row("b", None, &[]), row("c", Some("bare"), &[])];
    let keys: Vec<String> = sections(&rows, GroupBy::Provisioner).into_iter().map(|(k, _)| k).collect();
    assert_eq!(keys, vec!["bare", "tf", "(none)"]);
}

#[test]
fn nodes_sorted_by_name() {
    let mut nodes: Vec<(NodeName, NodeConfig)> = ["web-2", "db", "web-10", "app"]
        .iter()
        .map(|n| (NodeName::new(n.to_string()).unwrap(), NodeConfig::default()))
        .collect();
    sort_by_name(&mut nodes);
    let names: Vec<&str> = nodes.iter().map(|(n, _)| n.as_str()).collect();
    assert_eq!(names, vec!["app", "db", "web-10", "web-2"]);
}

#[test]
fn summary_lines() {
    assert_eq!(summary_line(3, None), "3 hosts");
    assert_eq!(summary_line(1, Some(2)), "1 host in 2 groups");
    assert_eq!(summary_line(2, Some(1)), "2 hosts in 1 group");
}
