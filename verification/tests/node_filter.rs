use navi::nix::{NodeConfig, NodeName};
use navi::node_filter::{split_commas, FilterError, NodeFilter};

fn node(name: &str, tags: &[&str]) -> (NodeName, NodeConfig) {
    let mut c = NodeConfig::default();
    c.tags = tags.iter().map(|t| t.to_string()).collect();
    (NodeName::new(name.to_string()).unwrap(), c)
}

fn fleet() -> Vec<(NodeName, NodeConfig)> {
    vec![
        node("web-01", &["staging"]),
        node("web-02", &["prod"]),
        node("db-01", &["prod", "staging"]),
        node("cache", &[]),
    ]
}

fn selected(filter: &str) -> Vec<String> {
    let f = NodeFilter::new(filter).unwrap();
    f.filter_node_configs(fleet()).into_iter().map(|(n, _)| n.as_str().to_string()).collect()
}

#[test]
fn comma_pieces() {
    assert_eq!(split_commas("a,b"), vec!["a", "b"]);
    assert_eq!(split_commas("a,,b,"), vec!["a", "", "b", ""]);
    assert_eq!(split_commas(""), vec![""]);
}

#[test]
fn names_globs_and_tags() {
    assert_eq!(selected("web-01,web-02"), vec!["web-01", "web-02"]);
    assert_eq!(selected("web-*"), vec!["web-01", "web-02"]);
    assert_eq!(selected("@staging"), vec!["web-01", "db-01"]);
    assert_eq!(selected(" cache , @prod "), vec!["web-02", "db-01", "cache"]);
}

#[test]
fn more_rules_widen_the_selection() {
    let narrow = selected("web-01");
    let wide = selected("web-01,@prod");
    assert!(narrow.iter().all(|n| wide.contains(n)));
    assert_eq!(wide, vec!["web-01", "web-02", "db-01"]);
}

#[test]
fn blank_and_broken_filters() {
    assert!(selected("   ").is_empty());
    assert!(matches!(NodeFilter::new("a,,b"), Err(FilterError::EmptyRule)));
    assert!(matches!(NodeFilter::new("web-["), Err(FilterError::InvalidPattern(ref p)) if p == "web-["));
}

#[test]
fn names_alone_cannot_serve_tag_rules() {
    let names: Vec<NodeName> = fleet().into_iter().map(|(n, _)| n).collect();
    let by_name = NodeFilter::new("db-*").unwrap();
    assert!(!by_name.has_node_config_rules());
    let picked: Vec<String> =
        by_name.filter_node_names(&names).unwrap().into_iter().map(|n| n.as_str().to_string()).collect();
    assert_eq!(picked, vec!["db-01"]);
    let by_tag = NodeFilter::new("@prod").unwrap();
    assert!(by_tag.has_node_config_rules());
    assert!(matches!(by_tag.filter_node_names(&names), Err(FilterError::NeedsConfig)));
}
