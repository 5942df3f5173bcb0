use navi::nix::{NodeConfig, NodeName};
use navi::navigation::range_leaves;
use navi::tree::{build_tree, collect_leaves, flatten_tree, toggle_group_collapse, TreeItem};

fn name(s: &str) -> NodeName {
    NodeName::new(s.to_string()).unwrap()
}

fn config(tags: &[&str]) -> NodeConfig {
    let mut c = NodeConfig::default();
    c.tags = tags.iter().map(|t| t.to_string()).collect();
    c
}

fn summary(items: &[TreeItem]) -> Vec<String> {
    let mut out = Vec::new();
    for item in items {
        match item {
            TreeItem::Group { name, children, collapsed } => {
                out.push(format!("group:{}:{}", name, collapsed));
                for s in summary(children) {
                    out.push(format!("  {}", s));
                }
            }
            TreeItem::Node { name } => out.push(format!("node:{}", name.as_str())),
        }
    }
    out
}

#[test]
fn build_tree_without_keys_sorts_nodes() {
    let nodes = vec![name("web"), name("db"), name("cache")];
    let tree = build_tree(&nodes, &Vec::new(), &[]);
    assert_eq!(summary(&tree), vec!["node:cache", "node:db", "node:web"]);
}

#[test]
fn build_tree_groups_by_first_key_then_leaves_the_rest() {
    let nodes = vec![name("web-2"), name("db"), name("web-1"), name("laptop"), name("unloaded")];
    let configs = vec![
        (name("web-2"), config(&["env:prod", "role:web"])),
        (name("db"), config(&["env:prod", "role:db"])),
        (name("web-1"), config(&["env:dev"])),
        (name("laptop"), config(&["owner:me"])),
    ];
    let tree = build_tree(&nodes, &configs, &["env".to_string()]);
    assert_eq!(
        summary(&tree),
        vec![
            "group:dev:false",
            "  node:web-1",
            "group:prod:false",
            "  node:db",
            "  node:web-2",
            "node:laptop",
            "node:unloaded",
        ]
    );
}

#[test]
fn build_tree_nests_along_the_keys() {
    let nodes = vec![name("a"), name("b"), name("c")];
    let configs = vec![
        (name("a"), config(&["env:prod", "role:web"])),
        (name("b"), config(&["env:prod", "role:db"])),
        (name("c"), config(&["role:web"])),
    ];
    let tree = build_tree(&nodes, &configs, &["env".to_string(), "role".to_string()]);
    assert_eq!(
        summary(&tree),
        vec![
            "group:prod:false",
            "  group:db:false",
            "    node:b",
            "  group:web:false",
            "    node:a",
            "group:web:false",
            "  node:c",
        ]
    );
}

#[test]
fn build_tree_takes_only_the_first_matching_tag() {
    let nodes = vec![name("a")];
    let configs = vec![(name("a"), config(&["env:one", "env:two"]))];
    let tree = build_tree(&nodes, &configs, &["env".to_string()]);
    assert_eq!(summary(&tree), vec!["group:one:false", "  node:a"]);
}

#[test]
fn flatten_lists_depth_paths_and_last_flags() {
    let nodes = vec![name("a"), name("b"), name("c")];
    let configs = vec![(name("a"), config(&["env:x"])), (name("b"), config(&["env:x"]))];
    let tree = build_tree(&nodes, &configs, &["env".to_string()]);
    let flat = flatten_tree(&tree);
    let lines: Vec<(usize, Vec<usize>, bool)> =
        flat.iter().map(|f| (f.depth, f.index_in_tree.clone(), f.last_in_group)).collect();
    assert_eq!(
        lines,
        vec![(0, vec![0], false), (1, vec![0, 0], false), (1, vec![0, 1], true), (0, vec![1], true)]
    );
}

#[test]
fn toggling_folds_and_unfolds_a_group() {
    let nodes = vec![name("a"), name("b")];
    let configs = vec![(name("a"), config(&["env:x"])), (name("b"), config(&["env:x"]))];
    let mut tree = build_tree(&nodes, &configs, &["env".to_string()]);
    toggle_group_collapse(&mut tree, &[0]);
    assert_eq!(flatten_tree(&tree).len(), 1);
    assert_eq!(summary(&tree)[0], "group:x:true");
    toggle_group_collapse(&mut tree, &[0]);
    assert_eq!(flatten_tree(&tree).len(), 3);
    assert_eq!(summary(&tree)[0], "group:x:false");
}

#[test]
fn toggling_a_node_or_a_missing_path_changes_nothing() {
    let nodes = vec![name("a")];
    let mut tree = build_tree(&nodes, &Vec::new(), &[]);
    let before = summary(&tree);
    toggle_group_collapse(&mut tree, &[0]);
    toggle_group_collapse(&mut tree, &[5, 1]);
    toggle_group_collapse(&mut tree, &[]);
    assert_eq!(summary(&tree), before);
}

#[test]
fn leaves_of_a_group_in_order() {
    let nodes = vec![name("b"), name("a"), name("c")];
    let configs = vec![(name("a"), config(&["env:x"])), (name("b"), config(&["env:x"]))];
    let tree = build_tree(&nodes, &configs, &["env".to_string()]);
    let mut leaves = Vec::new();
    collect_leaves(&tree[0], &mut leaves);
    let names: Vec<&str> = leaves.iter().map(|n| n.as_str()).collect();
    assert_eq!(names, vec!["a", "b"]);
    let mut all = Vec::new();
    for item in &tree {
        collect_leaves(item, &mut all);
    }
    assert_eq!(all.len(), 3);
}

#[test]
fn visual_range_collects_leaves() {
    let tree = vec![
        TreeItem::Group {
            name: "prod".to_string(),
            collapsed: false,
            children: vec![TreeItem::Node { name: name("a") }, TreeItem::Node { name: name("b") }],
        },
        TreeItem::Node { name: name("c") },
    ];
    let flat = flatten_tree(&tree);
    let names = |v: Vec<NodeName>| v.iter().map(|n| n.as_str().to_string()).collect::<Vec<_>>();
    assert_eq!(names(range_leaves(&flat, 0, 0)), vec!["a", "b"]);
    assert_eq!(names(range_leaves(&flat, 3, 1)), vec!["a", "b", "c"]);
    assert_eq!(names(range_leaves(&flat, 2, 9)), vec!["b", "c"]);
    assert!(range_leaves(&flat, 7, 9).is_empty());
}
