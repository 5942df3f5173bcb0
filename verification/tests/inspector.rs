use navi::inspector::{group_inspector, node_inspector, short_str, Tone};
use navi::model::ProvenanceStatus;
use navi::nix::{NodeConfig, NodeName, Provenance};

fn name(n: &str) -> NodeName {
    NodeName::new(n.to_string()).unwrap()
}

fn verified(commit: &str) -> ProvenanceStatus {
    ProvenanceStatus::Verified(Provenance {
        commit: commit.to_string(),
        flake_uri: "path:/src".to_string(),
        timestamp: "1700000000".to_string(),
        deployed_by: "alice".to_string(),
    })
}

fn pairs(v: &[(&str, &str)]) -> Vec<(String, String)> {
    v.iter().map(|(a, b)| (a.to_string(), b.to_string())).collect()
}

#[test]
fn short_revision() {
    assert_eq!(short_str("0123456789abcdef"), "0123456");
    assert_eq!(short_str("abc"), "abc");
}

#[test]
fn node_without_metadata() {
    let (lines, tone) = node_inspector(&name("web"), None, None, "0123456789");
    assert_eq!(lines, pairs(&[("Node: ", "web"), ("", ""), ("Status: ", "Loading metadata...")]));
    assert_eq!(tone, Tone::Pending);
}

#[test]
fn synced_node() {
    let mut c = NodeConfig::default();
    c.target_host = Some("10.0.0.5".to_string());
    c.target_port = Some(2200);
    c.build_on_target = true;
    c.tags = vec!["prod".to_string(), "web".to_string()];
    let p = verified("0123456789abc");
    let (lines, tone) = node_inspector(&name("web"), Some(&c), Some(&p), "0123456789abc");
    assert_eq!(tone, Tone::Good);
    assert_eq!(
        lines,
        pairs(&[
            ("Node: ", "web"),
            ("", ""),
            ("Remote Status: ", "Synced"),
            ("Remote Commit: ", "0123456"),
            ("Deployed By: ", "alice"),
            ("", ""),
            ("Target Host: ", "root@10.0.0.5"),
            ("Target Port: ", "2200"),
            ("Build Location: ", "On Target"),
            ("Tags: ", "prod, web"),
            ("", ""),
            ("Local Revision: ", "0123456"),
        ])
    );
}

#[test]
fn outdated_and_unknown_nodes() {
    let c = NodeConfig::default();
    let p = verified("aaaaaaaaaa");
    let (lines, tone) = node_inspector(&name("db"), Some(&c), Some(&p), "bbbbbbbbbb");
    assert_eq!(tone, Tone::Bad);
    assert_eq!(lines[2].1, "Outdated/Diverged");
    assert_eq!(lines[6].1, "Local");
    assert_eq!(lines[7].1, "22");
    assert_eq!(lines[8].1, "Local / Builder");
    assert_eq!(lines[9].1, "None");
    let (pending, t) = node_inspector(&name("db"), Some(&c), None, "bbbbbbbbbb");
    assert_eq!(t, Tone::Pending);
    assert_eq!(pending[3].1, "");
    assert_eq!(pending[4].1, "...");
    let (failed, tf) = node_inspector(&name("db"), Some(&c), Some(&ProvenanceStatus::Error("x".to_string())), "b");
    assert_eq!(tf, Tone::Failed);
    assert_eq!(failed[2].1, "Connection Failed");
    let (_, tu) = node_inspector(&name("db"), Some(&c), Some(&ProvenanceStatus::NoData), "b");
    assert_eq!(tu, Tone::Unknown);
}

#[test]
fn group_counts_outdated_nodes() {
    let leaves = vec![name("a"), name("b"), name("c")];
    let prov = vec![(name("a"), verified("old")), (name("b"), verified("new")), (name("c"), ProvenanceStatus::NoData)];
    assert_eq!(
        group_inspector("prod", &leaves, &prov, "new"),
        ("Group: prod".to_string(), "Contains 3 items (1 outdated!)".to_string())
    );
    assert_eq!(
        group_inspector("prod", &leaves, &prov, "old"),
        ("Group: prod".to_string(), "Contains 3 items (1 outdated!)".to_string())
    );
    let synced = vec![(name("a"), verified("x"))];
    assert_eq!(group_inspector("g", &vec![name("a")], &synced, "x").1, "Contains 1 items");
}
