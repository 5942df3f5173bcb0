use navi::registrant_tree::{flatten_registrants, toggle_registrant_collapse};
use navi::demo::{demo_fleet, demo_log_lines, demo_node_name, demo_registrants, demo_status, two_digits};
use navi::model::RegistrantTreeItem;
use navi::nix::NodeState;
use navi::tree::TreeItem;

#[test]
fn padded_numbers() {
    assert_eq!(two_digits(0), "00");
    assert_eq!(two_digits(7), "07");
    assert_eq!(two_digits(29), "29");
    assert_eq!(two_digits(123), "123");
}

#[test]
fn demo_names_and_states() {
    assert_eq!(demo_node_name("us-east1", "app", 3), "us-east1-app-03");
    assert!(matches!(demo_status(10), NodeState::Failed(ref m) if m == "SSH Timeout"));
    assert!(matches!(demo_status(21), NodeState::Running(ref m) if m == "Copying closure (82%)..."));
    assert!(matches!(demo_status(15), NodeState::Success(ref m) if m == "Deployed"));
}

#[test]
fn demo_logs_warn_on_sevens() {
    let plain = demo_log_lines("db", 3);
    assert_eq!(plain.len(), 20);
    assert_eq!(plain[0], "Nov 10 10:10:00 systemd[1]: Service db status check OK.");
    let warned = demo_log_lines("db", 14);
    assert_eq!(warned.len(), 40);
    assert_eq!(warned[1], "Nov 10 10:10:01 db[1014]: WARN: Connection pool saturation at 85%.");
    assert_eq!(warned[39], "Nov 10 10:29:20 db[1014]: WARN: Connection pool saturation at 85%.");
}

#[test]
fn demo_fleet_shape() {
    let f = demo_fleet();
    assert_eq!(f.nodes.len(), 144);
    assert_eq!(f.nodes[0].name, "us-east1-lb-01");
    assert_eq!(f.nodes[2].name, "us-east1-app-01");
    assert_eq!(f.nodes[143].name, "sa-east1-monitoring-01");
    assert_eq!(f.tree.len(), 6);
    match &f.tree[3] {
        TreeItem::Group { name, children, collapsed } => {
            assert_eq!(name, "eu-central1 (24)");
            assert!(!collapsed);
            assert_eq!(children.len(), 7);
            match &children[1] {
                TreeItem::Group { name, children, .. } => {
                    assert_eq!(name, "app (8)");
                    assert_eq!(children.len(), 8);
                }
                TreeItem::Node { .. } => panic!("a role should be a group"),
            }
        }
        TreeItem::Node { .. } => panic!("a region should be a group"),
    }
    assert!(matches!(f.states[9].1, NodeState::Failed(_)));
    assert_eq!(f.logs[6].1.len(), 40);
}

#[test]
fn demo_registrant_tree() {
    let (domains, tree) = demo_registrants();
    assert_eq!(domains.len(), 10);
    assert_eq!(domains[1].domain, "alphabet.xyz");
    assert_eq!(tree.len(), 1);
    match &tree[0] {
        RegistrantTreeItem::Provider { name, children, .. } => {
            assert_eq!(name, "Porkbun");
            match &children[0] {
                RegistrantTreeItem::Account { name, children, .. } => {
                    assert_eq!(name, "Enterprise");
                    assert_eq!(children.len(), 10);
                }
                _ => panic!("expected an account"),
            }
        }
        _ => panic!("expected a provider"),
    }
}

#[test]
fn toggling_registrant_rows() {
    let (_, mut tree) = demo_registrants();
    let rows_before = flatten_registrants(&tree).len();
    toggle_registrant_collapse(&mut tree, 4);
    assert_eq!(flatten_registrants(&tree).len(), rows_before);
    toggle_registrant_collapse(&mut tree, 3);
    let rows = flatten_registrants(&tree);
    assert_eq!(rows.len(), rows_before - 2);
    assert!(matches!(rows[3], RegistrantTreeItem::RecordGroup { collapsed: true, ref name, .. } if name == "DNS Records"));
    toggle_registrant_collapse(&mut tree, 10_000);
    assert_eq!(flatten_registrants(&tree).len(), rows_before - 2);
}
