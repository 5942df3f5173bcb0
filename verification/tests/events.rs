use navi::events::{
    area_contains, drag_scroll, global_log_line, hierarchy_keys, interactive_ssh_args, is_settled, line_node, line_status,
    loaded_entries, logs_area, next_state, note, porkbun_credentials, provenance_refresh_secs, registrant_error_line,
    ssh_session_target, state_after_config, tab_click, wheel_scroll, Area, JobNote, LineStyle,
};
use navi::model::{AppMode, ProvenanceStatus, RegistrantTreeItem};
use navi::nix::{NodeConfig, NodeName, NodeState};
use navi::registrants::{PorkbunDnsRecord, PorkbunGlueIps, PorkbunGlueRecord};

fn strings(xs: &[&str]) -> Vec<String> {
    xs.iter().map(|s| s.to_string()).collect()
}

fn text_of(s: &NodeState) -> (u8, String) {
    match s {
        NodeState::Idle => (0, String::new()),
        NodeState::Loading => (1, String::new()),
        NodeState::Running(t) => (2, t.clone()),
        NodeState::Success(t) => (3, t.clone()),
        NodeState::Failed(t) => (4, t.clone()),
    }
}

#[test]
fn short_status_of_lines() {
    assert_eq!(line_status("copying path '/nix/store/x'"), Some("Copying..."));
    assert_eq!(line_status("building '/nix/store/y.drv'"), Some("Building..."));
    assert_eq!(line_status("switching to configuration"), Some("Activating..."));
    assert_eq!(line_status("waiting for lock"), Some("Waiting..."));
    assert_eq!(line_status("evalulating hive"), Some("Evaluating..."));
    assert_eq!(line_status("hello"), None);
}

#[test]
fn state_after_progress_lines() {
    let idle = NodeState::Idle;
    assert_eq!(text_of(&next_state(LineStyle::Success, "done", &idle)), (3, "done".to_string()));
    assert_eq!(text_of(&next_state(LineStyle::SuccessNoop, "noop", &idle)), (3, "noop".to_string()));
    assert_eq!(text_of(&next_state(LineStyle::Failure, "boom", &idle)), (4, "boom".to_string()));
    assert_eq!(text_of(&next_state(LineStyle::Normal, "building x", &idle)), (2, "Building...".to_string()));
    let running = NodeState::Running("Copying...".to_string());
    assert_eq!(text_of(&next_state(LineStyle::Normal, "other", &running)), (2, "Copying...".to_string()));
    assert_eq!(text_of(&next_state(LineStyle::Normal, "other", &idle)), (2, "Running...".to_string()));
    assert!(is_settled(&NodeState::Failed("x".to_string())));
    assert!(!is_settled(&running));
}

#[test]
fn lines_belong_to_known_nodes() {
    let nodes = vec![NodeName::new("web".to_string()).unwrap()];
    assert_eq!(line_node("web", &nodes).unwrap().as_str(), "web");
    assert!(line_node("db", &nodes).is_none());
    assert!(line_node("", &nodes).is_none());
    assert_eq!(global_log_line("System", "hello"), "System | hello");
}

#[test]
fn configuration_arrival() {
    assert!(matches!(state_after_config(None), Some(NodeState::Idle)));
    assert!(matches!(state_after_config(Some(&NodeState::Loading)), Some(NodeState::Idle)));
    assert!(state_after_config(Some(&NodeState::Success("ok".to_string()))).is_none());
    assert_eq!(provenance_refresh_secs(&ProvenanceStatus::Error("x".to_string())), 10);
    assert_eq!(provenance_refresh_secs(&ProvenanceStatus::NoData), 60);
    assert_eq!(hierarchy_keys(&None), strings(&["category", "environment", "hostgroup"]));
    assert_eq!(hierarchy_keys(&Some(strings(&["region"]))), strings(&["region"]));
}

#[test]
fn interactive_sessions() {
    let mut c = NodeConfig::default();
    assert_eq!(ssh_session_target(&c), "localhost");
    c.target_host = Some("10.0.0.1".to_string());
    assert_eq!(ssh_session_target(&c), "root@10.0.0.1");
    c.target_user = Some("admin".to_string());
    assert_eq!(ssh_session_target(&c), "admin@10.0.0.1");
    c.target_host = Some("localhost".to_string());
    assert_eq!(ssh_session_target(&c), "localhost");
    let opts = strings(&["-o", "BatchMode=yes", "-T", "-p", "22"]);
    assert_eq!(interactive_ssh_args(&opts, "root@h"), strings(&["-t", "-o", "BatchMode=yes", "-p", "22", "root@h"]));
}

#[test]
fn mouse_handling() {
    assert_eq!(tab_click(5, false), Some(AppMode::Normal));
    assert_eq!(tab_click(15, true), Some(AppMode::Registrants));
    assert_eq!(tab_click(15, false), None);
    assert_eq!(tab_click(30, false), Some(AppMode::Logs));
    assert_eq!(tab_click(40, true), None);
    let a = logs_area(80, 24);
    assert_eq!(a, Area { x: 0, y: 1, width: 80, height: 22 });
    assert!(area_contains(a, 0, 1));
    assert!(!area_contains(a, 80, 5));
    assert!(!area_contains(a, 5, 23));
    assert_eq!(wheel_scroll(10, false, true), (7, false));
    assert_eq!(wheel_scroll(2, false, true), (0, true));
    assert_eq!(wheel_scroll(2, true, false), (5, false));
    assert_eq!(wheel_scroll(usize::MAX, false, false), (usize::MAX, false));
    assert_eq!(drag_scroll(5, 0, a), 6);
    assert_eq!(drag_scroll(5, 24, a), 4);
    assert_eq!(drag_scroll(5, 10, a), 5);
}

fn dns(name: &str) -> PorkbunDnsRecord {
    PorkbunDnsRecord {
        id: "1".to_string(),
        name: name.to_string(),
        record_type: "A".to_string(),
        content: "1.2.3.4".to_string(),
        ttl: "600".to_string(),
        prio: None,
        notes: None,
    }
}

fn message(items: &[RegistrantTreeItem]) -> String {
    match &items[0] {
        RegistrantTreeItem::Message { text } => text.clone(),
        _ => panic!("expected a message"),
    }
}

#[test]
fn loaded_records() {
    assert_eq!(message(&loaded_entries(None, None, Some("timeout".to_string()))), "Error: timeout");
    assert_eq!(message(&loaded_entries(Some(vec![]), None, None)), "No records found.");
    assert_eq!(message(&loaded_entries(None, Some(vec![]), None)), "No glue records found.");
    assert_eq!(message(&loaded_entries(None, None, None)), "No data");
    let recs = loaded_entries(Some(vec![dns("a"), dns("b")]), None, None);
    assert_eq!(recs.len(), 2);
    assert!(matches!(&recs[1], RegistrantTreeItem::DnsRecord { record } if record.name == "b"));
    let glue = loaded_entries(
        None,
        Some(vec![PorkbunGlueRecord { host: "ns1".to_string(), ips: PorkbunGlueIps { v4: vec![], v6: vec![] } }]),
        None,
    );
    assert!(matches!(&glue[0], RegistrantTreeItem::GlueRecord { record } if record.host == "ns1"));
    assert_eq!(registrant_error_line("boom"), "[Registrants Error] boom");
}

#[test]
fn credentials_from_outputs() {
    assert_eq!(
        porkbun_credentials(Some(" k \n"), Some("s\n")),
        Some(("k".to_string(), "s".to_string()))
    );
    assert_eq!(porkbun_credentials(Some(""), Some("s")), None);
    assert_eq!(porkbun_credentials(None, Some("s")), None);
}

#[test]
fn job_notes() {
    assert_eq!(note(&JobNote::DeploymentTask(3)), "Deployment (3 nodes)");
    assert_eq!(note(&JobNote::GcTask(2)), "GC (2 nodes)");
    assert_eq!(note(&JobNote::DeploymentProceeds(1)), "Deployment will proceed for 1 filtered node(s).");
    assert_eq!(note(&JobNote::GcProceeds(0)), "GC will proceed for 0 filtered node(s).");
    assert_eq!(note(&JobNote::GcStarts(None)), "Starting Garbage Collection (all old)...");
    assert_eq!(note(&JobNote::GcStarts(Some("7d".to_string()))), "Starting Garbage Collection (7d)...");
    assert_eq!(note(&JobNote::DeploymentError("x".to_string())), "Deployment error: x");
    assert_eq!(note(&JobNote::SelectionError("x".to_string())), "Selection error: x");
    assert_eq!(note(&JobNote::HiveError("x".to_string())), "Hive error: x");
    assert_eq!(note(&JobNote::GcDone), "Garbage collection completed.");
    assert_eq!(note(&JobNote::GcFailed("x".to_string())), "GC Failed: x");
    assert_eq!(note(&JobNote::DaemonDeployFailed("x".to_string())), "Failed to start deployment via daemon: x");
    assert_eq!(note(&JobNote::DaemonDiffFailed("x".to_string())), "Failed to start diff via daemon: x");
    assert_eq!(note(&JobNote::DaemonGcFailed("x".to_string())), "Failed to start GC via daemon: x");
}

#[test]
fn provenance_cache_expiry() {
    assert!(!navi::events::provenance_expired(1600, 1000));
    assert!(navi::events::provenance_expired(1601, 1000));
    assert!(!navi::events::provenance_expired(10, 1000));
}

#[test]
fn light_terminal_from_colorfgbg() {
    assert!(navi::events::light_background("0;15"));
    assert!(navi::events::light_background("0;default;7"));
    assert!(navi::events::light_background("0; white "));
    assert!(!navi::events::light_background("15;0"));
    assert!(!navi::events::light_background("15"));
}
