use navi::cli::{hive_settings, nix_option_pairs, ColorWhen, DaemonCommand};
use navi::copy::{nix_copy_closure, CopyDirection, CopyOptions};
use navi::daemon::{
    apply_limit, connect_step, gc_args, line_event, options_from_settings, should_exit, status_step, task_description, task_report,
    ConnectStep, LineEvent, ReplyKind, Request, StatusStep, TaskKind, TaskReport,
};
use navi::deployment::{
    retain_selected, select_targets, ChunkedExecutor, DeployOptions, EvalEvent, Goal, HostHandle, NodeActivator, ProfileCheck,
    StreamStep, StreamingExecutor, TargetNode,
};
use navi::events::LineStyle;
use navi::diff::{diff_report, diff_target, diff_text, toplevel_attr, ClosureDiff};
use navi::hive::EvaluationMethod;
use navi::local::{activation_command, first_line, Local};
use navi::model::DeploySettings;
use navi::nix::{NaviError, NixFlags, NodeConfig, NodeName, NodeState};
use navi::ssh::Ssh;

fn n(s: &str) -> NodeName {
    NodeName::new(s.to_string()).unwrap()
}

fn options() -> DeployOptions {
    DeployOptions {
        upload_keys: true,
        substituters_push: true,
        gzip: false,
        force_replace_unknown_profiles: false,
        install_bootloader: false,
        reboot: true,
        create_gc_roots: false,
        force_build_on_target: None,
    }
}

#[test]
fn chunks_of_nodes() {
    let nodes = vec![n("a"), n("b"), n("c"), n("d"), n("e")];
    let chunks = ChunkedExecutor::chunks(&nodes, Some(2));
    let sizes: Vec<usize> = chunks.iter().map(|c| c.len()).collect();
    assert_eq!(sizes, vec![2, 2, 1]);
    assert_eq!(chunks[2][0].as_str(), "e");
    assert_eq!(ChunkedExecutor::chunks(&nodes, None).len(), 1);
}

#[test]
fn streaming_steps() {
    assert!(matches!(StreamingExecutor::step(EvalEvent::Evaluated("a".to_string())), Ok(StreamStep::Deploy(m)) if m.as_str() == "a"));
    assert!(matches!(StreamingExecutor::step(EvalEvent::AttributeFailed("b".to_string())), Ok(StreamStep::Failed(_))));
    assert!(matches!(StreamingExecutor::step(EvalEvent::GlobalFailure), Ok(StreamStep::Abort)));
    assert!(matches!(StreamingExecutor::step(EvalEvent::Evaluated(String::new())), Err(NaviError::EmptyNodeName)));
    assert_eq!(StreamingExecutor::finish(&vec![]), Ok(()));
    assert_eq!(StreamingExecutor::finish(&vec![n("x")]), Err(NaviError::AttributeEvaluationError));
}

#[test]
fn activation_decisions() {
    let act = NodeActivator::new(Goal::Switch, options(), 4);
    assert_eq!(act.check_profile(true, "/nix/store/x-system", false), Ok(ProfileCheck::Skipped));
    assert_eq!(act.check_profile(false, "/nix/store/x-system", true), Ok(ProfileCheck::Known));
    assert_eq!(
        act.check_profile(false, "/nix/store/x-system", false),
        Err(NaviError::ActiveProfileUnknown { profile: "/nix/store/x-system".to_string() })
    );
    let mut forced = options();
    forced.force_replace_unknown_profiles = true;
    assert_eq!(NodeActivator::new(Goal::Boot, forced, 1).check_profile(false, "/p", false), Ok(ProfileCheck::UnknownIgnored));
    assert!(act.writes_provenance());
    assert!(!NodeActivator::new(Goal::Build, options(), 1).writes_provenance());
    assert_eq!(act.reboot_plan(true, false), Some((true, false)));
}

#[test]
fn target_node_build_location() {
    let mut cfg = NodeConfig::default();
    cfg.build_on_target = false;
    let mut t = TargetNode::new(n("a"), None, cfg);
    assert!(!t.builds_on_target(None));
    assert!(t.builds_on_target(Some(true)));
    assert!(t.config.build_on_target);
    assert!(t.into_host().is_none());
}

#[test]
fn local_host_commands() {
    let mut local = Local::new(NixFlags::default());
    local.set_privilege_escalation_command(Some(vec!["sudo".to_string(), "-H".to_string()]));
    let cmd = local.privileged_command(&vec!["mkdir".to_string(), "-p".to_string()]);
    assert_eq!(cmd, vec!["sudo", "-H", "mkdir", "-p"]);
    assert_eq!(local.realise_args("/nix/store/x.drv"), vec!["--no-gc-warning", "--realise", "/nix/store/x.drv"]);
    assert_eq!(
        activation_command(&vec!["/p/bin/switch".to_string(), "switch".to_string()], true),
        vec!["env", "NIXOS_INSTALL_BOOTLOADER=1", "/p/bin/switch", "switch"]
    );
    assert_eq!(first_line("/nix/store/abc\nrest\n").as_deref(), Some("/nix/store/abc"));
    assert_eq!(first_line(""), None);
}

#[test]
fn cli_settings() {
    assert_eq!(ColorWhen::default().as_str(), "auto");
    assert_eq!(ColorWhen::Never.forced(), Some(false));
    assert_eq!(ColorWhen::Always.as_str(), "always");
    let pairs = nix_option_pairs(&vec!["a".to_string(), "1".to_string(), "b".to_string(), "2".to_string(), "odd".to_string()]);
    assert_eq!(pairs, vec![("a".to_string(), "1".to_string()), ("b".to_string(), "2".to_string())]);
    assert!(matches!(hive_settings(false, false, true, false, &vec![]), Err(NaviError::Unsupported)));
    let s = hive_settings(true, false, false, true, &vec![]).unwrap();
    assert_eq!(s.evaluation_method, Some(EvaluationMethod::NixInstantiate));
    assert!(s.show_trace);
    assert_ne!(DaemonCommand::Start, DaemonCommand::Status);
}

#[test]
fn daemon_decisions() {
    assert!(should_exit(0, 0, 10_000_000_001));
    assert!(!should_exit(0, 0, 10_000_000_000));
    assert!(!should_exit(1, 0, 99_000_000_000));
    assert_eq!(apply_limit(0, 7), 7);
    assert_eq!(apply_limit(3, 7), 3);
    assert_eq!(gc_args(&None), vec!["nix-collect-garbage", "-d"]);
    assert_eq!(gc_args(&Some("7d".to_string())), vec!["nix-collect-garbage", "--delete-older-than", "7d"]);
    assert_eq!(connect_step(false, true, 0), ConnectStep::Fail);
    assert_eq!(connect_step(true, true, 0), ConnectStep::StartDaemon);
    assert_eq!(connect_step(true, true, 19), ConnectStep::Retry);
    assert_eq!(connect_step(true, true, 20), ConnectStep::Fail);
    assert_eq!(connect_step(true, false, 3), ConnectStep::Fail);
    assert_eq!(status_step(ReplyKind::Other, 49), StatusStep::Wait);
    assert_eq!(status_step(ReplyKind::Other, 50), StatusStep::TimedOut);
    assert_eq!(status_step(ReplyKind::State, 50), StatusStep::Done);
    let mut s = DeploySettings::default();
    s.no_keys = true;
    s.build_on_target = true;
    let o = options_from_settings(s);
    assert!(!o.upload_keys && o.gzip && o.substituters_push);
    assert_eq!(o.force_build_on_target, Some(true));
}

#[test]
fn copy_commands() {
    let mut host = Ssh::new(Some("root".to_string()), "h".to_string());
    let opts = CopyOptions { include_outputs: true, use_substitutes: true, gzip: true };
    let old = nix_copy_closure(&host, &vec!["-o".to_string(), "A B".to_string()], "/nix/store/x", CopyDirection::ToRemote, opts);
    assert_eq!(old.program, "nix-copy-closure");
    assert_eq!(old.args, vec!["--to", "--include-outputs", "--use-substitutes", "--gzip", "root@h", "/nix/store/x"]);
    assert_eq!(old.nix_sshopts, "-o 'A B'");
    host.set_use_nix3_copy(true);
    let new = nix_copy_closure(&host, &vec![], "/nix/store/y.drv", CopyDirection::FromRemote, opts);
    assert_eq!(new.program, "nix");
    assert_eq!(
        new.args,
        vec![
            "--extra-experimental-features",
            "nix-command",
            "copy",
            "--no-check-sigs",
            "--substitute-on-destination",
            "--builders-use-substitutes",
            "--derivation",
            "--from",
            "ssh-ng://root@h?compress=true",
            "/nix/store/y.drv"
        ]
    );
}

#[test]
fn diff_pieces() {
    let mut c = NodeConfig::default();
    assert_eq!(diff_target(&c), ("localhost".to_string(), true));
    c.target_host = Some("web".to_string());
    assert_eq!(diff_target(&c), ("root@web".to_string(), false));
    c.target_user = Some("ops".to_string());
    assert_eq!(diff_target(&c).0, "ops@web");
    assert_eq!(toplevel_attr("a"), ".#nixosConfigurations.\"a\".config.system.build.toplevel");
    let failed = ClosureDiff::Ran { stdout: "out".to_string(), success: false, stderr: "err".to_string() };
    assert_eq!(diff_text(Some(""), &failed), "out\n--- Stderr ---\nerr");
    assert_eq!(diff_text(Some("nvd says"), &failed), "nvd says");
    assert_eq!(diff_text(None, &ClosureDiff::NotStarted("x".to_string())), "Both nvd and nix store diff-closures failed: x");
    assert_eq!(diff_report("a", "/r", "/l", "d"), "Diff for a\nRemote: /r\nLocal:  /l\n\nd");
}

fn with_host(host: Option<&str>) -> NodeConfig {
    let mut c = NodeConfig::default();
    c.target_host = host.map(|h| h.to_string());
    c
}

#[test]
fn targets_of_the_selection() {
    let selected = vec![(n("a"), with_host(Some("10.0.0.1"))), (n("b"), with_host(None))];
    let all = select_targets(selected, &Some("/etc/ssh/cfg".to_string()), true, false);
    assert_eq!(all.len(), 2);
    match &all[0].host {
        Some(HostHandle::Ssh(h)) => {
            assert_eq!(h.host, "10.0.0.1");
            assert_eq!(h.ssh_config, Some("/etc/ssh/cfg".to_string()));
            assert!(h.use_nix3_copy);
        },
        other => panic!("unexpected {:?}", other),
    }
    assert!(all[1].host.is_none());
    let ssh_only = select_targets(vec![(n("a"), with_host(Some("h"))), (n("b"), with_host(None))], &None, false, true);
    assert_eq!(ssh_only.len(), 1);
    assert_eq!(ssh_only[0].name.as_str(), "a");
    match &ssh_only[0].host {
        Some(HostHandle::Ssh(h)) => {
            assert_eq!(h.ssh_config, None);
            assert!(!h.use_nix3_copy);
        },
        other => panic!("unexpected {:?}", other),
    }
}

#[test]
fn targets_filtered_by_selection() {
    let targets = vec![
        TargetNode::new(n("a"), None, NodeConfig::default()),
        TargetNode::new(n("b"), None, NodeConfig::default()),
        TargetNode::new(n("c"), None, NodeConfig::default()),
    ];
    let kept = retain_selected(targets, &vec![n("c"), n("a")]);
    let names: Vec<&str> = kept.iter().map(|t| t.name.as_str()).collect();
    assert_eq!(names, vec!["a", "c"]);
}

#[test]
fn daemon_tasks() {
    assert_eq!(task_description(&Request::GetState), None);
    let deploy = Request::Deploy { nodes: vec![n("a"), n("b")], settings: DeploySettings::default(), parallel: 0 };
    assert_eq!(task_description(&deploy), Some("Deploying 2 nodes".to_string()));
    assert_eq!(task_description(&Request::Diff { node: n("web") }), Some("Diffing web".to_string()));
    let gc = Request::GarbageCollect { nodes: vec![n("a")], interval: None };
    assert_eq!(task_description(&gc), Some("Garbage Collect (1 nodes)".to_string()));
    assert!(matches!(task_report(TaskKind::Deploy, Ok(())), TaskReport::Log(ref m) if m == "Deployment completed successfully."));
    assert!(matches!(task_report(TaskKind::Deploy, Err("x")), TaskReport::Log(ref m) if m == "Deployment failed: x"));
    assert!(matches!(task_report(TaskKind::GarbageCollect, Ok(())), TaskReport::Log(ref m) if m == "GC completed."));
    assert!(matches!(task_report(TaskKind::GarbageCollect, Err("y")), TaskReport::Log(ref m) if m == "GC failed: y"));
    assert!(matches!(task_report(TaskKind::Diff, Ok(())), TaskReport::Nothing));
    assert!(matches!(task_report(TaskKind::Diff, Err("z")), TaskReport::Diff(ref m) if m == "Diff failed: z"));
}

#[test]
fn daemon_progress_lines() {
    assert!(matches!(line_event("", "hello", LineStyle::Success), LineEvent::Log(ref m) if m == "hello"));
    assert!(matches!(line_event("web", "ok", LineStyle::SuccessNoop), LineEvent::NodeState(ref n, NodeState::Success(ref t)) if n.as_str() == "web" && t == "ok"));
    assert!(matches!(line_event("web", "bad", LineStyle::Failure), LineEvent::NodeState(_, NodeState::Failed(ref t)) if t == "bad"));
    assert!(matches!(line_event("web", "copying", LineStyle::Normal), LineEvent::NodeLog(ref n, ref t) if n.as_str() == "web" && t == "copying"));
}

#[test]
fn chunks_join_back_to_the_nodes() {
    let nodes: Vec<NodeName> = ["a", "b", "c", "d", "e", "f", "g"]
        .iter()
        .map(|n| NodeName::new(n.to_string()).unwrap())
        .collect();
    for limit in 1..=8 {
        let chunks = ChunkedExecutor::chunks(&nodes, Some(limit));
        assert!(chunks.iter().all(|c| !c.is_empty() && c.len() <= limit));
        let joined: Vec<&str> = chunks.iter().flatten().map(|n| n.as_str()).collect();
        assert_eq!(joined, vec!["a", "b", "c", "d", "e", "f", "g"]);
    }
}
