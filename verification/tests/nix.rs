use navi::nix::{
    first_with_prefix_index, validate_keys, GcpConfig, KeyNameError, NaviError, NixFlags, NodeConfig, NodeName, NodeState, Provider,
};

fn strings(xs: &[&str]) -> Vec<String> {
    xs.iter().map(|s| s.to_string()).collect()
}

#[test]
fn empty_node_name_is_refused() {
    assert!(matches!(NodeName::new(String::new()), Err(NaviError::EmptyNodeName)));
    assert!(matches!(NodeName::validate(String::new()), Err(NaviError::EmptyNodeName)));
    assert_eq!(NodeName::validate("a".to_string()).unwrap(), "a");
    let a = NodeName::new("web".to_string()).unwrap();
    let b = NodeName::new("web".to_string()).unwrap();
    assert!(a.same(&b));
    assert!(!a.same(&NodeName::new("db".to_string()).unwrap()));
}

#[test]
fn provider_from_gcp_block() {
    let mut c = NodeConfig::default();
    c.tags = strings(&["provider:ssh"]);
    c.providers.gcp = Some(GcpConfig { project: Some("p".to_string()), zone: None, iap: false });
    match c.get_provider() {
        Provider::Gcp { project, zone, iap } => {
            assert_eq!(project, Some("p".to_string()));
            assert_eq!(zone, None);
            assert!(!iap);
        },
        Provider::Ssh => panic!("expected gcp"),
    }
}

#[test]
fn provider_from_tags() {
    let mut c = NodeConfig::default();
    c.tags = strings(&["web", "gcp:zone:z1", "provider:gcp", "gcp:project:a", "gcp:project:b", "provider:ssh"]);
    match c.get_provider() {
        Provider::Gcp { project, zone, iap } => {
            assert_eq!(project, Some("b".to_string()));
            assert_eq!(zone, Some("z1".to_string()));
            assert!(iap);
        },
        Provider::Ssh => panic!("expected gcp"),
    }
    c.tags = strings(&["provider:ssh", "provider:gcp"]);
    assert!(matches!(c.get_provider(), Provider::Ssh));
    c.tags = vec![];
    assert!(matches!(c.get_provider(), Provider::Ssh));
}

#[test]
fn first_tag_with_prefix() {
    let tags = strings(&["a", "provider:x", "provider:y"]);
    assert_eq!(first_with_prefix_index(&tags, "provider:"), Some(1));
    assert_eq!(first_with_prefix_index(&tags, "zz"), None);
}

#[test]
fn ssh_host_of_node() {
    let mut c = NodeConfig::default();
    assert!(c.to_ssh_host().is_none());
    c.target_host = Some("10.0.0.1".to_string());
    c.target_user = Some("deploy".to_string());
    c.target_port = Some(2022);
    c.extra_ssh_options = strings(&["-v"]);
    c.privilege_escalation_command = strings(&["doas"]);
    let h = c.to_ssh_host().unwrap();
    assert_eq!(h.host, "10.0.0.1");
    assert_eq!(h.user, Some("deploy".to_string()));
    assert_eq!(h.port, Some(2022));
    assert_eq!(h.extra_ssh_options, strings(&["-v"]));
    assert_eq!(h.privilege_escalation_command, strings(&["doas"]));
    assert_eq!(h.ssh_target(), "deploy@10.0.0.1");
}

#[test]
fn node_settings_accessors() {
    let mut c = NodeConfig::default();
    assert!(!c.allows_local_deployment());
    assert!(!c.build_on_target());
    c.set_build_on_target(true);
    assert!(c.build_on_target());
    assert!(c.privilege_escalation_command().is_empty());
}

#[test]
fn nix_arguments() {
    let mut f = NixFlags::default();
    assert!(f.to_args().is_empty());
    f.set_builders(Some("ssh://b x86_64-linux".to_string()));
    f.set_show_trace(true);
    f.set_pure_eval(true);
    f.set_impure(true);
    f.set_options(vec![("cores".to_string(), "4".to_string())]);
    assert_eq!(
        f.to_args(),
        strings(&["--option", "builders", "ssh://b x86_64-linux", "--show-trace", "--pure-eval", "--impure", "--option", "cores", "4"])
    );
    assert_eq!(
        f.to_nix_store_args(),
        strings(&["--option", "builders", "ssh://b x86_64-linux", "--show-trace", "--pure-eval", "--option", "cores", "4"])
    );
}

#[test]
fn node_state_text() {
    assert_eq!(NodeState::Idle.as_str(), "");
    assert_eq!(NodeState::Loading.as_str(), "Loading...");
    assert_eq!(NodeState::Failed("boom".to_string()).as_str(), "boom");
}

#[test]
fn secret_key_names() {
    assert_eq!(validate_keys(&strings(&["db-password", "tls.key"])), Ok(()));
    assert_eq!(validate_keys(&strings(&["ok", "/etc/passwd"])), Err(KeyNameError::Absolute));
    assert_eq!(validate_keys(&strings(&["../../etc/passwd"])), Err(KeyNameError::Separators));
    assert_eq!(validate_keys(&strings(&["a/b", "/abs"])), Err(KeyNameError::Separators));
    assert_eq!(KeyNameError::Absolute.message(), "Secret key name cannot be absolute");
    assert_eq!(KeyNameError::Separators.message(), "Secret key name cannot contain path separators");
}
