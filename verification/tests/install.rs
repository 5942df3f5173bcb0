use navi::install::{unlock_host, UNLOCK_ATTEMPTS};
use navi::install::{
    flake_ref, install_ssh_host, install_user, installs, kexec_path, kexec_url, node_system_expr, populate_ssh_args, proxy_option,
    proxy_wrapper, replace_str, should_install, wait_step, ProvenanceProbe, WaitStep, DEFAULT_KEXEC_URL_TEMPLATE,
};
use navi::nix::{GcpConfig, NixosAnywhereConfig, NodeConfig, ProvisionerConfig, ProvisionerType};
use navi::install::{install_action, provenance_probe_host, InstallAction};

fn strings(xs: &[&str]) -> Vec<String> {
    xs.iter().map(|s| s.to_string()).collect()
}

fn anywhere(user: Option<&str>) -> NixosAnywhereConfig {
    NixosAnywhereConfig {
        enable: true,
        ssh_user: user.map(|u| u.to_string()),
        unlock: false,
        extra_args: vec![],
        download_kexec_locally: false,
        kexec_url_template: None,
    }
}

#[test]
fn replace_every_occurrence() {
    assert_eq!(replace_str("a-b-c", "-", "+"), "a+b+c");
    assert_eq!(replace_str("aaa", "aa", "b"), "ba");
    assert_eq!(replace_str("xyz", "q", "r"), "xyz");
}

#[test]
fn kexec_url_for_system() {
    assert_eq!(
        kexec_url(DEFAULT_KEXEC_URL_TEMPLATE, "x86_64-linux"),
        "https://github.com/nix-community/nixos-images/releases/download/nixos-25.05/nixos-kexec-installer-noninteractive-x86_64-linux.tar.gz"
    );
    assert_eq!(kexec_path("web", "aarch64-linux"), "/tmp/nixos-kexec-web-aarch64-linux.tar.gz");
}

#[test]
fn expressions_for_node() {
    assert_eq!(node_system_expr("web"), "x: x.nodes.\"web\".pkgs.system");
    assert_eq!(flake_ref("web"), ".#web");
}

#[test]
fn host_through_iap_tunnel() {
    let mut c = NodeConfig::default();
    c.providers.gcp = Some(GcpConfig { project: None, zone: None, iap: true });
    assert_eq!(install_ssh_host("web", "10.0.0.1", Some(&c)), "web");
    c.target_host = Some("web-instance".to_string());
    assert_eq!(install_ssh_host("web", "10.0.0.1", Some(&c)), "web-instance");
}

#[test]
fn host_from_outputs() {
    let c = NodeConfig::default();
    assert_eq!(install_ssh_host("web", "10.0.0.1", Some(&c)), "10.0.0.1");
    assert_eq!(install_ssh_host("web", "10.0.0.1", None), "10.0.0.1");
}

#[test]
fn user_precedence() {
    let mut c = NodeConfig::default();
    assert_eq!(install_user(&anywhere(None), None), "root");
    assert_eq!(install_user(&anywhere(None), Some(&c)), "root");
    c.target_user = Some("admin".to_string());
    assert_eq!(install_user(&anywhere(None), Some(&c)), "admin");
    assert_eq!(install_user(&anywhere(Some("nixos")), Some(&c)), "nixos");
}

#[test]
fn ssh_options_translated() {
    let opts = strings(&["-o", "StrictHostKeyChecking=no", "-p", "2222", "-F", "/tmp/cfg", "-i", "key", "-v"]);
    let (args, file) = populate_ssh_args(&opts);
    assert_eq!(args, strings(&["--ssh-option", "StrictHostKeyChecking=no", "--ssh-port", "2222", "-i", "key"]));
    assert_eq!(file, Some("/tmp/cfg".to_string()));
    let (none, no_file) = populate_ssh_args(&strings(&["-q"]));
    assert!(none.is_empty());
    assert_eq!(no_file, None);
}

#[test]
fn proxy_command_becomes_script() {
    assert_eq!(
        proxy_wrapper("  ProxyCommand gcloud ssh %h --port %p  "),
        Some("#!/bin/sh\ngcloud ssh $1 --port $2\n".to_string())
    );
    assert_eq!(proxy_wrapper("User root"), None);
    assert_eq!(proxy_option("/tmp/p.sh"), "ProxyCommand='/tmp/p.sh' %h %p");
}

#[test]
fn wait_steps() {
    assert!(matches!(wait_step("Permission denied (publickey)", 0), WaitStep::Denied(1)));
    assert!(matches!(wait_step("Permission denied (publickey)", 4), WaitStep::SoftLocked));
    assert!(matches!(wait_step("ERROR: Failed to lookup instance", 0), WaitStep::LookupPending));
    assert!(matches!(wait_step("failed to connect to backend", 0), WaitStep::BackendPending));
    match wait_step("ERROR: boom\nmore detail", 2) {
        WaitStep::Other(l) => assert_eq!(l, "boom"),
        other => panic!("unexpected {:?}", other),
    }
    match wait_step("   ", 2) {
        WaitStep::Other(l) => assert_eq!(l, "Unknown error"),
        other => panic!("unexpected {:?}", other),
    }
}

#[test]
fn which_kinds_install() {
    assert!(installs(ProvisionerType::Terranix));
    assert!(installs(ProvisionerType::BareMetal));
    assert!(!installs(ProvisionerType::Command));
    assert!(!installs(ProvisionerType::FlakeApp));
}

#[test]
fn install_decision() {
    assert!(!should_install(false, false, ProvenanceProbe::Found));
    assert!(should_install(true, false, ProvenanceProbe::Found));
    assert!(should_install(false, true, ProvenanceProbe::Found));
    assert!(should_install(false, false, ProvenanceProbe::NoAddress));
}

#[test]
fn unlocking_host() {
    let mut c = NodeConfig::default();
    assert!(unlock_host(&c, &None).is_none());
    c.target_host = Some("10.0.0.5".to_string());
    c.unlock.ssh_options = strings(&["-v"]);
    c.unlock.ignore_ssh_config = true;
    let h = unlock_host(&c, &None).unwrap();
    assert_eq!(h.host, "10.0.0.5");
    assert_eq!(h.port, Some(2222));
    assert_eq!(h.extra_ssh_options, strings(&["-v", "-o", "ConnectTimeout=5", "-o", "ConnectionAttempts=1"]));
    assert_eq!(h.ssh_config, Some("/dev/null".to_string()));
    assert_eq!(UNLOCK_ATTEMPTS, 60);
}

fn provisioner(kind: ProvisionerType, anywhere_enabled: Option<bool>) -> ProvisionerConfig {
    ProvisionerConfig {
        kind,
        command: None,
        app: None,
        configuration: None,
        nixos_anywhere: anywhere_enabled.map(|e| {
            let mut na = anywhere(None);
            na.enable = e;
            na
        }),
        derive: vec![],
    }
}

#[test]
fn install_actions_by_provisioner() {
    let ps = vec![
        ("gcp".to_string(), provisioner(ProvisionerType::Terranix, Some(true))),
        ("metal".to_string(), provisioner(ProvisionerType::BareMetal, Some(false))),
        ("cmd".to_string(), provisioner(ProvisionerType::Command, Some(true))),
        ("tf".to_string(), provisioner(ProvisionerType::Terranix, None)),
    ];
    assert_eq!(install_action(&ps, "gcp"), InstallAction::Install);
    assert_eq!(install_action(&ps, "metal"), InstallAction::Disabled);
    assert_eq!(install_action(&ps, "cmd"), InstallAction::Unsupported);
    assert_eq!(install_action(&ps, "tf"), InstallAction::NotConfigured);
    assert_eq!(install_action(&ps, "nope"), InstallAction::NotFound);
}

#[test]
fn provenance_probe_reaches_the_install_address() {
    let mut c = NodeConfig::default();
    c.target_host = Some("web.example".to_string());
    c.target_user = Some("admin".to_string());
    let h = provenance_probe_host("web", "10.0.0.7", Some(&c), &None, false);
    assert_eq!(h.host, "10.0.0.7");
    assert_eq!(h.user.as_deref(), Some("admin"));
    let n = h.extra_ssh_options.len();
    assert_eq!(
        h.extra_ssh_options[n - 6..].to_vec(),
        strings(&["-o", "ConnectTimeout=5", "-o", "ConnectionAttempts=1", "-o", "StrictHostKeyChecking=no"])
    );
    let bare = provenance_probe_host("web", "10.0.0.7", None, &None, false);
    assert_eq!(bare.user.as_deref(), Some("root"));
    assert_eq!(bare.host, "10.0.0.7");
}
