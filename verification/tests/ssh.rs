use navi::host::Host;
use navi::local::Local;
use navi::nix::NixFlags;
use navi::ssh::{rebooted, should_try_unlock, unlock_failure_message};
use navi::nix::{DiskUnlockConfig, Provider};
use navi::ssh::{
    binding_option_pair, first_allowed_interface, has_proxy_option, hw_link_patterns, interface_allowed, link_line_interface,
    route_device_of, select_interface, shell_quote, trim_end_char_str, Ssh,
};

fn strings(xs: &[&str]) -> Vec<String> {
    xs.iter().map(|s| s.to_string()).collect()
}

#[test]
fn quoting_for_shell() {
    assert_eq!(shell_quote("plain"), "plain");
    assert_eq!(shell_quote("two words"), "'two words'");
    assert_eq!(shell_quote("it's"), "'it'\\''s'");
}

#[test]
fn target_with_and_without_user() {
    assert_eq!(Ssh::new(Some("root".to_string()), "h".to_string()).ssh_target(), "root@h");
    assert_eq!(Ssh::new(None, "h".to_string()).ssh_target(), "h");
}

#[test]
fn default_options() {
    let s = Ssh::new(None, "h".to_string());
    assert_eq!(
        s.ssh_options(&None, false),
        strings(&["-o", "StrictHostKeyChecking=accept-new", "-o", "BatchMode=yes", "-T"])
    );
}

#[test]
fn options_with_port_config_and_extras() {
    let mut s = Ssh::new(None, "h".to_string());
    s.set_port(2200);
    s.set_ssh_config("/etc/ssh/cfg".to_string());
    s.set_extra_ssh_options(strings(&["-v"]));
    assert_eq!(
        s.ssh_options(&None, false),
        strings(&[
            "-v",
            "-o",
            "StrictHostKeyChecking=accept-new",
            "-o",
            "BatchMode=yes",
            "-T",
            "-p",
            "2200",
            "-F",
            "/etc/ssh/cfg"
        ])
    );
}

#[test]
fn iap_host_uses_generated_config() {
    let mut s = Ssh::new(None, "web".to_string());
    s.set_provider(Provider::Gcp { project: Some("proj".to_string()), zone: Some("z1".to_string()), iap: true });
    s.set_ssh_config("/etc/ssh/cfg".to_string());
    let (path, content) = s.iap_config().unwrap();
    assert_eq!(path, "/tmp/navi-ssh-iap-web.conf");
    assert_eq!(
        content,
        "Host *\n  ProxyCommand gcloud compute start-iap-tunnel %h %p --listen-on-stdin --project=proj --zone=z1 --quiet\n"
    );
    let opts = s.ssh_options(&None, true);
    assert_eq!(&opts[opts.len() - 2..], &strings(&["-F", "/tmp/navi-ssh-iap-web.conf"])[..]);
    let fallback = s.ssh_options(&None, false);
    assert_eq!(&fallback[fallback.len() - 2..], &strings(&["-F", "/etc/ssh/cfg"])[..]);
    assert!(Ssh::new(None, "x".to_string()).iap_config().is_none());
}

#[test]
fn hw_link_binding_in_options() {
    let mut s = Ssh::new(None, "h".to_string());
    s.set_force_hw_link(true);
    assert!(s.needs_hw_binding());
    let opts = s.ssh_options(&Some("enp3s0".to_string()), false);
    assert_eq!(&opts[..2], &strings(&["-o", "ProxyCommand=sudo socat - TCP:%h:%p,bindtodevice=enp3s0"])[..]);
    let blocked = s.ssh_options(&None, false);
    assert_eq!(&blocked[..2], &strings(&["-o", "ProxyCommand=false"])[..]);
    s.set_extra_ssh_options(strings(&["-o", "ProxyCommand=nc %h %p"]));
    assert!(!s.needs_hw_binding());
    assert_eq!(s.ssh_options(&Some("enp3s0".to_string()), false)[1], "ProxyCommand=nc %h %p");
}

#[test]
fn proxy_option_detection() {
    assert!(has_proxy_option(&strings(&["-o", "ProxyCommand=x"])));
    assert!(!has_proxy_option(&strings(&["ProxyCommand=x", "-o"])));
    assert!(!has_proxy_option(&vec![]));
}

#[test]
fn interface_patterns() {
    assert_eq!(hw_link_patterns(&None), strings(&["enp", "wlp"]));
    assert_eq!(hw_link_patterns(&Some(strings(&["eth"]))), strings(&["eth"]));
    assert!(interface_allowed("enp3s0", &strings(&["enp", "wlp"])));
    assert!(!interface_allowed("tailscale0", &strings(&["enp", "wlp"])));
}

#[test]
fn route_and_link_parsing() {
    assert_eq!(
        route_device_of("10.0.0.5 via 192.168.1.1 dev enp3s0 src 192.168.1.20 uid 1000"),
        Some("enp3s0".to_string())
    );
    assert_eq!(route_device_of("10.0.0.5 dev"), None);
    assert_eq!(route_device_of("unreachable"), None);
    assert_eq!(trim_end_char_str("eth0::", ':'), "eth0");
    assert_eq!(link_line_interface("2: enp3s0: <BROADCAST,UP> mtu 1500"), Some("enp3s0".to_string()));
    assert_eq!(link_line_interface("x"), None);
}

#[test]
fn interface_selection() {
    let pats = strings(&["enp", "wlp"]);
    let links = "1: lo: <LOOPBACK,UP>\n3: tailscale0: <UP>\n4: wlp2s0: <UP>\n";
    assert_eq!(first_allowed_interface(links, &pats), Some("wlp2s0".to_string()));
    assert_eq!(select_interface(Some("1.2.3.4 dev enp1s0 src x"), Some(links), &pats), Some("enp1s0".to_string()));
    assert_eq!(select_interface(Some("1.2.3.4 dev tailscale0 src x"), Some(links), &pats), Some("wlp2s0".to_string()));
    assert_eq!(select_interface(None, None, &pats), None);
    assert_eq!(select_interface(None, Some("1: lo: <UP>\n"), &pats), None);
}

#[test]
fn binding_options() {
    assert_eq!(binding_option_pair(&None), strings(&["-o", "ProxyCommand=false"]));
    let mut s = Ssh::new(None, "h".to_string());
    s.set_extra_ssh_options(strings(&["-v"]));
    s.apply_hw_link_binding(&Some("eth1".to_string()));
    assert_eq!(
        s.extra_ssh_options,
        strings(&["-v", "-o", "ProxyCommand=sudo socat - TCP:%h:%p,bindtodevice=eth1"])
    );
}

#[test]
fn initrd_connection() {
    let mut s = Ssh::new(Some("admin".to_string()), "web".to_string());
    s.set_port(22);
    s.set_extra_ssh_options(strings(&["-v"]));
    let mut cfg = DiskUnlockConfig::default();
    cfg.host = Some("10.9.9.9".to_string());
    cfg.ssh_options = strings(&["-o", "ConnectTimeout=5"]);
    cfg.ignore_ssh_config = true;
    cfg.ignore_host_key_check = true;
    cfg.force_hw_link = true;
    s.configure_for_initrd(&cfg, &Some("enp1s0".to_string()));
    assert_eq!(s.host, "10.9.9.9");
    assert_eq!(s.port, Some(2222));
    assert_eq!(s.user, Some("admin".to_string()));
    assert_eq!(s.ssh_config, Some("/dev/null".to_string()));
    assert_eq!(
        s.extra_ssh_options,
        strings(&[
            "-o",
            "ProxyCommand=sudo socat - TCP:%h:%p,bindtodevice=enp1s0",
            "-o",
            "ConnectTimeout=5",
            "-o",
            "UserKnownHostsFile=/dev/null",
            "-o",
            "StrictHostKeyChecking=no"
        ])
    );
}

#[test]
fn initrd_connection_defaults() {
    let mut s = Ssh::new(None, "web".to_string());
    s.configure_for_initrd(&DiskUnlockConfig::default(), &None);
    assert_eq!(s.host, "web");
    assert_eq!(s.port, Some(2222));
    assert_eq!(s.user, None);
    assert_eq!(s.ssh_config, None);
    assert!(s.extra_ssh_options.is_empty());
}

#[test]
fn remote_command_lines() {
    let mut s = Ssh::new(Some("admin".to_string()), "h".to_string());
    s.set_privilege_escalation_command(strings(&["sudo", "-H"]));
    let (args, env) = s.ssh_command(&None, false, &strings(&["reboot"]));
    assert_eq!(
        args,
        strings(&["-o", "StrictHostKeyChecking=accept-new", "-o", "BatchMode=yes", "-T", "admin@h", "--", "sudo", "-H", "reboot"])
    );
    assert_eq!(env, "-o StrictHostKeyChecking=accept-new -o BatchMode=yes -T");
    let root = Ssh::new(Some("root".to_string()), "h".to_string());
    let mut root = root;
    root.set_privilege_escalation_command(strings(&["sudo"]));
    let (rargs, _) = root.ssh_command(&None, false, &strings(&["true"]));
    assert_eq!(&rargs[rargs.len() - 3..], &strings(&["root@h", "--", "true"])[..]);
}

#[test]
fn unlock_and_probe_hosts() {
    let s = Ssh::new(None, "h".to_string());
    let cfg = DiskUnlockConfig::default();
    let cmd = s.unlock_command(&cfg, &None, false);
    assert_eq!(cmd[cmd.len() - 3..].to_vec(), strings(&["h", "--", "zpool import -a; zfs load-key -a && (killall zfs || true)"]));
    let probe = s.initrd_probe(&cfg, &None);
    assert_eq!(probe.port, Some(2222));
    assert_eq!(probe.extra_ssh_options, strings(&["-o", "ConnectTimeout=2", "-o", "ConnectionAttempts=1"]));
    assert_eq!(s.port, None);
}

#[test]
fn provenance_reads() {
    let s = Ssh::new(None, "h".to_string());
    assert_eq!(
        s.provenance_read_command(&None, false),
        strings(&[
            "-o",
            "StrictHostKeyChecking=accept-new",
            "-o",
            "BatchMode=yes",
            "-T",
            "-o",
            "ConnectTimeout=5",
            "h",
            "--",
            "cat",
            "/etc/navi/provenance.json"
        ])
    );
    let mut g = Ssh::new(None, "g".to_string());
    g.set_provider(Provider::Gcp { project: None, zone: None, iap: false });
    assert_eq!(
        g.provenance_read_command(&None, false),
        strings(&[
            "-o",
            "ConnectTimeout=5",
            "-o",
            "StrictHostKeyChecking=accept-new",
            "-o",
            "BatchMode=yes",
            "-T",
            "g",
            "--",
            "cat",
            "/etc/navi/provenance.json"
        ])
    );
}

#[test]
fn reboot_decisions() {
    let mut cfg = DiskUnlockConfig::default();
    assert!(!should_try_unlock(&Some(DiskUnlockConfig::default()), false));
    cfg.enable = true;
    let some = Some(cfg);
    assert!(should_try_unlock(&some, false));
    assert!(!should_try_unlock(&some, true));
    assert!(!should_try_unlock(&None, false));
    assert!(rebooted("a", &Some("b".to_string())));
    assert!(!rebooted("a", &Some("a".to_string())));
    assert!(!rebooted("a", &None));
    assert_eq!(
        unlock_failure_message("exit status: 1", " killall: no process\n"),
        "Remote command exited with status: exit status: 1. Stderr: killall: no process"
    );
}

#[test]
fn hosts_keep_their_kind() {
    match Ssh::new(None, "h".to_string()).upcast() {
        Host::Ssh(s) => assert_eq!(s.host, "h"),
        Host::Local(_) => panic!("an SSH host came back local"),
    }
    assert!(matches!(Local::new(NixFlags::default()).upcast(), Host::Local(_)));
}

#[test]
fn serial_console_on_gcp_only() {
    let mut s = Ssh::new(None, "vm-1".to_string());
    assert_eq!(s.serial_console_command(), None);
    s.set_provider(Provider::Gcp { project: Some("proj".to_string()), zone: None, iap: true });
    assert_eq!(
        s.serial_console_command(),
        Some(strings(&["compute", "connect-to-serial-port", "vm-1", "--project=proj"]))
    );
}
