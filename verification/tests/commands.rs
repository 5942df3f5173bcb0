use navi::commands::{killall_hint, unlock_binding_address};
use navi::commands::{disk_unlock_host, session_ssh_args, UnlockRefusal};
use navi::nix::NodeConfig;

fn strings(xs: &[&str]) -> Vec<String> {
    xs.iter().map(|s| s.to_string()).collect()
}

#[test]
fn interactive_session_forces_a_terminal() {
    let opts = strings(&["-o", "BatchMode=yes", "-T"]);
    assert_eq!(session_ssh_args(&opts, "root@h", &vec![]), strings(&["-t", "-o", "BatchMode=yes", "root@h"]));
}

#[test]
fn session_with_command_keeps_options() {
    let opts = strings(&["-o", "BatchMode=yes", "-T"]);
    assert_eq!(
        session_ssh_args(&opts, "root@h", &strings(&["uptime", "-p"])),
        strings(&["-o", "BatchMode=yes", "-T", "root@h", "uptime", "-p"])
    );
}

#[test]
fn unlock_refusals() {
    assert_eq!(disk_unlock_host(&None, &None).err(), Some(UnlockRefusal::NotFound));
    let mut c = NodeConfig::default();
    c.target_host = Some("10.0.0.1".to_string());
    assert_eq!(disk_unlock_host(&Some(c), &None).err(), Some(UnlockRefusal::NotEnabled));
    let mut c = NodeConfig::default();
    c.unlock.enable = true;
    assert_eq!(disk_unlock_host(&Some(c), &None).err(), Some(UnlockRefusal::NoTarget));
    assert_eq!(UnlockRefusal::NotFound.message("web"), "Node 'web' not found in configuration");
    assert_eq!(UnlockRefusal::NoTarget.message("web"), "Node does not have an SSH target configured");
}

#[test]
fn unlock_host_targets_the_initrd() {
    let mut c = NodeConfig::default();
    c.target_host = Some("10.0.0.1".to_string());
    c.target_user = Some("admin".to_string());
    c.unlock.enable = true;
    c.unlock.user = Some("root".to_string());
    c.unlock.ignore_host_key_check = true;
    let h = disk_unlock_host(&Some(c), &None).unwrap();
    assert_eq!(h.host, "10.0.0.1");
    assert_eq!(h.port, Some(2222));
    assert_eq!(h.user.as_deref(), Some("root"));
    assert_eq!(
        h.extra_ssh_options,
        strings(&["-o", "UserKnownHostsFile=/dev/null", "-o", "StrictHostKeyChecking=no"])
    );
}

#[test]
fn unlock_binding_and_hint() {
    let mut c = NodeConfig::default();
    c.target_host = Some("10.0.0.1".to_string());
    assert_eq!(unlock_binding_address(&c), None);
    c.unlock.force_hw_link = true;
    assert_eq!(unlock_binding_address(&c).as_deref(), Some("10.0.0.1"));
    c.unlock.host = Some("10.0.0.9".to_string());
    assert_eq!(unlock_binding_address(&c).as_deref(), Some("10.0.0.9"));
    assert!(killall_hint("zfs load-key -a && killall zfs").is_some());
    assert_eq!(killall_hint("cryptsetup open"), None);
}
