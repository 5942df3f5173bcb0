//! What the one-shot commands decide before they hand over to `ssh`: the
//! arguments of an SSH session and the host that unlocks a node's disk.
use vstd::prelude::*;
use vstd::string::*;

use crate::events::interactive_ssh_args;
use crate::nix::{opt_view, provider_of, views, NodeConfig};
use crate::ssh::{binding_options, extend_strings, push_str, Ssh};
use crate::text::{concat3, contains_str, has_infix, owned};

verus! {

/// The arguments of `ssh` for `navi ssh`: with no command, an interactive
/// session (a terminal forced, `-T` dropped from the options); else the
/// options, the target and the command as given.
pub open spec fn session_args(options: Seq<Seq<char>>, target: Seq<char>, command: Seq<Seq<char>>) -> Seq<Seq<char>> {
    if command.len() == 0 {
        seq!["-t"@] + options.filter(|o: Seq<char>| o != "-T"@) + seq![target]
    } else {
        options + seq![target] + command
    }
}

/// The arguments of `ssh` for `navi ssh` (see [`session_args`]).
pub fn session_ssh_args(options: &Vec<String>, target: &str, command: &Vec<String>) -> (r: Vec<String>)
    ensures
        views(r@) == session_args(views(options@), target@, views(command@)),
{
    if command.len() == 0 {
        interactive_ssh_args(options, target)
    } else {
        let mut r = crate::nix::clone_strings(options);
        let ghost o = views(r@);
        push_str(&mut r, target);
        let ghost rv = r@;
        extend_strings(&mut r, command);
        assert(views(r@) =~= views(rv) + views(command@));
        assert(views(r@) =~= o + seq![target@] + views(command@));
        r
    }
}

/// Why `navi disk-unlock` refuses a node.
#[derive(Debug, Clone, Copy, PartialEq, Eq, Structural)]
pub enum UnlockRefusal {
    /// The node is not in the configuration.
    NotFound,
    /// The node does not enable disk unlocking.
    NotEnabled,
    /// The node has no SSH target.
    NoTarget,
}

impl UnlockRefusal {
    /// The message shown for node `node`.
    pub fn message(&self, node: &str) -> (r: String)
        ensures
            r@ == match *self {
                UnlockRefusal::NotFound => "Node '"@ + node@ + "' not found in configuration"@,
                UnlockRefusal::NotEnabled => "Disk unlocking is not enabled for node '"@ + node@
                    + "'. Set 'deployment.unlock.enable = true;' in your configuration to use this command."@,
                UnlockRefusal::NoTarget => "Node does not have an SSH target configured"@,
            },
    {
        match self {
            UnlockRefusal::NotFound => concat3("Node '", node, "' not found in configuration"),
            UnlockRefusal::NotEnabled => concat3(
                "Disk unlocking is not enabled for node '",
                node,
                "'. Set 'deployment.unlock.enable = true;' in your configuration to use this command.",
            ),
            UnlockRefusal::NoTarget => owned("Node does not have an SSH target configured"),
        }
    }
}

/// `h` is the SSH host of `c` set up for its initrd: the unlock address, port
/// and user where given, the binding options (where the unlock settings ask
/// for one), the unlock options and, where asked, no host key checks.
pub open spec fn initrd_host(h: Ssh, c: NodeConfig, hw_iface: Option<Seq<char>>) -> bool {
    &&& h.host == (match c.unlock.host {
        Some(x) => x,
        None => c.target_host->0,
    })
    &&& h.port == Some(c.unlock.port)
    &&& h.user == (match c.unlock.user {
        Some(u) => Some(u),
        None => c.target_user,
    })
    &&& views(h.extra_ssh_options@) == (if c.unlock.force_hw_link || c.unlock.interfaces is Some {
        binding_options(hw_iface)
    } else {
        Seq::empty()
    }) + views(c.unlock.ssh_options@) + (if c.unlock.ignore_host_key_check {
        seq!["-o"@, "UserKnownHostsFile=/dev/null"@, "-o"@, "StrictHostKeyChecking=no"@]
    } else {
        Seq::empty()
    })
    &&& opt_view(h.ssh_config) == (if c.unlock.ignore_ssh_config {
        Some("/dev/null"@)
    } else {
        None
    })
    &&& h.privilege_escalation_command@ == c.privilege_escalation_command@
    &&& h.provider@ == provider_of(c)
}

/// The host that `navi disk-unlock` connects to for a node with configuration
/// `config` (`None` where the node is unknown); `hw_iface` is the interface
/// chosen for binding.
pub fn disk_unlock_host(config: &Option<NodeConfig>, hw_iface: &Option<String>) -> (r: Result<Ssh, UnlockRefusal>)
    ensures
        match *config {
            None => r == Err::<Ssh, UnlockRefusal>(UnlockRefusal::NotFound),
            Some(c) => if !c.unlock.enable {
                r == Err::<Ssh, UnlockRefusal>(UnlockRefusal::NotEnabled)
            } else if c.target_host is None {
                r == Err::<Ssh, UnlockRefusal>(UnlockRefusal::NoTarget)
            } else {
                r matches Ok(h) && initrd_host(h, c, opt_view(*hw_iface))
            },
        },
{
    match config {
        None => Err(UnlockRefusal::NotFound),
        Some(c) => {
            if !c.unlock.enable {
                return Err(UnlockRefusal::NotEnabled);
            }
            match c.to_ssh_host() {
                None => Err(UnlockRefusal::NoTarget),
                Some(mut host) => {
                    host.configure_for_initrd(&c.unlock, hw_iface);
                    Ok(host)
                },
            }
        },
    }
}

/// The address whose route picks the interface that an unlock connection is
/// bound to: where the unlock settings ask for a binding, the unlock address,
/// else the node's target host; none where no binding is asked or no address
/// is known.
pub fn unlock_binding_address(config: &NodeConfig) -> (r: Option<String>)
    ensures
        opt_view(r) == (if config.unlock.force_hw_link || config.unlock.interfaces is Some {
            match config.unlock.host {
                Some(h) => Some(h@),
                None => opt_view(config.target_host),
            }
        } else {
            None
        }),
{
    if config.unlock.force_hw_link || config.unlock.interfaces.is_some() {
        match &config.unlock.host {
            Some(h) => Some(owned(h.as_str())),
            None => match &config.target_host {
                Some(t) => Some(owned(t.as_str())),
                None => None,
            },
        }
    } else {
        None
    }
}

/// The hint shown when an unlock command that ends with `killall` fails: its
/// failure may only mean that no process was left to kill.
pub open spec fn killall_hint_text() -> Seq<char> {
    "The remote command exited with an error. If 'zfs load-key' succeeded, this error might be due to 'killall' failing to find a process, which is harmless."@
}

/// The hint for a failed unlock command `remote_command`, where it runs `killall`.
pub fn killall_hint(remote_command: &str) -> (r: Option<&'static str>)
    ensures
        match r {
            Some(h) => h@ == killall_hint_text() && has_infix(remote_command@, "killall"@),
            None => !has_infix(remote_command@, "killall"@),
        },
{
    if contains_str(remote_command, "killall") {
        Some("The remote command exited with an error. If 'zfs load-key' succeeded, this error might be due to 'killall' failing to find a process, which is harmless.")
    } else {
        None
    }
}

} // verus!
