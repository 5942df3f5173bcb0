//! Installing NixOS with nixos-anywhere: where to connect, what to hand it,
//! and which nodes still need it.
use vstd::prelude::*;
use vstd::string::*;

use crate::nix::{opt_view, provider_of, views, NixosAnywhereConfig, NodeConfig, NodeName, ProviderView, ProvisionerConfig, ProvisionerType};
use crate::ssh::{extend_strings, push_str, push_string, ssh_options_spec, Ssh};
use crate::text::{concat2, concat3, has_prefix, lines, lines_seq, owned, str_eq, strip_prefix_str, substring, trim_seq, trim_str};

verus! {

/// The release of kexec images used where none is configured; `{}` stands for the system.
pub const DEFAULT_KEXEC_URL_TEMPLATE: &'static str = "https://github.com/nix-community/nixos-images/releases/download/nixos-25.05/nixos-kexec-installer-noninteractive-{}.tar.gz";

/// `s` with every occurrence of the non-empty `pat`, from left to right, made `with`.
pub open spec fn replace_all(s: Seq<char>, pat: Seq<char>, with: Seq<char>) -> Seq<char>
    decreases s.len(),
{
    if s.len() == 0 || pat.len() == 0 {
        s
    } else if has_prefix(s, pat) {
        with + replace_all(s.subrange(pat.len() as int, s.len() as int), pat, with)
    } else {
        seq![s[0]] + replace_all(s.drop_first(), pat, with)
    }
}

/// `s` with every occurrence of `pat` made `with` (see [`replace_all`]).
pub fn replace_str(s: &str, pat: &str, with: &str) -> (r: String)
    requires
        pat@.len() > 0,
    ensures
        r@ == replace_all(s@, pat@, with@),
{
    let n = s.unicode_len();
    let m = pat.unicode_len();
    let mut out = String::new();
    let mut i: usize = 0;
    assert(s@.subrange(0, n as int) =~= s@);
    while i < n
        invariant
            i <= n,
            n == s@.len(),
            m == pat@.len(),
            m > 0,
            out@ + replace_all(s@.subrange(i as int, n as int), pat@, with@) == replace_all(s@, pat@, with@),
        decreases n - i,
    {
        let ghost rest = s@.subrange(i as int, n as int);
        if n - i >= m && crate::text::str_eq(s.substring_char(i, i + m), pat) {
            assert(rest.subrange(0, m as int) =~= s@.subrange(i as int, i + m));
            assert(rest.subrange(m as int, rest.len() as int) =~= s@.subrange(i + m, n as int));
            out.append(with);
            assert(out@ + replace_all(s@.subrange(i + m, n as int), pat@, with@) =~= replace_all(s@, pat@, with@));
            i = i + m;
        } else {
            assert(!has_prefix(rest, pat@)) by {
                if has_prefix(rest, pat@) {
                    assert(rest.subrange(0, m as int) =~= s@.subrange(i as int, i + m));
                }
            }
            let c = s.substring_char(i, i + 1);
            assert(c@ =~= seq![rest[0]]);
            out.append(c);
            assert(rest.drop_first() =~= s@.subrange(i + 1, n as int));
            assert(out@ + replace_all(s@.subrange(i + 1, n as int), pat@, with@) =~= replace_all(s@, pat@, with@));
            i = i + 1;
        }
    }
    assert(replace_all(s@.subrange(n as int, n as int), pat@, with@) =~= Seq::<char>::empty());
    assert(out@ =~= replace_all(s@, pat@, with@));
    out
}

/// The kexec image of a system: the template with `{}` made the system.
pub fn kexec_url(template: &str, system: &str) -> (r: String)
    ensures
        r@ == replace_all(template@, "{}"@, system@),
{
    proof {
        reveal_strlit("{}");
    }
    replace_str(template, "{}", system)
}

/// Where the kexec image of a node is kept.
pub fn kexec_path(node: &str, system: &str) -> (r: String)
    ensures
        r@ == "/tmp/nixos-kexec-"@ + node@ + "-"@ + system@ + ".tar.gz"@,
{
    let mut r = concat3("/tmp/nixos-kexec-", node, "-");
    r.append(system);
    r.append(".tar.gz");
    r
}

/// The expression that gives a node's system.
pub fn node_system_expr(node: &str) -> (r: String)
    ensures
        r@ == "x: x.nodes.\""@ + node@ + "\".pkgs.system"@,
{
    concat3("x: x.nodes.\"", node, "\".pkgs.system")
}

/// The host nixos-anywhere connects to: through an IAP tunnel, the instance
/// (the node's target host, or its name); otherwise the address from the outputs.
pub open spec fn install_host(node: Seq<char>, ip: Seq<char>, config: Option<NodeConfig>) -> Seq<char> {
    match config {
        Some(c) => match provider_of(c) {
            ProviderView::Gcp { iap, .. } => if iap {
                match c.target_host {
                    Some(h) => h@,
                    None => node,
                }
            } else {
                ip
            },
            ProviderView::Ssh => ip,
        },
        None => ip,
    }
}

/// The host nixos-anywhere connects to (see [`install_host`]).
pub fn install_ssh_host(node: &str, ip: &str, config: Option<&NodeConfig>) -> (r: String)
    ensures
        r@ == install_host(node@, ip@, match config {
            Some(c) => Some(*c),
            None => None,
        }),
{
    match config {
        Some(c) => {
            let p = c.get_provider();
            match p {
                crate::nix::Provider::Gcp { iap, .. } => if iap {
                    match &c.target_host {
                        Some(h) => owned(h.as_str()),
                        None => owned(node),
                    }
                } else {
                    owned(ip)
                },
                crate::nix::Provider::Ssh => owned(ip),
            }
        },
        None => owned(ip),
    }
}

/// The user nixos-anywhere logs in as: the one configured for the
/// installation, else the node's target user, else `root`.
pub fn install_user(na: &NixosAnywhereConfig, config: Option<&NodeConfig>) -> (r: String)
    ensures
        r@ == match na.ssh_user {
            Some(u) => u@,
            None => match config {
                Some(c) => match c.target_user {
                    Some(u) => u@,
                    None => "root"@,
                },
                None => "root"@,
            },
        },
{
    match &na.ssh_user {
        Some(u) => owned(u.as_str()),
        None => match config {
            Some(c) => match &c.target_user {
                Some(u) => owned(u.as_str()),
                None => owned("root"),
            },
            None => owned("root"),
        },
    }
}

/// The flake attribute installed on a node.
pub fn flake_ref(node: &str) -> (r: String)
    ensures
        r@ == ".#"@ + node@,
{
    concat2(".#", node)
}

/// nixos-anywhere's arguments for `ssh`'s `-o`, `-p` and `-i` options taken in
/// pairs; `-F` contributes nothing here and other words are dropped.
pub open spec fn translated(opts: Seq<Seq<char>>) -> Seq<Seq<char>>
    decreases opts.len(),
{
    if opts.len() == 0 {
        Seq::empty()
    } else if opts.len() >= 2 && (opts[0] == "-o"@ || opts[0] == "-p"@ || opts[0] == "-i"@ || opts[0] == "-F"@) {
        (if opts[0] == "-o"@ {
            seq!["--ssh-option"@, opts[1]]
        } else if opts[0] == "-p"@ {
            seq!["--ssh-port"@, opts[1]]
        } else if opts[0] == "-i"@ {
            seq!["-i"@, opts[1]]
        } else {
            Seq::empty()
        }) + translated(opts.subrange(2, opts.len() as int))
    } else {
        translated(opts.drop_first())
    }
}

/// The `-F` configuration file among `ssh`'s options, the last one given.
pub open spec fn config_file_of(opts: Seq<Seq<char>>) -> Option<Seq<char>>
    decreases opts.len(),
{
    if opts.len() == 0 {
        None
    } else if opts.len() >= 2 && (opts[0] == "-o"@ || opts[0] == "-p"@ || opts[0] == "-i"@ || opts[0] == "-F"@) {
        match config_file_of(opts.subrange(2, opts.len() as int)) {
            Some(f) => Some(f),
            None => if opts[0] == "-F"@ { Some(opts[1]) } else { None },
        }
    } else {
        config_file_of(opts.drop_first())
    }
}

/// nixos-anywhere's arguments for `ssh`'s options (see [`translated`]) and the
/// `-F` configuration file, which is handed over separately.
pub fn populate_ssh_args(opts: &Vec<String>) -> (r: (Vec<String>, Option<String>))
    ensures
        views(r.0@) == translated(views(opts@)),
        opt_view(r.1) == config_file_of(views(opts@)),
{
    let ghost all = views(opts@);
    let mut out: Vec<String> = Vec::new();
    let mut file: Option<String> = None;
    let mut i: usize = 0;
    let n = opts.len();
    assert(all.subrange(0, n as int) =~= all);
    while i < n
        invariant
            i <= n,
            n == opts@.len(),
            all == views(opts@),
            views(out@) + translated(all.subrange(i as int, n as int)) == translated(all),
            config_file_of(all) == match config_file_of(all.subrange(i as int, n as int)) {
                Some(f) => Some(f),
                None => opt_view(file),
            },
        decreases n - i,
    {
        let ghost rest = all.subrange(i as int, n as int);
        assert(rest[0] == opts@[i as int]@);
        proof {
            reveal_strlit("-o");
            reveal_strlit("-p");
            reveal_strlit("-i");
            reveal_strlit("-F");
            assert("-F"@[1] != "-o"@[1] && "-F"@[1] != "-p"@[1] && "-F"@[1] != "-i"@[1]);
            assert("-o"@[1] != "-p"@[1] && "-o"@[1] != "-i"@[1] && "-p"@[1] != "-i"@[1]);
        }
        let w = opts[i].as_str();
        let flag = str_eq(w, "-o") || str_eq(w, "-p") || str_eq(w, "-i") || str_eq(w, "-F");
        if flag && n - i >= 2 {
            assert(rest[1] == opts@[i + 1]@);
            assert(rest.subrange(2, rest.len() as int) =~= all.subrange(i + 2, n as int));
            let v = opts[i + 1].as_str();
            let ghost before = views(out@);
            let ghost old_file = file;
            if str_eq(w, "-o") {
                push_str(&mut out, "--ssh-option");
                push_string(&mut out, owned(v));
                assert(views(out@) =~= before + seq!["--ssh-option"@, rest[1]]);
            } else if str_eq(w, "-p") {
                push_str(&mut out, "--ssh-port");
                push_string(&mut out, owned(v));
                assert(views(out@) =~= before + seq!["--ssh-port"@, rest[1]]);
            } else if str_eq(w, "-i") {
                push_str(&mut out, "-i");
                push_string(&mut out, owned(v));
                assert(views(out@) =~= before + seq!["-i"@, rest[1]]);
            } else {
                assert(views(out@) =~= before + Seq::<Seq<char>>::empty());
                file = Some(owned(v));
            }
            assert(views(out@) + translated(all.subrange(i + 2, n as int)) =~= translated(all));
            assert(config_file_of(rest) == match config_file_of(all.subrange(i + 2, n as int)) {
                Some(f) => Some(f),
                None => if rest[0] == "-F"@ { Some(rest[1]) } else { None },
            });
            assert(rest[0] == "-F"@ ==> opt_view(file) == Some(rest[1]));
            assert(rest[0] != "-F"@ ==> opt_view(file) == opt_view(old_file));
            assert(config_file_of(all) == match config_file_of(all.subrange(i + 2, n as int)) {
                Some(f) => Some(f),
                None => opt_view(file),
            });
            i = i + 2;
        } else {
            assert(rest.drop_first() =~= all.subrange(i + 1, n as int));
            assert(config_file_of(rest) == config_file_of(all.subrange(i + 1, n as int)));
            i = i + 1;
        }
    }
    assert(translated(all.subrange(n as int, n as int)) =~= Seq::<Seq<char>>::empty());
    assert(views(out@) =~= translated(all));
    (out, file)
}

/// The script that stands for a `ProxyCommand` line of an ssh configuration:
/// the command with `%h` and `%p` made the script's arguments.
pub open spec fn proxy_script(line: Seq<char>) -> Option<Seq<char>> {
    let t = trim_seq(line);
    if has_prefix(t, "ProxyCommand "@) {
        let c = t.subrange(13, t.len() as int);
        Some("#!/bin/sh\n"@ + replace_all(replace_all(c, "%h"@, "$1"@), "%p"@, "$2"@) + "\n"@)
    } else {
        None
    }
}

/// The wrapper script for a line of an ssh configuration (see [`proxy_script`]).
pub fn proxy_wrapper(line: &str) -> (r: Option<String>)
    ensures
        opt_view(r) == proxy_script(line@),
{
    let t = trim_str(line);
    proof {
        reveal_strlit("ProxyCommand ");
    }
    match strip_prefix_str(t.as_str(), "ProxyCommand ") {
        Some(c) => {
            proof {
                reveal_strlit("%h");
                reveal_strlit("%p");
            }
            let a = replace_str(c.as_str(), "%h", "$1");
            let b = replace_str(a.as_str(), "%p", "$2");
            Some(concat3("#!/bin/sh\n", b.as_str(), "\n"))
        },
        None => None,
    }
}

/// The ssh option that runs the wrapper script at `path` as proxy.
pub fn proxy_option(path: &str) -> (r: String)
    ensures
        r@ == "ProxyCommand='"@ + path@ + "' %h %p"@,
{
    concat3("ProxyCommand='", path, "' %h %p")
}

/// What a failed connection attempt while waiting for a node shows.
#[derive(Debug)]
pub enum WaitStep {
    /// The login was refused too often: give up on the node.
    SoftLocked,
    /// The login was refused; try again.
    Denied(u32),
    /// The cloud does not know the instance yet.
    LookupPending,
    /// The tunnel cannot reach the instance yet.
    BackendPending,
    /// Another error, by its first line (`Unknown error` where there is none).
    Other(String),
}

/// The first line of an error, without `ERROR: ` and surrounding whitespace.
pub open spec fn clean_first_line(err: Seq<char>) -> Seq<char> {
    let c = trim_seq(crate::install::replace_all(err, "ERROR: "@, ""@));
    let ls = lines_seq(c);
    if ls.len() > 0 { trim_seq(ls[0]) } else { "Unknown error"@ }
}

/// The step after a failed attempt with error output `err`, after `denied`
/// refused logins.
pub fn wait_step(err: &str, denied: u32) -> (r: WaitStep)
    requires
        denied < u32::MAX,
    ensures
        crate::text::has_infix(err@, "Permission denied"@) ==> if denied + 1 >= 5 {
            r is SoftLocked
        } else {
            r == WaitStep::Denied((denied + 1) as u32)
        },
        !crate::text::has_infix(err@, "Permission denied"@) && crate::text::has_infix(err@, "Failed to lookup instance"@) ==> r is LookupPending,
        !crate::text::has_infix(err@, "Permission denied"@) && !crate::text::has_infix(err@, "Failed to lookup instance"@)
            && crate::text::has_infix(err@, "failed to connect to backend"@) ==> r is BackendPending,
        !crate::text::has_infix(err@, "Permission denied"@) && !crate::text::has_infix(err@, "Failed to lookup instance"@)
            && !crate::text::has_infix(err@, "failed to connect to backend"@) ==> (r matches WaitStep::Other(l) && l@ == clean_first_line(err@)),
{
    if crate::text::contains_str(err, "Permission denied") {
        let d = denied + 1;
        if d >= 5 {
            WaitStep::SoftLocked
        } else {
            WaitStep::Denied(d)
        }
    } else if crate::text::contains_str(err, "Failed to lookup instance") {
        WaitStep::LookupPending
    } else if crate::text::contains_str(err, "failed to connect to backend") {
        WaitStep::BackendPending
    } else {
        proof {
            reveal_strlit("ERROR: ");
        }
        let r = replace_str(err, "ERROR: ", "");
        let c = trim_str(r.as_str());
        let ls = lines(c.as_str());
        if ls.len() > 0 {
            assert(ls@.map_values(|t: String| t@)[0] == ls@[0]@);
            WaitStep::Other(trim_str(ls[0].as_str()))
        } else {
            WaitStep::Other(owned("Unknown error"))
        }
    }
}

/// Whether a provisioner's kind can install nodes.
pub fn installs(kind: ProvisionerType) -> (r: bool)
    ensures
        r == (kind == ProvisionerType::Terranix || kind == ProvisionerType::BareMetal),
{
    kind == ProvisionerType::Terranix || kind == ProvisionerType::BareMetal
}

/// What checking a node's provenance over SSH found.
#[derive(Debug, Clone, Copy, PartialEq, Eq, Structural)]
pub enum ProvenanceProbe {
    /// No address for the node in the outputs: it could not be checked.
    NoAddress,
    /// The node holds provenance: it is installed.
    Found,
    /// The node holds none.
    Missing,
    /// The node could not be reached.
    Unreachable,
}

/// Whether a node is installed: unless forced, only where no provenance was found on it.
pub fn should_install(force: bool, reinstall: bool, probe: ProvenanceProbe) -> (r: bool)
    ensures
        r == (force || reinstall || probe != ProvenanceProbe::Found),
{
    force || reinstall || probe != ProvenanceProbe::Found
}


/// How often unlocking a node's disk is tried, five seconds apart.
pub const UNLOCK_ATTEMPTS: u32 = 60;

/// The host that unlocks a node's disk after installation: its SSH host set
/// up for the initrd, with the unlock options and short timeouts as its only
/// extra options. `None` where the node has no target host.
pub fn unlock_host(config: &NodeConfig, hw_iface: &Option<String>) -> (r: Option<Ssh>)
    ensures
        r is Some <==> config.target_host is Some,
        r matches Some(h) ==> {
            &&& h.host == (match config.unlock.host { Some(x) => x, None => config.target_host->0 })
            &&& h.port == Some(config.unlock.port)
            &&& h.user == (match config.unlock.user { Some(u) => Some(u), None => config.target_user })
            &&& views(h.extra_ssh_options@) == views(config.unlock.ssh_options@) + seq![
                "-o"@,
                "ConnectTimeout=5"@,
                "-o"@,
                "ConnectionAttempts=1"@,
            ]
            &&& crate::nix::opt_view(h.ssh_config) == (if config.unlock.ignore_ssh_config { Some("/dev/null"@) } else { None })
            &&& h.provider@ == crate::nix::provider_of(*config)
        },
{
    match config.to_ssh_host() {
        Some(mut host) => {
            host.configure_for_initrd(&config.unlock, hw_iface);
            let mut opts = crate::nix::clone_strings(&config.unlock.ssh_options);
            let ghost o0 = views(opts@);
            crate::ssh::push_str(&mut opts, "-o");
            crate::ssh::push_str(&mut opts, "ConnectTimeout=5");
            crate::ssh::push_str(&mut opts, "-o");
            crate::ssh::push_str(&mut opts, "ConnectionAttempts=1");
            assert(views(opts@) =~= o0 + seq!["-o"@, "ConnectTimeout=5"@, "-o"@, "ConnectionAttempts=1"@]);
            host.set_extra_ssh_options(opts);
            Some(host)
        },
        None => None,
    }
}


/// What `navi install` does with the nodes of a provisioner.
#[derive(Debug, Clone, Copy, PartialEq, Eq, Structural)]
pub enum InstallAction {
    /// The provisioner is not declared: an error.
    NotFound,
    /// Its kind cannot install: the nodes are skipped.
    Unsupported,
    /// nixos-anywhere is not configured for it: skipped.
    NotConfigured,
    /// nixos-anywhere is disabled for it: skipped.
    Disabled,
    /// The nodes are installed.
    Install,
}

/// The place of the first provisioner named `name` in `ps`.
pub open spec fn provisioner_index(ps: Seq<(String, ProvisionerConfig)>, name: Seq<char>) -> Option<int>
    decreases ps.len(),
{
    if ps.len() == 0 {
        None
    } else if ps[0].0@ == name {
        Some(0)
    } else {
        match provisioner_index(ps.drop_first(), name) {
            Some(i) => Some(i + 1),
            None => None,
        }
    }
}

/// What installing does for a provisioner of these settings.
pub open spec fn install_action_of(c: ProvisionerConfig) -> InstallAction {
    if !(c.kind == ProvisionerType::Terranix || c.kind == ProvisionerType::BareMetal) {
        InstallAction::Unsupported
    } else {
        match c.nixos_anywhere {
            None => InstallAction::NotConfigured,
            Some(na) => if na.enable {
                InstallAction::Install
            } else {
                InstallAction::Disabled
            },
        }
    }
}

/// What `navi install` does with the nodes of provisioner `name`: only a
/// declared Terranix or bare-metal provisioner with nixos-anywhere enabled
/// installs.
pub fn install_action(provisioners: &Vec<(String, ProvisionerConfig)>, name: &str) -> (r: InstallAction)
    ensures
        r == match provisioner_index(provisioners@, name@) {
            None => InstallAction::NotFound,
            Some(i) => install_action_of(provisioners@[i].1),
        },
{
    let mut i: usize = 0;
    assert(provisioners@.skip(0) =~= provisioners@);
    while i < provisioners.len()
        invariant
            i <= provisioners@.len(),
            provisioner_index(provisioners@, name@) == match provisioner_index(provisioners@.skip(i as int), name@) {
                Some(k) => Some(k + i),
                None => None,
            },
        decreases provisioners@.len() - i,
    {
        let ghost rest = provisioners@.skip(i as int);
        assert(rest.drop_first() =~= provisioners@.skip(i + 1));
        assert(rest[0] == provisioners@[i as int]);
        if str_eq(provisioners[i].0.as_str(), name) {
            let c = &provisioners[i].1;
            if !installs(c.kind) {
                return InstallAction::Unsupported;
            }
            return match &c.nixos_anywhere {
                None => InstallAction::NotConfigured,
                Some(na) => if na.enable {
                    InstallAction::Install
                } else {
                    InstallAction::Disabled
                },
            };
        }
        i = i + 1;
    }
    proof {
        assert(provisioners@.skip(i as int).len() == 0);
    }
    InstallAction::NotFound
}

/// The options that a provenance probe adds: short timeouts and no host key checks.
pub open spec fn provenance_probe_options() -> Seq<Seq<char>> {
    seq!["-o"@, "ConnectTimeout=5"@, "-o"@, "ConnectionAttempts=1"@, "-o"@, "StrictHostKeyChecking=no"@]
}

/// The host that checks whether node `node` is installed, reached at `ip`: the
/// node's SSH host (or `root` at the address where it has none) moved to the
/// install address of [`install_host`], with the node's provider, and with its
/// SSH options, for the given binding and IAP config, followed by
/// [`provenance_probe_options`] as extra options.
pub fn provenance_probe_host(
    node: &str,
    ip: &str,
    config: Option<&NodeConfig>,
    hw_iface: &Option<String>,
    iap_config_written: bool,
) -> (r: Ssh)
    ensures
        r.host@ == install_host(node@, ip@, match config {
            Some(c) => Some(*c),
            None => None,
        }),
        match config {
            Some(c) => if c.target_host is Some { r.user == c.target_user } else { opt_view(r.user) == Some("root"@) },
            None => opt_view(r.user) == Some("root"@),
        },
        config matches Some(c) ==> r.provider@ == provider_of(*c),
        views(r.extra_ssh_options@) == crate::ssh::ssh_options_with(
            r,
            match config {
                Some(c) => if c.target_host is Some { views(c.extra_ssh_options@) } else { Seq::empty() },
                None => Seq::empty(),
            },
            opt_view(*hw_iface),
            iap_config_written,
        ) + provenance_probe_options(),
{
    let address = install_ssh_host(node, ip, config);
    let mut host = match config {
        Some(c) => match c.to_ssh_host() {
            Some(h) => h,
            None => Ssh::new(Some(owned("root")), owned(address.as_str())),
        },
        None => Ssh::new(Some(owned("root")), owned(address.as_str())),
    };
    host.set_override_address(address);
    if let Some(c) = config {
        host.set_provider(c.get_provider());
    }
    let mut opts = host.ssh_options(hw_iface, iap_config_written);
    let ghost o = views(opts@);
    push_str(&mut opts, "-o");
    push_str(&mut opts, "ConnectTimeout=5");
    push_str(&mut opts, "-o");
    push_str(&mut opts, "ConnectionAttempts=1");
    push_str(&mut opts, "-o");
    push_str(&mut opts, "StrictHostKeyChecking=no");
    assert(views(opts@) =~= o + provenance_probe_options());
    host.set_extra_ssh_options(opts);
    host
}


/// The install address: a node reached through an IAP tunnel is installed by
/// instance name (its target host, else its node name); every other node, and
/// one without settings, at the address taken from the outputs.
pub proof fn lemma_install_address(node: Seq<char>, ip: Seq<char>, config: Option<NodeConfig>)
    ensures
        !(config matches Some(c) && provider_of(c) matches ProviderView::Gcp { iap, .. } && iap) ==> install_host(
            node,
            ip,
            config,
        ) == ip,
        config matches Some(c) && provider_of(c) matches ProviderView::Gcp { iap, .. } && iap ==> install_host(
            node,
            ip,
            config,
        ) == (match config->0.target_host {
            Some(h) => h@,
            None => node,
        }),
{
}

} // verus!
