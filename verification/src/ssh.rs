//! A remote machine connected over SSH: its settings and the SSH options,
//! command lines and proxy configuration derived from them.
use vstd::prelude::*;
use vstd::string::*;

use crate::nix::{clone_opt, clone_strings, opt_view, views, DiskUnlockConfig, Provider, ProviderView};
use crate::text::{
    chars_of, concat2, concat3, decimal, decimal_seq, has_prefix, join_seq, join_strings, lines,
    lines_seq, owned, split_whitespace, starts_with_str, str_eq, substring, ws_tokens,
};

verus! {

/// A remote machine connected over SSH.
#[derive(Debug)]
pub struct Ssh {
    /// The username to use to connect.
    pub user: Option<String>,
    /// The hostname or IP address to connect to.
    pub host: String,
    /// The port to connect to.
    pub port: Option<u16>,
    /// Local path to a ssh_config file.
    pub ssh_config: Option<String>,
    /// Command to elevate privileges with.
    pub privilege_escalation_command: Vec<String>,
    /// Extra SSH options.
    pub extra_ssh_options: Vec<String>,
    /// Whether to use the experimental `nix copy` command.
    pub use_nix3_copy: bool,
    pub provider: Provider,
    /// Force connections through physical interfaces, bypassing overlay networks.
    pub force_hw_link: bool,
    /// Explicit list of allowed interfaces for hw-link binding.
    pub hw_link_interfaces: Option<Vec<String>>,
}

/// `user@host`, or the host alone when no user is set.
pub open spec fn target_of(user: Option<Seq<char>>, host: Seq<char>) -> Seq<char> {
    match user {
        Some(u) => u + "@"@ + host,
        None => host,
    }
}

/// The two options that bind a connection to a physical interface, or that block
/// the connection when no allowed interface was found.
pub open spec fn binding_options(iface: Option<Seq<char>>) -> Seq<Seq<char>> {
    match iface {
        Some(i) => seq!["-o"@, "ProxyCommand=sudo socat - TCP:%h:%p,bindtodevice="@ + i],
        None => seq!["-o"@, "ProxyCommand=false"@],
    }
}

/// Some `-o` option in `opts` is followed by a `ProxyCommand...` value.
pub open spec fn has_proxy_pair(opts: Seq<Seq<char>>) -> bool {
    exists|i: int|
        0 <= i && i + 1 < opts.len() && #[trigger] opts[i] == "-o"@ && has_prefix(
            opts[i + 1],
            "ProxyCommand"@,
        )
}

/// The options every connection gets.
pub open spec fn base_options() -> Seq<Seq<char>> {
    seq!["-o"@, "StrictHostKeyChecking=accept-new"@, "-o"@, "BatchMode=yes"@, "-T"@]
}

/// Arguments of the `gcloud` IAP tunnel used as proxy command.
pub open spec fn iap_proxy_args(project: Option<Seq<char>>, zone: Option<Seq<char>>) -> Seq<Seq<char>> {
    seq!["gcloud"@, "compute"@, "start-iap-tunnel"@, "%h"@, "%p"@, "--listen-on-stdin"@] + (match project {
        Some(p) => seq!["--project="@ + p],
        None => Seq::empty(),
    }) + (match zone {
        Some(z) => seq!["--zone="@ + z],
        None => Seq::empty(),
    }) + seq!["--quiet"@]
}

/// Path of the generated ssh_config file of an IAP host.
pub open spec fn iap_config_path(host: Seq<char>) -> Seq<char> {
    "/tmp/navi-ssh-iap-"@ + host + ".conf"@
}

/// Content of the generated ssh_config file of an IAP host.
pub open spec fn iap_config_content(project: Option<Seq<char>>, zone: Option<Seq<char>>) -> Seq<char> {
    "Host *\n  ProxyCommand "@ + join_seq(iap_proxy_args(project, zone), " "@) + "\n"@
}

/// Body of a single-quoted shell word: each `'` becomes `'\''`.
pub open spec fn quote_body(s: Seq<char>) -> Seq<char>
    decreases s.len(),
{
    if s.len() == 0 {
        Seq::empty()
    } else {
        quote_body(s.drop_last()) + (if s.last() == '\'' {
            "'\\''"@
        } else {
            seq![s.last()]
        })
    }
}

/// `s` as one shell word: quoted when it holds a space or a quote.
pub open spec fn shell_quoted(s: Seq<char>) -> Seq<char> {
    if s.contains(' ') || s.contains('\'') {
        "'"@ + quote_body(s) + "'"@
    } else {
        s
    }
}

/// Quotes `s` for a shell when it holds a space or a single quote.
pub fn shell_quote(s: &str) -> (r: String)
    ensures
        r@ == shell_quoted(s@),
{
    proof {
        reveal_strlit("'");
        reveal_strlit("'\\''");
    }
    let v = chars_of(s);
    let mut needs = false;
    let mut i: usize = 0;
    while i < v.len()
        invariant
            v@ == s@,
            i <= v.len(),
            needs == exists|k: int| 0 <= k < i && (v@[k] == ' ' || v@[k] == '\''),
        decreases v.len() - i,
    {
        if v[i] == ' ' || v[i] == '\'' {
            needs = true;
        }
        i = i + 1;
    }
    if !needs {
        assert(!s@.contains(' ')) by {
            if s@.contains(' ') {
                let k = choose|k: int| 0 <= k < s@.len() && s@[k] == ' ';
                assert(0 <= k < i);
            }
        }
        assert(!s@.contains('\'')) by {
            if s@.contains('\'') {
                let k = choose|k: int| 0 <= k < s@.len() && s@[k] == '\'';
                assert(0 <= k < i);
            }
        }
        return owned(s);
    }
    let mut body = String::new();
    let mut j: usize = 0;
    while j < v.len()
        invariant
            v@ == s@,
            j <= v.len(),
            body@ == quote_body(s@.subrange(0, j as int)),
        decreases v.len() - j,
    {
        assert(s@.subrange(0, j + 1).drop_last() =~= s@.subrange(0, j as int));
        if v[j] == '\'' {
            body.append("'\\''");
        } else {
            let piece = substring(s, j, j + 1);
            assert(piece@ =~= seq![s@[j as int]]);
            body.append(piece.as_str());
        }
        j = j + 1;
    }
    assert(s@.subrange(0, v.len() as int) =~= s@);
    let r = concat3("'", body.as_str(), "'");
    assert(s@.contains(' ') || s@.contains('\'')) by {
        let k = choose|k: int| 0 <= k < i && (v@[k] == ' ' || v@[k] == '\'');
        assert(s@[k] == ' ' || s@[k] == '\'');
    }
    r
}

/// The view of an optional list of strings.
pub open spec fn opt_views(o: Option<Vec<String>>) -> Option<Seq<Seq<char>>> {
    match o {
        Some(v) => Some(views(v@)),
        None => None,
    }
}

/// A copy of an optional list of strings.
pub fn clone_opt_strings(o: &Option<Vec<String>>) -> (r: Option<Vec<String>>)
    ensures
        r is Some <==> o is Some,
        r is Some ==> r->0@ == o->0@,
{
    match o {
        Some(v) => {
            let c = clone_strings(v);
            assert(c@ == v@);
            Some(c)
        },
        None => None,
    }
}

/// Appends the strings of `b` to `a`.
pub fn extend_strings(a: &mut Vec<String>, b: &Vec<String>)
    ensures
        final(a)@ == old(a)@ + b@,
{
    let mut i: usize = 0;
    while i < b.len()
        invariant
            i <= b.len(),
            a@ == old(a)@ + b@.subrange(0, i as int),
        decreases b.len() - i,
    {
        a.push(b[i].clone());
        i = i + 1;
        assert(a@ =~= old(a)@ + b@.subrange(0, i as int));
    }
    assert(b@.subrange(0, b.len() as int) =~= b@);
}

/// Appends `s` to `a`.
pub fn push_string(a: &mut Vec<String>, s: String)
    ensures
        views(final(a)@) == views(old(a)@).push(s@),
{
    let ghost sv = s@;
    a.push(s);
    assert(views(a@) =~= views(old(a)@).push(sv));
}

/// Appends the literal `s` to `a`.
pub fn push_str(a: &mut Vec<String>, s: &str)
    ensures
        views(final(a)@) == views(old(a)@).push(s@),
{
    a.push(owned(s));
    assert(views(a@) =~= views(old(a)@).push(s@));
}

impl Ssh {
    /// A host with default settings.
    pub fn new(user: Option<String>, host: String) -> (r: Self)
        ensures
            r.user == user,
            r.host == host,
            r.port is None,
            r.ssh_config is None,
            r.privilege_escalation_command@.len() == 0,
            r.extra_ssh_options@.len() == 0,
            !r.use_nix3_copy,
            r.provider@ == ProviderView::Ssh,
            !r.force_hw_link,
            r.hw_link_interfaces is None,
    {
        Ssh {
            user,
            host,
            port: None,
            ssh_config: None,
            privilege_escalation_command: Vec::new(),
            extra_ssh_options: Vec::new(),
            use_nix3_copy: false,
            provider: Provider::Ssh,
            force_hw_link: false,
            hw_link_interfaces: None,
        }
    }

    pub fn set_provider(&mut self, provider: Provider)
        ensures
            *final(self) == (Ssh { provider, ..*old(self) }),
    {
        self.provider = provider;
    }

    pub fn set_port(&mut self, port: u16)
        ensures
            *final(self) == (Ssh { port: Some(port), ..*old(self) }),
    {
        self.port = Some(port);
    }

    pub fn set_override_address(&mut self, addr: String)
        ensures
            *final(self) == (Ssh { host: addr, ..*old(self) }),
    {
        self.host = addr;
    }

    pub fn set_user(&mut self, user: String)
        ensures
            *final(self) == (Ssh { user: Some(user), ..*old(self) }),
    {
        self.user = Some(user);
    }

    pub fn set_ssh_config(&mut self, ssh_config: String)
        ensures
            *final(self) == (Ssh { ssh_config: Some(ssh_config), ..*old(self) }),
    {
        self.ssh_config = Some(ssh_config);
    }

    pub fn set_privilege_escalation_command(&mut self, command: Vec<String>)
        ensures
            *final(self) == (Ssh { privilege_escalation_command: command, ..*old(self) }),
    {
        self.privilege_escalation_command = command;
    }

    pub fn set_extra_ssh_options(&mut self, options: Vec<String>)
        ensures
            *final(self) == (Ssh { extra_ssh_options: options, ..*old(self) }),
    {
        self.extra_ssh_options = options;
    }

    pub fn set_use_nix3_copy(&mut self, enable: bool)
        ensures
            *final(self) == (Ssh { use_nix3_copy: enable, ..*old(self) }),
    {
        self.use_nix3_copy = enable;
    }

    pub fn set_force_hw_link(&mut self, enable: bool)
        ensures
            *final(self) == (Ssh { force_hw_link: enable, ..*old(self) }),
    {
        self.force_hw_link = enable;
    }

    pub fn set_hw_link_interfaces(&mut self, interfaces: Option<Vec<String>>)
        ensures
            *final(self) == (Ssh { hw_link_interfaces: interfaces, ..*old(self) }),
    {
        self.hw_link_interfaces = interfaces;
    }

    /// `user@host`, or the host alone.
    pub fn ssh_target(&self) -> (r: String)
        ensures
            r@ == target_of(opt_view(self.user), self.host@),
    {
        match &self.user {
            Some(n) => concat3(n.as_str(), "@", self.host.as_str()),
            None => self.host.clone(),
        }
    }
}

/// Interface prefixes allowed for hardware-link binding: the explicit list, else
/// `enp` and `wlp`.
pub open spec fn allowed_patterns(explicit: Option<Seq<Seq<char>>>) -> Seq<Seq<char>> {
    match explicit {
        Some(e) => e,
        None => seq!["enp"@, "wlp"@],
    }
}

/// `iface` starts with one of the allowed prefixes.
pub open spec fn iface_allowed(iface: Seq<char>, pats: Seq<Seq<char>>) -> bool {
    exists|i: int| 0 <= i < pats.len() && has_prefix(iface, #[trigger] pats[i])
}

/// Index of the first element of `t` equal to `x`.
pub open spec fn first_equal(t: Seq<Seq<char>>, x: Seq<char>) -> Option<int>
    decreases t.len(),
{
    if t.len() == 0 {
        None
    } else if t[0] == x {
        Some(0)
    } else {
        match first_equal(t.drop_first(), x) {
            Some(i) => Some(i + 1),
            None => None,
        }
    }
}

/// The device that `ip route get` reports: the token after the first `dev`.
pub open spec fn route_device(out: Seq<char>) -> Option<Seq<char>> {
    let t = ws_tokens(out);
    match first_equal(t, "dev"@) {
        Some(k) => if t.len() - k > 1 {
            Some(t[k + 1])
        } else {
            None
        },
        None => None,
    }
}

/// `s` without trailing `c` characters (`str::trim_end_matches` with a char).
pub open spec fn trim_end_char(s: Seq<char>, c: char) -> Seq<char>
    decreases s.len(),
{
    if s.len() > 0 && s.last() == c {
        trim_end_char(s.drop_last(), c)
    } else {
        s
    }
}

/// The interface name on a line of `ip -o link show up`: its second token without
/// trailing colons.
pub open spec fn link_line_iface(line: Seq<char>) -> Option<Seq<char>> {
    let t = ws_tokens(line);
    if t.len() >= 2 {
        Some(trim_end_char(t[1], ':'))
    } else {
        None
    }
}

/// The first allowed interface among the lines of `ip -o link show up`.
pub open spec fn first_allowed_link(ls: Seq<Seq<char>>, pats: Seq<Seq<char>>) -> Option<Seq<char>>
    decreases ls.len(),
{
    if ls.len() == 0 {
        None
    } else {
        match link_line_iface(ls[0]) {
            Some(n) => if iface_allowed(n, pats) {
                Some(n)
            } else {
                first_allowed_link(ls.drop_first(), pats)
            },
            None => first_allowed_link(ls.drop_first(), pats),
        }
    }
}

/// The interface to bind to: the route's device when it is allowed, else the first
/// allowed interface that is up. A missing output stands for a command that failed.
pub open spec fn chosen_interface(
    route_out: Option<Seq<char>>,
    link_out: Option<Seq<char>>,
    pats: Seq<Seq<char>>,
) -> Option<Seq<char>> {
    let via_route = match route_out {
        Some(o) => match route_device(o) {
            Some(d) => if iface_allowed(d, pats) {
                Some(d)
            } else {
                None
            },
            None => None,
        },
        None => None,
    };
    match via_route {
        Some(d) => Some(d),
        None => match link_out {
            Some(o) => first_allowed_link(lines_seq(o), pats),
            None => None,
        },
    }
}

/// The allowed interface prefixes.
pub fn hw_link_patterns(explicit: &Option<Vec<String>>) -> (r: Vec<String>)
    ensures
        views(r@) == allowed_patterns(opt_views(*explicit)),
{
    match explicit {
        Some(e) => clone_strings(e),
        None => {
            let mut r: Vec<String> = Vec::new();
            push_str(&mut r, "enp");
            push_str(&mut r, "wlp");
            assert(views(r@) =~= seq!["enp"@, "wlp"@]);
            r
        },
    }
}

/// Whether `iface` starts with one of `patterns`.
pub fn interface_allowed(iface: &str, patterns: &Vec<String>) -> (b: bool)
    ensures
        b == iface_allowed(iface@, views(patterns@)),
{
    let mut i: usize = 0;
    while i < patterns.len()
        invariant
            i <= patterns.len(),
            forall|k: int| 0 <= k < i ==> !has_prefix(iface@, #[trigger] views(patterns@)[k]),
        decreases patterns.len() - i,
    {
        if starts_with_str(iface, patterns[i].as_str()) {
            assert(has_prefix(iface@, views(patterns@)[i as int]));
            return true;
        }
        i = i + 1;
    }
    false
}

/// Index of the first element of `t` that equals `x`.
pub fn first_equal_index(t: &Vec<String>, x: &str) -> (r: Option<usize>)
    ensures
        match r {
            Some(k) => first_equal(views(t@), x@) == Some(k as int) && k < t@.len(),
            None => first_equal(views(t@), x@) is None,
        },
{
    assert(views(t@).subrange(0, t@.len() as int) =~= views(t@));
    let mut i: usize = 0;
    while i < t.len()
        invariant
            i <= t.len(),
            first_equal(views(t@), x@) == match first_equal(views(t@).subrange(i as int, t@.len() as int), x@) {
                Some(k) => Some(k + i),
                None => None,
            },
        decreases t.len() - i,
    {
        let ghost rest = views(t@).subrange(i as int, t@.len() as int);
        assert(rest.drop_first() =~= views(t@).subrange(i + 1, t@.len() as int));
        if str_eq(t[i].as_str(), x) {
            assert(rest[0] == x@);
            return Some(i);
        }
        i = i + 1;
    }
    assert(views(t@).subrange(i as int, t@.len() as int).len() == 0);
    None
}

/// The device reported by `ip route get`.
pub fn route_device_of(output: &str) -> (r: Option<String>)
    ensures
        opt_view(r) == route_device(output@),
{
    let t = split_whitespace(output);
    assert(views(t@) == ws_tokens(output@));
    match first_equal_index(&t, "dev") {
        Some(k) => {
            if t.len() - k > 1 {
                Some(t[k + 1].clone())
            } else {
                None
            }
        },
        None => None,
    }
}

/// `s` without trailing `c` characters.
pub fn trim_end_char_str(s: &str, c: char) -> (r: String)
    ensures
        r@ == trim_end_char(s@, c),
{
    let v = chars_of(s);
    let mut k = v.len();
    assert(s@.subrange(0, k as int) =~= s@);
    while k > 0 && v[k - 1] == c
        invariant
            k <= v.len(),
            v@ == s@,
            trim_end_char(s@.subrange(0, k as int), c) == trim_end_char(s@, c),
        decreases k,
    {
        assert(s@.subrange(0, k as int).drop_last() =~= s@.subrange(0, k - 1));
        k = k - 1;
    }
    assert(s@.subrange(0, v.len() as int) =~= s@);
    substring(s, 0, k)
}

/// The interface named on a line of `ip -o link show up`.
pub fn link_line_interface(line: &str) -> (r: Option<String>)
    ensures
        opt_view(r) == link_line_iface(line@),
{
    let t = split_whitespace(line);
    assert(views(t@) == ws_tokens(line@));
    if t.len() >= 2 {
        Some(trim_end_char_str(t[1].as_str(), ':'))
    } else {
        None
    }
}

/// The first allowed interface in the output of `ip -o link show up`.
pub fn first_allowed_interface(output: &str, patterns: &Vec<String>) -> (r: Option<String>)
    ensures
        opt_view(r) == first_allowed_link(lines_seq(output@), views(patterns@)),
{
    let ls = lines(output);
    let ghost all = views(ls@);
    assert(all == lines_seq(output@));
    assert(all.subrange(0, all.len() as int) =~= all);
    let mut i: usize = 0;
    while i < ls.len()
        invariant
            i <= ls.len(),
            all == views(ls@),
            all == lines_seq(output@),
            first_allowed_link(all, views(patterns@)) == first_allowed_link(
                all.subrange(i as int, all.len() as int),
                views(patterns@),
            ),
        decreases ls.len() - i,
    {
        let ghost rest = all.subrange(i as int, all.len() as int);
        assert(rest.drop_first() =~= all.subrange(i + 1, all.len() as int));
        assert(rest[0] == ls@[i as int]@);
        match link_line_interface(ls[i].as_str()) {
            Some(n) => {
                if interface_allowed(n.as_str(), patterns) {
                    assert(first_allowed_link(rest, views(patterns@)) == Some(n@));
                    return Some(n);
                }
            },
            None => {},
        }
        i = i + 1;
    }
    None
}

/// The interface to bind to, from the outputs of `ip route get` and of
/// `ip -o link show up` (`None` where a command could not run).
pub fn select_interface(route_output: Option<&str>, link_output: Option<&str>, patterns: &Vec<String>) -> (r: Option<String>)
    ensures
        opt_view(r) == chosen_interface(
            match route_output { Some(o) => Some(o@), None => None },
            match link_output { Some(o) => Some(o@), None => None },
            views(patterns@),
        ),
{
    if let Some(o) = route_output {
        if let Some(d) = route_device_of(o) {
            if interface_allowed(d.as_str(), patterns) {
                return Some(d);
            }
        }
    }
    match link_output {
        Some(o) => first_allowed_interface(o, patterns),
        None => None,
    }
}

/// The two options of a hardware-link binding.
pub fn binding_option_pair(iface: &Option<String>) -> (r: Vec<String>)
    ensures
        views(r@) == binding_options(opt_view(*iface)),
{
    let mut r: Vec<String> = Vec::new();
    push_str(&mut r, "-o");
    match iface {
        Some(i) => {
            push_string(&mut r, concat2("ProxyCommand=sudo socat - TCP:%h:%p,bindtodevice=", i.as_str()));
        },
        None => {
            push_str(&mut r, "ProxyCommand=false");
        },
    }
    assert(views(r@) =~= binding_options(opt_view(*iface)));
    r
}

/// Whether some `-o` in `opts` is followed by a `ProxyCommand` value.
pub fn has_proxy_option(opts: &Vec<String>) -> (b: bool)
    ensures
        b == has_proxy_pair(views(opts@)),
{
    if opts.len() == 0 {
        return false;
    }
    let mut i: usize = 0;
    while i < opts.len() - 1
        invariant
            opts.len() >= 1,
            forall|k: int|
                0 <= k < i && k + 1 < opts.len() ==> !(#[trigger] views(opts@)[k] == "-o"@ && has_prefix(
                    views(opts@)[k + 1],
                    "ProxyCommand"@,
                )),
        decreases opts.len() - i,
    {
        if str_eq(opts[i].as_str(), "-o") && starts_with_str(opts[i + 1].as_str(), "ProxyCommand") {
            assert(views(opts@)[i as int] == "-o"@);
            return true;
        }
        i = i + 1;
    }
    false
}

/// The `-F` arguments: the generated IAP config when it was written, else the
/// configured ssh_config, if any.
pub open spec fn config_file_args(s: Ssh, iap_written: bool) -> Seq<Seq<char>> {
    let iap = match s.provider@ {
        ProviderView::Gcp { iap, .. } => iap,
        ProviderView::Ssh => false,
    };
    if iap && iap_written {
        seq!["-F"@, iap_config_path(s.host@)]
    } else {
        match s.ssh_config {
            Some(c) => seq!["-F"@, c@],
            None => Seq::empty(),
        }
    }
}

/// The options of an SSH invocation for this host, given the interface chosen for
/// hardware-link binding and whether the IAP config file could be written.
pub open spec fn ssh_options_spec(s: Ssh, hw_iface: Option<Seq<char>>, iap_written: bool) -> Seq<Seq<char>> {
    ssh_options_with(s, views(s.extra_ssh_options@), hw_iface, iap_written)
}

/// The options of an SSH invocation for this host with `extra` in place of its
/// extra options (see [`ssh_options_spec`]).
pub open spec fn ssh_options_with(s: Ssh, extra: Seq<Seq<char>>, hw_iface: Option<Seq<char>>, iap_written: bool) -> Seq<Seq<char>> {
    extra + (if s.force_hw_link && !has_proxy_pair(extra) {
        binding_options(hw_iface)
    } else {
        Seq::empty()
    }) + base_options() + (match s.port {
        Some(p) => seq!["-p"@, decimal_seq(p as nat)],
        None => Seq::empty(),
    }) + config_file_args(s, iap_written)
}

impl Ssh {
    /// Whether the options need a hardware-link binding computed for them.
    pub fn needs_hw_binding(&self) -> (b: bool)
        ensures
            b == (self.force_hw_link && !has_proxy_pair(views(self.extra_ssh_options@))),
    {
        self.force_hw_link && !has_proxy_option(&self.extra_ssh_options)
    }

    /// Path and content of the ssh_config that routes through an IAP tunnel, for a
    /// host reached through IAP.
    pub fn iap_config(&self) -> (r: Option<(String, String)>)
        ensures
            r is Some <==> (self.provider@ matches ProviderView::Gcp { iap, .. } && iap),
            r matches Some((path, content)) ==> path@ == iap_config_path(self.host@) && (match self.provider@ {
                ProviderView::Gcp { project, zone, .. } => content@ == iap_config_content(project, zone),
                ProviderView::Ssh => false,
            }),
    {
        match &self.provider {
            Provider::Gcp { project, zone, iap } => {
                if !*iap {
                    return None;
                }
                let mut args: Vec<String> = Vec::new();
                push_str(&mut args, "gcloud");
                push_str(&mut args, "compute");
                push_str(&mut args, "start-iap-tunnel");
                push_str(&mut args, "%h");
                push_str(&mut args, "%p");
                push_str(&mut args, "--listen-on-stdin");
                let ghost a0 = views(args@);
                match project {
                    Some(p) => push_string(&mut args, concat2("--project=", p.as_str())),
                    None => {},
                }
                let ghost a1 = views(args@);
                match zone {
                    Some(z) => push_string(&mut args, concat2("--zone=", z.as_str())),
                    None => {},
                }
                let ghost a2 = views(args@);
                push_str(&mut args, "--quiet");
                assert(views(args@) =~= iap_proxy_args(opt_view(*project), opt_view(*zone)));
                let proxy_cmd = join_strings(&args, " ");
                let path = concat3("/tmp/navi-ssh-iap-", self.host.as_str(), ".conf");
                let content = concat3("Host *\n  ProxyCommand ", proxy_cmd.as_str(), "\n");
                Some((path, content))
            },
            Provider::Ssh => None,
        }
    }

    /// The SSH options for this host. `hw_iface` is the interface selected for a
    /// hardware-link binding (used only when [`Ssh::needs_hw_binding`] holds), and
    /// `iap_config_written` tells whether the file of [`Ssh::iap_config`] was written.
    pub fn ssh_options(&self, hw_iface: &Option<String>, iap_config_written: bool) -> (r: Vec<String>)
        ensures
            views(r@) == ssh_options_spec(*self, opt_view(*hw_iface), iap_config_written),
    {
        let mut options = clone_strings(&self.extra_ssh_options);
        let ghost o0 = views(options@);
        if self.needs_hw_binding() {
            let b = binding_option_pair(hw_iface);
            extend_strings(&mut options, &b);
        }
        let ghost o1 = views(options@);
        assert(o1 =~= o0 + (if self.force_hw_link && !has_proxy_pair(o0) {
            binding_options(opt_view(*hw_iface))
        } else {
            Seq::empty()
        }));
        push_str(&mut options, "-o");
        push_str(&mut options, "StrictHostKeyChecking=accept-new");
        push_str(&mut options, "-o");
        push_str(&mut options, "BatchMode=yes");
        push_str(&mut options, "-T");
        let ghost o2 = views(options@);
        assert(o2 =~= o1 + base_options());
        if let Some(port) = self.port {
            push_str(&mut options, "-p");
            push_string(&mut options, decimal(port as u64));
        }
        let ghost o3 = views(options@);
        assert(o3 =~= o2 + (match self.port {
            Some(p) => seq!["-p"@, decimal_seq(p as nat)],
            None => Seq::empty(),
        }));
        let iap = match &self.provider {
            Provider::Gcp { iap, .. } => *iap,
            Provider::Ssh => false,
        };
        if iap && iap_config_written {
            push_str(&mut options, "-F");
            push_string(&mut options, concat3("/tmp/navi-ssh-iap-", self.host.as_str(), ".conf"));
        } else {
            match &self.ssh_config {
                Some(c) => {
                    push_str(&mut options, "-F");
                    push_string(&mut options, c.clone());
                },
                None => {},
            }
        }
        assert(views(options@) =~= o3 + config_file_args(*self, iap_config_written));
        options
    }

    /// Adds the binding options for `iface` (or the blocking option when no allowed
    /// interface was found) to the extra SSH options.
    pub fn apply_hw_link_binding(&mut self, iface: &Option<String>)
        ensures
            views(final(self).extra_ssh_options@) == views(old(self).extra_ssh_options@) + binding_options(opt_view(*iface)),
            *final(self) == (Ssh { extra_ssh_options: final(self).extra_ssh_options, ..*old(self) }),
    {
        let b = binding_option_pair(iface);
        extend_strings(&mut self.extra_ssh_options, &b);
        assert(views(self.extra_ssh_options@) =~= views(old(self).extra_ssh_options@) + views(b@));
    }

    /// Prepares this host for connecting to the initrd (e.g. for unlocking). `hw_iface`
    /// is the interface selected for binding when the config asks for one.
    pub fn configure_for_initrd(&mut self, config: &DiskUnlockConfig, hw_iface: &Option<String>)
        ensures
            final(self).host == (match config.host { Some(h) => h, None => old(self).host }),
            final(self).port == Some(config.port),
            final(self).user == (match config.user { Some(u) => Some(u), None => old(self).user }),
            views(final(self).extra_ssh_options@) == (if config.force_hw_link || config.interfaces is Some {
                binding_options(opt_view(*hw_iface))
            } else {
                Seq::empty()
            }) + views(config.ssh_options@) + (if config.ignore_host_key_check {
                seq!["-o"@, "UserKnownHostsFile=/dev/null"@, "-o"@, "StrictHostKeyChecking=no"@]
            } else {
                Seq::empty()
            }),
            opt_view(final(self).ssh_config) == (if config.ignore_ssh_config {
                Some("/dev/null"@)
            } else {
                opt_view(old(self).ssh_config)
            }),
            final(self).privilege_escalation_command == old(self).privilege_escalation_command,
            final(self).use_nix3_copy == old(self).use_nix3_copy,
            final(self).provider == old(self).provider,
            final(self).force_hw_link == old(self).force_hw_link,
            final(self).hw_link_interfaces == old(self).hw_link_interfaces,
    {
        if let Some(h) = &config.host {
            self.set_override_address(h.clone());
        }
        self.set_port(config.port);
        if let Some(u) = &config.user {
            self.set_user(u.clone());
        }
        let mut opts: Vec<String> = Vec::new();
        if config.force_hw_link || config.interfaces.is_some() {
            let b = binding_option_pair(hw_iface);
            extend_strings(&mut opts, &b);
        }
        let ghost p0 = views(opts@);
        extend_strings(&mut opts, &config.ssh_options);
        assert(views(opts@) =~= p0 + views(config.ssh_options@));
        let ghost p1 = views(opts@);
        if config.ignore_ssh_config {
            self.set_ssh_config(owned("/dev/null"));
        }
        if config.ignore_host_key_check {
            push_str(&mut opts, "-o");
            push_str(&mut opts, "UserKnownHostsFile=/dev/null");
            push_str(&mut opts, "-o");
            push_str(&mut opts, "StrictHostKeyChecking=no");
        }
        assert(views(opts@) =~= p1 + (if config.ignore_host_key_check {
            seq!["-o"@, "UserKnownHostsFile=/dev/null"@, "-o"@, "StrictHostKeyChecking=no"@]
        } else {
            Seq::empty()
        }));
        self.extra_ssh_options = opts;
    }
}


/// The privilege escalation words of a command run as `s`'s user: none for `root`.
pub open spec fn escalation_for(s: Ssh) -> Seq<Seq<char>> {
    if opt_view(s.user) == Some("root"@) {
        Seq::empty()
    } else {
        views(s.privilege_escalation_command@)
    }
}

/// The arguments of `ssh` that run `command` on `s`: the options, the target,
/// `--`, the escalation command unless logged in as `root`, then the command.
pub open spec fn remote_args(s: Ssh, hw_iface: Option<Seq<char>>, iap_written: bool, command: Seq<Seq<char>>) -> Seq<Seq<char>> {
    ssh_options_spec(s, hw_iface, iap_written) + seq![target_of(opt_view(s.user), s.host@), "--"@] + escalation_for(s)
        + command
}

/// The options added to a probe of the initrd, which may not be up yet.
pub open spec fn probe_options() -> Seq<Seq<char>> {
    seq!["-o"@, "ConnectTimeout=2"@, "-o"@, "ConnectionAttempts=1"@]
}

/// The message of a failed unlock command.
pub open spec fn unlock_failure_text(status: Seq<char>, stderr: Seq<char>) -> Seq<char> {
    "Remote command exited with status: "@ + status + ". Stderr: "@ + crate::text::trim_seq(stderr)
}

/// The message of a failed unlock command, from its exit status and error output.
pub fn unlock_failure_message(status: &str, stderr: &str) -> (r: String)
    ensures
        r@ == unlock_failure_text(status@, stderr@),
{
    let mut r = concat3("Remote command exited with status: ", status, ". Stderr: ");
    let t = crate::text::trim_str(stderr);
    r.append(t.as_str());
    r
}

/// Whether the wait for a reboot tries to unlock the disk in this round: the
/// node unlocks remotely and no attempt has succeeded yet.
pub fn should_try_unlock(unlock: &Option<DiskUnlockConfig>, unlocked: bool) -> (r: bool)
    ensures
        r == (unlock matches Some(c) && c.enable && !unlocked),
{
    match unlock {
        Some(c) => c.enable && !unlocked,
        None => false,
    }
}

/// Whether the host has come back from a reboot: a boot id could be read and
/// differs from the one read before.
pub fn rebooted(old_id: &str, new_id: &Option<String>) -> (r: bool)
    ensures
        r == (new_id matches Some(n) && n@ != old_id@),
{
    match new_id {
        Some(n) => !str_eq(n.as_str(), old_id),
        None => false,
    }
}

impl Ssh {
    /// A copy of this host.
    pub fn duplicate(&self) -> (r: Ssh)
        ensures
            r.user == self.user,
            r.host == self.host,
            r.port == self.port,
            r.ssh_config == self.ssh_config,
            r.privilege_escalation_command@ == self.privilege_escalation_command@,
            r.extra_ssh_options@ == self.extra_ssh_options@,
            r.use_nix3_copy == self.use_nix3_copy,
            r.provider == self.provider,
            r.force_hw_link == self.force_hw_link,
            opt_views(r.hw_link_interfaces) == opt_views(self.hw_link_interfaces),
    {
        let hw = clone_opt_strings(&self.hw_link_interfaces);
        proof {
            if hw is Some {
                assert(views(hw->0@) =~= views(self.hw_link_interfaces->0@));
            }
        }
        Ssh {
            user: clone_opt(&self.user),
            host: self.host.clone(),
            port: self.port,
            ssh_config: clone_opt(&self.ssh_config),
            privilege_escalation_command: clone_strings(&self.privilege_escalation_command),
            extra_ssh_options: clone_strings(&self.extra_ssh_options),
            use_nix3_copy: self.use_nix3_copy,
            provider: self.provider.clone(),
            force_hw_link: self.force_hw_link,
            hw_link_interfaces: hw,
        }
    }

    /// The arguments of `ssh` that run `command` on this host (see
    /// [`remote_args`]), and the value of `NIX_SSHOPTS`: the options joined by spaces.
    pub fn ssh_command(&self, hw_iface: &Option<String>, iap_config_written: bool, command: &Vec<String>) -> (r: (Vec<String>, String))
        ensures
            views(r.0@) == remote_args(*self, opt_view(*hw_iface), iap_config_written, views(command@)),
            r.1@ == join_seq(ssh_options_spec(*self, opt_view(*hw_iface), iap_config_written), " "@),
    {
        let options = self.ssh_options(hw_iface, iap_config_written);
        let env = join_strings(&options, " ");
        let mut args = clone_strings(&options);
        push_string(&mut args, self.ssh_target());
        push_str(&mut args, "--");
        let ghost a0 = views(args@);
        let is_root = match &self.user {
            Some(u) => str_eq(u.as_str(), "root"),
            None => false,
        };
        if !is_root {
            extend_strings(&mut args, &self.privilege_escalation_command);
        }
        assert(views(args@) =~= a0 + escalation_for(*self));
        let ghost a1 = views(args@);
        extend_strings(&mut args, command);
        assert(views(args@) =~= a1 + views(command@));
        (args, env)
    }

    /// The arguments of `ssh` that run the unlock command of `config` on this
    /// host, with no escalation.
    pub fn unlock_command(&self, config: &DiskUnlockConfig, hw_iface: &Option<String>, iap_config_written: bool) -> (r: Vec<String>)
        ensures
            views(r@) == ssh_options_spec(*self, opt_view(*hw_iface), iap_config_written) + seq![
                target_of(opt_view(self.user), self.host@),
                "--"@,
                config.remote_command@,
            ],
    {
        let mut args = self.ssh_options(hw_iface, iap_config_written);
        push_string(&mut args, self.ssh_target());
        push_str(&mut args, "--");
        push_string(&mut args, config.remote_command.clone());
        args
    }

    /// The host that probes the initrd while waiting for a reboot: this host set
    /// up for the initrd (see [`Ssh::configure_for_initrd`]) with short timeouts.
    pub fn initrd_probe(&self, config: &DiskUnlockConfig, hw_iface: &Option<String>) -> (r: Ssh)
        ensures
            r.host == (match config.host { Some(h) => h, None => self.host }),
            r.port == Some(config.port),
            r.user == (match config.user { Some(u) => Some(u), None => self.user }),
            views(r.extra_ssh_options@) == (if config.force_hw_link || config.interfaces is Some {
                binding_options(opt_view(*hw_iface))
            } else {
                Seq::empty()
            }) + views(config.ssh_options@) + (if config.ignore_host_key_check {
                seq!["-o"@, "UserKnownHostsFile=/dev/null"@, "-o"@, "StrictHostKeyChecking=no"@]
            } else {
                Seq::empty()
            }) + probe_options(),
            opt_view(r.ssh_config) == (if config.ignore_ssh_config {
                Some("/dev/null"@)
            } else {
                opt_view(self.ssh_config)
            }),
            r.privilege_escalation_command@ == self.privilege_escalation_command@,
            r.use_nix3_copy == self.use_nix3_copy,
            r.provider == self.provider,
            r.force_hw_link == self.force_hw_link,
            opt_views(r.hw_link_interfaces) == opt_views(self.hw_link_interfaces),
    {
        let mut h = self.duplicate();
        h.configure_for_initrd(config, hw_iface);
        let ghost e0 = views(h.extra_ssh_options@);
        push_str(&mut h.extra_ssh_options, "-o");
        push_str(&mut h.extra_ssh_options, "ConnectTimeout=2");
        push_str(&mut h.extra_ssh_options, "-o");
        push_str(&mut h.extra_ssh_options, "ConnectionAttempts=1");
        assert(views(h.extra_ssh_options@) =~= e0 + probe_options());
        h
    }
}


/// Where a deployment records its provenance on a node.
pub open spec fn provenance_path() -> Seq<char> {
    "/etc/navi/provenance.json"@
}

/// The arguments of `ssh` that read the provenance of `s` with a connection
/// timeout of five seconds: through the extra options and the usual command
/// line on Google Cloud, after the options on plain SSH.
pub open spec fn provenance_read_args(s: Ssh, hw_iface: Option<Seq<char>>, iap_written: bool) -> Seq<Seq<char>> {
    let timeout = seq!["-o"@, "ConnectTimeout=5"@];
    let cat = seq!["cat"@, provenance_path()];
    match s.provider@ {
        ProviderView::Gcp { .. } => ssh_options_with(s, views(s.extra_ssh_options@) + timeout, hw_iface, iap_written)
            + seq![target_of(opt_view(s.user), s.host@), "--"@] + escalation_for(s) + cat,
        ProviderView::Ssh => ssh_options_spec(s, hw_iface, iap_written) + timeout + seq![
            target_of(opt_view(s.user), s.host@),
            "--"@,
        ] + cat,
    }
}

impl Ssh {
    /// The arguments of `ssh` that read this host's provenance (see [`provenance_read_args`]).
    pub fn provenance_read_command(&self, hw_iface: &Option<String>, iap_config_written: bool) -> (r: Vec<String>)
        ensures
            views(r@) == provenance_read_args(*self, opt_view(*hw_iface), iap_config_written),
    {
        let mut cat: Vec<String> = Vec::new();
        push_str(&mut cat, "cat");
        push_str(&mut cat, "/etc/navi/provenance.json");
        assert(views(cat@) =~= seq!["cat"@, provenance_path()]);
        match &self.provider {
            Provider::Gcp { .. } => {
                let mut probe = self.duplicate();
                push_str(&mut probe.extra_ssh_options, "-o");
                push_str(&mut probe.extra_ssh_options, "ConnectTimeout=5");
                assert(views(probe.extra_ssh_options@) =~= views(self.extra_ssh_options@) + seq!["-o"@, "ConnectTimeout=5"@]);
                let (args, _) = probe.ssh_command(hw_iface, iap_config_written, &cat);
                args
            },
            Provider::Ssh => {
                let mut args = self.ssh_options(hw_iface, iap_config_written);
                push_str(&mut args, "-o");
                push_str(&mut args, "ConnectTimeout=5");
                push_string(&mut args, self.ssh_target());
                push_str(&mut args, "--");
                let ghost a0 = views(args@);
                extend_strings(&mut args, &cat);
                assert(views(args@) =~= a0 + views(cat@));
                args
            },
        }
    }
}

/// The arguments of `gcloud` that attach to the serial console of a host on
/// Google Cloud: the instance, then its project and zone where known. Other
/// hosts have no serial console.
pub open spec fn serial_console_args(s: Ssh) -> Option<Seq<Seq<char>>> {
    match s.provider@ {
        ProviderView::Gcp { project, zone, .. } => Some(seq!["compute"@, "connect-to-serial-port"@, s.host@] + (match project {
            Some(p) => seq!["--project="@ + p],
            None => Seq::empty(),
        }) + (match zone {
            Some(z) => seq!["--zone="@ + z],
            None => Seq::empty(),
        })),
        ProviderView::Ssh => None,
    }
}

impl Ssh {
    /// The arguments of `gcloud` for this host's serial console (see [`serial_console_args`]).
    pub fn serial_console_command(&self) -> (r: Option<Vec<String>>)
        ensures
            match r {
                Some(v) => serial_console_args(*self) == Some(views(v@)),
                None => serial_console_args(*self) is None,
            },
    {
        match &self.provider {
            Provider::Gcp { project, zone, .. } => {
                let mut args: Vec<String> = Vec::new();
                push_str(&mut args, "compute");
                push_str(&mut args, "connect-to-serial-port");
                push_string(&mut args, owned(self.host.as_str()));
                let ghost a0 = views(args@);
                match project {
                    Some(p) => push_string(&mut args, concat2("--project=", p.as_str())),
                    None => {},
                }
                let ghost a1 = views(args@);
                match zone {
                    Some(z) => push_string(&mut args, concat2("--zone=", z.as_str())),
                    None => {},
                }
                assert(views(args@) =~= a0 + (match self.provider@ {
                    ProviderView::Gcp { project, .. } => match project {
                        Some(p) => seq!["--project="@ + p],
                        None => Seq::<Seq<char>>::empty(),
                    },
                    ProviderView::Ssh => Seq::<Seq<char>>::empty(),
                }) + (match self.provider@ {
                    ProviderView::Gcp { zone, .. } => match zone {
                        Some(z) => seq!["--zone="@ + z],
                        None => Seq::<Seq<char>>::empty(),
                    },
                    ProviderView::Ssh => Seq::<Seq<char>>::empty(),
                }));
                Some(args)
            },
            Provider::Ssh => None,
        }
    }
}

} // verus!
