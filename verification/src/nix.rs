//! Node names, per-node deployment configuration and the Nix command-line flags.
use vstd::prelude::*;
use vstd::string::*;

use crate::ssh::{push_str, push_string, Ssh};
use crate::text::{has_prefix, owned, str_eq, strip_prefix_str, starts_with_str};

verus! {

/// The views of a sequence of strings.
pub open spec fn views(v: Seq<String>) -> Seq<Seq<char>> {
    v.map_values(|s: String| s@)
}

/// Errors of the node model.
#[derive(Debug, Clone, PartialEq, Eq)]
pub enum NaviError {
    /// A node name was empty.
    EmptyNodeName,
    /// Some nodes failed to evaluate.
    AttributeEvaluationError,
    /// The host cannot do what was asked.
    Unsupported,
    /// The profile active on a node is not known, and unknown profiles are not replaced.
    ActiveProfileUnknown { profile: String },
    /// A deployment was run twice.
    DeploymentAlreadyExecuted,
}

/// A node's attribute name. Never empty.
#[derive(Debug)]
pub struct NodeName {
    pub name: String,
}

impl View for NodeName {
    type V = Seq<char>;

    open spec fn view(&self) -> Seq<char> {
        self.name@
    }
}

impl Clone for NodeName {
    fn clone(&self) -> (r: Self)
        ensures
            r@ == self@,
    {
        NodeName { name: self.name.clone() }
    }
}

impl NodeName {
    /// Returns the string.
    pub fn as_str(&self) -> (r: &str)
        ensures
            r@ == self@,
    {
        self.name.as_str()
    }

    /// Creates a node name; an empty name is refused.
    pub fn new(name: String) -> (r: Result<NodeName, NaviError>)
        ensures
            r is Ok <==> name@.len() > 0,
            r matches Ok(n) ==> n@ == name@,
            r matches Err(e) ==> e == NaviError::EmptyNodeName,
    {
        match Self::validate(name) {
            Ok(validated) => Ok(NodeName { name: validated }),
            Err(e) => Err(e),
        }
    }

    /// Checks a potential node name: only the empty name is refused.
    pub fn validate(s: String) -> (r: Result<String, NaviError>)
        ensures
            r is Ok <==> s@.len() > 0,
            r matches Ok(v) ==> v@ == s@,
            r matches Err(e) ==> e == NaviError::EmptyNodeName,
    {
        if s.as_str().unicode_len() == 0 {
            return Err(NaviError::EmptyNodeName);
        }
        Ok(s)
    }

    /// Whether two names are the same.
    pub fn same(&self, other: &NodeName) -> (b: bool)
        ensures
            b == (self@ == other@),
    {
        self.name == other.name
    }
}

/// How a node is reached.
#[derive(Debug)]
pub enum Provider {
    /// Plain SSH.
    Ssh,
    /// Google Cloud, through an IAP tunnel when `iap` holds.
    Gcp { project: Option<String>, zone: Option<String>, iap: bool },
}

impl Clone for Provider {
    fn clone(&self) -> (r: Self)
        ensures
            r == *self,
    {
        match self {
            Provider::Ssh => Provider::Ssh,
            Provider::Gcp { project, zone, iap } => Provider::Gcp {
                project: clone_opt(project),
                zone: clone_opt(zone),
                iap: *iap,
            },
        }
    }
}

/// A copy of an optional string.
pub fn clone_opt(o: &Option<String>) -> (r: Option<String>)
    ensures
        r == *o,
{
    match o {
        Some(s) => Some(s.clone()),
        None => None,
    }
}

/// A copy of a vector of strings.
pub fn clone_strings(v: &Vec<String>) -> (r: Vec<String>)
    ensures
        r@ == v@,
{
    let mut r: Vec<String> = Vec::new();
    let mut i: usize = 0;
    while i < v.len()
        invariant
            i <= v.len(),
            r@ == v@.subrange(0, i as int),
        decreases v.len() - i,
    {
        r.push(v[i].clone());
        i = i + 1;
        assert(r@ =~= v@.subrange(0, i as int));
    }
    assert(r@ =~= v@);
    r
}

/// Google Cloud settings of a node.
#[derive(Debug)]
pub struct GcpConfig {
    pub project: Option<String>,
    pub zone: Option<String>,
    pub iap: bool,
}

/// Provider settings of a node.
#[derive(Debug)]
pub struct ProvidersConfig {
    pub gcp: Option<GcpConfig>,
}

/// Serde's default for flags that default to on.
pub fn default_true() -> (b: bool)
    ensures
        b,
{
    true
}

/// Default SSH port of the initrd used for unlocking.
pub fn default_unlock_port() -> (p: u16)
    ensures
        p == 2222,
{
    2222
}

/// Default command that unlocks ZFS pools in the initrd.
pub fn default_remote_unlock_cmd() -> (s: String)
    ensures
        s@ == "zpool import -a; zfs load-key -a && (killall zfs || true)"@,
{
    owned("zpool import -a; zfs load-key -a && (killall zfs || true)")
}

/// Default name of the facts directory.
pub fn default_facts_dir_name() -> (s: String)
    ensures
        s@ == "facts"@,
{
    owned("facts")
}

/// Default Terraform variable that receives a Porkbun API key.
pub fn default_porkbun_api_var() -> (s: String)
    ensures
        s@ == "porkbun_api_key"@,
{
    owned("porkbun_api_key")
}

/// Default Terraform variable that receives a Porkbun secret key.
pub fn default_porkbun_secret_var() -> (s: String)
    ensures
        s@ == "porkbun_secret_api_key"@,
{
    owned("porkbun_secret_api_key")
}

/// Remote disk unlocking settings of a node.
#[derive(Debug)]
pub struct DiskUnlockConfig {
    pub enable: bool,
    pub port: u16,
    pub host: Option<String>,
    pub force_hw_link: bool,
    pub interfaces: Option<Vec<String>>,
    pub user: Option<String>,
    pub password_command: Option<String>,
    pub ignore_ssh_config: bool,
    pub ignore_host_key_check: bool,
    pub ssh_options: Vec<String>,
    pub remote_command: String,
}

impl Default for DiskUnlockConfig {
    fn default() -> (r: Self)
        ensures
            !r.enable,
            r.port == 2222,
            r.host is None,
            !r.force_hw_link,
            r.interfaces is None,
            r.user is None,
            r.password_command is None,
            !r.ignore_ssh_config,
            !r.ignore_host_key_check,
            r.ssh_options@.len() == 0,
            r.remote_command@ == "zpool import -a; zfs load-key -a && (killall zfs || true)"@,
    {
        DiskUnlockConfig {
            enable: false,
            port: default_unlock_port(),
            host: None,
            force_hw_link: false,
            interfaces: None,
            user: None,
            password_command: None,
            ignore_ssh_config: false,
            ignore_host_key_check: false,
            ssh_options: Vec::new(),
            remote_command: default_remote_unlock_cmd(),
        }
    }
}

/// The `meta` section of a hive.
#[derive(Debug)]
pub struct MetaConfig {
    pub allow_apply_all: bool,
    pub machines_file: Option<String>,
    /// Tag keys along which the dashboard groups nodes.
    pub hierarchy: Option<Vec<String>>,
    /// Provisioners by name, in the order they were read.
    pub provisioners: Option<Vec<(String, ProvisionerConfig)>>,
    pub registrants: Option<RegistrantsConfig>,
    pub facts: FactsConfig,
}

/// Settings of the facts directory.
#[derive(Debug)]
pub struct FactsConfig {
    pub enable: bool,
    pub dir_name: String,
    pub derive: Vec<String>,
}

impl Default for FactsConfig {
    fn default() -> (r: Self)
        ensures
            r.enable,
            r.dir_name@ == "facts"@,
            r.derive@.len() == 0,
    {
        FactsConfig { enable: default_true(), dir_name: default_facts_dir_name(), derive: Vec::new() }
    }
}

/// A Namecheap registrant account.
#[derive(Debug)]
pub struct NamecheapAccount {
    pub api_key_command: String,
    pub user_command: String,
}

/// A Porkbun registrant account.
#[derive(Debug)]
pub struct PorkbunAccount {
    pub api_key_command: String,
    pub secret_api_key_command: String,
    pub terraform_secrets: bool,
    pub api_key_variable: String,
    pub secret_key_variable: String,
}

/// Registrant accounts by name, in the order they were read.
#[derive(Debug)]
pub struct RegistrantsConfig {
    pub porkbun: Vec<(String, PorkbunAccount)>,
    pub namecheap: Vec<(String, NamecheapAccount)>,
}

/// Kind of a provisioner.
#[derive(Debug, Clone, Copy, PartialEq, Eq, Structural)]
pub enum ProvisionerType {
    Command,
    FlakeApp,
    Terranix,
    BareMetal,
}

/// Settings of the nixos-anywhere installation step.
#[derive(Debug)]
pub struct NixosAnywhereConfig {
    pub enable: bool,
    pub ssh_user: Option<String>,
    pub unlock: bool,
    pub extra_args: Vec<String>,
    pub download_kexec_locally: bool,
    pub kexec_url_template: Option<String>,
}

/// A provisioner as declared in `meta.provisioners`.
#[derive(Debug)]
pub struct ProvisionerConfig {
    pub kind: ProvisionerType,
    pub command: Option<String>,
    pub app: Option<String>,
    pub configuration: Option<String>,
    pub nixos_anywhere: Option<NixosAnywhereConfig>,
    pub derive: Vec<String>,
}

/// The `config.deployment` values of a node.
#[derive(Debug)]
pub struct NodeConfig {
    pub target_host: Option<String>,
    pub target_user: Option<String>,
    pub target_port: Option<u16>,
    pub allow_local_deployment: bool,
    pub build_on_target: bool,
    pub tags: Vec<String>,
    pub providers: ProvidersConfig,
    pub unlock: DiskUnlockConfig,
    pub replace_unknown_profiles: bool,
    pub privilege_escalation_command: Vec<String>,
    pub extra_ssh_options: Vec<String>,
    pub provisioner: Option<String>,
    /// Names of the secret keys of the node.
    pub keys: Vec<String>,
}

impl Default for NodeConfig {
    fn default() -> (r: Self)
        ensures
            r.target_host is None,
            r.target_user is None,
            r.target_port is None,
            !r.allow_local_deployment,
            !r.build_on_target,
            r.tags@.len() == 0,
            r.providers.gcp is None,
            !r.unlock.enable,
            r.unlock.port == 2222,
            !r.replace_unknown_profiles,
            r.privilege_escalation_command@.len() == 0,
            r.extra_ssh_options@.len() == 0,
            r.provisioner is None,
            r.keys@.len() == 0,
    {
        NodeConfig {
            target_host: None,
            target_user: None,
            target_port: None,
            allow_local_deployment: false,
            build_on_target: false,
            tags: Vec::new(),
            providers: ProvidersConfig { gcp: None },
            unlock: DiskUnlockConfig::default(),
            replace_unknown_profiles: false,
            privilege_escalation_command: Vec::new(),
            extra_ssh_options: Vec::new(),
            provisioner: None,
            keys: Vec::new(),
        }
    }
}

/// Index of the first tag that starts with `p`, if any.
pub open spec fn first_with_prefix(tags: Seq<Seq<char>>, p: Seq<char>) -> Option<int>
    decreases tags.len(),
{
    if tags.len() == 0 {
        None
    } else if has_prefix(tags[0], p) {
        Some(0)
    } else {
        match first_with_prefix(tags.drop_first(), p) {
            Some(i) => Some(i + 1),
            None => None,
        }
    }
}

/// The tag that [`first_with_prefix`] finds is one of `tags` and starts with `p`.
pub proof fn lemma_first_with_prefix(tags: Seq<Seq<char>>, p: Seq<char>)
    ensures
        first_with_prefix(tags, p) matches Some(i) ==> 0 <= i < tags.len() && has_prefix(tags[i], p),
    decreases tags.len(),
{
    if tags.len() > 0 && !has_prefix(tags[0], p) {
        lemma_first_with_prefix(tags.drop_first(), p);
    }
}

/// What follows `p` in the last tag that starts with `p`, if any.
pub open spec fn last_value_with_prefix(tags: Seq<Seq<char>>, p: Seq<char>) -> Option<Seq<char>>
    decreases tags.len(),
{
    if tags.len() == 0 {
        None
    } else if has_prefix(tags.last(), p) {
        Some(tags.last().subrange(p.len() as int, tags.last().len() as int))
    } else {
        last_value_with_prefix(tags.drop_last(), p)
    }
}

/// The abstract value of a provider: strings by their views.
pub enum ProviderView {
    Ssh,
    Gcp { project: Option<Seq<char>>, zone: Option<Seq<char>>, iap: bool },
}

/// The view of an optional string.
pub open spec fn opt_view(o: Option<String>) -> Option<Seq<char>> {
    match o {
        Some(s) => Some(s@),
        None => None,
    }
}

impl View for Provider {
    type V = ProviderView;

    open spec fn view(&self) -> ProviderView {
        match self {
            Provider::Ssh => ProviderView::Ssh,
            Provider::Gcp { project, zone, iap } => ProviderView::Gcp {
                project: opt_view(*project),
                zone: opt_view(*zone),
                iap: *iap,
            },
        }
    }
}

/// The provider that a node's settings select: its `gcp` block if present, else a
/// `provider:gcp` tag (the first `provider:` tag decides) with project and zone
/// from the last `gcp:project:` and `gcp:zone:` tags, else plain SSH.
pub open spec fn provider_of(c: NodeConfig) -> ProviderView {
    match c.providers.gcp {
        Some(g) => ProviderView::Gcp { project: opt_view(g.project), zone: opt_view(g.zone), iap: g.iap },
        None => {
            let tags = views(c.tags@);
            match first_with_prefix(tags, "provider:"@) {
                Some(i) => if tags[i] == "provider:gcp"@ {
                    ProviderView::Gcp {
                        project: last_value_with_prefix(tags, "gcp:project:"@),
                        zone: last_value_with_prefix(tags, "gcp:zone:"@),
                        iap: true,
                    }
                } else {
                    ProviderView::Ssh
                },
                None => ProviderView::Ssh,
            }
        },
    }
}

/// Index of the first tag that starts with `p`.
pub fn first_with_prefix_index(tags: &Vec<String>, p: &str) -> (r: Option<usize>)
    ensures
        match r {
            Some(k) => first_with_prefix(views(tags@), p@) == Some(k as int) && k < tags@.len(),
            None => first_with_prefix(views(tags@), p@) is None,
        },
{
    assert(views(tags@).subrange(0, tags@.len() as int) =~= views(tags@));
    let mut i: usize = 0;
    while i < tags.len()
        invariant
            i <= tags.len(),
            first_with_prefix(views(tags@), p@) == match first_with_prefix(
                views(tags@).subrange(i as int, tags@.len() as int),
                p@,
            ) {
                Some(k) => Some(k + i),
                None => None,
            },
        decreases tags.len() - i,
    {
        let ghost rest = views(tags@).subrange(i as int, tags@.len() as int);
        assert(rest.drop_first() =~= views(tags@).subrange(i + 1, tags@.len() as int));
        if starts_with_str(tags[i].as_str(), p) {
            assert(has_prefix(rest[0], p@));
            return Some(i);
        }
        i = i + 1;
    }
    assert(views(tags@).subrange(i as int, tags@.len() as int).len() == 0);
    None
}

impl NodeConfig {
    pub fn tags(&self) -> (r: &Vec<String>)
        ensures
            r@ == self.tags@,
    {
        &self.tags
    }

    /// The provider that this node's settings select (see [`provider_of`]).
    pub fn get_provider(&self) -> (r: Provider)
        ensures
            r@ == provider_of(*self),
    {
        if let Some(gcp) = &self.providers.gcp {
            return Provider::Gcp { project: clone_opt(&gcp.project), zone: clone_opt(&gcp.zone), iap: gcp.iap };
        }
        let ghost tags = views(self.tags@);
        match first_with_prefix_index(&self.tags, "provider:") {
            Some(i) => {
                if str_eq(self.tags[i].as_str(), "provider:gcp") {
                    let mut project: Option<String> = None;
                    let mut zone: Option<String> = None;
                    let mut k: usize = 0;
                    while k < self.tags.len()
                        invariant
                            k <= self.tags.len(),
                            tags == views(self.tags@),
                            opt_view(project) == last_value_with_prefix(tags.subrange(0, k as int), "gcp:project:"@),
                            opt_view(zone) == last_value_with_prefix(tags.subrange(0, k as int), "gcp:zone:"@),
                        decreases self.tags.len() - k,
                    {
                        assert(tags.subrange(0, k + 1).drop_last() =~= tags.subrange(0, k as int));
                        if let Some(val) = strip_prefix_str(self.tags[k].as_str(), "gcp:project:") {
                            project = Some(val);
                        } else if let Some(val) = strip_prefix_str(self.tags[k].as_str(), "gcp:zone:") {
                            zone = Some(val);
                        }
                        proof {
                            reveal_strlit("gcp:project:");
                            reveal_strlit("gcp:zone:");
                            let t = tags[k as int];
                            if has_prefix(t, "gcp:project:"@) {
                                assert(!has_prefix(t, "gcp:zone:"@)) by {
                                    assert(t.subrange(0, 12)[4] == t[4]);
                                    assert(t[4] == 'p');
                                    assert(t.subrange(0, 9)[4] == t[4]);
                                    assert("gcp:zone:"@[4] == 'z');
                                }
                            }
                        }
                        k = k + 1;
                    }
                    assert(tags.subrange(0, self.tags@.len() as int) =~= tags);
                    Provider::Gcp { project, zone, iap: true }
                } else {
                    Provider::Ssh
                }
            },
            None => Provider::Ssh,
        }
    }

    pub fn allows_local_deployment(&self) -> (b: bool)
        ensures
            b == self.allow_local_deployment,
    {
        self.allow_local_deployment
    }

    pub fn privilege_escalation_command(&self) -> (r: &Vec<String>)
        ensures
            r@ == self.privilege_escalation_command@,
    {
        &self.privilege_escalation_command
    }

    pub fn build_on_target(&self) -> (b: bool)
        ensures
            b == self.build_on_target,
    {
        self.build_on_target
    }

    pub fn set_build_on_target(&mut self, enable: bool)
        ensures
            *final(self) == (NodeConfig { build_on_target: enable, ..*old(self) }),
    {
        self.build_on_target = enable;
    }

    /// The SSH host of this node, when it has a target host: user, port, privilege
    /// escalation, extra options and provider come from the node's settings.
    pub fn to_ssh_host(&self) -> (r: Option<Ssh>)
        ensures
            r is Some <==> self.target_host is Some,
            r matches Some(h) ==> {
                &&& h.user == self.target_user
                &&& h.host == self.target_host->0
                &&& h.port == self.target_port
                &&& h.ssh_config is None
                &&& h.privilege_escalation_command@ == self.privilege_escalation_command@
                &&& h.extra_ssh_options@ == self.extra_ssh_options@
                &&& !h.use_nix3_copy
                &&& h.provider@ == provider_of(*self)
                &&& !h.force_hw_link
                &&& h.hw_link_interfaces is None
            },
    {
        match &self.target_host {
            Some(target_host) => {
                let mut host = Ssh::new(clone_opt(&self.target_user), target_host.clone());
                host.set_privilege_escalation_command(clone_strings(&self.privilege_escalation_command));
                host.set_extra_ssh_options(clone_strings(&self.extra_ssh_options));
                host.set_provider(self.get_provider());
                if let Some(target_port) = self.target_port {
                    host.set_port(target_port);
                }
                Some(host)
            },
            None => None,
        }
    }
}

/// Nix command-line flags.
#[derive(Debug)]
pub struct NixFlags {
    /// Whether to pass --show-trace.
    pub show_trace: bool,
    /// Whether to pass --pure-eval.
    pub pure_eval: bool,
    /// Whether to pass --impure.
    pub impure: bool,
    /// Designated builders.
    pub builders: Option<String>,
    /// Options to pass as --option name value, in order.
    pub options: Vec<(String, String)>,
}

impl Default for NixFlags {
    fn default() -> (r: Self)
        ensures
            !r.show_trace,
            !r.pure_eval,
            !r.impure,
            r.builders is None,
            r.options@.len() == 0,
    {
        NixFlags { show_trace: false, pure_eval: false, impure: false, builders: None, options: Vec::new() }
    }
}

/// `--option name value` for each option, in order.
pub open spec fn option_args(opts: Seq<(String, String)>) -> Seq<Seq<char>>
    decreases opts.len(),
{
    if opts.len() == 0 {
        Seq::empty()
    } else {
        option_args(opts.drop_last()) + seq!["--option"@, opts.last().0@, opts.last().1@]
    }
}

/// The arguments the flags give a Nix command; `nix-store` does not take `--impure`.
pub open spec fn nix_args(f: NixFlags, nix_store: bool) -> Seq<Seq<char>> {
    (match f.builders {
        Some(b) => seq!["--option"@, "builders"@, b@],
        None => Seq::empty(),
    }) + (if f.show_trace {
        seq!["--show-trace"@]
    } else {
        Seq::empty()
    }) + (if f.pure_eval {
        seq!["--pure-eval"@]
    } else {
        Seq::empty()
    }) + (if f.impure && !nix_store {
        seq!["--impure"@]
    } else {
        Seq::empty()
    }) + option_args(f.options@)
}

impl NixFlags {
    pub fn set_show_trace(&mut self, show_trace: bool)
        ensures
            *final(self) == (NixFlags { show_trace, ..*old(self) }),
    {
        self.show_trace = show_trace;
    }

    pub fn set_pure_eval(&mut self, pure_eval: bool)
        ensures
            *final(self) == (NixFlags { pure_eval, ..*old(self) }),
    {
        self.pure_eval = pure_eval;
    }

    pub fn set_impure(&mut self, impure: bool)
        ensures
            *final(self) == (NixFlags { impure, ..*old(self) }),
    {
        self.impure = impure;
    }

    pub fn set_builders(&mut self, builders: Option<String>)
        ensures
            *final(self) == (NixFlags { builders, ..*old(self) }),
    {
        self.builders = builders;
    }

    pub fn set_options(&mut self, options: Vec<(String, String)>)
        ensures
            *final(self) == (NixFlags { options, ..*old(self) }),
    {
        self.options = options;
    }

    /// Arguments for `nix` commands.
    pub fn to_args(&self) -> (r: Vec<String>)
        ensures
            views(r@) == nix_args(*self, false),
    {
        self.to_args_inner(false)
    }

    /// Arguments for `nix-store`.
    pub fn to_nix_store_args(&self) -> (r: Vec<String>)
        ensures
            views(r@) == nix_args(*self, true),
    {
        self.to_args_inner(true)
    }

    pub fn to_args_inner(&self, nix_store: bool) -> (r: Vec<String>)
        ensures
            views(r@) == nix_args(*self, nix_store),
    {
        let mut args: Vec<String> = Vec::new();
        if let Some(builders) = &self.builders {
            push_str(&mut args, "--option");
            push_str(&mut args, "builders");
            push_string(&mut args, builders.clone());
        }
        let ghost a0 = views(args@);
        if self.show_trace {
            push_str(&mut args, "--show-trace");
        }
        let ghost a1 = views(args@);
        if self.pure_eval {
            push_str(&mut args, "--pure-eval");
        }
        let ghost a2 = views(args@);
        if self.impure && !nix_store {
            push_str(&mut args, "--impure");
        }
        let ghost a3 = views(args@);
        let mut i: usize = 0;
        while i < self.options.len()
            invariant
                i <= self.options.len(),
                views(args@) == a3 + option_args(self.options@.subrange(0, i as int)),
            decreases self.options.len() - i,
        {
            assert(self.options@.subrange(0, i + 1).drop_last() =~= self.options@.subrange(0, i as int));
            push_str(&mut args, "--option");
            push_string(&mut args, self.options[i].0.clone());
            push_string(&mut args, self.options[i].1.clone());
            i = i + 1;
        }
        assert(self.options@.subrange(0, self.options@.len() as int) =~= self.options@);
        args
    }
}

/// A node's state as shown by the dashboard.
#[derive(Debug)]
pub enum NodeState {
    Idle,
    Loading,
    Running(String),
    Success(String),
    Failed(String),
}

impl Clone for NodeState {
    fn clone(&self) -> (r: Self)
        ensures
            r == *self,
    {
        match self {
            NodeState::Idle => NodeState::Idle,
            NodeState::Loading => NodeState::Loading,
            NodeState::Running(s) => NodeState::Running(s.clone()),
            NodeState::Success(s) => NodeState::Success(s.clone()),
            NodeState::Failed(s) => NodeState::Failed(s.clone()),
        }
    }
}

/// The text of a node state.
pub open spec fn state_text(s: NodeState) -> Seq<char> {
    match s {
        NodeState::Idle => ""@,
        NodeState::Loading => "Loading..."@,
        NodeState::Running(t) => t@,
        NodeState::Success(t) => t@,
        NodeState::Failed(t) => t@,
    }
}

impl NodeState {
    /// The text of the state: empty when idle, `Loading...` when loading, else its message.
    pub fn as_str(&self) -> (r: &str)
        ensures
            r@ == state_text(*self),
    {
        match self {
            NodeState::Idle => "",
            NodeState::Loading => "Loading...",
            NodeState::Running(s) => s.as_str(),
            NodeState::Success(s) => s.as_str(),
            NodeState::Failed(s) => s.as_str(),
        }
    }
}

/// Metadata written to a node at deployment.
#[derive(Debug)]
pub struct Provenance {
    pub commit: String,
    pub flake_uri: String,
    pub timestamp: String,
    pub deployed_by: String,
}


/// Whether `std::path::Path::new(s).has_root()` holds for the path `s`.
pub uninterp spec fn path_has_root(s: Seq<char>) -> bool;

/// The number of components of the path `s` (`std::path::Path::components`).
pub uninterp spec fn path_component_count(s: Seq<char>) -> nat;

/// Whether the path `s` has a root (`std::path::Path::has_root`): the result
/// depends on `s` alone.
#[verifier::external_body]
fn has_root(s: &str) -> (r: bool)
    ensures
        r == path_has_root(s@),
{
    std::path::Path::new(s).has_root()
}

/// The number of components of the path `s` (`std::path::Path::components`,
/// counted): the result depends on `s` alone.
#[verifier::external_body]
fn component_count(s: &str) -> (r: usize)
    ensures
        r == path_component_count(s@),
{
    std::path::Path::new(s).components().count()
}

/// Why a secret key's name is refused.
#[derive(Debug, Clone, Copy, PartialEq, Eq, Structural)]
pub enum KeyNameError {
    /// The name is an absolute path.
    Absolute,
    /// The name has more or fewer than one path component.
    Separators,
}

impl KeyNameError {
    /// The message of the error.
    pub fn message(&self) -> (r: &'static str)
        ensures
            r@ == match *self {
                KeyNameError::Absolute => "Secret key name cannot be absolute"@,
                KeyNameError::Separators => "Secret key name cannot contain path separators"@,
            },
    {
        match self {
            KeyNameError::Absolute => "Secret key name cannot be absolute",
            KeyNameError::Separators => "Secret key name cannot contain path separators",
        }
    }
}

/// The error for one key name, if any: absolute names first, then names that
/// are not exactly one path component.
pub open spec fn key_name_error(name: Seq<char>) -> Option<KeyNameError> {
    if path_has_root(name) {
        Some(KeyNameError::Absolute)
    } else if path_component_count(name) != 1 {
        Some(KeyNameError::Separators)
    } else {
        None
    }
}

/// The first error among the key names `names`, in order.
pub open spec fn first_key_error(names: Seq<Seq<char>>) -> Option<KeyNameError>
    decreases names.len(),
{
    if names.len() == 0 {
        None
    } else {
        match key_name_error(names[0]) {
            Some(e) => Some(e),
            None => first_key_error(names.drop_first()),
        }
    }
}

/// Checks the names of a node's secret keys: each must be a single relative
/// path component (see [`first_key_error`]).
pub fn validate_keys(names: &Vec<String>) -> (r: Result<(), KeyNameError>)
    ensures
        match first_key_error(views(names@)) {
            Some(e) => r == Err::<(), KeyNameError>(e),
            None => r is Ok,
        },
{
    let ghost all = views(names@);
    let mut i: usize = 0;
    assert(all.subrange(0, all.len() as int) =~= all);
    while i < names.len()
        invariant
            i <= names@.len(),
            all == views(names@),
            first_key_error(all) == first_key_error(all.subrange(i as int, all.len() as int)),
        decreases names@.len() - i,
    {
        let ghost rest = all.subrange(i as int, all.len() as int);
        assert(rest.drop_first() =~= all.subrange(i + 1, all.len() as int));
        assert(rest[0] == names@[i as int]@);
        let n = names[i].as_str();
        if has_root(n) {
            return Err(KeyNameError::Absolute);
        }
        if component_count(n) != 1 {
            return Err(KeyNameError::Separators);
        }
        i = i + 1;
    }
    assert(all.subrange(i as int, all.len() as int) =~= Seq::<Seq<char>>::empty());
    Ok(())
}

} // verus!
