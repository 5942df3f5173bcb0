//! Provisioning: which provisioners run, the commands they run, and the
//! values they hand to Terraform.
use vstd::prelude::*;
use vstd::string::*;

use crate::input::among;
use crate::nix::{opt_view, views, NodeConfig, NodeName, PorkbunAccount, ProvisionerConfig, RegistrantsConfig};
use crate::ssh::{push_str, push_string};
use crate::terraform::underscored;
use crate::text::{concat2, concat3, ends_with_str, has_infix, has_suffix, contains_str, owned, str_eq, trim_seq, trim_str};
use crate::tree::names;

verus! {

/// Provisioning failed before anything ran.
#[derive(Debug)]
pub enum ProvisionError {
    /// A `command` provisioner without a command.
    NoCommand,
    /// A `flake-app` provisioner without an app.
    NoApp,
    /// A `terranix` provisioner without a configuration.
    NoConfiguration,
    /// No provisioner is declared at all.
    NoProvisioners,
    /// The named provisioner is not declared.
    UnknownProvisioner(String),
    /// No IP address was given for the node.
    NoIpAddress(String),
}

/// `names` holds `x`.
pub open spec fn has_name(names: Seq<Seq<char>>, x: Seq<char>) -> bool {
    names.contains(x)
}

/// The provisioners to run: the one asked for, or else those that the
/// selected nodes name, each once.
pub fn resolve_provisioners_to_run(explicit: &Option<String>, targets: &Vec<(NodeName, NodeConfig)>) -> (r: Vec<String>)
    ensures
        match explicit {
            Some(p) => views(r@) == seq![p@],
            None => {
                &&& crate::input::no_repeats(views(r@))
                &&& forall|x: Seq<char>| views(r@).contains(x) <==> exists|i: int|
                    0 <= i < targets@.len() && #[trigger] opt_view(targets@[i].1.provisioner) == Some(x)
            },
        },
{
    let mut r: Vec<String> = Vec::new();
    match explicit {
        Some(p) => {
            push_string(&mut r, owned(p.as_str()));
            assert(views(r@) =~= seq![p@]);
        },
        None => {
            let mut i: usize = 0;
            while i < targets.len()
                invariant
                    i <= targets@.len(),
                    crate::input::no_repeats(views(r@)),
                    forall|x: Seq<char>| views(r@).contains(x) <==> exists|k: int|
                        0 <= k < i && #[trigger] opt_view(targets@[k].1.provisioner) == Some(x),
                decreases targets@.len() - i,
            {
                if let Some(p) = &targets[i].1.provisioner {
                    let ghost rv = views(r@);
                    let mut seen = false;
                    let mut j: usize = 0;
                    while j < r.len()
                        invariant
                            j <= r@.len(),
                            rv == views(r@),
                            seen == among(rv, j as int, p@),
                        decreases r@.len() - j,
                    {
                        assert(rv[j as int] == r@[j as int]@);
                        if str_eq(r[j].as_str(), p.as_str()) {
                            seen = true;
                            assert(among(rv, j + 1, p@));
                        } else {
                            assert(among(rv, j + 1, p@) ==> among(rv, j as int, p@)) by {
                                if among(rv, j + 1, p@) {
                                    let k = choose|k: int| 0 <= k < j + 1 && #[trigger] rv[k] == p@;
                                    assert(k < j);
                                }
                            }
                            assert(among(rv, j as int, p@) ==> among(rv, j + 1, p@)) by {
                                if among(rv, j as int, p@) {
                                    let k = choose|k: int| 0 <= k < j && #[trigger] rv[k] == p@;
                                }
                            }
                        }
                        j = j + 1;
                    }
                    assert(seen == rv.contains(p@)) by {
                        if seen {
                            let k = choose|k: int| 0 <= k < j && #[trigger] rv[k] == p@;
                        }
                        if rv.contains(p@) {
                            let k = choose|k: int| 0 <= k < rv.len() && rv[k] == p@;
                            assert(among(rv, j as int, p@));
                        }
                    }
                    if !seen {
                        let ghost before = views(r@);
                        push_string(&mut r, owned(p.as_str()));
                        assert forall|a: int, b: int| 0 <= a < b < views(r@).len() implies views(r@)[a] != views(r@)[b] by {
                            if b == before.len() {
                                assert(before[a] == views(r@)[a]);
                                assert(before.contains(before[a]));
                            }
                        }
                        assert forall|x: Seq<char>| views(r@).contains(x) <==> exists|k: int|
                            0 <= k < i + 1 && #[trigger] opt_view(targets@[k].1.provisioner) == Some(x) by {
                            if views(r@).contains(x) && !before.contains(x) {
                                let a = choose|a: int| 0 <= a < views(r@).len() && views(r@)[a] == x;
                                assert(a == before.len());
                                assert(opt_view(targets@[i as int].1.provisioner) == Some(x));
                            }
                            if before.contains(x) {
                                let a = choose|a: int| 0 <= a < before.len() && before[a] == x;
                                assert(views(r@)[a] == x);
                            }
                            if exists|k: int| 0 <= k < i + 1 && #[trigger] opt_view(targets@[k].1.provisioner) == Some(x) {
                                let k = choose|k: int| 0 <= k < i + 1 && #[trigger] opt_view(targets@[k].1.provisioner) == Some(x);
                                if k == i {
                                    assert(views(r@)[before.len() as int] == x);
                                }
                            }
                        }
                    } else {
                        assert forall|x: Seq<char>| views(r@).contains(x) <==> exists|k: int|
                            0 <= k < i + 1 && #[trigger] opt_view(targets@[k].1.provisioner) == Some(x) by {
                            if exists|k: int| 0 <= k < i + 1 && #[trigger] opt_view(targets@[k].1.provisioner) == Some(x) {
                                let k = choose|k: int| 0 <= k < i + 1 && #[trigger] opt_view(targets@[k].1.provisioner) == Some(x);
                                if k == i {
                                    assert(views(r@).contains(p@));
                                }
                            }
                        }
                    }
                } else {
                    assert forall|x: Seq<char>| views(r@).contains(x) <==> exists|k: int|
                        0 <= k < i + 1 && #[trigger] opt_view(targets@[k].1.provisioner) == Some(x) by {
                        if exists|k: int| 0 <= k < i + 1 && #[trigger] opt_view(targets@[k].1.provisioner) == Some(x) {
                            let k = choose|k: int| 0 <= k < i + 1 && #[trigger] opt_view(targets@[k].1.provisioner) == Some(x);
                            assert(k != i);
                        }
                    }
                }
                i = i + 1;
            }
        },
    }
    r
}

/// The command a `command` provisioner runs: its command, through `sh -c`.
pub fn command_provisioner_args(config: &ProvisionerConfig) -> (r: Result<Vec<String>, ProvisionError>)
    ensures
        match config.command {
            Some(c) => r matches Ok(v) && views(v@) == seq!["sh"@, "-c"@, c@],
            None => r matches Err(ProvisionError::NoCommand),
        },
{
    match &config.command {
        Some(c) => {
            let mut v: Vec<String> = Vec::new();
            push_str(&mut v, "sh");
            push_str(&mut v, "-c");
            push_string(&mut v, owned(c.as_str()));
            assert(views(v@) =~= seq!["sh"@, "-c"@, c@]);
            Ok(v)
        },
        None => Err(ProvisionError::NoCommand),
    }
}

/// The command a `flake-app` provisioner runs: `nix run .#<app>`.
pub fn flake_app_args(config: &ProvisionerConfig) -> (r: Result<Vec<String>, ProvisionError>)
    ensures
        match config.app {
            Some(a) => r matches Ok(v) && views(v@) == seq!["nix"@, "run"@, ".#"@ + a@],
            None => r matches Err(ProvisionError::NoApp),
        },
{
    match &config.app {
        Some(a) => {
            let mut v: Vec<String> = Vec::new();
            push_str(&mut v, "nix");
            push_str(&mut v, "run");
            push_string(&mut v, concat2(".#", a.as_str()));
            assert(views(v@) =~= seq!["nix"@, "run"@, ".#"@ + a@]);
            Ok(v)
        },
        None => Err(ProvisionError::NoApp),
    }
}

/// The configuration derivation of a `terranix` provisioner.
pub fn terranix_configuration(config: &ProvisionerConfig) -> (r: Result<String, ProvisionError>)
    ensures
        match config.configuration {
            Some(c) => r matches Ok(s) && s@ == c@,
            None => r matches Err(ProvisionError::NoConfiguration),
        },
{
    match &config.configuration {
        Some(c) => Ok(owned(c.as_str())),
        None => Err(ProvisionError::NoConfiguration),
    }
}

/// The working directory of provisioner `name`.
pub fn work_dir(name: &str) -> (r: String)
    ensures
        r@ == ".navi/provision/"@ + name@,
{
    concat2(".navi/provision/", name)
}

/// The lock file named by `--update-tf-lock`: the path, or the lock file in it
/// where it is a directory.
pub fn lock_file_path(path: &str, is_dir: bool) -> (r: String)
    ensures
        r@ == if is_dir { path@ + "/.terraform.lock.hcl"@ } else { path@ },
{
    if is_dir {
        concat2(path, "/.terraform.lock.hcl")
    } else {
        owned(path)
    }
}

/// The directory that receives provisioner `name`'s facts.
pub fn facts_dir(dir_name: &str, name: &str) -> (r: String)
    ensures
        r@ == dir_name@ + "/"@ + name@,
{
    concat3(dir_name, "/", name)
}

/// The Nix file written beside the facts: it reads every output's value.
pub const FACTS_DEFAULT_NIX: &'static str = "let
  raw = builtins.fromJSON (builtins.readFile ./outputs.json);
in
  builtins.mapAttrs (n: v: v.value) raw
";

/// A Terraform variable to fill from a command's output.
#[derive(Debug)]
pub struct CredentialRequest {
    pub variable: String,
    pub command: String,
}

/// The variables of `account` to fetch: those it shares with Terraform that
/// the configuration declares, the API key first.
pub open spec fn account_requests(account: PorkbunAccount, defined: Seq<Seq<char>>) -> Seq<(Seq<char>, Seq<char>)> {
    if account.terraform_secrets {
        (if defined.contains(account.api_key_variable@) {
            seq![(account.api_key_variable@, account.api_key_command@)]
        } else {
            Seq::empty()
        }) + (if defined.contains(account.secret_key_variable@) {
            seq![(account.secret_key_variable@, account.secret_api_key_command@)]
        } else {
            Seq::empty()
        })
    } else {
        Seq::empty()
    }
}

/// The requests of the accounts `accts`, in order; where two name the same
/// variable, the later one wins.
pub open spec fn all_requests(accts: Seq<(String, PorkbunAccount)>, defined: Seq<Seq<char>>) -> Seq<(Seq<char>, Seq<char>)>
    decreases accts.len(),
{
    if accts.len() == 0 {
        Seq::empty()
    } else {
        all_requests(accts.drop_last(), defined) + account_requests(accts.last().1, defined)
    }
}

/// The views of credential requests.
pub open spec fn request_views(v: Seq<CredentialRequest>) -> Seq<(Seq<char>, Seq<char>)> {
    v.map_values(|c: CredentialRequest| (c.variable@, c.command@))
}

/// Whether `defined` holds `x`.
fn defines(defined: &Vec<String>, x: &str) -> (r: bool)
    ensures
        r == views(defined@).contains(x@),
{
    let mut i: usize = 0;
    while i < defined.len()
        invariant
            i <= defined@.len(),
            forall|k: int| 0 <= k < i ==> defined@[k]@ != x@,
        decreases defined@.len() - i,
    {
        if str_eq(defined[i].as_str(), x) {
            assert(views(defined@)[i as int] == x@);
            return true;
        }
        i = i + 1;
    }
    assert forall|k: int| 0 <= k < views(defined@).len() implies views(defined@)[k] != x@ by {
        assert(views(defined@)[k] == defined@[k]@);
    }
    false
}

/// The Terraform variables to fill from the Porkbun accounts' commands, in
/// order (see [`all_requests`]); `defined` are the variables the configuration declares.
pub fn credential_requests(registrants: &RegistrantsConfig, defined: &Vec<String>) -> (r: Vec<CredentialRequest>)
    ensures
        request_views(r@) == all_requests(registrants.porkbun@, views(defined@)),
{
    let ghost dv = views(defined@);
    let mut r: Vec<CredentialRequest> = Vec::new();
    let mut i: usize = 0;
    while i < registrants.porkbun.len()
        invariant
            i <= registrants.porkbun@.len(),
            dv == views(defined@),
            request_views(r@) == all_requests(registrants.porkbun@.subrange(0, i as int), dv),
        decreases registrants.porkbun@.len() - i,
    {
        let ghost pre = registrants.porkbun@.subrange(0, i + 1);
        assert(pre.drop_last() =~= registrants.porkbun@.subrange(0, i as int));
        let account = &registrants.porkbun[i].1;
        let ghost before = request_views(r@);
        if account.terraform_secrets {
            if defines(defined, account.api_key_variable.as_str()) {
                let ghost b = request_views(r@);
                r.push(CredentialRequest {
                    variable: owned(account.api_key_variable.as_str()),
                    command: owned(account.api_key_command.as_str()),
                });
                assert(request_views(r@) =~= b.push((account.api_key_variable@, account.api_key_command@)));
            }
            if defines(defined, account.secret_key_variable.as_str()) {
                let ghost b = request_views(r@);
                r.push(CredentialRequest {
                    variable: owned(account.secret_key_variable.as_str()),
                    command: owned(account.secret_api_key_command.as_str()),
                });
                assert(request_views(r@) =~= b.push((account.secret_key_variable@, account.secret_api_key_command@)));
            }
        }
        assert(request_views(r@) =~= before + account_requests(pre.last().1, dv));
        i = i + 1;
    }
    assert(registrants.porkbun@.subrange(0, registrants.porkbun@.len() as int) =~= registrants.porkbun@);
    r
}

/// The nodes that provisioner `name` serves, in order.
pub fn relevant_nodes(targets: &Vec<(NodeName, NodeConfig)>, name: &str) -> (r: Vec<NodeName>)
    ensures
        names(r@) == targets@.filter(|t: (NodeName, NodeConfig)| opt_view(t.1.provisioner) == Some(name@)).map_values(
            |t: (NodeName, NodeConfig)| t.0@,
        ),
{
    let ghost pred = |t: (NodeName, NodeConfig)| opt_view(t.1.provisioner) == Some(name@);
    let ghost f = |t: (NodeName, NodeConfig)| t.0@;
    let mut r: Vec<NodeName> = Vec::new();
    let mut i: usize = 0;
    assert(targets@.subrange(0, 0).filter(pred) =~= Seq::empty()) by {
        reveal(Seq::filter);
    }
    while i < targets.len()
        invariant
            i <= targets@.len(),
            pred == (|t: (NodeName, NodeConfig)| opt_view(t.1.provisioner) == Some(name@)),
            f == (|t: (NodeName, NodeConfig)| t.0@),
            names(r@) == targets@.subrange(0, i as int).filter(pred).map_values(f),
        decreases targets@.len() - i,
    {
        let ghost pre = targets@.subrange(0, i + 1);
        assert(pre.drop_last() =~= targets@.subrange(0, i as int));
        assert(pre.filter(pred) == if pred(pre.last()) {
            pre.drop_last().filter(pred).push(pre.last())
        } else {
            pre.drop_last().filter(pred)
        }) by {
            reveal(Seq::filter);
        }
        let hit = match &targets[i].1.provisioner {
            Some(p) => str_eq(p.as_str(), name),
            None => false,
        };
        if hit {
            let ghost before = r@;
            r.push(targets[i].0.clone());
            assert(names(r@) =~= names(before).push(targets@[i as int].0@));
            assert(pre.drop_last().filter(pred).push(pre.last()).map_values(f) =~= pre.drop_last().filter(pred).map_values(
                f,
            ).push(f(pre.last())));
        }
        i = i + 1;
    }
    assert(targets@.subrange(0, targets@.len() as int) =~= targets@);
    r
}

/// The fact that holds a bare-metal node's address: its name with dashes made
/// underscores, then `_ip`.
pub fn ip_key(node: &str) -> (r: String)
    ensures
        r@ == underscored(node@) + "_ip"@,
{
    let u = crate::terraform::underscore_name(node);
    concat2(u.as_str(), "_ip")
}

/// Where a bare-metal node's address comes from.
#[derive(Debug)]
pub enum IpChoice {
    /// This address.
    Use(String),
    /// Ask, offering the known address as default where there is one.
    Ask(Option<String>),
}

/// The address of a bare-metal node: the known one unless reprovisioning;
/// else the one given on the command line; else ask.
pub fn ip_choice(reprovision: bool, existing: &Option<String>, flag: &Option<String>) -> (r: IpChoice)
    ensures
        match r {
            IpChoice::Use(ip) => (!reprovision && existing is Some && ip@ == existing->0@) || ((reprovision
                || existing is None) && flag is Some && ip@ == flag->0@),
            IpChoice::Ask(hint) => (reprovision || existing is None) && flag is None && opt_view(hint) == opt_view(*existing),
        },
        !reprovision && existing is Some ==> r is Use,
        (reprovision || existing is None) && flag is Some ==> r is Use,
{
    if !reprovision {
        if let Some(e) = existing {
            return IpChoice::Use(owned(e.as_str()));
        }
    }
    match flag {
        Some(ip) => IpChoice::Use(owned(ip.as_str())),
        None => IpChoice::Ask(crate::nix::clone_opt(existing)),
    }
}

/// The address typed at the prompt: the answer without surrounding whitespace,
/// or the offered default for an empty answer; with neither, none was given.
pub fn ip_answer(node: &str, answer: &str, default: &Option<String>) -> (r: Result<String, ProvisionError>)
    ensures
        trim_seq(answer@).len() > 0 ==> (r matches Ok(ip) && ip@ == trim_seq(answer@)),
        trim_seq(answer@).len() == 0 ==> match default {
            Some(d) => r matches Ok(ip) && ip@ == d@,
            None => r matches Err(ProvisionError::NoIpAddress(n)) && n@ == node@,
        },
{
    let t = trim_str(answer);
    if t.as_str().unicode_len() == 0 {
        match default {
            Some(d) => Ok(owned(d.as_str())),
            None => Err(ProvisionError::NoIpAddress(owned(node))),
        }
    } else {
        Ok(t)
    }
}

/// A provider that the configuration requires is a Porkbun one: its source
/// ends with `/porkbun` or its alias mentions `porkbun`.
pub open spec fn is_porkbun(alias: Seq<char>, source: Option<Seq<char>>) -> bool {
    match source {
        Some(s) => has_suffix(s, "/porkbun"@) || has_infix(alias, "porkbun"@),
        None => false,
    }
}

/// Whether a required provider is a Porkbun one (see [`is_porkbun`]).
pub fn porkbun_provider(alias: &str, source: Option<&str>) -> (r: bool)
    ensures
        r == is_porkbun(alias@, match source {
            Some(s) => Some(s@),
            None => None,
        }),
{
    match source {
        Some(s) => ends_with_str(s, "/porkbun") || contains_str(alias, "porkbun"),
        None => false,
    }
}

/// The settings injected for a Porkbun provider that has none: its keys, read
/// from the Terraform variables `api_var` and `secret_var`.
pub fn porkbun_provider_settings(api_var: &str, secret_var: &str) -> (r: (String, String))
    ensures
        r.0@ == "${var."@ + api_var@ + "}"@,
        r.1@ == "${var."@ + secret_var@ + "}"@,
{
    (concat3("${var.", api_var, "}"), concat3("${var.", secret_var, "}"))
}


/// The required providers that get a configuration injected: the Porkbun
/// ones (see [`is_porkbun`]) that the configuration does not configure, in order.
pub open spec fn aliases_to_inject(required: Seq<(String, Option<String>)>, configured: Seq<Seq<char>>) -> Seq<Seq<char>>
    decreases required.len(),
{
    if required.len() == 0 {
        Seq::empty()
    } else {
        let (alias, source) = required.last();
        aliases_to_inject(required.drop_last(), configured) + if is_porkbun(alias@, opt_view(source)) && !configured.contains(alias@) {
            seq![alias@]
        } else {
            Seq::empty()
        }
    }
}

/// The providers to configure (see [`aliases_to_inject`]): `required` holds
/// each required provider's alias and source, `configured` the aliases that
/// have a configuration block.
pub fn providers_to_inject(required: &Vec<(String, Option<String>)>, configured: &Vec<String>) -> (r: Vec<String>)
    ensures
        views(r@) == aliases_to_inject(required@, views(configured@)),
{
    let mut r: Vec<String> = Vec::new();
    let mut i: usize = 0;
    while i < required.len()
        invariant
            i <= required@.len(),
            views(r@) == aliases_to_inject(required@.subrange(0, i as int), views(configured@)),
        decreases required@.len() - i,
    {
        assert(required@.subrange(0, i + 1).drop_last() =~= required@.subrange(0, i as int));
        let (alias, source) = &required[i];
        let src = match source {
            Some(s) => Some(s.as_str()),
            None => None,
        };
        let porkbun = porkbun_provider(alias.as_str(), src);
        if porkbun && !defines(configured, alias.as_str()) {
            push_string(&mut r, alias.clone());
        }
        assert(views(r@) =~= aliases_to_inject(required@.subrange(0, i + 1), views(configured@)));
        i = i + 1;
    }
    assert(required@.subrange(0, required@.len() as int) =~= required@);
    r
}

} // verus!
