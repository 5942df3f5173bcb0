//! Comparing the system a node runs with the one built locally.
use vstd::prelude::*;
use vstd::string::*;

use crate::nix::NodeConfig;
use crate::text::{concat2, concat3, owned, str_eq};

verus! {

/// Where the node's running system is read: `localhost` for a node without a
/// target host (or one named so), else `user@host`, the user `root` by default.
pub open spec fn diff_target_of(c: NodeConfig) -> Seq<char> {
    let host = match c.target_host {
        Some(h) => h@,
        None => "localhost"@,
    };
    if host == "localhost"@ {
        "localhost"@
    } else {
        (match c.target_user {
            Some(u) => u@,
            None => "root"@,
        }) + "@"@ + host
    }
}

/// Where the node's running system is read (see [`diff_target_of`]), and
/// whether that is this machine.
pub fn diff_target(config: &NodeConfig) -> (r: (String, bool))
    ensures
        r.0@ == diff_target_of(*config),
        r.1 == match config.target_host {
            Some(h) => h@ == "localhost"@,
            None => true,
        },
{
    let host = match &config.target_host {
        Some(h) => h.as_str(),
        None => "localhost",
    };
    if str_eq(host, "localhost") {
        (owned("localhost"), true)
    } else {
        let user = match &config.target_user {
            Some(u) => u.as_str(),
            None => "root",
        };
        (concat3(user, "@", host), false)
    }
}

/// The attribute that builds the node's system locally.
pub fn toplevel_attr(node: &str) -> (r: String)
    ensures
        r@ == ".#nixosConfigurations.\""@ + node@ + "\".config.system.build.toplevel"@,
{
    concat3(".#nixosConfigurations.\"", node, "\".config.system.build.toplevel")
}

/// What running `nix store diff-closures` gave.
#[derive(Debug)]
pub enum ClosureDiff {
    /// It ran: its output, whether it succeeded, its error output.
    Ran { stdout: String, success: bool, stderr: String },
    /// It could not be started.
    NotStarted(String),
}

/// The difference shown: `nvd`'s where it gave any, else that of
/// `diff-closures`, with its error output after a failure.
pub open spec fn diff_text_of(nvd: Option<Seq<char>>, fallback: ClosureDiff) -> Seq<char> {
    match nvd {
        Some(t) if t.len() > 0 => t,
        _ => match fallback {
            ClosureDiff::Ran { stdout, success, stderr } => if success {
                stdout@
            } else {
                stdout@ + "\n--- Stderr ---\n"@ + stderr@
            },
            ClosureDiff::NotStarted(e) => "Both nvd and nix store diff-closures failed: "@ + e@,
        },
    }
}

/// The difference shown (see [`diff_text_of`]). `nvd` is `nvd`'s output where it succeeded.
pub fn diff_text(nvd: Option<&str>, fallback: &ClosureDiff) -> (r: String)
    ensures
        r@ == diff_text_of(match nvd {
            Some(t) => Some(t@),
            None => None,
        }, *fallback),
{
    if let Some(t) = nvd {
        if t.unicode_len() > 0 {
            return owned(t);
        }
    }
    match fallback {
        ClosureDiff::Ran { stdout, success, stderr } => if *success {
            owned(stdout.as_str())
        } else {
            concat3(stdout.as_str(), "\n--- Stderr ---\n", stderr.as_str())
        },
        ClosureDiff::NotStarted(e) => concat2("Both nvd and nix store diff-closures failed: ", e.as_str()),
    }
}

/// The report of a diff.
pub fn diff_report(node: &str, remote: &str, local: &str, diff: &str) -> (r: String)
    ensures
        r@ == "Diff for "@ + node@ + "\nRemote: "@ + remote@ + "\nLocal:  "@ + local@ + "\n\n"@ + diff@,
{
    let mut r = concat3("Diff for ", node, "\nRemote: ");
    r.append(remote);
    r.append("\nLocal:  ");
    r.append(local);
    r.append("\n\n");
    r.append(diff);
    r
}


/// The shown difference is `nvd`'s where it gave any, whatever `diff-closures`
/// did; otherwise it begins with the standard output of `diff-closures`, and
/// is exactly that output when `diff-closures` succeeded.
pub proof fn lemma_diff_text_sources(nvd: Option<Seq<char>>, stdout: String, success: bool, stderr: String, other: ClosureDiff)
    ensures
        nvd is Some && nvd->0.len() > 0 ==> diff_text_of(nvd, other) == nvd->0,
        !(nvd is Some && nvd->0.len() > 0) ==> {
            let shown = diff_text_of(nvd, ClosureDiff::Ran { stdout, success, stderr });
            &&& stdout@.len() <= shown.len()
            &&& shown.subrange(0, stdout@.len() as int) == stdout@
            &&& (success ==> shown == stdout@)
        },
{
    let shown = diff_text_of(nvd, ClosureDiff::Ran { stdout, success, stderr });
    if !(nvd is Some && nvd->0.len() > 0) {
        if success {
            assert(shown.subrange(0, stdout@.len() as int) =~= stdout@);
        } else {
            assert(shown == stdout@ + "\n--- Stderr ---\n"@ + stderr@);
            assert(shown.subrange(0, stdout@.len() as int) =~= stdout@);
        }
    }
}

} // verus!
