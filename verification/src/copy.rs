//! Copying store closures to and from a host over SSH.
use vstd::prelude::*;
use vstd::string::*;

use crate::nix::views;
use crate::ssh::{push_str, push_string, shell_quote, shell_quoted, target_of, Ssh};
use crate::text::{concat2, has_suffix, join_seq, join_strings, owned, ends_with_str};

verus! {

/// Which way a closure is copied.
#[derive(Debug, Clone, Copy, PartialEq, Eq, Structural)]
pub enum CopyDirection {
    ToRemote,
    FromRemote,
}

/// How a closure is copied.
#[derive(Debug, Clone, Copy, PartialEq, Eq, Structural)]
pub struct CopyOptions {
    pub include_outputs: bool,
    pub use_substitutes: bool,
    pub gzip: bool,
}

/// A command to run: program, arguments, and the value of `NIX_SSHOPTS`.
#[derive(Debug)]
pub struct CopyCommand {
    pub program: String,
    pub args: Vec<String>,
    pub nix_sshopts: String,
}

/// The arguments of the copy: with `nix copy` over `ssh-ng://` where the
/// experimental command is used, else with `nix-copy-closure`.
pub open spec fn copy_args(target: Seq<char>, path: Seq<char>, to_remote: bool, o: CopyOptions, nix3: bool) -> Seq<Seq<char>> {
    let dir = if to_remote { "--to"@ } else { "--from"@ };
    if nix3 {
        seq!["--extra-experimental-features"@, "nix-command"@, "copy"@, "--no-check-sigs"@] + (if o.use_substitutes {
            seq!["--substitute-on-destination"@, "--builders-use-substitutes"@]
        } else {
            Seq::empty()
        }) + (if has_suffix(path, ".drv"@) { seq!["--derivation"@] } else { Seq::empty() }) + seq![dir]
            + seq!["ssh-ng://"@ + target + (if o.gzip { "?compress=true"@ } else { Seq::empty() }), path]
    } else {
        seq![dir] + (if o.include_outputs { seq!["--include-outputs"@] } else { Seq::empty() }) + (if o.use_substitutes {
            seq!["--use-substitutes"@]
        } else {
            Seq::empty()
        }) + (if o.gzip { seq!["--gzip"@] } else { Seq::empty() }) + seq![target, path]
    }
}

/// The SSH options as `NIX_SSHOPTS` holds them: each quoted for the shell, separated by spaces.
pub open spec fn sshopts_text(opts: Seq<Seq<char>>) -> Seq<char> {
    join_seq(opts.map_values(|o: Seq<char>| shell_quoted(o)), " "@)
}

/// The command that copies the closure of `path` between here and `host`,
/// whose SSH options are `ssh_options`.
pub fn nix_copy_closure(host: &Ssh, ssh_options: &Vec<String>, path: &str, direction: CopyDirection, options: CopyOptions) -> (r: CopyCommand)
    ensures
        r.program@ == (if host.use_nix3_copy { "nix"@ } else { "nix-copy-closure"@ }),
        views(r.args@) == copy_args(
            target_of(crate::nix::opt_view(host.user), host.host@),
            path@,
            direction == CopyDirection::ToRemote,
            options,
            host.use_nix3_copy,
        ),
        r.nix_sshopts@ == sshopts_text(views(ssh_options@)),
{
    let mut quoted: Vec<String> = Vec::new();
    let mut i: usize = 0;
    while i < ssh_options.len()
        invariant
            i <= ssh_options@.len(),
            views(quoted@) == views(ssh_options@).subrange(0, i as int).map_values(|o: Seq<char>| shell_quoted(o)),
        decreases ssh_options@.len() - i,
    {
        let ghost before = views(quoted@);
        push_string(&mut quoted, shell_quote(ssh_options[i].as_str()));
        assert(views(ssh_options@).subrange(0, i + 1) =~= views(ssh_options@).subrange(0, i as int).push(ssh_options@[i as int]@));
        assert(views(quoted@) =~= views(ssh_options@).subrange(0, i + 1).map_values(|o: Seq<char>| shell_quoted(o)));
        i = i + 1;
    }
    assert(views(ssh_options@).subrange(0, ssh_options@.len() as int) =~= views(ssh_options@));
    let opts_text = join_strings(&quoted, " ");
    assert(quoted@.map_values(|s: String| s@) == views(quoted@));
    let target = host.ssh_target();
    let dir = match direction {
        CopyDirection::ToRemote => "--to",
        CopyDirection::FromRemote => "--from",
    };
    let mut args: Vec<String> = Vec::new();
    if host.use_nix3_copy {
        push_str(&mut args, "--extra-experimental-features");
        push_str(&mut args, "nix-command");
        push_str(&mut args, "copy");
        push_str(&mut args, "--no-check-sigs");
        let ghost a1 = views(args@);
        if options.use_substitutes {
            push_str(&mut args, "--substitute-on-destination");
            push_str(&mut args, "--builders-use-substitutes");
        }
        let ghost a2 = views(args@);
        if ends_with_str(path, ".drv") {
            push_str(&mut args, "--derivation");
        }
        let ghost a3 = views(args@);
        push_str(&mut args, dir);
        let mut uri = concat2("ssh-ng://", target.as_str());
        if options.gzip {
            uri.append("?compress=true");
        }
        let ghost uv = uri@;
        push_string(&mut args, uri);
        push_string(&mut args, owned(path));
        assert(views(args@) =~= copy_args(
            target@,
            path@,
            direction == CopyDirection::ToRemote,
            options,
            true,
        ));
        CopyCommand { program: owned("nix"), args, nix_sshopts: opts_text }
    } else {
        push_str(&mut args, dir);
        if options.include_outputs {
            push_str(&mut args, "--include-outputs");
        }
        if options.use_substitutes {
            push_str(&mut args, "--use-substitutes");
        }
        if options.gzip {
            push_str(&mut args, "--gzip");
        }
        push_string(&mut args, target);
        push_string(&mut args, owned(path));
        assert(views(args@) =~= copy_args(
            target_of(crate::nix::opt_view(host.user), host.host@),
            path@,
            direction == CopyDirection::ToRemote,
            options,
            false,
        ));
        CopyCommand { program: owned("nix-copy-closure"), args, nix_sshopts: opts_text }
    }
}


/// The direction of a copy is the one asked for: among the flags that come
/// before the host and the path (the last two arguments), a copy to the remote
/// carries `--to` and never `--from`, and a copy from the remote `--from` and
/// never `--to`, with either copy program. The path is always the last argument.
pub proof fn lemma_copy_direction(target: Seq<char>, path: Seq<char>, to_remote: bool, o: CopyOptions, nix3: bool)
    ensures
        ({
            let a = copy_args(target, path, to_remote, o, nix3);
            let flags = a.subrange(0, a.len() - 2);
            &&& a.len() >= 3
            &&& a.last() == path
            &&& flags.contains(if to_remote { "--to"@ } else { "--from"@ })
            &&& !flags.contains(if to_remote { "--from"@ } else { "--to"@ })
        }),
{
    reveal_strlit("--to");
    reveal_strlit("--from");
    reveal_strlit("--extra-experimental-features");
    reveal_strlit("nix-command");
    reveal_strlit("copy");
    reveal_strlit("--no-check-sigs");
    reveal_strlit("--substitute-on-destination");
    reveal_strlit("--builders-use-substitutes");
    reveal_strlit("--derivation");
    reveal_strlit("--include-outputs");
    reveal_strlit("--use-substitutes");
    reveal_strlit("--gzip");
    let a = copy_args(target, path, to_remote, o, nix3);
    let dir = if to_remote { "--to"@ } else { "--from"@ };
    let other = if to_remote { "--from"@ } else { "--to"@ };
    let flags = a.subrange(0, a.len() - 2);
    assert(dir != other) by {
        assert(dir[2] != other[2]);
    }
    if nix3 {
        let subs: Seq<Seq<char>> = if o.use_substitutes {
            seq!["--substitute-on-destination"@, "--builders-use-substitutes"@]
        } else {
            Seq::empty()
        };
        let drv: Seq<Seq<char>> = if has_suffix(path, ".drv"@) { seq!["--derivation"@] } else { Seq::empty() };
        let head = seq!["--extra-experimental-features"@, "nix-command"@, "copy"@, "--no-check-sigs"@];
        assert(flags =~= head + subs + drv + seq![dir]);
        assert(flags[flags.len() - 1] == dir);
        assert forall|k: int| 0 <= k < flags.len() implies flags[k] != other by {
            if k < 4 {
                assert(flags[k] == head[k]);
                assert(head[k].len() != other.len() || head[k][2] != other[2] || head[k][3] != other[3]);
            } else if k < 4 + subs.len() {
                assert(flags[k] == subs[k - 4]);
                assert(subs[k - 4].len() != other.len());
            } else if k < 4 + subs.len() + drv.len() {
                assert(flags[k] == drv[k - 4 - subs.len()]);
                assert(drv[k - 4 - subs.len()].len() != other.len());
            } else {
                assert(flags[k] == dir);
            }
        }
    } else {
        let outs: Seq<Seq<char>> = if o.include_outputs { seq!["--include-outputs"@] } else { Seq::empty() };
        let subs: Seq<Seq<char>> = if o.use_substitutes { seq!["--use-substitutes"@] } else { Seq::empty() };
        let gz: Seq<Seq<char>> = if o.gzip { seq!["--gzip"@] } else { Seq::empty() };
        assert(flags =~= seq![dir] + outs + subs + gz);
        assert(flags[0] == dir);
        assert forall|k: int| 0 <= k < flags.len() implies flags[k] != other by {
            if k == 0 {
            } else if k < 1 + outs.len() {
                assert(flags[k] == outs[k - 1]);
                assert(outs[k - 1].len() != other.len());
            } else if k < 1 + outs.len() + subs.len() {
                assert(flags[k] == subs[k - 1 - outs.len()]);
                assert(subs[k - 1 - outs.len()].len() != other.len());
            } else {
                assert(flags[k] == gz[k - 1 - outs.len() - subs.len()]);
                assert(gz[k - 1 - outs.len() - subs.len()].len() != other.len() || gz[k - 1 - outs.len() - subs.len()][2] != other[2]);
            }
        }
    }
}

} // verus!
