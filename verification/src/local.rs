//! The machine this tool runs on, as a deployment target.
use vstd::prelude::*;
use vstd::string::*;

use crate::nix::{nix_args, views, NixFlags};
use crate::ssh::{extend_strings, push_str, push_string};
use crate::text::{lines, lines_seq, owned};

verus! {

/// The local machine. It may not be able to build every derivation (Linux
/// systems on macOS, say).
#[derive(Debug)]
pub struct Local {
    pub nix_options: NixFlags,
    /// Command to elevate privileges with, where one is needed.
    pub privilege_escalation_command: Option<Vec<String>>,
}

/// The escalation command, then `command`.
pub open spec fn privileged(esc: Option<Seq<Seq<char>>>, command: Seq<Seq<char>>) -> Seq<Seq<char>> {
    match esc {
        Some(e) => e + command,
        None => command,
    }
}

/// The command that activates a profile, run through `env` to ask for the boot
/// loader's installation where `install_bootloader` holds.
pub open spec fn with_bootloader(command: Seq<Seq<char>>, install_bootloader: bool) -> Seq<Seq<char>> {
    if install_bootloader {
        seq!["env"@, "NIXOS_INSTALL_BOOTLOADER=1"@] + command
    } else {
        command
    }
}

impl Local {
    pub fn new(nix_options: NixFlags) -> (r: Local)
        ensures
            r.nix_options == nix_options,
            r.privilege_escalation_command is None,
    {
        Local { nix_options, privilege_escalation_command: None }
    }

    pub fn set_privilege_escalation_command(&mut self, command: Option<Vec<String>>)
        ensures
            final(self).privilege_escalation_command == command,
            final(self).nix_options == old(self).nix_options,
    {
        self.privilege_escalation_command = command;
    }

    /// The escalation command's words, where there is one.
    pub open spec fn escalation(&self) -> Option<Seq<Seq<char>>> {
        match self.privilege_escalation_command {
            Some(v) => Some(views(v@)),
            None => None,
        }
    }

    /// The words of `command` run with elevated privileges: the escalation
    /// command, where one is set, then `command`. The first word names the program.
    pub fn privileged_command(&self, command: &Vec<String>) -> (r: Vec<String>)
        requires
            privileged(self.escalation(), views(command@)).len() > 0,
        ensures
            views(r@) == privileged(self.escalation(), views(command@)),
            r@.len() > 0,
    {
        let mut full: Vec<String> = Vec::new();
        if let Some(esc) = &self.privilege_escalation_command {
            extend_strings(&mut full, esc);
        }
        let ghost before = full@;
        extend_strings(&mut full, command);
        assert(views(full@) =~= privileged(self.escalation(), views(command@)));
        full
    }

    /// The arguments of `nix-store` that realise `derivation` locally.
    pub fn realise_args(&self, derivation: &str) -> (r: Vec<String>)
        ensures
            views(r@) == nix_args(self.nix_options, true) + seq!["--no-gc-warning"@, "--realise"@, derivation@],
    {
        let mut args = self.nix_options.to_nix_store_args();
        push_str(&mut args, "--no-gc-warning");
        push_str(&mut args, "--realise");
        push_string(&mut args, owned(derivation));
        args
    }
}

/// The activation command, asking for the boot loader where `install_bootloader` holds.
pub fn activation_command(command: &Vec<String>, install_bootloader: bool) -> (r: Vec<String>)
    ensures
        views(r@) == with_bootloader(views(command@), install_bootloader),
{
    let mut r: Vec<String> = Vec::new();
    if install_bootloader {
        push_str(&mut r, "env");
        push_str(&mut r, "NIXOS_INSTALL_BOOTLOADER=1");
    }
    let ghost before = r@;
    assert(install_bootloader ==> views(before) =~= seq!["env"@, "NIXOS_INSTALL_BOOTLOADER=1"@]);
    assert(!install_bootloader ==> views(before) =~= Seq::<Seq<char>>::empty());
    extend_strings(&mut r, command);
    assert(views(r@) =~= views(before) + views(command@));
    assert(views(r@) =~= with_bootloader(views(command@), install_bootloader));
    r
}

/// The first line of a command's output, where there is one.
pub fn first_line(output: &str) -> (r: Option<String>)
    ensures
        crate::nix::opt_view(r) == (if lines_seq(output@).len() > 0 {
            Some(lines_seq(output@)[0])
        } else {
            None
        }),
{
    let all = lines(output);
    if all.len() > 0 {
        assert(all@.map_values(|t: String| t@)[0] == all@[0]@);
        Some(owned(all[0].as_str()))
    } else {
        None
    }
}

} // verus!
