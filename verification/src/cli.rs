//! Command-line settings that are decided before any work starts.
use vstd::prelude::*;
use vstd::string::*;

use crate::hive::EvaluationMethod;
use crate::nix::{views, NaviError};
use crate::text::owned;

verus! {

/// When to colour the output.
#[derive(Debug, Clone, Copy, PartialEq, Eq, Structural)]
pub enum ColorWhen {
    /// Detect it.
    Auto,
    /// Always colour.
    Always,
    /// Never colour.
    Never,
}

impl Default for ColorWhen {
    fn default() -> (r: Self)
        ensures
            r == ColorWhen::Auto,
    {
        ColorWhen::Auto
    }
}

impl ColorWhen {
    /// The word that selects this choice on the command line.
    pub fn as_str(&self) -> (r: &'static str)
        ensures
            r@ == match *self {
                ColorWhen::Auto => "auto"@,
                ColorWhen::Always => "always"@,
                ColorWhen::Never => "never"@,
            },
    {
        match self {
            ColorWhen::Auto => "auto",
            ColorWhen::Always => "always",
            ColorWhen::Never => "never",
        }
    }

    /// The colour setting to force: none where it is detected.
    pub fn forced(&self) -> (r: Option<bool>)
        ensures
            r == match *self {
                ColorWhen::Auto => None,
                ColorWhen::Always => Some(true),
                ColorWhen::Never => Some(false),
            },
    {
        match self {
            ColorWhen::Auto => None,
            ColorWhen::Always => Some(true),
            ColorWhen::Never => Some(false),
        }
    }
}

/// The subcommands of `daemon`.
#[derive(Debug, Clone, Copy, PartialEq, Eq, Structural)]
pub enum DaemonCommand {
    /// Start the daemon.
    Start,
    /// Report whether it runs and what it does.
    Status,
}

/// The `--nix-option NAME VALUE` pairs of `words`, taken two by two; an odd word
/// at the end is ignored.
pub open spec fn option_pairs(words: Seq<Seq<char>>) -> Seq<(Seq<char>, Seq<char>)>
    decreases words.len(),
{
    if words.len() < 2 {
        Seq::empty()
    } else {
        seq![(words[0], words[1])] + option_pairs(words.skip(2))
    }
}

/// The pairs of words as Nix options.
pub fn nix_option_pairs(words: &Vec<String>) -> (r: Vec<(String, String)>)
    ensures
        r@.map_values(|p: (String, String)| (p.0@, p.1@)) == option_pairs(views(words@)),
{
    let ghost w = views(words@);
    let mut r: Vec<(String, String)> = Vec::new();
    let mut i: usize = 0;
    assert(w.skip(0) =~= w);
    while i < words.len() && words.len() - i >= 2
        invariant
            i <= words@.len(),
            w == views(words@),
            r@.map_values(|p: (String, String)| (p.0@, p.1@)) + option_pairs(w.skip(i as int)) == option_pairs(w),
        decreases words@.len() - i,
    {
        let ghost before = r@.map_values(|p: (String, String)| (p.0@, p.1@));
        let ghost rest = w.skip(i as int);
        assert(rest.skip(2) =~= w.skip(i + 2));
        assert(rest[0] == words@[i as int]@);
        assert(rest[1] == words@[i + 1]@);
        r.push((owned(words[i].as_str()), owned(words[i + 1].as_str())));
        assert(r@.map_values(|p: (String, String)| (p.0@, p.1@)) =~= before.push((rest[0], rest[1])));
        i = i + 2;
    }
    assert(option_pairs(w.skip(i as int)) =~= Seq::empty());
    assert(r@.map_values(|p: (String, String)| (p.0@, p.1@)) =~= r@.map_values(|p: (String, String)| (p.0@, p.1@)) + Seq::<(Seq<char>, Seq<char>)>::empty());
    r
}

/// The evaluation settings that the global flags ask for.
#[derive(Debug)]
pub struct HiveSettings {
    pub show_trace: bool,
    pub impure: bool,
    /// Evaluation method forced by the flags, where one is.
    pub evaluation_method: Option<EvaluationMethod>,
    pub nix_options: Vec<(String, String)>,
}

/// The settings of the global flags. The retired flag that once turned on
/// direct flake evaluation is refused; legacy flake evaluation selects
/// `nix-instantiate`.
pub fn hive_settings(
    show_trace: bool,
    impure: bool,
    experimental_flake_eval: bool,
    legacy_flake_eval: bool,
    nix_option: &Vec<String>,
) -> (r: Result<HiveSettings, NaviError>)
    ensures
        experimental_flake_eval ==> r == Err::<HiveSettings, NaviError>(NaviError::Unsupported),
        !experimental_flake_eval ==> (r matches Ok(s) && s.show_trace == show_trace && s.impure == impure
            && s.evaluation_method == (if legacy_flake_eval { Some(EvaluationMethod::NixInstantiate) } else { None })
            && s.nix_options@.map_values(|p: (String, String)| (p.0@, p.1@)) == option_pairs(views(nix_option@))),
{
    if experimental_flake_eval {
        return Err(NaviError::Unsupported);
    }
    let method = if legacy_flake_eval { Some(EvaluationMethod::NixInstantiate) } else { None };
    Ok(HiveSettings { show_trace, impure, evaluation_method: method, nix_options: nix_option_pairs(nix_option) })
}

} // verus!
