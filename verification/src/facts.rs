//! Facts: values computed from the configuration ahead of time, chosen by glob patterns.
use vstd::prelude::*;
use vstd::string::*;

use crate::nix::{nix_args, views, NixFlags};
use crate::ssh::{extend_strings, push_str, push_string};
use crate::text::{concat2, concat3, contains_str, has_infix, owned};

verus! {

#[verifier::external_type_specification]
#[verifier::external_body]
pub struct ExPattern(glob::Pattern);

#[verifier::external_type_specification]
#[verifier::external_body]
pub struct ExPatternError(glob::PatternError);

/// The subcommands of `facts`.
#[derive(Debug)]
pub enum FactsCommand {
    /// Derive facts from the configuration.
    Derive(DeriveOpts),
}

/// Options of `facts derive`.
#[derive(Debug)]
pub struct DeriveOpts {
    /// Glob patterns that choose the facts; all of them where none is given.
    pub filters: Vec<String>,
}

/// Whether `glob::Pattern::new` accepts `pattern`.
pub uninterp spec fn glob_valid(pattern: Seq<char>) -> bool;

/// Whether the glob `pattern` matches `name` (`glob::Pattern::matches`, default options).
pub uninterp spec fn glob_match(pattern: Seq<char>, name: Seq<char>) -> bool;

/// The text of the error that `glob::Pattern::new` reports for an invalid
/// `pattern` (its `Display` form: where and what went wrong).
pub uninterp spec fn glob_error_text(pattern: Seq<char>) -> Seq<char>;

/// Compiles a glob pattern (`glob::Pattern::new`), an error by its text. The
/// result depends on the pattern alone; `*` is accepted.
#[verifier::external_body]
fn compile_glob(pattern: &str) -> (r: Result<glob::Pattern, String>)
    ensures
        r is Ok <==> glob_valid(pattern@),
        r matches Err(m) ==> m@ == glob_error_text(pattern@),
        pattern@ == "*"@ ==> r is Ok,
{
    match glob::Pattern::new(pattern) {
        Ok(p) => Ok(p),
        Err(e) => Err(e.to_string()),
    }
}

/// A compiled glob pattern with the text it was compiled from.
#[derive(Debug)]
pub struct GlobPattern {
    source: String,
    compiled: glob::Pattern,
}

impl GlobPattern {
    /// The text of the pattern.
    pub closed spec fn text(&self) -> Seq<char> {
        self.source@
    }

    /// Compiles `pattern`; an invalid pattern is refused with glob's error text.
    pub fn compile(pattern: &str) -> (r: Result<GlobPattern, String>)
        ensures
            r is Ok <==> glob_valid(pattern@),
            pattern@ == "*"@ ==> r is Ok,
            r matches Ok(p) ==> p.text() == pattern@,
            r matches Err(m) ==> m@ == glob_error_text(pattern@),
    {
        match compile_glob(pattern) {
            Ok(compiled) => Ok(GlobPattern { source: owned(pattern), compiled }),
            Err(m) => Err(m),
        }
    }

    /// Compiles `pattern`; an invalid pattern is refused.
    pub fn new(pattern: &str) -> (r: Option<GlobPattern>)
        ensures
            r is Some <==> glob_valid(pattern@),
            pattern@ == "*"@ ==> r is Some,
            r matches Some(p) ==> p.text() == pattern@,
    {
        match GlobPattern::compile(pattern) {
            Ok(p) => Some(p),
            Err(_) => None,
        }
    }

    /// Whether the pattern matches `name`.
    pub fn matches(&self, name: &str) -> (r: bool)
        ensures
            r == glob_match(self.text(), name@),
    {
        glob_matches(self, name)
    }
}

/// Whether `p` matches `name` (`glob::Pattern::matches`). `*` matches every name.
#[verifier::external_body]
fn glob_matches(p: &GlobPattern, name: &str) -> (r: bool)
    ensures
        r == glob_match(p.source@, name@),
        p.source@ == "*"@ ==> r,
{
    p.compiled.matches(name)
}

/// The patterns that choose facts: the filters, or `*` where there are none.
pub open spec fn effective_patterns(filters: Seq<Seq<char>>) -> Seq<Seq<char>> {
    if filters.len() == 0 {
        seq!["*"@]
    } else {
        filters
    }
}

/// Some pattern of `pats` matches `name`.
pub open spec fn any_match(pats: Seq<Seq<char>>, name: Seq<char>) -> bool {
    exists|i: int| 0 <= i < pats.len() && glob_match(#[trigger] pats[i], name)
}

/// Choosing the facts failed.
#[derive(Debug)]
pub enum FactsError {
    /// A filter is not a valid glob pattern; glob's error text.
    InvalidPattern(String),
}

/// The facts that the filters choose, in order: those that some pattern
/// matches, every pattern being `*` where there is no filter. The first filter
/// that is not a valid pattern is refused, with glob's error for it.
pub fn select_facts(facts: &Vec<String>, filters: &Vec<String>) -> (r: Result<Vec<String>, FactsError>)
    ensures
        r is Ok <==> (forall|i: int| 0 <= i < filters@.len() ==> glob_valid(#[trigger] filters@[i]@)),
        r matches Ok(v) ==> views(v@) == views(facts@).filter(|f: Seq<char>| any_match(effective_patterns(views(filters@)), f)),
        r matches Err(FactsError::InvalidPattern(m)) ==> exists|i: int|
            0 <= i < filters@.len() && !glob_valid(#[trigger] filters@[i]@) && m@ == glob_error_text(filters@[i]@)
                && forall|k: int| 0 <= k < i ==> glob_valid(#[trigger] filters@[k]@),
{
    let ghost pats = effective_patterns(views(filters@));
    let mut patterns: Vec<GlobPattern> = Vec::new();
    if filters.len() == 0 {
        match GlobPattern::new("*") {
            Some(p) => patterns.push(p),
            None => {},
        }
    } else {
        let mut i: usize = 0;
        while i < filters.len()
            invariant
                i <= filters@.len(),
                patterns@.len() == i,
                forall|k: int| 0 <= k < i ==> glob_valid(#[trigger] filters@[k]@),
                forall|k: int| 0 <= k < i ==> (#[trigger] patterns@[k]).text() == filters@[k]@,
            decreases filters@.len() - i,
        {
            match GlobPattern::compile(filters[i].as_str()) {
                Ok(p) => patterns.push(p),
                Err(m) => {
                    return Err(FactsError::InvalidPattern(m));
                },
            }
            i = i + 1;
        }
    }
    assert(patterns@.len() == pats.len());
    assert(forall|k: int| 0 <= k < pats.len() ==> (#[trigger] patterns@[k]).text() == pats[k]);
    let ghost fv = views(facts@);
    let ghost pred = |f: Seq<char>| any_match(pats, f);
    let mut out: Vec<String> = Vec::new();
    let mut j: usize = 0;
    assert(fv.subrange(0, 0).filter(pred) =~= Seq::empty()) by {
        reveal(Seq::filter);
    }
    while j < facts.len()
        invariant
            j <= facts@.len(),
            fv == views(facts@),
            patterns@.len() == pats.len(),
            forall|k: int| 0 <= k < pats.len() ==> (#[trigger] patterns@[k]).text() == pats[k],
            pred == (|f: Seq<char>| any_match(pats, f)),
            views(out@) == fv.subrange(0, j as int).filter(pred),
        decreases facts@.len() - j,
    {
        let name = facts[j].as_str();
        let mut hit = false;
        let mut k: usize = 0;
        while k < patterns.len() && !hit
            invariant
                k <= patterns@.len(),
                patterns@.len() == pats.len(),
                forall|q: int| 0 <= q < pats.len() ==> (#[trigger] patterns@[q]).text() == pats[q],
                hit ==> any_match(pats, name@),
                !hit ==> forall|q: int| 0 <= q < k ==> !glob_match(#[trigger] pats[q], name@),
            decreases patterns@.len() - k,
        {
            if patterns[k].matches(name) {
                hit = true;
            }
            k = k + 1;
        }
        let ghost pre = fv.subrange(0, j + 1);
        assert(pre.drop_last() =~= fv.subrange(0, j as int));
        assert(pre.last() == name@);
        assert(hit == pred(name@));
        assert(pre.filter(pred) == if pred(pre.last()) {
            pre.drop_last().filter(pred).push(pre.last())
        } else {
            pre.drop_last().filter(pred)
        }) by {
            reveal(Seq::filter);
        }
        if hit {
            let ghost before = views(out@);
            out.push(owned(name));
            assert(views(out@) =~= before.push(name@));
        }
        j = j + 1;
    }
    assert(fv.subrange(0, facts@.len() as int) =~= fv);
    Ok(out)
}

/// The flake attribute that lists the facts.
pub fn facts_attribute(flake_uri: &str) -> (r: String)
    ensures
        r@ == flake_uri@ + "#facts"@,
{
    concat2(flake_uri, "#facts")
}

/// The flake attribute that builds fact `fact`.
pub fn fact_attribute(flake_uri: &str, fact: &str) -> (r: String)
    ensures
        r@ == flake_uri@ + "#facts.\""@ + fact@ + "\""@,
{
    let mut r = concat3(flake_uri, "#facts.\"", fact);
    r.append("\"");
    r
}

/// The file that receives fact `fact`.
pub fn fact_file_name(fact: &str) -> (r: String)
    ensures
        r@ == fact@ + ".json"@,
{
    concat2(fact, ".json")
}

/// Whether listing the facts failed only because the flake defines none.
pub fn no_facts_defined(stderr: &str) -> (r: bool)
    ensures
        r == has_infix(stderr@, "attribute 'facts' missing"@),
{
    contains_str(stderr, "attribute 'facts' missing")
}


/// The arguments of `nix` that list the facts of `flake_uri`, with the hive's flags.
pub fn list_facts_args(flags: &NixFlags, flake_uri: &str) -> (r: Vec<String>)
    ensures
        views(r@) == seq!["eval"@, "--json"@, "--apply"@, "builtins.attrNames"@, "--extra-experimental-features"@, "nix-command flakes"@]
            + nix_args(*flags, false) + seq![flake_uri@ + "#facts"@],
{
    let mut r: Vec<String> = Vec::new();
    push_str(&mut r, "eval");
    push_str(&mut r, "--json");
    push_str(&mut r, "--apply");
    push_str(&mut r, "builtins.attrNames");
    push_str(&mut r, "--extra-experimental-features");
    push_str(&mut r, "nix-command flakes");
    let ghost r0 = views(r@);
    let f = flags.to_args();
    extend_strings(&mut r, &f);
    assert(views(r@) =~= r0 + views(f@));
    push_string(&mut r, facts_attribute(flake_uri));
    r
}

/// The arguments of `nix` that build fact `fact` of `flake_uri` to `out_link`,
/// with the hive's flags.
pub fn build_fact_args(flags: &NixFlags, flake_uri: &str, fact: &str, out_link: &str) -> (r: Vec<String>)
    ensures
        views(r@) == seq!["build"@, "--extra-experimental-features"@, "nix-command flakes"@] + nix_args(*flags, false) + seq![
            "--out-link"@,
            out_link@,
            flake_uri@ + "#facts.\""@ + fact@ + "\""@,
        ],
{
    let mut r: Vec<String> = Vec::new();
    push_str(&mut r, "build");
    push_str(&mut r, "--extra-experimental-features");
    push_str(&mut r, "nix-command flakes");
    let ghost r0 = views(r@);
    let f = flags.to_args();
    extend_strings(&mut r, &f);
    assert(views(r@) =~= r0 + views(f@));
    push_str(&mut r, "--out-link");
    push_str(&mut r, out_link);
    push_string(&mut r, fact_attribute(flake_uri, fact));
    r
}

} // verus!
