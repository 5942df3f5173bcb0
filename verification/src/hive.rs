//! Where a hive lives and the Nix expressions evaluated against it.
use vstd::prelude::*;
use vstd::string::*;

use crate::nix::NixFlags;
use crate::text::{str_eq, concat2, concat3, decimal, decimal_seq, owned, substring};

verus! {

/// The version of the hive schema this tool works with.
pub const HIVE_SCHEMA: &'static str = "v0.5";

/// What `nix eval --apply` runs on a flake's `naviHive` output before use: it
/// refuses a hive of another schema.
pub const FLAKE_APPLY_SNIPPET: &'static str = "with builtins; hive: assert (hive.__schema == \"v0.5\" || throw ''
    The naviHive output (schema ${hive.__schema}) isn't compatible with this version of Navi.

    Hint: Use the same version of Navi as in the Flake input.
''); ";

/// How a hive is evaluated.
#[derive(Debug, Clone, Copy, PartialEq, Eq, Structural)]
pub enum EvaluationMethod {
    /// `nix-instantiate` on a whole expression; the default outside flakes.
    NixInstantiate,
    /// `nix eval --apply` on the flake's `naviHive` output.
    DirectFlakeEval,
}

/// Where a hive is defined.
#[derive(Debug)]
pub enum HivePath {
    /// A flake, by its URI, with its local directory where it has one.
    Flake { uri: String, local_dir: Option<String> },
    /// A `.nix` file, by its canonical path.
    Legacy(String),
}

/// `p` is a canonical absolute path: it starts with `/`, has no empty
/// component and no trailing `/` unless it is `/` itself.
pub open spec fn canonical(p: Seq<char>) -> bool {
    &&& p.len() > 0
    &&& p[0] == '/'
    &&& forall|i: int| 0 <= i < p.len() - 1 ==> !(p[i] == '/' && #[trigger] p[i + 1] == '/')
    &&& (p.len() > 1 ==> p.last() != '/')
}

/// The index of the last `/` of `p`.
pub open spec fn last_slash(p: Seq<char>) -> int
    decreases p.len(),
{
    if p.len() == 0 {
        -1
    } else if p.last() == '/' {
        p.len() - 1
    } else {
        last_slash(p.drop_last())
    }
}

/// The directory that holds the canonical path `p`; `/` has none.
pub open spec fn parent_dir(p: Seq<char>) -> Option<Seq<char>> {
    if p.len() <= 1 {
        None
    } else if last_slash(p) == 0 {
        Some("/"@)
    } else {
        Some(p.subrange(0, last_slash(p)))
    }
}

proof fn lemma_last_slash(p: Seq<char>)
    ensures
        -1 <= last_slash(p) < p.len(),
        last_slash(p) >= 0 ==> p[last_slash(p)] == '/',
        forall|i: int| last_slash(p) < i < p.len() ==> p[i] != '/',
    decreases p.len(),
{
    if p.len() > 0 && p.last() != '/' {
        lemma_last_slash(p.drop_last());
        assert forall|i: int| last_slash(p) < i < p.len() implies p[i] != '/' by {
            if i < p.len() - 1 {
                assert(p.drop_last()[i] == p[i]);
            }
        }
    }
}

/// The directory that holds the canonical path `p`.
pub fn parent_of(p: &str) -> (r: Option<String>)
    requires
        canonical(p@),
    ensures
        crate::nix::opt_view(r) == parent_dir(p@),
{
    let n = p.unicode_len();
    if n <= 1 {
        return None;
    }
    let mut i: usize = n;
    proof {
        assert(p@.subrange(0, n as int) =~= p@);
    }
    while i > 0 && p.get_char(i - 1) != '/'
        invariant
            i <= n,
            n == p@.len(),
            last_slash(p@) == last_slash(p@.subrange(0, i as int)),
        decreases i,
    {
        assert(p@.subrange(0, i as int).drop_last() =~= p@.subrange(0, i - 1));
        i = i - 1;
    }
    proof {
        if i > 0 {
            assert(p@.subrange(0, i as int).last() == '/');
        } else {
            assert(p@.subrange(0, 0).len() == 0);
        }
        lemma_last_slash(p@);
    }
    let cut = i - 1;
    if cut == 0 {
        Some(owned("/"))
    } else {
        Some(substring(p, 0, cut))
    }
}

impl HivePath {
    /// The path is well formed: a legacy path is canonical.
    pub open spec fn wf(&self) -> bool {
        self matches HivePath::Legacy(p) ==> canonical(p@)
    }

    pub fn is_flake(&self) -> (r: bool)
        ensures
            r == (self is Flake),
    {
        match self {
            HivePath::Flake { .. } => true,
            HivePath::Legacy(_) => false,
        }
    }

    /// The directory that evaluation runs in: the flake's local directory, or
    /// the directory of the `.nix` file.
    pub fn context_dir(&self) -> (r: Option<String>)
        requires
            self.wf(),
        ensures
            crate::nix::opt_view(r) == match self {
                HivePath::Flake { local_dir, .. } => crate::nix::opt_view(*local_dir),
                HivePath::Legacy(p) => parent_dir(p@),
            },
    {
        match self {
            HivePath::Flake { local_dir, .. } => crate::nix::clone_opt(local_dir),
            HivePath::Legacy(p) => parent_of(p.as_str()),
        }
    }
}

/// The deployment settings of one node, or null.
pub fn deployment_config_single(node: &str) -> (r: String)
    ensures
        r@ == "hive.nodes.\""@ + node@ + "\".config.deployment or null"@,
{
    concat3("hive.nodes.\"", node, "\".config.deployment or null")
}

/// The deployment settings of the selected nodes.
pub fn deployment_config_selected(nodes_expr: &str) -> (r: String)
    ensures
        r@ == "hive.deploymentConfigSelected "@ + nodes_expr@,
{
    concat2("hive.deploymentConfigSelected ", nodes_expr)
}

/// The derivation paths of the selected nodes.
pub fn eval_selected_drv_paths(nodes_expr: &str) -> (r: String)
    ensures
        r@ == "hive.evalSelectedDrvPaths "@ + nodes_expr@,
{
    concat2("hive.evalSelectedDrvPaths ", nodes_expr)
}

/// An expression evaluated by the hive's introspection hook.
pub fn introspect(expression: &str) -> (r: String)
    ensures
        r@ == "hive.introspect ("@ + expression@ + ")"@,
{
    concat3("hive.introspect (", expression, ")")
}

/// The same, as JSON.
pub fn introspect_json(expression: &str) -> (r: String)
    ensures
        r@ == "toJSON (hive.introspect ("@ + expression@ + "))"@,
{
    concat3("toJSON (hive.introspect (", expression, "))")
}

/// The selected nodes' systems, after `base_expression`.
pub fn eval_selected(base_expression: &str, nodes_expr: &str) -> (r: String)
    ensures
        r@ == base_expression@ + " hive.evalSelected "@ + nodes_expr@,
{
    concat3(base_expression, " hive.evalSelected ", nodes_expr)
}

/// The expression that a REPL loads for a flake hive.
pub fn repl_flake(flake_uri: &str, base_expression: &str) -> (r: String)
    ensures
        r@ == "with builtins; let rawHive = (getFlake \""@ + flake_uri@ + "\").outputs.naviHive; hive = ("@
            + base_expression@ + " hive"@ + ") rawHive; in hive.introspect (x: x)"@,
{
    let verifier = concat2(base_expression, " hive");
    let mut r = concat3("with builtins; let rawHive = (getFlake \"", flake_uri, "\").outputs.naviHive; hive = (");
    r.append(verifier.as_str());
    r.append(") rawHive; in hive.introspect (x: x)");
    r
}

/// The expression that a REPL loads for a legacy hive.
pub fn repl_legacy(base_expression: &str) -> (r: String)
    ensures
        r@ == base_expression@ + " hive.introspect (x: x)"@,
{
    concat2(base_expression, " hive.introspect (x: x)")
}

/// The attribute entries `"chunk-i" = f <expr>; ` for the first `n` chunks.
pub open spec fn chunk_entries(chunks: Seq<Seq<char>>, n: nat) -> Seq<char>
    decreases n,
{
    if n == 0 {
        Seq::empty()
    } else {
        chunk_entries(chunks, (n - 1) as nat) + "\"chunk-"@ + decimal_seq((n - 1) as nat) + "\" = f "@ + chunks[n - 1]
            + "; "@
    }
}

/// Where the hive comes from in a chunked build expression.
pub open spec fn hive_source(base: Seq<char>, flake_uri: Option<Seq<char>>, is_flake: bool) -> Seq<char> {
    if is_flake {
        "("@ + base + " hive"@ + ") ("@ + "(builtins.getFlake \""@ + flake_uri->0 + "\").outputs.naviHive"@ + ")"@
    } else {
        base
    }
}

/// One expression that builds the configurations of every chunk of nodes,
/// given the Nix expression of each chunk's node list: an attribute set with
/// `chunk-0`, `chunk-1`, ... A flake hive is loaded with `builtins.getFlake`.
pub fn build_config_chunks(base: &str, flake_uri: Option<&str>, is_flake: bool, chunks: &[String]) -> (r: String)
    requires
        is_flake ==> flake_uri is Some,
    ensures
        r@ == "with builtins; let hive = "@ + hive_source(base@, match flake_uri {
            Some(u) => Some(u@),
            None => None,
        }, is_flake) + "; f = hive.exportSelectedConfig; in {"@ + chunk_entries(crate::nix::views(chunks@), chunks@.len())
            + "}"@,
{
    let ghost fu = match flake_uri {
        Some(u) => Some(u@),
        None => None::<Seq<char>>,
    };
    let source = if is_flake {
        let uri = match flake_uri {
            Some(u) => u,
            None => "",
        };
        let src = concat3("(builtins.getFlake \"", uri, "\").outputs.naviHive");
        let applied = concat2(base, " hive");
        let mut s = concat3("(", applied.as_str(), ") (");
        s.append(src.as_str());
        s.append(")");
        s
    } else {
        owned(base)
    };
    let ghost cv = crate::nix::views(chunks@);
    let mut expr = concat3("with builtins; let hive = ", source.as_str(), "; f = hive.exportSelectedConfig; in {");
    let ghost head = expr@;
    let mut i: usize = 0;
    while i < chunks.len()
        invariant
            i <= chunks@.len(),
            cv == crate::nix::views(chunks@),
            expr@ == head + chunk_entries(cv, i as nat),
        decreases chunks@.len() - i,
    {
        let num = decimal(i as u64);
        expr.append("\"chunk-");
        expr.append(num.as_str());
        expr.append("\" = f ");
        expr.append(chunks[i].as_str());
        expr.append("; ");
        assert(cv[i as int] == chunks@[i as int]@);
        i = i + 1;
    }
    expr.append("}");
    expr
}

/// The views of name and value pairs.
pub open spec fn pair_views(v: Seq<(String, String)>) -> Seq<(Seq<char>, Seq<char>)> {
    v.map_values(|p: (String, String)| (p.0@, p.1@))
}

/// No name occurs twice among the pairs.
pub open spec fn unique_names(v: Seq<(Seq<char>, Seq<char>)>) -> bool {
    forall|i: int, j: int| 0 <= i < j < v.len() ==> v[i].0 != v[j].0
}

/// The pairs as a map from name to value.
pub open spec fn pair_map(v: Seq<(Seq<char>, Seq<char>)>) -> Map<Seq<char>, Seq<char>>
    decreases v.len(),
{
    if v.len() == 0 {
        Map::empty()
    } else {
        pair_map(v.drop_last()).insert(v.last().0, v.last().1)
    }
}

/// The pairs not named `n`.
pub open spec fn not_named(n: Seq<char>) -> spec_fn((Seq<char>, Seq<char>)) -> bool {
    |p: (Seq<char>, Seq<char>)| p.0 != n
}

/// A hive and how it is evaluated.
#[derive(Debug)]
pub struct Hive {
    pub path: HivePath,
    pub evaluation_method: EvaluationMethod,
    pub show_trace: bool,
    pub impure: bool,
    /// `--option` settings for Nix, each name once.
    pub nix_options: Vec<(String, String)>,
}

impl Hive {
    /// A hive at `path`: a flake is evaluated directly, a `.nix` file with `nix-instantiate`.
    pub fn new(path: HivePath) -> (r: Hive)
        ensures
            r.path == path,
            r.evaluation_method == (if path is Flake {
                EvaluationMethod::DirectFlakeEval
            } else {
                EvaluationMethod::NixInstantiate
            }),
            !r.show_trace,
            !r.impure,
            r.nix_options@.len() == 0,
    {
        let method = if path.is_flake() { EvaluationMethod::DirectFlakeEval } else { EvaluationMethod::NixInstantiate };
        Hive { path, evaluation_method: method, show_trace: false, impure: false, nix_options: Vec::new() }
    }

    pub fn is_flake(&self) -> (r: bool)
        ensures
            r == (self.path is Flake),
    {
        self.path.is_flake()
    }

    /// Chooses the evaluation method; direct flake evaluation is ignored for a
    /// hive that is no flake.
    pub fn set_evaluation_method(&mut self, method: EvaluationMethod)
        ensures
            final(self).evaluation_method == (if !(old(self).path is Flake) && method == EvaluationMethod::DirectFlakeEval {
                old(self).evaluation_method
            } else {
                method
            }),
            final(self).path == old(self).path,
            final(self).show_trace == old(self).show_trace,
            final(self).impure == old(self).impure,
            final(self).nix_options == old(self).nix_options,
    {
        if !self.is_flake() && method == EvaluationMethod::DirectFlakeEval {
            return;
        }
        self.evaluation_method = method;
    }

    pub fn set_show_trace(&mut self, value: bool)
        ensures
            *final(self) == (Hive { show_trace: value, ..*old(self) }),
    {
        self.show_trace = value;
    }

    pub fn set_impure(&mut self, impure: bool)
        ensures
            *final(self) == (Hive { impure, ..*old(self) }),
    {
        self.impure = impure;
    }

    /// Sets Nix option `name` to `value`, replacing an earlier value.
    pub fn add_nix_option(&mut self, name: String, value: String)
        requires
            unique_names(pair_views(old(self).nix_options@)),
        ensures
            unique_names(pair_views(final(self).nix_options@)),
            pair_map(pair_views(final(self).nix_options@)) == pair_map(pair_views(old(self).nix_options@)).insert(name@, value@),
            final(self).path == old(self).path,
            final(self).evaluation_method == old(self).evaluation_method,
            final(self).show_trace == old(self).show_trace,
            final(self).impure == old(self).impure,
    {
        let ghost before = pair_views(self.nix_options@);
        let mut opts: Vec<(String, String)> = Vec::new();
        let mut i: usize = 0;
        while i < self.nix_options.len()
            invariant
                i <= self.nix_options@.len(),
                before == pair_views(self.nix_options@),
                unique_names(before),
                pair_views(opts@) == before.subrange(0, i as int).filter(not_named(name@)),
            decreases self.nix_options@.len() - i,
        {
            let ghost pre = before.subrange(0, i + 1);
            assert(pre.drop_last() =~= before.subrange(0, i as int));
            assert(pre.last() == before[i as int]);
            assert(pre.filter(not_named(name@)) == if not_named(name@)(pre.last()) {
                pre.drop_last().filter(not_named(name@)).push(pre.last())
            } else {
                pre.drop_last().filter(not_named(name@))
            }) by {
                reveal(Seq::filter);
            }
            let (n, v) = (&self.nix_options[i].0, &self.nix_options[i].1);
            if !str_eq(n.as_str(), name.as_str()) {
                let ghost b = pair_views(opts@);
                opts.push((owned(n.as_str()), owned(v.as_str())));
                assert(pair_views(opts@) =~= b.push(before[i as int]));
            }
            i = i + 1;
        }
        assert(before.subrange(0, before.len() as int) =~= before);
        proof {
            lemma_remove_name(before, name@);
        }
        let ghost kept = pair_views(opts@);
        let ghost nv = name@;
        let ghost vv = value@;
        opts.push((name, value));
        assert(pair_views(opts@) =~= kept.push((nv, vv)));
        assert(pair_views(opts@).drop_last() =~= kept);
        assert(pair_map(pair_views(opts@)) == pair_map(kept).insert(nv, vv));
        assert(pair_map(pair_views(opts@)) =~= pair_map(before).insert(nv, vv));
        assert forall|a: int, b: int| 0 <= a < b < pair_views(opts@).len() implies pair_views(opts@)[a].0 != pair_views(opts@)[b].0 by {
            if b == kept.len() {
                assert(pair_views(opts@)[a] == kept[a]);
            } else {
                assert(pair_views(opts@)[a] == kept[a]);
                assert(pair_views(opts@)[b] == kept[b]);
            }
        }
        self.nix_options = opts;
    }

    /// The Nix flags of this hive: a flake is evaluated purely.
    pub fn nix_flags(&self) -> (r: NixFlags)
        ensures
            r.show_trace == self.show_trace,
            r.pure_eval == (self.path is Flake),
            r.impure == self.impure,
            r.builders is None,
            pair_views(r.options@) == pair_views(self.nix_options@),
    {
        let mut opts: Vec<(String, String)> = Vec::new();
        let mut i: usize = 0;
        while i < self.nix_options.len()
            invariant
                i <= self.nix_options@.len(),
                pair_views(opts@) == pair_views(self.nix_options@).subrange(0, i as int),
            decreases self.nix_options@.len() - i,
        {
            let ghost b = pair_views(opts@);
            let a0 = owned(self.nix_options[i].0.as_str());
            let a1 = owned(self.nix_options[i].1.as_str());
            opts.push((a0, a1));
            assert(pair_views(opts@) =~= b.push((self.nix_options@[i as int].0@, self.nix_options@[i as int].1@)));
            assert(pair_views(opts@) =~= pair_views(self.nix_options@).subrange(0, i + 1));
            i = i + 1;
        }
        assert(pair_views(self.nix_options@).subrange(0, self.nix_options@.len() as int) =~= pair_views(self.nix_options@));
        let mut flags = NixFlags::default();
        flags.set_show_trace(self.show_trace);
        flags.set_pure_eval(self.is_flake());
        flags.set_impure(self.impure);
        flags.set_options(opts);
        flags
    }

    /// The Nix flags with the remote builders of `machines_file`, where one is configured.
    pub fn nix_flags_with_builders(&self, machines_file: Option<&str>) -> (r: NixFlags)
        ensures
            r.show_trace == self.show_trace,
            r.pure_eval == (self.path is Flake),
            r.impure == self.impure,
            crate::nix::opt_view(r.builders) == match machines_file {
                Some(f) => Some("@"@ + f@),
                None => None,
            },
            pair_views(r.options@) == pair_views(self.nix_options@),
    {
        let mut flags = self.nix_flags();
        if let Some(f) = machines_file {
            flags.set_builders(Some(concat2("@", f)));
        }
        flags
    }
}

/// Dropping the pairs named `n` from pairs with distinct names removes `n` from their map.
proof fn lemma_remove_name(v: Seq<(Seq<char>, Seq<char>)>, n: Seq<char>)
    requires
        unique_names(v),
    ensures
        unique_names(v.filter(not_named(n))),
        pair_map(v.filter(not_named(n))) =~= pair_map(v).remove(n),
        forall|i: int| 0 <= i < v.filter(not_named(n)).len() ==> (#[trigger] v.filter(not_named(n))[i]).0 != n,
        forall|i: int| 0 <= i < v.filter(not_named(n)).len() ==> exists|j: int|
            0 <= j < v.len() && v[j] == #[trigger] v.filter(not_named(n))[i],
    decreases v.len(),
{
    reveal(Seq::filter);
    let f = v.filter(not_named(n));
    if v.len() == 0 {
        assert(f =~= v);
        assert(pair_map(f) =~= pair_map(v).remove(n));
    }
    if v.len() > 0 {
        let pre = v.drop_last();
        assert(unique_names(pre));
        lemma_remove_name(pre, n);
        lemma_pair_map_domain(pre);
        let fp = pre.filter(not_named(n));
        assert(not_named(n)(v.last()) == (v.last().0 != n));
        assert(pre =~= v.drop_last());
        assert(pair_map(v) == pair_map(pre).insert(v.last().0, v.last().1));
        if v.last().0 != n {
            assert(f == fp.push(v.last()));
            assert(f.drop_last() =~= fp);
            assert(pair_map(f) == pair_map(fp).insert(v.last().0, v.last().1));
            assert(pair_map(f) =~= pair_map(v).remove(n));
            assert forall|i: int| 0 <= i < fp.len() implies fp[i].0 != v.last().0 by {
                let j = choose|j: int| 0 <= j < pre.len() && pre[j] == #[trigger] fp[i];
                assert(v[j] == pre[j]);
            }
            assert forall|i: int| 0 <= i < f.len() implies exists|j: int| 0 <= j < v.len() && v[j] == #[trigger] f[i] by {
                if i < fp.len() {
                    let j = choose|j: int| 0 <= j < pre.len() && pre[j] == #[trigger] fp[i];
                    assert(v[j] == f[i]);
                } else {
                    assert(v[v.len() - 1] == f[i]);
                }
            }
            assert forall|a: int, b: int| 0 <= a < b < f.len() implies f[a].0 != f[b].0 by {
                if b == fp.len() {
                    assert(f[a] == fp[a]);
                }
            }
            assert(!pair_map(pre).dom().contains(v.last().0)) by {
                if pair_map(pre).dom().contains(v.last().0) {
                    let j = choose|j: int| 0 <= j < pre.len() && pre[j].0 == v.last().0;
                    assert(v[j].0 == v[v.len() - 1].0);
                }
            }
        } else {
            assert(f == fp);
            assert(pair_map(f) =~= pair_map(v).remove(n));
            assert forall|i: int| 0 <= i < f.len() implies exists|j: int| 0 <= j < v.len() && v[j] == #[trigger] f[i] by {
                let j = choose|j: int| 0 <= j < pre.len() && pre[j] == #[trigger] fp[i];
                assert(v[j] == f[i]);
            }
        }
    }
}

/// The names of the map are those of the pairs.
proof fn lemma_pair_map_domain(v: Seq<(Seq<char>, Seq<char>)>)
    ensures
        forall|x: Seq<char>| pair_map(v).dom().contains(x) ==> exists|j: int| 0 <= j < v.len() && v[j].0 == x,
    decreases v.len(),
{
    if v.len() > 0 {
        lemma_pair_map_domain(v.drop_last());
        assert forall|x: Seq<char>| pair_map(v).dom().contains(x) implies exists|j: int| 0 <= j < v.len() && v[j].0 == x by {
            if x != v.last().0 {
                assert(pair_map(v.drop_last()).dom().contains(x));
                let j = choose|j: int| 0 <= j < v.drop_last().len() && v.drop_last()[j].0 == x;
                assert(v[j].0 == x);
            } else {
                assert(v[v.len() - 1].0 == x);
            }
        }
    }
}

} // verus!
