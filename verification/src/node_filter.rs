//! The node selection of `--on`: comma-separated rules, each a glob pattern on
//! node names or, after `@`, on node tags. A node is selected when a rule
//! matches it; adding rules only widens the selection.
use vstd::prelude::*;
use vstd::string::*;

use crate::facts::{glob_match, glob_valid, GlobPattern};
use crate::nix::{views, NodeConfig, NodeName};
use crate::text::{owned, substring, trim_seq, trim_str};

verus! {

/// The pieces of `s[i..]` between commas, the current piece having started at
/// `start` (`str::split(',')`).
pub open spec fn comma_parts_from(s: Seq<char>, i: int, start: int) -> Seq<Seq<char>>
    decreases s.len() - i,
{
    if i >= s.len() {
        seq![s.subrange(start, s.len() as int)]
    } else if s[i] == ',' {
        seq![s.subrange(start, i)] + comma_parts_from(s, i + 1, i + 1)
    } else {
        comma_parts_from(s, i + 1, start)
    }
}

/// The pieces of `s` between commas; an empty piece wherever two commas meet.
pub open spec fn comma_parts(s: Seq<char>) -> Seq<Seq<char>> {
    comma_parts_from(s, 0, 0)
}

/// The pieces of `s` between commas.
pub fn split_commas(s: &str) -> (r: Vec<String>)
    ensures
        views(r@) == comma_parts(s@),
{
    let n = s.unicode_len();
    let mut r: Vec<String> = Vec::new();
    let mut start: usize = 0;
    let mut i: usize = 0;
    while i < n
        invariant
            n == s@.len(),
            start <= i <= n,
            views(r@) + comma_parts_from(s@, i as int, start as int) == comma_parts(s@),
        decreases n - i,
    {
        if s.get_char(i) == ',' {
            let ghost before = views(r@);
            let piece = substring(s, start, i);
            r.push(piece);
            assert(views(r@) =~= before.push(s@.subrange(start as int, i as int)));
            assert(views(r@) + comma_parts_from(s@, i + 1, i + 1) =~= before + comma_parts_from(
                s@,
                i as int,
                start as int,
            ));
            start = i + 1;
        }
        i = i + 1;
    }
    let ghost before = views(r@);
    let last = substring(s, start, n);
    r.push(last);
    assert(views(r@) =~= before + seq![s@.subrange(start as int, n as int)]);
    r
}

/// A rule of a node filter.
#[derive(Debug)]
pub enum Rule {
    /// Nodes whose name the pattern matches.
    MatchName(GlobPattern),
    /// Nodes with a tag that the pattern matches.
    MatchTag(GlobPattern),
}

/// A rule as whether it looks at tags, and its pattern.
pub open spec fn rule_view(r: Rule) -> (bool, Seq<char>) {
    match r {
        Rule::MatchName(p) => (false, p.text()),
        Rule::MatchTag(p) => (true, p.text()),
    }
}

/// The rule that a trimmed, non-empty piece of a filter stands for: a tag
/// pattern after `@`, else a name pattern.
pub open spec fn rule_of(piece: Seq<char>) -> (bool, Seq<char>) {
    if piece.len() > 0 && piece[0] == '@' {
        (true, piece.drop_first())
    } else {
        (false, piece)
    }
}

/// The rules of the pieces of a filter, in order, or the first problem: an
/// empty piece (`None`) or an invalid pattern (`Some` of it).
pub open spec fn parse_rules(pieces: Seq<Seq<char>>) -> Result<Seq<(bool, Seq<char>)>, Option<Seq<char>>>
    decreases pieces.len(),
{
    if pieces.len() == 0 {
        Ok(Seq::empty())
    } else {
        let p = trim_seq(pieces[0]);
        if p.len() == 0 {
            Err(None)
        } else if !glob_valid(rule_of(p).1) {
            Err(Some(rule_of(p).1))
        } else {
            match parse_rules(pieces.drop_first()) {
                Ok(rest) => Ok(seq![rule_of(p)] + rest),
                Err(e) => Err(e),
            }
        }
    }
}

/// Whether `rule` matches a node named `name` with tags `tags`.
pub open spec fn rule_matches(rule: (bool, Seq<char>), name: Seq<char>, tags: Seq<Seq<char>>) -> bool {
    if rule.0 {
        exists|t: int| 0 <= t < tags.len() && glob_match(rule.1, #[trigger] tags[t])
    } else {
        glob_match(rule.1, name)
    }
}

/// Whether some rule of `rules` matches the node.
pub open spec fn selects(rules: Seq<(bool, Seq<char>)>, name: Seq<char>, tags: Seq<Seq<char>>) -> bool {
    exists|i: int| 0 <= i < rules.len() && rule_matches(#[trigger] rules[i], name, tags)
}

/// The nodes of `nodes` that `rules` select, in order.
pub open spec fn selected_nodes(rules: Seq<(bool, Seq<char>)>, nodes: Seq<(NodeName, NodeConfig)>) -> Seq<
    (NodeName, NodeConfig),
>
    decreases nodes.len(),
{
    if nodes.len() == 0 {
        Seq::empty()
    } else {
        let rest = selected_nodes(rules, nodes.drop_last());
        if selects(rules, nodes.last().0@, views(nodes.last().1.tags@)) {
            rest.push(nodes.last())
        } else {
            rest
        }
    }
}

/// The names of `names` that `rules` select, in order (no rule looks at tags).
pub open spec fn selected_names(rules: Seq<(bool, Seq<char>)>, names: Seq<Seq<char>>) -> Seq<Seq<char>>
    decreases names.len(),
{
    if names.len() == 0 {
        Seq::empty()
    } else {
        let rest = selected_names(rules, names.drop_last());
        if selects(rules, names.last(), Seq::empty()) {
            rest.push(names.last())
        } else {
            rest
        }
    }
}

/// Why a filter was refused or could not run.
#[derive(Debug)]
pub enum FilterError {
    /// A rule between commas is empty.
    EmptyRule,
    /// A rule is not a valid glob pattern.
    InvalidPattern(String),
    /// A rule looks at tags, which names alone do not show.
    NeedsConfig,
}

/// A node filter: its rules, in order.
#[derive(Debug)]
pub struct NodeFilter {
    pub rules: Vec<Rule>,
}

impl NodeFilter {
    /// The rules, each by [`rule_view`].
    pub open spec fn rule_views(&self) -> Seq<(bool, Seq<char>)> {
        self.rules@.map_values(|r: Rule| rule_view(r))
    }

    /// Reads a filter. A blank filter has no rules and selects nothing; else
    /// the pieces between commas, trimmed, are the rules (see [`parse_rules`]).
    pub fn new(filter: &str) -> (r: Result<NodeFilter, FilterError>)
        ensures
            trim_seq(filter@).len() == 0 ==> (r matches Ok(f) && f.rules@.len() == 0),
            trim_seq(filter@).len() > 0 ==> match parse_rules(comma_parts(trim_seq(filter@))) {
                Ok(rules) => r matches Ok(f) && f.rule_views() == rules,
                Err(None) => r matches Err(FilterError::EmptyRule),
                Err(Some(p)) => r matches Err(FilterError::InvalidPattern(q)) && q@ == p,
            },
    {
        let trimmed = trim_str(filter);
        if trimmed.unicode_len() == 0 {
            return Ok(NodeFilter { rules: Vec::new() });
        }
        let pieces = split_commas(trimmed.as_str());
        let ghost all = views(pieces@);
        let mut rules: Vec<Rule> = Vec::new();
        let mut i: usize = 0;
        assert(all.skip(0) =~= all);
        while i < pieces.len()
            invariant
                i <= pieces@.len(),
                all == views(pieces@),
                all == comma_parts(trimmed@),
                trimmed@ == trim_seq(filter@),
                trimmed@.len() > 0,
                parse_rules(all) == match parse_rules(all.skip(i as int)) {
                    Ok(rest) => Ok(rules@.map_values(|r: Rule| rule_view(r)) + rest),
                    Err(e) => Err(e),
                },
            decreases pieces@.len() - i,
        {
            let ghost rest = all.skip(i as int);
            assert(rest.drop_first() =~= all.skip(i + 1));
            assert(rest[0] == pieces@[i as int]@);
            let piece = trim_str(pieces[i].as_str());
            let n = piece.unicode_len();
            if n == 0 {
                return Err(FilterError::EmptyRule);
            }
            let (is_tag, pattern) = if piece.get_char(0) == '@' {
                let p = substring(piece.as_str(), 1, n);
                assert(p@ =~= piece@.drop_first());
                (true, p)
            } else {
                (false, piece)
            };
            let compiled = match GlobPattern::new(pattern.as_str()) {
                Some(c) => c,
                None => {
                    return Err(FilterError::InvalidPattern(pattern));
                },
            };
            let ghost before = rules@.map_values(|r: Rule| rule_view(r));
            let rule = if is_tag { Rule::MatchTag(compiled) } else { Rule::MatchName(compiled) };
            assert(rule_view(rule) == rule_of(trim_seq(rest[0])));
            rules.push(rule);
            assert(rules@.map_values(|r: Rule| rule_view(r)) =~= before.push(rule_of(trim_seq(rest[0]))));
            proof {
                match parse_rules(all.skip(i + 1)) {
                    Ok(tail) => {
                        assert(seq![rule_of(trim_seq(rest[0]))] + tail =~= seq![rule_of(trim_seq(rest[0]))].add(tail));
                        assert(before + (seq![rule_of(trim_seq(rest[0]))] + tail) =~= before.push(
                            rule_of(trim_seq(rest[0])),
                        ) + tail);
                    },
                    Err(_) => {},
                }
            }
            i = i + 1;
        }
        assert(all.skip(i as int) =~= Seq::<Seq<char>>::empty());
        assert(rules@.map_values(|r: Rule| rule_view(r)) + Seq::<(bool, Seq<char>)>::empty() =~= rules@.map_values(
            |r: Rule| rule_view(r),
        ));
        Ok(NodeFilter { rules })
    }

    /// Whether a rule looks at tags, so that the nodes' settings are needed.
    pub fn has_node_config_rules(&self) -> (b: bool)
        ensures
            b == exists|i: int| 0 <= i < self.rules@.len() && (#[trigger] self.rule_views()[i]).0,
    {
        let mut i: usize = 0;
        while i < self.rules.len()
            invariant
                i <= self.rules@.len(),
                forall|k: int| 0 <= k < i ==> !(#[trigger] self.rule_views()[k]).0,
            decreases self.rules@.len() - i,
        {
            if let Rule::MatchTag(_) = &self.rules[i] {
                assert(self.rule_views()[i as int].0);
                return true;
            }
            assert(!self.rule_views()[i as int].0);
            i = i + 1;
        }
        false
    }

    /// Whether the filter selects a node named `name` with tags `tags`.
    pub fn matches(&self, name: &str, tags: &Vec<String>) -> (b: bool)
        ensures
            b == selects(self.rule_views(), name@, views(tags@)),
    {
        let ghost rv = self.rule_views();
        let ghost tv = views(tags@);
        let mut i: usize = 0;
        while i < self.rules.len()
            invariant
                i <= self.rules@.len(),
                rv == self.rule_views(),
                tv == views(tags@),
                forall|k: int| 0 <= k < i ==> !rule_matches(#[trigger] rv[k], name@, tv),
            decreases self.rules@.len() - i,
        {
            let hit = match &self.rules[i] {
                Rule::MatchName(p) => p.matches(name),
                Rule::MatchTag(p) => {
                    let mut found = false;
                    let mut t: usize = 0;
                    while t < tags.len() && !found
                        invariant
                            t <= tags@.len(),
                            tv == views(tags@),
                            found ==> exists|x: int| 0 <= x < tv.len() && glob_match(p.text(), #[trigger] tv[x]),
                            !found ==> forall|x: int| 0 <= x < t ==> !glob_match(p.text(), #[trigger] tv[x]),
                        decreases tags@.len() - t + (if found { 0int } else { 1int }),
                    {
                        assert(tv[t as int] == tags@[t as int]@);
                        if p.matches(tags[t].as_str()) {
                            found = true;
                        } else {
                            t = t + 1;
                        }
                    }
                    found
                },
            };
            assert(rv[i as int] == rule_view(self.rules@[i as int]));
            if hit {
                assert(rule_matches(rv[i as int], name@, tv));
                return true;
            }
            i = i + 1;
        }
        false
    }

    /// The nodes that the filter selects, in order.
    pub fn filter_node_configs(&self, nodes: Vec<(NodeName, NodeConfig)>) -> (r: Vec<(NodeName, NodeConfig)>)
        ensures
            r@ == selected_nodes(self.rule_views(), nodes@),
    {
        let ghost all = nodes@;
        let mut rest = nodes;
        let mut r: Vec<(NodeName, NodeConfig)> = Vec::new();
        let ghost mut i: int = 0;
        while rest.len() > 0
            invariant
                0 <= i <= all.len(),
                rest@ == all.subrange(i, all.len() as int),
                r@ == selected_nodes(self.rule_views(), all.subrange(0, i)),
            decreases rest@.len(),
        {
            let ghost pre = all.subrange(0, i + 1);
            assert(pre.drop_last() =~= all.subrange(0, i));
            assert(pre.last() == rest@[0]);
            let (n, c) = rest.remove(0);
            let keep = self.matches(n.as_str(), &c.tags);
            if keep {
                r.push((n, c));
            }
            proof {
                i = i + 1;
                assert(rest@ =~= all.subrange(i, all.len() as int));
            }
        }
        assert(all.subrange(0, all.len() as int) =~= all);
        r
    }

    /// The names that the filter selects, in order; a filter with a tag rule
    /// cannot run on names alone.
    pub fn filter_node_names(&self, names: &Vec<NodeName>) -> (r: Result<Vec<NodeName>, FilterError>)
        ensures
            (exists|i: int| 0 <= i < self.rules@.len() && (#[trigger] self.rule_views()[i]).0) ==> (r matches Err(
                FilterError::NeedsConfig,
            )),
            !(exists|i: int| 0 <= i < self.rules@.len() && (#[trigger] self.rule_views()[i]).0) ==> (r matches Ok(v)
                && crate::tree::names(v@) == selected_names(self.rule_views(), crate::tree::names(names@))),
    {
        if self.has_node_config_rules() {
            return Err(FilterError::NeedsConfig);
        }
        let ghost all = crate::tree::names(names@);
        let empty: Vec<String> = Vec::new();
        let mut r: Vec<NodeName> = Vec::new();
        let mut i: usize = 0;
        while i < names.len()
            invariant
                i <= names@.len(),
                all == crate::tree::names(names@),
                empty@.len() == 0,
                crate::tree::names(r@) == selected_names(self.rule_views(), all.subrange(0, i as int)),
            decreases names@.len() - i,
        {
            let ghost pre = all.subrange(0, i + 1);
            assert(pre.drop_last() =~= all.subrange(0, i as int));
            assert(pre.last() == names@[i as int]@);
            assert(views(empty@) =~= Seq::<Seq<char>>::empty());
            if self.matches(names[i].as_str(), &empty) {
                let ghost before = crate::tree::names(r@);
                r.push(names[i].clone());
                assert(crate::tree::names(r@) =~= before.push(names@[i as int]@));
            }
            i = i + 1;
        }
        assert(all.subrange(0, names@.len() as int) =~= all);
        Ok(r)
    }
}

/// More rules select more: a node that the rules `a` select is selected by any
/// rules `b` that hold every rule of `a`.
pub proof fn lemma_more_rules_select_more(
    a: Seq<(bool, Seq<char>)>,
    b: Seq<(bool, Seq<char>)>,
    name: Seq<char>,
    tags: Seq<Seq<char>>,
)
    requires
        forall|i: int| 0 <= i < a.len() ==> b.contains(#[trigger] a[i]),
        selects(a, name, tags),
    ensures
        selects(b, name, tags),
{
    let i = choose|i: int| 0 <= i < a.len() && rule_matches(#[trigger] a[i], name, tags);
    assert(b.contains(a[i]));
    let j = choose|j: int| 0 <= j < b.len() && b[j] == a[i];
    assert(rule_matches(b[j], name, tags));
}

/// Joining two filters selects what either selects.
pub proof fn lemma_joined_rules_select_either(
    a: Seq<(bool, Seq<char>)>,
    b: Seq<(bool, Seq<char>)>,
    name: Seq<char>,
    tags: Seq<Seq<char>>,
)
    ensures
        selects(a + b, name, tags) == (selects(a, name, tags) || selects(b, name, tags)),
{
    if selects(a + b, name, tags) {
        let i = choose|i: int| 0 <= i < (a + b).len() && rule_matches(#[trigger] (a + b)[i], name, tags);
        if i < a.len() {
            assert(rule_matches(a[i], name, tags));
        } else {
            assert(rule_matches(b[i - a.len()], name, tags));
        }
    }
    if selects(a, name, tags) {
        let i = choose|i: int| 0 <= i < a.len() && rule_matches(#[trigger] a[i], name, tags);
        assert((a + b)[i] == a[i]);
    }
    if selects(b, name, tags) {
        let i = choose|i: int| 0 <= i < b.len() && rule_matches(#[trigger] b[i], name, tags);
        assert((a + b)[a.len() + i] == b[i]);
    }
}

/// A filter's selection only keeps nodes: every node it selects is one of the
/// given nodes, in their order, each selected by the rules.
pub proof fn lemma_selection_is_subsequence(rules: Seq<(bool, Seq<char>)>, nodes: Seq<(NodeName, NodeConfig)>)
    ensures
        selected_nodes(rules, nodes).len() <= nodes.len(),
        forall|k: int|
            0 <= k < selected_nodes(rules, nodes).len() ==> nodes.contains(#[trigger] selected_nodes(rules, nodes)[k])
                && selects(rules, selected_nodes(rules, nodes)[k].0@, views(selected_nodes(rules, nodes)[k].1.tags@)),
    decreases nodes.len(),
{
    if nodes.len() > 0 {
        lemma_selection_is_subsequence(rules, nodes.drop_last());
        let rest = selected_nodes(rules, nodes.drop_last());
        assert forall|k: int| 0 <= k < selected_nodes(rules, nodes).len() implies nodes.contains(
            #[trigger] selected_nodes(rules, nodes)[k],
        ) by {
            if k < rest.len() {
                assert(nodes.drop_last().contains(rest[k]));
                let j = choose|j: int| 0 <= j < nodes.drop_last().len() && nodes.drop_last()[j] == rest[k];
                assert(nodes[j] == rest[k]);
            } else {
                assert(nodes[nodes.len() - 1] == nodes.last());
            }
        }
    }
}

} // verus!
