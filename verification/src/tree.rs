//! The node hierarchy of the dashboard: grouping nodes by tag values along a
//! list of hierarchy keys, flattening the tree for display, and folding groups.
use vstd::prelude::*;
use vstd::multiset::Multiset;
use vstd::string::*;

use crate::nix::{opt_view, first_with_prefix, first_with_prefix_index, lemma_first_with_prefix, views, NodeConfig, NodeName};
use crate::text::{owned, concat2, lemma_lex_le_transitive, lemma_lex_transitive, lemma_lex_trichotomy, lex_less, lex_less_str, str_eq, substring};

verus! {

broadcast use vstd::seq_lib::group_to_multiset_ensures;

/// An entry of the node hierarchy.
#[derive(Debug)]
pub enum TreeItem {
    Group { name: String, children: Vec<TreeItem>, collapsed: bool },
    Node { name: NodeName },
}

/// The names of a sequence of nodes.
pub open spec fn names(s: Seq<NodeName>) -> Seq<Seq<char>> {
    s.map_values(|n: NodeName| n@)
}

/// Names never decrease along `s`.
pub open spec fn sorted_names(s: Seq<Seq<char>>) -> bool {
    forall|i: int, j: int| 0 <= i < j < s.len() ==> !lex_less(#[trigger] s[j], #[trigger] s[i])
}

/// Names strictly increase along `s`.
pub open spec fn strictly_sorted(s: Seq<Seq<char>>) -> bool {
    forall|i: int, j: int| 0 <= i < j < s.len() ==> lex_less(#[trigger] s[i], #[trigger] s[j])
}

/// The name shown for an item.
pub open spec fn item_name(t: TreeItem) -> Seq<char> {
    match t {
        TreeItem::Group { name, .. } => name@,
        TreeItem::Node { name } => name@,
    }
}

/// `items` is the list of node entries for `nodes`, sorted by name.
pub open spec fn is_sorted_node_list(items: Seq<TreeItem>, nodes: Seq<Seq<char>>) -> bool {
    &&& forall|i: int| 0 <= i < items.len() ==> #[trigger] items[i] is Node
    &&& sorted_names(items.map_values(|t: TreeItem| item_name(t)))
    &&& items.map_values(|t: TreeItem| item_name(t)).to_multiset() == nodes.to_multiset()
}

/// The entries for nodes, sorted by name (stable).
pub fn sorted_node_items(nodes: &[NodeName]) -> (r: Vec<TreeItem>)
    ensures
        is_sorted_node_list(r@, names(nodes@)),
{
    let mut r: Vec<TreeItem> = Vec::new();
    let mut i: usize = 0;
    while i < nodes.len()
        invariant
            i <= nodes@.len(),
            forall|k: int| 0 <= k < r@.len() ==> #[trigger] r@[k] is Node,
            sorted_names(r@.map_values(|t: TreeItem| item_name(t))),
            r@.map_values(|t: TreeItem| item_name(t)).to_multiset() == names(nodes@.subrange(0, i as int)).to_multiset(),
        decreases nodes@.len() - i,
    {
        let x = nodes[i].clone();
        let ghost xv = x@;
        let ghost old_names = r@.map_values(|t: TreeItem| item_name(t));
        let mut p: usize = 0;
        let mut found = false;
        while !found && p < r.len()
            invariant
                p <= r@.len(),
                old_names == r@.map_values(|t: TreeItem| item_name(t)),
                forall|k: int| 0 <= k < r@.len() ==> #[trigger] r@[k] is Node,
                forall|k: int| 0 <= k < p ==> !lex_less(xv, #[trigger] old_names[k]),
                found ==> p < r@.len() && lex_less(xv, old_names[p as int]),
                xv == x@,
            decreases r@.len() - p + (if found { 0int } else { 1int }),
        {
            assert(old_names[p as int] == item_name(r@[p as int]));
            if lex_less_str(x.as_str(), r_name(&r[p])) {
                found = true;
            } else {
                p = p + 1;
            }
        }
        r.insert(p, TreeItem::Node { name: x });
        let ghost new_names = r@.map_values(|t: TreeItem| item_name(t));
        assert(new_names =~= old_names.insert(p as int, xv));
        assert(names(nodes@.subrange(0, i + 1)) =~= names(nodes@.subrange(0, i as int)).push(xv));
        assert forall|a: int, b: int| 0 <= a < b < new_names.len() implies !lex_less(#[trigger] new_names[b], #[trigger] new_names[a]) by {
            if a < p && b < p {
            } else if a < p && b == p {
                lemma_lex_trichotomy(old_names[a], xv);
            } else if a < p && b > p {
                assert(!lex_less(old_names[b - 1], old_names[a]));
            } else if a == p {
                if p < old_names.len() {
                    assert(lex_less(xv, old_names[p as int]));
                    if b - 1 > p {
                        assert(!lex_less(old_names[b - 1], old_names[p as int]));
                        lemma_lex_trichotomy(old_names[b - 1], old_names[p as int]);
                        if old_names[b - 1] != old_names[p as int] {
                            lemma_lex_transitive(xv, old_names[p as int], old_names[b - 1]);
                        }
                    }
                    lemma_lex_trichotomy(xv, new_names[b]);
                }
            } else {
                assert(!lex_less(old_names[b - 1], old_names[a - 1]));
            }
        }
        i = i + 1;
    }
    assert(nodes@.subrange(0, nodes@.len() as int) =~= nodes@);
    r
}

/// The name of a node entry.
fn r_name(t: &TreeItem) -> (s: &str)
    ensures
        s@ == item_name(*t),
{
    match t {
        TreeItem::Group { name, .. } => name.as_str(),
        TreeItem::Node { name } => name.as_str(),
    }
}

/// The tags of the first configuration entry for node `n`, if any.
pub open spec fn config_tags(cfg: Seq<(NodeName, NodeConfig)>, n: Seq<char>) -> Option<Seq<Seq<char>>>
    decreases cfg.len(),
{
    if cfg.len() == 0 {
        None
    } else if cfg[0].0@ == n {
        Some(views(cfg[0].1.tags@))
    } else {
        config_tags(cfg.drop_first(), n)
    }
}

/// The value of hierarchy key `key` in the tags: what follows `key:` in the first
/// tag that starts with it.
pub open spec fn tag_value(tags: Seq<Seq<char>>, key: Seq<char>) -> Option<Seq<char>> {
    let p = key + ":"@;
    match first_with_prefix(tags, p) {
        Some(i) => Some(tags[i].subrange(p.len() as int, tags[i].len() as int)),
        None => None,
    }
}

/// The value of hierarchy key `key` for node `n`; none when its configuration is
/// not loaded or has no such tag.
pub open spec fn node_value(cfg: Seq<(NodeName, NodeConfig)>, n: Seq<char>, key: Seq<char>) -> Option<Seq<char>> {
    match config_tags(cfg, n) {
        Some(t) => tag_value(t, key),
        None => None,
    }
}

/// The nodes, in order, whose value for `key` is `v`.
pub open spec fn members(
    nodes: Seq<Seq<char>>,
    cfg: Seq<(NodeName, NodeConfig)>,
    key: Seq<char>,
    v: Option<Seq<char>>,
) -> Seq<Seq<char>>
    decreases nodes.len(),
{
    if nodes.len() == 0 {
        Seq::empty()
    } else {
        let rest = members(nodes.drop_last(), cfg, key, v);
        if node_value(cfg, nodes.last(), key) == v {
            rest.push(nodes.last())
        } else {
            rest
        }
    }
}

/// `items` is the hierarchy of `nodes` along `keys`: with no key left, the nodes
/// sorted by name; otherwise one expanded group per value of the first key, in
/// name order and each holding the hierarchy of its nodes along the remaining
/// keys, followed by the nodes without a value (sorted when no key remains,
/// else their own hierarchy along the remaining keys).
pub open spec fn is_tree(
    items: Seq<TreeItem>,
    nodes: Seq<Seq<char>>,
    cfg: Seq<(NodeName, NodeConfig)>,
    keys: Seq<Seq<char>>,
) -> bool
    decreases keys.len(),
{
    if keys.len() == 0 {
        is_sorted_node_list(items, nodes)
    } else {
        let key = keys[0];
        let rest = keys.drop_first();
        let others = members(nodes, cfg, key, None);
        exists|k: int|
            0 <= k <= items.len() && {
                &&& forall|i: int|
                    0 <= i < k ==> (#[trigger] items[i] matches TreeItem::Group { name, children, collapsed }
                        && !collapsed && is_tree(children@, members(nodes, cfg, key, Some(name@)), cfg, rest))
                &&& forall|i: int, j: int|
                    0 <= i < j < k ==> lex_less(item_name(#[trigger] items[i]), item_name(#[trigger] items[j]))
                &&& forall|i: int|
                    0 <= i < k ==> exists|m: int|
                        0 <= m < nodes.len() && #[trigger] node_value(cfg, nodes[m], key) == Some(
                            item_name(#[trigger] items[i]),
                        )
                &&& forall|m: int|
                    0 <= m < nodes.len() && (#[trigger] node_value(cfg, nodes[m], key)) is Some ==> exists|i: int|
                        0 <= i < k && item_name(#[trigger] items[i]) == node_value(cfg, nodes[m], key)->0
                &&& if rest.len() == 0 {
                    is_sorted_node_list(items.subrange(k, items.len() as int), others)
                } else {
                    is_tree(items.subrange(k, items.len() as int), others, cfg, rest)
                }
            }
    }
}

/// Index of the first configuration entry for `name`.
pub fn config_index(configs: &Vec<(NodeName, NodeConfig)>, name: &NodeName) -> (r: Option<usize>)
    ensures
        match r {
            Some(k) => k < configs@.len() && config_tags(configs@, name@) == Some(views(configs@[k as int].1.tags@)),
            None => config_tags(configs@, name@) is None,
        },
{
    assert(configs@.subrange(0, configs@.len() as int) =~= configs@);
    let mut i: usize = 0;
    while i < configs.len()
        invariant
            i <= configs@.len(),
            config_tags(configs@, name@) == config_tags(configs@.subrange(i as int, configs@.len() as int), name@),
        decreases configs@.len() - i,
    {
        let ghost rest = configs@.subrange(i as int, configs@.len() as int);
        assert(rest.drop_first() =~= configs@.subrange(i + 1, configs@.len() as int));
        if configs[i].0.same(name) {
            return Some(i);
        }
        i = i + 1;
    }
    None
}

/// The value of hierarchy key `key` for node `name`.
pub fn node_value_of(configs: &Vec<(NodeName, NodeConfig)>, name: &NodeName, key: &str) -> (r: Option<String>)
    ensures
        crate::nix::opt_view(r) == node_value(configs@, name@, key@),
{
    match config_index(configs, name) {
        Some(c) => {
            let tags = &configs[c].1.tags;
            let prefix = concat2(key, ":");
            match first_with_prefix_index(tags, prefix.as_str()) {
                Some(t) => {
                    let tag = tags[t].as_str();
                    let n = tag.unicode_len();
                    let k = prefix.as_str().unicode_len();
                    proof {
                        lemma_first_with_prefix(views(tags@), prefix@);
                    }
                    assert(views(tags@)[t as int] == tag@);
                    Some(substring(tag, k, n))
                },
                None => None,
            }
        },
        None => None,
    }
}

/// The value of hierarchy key `key` for each node, in order.
fn values_of(nodes: &[NodeName], configs: &Vec<(NodeName, NodeConfig)>, key: &str) -> (r: Vec<Option<String>>)
    ensures
        r@.len() == nodes@.len(),
        forall|m: int| 0 <= m < nodes@.len() ==> #[trigger] opt_view(r@[m]) == node_value(configs@, nodes@[m]@, key@),
{
    let mut r: Vec<Option<String>> = Vec::new();
    let mut i: usize = 0;
    while i < nodes.len()
        invariant
            i <= nodes@.len(),
            r@.len() == i,
            forall|m: int| 0 <= m < i ==> #[trigger] opt_view(r@[m]) == node_value(configs@, nodes@[m]@, key@),
        decreases nodes@.len() - i,
    {
        let v = node_value_of(configs, &nodes[i], key);
        r.push(v);
        i = i + 1;
    }
    r
}

/// The values that occur in `vals`.
pub open spec fn value_set(vals: Seq<Option<Seq<char>>>) -> Set<Seq<char>> {
    Set::new(|x: Seq<char>| exists|m: int| 0 <= m < vals.len() && vals[m] == Some(x))
}

/// The views of a sequence of optional strings.
pub open spec fn opt_views(v: Seq<Option<String>>) -> Seq<Option<Seq<char>>> {
    v.map_values(|o: Option<String>| opt_view(o))
}

/// Adds `v` to the strictly sorted `r`, where it is not there yet.
fn insert_distinct(r: &mut Vec<String>, v: &str)
    requires
        strictly_sorted(views(old(r)@)),
    ensures
        strictly_sorted(views(final(r)@)),
        views(final(r)@).to_set() == views(old(r)@).to_set().insert(v@),
{
    let ghost old_names = views(r@);
    let ghost vv = v@;
    let mut p: usize = 0;
    let mut stop = false;
    while !stop && p < r.len()
        invariant
            p <= r@.len(),
            old_names == views(r@),
            vv == v@,
            forall|k: int| 0 <= k < p ==> lex_less(#[trigger] old_names[k], vv),
            stop ==> p < r@.len() && !lex_less(old_names[p as int], vv),
        decreases r@.len() - p + (if stop { 0int } else { 1int }),
    {
        assert(old_names[p as int] == r@[p as int]@);
        if lex_less_str(r[p].as_str(), v) {
            p = p + 1;
        } else {
            stop = true;
        }
    }
    assert(p < r@.len() ==> old_names[p as int] == r@[p as int]@);
    if p < r.len() && str_eq(r[p].as_str(), v) {
        assert(old_names.to_set() =~= old_names.to_set().insert(vv)) by {
            assert(old_names.contains(vv)) by {
                assert(old_names[p as int] == vv);
            }
        }
    } else {
        let c = owned(v);
        r.insert(p, c);
        let ghost new_names = views(r@);
        assert(new_names =~= old_names.insert(p as int, vv));
        assert forall|a: int, b: int| 0 <= a < b < new_names.len() implies lex_less(#[trigger] new_names[a], #[trigger] new_names[b]) by {
            if b < p {
            } else if a < p && b == p {
            } else if a < p && b > p {
                assert(lex_less(old_names[a], old_names[b - 1]));
            } else if a == p {
                assert(p < old_names.len());
                lemma_lex_trichotomy(old_names[p as int], vv);
                assert(lex_less(vv, old_names[p as int]));
                if b - 1 > p {
                    assert(lex_less(old_names[p as int], old_names[b - 1]));
                    lemma_lex_transitive(vv, old_names[p as int], old_names[b - 1]);
                }
            } else {
                assert(lex_less(old_names[a - 1], old_names[b - 1]));
            }
        }
        assert forall|x: Seq<char>| new_names.to_set().contains(x) <==> old_names.to_set().insert(vv).contains(x) by {
            if new_names.contains(x) {
                let a = choose|a: int| 0 <= a < new_names.len() && new_names[a] == x;
                if a < p {
                    assert(old_names[a] == x);
                } else if a > p {
                    assert(old_names[a - 1] == x);
                }
            }
            if old_names.contains(x) {
                let a = choose|a: int| 0 <= a < old_names.len() && old_names[a] == x;
                if a < p {
                    assert(new_names[a] == x);
                } else {
                    assert(new_names[a + 1] == x);
                }
            }
            if x == vv {
                assert(new_names[p as int] == x);
            }
        }
        assert(new_names.to_set() =~= old_names.to_set().insert(vv));
    }
}

/// The distinct values that occur in `vals`, in strictly increasing name order.
pub fn distinct_values(vals: &Vec<Option<String>>) -> (r: Vec<String>)
    ensures
        strictly_sorted(views(r@)),
        views(r@).to_set() == value_set(opt_views(vals@)),
{
    let ghost ov = opt_views(vals@);
    let mut r: Vec<String> = Vec::new();
    let mut i: usize = 0;
    assert(views(r@).to_set() =~= value_set(ov.subrange(0, 0)));
    while i < vals.len()
        invariant
            i <= vals@.len(),
            ov == opt_views(vals@),
            strictly_sorted(views(r@)),
            views(r@).to_set() == value_set(ov.subrange(0, i as int)),
        decreases vals@.len() - i,
    {
        let ghost before = ov.subrange(0, i as int);
        let ghost after = ov.subrange(0, i + 1);
        assert(ov[i as int] == opt_view(vals@[i as int]));
        match &vals[i] {
            Some(v) => {
                insert_distinct(&mut r, v.as_str());
                assert forall|x: Seq<char>| value_set(after).contains(x) <==> value_set(before).insert(v@).contains(x) by {
                    if value_set(after).contains(x) {
                        let m = choose|m: int| 0 <= m < after.len() && after[m] == Some(x);
                        if m < i {
                            assert(before[m] == Some(x));
                        }
                    }
                    if value_set(before).contains(x) {
                        let m = choose|m: int| 0 <= m < before.len() && before[m] == Some(x);
                        assert(after[m] == Some(x));
                    }
                    if x == v@ {
                        assert(after[i as int] == Some(x));
                    }
                }
                assert(value_set(after) =~= value_set(before).insert(v@));
            },
            None => {
                assert forall|x: Seq<char>| value_set(after).contains(x) <==> value_set(before).contains(x) by {
                    if value_set(after).contains(x) {
                        let m = choose|m: int| 0 <= m < after.len() && after[m] == Some(x);
                        assert(m < i);
                        assert(before[m] == Some(x));
                    }
                    if value_set(before).contains(x) {
                        let m = choose|m: int| 0 <= m < before.len() && before[m] == Some(x);
                        assert(after[m] == Some(x));
                    }
                }
                assert(value_set(after) =~= value_set(before));
            },
        }
        i = i + 1;
    }
    assert(ov.subrange(0, vals@.len() as int) =~= ov);
    r
}

/// Whether two optional strings are equal.
fn opt_str_eq(a: &Option<String>, b: &Option<String>) -> (r: bool)
    ensures
        r == (opt_view(*a) == opt_view(*b)),
{
    match (a, b) {
        (Some(x), Some(y)) => str_eq(x.as_str(), y.as_str()),
        (None, None) => true,
        _ => false,
    }
}

/// The nodes, in order, whose value for `key` is `target`.
fn select_members(
    nodes: &[NodeName],
    configs: &Vec<(NodeName, NodeConfig)>,
    key: &str,
    vals: &Vec<Option<String>>,
    target: &Option<String>,
) -> (r: Vec<NodeName>)
    requires
        vals@.len() == nodes@.len(),
        forall|m: int| 0 <= m < nodes@.len() ==> #[trigger] opt_view(vals@[m]) == node_value(configs@, nodes@[m]@, key@),
    ensures
        names(r@) == members(names(nodes@), configs@, key@, opt_view(*target)),
{
    let ghost all = names(nodes@);
    let mut r: Vec<NodeName> = Vec::new();
    let mut i: usize = 0;
    while i < nodes.len()
        invariant
            i <= nodes@.len(),
            all == names(nodes@),
            vals@.len() == nodes@.len(),
            forall|m: int| 0 <= m < nodes@.len() ==> #[trigger] opt_view(vals@[m]) == node_value(configs@, nodes@[m]@, key@),
            names(r@) == members(all.subrange(0, i as int), configs@, key@, opt_view(*target)),
        decreases nodes@.len() - i,
    {
        let ghost pre = all.subrange(0, i + 1);
        assert(pre.drop_last() =~= all.subrange(0, i as int));
        assert(pre.last() == nodes@[i as int]@);
        assert(opt_view(vals@[i as int]) == node_value(configs@, nodes@[i as int]@, key@));
        if opt_str_eq(&vals[i], target) {
            let n = nodes[i].clone();
            let ghost old_r = r@;
            r.push(n);
            assert(names(r@) =~= names(old_r).push(nodes@[i as int]@));
        }
        i = i + 1;
    }
    assert(all.subrange(0, nodes@.len() as int) =~= all);
    r
}

/// The hierarchy of `nodes` along `keys[from..]`.
fn build_tree_from(
    nodes: &[NodeName],
    configs: &Vec<(NodeName, NodeConfig)>,
    keys: &[String],
    from: usize,
) -> (r: Vec<TreeItem>)
    requires
        from <= keys@.len(),
    ensures
        is_tree(r@, names(nodes@), configs@, views(keys@).subrange(from as int, keys@.len() as int)),
    decreases keys@.len() - from,
{
    let ghost ks = views(keys@).subrange(from as int, keys@.len() as int);
    if from == keys.len() {
        return sorted_node_items(nodes);
    }
    let key = keys[from].as_str();
    let ghost rest = ks.drop_first();
    assert(rest =~= views(keys@).subrange(from + 1, keys@.len() as int));
    assert(ks[0] == key@);
    let ghost all = names(nodes@);
    let vals = values_of(nodes, configs, key);
    let groups = distinct_values(&vals);
    let ghost gnames = views(groups@);
    let mut items: Vec<TreeItem> = Vec::new();
    let mut g: usize = 0;
    while g < groups.len()
        invariant
            from < keys.len(),
            key@ == ks[0],
            rest == views(keys@).subrange(from + 1, keys@.len() as int),
            all == names(nodes@),
            gnames == views(groups@),
            g <= groups@.len(),
            items@.len() == g,
            vals@.len() == nodes@.len(),
            forall|m: int| 0 <= m < nodes@.len() ==> #[trigger] opt_view(vals@[m]) == node_value(configs@, nodes@[m]@, key@),
            forall|i: int| 0 <= i < g ==> (#[trigger] items@[i] matches TreeItem::Group { name, children, collapsed }
                && !collapsed && name@ == gnames[i] && is_tree(children@, members(all, configs@, key@, Some(name@)), configs@, rest)),
        decreases groups@.len() - g,
    {
        let target = Some(owned(groups[g].as_str()));
        let ms = select_members(nodes, configs, key, &vals, &target);
        let children = build_tree_from(ms.as_slice(), configs, keys, from + 1);
        let name = owned(groups[g].as_str());
        assert(name@ == gnames[g as int]);
        items.push(TreeItem::Group { name, children, collapsed: false });
        g = g + 1;
    }
    let none: Option<String> = None;
    let others = select_members(nodes, configs, key, &vals, &none);
    let mut tail = if from + 1 == keys.len() {
        sorted_node_items(others.as_slice())
    } else {
        build_tree_from(others.as_slice(), configs, keys, from + 1)
    };
    let ghost heads = items@;
    let ghost tl = tail@;
    items.append(&mut tail);
    let ghost k = gnames.len() as int;
    assert(items@.subrange(k, items@.len() as int) =~= tl);
    assert(forall|i: int| 0 <= i < k ==> items@[i] == heads[i]);
    proof {
        let ov = opt_views(vals@);
        assert forall|m: int| 0 <= m < all.len() implies #[trigger] ov[m] == node_value(configs@, all[m], key@) by {
            assert(opt_view(vals@[m]) == node_value(configs@, nodes@[m]@, key@));
        }
        lemma_tree_groups(items@, all, configs@, ks, gnames, ov, k);
    }
    items
}

/// Groups for the values of the first key, in name order, followed by the
/// hierarchy of the nodes without a value, make up the hierarchy along `keys`.
proof fn lemma_tree_groups(
    items: Seq<TreeItem>,
    all: Seq<Seq<char>>,
    cfg: Seq<(NodeName, NodeConfig)>,
    keys: Seq<Seq<char>>,
    gnames: Seq<Seq<char>>,
    ov: Seq<Option<Seq<char>>>,
    k: int,
)
    requires
        keys.len() > 0,
        0 <= k <= items.len(),
        k == gnames.len(),
        ov.len() == all.len(),
        forall|m: int| 0 <= m < all.len() ==> #[trigger] ov[m] == node_value(cfg, all[m], keys[0]),
        strictly_sorted(gnames),
        gnames.to_set() == value_set(ov),
        forall|i: int| 0 <= i < k ==> (#[trigger] items[i] matches TreeItem::Group { name, children, collapsed }
            && !collapsed && name@ == gnames[i] && is_tree(children@, members(all, cfg, keys[0], Some(name@)), cfg, keys.drop_first())),
        if keys.drop_first().len() == 0 {
            is_sorted_node_list(items.subrange(k, items.len() as int), members(all, cfg, keys[0], None))
        } else {
            is_tree(items.subrange(k, items.len() as int), members(all, cfg, keys[0], None), cfg, keys.drop_first())
        },
    ensures
        is_tree(items, all, cfg, keys),
{
    let key = keys[0];
    assert forall|i: int| 0 <= i < k implies item_name(#[trigger] items[i]) == gnames[i] by {}
    assert forall|i: int, j: int| 0 <= i < j < k implies lex_less(item_name(#[trigger] items[i]), item_name(#[trigger] items[j])) by {
        assert(lex_less(gnames[i], gnames[j]));
    }
    assert forall|i: int| 0 <= i < k implies exists|m: int|
        0 <= m < all.len() && #[trigger] node_value(cfg, all[m], key) == Some(item_name(#[trigger] items[i])) by {
        assert(gnames.to_set().contains(gnames[i]));
        assert(value_set(ov).contains(gnames[i]));
        let m = choose|m: int| 0 <= m < ov.len() && ov[m] == Some(gnames[i]);
        assert(ov[m] == node_value(cfg, all[m], key));
    }
    assert forall|m: int| 0 <= m < all.len() && (#[trigger] node_value(cfg, all[m], key)) is Some implies exists|i: int|
        0 <= i < k && item_name(#[trigger] items[i]) == node_value(cfg, all[m], key)->0 by {
        assert(ov[m] == node_value(cfg, all[m], key));
        let x = ov[m]->0;
        assert(value_set(ov).contains(x));
        assert(gnames.to_set().contains(x));
        let i = choose|i: int| 0 <= i < gnames.len() && gnames[i] == x;
        assert(item_name(items[i]) == gnames[i]);
    }
}

/// The node hierarchy of `nodes` along `hierarchy_keys`: nodes are grouped by
/// the value of their first `key:value` tag for each key in turn (see [`is_tree`]);
/// a node whose configuration is not loaded has no value for any key.
pub fn build_tree(
    nodes: &[NodeName],
    configs: &Vec<(NodeName, NodeConfig)>,
    hierarchy_keys: &[String],
) -> (r: Vec<TreeItem>)
    ensures
        is_tree(r@, names(nodes@), configs@, views(hierarchy_keys@)),
{
    assert(views(hierarchy_keys@).subrange(0, hierarchy_keys@.len() as int) =~= views(hierarchy_keys@));
    build_tree_from(nodes, configs, hierarchy_keys, 0)
}

/// One line of the flattened hierarchy: the entry, its depth, its path of
/// indices from the top of the tree, and whether it is the last of its siblings.
#[derive(Debug)]
pub struct FlatItem<'a> {
    pub item: &'a TreeItem,
    pub depth: usize,
    pub index_in_tree: Vec<usize>,
    pub last_in_group: bool,
}

/// What a line of the flattened hierarchy holds.
pub open spec fn flat_view(f: FlatItem) -> (TreeItem, int, Seq<usize>, bool) {
    (*f.item, f.depth as int, f.index_in_tree@, f.last_in_group)
}

/// The lines shown for `t` at `depth` and `path`: its own line, then, for an
/// expanded group, those of its children one level deeper.
pub open spec fn flat_item(t: TreeItem, depth: int, path: Seq<usize>, last: bool) -> Seq<(TreeItem, int, Seq<usize>, bool)>
    decreases t, 0int,
{
    seq![(t, depth, path, last)] + match t {
        TreeItem::Group { children, collapsed, .. } => if collapsed {
            Seq::empty()
        } else {
            flat_list(children@, depth + 1, path, 0)
        },
        TreeItem::Node { .. } => Seq::empty(),
    }
}

/// The lines shown for the siblings `s[i..]`, whose parent is at `path`.
pub open spec fn flat_list(s: Seq<TreeItem>, depth: int, path: Seq<usize>, i: int) -> Seq<(TreeItem, int, Seq<usize>, bool)>
    decreases s, s.len() - i,
{
    if 0 <= i < s.len() {
        flat_item(s[i], depth, path.push(i as usize), i == s.len() - 1) + flat_list(s, depth, path, i + 1)
    } else {
        Seq::empty()
    }
}

/// The number of levels of `t`.
pub open spec fn item_height(t: TreeItem) -> nat
    decreases t, 0int,
{
    match t {
        TreeItem::Group { children, .. } => 1 + list_height(children@, 0),
        TreeItem::Node { .. } => 1,
    }
}

/// The greatest number of levels among `s[i..]`.
pub open spec fn list_height(s: Seq<TreeItem>, i: int) -> nat
    decreases s, s.len() - i,
{
    if 0 <= i < s.len() {
        let a = item_height(s[i]);
        let b = list_height(s, i + 1);
        if a >= b { a } else { b }
    } else {
        0
    }
}

/// What the lines of `out` hold.
pub open spec fn flat_views<'a>(out: Seq<FlatItem<'a>>) -> Seq<(TreeItem, int, Seq<usize>, bool)> {
    out.map_values(|f: FlatItem<'a>| flat_view(f))
}

/// No entry of `s[i..]` is taller than `list_height(s, i)`.
proof fn lemma_list_height(s: Seq<TreeItem>, i: int, j: int)
    requires
        0 <= i <= j < s.len(),
    ensures
        item_height(s[j]) <= list_height(s, i),
    decreases j - i,
{
    if i < j {
        lemma_list_height(s, i + 1, j);
    }
}

/// A copy of a path.
fn copy_path(v: &Vec<usize>) -> (r: Vec<usize>)
    ensures
        r@ == v@,
{
    let mut r: Vec<usize> = Vec::new();
    let mut i: usize = 0;
    while i < v.len()
        invariant
            i <= v@.len(),
            r@ == v@.subrange(0, i as int),
        decreases v@.len() - i,
    {
        r.push(v[i]);
        i = i + 1;
    }
    assert(v@.subrange(0, v@.len() as int) =~= v@);
    r
}

/// Appends the lines of `item` to `out`.
fn flatten_recursive<'a>(item: &'a TreeItem, depth: usize, path: Vec<usize>, is_last: bool, out: &mut Vec<FlatItem<'a>>)
    requires
        depth + item_height(*item) <= usize::MAX,
    ensures
        flat_views(final(out)@) == flat_views(old(out)@) + flat_item(*item, depth as int, path@, is_last),
    decreases *item,
{
    let ghost p = path@;
    let ghost start = flat_views(out@);
    let own_path = copy_path(&path);
    out.push(FlatItem { item, depth, index_in_tree: own_path, last_in_group: is_last });
    assert(flat_views(out@) =~= start + seq![(*item, depth as int, p, is_last)]);
    match item {
        TreeItem::Group { children, collapsed, .. } => {
            if !*collapsed {
                let ghost target = start + flat_item(*item, depth as int, p, is_last);
                let len = children.len();
                let mut i: usize = 0;
                assert(flat_views(out@) + flat_list(children@, depth + 1, p, 0) =~= target);
                while i < len
                    invariant
                        len == children@.len(),
                        i <= len,
                        p == path@,
                        depth + item_height(*item) <= usize::MAX,
                        *item matches TreeItem::Group { .. },
                        children@ == item->children@,
                        flat_views(out@) + flat_list(children@, depth + 1, p, i as int) == target,
                    decreases len - i,
                {
                    let child_path = copy_path(&path);
                    let mut child_path = child_path;
                    child_path.push(i);
                    proof {
                        lemma_list_height(children@, 0, i as int);
                    }
                    let ghost before = flat_views(out@);
                    flatten_recursive(&children[i], depth + 1, child_path, i == len - 1, out);
                    let ghost fi = flat_item(children@[i as int], depth + 1, p.push(i), i == len - 1);
                    assert(flat_list(children@, depth + 1, p, i as int) == fi + flat_list(children@, depth + 1, p, i + 1));
                    assert(flat_views(out@) + flat_list(children@, depth + 1, p, i + 1) =~= before + flat_list(children@, depth + 1, p, i as int));
                    i = i + 1;
                }
                assert(flat_list(children@, depth + 1, p, len as int) =~= Seq::empty());
                assert(flat_views(out@) =~= target);
            } else {
                assert(flat_views(out@) =~= start + flat_item(*item, depth as int, p, is_last));
            }
        },
        TreeItem::Node { .. } => {
            assert(flat_views(out@) =~= start + flat_item(*item, depth as int, p, is_last));
        },
    }
}

/// The lines shown for the hierarchy: each entry with its depth, its path and
/// whether it is the last of its siblings, top to bottom, skipping what lies
/// under a folded group.
pub fn flatten_tree<'a>(tree: &'a Vec<TreeItem>) -> (r: Vec<FlatItem<'a>>)
    requires
        list_height(tree@, 0) <= usize::MAX,
    ensures
        flat_views(r@) == flat_list(tree@, 0, Seq::empty(), 0),
{
    let mut flat: Vec<FlatItem<'a>> = Vec::new();
    let len = tree.len();
    let mut i: usize = 0;
    let ghost target = flat_list(tree@, 0, Seq::empty(), 0);
    assert(flat_views(flat@) + target =~= target);
    while i < len
        invariant
            len == tree@.len(),
            i <= len,
            list_height(tree@, 0) <= usize::MAX,
            flat_views(flat@) + flat_list(tree@, 0, Seq::empty(), i as int) == target,
        decreases len - i,
    {
        let mut path: Vec<usize> = Vec::new();
        path.push(i);
        assert(path@ =~= Seq::<usize>::empty().push(i));
        proof {
            lemma_list_height(tree@, 0, i as int);
        }
        let ghost before = flat_views(flat@);
        flatten_recursive(&tree[i], 0, path, i == len - 1, &mut flat);
        let ghost fi = flat_item(tree@[i as int], 0, Seq::<usize>::empty().push(i), i == len - 1);
        assert(flat_list(tree@, 0, Seq::empty(), i as int) == fi + flat_list(tree@, 0, Seq::empty(), i + 1));
        assert(flat_views(flat@) + flat_list(tree@, 0, Seq::empty(), i + 1) =~= before + flat_list(tree@, 0, Seq::empty(), i as int));
        i = i + 1;
    }
    assert(flat_list(tree@, 0, Seq::empty(), len as int) =~= Seq::empty());
    assert(flat_views(flat@) =~= target);
    flat
}

/// `after` is `before` with the group at `path` folded or unfolded; a path that
/// leads nowhere, or to a node, changes nothing.
pub open spec fn toggled_list(before: Seq<TreeItem>, after: Seq<TreeItem>, path: Seq<usize>) -> bool
    decreases path.len(),
{
    if path.len() == 0 || path[0] >= before.len() {
        after == before
    } else {
        let idx = path[0] as int;
        let rest = path.drop_first();
        &&& after.len() == before.len()
        &&& forall|j: int| 0 <= j < before.len() && j != idx ==> after[j] == before[j]
        &&& match before[idx] {
            TreeItem::Group { name, children, collapsed } => after[idx] matches TreeItem::Group {
                name: n2,
                children: c2,
                collapsed: k2,
            } && n2 == name && if rest.len() == 0 {
                k2 == !collapsed && c2 == children
            } else {
                k2 == collapsed && toggled_list(children@, c2@, rest)
            },
            TreeItem::Node { .. } => after[idx] == before[idx],
        }
    }
}

/// Folds or unfolds the group at `path` in `items`.
fn toggle_recursive(items: &mut Vec<TreeItem>, path: &[usize])
    ensures
        toggled_list(old(items)@, final(items)@, path@),
    decreases path@.len(),
{
    if path.len() == 0 {
        return;
    }
    let idx = path[0];
    if idx >= items.len() {
        return;
    }
    let ghost before = items@;
    let item = items.remove(idx);
    let new_item = match item {
        TreeItem::Group { name, children, collapsed } => {
            if path.len() == 1 {
                TreeItem::Group { name, children, collapsed: !collapsed }
            } else {
                let mut ch = children;
                let rest = &path[1..path.len()];
                assert(rest@ =~= path@.drop_first());
                toggle_recursive(&mut ch, rest);
                TreeItem::Group { name, children: ch, collapsed }
            }
        },
        TreeItem::Node { name } => TreeItem::Node { name },
    };
    items.insert(idx, new_item);
    assert forall|j: int| 0 <= j < before.len() && j != idx implies items@[j] == before[j] by {
        if j < idx {
        } else {
        }
    }
}

/// Folds or unfolds the group at `path` (indices from the top of the tree);
/// a path that leads nowhere, or to a node, changes nothing.
pub fn toggle_group_collapse(tree: &mut Vec<TreeItem>, path: &[usize])
    ensures
        toggled_list(old(tree)@, final(tree)@, path@),
{
    toggle_recursive(tree, path);
}

/// The names of the nodes under `t`, in order.
pub open spec fn item_leaves(t: TreeItem) -> Seq<Seq<char>>
    decreases t, 0int,
{
    match t {
        TreeItem::Group { children, .. } => list_leaves(children@, 0),
        TreeItem::Node { name } => seq![name@],
    }
}

/// The names of the nodes under `s[i..]`, in order.
pub open spec fn list_leaves(s: Seq<TreeItem>, i: int) -> Seq<Seq<char>>
    decreases s, s.len() - i,
{
    if 0 <= i < s.len() {
        item_leaves(s[i]) + list_leaves(s, i + 1)
    } else {
        Seq::empty()
    }
}

/// Appends the nodes under `item`, in order, to `leaves`.
pub fn collect_leaves(item: &TreeItem, leaves: &mut Vec<NodeName>)
    ensures
        names(final(leaves)@) == names(old(leaves)@) + item_leaves(*item),
    decreases *item,
{
    let ghost start = names(leaves@);
    match item {
        TreeItem::Group { children, .. } => {
            let len = children.len();
            let mut i: usize = 0;
            assert(names(leaves@) + list_leaves(children@, 0) =~= start + item_leaves(*item));
            while i < len
                invariant
                    len == children@.len(),
                    i <= len,
                    *item matches TreeItem::Group { .. },
                    children@ == item->children@,
                    names(leaves@) + list_leaves(children@, i as int) == start + item_leaves(*item),
                decreases len - i,
            {
                let ghost before = names(leaves@);
                collect_leaves(&children[i], leaves);
                assert(list_leaves(children@, i as int) == item_leaves(children@[i as int]) + list_leaves(children@, i + 1));
                assert(names(leaves@) + list_leaves(children@, i + 1) =~= before + list_leaves(children@, i as int));
                i = i + 1;
            }
            assert(list_leaves(children@, len as int) =~= Seq::empty());
            assert(names(leaves@) =~= start + item_leaves(*item));
        },
        TreeItem::Node { name } => {
            let ghost old_leaves = leaves@;
            leaves.push(name.clone());
            assert(names(leaves@) =~= names(old_leaves).push(name@));
            assert(names(leaves@) =~= start + item_leaves(*item));
        },
    }
}

/// `a` and `b` hold the same entries: same names, same folding, same children.
pub open spec fn same_item(a: TreeItem, b: TreeItem) -> bool
    decreases a, 0int,
{
    match a {
        TreeItem::Group { name, children, collapsed } => b matches TreeItem::Group {
            name: n2,
            children: c2,
            collapsed: k2,
        } && n2@ == name@ && k2 == collapsed && same_list(children@, c2@, 0),
        TreeItem::Node { name } => b matches TreeItem::Node { name: n2 } && n2@ == name@,
    }
}

/// `s[i..]` and `t[i..]` hold the same entries, and `s` and `t` are equally long.
pub open spec fn same_list(s: Seq<TreeItem>, t: Seq<TreeItem>, i: int) -> bool
    decreases s, s.len() - i,
{
    &&& s.len() == t.len()
    &&& (0 <= i < s.len() ==> same_item(s[i], t[i]) && same_list(s, t, i + 1))
}

proof fn lemma_same_item_refl(a: TreeItem)
    ensures
        same_item(a, a),
    decreases a, 0int,
{
    if let TreeItem::Group { children, .. } = a {
        lemma_same_list_refl(children@, 0);
    }
}

proof fn lemma_same_list_refl(s: Seq<TreeItem>, i: int)
    ensures
        same_list(s, s, i),
    decreases s, s.len() - i,
{
    if 0 <= i < s.len() {
        lemma_same_item_refl(s[i]);
        lemma_same_list_refl(s, i + 1);
    }
}

proof fn lemma_same_list_pointwise(s: Seq<TreeItem>, t: Seq<TreeItem>, i: int)
    requires
        s.len() == t.len(),
        0 <= i,
        forall|j: int| i <= j < s.len() ==> same_item(#[trigger] s[j], t[j]),
    ensures
        same_list(s, t, i),
    decreases s.len() - i,
{
    if i < s.len() {
        lemma_same_list_pointwise(s, t, i + 1);
    }
}

/// Folding or unfolding the same group twice gives back the tree it started from.
pub proof fn lemma_toggle_twice(a: Seq<TreeItem>, b: Seq<TreeItem>, c: Seq<TreeItem>, path: Seq<usize>)
    requires
        toggled_list(a, b, path),
        toggled_list(b, c, path),
    ensures
        same_list(a, c, 0),
    decreases path.len(),
{
    if path.len() == 0 || path[0] >= a.len() {
        lemma_same_list_refl(a, 0);
    } else {
        let idx = path[0] as int;
        let rest = path.drop_first();
        assert forall|j: int| 0 <= j < a.len() implies same_item(#[trigger] a[j], c[j]) by {
            if j != idx {
                lemma_same_item_refl(a[j]);
            } else {
                match a[idx] {
                    TreeItem::Group { name, children, collapsed } => {
                        if rest.len() == 0 {
                            lemma_same_item_refl(a[idx]);
                        } else {
                            let cb = b[idx]->Group_children;
                            let cc = c[idx]->Group_children;
                            lemma_toggle_twice(children@, cb@, cc@, rest);
                        }
                    },
                    TreeItem::Node { .. } => {
                        lemma_same_item_refl(a[idx]);
                    },
                }
            }
        }
        lemma_same_list_pointwise(a, c, 0);
    }
}

proof fn lemma_leaves_pointwise(s: Seq<TreeItem>, t: Seq<TreeItem>, i: int)
    requires
        s.len() == t.len(),
        0 <= i,
        forall|j: int| i <= j < s.len() ==> item_leaves(#[trigger] s[j]) == item_leaves(t[j]),
    ensures
        list_leaves(s, i) == list_leaves(t, i),
    decreases s.len() - i,
{
    if i < s.len() {
        lemma_leaves_pointwise(s, t, i + 1);
    }
}

/// Folding or unfolding a group keeps every node where it was.
pub proof fn lemma_toggle_keeps_leaves(a: Seq<TreeItem>, b: Seq<TreeItem>, path: Seq<usize>)
    requires
        toggled_list(a, b, path),
    ensures
        list_leaves(b, 0) == list_leaves(a, 0),
    decreases path.len(),
{
    if path.len() > 0 && path[0] < a.len() {
        let idx = path[0] as int;
        let rest = path.drop_first();
        assert forall|j: int| 0 <= j < a.len() implies item_leaves(#[trigger] a[j]) == item_leaves(b[j]) by {
            if j == idx {
                if let TreeItem::Group { children, .. } = a[idx] {
                    if rest.len() > 0 {
                        lemma_toggle_keeps_leaves(children@, b[idx]->Group_children@, rest);
                    }
                }
            }
        }
        lemma_leaves_pointwise(a, b, 0);
    }
}

/// The nodes under `s[i..k]`, in order.
pub open spec fn span_leaves(s: Seq<TreeItem>, i: int, k: int) -> Seq<Seq<char>>
    decreases k - i,
{
    if i < k {
        item_leaves(s[i]) + span_leaves(s, i + 1, k)
    } else {
        Seq::empty()
    }
}

proof fn lemma_split_leaves(s: Seq<TreeItem>, i: int, k: int)
    requires
        0 <= i <= k <= s.len(),
    ensures
        list_leaves(s, i) == span_leaves(s, i, k) + list_leaves(s, k),
    decreases k - i,
{
    if i < k {
        lemma_split_leaves(s, i + 1, k);
        assert(list_leaves(s, i) =~= item_leaves(s[i]) + (span_leaves(s, i + 1, k) + list_leaves(s, k)));
        assert(span_leaves(s, i, k) + list_leaves(s, k) =~= item_leaves(s[i]) + (span_leaves(s, i + 1, k)
            + list_leaves(s, k)));
    } else {
        assert(span_leaves(s, i, k) + list_leaves(s, k) =~= list_leaves(s, k));
    }
}

proof fn lemma_shift_leaves(s: Seq<TreeItem>, k: int, j: int)
    requires
        0 <= k <= j <= s.len(),
    ensures
        list_leaves(s, j) == list_leaves(s.subrange(k, s.len() as int), j - k),
    decreases s.len() - j,
{
    if j < s.len() {
        lemma_shift_leaves(s, k, j + 1);
        assert(s.subrange(k, s.len() as int)[j - k] == s[j]);
    }
}

proof fn lemma_node_list_leaves(items: Seq<TreeItem>, i: int)
    requires
        0 <= i <= items.len(),
        forall|j: int| 0 <= j < items.len() ==> #[trigger] items[j] is Node,
    ensures
        list_leaves(items, i) == items.subrange(i, items.len() as int).map_values(|t: TreeItem| item_name(t)),
    decreases items.len() - i,
{
    if i < items.len() {
        lemma_node_list_leaves(items, i + 1);
        assert(items[i] is Node);
        assert(item_leaves(items[i]) == seq![item_name(items[i])]);
        assert(items.subrange(i, items.len() as int).map_values(|t: TreeItem| item_name(t)) =~= seq![item_name(items[i])]
            + items.subrange(i + 1, items.len() as int).map_values(|t: TreeItem| item_name(t)));
    } else {
        assert(items.subrange(i, items.len() as int).map_values(|t: TreeItem| item_name(t)) =~= Seq::<Seq<char>>::empty());
    }
}

/// The nodes of every group named in `gs[i..]`, counted together.
pub open spec fn group_members(
    nodes: Seq<Seq<char>>,
    cfg: Seq<(NodeName, NodeConfig)>,
    key: Seq<char>,
    gs: Seq<Seq<char>>,
    i: int,
) -> Multiset<Seq<char>>
    decreases gs.len() - i,
{
    if 0 <= i < gs.len() {
        members(nodes, cfg, key, Some(gs[i])).to_multiset().add(group_members(nodes, cfg, key, gs, i + 1))
    } else {
        Multiset::empty()
    }
}

/// Adding node `x` at the end adds it to the one group of `gs[i..]` that its value names, if any.
proof fn lemma_group_members_push(
    nodes: Seq<Seq<char>>,
    cfg: Seq<(NodeName, NodeConfig)>,
    key: Seq<char>,
    gs: Seq<Seq<char>>,
    i: int,
)
    requires
        nodes.len() > 0,
        0 <= i <= gs.len(),
        forall|a: int, b: int| 0 <= a < b < gs.len() ==> gs[a] != gs[b],
    ensures
        group_members(nodes, cfg, key, gs, i) == group_members(nodes.drop_last(), cfg, key, gs, i).add(
            if exists|j: int| i <= j < gs.len() && node_value(cfg, nodes.last(), key) == Some(#[trigger] gs[j]) {
                Multiset::singleton(nodes.last())
            } else {
                Multiset::empty()
            },
        ),
    decreases gs.len() - i,
{
    broadcast use vstd::multiset::group_multiset_axioms;
    let x = nodes.last();
    let pre = nodes.drop_last();
    if i < gs.len() {
        lemma_group_members_push(nodes, cfg, key, gs, i + 1);
        let hit = node_value(cfg, x, key) == Some(gs[i]);
        assert(members(nodes, cfg, key, Some(gs[i])) == if hit {
            members(pre, cfg, key, Some(gs[i])).push(x)
        } else {
            members(pre, cfg, key, Some(gs[i]))
        });
        if hit {
            assert(!exists|j: int| i + 1 <= j < gs.len() && node_value(cfg, x, key) == Some(#[trigger] gs[j])) by {
                if exists|j: int| i + 1 <= j < gs.len() && node_value(cfg, x, key) == Some(#[trigger] gs[j]) {
                    let j = choose|j: int| i + 1 <= j < gs.len() && node_value(cfg, x, key) == Some(#[trigger] gs[j]);
                    assert(gs[i] != gs[j]);
                }
            }
            assert(exists|j: int| i <= j < gs.len() && node_value(cfg, x, key) == Some(#[trigger] gs[j]));
        } else {
            assert((exists|j: int| i <= j < gs.len() && node_value(cfg, x, key) == Some(#[trigger] gs[j])) == (exists|j: int|
                i + 1 <= j < gs.len() && node_value(cfg, x, key) == Some(#[trigger] gs[j]))) by {
                if exists|j: int| i <= j < gs.len() && node_value(cfg, x, key) == Some(#[trigger] gs[j]) {
                    let j = choose|j: int| i <= j < gs.len() && node_value(cfg, x, key) == Some(#[trigger] gs[j]);
                    assert(j != i);
                }
            }
        }
        assert(group_members(nodes, cfg, key, gs, i) =~= group_members(pre, cfg, key, gs, i).add(
            if exists|j: int| i <= j < gs.len() && node_value(cfg, x, key) == Some(#[trigger] gs[j]) {
                Multiset::singleton(x)
            } else {
                Multiset::empty()
            },
        ));
    } else {
        assert(group_members(nodes, cfg, key, gs, i) =~= group_members(pre, cfg, key, gs, i).add(Multiset::empty()));
    }
}

/// The nodes are those of the groups named `gs`, which cover every value of
/// `key`, and those without a value, each counted once.
proof fn lemma_partition(
    nodes: Seq<Seq<char>>,
    cfg: Seq<(NodeName, NodeConfig)>,
    key: Seq<char>,
    gs: Seq<Seq<char>>,
)
    requires
        forall|a: int, b: int| 0 <= a < b < gs.len() ==> gs[a] != gs[b],
        forall|m: int| 0 <= m < nodes.len() && (#[trigger] node_value(cfg, nodes[m], key)) is Some ==> gs.contains(
            node_value(cfg, nodes[m], key)->0,
        ),
    ensures
        nodes.to_multiset() == group_members(nodes, cfg, key, gs, 0).add(members(nodes, cfg, key, None).to_multiset()),
    decreases nodes.len(),
{
    broadcast use vstd::multiset::group_multiset_axioms;
    broadcast use vstd::seq_lib::group_to_multiset_ensures;
    if nodes.len() == 0 {
        lemma_group_members_empty(nodes, cfg, key, gs, 0);
        assert(nodes.to_multiset() =~= Multiset::empty());
        assert(members(nodes, cfg, key, None).to_multiset() =~= Multiset::empty());
        assert(nodes.to_multiset() =~= group_members(nodes, cfg, key, gs, 0).add(members(nodes, cfg, key, None).to_multiset()));
    } else {
        let x = nodes.last();
        let pre = nodes.drop_last();
        assert forall|m: int| 0 <= m < pre.len() && (#[trigger] node_value(cfg, pre[m], key)) is Some implies gs.contains(
            node_value(cfg, pre[m], key)->0,
        ) by {
            assert(pre[m] == nodes[m]);
        }
        lemma_partition(pre, cfg, key, gs);
        lemma_group_members_push(nodes, cfg, key, gs, 0);
        assert(nodes =~= pre.push(x));
        assert(nodes.to_multiset() =~= pre.to_multiset().insert(x));
        let v = node_value(cfg, x, key);
        assert(members(nodes, cfg, key, None) == if v == None::<Seq<char>> {
            members(pre, cfg, key, None).push(x)
        } else {
            members(pre, cfg, key, None)
        });
        if v is Some {
            assert(node_value(cfg, nodes[nodes.len() - 1], key) is Some);
            assert(gs.contains(v->0));
            let j = choose|j: int| 0 <= j < gs.len() && gs[j] == v->0;
            assert(exists|j: int| 0 <= j < gs.len() && node_value(cfg, x, key) == Some(#[trigger] gs[j]));
        } else {
            assert(!exists|j: int| 0 <= j < gs.len() && node_value(cfg, x, key) == Some(#[trigger] gs[j]));
        }
        assert(nodes.to_multiset() =~= group_members(nodes, cfg, key, gs, 0).add(members(nodes, cfg, key, None).to_multiset()));
    }
}

proof fn lemma_group_members_empty(
    nodes: Seq<Seq<char>>,
    cfg: Seq<(NodeName, NodeConfig)>,
    key: Seq<char>,
    gs: Seq<Seq<char>>,
    i: int,
)
    requires
        nodes.len() == 0,
        0 <= i,
    ensures
        group_members(nodes, cfg, key, gs, i) =~= Multiset::empty(),
    decreases gs.len() - i,
{
    broadcast use vstd::multiset::group_multiset_axioms;
    broadcast use vstd::seq_lib::group_to_multiset_ensures;
    if i < gs.len() {
        lemma_group_members_empty(nodes, cfg, key, gs, i + 1);
        assert(members(nodes, cfg, key, Some(gs[i])) =~= Seq::<Seq<char>>::empty());
        assert(members(nodes, cfg, key, Some(gs[i])).to_multiset() =~= Multiset::empty());
    }
}

/// The groups `items[i..k]` hold the nodes of the groups they name.
proof fn lemma_span_groups(
    items: Seq<TreeItem>,
    nodes: Seq<Seq<char>>,
    cfg: Seq<(NodeName, NodeConfig)>,
    key: Seq<char>,
    gs: Seq<Seq<char>>,
    i: int,
    k: int,
)
    requires
        0 <= i <= k <= items.len(),
        gs.len() == k,
        forall|j: int| 0 <= j < k ==> #[trigger] gs[j] == item_name(items[j]),
        forall|j: int| 0 <= j < k ==> (#[trigger] item_leaves(items[j])).to_multiset() == members(nodes, cfg, key, Some(gs[j])).to_multiset(),
    ensures
        span_leaves(items, i, k).to_multiset() == group_members(nodes, cfg, key, gs, i),
    decreases k - i,
{
    broadcast use vstd::multiset::group_multiset_axioms;
    broadcast use vstd::seq_lib::group_to_multiset_ensures;
    if i < k {
        lemma_span_groups(items, nodes, cfg, key, gs, i + 1, k);
        vstd::seq_lib::lemma_multiset_commutative(item_leaves(items[i]), span_leaves(items, i + 1, k));
        assert(item_leaves(items[i]).to_multiset() == members(nodes, cfg, key, Some(gs[i])).to_multiset());
    } else {
        assert(span_leaves(items, i, k).to_multiset() =~= Multiset::empty());
    }
}

/// Groups with the nodes of their names, in strict name order and covering
/// every value of `key`, then the nodes without a value: each node once.
proof fn lemma_combine_leaves(
    items: Seq<TreeItem>,
    nodes: Seq<Seq<char>>,
    cfg: Seq<(NodeName, NodeConfig)>,
    key: Seq<char>,
    k: int,
)
    requires
        0 <= k <= items.len(),
        forall|j: int| 0 <= j < k ==> (#[trigger] item_leaves(items[j])).to_multiset() == members(nodes, cfg, key, Some(item_name(items[j]))).to_multiset(),
        forall|i: int, j: int| 0 <= i < j < k ==> lex_less(item_name(#[trigger] items[i]), item_name(#[trigger] items[j])),
        forall|m: int|
            0 <= m < nodes.len() && (#[trigger] node_value(cfg, nodes[m], key)) is Some ==> exists|i: int|
                0 <= i < k && item_name(#[trigger] items[i]) == node_value(cfg, nodes[m], key)->0,
        list_leaves(items.subrange(k, items.len() as int), 0).to_multiset() == members(nodes, cfg, key, None).to_multiset(),
    ensures
        list_leaves(items, 0).to_multiset() == nodes.to_multiset(),
{
    broadcast use vstd::multiset::group_multiset_axioms;
    let gs = Seq::new(k as nat, |j: int| item_name(items[j]));
    assert forall|j: int| 0 <= j < k implies (#[trigger] item_leaves(items[j])).to_multiset() == members(
        nodes,
        cfg,
        key,
        Some(gs[j]),
    ).to_multiset() by {}
    lemma_span_groups(items, nodes, cfg, key, gs, 0, k);
    lemma_shift_leaves(items, k, k);
    lemma_split_leaves(items, 0, k);
    vstd::seq_lib::lemma_multiset_commutative(span_leaves(items, 0, k), list_leaves(items, k));
    assert forall|a: int, b: int| 0 <= a < b < gs.len() implies gs[a] != gs[b] by {
        assert(lex_less(item_name(items[a]), item_name(items[b])));
        lemma_lex_trichotomy(gs[a], gs[b]);
    }
    assert forall|m: int| 0 <= m < nodes.len() && (#[trigger] node_value(cfg, nodes[m], key)) is Some implies gs.contains(
        node_value(cfg, nodes[m], key)->0,
    ) by {
        let i = choose|i: int| 0 <= i < k && item_name(#[trigger] items[i]) == node_value(cfg, nodes[m], key)->0;
        assert(gs[i] == node_value(cfg, nodes[m], key)->0);
    }
    lemma_partition(nodes, cfg, key, gs);
}

/// Every node shows up in the hierarchy exactly once: the leaves of a hierarchy
/// of `nodes` are `nodes`, each as often.
pub proof fn lemma_tree_leaves(
    items: Seq<TreeItem>,
    nodes: Seq<Seq<char>>,
    cfg: Seq<(NodeName, NodeConfig)>,
    keys: Seq<Seq<char>>,
)
    requires
        is_tree(items, nodes, cfg, keys),
    ensures
        list_leaves(items, 0).to_multiset() == nodes.to_multiset(),
    decreases keys.len(),
{
    if keys.len() == 0 {
        lemma_node_list_leaves(items, 0);
        assert(items.subrange(0, items.len() as int) =~= items);
    } else {
        let key = keys[0];
        let rest = keys.drop_first();
        let others = members(nodes, cfg, key, None);
        let k = choose|k: int|
            0 <= k <= items.len() && {
                &&& forall|i: int|
                    0 <= i < k ==> (#[trigger] items[i] matches TreeItem::Group { name, children, collapsed }
                        && !collapsed && is_tree(children@, members(nodes, cfg, key, Some(name@)), cfg, rest))
                &&& forall|i: int, j: int|
                    0 <= i < j < k ==> lex_less(item_name(#[trigger] items[i]), item_name(#[trigger] items[j]))
                &&& forall|i: int|
                    0 <= i < k ==> exists|m: int|
                        0 <= m < nodes.len() && #[trigger] node_value(cfg, nodes[m], key) == Some(
                            item_name(#[trigger] items[i]),
                        )
                &&& forall|m: int|
                    0 <= m < nodes.len() && (#[trigger] node_value(cfg, nodes[m], key)) is Some ==> exists|i: int|
                        0 <= i < k && item_name(#[trigger] items[i]) == node_value(cfg, nodes[m], key)->0
                &&& if rest.len() == 0 {
                    is_sorted_node_list(items.subrange(k, items.len() as int), others)
                } else {
                    is_tree(items.subrange(k, items.len() as int), others, cfg, rest)
                }
            };
        assert forall|j: int| 0 <= j < k implies (#[trigger] item_leaves(items[j])).to_multiset() == members(
            nodes,
            cfg,
            key,
            Some(item_name(items[j])),
        ).to_multiset() by {
            if let TreeItem::Group { name, children, collapsed } = items[j] {
                lemma_tree_leaves(children@, members(nodes, cfg, key, Some(name@)), cfg, rest);
            }
        }
        let tail = items.subrange(k, items.len() as int);
        if rest.len() == 0 {
            lemma_node_list_leaves(tail, 0);
            assert(tail.subrange(0, tail.len() as int) =~= tail);
        } else {
            lemma_tree_leaves(tail, others, cfg, rest);
        }
        lemma_combine_leaves(items, nodes, cfg, key, k);
    }
}

} // verus!
