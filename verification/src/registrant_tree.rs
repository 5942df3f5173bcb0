//! The registrant tree of the dashboard: providers, their accounts, the
//! accounts' domains and the domains' record groups.
use vstd::prelude::*;
use vstd::string::*;

use crate::model::RegistrantTreeItem;
use crate::nix::{clone_opt, clone_strings, opt_view, views};
use crate::registrants::{DomainInfo, PorkbunDnsRecord, PorkbunGlueIps, PorkbunGlueRecord};
use crate::text::{lex_less, owned, str_eq};
use crate::tree::{distinct_values, opt_views, strictly_sorted, value_set};

verus! {

/// A copy of a domain entry.
pub fn copy_domain(d: &DomainInfo) -> (r: DomainInfo)
    ensures
        r == *d,
{
    DomainInfo {
        domain: d.domain.clone(),
        provider: d.provider.clone(),
        account: d.account.clone(),
        expiry_date: crate::nix::clone_opt(&d.expiry_date),
        auto_renew: d.auto_renew,
    }
}

/// The domains of provider `p` (and of account `a`, where given), in order.
pub open spec fn domains_of(ds: Seq<DomainInfo>, p: Seq<char>, a: Option<Seq<char>>) -> Seq<DomainInfo>
    decreases ds.len(),
{
    if ds.len() == 0 {
        Seq::empty()
    } else {
        let d = ds.last();
        let hit = d.provider@ == p && match a {
            Some(x) => d.account@ == x,
            None => true,
        };
        domains_of(ds.drop_last(), p, a) + if hit { seq![d] } else { Seq::empty() }
    }
}

/// The record groups under a domain: DNS and glue records, not yet loaded,
/// for a Porkbun domain; none for others.
pub open spec fn record_groups_ok(d: DomainInfo, children: Seq<RegistrantTreeItem>) -> bool {
    if d.provider@ == "Porkbun"@ {
        &&& children.len() == 2
        &&& children[0] matches RegistrantTreeItem::RecordGroup { name, domain_info, children: c, collapsed, loaded }
            && name@ == "DNS Records"@ && domain_info == d && collapsed && !loaded && c@.len() == 1
            && (c@[0] matches RegistrantTreeItem::Message { text } && text@ == "Loading..."@)
        &&& children[1] matches RegistrantTreeItem::RecordGroup { name, domain_info, children: c, collapsed, loaded }
            && name@ == "Glue Records"@ && domain_info == d && collapsed && !loaded && c@.len() == 1
            && (c@[0] matches RegistrantTreeItem::Message { text } && text@ == "Loading..."@)
    } else {
        children.len() == 0
    }
}

/// The names of the entries that carry one.
pub open spec fn reg_name(t: RegistrantTreeItem) -> Seq<char> {
    match t {
        RegistrantTreeItem::Provider { name, .. } => name@,
        RegistrantTreeItem::Account { name, .. } => name@,
        RegistrantTreeItem::RecordGroup { name, .. } => name@,
        RegistrantTreeItem::Domain { info, .. } => info.domain@,
        RegistrantTreeItem::Message { text } => text@,
        _ => Seq::empty(),
    }
}

/// The provider names of the domains.
pub open spec fn provider_names(ds: Seq<DomainInfo>) -> Seq<Option<Seq<char>>> {
    ds.map_values(|d: DomainInfo| Some(d.provider@))
}

/// The account names of the domains.
pub open spec fn account_names(ds: Seq<DomainInfo>) -> Seq<Option<Seq<char>>> {
    ds.map_values(|d: DomainInfo| Some(d.account@))
}

/// `items` are the domain entries for `ds`, in order, each folded and holding its record groups.
pub open spec fn domain_entries_ok(items: Seq<RegistrantTreeItem>, ds: Seq<DomainInfo>) -> bool {
    &&& items.len() == ds.len()
    &&& forall|i: int| 0 <= i < ds.len() ==> (#[trigger] items[i] matches RegistrantTreeItem::Domain { info, children, collapsed }
        && info == ds[i] && collapsed && record_groups_ok(ds[i], children@))
}

/// `items` are the account entries of provider `p`: one unfolded entry per
/// account, in strict name order, each holding its domains.
pub open spec fn account_entries_ok(items: Seq<RegistrantTreeItem>, ds: Seq<DomainInfo>, p: Seq<char>) -> bool {
    let mine = domains_of(ds, p, None);
    &&& strictly_sorted(items.map_values(|t: RegistrantTreeItem| reg_name(t)))
    &&& items.map_values(|t: RegistrantTreeItem| reg_name(t)).to_set() == value_set(account_names(mine))
    &&& forall|i: int| 0 <= i < items.len() ==> (#[trigger] items[i] matches RegistrantTreeItem::Account { name, children, collapsed }
        && !collapsed && domain_entries_ok(children@, domains_of(ds, p, Some(name@))))
}

/// `items` is the registrant tree of `ds`: one unfolded entry per provider, in
/// strict name order, each holding its accounts.
pub open spec fn registrant_tree_ok(items: Seq<RegistrantTreeItem>, ds: Seq<DomainInfo>) -> bool {
    &&& strictly_sorted(items.map_values(|t: RegistrantTreeItem| reg_name(t)))
    &&& items.map_values(|t: RegistrantTreeItem| reg_name(t)).to_set() == value_set(provider_names(ds))
    &&& forall|i: int| 0 <= i < items.len() ==> (#[trigger] items[i] matches RegistrantTreeItem::Provider { name, children, collapsed }
        && !collapsed && account_entries_ok(children@, ds, name@))
}

/// The domains of provider `p` (and account `a`, where given).
fn select_domains(ds: &Vec<DomainInfo>, p: &str, a: Option<&str>) -> (r: Vec<DomainInfo>)
    ensures
        r@ == domains_of(ds@, p@, match a {
            Some(x) => Some(x@),
            None => None,
        }),
{
    let ghost av = match a {
        Some(x) => Some(x@),
        None => None::<Seq<char>>,
    };
    let mut r: Vec<DomainInfo> = Vec::new();
    let mut i: usize = 0;
    while i < ds.len()
        invariant
            i <= ds@.len(),
            av == match a {
                Some(x) => Some(x@),
                None => None::<Seq<char>>,
            },
            r@ == domains_of(ds@.subrange(0, i as int), p@, av),
        decreases ds@.len() - i,
    {
        let ghost pre = ds@.subrange(0, i + 1);
        assert(pre.drop_last() =~= ds@.subrange(0, i as int));
        let d = &ds[i];
        let hit = str_eq(d.provider.as_str(), p) && match a {
            Some(x) => str_eq(d.account.as_str(), x),
            None => true,
        };
        if hit {
            let ghost before = r@;
            r.push(copy_domain(d));
            assert(r@ =~= before + seq![ds@[i as int]]);
        } else {
            assert(r@ =~= r@ + Seq::<DomainInfo>::empty());
        }
        i = i + 1;
    }
    assert(ds@.subrange(0, ds@.len() as int) =~= ds@);
    r
}

/// A record group of a domain, not yet loaded.
fn loading_group(name: &str, d: &DomainInfo) -> (r: RegistrantTreeItem)
    ensures
        r matches RegistrantTreeItem::RecordGroup { name: n, domain_info, children: c, collapsed, loaded }
            && n@ == name@ && domain_info == *d && collapsed && !loaded && c@.len() == 1
            && (c@[0] matches RegistrantTreeItem::Message { text } && text@ == "Loading..."@),
{
    let mut c: Vec<RegistrantTreeItem> = Vec::new();
    c.push(RegistrantTreeItem::Message { text: owned("Loading...") });
    RegistrantTreeItem::RecordGroup { name: owned(name), domain_info: copy_domain(d), children: c, collapsed: true, loaded: false }
}

/// The entry of a domain, folded, with its record groups.
fn domain_entry(d: DomainInfo) -> (r: RegistrantTreeItem)
    ensures
        r matches RegistrantTreeItem::Domain { info, children, collapsed } && info == d && collapsed && record_groups_ok(
            d,
            children@,
        ),
{
    let mut children: Vec<RegistrantTreeItem> = Vec::new();
    if str_eq(d.provider.as_str(), "Porkbun") {
        children.push(loading_group("DNS Records", &d));
        children.push(loading_group("Glue Records", &d));
    }
    RegistrantTreeItem::Domain { info: d, children, collapsed: true }
}

/// The entries of the names `names`, strictly sorted, as built by `make` for each.
proof fn lemma_names_of(items: Seq<RegistrantTreeItem>, names: Seq<Seq<char>>)
    requires
        items.len() == names.len(),
        forall|i: int| 0 <= i < items.len() ==> reg_name(#[trigger] items[i]) == names[i],
    ensures
        items.map_values(|t: RegistrantTreeItem| reg_name(t)) == names,
{
    assert(items.map_values(|t: RegistrantTreeItem| reg_name(t)) =~= names);
}

/// The registrant tree of the domains (see [`registrant_tree_ok`]).
pub fn build_registrant_tree(domains: &Vec<DomainInfo>) -> (r: Vec<RegistrantTreeItem>)
    ensures
        registrant_tree_ok(r@, domains@),
{
    let mut pvals: Vec<Option<String>> = Vec::new();
    let mut i: usize = 0;
    while i < domains.len()
        invariant
            i <= domains@.len(),
            opt_views(pvals@) == provider_names(domains@.subrange(0, i as int)),
        decreases domains@.len() - i,
    {
        let ghost before = opt_views(pvals@);
        pvals.push(Some(owned(domains[i].provider.as_str())));
        assert(opt_views(pvals@) =~= before.push(Some(domains@[i as int].provider@)));
        assert(domains@.subrange(0, i + 1) =~= domains@.subrange(0, i as int).push(domains@[i as int]));
        assert(opt_views(pvals@) =~= provider_names(domains@.subrange(0, i + 1)));
        i = i + 1;
    }
    assert(domains@.subrange(0, domains@.len() as int) =~= domains@);
    let providers = distinct_values(&pvals);
    let ghost pnames = views(providers@);
    let mut tree: Vec<RegistrantTreeItem> = Vec::new();
    let mut p: usize = 0;
    while p < providers.len()
        invariant
            p <= providers@.len(),
            pnames == views(providers@),
            tree@.len() == p,
            forall|k: int| 0 <= k < p ==> reg_name(#[trigger] tree@[k]) == pnames[k],
            forall|k: int| 0 <= k < p ==> (#[trigger] tree@[k] matches RegistrantTreeItem::Provider { name, children, collapsed }
                && !collapsed && account_entries_ok(children@, domains@, name@)),
        decreases providers@.len() - p,
    {
        let pname = providers[p].as_str();
        let mine = select_domains(domains, pname, None);
        let mut avals: Vec<Option<String>> = Vec::new();
        let mut j: usize = 0;
        while j < mine.len()
            invariant
                j <= mine@.len(),
                opt_views(avals@) == account_names(mine@.subrange(0, j as int)),
            decreases mine@.len() - j,
        {
            let ghost before = opt_views(avals@);
            avals.push(Some(owned(mine[j].account.as_str())));
            assert(opt_views(avals@) =~= before.push(Some(mine@[j as int].account@)));
            assert(mine@.subrange(0, j + 1) =~= mine@.subrange(0, j as int).push(mine@[j as int]));
            assert(opt_views(avals@) =~= account_names(mine@.subrange(0, j + 1)));
            j = j + 1;
        }
        assert(mine@.subrange(0, mine@.len() as int) =~= mine@);
        let accounts = distinct_values(&avals);
        let ghost anames = views(accounts@);
        let mut acc_items: Vec<RegistrantTreeItem> = Vec::new();
        let mut a: usize = 0;
        while a < accounts.len()
            invariant
                a <= accounts@.len(),
                p < providers@.len(),
                anames == views(accounts@),
                pname@ == pnames[p as int],
                acc_items@.len() == a,
                forall|k: int| 0 <= k < a ==> reg_name(#[trigger] acc_items@[k]) == anames[k],
                forall|k: int| 0 <= k < a ==> (#[trigger] acc_items@[k] matches RegistrantTreeItem::Account { name, children, collapsed }
                    && !collapsed && domain_entries_ok(children@, domains_of(domains@, pname@, Some(name@)))),
            decreases accounts@.len() - a,
        {
            let aname = accounts[a].as_str();
            let ds = select_domains(domains, pname, Some(aname));
            let mut entries: Vec<RegistrantTreeItem> = Vec::new();
            let mut k: usize = 0;
            while k < ds.len()
                invariant
                    k <= ds@.len(),
                    entries@.len() == k,
                    forall|q: int| 0 <= q < k ==> (#[trigger] entries@[q] matches RegistrantTreeItem::Domain { info, children, collapsed }
                        && info == ds@[q] && collapsed && record_groups_ok(ds@[q], children@)),
                decreases ds@.len() - k,
            {
                entries.push(domain_entry(copy_domain(&ds[k])));
                k = k + 1;
            }
            assert(anames[a as int] == aname@);
            acc_items.push(RegistrantTreeItem::Account { name: owned(aname), children: entries, collapsed: false });
            a = a + 1;
        }
        proof {
            lemma_names_of(acc_items@, anames);
        }
        tree.push(RegistrantTreeItem::Provider { name: owned(pname), children: acc_items, collapsed: false });
        p = p + 1;
    }
    proof {
        lemma_names_of(tree@, pnames);
    }
    tree
}

/// The entries shown for `t`: itself, then, where it can fold and is unfolded,
/// those of its children.
pub open spec fn reg_flat_item(t: RegistrantTreeItem) -> Seq<RegistrantTreeItem>
    decreases t, 0int,
{
    seq![t] + match t {
        RegistrantTreeItem::Provider { children, collapsed, .. } => if collapsed {
            Seq::empty()
        } else {
            reg_flat_list(children@, 0)
        },
        RegistrantTreeItem::Account { children, collapsed, .. } => if collapsed {
            Seq::empty()
        } else {
            reg_flat_list(children@, 0)
        },
        RegistrantTreeItem::Domain { children, collapsed, .. } => if collapsed {
            Seq::empty()
        } else {
            reg_flat_list(children@, 0)
        },
        RegistrantTreeItem::RecordGroup { children, collapsed, .. } => if collapsed {
            Seq::empty()
        } else {
            reg_flat_list(children@, 0)
        },
        _ => Seq::empty(),
    }
}

/// The entries shown for `s[i..]`.
pub open spec fn reg_flat_list(s: Seq<RegistrantTreeItem>, i: int) -> Seq<RegistrantTreeItem>
    decreases s, s.len() - i,
{
    if 0 <= i < s.len() {
        reg_flat_item(s[i]) + reg_flat_list(s, i + 1)
    } else {
        Seq::empty()
    }
}

/// The entries of `v`.
pub open spec fn derefs<'a>(v: Seq<&'a RegistrantTreeItem>) -> Seq<RegistrantTreeItem> {
    v.map_values(|r: &'a RegistrantTreeItem| *r)
}

/// The children of an entry that can fold and is unfolded.
fn open_children(t: &RegistrantTreeItem) -> (r: Option<&Vec<RegistrantTreeItem>>)
    ensures
        match r {
            Some(c) => reg_flat_item(*t) == seq![*t] + reg_flat_list(c@, 0) && (match *t {
                RegistrantTreeItem::Provider { children, .. } => children == *c,
                RegistrantTreeItem::Account { children, .. } => children == *c,
                RegistrantTreeItem::Domain { children, .. } => children == *c,
                RegistrantTreeItem::RecordGroup { children, .. } => children == *c,
                _ => false,
            }),
            None => reg_flat_item(*t) == seq![*t],
        },
{
    match t {
        RegistrantTreeItem::Provider { children, collapsed, .. } => if *collapsed {
            assert(reg_flat_item(*t) =~= seq![*t]);
            None
        } else {
            Some(children)
        },
        RegistrantTreeItem::Account { children, collapsed, .. } => if *collapsed {
            assert(reg_flat_item(*t) =~= seq![*t]);
            None
        } else {
            Some(children)
        },
        RegistrantTreeItem::Domain { children, collapsed, .. } => if *collapsed {
            assert(reg_flat_item(*t) =~= seq![*t]);
            None
        } else {
            Some(children)
        },
        RegistrantTreeItem::RecordGroup { children, collapsed, .. } => if *collapsed {
            assert(reg_flat_item(*t) =~= seq![*t]);
            None
        } else {
            Some(children)
        },
        _ => {
            assert(reg_flat_item(*t) =~= seq![*t]);
            None
        },
    }
}

/// Appends the entries shown for `items` to `out`.
fn flatten_into<'a>(items: &'a Vec<RegistrantTreeItem>, out: &mut Vec<&'a RegistrantTreeItem>)
    ensures
        derefs(final(out)@) == derefs(old(out)@) + reg_flat_list(items@, 0),
    decreases items@,
{
    let ghost start = derefs(out@);
    let mut i: usize = 0;
    assert(derefs(out@) + reg_flat_list(items@, 0) =~= start + reg_flat_list(items@, 0));
    while i < items.len()
        invariant
            i <= items@.len(),
            derefs(out@) + reg_flat_list(items@, i as int) == start + reg_flat_list(items@, 0),
        decreases items@.len() - i,
    {
        let item = &items[i];
        let ghost before = derefs(out@);
        out.push(item);
        assert(derefs(out@) =~= before.push(items@[i as int]));
        match open_children(item) {
            Some(c) => {
                proof {
                    assert(decreases_to!(items@ => items@[i as int]));
                }
                flatten_into(c, out);
            },
            None => {},
        }
        assert(reg_flat_list(items@, i as int) == reg_flat_item(items@[i as int]) + reg_flat_list(items@, i + 1));
        assert(derefs(out@) + reg_flat_list(items@, i + 1) =~= before + reg_flat_list(items@, i as int));
        i = i + 1;
    }
    assert(reg_flat_list(items@, items@.len() as int) =~= Seq::empty());
    assert(derefs(out@) =~= start + reg_flat_list(items@, 0));
}

/// The entries shown for the registrant tree, top to bottom, skipping what
/// lies under a folded entry.
pub fn flatten_registrants<'a>(tree: &'a Vec<RegistrantTreeItem>) -> (r: Vec<&'a RegistrantTreeItem>)
    ensures
        derefs(r@) == reg_flat_list(tree@, 0),
{
    let mut out: Vec<&'a RegistrantTreeItem> = Vec::new();
    flatten_into(tree, &mut out);
    assert(derefs(out@) =~= reg_flat_list(tree@, 0));
    out
}


/// `a` is `b` folded or unfolded: entries that do not fold stay as they are.
pub open spec fn reg_flipped(b: RegistrantTreeItem, a: RegistrantTreeItem) -> bool {
    match b {
        RegistrantTreeItem::Provider { name, children, collapsed } => a matches RegistrantTreeItem::Provider {
            name: n2,
            children: c2,
            collapsed: k2,
        } && n2 == name && c2 == children && k2 == !collapsed,
        RegistrantTreeItem::Account { name, children, collapsed } => a matches RegistrantTreeItem::Account {
            name: n2,
            children: c2,
            collapsed: k2,
        } && n2 == name && c2 == children && k2 == !collapsed,
        RegistrantTreeItem::Domain { info, children, collapsed } => a matches RegistrantTreeItem::Domain {
            info: i2,
            children: c2,
            collapsed: k2,
        } && i2 == info && c2 == children && k2 == !collapsed,
        RegistrantTreeItem::RecordGroup { name, domain_info, children, collapsed, loaded } => a matches RegistrantTreeItem::RecordGroup {
            name: n2,
            domain_info: d2,
            children: c2,
            collapsed: k2,
            loaded: l2,
        } && n2 == name && d2 == domain_info && c2 == children && k2 == !collapsed && l2 == loaded,
        _ => a == b,
    }
}

/// `a` is `b` with the entry at row `idx` of the rows shown for `b` (itself
/// at row 0, then its shown descendants) folded or unfolded.
pub open spec fn reg_toggled_item(b: RegistrantTreeItem, a: RegistrantTreeItem, idx: int) -> bool
    decreases b, 0int,
{
    if idx == 0 {
        reg_flipped(b, a)
    } else {
        match b {
            RegistrantTreeItem::Provider { name, children, collapsed } => a matches RegistrantTreeItem::Provider {
                name: n2,
                children: c2,
                collapsed: k2,
            } && n2 == name && k2 == collapsed && c2@.len() == children@.len() && reg_toggled_from(children@, c2@, 0, idx - 1),
            RegistrantTreeItem::Account { name, children, collapsed } => a matches RegistrantTreeItem::Account {
                name: n2,
                children: c2,
                collapsed: k2,
            } && n2 == name && k2 == collapsed && c2@.len() == children@.len() && reg_toggled_from(children@, c2@, 0, idx - 1),
            RegistrantTreeItem::Domain { info, children, collapsed } => a matches RegistrantTreeItem::Domain {
                info: i2,
                children: c2,
                collapsed: k2,
            } && i2 == info && k2 == collapsed && c2@.len() == children@.len() && reg_toggled_from(children@, c2@, 0, idx - 1),
            RegistrantTreeItem::RecordGroup { name, domain_info, children, collapsed, loaded } => a matches RegistrantTreeItem::RecordGroup {
                name: n2,
                domain_info: d2,
                children: c2,
                collapsed: k2,
                loaded: l2,
            } && n2 == name && d2 == domain_info && k2 == collapsed && l2 == loaded && c2@.len() == children@.len()
                && reg_toggled_from(children@, c2@, 0, idx - 1),
            _ => a == b,
        }
    }
}

/// `after[i..]` is `before[i..]` with the entry at row `idx` of the rows shown
/// for `before[i..]` folded or unfolded; past the last row nothing changes.
pub open spec fn reg_toggled_from(before: Seq<RegistrantTreeItem>, after: Seq<RegistrantTreeItem>, i: int, idx: int) -> bool
    decreases before, before.len() - i,
{
    if i < 0 || i >= before.len() {
        true
    } else {
        let rows = reg_flat_item(before[i]).len() as int;
        if idx < rows {
            &&& reg_toggled_item(before[i], after[i], idx)
            &&& forall|j: int| i < j < before.len() ==> after[j] == before[j]
        } else {
            &&& after[i] == before[i]
            &&& reg_toggled_from(before, after, i + 1, idx - rows)
        }
    }
}

/// `after` is `before` with the entry at row `idx` of the shown entries
/// ([`reg_flat_list`]) folded or unfolded.
pub open spec fn reg_toggled_list(before: Seq<RegistrantTreeItem>, after: Seq<RegistrantTreeItem>, idx: int) -> bool {
    after.len() == before.len() && reg_toggled_from(before, after, 0, idx)
}

/// The rows of `s[i..]` follow those of `s[i]`.
proof fn lemma_flat_step(s: Seq<RegistrantTreeItem>, i: int)
    requires
        0 <= i < s.len(),
    ensures
        reg_flat_list(s, i) == reg_flat_item(s[i]) + reg_flat_list(s, i + 1),
        reg_flat_item(s[i]).len() >= 1,
{
}

/// The rows of `s[i..]` are a tail of the rows of `s[j..]` for `j <= i`.
proof fn lemma_flat_shrinks(s: Seq<RegistrantTreeItem>, j: int, i: int)
    requires
        0 <= j <= i <= s.len(),
    ensures
        reg_flat_list(s, i).len() <= reg_flat_list(s, j).len(),
    decreases i - j,
{
    if j < i {
        lemma_flat_step(s, j);
        lemma_flat_shrinks(s, j + 1, i);
    }
}

/// Where the first `i` entries are unchanged, the toggle over all entries is the
/// toggle over `before[i..]` at the row counted from there.
proof fn lemma_toggled_prefix(b: Seq<RegistrantTreeItem>, a: Seq<RegistrantTreeItem>, i: int, idx: int)
    requires
        0 <= i <= b.len(),
        a.len() == b.len(),
        forall|j: int| 0 <= j < i ==> a[j] == b[j],
        idx >= reg_flat_list(b, 0).len() - reg_flat_list(b, i).len(),
    ensures
        reg_toggled_from(b, a, 0, idx) == reg_toggled_from(
            b,
            a,
            i,
            idx - (reg_flat_list(b, 0).len() - reg_flat_list(b, i).len()),
        ),
    decreases i,
{
    if i > 0 {
        lemma_flat_step(b, i - 1);
        lemma_toggled_prefix(b, a, i - 1, idx);
    }
}

/// Past the last row, toggling changes nothing.
proof fn lemma_toggle_past_end(b: Seq<RegistrantTreeItem>, i: int, idx: int)
    requires
        0 <= i <= b.len(),
        idx >= reg_flat_list(b, i).len(),
    ensures
        reg_toggled_from(b, b, i, idx),
    decreases b.len() - i,
{
    if i < b.len() {
        lemma_flat_step(b, i);
        lemma_toggle_past_end(b, i + 1, idx - reg_flat_item(b[i]).len());
    }
}

/// Whether row `target` is among the rows shown for `items` when they are
/// counted from `current`; where it is not, the count after them.
fn rows_reach(items: &Vec<RegistrantTreeItem>, target: usize, current: usize) -> (r: (bool, usize))
    requires
        current <= target,
    ensures
        r.0 <==> target - current < reg_flat_list(items@, 0).len(),
        !r.0 ==> r.1 == current + reg_flat_list(items@, 0).len() && r.1 <= target,
    decreases items@,
{
    let mut cur = current;
    let mut i: usize = 0;
    while i < items.len()
        invariant
            i <= items@.len(),
            current <= cur <= target,
            cur - current + reg_flat_list(items@, i as int).len() == reg_flat_list(items@, 0).len(),
        decreases items@.len() - i,
    {
        proof {
            lemma_flat_step(items@, i as int);
        }
        if cur == target {
            return (true, cur);
        }
        cur = cur + 1;
        match open_children(&items[i]) {
            Some(c) => {
                proof {
                    assert(decreases_to!(items@ => items@[i as int]));
                }
                let (f, c2) = rows_reach(c, target, cur);
                if f {
                    return (true, c2);
                }
                cur = c2;
            },
            None => {},
        }
        i = i + 1;
    }
    (false, cur)
}

/// The entry folded if it was unfolded and unfolded if it was folded.
fn flip(item: RegistrantTreeItem) -> (r: RegistrantTreeItem)
    ensures
        reg_flipped(item, r),
{
    match item {
        RegistrantTreeItem::Provider { name, children, collapsed } => RegistrantTreeItem::Provider {
            name,
            children,
            collapsed: !collapsed,
        },
        RegistrantTreeItem::Account { name, children, collapsed } => RegistrantTreeItem::Account {
            name,
            children,
            collapsed: !collapsed,
        },
        RegistrantTreeItem::Domain { info, children, collapsed } => RegistrantTreeItem::Domain {
            info,
            children,
            collapsed: !collapsed,
        },
        RegistrantTreeItem::RecordGroup { name, domain_info, children, collapsed, loaded } => RegistrantTreeItem::RecordGroup {
            name,
            domain_info,
            children,
            collapsed: !collapsed,
            loaded,
        },
        other => other,
    }
}

/// Folds or unfolds the entry at row `idx` of the shown entries of `items`.
fn toggle_at(items: &mut Vec<RegistrantTreeItem>, idx: usize)
    requires
        idx < reg_flat_list(old(items)@, 0).len(),
    ensures
        reg_toggled_list(old(items)@, final(items)@, idx as int),
    decreases old(items)@,
{
    let ghost before = items@;
    let mut cur: usize = 0;
    let mut i: usize = 0;
    while i < items.len()
        invariant
            items@ == before,
            before == old(items)@,
            i <= before.len(),
            cur <= idx,
            idx < reg_flat_list(before, 0).len(),
            cur + reg_flat_list(before, i as int).len() == reg_flat_list(before, 0).len(),
        decreases before.len() - i,
    {
        proof {
            lemma_flat_step(before, i as int);
        }
        let mut inside = cur == idx;
        let mut next = cur;
        if !inside {
            next = cur + 1;
            match open_children(&items[i]) {
                Some(c) => {
                    let (f, c2) = rows_reach(c, idx, next);
                    inside = f;
                    if !f {
                        next = c2;
                    }
                },
                None => {},
            }
        }
        if inside {
            let k = idx - cur;
            assert(k < reg_flat_item(before[i as int]).len());
            let ghost old_item = before[i as int];
            proof {
                assert(decreases_to!(before => before[i as int]));
            }
            let item = items.remove(i);
            let new_item = if k == 0 {
                flip(item)
            } else {
                match item {
                    RegistrantTreeItem::Provider { name, children, collapsed } => {
                        proof {
                            assert(decreases_to!(before => children@));
                        }
                        let mut ch = children;
                        toggle_at(&mut ch, k - 1);
                        RegistrantTreeItem::Provider { name, children: ch, collapsed }
                    },
                    RegistrantTreeItem::Account { name, children, collapsed } => {
                        proof {
                            assert(decreases_to!(before => children@));
                        }
                        let mut ch = children;
                        toggle_at(&mut ch, k - 1);
                        RegistrantTreeItem::Account { name, children: ch, collapsed }
                    },
                    RegistrantTreeItem::Domain { info, children, collapsed } => {
                        proof {
                            assert(decreases_to!(before => children@));
                        }
                        let mut ch = children;
                        toggle_at(&mut ch, k - 1);
                        RegistrantTreeItem::Domain { info, children: ch, collapsed }
                    },
                    RegistrantTreeItem::RecordGroup { name, domain_info, children, collapsed, loaded } => {
                        proof {
                            assert(decreases_to!(before => children@));
                        }
                        let mut ch = children;
                        toggle_at(&mut ch, k - 1);
                        RegistrantTreeItem::RecordGroup { name, domain_info, children: ch, collapsed, loaded }
                    },
                    other => other,
                }
            };
            assert(reg_toggled_item(old_item, new_item, k as int));
            items.insert(i, new_item);
            proof {
                assert forall|j: int| 0 <= j < i implies items@[j] == before[j] by {}
                assert forall|j: int| i < j < before.len() implies items@[j] == before[j] by {}
                assert(reg_toggled_from(before, items@, i as int, k as int));
                lemma_toggled_prefix(before, items@, i as int, idx as int);
            }
            return;
        }
        cur = next;
        i = i + 1;
    }
}

/// Folds or unfolds the entry at row `idx` of the registrant tree as shown
/// ([`flatten_registrants`]); a row past the last one changes nothing.
pub fn toggle_registrant_collapse(tree: &mut Vec<RegistrantTreeItem>, idx: usize)
    ensures
        reg_toggled_list(old(tree)@, final(tree)@, idx as int),
{
    let (inside, _) = rows_reach(tree, idx, 0);
    if inside {
        toggle_at(tree, idx);
    } else {
        proof {
            lemma_toggle_past_end(tree@, 0, idx as int);
        }
    }
}


/// `a` and `b` are the same entry: the same fields, and children that are the
/// same entries in turn.
pub open spec fn reg_same_item(a: RegistrantTreeItem, b: RegistrantTreeItem) -> bool
    decreases a, 0int,
{
    match a {
        RegistrantTreeItem::Provider { name, children, collapsed } => b matches RegistrantTreeItem::Provider {
            name: n2,
            children: c2,
            collapsed: k2,
        } && n2 == name && k2 == collapsed && reg_same_list(children@, c2@, 0),
        RegistrantTreeItem::Account { name, children, collapsed } => b matches RegistrantTreeItem::Account {
            name: n2,
            children: c2,
            collapsed: k2,
        } && n2 == name && k2 == collapsed && reg_same_list(children@, c2@, 0),
        RegistrantTreeItem::Domain { info, children, collapsed } => b matches RegistrantTreeItem::Domain {
            info: i2,
            children: c2,
            collapsed: k2,
        } && i2 == info && k2 == collapsed && reg_same_list(children@, c2@, 0),
        RegistrantTreeItem::RecordGroup { name, domain_info, children, collapsed, loaded } => b matches RegistrantTreeItem::RecordGroup {
            name: n2,
            domain_info: d2,
            children: c2,
            collapsed: k2,
            loaded: l2,
        } && n2 == name && d2 == domain_info && k2 == collapsed && l2 == loaded && reg_same_list(children@, c2@, 0),
        RegistrantTreeItem::GlueRecord { record } => b matches RegistrantTreeItem::GlueRecord { record: r2 } && r2.host
            == record.host && r2.ips.v4@ == record.ips.v4@ && r2.ips.v6@ == record.ips.v6@,
        _ => b == a,
    }
}

/// `s[i..]` and `t[i..]` hold the same entries, and `s` and `t` are equally long.
pub open spec fn reg_same_list(s: Seq<RegistrantTreeItem>, t: Seq<RegistrantTreeItem>, i: int) -> bool
    decreases s, s.len() - i,
{
    &&& s.len() == t.len()
    &&& (0 <= i < s.len() ==> reg_same_item(s[i], t[i]) && reg_same_list(s, t, i + 1))
}

proof fn lemma_reg_same_item_refl(a: RegistrantTreeItem)
    ensures
        reg_same_item(a, a),
    decreases a, 0int,
{
    match a {
        RegistrantTreeItem::Provider { children, .. } => lemma_reg_same_list_eq(children@, children@, 0),
        RegistrantTreeItem::Account { children, .. } => lemma_reg_same_list_eq(children@, children@, 0),
        RegistrantTreeItem::Domain { children, .. } => lemma_reg_same_list_eq(children@, children@, 0),
        RegistrantTreeItem::RecordGroup { children, .. } => lemma_reg_same_list_eq(children@, children@, 0),
        _ => {},
    }
}

/// Lists that agree from `i` on hold the same entries from there.
proof fn lemma_reg_same_list_eq(s: Seq<RegistrantTreeItem>, t: Seq<RegistrantTreeItem>, i: int)
    requires
        s.len() == t.len(),
        forall|j: int| 0 <= i <= j < s.len() ==> t[j] == s[j],
    ensures
        reg_same_list(s, t, i),
    decreases s, s.len() - i,
{
    if 0 <= i < s.len() {
        lemma_reg_same_item_refl(s[i]);
        lemma_reg_same_list_eq(s, t, i + 1);
    }
}

/// The row toggled in an entry is still one of its rows afterwards.
proof fn lemma_toggled_row_remains_item(a: RegistrantTreeItem, b: RegistrantTreeItem, idx: int)
    requires
        0 <= idx < reg_flat_item(a).len(),
        reg_toggled_item(a, b, idx),
    ensures
        idx < reg_flat_item(b).len(),
        reg_flipped(reg_flat_item(a)[idx], reg_flat_item(b)[idx]),
    decreases a, 0int,
{
    if idx > 0 {
        match a {
            RegistrantTreeItem::Provider { children, .. } => {
                let c2 = b->Provider_children;
                lemma_toggled_row_remains_from(children@, c2@, 0, idx - 1);
            },
            RegistrantTreeItem::Account { children, .. } => {
                let c2 = b->Account_children;
                lemma_toggled_row_remains_from(children@, c2@, 0, idx - 1);
            },
            RegistrantTreeItem::Domain { children, .. } => {
                let c2 = b->Domain_children;
                lemma_toggled_row_remains_from(children@, c2@, 0, idx - 1);
            },
            RegistrantTreeItem::RecordGroup { children, .. } => {
                let c2 = b->RecordGroup_children;
                lemma_toggled_row_remains_from(children@, c2@, 0, idx - 1);
            },
            _ => {},
        }
    }
}

/// The row toggled in a list is still one of its rows afterwards.
proof fn lemma_toggled_row_remains_from(a: Seq<RegistrantTreeItem>, b: Seq<RegistrantTreeItem>, i: int, idx: int)
    requires
        a.len() == b.len(),
        0 <= i,
        0 <= idx < reg_flat_list(a, i).len(),
        reg_toggled_from(a, b, i, idx),
    ensures
        idx < reg_flat_list(b, i).len(),
        reg_flipped(reg_flat_list(a, i)[idx], reg_flat_list(b, i)[idx]),
    decreases a, a.len() - i,
{
    if i < a.len() {
        lemma_flat_step(a, i);
        lemma_flat_step(b, i);
        let rows = reg_flat_item(a[i]).len() as int;
        if idx < rows {
            lemma_toggled_row_remains_item(a[i], b[i], idx);
        } else {
            lemma_toggled_row_remains_from(a, b, i + 1, idx - rows);
        }
    }
}

/// An entry that folds: a provider, an account, a domain or a record group.
pub open spec fn reg_folds(t: RegistrantTreeItem) -> bool {
    t is Provider || t is Account || t is Domain || t is RecordGroup
}

/// Toggling a row whose entry does not fold leaves an entry as it was.
proof fn lemma_toggle_item_inert(a: RegistrantTreeItem, b: RegistrantTreeItem, idx: int)
    requires
        0 <= idx < reg_flat_item(a).len(),
        reg_toggled_item(a, b, idx),
        !reg_folds(reg_flat_item(a)[idx]),
    ensures
        reg_same_item(a, b),
    decreases a, 0int,
{
    if idx == 0 {
        assert(reg_flat_item(a)[0] == a);
        lemma_reg_same_item_refl(a);
    } else {
        match a {
            RegistrantTreeItem::Provider { children, .. } => {
                lemma_toggle_from_inert(children@, b->Provider_children@, 0, idx - 1);
            },
            RegistrantTreeItem::Account { children, .. } => {
                lemma_toggle_from_inert(children@, b->Account_children@, 0, idx - 1);
            },
            RegistrantTreeItem::Domain { children, .. } => {
                lemma_toggle_from_inert(children@, b->Domain_children@, 0, idx - 1);
            },
            RegistrantTreeItem::RecordGroup { children, .. } => {
                lemma_toggle_from_inert(children@, b->RecordGroup_children@, 0, idx - 1);
            },
            _ => {
                lemma_reg_same_item_refl(a);
            },
        }
    }
}

/// Toggling a row whose entry does not fold leaves a list as it was.
proof fn lemma_toggle_from_inert(a: Seq<RegistrantTreeItem>, b: Seq<RegistrantTreeItem>, i: int, idx: int)
    requires
        a.len() == b.len(),
        0 <= i,
        0 <= idx < reg_flat_list(a, i).len(),
        reg_toggled_from(a, b, i, idx),
        !reg_folds(reg_flat_list(a, i)[idx]),
    ensures
        reg_same_list(a, b, i),
    decreases a, a.len() - i,
{
    if i < a.len() {
        lemma_flat_step(a, i);
        let rows = reg_flat_item(a[i]).len() as int;
        if idx < rows {
            lemma_toggle_item_inert(a[i], b[i], idx);
            lemma_reg_same_list_eq(a, b, i + 1);
        } else {
            lemma_reg_same_item_refl(a[i]);
            lemma_toggle_from_inert(a, b, i + 1, idx - rows);
        }
    }
}

/// Toggling past the last row leaves every entry of a list as it was.
proof fn lemma_toggle_from_past_end(a: Seq<RegistrantTreeItem>, b: Seq<RegistrantTreeItem>, i: int, idx: int)
    requires
        a.len() == b.len(),
        0 <= i,
        idx >= reg_flat_list(a, i).len(),
        reg_toggled_from(a, b, i, idx),
    ensures
        forall|j: int| i <= j < a.len() ==> b[j] == a[j],
    decreases a.len() - i,
{
    if i < a.len() {
        lemma_flat_step(a, i);
        lemma_toggle_from_past_end(a, b, i + 1, idx - reg_flat_item(a[i]).len());
    }
}

/// Toggling the same row of an entry twice gives back the same entry.
proof fn lemma_toggle_item_twice(a: RegistrantTreeItem, b: RegistrantTreeItem, c: RegistrantTreeItem, idx: int)
    requires
        0 <= idx < reg_flat_item(a).len(),
        reg_toggled_item(a, b, idx),
        reg_toggled_item(b, c, idx),
    ensures
        reg_same_item(a, c),
    decreases a, 0int,
{
    if idx == 0 {
        lemma_reg_same_item_refl(a);
        assert(c == a);
    } else {
        match a {
            RegistrantTreeItem::Provider { children, .. } => {
                let cb = b->Provider_children;
                let cc = c->Provider_children;
                lemma_toggle_from_twice(children@, cb@, cc@, 0, idx - 1);
            },
            RegistrantTreeItem::Account { children, .. } => {
                let cb = b->Account_children;
                let cc = c->Account_children;
                lemma_toggle_from_twice(children@, cb@, cc@, 0, idx - 1);
            },
            RegistrantTreeItem::Domain { children, .. } => {
                let cb = b->Domain_children;
                let cc = c->Domain_children;
                lemma_toggle_from_twice(children@, cb@, cc@, 0, idx - 1);
            },
            RegistrantTreeItem::RecordGroup { children, .. } => {
                let cb = b->RecordGroup_children;
                let cc = c->RecordGroup_children;
                lemma_toggle_from_twice(children@, cb@, cc@, 0, idx - 1);
            },
            _ => {
                lemma_reg_same_item_refl(a);
            },
        }
    }
}

/// Toggling the same row of a list twice gives back the same entries.
proof fn lemma_toggle_from_twice(a: Seq<RegistrantTreeItem>, b: Seq<RegistrantTreeItem>, c: Seq<RegistrantTreeItem>, i: int, idx: int)
    requires
        a.len() == b.len(),
        b.len() == c.len(),
        0 <= i,
        0 <= idx,
        reg_toggled_from(a, b, i, idx),
        reg_toggled_from(b, c, i, idx),
    ensures
        reg_same_list(a, c, i),
    decreases a, a.len() - i,
{
    if i < a.len() {
        let rows = reg_flat_item(a[i]).len() as int;
        if idx < rows {
            lemma_toggled_row_remains_item(a[i], b[i], idx);
            lemma_toggle_item_twice(a[i], b[i], c[i], idx);
            lemma_reg_same_list_eq(a, c, i + 1);
        } else {
            lemma_reg_same_item_refl(a[i]);
            lemma_toggle_from_twice(a, b, c, i + 1, idx - rows);
        }
    }
}

/// Folding or unfolding the entry at the same row of the registrant tree twice
/// gives back the tree it started from.
pub proof fn lemma_registrant_toggle_twice(a: Seq<RegistrantTreeItem>, b: Seq<RegistrantTreeItem>, c: Seq<RegistrantTreeItem>, idx: int)
    requires
        0 <= idx,
        reg_toggled_list(a, b, idx),
        reg_toggled_list(b, c, idx),
    ensures
        reg_same_list(a, c, 0),
{
    lemma_toggle_from_twice(a, b, c, 0, idx);
}


/// What folding row `idx` of the shown registrant tree does. Past the last
/// shown row, or on a row whose entry does not fold (a record or a message),
/// every entry stays as it was. Otherwise the entry shown at that row is the
/// one whose fold flag is negated, all its other fields kept, and it is shown
/// at the same row afterwards; every other entry of the tree is unchanged
/// ([`reg_toggled_list`]).
pub proof fn lemma_registrant_toggle_row(before: Seq<RegistrantTreeItem>, after: Seq<RegistrantTreeItem>, idx: int)
    requires
        0 <= idx,
        reg_toggled_list(before, after, idx),
    ensures
        idx >= reg_flat_list(before, 0).len() ==> reg_same_list(before, after, 0),
        idx < reg_flat_list(before, 0).len() && !reg_folds(reg_flat_list(before, 0)[idx]) ==> reg_same_list(
            before,
            after,
            0,
        ),
        idx < reg_flat_list(before, 0).len() ==> idx < reg_flat_list(after, 0).len() && reg_flipped(
            reg_flat_list(before, 0)[idx],
            reg_flat_list(after, 0)[idx],
        ),
{
    if idx >= reg_flat_list(before, 0).len() {
        lemma_toggle_from_past_end(before, after, 0, idx);
        lemma_reg_same_list_eq(before, after, 0);
    } else {
        lemma_toggled_row_remains_from(before, after, 0, idx);
        if !reg_folds(reg_flat_list(before, 0)[idx]) {
            lemma_toggle_from_inert(before, after, 0, idx);
        }
    }
}

/// A copy of a DNS record.
fn copy_dns_record(r: &PorkbunDnsRecord) -> (c: PorkbunDnsRecord)
    ensures
        c == *r,
{
    PorkbunDnsRecord {
        id: r.id.clone(),
        name: r.name.clone(),
        record_type: r.record_type.clone(),
        content: r.content.clone(),
        ttl: r.ttl.clone(),
        prio: clone_opt(&r.prio),
        notes: clone_opt(&r.notes),
    }
}

/// Copies of the entries of `v`, children included.
pub fn copy_registrant_items(v: &Vec<RegistrantTreeItem>) -> (r: Vec<RegistrantTreeItem>)
    ensures
        reg_same_list(v@, r@, 0),
    decreases v@,
{
    let mut out: Vec<RegistrantTreeItem> = Vec::new();
    let mut i: usize = 0;
    while i < v.len()
        invariant
            i <= v@.len(),
            out@.len() == i,
            forall|j: int| 0 <= j < i ==> reg_same_item(#[trigger] v@[j], out@[j]),
        decreases v@.len() - i,
    {
        proof {
            assert(decreases_to!(v@ => v@[i as int]));
        }
        let c = match &v[i] {
            RegistrantTreeItem::Provider { name, children, collapsed } => RegistrantTreeItem::Provider {
                name: name.clone(),
                children: copy_registrant_items(children),
                collapsed: *collapsed,
            },
            RegistrantTreeItem::Account { name, children, collapsed } => RegistrantTreeItem::Account {
                name: name.clone(),
                children: copy_registrant_items(children),
                collapsed: *collapsed,
            },
            RegistrantTreeItem::Domain { info, children, collapsed } => RegistrantTreeItem::Domain {
                info: copy_domain(info),
                children: copy_registrant_items(children),
                collapsed: *collapsed,
            },
            RegistrantTreeItem::RecordGroup { name, domain_info, children, collapsed, loaded } => RegistrantTreeItem::RecordGroup {
                name: name.clone(),
                domain_info: copy_domain(domain_info),
                children: copy_registrant_items(children),
                collapsed: *collapsed,
                loaded: *loaded,
            },
            RegistrantTreeItem::DnsRecord { record } => RegistrantTreeItem::DnsRecord { record: copy_dns_record(record) },
            RegistrantTreeItem::GlueRecord { record } => RegistrantTreeItem::GlueRecord {
                record: PorkbunGlueRecord {
                    host: record.host.clone(),
                    ips: PorkbunGlueIps { v4: clone_strings(&record.ips.v4), v6: clone_strings(&record.ips.v6) },
                },
            },
            RegistrantTreeItem::Message { text } => RegistrantTreeItem::Message { text: text.clone() },
        };
        out.push(c);
        i = i + 1;
    }
    proof {
        lemma_reg_same_pointwise(v@, out@, 0);
    }
    out
}

/// Lists whose entries are pairwise the same from `i` on hold the same entries from there.
proof fn lemma_reg_same_pointwise(s: Seq<RegistrantTreeItem>, t: Seq<RegistrantTreeItem>, i: int)
    requires
        s.len() == t.len(),
        0 <= i,
        forall|j: int| i <= j < s.len() ==> reg_same_item(#[trigger] s[j], t[j]),
    ensures
        reg_same_list(s, t, i),
    decreases s.len() - i,
{
    if i < s.len() {
        lemma_reg_same_pointwise(s, t, i + 1);
    }
}

/// The record group `name` holds the records of kind `rec_type` (`DNS` or `Glue`).
pub open spec fn holds_records(name: Seq<char>, rec_type: Seq<char>) -> bool {
    (rec_type == "DNS"@ && name == "DNS Records"@) || (rec_type == "Glue"@ && name == "Glue Records"@)
}

/// `a` is the child `b` of a domain with its records of kind `rec_type`
/// replaced by `items` and marked loaded, where it is the group that holds them.
pub open spec fn group_loaded(b: RegistrantTreeItem, a: RegistrantTreeItem, rec_type: Seq<char>, items: Seq<RegistrantTreeItem>) -> bool {
    match b {
        RegistrantTreeItem::RecordGroup { name, domain_info, children, collapsed, loaded } => if holds_records(name@, rec_type) {
            a matches RegistrantTreeItem::RecordGroup { name: n2, domain_info: d2, children: c2, collapsed: k2, loaded: l2 }
                && n2 == name && d2 == domain_info && k2 == collapsed && l2 && reg_same_list(items, c2@, 0)
        } else {
            a == b
        },
        _ => a == b,
    }
}

/// `a` is `b` with the records of kind `rec_type` of domain `domain` replaced
/// by `items`: providers and accounts are searched, a domain of that name has
/// its record group loaded, other entries stay as they are.
pub open spec fn records_updated_item(
    b: RegistrantTreeItem,
    a: RegistrantTreeItem,
    domain: Seq<char>,
    rec_type: Seq<char>,
    items: Seq<RegistrantTreeItem>,
) -> bool
    decreases b, 0int,
{
    match b {
        RegistrantTreeItem::Provider { name, children, collapsed } => a matches RegistrantTreeItem::Provider {
            name: n2,
            children: c2,
            collapsed: k2,
        } && n2 == name && k2 == collapsed && c2@.len() == children@.len() && records_updated_from(
            children@,
            c2@,
            0,
            domain,
            rec_type,
            items,
        ),
        RegistrantTreeItem::Account { name, children, collapsed } => a matches RegistrantTreeItem::Account {
            name: n2,
            children: c2,
            collapsed: k2,
        } && n2 == name && k2 == collapsed && c2@.len() == children@.len() && records_updated_from(
            children@,
            c2@,
            0,
            domain,
            rec_type,
            items,
        ),
        RegistrantTreeItem::Domain { info, children, collapsed } => if info.domain@ == domain {
            a matches RegistrantTreeItem::Domain { info: i2, children: c2, collapsed: k2 } && i2 == info && k2 == collapsed
                && c2@.len() == children@.len() && forall|j: int|
                0 <= j < children@.len() ==> group_loaded(#[trigger] children@[j], c2@[j], rec_type, items)
        } else {
            a == b
        },
        _ => a == b,
    }
}

/// The entries of `b[i..]` updated (see [`records_updated_item`]) make up `a[i..]`.
pub open spec fn records_updated_from(
    b: Seq<RegistrantTreeItem>,
    a: Seq<RegistrantTreeItem>,
    i: int,
    domain: Seq<char>,
    rec_type: Seq<char>,
    items: Seq<RegistrantTreeItem>,
) -> bool
    decreases b, b.len() - i,
{
    0 <= i < b.len() ==> records_updated_item(b[i], a[i], domain, rec_type, items) && records_updated_from(
        b,
        a,
        i + 1,
        domain,
        rec_type,
        items,
    )
}

proof fn lemma_updated_pointwise(
    b: Seq<RegistrantTreeItem>,
    a: Seq<RegistrantTreeItem>,
    i: int,
    domain: Seq<char>,
    rec_type: Seq<char>,
    items: Seq<RegistrantTreeItem>,
)
    requires
        0 <= i,
        a.len() == b.len(),
        forall|j: int| i <= j < b.len() ==> records_updated_item(#[trigger] b[j], a[j], domain, rec_type, items),
    ensures
        records_updated_from(b, a, i, domain, rec_type, items),
    decreases b.len() - i,
{
    if i < b.len() {
        lemma_updated_pointwise(b, a, i + 1, domain, rec_type, items);
    }
}

/// Loads the record group of kind `rec_type` among the children of a domain.
fn load_groups(children: &mut Vec<RegistrantTreeItem>, rec_type: &str, new_items: &Vec<RegistrantTreeItem>)
    ensures
        final(children)@.len() == old(children)@.len(),
        forall|j: int| 0 <= j < old(children)@.len() ==> group_loaded(#[trigger] old(children)@[j], final(children)@[j], rec_type@, new_items@),
{
    let ghost before = children@;
    let mut i: usize = 0;
    while i < children.len()
        invariant
            i <= children@.len(),
            children@.len() == before.len(),
            forall|j: int| 0 <= j < i ==> group_loaded(#[trigger] before[j], children@[j], rec_type@, new_items@),
            forall|j: int| i <= j < before.len() ==> children@[j] == before[j],
        decreases children@.len() - i,
    {
        let item = children.remove(i);
        let new_item = match item {
            RegistrantTreeItem::RecordGroup { name, domain_info, children: c, collapsed, loaded } => {
                if (str_eq(rec_type, "DNS") && str_eq(name.as_str(), "DNS Records")) || (str_eq(rec_type, "Glue") && str_eq(
                    name.as_str(),
                    "Glue Records",
                )) {
                    RegistrantTreeItem::RecordGroup {
                        name,
                        domain_info,
                        children: copy_registrant_items(new_items),
                        collapsed,
                        loaded: true,
                    }
                } else {
                    RegistrantTreeItem::RecordGroup { name, domain_info, children: c, collapsed, loaded }
                }
            },
            other => other,
        };
        children.insert(i, new_item);
        i = i + 1;
    }
}

/// Replaces the records of kind `rec_type` (`DNS` or `Glue`) of domain
/// `domain` in the registrant tree by `new_items`, marking them loaded (see
/// [`records_updated_item`]).
pub fn update_domain_records(tree: &mut Vec<RegistrantTreeItem>, domain: &str, rec_type: &str, new_items: &Vec<RegistrantTreeItem>)
    ensures
        final(tree)@.len() == old(tree)@.len(),
        records_updated_from(old(tree)@, final(tree)@, 0, domain@, rec_type@, new_items@),
    decreases old(tree)@,
{
    let ghost before = tree@;
    let mut i: usize = 0;
    while i < tree.len()
        invariant
            before == old(tree)@,
            i <= tree@.len(),
            tree@.len() == before.len(),
            forall|j: int| 0 <= j < i ==> records_updated_item(#[trigger] before[j], tree@[j], domain@, rec_type@, new_items@),
            forall|j: int| i <= j < before.len() ==> tree@[j] == before[j],
        decreases tree@.len() - i,
    {
        proof {
            assert(decreases_to!(before => before[i as int]));
        }
        let item = tree.remove(i);
        let new_item = match item {
            RegistrantTreeItem::Provider { name, children, collapsed } => {
                proof {
                    assert(decreases_to!(before => children@));
                }
                let mut ch = children;
                update_domain_records(&mut ch, domain, rec_type, new_items);
                RegistrantTreeItem::Provider { name, children: ch, collapsed }
            },
            RegistrantTreeItem::Account { name, children, collapsed } => {
                proof {
                    assert(decreases_to!(before => children@));
                }
                let mut ch = children;
                update_domain_records(&mut ch, domain, rec_type, new_items);
                RegistrantTreeItem::Account { name, children: ch, collapsed }
            },
            RegistrantTreeItem::Domain { info, children, collapsed } => {
                if str_eq(info.domain.as_str(), domain) {
                    let mut ch = children;
                    load_groups(&mut ch, rec_type, new_items);
                    RegistrantTreeItem::Domain { info, children: ch, collapsed }
                } else {
                    RegistrantTreeItem::Domain { info, children, collapsed }
                }
            },
            other => other,
        };
        tree.insert(i, new_item);
        i = i + 1;
    }
    proof {
        lemma_updated_pointwise(before, tree@, 0, domain@, rec_type@, new_items@);
    }
}

} // verus!
