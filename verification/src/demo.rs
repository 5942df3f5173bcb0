//! The made-up fleet and registrar accounts that the dashboard shows in demo
//! mode: six regions of 24 nodes each, with a spread of states and logs, and
//! ten domains under one Porkbun account.
use vstd::prelude::*;
use vstd::string::*;

use crate::events::state_view;
use crate::model::RegistrantTreeItem;
use crate::registrants::{DomainInfo, PorkbunDnsRecord};
use crate::nix::{views, NodeName, NodeState};
use crate::text::{concat2, concat3, decimal, decimal_seq, owned};
use crate::tree::{item_leaves, list_leaves, names, TreeItem};

verus! {

/// `n` in decimal, with a leading zero below ten (`{:02}`).
pub open spec fn two_digits_seq(n: nat) -> Seq<char> {
    if n < 10 {
        "0"@ + decimal_seq(n)
    } else {
        decimal_seq(n)
    }
}

/// `n` in decimal, with a leading zero below ten (`{:02}`).
pub fn two_digits(n: u64) -> (r: String)
    ensures
        r@ == two_digits_seq(n as nat),
{
    if n < 10 {
        let d = decimal(n);
        concat2("0", d.as_str())
    } else {
        decimal(n)
    }
}

/// The number of demo regions.
pub const DEMO_REGIONS: usize = 6;

/// The number of roles within a region.
pub const DEMO_ROLES: usize = 7;

/// The number of nodes within a region.
pub const DEMO_REGION_SIZE: usize = 24;

/// The name of region `r`.
pub open spec fn region_seq(r: nat) -> Seq<char> {
    if r == 0 {
        "us-east1"@
    } else if r == 1 {
        "us-west2"@
    } else if r == 2 {
        "eu-west1"@
    } else if r == 3 {
        "eu-central1"@
    } else if r == 4 {
        "asia-northeast1"@
    } else {
        "sa-east1"@
    }
}

/// The name of role `k` within a region.
pub open spec fn role_seq(k: nat) -> Seq<char> {
    if k == 0 {
        "lb"@
    } else if k == 1 {
        "app"@
    } else if k == 2 {
        "worker"@
    } else if k == 3 {
        "cache"@
    } else if k == 4 {
        "db"@
    } else if k == 5 {
        "queue"@
    } else {
        "monitoring"@
    }
}

/// How many nodes role `k` has in each region.
pub open spec fn role_count(k: nat) -> nat {
    if k == 0 {
        2
    } else if k == 1 {
        8
    } else if k == 2 {
        5
    } else if k == 3 {
        3
    } else if k == 4 {
        3
    } else if k == 5 {
        2
    } else {
        1
    }
}

/// Where role `k` starts within a region; after the last, the region's size.
pub open spec fn role_offset(k: nat) -> nat {
    if k == 0 {
        0
    } else if k == 1 {
        2
    } else if k == 2 {
        10
    } else if k == 3 {
        15
    } else if k == 4 {
        18
    } else if k == 5 {
        21
    } else if k == 6 {
        23
    } else {
        24
    }
}

/// The role of the node at place `o` within a region.
pub open spec fn role_at(o: nat) -> nat {
    if o < 2 {
        0
    } else if o < 10 {
        1
    } else if o < 15 {
        2
    } else if o < 18 {
        3
    } else if o < 21 {
        4
    } else if o < 23 {
        5
    } else {
        6
    }
}

/// `region-role-NN` (`{region}-{role}-{i:02}`).
pub open spec fn node_name_seq(region: Seq<char>, role: Seq<char>, i: nat) -> Seq<char> {
    region + "-"@ + role + "-"@ + two_digits_seq(i)
}

/// The name of the `k`-th demo node (counted from zero).
pub open spec fn demo_node_seq(k: nat) -> Seq<char> {
    let o = k % 24;
    node_name_seq(region_seq(k / 24), role_seq(role_at(o)), (o - role_offset(role_at(o)) + 1) as nat)
}

/// The state, as its view, of the demo node numbered `id` (counted from one).
pub open spec fn demo_status_view(id: nat) -> (int, Seq<char>) {
    let d = id % 10;
    if d == 0 {
        (4, "SSH Timeout"@)
    } else if d == 1 {
        (2, "Copying closure (82%)..."@)
    } else if d == 2 {
        (2, "Building (eval)..."@)
    } else if d == 3 {
        (2, "Waiting for lock..."@)
    } else if d == 4 {
        (2, "Activating..."@)
    } else {
        (3, "Deployed"@)
    }
}

/// The regular log line of minute-offset `j`.
pub open spec fn check_line(role: Seq<char>, j: nat) -> Seq<char> {
    "Nov 10 10:"@ + two_digits_seq(10 + j) + ":"@ + two_digits_seq(j) + " systemd[1]: Service "@ + role
        + " status check OK."@
}

/// The warning line of minute-offset `j`, for the node numbered `id`.
pub open spec fn warn_line(role: Seq<char>, j: nat, id: nat) -> Seq<char> {
    "Nov 10 10:"@ + two_digits_seq(10 + j) + ":"@ + two_digits_seq(j + 1) + " "@ + role + "["@ + decimal_seq(
        1000 + id,
    ) + "]: WARN: Connection pool saturation at 85%."@
}

/// The first `n` minutes of log of the node numbered `id`: a check line each
/// minute, followed by a warning where `id` is a multiple of seven.
pub open spec fn demo_log_seq(role: Seq<char>, id: nat, n: nat) -> Seq<Seq<char>>
    decreases n,
{
    if n == 0 {
        Seq::empty()
    } else {
        let j = (n - 1) as nat;
        let s = demo_log_seq(role, id, j).push(check_line(role, j));
        if id % 7 == 0 {
            s.push(warn_line(role, j, id))
        } else {
            s
        }
    }
}

/// The state of the demo node numbered `id` (counted from one).
pub fn demo_status(id: u64) -> (s: NodeState)
    ensures
        state_view(s) == demo_status_view(id as nat),
{
    let d = id % 10;
    if d == 0 {
        NodeState::Failed(owned("SSH Timeout"))
    } else if d == 1 {
        NodeState::Running(owned("Copying closure (82%)..."))
    } else if d == 2 {
        NodeState::Running(owned("Building (eval)..."))
    } else if d == 3 {
        NodeState::Running(owned("Waiting for lock..."))
    } else if d == 4 {
        NodeState::Running(owned("Activating..."))
    } else {
        NodeState::Success(owned("Deployed"))
    }
}

/// `{region}-{role}-{i:02}`.
pub fn demo_node_name(region: &str, role: &str, i: u64) -> (r: String)
    ensures
        r@ == node_name_seq(region@, role@, i as nat),
{
    let mut r = concat2(region, "-");
    r.append(role);
    r.append("-");
    let d = two_digits(i);
    r.append(d.as_str());
    r
}

/// Twenty minutes of log for the node numbered `id` in role `role`.
pub fn demo_log_lines(role: &str, id: u64) -> (r: Vec<String>)
    requires
        id <= u64::MAX - 1000,
    ensures
        views(r@) == demo_log_seq(role@, id as nat, 20),
{
    let mut r: Vec<String> = Vec::new();
    let mut j: u64 = 0;
    while j < 20
        invariant
            j <= 20,
            id <= u64::MAX - 1000,
            views(r@) == demo_log_seq(role@, id as nat, j as nat),
        decreases 20 - j,
    {
        let mut line = owned("Nov 10 10:");
        let a = two_digits(10 + j);
        line.append(a.as_str());
        line.append(":");
        let b = two_digits(j);
        line.append(b.as_str());
        line.append(" systemd[1]: Service ");
        line.append(role);
        line.append(" status check OK.");
        r.push(line);
        if id % 7 == 0 {
            let mut w = owned("Nov 10 10:");
            w.append(a.as_str());
            w.append(":");
            let c = two_digits(j + 1);
            w.append(c.as_str());
            w.append(" ");
            w.append(role);
            w.append("[");
            let e = decimal(1000 + id);
            w.append(e.as_str());
            w.append("]: WARN: Connection pool saturation at 85%.");
            r.push(w);
        }
        assert(views(r@) =~= demo_log_seq(role@, id as nat, (j + 1) as nat));
        j = j + 1;
    }
    r
}

/// The name of region `r`.
fn region_name(r: usize) -> (s: &'static str)
    ensures
        s@ == region_seq(r as nat),
{
    if r == 0 {
        "us-east1"
    } else if r == 1 {
        "us-west2"
    } else if r == 2 {
        "eu-west1"
    } else if r == 3 {
        "eu-central1"
    } else if r == 4 {
        "asia-northeast1"
    } else {
        "sa-east1"
    }
}

/// The name of role `k`.
fn role_name(k: usize) -> (s: &'static str)
    ensures
        s@ == role_seq(k as nat),
{
    if k == 0 {
        "lb"
    } else if k == 1 {
        "app"
    } else if k == 2 {
        "worker"
    } else if k == 3 {
        "cache"
    } else if k == 4 {
        "db"
    } else if k == 5 {
        "queue"
    } else {
        "monitoring"
    }
}

/// How many nodes role `k` has in each region.
fn role_size(k: usize) -> (n: u64)
    ensures
        n == role_count(k as nat),
{
    if k == 0 {
        2
    } else if k == 1 {
        8
    } else if k == 2 {
        5
    } else if k == 3 {
        3
    } else if k == 4 {
        3
    } else if k == 5 {
        2
    } else {
        1
    }
}

/// The demo fleet: its nodes, their hierarchy, states and logs.
pub struct DemoFleet {
    pub nodes: Vec<NodeName>,
    pub tree: Vec<TreeItem>,
    pub states: Vec<(NodeName, NodeState)>,
    pub logs: Vec<(NodeName, Vec<String>)>,
}

/// Row `k` of the fleet is the `k`-th demo node, with its state and its logs.
pub open spec fn fleet_rows_ok(
    nodes: Seq<NodeName>,
    states: Seq<(NodeName, NodeState)>,
    logs: Seq<(NodeName, Vec<String>)>,
) -> bool {
    &&& states.len() == nodes.len()
    &&& logs.len() == nodes.len()
    &&& forall|k: int|
        0 <= k < nodes.len() ==> {
            &&& (#[trigger] nodes[k])@ == demo_node_seq(k as nat)
            &&& states[k].0@ == nodes[k]@
            &&& state_view(states[k].1) == demo_status_view((k + 1) as nat)
            &&& logs[k].0@ == nodes[k]@
            &&& views(logs[k].1@) == demo_log_seq(role_seq(role_at((k % 24) as nat)), (k + 1) as nat, 20)
        }
}

/// The expanded group of role `k`, named `role (count)`.
pub open spec fn role_group_ok(t: TreeItem, k: nat) -> bool {
    &&& t matches TreeItem::Group { name, collapsed, .. }
    &&& name@ == role_seq(k) + " ("@ + decimal_seq(role_count(k)) + ")"@
    &&& !collapsed
}

/// The expanded group of region `r`, named `region (24)`, holding its seven role groups.
pub open spec fn region_group_ok(t: TreeItem, r: nat) -> bool {
    &&& t matches TreeItem::Group { name, collapsed, children }
    &&& name@ == region_seq(r) + " (24)"@
    &&& !collapsed
    &&& children.len() == 7
    &&& forall|k: int| 0 <= k < 7 ==> role_group_ok(#[trigger] children@[k], k as nat)
}

proof fn lemma_leaves_push(s: Seq<TreeItem>, x: TreeItem, i: int)
    requires
        0 <= i <= s.len(),
    ensures
        list_leaves(s.push(x), i) == list_leaves(s, i) + item_leaves(x),
    decreases s.len() - i,
{
    if i < s.len() {
        lemma_leaves_push(s, x, i + 1);
        assert(s.push(x)[i] == s[i]);
        assert(list_leaves(s.push(x), i) =~= item_leaves(s[i]) + (list_leaves(s, i + 1) + item_leaves(x)));
    } else {
        assert(list_leaves(s.push(x), i + 1) =~= Seq::<Seq<char>>::empty());
        assert(list_leaves(s.push(x), i) =~= item_leaves(x));
    }
}

proof fn lemma_slot(r: nat, k: nat, i: nat)
    requires
        r < 6,
        k < 7,
        1 <= i <= role_count(k),
    ensures
        ({
            let idx = 24 * r + role_offset(k) + i - 1;
            &&& (idx as nat) % 24 == role_offset(k) + i - 1
            &&& role_at((idx as nat) % 24) == k
            &&& demo_node_seq(idx as nat) == node_name_seq(region_seq(r), role_seq(k), i)
        }),
{
    let o = (role_offset(k) + i - 1) as nat;
    let idx = (24 * r + o) as nat;
    assert(o < 24);
    vstd::arithmetic::div_mod::lemma_fundamental_div_mod_converse(idx as int, 24, r as int, o as int);
    assert(role_at(o) == k);
}

/// The demo fleet: six regions, each with 2 load balancers, 8 app servers,
/// 5 workers, 3 caches, 3 databases, 2 queues and a monitoring node, in that
/// order; every group expanded.
pub fn demo_fleet() -> (f: DemoFleet)
    ensures
        f.nodes.len() == 144,
        fleet_rows_ok(f.nodes@, f.states@, f.logs@),
        names(f.nodes@) == list_leaves(f.tree@, 0),
        f.tree.len() == 6,
        forall|r: int| 0 <= r < 6 ==> region_group_ok(#[trigger] f.tree@[r], r as nat),
{
    let mut nodes: Vec<NodeName> = Vec::new();
    let mut states: Vec<(NodeName, NodeState)> = Vec::new();
    let mut logs: Vec<(NodeName, Vec<String>)> = Vec::new();
    let mut tree: Vec<TreeItem> = Vec::new();
    let mut r: usize = 0;
    while r < DEMO_REGIONS
        invariant
            r <= 6,
            nodes.len() == 24 * r,
            fleet_rows_ok(nodes@, states@, logs@),
            names(nodes@) == list_leaves(tree@, 0),
            tree.len() == r,
            forall|q: int| 0 <= q < r ==> region_group_ok(#[trigger] tree@[q], q as nat),
        decreases 6 - r,
    {
        let region = region_name(r);
        let mut region_children: Vec<TreeItem> = Vec::new();
        let mut k: usize = 0;
        while k < DEMO_ROLES
            invariant
                r < 6,
                k <= 7,
                nodes.len() == 24 * r + role_offset(k as nat),
                region@ == region_seq(r as nat),
                fleet_rows_ok(nodes@, states@, logs@),
                names(nodes@) == list_leaves(tree@, 0) + list_leaves(region_children@, 0),
                tree.len() == r,
                forall|q: int| 0 <= q < r ==> region_group_ok(#[trigger] tree@[q], q as nat),
                region_children.len() == k,
                forall|q: int| 0 <= q < k ==> role_group_ok(#[trigger] region_children@[q], q as nat),
            decreases 7 - k,
        {
            let role = role_name(k);
            let count = role_size(k);
            let mut role_children: Vec<TreeItem> = Vec::new();
            let mut i: u64 = 1;
            while i <= count
                invariant
                    r < 6,
                    k < 7,
                    1 <= i <= count + 1,
                    count == role_count(k as nat),
                    nodes.len() == 24 * r + role_offset(k as nat) + i - 1,
                    region@ == region_seq(r as nat),
                    role@ == role_seq(k as nat),
                    fleet_rows_ok(nodes@, states@, logs@),
                    names(nodes@) == list_leaves(tree@, 0) + list_leaves(region_children@, 0) + list_leaves(
                        role_children@,
                        0,
                    ),
                decreases count + 1 - i,
            {
                proof {
                    lemma_slot(r as nat, k as nat, i as nat);
                }
                let id: u64 = nodes.len() as u64 + 1;
                let name = NodeName { name: demo_node_name(region, role, i) };
                let ghost before = nodes@;
                let ghost rc = role_children@;
                nodes.push(name.clone());
                states.push((name.clone(), demo_status(id)));
                logs.push((name.clone(), demo_log_lines(role, id)));
                role_children.push(TreeItem::Node { name });
                proof {
                    lemma_leaves_push(rc, role_children@.last(), 0);
                    assert(names(nodes@) =~= names(before).push(nodes@.last()@));
                    assert(item_leaves(role_children@.last()) =~= seq![nodes@.last()@]);
                }
                i = i + 1;
            }
            let mut gname = concat2(role, " (");
            let c = decimal(count);
            gname.append(c.as_str());
            gname.append(")");
            let ghost rc = region_children@;
            let ghost leaves = list_leaves(role_children@, 0);
            region_children.push(TreeItem::Group { name: gname, children: role_children, collapsed: false });
            proof {
                lemma_leaves_push(rc, region_children@.last(), 0);
                assert(forall|q: int| 0 <= q < k ==> region_children@[q] == rc[q]);
            }
            k = k + 1;
        }
        let gname = concat2(region, " (24)");
        let ghost tr = tree@;
        tree.push(TreeItem::Group { name: gname, children: region_children, collapsed: false });
        proof {
            lemma_leaves_push(tr, tree@.last(), 0);
            assert(forall|q: int| 0 <= q < r ==> tree@[q] == tr[q]);
        }
        r = r + 1;
    }
    DemoFleet { nodes, tree, states, logs }
}

/// The second-level name of demo domain `c`.
pub open spec fn company_seq(c: nat) -> Seq<char> {
    if c == 0 {
        "google"@
    } else if c == 1 {
        "alphabet"@
    } else if c == 2 {
        "youtube"@
    } else if c == 3 {
        "android"@
    } else if c == 4 {
        "waymo"@
    } else if c == 5 {
        "deepmind"@
    } else if c == 6 {
        "calico"@
    } else if c == 7 {
        "wing"@
    } else if c == 8 {
        "verily"@
    } else {
        "loon"@
    }
}

/// The top-level domain of demo domain `c`.
pub open spec fn tld_seq(c: nat) -> Seq<char> {
    if c == 1 {
        "xyz"@
    } else {
        "com"@
    }
}

/// Demo domain `c`, such as `google.com`.
pub open spec fn demo_domain_seq(c: nat) -> Seq<char> {
    company_seq(c) + "."@ + tld_seq(c)
}

/// `d` describes demo domain `c`: renewed automatically, expiring at the start
/// of 2030, held at Porkbun under the account `Main`.
pub open spec fn demo_info_ok(d: DomainInfo, c: nat) -> bool {
    &&& d.domain@ == demo_domain_seq(c)
    &&& d.auto_renew
    &&& d.expiry_date matches Some(e) && e@ == "2030-01-01"@
    &&& d.provider@ == "Porkbun"@
    &&& d.account@ == "Main"@
}

/// `t` is a DNS record with these fields, a TTL of 600 and no priority or notes.
pub open spec fn demo_record_ok(
    t: RegistrantTreeItem,
    id: Seq<char>,
    name: Seq<char>,
    record_type: Seq<char>,
    content: Seq<char>,
) -> bool {
    &&& t matches RegistrantTreeItem::DnsRecord { record }
    &&& record.id@ == id
    &&& record.name@ == name
    &&& record.record_type@ == record_type
    &&& record.content@ == content
    &&& record.ttl@ == "600"@
    &&& record.prio is None
    &&& record.notes is None
}

/// The loaded, expanded DNS group of demo domain `c`: an `A` record to
/// 1.2.3.4 and a `CNAME` of `www.` to the domain.
pub open spec fn demo_dns_group_ok(t: RegistrantTreeItem, c: nat) -> bool {
    &&& t matches RegistrantTreeItem::RecordGroup { name, domain_info, children, collapsed, loaded }
    &&& name@ == "DNS Records"@
    &&& demo_info_ok(domain_info, c)
    &&& !collapsed
    &&& loaded
    &&& children.len() == 2
    &&& demo_record_ok(children@[0], "1"@, demo_domain_seq(c), "A"@, "1.2.3.4"@)
    &&& demo_record_ok(children@[1], "2"@, "www."@ + demo_domain_seq(c), "CNAME"@, demo_domain_seq(c))
}

/// The loaded, folded glue group of demo domain `c`, saying that it has none.
pub open spec fn demo_glue_group_ok(t: RegistrantTreeItem, c: nat) -> bool {
    &&& t matches RegistrantTreeItem::RecordGroup { name, domain_info, children, collapsed, loaded }
    &&& name@ == "Glue Records"@
    &&& demo_info_ok(domain_info, c)
    &&& collapsed
    &&& loaded
    &&& children.len() == 1
    &&& children@[0] matches RegistrantTreeItem::Message { text } && text@ == "No glue records"@
}

/// The expanded entry of demo domain `c` with its two record groups.
pub open spec fn demo_domain_item_ok(t: RegistrantTreeItem, c: nat) -> bool {
    &&& t matches RegistrantTreeItem::Domain { info, children, collapsed }
    &&& demo_info_ok(info, c)
    &&& !collapsed
    &&& children.len() == 2
    &&& demo_dns_group_ok(children@[0], c)
    &&& demo_glue_group_ok(children@[1], c)
}

/// The name and top-level domain of demo domain `c`.
fn company(c: usize) -> (r: (&'static str, &'static str))
    ensures
        r.0@ == company_seq(c as nat),
        r.1@ == tld_seq(c as nat),
{
    if c == 0 {
        ("google", "com")
    } else if c == 1 {
        ("alphabet", "xyz")
    } else if c == 2 {
        ("youtube", "com")
    } else if c == 3 {
        ("android", "com")
    } else if c == 4 {
        ("waymo", "com")
    } else if c == 5 {
        ("deepmind", "com")
    } else if c == 6 {
        ("calico", "com")
    } else if c == 7 {
        ("wing", "com")
    } else if c == 8 {
        ("verily", "com")
    } else {
        ("loon", "com")
    }
}

fn demo_info(domain: &str) -> (d: DomainInfo)
    ensures
        d.domain@ == domain@,
        d.auto_renew,
        d.expiry_date matches Some(e) && e@ == "2030-01-01"@,
        d.provider@ == "Porkbun"@,
        d.account@ == "Main"@,
{
    DomainInfo {
        domain: owned(domain),
        auto_renew: true,
        expiry_date: Some(owned("2030-01-01")),
        provider: owned("Porkbun"),
        account: owned("Main"),
    }
}

fn demo_record(id: &str, name: &str, record_type: &str, content: &str) -> (t: RegistrantTreeItem)
    ensures
        demo_record_ok(t, id@, name@, record_type@, content@),
{
    RegistrantTreeItem::DnsRecord {
        record: PorkbunDnsRecord {
            id: owned(id),
            name: owned(name),
            record_type: owned(record_type),
            content: owned(content),
            ttl: owned("600"),
            prio: None,
            notes: None,
        },
    }
}

/// The demo domains and the registrant tree that holds them: one Porkbun
/// provider, expanded, with one expanded account `Enterprise` listing the ten
/// domains in order.
pub fn demo_registrants() -> (r: (Vec<DomainInfo>, Vec<RegistrantTreeItem>))
    ensures
        r.0.len() == 10,
        forall|c: int| 0 <= c < 10 ==> demo_info_ok(#[trigger] r.0@[c], c as nat),
        r.1.len() == 1,
        r.1@[0] matches RegistrantTreeItem::Provider { name, children, collapsed } && {
            &&& name@ == "Porkbun"@
            &&& !collapsed
            &&& children.len() == 1
            &&& children@[0] matches RegistrantTreeItem::Account { name: account, children: ds, collapsed: folded }
                && {
                &&& account@ == "Enterprise"@
                &&& !folded
                &&& ds.len() == 10
                &&& forall|c: int| 0 <= c < 10 ==> demo_domain_item_ok(#[trigger] ds@[c], c as nat)
            }
        },
{
    let mut domains: Vec<DomainInfo> = Vec::new();
    let mut items: Vec<RegistrantTreeItem> = Vec::new();
    let mut c: usize = 0;
    while c < 10
        invariant
            c <= 10,
            domains.len() == c,
            items.len() == c,
            forall|q: int| 0 <= q < c ==> demo_info_ok(#[trigger] domains@[q], q as nat),
            forall|q: int| 0 <= q < c ==> demo_domain_item_ok(#[trigger] items@[q], q as nat),
        decreases 10 - c,
    {
        let (name, tld) = company(c);
        let domain = concat3(name, ".", tld);
        let www = concat2("www.", domain.as_str());
        let dns = vec![
            demo_record("1", domain.as_str(), "A", "1.2.3.4"),
            demo_record("2", www.as_str(), "CNAME", domain.as_str()),
        ];
        let glue = vec![RegistrantTreeItem::Message { text: owned("No glue records") }];
        let children = vec![
            RegistrantTreeItem::RecordGroup {
                name: owned("DNS Records"),
                domain_info: demo_info(domain.as_str()),
                children: dns,
                collapsed: false,
                loaded: true,
            },
            RegistrantTreeItem::RecordGroup {
                name: owned("Glue Records"),
                domain_info: demo_info(domain.as_str()),
                children: glue,
                collapsed: true,
                loaded: true,
            },
        ];
        domains.push(demo_info(domain.as_str()));
        items.push(RegistrantTreeItem::Domain { info: demo_info(domain.as_str()), children, collapsed: false });
        c = c + 1;
    }
    let account = RegistrantTreeItem::Account { name: owned("Enterprise"), children: items, collapsed: false };
    let tree = vec![RegistrantTreeItem::Provider { name: owned("Porkbun"), children: vec![account], collapsed: false }];
    (domains, tree)
}

} // verus!
