//! The host table of `navi list`: rows, column widths, grouping keys and the
//! order of sections.
use vstd::prelude::*;
use vstd::string::*;
use vstd::utf8::encode_utf8;
use vstd::multiset::Multiset;
use std::cmp::Ordering;

use crate::nix::{clone_opt, clone_strings, opt_view, provider_of, views, NodeConfig, NodeName, Provider, ProviderView};
use crate::ssh::{push_str, push_string};
use crate::tree::sorted_names;
use crate::text::{decimal, decimal_seq, lemma_lex_transitive, lemma_lex_trichotomy, lex_less, lex_less_str, lex_order, owned, str_eq};

verus! {

/// Key to group hosts by when rendering the human-readable list.
#[derive(Debug, Clone, Copy, PartialEq, Eq, Structural)]
pub enum GroupBy {
    /// One section per tag (hosts with several tags appear in each).
    Tag,
    /// One section per provisioner.
    Provisioner,
    /// One section per connection link (SSH, GCP, ...).
    Link,
}

/// A single, pre-resolved row of the table.
#[derive(Debug)]
pub struct Row {
    pub name: String,
    pub host: Option<String>,
    pub prov: Option<String>,
    pub provider: Provider,
    pub link: &'static str,
    pub tags: Vec<String>,
}

/// Column widths shared across every section so columns stay aligned.
#[derive(Debug)]
pub struct Widths {
    pub name: usize,
    pub host: usize,
    pub prov: usize,
    pub link: usize,
}

/// Label of the connection link of a provider.
pub open spec fn link_text(p: ProviderView) -> Seq<char> {
    match p {
        ProviderView::Ssh => "SSH"@,
        ProviderView::Gcp { iap, .. } => if iap {
            "GCP (IAP)"@
        } else {
            "GCP (Direct)"@
        },
    }
}

/// Label of the connection link of a provider.
pub fn link_label(provider: &Provider) -> (r: &'static str)
    ensures
        r@ == link_text(provider@),
{
    match provider {
        Provider::Ssh => "SSH",
        Provider::Gcp { iap, .. } => if *iap {
            "GCP (IAP)"
        } else {
            "GCP (Direct)"
        },
    }
}

/// The keys a row belongs to for a grouping.
pub open spec fn group_keys_of(r: Row, by: GroupBy) -> Seq<Seq<char>> {
    match by {
        GroupBy::Tag => if r.tags@.len() == 0 {
            seq!["(untagged)"@]
        } else {
            views(r.tags@)
        },
        GroupBy::Provisioner => seq![
            match r.prov {
                Some(p) => p@,
                None => "(none)"@,
            },
        ],
        GroupBy::Link => seq![r.link@],
    }
}

impl Row {
    /// The row of a node.
    pub fn from_node(name: &NodeName, config: &NodeConfig) -> (r: Row)
        ensures
            r.name@ == name@,
            r.host == config.target_host,
            r.prov == config.provisioner,
            r.provider@ == provider_of(*config),
            r.link@ == link_text(provider_of(*config)),
            r.tags@ == config.tags@,
    {
        let provider = config.get_provider();
        let link = link_label(&provider);
        Row {
            name: owned(name.as_str()),
            host: clone_opt(&config.target_host),
            prov: clone_opt(&config.provisioner),
            link,
            provider,
            tags: clone_strings(config.tags()),
        }
    }

    /// The keys this row belongs to for the given grouping.
    pub fn group_keys(&self, by: GroupBy) -> (r: Vec<String>)
        ensures
            views(r@) == group_keys_of(*self, by),
    {
        match by {
            GroupBy::Tag => {
                if self.tags.len() == 0 {
                    let mut r: Vec<String> = Vec::new();
                    push_str(&mut r, "(untagged)");
                    assert(views(r@) =~= seq!["(untagged)"@]);
                    r
                } else {
                    clone_strings(&self.tags)
                }
            },
            GroupBy::Provisioner => {
                let mut r: Vec<String> = Vec::new();
                match &self.prov {
                    Some(p) => push_string(&mut r, p.clone()),
                    None => push_str(&mut r, "(none)"),
                }
                assert(views(r@) =~= group_keys_of(*self, by));
                r
            },
            GroupBy::Link => {
                let mut r: Vec<String> = Vec::new();
                push_str(&mut r, self.link);
                assert(views(r@) =~= seq![self.link@]);
                r
            },
        }
    }
}

/// `s` padded with spaces on the right to `w` characters (`format!("{s:<w$}")`).
pub open spec fn padded(s: Seq<char>, w: nat) -> Seq<char> {
    if s.len() < w {
        s + Seq::new((w - s.len()) as nat, |i: int| ' ')
    } else {
        s
    }
}

/// Pads `s` with spaces on the right to `w` characters.
pub fn pad(s: &str, w: usize) -> (r: String)
    ensures
        r@ == padded(s@, w as nat),
{
    proof {
        reveal_strlit(" ");
    }
    assert(" "@ =~= seq![' ']);
    let n = s.unicode_len();
    let mut r = owned(s);
    let mut k = n;
    while k < w
        invariant
            n == s@.len(),
            n <= k <= w || (k == n && n >= w),
            r@ == s@ + Seq::new((k - n) as nat, |i: int| ' '),
        decreases w - k,
    {
        proof {
            reveal_strlit(" ");
        }
        assert(" "@ =~= seq![' ']);
        r.append(" ");
        assert(r@ =~= s@ + Seq::new((k + 1 - n) as nat, |i: int| ' '));
        k = k + 1;
    }
    if n >= w {
        assert(r@ =~= s@);
    }
    r
}

/// Width in bytes of a string (`str::len`).
pub open spec fn byte_width(s: Seq<char>) -> int {
    (encode_utf8(s).len() as usize) as int
}

/// Byte width of a string.
pub fn width_of(s: &str) -> (n: usize)
    ensures
        n as int == byte_width(s@),
{
    s.len()
}

/// Width of an optional cell: its byte width, or one for the `-` placeholder.
pub open spec fn opt_width(o: Option<String>) -> int {
    match o {
        Some(s) => byte_width(s@),
        None => 1,
    }
}

/// Greatest name width over the rows, at least `m`.
pub open spec fn max_name(rows: Seq<Row>, m: int) -> int
    decreases rows.len(),
{
    if rows.len() == 0 {
        m
    } else {
        let rest = max_name(rows.drop_last(), m);
        let w = byte_width(rows.last().name@);
        if w > rest { w } else { rest }
    }
}

/// Greatest target-host width over the rows, at least `m`.
pub open spec fn max_host(rows: Seq<Row>, m: int) -> int
    decreases rows.len(),
{
    if rows.len() == 0 {
        m
    } else {
        let rest = max_host(rows.drop_last(), m);
        let w = opt_width(rows.last().host);
        if w > rest { w } else { rest }
    }
}

/// Greatest provisioner width over the rows, at least `m`.
pub open spec fn max_prov(rows: Seq<Row>, m: int) -> int
    decreases rows.len(),
{
    if rows.len() == 0 {
        m
    } else {
        let rest = max_prov(rows.drop_last(), m);
        let w = opt_width(rows.last().prov);
        if w > rest { w } else { rest }
    }
}

/// Greatest link width over the rows, at least `m`.
pub open spec fn max_link(rows: Seq<Row>, m: int) -> int
    decreases rows.len(),
{
    if rows.len() == 0 {
        m
    } else {
        let rest = max_link(rows.drop_last(), m);
        let w = byte_width(rows.last().link@);
        if w > rest { w } else { rest }
    }
}

/// Column widths: each the widest cell of its column, and never narrower than
/// the column's header (`NAME`, `TARGET HOST`, `PROVISIONER`, `LINK`).
pub fn compute_widths(rows: &[Row]) -> (w: Widths)
    ensures
        w.name as int == max_name(rows@, 4),
        w.host as int == max_host(rows@, 11),
        w.prov as int == max_prov(rows@, 11),
        w.link as int == max_link(rows@, 4),
{
    let mut name: usize = 4;
    let mut host: usize = 11;
    let mut prov: usize = 11;
    let mut link: usize = 4;
    let mut i: usize = 0;
    while i < rows.len()
        invariant
            i <= rows@.len(),
            name as int == max_name(rows@.subrange(0, i as int), 4),
            host as int == max_host(rows@.subrange(0, i as int), 11),
            prov as int == max_prov(rows@.subrange(0, i as int), 11),
            link as int == max_link(rows@.subrange(0, i as int), 4),
        decreases rows@.len() - i,
    {
        let ghost pre = rows@.subrange(0, i as int);
        assert(rows@.subrange(0, i + 1).drop_last() =~= pre);
        let r = &rows[i];
        let nw = width_of(r.name.as_str());
        if nw > name {
            name = nw;
        }
        let hw = match &r.host {
            Some(h) => width_of(h.as_str()),
            None => 1,
        };
        if hw > host {
            host = hw;
        }
        let pw = match &r.prov {
            Some(p) => width_of(p.as_str()),
            None => 1,
        };
        if pw > prov {
            prov = pw;
        }
        let lw = width_of(r.link);
        if lw > link {
            link = lw;
        }
        i = i + 1;
    }
    assert(rows@.subrange(0, rows@.len() as int) =~= rows@);
    Widths { name, host, prov, link }
}

/// A catch-all section key: `(untagged)` or `(none)`.
pub open spec fn catchall(key: Seq<char>) -> bool {
    key == "(untagged)"@ || key == "(none)"@
}

/// Whether a section key is a catch-all bucket.
pub fn is_catchall(key: &str) -> (b: bool)
    ensures
        b == catchall(key@),
{
    str_eq(key, "(untagged)") || str_eq(key, "(none)")
}

/// `a` comes strictly before `b` among sections: catch-all buckets last, else by name.
pub open spec fn section_before(a: Seq<char>, b: Seq<char>) -> bool {
    (!catchall(a) && catchall(b)) || (catchall(a) == catchall(b) && lex_less(a, b))
}

/// Orders sections alphabetically, but keeps catch-all buckets last.
pub fn section_order(a: &str, b: &str) -> (r: Ordering)
    ensures
        (r == Ordering::Less) == section_before(a@, b@),
        (r == Ordering::Equal) == (a@ == b@),
        (r == Ordering::Greater) == section_before(b@, a@),
{
    proof {
        crate::text::lemma_lex_trichotomy(a@, b@);
    }
    let ca = is_catchall(a);
    let cb = is_catchall(b);
    if ca == cb {
        lex_order(a, b)
    } else if cb {
        Ordering::Less
    } else {
        Ordering::Greater
    }
}

/// Plural suffix for a count: empty for exactly one, `s` otherwise.
pub fn plural(n: usize) -> (r: &'static str)
    ensures
        n == 1 ==> r@ == ""@,
        n != 1 ==> r@ == "s"@,
{
    if n == 1 {
        ""
    } else {
        "s"
    }
}

/// Sections are ordered strictly, catch-all buckets last.
pub open spec fn sections_sorted(keys: Seq<Seq<char>>) -> bool {
    forall|a: int, b: int| 0 <= a < b < keys.len() ==> section_before(#[trigger] keys[a], #[trigger] keys[b])
}

/// The section keys of the rows `rows[..n]`.
pub open spec fn keys_of_rows(rows: Seq<Row>, by: GroupBy, n: int) -> Set<Seq<char>> {
    Set::new(|k: Seq<char>| exists|i: int| 0 <= i < n && #[trigger] group_keys_of(rows[i], by).contains(k))
}

proof fn lemma_section_trichotomy(a: Seq<char>, b: Seq<char>)
    ensures
        !(section_before(a, b) && section_before(b, a)),
        a != b ==> section_before(a, b) || section_before(b, a),
        !section_before(a, a),
{
    lemma_lex_trichotomy(a, b);
    lemma_lex_trichotomy(a, a);
}

proof fn lemma_section_transitive(a: Seq<char>, b: Seq<char>, c: Seq<char>)
    requires
        section_before(a, b),
        section_before(b, c),
    ensures
        section_before(a, c),
{
    if catchall(a) == catchall(b) && catchall(b) == catchall(c) {
        lemma_lex_transitive(a, b, c);
    }
}

/// Whether section `a` comes strictly before section `b`.
pub fn section_less(a: &str, b: &str) -> (r: bool)
    ensures
        r == section_before(a@, b@),
{
    let ca = is_catchall(a);
    let cb = is_catchall(b);
    if ca == cb {
        lex_less_str(a, b)
    } else {
        cb
    }
}

/// Adds `v` to the ordered sections `r` where it is not there yet.
fn insert_section(r: &mut Vec<String>, v: &str)
    requires
        sections_sorted(views(old(r)@)),
    ensures
        sections_sorted(views(final(r)@)),
        views(final(r)@).to_set() == views(old(r)@).to_set().insert(v@),
{
    let ghost old_keys = views(r@);
    let ghost vv = v@;
    let mut p: usize = 0;
    let mut stop = false;
    while !stop && p < r.len()
        invariant
            p <= r@.len(),
            old_keys == views(r@),
            vv == v@,
            forall|k: int| 0 <= k < p ==> section_before(#[trigger] old_keys[k], vv),
            stop ==> p < r@.len() && !section_before(old_keys[p as int], vv),
        decreases r@.len() - p + (if stop { 0int } else { 1int }),
    {
        assert(old_keys[p as int] == r@[p as int]@);
        if section_less(r[p].as_str(), v) {
            p = p + 1;
        } else {
            stop = true;
        }
    }
    assert(p < r@.len() ==> old_keys[p as int] == r@[p as int]@);
    if p < r.len() && str_eq(r[p].as_str(), v) {
        assert(old_keys.to_set() =~= old_keys.to_set().insert(vv)) by {
            assert(old_keys.contains(vv)) by {
                assert(old_keys[p as int] == vv);
            }
        }
    } else {
        let c = owned(v);
        r.insert(p, c);
        let ghost new_keys = views(r@);
        assert(new_keys =~= old_keys.insert(p as int, vv));
        assert forall|a: int, b: int| 0 <= a < b < new_keys.len() implies section_before(
            #[trigger] new_keys[a],
            #[trigger] new_keys[b],
        ) by {
            if b < p {
            } else if a < p && b == p {
            } else if a < p && b > p {
                assert(section_before(old_keys[a], old_keys[b - 1]));
            } else if a == p {
                lemma_section_trichotomy(old_keys[p as int], vv);
                assert(section_before(vv, old_keys[p as int]));
                if b - 1 > p {
                    assert(section_before(old_keys[p as int], old_keys[b - 1]));
                    lemma_section_transitive(vv, old_keys[p as int], old_keys[b - 1]);
                }
            } else {
                assert(section_before(old_keys[a - 1], old_keys[b - 1]));
            }
        }
        assert forall|x: Seq<char>| new_keys.to_set().contains(x) <==> old_keys.to_set().insert(vv).contains(x) by {
            if new_keys.contains(x) {
                let a = choose|a: int| 0 <= a < new_keys.len() && new_keys[a] == x;
                if a < p {
                    assert(old_keys[a] == x);
                } else if a > p {
                    assert(old_keys[a - 1] == x);
                }
            }
            if old_keys.contains(x) {
                let a = choose|a: int| 0 <= a < old_keys.len() && old_keys[a] == x;
                if a < p {
                    assert(new_keys[a] == x);
                } else {
                    assert(new_keys[a + 1] == x);
                }
            }
            if x == vv {
                assert(new_keys[p as int] == x);
            }
        }
        assert(new_keys.to_set() =~= old_keys.to_set().insert(vv));
    }
}

/// The sections of the table: every key that some row belongs to, once each,
/// in section order.
pub fn section_keys(rows: &[Row], by: GroupBy) -> (r: Vec<String>)
    ensures
        sections_sorted(views(r@)),
        views(r@).to_set() == keys_of_rows(rows@, by, rows@.len() as int),
{
    let mut r: Vec<String> = Vec::new();
    let mut i: usize = 0;
    assert(views(r@).to_set() =~= keys_of_rows(rows@, by, 0));
    while i < rows.len()
        invariant
            i <= rows@.len(),
            sections_sorted(views(r@)),
            views(r@).to_set() == keys_of_rows(rows@, by, i as int),
        decreases rows@.len() - i,
    {
        let keys = rows[i].group_keys(by);
        let mut j: usize = 0;
        while j < keys.len()
            invariant
                i < rows@.len(),
                j <= keys@.len(),
                views(keys@) == group_keys_of(rows@[i as int], by),
                sections_sorted(views(r@)),
                views(r@).to_set() == keys_of_rows(rows@, by, i as int).union(
                    views(keys@).subrange(0, j as int).to_set(),
                ),
            decreases keys@.len() - j,
        {
            let ghost before = views(r@).to_set();
            insert_section(&mut r, keys[j].as_str());
            assert(views(keys@).subrange(0, j + 1) =~= views(keys@).subrange(0, j as int).push(keys@[j as int]@));
            proof {
                views(keys@).subrange(0, j as int).lemma_push_to_set_commute(keys@[j as int]@);
            }
            assert(views(r@).to_set() =~= keys_of_rows(rows@, by, i as int).union(
                views(keys@).subrange(0, j + 1).to_set(),
            ));
            j = j + 1;
        }
        assert(views(keys@).subrange(0, keys@.len() as int) =~= views(keys@));
        assert forall|k: Seq<char>| keys_of_rows(rows@, by, i + 1).contains(k) <==> keys_of_rows(rows@, by, i as int).union(
            views(keys@).to_set(),
        ).contains(k) by {
            if keys_of_rows(rows@, by, i + 1).contains(k) {
                let m = choose|m: int| 0 <= m < i + 1 && #[trigger] group_keys_of(rows@[m], by).contains(k);
                if m < i {
                    assert(keys_of_rows(rows@, by, i as int).contains(k));
                } else {
                    assert(views(keys@).contains(k));
                }
            }
            if views(keys@).to_set().contains(k) {
                assert(group_keys_of(rows@[i as int], by).contains(k));
            }
            if keys_of_rows(rows@, by, i as int).contains(k) {
                let m = choose|m: int| 0 <= m < i && #[trigger] group_keys_of(rows@[m], by).contains(k);
                assert(0 <= m < i + 1 && group_keys_of(rows@[m], by).contains(k));
            }
        }
        assert(views(r@).to_set() =~= keys_of_rows(rows@, by, i + 1));
        i = i + 1;
    }
    r
}

/// `n` copies of `x`.
pub open spec fn copies(x: nat, n: nat) -> Seq<nat>
    decreases n,
{
    if n == 0 {
        Seq::empty()
    } else {
        copies(x, (n - 1) as nat).push(x)
    }
}

/// How often `k` occurs in `s`.
pub open spec fn occurrences(s: Seq<Seq<char>>, k: Seq<char>) -> nat
    decreases s.len(),
{
    if s.len() == 0 {
        0
    } else {
        occurrences(s.drop_last(), k) + if s.last() == k {
            1nat
        } else {
            0nat
        }
    }
}

/// The rows of section `key` among `rows[..n]`: each row's index, in order,
/// once for each time the row names the key.
pub open spec fn section_rows_of(rows: Seq<Row>, by: GroupBy, key: Seq<char>, n: nat) -> Seq<nat>
    decreases n,
{
    if n == 0 {
        Seq::empty()
    } else {
        let i = (n - 1) as nat;
        section_rows_of(rows, by, key, i) + copies(i, occurrences(group_keys_of(rows[i as int], by), key))
    }
}

/// The indices of the rows of section `key`, in order, once for each time
/// a row names the key.
pub fn section_rows(rows: &[Row], by: GroupBy, key: &str) -> (r: Vec<usize>)
    ensures
        r@.map_values(|i: usize| i as nat) == section_rows_of(rows@, by, key@, rows@.len() as nat),
{
    let mut r: Vec<usize> = Vec::new();
    let mut i: usize = 0;
    while i < rows.len()
        invariant
            i <= rows@.len(),
            r@.map_values(|x: usize| x as nat) == section_rows_of(rows@, by, key@, i as nat),
        decreases rows@.len() - i,
    {
        let keys = rows[i].group_keys(by);
        let ghost base = r@.map_values(|x: usize| x as nat);
        let mut j: usize = 0;
        while j < keys.len()
            invariant
                i < rows@.len(),
                j <= keys@.len(),
                views(keys@) == group_keys_of(rows@[i as int], by),
                r@.map_values(|x: usize| x as nat) == base + copies(
                    i as nat,
                    occurrences(views(keys@).subrange(0, j as int), key@),
                ),
            decreases keys@.len() - j,
        {
            let ghost pre = views(keys@).subrange(0, j as int);
            assert(views(keys@).subrange(0, j + 1).drop_last() =~= pre);
            assert(views(keys@).subrange(0, j + 1).last() == keys@[j as int]@);
            if str_eq(keys[j].as_str(), key) {
                let ghost c = occurrences(pre, key@);
                let ghost rv = r@;
                r.push(i);
                assert(r@ == rv.push(i));
                assert(r@.map_values(|x: usize| x as nat) =~= rv.map_values(|x: usize| x as nat).push(i as nat));
                assert(r@.map_values(|x: usize| x as nat) =~= base + copies(i as nat, c).push(i as nat));
            }
            j = j + 1;
        }
        assert(views(keys@).subrange(0, keys@.len() as int) =~= views(keys@));
        i = i + 1;
    }
    r
}

/// The table's sections in order, each with the indices of its rows.
pub fn sections(rows: &[Row], by: GroupBy) -> (r: Vec<(String, Vec<usize>)>)
    ensures
        sections_sorted(r@.map_values(|s: (String, Vec<usize>)| s.0@)),
        r@.map_values(|s: (String, Vec<usize>)| s.0@).to_set() == keys_of_rows(rows@, by, rows@.len() as int),
        forall|k: int|
            0 <= k < r@.len() ==> (#[trigger] r@[k]).1@.map_values(|i: usize| i as nat) == section_rows_of(
                rows@,
                by,
                r@[k].0@,
                rows@.len() as nat,
            ),
{
    let keys = section_keys(rows, by);
    let mut r: Vec<(String, Vec<usize>)> = Vec::new();
    let mut k: usize = 0;
    while k < keys.len()
        invariant
            k <= keys@.len(),
            sections_sorted(views(keys@)),
            r@.map_values(|s: (String, Vec<usize>)| s.0@) == views(keys@).subrange(0, k as int),
            forall|q: int|
                0 <= q < r@.len() ==> (#[trigger] r@[q]).1@.map_values(|i: usize| i as nat) == section_rows_of(
                    rows@,
                    by,
                    r@[q].0@,
                    rows@.len() as nat,
                ),
        decreases keys@.len() - k,
    {
        let members = section_rows(rows, by, keys[k].as_str());
        let ghost before = r@.map_values(|s: (String, Vec<usize>)| s.0@);
        let ghost rv = r@;
        let name = owned(keys[k].as_str());
        let ghost nv = name@;
        r.push((name, members));
        assert(r@ == rv.push(r@.last()));
        assert(r@.last().0@ == keys@[k as int]@);
        assert(r@.map_values(|s: (String, Vec<usize>)| s.0@) =~= before.push(keys@[k as int]@));
        assert(r@.map_values(|s: (String, Vec<usize>)| s.0@) =~= views(keys@).subrange(0, k + 1));
        k = k + 1;
    }
    assert(views(keys@).subrange(0, keys@.len() as int) =~= views(keys@));
    r
}

/// The names of a list of nodes with their configurations.
pub open spec fn pair_names(s: Seq<(NodeName, NodeConfig)>) -> Seq<Seq<char>> {
    s.map_values(|p: (NodeName, NodeConfig)| p.0@)
}

/// Sorts the nodes by name.
pub fn sort_by_name(nodes: &mut Vec<(NodeName, NodeConfig)>)
    ensures
        final(nodes)@.to_multiset() == old(nodes)@.to_multiset(),
        sorted_names(pair_names(final(nodes)@)),
{
    broadcast use vstd::seq_lib::group_to_multiset_ensures;
    broadcast use vstd::multiset::group_multiset_axioms;

    let ghost orig = nodes@;
    let mut sorted: Vec<(NodeName, NodeConfig)> = Vec::new();
    assert(sorted@.to_multiset().add(nodes@.to_multiset()) =~= orig.to_multiset());
    while nodes.len() > 0
        invariant
            sorted@.to_multiset().add(nodes@.to_multiset()) == orig.to_multiset(),
            sorted_names(pair_names(sorted@)),
        decreases nodes@.len(),
    {
        let ghost rest = nodes@;
        let x = match nodes.pop() {
            Some(x) => x,
            None => { return; },
        };
        assert(rest == nodes@.push(x));
        let ghost xv = x.0@;
        let ghost old_names = pair_names(sorted@);
        let ghost old_sorted = sorted@;
        let mut p: usize = 0;
        let mut found = false;
        while !found && p < sorted.len()
            invariant
                p <= sorted@.len(),
                old_names == pair_names(sorted@),
                sorted@ == old_sorted,
                forall|k: int| 0 <= k < p ==> !lex_less(xv, #[trigger] old_names[k]),
                found ==> p < sorted@.len() && lex_less(xv, old_names[p as int]),
                xv == x.0@,
            decreases sorted@.len() - p + (if found { 0int } else { 1int }),
        {
            assert(old_names[p as int] == sorted@[p as int].0@);
            if lex_less_str(x.0.as_str(), sorted[p].0.as_str()) {
                found = true;
            } else {
                p = p + 1;
            }
        }
        sorted.insert(p, x);
        assert(sorted@ == old_sorted.insert(p as int, x));
        proof {
            vstd::seq_lib::to_multiset_insert(old_sorted, p as int, x);
            vstd::seq_lib::to_multiset_build(nodes@, x);
        }
        assert(sorted@.to_multiset().add(nodes@.to_multiset()) =~= old_sorted.to_multiset().add(rest.to_multiset()));
        let ghost new_names = pair_names(sorted@);
        assert(new_names =~= old_names.insert(p as int, xv));
        assert forall|a: int, b: int| 0 <= a < b < new_names.len() implies !lex_less(#[trigger] new_names[b], #[trigger] new_names[a]) by {
            if a < p && b < p {
            } else if a < p && b == p {
                lemma_lex_trichotomy(old_names[a], xv);
            } else if a < p && b > p {
                assert(!lex_less(old_names[b - 1], old_names[a]));
            } else if a == p {
                if p < old_names.len() {
                    assert(lex_less(xv, old_names[p as int]));
                    if b - 1 > p {
                        assert(!lex_less(old_names[b - 1], old_names[p as int]));
                        lemma_lex_trichotomy(old_names[b - 1], old_names[p as int]);
                        if old_names[b - 1] != old_names[p as int] {
                            lemma_lex_transitive(xv, old_names[p as int], old_names[b - 1]);
                        }
                    }
                    lemma_lex_trichotomy(xv, new_names[b]);
                }
            } else {
                assert(!lex_less(old_names[b - 1], old_names[a - 1]));
            }
        }
    }
    assert(nodes@.to_multiset() =~= Multiset::empty());
    assert(sorted@.to_multiset() =~= orig.to_multiset());
    *nodes = sorted;
}

/// The closing line of the table: the number of hosts and, for a grouped
/// table, of groups (`3 hosts`, `1 host in 2 groups`).
pub open spec fn summary_text(hosts: nat, groups: Option<nat>) -> Seq<char> {
    let h = decimal_seq(hosts) + " host"@ + (if hosts == 1 { ""@ } else { "s"@ });
    match groups {
        None => h,
        Some(g) => h + " in "@ + decimal_seq(g) + " group"@ + (if g == 1 { ""@ } else { "s"@ }),
    }
}

/// The closing line of the table.
pub fn summary_line(hosts: usize, groups: Option<usize>) -> (r: String)
    ensures
        r@ == summary_text(hosts as nat, match groups {
            Some(g) => Some(g as nat),
            None => None,
        }),
{
    let mut r = decimal(hosts as u64);
    r.append(" host");
    r.append(plural(hosts));
    match groups {
        None => {},
        Some(g) => {
            r.append(" in ");
            let d = decimal(g as u64);
            r.append(d.as_str());
            r.append(" group");
            r.append(plural(g));
        },
    }
    r
}

} // verus!
