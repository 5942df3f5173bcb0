//! Running Terraform (or OpenTofu) for provisioning: reading its errors and
//! the decisions that recover from them.
use vstd::prelude::*;
use vstd::string::*;

use crate::nix::{opt_view, views, NodeConfig, NodeName, Provider};
use crate::input::push_char;
use crate::text::{
    chars_of, occurs_at, occurs_at_vec, concat2, concat3, contains_str, ends_with_str, has_char, has_char_str, has_infix, has_prefix, has_suffix,
    lines, lines_seq, owned, split_whitespace, starts_with_str, str_eq, substring, trim_seq, trim_str, ws_tokens,
};

verus! {

/// Runs the Terraform binary in a working directory.
#[derive(Debug)]
pub struct TerraformExecutor {
    pub work_dir: String,
    /// The binary: the value of `NAVI_TERRAFORM_BINARY` where it is set, else `tofu`.
    pub tf_bin: String,
}

/// The binary used where `NAVI_TERRAFORM_BINARY` is not set.
pub const DEFAULT_TF_BIN: &'static str = "tofu";

impl TerraformExecutor {
    /// An executor in `work_dir`, given the value of `NAVI_TERRAFORM_BINARY`.
    pub fn new(work_dir: String, tf_bin_var: Option<String>) -> (r: TerraformExecutor)
        ensures
            r.work_dir == work_dir,
            r.tf_bin@ == match tf_bin_var {
                Some(b) => b@,
                None => "tofu"@,
            },
    {
        let tf_bin = match tf_bin_var {
            Some(b) => b,
            None => owned(DEFAULT_TF_BIN),
        };
        TerraformExecutor { work_dir, tf_bin }
    }

    pub fn tf_bin(&self) -> (r: &str)
        ensures
            r@ == self.tf_bin@,
    {
        self.tf_bin.as_str()
    }
}

/// `s` without the `:` that end it.
pub open spec fn trim_colons(s: Seq<char>) -> Seq<char>
    decreases s.len(),
{
    if s.len() > 0 && s.last() == ':' {
        trim_colons(s.drop_last())
    } else {
        s
    }
}

/// The provider that an error line of `init` names as missing: a trimmed line
/// that starts with `- ` and says there is no package, or mentions a cache,
/// names it in its second word, less the trailing colons, where that holds a `/`.
pub open spec fn missing_provider_of(line: Seq<char>) -> Option<Seq<char>> {
    let t = trim_seq(line);
    let words = ws_tokens(t);
    if has_prefix(t, "- "@) && (has_infix(t, ": there is no package"@) || has_infix(t, "cached in"@)) && words.len() > 1
        && has_char(trim_colons(words[1]), '/') {
        Some(trim_colons(words[1]))
    } else {
        None
    }
}

/// The providers named as missing by the lines `ls`, in order.
pub open spec fn missing_providers(ls: Seq<Seq<char>>) -> Seq<Seq<char>>
    decreases ls.len(),
{
    if ls.len() == 0 {
        Seq::empty()
    } else {
        missing_providers(ls.drop_last()) + match missing_provider_of(ls.last()) {
            Some(p) => seq![p],
            None => Seq::empty(),
        }
    }
}

/// `s` without the colons that end it.
fn trim_colons_str(s: &str) -> (r: String)
    ensures
        r@ == trim_colons(s@),
{
    let mut n = s.unicode_len();
    assert(s@.subrange(0, n as int) =~= s@);
    while n > 0 && s.get_char(n - 1) == ':'
        invariant
            n <= s@.len(),
            trim_colons(s@) == trim_colons(s@.subrange(0, n as int)),
        decreases n,
    {
        assert(s@.subrange(0, n as int).drop_last() =~= s@.subrange(0, n - 1));
        n = n - 1;
    }
    substring(s, 0, n)
}

/// The provider that one line of `init`'s errors names as missing.
fn missing_provider_in(line: &str) -> (r: Option<String>)
    ensures
        opt_view(r) == missing_provider_of(line@),
{
    let t = trim_str(line);
    if !starts_with_str(t.as_str(), "- ") {
        return None;
    }
    if !(contains_str(t.as_str(), ": there is no package") || contains_str(t.as_str(), "cached in")) {
        return None;
    }
    let words = split_whitespace(t.as_str());
    if words.len() < 2 {
        return None;
    }
    assert(views(words@)[1] == words@[1]@);
    let p = trim_colons_str(words[1].as_str());
    if has_char_str(p.as_str(), '/') {
        Some(p)
    } else {
        None
    }
}

/// The providers that `init`'s error output names as missing, in order.
pub fn extract_missing_providers(stderr: &str) -> (r: Vec<String>)
    ensures
        views(r@) == missing_providers(lines_seq(stderr@)),
{
    let ls = lines(stderr);
    let ghost lv = lines_seq(stderr@);
    assert(ls@.map_values(|t: String| t@) == lv);
    let mut r: Vec<String> = Vec::new();
    let mut i: usize = 0;
    while i < ls.len()
        invariant
            i <= ls@.len(),
            ls@.map_values(|t: String| t@) == lv,
            views(r@) == missing_providers(lv.subrange(0, i as int)),
        decreases ls@.len() - i,
    {
        let ghost pre = lv.subrange(0, i + 1);
        assert(pre.drop_last() =~= lv.subrange(0, i as int));
        assert(pre.last() == ls@[i as int]@);
        match missing_provider_in(ls[i].as_str()) {
            Some(p) => {
                let ghost before = views(r@);
                r.push(p);
                assert(views(r@) =~= before + seq![missing_provider_of(pre.last())->0]);
            },
            None => {
                assert(views(r@) =~= views(r@) + Seq::<Seq<char>>::empty());
            },
        }
        i = i + 1;
    }
    assert(lv.subrange(0, ls@.len() as int) =~= lv);
    r
}

/// What follows the last `/` of `s`, or all of `s`.
pub open spec fn last_segment(s: Seq<char>) -> Seq<char>
    decreases s.len(),
{
    if s.len() == 0 {
        s
    } else if s.last() == '/' {
        Seq::empty()
    } else {
        last_segment(s.drop_last()).push(s.last())
    }
}

/// What follows the last `/` of `s`.
pub fn last_segment_str(s: &str) -> (r: String)
    ensures
        r@ == last_segment(s@),
{
    let n = s.unicode_len();
    let mut k = n;
    proof {
        assert(s@.subrange(0, n as int) =~= s@);
        assert(s@.subrange(n as int, n as int) =~= Seq::<char>::empty());
    }
    while k > 0 && s.get_char(k - 1) != '/'
        invariant
            k <= n,
            n == s@.len(),
            last_segment(s@) == last_segment(s@.subrange(0, k as int)) + s@.subrange(k as int, n as int),
        decreases k,
    {
        let ghost pre = s@.subrange(0, k as int);
        assert(pre.drop_last() =~= s@.subrange(0, k - 1));
        assert(s@.subrange(k - 1, n as int) =~= seq![pre.last()] + s@.subrange(k as int, n as int));
        assert(last_segment(pre) == last_segment(pre.drop_last()).push(pre.last()));
        assert(last_segment(pre.drop_last()).push(pre.last()) + s@.subrange(k as int, n as int) =~= last_segment(
            pre.drop_last(),
        ) + (seq![pre.last()] + s@.subrange(k as int, n as int)));
        k = k - 1;
    }
    proof {
        let pre = s@.subrange(0, k as int);
        if k > 0 {
            assert(pre.last() == '/');
            assert(last_segment(pre) =~= Seq::<char>::empty());
        } else {
            assert(pre.len() == 0);
        }
        assert(last_segment(s@) =~= s@.subrange(k as int, n as int));
    }
    substring(s, k, n)
}

/// The configured providers that could stand for the missing one: those that
/// end with its last segment.
pub open spec fn candidates_for(missing: Seq<char>, configured: Seq<Seq<char>>) -> Seq<Seq<char>> {
    configured.filter(|p: Seq<char>| has_suffix(p, last_segment(missing)))
}

/// The provider that replaces `missing` in the state: the only configured one
/// that ends with its last segment, where it differs from `missing`.
pub open spec fn replacement_for(missing: Seq<char>, configured: Seq<Seq<char>>) -> Option<Seq<char>> {
    let c = candidates_for(missing, configured);
    if c.len() == 1 && c[0] != missing {
        Some(c[0])
    } else {
        None
    }
}

/// The provider that replaces `missing` (see [`replacement_for`]).
pub fn provider_replacement(missing: &str, configured: &Vec<String>) -> (r: Option<String>)
    ensures
        opt_view(r) == replacement_for(missing@, views(configured@)),
{
    let suffix = last_segment_str(missing);
    let ghost cv = views(configured@);
    let ghost pred = |p: Seq<char>| has_suffix(p, last_segment(missing@));
    let mut found: Vec<String> = Vec::new();
    let mut i: usize = 0;
    assert(cv.subrange(0, 0).filter(pred) =~= Seq::empty()) by {
        reveal(Seq::filter);
    }
    while i < configured.len()
        invariant
            i <= configured@.len(),
            cv == views(configured@),
            suffix@ == last_segment(missing@),
            pred == (|p: Seq<char>| has_suffix(p, last_segment(missing@))),
            views(found@) == cv.subrange(0, i as int).filter(pred),
        decreases configured@.len() - i,
    {
        let ghost pre = cv.subrange(0, i + 1);
        assert(pre.drop_last() =~= cv.subrange(0, i as int));
        assert(pre.last() == configured@[i as int]@);
        assert(pre.filter(pred) == if pred(pre.last()) {
            pre.drop_last().filter(pred).push(pre.last())
        } else {
            pre.drop_last().filter(pred)
        }) by {
            reveal(Seq::filter);
        }
        if ends_with_str(configured[i].as_str(), suffix.as_str()) {
            let ghost before = views(found@);
            found.push(owned(configured[i].as_str()));
            assert(views(found@) =~= before.push(configured@[i as int]@));
        }
        i = i + 1;
    }
    assert(cv.subrange(0, configured@.len() as int) =~= cv);
    if found.len() == 1 {
        assert(views(found@)[0] == found@[0]@);
        if !str_eq(found[0].as_str(), missing) {
            return Some(owned(found[0].as_str()));
        }
    }
    None
}

/// Whether initialising failed because the state backend changed, so that the
/// state can be migrated or the backend reconfigured.
pub fn backend_changed(stderr: &str) -> (r: bool)
    ensures
        r == has_infix(stderr@, "Backend configuration changed"@),
{
    contains_str(stderr, "Backend configuration changed")
}

/// The error output shows expired cloud credentials.
pub open spec fn auth_error(stderr: Seq<char>) -> bool {
    has_infix(stderr, "invalid_grant"@) || has_infix(stderr, "invalid_rapt"@)
}

/// Whether the error output shows expired cloud credentials.
pub fn stderr_contains_auth_error(stderr: &str) -> (r: bool)
    ensures
        r == auth_error(stderr@),
{
    contains_str(stderr, "invalid_grant") || contains_str(stderr, "invalid_rapt")
}

/// Whether applying failed because an instance must be stopped for its update.
pub fn needs_instance_stop(stderr: &str) -> (r: bool)
    ensures
        r == (has_infix(stderr@, "requires stopping it"@) && has_infix(stderr@, "allow_stopping_for_update"@)),
{
    contains_str(stderr, "requires stopping it") && contains_str(stderr, "allow_stopping_for_update")
}

/// Whether `c` is alphabetic or numeric in Unicode's sense.
pub uninterp spec fn alphanumeric(c: char) -> bool;

/// Whether `c` is alphanumeric (`char::is_alphanumeric`). ASCII letters and digits are.
#[verifier::external_body]
fn is_alphanumeric(c: char) -> (r: bool)
    ensures
        r == alphanumeric(c),
        ('a' <= c && c <= 'z') || ('A' <= c && c <= 'Z') || ('0' <= c && c <= '9') ==> r,
{
    c.is_alphanumeric()
}

/// The characters that may make up an instance name.
pub open spec fn name_char(c: char) -> bool {
    alphanumeric(c) || c == '-'
}

/// The longest start of `s` made of name characters.
pub open spec fn name_prefix(s: Seq<char>) -> Seq<char>
    decreases s.len(),
{
    if s.len() > 0 && name_char(s[0]) {
        seq![s[0]] + name_prefix(s.drop_first())
    } else {
        Seq::empty()
    }
}

/// The first index where `p` occurs in `s`.
pub open spec fn first_occurrence(s: Seq<char>, p: Seq<char>) -> int
    recommends
        has_infix(s, p),
{
    choose|i: int| crate::text::occurs_at(s, p, i) && forall|j: int| 0 <= j < i ==> !crate::text::occurs_at(s, p, j)
}

/// The instance that the error output names after `google_compute_instance.`,
/// at its first mention.
pub open spec fn instance_named(stderr: Seq<char>) -> Option<Seq<char>> {
    let key = "google_compute_instance."@;
    if has_infix(stderr, key) {
        Some(name_prefix(stderr.subrange(first_occurrence(stderr, key) + key.len(), stderr.len() as int)))
    } else {
        None
    }
}

/// The first index where `p` occurs in `s`.
fn find_first(s: &Vec<char>, p: &Vec<char>) -> (r: Option<usize>)
    ensures
        match r {
            Some(i) => occurs_at(s@, p@, i as int) && forall|j: int| 0 <= j < i ==> !occurs_at(s@, p@, j),
            None => !has_infix(s@, p@),
        },
{
    if p.len() > s.len() {
        assert forall|i: int| !occurs_at(s@, p@, i) by {}
        return None;
    }
    let last = s.len() - p.len();
    let mut i: usize = 0;
    loop
        invariant
            last == s.len() - p.len(),
            p.len() <= s.len(),
            i <= last,
            forall|k: int| 0 <= k < i ==> !occurs_at(s@, p@, k),
        decreases last - i,
    {
        if occurs_at_vec(s, p, i) {
            return Some(i);
        }
        if i == last {
            assert forall|k: int| !occurs_at(s@, p@, k) by {
                if 0 <= k <= i {
                }
            }
            return None;
        }
        i = i + 1;
    }
}

/// The instance to stop for an update, as the error output names it (see [`instance_named`]).
pub fn instance_to_stop(stderr: &str) -> (r: Option<String>)
    ensures
        opt_view(r) == instance_named(stderr@),
{
    let sv = chars_of(stderr);
    let key = chars_of("google_compute_instance.");
    proof {
        reveal_strlit("google_compute_instance.");
    }
    match find_first(&sv, &key) {
        Some(i) => {
            proof {
                let c = first_occurrence(stderr@, key@);
                assert(occurs_at(stderr@, key@, c) && forall|j: int| 0 <= j < c ==> !occurs_at(stderr@, key@, j));
                if c < i {
                } else if c > i {
                    assert(!occurs_at(stderr@, key@, i as int));
                }
                assert(c == i);
            }
            let n = sv.len();
            let kl = key.len();
            assert(i + kl <= n);
            let start = i + kl;
            let mut k = start;
            let mut name: Vec<char> = Vec::new();
            let ghost rest = stderr@.subrange(start as int, n as int);
            assert(stderr@.subrange(k as int, n as int) =~= rest);
            while k < n && (is_alphanumeric(sv[k]) || sv[k] == '-')
                invariant
                    start <= k <= n,
                    n == sv@.len(),
                    sv@ == stderr@,
                    rest == stderr@.subrange(start as int, n as int),
                    name_prefix(rest) == name@ + name_prefix(stderr@.subrange(k as int, n as int)),
                decreases n - k,
            {
                let ghost cur = stderr@.subrange(k as int, n as int);
                assert(cur.drop_first() =~= stderr@.subrange(k + 1, n as int));
                assert(cur[0] == sv@[k as int]);
                let ghost before = name@;
                name.push(sv[k]);
                assert(name_prefix(cur) == seq![cur[0]] + name_prefix(cur.drop_first()));
                assert(before + (seq![cur[0]] + name_prefix(cur.drop_first())) =~= name@ + name_prefix(
                    cur.drop_first(),
                ));
                k = k + 1;
            }
            proof {
                let cur = stderr@.subrange(k as int, n as int);
                if k < n {
                    assert(cur[0] == sv@[k as int]);
                    assert(!name_char(cur[0]));
                }
                assert(name_prefix(cur) =~= Seq::<char>::empty());
                assert(name@ =~= name_prefix(rest));
            }
            Some(string_of_chars(&name))
        },
        None => None,
    }
}

/// The string of the characters `v`.
fn string_of_chars(v: &Vec<char>) -> (r: String)
    ensures
        r@ == v@,
{
    let mut r = String::new();
    let mut i: usize = 0;
    while i < v.len()
        invariant
            i <= v@.len(),
            r@ == v@.subrange(0, i as int),
        decreases v@.len() - i,
    {
        push_char(&mut r, v[i]);
        assert(r@ =~= v@.subrange(0, i + 1));
        i = i + 1;
    }
    assert(v@.subrange(0, v@.len() as int) =~= v@);
    r
}

/// `s` spells `y` or `yes`, in any letter case.
pub open spec fn says_yes(s: Seq<char>) -> bool {
    ||| s.len() == 1 && (s[0] == 'y' || s[0] == 'Y')
    ||| s.len() == 3 && (s[0] == 'y' || s[0] == 'Y') && (s[1] == 'e' || s[1] == 'E') && (s[2] == 's' || s[2] == 'S')
}

/// Whether an answer to a confirmation prompt agrees: `y` or `yes` in any
/// letter case, around whitespace.
pub fn confirmed(answer: &str) -> (r: bool)
    ensures
        r == says_yes(trim_seq(answer@)),
{
    let t = trim_str(answer);
    let n = t.as_str().unicode_len();
    if n == 1 {
        let a = t.as_str().get_char(0);
        a == 'y' || a == 'Y'
    } else if n == 3 {
        let a = t.as_str().get_char(0);
        let b = t.as_str().get_char(1);
        let c = t.as_str().get_char(2);
        (a == 'y' || a == 'Y') && (b == 'e' || b == 'E') && (c == 's' || c == 'S')
    } else {
        false
    }
}

/// `s` with every `-` turned into `_`.
pub open spec fn underscored(s: Seq<char>) -> Seq<char> {
    s.map_values(|c: char| if c == '-' { '_' } else { c })
}

/// The endings by which a state address belongs to node `node`:
/// `["node"]` and `.node`, with the node's dashes kept or made underscores.
pub open spec fn address_suffixes(node: Seq<char>) -> Seq<Seq<char>> {
    seq![
        "[\""@ + node + "\"]"@,
        "."@ + node,
        "[\""@ + underscored(node) + "\"]"@,
        "."@ + underscored(node),
    ]
}

/// The line `l`, trimmed, is the address of a resource of `node`.
pub open spec fn is_node_address(l: Seq<char>, node: Seq<char>) -> bool {
    exists|k: int| 0 <= k < 4 && has_suffix(trim_seq(l), #[trigger] address_suffixes(node)[k])
}

/// The first line of `terraform state list` (trimmed) that is the address of a
/// resource of `node`, if any.
pub open spec fn resource_address(ls: Seq<Seq<char>>, node: Seq<char>) -> Option<Seq<char>>
    decreases ls.len(),
{
    if ls.len() == 0 {
        None
    } else if is_node_address(ls[0], node) {
        Some(trim_seq(ls[0]))
    } else {
        resource_address(ls.drop_first(), node)
    }
}

/// `s` with every `-` turned into `_`.
pub fn underscore_name(s: &str) -> (r: String)
    ensures
        r@ == underscored(s@),
{
    let v = chars_of(s);
    let mut out: Vec<char> = Vec::new();
    let mut i: usize = 0;
    while i < v.len()
        invariant
            i <= v@.len(),
            v@ == s@,
            out@ == underscored(s@.subrange(0, i as int)),
        decreases v@.len() - i,
    {
        let c = v[i];
        out.push(if c == '-' { '_' } else { c });
        assert(out@ =~= underscored(s@.subrange(0, i + 1)));
        i = i + 1;
    }
    assert(s@.subrange(0, v@.len() as int) =~= s@);
    string_of_chars(&out)
}

/// The state address of node `node`'s resource (see [`resource_address`]).
pub fn find_resource_address(state_list: &str, node: &str) -> (r: Option<String>)
    ensures
        opt_view(r) == resource_address(lines_seq(state_list@), node@),
{
    let u = underscore_name(node);
    let mut a = concat3("[\"", node, "\"]");
    let b = concat2(".", node);
    let c = concat3("[\"", u.as_str(), "\"]");
    let d = concat2(".", u.as_str());
    let ghost sfx = address_suffixes(node@);
    assert(sfx[0] == a@ && sfx[1] == b@ && sfx[2] == c@ && sfx[3] == d@);
    let ls = lines(state_list);
    let ghost lv = lines_seq(state_list@);
    assert(lv.subrange(0, lv.len() as int) =~= lv);
    let mut i: usize = 0;
    while i < ls.len()
        invariant
            i <= ls@.len(),
            ls@.map_values(|t: String| t@) == lv,
            lv == lines_seq(state_list@),
            sfx == address_suffixes(node@),
            sfx[0] == a@ && sfx[1] == b@ && sfx[2] == c@ && sfx[3] == d@,
            resource_address(lv, node@) == resource_address(lv.subrange(i as int, lv.len() as int), node@),
        decreases ls@.len() - i,
    {
        let ghost rest = lv.subrange(i as int, lv.len() as int);
        assert(rest.drop_first() =~= lv.subrange(i + 1, lv.len() as int));
        assert(rest[0] == ls@[i as int]@);
        let t = trim_str(ls[i].as_str());
        let hit = ends_with_str(t.as_str(), a.as_str()) || ends_with_str(t.as_str(), b.as_str()) || ends_with_str(
            t.as_str(),
            c.as_str(),
        ) || ends_with_str(t.as_str(), d.as_str());
        proof {
            if hit {
                if has_suffix(t@, sfx[0]) {
                    assert(is_node_address(rest[0], node@));
                } else if has_suffix(t@, sfx[1]) {
                    assert(is_node_address(rest[0], node@));
                } else if has_suffix(t@, sfx[2]) {
                    assert(is_node_address(rest[0], node@));
                } else {
                    assert(is_node_address(rest[0], node@));
                }
            } else {
                assert forall|k: int| 0 <= k < 4 implies !has_suffix(trim_seq(rest[0]), #[trigger] sfx[k]) by {}
            }
        }
        if hit {
            assert(t@ == trim_seq(rest[0]));
            assert(resource_address(rest, node@) == Some(trim_seq(rest[0])));
            return Some(t);
        }
        i = i + 1;
    }
    assert(lv.subrange(ls@.len() as int, lv.len() as int).len() == 0);
    None
}

/// The configured node that an instance stops for: the one of that name, or
/// the only node where there is just one.
pub open spec fn stop_target_of(targets: Seq<(NodeName, NodeConfig)>, instance: Seq<char>) -> Option<int> {
    if exists|i: int| 0 <= i < targets.len() && #[trigger] targets[i].0@ == instance {
        Some(choose|i: int| 0 <= i < targets.len() && #[trigger] targets[i].0@ == instance && forall|j: int|
            0 <= j < i ==> targets[j].0@ != instance)
    } else if targets.len() == 1 {
        Some(0)
    } else {
        None
    }
}

/// The zone in which to stop `instance`: that of the node it stops for, when the
/// node is on Google Cloud with a zone.
pub fn stop_zone(targets: &Vec<(NodeName, NodeConfig)>, instance: &str) -> (r: Option<String>)
    ensures
        opt_view(r) == match stop_target_of(targets@, instance@) {
            Some(i) => match crate::nix::provider_of(targets@[i].1) {
                crate::nix::ProviderView::Gcp { zone, .. } => zone,
                _ => None,
            },
            None => None,
        },
{
    let mut found: Option<usize> = None;
    let mut i: usize = 0;
    while i < targets.len()
        invariant
            i <= targets@.len(),
            found is None ==> forall|j: int| 0 <= j < i ==> targets@[j].0@ != instance@,
            found matches Some(f) ==> f < targets@.len() && targets@[f as int].0@ == instance@ && forall|j: int|
                0 <= j < f ==> targets@[j].0@ != instance@,
        decreases targets@.len() - i,
    {
        if found.is_none() && str_eq(targets[i].0.as_str(), instance) {
            found = Some(i);
        }
        i = i + 1;
    }
    let pick = match found {
        Some(f) => {
            proof {
                let c = choose|c: int| 0 <= c < targets@.len() && #[trigger] targets@[c].0@ == instance@ && forall|j: int|
                    0 <= j < c ==> targets@[j].0@ != instance@;
                assert(0 <= f < targets@.len() && targets@[f as int].0@ == instance@);
                if c < f {
                } else if c > f {
                }
            }
            Some(f)
        },
        None => if targets.len() == 1 {
            Some(0)
        } else {
            None
        },
    };
    match pick {
        Some(k) => {
            let p = targets[k].1.get_provider();
            match p {
                Provider::Gcp { zone, .. } => zone,
                Provider::Ssh => None,
            }
        },
        None => None,
    }
}

/// A `-var` value of `plan`: `name=value`.
pub fn var_arg(name: &str, value: &str) -> (r: String)
    ensures
        r@ == name@ + "="@ + value@,
{
    concat3(name, "=", value)
}

/// The `-target=` argument that selects one resource.
pub fn target_arg(address: &str) -> (r: String)
    ensures
        r@ == "-target="@ + address@,
{
    concat2("-target=", address)
}


/// The `-var` arguments of `plan`, in the order of `vars`.
pub open spec fn var_args(vars: Seq<(String, String)>) -> Seq<Seq<char>>
    decreases vars.len(),
{
    if vars.len() == 0 {
        Seq::empty()
    } else {
        var_args(vars.drop_last()) + seq!["-var"@, vars.last().0@ + "="@ + vars.last().1@]
    }
}

/// The arguments of `plan`: the plan written to `tfplan`, then each variable.
pub fn plan_args(vars: &Vec<(String, String)>) -> (r: Vec<String>)
    ensures
        views(r@) == seq!["plan"@, "-out=tfplan"@] + var_args(vars@),
{
    let mut r: Vec<String> = Vec::new();
    crate::ssh::push_str(&mut r, "plan");
    crate::ssh::push_str(&mut r, "-out=tfplan");
    let mut i: usize = 0;
    while i < vars.len()
        invariant
            i <= vars@.len(),
            views(r@) == seq!["plan"@, "-out=tfplan"@] + var_args(vars@.subrange(0, i as int)),
        decreases vars@.len() - i,
    {
        assert(vars@.subrange(0, i + 1).drop_last() =~= vars@.subrange(0, i as int));
        crate::ssh::push_str(&mut r, "-var");
        crate::ssh::push_string(&mut r, var_arg(vars[i].0.as_str(), vars[i].1.as_str()));
        i = i + 1;
    }
    assert(vars@.subrange(0, vars@.len() as int) =~= vars@);
    r
}

/// What to try after a run of Terraform failed with error output `stderr`:
/// refreshing expired cloud credentials, and, while applying, stopping the
/// instance that an update needs stopped.
pub fn failure_plan(stderr: &str, applying: bool) -> (r: (bool, Option<String>))
    ensures
        r.0 == auth_error(stderr@),
        opt_view(r.1) == (if applying && has_infix(stderr@, "requires stopping it"@) && has_infix(stderr@, "allow_stopping_for_update"@) {
            instance_named(stderr@)
        } else {
            None
        }),
{
    let refresh = stderr_contains_auth_error(stderr);
    let stop = if applying && needs_instance_stop(stderr) {
        instance_to_stop(stderr)
    } else {
        None
    };
    (refresh, stop)
}

/// The question before stopping an instance.
pub fn stop_prompt(instance: &str) -> (r: String)
    ensures
        r@ == "Do you want to stop instance '"@ + instance@ + "' now?"@,
{
    concat3("Do you want to stop instance '", instance, "' now?")
}

} // verus!
