//! The inspector: what the dashboard says about the node or group under the cursor.
use vstd::prelude::*;
use vstd::string::*;

use crate::model::ProvenanceStatus;
use crate::nix::{views, NodeConfig, NodeName};
use crate::text::{concat2, concat3, decimal, decimal_seq, join_seq, join_strings, owned, str_eq, substring};
use crate::tree::names;

verus! {

/// How the provenance of a node's system compares with the local revision.
#[derive(Clone, Copy, Debug, PartialEq, Eq, Structural)]
pub enum Tone {
    /// Deployed from the local revision.
    Good,
    /// Deployed from another revision.
    Bad,
    /// Nothing recorded on the node.
    Unknown,
    /// The node could not be asked.
    Failed,
    /// Still asking.
    Pending,
}

/// The first seven characters of `s`, or all of it.
pub open spec fn short(s: Seq<char>) -> Seq<char> {
    if s.len() > 7 { s.subrange(0, 7) } else { s }
}

/// The first seven characters of `s`.
pub fn short_str(s: &str) -> (r: String)
    ensures
        r@ == short(s@),
{
    let n = s.unicode_len();
    if n > 7 {
        substring(s, 0, 7)
    } else {
        owned(s)
    }
}

/// The remote status, commit and deployer shown for a node, with its tone.
pub open spec fn provenance_summary(p: Option<ProvenanceStatus>, git_rev: Seq<char>) -> (Seq<char>, Seq<char>, Seq<char>, Tone) {
    match p {
        Some(ProvenanceStatus::Verified(prov)) => if prov.commit@ == git_rev {
            ("Synced"@, prov.commit@, prov.deployed_by@, Tone::Good)
        } else {
            ("Outdated/Diverged"@, prov.commit@, prov.deployed_by@, Tone::Bad)
        },
        Some(ProvenanceStatus::NoData) => ("Unknown (No Data)"@, "???"@, "???"@, Tone::Unknown),
        Some(ProvenanceStatus::Error(_)) => ("Connection Failed"@, "???"@, "???"@, Tone::Failed),
        None => ("Fetching..."@, "..."@, "..."@, Tone::Pending),
    }
}

/// Where a node is reached: `user@host`, the user `root` by default, or the
/// local machine.
pub open spec fn host_display(c: NodeConfig) -> Seq<char> {
    match c.target_host {
        Some(h) => (match c.target_user {
            Some(u) => u@,
            None => "root"@,
        }) + "@"@ + h@,
        None => "Local"@,
    }
}

/// The lines of the inspector for a node: label and value each, blank lines
/// between the sections.
pub open spec fn node_lines(name: Seq<char>, config: Option<NodeConfig>, p: Option<ProvenanceStatus>, git_rev: Seq<char>) -> Seq<(Seq<char>, Seq<char>)> {
    match config {
        Some(c) => {
            let (status, commit, by, _) = provenance_summary(p, git_rev);
            let tags = join_seq(views(c.tags@), ", "@);
            seq![
                ("Node: "@, name),
                (""@, ""@),
                ("Remote Status: "@, status),
                ("Remote Commit: "@, if commit == "..."@ { ""@ } else { short(commit) }),
                ("Deployed By: "@, by),
                (""@, ""@),
                ("Target Host: "@, host_display(c)),
                ("Target Port: "@, match c.target_port {
                    Some(port) => decimal_seq(port as nat),
                    None => "22"@,
                }),
                ("Build Location: "@, if c.build_on_target { "On Target"@ } else { "Local / Builder"@ }),
                ("Tags: "@, if tags.len() == 0 { "None"@ } else { tags }),
                (""@, ""@),
                ("Local Revision: "@, short(git_rev)),
            ]
        },
        None => seq![("Node: "@, name), (""@, ""@), ("Status: "@, "Loading metadata..."@)],
    }
}

/// The views of inspector lines.
pub open spec fn line_views(v: Seq<(String, String)>) -> Seq<(Seq<char>, Seq<char>)> {
    v.map_values(|l: (String, String)| (l.0@, l.1@))
}

/// Appends a labelled line.
fn push_line(v: &mut Vec<(String, String)>, label: &str, value: String)
    ensures
        line_views(final(v)@) == line_views(old(v)@).push((label@, value@)),
{
    let ghost before = v@;
    let ghost vv = value@;
    v.push((owned(label), value));
    assert(line_views(v@) =~= line_views(before).push((label@, vv)));
}

/// The inspector's lines for node `name` (see [`node_lines`]), with the tone
/// of its remote status.
pub fn node_inspector(name: &NodeName, config: Option<&NodeConfig>, provenance: Option<&ProvenanceStatus>, git_rev: &str) -> (r: (Vec<(String, String)>, Tone))
    ensures
        line_views(r.0@) == node_lines(name@, match config {
            Some(c) => Some(*c),
            None => None,
        }, match provenance {
            Some(p) => Some(*p),
            None => None,
        }, git_rev@),
        r.1 == provenance_summary(match provenance {
            Some(p) => Some(*p),
            None => None,
        }, git_rev@).3,
{
    let ghost pv = match provenance {
        Some(p) => Some(*p),
        None => None::<ProvenanceStatus>,
    };
    let (status, commit, by, tone): (&str, String, String, Tone) = match provenance {
        Some(ProvenanceStatus::Verified(prov)) => {
            if str_eq(prov.commit.as_str(), git_rev) {
                ("Synced", owned(prov.commit.as_str()), owned(prov.deployed_by.as_str()), Tone::Good)
            } else {
                ("Outdated/Diverged", owned(prov.commit.as_str()), owned(prov.deployed_by.as_str()), Tone::Bad)
            }
        },
        Some(ProvenanceStatus::NoData) => ("Unknown (No Data)", owned("???"), owned("???"), Tone::Unknown),
        Some(ProvenanceStatus::Error(_)) => ("Connection Failed", owned("???"), owned("???"), Tone::Failed),
        None => ("Fetching...", owned("..."), owned("..."), Tone::Pending),
    };
    let ghost sum = provenance_summary(pv, git_rev@);
    assert(status@ == sum.0 && commit@ == sum.1 && by@ == sum.2 && tone == sum.3);
    let mut lines: Vec<(String, String)> = Vec::new();
    push_line(&mut lines, "Node: ", owned(name.as_str()));
    push_line(&mut lines, "", owned(""));
    match config {
        Some(c) => {
            push_line(&mut lines, "Remote Status: ", owned(status));
            let shown = if str_eq(commit.as_str(), "...") { owned("") } else { short_str(commit.as_str()) };
            push_line(&mut lines, "Remote Commit: ", shown);
            push_line(&mut lines, "Deployed By: ", by);
            push_line(&mut lines, "", owned(""));
            let host = match &c.target_host {
                Some(h) => {
                    let user = match &c.target_user {
                        Some(u) => u.as_str(),
                        None => "root",
                    };
                    concat3(user, "@", h.as_str())
                },
                None => owned("Local"),
            };
            push_line(&mut lines, "Target Host: ", host);
            let port = match c.target_port {
                Some(p) => decimal(p as u64),
                None => owned("22"),
            };
            push_line(&mut lines, "Target Port: ", port);
            push_line(&mut lines, "Build Location: ", owned(if c.build_on_target() { "On Target" } else { "Local / Builder" }));
            let tags = join_strings(&c.tags, ", ");
            assert(c.tags@.map_values(|s: String| s@) == views(c.tags@));
            let shown_tags = if tags.as_str().unicode_len() == 0 { owned("None") } else { tags };
            push_line(&mut lines, "Tags: ", shown_tags);
            push_line(&mut lines, "", owned(""));
            push_line(&mut lines, "Local Revision: ", short_str(git_rev));
        },
        None => {
            push_line(&mut lines, "Status: ", owned("Loading metadata..."));
        },
    }
    proof {
        reveal_strlit("");
    }
    assert(line_views(lines@) =~= node_lines(name@, match config {
        Some(c) => Some(*c),
        None => None,
    }, pv, git_rev@));
    (lines, tone)
}

/// The provenance recorded for node `n`: that of its first entry, if any.
pub open spec fn provenance_of(prov: Seq<(NodeName, ProvenanceStatus)>, n: Seq<char>) -> Option<ProvenanceStatus>
    decreases prov.len(),
{
    if prov.len() == 0 {
        None
    } else if prov[0].0@ == n {
        Some(prov[0].1)
    } else {
        provenance_of(prov.drop_first(), n)
    }
}

/// Node `n` runs a system deployed from another revision than `git_rev`.
pub open spec fn is_outdated(prov: Seq<(NodeName, ProvenanceStatus)>, n: Seq<char>, git_rev: Seq<char>) -> bool {
    provenance_of(prov, n) matches Some(ProvenanceStatus::Verified(p)) && p.commit@ != git_rev
}

/// The number of `leaves` that are outdated.
pub open spec fn outdated_count(leaves: Seq<Seq<char>>, prov: Seq<(NodeName, ProvenanceStatus)>, git_rev: Seq<char>) -> nat
    decreases leaves.len(),
{
    if leaves.len() == 0 {
        0
    } else {
        outdated_count(leaves.drop_last(), prov, git_rev) + if is_outdated(prov, leaves.last(), git_rev) {
            1nat
        } else {
            0nat
        }
    }
}

/// Whether node `n` is outdated.
fn outdated(prov: &Vec<(NodeName, ProvenanceStatus)>, n: &NodeName, git_rev: &str) -> (r: bool)
    ensures
        r == is_outdated(prov@, n@, git_rev@),
{
    let mut i: usize = 0;
    assert(prov@.subrange(0, prov@.len() as int) =~= prov@);
    while i < prov.len()
        invariant
            i <= prov@.len(),
            provenance_of(prov@, n@) == provenance_of(prov@.subrange(i as int, prov@.len() as int), n@),
        decreases prov@.len() - i,
    {
        let ghost rest = prov@.subrange(i as int, prov@.len() as int);
        assert(rest.drop_first() =~= prov@.subrange(i + 1, prov@.len() as int));
        if prov[i].0.same(n) {
            return match &prov[i].1 {
                ProvenanceStatus::Verified(p) => !str_eq(p.commit.as_str(), git_rev),
                _ => false,
            };
        }
        i = i + 1;
    }
    false
}

/// The second line of a group's inspector: how many nodes it holds, and how
/// many of them are outdated where some are.
pub open spec fn group_summary(total: nat, outdated: nat) -> Seq<char> {
    "Contains "@ + decimal_seq(total) + " items"@ + if outdated > 0 {
        " ("@ + decimal_seq(outdated) + " outdated!)"@
    } else {
        Seq::empty()
    }
}

/// The number of `leaves` that are outdated (see [`outdated_count`]).
pub fn count_outdated(leaves: &Vec<NodeName>, prov: &Vec<(NodeName, ProvenanceStatus)>, git_rev: &str) -> (r: u64)
    ensures
        r == outdated_count(names(leaves@), prov@, git_rev@),
        r <= leaves@.len(),
{
    let ghost lv = names(leaves@);
    let mut count: u64 = 0;
    let mut i: usize = 0;
    while i < leaves.len()
        invariant
            i <= leaves@.len(),
            lv == names(leaves@),
            count == outdated_count(lv.subrange(0, i as int), prov@, git_rev@),
            count <= i,
        decreases leaves@.len() - i,
    {
        let ghost pre = lv.subrange(0, i + 1);
        assert(pre.drop_last() =~= lv.subrange(0, i as int));
        assert(pre.last() == leaves@[i as int]@);
        if outdated(prov, &leaves[i], git_rev) {
            count = count + 1;
        }
        i = i + 1;
    }
    assert(lv.subrange(0, leaves@.len() as int) =~= lv);
    count
}

/// The inspector's lines for group `name`, whose nodes are `leaves`.
pub fn group_inspector(name: &str, leaves: &Vec<NodeName>, prov: &Vec<(NodeName, ProvenanceStatus)>, git_rev: &str) -> (r: (String, String))
    ensures
        r.0@ == "Group: "@ + name@,
        r.1@ == group_summary(leaves@.len(), outdated_count(names(leaves@), prov@, git_rev@)),
{
    let count = count_outdated(leaves, prov, git_rev);
    let mut second = concat2("Contains ", decimal(leaves.len() as u64).as_str());
    second.append(" items");
    if count > 0 {
        second.append(" (");
        second.append(decimal(count).as_str());
        second.append(" outdated!)");
    }
    (concat2("Group: ", name), second)
}

} // verus!
