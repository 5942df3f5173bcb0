//! What the dashboard draws: the rows of the host list and of the registrant
//! tree, and the texts of the top and bottom bars.
use vstd::prelude::*;
use vstd::string::*;

use crate::inspector::{count_outdated, outdated_count};
use crate::model::{AppMode, MenuAction, MenuActionView, MenuId, MenuItem, ProvenanceStatus, RegistrantTreeItem};
use crate::nix::{views, NodeName, NodeState};
use crate::registrant_tree::{reg_flat_item, reg_flat_list};
use crate::tree::names;
use crate::text::{concat2, concat3, contains_str, decimal, decimal_seq, has_infix, join_seq, join_strings, owned, str_eq};

verus! {

/// `s` repeated `n` times.
pub open spec fn repeat_seq(s: Seq<char>, n: nat) -> Seq<char>
    decreases n,
{
    if n == 0 {
        Seq::empty()
    } else {
        repeat_seq(s, (n - 1) as nat) + s
    }
}

/// `s` repeated `n` times.
pub fn repeat_str(s: &str, n: usize) -> (r: String)
    ensures
        r@ == repeat_seq(s@, n as nat),
{
    let mut r = String::new();
    let mut k: usize = 0;
    while k < n
        invariant
            k <= n,
            r@ == repeat_seq(s@, k as nat),
        decreases n - k,
    {
        r.append(s);
        k = k + 1;
    }
    r
}

/// The indentation of a row of the host list: nothing at the top level, else
/// blank steps for the levels above and a branch, the last one of its group
/// ending the branch.
pub open spec fn row_indent(depth: nat, last: bool) -> Seq<char> {
    if depth > 0 {
        repeat_seq("    "@, (depth - 1) as nat) + if last {
            "└── "@
        } else {
            "├── "@
        }
    } else {
        Seq::empty()
    }
}

/// The indentation of a row of the host list (see [`row_indent`]).
pub fn host_row_indent(depth: usize, last: bool) -> (r: String)
    ensures
        r@ == row_indent(depth as nat, last),
{
    if depth > 0 {
        let mut r = repeat_str("    ", depth - 1);
        r.append(if last { "└── " } else { "├── " });
        r
    } else {
        String::new()
    }
}

/// The number of `leaves` that `sel` holds, each counted as often as it occurs.
pub open spec fn selected_count(leaves: Seq<Seq<char>>, sel: Seq<Seq<char>>) -> nat
    decreases leaves.len(),
{
    if leaves.len() == 0 {
        0
    } else {
        selected_count(leaves.drop_last(), sel) + if sel.contains(leaves.last()) {
            1nat
        } else {
            0nat
        }
    }
}

/// Whether `sel` holds `n`.
pub(crate) fn is_selected(sel: &Vec<NodeName>, n: &NodeName) -> (r: bool)
    ensures
        r == names(sel@).contains(n@),
{
    let mut i: usize = 0;
    while i < sel.len()
        invariant
            i <= sel@.len(),
            forall|k: int| 0 <= k < i ==> sel@[k]@ != n@,
        decreases sel@.len() - i,
    {
        if sel[i].same(n) {
            assert(names(sel@)[i as int] == n@);
            return true;
        }
        i = i + 1;
    }
    assert forall|k: int| 0 <= k < names(sel@).len() implies names(sel@)[k] != n@ by {
        assert(names(sel@)[k] == sel@[k]@);
    }
    false
}

/// The mark of a group: none, all or some of its nodes selected.
pub open spec fn group_check(selected: nat, total: nat) -> Seq<char> {
    if selected == 0 {
        "[ ]"@
    } else if selected == total {
        "[x]"@
    } else {
        "[-]"@
    }
}

/// The row of a group: its fold mark, selection mark, name, node count and,
/// where some are, how many of its nodes are outdated.
pub open spec fn group_row_text(name: Seq<char>, collapsed: bool, selected: nat, total: nat, outdated: nat) -> Seq<char> {
    (if collapsed { "▸"@ } else { "▾"@ }) + " "@ + group_check(selected, total) + " "@ + name + " ("@ + decimal_seq(total)
        + ")"@ + if outdated > 0 {
        " ("@ + decimal_seq(outdated) + " outdated!)"@
    } else {
        Seq::empty()
    }
}

/// The row of group `name`, whose nodes are `leaves`, with the selected
/// nodes `sel` and the known provenance `prov`.
pub fn group_row(
    name: &str,
    collapsed: bool,
    leaves: &Vec<NodeName>,
    sel: &Vec<NodeName>,
    prov: &Vec<(NodeName, ProvenanceStatus)>,
    git_rev: &str,
) -> (r: String)
    ensures
        r@ == group_row_text(
            name@,
            collapsed,
            selected_count(names(leaves@), names(sel@)),
            leaves@.len(),
            outdated_count(names(leaves@), prov@, git_rev@),
        ),
{
    let ghost lv = names(leaves@);
    let mut count: u64 = 0;
    let mut i: usize = 0;
    while i < leaves.len()
        invariant
            i <= leaves@.len(),
            lv == names(leaves@),
            count == selected_count(lv.subrange(0, i as int), names(sel@)),
            count <= i,
        decreases leaves@.len() - i,
    {
        let ghost pre = lv.subrange(0, i + 1);
        assert(pre.drop_last() =~= lv.subrange(0, i as int));
        assert(pre.last() == leaves@[i as int]@);
        if is_selected(sel, &leaves[i]) {
            count = count + 1;
        }
        i = i + 1;
    }
    assert(lv.subrange(0, leaves@.len() as int) =~= lv);
    let total = leaves.len() as u64;
    let outdated = count_outdated(leaves, prov, git_rev);
    let check = if count == 0 {
        "[ ]"
    } else if count == total {
        "[x]"
    } else {
        "[-]"
    };
    let mut r = concat3(if collapsed { "▸" } else { "▾" }, " ", check);
    r.append(" ");
    r.append(name);
    r.append(" (");
    r.append(decimal(total).as_str());
    r.append(")");
    if outdated > 0 {
        r.append(" (");
        r.append(decimal(outdated).as_str());
        r.append(" outdated!)");
    }
    r
}

/// The frames of the spinner shown for work in progress.
pub open spec fn spinner_frame(k: int) -> Seq<char> {
    if k == 0 {
        "⠋"@
    } else if k == 1 {
        "⠙"@
    } else if k == 2 {
        "⠹"@
    } else if k == 3 {
        "⠸"@
    } else if k == 4 {
        "⠼"@
    } else if k == 5 {
        "⠴"@
    } else if k == 6 {
        "⠦"@
    } else if k == 7 {
        "⠧"@
    } else if k == 8 {
        "⠇"@
    } else {
        "⠏"@
    }
}

/// Frame `k` of the spinner, `k` below 10.
pub fn spinner(k: u64) -> (r: &'static str)
    requires
        k < 10,
    ensures
        r@ == spinner_frame(k as int),
{
    if k == 0 {
        "⠋"
    } else if k == 1 {
        "⠙"
    } else if k == 2 {
        "⠹"
    } else if k == 3 {
        "⠸"
    } else if k == 4 {
        "⠼"
    } else if k == 5 {
        "⠴"
    } else if k == 6 {
        "⠦"
    } else if k == 7 {
        "⠧"
    } else if k == 8 {
        "⠇"
    } else {
        "⠏"
    }
}

/// The colour a row or a bar segment is drawn in.
#[derive(Clone, Copy, Debug, PartialEq, Eq, Structural)]
pub enum Shade {
    Plain,
    Gray,
    DarkGray,
    Yellow,
    Green,
    Red,
    Magenta,
    Cyan,
    Blue,
}

/// The colour of a node's state.
pub open spec fn state_shade(s: NodeState) -> Shade {
    match s {
        NodeState::Idle => Shade::Plain,
        NodeState::Loading => Shade::Gray,
        NodeState::Running(_) => Shade::Yellow,
        NodeState::Success(_) => Shade::Green,
        NodeState::Failed(_) => Shade::Red,
    }
}

/// The text after a node's name, and the row's colour: for an idle node, what
/// its provenance says; for a running one, its message; else its state.
pub open spec fn node_status(s: NodeState, p: Option<ProvenanceStatus>, git_rev: Seq<char>) -> (Seq<char>, Shade) {
    match s {
        NodeState::Idle => match p {
            Some(ProvenanceStatus::Verified(prov)) => if prov.commit@ == git_rev {
                ("✔ Synced"@, Shade::Green)
            } else {
                ("✘ Outdated"@, Shade::Red)
            },
            Some(ProvenanceStatus::NoData) => ("? No Metadata"@, Shade::DarkGray),
            Some(ProvenanceStatus::Error(_)) => ("! Unreachable"@, Shade::Magenta),
            None => ("⟳ Checking..."@, Shade::Plain),
        },
        NodeState::Running(m) => (m@, Shade::Yellow),
        _ => (crate::nix::state_text(s), state_shade(s)),
    }
}

/// The row of a node: a spinner while it runs, else its selection mark; its
/// name; its status (see [`node_status`]).
pub open spec fn node_row_text(name: Seq<char>, s: NodeState, selected: bool, p: Option<ProvenanceStatus>, git_rev: Seq<char>, tick: nat) -> Seq<char> {
    (match s {
        NodeState::Running(_) => "["@ + spinner_frame(((tick / 4) % 10) as int) + "]"@,
        _ => if selected {
            "[x]"@
        } else {
            "[ ]"@
        },
    }) + "  "@ + name + "  "@ + node_status(s, p, git_rev).0
}

/// The row of node `name` and its colour (see [`node_row_text`]).
pub fn node_row(
    name: &NodeName,
    state: &NodeState,
    selected: bool,
    provenance: Option<&ProvenanceStatus>,
    git_rev: &str,
    tick: u64,
) -> (r: (String, Shade))
    ensures
        r.0@ == node_row_text(name@, *state, selected, match provenance {
            Some(p) => Some(*p),
            None => None,
        }, git_rev@, tick as nat),
        r.1 == node_status(*state, match provenance {
            Some(p) => Some(*p),
            None => None,
        }, git_rev@).1,
{
    let check = match state {
        NodeState::Running(_) => concat3("[", spinner((tick / 4) % 10), "]"),
        _ => owned(if selected { "[x]" } else { "[ ]" }),
    };
    let (status, shade) = match state {
        NodeState::Idle => match provenance {
            Some(ProvenanceStatus::Verified(prov)) => if str_eq(prov.commit.as_str(), git_rev) {
                (owned("✔ Synced"), Shade::Green)
            } else {
                (owned("✘ Outdated"), Shade::Red)
            },
            Some(ProvenanceStatus::NoData) => (owned("? No Metadata"), Shade::DarkGray),
            Some(ProvenanceStatus::Error(_)) => (owned("! Unreachable"), Shade::Magenta),
            None => (owned("⟳ Checking..."), Shade::Plain),
        },
        NodeState::Running(m) => (m.clone(), Shade::Yellow),
        NodeState::Loading => (owned(state.as_str()), Shade::Gray),
        NodeState::Success(_) => (owned(state.as_str()), Shade::Green),
        NodeState::Failed(_) => (owned(state.as_str()), Shade::Red),
    };
    let mut r = concat3(check.as_str(), "  ", name.as_str());
    r.append("  ");
    r.append(status.as_str());
    (r, shade)
}

/// Whether row `i` lies in the range marked in visual mode, between the
/// anchor and the cursor.
pub open spec fn in_visual(i: nat, anchor: Option<nat>, cursor: nat) -> bool {
    match anchor {
        Some(a) => (if a <= cursor { a } else { cursor }) <= i && i <= (if a <= cursor { cursor } else { a }),
        None => false,
    }
}

/// Whether row `i` is highlighted as part of a visual selection.
pub fn visual_highlight(mode: AppMode, i: usize, anchor: Option<usize>, cursor: usize) -> (r: bool)
    ensures
        r == (mode == AppMode::Visual && in_visual(i as nat, match anchor {
            Some(a) => Some(a as nat),
            None => None,
        }, cursor as nat)),
{
    if mode != AppMode::Visual {
        return false;
    }
    match anchor {
        Some(a) => {
            let start = if a <= cursor { a } else { cursor };
            let end = if a <= cursor { cursor } else { a };
            start <= i && i <= end
        },
        None => false,
    }
}

/// The tab of the top bar that the mode shows.
pub fn tab_index(mode: AppMode) -> (r: usize)
    ensures
        r == match mode {
            AppMode::Registrants => 1usize,
            AppMode::Logs => 2usize,
            _ => 0usize,
        },
{
    match mode {
        AppMode::Registrants => 1,
        AppMode::Logs => 2,
        _ => 0,
    }
}

/// What the bottom bar needs to know of the dashboard.
#[derive(Debug)]
pub struct BarState {
    pub mode: AppMode,
    pub log_popup_open: bool,
    pub show_exit_confirmation: bool,
    pub tree_loading: bool,
    pub use_daemon: bool,
    pub daemon_connected: bool,
    pub flash_message: Option<String>,
    pub tick_count: u64,
}

/// The name of a mode.
pub open spec fn mode_name(m: AppMode) -> Seq<char> {
    match m {
        AppMode::Normal => " NORMAL "@,
        AppMode::Visual => " VISUAL "@,
        AppMode::Diff => " DIFF "@,
        AppMode::Registrants => " REGISTRANTS "@,
        AppMode::Logs => " LOGS "@,
        AppMode::Menu => " MENU "@,
        AppMode::Boot => " BOOT "@,
    }
}

/// The label at the left of the bottom bar: the exit question, the log popup
/// or a refresh in normal mode where one is under way, else the mode.
pub open spec fn mode_label(b: BarState) -> Seq<char> {
    if b.show_exit_confirmation {
        " CONFIRM EXIT "@
    } else if b.mode == AppMode::Normal && b.log_popup_open {
        " LOG POPUP "@
    } else if b.tree_loading && b.mode == AppMode::Normal {
        " REFRESHING "@
    } else {
        mode_name(b.mode)
    }
}

/// The colour of the mode label.
pub open spec fn mode_shade(b: BarState) -> Shade {
    match b.mode {
        AppMode::Visual => Shade::Yellow,
        AppMode::Diff => Shade::Magenta,
        AppMode::Logs => Shade::Green,
        AppMode::Registrants => Shade::Cyan,
        _ => if b.log_popup_open {
            Shade::Green
        } else if b.show_exit_confirmation {
            Shade::Yellow
        } else {
            Shade::Blue
        },
    }
}

/// The daemon's indicator and its colour: on, failed, or off.
pub open spec fn daemon_indicator(use_daemon: bool, connected: bool) -> (Seq<char>, Shade) {
    if use_daemon {
        if connected {
            ("D:ON"@, Shade::Green)
        } else {
            ("D:ERR"@, Shade::Red)
        }
    } else {
        ("D:OFF"@, Shade::Gray)
    }
}

/// The message in the middle of the bottom bar: the flash message where there
/// is one, else the keys that the mode offers.
pub open spec fn bar_message(b: BarState) -> Seq<char> {
    match b.flash_message {
        Some(m) => m@,
        None => match b.mode {
            AppMode::Visual => "Range Select. [Space] Toggle | [Esc] Cancel"@,
            AppMode::Logs => "/ Search | [R] Filter | [s] Wrap | [y] Yank | [Ctrl-L] Stick"@,
            AppMode::Diff => "Scroll [j/k] | [Esc] Close"@,
            _ => if b.show_exit_confirmation {
                "[Enter/y] Yes | [Esc/q/n] No"@
            } else if b.log_popup_open {
                "/ Search | [R] Filter | [s] Wrap | [y] Yank | [L] Close"@
            } else if b.tree_loading {
                spinner_frame(((b.tick_count / 2) % 10) as int) + " Refreshing..."@
            } else {
                "Ready. [Space] Select | [i] Inspect | [d] Deploy | [L] Logs Popup"@
            },
        },
    }
}

impl BarState {
    /// The mode label (see [`mode_label`]) and its colour ([`mode_shade`]).
    pub fn mode_label(&self) -> (r: (&'static str, Shade))
        ensures
            r.0@ == mode_label(*self),
            r.1 == mode_shade(*self),
    {
        let label = if self.show_exit_confirmation {
            " CONFIRM EXIT "
        } else if self.mode == AppMode::Normal && self.log_popup_open {
            " LOG POPUP "
        } else if self.tree_loading && self.mode == AppMode::Normal {
            " REFRESHING "
        } else {
            match self.mode {
                AppMode::Normal => " NORMAL ",
                AppMode::Visual => " VISUAL ",
                AppMode::Diff => " DIFF ",
                AppMode::Registrants => " REGISTRANTS ",
                AppMode::Logs => " LOGS ",
                AppMode::Menu => " MENU ",
                AppMode::Boot => " BOOT ",
            }
        };
        let shade = match self.mode {
            AppMode::Visual => Shade::Yellow,
            AppMode::Diff => Shade::Magenta,
            AppMode::Logs => Shade::Green,
            AppMode::Registrants => Shade::Cyan,
            _ => if self.log_popup_open {
                Shade::Green
            } else if self.show_exit_confirmation {
                Shade::Yellow
            } else {
                Shade::Blue
            },
        };
        (label, shade)
    }

    /// The daemon's indicator (see [`daemon_indicator`]).
    pub fn daemon_indicator(&self) -> (r: (&'static str, Shade))
        ensures
            r.0@ == daemon_indicator(self.use_daemon, self.daemon_connected).0,
            r.1 == daemon_indicator(self.use_daemon, self.daemon_connected).1,
    {
        if self.use_daemon {
            if self.daemon_connected {
                ("D:ON", Shade::Green)
            } else {
                ("D:ERR", Shade::Red)
            }
        } else {
            ("D:OFF", Shade::Gray)
        }
    }

    /// The message of the bottom bar (see [`bar_message`]).
    pub fn message(&self) -> (r: String)
        ensures
            r@ == bar_message(*self),
    {
        match &self.flash_message {
            Some(m) => m.clone(),
            None => match self.mode {
                AppMode::Visual => owned("Range Select. [Space] Toggle | [Esc] Cancel"),
                AppMode::Logs => owned("/ Search | [R] Filter | [s] Wrap | [y] Yank | [Ctrl-L] Stick"),
                AppMode::Diff => owned("Scroll [j/k] | [Esc] Close"),
                _ => if self.show_exit_confirmation {
                    owned("[Enter/y] Yes | [Esc/q/n] No")
                } else if self.log_popup_open {
                    owned("/ Search | [R] Filter | [s] Wrap | [y] Yank | [L] Close")
                } else if self.tree_loading {
                    concat2(spinner((self.tick_count / 2) % 10), " Refreshing...")
                } else {
                    owned("Ready. [Space] Select | [i] Inspect | [d] Deploy | [L] Logs Popup")
                },
            },
        }
    }
}

/// The count of running tasks in the bottom bar: nothing when there is none.
pub open spec fn tasks_text(n: nat) -> Seq<char> {
    if n > 0 {
        "⚙ "@ + decimal_seq(n)
    } else {
        Seq::empty()
    }
}

/// The count of running tasks (see [`tasks_text`]).
pub fn tasks_label(n: usize) -> (r: String)
    ensures
        r@ == tasks_text(n as nat),
{
    if n > 0 {
        concat2("⚙ ", decimal(n as u64).as_str())
    } else {
        String::new()
    }
}

/// The first six characters of the revision, as the bottom bar shows it.
pub fn short_rev(rev: &str) -> (r: String)
    ensures
        r@ == (if rev@.len() > 6 { rev@.subrange(0, 6) } else { rev@ }),
{
    if rev.unicode_len() > 6 {
        crate::text::substring(rev, 0, 6)
    } else {
        owned(rev)
    }
}

/// The exit question's box on a screen of `width` by `height`: 44 by 7,
/// centred where the screen is large enough (x, y, width, height).
pub fn exit_popup_area(width: u16, height: u16) -> (r: (u16, u16, u16, u16))
    ensures
        r.0 == (if width >= 44 { (width - 44) / 2 } else { 0 }),
        r.1 == (if height >= 7 { (height - 7) / 2 } else { 0 }),
        r.2 == 44,
        r.3 == 7,
{
    (width.saturating_sub(44) / 2, height.saturating_sub(7) / 2, 44, 7)
}


/// The mark of an entry that folds: right when folded, down when unfolded.
pub open spec fn fold_arrow(collapsed: bool) -> Seq<char> {
    if collapsed {
        "▶ "@
    } else {
        "▼ "@
    }
}

/// The line of an entry of the registrant tree under `indent`, and the detail
/// shown after it (a domain's expiry date).
pub open spec fn reg_line(t: RegistrantTreeItem, indent: Seq<char>) -> (Seq<char>, Seq<char>) {
    match t {
        RegistrantTreeItem::Provider { name, collapsed, .. } => (indent + fold_arrow(collapsed) + name@, Seq::empty()),
        RegistrantTreeItem::Account { name, collapsed, .. } => (indent + fold_arrow(collapsed) + name@, Seq::empty()),
        RegistrantTreeItem::Domain { info, collapsed, .. } => (
            indent + fold_arrow(collapsed) + info.domain@,
            " (Exp: "@ + (match info.expiry_date {
                Some(d) => d@,
                None => "N/A"@,
            }) + ")"@,
        ),
        RegistrantTreeItem::RecordGroup { name, collapsed, .. } => (indent + fold_arrow(collapsed) + name@, Seq::empty()),
        RegistrantTreeItem::DnsRecord { record } => (
            indent + "  "@ + record.record_type@ + " "@ + record.name@ + " "@ + record.content@ + " (TTL: "@ + record.ttl@
                + ")"@,
            Seq::empty(),
        ),
        RegistrantTreeItem::GlueRecord { record } => (
            indent + "  "@ + record.host@ + " [v4: "@ + join_seq(views(record.ips.v4@), ", "@) + "] [v6: "@ + join_seq(
                views(record.ips.v6@),
                ", "@,
            ) + "]"@,
            Seq::empty(),
        ),
        RegistrantTreeItem::Message { text } => (indent + "  "@ + text@, Seq::empty()),
    }
}

/// The lines shown for an entry and, where it is unfolded, its children one
/// step further in.
pub open spec fn reg_lines_item(t: RegistrantTreeItem, indent: Seq<char>) -> Seq<(Seq<char>, Seq<char>)>
    decreases t, 0int,
{
    seq![reg_line(t, indent)] + match t {
        RegistrantTreeItem::Provider { children, collapsed, .. } => if collapsed {
            Seq::empty()
        } else {
            reg_lines_list(children@, 0, indent + "  "@)
        },
        RegistrantTreeItem::Account { children, collapsed, .. } => if collapsed {
            Seq::empty()
        } else {
            reg_lines_list(children@, 0, indent + "  "@)
        },
        RegistrantTreeItem::Domain { children, collapsed, .. } => if collapsed {
            Seq::empty()
        } else {
            reg_lines_list(children@, 0, indent + "  "@)
        },
        RegistrantTreeItem::RecordGroup { children, collapsed, .. } => if collapsed {
            Seq::empty()
        } else {
            reg_lines_list(children@, 0, indent + "  "@)
        },
        _ => Seq::empty(),
    }
}

/// The lines shown for `s[i..]`.
pub open spec fn reg_lines_list(s: Seq<RegistrantTreeItem>, i: int, indent: Seq<char>) -> Seq<(Seq<char>, Seq<char>)>
    decreases s, s.len() - i,
{
    if 0 <= i < s.len() {
        reg_lines_item(s[i], indent) + reg_lines_list(s, i + 1, indent)
    } else {
        Seq::empty()
    }
}

/// The views of pairs of strings.
pub open spec fn pair_views(v: Seq<(String, String)>) -> Seq<(Seq<char>, Seq<char>)> {
    v.map_values(|p: (String, String)| (p.0@, p.1@))
}

/// The line of one entry.
fn reg_line_of(t: &RegistrantTreeItem, indent: &str) -> (r: (String, String))
    ensures
        (r.0@, r.1@) == reg_line(*t, indent@),
{
    match t {
        RegistrantTreeItem::Provider { name, collapsed, .. } => (concat3(indent, if *collapsed { "▶ " } else { "▼ " }, name.as_str()), String::new()),
        RegistrantTreeItem::Account { name, collapsed, .. } => (concat3(indent, if *collapsed { "▶ " } else { "▼ " }, name.as_str()), String::new()),
        RegistrantTreeItem::Domain { info, collapsed, .. } => {
            let expiry = match &info.expiry_date {
                Some(d) => d.as_str(),
                None => "N/A",
            };
            (concat3(indent, if *collapsed { "▶ " } else { "▼ " }, info.domain.as_str()), concat3(" (Exp: ", expiry, ")"))
        },
        RegistrantTreeItem::RecordGroup { name, collapsed, .. } => (concat3(indent, if *collapsed { "▶ " } else { "▼ " }, name.as_str()), String::new()),
        RegistrantTreeItem::DnsRecord { record } => {
            let mut l = concat3(indent, "  ", record.record_type.as_str());
            l.append(" ");
            l.append(record.name.as_str());
            l.append(" ");
            l.append(record.content.as_str());
            l.append(" (TTL: ");
            l.append(record.ttl.as_str());
            l.append(")");
            (l, String::new())
        },
        RegistrantTreeItem::GlueRecord { record } => {
            let v4 = join_strings(&record.ips.v4, ", ");
            let v6 = join_strings(&record.ips.v6, ", ");
            let mut l = concat3(indent, "  ", record.host.as_str());
            l.append(" [v4: ");
            l.append(v4.as_str());
            l.append("] [v6: ");
            l.append(v6.as_str());
            l.append("]");
            (l, String::new())
        },
        RegistrantTreeItem::Message { text } => (concat3(indent, "  ", text.as_str()), String::new()),
    }
}

/// Appends the lines shown for `items` under `indent` to `out`.
fn reg_lines_into(items: &Vec<RegistrantTreeItem>, indent: &str, out: &mut Vec<(String, String)>)
    ensures
        pair_views(final(out)@) == pair_views(old(out)@) + reg_lines_list(items@, 0, indent@),
    decreases items@,
{
    let ghost start = pair_views(out@);
    let inner = concat2(indent, "  ");
    let mut i: usize = 0;
    assert(pair_views(out@) + reg_lines_list(items@, 0, indent@) =~= start + reg_lines_list(items@, 0, indent@));
    while i < items.len()
        invariant
            i <= items@.len(),
            inner@ == indent@ + "  "@,
            pair_views(out@) + reg_lines_list(items@, i as int, indent@) == start + reg_lines_list(items@, 0, indent@),
        decreases items@.len() - i,
    {
        let item = &items[i];
        let ghost before = pair_views(out@);
        let line = reg_line_of(item, indent);
        out.push(line);
        assert(pair_views(out@) =~= before.push(reg_line(items@[i as int], indent@)));
        proof {
            assert(decreases_to!(items@ => items@[i as int]));
        }
        let ghost mid = pair_views(out@);
        match item {
            RegistrantTreeItem::Provider { children, collapsed, .. } => if !*collapsed {
                reg_lines_into(children, inner.as_str(), out);
            },
            RegistrantTreeItem::Account { children, collapsed, .. } => if !*collapsed {
                reg_lines_into(children, inner.as_str(), out);
            },
            RegistrantTreeItem::Domain { children, collapsed, .. } => if !*collapsed {
                reg_lines_into(children, inner.as_str(), out);
            },
            RegistrantTreeItem::RecordGroup { children, collapsed, .. } => if !*collapsed {
                reg_lines_into(children, inner.as_str(), out);
            },
            _ => {},
        }
        assert(pair_views(out@) =~= before + reg_lines_item(items@[i as int], indent@));
        assert(reg_lines_list(items@, i as int, indent@) == reg_lines_item(items@[i as int], indent@) + reg_lines_list(
            items@,
            i + 1,
            indent@,
        ));
        assert(pair_views(out@) + reg_lines_list(items@, i + 1, indent@) =~= before + reg_lines_list(items@, i as int, indent@));
        i = i + 1;
    }
    assert(reg_lines_list(items@, items@.len() as int, indent@) =~= Seq::empty());
    assert(pair_views(out@) =~= start + reg_lines_list(items@, 0, indent@));
}

/// The lines of the registrant tree as shown, one per shown entry (see
/// [`reg_lines_list`]): text and detail.
pub fn registrant_lines(tree: &Vec<RegistrantTreeItem>) -> (r: Vec<(String, String)>)
    ensures
        pair_views(r@) == reg_lines_list(tree@, 0, Seq::empty()),
{
    let mut out: Vec<(String, String)> = Vec::new();
    reg_lines_into(tree, "", &mut out);
    proof {
        assert(""@ =~= Seq::<char>::empty()) by {
            reveal_strlit("");
        }
    }
    assert(pair_views(out@) =~= reg_lines_list(tree@, 0, Seq::empty()));
    out
}

/// What the registrant view shows when it has no lines: that domains are
/// loading, that no registrant is configured, or that none was found.
pub open spec fn registrants_notice(loading: bool, configured: bool, empty: bool) -> Option<Seq<char>> {
    if loading {
        Some("Loading domains..."@)
    } else if empty {
        Some(if configured { "No domains found."@ } else { "No registrants configured in meta.registrants."@ })
    } else {
        None
    }
}

/// The notice of the registrant view (see [`registrants_notice`]).
pub fn registrants_notice_text(loading: bool, configured: bool, empty: bool) -> (r: Option<&'static str>)
    ensures
        match r {
            Some(t) => registrants_notice(loading, configured, empty) == Some(t@),
            None => registrants_notice(loading, configured, empty) is None,
        },
{
    if loading {
        Some("Loading domains...")
    } else if empty {
        Some(if configured { "No domains found." } else { "No registrants configured in meta.registrants." })
    } else {
        None
    }
}


/// An entry shows as many lines as it has shown rows.
proof fn lemma_item_lines_len(t: RegistrantTreeItem, indent: Seq<char>)
    ensures
        reg_lines_item(t, indent).len() == reg_flat_item(t).len(),
    decreases t, 0int,
{
    match t {
        RegistrantTreeItem::Provider { children, .. } => lemma_list_lines_len(children@, 0, indent + "  "@),
        RegistrantTreeItem::Account { children, .. } => lemma_list_lines_len(children@, 0, indent + "  "@),
        RegistrantTreeItem::Domain { children, .. } => lemma_list_lines_len(children@, 0, indent + "  "@),
        RegistrantTreeItem::RecordGroup { children, .. } => lemma_list_lines_len(children@, 0, indent + "  "@),
        _ => {},
    }
}

proof fn lemma_list_lines_len(s: Seq<RegistrantTreeItem>, i: int, indent: Seq<char>)
    ensures
        reg_lines_list(s, i, indent).len() == reg_flat_list(s, i).len(),
    decreases s, s.len() - i,
{
    if 0 <= i < s.len() {
        lemma_item_lines_len(s[i], indent);
        lemma_list_lines_len(s, i + 1, indent);
    }
}

/// The registrant view shows one line for each entry of the flattened tree, in
/// the same order, so a row index means the same entry in both.
pub proof fn lemma_registrant_lines_match_rows(tree: Seq<RegistrantTreeItem>)
    ensures
        reg_lines_list(tree, 0, Seq::empty()).len() == reg_flat_list(tree, 0).len(),
{
    lemma_list_lines_len(tree, 0, Seq::empty());
}


/// The line of a menu entry: its check box where it switches a setting, an
/// arrow where it opens a submenu, else a blank.
pub open spec fn menu_line(checked: Option<bool>, action: MenuActionView, label: Seq<char>) -> Seq<char> {
    (match checked {
        Some(true) => "[x] "@,
        Some(false) => "[ ] "@,
        None => match action {
            MenuActionView::Navigate(_) => "> "@,
            _ => "  "@,
        },
    }) + label
}

/// The line of a menu entry (see [`menu_line`]).
pub fn menu_item_line(item: &MenuItem) -> (r: String)
    ensures
        r@ == menu_line(item.checked, item.action@, item.label@),
{
    let prefix = match item.checked {
        Some(true) => "[x] ",
        Some(false) => "[ ] ",
        None => match item.action {
            MenuAction::Navigate(_) => "> ",
            _ => "  ",
        },
    };
    concat2(prefix, item.label.as_str())
}

/// The title of a menu.
pub fn menu_title(id: MenuId) -> (r: &'static str)
    ensures
        r@ == match id {
            MenuId::Main => "Main Menu"@,
            MenuId::DeploySettings => "Deploy Settings"@,
            MenuId::NodeContext => "Node Operations"@,
            MenuId::GarbageCollectInterval => "GC Interval"@,
        },
{
    match id {
        MenuId::Main => "Main Menu",
        MenuId::DeploySettings => "Deploy Settings",
        MenuId::NodeContext => "Node Operations",
        MenuId::GarbageCollectInterval => "GC Interval",
    }
}

/// The colour of a line of a diff: additions green, removals red.
pub open spec fn diff_line_shade(l: Seq<char>) -> Shade {
    if (l.len() > 0 && l[0] == '+') || has_infix(l, " > "@) {
        Shade::Green
    } else if (l.len() > 0 && l[0] == '-') || has_infix(l, " < "@) {
        Shade::Red
    } else {
        Shade::Plain
    }
}

/// The colour of a line of a diff (see [`diff_line_shade`]).
pub fn diff_line_color(l: &str) -> (r: Shade)
    ensures
        r == diff_line_shade(l@),
{
    let n = l.unicode_len();
    if (n > 0 && l.get_char(0) == '+') || contains_str(l, " > ") {
        Shade::Green
    } else if (n > 0 && l.get_char(0) == '-') || contains_str(l, " < ") {
        Shade::Red
    } else {
        Shade::Plain
    }
}

/// The scroll offset of the diff view: the one asked for, but no further than
/// where the last line reaches the bottom of a view `height` lines high.
pub fn diff_scroll(offset: usize, total_lines: usize, height: usize) -> (r: usize)
    ensures
        r == (if offset > (if total_lines >= height { total_lines - height } else { 0 }) {
            (if total_lines >= height { total_lines - height } else { 0 }) as usize
        } else {
            offset
        }),
{
    let max_scroll = total_lines.saturating_sub(height);
    if offset > max_scroll {
        max_scroll
    } else {
        offset
    }
}

} // verus!
