//! How the dashboard's state follows the events it receives: progress lines,
//! loaded configurations and records, mouse clicks and wheel turns.
use vstd::prelude::*;
use vstd::string::*;

use crate::model::{AppMode, ProvenanceStatus, RegistrantTreeItem};
use crate::nix::{clone_strings, opt_view, views, NodeConfig, NodeName, NodeState};
use crate::registrants::{PorkbunDnsRecord, PorkbunGlueRecord};
use crate::ssh::{push_str, push_string};
use crate::text::{concat2, concat3, contains_str, decimal, decimal_seq, has_infix, owned, str_eq, substring, trim_seq, trim_str};
use crate::tree::names;

verus! {

/// The kind of a progress line.
#[derive(Clone, Copy, Debug, PartialEq, Eq, Structural)]
pub enum LineStyle {
    Normal,
    Success,
    SuccessNoop,
    Failure,
}

/// The short status that a progress line of a node announces, if any.
pub open spec fn short_status(text: Seq<char>) -> Option<Seq<char>> {
    if has_infix(text, "copying path"@) || has_infix(text, "copying closure"@) {
        Some("Copying..."@)
    } else if has_infix(text, "building"@) {
        Some("Building..."@)
    } else if has_infix(text, "switching to configuration"@) {
        Some("Activating..."@)
    } else if has_infix(text, "waiting for lock"@) {
        Some("Waiting..."@)
    } else if has_infix(text, "evalulating"@) {
        Some("Evaluating..."@)
    } else {
        None
    }
}

/// The state after a progress line, as its view: the variant and the text.
pub open spec fn state_view(s: NodeState) -> (int, Seq<char>) {
    match s {
        NodeState::Idle => (0, Seq::empty()),
        NodeState::Loading => (1, Seq::empty()),
        NodeState::Running(t) => (2, t@),
        NodeState::Success(t) => (3, t@),
        NodeState::Failed(t) => (4, t@),
    }
}

/// The state of a node after one of its progress lines, as its view: success
/// or failure with the line's text where the line says so; else running, with
/// the status the line announces, or the one it had while running, or a plain one.
pub open spec fn next_state_view(style: LineStyle, text: Seq<char>, current: NodeState) -> (int, Seq<char>) {
    match style {
        LineStyle::Success | LineStyle::SuccessNoop => (3, text),
        LineStyle::Failure => (4, text),
        LineStyle::Normal => match short_status(text) {
            Some(s) => (2, s),
            None => match current {
                NodeState::Running(prev) => (2, prev@),
                _ => (2, "Running..."@),
            },
        },
    }
}

/// The short status of a progress line (see [`short_status`]).
pub fn line_status(text: &str) -> (r: Option<&'static str>)
    ensures
        match r {
            Some(s) => short_status(text@) == Some(s@),
            None => short_status(text@) is None,
        },
{
    if contains_str(text, "copying path") || contains_str(text, "copying closure") {
        Some("Copying...")
    } else if contains_str(text, "building") {
        Some("Building...")
    } else if contains_str(text, "switching to configuration") {
        Some("Activating...")
    } else if contains_str(text, "waiting for lock") {
        Some("Waiting...")
    } else if contains_str(text, "evalulating") {
        Some("Evaluating...")
    } else {
        None
    }
}

/// The state of a node after one of its progress lines (see [`next_state_view`]).
pub fn next_state(style: LineStyle, text: &str, current: &NodeState) -> (r: NodeState)
    ensures
        state_view(r) == next_state_view(style, text@, *current),
{
    match style {
        LineStyle::Success | LineStyle::SuccessNoop => NodeState::Success(owned(text)),
        LineStyle::Failure => NodeState::Failed(owned(text)),
        LineStyle::Normal => match line_status(text) {
            Some(s) => NodeState::Running(owned(s)),
            None => match current {
                NodeState::Running(prev) => NodeState::Running(prev.clone()),
                _ => NodeState::Running(owned("Running...")),
            },
        },
    }
}

/// Whether a state ends a deployment of the node, so that its time is noted
/// and the cache saved.
pub fn is_settled(s: &NodeState) -> (r: bool)
    ensures
        r == (s is Success || s is Failed),
{
    match s {
        NodeState::Success(_) | NodeState::Failed(_) => true,
        _ => false,
    }
}

/// The node a progress line belongs to: the one its label names, where that
/// is one of the known nodes.
pub fn line_node(label: &str, all_nodes: &Vec<NodeName>) -> (r: Option<NodeName>)
    ensures
        match r {
            Some(n) => n@ == label@ && label@.len() > 0 && names(all_nodes@).contains(label@),
            None => label@.len() == 0 || !names(all_nodes@).contains(label@),
        },
{
    if label.unicode_len() == 0 {
        return None;
    }
    let mut i: usize = 0;
    while i < all_nodes.len()
        invariant
            i <= all_nodes@.len(),
            label@.len() > 0,
            forall|k: int| 0 <= k < i ==> all_nodes@[k]@ != label@,
        decreases all_nodes@.len() - i,
    {
        if str_eq(all_nodes[i].as_str(), label) {
            assert(names(all_nodes@)[i as int] == label@);
            return Some(all_nodes[i].clone());
        }
        i = i + 1;
    }
    assert forall|k: int| 0 <= k < names(all_nodes@).len() implies names(all_nodes@)[k] != label@ by {
        assert(names(all_nodes@)[k] == all_nodes@[k]@);
    }
    None
}

/// A line of the global log: the label, a bar, the text.
pub fn global_log_line(label: &str, text: &str) -> (r: String)
    ensures
        r@ == label@ + " | "@ + text@,
{
    concat3(label, " | ", text)
}

/// The state of a node whose configuration arrived: a node that was loading
/// becomes idle, as does one with no state yet; other states are kept.
pub fn state_after_config(current: Option<&NodeState>) -> (r: Option<NodeState>)
    ensures
        match current {
            None => r == Some(NodeState::Idle),
            Some(s) => if *s is Loading { r == Some(NodeState::Idle) } else { r is None },
        },
{
    match current {
        None => Some(NodeState::Idle),
        Some(NodeState::Loading) => Some(NodeState::Idle),
        Some(_) => None,
    }
}

/// Seconds until a node's provenance is asked for again: ten after a failure,
/// a minute otherwise.
pub fn provenance_refresh_secs(status: &ProvenanceStatus) -> (r: u64)
    ensures
        r == (if *status is Error { 10u64 } else { 60u64 }),
{
    match status {
        ProvenanceStatus::Error(_) => 10,
        _ => 60,
    }
}

/// The tag keys along which the hosts are grouped: those of the
/// configuration, else `category`, `environment`, `hostgroup`.
pub fn hierarchy_keys(configured: &Option<Vec<String>>) -> (r: Vec<String>)
    ensures
        views(r@) == match configured {
            Some(h) => views(h@),
            None => seq!["category"@, "environment"@, "hostgroup"@],
        },
{
    match configured {
        Some(h) => clone_strings(h),
        None => {
            let mut r: Vec<String> = Vec::new();
            push_str(&mut r, "category");
            push_str(&mut r, "environment");
            push_str(&mut r, "hostgroup");
            r
        },
    }
}

/// Where an interactive SSH session to a node goes: `localhost` for a node
/// without a remote host, else the user (`root` by default) at the host.
pub open spec fn session_target(c: NodeConfig) -> Seq<char> {
    let host = match c.target_host {
        Some(h) => h@,
        None => "localhost"@,
    };
    if host == "localhost"@ {
        "localhost"@
    } else {
        (match c.target_user {
            Some(u) => u@,
            None => "root"@,
        }) + "@"@ + host
    }
}

/// The target of an interactive SSH session (see [`session_target`]).
pub fn ssh_session_target(config: &NodeConfig) -> (r: String)
    ensures
        r@ == session_target(*config),
{
    let host = match &config.target_host {
        Some(h) => h.as_str(),
        None => "localhost",
    };
    if str_eq(host, "localhost") {
        owned("localhost")
    } else {
        let user = match &config.target_user {
            Some(u) => u.as_str(),
            None => "root",
        };
        concat3(user, "@", host)
    }
}

/// The arguments of `ssh` for an interactive session: a terminal forced, the
/// host's options without the one that turns the terminal off, the target.
pub fn interactive_ssh_args(options: &Vec<String>, target: &str) -> (r: Vec<String>)
    ensures
        views(r@) == seq!["-t"@] + views(options@).filter(|o: Seq<char>| o != "-T"@) + seq![target@],
{
    let mut r: Vec<String> = Vec::new();
    push_str(&mut r, "-t");
    let ghost all = views(options@);
    let mut i: usize = 0;
    while i < options.len()
        invariant
            i <= options@.len(),
            all == views(options@),
            views(r@) == seq!["-t"@] + all.subrange(0, i as int).filter(|o: Seq<char>| o != "-T"@),
        decreases options@.len() - i,
    {
        let ghost pre = all.subrange(0, i + 1);
        assert(pre.drop_last() =~= all.subrange(0, i as int));
        assert(pre.last() == options@[i as int]@);
        proof {
            reveal(Seq::filter);
        }
        if !str_eq(options[i].as_str(), "-T") {
            push_string(&mut r, options[i].clone());
        }
        i = i + 1;
    }
    assert(all.subrange(0, options@.len() as int) =~= all);
    push_str(&mut r, target);
    r
}

/// The mode that a click on the tab bar at `column` switches to: hosts,
/// registrants (where some are configured) or logs.
pub open spec fn tab_at(column: int, registrants: bool) -> Option<AppMode> {
    if column < 11 {
        Some(AppMode::Normal)
    } else if column < 26 {
        if registrants { Some(AppMode::Registrants) } else { None }
    } else if column < 36 {
        Some(AppMode::Logs)
    } else {
        None
    }
}

/// The mode a click on the tab bar switches to (see [`tab_at`]).
pub fn tab_click(column: u16, registrants_configured: bool) -> (r: Option<AppMode>)
    ensures
        r == tab_at(column as int, registrants_configured),
{
    if column < 11 {
        Some(AppMode::Normal)
    } else if column < 26 {
        if registrants_configured {
            Some(AppMode::Registrants)
        } else {
            None
        }
    } else if column < 36 {
        Some(AppMode::Logs)
    } else {
        None
    }
}

/// A rectangle of the screen: column, row, width, height.
#[derive(Clone, Copy, Debug, PartialEq, Eq, Structural)]
pub struct Area {
    pub x: u16,
    pub y: u16,
    pub width: u16,
    pub height: u16,
}

/// Whether the cell at `column`, `row` lies in `a`.
pub fn area_contains(a: Area, column: u16, row: u16) -> (r: bool)
    ensures
        r == (a.x <= column && column < a.x + a.width && a.y <= row && row < a.y + a.height),
{
    let right = a.x as u32 + a.width as u32;
    let bottom = a.y as u32 + a.height as u32;
    a.x <= column && (column as u32) < right && a.y <= row && (row as u32) < bottom
}

/// The log view in full screen: everything between the top and bottom bars.
pub fn logs_area(width: u16, height: u16) -> (r: Area)
    ensures
        r == (Area { x: 0, y: 1, width, height: if height >= 2 { (height - 2) as u16 } else { 0 } }),
{
    Area { x: 0, y: 1, width, height: height.saturating_sub(2) }
}

/// The log offset after a turn of the wheel over the logs, and whether the view
/// sticks to the newest line afterwards: three lines down toward the newest
/// (sticking once there), or three up (no longer sticking).
pub fn wheel_scroll(offset: usize, stick: bool, down: bool) -> (r: (usize, bool))
    ensures
        down ==> r.0 == (if offset >= 3 { offset - 3 } else { 0 }) && r.1 == (stick || r.0 == 0),
        !down ==> r.0 == (if offset + 3 <= usize::MAX { offset + 3 } else { usize::MAX as int }) && !r.1,
{
    if down {
        let o = offset.saturating_sub(3);
        (o, stick || o == 0)
    } else {
        (offset.saturating_add(3), false)
    }
}

/// The log offset while a selection is dragged past the log pane: one line
/// older above it, one line newer below it.
pub fn drag_scroll(offset: usize, row: u16, pane: Area) -> (r: usize)
    ensures
        r == (if row < pane.y {
            (if offset + 1 <= usize::MAX { offset + 1 } else { usize::MAX as int }) as usize
        } else if row > pane.y + pane.height {
            (if offset >= 1 { offset - 1 } else { 0 }) as usize
        } else {
            offset
        }),
{
    if row < pane.y {
        offset.saturating_add(1)
    } else if (row as u32) > pane.y as u32 + pane.height as u32 {
        offset.saturating_sub(1)
    } else {
        offset
    }
}

/// The entries shown under a record group once its records arrived: an
/// error, the records, or a message that there are none.
pub open spec fn loaded_entries_ok(
    r: Seq<RegistrantTreeItem>,
    dns: Option<Seq<PorkbunDnsRecord>>,
    glue: Option<Seq<PorkbunGlueRecord>>,
    error: Option<Seq<char>>,
) -> bool {
    match error {
        Some(e) => r.len() == 1 && (r[0] matches RegistrantTreeItem::Message { text } && text@ == "Error: "@ + e),
        None => match dns {
            Some(d) => if d.len() == 0 {
                r.len() == 1 && (r[0] matches RegistrantTreeItem::Message { text } && text@ == "No records found."@)
            } else {
                r.len() == d.len() && forall|i: int| 0 <= i < d.len() ==> (#[trigger] r[i] matches RegistrantTreeItem::DnsRecord {
                    record,
                } && record == d[i])
            },
            None => match glue {
                Some(g) => if g.len() == 0 {
                    r.len() == 1 && (r[0] matches RegistrantTreeItem::Message { text } && text@ == "No glue records found."@)
                } else {
                    r.len() == g.len() && forall|i: int| 0 <= i < g.len() ==> (#[trigger] r[i] matches RegistrantTreeItem::GlueRecord {
                        record,
                    } && record == g[i])
                },
                None => r.len() == 1 && (r[0] matches RegistrantTreeItem::Message { text } && text@ == "No data"@),
            },
        },
    }
}

/// A single message entry.
fn message_entry(text: String) -> (r: Vec<RegistrantTreeItem>)
    ensures
        r@.len() == 1,
        r@[0] matches RegistrantTreeItem::Message { text: t } && t@ == text@,
{
    let mut r: Vec<RegistrantTreeItem> = Vec::new();
    r.push(RegistrantTreeItem::Message { text });
    r
}

/// The entries for a record group from what the fetch returned (see [`loaded_entries_ok`]).
pub fn loaded_entries(dns: Option<Vec<PorkbunDnsRecord>>, glue: Option<Vec<PorkbunGlueRecord>>, error: Option<String>) -> (r: Vec<RegistrantTreeItem>)
    ensures
        loaded_entries_ok(r@, match dns {
            Some(d) => Some(d@),
            None => None,
        }, match glue {
            Some(g) => Some(g@),
            None => None,
        }, opt_view(error)),
{
    match error {
        Some(e) => message_entry(concat2("Error: ", e.as_str())),
        None => match dns {
            Some(d) => {
                if d.len() == 0 {
                    message_entry(owned("No records found."))
                } else {
                    let ghost dv = d@;
                    let mut rest = d;
                    let mut r: Vec<RegistrantTreeItem> = Vec::new();
                    let ghost mut k: int = 0;
                    while rest.len() > 0
                        invariant
                            0 <= k <= dv.len(),
                            rest@ == dv.subrange(k, dv.len() as int),
                            r@.len() == k,
                            forall|i: int| 0 <= i < k ==> (#[trigger] r@[i] matches RegistrantTreeItem::DnsRecord { record } && record
                                == dv[i]),
                        decreases rest@.len(),
                    {
                        let rec = rest.remove(0);
                        r.push(RegistrantTreeItem::DnsRecord { record: rec });
                        proof {
                            k = k + 1;
                            assert(rest@ =~= dv.subrange(k, dv.len() as int));
                        }
                    }
                    r
                }
            },
            None => match glue {
                Some(g) => {
                    if g.len() == 0 {
                        message_entry(owned("No glue records found."))
                    } else {
                        let ghost gv = g@;
                        let mut rest = g;
                        let mut r: Vec<RegistrantTreeItem> = Vec::new();
                        let ghost mut k: int = 0;
                        while rest.len() > 0
                            invariant
                                0 <= k <= gv.len(),
                                rest@ == gv.subrange(k, gv.len() as int),
                                r@.len() == k,
                                forall|i: int| 0 <= i < k ==> (#[trigger] r@[i] matches RegistrantTreeItem::GlueRecord { record } && record
                                    == gv[i]),
                            decreases rest@.len(),
                        {
                            let rec = rest.remove(0);
                            r.push(RegistrantTreeItem::GlueRecord { record: rec });
                            proof {
                                k = k + 1;
                                assert(rest@ =~= gv.subrange(k, gv.len() as int));
                            }
                        }
                        r
                    }
                },
                None => message_entry(owned("No data")),
            },
        },
    }
}

/// A line of the log for a failed registrant fetch.
pub fn registrant_error_line(e: &str) -> (r: String)
    ensures
        r@ == "[Registrants Error] "@ + e@,
{
    concat2("[Registrants Error] ", e)
}

/// The Porkbun credentials from the outputs of the two key commands: both
/// trimmed, and only where neither is empty.
pub fn porkbun_credentials(api_key_output: Option<&str>, secret_output: Option<&str>) -> (r: Option<(String, String)>)
    ensures
        match r {
            Some((a, s)) => api_key_output is Some && secret_output is Some && a@ == trim_seq(api_key_output->0@) && s@
                == trim_seq(secret_output->0@) && a@.len() > 0 && s@.len() > 0,
            None => api_key_output is None || secret_output is None || trim_seq(api_key_output->0@).len() == 0 || trim_seq(
                secret_output->0@,
            ).len() == 0,
        },
{
    match (api_key_output, secret_output) {
        (Some(a), Some(s)) => {
            let a = trim_str(a);
            let s = trim_str(s);
            if a.unicode_len() > 0 && s.unicode_len() > 0 {
                Some((a, s))
            } else {
                None
            }
        },
        _ => None,
    }
}


/// A note that a job posts to the dashboard's log or task list.
#[derive(Debug)]
pub enum JobNote {
    DeploymentTask(usize),
    GcTask(usize),
    DeploymentProceeds(usize),
    GcProceeds(usize),
    GcStarts(Option<String>),
    DeploymentError(String),
    SelectionError(String),
    HiveError(String),
    GcDone,
    GcFailed(String),
    DaemonDeployFailed(String),
    DaemonDiffFailed(String),
    DaemonGcFailed(String),
}

/// The text of a job's note.
pub open spec fn note_text(n: JobNote) -> Seq<char> {
    match n {
        JobNote::DeploymentTask(k) => "Deployment ("@ + decimal_seq(k as nat) + " nodes)"@,
        JobNote::GcTask(k) => "GC ("@ + decimal_seq(k as nat) + " nodes)"@,
        JobNote::DeploymentProceeds(k) => "Deployment will proceed for "@ + decimal_seq(k as nat) + " filtered node(s)."@,
        JobNote::GcProceeds(k) => "GC will proceed for "@ + decimal_seq(k as nat) + " filtered node(s)."@,
        JobNote::GcStarts(i) => "Starting Garbage Collection ("@ + (match i {
            Some(x) => x@,
            None => "all old"@,
        }) + ")..."@,
        JobNote::DeploymentError(e) => "Deployment error: "@ + e@,
        JobNote::SelectionError(e) => "Selection error: "@ + e@,
        JobNote::HiveError(e) => "Hive error: "@ + e@,
        JobNote::GcDone => "Garbage collection completed."@,
        JobNote::GcFailed(e) => "GC Failed: "@ + e@,
        JobNote::DaemonDeployFailed(e) => "Failed to start deployment via daemon: "@ + e@,
        JobNote::DaemonDiffFailed(e) => "Failed to start diff via daemon: "@ + e@,
        JobNote::DaemonGcFailed(e) => "Failed to start GC via daemon: "@ + e@,
    }
}

/// The text of a job's note (see [`note_text`]).
pub fn note(n: &JobNote) -> (r: String)
    ensures
        r@ == note_text(*n),
{
    match n {
        JobNote::DeploymentTask(k) => concat3("Deployment (", decimal(*k as u64).as_str(), " nodes)"),
        JobNote::GcTask(k) => concat3("GC (", decimal(*k as u64).as_str(), " nodes)"),
        JobNote::DeploymentProceeds(k) => concat3("Deployment will proceed for ", decimal(*k as u64).as_str(), " filtered node(s)."),
        JobNote::GcProceeds(k) => concat3("GC will proceed for ", decimal(*k as u64).as_str(), " filtered node(s)."),
        JobNote::GcStarts(i) => {
            let which = match i {
                Some(x) => x.as_str(),
                None => "all old",
            };
            concat3("Starting Garbage Collection (", which, ")...")
        },
        JobNote::DeploymentError(e) => concat2("Deployment error: ", e.as_str()),
        JobNote::SelectionError(e) => concat2("Selection error: ", e.as_str()),
        JobNote::HiveError(e) => concat2("Hive error: ", e.as_str()),
        JobNote::GcDone => owned("Garbage collection completed."),
        JobNote::GcFailed(e) => concat2("GC Failed: ", e.as_str()),
        JobNote::DaemonDeployFailed(e) => concat2("Failed to start deployment via daemon: ", e.as_str()),
        JobNote::DaemonDiffFailed(e) => concat2("Failed to start diff via daemon: ", e.as_str()),
        JobNote::DaemonGcFailed(e) => concat2("Failed to start GC via daemon: ", e.as_str()),
    }
}

/// How long the saved provenance of the node list stays valid, in seconds.
pub const PROVENANCE_CACHE_SECS: u64 = 600;

/// Whether provenance saved at `saved` (seconds since the epoch) is too old
/// at `now` to be shown: more than ten minutes have passed. A time before the
/// saved one counts as no time passed.
pub fn provenance_expired(now: u64, saved: u64) -> (r: bool)
    ensures
        r == (now > saved && now - saved > 600),
{
    now.saturating_sub(saved) > PROVENANCE_CACHE_SECS
}

/// The index of the last `;` in `s`, if any.
pub open spec fn last_semicolon(s: Seq<char>) -> Option<int>
    decreases s.len(),
{
    if s.len() == 0 {
        None
    } else if s.last() == ';' {
        Some(s.len() - 1)
    } else {
        last_semicolon(s.drop_last())
    }
}

/// Background colours of `COLORFGBG` that mark a light terminal.
pub open spec fn light_background_name(b: Seq<char>) -> bool {
    b == "7"@ || b == "15"@ || b == "231"@ || b == "252"@ || b == "253"@ || b == "254"@ || b == "255"@ || b
        == "white"@ || b == "White"@
}

/// Whether a `COLORFGBG` value (`fg;bg`, or more fields) names a light
/// background: it has at least two fields and its last field, trimmed, is one
/// of the light colours.
pub open spec fn colorfgbg_light(v: Seq<char>) -> bool {
    match last_semicolon(v) {
        Some(k) => light_background_name(trim_seq(v.subrange(k + 1, v.len() as int))),
        None => false,
    }
}

/// Whether the terminal's `COLORFGBG` value marks a light background (see [`colorfgbg_light`]).
pub fn light_background(colorfgbg: &str) -> (r: bool)
    ensures
        r == colorfgbg_light(colorfgbg@),
{
    let n = colorfgbg.unicode_len();
    let mut i: usize = n;
    proof {
        assert(colorfgbg@.subrange(0, n as int) =~= colorfgbg@);
    }
    while i > 0 && colorfgbg.get_char(i - 1) != ';'
        invariant
            i <= n,
            n == colorfgbg@.len(),
            last_semicolon(colorfgbg@) == last_semicolon(colorfgbg@.subrange(0, i as int)),
        decreases i,
    {
        assert(colorfgbg@.subrange(0, i as int).drop_last() =~= colorfgbg@.subrange(0, i - 1));
        i = i - 1;
    }
    if i == 0 {
        assert(colorfgbg@.subrange(0, 0).len() == 0);
        return false;
    }
    assert(colorfgbg@.subrange(0, i as int).last() == ';');
    let last = substring(colorfgbg, i, n);
    let t = trim_str(last.as_str());
    let b = t.as_str();
    str_eq(b, "7") || str_eq(b, "15") || str_eq(b, "231") || str_eq(b, "252") || str_eq(b, "253") || str_eq(b, "254")
        || str_eq(b, "255") || str_eq(b, "white") || str_eq(b, "White")
}


/// A progress line that mentions copying a path or a closure announces
/// "Copying...", and a node that prints it while its deployment goes on is
/// shown running with that status, whatever state it was in before.
pub proof fn lemma_copying_lines(text: Seq<char>, current: NodeState)
    requires
        has_infix(text, "copying closure"@) || has_infix(text, "copying path"@),
    ensures
        short_status(text) == Some("Copying..."@),
        next_state_view(LineStyle::Normal, text, current) == (2int, "Copying..."@),
{
}

} // verus!
